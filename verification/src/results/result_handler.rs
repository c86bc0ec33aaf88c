//! What the result handler does with one action result.

use crate::common::{ActionResult, Event, EventView, Operation, OperationView};
use crate::channel::{flow_of, hand_on, Flow};
use crate::logging::logger::Logger;
use std::sync::mpsc::Sender;
use vstd::prelude::*;
use vstd::string::StringExecFns;

verus! {

/// The events inside the `RaiseEvent` operations of `ops`, in order.
pub open spec fn raised_events(ops: Seq<OperationView>) -> Seq<EventView>
    decreases ops.len(),
{
    if ops.len() == 0 {
        Seq::empty()
    } else {
        match ops.last() {
            OperationView::Test => raised_events(ops.drop_last()),
            OperationView::RaiseEvent(event) => raised_events(ops.drop_last()).push(event),
        }
    }
}

/// Extracts the events to forward from a result: those of its `RaiseEvent`
/// operations, in order. The result's flag is logged as success or failure.
pub fn handle_result(result: ActionResult, logger: &Logger) -> (events: Vec<Event>)
    ensures
        crate::common::event_views(events@) == raised_events(result@.ops),
{
    let id = result.id.to_string();
    if result.successful {
        let _ = logger.log_success(
            String::from_str("Action ").concat(id.as_str()).concat(" success. Message - ").concat(
                result.message.as_str(),
            ),
        );
    } else {
        let _ = logger.log_error(
            String::from_str("Action ").concat(id.as_str()).concat(" failed. Message - ").concat(
                result.message.as_str(),
            ),
        );
    }
    let mut events: Vec<Event> = Vec::new();
    let ghost all = crate::common::operation_views(result.ops@);
    assert(crate::common::event_views(events@) =~= Seq::empty());
    assert(all.take(0) =~= Seq::empty());
    for op in it: result.ops
        invariant
            all == crate::common::operation_views(it.seq()),
            crate::common::event_views(events@) == raised_events(all.take(it.index())),
    {
        proof {
            assert(all.take(it.index() + 1).drop_last() =~= all.take(it.index()));
            assert(all.take(it.index() + 1).last() == op@);
        }
        let ghost before = events@;
        match op {
            Operation::Test => {},
            Operation::RaiseEvent(event) => {
                events.push(event);
                assert(crate::common::event_views(events@) =~= crate::common::event_views(
                    before,
                ).push(event@));
            },
        }
    }
    assert(all.take(all.len() as int) =~= all);
    events
}

/// The forwarded events are exactly the operations that raise an event,
/// each reduced to its event, with their order kept.
pub proof fn lemma_raised_events_are_the_raise_operations(ops: Seq<OperationView>)
    ensures
        raised_events(ops) == ops.filter(|op: OperationView| op is RaiseEvent).map_values(
            |op: OperationView| op->RaiseEvent_0,
        ),
    decreases ops.len(),
{
    reveal(Seq::filter);
    let raises = |op: OperationView| op is RaiseEvent;
    let event_of = |op: OperationView| op->RaiseEvent_0;
    if ops.len() == 0 {
        assert(ops.filter(raises).map_values(event_of) =~= Seq::<EventView>::empty());
    } else {
        let front = ops.drop_last();
        lemma_raised_events_are_the_raise_operations(front);
        match ops.last() {
            OperationView::Test => {
                assert(ops.filter(raises) == front.filter(raises));
            },
            OperationView::RaiseEvent(event) => {
                assert(ops.filter(raises) == front.filter(raises).push(ops.last()));
                assert(front.filter(raises).push(ops.last()).map_values(event_of)
                    =~= front.filter(raises).map_values(event_of).push(event));
            },
        }
    }
}

/// Forwarding keeps the order: the events of two runs of operations are
/// those of the first followed by those of the second.
pub proof fn lemma_raised_events_concat(first: Seq<OperationView>, second: Seq<OperationView>)
    ensures
        raised_events(first + second) == raised_events(first) + raised_events(second),
    decreases second.len(),
{
    if second.len() == 0 {
        assert(first + second =~= first);
        assert(raised_events(first) + raised_events(second) =~= raised_events(first));
    } else {
        lemma_raised_events_concat(first, second.drop_last());
        assert((first + second).drop_last() =~= first + second.drop_last());
        assert((first + second).last() == second.last());
        match second.last() {
            OperationView::Test => {},
            OperationView::RaiseEvent(event) => {
                assert((raised_events(first) + raised_events(second.drop_last())).push(event)
                    =~= raised_events(first) + raised_events(second.drop_last()).push(event));
            },
        }
    }
}

/// A test operation forwards nothing, and a `RaiseEvent` forwards exactly
/// its event.
pub proof fn lemma_raised_events_single(op: OperationView)
    ensures
        raised_events(seq![op]) == (match op {
            OperationView::Test => Seq::<EventView>::empty(),
            OperationView::RaiseEvent(event) => seq![event],
        }),
{
    assert(seq![op].drop_last() =~= Seq::<OperationView>::empty());
    assert(seq![op].last() == op);
    assert(raised_events(Seq::<OperationView>::empty()) =~= Seq::<EventView>::empty());
    match op {
        OperationView::Test => {},
        OperationView::RaiseEvent(event) => {
            assert(Seq::<EventView>::empty().push(event) =~= seq![event]);
        },
    }
}

/// Every forwarded event stands in a `RaiseEvent` operation of the result,
/// and no more events are forwarded than the result has operations.
pub proof fn lemma_raised_events_come_from_ops(ops: Seq<OperationView>)
    ensures
        raised_events(ops).len() <= ops.len(),
        forall|i: int|
            0 <= i < raised_events(ops).len() ==> ops.contains(
                OperationView::RaiseEvent(#[trigger] raised_events(ops)[i]),
            ),
    decreases ops.len(),
{
    if ops.len() > 0 {
        let front = ops.drop_last();
        lemma_raised_events_come_from_ops(front);
        assert forall|i: int| 0 <= i < raised_events(ops).len() implies ops.contains(
            OperationView::RaiseEvent(#[trigger] raised_events(ops)[i]),
        ) by {
            if i < raised_events(front).len() {
                let op = OperationView::RaiseEvent(raised_events(front)[i]);
                assert(front.contains(op));
                let j = choose|j: int| 0 <= j < front.len() && front[j] == op;
                assert(ops[j] == op);
            } else {
                assert(ops[ops.len() - 1] == ops.last());
            }
        }
    }
}

/// One turn of the result handler: extracts the events of a result and
/// forwards them, in order, to the event loop's queue. The handler stops
/// if that queue has gone.
pub fn process_result(result: ActionResult, event_sender: &Sender<Event>, logger: &Logger) -> (flow:
    Flow)
    ensures
        raised_events(result@.ops).len() == 0 ==> flow == Flow::Continue,
        exists|accepted: nat|
            accepted <= raised_events(result@.ops).len() && flow == #[trigger] flow_of(
                raised_events(result@.ops).len(),
                accepted,
            ),
{
    let events = handle_result(result, logger);
    assert(crate::common::event_views(events@).len() == events@.len());
    hand_on(event_sender, events)
}

} // verus!
