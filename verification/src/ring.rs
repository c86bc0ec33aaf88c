//! What holds of the ring as a whole, across its stages.

use crate::common::{EventView, OperationView, WorkView};
use crate::events::event_handler::event_commands;
use crate::io::UpdateResponseView;
use crate::orchestrating::action_handler::action_result;
use crate::results::result_handler::raised_events;
use uuid::Uuid;
use vstd::prelude::*;

verus! {

/// The events that one unit of work sends back to the event loop: those
/// that the result handler forwards from the result of its action. A
/// command and its action have the same view, so this holds of either.
pub open spec fn events_of_work(
    work: WorkView,
    address: Option<Seq<char>>,
    response: Result<Option<Seq<u8>>, Seq<char>>,
    decoded: Option<UpdateResponseView>,
    event_id: Uuid,
) -> Seq<EventView> {
    raised_events(action_result(work, address, response, decoded, event_id).ops)
}

/// One unit of work keeps its id from the command to the result, and
/// sends at most one event back to the event loop. That event has the id
/// that was drawn for it, and it asks for no further command: the ring
/// comes to rest after one turn.
pub proof fn lemma_ring_rests_after_one_turn(
    work: WorkView,
    address: Option<Seq<char>>,
    response: Result<Option<Seq<u8>>, Seq<char>>,
    decoded: Option<UpdateResponseView>,
    event_id: Uuid,
)
    ensures
        action_result(work, address, response, decoded, event_id).id == work.id,
        events_of_work(work, address, response, decoded, event_id).len() <= 1,
        forall|i: int|
            0 <= i < events_of_work(work, address, response, decoded, event_id).len() ==> {
                &&& (#[trigger] events_of_work(work, address, response, decoded, event_id)[i]).id
                    == event_id
                &&& event_commands(events_of_work(work, address, response, decoded, event_id)[i])
                    == Seq::<WorkView>::empty()
            },
{
    let ops = action_result(work, address, response, decoded, event_id).ops;
    assert(raised_events(Seq::<OperationView>::empty()) =~= Seq::<EventView>::empty());
    if ops.len() == 1 {
        assert(ops.drop_last() =~= Seq::<OperationView>::empty());
        assert(ops.last() == ops[0]);
        match ops[0] {
            OperationView::Test => {},
            OperationView::RaiseEvent(event) => {
                assert(raised_events(ops) =~= seq![event]);
            },
        }
    } else {
        assert(ops =~= Seq::<OperationView>::empty());
    }
}

} // verus!
