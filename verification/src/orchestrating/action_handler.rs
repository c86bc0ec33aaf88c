//! The execution of one action, cut at the two points where it needs the
//! outside world: the lookup of a node's address and the call to that node.
//! Each step takes what the previous request brought back.

use crate::common::{
    fresh_id, Action, ActionResult, ActionResultView, ActionType, Event, EventPayload, EventType,
    EventView, NodeStateChangeEvent, Operation, OperationView, RunResultEvent, WorkPayload,
    WorkView,
};
use crate::http::common::HttpResponse;
use crate::io::{body_decoded, optional_update, UpdateNodeStateResponse, UpdateResponseView, reply_body};
use crate::logging::logger::Logger;
use crate::text::{decimal, from_chars, push_decimal, to_chars};
use uuid::Uuid;
use vstd::prelude::*;
use vstd::string::StringExecFns;

verus! {

/// A state change that waits for the outside world.
#[derive(Debug, PartialEq, Eq)]
pub struct PendingChange {
    pub id: Uuid,
    pub node: String,
    pub new_state: u8,
}

/// A pending change with its text as characters.
pub struct PendingChangeView {
    pub id: Uuid,
    pub node: Seq<char>,
    pub new_state: u8,
}

impl View for PendingChange {
    type V = PendingChangeView;

    open spec fn view(&self) -> PendingChangeView {
        PendingChangeView { id: self.id, node: self.node@, new_state: self.new_state }
    }
}

/// The request to send to a node.
#[derive(Clone, Debug, PartialEq, Eq)]
pub struct OutboundCall {
    pub address: String,
    pub route: String,
    pub content_type: String,
}

/// An outbound call with its text as characters.
pub struct OutboundCallView {
    pub address: Seq<char>,
    pub route: Seq<char>,
    pub content_type: Seq<char>,
}

impl View for OutboundCall {
    type V = OutboundCallView;

    open spec fn view(&self) -> OutboundCallView {
        OutboundCallView {
            address: self.address@,
            route: self.route@,
            content_type: self.content_type@,
        }
    }
}

/// Where an action stands after its first step.
#[derive(Debug, PartialEq, Eq)]
pub enum ActionStep {
    /// The action is done.
    Finished(ActionResult),
    /// The address of the pending change's node has to be looked up.
    Resolve(PendingChange),
}

/// Where a state change stands once the lookup has answered.
#[derive(Debug, PartialEq, Eq)]
pub enum ResolveStep {
    /// The node is unknown; the action is done without effect.
    Finished(ActionResult),
    /// The call has to be sent to the node.
    Call(PendingChange, OutboundCall),
}

/// A result that reports success and carries `ops`.
pub open spec fn completed(id: Uuid, ops: Seq<OperationView>) -> ActionResultView {
    ActionResultView { id, successful: true, message: "Hello, World!"@, ops }
}

/// The event that reports a finished run.
pub open spec fn run_event(event_id: Uuid, message: Seq<char>) -> EventView {
    EventView { id: event_id, payload: EventPayload::RunResult { successful: true, message } }
}

/// The event that reports a node's change of state.
pub open spec fn change_event(event_id: Uuid, node: Seq<char>, old_state: u8, new_state: u8) -> EventView {
    EventView { id: event_id, payload: EventPayload::NodeStateChange { node, old_state, new_state } }
}

/// The state of an action after its first step: the result of an action that
/// needs nothing from outside, or `None` for a state change, which waits for
/// its node's address.
pub open spec fn first_step(action: WorkView, event_id: Uuid) -> Option<ActionResultView> {
    match action.payload {
        WorkPayload::Test => Some(completed(action.id, seq![OperationView::Test])),
        WorkPayload::Run { message } => Some(
            completed(action.id, seq![OperationView::RaiseEvent(run_event(event_id, message))]),
        ),
        WorkPayload::ChangeNodeState { .. } => None,
    }
}

/// The change that an action leaves pending, if it is a state change.
pub open spec fn pending_of(action: WorkView) -> Option<PendingChangeView> {
    match action.payload {
        WorkPayload::ChangeNodeState { node, new_state } => Some(
            PendingChangeView { id: action.id, node, new_state },
        ),
        _ => None,
    }
}

/// The route on a node that sets its state.
pub open spec fn set_state_path(new_state: u8) -> Seq<char> {
    "/set-state/"@ + decimal(new_state as nat)
}

/// The call that asks the node at `address` for the pending change.
pub open spec fn call_for(pending: PendingChangeView, address: Seq<char>) -> OutboundCallView {
    OutboundCallView {
        address,
        route: set_state_path(pending.new_state),
        content_type: "text/plain"@,
    }
}

/// The operations that a node's reply gives rise to: one event if the node
/// reports a state that differs from its old one, none otherwise, and none
/// where there is no usable reply.
pub open spec fn reply_ops(
    node: Seq<char>,
    report: Result<UpdateResponseView, Seq<char>>,
    event_id: Uuid,
) -> Seq<OperationView> {
    match report {
        Ok(r) => if r.old_state != r.new_state {
            seq![OperationView::RaiseEvent(change_event(event_id, node, r.old_state, r.new_state))]
        } else {
            Seq::empty()
        },
        Err(_) => Seq::empty(),
    }
}

/// What a call's outcome reports: the decoded reply, or why there is none.
pub open spec fn report_of(
    response: Result<Option<Seq<u8>>, Seq<char>>,
    decoded: Option<UpdateResponseView>,
) -> Result<UpdateResponseView, Seq<char>> {
    match response {
        Err(reason) => Err(reason),
        Ok(body) => body_decoded(body, decoded),
    }
}

/// The result of a state change once its call has come back.
pub open spec fn change_result(
    pending: PendingChangeView,
    response: Result<Option<Seq<u8>>, Seq<char>>,
    decoded: Option<UpdateResponseView>,
    event_id: Uuid,
) -> ActionResultView {
    completed(pending.id, reply_ops(pending.node, report_of(response, decoded), event_id))
}

fn done(id: Uuid, ops: Vec<Operation>) -> (result: ActionResult)
    ensures
        result@ == completed(id, crate::common::operation_views(ops@)),
{
    ActionResult { id, successful: true, message: String::from_str("Hello, World!"), ops }
}

fn no_op(id: Uuid) -> (result: ActionResult)
    ensures
        result@ == completed(id, Seq::empty()),
{
    let ops: Vec<Operation> = Vec::new();
    assert(crate::common::operation_views(ops@) =~= Seq::empty());
    done(id, ops)
}

/// The route that sets a node's state to `new_state`.
pub fn state_change_route(new_state: u8) -> (route: String)
    ensures
        route@ == set_state_path(new_state),
{
    let mut chars = to_chars("/set-state/");
    push_decimal(new_state as usize, &mut chars);
    from_chars(&chars)
}

/// The first step of an action, with the id for the event that a run raises.
pub fn handle_action_with(action: Action, event_id: Uuid, logger: &Logger) -> (step: ActionStep)
    ensures
        match step {
            ActionStep::Finished(result) => first_step(action@, event_id) == Some(result@),
            ActionStep::Resolve(pending) => first_step(action@, event_id) is None && pending_of(
                action@,
            ) == Some(pending@),
        },
{
    let _ = logger.log_info(String::from_str("Action completed"));
    match action.action_type {
        ActionType::Test => {
            let mut ops: Vec<Operation> = Vec::new();
            ops.push(Operation::Test);
            assert(crate::common::operation_views(ops@) =~= seq![OperationView::Test]);
            ActionStep::Finished(done(action.id, ops))
        },
        ActionType::Run(run) => {
            let ghost message = run.message@;
            let mut ops: Vec<Operation> = Vec::new();
            ops.push(
                Operation::RaiseEvent(
                    Event {
                        id: event_id,
                        event_type: EventType::RunResult(
                            RunResultEvent { successful: true, message: run.message },
                        ),
                    },
                ),
            );
            assert(crate::common::operation_views(ops@) =~= seq![
                OperationView::RaiseEvent(run_event(event_id, message)),
            ]);
            ActionStep::Finished(done(action.id, ops))
        },
        ActionType::ChangeNodeState(change) => ActionStep::Resolve(
            PendingChange { id: action.id, node: change.node, new_state: change.new_state },
        ),
    }
}

/// The first step of an action. A test or a run is done at once; the event
/// that a run raises gets a new id, drawn here. A state change waits for
/// the address of its node.
pub fn handle_action(action: Action, logger: &Logger) -> (step: ActionStep)
    ensures
        match step {
            ActionStep::Finished(result) => exists|event_id: Uuid| #[trigger]
                first_step(action@, event_id) == Some(result@),
            ActionStep::Resolve(pending) => !(action@.payload is Test) && !(action@.payload is Run)
                && pending_of(action@) == Some(pending@),
        },
{
    let event_id = match &action.action_type {
        ActionType::Run(_) => fresh_id(),
        _ => action.id,
    };
    let ghost before = action@;
    let step = handle_action_with(action, event_id, logger);
    proof {
        if step is Finished {
            assert(first_step(before, event_id) == Some(step->Finished_0@));
        }
    }
    step
}

/// The step after the lookup: without an address the change ends as a
/// successful result without operations; with one, the call to send.
pub fn after_lookup(pending: PendingChange, address: Option<String>, logger: &Logger) -> (step:
    ResolveStep)
    ensures
        match step {
            ResolveStep::Finished(result) => address is None && result@ == completed(
                pending.id,
                Seq::empty(),
            ),
            ResolveStep::Call(same, call) => address matches Some(a) && same@ == pending@ && call@
                == call_for(pending@, a@),
        },
{
    match address {
        None => {
            let _ = logger.log_warning(String::from_str("Could not resolve name"));
            ResolveStep::Finished(no_op(pending.id))
        },
        Some(address) => {
            let route = state_change_route(pending.new_state);
            let call = OutboundCall { address, route, content_type: String::from_str("text/plain") };
            ResolveStep::Call(pending, call)
        },
    }
}

/// The last step of a state change, with the id for the event it may raise.
/// `response` is what the call returned and `decoded` what decoding its body
/// gave.
pub fn after_call_with(
    pending: PendingChange,
    response: Result<HttpResponse, &'static str>,
    decoded: Option<UpdateNodeStateResponse>,
    event_id: Uuid,
    logger: &Logger,
) -> (result: ActionResult)
    ensures
        result@ == change_result(pending@, reply_body(response), optional_update(decoded), event_id),
{
    match response {
        Ok(reply) => match UpdateNodeStateResponse::from_http_response(reply, decoded) {
            Ok(update) => {
                if update.old_state != update.new_state {
                    let _ = logger.log_success(String::from_str("Node state updated"));
                    let ghost node = pending.node@;
                    let mut ops: Vec<Operation> = Vec::new();
                    ops.push(
                        Operation::RaiseEvent(
                            Event {
                                id: event_id,
                                event_type: EventType::NodeStateChange(
                                    NodeStateChangeEvent {
                                        node: pending.node,
                                        old_state: update.old_state,
                                        new_state: update.new_state,
                                    },
                                ),
                            },
                        ),
                    );
                    assert(crate::common::operation_views(ops@) =~= seq![
                        OperationView::RaiseEvent(
                            change_event(event_id, node, update.old_state, update.new_state),
                        ),
                    ]);
                    done(pending.id, ops)
                } else {
                    let _ = logger.log_info(
                        String::from_str(
                            "Node state not updated. Requested state same as current state",
                        ),
                    );
                    no_op(pending.id)
                }
            },
            Err(reason) => {
                let _ = logger.log_error(
                    String::from_str("Failed to update node state. Error - ").concat(reason),
                );
                no_op(pending.id)
            },
        },
        Err(reason) => {
            let _ = logger.log_error(
                String::from_str("Failed to connect to node. Error - ").concat(reason),
            );
            no_op(pending.id)
        },
    }
}

/// The last step of a state change. Whatever the call brought, the result
/// reports success; it carries one event, under a new id drawn here,
/// exactly when the node reports a state that differs from its old one.
pub fn after_call(
    pending: PendingChange,
    response: Result<HttpResponse, &'static str>,
    decoded: Option<UpdateNodeStateResponse>,
    logger: &Logger,
) -> (result: ActionResult)
    ensures
        exists|event_id: Uuid| result@ == #[trigger] change_result(
            pending@,
            reply_body(response),
            optional_update(decoded),
            event_id,
        ),
{
    let raises = match &response {
        Ok(reply) => match &decoded {
            Some(update) => reply.body.is_some() && update.old_state != update.new_state,
            None => false,
        },
        Err(_) => false,
    };
    let event_id = if raises {
        fresh_id()
    } else {
        pending.id
    };
    let ghost before = pending@;
    let ghost body = reply_body(response);
    let result = after_call_with(pending, response, decoded, event_id, logger);
    assert(result@ == change_result(before, body, optional_update(decoded), event_id));
    result
}

/// What an action comes to, given all that the outside world answers: the
/// directory's answer for its node, the call's outcome, and what decoding
/// the reply gave. An action that never asks leaves those answers unused.
pub open spec fn action_result(
    action: WorkView,
    address: Option<Seq<char>>,
    response: Result<Option<Seq<u8>>, Seq<char>>,
    decoded: Option<UpdateResponseView>,
    event_id: Uuid,
) -> ActionResultView {
    match first_step(action, event_id) {
        Some(result) => result,
        None => match address {
            None => completed(action.id, Seq::empty()),
            Some(_) => change_result(pending_of(action)->0, response, decoded, event_id),
        },
    }
}

/// Whatever the outside world answers, an action ends in a successful
/// result under its own id, with at most one operation. A lookup miss, a
/// failed call and an unusable reply all end without any operation.
pub proof fn lemma_result_keeps_the_action_id(
    action: WorkView,
    address: Option<Seq<char>>,
    response: Result<Option<Seq<u8>>, Seq<char>>,
    decoded: Option<UpdateResponseView>,
    event_id: Uuid,
)
    ensures
        action_result(action, address, response, decoded, event_id).id == action.id,
        action_result(action, address, response, decoded, event_id).successful,
        action_result(action, address, response, decoded, event_id).ops.len() <= 1,
        action.payload is ChangeNodeState && (address is None || report_of(response, decoded)
            is Err) ==> action_result(action, address, response, decoded, event_id).ops.len()
            == 0,
{
}

/// A node that reports the state it already had changes nothing: the result
/// is successful and carries no operation.
pub proof fn lemma_unchanged_state_raises_nothing(
    pending: PendingChangeView,
    body: Seq<u8>,
    report: UpdateResponseView,
    event_id: Uuid,
)
    requires
        report.old_state == report.new_state,
    ensures
        change_result(pending, Ok(Some(body)), Some(report), event_id).ops.len() == 0,
        change_result(pending, Ok(Some(body)), Some(report), event_id).successful,
{
}

/// Neither a failed lookup's aftermath nor a failed call is an error: every
/// state change ends in a successful result under the action's own id.
pub proof fn lemma_change_always_succeeds(
    pending: PendingChangeView,
    response: Result<Option<Seq<u8>>, Seq<char>>,
    decoded: Option<UpdateResponseView>,
    event_id: Uuid,
)
    ensures
        change_result(pending, response, decoded, event_id).successful,
        change_result(pending, response, decoded, event_id).id == pending.id,
        change_result(pending, response, decoded, event_id).ops.len() <= 1,
{
}

} // verus!
