//! The values that travel round the ring, and their mathematical views.

use uuid::Uuid;
use vstd::prelude::*;

verus! {

/// `uuid::Uuid`, the correlation id. The library only carries ids through and
/// compares them in contracts; it never looks inside one.
#[verifier::external_type_specification]
#[verifier::external_body]
pub struct ExUuid(Uuid);

/// Something that happened, on its way to the event loop.
#[derive(Debug, PartialEq, Eq)]
pub struct Event {
    pub id: Uuid,
    pub event_type: EventType,
}

/// What an event reports.
#[derive(Debug, PartialEq, Eq)]
pub enum EventType {
    Test,
    RunResult(RunResultEvent),
    NodeStateChange(NodeStateChangeEvent),
}

/// The outcome of a run.
#[derive(Debug, PartialEq, Eq)]
pub struct RunResultEvent {
    pub successful: bool,
    pub message: String,
}

/// A node's change from one state to another.
#[derive(Debug, PartialEq, Eq)]
pub struct NodeStateChangeEvent {
    pub node: String,
    pub old_state: u8,
    pub new_state: u8,
}

/// A request for work, on its way to the orchestrator.
#[derive(Debug, PartialEq, Eq)]
pub struct Command {
    pub id: Uuid,
    pub command_type: CommandType,
}

/// What a command asks for.
#[derive(Debug, PartialEq, Eq)]
pub enum CommandType {
    Test,
    Run(RunCommand),
    ChangeNodeState(ChangeNodeStateCommand),
}

/// A run, described by a message.
#[derive(Debug, PartialEq, Eq)]
pub struct RunCommand {
    pub message: String,
}

/// A node and the state it is to take.
#[derive(Debug, PartialEq, Eq)]
pub struct ChangeNodeStateCommand {
    pub node: String,
    pub new_state: u8,
}

/// A command in its ready-to-execute form, on its way to a worker.
#[derive(Debug, PartialEq, Eq)]
pub struct Action {
    pub id: Uuid,
    pub action_type: ActionType,
}

/// What an action does; the same shapes as `CommandType`.
#[derive(Debug, PartialEq, Eq)]
pub enum ActionType {
    Test,
    Run(RunAction),
    ChangeNodeState(ChangeNodeStateAction),
}

/// A run, described by a message.
#[derive(Debug, PartialEq, Eq)]
pub struct RunAction {
    pub message: String,
}

/// A node and the state it is to take.
#[derive(Debug, PartialEq, Eq)]
pub struct ChangeNodeStateAction {
    pub node: String,
    pub new_state: u8,
}

/// What executing an action gave, on its way to the result handler.
#[derive(Debug, PartialEq, Eq)]
pub struct ActionResult {
    pub id: Uuid,
    pub successful: bool,
    pub message: String,
    pub ops: Vec<Operation>,
}

/// One effect that a result asks for. Only `RaiseEvent` reaches the ring.
#[derive(Debug, PartialEq, Eq)]
pub enum Operation {
    Test,
    RaiseEvent(Event),
}

/// What an event says, with text as sequences of characters.
pub enum EventPayload {
    Test,
    RunResult { successful: bool, message: Seq<char> },
    NodeStateChange { node: Seq<char>, old_state: u8, new_state: u8 },
}

/// An event with its text as characters.
pub struct EventView {
    pub id: Uuid,
    pub payload: EventPayload,
}

/// What a unit of work asks for. Commands and actions share this model: an
/// action is the ready-to-execute form of the command with the same payload.
pub enum WorkPayload {
    Test,
    Run { message: Seq<char> },
    ChangeNodeState { node: Seq<char>, new_state: u8 },
}

/// A command or an action: the id of the unit of work and what it asks for.
pub struct WorkView {
    pub id: Uuid,
    pub payload: WorkPayload,
}

/// An operation with its text as characters.
pub enum OperationView {
    Test,
    RaiseEvent(EventView),
}

/// A result with its text as characters and its operations in order.
pub struct ActionResultView {
    pub id: Uuid,
    pub successful: bool,
    pub message: Seq<char>,
    pub ops: Seq<OperationView>,
}

impl View for EventType {
    type V = EventPayload;

    open spec fn view(&self) -> EventPayload {
        match *self {
            EventType::Test => EventPayload::Test,
            EventType::RunResult(r) => EventPayload::RunResult {
                successful: r.successful,
                message: r.message@,
            },
            EventType::NodeStateChange(c) => EventPayload::NodeStateChange {
                node: c.node@,
                old_state: c.old_state,
                new_state: c.new_state,
            },
        }
    }
}

impl View for Event {
    type V = EventView;

    open spec fn view(&self) -> EventView {
        EventView { id: self.id, payload: self.event_type@ }
    }
}

impl View for CommandType {
    type V = WorkPayload;

    open spec fn view(&self) -> WorkPayload {
        match *self {
            CommandType::Test => WorkPayload::Test,
            CommandType::Run(r) => WorkPayload::Run { message: r.message@ },
            CommandType::ChangeNodeState(c) => WorkPayload::ChangeNodeState {
                node: c.node@,
                new_state: c.new_state,
            },
        }
    }
}

impl View for Command {
    type V = WorkView;

    open spec fn view(&self) -> WorkView {
        WorkView { id: self.id, payload: self.command_type@ }
    }
}

impl View for ActionType {
    type V = WorkPayload;

    open spec fn view(&self) -> WorkPayload {
        match *self {
            ActionType::Test => WorkPayload::Test,
            ActionType::Run(r) => WorkPayload::Run { message: r.message@ },
            ActionType::ChangeNodeState(c) => WorkPayload::ChangeNodeState {
                node: c.node@,
                new_state: c.new_state,
            },
        }
    }
}

impl View for Action {
    type V = WorkView;

    open spec fn view(&self) -> WorkView {
        WorkView { id: self.id, payload: self.action_type@ }
    }
}

impl View for Operation {
    type V = OperationView;

    open spec fn view(&self) -> OperationView {
        match *self {
            Operation::Test => OperationView::Test,
            Operation::RaiseEvent(e) => OperationView::RaiseEvent(e@),
        }
    }
}

/// The views of a sequence of operations, in order.
pub open spec fn operation_views(ops: Seq<Operation>) -> Seq<OperationView> {
    ops.map_values(|op: Operation| op@)
}

/// The views of a sequence of events, in order.
pub open spec fn event_views(events: Seq<Event>) -> Seq<EventView> {
    events.map_values(|e: Event| e@)
}

/// The views of a sequence of commands, in order.
pub open spec fn command_views(commands: Seq<Command>) -> Seq<WorkView> {
    commands.map_values(|c: Command| c@)
}

impl View for ActionResult {
    type V = ActionResultView;

    open spec fn view(&self) -> ActionResultView {
        ActionResultView {
            id: self.id,
            successful: self.successful,
            message: self.message@,
            ops: operation_views(self.ops@),
        }
    }
}

/// `Uuid::new_v4`: a random id. Nothing is promised of it; callers state
/// what holds whichever id comes back. The call fails only if the system
/// cannot supply random bytes.
#[verifier::external_body]
pub(crate) fn fresh_id() -> Uuid {
    Uuid::new_v4()
}

} // verus!
