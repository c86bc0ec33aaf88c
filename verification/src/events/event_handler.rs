//! What the event loop does with one event.

use crate::common::{Command, CommandType, Event, EventPayload, EventType, EventView, WorkPayload, WorkView};
use crate::channel::{flow_of, hand_on, Flow};
use crate::logging::logger::Logger;
use std::sync::mpsc::Sender;
use vstd::prelude::*;
use vstd::string::StringExecFns;

verus! {

/// The commands that an event gives rise to: a test event asks for a test
/// under its own id; results and state changes end here.
pub open spec fn event_commands(event: EventView) -> Seq<WorkView> {
    match event.payload {
        EventPayload::Test => seq![WorkView { id: event.id, payload: WorkPayload::Test }],
        EventPayload::RunResult { .. } => Seq::empty(),
        EventPayload::NodeStateChange { .. } => Seq::empty(),
    }
}

/// Maps one event to the commands that follow from it, in the order in
/// which they are to be queued. The outcome of a run is logged as success
/// or failure.
pub fn handle_event(event: Event, logger: &Logger) -> (commands: Vec<Command>)
    ensures
        crate::common::command_views(commands@) == event_commands(event@),
{
    let _ = logger.log_info(
        String::from_str("Handling event ").concat(event.id.to_string().as_str()),
    );
    let mut commands: Vec<Command> = Vec::new();
    match event.event_type {
        EventType::Test => {
            commands.push(Command { id: event.id, command_type: CommandType::Test });
            assert(crate::common::command_views(commands@) =~= seq![
                WorkView { id: event.id, payload: WorkPayload::Test },
            ]);
        },
        EventType::RunResult(run_result) => {
            if run_result.successful {
                let _ = logger.log_success(
                    String::from_str("Run successful - ").concat(run_result.message.as_str()),
                );
            } else {
                let _ = logger.log_error(
                    String::from_str("Run failed - ").concat(run_result.message.as_str()),
                );
            }
            assert(crate::common::command_views(commands@) =~= Seq::empty());
        },
        EventType::NodeStateChange(_) => {
            assert(crate::common::command_views(commands@) =~= Seq::empty());
        },
    }
    commands
}

/// One turn of the event loop: maps the event and queues its commands in
/// order. The loop stops if the command queue has gone.
pub fn process_event(event: Event, command_sender: &Sender<Command>, logger: &Logger) -> (flow: Flow)
    ensures
        event_commands(event@).len() == 0 ==> flow == Flow::Continue,
        exists|accepted: nat|
            accepted <= event_commands(event@).len() && flow == #[trigger] flow_of(
                event_commands(event@).len(),
                accepted,
            ),
{
    let commands = handle_event(event, logger);
    assert(crate::common::command_views(commands@).len() == commands@.len());
    hand_on(command_sender, commands)
}

} // verus!
