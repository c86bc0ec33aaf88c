//! From command to result: the action that stands for each command, the
//! steps of executing one action, and the pool that bounds how many run at
//! once.

pub mod action_handler;
pub mod worker_pool;

use crate::common::{
    Action, ActionType, ChangeNodeStateAction, Command, CommandType, RunAction,
};
use crate::channel::{flow_of, hand_on, Flow};
use crate::logging::logger::Logger;
use std::sync::mpsc::Sender;
use uuid::Uuid;
use crate::orchestrating::worker_pool::{Job, WorkerPool};
use vstd::prelude::*;
use vstd::string::StringExecFns;

verus! {

/// The handle through which commands enter the orchestrator's queue.
pub struct Orchestrator {
    sender: Sender<Command>,
}

impl Orchestrator {
    /// The sending end of the queue that this handle feeds.
    pub closed spec fn channel(&self) -> Sender<Command> {
        self.sender
    }

    /// A handle on the queue that `sender` feeds.
    pub fn attach(sender: Sender<Command>) -> (handle: Orchestrator)
        ensures
            handle.channel() == sender,
    {
        Orchestrator { sender }
    }

    /// Queues a command for the orchestrator. `Stop` tells that the
    /// orchestrator has gone and the command with it.
    pub fn queue_command(&self, command: Command) -> (flow: Flow)
        ensures
            exists|accepted: nat| accepted <= 1 && flow == #[trigger] flow_of(1, accepted),
    {
        let mut commands: Vec<Command> = Vec::new();
        commands.push(command);
        hand_on(&self.sender, commands)
    }
}

/// The number of workers that the orchestrator starts its pool with.
pub const DEFAULT_WORKERS: usize = 4;

/// The action for a command: the same id, and the same payload in its
/// ready-to-execute form. Every command has exactly one.
pub fn to_action(command: Command) -> (action: Action)
    ensures
        action@ == command@,
        action.id == command.id,
        action@.payload == command@.payload,
{
    match command.command_type {
        CommandType::Test => Action { id: command.id, action_type: ActionType::Test },
        CommandType::Run(run_command) => Action {
            id: command.id,
            action_type: ActionType::Run(RunAction { message: run_command.message }),
        },
        CommandType::ChangeNodeState(new_state) => Action {
            id: command.id,
            action_type: ActionType::ChangeNodeState(
                ChangeNodeStateAction { node: new_state.node, new_state: new_state.new_state },
            ),
        },
    }
}

/// The job for a command: its action, with a logger of its own that is
/// named `action_` and the id as it is displayed.
pub fn job_for(command: Command, logger: &Logger) -> (job: Job)
    ensures
        job@ == command@,
        exists|id_text: String| #[trigger]
            vstd::string::to_string_from_display_ensures::<Uuid>(&command.id, id_text)
                && job.logger.name() == "action_"@ + id_text@,
{
    let id = command.id.to_string();
    assert(vstd::string::to_string_from_display_ensures::<Uuid>(&command.id, id));
    let _ = logger.log_info(
        String::from_str("Command ").concat(id.as_str()).concat(" received"),
    );
    let action = to_action(command);
    let action_logger = logger.create_from(String::from_str("action_").concat(id.as_str()));
    Job { action, logger: action_logger }
}

/// Takes one command from the queue to the pool: derives its action and
/// submits the job. The job waits in the pool's queue; dispatching never waits for
/// it to run.
pub fn dispatch(command: Command, workers: &mut WorkerPool, logger: &Logger)
    ensures
        final(workers)@ == crate::orchestrating::worker_pool::submitted(old(workers)@, command@),
{
    let job = job_for(command, logger);
    workers.execute(job);
}

} // verus!
