use node_controller::channel::Flow;
use node_controller::common::{Action, ActionResult, ActionType, Command, CommandType};
use node_controller::logging::common::{LogItem, LogItemType};
use node_controller::logging::logger::Logger;
use node_controller::orchestrating::worker_pool::{report, Job, WorkerPool};
use node_controller::orchestrating::{dispatch, Orchestrator, DEFAULT_WORKERS};
use std::sync::mpsc::{channel, Receiver};
use uuid::Uuid;

fn logger() -> (Logger, Receiver<LogItem>) {
    let (sender, receiver) = channel();
    (Logger::create("worker_pool".to_string(), sender), receiver)
}

fn job(n: u128, log: &Logger) -> Job {
    Job {
        action: Action { id: Uuid::from_u128(n), action_type: ActionType::Test },
        logger: log.create_from(format!("action_{}", n)),
    }
}

fn result(n: u128, successful: bool) -> ActionResult {
    ActionResult { id: Uuid::from_u128(n), successful, message: String::new(), ops: vec![] }
}

#[test]
fn new_pool_is_idle() {
    let pool = WorkerPool::new(DEFAULT_WORKERS);
    assert_eq!(DEFAULT_WORKERS, 4);
    assert_eq!(pool.size(), 4);
    assert_eq!(pool.queued(), 0);
    assert_eq!(pool.running(), 0);
}

#[test]
fn more_jobs_than_workers_wait_in_the_queue() {
    let (log, _lines) = logger();
    let (results, delivered) = channel();
    let workers = 4;
    let jobs = 10;
    let mut pool = WorkerPool::new(workers);
    for n in 0..jobs {
        pool.execute(job(n as u128, &log));
    }
    assert_eq!(pool.queued(), jobs);

    let mut taken: Vec<Uuid> = Vec::new();
    let mut holding: Vec<Option<Uuid>> = vec![None; workers];
    let mut rounds = 0;
    while pool.queued() > 0 || pool.running() > 0 {
        for worker in 0..workers {
            if let Some(job) = pool.take(worker) {
                taken.push(job.action.id);
                holding[worker] = Some(job.action.id);
            }
            assert!(pool.running() <= workers);
        }
        assert_eq!(pool.running(), holding.iter().filter(|h| h.is_some()).count());
        for worker in 0..workers {
            if let Some(id) = holding[worker].take() {
                let done = ActionResult {
                    id,
                    successful: true,
                    message: String::new(),
                    ops: vec![],
                };
                assert_eq!(report(&mut pool, worker, done, &results, &log), Flow::Continue);
            }
        }
        rounds += 1;
        assert!(rounds <= jobs);
    }
    let expected: Vec<Uuid> = (0..jobs).map(|n| Uuid::from_u128(n as u128)).collect();
    assert_eq!(taken, expected);
    let mut handed_on: Vec<Uuid> = delivered.try_iter().map(|r: ActionResult| r.id).collect();
    assert_eq!(handed_on.len(), jobs);
    handed_on.sort();
    handed_on.dedup();
    assert_eq!(handed_on, expected);
}

#[test]
fn busy_worker_takes_no_second_job() {
    let (log, _lines) = logger();
    let mut pool = WorkerPool::new(2);
    pool.execute(job(1, &log));
    pool.execute(job(2, &log));
    pool.execute(job(3, &log));
    assert_eq!(pool.take(0).unwrap().action.id, Uuid::from_u128(1));
    assert!(pool.take(0).is_none());
    assert!(pool.take(2).is_none());
    assert_eq!(pool.take(1).unwrap().action.id, Uuid::from_u128(2));
    assert_eq!(pool.running(), 2);
    assert_eq!(pool.queued(), 1);
    assert_eq!(pool.complete(0, result(1, true)), Some(result(1, true)));
    assert_eq!(pool.running(), 1);
    assert_eq!(pool.take(0).unwrap().action.id, Uuid::from_u128(3));
    assert!(pool.take(0).is_none());
    assert_eq!(pool.queued(), 0);
}

#[test]
fn idle_worker_has_nothing_to_hand_on() {
    let (log, lines) = logger();
    let (results, delivered) = channel();
    let mut pool = WorkerPool::new(1);
    assert_eq!(pool.complete(0, result(1, true)), None);
    assert_eq!(pool.complete(5, result(1, true)), None);
    assert!(pool.take(0).is_none());
    assert_eq!(report(&mut pool, 0, result(1, false), &results, &log), Flow::Continue);
    assert_eq!(delivered.try_iter().count(), 0);
    let lines: Vec<LogItemType> = lines.try_iter().map(|item| item.item_type).collect();
    assert_eq!(lines, vec![LogItemType::Error]);
}

#[test]
fn worker_logs_by_the_result_flag_and_forwards_once() {
    let (log, lines) = logger();
    let (results, delivered) = channel();
    let mut pool = WorkerPool::new(1);
    pool.execute(job(1, &log));
    pool.execute(job(2, &log));
    pool.take(0).unwrap();
    assert_eq!(report(&mut pool, 0, result(1, true), &results, &log), Flow::Continue);
    pool.take(0).unwrap();
    assert_eq!(report(&mut pool, 0, result(2, false), &results, &log), Flow::Continue);
    let forwarded: Vec<ActionResult> = delivered.try_iter().collect();
    assert_eq!(forwarded, vec![result(1, true), result(2, false)]);
    let lines: Vec<(LogItemType, String)> =
        lines.try_iter().map(|item| (item.item_type, item.message)).collect();
    assert_eq!(
        lines,
        vec![
            (LogItemType::Success, "Job completed successfully".to_string()),
            (LogItemType::Error, "Job failed".to_string()),
        ]
    );
}

#[test]
fn worker_stops_when_the_result_channel_is_gone() {
    let (log, _lines) = logger();
    let (results, delivered) = channel();
    drop(delivered);
    let mut pool = WorkerPool::new(1);
    pool.execute(job(1, &log));
    pool.take(0).unwrap();
    assert_eq!(report(&mut pool, 0, result(1, true), &results, &log), Flow::Stop);
    assert_eq!(pool.running(), 0);
}

#[test]
fn dispatch_submits_without_running() {
    let (log, _lines) = logger();
    let mut pool = WorkerPool::new(2);
    for n in 0..5u128 {
        dispatch(Command { id: Uuid::from_u128(n), command_type: CommandType::Test }, &mut pool, &log);
    }
    assert_eq!(pool.queued(), 5);
    assert_eq!(pool.running(), 0);
    assert_eq!(pool.take(1).unwrap().action.id, Uuid::from_u128(0));
}

#[test]
fn queued_command_reaches_the_orchestrator_queue() {
    let (sender, queue) = channel();
    let orchestrator = Orchestrator::attach(sender);
    let command = || Command { id: Uuid::from_u128(3), command_type: CommandType::Test };
    assert_eq!(orchestrator.queue_command(command()), Flow::Continue);
    assert_eq!(queue.recv().unwrap(), command());
    drop(queue);
    assert_eq!(orchestrator.queue_command(command()), Flow::Stop);
}
