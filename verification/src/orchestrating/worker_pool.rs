//! The worker pool as explicit state: the jobs in the order of their
//! submission, and for each worker the job it runs. A worker runs a handler
//! only while it holds a job, so the workers bound the handlers that run at
//! once; a job leaves the queue to exactly one worker, and its result is
//! handed on exactly once.

use crate::channel::{deliver, flow_after, flow_of, Flow};
use crate::common::{Action, ActionResult, WorkView};
use crate::logging::logger::Logger;
use std::collections::VecDeque;
use std::sync::mpsc::Sender;
use vstd::prelude::*;
use vstd::string::StringExecFns;

verus! {

/// One unit of work for the pool: the action and its log context.
pub struct Job {
    pub action: Action,
    pub logger: Logger,
}

impl View for Job {
    type V = WorkView;

    open spec fn view(&self) -> WorkView {
        self.action@
    }
}

/// The queue of waiting jobs and the slots of the workers.
pub struct WorkerPool {
    queue: VecDeque<Job>,
    busy: Vec<bool>,
    ledger: Ghost<PoolView>,
}

/// The pool's ledger. Jobs are known by their number: the first job
/// submitted is job 0.
pub struct PoolView {
    /// The number of workers.
    pub size: nat,
    /// Every job that was ever submitted, in the order of submission.
    pub jobs: Seq<WorkView>,
    /// How many of the jobs have left the queue. Jobs leave in the order in
    /// which they came, so these are the jobs before this number.
    pub started: nat,
    /// For each worker, the job it runs.
    pub running: Seq<Option<int>>,
    /// The jobs whose results were handed on, in the order in which that
    /// happened.
    pub handed_on: Seq<int>,
}

/// The jobs that wait, oldest first.
pub open spec fn queued(pool: PoolView) -> Seq<WorkView> {
    pool.jobs.skip(pool.started as int)
}

/// For each worker, whether it runs a job.
pub open spec fn occupied(pool: PoolView) -> Seq<bool> {
    pool.running.map_values(|job: Option<int>| job is Some)
}

/// The number of workers that run a job.
pub open spec fn running(busy: Seq<bool>) -> nat
    decreases busy.len(),
{
    if busy.len() == 0 {
        0
    } else {
        running(busy.drop_last()) + if busy.last() {
            1nat
        } else {
            0nat
        }
    }
}

/// Whether some worker runs the job.
pub open spec fn runs(pool: PoolView, job: int) -> bool {
    exists|worker: int| 0 <= worker < pool.running.len() && #[trigger] pool.running[worker] == Some(job)
}

/// What holds of a pool in every state: only started jobs run or are done;
/// no job runs on two workers; no result is handed on twice; and a started
/// job either runs or has handed on its result, never both.
pub open spec fn sound(pool: PoolView) -> bool {
    &&& pool.running.len() == pool.size
    &&& pool.started <= pool.jobs.len()
    &&& forall|worker: int|
        0 <= worker < pool.running.len() && (#[trigger] pool.running[worker]) is Some ==> 0
            <= pool.running[worker]->0 < pool.started
    &&& forall|first: int, second: int|
        0 <= first < pool.running.len() && 0 <= second < pool.running.len() && (
        #[trigger] pool.running[first]) is Some && pool.running[first] == (
        #[trigger] pool.running[second]) ==> first == second
    &&& forall|k: int|
        0 <= k < pool.handed_on.len() ==> 0 <= (#[trigger] pool.handed_on[k]) < pool.started
    &&& forall|first: int, second: int|
        0 <= first < second < pool.handed_on.len() ==> (#[trigger] pool.handed_on[first]) != (
        #[trigger] pool.handed_on[second])
    &&& forall|job: int|
        0 <= job < pool.started ==> (#[trigger] runs(pool, job)) != pool.handed_on.contains(job)
}

/// A pool of `size` idle workers to which nothing was submitted.
pub open spec fn fresh_pool(size: nat) -> PoolView {
    PoolView {
        size,
        jobs: Seq::empty(),
        started: 0,
        running: Seq::new(size, |worker: int| None::<int>),
        handed_on: Seq::empty(),
    }
}

/// The pool after a job has been submitted.
pub open spec fn submitted(pool: PoolView, job: WorkView) -> PoolView {
    PoolView { jobs: pool.jobs.push(job), ..pool }
}

/// Whether `worker` can take a job: it is idle and a job waits.
pub open spec fn can_take(pool: PoolView, worker: int) -> bool {
    0 <= worker < pool.running.len() && pool.running[worker] is None && pool.started
        < pool.jobs.len()
}

/// The pool after `worker` has taken the oldest waiting job.
pub open spec fn taken(pool: PoolView, worker: int) -> PoolView {
    PoolView {
        started: pool.started + 1,
        running: pool.running.update(worker, Some(pool.started as int)),
        ..pool
    }
}

/// Whether `worker` can hand on a result: it runs a job.
pub open spec fn can_complete(pool: PoolView, worker: int) -> bool {
    0 <= worker < pool.running.len() && pool.running[worker] is Some
}

/// The pool after `worker` has handed on the result of its job.
pub open spec fn finished(pool: PoolView, worker: int) -> PoolView {
    PoolView {
        running: pool.running.update(worker, None),
        handed_on: pool.handed_on.push(pool.running[worker]->0),
        ..pool
    }
}

/// Whether `worker` can make a step: take a job or hand on a result.
pub open spec fn can_step(pool: PoolView, worker: int) -> bool {
    can_take(pool, worker) || can_complete(pool, worker)
}

/// Whether the pool is at rest: nothing waits and nothing runs.
pub open spec fn at_rest(pool: PoolView) -> bool {
    pool.started == pool.jobs.len() && running(occupied(pool)) == 0
}

/// No more workers run than there are.
pub proof fn lemma_running_bounded(busy: Seq<bool>)
    ensures
        running(busy) <= busy.len(),
    decreases busy.len(),
{
    if busy.len() > 0 {
        lemma_running_bounded(busy.drop_last());
    }
}

/// Taking or freeing one slot changes the number of running workers by one.
pub proof fn lemma_running_update(busy: Seq<bool>, worker: int, value: bool)
    requires
        0 <= worker < busy.len(),
    ensures
        running(busy.update(worker, value)) == running(busy) - (if busy[worker] {
            1int
        } else {
            0int
        }) + (if value {
            1int
        } else {
            0int
        }),
    decreases busy.len(),
{
    let after = busy.update(worker, value);
    if worker == busy.len() - 1 {
        assert(after.drop_last() =~= busy.drop_last());
    } else {
        lemma_running_update(busy.drop_last(), worker, value);
        assert(after.drop_last() =~= busy.drop_last().update(worker, value));
    }
}

/// No worker runs exactly when every slot is free, and all of them run
/// exactly when every slot is taken.
pub proof fn lemma_idle_slots(busy: Seq<bool>)
    ensures
        running(busy) == 0 <==> (forall|i: int| 0 <= i < busy.len() ==> !busy[i]),
        running(busy) == busy.len() <==> (forall|i: int| 0 <= i < busy.len() ==> busy[i]),
    decreases busy.len(),
{
    if busy.len() > 0 {
        let front = busy.drop_last();
        lemma_idle_slots(front);
        lemma_running_bounded(front);
        assert forall|i: int| 0 <= i < front.len() implies front[i] == busy[i] by {}
        if forall|i: int| 0 <= i < busy.len() ==> !busy[i] {
            assert forall|i: int| 0 <= i < front.len() implies !front[i] by {
                assert(front[i] == busy[i]);
            }
        }
        if forall|i: int| 0 <= i < busy.len() ==> busy[i] {
            assert forall|i: int| 0 <= i < front.len() implies front[i] by {
                assert(front[i] == busy[i]);
            }
        }
        if running(busy) == 0 {
            assert forall|i: int| 0 <= i < busy.len() implies !busy[i] by {
                if i < front.len() {
                    assert(front[i] == busy[i]);
                }
            }
        }
        if running(busy) == busy.len() {
            assert forall|i: int| 0 <= i < busy.len() implies busy[i] by {
                if i < front.len() {
                    assert(front[i] == busy[i]);
                }
            }
        }
    }
}

/// A new pool is sound.
pub proof fn lemma_fresh_pool_sound(size: nat)
    ensures
        sound(fresh_pool(size)),
        at_rest(fresh_pool(size)),
{
    let pool = fresh_pool(size);
    assert forall|job: int| 0 <= job < pool.started implies (#[trigger] runs(pool, job))
        != pool.handed_on.contains(job) by {}
    lemma_idle_slots(occupied(pool));
}

/// Submitting a job keeps the pool sound.
pub proof fn lemma_submit_sound(pool: PoolView, job: WorkView)
    requires
        sound(pool),
    ensures
        sound(submitted(pool, job)),
        queued(submitted(pool, job)) == queued(pool).push(job),
{
    let after = submitted(pool, job);
    assert forall|j: int| 0 <= j < after.started implies (#[trigger] runs(after, j))
        != after.handed_on.contains(j) by {
        assert(runs(after, j) == runs(pool, j));
    }
    assert(queued(after) =~= queued(pool).push(job));
}

/// Taking a job keeps the pool sound: the job goes to this worker and to
/// no other.
pub proof fn lemma_take_sound(pool: PoolView, worker: int)
    requires
        sound(pool),
        can_take(pool, worker),
    ensures
        sound(taken(pool, worker)),
        queued(taken(pool, worker)) == queued(pool).skip(1),
        queued(pool)[0] == pool.jobs[pool.started as int],
        running(occupied(taken(pool, worker))) == running(occupied(pool)) + 1,
{
    let after = taken(pool, worker);
    let job = pool.started as int;
    assert forall|w: int|
        0 <= w < after.running.len() && (#[trigger] after.running[w]) is Some implies 0
        <= after.running[w]->0 < after.started by {
        if w != worker {
            assert(after.running[w] == pool.running[w]);
        }
    }
    assert forall|first: int, second: int|
        0 <= first < after.running.len() && 0 <= second < after.running.len() && (
        #[trigger] after.running[first]) is Some && after.running[first] == (
        #[trigger] after.running[second]) implies first == second by {
        if first != worker {
            assert(after.running[first] == pool.running[first]);
        }
        if second != worker {
            assert(after.running[second] == pool.running[second]);
        }
    }
    assert forall|j: int| 0 <= j < after.started implies (#[trigger] runs(after, j))
        != after.handed_on.contains(j) by {
        if j == job {
            assert(after.running[worker] == Some(job));
            if after.handed_on.contains(job) {
                let k = choose|k: int| 0 <= k < pool.handed_on.len() && pool.handed_on[k] == job;
                assert(pool.handed_on[k] < pool.started);
            }
        } else {
            if runs(pool, j) {
                let w = choose|w: int|
                    0 <= w < pool.running.len() && #[trigger] pool.running[w] == Some(j);
                assert(after.running[w] == Some(j));
            }
            if runs(after, j) {
                let w = choose|w: int|
                    0 <= w < after.running.len() && #[trigger] after.running[w] == Some(j);
                assert(pool.running[w] == Some(j));
            }
            assert(runs(after, j) == runs(pool, j));
        }
    }
    assert(queued(after) =~= queued(pool).skip(1));
    assert(occupied(after) =~= occupied(pool).update(worker, true));
    lemma_running_update(occupied(pool), worker, true);
}

/// Handing on a result keeps the pool sound: the job's result was not
/// handed on before, and the job runs no longer.
pub proof fn lemma_complete_sound(pool: PoolView, worker: int)
    requires
        sound(pool),
        can_complete(pool, worker),
    ensures
        sound(finished(pool, worker)),
        !pool.handed_on.contains(pool.running[worker]->0),
        queued(finished(pool, worker)) == queued(pool),
        running(occupied(finished(pool, worker))) == running(occupied(pool)) - 1,
{
    let after = finished(pool, worker);
    let job = pool.running[worker]->0;
    assert(runs(pool, job));
    assert(!pool.handed_on.contains(job));
    assert forall|w: int|
        0 <= w < after.running.len() && (#[trigger] after.running[w]) is Some implies 0
        <= after.running[w]->0 < after.started by {
        assert(after.running[w] == pool.running[w]);
    }
    assert forall|first: int, second: int|
        0 <= first < after.running.len() && 0 <= second < after.running.len() && (
        #[trigger] after.running[first]) is Some && after.running[first] == (
        #[trigger] after.running[second]) implies first == second by {
        assert(after.running[first] == pool.running[first]);
        assert(after.running[second] == pool.running[second]);
    }
    assert forall|k: int| 0 <= k < after.handed_on.len() implies 0 <= (
    #[trigger] after.handed_on[k]) < after.started by {
        if k < pool.handed_on.len() {
            assert(after.handed_on[k] == pool.handed_on[k]);
        }
    }
    assert forall|first: int, second: int|
        0 <= first < second < after.handed_on.len() implies (#[trigger] after.handed_on[first])
        != (#[trigger] after.handed_on[second]) by {
        assert(after.handed_on[first] == pool.handed_on[first]);
        if second < pool.handed_on.len() {
            assert(after.handed_on[second] == pool.handed_on[second]);
        } else {
            assert(pool.handed_on.contains(pool.handed_on[first]));
        }
    }
    assert forall|j: int| 0 <= j < after.started implies (#[trigger] runs(after, j))
        != after.handed_on.contains(j) by {
        if j == job {
            assert(after.handed_on[pool.handed_on.len() as int] == job);
            if runs(after, job) {
                let w = choose|w: int|
                    0 <= w < after.running.len() && #[trigger] after.running[w] == Some(job);
                assert(pool.running[w] == Some(job));
            }
        } else {
            if runs(pool, j) {
                let w = choose|w: int|
                    0 <= w < pool.running.len() && #[trigger] pool.running[w] == Some(j);
                assert(after.running[w] == Some(j));
            }
            if runs(after, j) {
                let w = choose|w: int|
                    0 <= w < after.running.len() && #[trigger] after.running[w] == Some(j);
                assert(pool.running[w] == Some(j));
            }
            if pool.handed_on.contains(j) {
                let k = choose|k: int| 0 <= k < pool.handed_on.len() && pool.handed_on[k] == j;
                assert(after.handed_on[k] == j);
            }
            if after.handed_on.contains(j) {
                let k = choose|k: int| 0 <= k < after.handed_on.len() && after.handed_on[k] == j;
                assert(pool.handed_on[k] == j);
            }
        }
    }
    assert(occupied(after) =~= occupied(pool).update(worker, false));
    lemma_running_update(occupied(pool), worker, false);
}

/// However many jobs were submitted, at most as many handlers run as the
/// pool has workers.
pub proof fn lemma_concurrency_bounded(pool: PoolView)
    requires
        sound(pool),
    ensures
        running(occupied(pool)) <= pool.size,
{
    lemma_running_bounded(occupied(pool));
}

/// At rest every result has been handed on, each exactly once: every job
/// submitted stands in the list of those handed on, and none stands there
/// twice.
pub proof fn lemma_all_results_delivered(pool: PoolView)
    requires
        sound(pool),
        at_rest(pool),
    ensures
        forall|job: int| 0 <= job < pool.jobs.len() ==> pool.handed_on.contains(job),
        pool.handed_on.no_duplicates(),
        forall|k: int|
            0 <= k < pool.handed_on.len() ==> 0 <= (#[trigger] pool.handed_on[k])
                < pool.jobs.len(),
{
    lemma_idle_slots(occupied(pool));
    assert forall|job: int| 0 <= job < pool.jobs.len() implies pool.handed_on.contains(job) by {
        if runs(pool, job) {
            let w = choose|w: int|
                0 <= w < pool.running.len() && #[trigger] pool.running[w] == Some(job);
            assert(occupied(pool)[w]);
        }
    }
    assert forall|first: int, second: int|
        0 <= first < pool.handed_on.len() && 0 <= second < pool.handed_on.len() && first
            != second implies pool.handed_on[first] != pool.handed_on[second] by {
        if first < second {
            assert(pool.handed_on[first] != pool.handed_on[second]);
        } else {
            assert(pool.handed_on[second] != pool.handed_on[first]);
        }
    }
}

/// While work is left, a step is possible: a waiting job can be taken
/// unless every worker runs, and a running worker can hand on its result.
/// Each such step brings the pool nearer to rest.
pub proof fn lemma_progress(pool: PoolView)
    requires
        sound(pool),
        pool.size > 0,
        !at_rest(pool),
    ensures
        exists|worker: int| can_step(pool, worker),
        forall|worker: int| #[trigger]
            can_take(pool, worker) ==> 2 * queued(taken(pool, worker)).len() + running(
                occupied(taken(pool, worker)),
            ) < 2 * queued(pool).len() + running(occupied(pool)),
        forall|worker: int| #[trigger]
            can_complete(pool, worker) ==> 2 * queued(finished(pool, worker)).len() + running(
                occupied(finished(pool, worker)),
            ) < 2 * queued(pool).len() + running(occupied(pool)),
{
    lemma_idle_slots(occupied(pool));
    if running(occupied(pool)) > 0 {
        assert(exists|i: int| 0 <= i < occupied(pool).len() && occupied(pool)[i]);
        let worker = choose|i: int| 0 <= i < occupied(pool).len() && occupied(pool)[i];
        assert(can_complete(pool, worker));
        assert(can_step(pool, worker));
    } else {
        assert(!occupied(pool)[0]);
        assert(can_take(pool, 0));
        assert(can_step(pool, 0));
    }
    assert forall|worker: int| #[trigger] can_take(pool, worker) implies 2 * queued(
        taken(pool, worker),
    ).len() + running(occupied(taken(pool, worker))) < 2 * queued(pool).len() + running(
        occupied(pool),
    ) by {
        lemma_take_sound(pool, worker);
    }
    assert forall|worker: int| #[trigger] can_complete(pool, worker) implies 2 * queued(
        finished(pool, worker),
    ).len() + running(occupied(finished(pool, worker))) < 2 * queued(pool).len() + running(
        occupied(pool),
    ) by {
        lemma_complete_sound(pool, worker);
    }
}

/// One step in the life of a pool.
pub enum PoolStep {
    /// A job is submitted.
    Submit(WorkView),
    /// A worker asks for a job.
    Take(int),
    /// A worker hands on the result of its job.
    Complete(int),
}

/// The pool after a step. A step that is not possible changes nothing: an
/// idle worker has no result to hand on, and a busy one takes no job.
pub open spec fn stepped(pool: PoolView, step: PoolStep) -> PoolView {
    match step {
        PoolStep::Submit(job) => submitted(pool, job),
        PoolStep::Take(worker) => if can_take(pool, worker) {
            taken(pool, worker)
        } else {
            pool
        },
        PoolStep::Complete(worker) => if can_complete(pool, worker) {
            finished(pool, worker)
        } else {
            pool
        },
    }
}

/// The pool after a run of steps.
pub open spec fn after_steps(pool: PoolView, steps: Seq<PoolStep>) -> PoolView
    decreases steps.len(),
{
    if steps.len() == 0 {
        pool
    } else {
        stepped(after_steps(pool, steps.drop_last()), steps.last())
    }
}

/// The jobs submitted in a run of steps, in order.
pub open spec fn submissions(steps: Seq<PoolStep>) -> Seq<WorkView>
    decreases steps.len(),
{
    if steps.len() == 0 {
        Seq::empty()
    } else {
        match steps.last() {
            PoolStep::Submit(job) => submissions(steps.drop_last()).push(job),
            _ => submissions(steps.drop_last()),
        }
    }
}

/// Whatever the workers and submitters do, and in whatever order: every
/// state that a pool of `size` workers can reach is sound, its jobs are
/// those submitted, and at most `size` handlers run. When the pool has
/// come to rest, the result of every submitted job has been handed on,
/// and none twice.
pub proof fn lemma_every_reachable_pool(size: nat, steps: Seq<PoolStep>)
    ensures
        sound(after_steps(fresh_pool(size), steps)),
        after_steps(fresh_pool(size), steps).size == size,
        after_steps(fresh_pool(size), steps).jobs == submissions(steps),
        running(occupied(after_steps(fresh_pool(size), steps))) <= size,
        at_rest(after_steps(fresh_pool(size), steps)) ==> after_steps(
            fresh_pool(size),
            steps,
        ).handed_on.no_duplicates() && forall|job: int|
            0 <= job < submissions(steps).len() ==> after_steps(
                fresh_pool(size),
                steps,
            ).handed_on.contains(job),
    decreases steps.len(),
{
    let pool = after_steps(fresh_pool(size), steps);
    if steps.len() == 0 {
        lemma_fresh_pool_sound(size);
    } else {
        lemma_every_reachable_pool(size, steps.drop_last());
        let before = after_steps(fresh_pool(size), steps.drop_last());
        match steps.last() {
            PoolStep::Submit(job) => {
                lemma_submit_sound(before, job);
            },
            PoolStep::Take(worker) => {
                if can_take(before, worker) {
                    lemma_take_sound(before, worker);
                }
            },
            PoolStep::Complete(worker) => {
                if can_complete(before, worker) {
                    lemma_complete_sound(before, worker);
                }
            },
        }
    }
    lemma_concurrency_bounded(pool);
    if at_rest(pool) {
        lemma_all_results_delivered(pool);
    }
}

/// The views of jobs, in order.
pub open spec fn job_views(jobs: Seq<Job>) -> Seq<WorkView> {
    jobs.map_values(|j: Job| j@)
}

impl View for WorkerPool {
    type V = PoolView;

    closed spec fn view(&self) -> PoolView {
        self.ledger@
    }
}

impl WorkerPool {
    #[verifier::type_invariant]
    spec fn in_order(&self) -> bool {
        &&& sound(self.ledger@)
        &&& job_views(self.queue@) == queued(self.ledger@)
        &&& self.busy@ == occupied(self.ledger@)
    }

    /// A pool of `size` idle workers.
    pub fn new(size: usize) -> (pool: WorkerPool)
        ensures
            pool@ == fresh_pool(size as nat),
            sound(pool@),
    {
        let mut busy: Vec<bool> = Vec::new();
        let mut i: usize = 0;
        while i < size
            invariant
                i <= size,
                busy@ == Seq::new(i as nat, |k: int| false),
            decreases size - i,
        {
            busy.push(false);
            i += 1;
            assert(busy@ =~= Seq::new(i as nat, |k: int| false));
        }
        let queue: VecDeque<Job> = VecDeque::new();
        proof {
            lemma_fresh_pool_sound(size as nat);
            assert(job_views(queue@) =~= queued(fresh_pool(size as nat)));
            assert(busy@ =~= occupied(fresh_pool(size as nat)));
        }
        WorkerPool { queue, busy, ledger: Ghost(fresh_pool(size as nat)) }
    }

    /// The number of workers.
    pub fn size(&self) -> (size: usize)
        ensures
            size == self@.size,
    {
        proof {
            use_type_invariant(self);
        }
        self.busy.len()
    }

    /// The number of jobs that wait.
    pub fn queued(&self) -> (count: usize)
        ensures
            count == queued(self@).len(),
    {
        proof {
            use_type_invariant(self);
        }
        self.queue.len()
    }

    /// The number of workers that run a job; never more than there are
    /// workers.
    pub fn running(&self) -> (count: usize)
        ensures
            count == running(occupied(self@)),
            count <= self@.size,
            sound(self@),
    {
        proof {
            use_type_invariant(self);
            lemma_running_bounded(self.busy@);
        }
        let mut count: usize = 0;
        let mut i: usize = 0;
        assert(self.busy@.take(0) =~= Seq::empty());
        while i < self.busy.len()
            invariant
                i <= self.busy.len(),
                count == running(self.busy@.take(i as int)),
                count <= i,
            decreases self.busy.len() - i,
        {
            assert(self.busy@.take(i + 1).drop_last() =~= self.busy@.take(i as int));
            if self.busy[i] {
                count += 1;
            }
            i += 1;
        }
        assert(self.busy@.take(i as int) =~= self.busy@);
        count
    }

    /// Submits a job. It joins the end of the queue; the pool refuses
    /// nothing and the caller is not kept waiting.
    pub fn execute(&mut self, job: Job)
        ensures
            final(self)@ == submitted(old(self)@, job@),
            sound(old(self)@) && sound(final(self)@),
    {
        proof {
            use_type_invariant(&*self);
            lemma_submit_sound(self.ledger@, job@);
        }
        let mut taken_out = WorkerPool::new(0);
        std::mem::swap(self, &mut taken_out);
        let WorkerPool { queue, busy, ledger } = taken_out;
        let mut queue = queue;
        let ghost before = queue@;
        queue.push_back(job);
        assert(job_views(queue@) =~= job_views(before).push(job@));
        *self = WorkerPool { queue, busy, ledger: Ghost(submitted(ledger@, job@)) };
    }

    /// Hands the oldest waiting job to `worker`, if that worker is idle and
    /// a job waits. The job leaves the queue with this call and goes to no
    /// one else.
    pub fn take(&mut self, worker: usize) -> (job: Option<Job>)
        ensures
            match job {
                Some(j) => can_take(old(self)@, worker as int) && j@ == queued(old(self)@)[0]
                    && final(self)@ == taken(old(self)@, worker as int),
                None => !can_take(old(self)@, worker as int) && final(self)@ == old(self)@,
            },
            sound(old(self)@) && sound(final(self)@),
    {
        proof {
            use_type_invariant(&*self);
        }
        if worker >= self.busy.len() || self.busy[worker] || self.queue.len() == 0 {
            assert(job_views(self.queue@).len() == self.queue@.len());
            return None;
        }
        assert(job_views(self.queue@).len() == self.queue@.len());
        let mut taken_out = WorkerPool::new(0);
        std::mem::swap(self, &mut taken_out);
        let WorkerPool { queue, busy, ledger } = taken_out;
        let mut queue = queue;
        let mut busy = busy;
        let ghost before = queue@;
        let job = queue.pop_front();
        busy.set(worker, true);
        proof {
            lemma_take_sound(ledger@, worker as int);
            assert(job_views(queue@) =~= job_views(before).skip(1));
            assert(job_views(before)[0] == before[0]@);
            assert(busy@ =~= occupied(taken(ledger@, worker as int)));
        }
        *self = WorkerPool { queue, busy, ledger: Ghost(taken(ledger@, worker as int)) };
        job
    }

    /// Takes the result of the job that `worker` ran and frees the worker.
    /// The result comes back to be handed on, once; from a worker that runs
    /// no job nothing is accepted.
    pub fn complete(&mut self, worker: usize, result: ActionResult) -> (forward: Option<ActionResult>)
        ensures
            match forward {
                Some(r) => can_complete(old(self)@, worker as int) && r == result && final(self)@
                    == finished(old(self)@, worker as int),
                None => !can_complete(old(self)@, worker as int) && final(self)@ == old(self)@,
            },
            sound(old(self)@) && sound(final(self)@),
    {
        proof {
            use_type_invariant(&*self);
        }
        if worker >= self.busy.len() || !self.busy[worker] {
            return None;
        }
        let mut taken_out = WorkerPool::new(0);
        std::mem::swap(self, &mut taken_out);
        let WorkerPool { queue, busy, ledger } = taken_out;
        let mut busy = busy;
        busy.set(worker, false);
        proof {
            lemma_complete_sound(ledger@, worker as int);
            assert(busy@ =~= occupied(finished(ledger@, worker as int)));
        }
        *self = WorkerPool { queue, busy, ledger: Ghost(finished(ledger@, worker as int)) };
        Some(result)
    }
}

/// The end of a job on `worker`: the result's flag is logged as success or
/// failure, the worker's slot is freed, and the result goes to the result
/// channel, once. The worker stops if that channel has gone. From a worker
/// that runs no job nothing is forwarded.
pub fn report(
    pool: &mut WorkerPool,
    worker: usize,
    result: ActionResult,
    result_sender: &Sender<ActionResult>,
    logger: &Logger,
) -> (flow: Flow)
    ensures
        final(pool)@ == (if can_complete(old(pool)@, worker as int) {
            finished(old(pool)@, worker as int)
        } else {
            old(pool)@
        }),
        !can_complete(old(pool)@, worker as int) ==> flow == Flow::Continue,
        exists|accepted: nat| accepted <= 1 && flow == #[trigger] flow_of(1, accepted),
{
    if result.successful {
        let _ = logger.log_success(String::from_str("Job completed successfully"));
    } else {
        let _ = logger.log_error(String::from_str("Job failed"));
    }
    match pool.complete(worker, result) {
        None => {
            assert(Flow::Continue == flow_of(1, 1));
            Flow::Continue
        },
        Some(forward) => {
            let accepted: usize = if deliver(result_sender, forward) {
                1
            } else {
                0
            };
            let flow = flow_after(1, accepted);
            assert(flow == flow_of(1, accepted as nat));
            flow
        },
    }
}

} // verus!
