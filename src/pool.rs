use vstd::prelude::*;
use crate::queue::{JobQueue, Received};

verus! {

/// Where a worker stands in its lifecycle.
#[derive(PartialEq, Eq, Structural, Clone, Copy, Debug)]
pub enum WorkerState {
    /// Waiting on the queue for a job.
    Idle,
    /// Running the one job it took last.
    Running,
    /// Saw the queue closed and drained; its thread has ended.
    Stopped,
}

/// One worker: a small integer id and its lifecycle state.
struct Worker {
    id: usize,
    state: WorkerState,
}

/// Why a pool could not be built.
#[derive(PartialEq, Eq, Structural, Clone, Copy, Debug)]
pub enum ThreadPoolBuildError {
    /// A pool needs at least one worker.
    InvalidSize { size: usize },
}

/// What a worker does after asking the pool for work.
pub enum WorkerStep<J> {
    /// Run this job to completion, then report back with `finish_job`.
    Run(J),
    /// Nothing is queued yet: block until a job is submitted or the pool shuts down.
    Wait,
    /// The pool is shut down and drained: end the thread.
    Exit,
}

/// The abstract state of a pool.
pub struct PoolView<J> {
    /// Jobs submitted and not yet taken by a worker, front first.
    pub queue: Seq<J>,
    /// Whether shutdown has begun.
    pub closed: bool,
    /// The state of each worker, by id.
    pub workers: Seq<WorkerState>,
    /// Every job the pool accepted, in submission order.
    pub accepted: Seq<J>,
    /// Every job handed to a worker, in the order handed out.
    pub dispatched: Seq<J>,
    /// How many handed-out jobs have been reported finished.
    pub completed: nat,
}

/// How many entries of `s` equal `st`.
pub open spec fn count_state(s: Seq<WorkerState>, st: WorkerState) -> nat
    decreases s.len(),
{
    if s.len() == 0 {
        0
    } else {
        count_state(s.drop_last(), st) + if s.last() == st { 1nat } else { 0nat }
    }
}

impl<J> PoolView<J> {
    /// Every accepted job is either handed out or still queued, each once and
    /// in submission order; every worker still running holds one unfinished job.
    pub open spec fn wf(self) -> bool {
        &&& self.workers.len() >= 1
        &&& self.accepted == self.dispatched + self.queue
        &&& self.dispatched.len() == self.completed + count_state(self.workers, WorkerState::Running)
    }

    pub open spec fn after_execute(self, job: J) -> PoolView<J> {
        if self.closed {
            self
        } else {
            PoolView { queue: self.queue.push(job), accepted: self.accepted.push(job), ..self }
        }
    }

    pub open spec fn next_job_result(self) -> WorkerStep<J> {
        if self.queue.len() > 0 {
            WorkerStep::Run(self.queue[0])
        } else if self.closed {
            WorkerStep::Exit
        } else {
            WorkerStep::Wait
        }
    }

    pub open spec fn after_next_job(self, id: int) -> PoolView<J> {
        if self.queue.len() > 0 {
            PoolView {
                queue: self.queue.drop_first(),
                workers: self.workers.update(id, WorkerState::Running),
                dispatched: self.dispatched.push(self.queue[0]),
                ..self
            }
        } else if self.closed {
            PoolView { workers: self.workers.update(id, WorkerState::Stopped), ..self }
        } else {
            self
        }
    }

    pub open spec fn after_finish_job(self, id: int) -> PoolView<J> {
        PoolView {
            workers: self.workers.update(id, WorkerState::Idle),
            completed: self.completed + 1,
            ..self
        }
    }

    pub open spec fn after_shutdown(self) -> PoolView<J> {
        PoolView { closed: true, ..self }
    }

    /// A bound on the steps left once shutdown has begun: each queued job
    /// counts two (taken, finished), each idle worker two (a job or its exit),
    /// each running worker three (finish, then as an idle one).
    pub open spec fn shutdown_measure(self) -> nat {
        2 * self.queue.len() + 2 * count_state(self.workers, WorkerState::Idle) + 3 * count_state(
            self.workers,
            WorkerState::Running,
        )
    }

    /// All workers have ended.
    pub open spec fn terminated(self) -> bool {
        forall|i: int| 0 <= i < self.workers.len() ==> self.workers[i] == WorkerState::Stopped
    }
}

/// A fixed set of workers and the producer side of their shared job queue.
pub struct ThreadPool<J> {
    queue: JobQueue<J>,
    workers: Vec<Worker>,
    accepted: Ghost<Seq<J>>,
    dispatched: Ghost<Seq<J>>,
    completed: Ghost<nat>,
}

impl<J> View for ThreadPool<J> {
    type V = PoolView<J>;

    closed spec fn view(&self) -> PoolView<J> {
        PoolView {
            queue: self.queue.pending(),
            closed: self.queue.is_closed_spec(),
            workers: self.workers@.map_values(|w: Worker| w.state),
            accepted: self.accepted@,
            dispatched: self.dispatched@,
            completed: self.completed@,
        }
    }
}

/// Changing one entry of `s` moves one unit between the counts of the old
/// and the new state.
proof fn lemma_count_update(s: Seq<WorkerState>, i: int, x: WorkerState, st: WorkerState)
    requires
        0 <= i < s.len(),
    ensures
        count_state(s.update(i, x), st) + (if s[i] == st { 1int } else { 0int })
            == count_state(s, st) + (if x == st { 1int } else { 0int }),
    decreases s.len(),
{
    let t = s.update(i, x);
    if i == s.len() - 1 {
        assert(t.drop_last() =~= s.drop_last());
    } else {
        assert(t.drop_last() =~= s.drop_last().update(i, x));
        lemma_count_update(s.drop_last(), i, x, st);
    }
}

/// A sequence that never holds `st` counts nothing for it.
proof fn lemma_count_zero(s: Seq<WorkerState>, st: WorkerState)
    requires
        forall|i: int| 0 <= i < s.len() ==> s[i] != st,
    ensures
        count_state(s, st) == 0,
    decreases s.len(),
{
    if s.len() > 0 {
        lemma_count_zero(s.drop_last(), st);
    }
}

/// A state present in `s` counts at least one, and no count exceeds the length.
proof fn lemma_count_bounds(s: Seq<WorkerState>, st: WorkerState)
    ensures
        count_state(s, st) <= s.len(),
        (exists|i: int| 0 <= i < s.len() && s[i] == st) ==> count_state(s, st) >= 1,
    decreases s.len(),
{
    if s.len() > 0 {
        lemma_count_bounds(s.drop_last(), st);
        if exists|i: int| 0 <= i < s.len() && s[i] == st {
            let i = choose|i: int| 0 <= i < s.len() && s[i] == st;
            if i < s.len() - 1 {
                assert(s.drop_last()[i] == st);
            }
        }
    }
}

/// Every job the pool accepted is handed to a worker exactly once, in
/// submission order: once the queue is empty and no worker is running, the
/// jobs handed out are exactly the jobs accepted, and all of them finished.
pub proof fn lemma_all_jobs_run_once<J>(v: PoolView<J>)
    requires
        v.wf(),
        v.queue.len() == 0,
        count_state(v.workers, WorkerState::Running) == 0,
    ensures
        v.dispatched == v.accepted,
        v.completed == v.accepted.len(),
{
    assert(v.dispatched + v.queue =~= v.dispatched);
}

/// Submitting after shutdown has begun leaves the pool exactly as it was.
pub proof fn lemma_execute_after_shutdown<J>(v: PoolView<J>, job: J)
    requires
        v.wf(),
        v.closed,
    ensures
        v.after_execute(job) == v,
{
}

/// A worker whose job ended, failed or not, is idle again and takes the
/// next queued job.
pub proof fn lemma_worker_survives_job<J>(v: PoolView<J>, id: int)
    requires
        v.wf(),
        0 <= id < v.workers.len(),
        v.workers[id] == WorkerState::Running,
    ensures
        v.after_finish_job(id).wf(),
        v.after_finish_job(id).workers[id] == WorkerState::Idle,
        v.queue.len() > 0 ==> {
            &&& v.after_finish_job(id).next_job_result() == WorkerStep::Run(v.queue[0])
            &&& v.after_finish_job(id).after_next_job(id).workers[id] == WorkerState::Running
        },
{
    lemma_count_update(v.workers, id, WorkerState::Idle, WorkerState::Running);
}

/// Once shutdown has begun no worker waits: each step of an idle worker
/// takes a job or stops it, and each step of any worker strictly lowers
/// `shutdown_measure`, so every worker stops after finitely many steps.
pub proof fn lemma_shutdown_progress<J>(v: PoolView<J>, id: int)
    requires
        v.wf(),
        v.closed,
        0 <= id < v.workers.len(),
    ensures
        v.workers[id] == WorkerState::Idle ==> {
            &&& !(v.next_job_result() is Wait)
            &&& v.after_next_job(id).wf()
            &&& v.after_next_job(id).closed
            &&& v.after_next_job(id).shutdown_measure() < v.shutdown_measure()
        },
        v.workers[id] == WorkerState::Running ==> {
            &&& v.after_finish_job(id).wf()
            &&& v.after_finish_job(id).closed
            &&& v.after_finish_job(id).shutdown_measure() < v.shutdown_measure()
        },
{
    let ws = v.workers;
    let (i, r, st) = (WorkerState::Idle, WorkerState::Running, WorkerState::Stopped);
    lemma_count_update(ws, id, r, i);
    lemma_count_update(ws, id, r, r);
    lemma_count_update(ws, id, st, i);
    lemma_count_update(ws, id, st, r);
    lemma_count_update(ws, id, i, i);
    lemma_count_update(ws, id, i, r);
    if v.workers[id] == WorkerState::Idle && v.queue.len() > 0 {
        let w = v.after_next_job(id);
        assert(v.queue =~= seq![v.queue[0]] + w.queue);
        assert(w.accepted =~= w.dispatched + w.queue);
    }
}

/// With nothing left to count, every worker has stopped.
pub proof fn lemma_shutdown_complete<J>(v: PoolView<J>)
    requires
        v.wf(),
        v.shutdown_measure() == 0,
    ensures
        v.terminated(),
{
    lemma_count_bounds(v.workers, WorkerState::Idle);
    lemma_count_bounds(v.workers, WorkerState::Running);
    assert forall|i: int| 0 <= i < v.workers.len() implies v.workers[i] == WorkerState::Stopped by {
        if v.workers[i] == WorkerState::Idle || v.workers[i] == WorkerState::Running {
        }
    }
}

/// A running worker holds one job and takes no other: at most as many jobs
/// run at once as there are workers, and while all of them are running no
/// worker is idle, so further jobs stay queued until one finishes.
pub proof fn lemma_busy_workers_bounded<J>(v: PoolView<J>)
    requires
        v.wf(),
    ensures
        count_state(v.workers, WorkerState::Running) <= v.workers.len(),
        v.dispatched.len() - v.completed <= v.workers.len(),
        count_state(v.workers, WorkerState::Running) == v.workers.len() ==> forall|i: int|
            0 <= i < v.workers.len() ==> v.workers[i] != WorkerState::Idle,
{
    let ws = v.workers;
    lemma_count_bounds(ws, WorkerState::Running);
    if count_state(ws, WorkerState::Running) == ws.len() {
        assert forall|i: int| 0 <= i < ws.len() implies ws[i] != WorkerState::Idle by {
            if ws[i] == WorkerState::Idle {
                lemma_count_others(ws, i);
            }
        }
    }
}

/// An entry that is not `Running` keeps the count of `Running` below the length.
proof fn lemma_count_others(s: Seq<WorkerState>, i: int)
    requires
        0 <= i < s.len(),
        s[i] != WorkerState::Running,
    ensures
        count_state(s, WorkerState::Running) < s.len(),
    decreases s.len(),
{
    lemma_count_bounds(s.drop_last(), WorkerState::Running);
    if i < s.len() - 1 {
        assert(s.drop_last()[i] == s[i]);
        lemma_count_others(s.drop_last(), i);
    }
}

impl<J> ThreadPool<J> {
    pub closed spec fn wf(&self) -> bool {
        &&& self@.wf()
        &&& forall|i: int| 0 <= i < self.workers@.len() ==> self.workers@[i].id == i
    }

    /// A well-formed pool has a well-formed view, so the laws over `PoolView`
    /// apply to it.
    pub proof fn lemma_view_wf(&self)
        requires
            self.wf(),
        ensures
            self@.wf(),
    {
    }

    /// Builds a pool of `size` idle workers with ids `0..size` around an empty,
    /// open queue. A size of zero is refused.
    pub fn build(size: usize) -> (r: Result<ThreadPool<J>, ThreadPoolBuildError>)
        ensures
            size == 0 ==> r == Err::<ThreadPool<J>, ThreadPoolBuildError>(
                ThreadPoolBuildError::InvalidSize { size },
            ),
            size > 0 ==> r is Ok,
            r matches Ok(p) ==> {
                &&& p.wf()
                &&& p@.workers.len() == size
                &&& forall|i: int| 0 <= i < size ==> p@.workers[i] == WorkerState::Idle
                &&& p@.queue.len() == 0
                &&& !p@.closed
                &&& p@.accepted.len() == 0
                &&& p@.completed == 0
            },
    {
        if size == 0 {
            return Err(ThreadPoolBuildError::InvalidSize { size });
        }
        let mut workers: Vec<Worker> = Vec::new();
        let mut id: usize = 0;
        while id < size
            invariant
                id <= size,
                workers@.len() == id,
                forall|i: int| 0 <= i < id ==> workers@[i].id == i,
                forall|i: int| 0 <= i < id ==> workers@[i].state == WorkerState::Idle,
            decreases size - id,
        {
            workers.push(Worker { id, state: WorkerState::Idle });
            id = id + 1;
        }
        let pool = ThreadPool {
            queue: JobQueue::new(),
            workers,
            accepted: Ghost(Seq::empty()),
            dispatched: Ghost(Seq::empty()),
            completed: Ghost(0),
        };
        proof {
            let ws = pool@.workers;
            assert(count_state(ws, WorkerState::Running) == 0) by {
                lemma_count_zero(ws, WorkerState::Running);
            }
            assert(pool@.accepted =~= pool@.dispatched + pool@.queue);
        }
        Ok(pool)
    }

    /// Number of workers.
    pub fn size(&self) -> (r: usize)
        ensures
            r == self@.workers.len(),
    {
        self.workers.len()
    }

    /// The state of worker `id`.
    pub fn worker_state(&self, id: usize) -> (r: WorkerState)
        requires
            id < self@.workers.len(),
        ensures
            r == self@.workers[id as int],
    {
        self.workers[id].state
    }

    /// Whether shutdown has begun.
    pub fn is_shut_down(&self) -> (r: bool)
        ensures
            r == self@.closed,
    {
        self.queue.is_closed()
    }

    /// Submits `job`. Once shutdown has begun the job is dropped and nothing
    /// changes; the call never blocks and never fails.
    pub fn execute(&mut self, job: J)
        requires
            old(self).wf(),
        ensures
            final(self).wf(),
            final(self)@ == old(self)@.after_execute(job),
    {
        let ghost pre = self@;
        match self.queue.send(job) {
            Ok(()) => {
                proof {
                    self.accepted@ = self.accepted@.push(job);
                    assert(self@.accepted =~= self@.dispatched + self@.queue);
                    assert(self@ =~= pre.after_execute(job));
                }
            },
            Err(_) => {},
        }
    }

    /// Worker `id`, idle, asks for work: it takes the job at the front of the
    /// queue and becomes `Running`; with nothing queued it waits, or, once
    /// shutdown has begun, stops for good.
    pub fn next_job(&mut self, id: usize) -> (r: WorkerStep<J>)
        requires
            old(self).wf(),
            id < old(self)@.workers.len(),
            old(self)@.workers[id as int] == WorkerState::Idle,
        ensures
            final(self).wf(),
            r == old(self)@.next_job_result(),
            final(self)@ == old(self)@.after_next_job(id as int),
    {
        let ghost pre = self@;
        proof {
            lemma_count_update(pre.workers, id as int, WorkerState::Running, WorkerState::Running);
            lemma_count_update(pre.workers, id as int, WorkerState::Stopped, WorkerState::Running);
        }
        match self.queue.receive() {
            Received::Job(job) => {
                self.workers.set(id, Worker { id, state: WorkerState::Running });
                proof {
                    self.dispatched@ = self.dispatched@.push(job);
                    assert(self@.workers =~= pre.workers.update(id as int, WorkerState::Running));
                    assert(pre.queue =~= seq![job] + self@.queue);
                    assert(self@.accepted =~= self@.dispatched + self@.queue);
                    assert(self@ =~= pre.after_next_job(id as int));
                }
                WorkerStep::Run(job)
            },
            Received::Empty => WorkerStep::Wait,
            Received::Closed => {
                self.workers.set(id, Worker { id, state: WorkerState::Stopped });
                proof {
                    assert(self@.workers =~= pre.workers.update(id as int, WorkerState::Stopped));
                    assert(self@ =~= pre.after_next_job(id as int));
                }
                WorkerStep::Exit
            },
        }
    }

    /// Worker `id` reports that its job has ended, whether the job succeeded
    /// or failed; the worker is idle again and may take the next job.
    pub fn finish_job(&mut self, id: usize)
        requires
            old(self).wf(),
            id < old(self)@.workers.len(),
            old(self)@.workers[id as int] == WorkerState::Running,
        ensures
            final(self).wf(),
            final(self)@ == old(self)@.after_finish_job(id as int),
    {
        let ghost pre = self@;
        proof {
            lemma_count_update(pre.workers, id as int, WorkerState::Idle, WorkerState::Running);
        }
        self.workers.set(id, Worker { id, state: WorkerState::Idle });
        proof {
            self.completed@ = self.completed@ + 1;
            assert(self@.workers =~= pre.workers.update(id as int, WorkerState::Idle));
            assert(self@ =~= pre.after_finish_job(id as int));
        }
    }

    /// Begins shutdown: the queue takes no more jobs. Jobs already queued are
    /// still handed out; after that each worker is told to exit. Calling it
    /// again changes nothing.
    pub fn shutdown(&mut self)
        requires
            old(self).wf(),
        ensures
            final(self).wf(),
            final(self)@ == old(self)@.after_shutdown(),
    {
        self.queue.close();
        proof {
            assert(self@ =~= old(self)@.after_shutdown());
        }
    }

    /// The ids of the workers in the order in which they are to be joined:
    /// ascending, each once.
    pub fn join_order(&self) -> (r: Vec<usize>)
        ensures
            r@.len() == self@.workers.len(),
            forall|i: int| 0 <= i < r@.len() ==> r@[i] == i,
    {
        let n = self.workers.len();
        let mut order: Vec<usize> = Vec::new();
        let mut i: usize = 0;
        while i < n
            invariant
                i <= n,
                n == self@.workers.len(),
                order@.len() == i,
                forall|k: int| 0 <= k < i ==> order@[k] == k,
            decreases n - i,
        {
            order.push(i);
            i = i + 1;
        }
        order
    }

    /// Whether every worker has stopped.
    pub fn is_terminated(&self) -> (r: bool)
        ensures
            r == self@.terminated(),
    {
        let n = self.workers.len();
        let mut i: usize = 0;
        while i < n
            invariant
                i <= n,
                n == self@.workers.len(),
                forall|k: int| 0 <= k < i ==> self@.workers[k] == WorkerState::Stopped,
            decreases n - i,
        {
            if self.workers[i].state != WorkerState::Stopped {
                assert(self@.workers[i as int] == self.workers@[i as int].state);
                return false;
            }
            i = i + 1;
        }
        true
    }
}

} // verus!
