//! The pool: a fixed set of workers and the scheduler that feeds them.

use crate::scheduler::scheduler::Scheduler;
use vstd::prelude::*;

verus! {

/// What a worker is doing.
#[derive(Debug, Clone, Copy, PartialEq, Eq, Structural)]
pub enum WorkerState {
    /// It has not announced itself yet.
    Starting,
    /// It has announced itself idle and waits for a job.
    Waiting,
    /// It has been given a job and has not announced itself since.
    Busy,
}

/// One worker of the pool.
pub struct Worker {
    id: u32,
    state: WorkerState,
}

/// A fixed set of workers, and the jobs and idle workers that wait to be
/// paired.
pub struct ThreadPool<J> {
    workers: Vec<Worker>,
    scheduler: Scheduler<J>,
}

/// A pool as a mathematical value.
pub struct PoolView<J> {
    /// What each worker is doing, by its number.
    pub workers: Seq<WorkerState>,
    /// The workers that wait for a job, oldest first.
    pub waiting: Seq<u32>,
    /// The jobs that no worker has been given yet, oldest first.
    pub pending: Seq<J>,
}

impl<J> PoolView<J> {
    /// What holds of every pool: it has a worker; the queue of waiting
    /// workers holds each waiting worker once, and no other.
    pub open spec fn valid(self) -> bool {
        &&& 0 < self.workers.len() <= u32::MAX
        &&& forall|i: int|
            0 <= i < self.waiting.len() ==> (#[trigger] self.waiting[i]) < self.workers.len()
                && self.workers[self.waiting[i] as int] == WorkerState::Waiting
        &&& forall|i: int, j: int|
            0 <= i < j < self.waiting.len() ==> self.waiting[i] != self.waiting[j]
        &&& forall|w: int|
            0 <= w < self.workers.len() && #[trigger] self.workers[w] == WorkerState::Waiting
                ==> self.waiting.contains(w as u32)
    }

    /// Whether an announcement of `worker` is taken: it is a worker of the
    /// pool and does not wait already.
    pub open spec fn accepts(self, worker: u32) -> bool {
        worker < self.workers.len() && self.workers[worker as int] != WorkerState::Waiting
    }

    /// The pool after `worker` has announced itself idle.
    pub open spec fn announced(self, worker: u32) -> PoolView<J> {
        if self.accepts(worker) {
            PoolView {
                workers: self.workers.update(worker as int, WorkerState::Waiting),
                waiting: self.waiting.push(worker),
                pending: self.pending,
            }
        } else {
            self
        }
    }

    /// The pool after `job` was submitted.
    pub open spec fn submitted(self, job: J) -> PoolView<J> {
        PoolView { pending: self.pending.push(job), ..self }
    }

    /// The next assignment: the oldest job goes to the worker that has
    /// waited longest, if there is a job and a worker.
    pub open spec fn assignment(self) -> Option<(u32, J)> {
        if self.waiting.len() > 0 && self.pending.len() > 0 {
            Some((self.waiting[0], self.pending[0]))
        } else {
            None
        }
    }

    /// The pool after its next assignment was made.
    pub open spec fn dispatched(self) -> PoolView<J> {
        if self.waiting.len() > 0 && self.pending.len() > 0 {
            PoolView {
                workers: self.workers.update(self.waiting[0] as int, WorkerState::Busy),
                waiting: self.waiting.skip(1),
                pending: self.pending.skip(1),
            }
        } else {
            self
        }
    }
}

/// Every step keeps a pool valid.
pub proof fn lemma_steps_keep_valid<J>(pool: PoolView<J>, worker: u32, job: J)
    requires
        pool.valid(),
    ensures
        pool.announced(worker).valid(),
        pool.submitted(job).valid(),
        pool.dispatched().valid(),
{
    let a = pool.announced(worker);
    if pool.accepts(worker) {
        assert forall|i: int| 0 <= i < a.waiting.len() implies (#[trigger] a.waiting[i])
            < a.workers.len() && a.workers[a.waiting[i] as int] == WorkerState::Waiting by {
            if i < pool.waiting.len() {
                assert(a.waiting[i] == pool.waiting[i]);
            }
        }
        assert forall|i: int, j: int| 0 <= i < j < a.waiting.len() implies a.waiting[i]
            != a.waiting[j] by {
            assert(a.waiting[i] == pool.waiting[i]);
            if j < pool.waiting.len() {
                assert(a.waiting[j] == pool.waiting[j]);
            }
        }
        assert forall|w: int|
            0 <= w < a.workers.len() && #[trigger] a.workers[w]
                == WorkerState::Waiting implies a.waiting.contains(w as u32) by {
            if w == worker {
                assert(a.waiting[pool.waiting.len() as int] == worker);
            } else {
                assert(pool.workers[w] == WorkerState::Waiting);
                let i = choose|i: int| 0 <= i < pool.waiting.len() && pool.waiting[i] == w as u32;
                assert(a.waiting[i] == w as u32);
            }
        }
    }
    let d = pool.dispatched();
    if pool.waiting.len() > 0 && pool.pending.len() > 0 {
        let first = pool.waiting[0];
        assert forall|i: int| 0 <= i < d.waiting.len() implies (#[trigger] d.waiting[i])
            < d.workers.len() && d.workers[d.waiting[i] as int] == WorkerState::Waiting by {
            assert(d.waiting[i] == pool.waiting[i + 1]);
        }
        assert forall|i: int, j: int| 0 <= i < j < d.waiting.len() implies d.waiting[i]
            != d.waiting[j] by {
            assert(d.waiting[i] == pool.waiting[i + 1]);
            assert(d.waiting[j] == pool.waiting[j + 1]);
        }
        assert forall|w: int|
            0 <= w < d.workers.len() && #[trigger] d.workers[w]
                == WorkerState::Waiting implies d.waiting.contains(w as u32) by {
            assert(pool.workers[w] == WorkerState::Waiting);
            let i = choose|i: int| 0 <= i < pool.waiting.len() && pool.waiting[i] == w as u32;
            assert(i > 0);
            assert(d.waiting[i - 1] == w as u32);
        }
    }
}

/// What can happen to a pool.
pub enum PoolEvent<J> {
    /// A job is submitted.
    Submit(J),
    /// A worker announces itself idle.
    Announce(u32),
    /// The scheduler makes its next assignment, if it can.
    Dispatch,
}

/// The jobs that `events` submit, in their order.
pub open spec fn jobs_submitted<J>(events: Seq<PoolEvent<J>>) -> Seq<J>
    decreases events.len(),
{
    if events.len() == 0 {
        Seq::empty()
    } else {
        match events[0] {
            PoolEvent::Submit(job) => seq![job] + jobs_submitted(events.skip(1)),
            _ => jobs_submitted(events.skip(1)),
        }
    }
}

/// The jobs of a sequence of assignments.
pub open spec fn jobs_of<J>(pairs: Seq<(u32, J)>) -> Seq<J> {
    pairs.map_values(|pair: (u32, J)| pair.1)
}

/// How many of the workers are busy.
pub open spec fn busy_count(workers: Seq<WorkerState>) -> nat
    decreases workers.len(),
{
    if workers.len() == 0 {
        0
    } else {
        busy_count(workers.drop_last()) + if workers.last() == WorkerState::Busy {
            1nat
        } else {
            0nat
        }
    }
}

impl<J> PoolView<J> {
    /// The pool after `event`.
    pub open spec fn after(self, event: PoolEvent<J>) -> PoolView<J> {
        match event {
            PoolEvent::Submit(job) => self.submitted(job),
            PoolEvent::Announce(worker) => self.announced(worker),
            PoolEvent::Dispatch => self.dispatched(),
        }
    }

    /// The pool after `events`, one after the other.
    pub open spec fn after_all(self, events: Seq<PoolEvent<J>>) -> PoolView<J>
        decreases events.len(),
    {
        if events.len() == 0 {
            self
        } else {
            self.after(events[0]).after_all(events.skip(1))
        }
    }

    /// The assignments that are made in the course of `events`, in their
    /// order.
    pub open spec fn handed_out(self, events: Seq<PoolEvent<J>>) -> Seq<(u32, J)>
        decreases events.len(),
    {
        if events.len() == 0 {
            Seq::empty()
        } else {
            let rest = self.after(events[0]).handed_out(events.skip(1));
            match (events[0], self.assignment()) {
                (PoolEvent::Dispatch, Some(pair)) => seq![pair] + rest,
                _ => rest,
            }
        }
    }

    /// How many jobs are run to their end in the course of `events`: a busy
    /// worker that announces itself idle has done so.
    pub open spec fn completions(self, events: Seq<PoolEvent<J>>) -> nat
        decreases events.len(),
    {
        if events.len() == 0 {
            0
        } else {
            let rest = self.after(events[0]).completions(events.skip(1));
            match events[0] {
                PoolEvent::Announce(worker) => if worker < self.workers.len()
                    && self.workers[worker as int] == WorkerState::Busy {
                    rest + 1
                } else {
                    rest
                },
                _ => rest,
            }
        }
    }
}

/// A pool stays valid whatever happens to it.
pub proof fn lemma_valid_after_all<J>(pool: PoolView<J>, events: Seq<PoolEvent<J>>)
    requires
        pool.valid(),
    ensures
        pool.after_all(events).valid(),
    decreases events.len(),
{
    if events.len() > 0 {
        match events[0] {
            PoolEvent::Submit(job) => lemma_steps_keep_valid(pool, 0, job),
            PoolEvent::Announce(worker) => lemma_steps_keep_valid::<J>(pool, worker, arbitrary()),
            PoolEvent::Dispatch => lemma_steps_keep_valid::<J>(pool, 0, arbitrary()),
        }
        lemma_valid_after_all(pool.after(events[0]), events.skip(1));
    }
}

/// Every job is handed out once, in the order of submission, and none is
/// lost: the jobs that waited at the start and those that `events` submit
/// are the jobs that were handed out, followed by those that still wait.
pub proof fn lemma_every_job_once<J>(pool: PoolView<J>, events: Seq<PoolEvent<J>>)
    ensures
        pool.pending + jobs_submitted(events) == jobs_of(pool.handed_out(events)) + pool.after_all(
            events,
        ).pending,
    decreases events.len(),
{
    if events.len() == 0 {
        assert(pool.pending + jobs_submitted(events) =~= jobs_of(pool.handed_out(events))
            + pool.after_all(events).pending);
    } else {
        let next = pool.after(events[0]);
        let rest = events.skip(1);
        lemma_every_job_once(next, rest);
        let end = pool.after_all(events).pending;
        assert(end == next.after_all(rest).pending);
        match events[0] {
            PoolEvent::Submit(job) => {
                assert(pool.pending + (seq![job] + jobs_submitted(rest)) =~= pool.pending.push(job)
                    + jobs_submitted(rest));
            },
            PoolEvent::Announce(worker) => {},
            PoolEvent::Dispatch => {
                if pool.waiting.len() > 0 && pool.pending.len() > 0 {
                    let pair = (pool.waiting[0], pool.pending[0]);
                    assert(jobs_of(seq![pair] + next.handed_out(rest)) =~= seq![pair.1] + jobs_of(
                        next.handed_out(rest),
                    ));
                    assert(pool.pending =~= seq![pair.1] + pool.pending.skip(1));
                    assert(pool.pending + jobs_submitted(rest) =~= seq![pair.1] + (
                    pool.pending.skip(1) + jobs_submitted(rest)));
                    assert(seq![pair.1] + (jobs_of(next.handed_out(rest)) + end) =~= (seq![pair.1]
                        + jobs_of(next.handed_out(rest))) + end);
                }
            },
        }
    }
}

/// Changing what one worker does changes the number of busy workers by that
/// worker alone.
pub proof fn lemma_busy_count_update(workers: Seq<WorkerState>, worker: int, state: WorkerState)
    requires
        0 <= worker < workers.len(),
    ensures
        busy_count(workers.update(worker, state)) + (if workers[worker] == WorkerState::Busy {
            1nat
        } else {
            0nat
        }) == busy_count(workers) + (if state == WorkerState::Busy {
            1nat
        } else {
            0nat
        }),
        busy_count(workers) <= workers.len(),
    decreases workers.len(),
{
    let updated = workers.update(worker, state);
    if worker == workers.len() - 1 {
        assert(updated.drop_last() =~= workers.drop_last());
        lemma_busy_count_bound(workers.drop_last());
    } else {
        lemma_busy_count_update(workers.drop_last(), worker, state);
        assert(updated.drop_last() =~= workers.drop_last().update(worker, state));
    }
}

/// No more workers are busy than there are workers.
pub proof fn lemma_busy_count_bound(workers: Seq<WorkerState>)
    ensures
        busy_count(workers) <= workers.len(),
    decreases workers.len(),
{
    if workers.len() > 0 {
        lemma_busy_count_bound(workers.drop_last());
    }
}

/// The jobs in flight are those of the busy workers, one each: the jobs
/// handed out in the course of `events` and not yet run to their end number
/// as many as the workers that became busy. So no more jobs run at any
/// moment than the pool has workers.
pub proof fn lemma_one_job_per_busy_worker<J>(pool: PoolView<J>, events: Seq<PoolEvent<J>>)
    requires
        pool.valid(),
    ensures
        busy_count(pool.workers) + pool.handed_out(events).len() == busy_count(
            pool.after_all(events).workers,
        ) + pool.completions(events),
        busy_count(pool.after_all(events).workers) <= pool.workers.len(),
        pool.after_all(events).workers.len() == pool.workers.len(),
    decreases events.len(),
{
    lemma_busy_count_bound(pool.workers);
    if events.len() > 0 {
        let next = pool.after(events[0]);
        let rest = events.skip(1);
        match events[0] {
            PoolEvent::Submit(job) => lemma_steps_keep_valid(pool, 0, job),
            PoolEvent::Announce(worker) => {
                lemma_steps_keep_valid::<J>(pool, worker, arbitrary());
                if pool.accepts(worker) {
                    lemma_busy_count_update(pool.workers, worker as int, WorkerState::Waiting);
                }
            },
            PoolEvent::Dispatch => {
                lemma_steps_keep_valid::<J>(pool, 0, arbitrary());
                if pool.waiting.len() > 0 && pool.pending.len() > 0 {
                    assert(pool.workers[pool.waiting[0] as int] == WorkerState::Waiting);
                    lemma_busy_count_update(
                        pool.workers,
                        pool.waiting[0] as int,
                        WorkerState::Busy,
                    );
                }
            },
        }
        lemma_one_job_per_busy_worker(next, rest);
    }
}

/// `count` times the event that the scheduler makes its next assignment.
pub open spec fn dispatches<J>(count: nat) -> Seq<PoolEvent<J>> {
    Seq::new(count, |i: int| PoolEvent::<J>::Dispatch)
}

/// No job waits while a worker is idle: where `count` workers wait and
/// `count` jobs are there, as many assignments hand the jobs out, the oldest
/// job to the worker that has waited longest and so on. So every job that is
/// submitted is handed out as soon as enough workers have announced
/// themselves.
pub proof fn lemma_dispatching_pairs_in_order<J>(pool: PoolView<J>, count: nat)
    requires
        count <= pool.waiting.len(),
        count <= pool.pending.len(),
    ensures
        pool.handed_out(dispatches(count)) == Seq::new(
            count,
            |i: int| (pool.waiting[i], pool.pending[i]),
        ),
        pool.after_all(dispatches(count)).waiting == pool.waiting.skip(count as int),
        pool.after_all(dispatches(count)).pending == pool.pending.skip(count as int),
    decreases count,
{
    let events = dispatches::<J>(count);
    let pairs = Seq::new(count, |i: int| (pool.waiting[i], pool.pending[i]));
    if count == 0 {
        assert(pool.handed_out(events) =~= pairs);
        assert(pool.waiting.skip(0) =~= pool.waiting);
        assert(pool.pending.skip(0) =~= pool.pending);
    } else {
        let next = pool.dispatched();
        let rest = (count - 1) as nat;
        assert(events[0] == PoolEvent::<J>::Dispatch);
        assert(events.skip(1) =~= dispatches::<J>(rest));
        lemma_dispatching_pairs_in_order(next, rest);
        let later = Seq::new(rest, |i: int| (next.waiting[i], next.pending[i]));
        assert(seq![(pool.waiting[0], pool.pending[0])] + later =~= pairs);
        assert(next.waiting.skip(rest as int) =~= pool.waiting.skip(count as int));
        assert(next.pending.skip(rest as int) =~= pool.pending.skip(count as int));
    }
}

/// Whether `worker` announces itself in the course of `events`.
pub open spec fn announces<J>(events: Seq<PoolEvent<J>>, worker: u32) -> bool {
    exists|i: int| 0 <= i < events.len() && events[i] == PoolEvent::<J>::Announce(worker)
}

/// A worker that has fallen silent, because its job has failed and taken
/// it down, holds nothing up. While it does not announce itself it is given
/// no job, so none is lost to it; and what the pool does with the other
/// workers does not depend on it, as the steps above do not look at a worker
/// that does not wait.
pub proof fn lemma_silent_worker_gets_no_job<J>(
    pool: PoolView<J>,
    events: Seq<PoolEvent<J>>,
    worker: u32,
)
    requires
        pool.valid(),
        worker < pool.workers.len(),
        pool.workers[worker as int] != WorkerState::Waiting,
        !announces(events, worker),
    ensures
        pool.after_all(events).workers[worker as int] == pool.workers[worker as int],
        forall|i: int|
            0 <= i < pool.handed_out(events).len() ==> (#[trigger] pool.handed_out(events)[i]).0
                != worker,
    decreases events.len(),
{
    if events.len() > 0 {
        let next = pool.after(events[0]);
        let rest = events.skip(1);
        assert(events[0] != PoolEvent::<J>::Announce(worker));
        assert(!announces(rest, worker)) by {
            if announces(rest, worker) {
                let i = choose|i: int|
                    0 <= i < rest.len() && rest[i] == PoolEvent::<J>::Announce(worker);
                assert(events[i + 1] == rest[i]);
            }
        }
        match events[0] {
            PoolEvent::Submit(job) => lemma_steps_keep_valid(pool, 0, job),
            PoolEvent::Announce(other) => lemma_steps_keep_valid::<J>(pool, other, arbitrary()),
            PoolEvent::Dispatch => lemma_steps_keep_valid::<J>(pool, 0, arbitrary()),
        }
        assert(next.workers[worker as int] == pool.workers[worker as int]);
        lemma_silent_worker_gets_no_job(next, rest, worker);
        let all = pool.handed_out(events);
        assert forall|i: int| 0 <= i < all.len() implies (#[trigger] all[i]).0 != worker by {
            let tail = next.handed_out(rest);
            if events[0] == PoolEvent::<J>::Dispatch && pool.assignment() is Some {
                if i > 0 {
                    assert(all[i] == tail[i - 1]);
                }
            } else {
                assert(all[i] == tail[i]);
            }
        }
    }
}

impl<J> View for ThreadPool<J> {
    type V = PoolView<J>;

    closed spec fn view(&self) -> PoolView<J> {
        PoolView {
            workers: self.workers@.map_values(|worker: Worker| worker.state),
            waiting: self.scheduler@.waiting,
            pending: self.scheduler@.jobs,
        }
    }
}

impl<J> ThreadPool<J> {
    /// What the pool keeps of itself: it is valid as a mathematical value,
    /// and each worker carries its own number.
    pub closed spec fn well_formed(&self) -> bool {
        &&& self@.valid()
        &&& forall|i: int| 0 <= i < self.workers.len() ==> (#[trigger] self.workers[i]).id == i
    }

    /// A pool that is well formed is valid as a mathematical value.
    pub proof fn lemma_well_formed_is_valid(&self)
        requires
            self.well_formed(),
        ensures
            self@.valid(),
    {
    }

    /// A pool of `threads` workers, none of which has announced itself yet,
    /// and without jobs. A pool needs a worker.
    pub fn new(threads: u32) -> (pool: ThreadPool<J>)
        requires
            threads > 0,
        ensures
            pool.well_formed(),
            pool@.workers == Seq::new(threads as nat, |i: int| WorkerState::Starting),
            pool@.waiting == Seq::<u32>::empty(),
            pool@.pending == Seq::<J>::empty(),
    {
        let mut workers: Vec<Worker> = Vec::new();
        let mut id: u32 = 0;
        while id < threads
            invariant
                id <= threads,
                workers.len() == id,
                forall|i: int|
                    0 <= i < id ==> (#[trigger] workers[i]).id == i && workers[i].state
                        == WorkerState::Starting,
            decreases threads - id,
        {
            workers.push(Worker { id, state: WorkerState::Starting });
            id += 1;
        }
        let pool = ThreadPool { workers, scheduler: Scheduler::new() };
        assert(pool@.workers =~= Seq::new(threads as nat, |i: int| WorkerState::Starting));
        pool
    }

    /// The number of workers.
    pub fn size(&self) -> (count: u32)
        requires
            self.well_formed(),
        ensures
            count == self@.workers.len(),
    {
        self.workers.len() as u32
    }

    /// What the worker with the number `worker` is doing, if there is one.
    pub fn worker_state(&self, worker: u32) -> (state: Option<WorkerState>)
        requires
            self.well_formed(),
        ensures
            state == if worker < self@.workers.len() {
                Some(self@.workers[worker as int])
            } else {
                None
            },
    {
        if (worker as usize) < self.workers.len() {
            Some(self.workers[worker as usize].state)
        } else {
            None
        }
    }

    /// Submits a job: it is passed to the scheduler, where it waits for a
    /// worker.
    pub fn handle_job(&mut self, job: J)
        requires
            old(self).well_formed(),
        ensures
            final(self).well_formed(),
            final(self)@ == old(self)@.submitted(job),
    {
        proof {
            lemma_steps_keep_valid(self@, 0, job);
        }
        self.scheduler.assign(job);
    }

    /// Takes in the announcement that `worker` is idle: at its start, or
    /// when it has run its job to the end. It is refused for a number that
    /// is no worker's, and for a worker that waits already.
    pub fn announce(&mut self, worker: u32) -> (taken: bool)
        requires
            old(self).well_formed(),
        ensures
            final(self).well_formed(),
            taken == old(self)@.accepts(worker),
            final(self)@ == old(self)@.announced(worker),
    {
        if worker as usize >= self.workers.len() {
            return false;
        }
        if self.workers[worker as usize].state == WorkerState::Waiting {
            return false;
        }
        let ghost before = self@;
        self.workers.set(worker as usize, Worker { id: worker, state: WorkerState::Waiting });
        self.scheduler.announce(worker);
        proof {
            lemma_steps_keep_valid::<J>(before, worker, arbitrary());
            assert(self@.workers =~= before.announced(worker).workers);
        }
        true
    }

    /// Makes the next assignment, if a worker waits and a job is there: the
    /// caller has to send the job to the worker, which counts as busy from
    /// now on. A job goes to no worker that is busy.
    pub fn dispatch(&mut self) -> (pair: Option<(u32, J)>)
        requires
            old(self).well_formed(),
        ensures
            final(self).well_formed(),
            pair == old(self)@.assignment(),
            final(self)@ == old(self)@.dispatched(),
            pair matches Some((worker, _)) ==> old(self)@.workers[worker as int]
                == WorkerState::Waiting,
    {
        let ghost before = self@;
        match self.scheduler.next_assignment() {
            Some((worker, job)) => {
                assert(before.waiting[0] == worker);
                self.workers.set(worker as usize, Worker { id: worker, state: WorkerState::Busy });
                proof {
                    lemma_steps_keep_valid::<J>(before, worker, job);
                    assert(self@.workers =~= before.dispatched().workers);
                }
                Some((worker, job))
            },
            None => None,
        }
    }
}

} // verus!
