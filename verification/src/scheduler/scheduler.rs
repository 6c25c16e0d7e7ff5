//! The scheduler: a queue of idle workers and a queue of jobs, paired one to
//! one, oldest with oldest.

use std::collections::VecDeque;
use vstd::prelude::*;

verus! {

/// Pairs the announcements of idle workers with the jobs that are submitted.
/// Both wait in the order in which they came.
pub struct Scheduler<J> {
    waiting: VecDeque<u32>,
    jobs: VecDeque<J>,
}

/// A scheduler as a mathematical value.
pub struct SchedulerView<J> {
    /// The workers that have announced themselves idle, oldest first.
    pub waiting: Seq<u32>,
    /// The jobs that no worker has been given yet, oldest first.
    pub jobs: Seq<J>,
}

impl<J> SchedulerView<J> {
    /// The next pair: the worker that has waited longest and the oldest job,
    /// if there is a worker and a job.
    pub open spec fn assignment(self) -> Option<(u32, J)> {
        if self.waiting.len() > 0 && self.jobs.len() > 0 {
            Some((self.waiting[0], self.jobs[0]))
        } else {
            None
        }
    }

    /// The scheduler after its next pair has left it.
    pub open spec fn assigned(self) -> SchedulerView<J> {
        if self.waiting.len() > 0 && self.jobs.len() > 0 {
            SchedulerView { waiting: self.waiting.skip(1), jobs: self.jobs.skip(1) }
        } else {
            self
        }
    }
}

impl<J> View for Scheduler<J> {
    type V = SchedulerView<J>;

    closed spec fn view(&self) -> SchedulerView<J> {
        SchedulerView { waiting: self.waiting@, jobs: self.jobs@ }
    }
}

impl<J> Scheduler<J> {
    /// A scheduler with no worker waiting and no job.
    pub fn new() -> (scheduler: Scheduler<J>)
        ensures
            scheduler@.waiting == Seq::<u32>::empty(),
            scheduler@.jobs == Seq::<J>::empty(),
    {
        Scheduler { waiting: VecDeque::new(), jobs: VecDeque::new() }
    }

    /// Takes a job in, behind the jobs that wait already. It never waits
    /// for a worker.
    pub fn assign(&mut self, job: J)
        ensures
            final(self)@ == (SchedulerView { jobs: old(self)@.jobs.push(job), ..old(self)@ }),
    {
        self.jobs.push_back(job);
    }

    /// Takes in the announcement that `worker` is idle, behind the workers
    /// that wait already.
    pub fn announce(&mut self, worker: u32)
        ensures
            final(self)@ == (SchedulerView {
                waiting: old(self)@.waiting.push(worker),
                ..old(self)@
            }),
    {
        self.waiting.push_back(worker);
    }

    /// Hands out the next pair, where a worker waits and a job is there:
    /// the job is to be sent to that worker. Else nothing changes.
    pub fn next_assignment(&mut self) -> (pair: Option<(u32, J)>)
        ensures
            pair == old(self)@.assignment(),
            final(self)@ == old(self)@.assigned(),
    {
        if self.waiting.len() == 0 || self.jobs.len() == 0 {
            return None;
        }
        let worker = self.waiting.pop_front();
        let job = self.jobs.pop_front();
        assert(self.waiting@ == old(self).waiting@.skip(1));
        assert(self.jobs@ == old(self).jobs@.skip(1));
        match (worker, job) {
            (Some(worker), Some(job)) => Some((worker, job)),
            _ => None,
        }
    }
}

} // verus!
