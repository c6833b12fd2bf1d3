use std::collections::VecDeque;
use vstd::prelude::*;
use crate::ingest::PublishJob;

verus! {

/// The publish jobs waiting for the broker, at most `bound` of them.
/// Overflow policy: a job offered to a full queue is dropped and the offer
/// reports it; queued jobs are never displaced. Jobs leave in the order
/// they came.
pub struct Outbox {
    jobs: VecDeque<PublishJob>,
    bound: usize,
}

impl View for Outbox {
    type V = Seq<PublishJob>;

    closed spec fn view(&self) -> Seq<PublishJob> {
        self.jobs@
    }
}

impl Outbox {
    /// The most jobs the queue holds.
    pub closed spec fn bound(&self) -> nat {
        self.bound as nat
    }

    pub closed spec fn wf(&self) -> bool {
        self.jobs@.len() <= self.bound
    }

    pub fn new(bound: usize) -> (r: Outbox)
        ensures
            r.wf(),
            r@ == Seq::<PublishJob>::empty(),
            r.bound() == bound,
    {
        Outbox { jobs: VecDeque::new(), bound }
    }

    pub fn len(&self) -> (r: usize)
        requires
            self.wf(),
        ensures
            r == self@.len(),
    {
        self.jobs.len()
    }

    /// Queues `job` unless the queue is full; says whether it was queued.
    pub fn offer(&mut self, job: PublishJob) -> (accepted: bool)
        requires
            old(self).wf(),
        ensures
            final(self).wf(),
            final(self).bound() == old(self).bound(),
            accepted == (old(self)@.len() < old(self).bound()),
            accepted ==> final(self)@ == old(self)@.push(job),
            !accepted ==> final(self)@ == old(self)@,
    {
        if self.jobs.len() < self.bound {
            self.jobs.push_back(job);
            true
        } else {
            false
        }
    }

    /// Takes the oldest queued job.
    pub fn take(&mut self) -> (r: Option<PublishJob>)
        requires
            old(self).wf(),
        ensures
            final(self).wf(),
            final(self).bound() == old(self).bound(),
            old(self)@.len() == 0 ==> r is None && final(self)@ == old(self)@,
            old(self)@.len() > 0 ==> r == Some(old(self)@[0]) && final(self)@ == old(self)@.drop_first(),
    {
        let r = self.jobs.pop_front();
        proof {
            if old(self)@.len() > 0 {
                assert(final(self)@ =~= old(self)@.drop_first());
            }
        }
        r
    }
}

} // verus!
