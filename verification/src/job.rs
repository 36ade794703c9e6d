//! The unit of work that travels from the ingestion endpoint to the worker,
//! and the states it passes through on the way.

use vstd::prelude::*;

verus! {

/// What a delivery job is, as plain sequences of characters.
pub struct JobView {
    pub destination: Seq<char>,
    pub payload: Seq<char>,
}

/// One queued (destination, payload) pair awaiting its single delivery attempt.
///
/// A job is made once and never changes. The payload is carried verbatim:
/// nothing in this crate reads or changes it.
#[derive(Debug, PartialEq, Eq)]
pub struct DeliveryJob {
    destination: String,
    payload: String,
}

impl View for DeliveryJob {
    type V = JobView;

    closed spec fn view(&self) -> JobView {
        JobView { destination: self.destination@, payload: self.payload@ }
    }
}

impl DeliveryJob {
    /// Pairs a destination with the payload to be posted to it.
    pub fn new(destination: String, payload: String) -> (job: DeliveryJob)
        ensures
            job@ == (JobView { destination: destination@, payload: payload@ }),
    {
        DeliveryJob { destination, payload }
    }

    /// Where the payload is to be posted.
    pub fn destination(&self) -> (destination: &str)
        ensures
            destination@ == self@.destination,
    {
        self.destination.as_str()
    }

    /// What is to be posted.
    pub fn payload(&self) -> (payload: &str)
        ensures
            payload@ == self@.payload,
    {
        self.payload.as_str()
    }

    /// Gives up the job for its delivery: the destination, then the payload.
    pub fn into_parts(self) -> (parts: (String, String))
        ensures
            parts.0@ == self@.destination,
            parts.1@ == self@.payload,
    {
        (self.destination, self.payload)
    }
}

/// Where a delivery job stands between its acceptance and its one attempt.
#[derive(Clone, Copy, Debug, PartialEq, Eq, Structural)]
pub enum JobState {
    /// Accepted and waiting in the queue.
    Enqueued,
    /// Taken from the queue; the fixed delay is running.
    Delayed,
    /// The outbound call is under way.
    Delivering,
    /// The destination answered, with whatever status.
    Delivered,
    /// The outbound call did not get through.
    Failed,
}

impl JobState {
    /// How far along a job in this state is.
    pub open spec fn rank(self) -> nat {
        match self {
            JobState::Enqueued => 0,
            JobState::Delayed => 1,
            JobState::Delivering => 2,
            JobState::Delivered => 3,
            JobState::Failed => 3,
        }
    }

    /// Whether a job in this state is done with: nothing follows.
    pub open spec fn is_final(self) -> bool {
        self == JobState::Delivered || self == JobState::Failed
    }

    /// Whether a job may go from this state straight to `next`.
    pub open spec fn precedes(self, next: JobState) -> bool {
        ||| self == JobState::Enqueued && next == JobState::Delayed
        ||| self == JobState::Delayed && next == JobState::Delivering
        ||| self == JobState::Delivering && next == JobState::Delivered
        ||| self == JobState::Delivering && next == JobState::Failed
    }

    /// Whether the job is done with, delivered or not.
    pub fn is_terminal(&self) -> (done: bool)
        ensures
            done == self.is_final(),
    {
        match self {
            JobState::Delivered => true,
            JobState::Failed => true,
            _ => false,
        }
    }

    /// Whether a job may go from this state straight to `next`.
    pub fn may_become(&self, next: &JobState) -> (allowed: bool)
        ensures
            allowed == self.precedes(*next),
    {
        match (self, next) {
            (JobState::Enqueued, JobState::Delayed) => true,
            (JobState::Delayed, JobState::Delivering) => true,
            (JobState::Delivering, JobState::Delivered) => true,
            (JobState::Delivering, JobState::Failed) => true,
            _ => false,
        }
    }
}

/// A job only ever moves forward, one state at a time, and a job that was
/// delivered or has failed moves no more: there is no second attempt.
pub proof fn lemma_job_never_goes_back(from: JobState, to: JobState)
    requires
        from.precedes(to),
    ensures
        to.rank() == from.rank() + 1,
        !from.is_final(),
        !to.precedes(from),
        to != JobState::Enqueued,
{
}

} // verus!
