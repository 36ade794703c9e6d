//! The ingestion endpoint: from a request to a delivery job, and from the
//! fate of that job's submission to the reply.
//!
//! Between the two stands the queue, which the caller of this module owns. A
//! request is answered as soon as its job is in the queue; the delivery comes
//! later and has no part in the reply.

use crate::ident::fresh_message_id;
use crate::job::{DeliveryJob, JobView};
use crate::reply::{
    acknowledgment, handler_404, is_acknowledgment, not_found, queue_unavailable, unavailable,
    Reply,
};
use crate::target::{host_rewritten, lemma_rewritten_target_is_not_empty, rewrite_host};
use vstd::prelude::*;

verus! {

/// What to do with a request.
#[derive(Debug, PartialEq, Eq)]
pub enum Intake {
    /// Put this job in the queue.
    Submit(DeliveryJob),
    /// Answer with this reply; nothing is queued.
    Refuse(Reply),
}

/// What became of a job that was handed to the queue.
#[derive(Clone, Copy, Debug, PartialEq, Eq, Structural)]
pub enum Submission {
    /// The queue took the job.
    Queued,
    /// The queue takes no more jobs: its consumer is gone.
    QueueClosed,
}

/// Turns a request into a delivery job.
///
/// `path` is what follows the route prefix in the request's path and `body`
/// the request's body. The path is the delivery target as it stands: nothing
/// is taken out of it, and only in containerized mode is the host rewritten.
/// The payload is the body, untouched. Every path that is not empty gives a
/// job, and the job's destination is not empty either. An empty path names
/// nothing to deliver to and is refused as not found.
pub fn publish(path: &str, body: String, in_container: bool) -> (intake: Intake)
    ensures
        match intake {
            Intake::Submit(job) => {
                &&& path@.len() > 0
                &&& job@ == (JobView {
                    destination: host_rewritten(path@, in_container),
                    payload: body@,
                })
                &&& job@.destination.len() > 0
                &&& !in_container ==> job@.destination == path@
            },
            Intake::Refuse(reply) => {
                &&& path@.len() == 0
                &&& reply@ == not_found()
            },
        },
{
    if path.is_empty() {
        Intake::Refuse(handler_404())
    } else {
        proof {
            lemma_rewritten_target_is_not_empty(path@, in_container);
        }
        Intake::Submit(DeliveryJob::new(rewrite_host(path, in_container), body))
    }
}

/// The reply to a request whose job was handed to the queue.
///
/// A job that the queue took is acknowledged with a fresh message identifier,
/// whatever the request held and whatever becomes of the delivery. A job that
/// the queue did not take is answered as unavailable.
pub fn acknowledge(submission: Submission) -> (reply: Reply)
    ensures
        submission == Submission::Queued ==> is_acknowledgment(reply@),
        submission == Submission::QueueClosed ==> reply@ == unavailable(),
{
    match submission {
        Submission::Queued => acknowledgment(fresh_message_id()),
        Submission::QueueClosed => queue_unavailable(),
    }
}

} // verus!
