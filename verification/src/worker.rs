//! The dispatch worker: the single consumer that takes jobs from the queue in
//! arrival order, waits the fixed delay, and makes one outbound call per job.
//!
//! The worker itself neither sleeps nor talks to the network. It is a state
//! machine: whoever drives it performs the action it asks for and hands back
//! the event that ended the action. What is proved here holds of every driver
//! that does so.

use crate::job::{DeliveryJob, JobState, JobView};
use vstd::prelude::*;

verus! {

/// What the worker is busy with.
#[derive(Debug, PartialEq, Eq)]
pub enum Phase {
    /// Waiting for the next job from the queue.
    Idle,
    /// Holding a job while the fixed delay runs.
    Delaying(DeliveryJob),
    /// Waiting for the outbound call to end.
    Delivering,
    /// The queue has closed: the worker is done.
    Closed,
}

/// What ended the action that the worker last asked for.
#[derive(Debug, PartialEq, Eq)]
pub enum Event {
    /// The queue handed over its oldest job.
    Dequeued(DeliveryJob),
    /// The queue is closed and empty.
    QueueClosed,
    /// The fixed delay has passed.
    DelayElapsed,
    /// The destination answered with this status code.
    Responded(u16),
    /// The outbound call failed before any answer came.
    Unreachable,
}

/// What the worker asks its driver to do next.
#[derive(Debug, PartialEq, Eq)]
pub enum Action {
    /// Wait for the next job from the queue.
    Dequeue,
    /// Sleep for this many seconds.
    Delay(u64),
    /// Post the job's payload to the job's destination, once.
    Post(DeliveryJob),
    /// Stop: there is nothing more to do.
    Stop,
}

/// The dispatch worker between two events.
#[derive(Debug, PartialEq, Eq)]
pub struct Worker {
    pub phase: Phase,
    /// The fixed delay before every delivery attempt, in seconds.
    pub delay_secs: u64,
}

/// The result of an event that the worker was waiting for.
#[derive(Debug, PartialEq, Eq)]
pub struct Step {
    pub worker: Worker,
    /// What to do next.
    pub action: Action,
    /// The state that the job in hand has entered, where the event concerned one.
    pub job: Option<JobState>,
}

/// An event that the worker was not waiting for, handed back with the worker
/// as it was.
#[derive(Debug, PartialEq, Eq)]
pub struct Unexpected {
    pub worker: Worker,
    pub event: Event,
}

impl Phase {
    /// The job that the worker holds in this phase and has not yet handed out
    /// for delivery.
    pub open spec fn in_hand(self) -> Seq<DeliveryJob> {
        match self {
            Phase::Delaying(job) => seq![job],
            _ => Seq::empty(),
        }
    }

    /// The state of the job that the next event is about: in the queue while
    /// the worker is idle, else with the worker.
    pub open spec fn job_state(self) -> Option<JobState> {
        match self {
            Phase::Idle => Some(JobState::Enqueued),
            Phase::Delaying(_) => Some(JobState::Delayed),
            Phase::Delivering => Some(JobState::Delivering),
            Phase::Closed => None,
        }
    }
}

impl Event {
    /// The state that this event moves a job to.
    pub open spec fn moves_job_to(self) -> Option<JobState> {
        match self {
            Event::Dequeued(_) => Some(JobState::Delayed),
            Event::QueueClosed => None,
            Event::DelayElapsed => Some(JobState::Delivering),
            Event::Responded(_) => Some(JobState::Delivered),
            Event::Unreachable => Some(JobState::Failed),
        }
    }
}

impl Action {
    /// Whether `event` is a way for this action to end.
    pub open spec fn ended_by(self, event: Event) -> bool {
        match self {
            Action::Dequeue => event is Dequeued || event is QueueClosed,
            Action::Delay(_) => event is DelayElapsed,
            Action::Post(_) => event is Responded || event is Unreachable,
            Action::Stop => false,
        }
    }
}

impl Worker {
    /// Whether `event` ends the action that the worker is waiting on.
    pub open spec fn expects(self, event: Event) -> bool {
        match self.phase {
            Phase::Idle => event is Dequeued || event is QueueClosed,
            Phase::Delaying(_) => event is DelayElapsed,
            Phase::Delivering => event is Responded || event is Unreachable,
            Phase::Closed => false,
        }
    }

    /// The worker after an expected event.
    pub open spec fn after(self, event: Event) -> Worker {
        let phase = match event {
            Event::Dequeued(job) => Phase::Delaying(job),
            Event::QueueClosed => Phase::Closed,
            Event::DelayElapsed => Phase::Delivering,
            Event::Responded(_) => Phase::Idle,
            Event::Unreachable => Phase::Idle,
        };
        Worker { phase, delay_secs: self.delay_secs }
    }

    /// What the worker asks for on an expected event.
    pub open spec fn answer(self, event: Event) -> Action {
        match event {
            Event::Dequeued(_) => Action::Delay(self.delay_secs),
            Event::QueueClosed => Action::Stop,
            Event::DelayElapsed => match self.phase {
                Phase::Delaying(job) => Action::Post(job),
                _ => Action::Dequeue,
            },
            Event::Responded(_) => Action::Dequeue,
            Event::Unreachable => Action::Dequeue,
        }
    }

    /// Whether the worker, fed `events` in order, was waiting for each of them
    /// when it came.
    pub open spec fn accepts(self, events: Seq<Event>) -> bool
        decreases events.len(),
    {
        events.len() == 0 || {
            &&& self.accepts(events.drop_last())
            &&& self.after_all(events.drop_last()).expects(events.last())
        }
    }

    /// The worker after `events`, taken in order.
    pub open spec fn after_all(self, events: Seq<Event>) -> Worker
        decreases events.len(),
    {
        if events.len() == 0 {
            self
        } else {
            self.after_all(events.drop_last()).after(events.last())
        }
    }

    /// What the worker asks for on each of `events`, taken in order.
    pub open spec fn answers(self, events: Seq<Event>) -> Seq<Action>
        decreases events.len(),
    {
        if events.len() == 0 {
            Seq::empty()
        } else {
            self.answers(events.drop_last()).push(
                self.after_all(events.drop_last()).answer(events.last()),
            )
        }
    }

    /// A worker with nothing in hand, and the first thing it asks for: the
    /// next job.
    pub fn start(delay_secs: u64) -> (begun: (Worker, Action))
        ensures
            begun.0 == (Worker { phase: Phase::Idle, delay_secs }),
            begun.1 == Action::Dequeue,
    {
        (Worker { phase: Phase::Idle, delay_secs }, Action::Dequeue)
    }

    /// Takes one event.
    ///
    /// An event that the worker was waiting for moves it on and says what to
    /// do next. A job that arrives is first delayed, then posted, exactly as it
    /// came; whether the call then gets an answer or fails, the worker goes
    /// back to waiting for the next job. Any other event changes nothing and
    /// is handed back.
    pub fn step(self, event: Event) -> (result: Result<Step, Unexpected>)
        ensures
            self.expects(event) ==> result == Ok::<Step, Unexpected>(
                Step {
                    worker: self.after(event),
                    action: self.answer(event),
                    job: event.moves_job_to(),
                },
            ),
            !self.expects(event) ==> result == Err::<Step, Unexpected>(
                Unexpected { worker: self, event },
            ),
    {
        let Worker { phase, delay_secs } = self;
        match phase {
            Phase::Idle => match event {
                Event::Dequeued(job) => Ok(
                    Step {
                        worker: Worker { phase: Phase::Delaying(job), delay_secs },
                        action: Action::Delay(delay_secs),
                        job: Some(JobState::Delayed),
                    },
                ),
                Event::QueueClosed => Ok(
                    Step {
                        worker: Worker { phase: Phase::Closed, delay_secs },
                        action: Action::Stop,
                        job: None,
                    },
                ),
                other => Err(
                    Unexpected { worker: Worker { phase: Phase::Idle, delay_secs }, event: other },
                ),
            },
            Phase::Delaying(job) => match event {
                Event::DelayElapsed => Ok(
                    Step {
                        worker: Worker { phase: Phase::Delivering, delay_secs },
                        action: Action::Post(job),
                        job: Some(JobState::Delivering),
                    },
                ),
                other => Err(
                    Unexpected {
                        worker: Worker { phase: Phase::Delaying(job), delay_secs },
                        event: other,
                    },
                ),
            },
            Phase::Delivering => match event {
                Event::Responded(_) => Ok(
                    Step {
                        worker: Worker { phase: Phase::Idle, delay_secs },
                        action: Action::Dequeue,
                        job: Some(JobState::Delivered),
                    },
                ),
                Event::Unreachable => Ok(
                    Step {
                        worker: Worker { phase: Phase::Idle, delay_secs },
                        action: Action::Dequeue,
                        job: Some(JobState::Failed),
                    },
                ),
                other => Err(
                    Unexpected {
                        worker: Worker { phase: Phase::Delivering, delay_secs },
                        event: other,
                    },
                ),
            },
            Phase::Closed => Err(
                Unexpected { worker: Worker { phase: Phase::Closed, delay_secs }, event },
            ),
        }
    }
}

/// A driver that does what it is asked is never refused.
///
/// A worker that has just begun, and a worker that has just taken an event,
/// waits for exactly the events that can end the action it asked for. So as
/// long as the driver hands back how that action ended, the worker accepts it.
pub proof fn lemma_worker_waits_for_what_it_asked(worker: Worker, event: Event, next: Event)
    requires
        worker.expects(event),
    ensures
        worker.after(event).expects(next) == worker.answer(event).ended_by(next),
        (Worker { phase: Phase::Idle, delay_secs: worker.delay_secs }).expects(next)
            == Action::Dequeue.ended_by(next),
{
}

/// Every event that the worker accepts moves the job it concerns one state
/// forward: out of the queue into the delay, from the delay into the call,
/// from the call to its end. Only the closing of the queue concerns no job.
pub proof fn lemma_event_moves_job_forward(worker: Worker, event: Event)
    requires
        worker.expects(event),
    ensures
        match event.moves_job_to() {
            Some(next) => {
                &&& worker.phase.job_state() matches Some(current)
                &&& current.precedes(next)
            },
            None => event is QueueClosed,
        },
        worker.after(event).phase is Idle <==> (event.moves_job_to() matches Some(state)
            && state.is_final()),
{
}

/// The jobs that the queue handed over in `events`, in order.
pub open spec fn arrived(events: Seq<Event>) -> Seq<DeliveryJob>
    decreases events.len(),
{
    if events.len() == 0 {
        Seq::empty()
    } else {
        match events.last() {
            Event::Dequeued(job) => arrived(events.drop_last()).push(job),
            _ => arrived(events.drop_last()),
        }
    }
}

/// The jobs that `actions` ask to be posted, in order.
pub open spec fn posted(actions: Seq<Action>) -> Seq<DeliveryJob>
    decreases actions.len(),
{
    if actions.len() == 0 {
        Seq::empty()
    } else {
        match actions.last() {
            Action::Post(job) => posted(actions.drop_last()).push(job),
            _ => posted(actions.drop_last()),
        }
    }
}

/// What holds at each point of a run that the worker accepts: the events up to
/// that point were accepted too, the event at that point was expected, and the
/// action at that point is the worker's answer to it.
pub proof fn lemma_run_pointwise(worker: Worker, events: Seq<Event>, k: int)
    requires
        worker.accepts(events),
        0 <= k <= events.len(),
    ensures
        worker.answers(events).len() == events.len(),
        worker.after_all(events).delay_secs == worker.delay_secs,
        worker.accepts(events.take(k)),
        k < events.len() ==> {
            let before = worker.after_all(events.take(k));
            &&& before.expects(events[k])
            &&& worker.answers(events)[k] == before.answer(events[k])
            &&& worker.after_all(events.take(k + 1)) == before.after(events[k])
        },
    decreases events.len(),
{
    if events.len() == 0 {
        assert(events.take(k) =~= events);
    } else {
        let earlier = events.drop_last();
        if k == events.len() {
            lemma_run_pointwise(worker, earlier, k - 1);
            assert(events.take(k) =~= events);
        } else {
            lemma_run_pointwise(worker, earlier, k);
            assert(earlier.take(k) =~= events.take(k));
            if k < earlier.len() {
                assert(earlier.take(k + 1) =~= events.take(k + 1));
            } else {
                assert(events.take(k) =~= earlier);
                assert(events.take(k + 1) =~= events);
            }
        }
    }
}

/// Delivery order is arrival order.
///
/// In every run that the worker accepts, the jobs it has asked to be posted,
/// followed by the job it still holds, are the job it held at the start
/// followed by the jobs that arrived, in the same order. So each job that
/// arrives is posted once and never twice, jobs are posted in the order of
/// their arrival, and at most one job is ever in hand.
pub proof fn lemma_delivery_order_is_arrival_order(worker: Worker, events: Seq<Event>)
    requires
        worker.accepts(events),
    ensures
        posted(worker.answers(events)) + worker.after_all(events).phase.in_hand()
            == worker.phase.in_hand() + arrived(events),
        worker.phase is Idle ==> {
            let sent = posted(worker.answers(events));
            &&& sent.len() <= arrived(events).len() <= sent.len() + 1
            &&& sent == arrived(events).take(sent.len() as int)
        },
    decreases events.len(),
{
    let sent = posted(worker.answers(events));
    let held = worker.after_all(events).phase.in_hand();
    if events.len() == 0 {
        assert(sent + held =~= worker.phase.in_hand() + arrived(events));
    } else {
        let earlier = events.drop_last();
        let before = worker.after_all(earlier);
        let sent_before = posted(worker.answers(earlier));
        lemma_delivery_order_is_arrival_order(worker, earlier);
        assert(worker.answers(events).drop_last() =~= worker.answers(earlier));
        match events.last() {
            Event::Dequeued(job) => {
                assert(sent + held =~= (sent_before + before.phase.in_hand()).push(job));
                assert(worker.phase.in_hand() + arrived(events) =~= (worker.phase.in_hand()
                    + arrived(earlier)).push(job));
            },
            Event::DelayElapsed => {
                assert(sent + held =~= sent_before + before.phase.in_hand());
            },
            _ => {
                assert(sent + held =~= sent_before + before.phase.in_hand());
            },
        }
    }
    if worker.phase is Idle {
        assert(worker.phase.in_hand() + arrived(events) =~= arrived(events));
        assert(sent =~= (sent + held).take(sent.len() as int));
    }
}

/// What the jobs in `jobs` hold, in order.
pub open spec fn contents(jobs: Seq<DeliveryJob>) -> Seq<JobView> {
    jobs.map_values(|job: DeliveryJob| job@)
}

/// Enqueue order is delivery order.
///
/// `submitted` holds what the queue took, job by job, in the order in which it
/// took them. Where the queue hands jobs over first in, first out, and as they
/// were, so that what has arrived at the worker is the first of `submitted`,
/// what a worker begun idle has asked to be posted is the first of
/// `submitted` too: the same destinations and payloads in the same order, none
/// left out and none twice. All that has arrived has been posted, but for the
/// one job that may still be in hand.
pub proof fn lemma_enqueue_order_is_delivery_order(
    worker: Worker,
    submitted: Seq<JobView>,
    events: Seq<Event>,
)
    requires
        worker.phase is Idle,
        worker.accepts(events),
        contents(arrived(events)).is_prefix_of(submitted),
    ensures
        contents(posted(worker.answers(events))).is_prefix_of(submitted),
        posted(worker.answers(events)).len() + 1 >= arrived(events).len(),
{
    lemma_delivery_order_is_arrival_order(worker, events);
    let sent = posted(worker.answers(events));
    assert(contents(sent) =~= contents(arrived(events)).take(sent.len() as int));
}

/// One delivery at a time.
///
/// In every run that the worker accepts, the event after a request to post a
/// job is the end of that outbound call, answered or failed, and only then
/// does the worker ask for the next job.
pub proof fn lemma_one_delivery_at_a_time(worker: Worker, events: Seq<Event>, k: int)
    requires
        worker.accepts(events),
        0 <= k,
        k + 1 < events.len(),
        worker.answers(events)[k] is Post,
    ensures
        events[k + 1] is Responded || events[k + 1] is Unreachable,
        worker.answers(events)[k + 1] == Action::Dequeue,
{
    lemma_run_pointwise(worker, events, k);
    lemma_run_pointwise(worker, events, k + 1);
}

/// No job is posted before its delay.
///
/// In every run of a worker that began idle, a request to post a job answers
/// the end of a delay, the event just before was the arrival of that very
/// job, unchanged, and the worker answered that arrival by asking for the
/// fixed delay.
pub proof fn lemma_delay_precedes_delivery(worker: Worker, events: Seq<Event>, k: int)
    requires
        worker.phase is Idle,
        worker.accepts(events),
        0 <= k < events.len(),
        worker.answers(events)[k] is Post,
    ensures
        k >= 1,
        events[k] is DelayElapsed,
        events[k - 1] == Event::Dequeued(worker.answers(events)[k]->Post_0),
        worker.answers(events)[k - 1] == Action::Delay(worker.delay_secs),
{
    lemma_run_pointwise(worker, events, k);
    let before = worker.after_all(events.take(k));
    assert(before.phase is Delaying);
    if k == 0 {
        assert(events.take(0) =~= Seq::<Event>::empty());
    } else {
        lemma_run_pointwise(worker, events, k - 1);
        lemma_run_pointwise(worker, events.take(k - 1), 0);
    }
}

/// A failed delivery does not stop the worker.
///
/// After a run that ends with the end of an outbound call, failed or
/// answered, the worker is idle again; and when the next job arrives and its
/// delay has passed, the worker asks for that job to be posted.
pub proof fn lemma_worker_outlives_failure(worker: Worker, events: Seq<Event>, next: DeliveryJob)
    requires
        worker.accepts(events),
        events.len() > 0,
        events.last() is Unreachable || events.last() is Responded,
    ensures
        worker.after_all(events).phase is Idle,
        worker.answers(events).last() == Action::Dequeue,
        worker.accepts(events + seq![Event::Dequeued(next), Event::DelayElapsed]),
        worker.answers(events + seq![Event::Dequeued(next), Event::DelayElapsed]).last()
            == Action::Post(next),
{
    let with_job = events.push(Event::Dequeued(next));
    let longer = events + seq![Event::Dequeued(next), Event::DelayElapsed];
    assert(with_job.drop_last() =~= events);
    assert(worker.accepts(with_job));
    assert(worker.after_all(with_job).phase == Phase::Delaying(next));
    assert(longer.drop_last() =~= with_job);
    assert(worker.accepts(longer));
}

/// Only the closing of the queue stops the worker.
///
/// Where a worker that was not stopped has stopped in the course of a run, the
/// last event of the run was the closing of the queue, and the worker's answer
/// to it was to stop.
pub proof fn lemma_only_closing_stops_worker(worker: Worker, events: Seq<Event>)
    requires
        worker.accepts(events),
        !(worker.phase is Closed),
        worker.after_all(events).phase is Closed,
    ensures
        events.len() > 0,
        events.last() is QueueClosed,
        worker.answers(events).last() == Action::Stop,
{
}

} // verus!
