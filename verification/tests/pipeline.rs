//! The ingestion endpoint and the dispatch worker on the two ends of a real
//! bounded channel, with the outbound call replaced by a record of what would
//! have been posted.

use std::time::{Duration, Instant};

use qstash::config::{DELIVERY_DELAY_SECS, QUEUE_CAPACITY};
use qstash::ingest::{acknowledge, publish, Intake, Submission};
use qstash::job::DeliveryJob;
use qstash::reply::{handle_error, Body, Reply};
use qstash::worker::{Action, Event, Worker};
use tokio::sync::mpsc::{channel, Receiver, Sender};

fn block_on<F: std::future::Future>(future: F) -> F::Output {
    tokio::runtime::Builder::new_current_thread()
        .enable_all()
        .build()
        .expect("a runtime")
        .block_on(future)
}

/// One outbound call as the worker asked for it.
struct Posted {
    destination: String,
    payload: String,
    at: Instant,
}

/// Drives a worker over `rx` until the channel closes. `fails` says which
/// destinations cannot be reached.
async fn dispatch(mut rx: Receiver<DeliveryJob>, delay: Duration, fails: fn(&str) -> bool) -> Vec<Posted> {
    let mut posted = Vec::new();
    let (mut worker, mut action) = Worker::start(DELIVERY_DELAY_SECS);
    loop {
        let event = match action {
            Action::Dequeue => match rx.recv().await {
                Some(job) => Event::Dequeued(job),
                None => Event::QueueClosed,
            },
            Action::Delay(_) => {
                tokio::time::sleep(delay).await;
                Event::DelayElapsed
            }
            Action::Post(job) => {
                let (destination, payload) = job.into_parts();
                let failed = fails(&destination);
                posted.push(Posted { destination, payload, at: Instant::now() });
                if failed {
                    Event::Unreachable
                } else {
                    Event::Responded(200)
                }
            }
            Action::Stop => break,
        };
        let step = worker.step(event).expect("the worker asked for this");
        worker = step.worker;
        action = step.action;
    }
    posted
}

/// Handles one request as the endpoint does, giving up after `patience`.
async fn request(tx: &Sender<DeliveryJob>, path: &str, body: &str, patience: Duration) -> Reply {
    match publish(path, body.to_string(), false) {
        Intake::Refuse(reply) => reply,
        Intake::Submit(job) => match tokio::time::timeout(patience, tx.send(job)).await {
            Ok(Ok(())) => acknowledge(Submission::Queued),
            Ok(Err(_)) => acknowledge(Submission::QueueClosed),
            Err(elapsed) => handle_error(true, &elapsed.to_string()),
        },
    }
}

fn never(_: &str) -> bool {
    false
}

fn first_fails(destination: &str) -> bool {
    destination.ends_with("/1")
}

const PATIENCE: Duration = Duration::from_millis(100);

#[test]
fn jobs_leave_the_queue_in_the_order_they_entered() {
    let posted = block_on(async {
        let (tx, rx) = channel(QUEUE_CAPACITY);
        for n in 1..=3 {
            let reply = request(&tx, &format!("http://example.com/{}", n), &format!("body {}", n), PATIENCE).await;
            assert_eq!(reply.status, 201);
        }
        drop(tx);
        dispatch(rx, Duration::ZERO, never).await
    });
    let destinations: Vec<&str> = posted.iter().map(|p| p.destination.as_str()).collect();
    assert_eq!(
        destinations,
        vec!["http://example.com/1", "http://example.com/2", "http://example.com/3"]
    );
    let payloads: Vec<&str> = posted.iter().map(|p| p.payload.as_str()).collect();
    assert_eq!(payloads, vec!["body 1", "body 2", "body 3"]);
}

#[test]
fn a_hundred_jobs_fit_the_queue_and_come_out_in_order() {
    let posted = block_on(async {
        let (tx, rx) = channel(QUEUE_CAPACITY);
        for n in 0..100 {
            let reply = request(&tx, &format!("http://example.com/{}", n), "b", PATIENCE).await;
            assert_eq!(reply.status, 201);
        }
        drop(tx);
        dispatch(rx, Duration::ZERO, never).await
    });
    assert_eq!(posted.len(), 100);
    for (n, post) in posted.iter().enumerate() {
        assert_eq!(post.destination, format!("http://example.com/{}", n));
    }
}

#[test]
fn a_job_is_posted_no_sooner_than_the_delay_after_it_was_queued() {
    let delay = Duration::from_secs(DELIVERY_DELAY_SECS);
    let (queued_at, posted) = block_on(async {
        let (tx, rx) = channel(QUEUE_CAPACITY);
        let reply = request(&tx, "http://example.com/a", "the body", PATIENCE).await;
        assert_eq!(reply.status, 201);
        let queued_at = Instant::now();
        drop(tx);
        (queued_at, dispatch(rx, delay, never).await)
    });
    assert_eq!(posted.len(), 1);
    assert!(posted[0].at.duration_since(queued_at) >= delay);
    assert_eq!(posted[0].payload.as_bytes(), "the body".as_bytes());
}

#[test]
fn a_request_is_acknowledged_before_its_delivery() {
    block_on(async {
        let (tx, mut rx) = channel(QUEUE_CAPACITY);
        let reply = request(&tx, "http://example.com/a", "b", PATIENCE).await;
        assert_eq!(reply.status, 201);
        assert!(matches!(reply.body, Body::Message(_)));
        // Nobody has taken the job yet: it is still in the queue.
        let waiting = rx.try_recv().expect("the job is queued");
        assert_eq!(waiting, DeliveryJob::new("http://example.com/a".to_string(), "b".to_string()));
    });
}

#[test]
fn a_request_that_waits_too_long_on_a_full_queue_is_answered_408() {
    let posted = block_on(async {
        let (tx, rx) = channel(2);
        assert_eq!(request(&tx, "http://example.com/1", "one", PATIENCE).await.status, 201);
        assert_eq!(request(&tx, "http://example.com/2", "two", PATIENCE).await.status, 201);
        // The queue is full and nobody drains it.
        let late = request(&tx, "http://example.com/3", "three", PATIENCE).await;
        assert_eq!(late, Reply { status: 408, body: Body::Empty });
        drop(tx);
        dispatch(rx, Duration::ZERO, never).await
    });
    // What was acknowledged is delivered once; what timed out is not delivered.
    let destinations: Vec<&str> = posted.iter().map(|p| p.destination.as_str()).collect();
    assert_eq!(destinations, vec!["http://example.com/1", "http://example.com/2"]);
}

#[test]
fn a_request_waits_for_room_in_a_full_queue() {
    let posted = block_on(async {
        let (tx, rx) = channel(1);
        assert_eq!(request(&tx, "http://example.com/1", "one", PATIENCE).await.status, 201);
        // The worker starts draining while the second request waits for room.
        let worker = tokio::spawn(dispatch(rx, Duration::from_millis(10), never));
        let reply = request(&tx, "http://example.com/2", "two", Duration::from_secs(5)).await;
        assert_eq!(reply.status, 201);
        drop(tx);
        worker.await.expect("the worker ran to its end")
    });
    let destinations: Vec<&str> = posted.iter().map(|p| p.destination.as_str()).collect();
    assert_eq!(destinations, vec!["http://example.com/1", "http://example.com/2"]);
}

#[test]
fn a_failed_delivery_does_not_hold_up_the_jobs_behind_it() {
    let posted = block_on(async {
        let (tx, rx) = channel(QUEUE_CAPACITY);
        for n in 1..=3 {
            let reply = request(&tx, &format!("http://example.com/{}", n), "b", PATIENCE).await;
            assert_eq!(reply.status, 201);
        }
        drop(tx);
        dispatch(rx, Duration::ZERO, first_fails).await
    });
    let destinations: Vec<&str> = posted.iter().map(|p| p.destination.as_str()).collect();
    assert_eq!(
        destinations,
        vec!["http://example.com/1", "http://example.com/2", "http://example.com/3"]
    );
}

#[test]
fn a_request_is_answered_503_once_the_worker_is_gone() {
    block_on(async {
        let (tx, rx) = channel(QUEUE_CAPACITY);
        drop(rx);
        let reply = request(&tx, "http://example.com/1", "one", PATIENCE).await;
        assert_eq!(
            reply,
            Reply { status: 503, body: Body::Text("delivery unavailable".to_string()) }
        );
    });
}

#[test]
fn a_request_without_a_destination_queues_nothing() {
    block_on(async {
        let (tx, mut rx) = channel(QUEUE_CAPACITY);
        let reply = request(&tx, "", "one", PATIENCE).await;
        assert_eq!(reply.status, 404);
        assert!(rx.try_recv().is_err());
    });
}

#[test]
fn prefix_text_inside_the_destination_stays() {
    block_on(async {
        let (tx, mut rx) = channel(100);
        let reply = request(&tx, "http://example.com/v1/publish/x", "b", PATIENCE).await;
        assert_eq!(reply.status, 201);
        assert_eq!(
            rx.try_recv().map(DeliveryJob::into_parts),
            Ok(("http://example.com/v1/publish/x".to_string(), "b".to_string()))
        );
        assert!(rx.try_recv().is_err());
    });
}

#[test]
fn a_path_of_prefix_text_alone_is_a_destination_like_any_other() {
    block_on(async {
        let (tx, mut rx) = channel(100);
        let reply = request(&tx, "v2/publish/v1/publish/", "b", PATIENCE).await;
        assert_eq!(reply.status, 201);
        assert!(matches!(reply.body, Body::Message(_)));
        assert_eq!(
            rx.try_recv().map(DeliveryJob::into_parts),
            Ok(("v2/publish/v1/publish/".to_string(), "b".to_string()))
        );
    });
}

#[test]
fn every_destination_is_answered_503_once_the_worker_is_gone() {
    block_on(async {
        let (tx, rx) = channel(100);
        drop(rx);
        for path in ["http://example.com/1", "v2/publish/v1/publish/", "v1/publish/", "x"] {
            let reply = request(&tx, path, "b", PATIENCE).await;
            assert_eq!(
                reply,
                Reply { status: 503, body: Body::Text("delivery unavailable".to_string()) }
            );
        }
        // The endpoint goes on answering.
        assert_eq!(request(&tx, "", "b", PATIENCE).await.status, 404);
    });
}
