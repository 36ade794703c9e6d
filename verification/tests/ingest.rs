use qstash::ident::{is_valid_message_id, MESSAGE_ID_LEN};
use qstash::ingest::{acknowledge, publish, Intake, Submission};
use qstash::job::DeliveryJob;
use qstash::reply::{handler_404, Body, Reply};

fn accepted_id(reply: Reply) -> String {
    assert_eq!(reply.status, 201);
    match reply.body {
        Body::Message(message) => message.message_id,
        other => panic!("a receipt was expected, not {:?}", other),
    }
}

#[test]
fn publish_makes_a_job_of_a_request() {
    let intake = publish("http://example.com/hook", "hello".to_string(), false);
    assert_eq!(
        intake,
        Intake::Submit(DeliveryJob::new("http://example.com/hook".to_string(), "hello".to_string()))
    );
}

#[test]
fn publish_takes_the_path_as_the_literal_target() {
    let paths = [
        "http://example.com/v1/publish/x",
        "https://example.com/a/v2/publish/b?c=d",
        "v1/publish/http://example.com/hook",
        "v2/publish/v1/publish/",
        "v1/publish/",
        "not a url",
    ];
    for path in paths {
        for in_container in [false, true] {
            assert_eq!(
                publish(path, "b".to_string(), in_container),
                Intake::Submit(DeliveryJob::new(path.to_string(), "b".to_string()))
            );
        }
    }
}

#[test]
fn publish_rewrites_the_host_in_a_container_only() {
    let inside = publish("http://localhost:3000/hook", "p".to_string(), true);
    let outside = publish("http://localhost:3000/hook", "p".to_string(), false);
    assert_eq!(
        inside,
        Intake::Submit(DeliveryJob::new("http://host.docker.internal:3000/hook".to_string(), "p".to_string()))
    );
    assert_eq!(
        outside,
        Intake::Submit(DeliveryJob::new("http://localhost:3000/hook".to_string(), "p".to_string()))
    );
}

#[test]
fn publish_passes_the_body_through_untouched() {
    let bodies = [
        "",
        "{\"k\": [1, 2, 3]}",
        "v1/publish/localhost",
        " leading and trailing ",
        "line\r\nbreaks\n\u{0}\u{1f600}",
    ];
    for body in bodies {
        for in_container in [false, true] {
            match publish("http://localhost/x", body.to_string(), in_container) {
                Intake::Submit(job) => assert_eq!(job.payload().as_bytes(), body.as_bytes()),
                other => panic!("a job was expected, not {:?}", other),
            }
        }
    }
}

#[test]
fn publish_refuses_an_empty_path_as_not_found() {
    assert_eq!(publish("", "p".to_string(), false), Intake::Refuse(handler_404()));
    assert_eq!(publish("", "p".to_string(), true), Intake::Refuse(handler_404()));
    assert_eq!(publish("", String::new(), true), Intake::Refuse(handler_404()));
}

#[test]
fn publish_accepts_any_destination_that_is_not_empty() {
    for path in ["x", "/", " ", "not a url", "http://", "localhost", "v1/publish/", "v2/publish/"] {
        for in_container in [false, true] {
            match publish(path, String::new(), in_container) {
                Intake::Submit(job) => assert!(!job.destination().is_empty()),
                other => panic!("a job was expected, not {:?}", other),
            }
        }
    }
}

#[test]
fn acknowledge_answers_a_queued_job_with_201_and_a_message_id() {
    let id = accepted_id(acknowledge(Submission::Queued));
    assert_eq!(id.len(), MESSAGE_ID_LEN);
    assert!(is_valid_message_id(&id));
}

#[test]
fn acknowledge_gives_a_version_4_uuid() {
    let id = accepted_id(acknowledge(Submission::Queued));
    let parsed = uuid::Uuid::parse_str(&id).expect("the message id is a uuid");
    assert_eq!(parsed.get_version_num(), 4);
    assert_eq!(parsed.get_variant(), uuid::Variant::RFC4122);
    assert_eq!(parsed.hyphenated().to_string(), id);
}

#[test]
fn acknowledge_gives_a_new_id_each_time() {
    let mut seen = std::collections::HashSet::new();
    for _ in 0..200 {
        let id = accepted_id(acknowledge(Submission::Queued));
        assert!(is_valid_message_id(&id));
        assert!(seen.insert(id));
    }
}

#[test]
fn two_identical_requests_are_two_jobs_with_two_ids() {
    let first = publish("http://example.com", "same".to_string(), false);
    let second = publish("http://example.com", "same".to_string(), false);
    assert_eq!(first, second);
    assert!(matches!(first, Intake::Submit(_)));
    let first_id = accepted_id(acknowledge(Submission::Queued));
    let second_id = accepted_id(acknowledge(Submission::Queued));
    assert_ne!(first_id, second_id);
}

#[test]
fn acknowledge_answers_a_closed_queue_with_503() {
    assert_eq!(
        acknowledge(Submission::QueueClosed),
        Reply { status: 503, body: Body::Text("delivery unavailable".to_string()) }
    );
}

#[test]
fn is_valid_message_id_accepts_version_4_uuids() {
    assert!(is_valid_message_id("67e55044-10b1-426f-9247-bb680e5fe0c8"));
    assert!(is_valid_message_id("00000000-0000-4000-8000-000000000000"));
    assert!(is_valid_message_id("ffffffff-ffff-4fff-bfff-ffffffffffff"));
    assert!(is_valid_message_id("01234567-89ab-4cde-a012-3456789abcde"));
}

#[test]
fn is_valid_message_id_refuses_other_shapes() {
    // too short, too long, empty
    assert!(!is_valid_message_id(""));
    assert!(!is_valid_message_id("67e55044-10b1-426f-9247-bb680e5fe0c"));
    assert!(!is_valid_message_id("67e55044-10b1-426f-9247-bb680e5fe0c88"));
    // upper case
    assert!(!is_valid_message_id("67E55044-10B1-426F-9247-BB680E5FE0C8"));
    // no hyphens, hyphens elsewhere
    assert!(!is_valid_message_id("67e5504410b1426f9247bb680e5fe0c8"));
    assert!(!is_valid_message_id("67e5504-410b1-426f-9247-bb680e5fe0c8"));
    assert!(!is_valid_message_id("67e55044-10b1-426f-9247-bb680e5-e0c8"));
    // not hexadecimal
    assert!(!is_valid_message_id("67e55044-10b1-426f-9247-bb680e5fe0cg"));
    assert!(!is_valid_message_id("67e55044-10b1-426f-9247-bb680e5fe0c\u{e9}"));
    // another version, another variant
    assert!(!is_valid_message_id("67e55044-10b1-126f-9247-bb680e5fe0c8"));
    assert!(!is_valid_message_id("67e55044-10b1-426f-7247-bb680e5fe0c8"));
    assert!(!is_valid_message_id("67e55044-10b1-426f-c247-bb680e5fe0c8"));
    // the nil uuid
    assert!(!is_valid_message_id("00000000-0000-0000-0000-000000000000"));
}
