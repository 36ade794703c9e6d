//! The replies that the relay gives to its callers: status code and body.

use crate::ident::is_message_id;
use vstd::prelude::*;
use vstd::string::*;

verus! {

/// The status of an accepted request.
pub const STATUS_CREATED: u16 = 201;

/// The status of a request that matches no route.
pub const STATUS_NOT_FOUND: u16 = 404;

/// The status of a request that ran out of time before it was accepted.
pub const STATUS_REQUEST_TIMEOUT: u16 = 408;

/// The status of a request that met a failure nobody had provided for.
pub const STATUS_INTERNAL_SERVER_ERROR: u16 = 500;

/// The status of a request that came when the queue took no more jobs.
pub const STATUS_SERVICE_UNAVAILABLE: u16 = 503;

/// The body of a reply to a request that matches no route.
pub const NOT_FOUND_TEXT: &'static str = "nothing to see here";

/// What the body of a reply to an unforeseen failure begins with.
pub const INTERNAL_ERROR_PREFIX: &'static str = "Unhandled internal error: ";

/// The body of a reply to a request that came when the queue took no more jobs.
pub const UNAVAILABLE_TEXT: &'static str = "delivery unavailable";

/// The receipt for an accepted request. It says that the request was taken,
/// not that its payload was delivered.
#[derive(Debug, PartialEq, Eq)]
pub struct Message {
    pub message_id: String,
}

/// The body of a reply.
#[derive(Debug, PartialEq, Eq)]
pub enum Body {
    /// No body.
    Empty,
    /// Plain text.
    Text(String),
    /// A receipt, to be written as a JSON object.
    Message(Message),
}

/// A reply to a request.
#[derive(Debug, PartialEq, Eq)]
pub struct Reply {
    pub status: u16,
    pub body: Body,
}

/// What a reply's body is, as plain values.
pub enum BodyView {
    Empty,
    Text(Seq<char>),
    /// A receipt with this message identifier.
    Message(Seq<char>),
}

/// What a reply is, as plain values.
pub struct ReplyView {
    pub status: u16,
    pub body: BodyView,
}

impl View for Body {
    type V = BodyView;

    open spec fn view(&self) -> BodyView {
        match self {
            Body::Empty => BodyView::Empty,
            Body::Text(text) => BodyView::Text(text@),
            Body::Message(message) => BodyView::Message(message.message_id@),
        }
    }
}

impl View for Reply {
    type V = ReplyView;

    open spec fn view(&self) -> ReplyView {
        ReplyView { status: self.status, body: self.body@ }
    }
}

/// The reply that acknowledges an accepted request with `message_id`.
pub open spec fn acknowledged(message_id: Seq<char>) -> ReplyView {
    ReplyView { status: STATUS_CREATED, body: BodyView::Message(message_id) }
}

/// The reply to a request that matches no route.
pub open spec fn not_found() -> ReplyView {
    ReplyView { status: STATUS_NOT_FOUND, body: BodyView::Text(NOT_FOUND_TEXT@) }
}

/// The reply to a request that could not be handled: one that ran out of time
/// gets the timeout status and no body, any other gets the internal error
/// status and the failure's description behind a fixed prefix.
pub open spec fn failed(timed_out: bool, description: Seq<char>) -> ReplyView {
    if timed_out {
        ReplyView { status: STATUS_REQUEST_TIMEOUT, body: BodyView::Empty }
    } else {
        ReplyView {
            status: STATUS_INTERNAL_SERVER_ERROR,
            body: BodyView::Text(INTERNAL_ERROR_PREFIX@ + description),
        }
    }
}

/// The reply to a request that came when the queue took no more jobs.
pub open spec fn unavailable() -> ReplyView {
    ReplyView { status: STATUS_SERVICE_UNAVAILABLE, body: BodyView::Text(UNAVAILABLE_TEXT@) }
}

/// Whether `reply` acknowledges a request: the created status and a receipt
/// that holds a message identifier.
pub open spec fn is_acknowledgment(reply: ReplyView) -> bool {
    &&& reply.status == STATUS_CREATED
    &&& reply.body matches BodyView::Message(message_id)
    &&& is_message_id(message_id)
}

/// Acknowledges an accepted request with the given message identifier.
pub fn acknowledgment(message_id: String) -> (reply: Reply)
    ensures
        reply@ == acknowledged(message_id@),
{
    Reply { status: STATUS_CREATED, body: Body::Message(Message { message_id }) }
}

/// The reply to any request that matches no route, whatever its method and
/// path: not found, with a short text that is never empty.
pub fn handler_404() -> (reply: Reply)
    ensures
        reply@ == not_found(),
        reply@.status == 404,
        reply@.body matches BodyView::Text(text) && text.len() > 0,
{
    proof {
        reveal_strlit("nothing to see here");
    }
    Reply { status: STATUS_NOT_FOUND, body: Body::Text(NOT_FOUND_TEXT.to_owned()) }
}

/// The reply to a request that could not be handled. `timed_out` says whether
/// the request ran out of time; `description` describes any other failure.
pub fn handle_error(timed_out: bool, description: &str) -> (reply: Reply)
    ensures
        reply@ == failed(timed_out, description@),
{
    if timed_out {
        Reply { status: STATUS_REQUEST_TIMEOUT, body: Body::Empty }
    } else {
        let mut text = INTERNAL_ERROR_PREFIX.to_owned();
        text.append(description);
        Reply { status: STATUS_INTERNAL_SERVER_ERROR, body: Body::Text(text) }
    }
}

/// The reply to a request that came when the queue took no more jobs.
pub fn queue_unavailable() -> (reply: Reply)
    ensures
        reply@ == unavailable(),
{
    Reply { status: STATUS_SERVICE_UNAVAILABLE, body: Body::Text(UNAVAILABLE_TEXT.to_owned()) }
}

/// An acknowledgment carries its message identifier unchanged: two of them
/// are the same reply only where their identifiers are the same, so requests
/// that drew different identifiers are told apart by their replies, whatever
/// they held.
pub proof fn lemma_acknowledgments_differ_as_their_ids(first: Seq<char>, second: Seq<char>)
    ensures
        acknowledged(first) == acknowledged(second) <==> first == second,
        acknowledged(first).body == BodyView::Message(first),
{
}

/// A request that ran out of time is answered with the timeout status, and no
/// reply to a request that was not accepted looks like an acknowledgment.
pub proof fn lemma_refusals_acknowledge_nothing(timed_out: bool, description: Seq<char>)
    ensures
        !is_acknowledgment(not_found()),
        !is_acknowledgment(failed(timed_out, description)),
        failed(true, description).status == 408,
        !is_acknowledgment(unavailable()),
{
}

} // verus!
