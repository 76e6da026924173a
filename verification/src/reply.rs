//! The reply of a request handler, as plain values: a status, a content
//! type where one is set, and a body.

use vstd::prelude::*;
use vstd::string::*;

verus! {

/// The request succeeded.
pub const OK: u16 = 200;

/// The request contradicts itself.
pub const BAD_REQUEST: u16 = 400;

/// Nothing matches the request.
pub const NOT_FOUND: u16 = 404;

/// The server failed.
pub const INTERNAL_SERVER_ERROR: u16 = 500;

/// The body of a reply.
#[derive(Debug)]
pub enum Body {
    Text(String),
    Binary(Vec<u8>),
}

/// What a body holds.
pub enum BodyView {
    Text(Seq<char>),
    Binary(Seq<u8>),
}

impl View for Body {
    type V = BodyView;

    open spec fn view(&self) -> BodyView {
        match self {
            Body::Text(text) => BodyView::Text(text@),
            Body::Binary(bytes) => BodyView::Binary(bytes@),
        }
    }
}

/// One reply.
#[derive(Debug)]
pub struct Reply {
    pub status: u16,
    pub content_type: Option<String>,
    pub body: Body,
}

/// What a reply holds.
pub struct ReplyView {
    pub status: u16,
    pub content_type: Option<Seq<char>>,
    pub body: BodyView,
}

impl View for Reply {
    type V = ReplyView;

    open spec fn view(&self) -> ReplyView {
        ReplyView {
            status: self.status,
            content_type: match self.content_type {
                Some(t) => Some(t@),
                None => None,
            },
            body: self.body@,
        }
    }
}

/// A reply of plain text without a content type.
pub open spec fn plain(status: u16, text: Seq<char>) -> ReplyView {
    ReplyView { status, content_type: None, body: BodyView::Text(text) }
}

/// A reply that names a failure: what failed, then what the failure said
/// of itself.
pub open spec fn failure(what: Seq<char>, error: Seq<char>) -> ReplyView {
    plain(INTERNAL_SERVER_ERROR, what + error)
}

/// A reply that carries JSON.
pub open spec fn json(text: Seq<char>) -> ReplyView {
    ReplyView { status: OK, content_type: Some("application/json"@), body: BodyView::Text(text) }
}

/// The reply that serialising a response leads to: the JSON itself, or the
/// serialiser's complaint.
pub open spec fn serialized(outcome: Result<String, String>) -> ReplyView {
    match outcome {
        Ok(text) => json(text@),
        Err(error) => failure("Failed to serialize response: "@, error@),
    }
}

/// Builds a reply of plain text without a content type.
pub fn text_reply(status: u16, text: String) -> (reply: Reply)
    ensures
        reply@ == plain(status, text@),
{
    Reply { status, content_type: None, body: Body::Text(text) }
}

fn failure_reply(what: &str, error: &str) -> (reply: Reply)
    ensures
        reply@ == failure(what@, error@),
{
    let mut text = what.to_owned();
    text.append(error);
    text_reply(INTERNAL_SERVER_ERROR, text)
}

/// The greeting at the root path.
pub fn index() -> (greeting: String)
    ensures
        greeting@ == "Hello from Lobic backend"@,
{
    "Hello from Lobic backend".to_owned()
}

/// The reply when no database connection could be had; `error` is what the
/// pool said.
pub fn pool_failure(error: &str) -> (reply: Reply)
    ensures
        reply@ == failure("Failed to get DB from pool: "@, error@),
{
    failure_reply("Failed to get DB from pool: ", error)
}

/// The reply when a query failed; `error` is what the database said.
pub fn database_failure(error: &str) -> (reply: Reply)
    ensures
        reply@ == failure("Database error: "@, error@),
{
    failure_reply("Database error: ", error)
}

/// The reply that ends a request for JSON: the serialised response with its
/// content type, or the serialiser's complaint.
pub fn json_reply(outcome: Result<String, String>) -> (reply: Reply)
    ensures
        reply@ == serialized(outcome),
{
    match outcome {
        Ok(text) => Reply {
            status: OK,
            content_type: Some("application/json".to_owned()),
            body: Body::Text(text),
        },
        Err(error) => failure_reply("Failed to serialize response: ", error.as_str()),
    }
}

} // verus!
