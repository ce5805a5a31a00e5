//! The decisions of the two request handlers.
//!
//! A request is first counted by the rate limiter; an admitted one is then
//! routed and its `name` checked. What is left is a read or a write of the
//! store, whose outcome the second step turns into a reply.
use vstd::prelude::*;
use crate::rate_limit::RateLimit;

verus! {

/// The route a request was made on.
#[derive(PartialEq, Eq, Structural, Clone, Copy, Debug)]
pub enum Route {
    /// `GET /v1/get`
    V1Get,
    /// `POST /v1/set`
    V1Set,
    /// Any other method or path.
    Other,
}

/// The status of a reply.
#[derive(PartialEq, Eq, Structural, Clone, Copy, Debug)]
pub enum Status {
    Success,
    BadRequest,
    NotFound,
    TooManyRequests,
    InternalServerError,
}

/// The HTTP code of a status.
pub open spec fn status_code(s: Status) -> u16 {
    match s {
        Status::Success => 200,
        Status::BadRequest => 400,
        Status::NotFound => 404,
        Status::TooManyRequests => 429,
        Status::InternalServerError => 500,
    }
}

/// The message of a reply that reports an error.
pub open spec fn error_message(s: Status) -> Seq<char> {
    match s {
        Status::BadRequest => "400 Bad Request"@,
        Status::NotFound => "404 Not Found"@,
        Status::TooManyRequests => "429 Too Many Requests"@,
        Status::InternalServerError => "500 Internal Server Error"@,
        Status::Success => Seq::empty(),
    }
}

/// The message of a successful reply about `name`.
pub open spec fn greeting(name: Seq<char>) -> Seq<char> {
    "Hello, "@ + name
}

impl Status {
    pub fn code(&self) -> (r: u16)
        ensures
            r == status_code(*self),
    {
        match self {
            Status::Success => 200,
            Status::BadRequest => 400,
            Status::NotFound => 404,
            Status::TooManyRequests => 429,
            Status::InternalServerError => 500,
        }
    }
}

/// A reply: its status and the message of its JSON body.
#[derive(Debug)]
pub struct Reply {
    pub status: Status,
    pub message: String,
}

/// A reply that reports an error.
pub fn error_reply(status: Status) -> (r: Reply)
    requires
        status != Status::Success,
    ensures
        r.status == status,
        r.message@ == error_message(status),
{
    let text = match status {
        Status::BadRequest => "400 Bad Request",
        Status::NotFound => "404 Not Found",
        Status::TooManyRequests => "429 Too Many Requests",
        _ => "500 Internal Server Error",
    };
    Reply { status, message: String::from_str(text) }
}

/// A successful reply about `name`.
pub fn hello_reply(name: &str) -> (r: Reply)
    ensures
        r.status == Status::Success,
        r.message@ == greeting(name@),
{
    let mut message = String::from_str("Hello, ");
    message.append(name);
    Reply { status: Status::Success, message }
}

/// What is left to do for a request once it has been admitted and checked.
#[derive(Debug)]
pub enum Step {
    /// Reply at once; the store is not touched.
    Respond(Reply),
    /// Read the record with this name.
    Read(String),
    /// Write the record with this name.
    Write(String),
}

/// Counts a request made at `now` on `route` with query parameter `name`
/// (empty where it was missing), and says what to do next: a refused
/// request gets 429 whatever its route, an admitted one on another route
/// 404, one with an empty name 400; the rest go to the store.
pub fn begin_request(limiter: &mut RateLimit, now: u64, route: Route, name: &str) -> (r: Step)
    ensures
        old(limiter)@.wf(),
        final(limiter)@ == old(limiter)@.after(now as nat),
        final(limiter)@.wf(),
        !old(limiter)@.admits(now as nat) ==> (r matches Step::Respond(reply)
            && reply.status == Status::TooManyRequests
            && reply.message@ == error_message(Status::TooManyRequests)),
        old(limiter)@.admits(now as nat) && route is Other ==> (r matches Step::Respond(reply)
            && reply.status == Status::NotFound
            && reply.message@ == error_message(Status::NotFound)),
        old(limiter)@.admits(now as nat) && !(route is Other) && name@.len() == 0 ==> (r matches Step::Respond(reply)
            && reply.status == Status::BadRequest
            && reply.message@ == error_message(Status::BadRequest)),
        old(limiter)@.admits(now as nat) && route is V1Get && name@.len() > 0 ==> (r matches Step::Read(n)
            && n@ == name@),
        old(limiter)@.admits(now as nat) && route is V1Set && name@.len() > 0 ==> (r matches Step::Write(n)
            && n@ == name@),
{
    if !limiter.check(now) {
        return Step::Respond(error_reply(Status::TooManyRequests));
    }
    match route {
        Route::Other => Step::Respond(error_reply(Status::NotFound)),
        _ => {
            if name.unicode_len() == 0 {
                Step::Respond(error_reply(Status::BadRequest))
            } else {
                match route {
                    Route::V1Get => Step::Read(String::from_str(name)),
                    _ => Step::Write(String::from_str(name)),
                }
            }
        },
    }
}

/// The reply to a read: the greeting where the store returned a record,
/// 404 where it returned nothing.
pub fn finish_read(found: Option<String>) -> (r: Reply)
    ensures
        match found {
            Some(s) => r.status == Status::Success && r.message@ == greeting(s@),
            None => r.status == Status::NotFound && r.message@ == error_message(Status::NotFound),
        },
{
    match found {
        Some(s) => hello_reply(s.as_str()),
        None => error_reply(Status::NotFound),
    }
}

/// The reply to a write of `name`: the greeting where the store reported
/// success, 500 where it reported a failure.
pub fn finish_write(name: &str, stored: bool) -> (r: Reply)
    ensures
        stored ==> r.status == Status::Success && r.message@ == greeting(name@),
        !stored ==> r.status == Status::InternalServerError
            && r.message@ == error_message(Status::InternalServerError),
{
    if stored {
        hello_reply(name)
    } else {
        error_reply(Status::InternalServerError)
    }
}

} // verus!
