use thing_service::handler::{
    begin_request, error_reply, finish_read, finish_write, hello_reply, Route, Status, Step,
};
use thing_service::rate_limit::RateLimit;
use thing_service::records::{plan_set, thing_named, SetAction, Thing};

const SECOND: u64 = 1_000_000_000;

fn reply_of(step: Step) -> (u16, String) {
    match step {
        Step::Respond(r) => (r.status.code(), r.message),
        other => panic!("expected a reply, got {:?}", other),
    }
}

#[test]
fn get_empty_missing_then_set_and_get() {
    let mut limiter = RateLimit::new(100, SECOND, 0);
    let mut rows: Vec<Thing> = Vec::new();

    let (code, message) = reply_of(begin_request(&mut limiter, 1, Route::V1Get, ""));
    assert_eq!(code, 400);
    assert_eq!(message, "400 Bad Request");

    let name = match begin_request(&mut limiter, 2, Route::V1Get, "x") {
        Step::Read(n) => n,
        other => panic!("expected a read, got {:?}", other),
    };
    let reply = finish_read(thing_named(&rows, &name));
    assert_eq!(reply.status.code(), 404);
    assert_eq!(reply.message, "404 Not Found");

    let name = match begin_request(&mut limiter, 3, Route::V1Set, "x") {
        Step::Write(n) => n,
        other => panic!("expected a write, got {:?}", other),
    };
    assert_eq!(plan_set(&rows, &name), SetAction::Create);
    rows.push(Thing { id: 1, name: name.clone() });
    let reply = finish_write(&name, true);
    assert_eq!(reply.status.code(), 200);
    assert_eq!(reply.message, "Hello, x");

    let name = match begin_request(&mut limiter, 4, Route::V1Get, "x") {
        Step::Read(n) => n,
        other => panic!("expected a read, got {:?}", other),
    };
    let reply = finish_read(thing_named(&rows, &name));
    assert_eq!(reply.status, Status::Success);
    assert_eq!(reply.status.code(), 200);
    assert!(reply.message.contains("x"));
    assert_eq!(reply.message, "Hello, x");
}

#[test]
fn refused_request_gets_429_on_every_route() {
    let mut limiter = RateLimit::new(1, SECOND, 0);
    assert!(matches!(begin_request(&mut limiter, 0, Route::V1Set, "a"), Step::Write(_)));
    for route in [Route::V1Get, Route::V1Set, Route::Other] {
        let (code, message) = reply_of(begin_request(&mut limiter, 1, route, ""));
        assert_eq!(code, 429);
        assert_eq!(message, "429 Too Many Requests");
    }
}

#[test]
fn other_route_is_not_found() {
    let mut limiter = RateLimit::new(5, SECOND, 0);
    let (code, message) = reply_of(begin_request(&mut limiter, 0, Route::Other, "x"));
    assert_eq!(code, 404);
    assert_eq!(message, "404 Not Found");
    assert_eq!(limiter.requests(), 1);
}

#[test]
fn empty_name_on_set_is_bad_request() {
    let mut limiter = RateLimit::new(5, SECOND, 0);
    let (code, message) = reply_of(begin_request(&mut limiter, 0, Route::V1Set, ""));
    assert_eq!(code, 400);
    assert_eq!(message, "400 Bad Request");
}

#[test]
fn failed_write_is_server_error() {
    let reply = finish_write("x", false);
    assert_eq!(reply.status, Status::InternalServerError);
    assert_eq!(reply.status.code(), 500);
    assert_eq!(reply.message, "500 Internal Server Error");
}

#[test]
fn replies_and_codes() {
    let r = hello_reply("Ünïcode name");
    assert_eq!(r.message, "Hello, Ünïcode name");
    assert_eq!(r.status.code(), 200);
    assert_eq!(error_reply(Status::BadRequest).status.code(), 400);
    assert_eq!(error_reply(Status::NotFound).status.code(), 404);
    assert_eq!(error_reply(Status::TooManyRequests).status.code(), 429);
    let found = finish_read(Some("y".to_string()));
    assert_eq!(found.message, "Hello, y");
    assert_eq!(finish_read(None).status, Status::NotFound);
}
