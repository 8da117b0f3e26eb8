use route_resolver::connection::{answer, Action, Event, Phase, Step, READ_LIMIT};
use route_resolver::failure::Failure;
use route_resolver::pages::{not_found, server_error};
use route_resolver::path::RoutePath;
use route_resolver::response::{Response, Status};
use route_resolver::table::RouteTable;

fn site() -> RouteTable {
    RouteTable::new(&["/", "/about", "/contact", "/blog", "/blog/posts", "/announcements"])
        .unwrap()
}

fn closing(failure: Option<Failure>) -> Step {
    Step { next: Phase::Closed, action: Action::Close, failure }
}

fn writing(response: &Response, failure: Option<Failure>) -> Step {
    Step { next: Phase::Responding, action: Action::Write(response.to_bytes()), failure }
}

fn request(target: &str) -> Event {
    Event::Received(format!("GET {} HTTP/1.1\r\nHost: localhost\r\n\r\n", target).into_bytes())
}

#[test]
fn connection_starts_reading() {
    assert_eq!(Phase::start(), Phase::Reading);
    assert_eq!(READ_LIMIT, 1024);
}

#[test]
fn known_path_runs_its_handler_and_sends_its_output() {
    let table = site();
    let step = Phase::start().on_event(&table, request("/about"));
    assert_eq!(step, Step { next: Phase::Resolving, action: Action::Invoke(1), failure: None });
    let output = Response { status: Status::Success, body: b"<h1>About Us</h1>".to_vec() };
    let step = step.next.on_event(&table, Event::HandlerReturned(output));
    assert_eq!(
        step,
        Step {
            next: Phase::Responding,
            action: Action::Write(
                b"HTTP/1.1 200 OK\r\nContent-Length: 17\r\n\r\n<h1>About Us</h1>".to_vec()
            ),
            failure: None,
        }
    );
    let step = step.next.on_event(&table, Event::Written);
    assert_eq!(step, closing(None));
}

#[test]
fn near_miss_is_answered_with_the_suggestion() {
    let table = site();
    let step = Phase::start().on_event(&table, request("/ab0ut"));
    assert_eq!(step, writing(&not_found(Some(&RoutePath::new("/about"))), None));
    assert_eq!(step.next.on_event(&table, Event::Written), closing(None));
}

#[test]
fn far_miss_is_answered_with_plain_not_found() {
    let table = site();
    let step = Phase::start().on_event(&table, request("/xyzxyzxyz"));
    assert_eq!(step, writing(&not_found(None), None));
}

#[test]
fn query_and_trailing_slash_do_not_hide_a_route() {
    let table = site();
    let step = Phase::start().on_event(&table, request("/blog/posts/?page=2"));
    assert_eq!(step, Step { next: Phase::Resolving, action: Action::Invoke(4), failure: None });
}

#[test]
fn silent_peer_gets_no_response() {
    let table = site();
    assert_eq!(
        Phase::start().on_event(&table, Event::PeerClosed),
        closing(Some(Failure::IncompleteRequest))
    );
    assert_eq!(
        Phase::start().on_event(&table, Event::Received(Vec::new())),
        closing(Some(Failure::IncompleteRequest))
    );
}

#[test]
fn failed_read_gets_no_response() {
    assert_eq!(
        Phase::start().on_event(&site(), Event::ReadFailed),
        closing(Some(Failure::ReadError))
    );
}

#[test]
fn incomplete_or_malformed_request_gets_no_response() {
    let table = site();
    for bytes in [&b"GET /about HTTP/1.1"[..], b"GET /about\r\n", b"\r\n", b"GET /\xff HTTP/1.1\r\n"] {
        assert_eq!(
            Phase::start().on_event(&table, Event::Received(bytes.to_vec())),
            closing(Some(Failure::IncompleteRequest))
        );
    }
}

#[test]
fn failed_handler_is_answered_for_and_the_connection_closes() {
    let table = site();
    let step = Phase::Resolving.on_event(&table, Event::HandlerFailed);
    assert_eq!(step, writing(&server_error(), Some(Failure::HandlerError)));
    assert_eq!(step.next.on_event(&table, Event::Written), closing(None));
}

#[test]
fn handler_status_is_passed_on() {
    let output = Response { status: Status::NotFound, body: b"gone".to_vec() };
    let step = Phase::Resolving.on_event(&site(), Event::HandlerReturned(output.clone()));
    assert_eq!(step, writing(&output, None));
}

#[test]
fn failed_write_is_recorded_and_the_connection_closes() {
    assert_eq!(
        Phase::Responding.on_event(&site(), Event::WriteFailed),
        closing(Some(Failure::WriteError))
    );
}

#[test]
fn event_out_of_turn_closes_the_connection() {
    let table = site();
    assert_eq!(Phase::Reading.on_event(&table, Event::Written), closing(Some(Failure::OutOfTurn)));
    assert_eq!(
        Phase::Resolving.on_event(&table, request("/about")),
        closing(Some(Failure::OutOfTurn))
    );
    assert_eq!(
        Phase::Responding.on_event(&table, Event::HandlerFailed),
        closing(Some(Failure::OutOfTurn))
    );
}

#[test]
fn closed_connection_stays_closed() {
    let table = site();
    for event in [request("/about"), Event::PeerClosed, Event::HandlerFailed, Event::WriteFailed] {
        assert_eq!(Phase::Closed.on_event(&table, event), closing(None));
    }
}

#[test]
fn every_run_closes_within_three_events() {
    let table = site();
    let events = || {
        vec![
            request("/about"),
            request("/ab0ut"),
            request("/xyzxyzxyz"),
            Event::Received(Vec::new()),
            Event::PeerClosed,
            Event::ReadFailed,
            Event::HandlerReturned(Response { status: Status::Success, body: b"ok".to_vec() }),
            Event::HandlerFailed,
            Event::Written,
            Event::WriteFailed,
        ]
    };
    for first in events() {
        for second in events() {
            for third in events() {
                let one = Phase::start().on_event(&table, first.clone());
                let two = one.next.on_event(&table, second.clone());
                let three = two.next.on_event(&table, third);
                assert_eq!(three.next, Phase::Closed);
                let writes = [&one.action, &two.action, &three.action]
                    .iter()
                    .filter(|action| matches!(action, Action::Write(_)))
                    .count();
                assert!(writes <= 1);
            }
        }
    }
}

#[test]
fn only_the_first_bytes_up_to_the_limit_are_looked_at() {
    let table = site();
    let long_target = format!("/{}", "a".repeat(READ_LIMIT));
    assert_eq!(
        Phase::start().on_event(&table, request(&long_target)),
        closing(Some(Failure::IncompleteRequest))
    );
    let mut padded = b"GET /about HTTP/1.1\r\n".to_vec();
    padded.resize(4 * READ_LIMIT, b'x');
    assert_eq!(
        answer(&table, &padded),
        Step { next: Phase::Resolving, action: Action::Invoke(1), failure: None }
    );
    let mut cut = vec![b'G'; READ_LIMIT - 3];
    cut.extend_from_slice(b" / H\r\n");
    assert_eq!(answer(&table, &cut), closing(Some(Failure::IncompleteRequest)));
    let mut fits = vec![b'G'; READ_LIMIT - 6];
    fits.extend_from_slice(b" / H\r\n");
    assert_eq!(
        answer(&table, &fits),
        Step { next: Phase::Resolving, action: Action::Invoke(0), failure: None }
    );
}

#[test]
fn each_connection_is_answered_for_its_own_request() {
    let table = site();
    let targets = ["/about", "/ab0ut", "/xyzxyzxyz", "/blog", "/c0ntact"];
    let alone: Vec<Step> =
        targets.iter().map(|t| Phase::start().on_event(&table, request(t))).collect();
    let mut phases = vec![Phase::start(); targets.len()];
    let mut mixed: Vec<Option<Step>> = vec![None; targets.len()];
    for index in [3, 0, 4, 2, 1] {
        let step = phases[index].on_event(&table, request(targets[index]));
        phases[index] = step.next;
        mixed[index] = Some(step);
    }
    for (index, step) in mixed.into_iter().enumerate() {
        assert_eq!(step.as_ref(), Some(&alone[index]));
    }
}
