//! The life of one connection: `Reading`, then `Resolving`, then
//! `Responding`, then `Closed`. The driver does the reading, runs the
//! handler and does the writing; what to do next, after each of these, is
//! decided here.

use crate::failure::{concerns_listener, Failure};
use crate::pages::{not_found, not_found_message, page, server_error, SERVER_ERROR_MESSAGE};
use crate::request::{parse_request_path, request_path};
use crate::resolver::{resolution, MatchResult, Resolution};
use crate::response::{wire_format, Response, Status};
use crate::table::RouteTable;
use vstd::prelude::*;
use vstd::slice::slice_subrange;
use vstd::utf8::encode_utf8;

verus! {

/// How many bytes of a request are looked at. What a read delivers beyond
/// them is ignored.
pub const READ_LIMIT: usize = 1024;

/// Where a connection stands.
#[derive(Debug, Clone, Copy, PartialEq, Eq, Structural)]
pub enum Phase {
    /// Waiting for the bytes of the request.
    Reading,
    /// The request matched a route; waiting for its handler.
    Resolving,
    /// Waiting for the response to be written.
    Responding,
    /// Done. The connection is to be released, and nothing follows.
    Closed,
}

/// What the driver reports.
#[derive(Debug, PartialEq, Eq)]
pub enum Event {
    /// A read delivered these bytes.
    Received(Vec<u8>),
    /// The peer closed the connection before it sent anything.
    PeerClosed,
    /// The read failed.
    ReadFailed,
    /// The handler returned this response.
    HandlerReturned(Response),
    /// The handler failed.
    HandlerFailed,
    /// The response was written in full.
    Written,
    /// The write failed.
    WriteFailed,
}

/// What the driver is to do next.
#[derive(Debug, PartialEq, Eq)]
pub enum Action {
    /// Run the handler of the route at this place in the table, and report
    /// how it ended.
    Invoke(usize),
    /// Write these bytes to the connection, all of them, and report how it
    /// went.
    Write(Vec<u8>),
    /// Release the connection.
    Close,
}

/// One decision: the phase that follows, what to do, and the failure to
/// record, if the event was one.
#[derive(Debug, PartialEq, Eq)]
pub struct Step {
    pub next: Phase,
    pub action: Action,
    pub failure: Option<Failure>,
}

/// An `Event` as contracts see it.
pub enum EventView {
    Received(Seq<u8>),
    PeerClosed,
    ReadFailed,
    HandlerReturned(Status, Seq<u8>),
    HandlerFailed,
    Written,
    WriteFailed,
}

/// An `Action` as contracts see it.
pub enum ActionView {
    Invoke(int),
    Write(Seq<u8>),
    Close,
}

/// A `Step` as contracts see it.
pub struct StepView {
    pub next: Phase,
    pub action: ActionView,
    pub failure: Option<Failure>,
}

impl View for Event {
    type V = EventView;

    open spec fn view(&self) -> EventView {
        match self {
            Event::Received(bytes) => EventView::Received(bytes@),
            Event::PeerClosed => EventView::PeerClosed,
            Event::ReadFailed => EventView::ReadFailed,
            Event::HandlerReturned(response) => EventView::HandlerReturned(
                response.status,
                response.body@,
            ),
            Event::HandlerFailed => EventView::HandlerFailed,
            Event::Written => EventView::Written,
            Event::WriteFailed => EventView::WriteFailed,
        }
    }
}

impl View for Action {
    type V = ActionView;

    open spec fn view(&self) -> ActionView {
        match self {
            Action::Invoke(handler) => ActionView::Invoke(*handler as int),
            Action::Write(bytes) => ActionView::Write(bytes@),
            Action::Close => ActionView::Close,
        }
    }
}

impl View for Step {
    type V = StepView;

    open spec fn view(&self) -> StepView {
        StepView { next: self.next, action: self.action@, failure: self.failure }
    }
}

impl Clone for Event {
    fn clone(&self) -> (copy: Event)
        ensures
            copy@ == self@,
    {
        match self {
            Event::Received(bytes) => Event::Received(bytes.clone()),
            Event::PeerClosed => Event::PeerClosed,
            Event::ReadFailed => Event::ReadFailed,
            Event::HandlerReturned(response) => Event::HandlerReturned(response.clone()),
            Event::HandlerFailed => Event::HandlerFailed,
            Event::Written => Event::Written,
            Event::WriteFailed => Event::WriteFailed,
        }
    }
}

impl Clone for Action {
    fn clone(&self) -> (copy: Action)
        ensures
            copy@ == self@,
    {
        match self {
            Action::Invoke(handler) => Action::Invoke(*handler),
            Action::Write(bytes) => Action::Write(bytes.clone()),
            Action::Close => Action::Close,
        }
    }
}

impl Clone for Step {
    fn clone(&self) -> (copy: Step)
        ensures
            copy@ == self@,
    {
        Step { next: self.next, action: self.action.clone(), failure: self.failure }
    }
}

/// The step that ends a connection.
pub open spec fn closing(failure: Option<Failure>) -> StepView {
    StepView { next: Phase::Closed, action: ActionView::Close, failure }
}

/// The step that sends a response.
pub open spec fn responding(status: Status, body: Seq<u8>, failure: Option<Failure>) -> StepView {
    StepView {
        next: Phase::Responding,
        action: ActionView::Write(wire_format(status, body)),
        failure,
    }
}

/// The part of what was received that is looked at.
pub open spec fn considered(received: Seq<u8>) -> Seq<u8> {
    if received.len() <= READ_LIMIT {
        received
    } else {
        received.subrange(0, READ_LIMIT as int)
    }
}

/// What follows the arrival of `received`: without a request path in it the
/// connection closes unanswered; a known path has its handler run; an
/// unknown one is answered at once with "not found", naming the suggestion
/// where there is one.
pub open spec fn after_request(table: Seq<Seq<char>>, received: Seq<u8>) -> StepView {
    match request_path(considered(received)) {
        Some(path) => match resolution(table, path) {
            Resolution::Exact(handler) => StepView {
                next: Phase::Resolving,
                action: ActionView::Invoke(handler),
                failure: None,
            },
            Resolution::Suggestion(offered) => responding(
                Status::NotFound,
                encode_utf8(page(not_found_message(Some(offered)))),
                None,
            ),
            Resolution::NoMatch => responding(
                Status::NotFound,
                encode_utf8(page(not_found_message(None))),
                None,
            ),
        },
        None => closing(Some(Failure::IncompleteRequest)),
    }
}

/// The decision for `event` in `phase`.
pub open spec fn transition(phase: Phase, table: Seq<Seq<char>>, event: EventView) -> StepView {
    match phase {
        Phase::Reading => match event {
            EventView::Received(received) => after_request(table, received),
            EventView::PeerClosed => closing(Some(Failure::IncompleteRequest)),
            EventView::ReadFailed => closing(Some(Failure::ReadError)),
            _ => closing(Some(Failure::OutOfTurn)),
        },
        Phase::Resolving => match event {
            EventView::HandlerReturned(status, body) => responding(status, body, None),
            EventView::HandlerFailed => responding(
                Status::InternalServerError,
                encode_utf8(page(SERVER_ERROR_MESSAGE@)),
                Some(Failure::HandlerError),
            ),
            _ => closing(Some(Failure::OutOfTurn)),
        },
        Phase::Responding => match event {
            EventView::Written => closing(None),
            EventView::WriteFailed => closing(Some(Failure::WriteError)),
            _ => closing(Some(Failure::OutOfTurn)),
        },
        Phase::Closed => closing(None),
    }
}

/// Whether `action` sends a response.
pub open spec fn is_write(action: ActionView) -> bool {
    action is Write
}

/// A closed connection stays closed, whatever is reported.
pub proof fn lemma_closed_is_final(table: Seq<Seq<char>>, event: EventView)
    ensures
        transition(Phase::Closed, table, event) == closing(None),
{
}

/// A peer that closes without having sent a byte, a read that fails, and a
/// read that delivers nothing all end the connection at once, and nothing
/// is written.
pub proof fn lemma_silence_is_not_answered(table: Seq<Seq<char>>)
    ensures
        transition(Phase::Reading, table, EventView::PeerClosed) == closing(
            Some(Failure::IncompleteRequest),
        ),
        transition(Phase::Reading, table, EventView::ReadFailed) == closing(
            Some(Failure::ReadError),
        ),
        transition(Phase::Reading, table, EventView::Received(Seq::empty())) == closing(
            Some(Failure::IncompleteRequest),
        ),
{
    let nothing = Seq::<u8>::empty();
    assert(considered(nothing) == nothing);
    assert(crate::request::token_end(nothing, 0) == 0);
}

/// A handler that fails is answered for with the server-error response,
/// and the connection goes on to close like any other.
pub proof fn lemma_failed_handler_is_answered_for(table: Seq<Seq<char>>, event: EventView)
    ensures
        transition(Phase::Resolving, table, EventView::HandlerFailed) == responding(
            Status::InternalServerError,
            encode_utf8(page(SERVER_ERROR_MESSAGE@)),
            Some(Failure::HandlerError),
        ),
        transition(Phase::Responding, table, event).next == Phase::Closed,
{
}

/// Whatever goes wrong on a connection stays with it: no step records a
/// failure of the listener.
pub proof fn lemma_failures_stay_with_the_connection(
    phase: Phase,
    table: Seq<Seq<char>>,
    event: EventView,
)
    ensures
        transition(phase, table, event).failure matches Some(failure) ==> !concerns_listener(
            failure,
        ),
{
}

/// Every connection is closed after three events, whatever they are.
pub proof fn lemma_closes_within_three_events(
    table: Seq<Seq<char>>,
    first: EventView,
    second: EventView,
    third: EventView,
)
    ensures
        ({
            let one = transition(Phase::Reading, table, first);
            let two = transition(one.next, table, second);
            let three = transition(two.next, table, third);
            three.next == Phase::Closed
        }),
{
}

/// No connection is sent more than one response.
pub proof fn lemma_at_most_one_response(
    table: Seq<Seq<char>>,
    first: EventView,
    second: EventView,
    third: EventView,
)
    ensures
        ({
            let one = transition(Phase::Reading, table, first);
            let two = transition(one.next, table, second);
            let three = transition(two.next, table, third);
            &&& !(is_write(one.action) && is_write(two.action))
            &&& !(is_write(one.action) && is_write(three.action))
            &&& !(is_write(two.action) && is_write(three.action))
        }),
{
}

impl Phase {
    /// The phase every connection starts in.
    pub fn start() -> (phase: Phase)
        ensures
            phase == Phase::Reading,
    {
        Phase::Reading
    }

    /// Decides what follows `event` in this phase.
    pub fn on_event(self, table: &RouteTable, event: Event) -> (step: Step)
        ensures
            step@ == transition(self, table@, event@),
    {
        match self {
            Phase::Reading => match event {
                Event::Received(received) => answer(table, received.as_slice()),
                Event::PeerClosed => close(Some(Failure::IncompleteRequest)),
                Event::ReadFailed => close(Some(Failure::ReadError)),
                _ => close(Some(Failure::OutOfTurn)),
            },
            Phase::Resolving => match event {
                Event::HandlerReturned(response) => respond(&response, None),
                Event::HandlerFailed => respond(&server_error(), Some(Failure::HandlerError)),
                _ => close(Some(Failure::OutOfTurn)),
            },
            Phase::Responding => match event {
                Event::Written => close(None),
                Event::WriteFailed => close(Some(Failure::WriteError)),
                _ => close(Some(Failure::OutOfTurn)),
            },
            Phase::Closed => close(None),
        }
    }
}

/// The step that ends a connection.
fn close(failure: Option<Failure>) -> (step: Step)
    ensures
        step@ == closing(failure),
{
    Step { next: Phase::Closed, action: Action::Close, failure }
}

/// The step that sends `response`.
fn respond(response: &Response, failure: Option<Failure>) -> (step: Step)
    ensures
        step@ == responding(response.status, response.body@, failure),
{
    Step { next: Phase::Responding, action: Action::Write(response.to_bytes()), failure }
}

/// Decides what follows the arrival of `received`.
pub fn answer(table: &RouteTable, received: &[u8]) -> (step: Step)
    ensures
        step@ == after_request(table@, received@),
{
    let looked_at = if received.len() <= READ_LIMIT {
        received
    } else {
        slice_subrange(received, 0, READ_LIMIT)
    };
    match parse_request_path(looked_at) {
        Some(path) => match table.resolve(path) {
            MatchResult::Exact(handler) => Step {
                next: Phase::Resolving,
                action: Action::Invoke(handler),
                failure: None,
            },
            MatchResult::Suggestion(offered) => respond(&not_found(Some(&offered)), None),
            MatchResult::NoMatch => respond(&not_found(None), None),
        },
        None => close(Some(Failure::IncompleteRequest)),
    }
}

} // verus!
