//! What can go wrong, and how far each failure reaches.

use vstd::prelude::*;

verus! {

/// The failures the core knows of.
#[derive(Debug, Clone, Copy, PartialEq, Eq, Structural)]
pub enum Failure {
    /// The listening endpoint could not be bound.
    BindError,
    /// One connection could not be accepted.
    AcceptError,
    /// The read on a connection failed.
    ReadError,
    /// The peer sent no complete, well-formed request line.
    IncompleteRequest,
    /// The handler of the route failed.
    HandlerError,
    /// The write on a connection failed; part of the response may have gone
    /// out.
    WriteError,
    /// The driver reported an event that was not waited for.
    OutOfTurn,
}

/// Whether `failure` ends the process. Only a failure to bind does.
pub open spec fn is_fatal(failure: Failure) -> bool {
    failure == Failure::BindError
}

/// Whether `failure` is one of the listener itself. The others belong to a
/// single connection and end with it.
pub open spec fn concerns_listener(failure: Failure) -> bool {
    failure == Failure::BindError || failure == Failure::AcceptError
}

/// The line that goes to the log for `failure`.
pub open spec fn log_line(failure: Failure) -> Seq<char> {
    match failure {
        Failure::BindError => "could not bind the listening endpoint"@,
        Failure::AcceptError => "could not accept a connection"@,
        Failure::ReadError => "could not read the request"@,
        Failure::IncompleteRequest => "no complete request line"@,
        Failure::HandlerError => "the handler failed"@,
        Failure::WriteError => "could not write the response"@,
        Failure::OutOfTurn => "an event came out of turn"@,
    }
}

impl Failure {
    /// Whether the failure ends the process.
    pub fn is_fatal(self) -> (fatal: bool)
        ensures
            fatal == is_fatal(self),
    {
        match self {
            Failure::BindError => true,
            _ => false,
        }
    }

    /// Whether the failure is one of the listener itself.
    pub fn concerns_listener(self) -> (listener: bool)
        ensures
            listener == concerns_listener(self),
    {
        match self {
            Failure::BindError | Failure::AcceptError => true,
            _ => false,
        }
    }

    /// A line for the log.
    pub fn message(self) -> (text: &'static str)
        ensures
            text@ == log_line(self),
    {
        match self {
            Failure::BindError => "could not bind the listening endpoint",
            Failure::AcceptError => "could not accept a connection",
            Failure::ReadError => "could not read the request",
            Failure::IncompleteRequest => "no complete request line",
            Failure::HandlerError => "the handler failed",
            Failure::WriteError => "could not write the response",
            Failure::OutOfTurn => "an event came out of turn",
        }
    }
}

} // verus!
