//! The life of a connection, and the ceiling on how many are served at the
//! same time.
//!
//! The sockets belong to the code that embeds the library. It reports what
//! happened, and is told here where the connection stands and whether a new
//! one may be served.

use crate::error::ServerError;
use crate::http::response::{HttpResponse, Response, ResponseView, error_json, json_quoted};
use vstd::prelude::*;

verus! {

/// Where a connection stands.
#[derive(PartialEq, Eq, Structural, Copy, Clone, Debug)]
pub enum ConnectionState {
    /// The connection was accepted; where the server uses TLS, the
    /// handshake is still to come.
    Accepted,
    /// The request was read.
    Parsed,
    /// The request was handed to its route, and there is an answer.
    Dispatched,
    /// The response was written.
    Responded,
    /// The connection is over.
    Closed,
}

/// What happened on a connection.
#[derive(PartialEq, Eq, Structural, Copy, Clone, Debug)]
pub enum ConnectionEvent {
    /// The TLS handshake succeeded.
    HandshakeDone,
    /// The TLS handshake failed.
    HandshakeFailed,
    /// A request was read.
    RequestRead,
    /// The peer closed the connection before it sent a request, or the
    /// request could not be read.
    NoRequest,
    /// The route answered, with a response or with an error, or it ended
    /// abnormally.
    Answered,
    /// The response was written.
    Written,
    /// The response could not be written.
    WriteFailed,
    /// The slot of the connection was given back.
    Released,
}

/// What a connection does next.
#[derive(PartialEq, Eq, Structural, Copy, Clone, Debug)]
pub enum ConnectionAction {
    /// Perform the TLS handshake.
    Handshake,
    /// Read a request.
    ReadRequest,
    /// Hand the request to its route.
    Dispatch,
    /// Write the response.
    WriteResponse,
    /// Give the slot back.
    Release,
    /// Nothing more.
    Stop,
}

/// The state of a connection after `event`.
///
/// A connection goes from accepted, over the handshake where there is one,
/// to parsed, dispatched, responded and closed. Each connection serves one
/// request. A failed handshake, a missing request and a failed write close
/// the connection. An event that does not belong to the state changes
/// nothing.
pub open spec fn next_state(state: ConnectionState, event: ConnectionEvent) -> ConnectionState {
    match (state, event) {
        (ConnectionState::Accepted, ConnectionEvent::HandshakeDone) => ConnectionState::Accepted,
        (ConnectionState::Accepted, ConnectionEvent::HandshakeFailed) => ConnectionState::Closed,
        (ConnectionState::Accepted, ConnectionEvent::RequestRead) => ConnectionState::Parsed,
        (ConnectionState::Accepted, ConnectionEvent::NoRequest) => ConnectionState::Closed,
        (ConnectionState::Parsed, ConnectionEvent::Answered) => ConnectionState::Dispatched,
        (ConnectionState::Dispatched, ConnectionEvent::Written) => ConnectionState::Responded,
        (ConnectionState::Dispatched, ConnectionEvent::WriteFailed) => ConnectionState::Closed,
        (ConnectionState::Responded, ConnectionEvent::Released) => ConnectionState::Closed,
        _ => state,
    }
}

/// What a connection in the state `state` does next, where `secured` says
/// that no TLS handshake is to come: the server uses none, or it was
/// performed.
pub open spec fn next_action(state: ConnectionState, secured: bool) -> ConnectionAction {
    match state {
        ConnectionState::Accepted => if secured {
            ConnectionAction::ReadRequest
        } else {
            ConnectionAction::Handshake
        },
        ConnectionState::Parsed => ConnectionAction::Dispatch,
        ConnectionState::Dispatched => ConnectionAction::WriteResponse,
        ConnectionState::Responded => ConnectionAction::Release,
        ConnectionState::Closed => ConnectionAction::Stop,
    }
}

/// The number of steps that a connection in the state `state` has before it
/// at most.
pub open spec fn steps_left(state: ConnectionState) -> nat {
    match state {
        ConnectionState::Accepted => 4,
        ConnectionState::Parsed => 3,
        ConnectionState::Dispatched => 2,
        ConnectionState::Responded => 1,
        ConnectionState::Closed => 0,
    }
}

/// No event takes a connection back: it stays where it is or comes nearer
/// to its end, and a closed connection stays closed.
pub proof fn lemma_connection_progress(state: ConnectionState, event: ConnectionEvent)
    ensures
        steps_left(next_state(state, event)) <= steps_left(state),
        state == ConnectionState::Closed ==> next_state(state, event) == ConnectionState::Closed,
{
}

/// The state of a connection after `event`.
pub fn advance(state: ConnectionState, event: ConnectionEvent) -> (next: ConnectionState)
    ensures
        next == next_state(state, event),
{
    match (state, event) {
        (ConnectionState::Accepted, ConnectionEvent::HandshakeDone) => ConnectionState::Accepted,
        (ConnectionState::Accepted, ConnectionEvent::HandshakeFailed) => ConnectionState::Closed,
        (ConnectionState::Accepted, ConnectionEvent::RequestRead) => ConnectionState::Parsed,
        (ConnectionState::Accepted, ConnectionEvent::NoRequest) => ConnectionState::Closed,
        (ConnectionState::Parsed, ConnectionEvent::Answered) => ConnectionState::Dispatched,
        (ConnectionState::Dispatched, ConnectionEvent::Written) => ConnectionState::Responded,
        (ConnectionState::Dispatched, ConnectionEvent::WriteFailed) => ConnectionState::Closed,
        (ConnectionState::Responded, ConnectionEvent::Released) => ConnectionState::Closed,
        _ => state,
    }
}

/// What a connection in the state `state` does next.
pub fn action(state: ConnectionState, secured: bool) -> (a: ConnectionAction)
    ensures
        a == next_action(state, secured),
{
    match state {
        ConnectionState::Accepted => if secured {
            ConnectionAction::ReadRequest
        } else {
            ConnectionAction::Handshake
        },
        ConnectionState::Parsed => ConnectionAction::Dispatch,
        ConnectionState::Dispatched => ConnectionAction::WriteResponse,
        ConnectionState::Responded => ConnectionAction::Release,
        ConnectionState::Closed => ConnectionAction::Stop,
    }
}

/// The count of the connections that are served, and its ceiling.
#[derive(Debug)]
pub struct ConnectionLimiter {
    pub active: usize,
    pub max_connections: usize,
}

/// What is asked of a limiter.
pub enum LimiterEvent {
    /// A connection asks to be served.
    Acquire,
    /// A connection that was served is over.
    Release,
}

/// The number of connections that are served after `event`, where `active`
/// were served before it, under the ceiling `max`. A connection that asks
/// is served only while fewer than `max` are.
pub open spec fn limiter_step(active: nat, max: nat, event: LimiterEvent) -> nat {
    match event {
        LimiterEvent::Acquire => if active < max {
            active + 1
        } else {
            active
        },
        LimiterEvent::Release => if active > 0 {
            (active - 1) as nat
        } else {
            0
        },
    }
}

/// The number of connections that are served after `events`, under the
/// ceiling `max`, where none was served before them.
pub open spec fn active_after(max: nat, events: Seq<LimiterEvent>) -> nat
    decreases events.len(),
{
    if events.len() == 0 {
        0
    } else {
        limiter_step(active_after(max, events.drop_last()), max, events.last())
    }
}

/// Whatever is asked, never more connections are served than the ceiling
/// allows.
pub proof fn lemma_ceiling(max: nat, events: Seq<LimiterEvent>)
    ensures
        active_after(max, events) <= max,
    decreases events.len(),
{
    if events.len() > 0 {
        lemma_ceiling(max, events.drop_last());
    }
}

/// While as many connections are served as the ceiling allows, one more
/// that asks is not served: the count stays as it is until one is over.
pub proof fn lemma_refused_at_ceiling(max: nat, events: Seq<LimiterEvent>)
    requires
        active_after(max, events) == max,
    ensures
        active_after(max, events.push(LimiterEvent::Acquire)) == max,
{
    assert(events.push(LimiterEvent::Acquire).drop_last() =~= events);
}

impl ConnectionLimiter {
    /// A limiter that serves no connection yet.
    pub fn new(max_connections: usize) -> (l: ConnectionLimiter)
        ensures
            l.active == 0,
            l.max_connections == max_connections,
    {
        ConnectionLimiter { active: 0, max_connections }
    }

    /// Asks for a slot. It is granted if fewer connections are served than
    /// the ceiling allows, and then the connection counts as served.
    pub fn try_acquire(&mut self) -> (granted: bool)
        ensures
            granted == (old(self).active < old(self).max_connections),
            final(self).max_connections == old(self).max_connections,
            final(self).active == limiter_step(
                old(self).active as nat,
                old(self).max_connections as nat,
                LimiterEvent::Acquire,
            ),
    {
        if self.active < self.max_connections {
            self.active = self.active + 1;
            true
        } else {
            false
        }
    }

    /// Gives a slot back.
    pub fn release(&mut self)
        ensures
            final(self).max_connections == old(self).max_connections,
            final(self).active == limiter_step(
                old(self).active as nat,
                old(self).max_connections as nat,
                LimiterEvent::Release,
            ),
    {
        if self.active > 0 {
            self.active = self.active - 1;
        }
    }
}

/// What a route ended with: its answer, or the message of the fault that
/// ended it abnormally, if the fault carried one.
pub enum Outcome {
    Answer(HttpResponse),
    Fault(Option<String>),
}

/// The answer that is sent for `outcome`: the route's own answer, or, for a
/// fault, the error that reports it.
pub fn contain(outcome: Outcome) -> (r: HttpResponse)
    ensures
        match outcome {
            Outcome::Answer(answer) => r == answer,
            Outcome::Fault(Some(message)) => r matches Err(ServerError::PanicError(m)) && m@
                == message@,
            Outcome::Fault(None) => r matches Err(ServerError::PanicError(m)) && m@
                == "Unknown panic"@,
        },
{
    match outcome {
        Outcome::Answer(answer) => answer,
        Outcome::Fault(Some(message)) => Err(ServerError::PanicError(message)),
        Outcome::Fault(None) => Err(ServerError::PanicError("Unknown panic".to_owned())),
    }
}

/// The response that is written for `answer`: the response itself, or the
/// response that reports the error.
pub fn respond(answer: HttpResponse) -> (r: Response)
    ensures
        match answer {
            Ok(response) => r == response,
            Err(e) => r@ == ResponseView::empty(e.status()).with_header(
                "Content-Type"@,
                "application/json"@,
            ).with_body(error_json(json_quoted(e.text()), e.status())),
        },
{
    match answer {
        Ok(response) => response,
        Err(e) => Response::error(e),
    }
}

} // verus!
