//! Per-connection decision logic: difficulty clamping and the message state
//! machine. The surrounding transport loop performs the I/O and feeds each
//! classified inbound message through `on_message`.

use vstd::prelude::*;
use crate::event::PowRequest;

verus! {

/// The difficulty actually searched for: a requested value of zero means
/// "use the server default", and the result is capped at the server maximum.
pub open spec fn effective_difficulty(requested: u32, default_difficulty: u32, max_difficulty: u32) -> u32 {
    let base = if requested == 0 {
        default_difficulty
    } else {
        requested
    };
    if base > max_difficulty {
        max_difficulty
    } else {
        base
    }
}

/// Law: the clamp is the minimum of the (default-substituted) request and
/// the configured maximum, and never exceeds the maximum.
pub proof fn lemma_effective_difficulty_clamps(requested: u32, default_difficulty: u32, max_difficulty: u32)
    ensures
        effective_difficulty(requested, default_difficulty, max_difficulty) <= max_difficulty,
        requested != 0 ==> effective_difficulty(requested, default_difficulty, max_difficulty)
            == if requested > max_difficulty { max_difficulty } else { requested },
        requested == 0 ==> effective_difficulty(requested, default_difficulty, max_difficulty)
            == if default_difficulty > max_difficulty { max_difficulty } else { default_difficulty },
{
}

/// Clamps a requested difficulty against the server's bounds.
pub fn clamp_difficulty(requested: u32, default_difficulty: u32, max_difficulty: u32) -> (r: u32)
    ensures
        r == effective_difficulty(requested, default_difficulty, max_difficulty),
{
    let base = if requested == 0 {
        default_difficulty
    } else {
        requested
    };
    if base > max_difficulty {
        max_difficulty
    } else {
        base
    }
}

/// The lifecycle of one connection.
#[derive(Clone, Copy, Debug, PartialEq, Eq, Structural)]
pub enum ConnState {
    /// Receive/respond loop in progress.
    Active,
    /// The client asked to close; the connection winds down normally.
    Closing,
    /// No further messages are processed.
    Closed,
}

/// One classified inbound item, as the transport loop hands it over.
pub enum Incoming {
    /// A well-formed work request parsed from a data message.
    Request(PowRequest),
    /// A data message that did not parse as a request.
    Malformed,
    /// A keepalive probe carrying a payload to echo.
    Ping(Vec<u8>),
    /// The client asked to close the connection.
    CloseRequest,
    /// Any other transport frame; ignored.
    Unsupported,
    /// The transport failed while reading.
    ReadError,
}

/// What the transport loop must do next.
pub enum Action {
    /// Run the search for this request (difficulty already clamped) and send
    /// the response.
    Compute(PowRequest),
    /// Reply with a pong echoing the payload.
    Pong(Vec<u8>),
    /// Nothing to send; keep waiting.
    Idle,
}

/// The connection state after one inbound item is handled.
pub open spec fn next_state(state: ConnState, msg: Incoming) -> ConnState {
    if !(state is Active) {
        state
    } else {
        match msg {
            Incoming::Request(_) => ConnState::Active,
            Incoming::Malformed => ConnState::Active,
            Incoming::Ping(_) => ConnState::Active,
            Incoming::CloseRequest => ConnState::Closing,
            Incoming::Unsupported => ConnState::Active,
            Incoming::ReadError => ConnState::Closed,
        }
    }
}

/// Law: a malformed message never ends an open connection, and a
/// well-formed request arriving right after it finds the connection still
/// active, so it is still computed.
pub proof fn lemma_malformed_keeps_connection(state: ConnState, req: PowRequest)
    requires
        state is Active,
    ensures
        next_state(state, Incoming::Malformed) is Active,
        next_state(next_state(state, Incoming::Malformed), Incoming::Request(req)) is Active,
{
}

/// One step of the connection state machine: classify the inbound item and
/// decide the next state and action. A malformed message is dropped and the
/// connection stays open; a request's difficulty is substituted and capped
/// before any work is scheduled.
pub fn on_message(state: ConnState, msg: Incoming, default_difficulty: u32, max_difficulty: u32) -> (r: (
    ConnState,
    Action,
))
    ensures
        r.0 == next_state(state, msg),
        !(state is Active) ==> r.0 == state && r.1 is Idle,
        state is Active ==> match msg {
            Incoming::Request(req) => r.0 is Active && (r.1 matches Action::Compute(c)
                && c.event == req.event && c.target_pow == effective_difficulty(
                req.target_pow,
                default_difficulty,
                max_difficulty,
            )),
            Incoming::Malformed => r.0 is Active && r.1 is Idle,
            Incoming::Ping(p) => r.0 is Active && (r.1 matches Action::Pong(q) && q == p),
            Incoming::CloseRequest => r.0 is Closing && r.1 is Idle,
            Incoming::Unsupported => r.0 is Active && r.1 is Idle,
            Incoming::ReadError => r.0 is Closed && r.1 is Idle,
        },
{
    if !matches!(state, ConnState::Active) {
        return (state, Action::Idle);
    }
    match msg {
        Incoming::Request(req) => {
            let target = clamp_difficulty(req.target_pow, default_difficulty, max_difficulty);
            (
                ConnState::Active,
                Action::Compute(PowRequest { event: req.event, target_pow: target }),
            )
        },
        Incoming::Malformed => (ConnState::Active, Action::Idle),
        Incoming::Ping(p) => (ConnState::Active, Action::Pong(p)),
        Incoming::CloseRequest => (ConnState::Closing, Action::Idle),
        Incoming::Unsupported => (ConnState::Active, Action::Idle),
        Incoming::ReadError => (ConnState::Closed, Action::Idle),
    }
}

} // verus!
