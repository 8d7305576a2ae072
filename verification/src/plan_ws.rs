//! The plan timestamp stream: what a client of the plan WebSocket is sent and how the
//! stream reacts to what happens on it.
use vstd::prelude::*;
use crate::text::{concat, dec_int, i64_to_string, owned};

verus! {

/// The first message of every stream.
pub const WELCOME_MESSAGE: &'static str = "Connected to plan timestamp stream";

/// The message that clears the reservation.
pub const CLEAR_MESSAGE: &'static str = "CLEAR";

/// The last message when the broadcast channel closes.
pub const CLOSED_MESSAGE: &'static str = "Connection closed";

/// The message that announces a reservation at `timestamp`.
pub open spec fn set_message(timestamp: i64) -> Seq<char> {
    "SET "@ + dec_int(timestamp as int)
}

/// The state sent right after the welcome: the reservation while it lies in the future,
/// else `CLEAR`.
pub open spec fn initial_state_spec(current: Option<i64>, now: i64) -> Seq<char> {
    match current {
        Some(ts) => if now < ts {
            set_message(ts)
        } else {
            CLEAR_MESSAGE@
        },
        None => CLEAR_MESSAGE@,
    }
}

/// The state sent to a client that has just connected, at time `now` (seconds).
pub fn initial_state_message(current: Option<i64>, now: i64) -> (m: String)
    ensures
        m@ == initial_state_spec(current, now),
{
    match current {
        Some(ts) => if now < ts {
            let n = i64_to_string(ts);
            concat("SET ", n.as_str())
        } else {
            owned(CLEAR_MESSAGE)
        },
        None => owned(CLEAR_MESSAGE),
    }
}

/// What happened on an open stream.
pub enum PlanStreamEvent {
    /// The client pinged with this payload.
    Ping(Vec<u8>),
    /// The client closed the connection.
    Close,
    /// The client sent anything else (text, binary, a pong, a raw frame).
    OtherMessage,
    /// Receiving from the client failed.
    ReceiveError,
    /// The client's stream ended.
    StreamEnded,
    /// The reservation system broadcast this message.
    Broadcast(String),
    /// The broadcast channel closed.
    ChannelClosed,
    /// This client fell behind by this many broadcasts.
    Lagged(u64),
    /// No broadcast came within the polling interval.
    Timeout,
}

/// What the stream does next.
pub enum PlanStreamAction {
    /// Answer a ping with a pong carrying its payload.
    Pong(Vec<u8>),
    /// Forward a message to the client.
    Forward(String),
    /// Tell the client the channel closed, then end the stream.
    CloseWith(String),
    /// End the stream.
    Stop,
    /// Keep going.
    Continue,
}

/// The next step of the stream after an event: pings are answered, broadcasts forwarded,
/// a closed channel announced; a close, a receive error or the stream's end stop it;
/// lagging, timeouts and other client messages are passed over.
pub fn plan_stream_step(event: PlanStreamEvent) -> (a: PlanStreamAction)
    ensures
        match event {
            PlanStreamEvent::Ping(p) => a matches PlanStreamAction::Pong(q) && q@ == p@,
            PlanStreamEvent::Broadcast(m) => a matches PlanStreamAction::Forward(f) && f@ == m@,
            PlanStreamEvent::ChannelClosed => a matches PlanStreamAction::CloseWith(c) && c@ == CLOSED_MESSAGE@,
            PlanStreamEvent::Close | PlanStreamEvent::ReceiveError | PlanStreamEvent::StreamEnded => a is Stop,
            PlanStreamEvent::OtherMessage | PlanStreamEvent::Lagged(_) | PlanStreamEvent::Timeout => a is Continue,
        },
{
    match event {
        PlanStreamEvent::Ping(p) => PlanStreamAction::Pong(p),
        PlanStreamEvent::Broadcast(m) => PlanStreamAction::Forward(m),
        PlanStreamEvent::ChannelClosed => PlanStreamAction::CloseWith(owned(CLOSED_MESSAGE)),
        PlanStreamEvent::Close | PlanStreamEvent::ReceiveError | PlanStreamEvent::StreamEnded => PlanStreamAction::Stop,
        PlanStreamEvent::OtherMessage | PlanStreamEvent::Lagged(_) | PlanStreamEvent::Timeout => PlanStreamAction::Continue,
    }
}

} // verus!
