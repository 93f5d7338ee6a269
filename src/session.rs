//! The decisions of a single connection: a push connection's reaction to
//! each frame and to each tick of its liveness timer, and the answer that a
//! poll request gets.

use vstd::prelude::*;
use crate::message::{IncomingMessage, Validate};

verus! {

/// Seconds between two liveness probes of the hub.
pub const PROBE_INTERVAL_SECS: u64 = 15;

/// How many probe intervals a push connection may go without a liveness
/// signal before it closes itself.
pub const DEAD_AFTER_PROBES: u64 = 2;

/// Seconds that a poll request waits for a message.
pub const POLL_TIMEOUT_SECS: u64 = 30;

/// Seconds between two keep-alive comments on an event stream.
pub const STREAM_KEEP_ALIVE_SECS: u64 = 60;

/// The longest silence, in milliseconds, that a push connection survives.
pub open spec fn silence_limit_ms() -> int {
    PROBE_INTERVAL_SECS * DEAD_AFTER_PROBES * 1000
}

/// Whether a push connection last heard from at `last_seen_ms` is dead at
/// `now_ms`. A clock reading earlier than the last signal counts as no
/// silence at all.
pub open spec fn is_silent(last_seen_ms: u64, now_ms: u64) -> bool {
    now_ms > last_seen_ms && now_ms - last_seen_ms > silence_limit_ms()
}

/// A frame that arrived on a push connection. A text frame comes already
/// decoded: the message, or the decoder's error.
#[derive(Debug)]
pub enum Frame {
    Text(Result<IncomingMessage, String>),
    Ping(Vec<u8>),
    Pong,
    Close,
    Other,
}

/// What a push connection does about a frame.
#[derive(Debug)]
pub enum FrameAction {
    /// Hand the message to the hub, with its sender as origin.
    Publish(IncomingMessage),
    /// Answer the client with this error text.
    Reply(String),
    /// Answer a ping with these bytes.
    Pong(Vec<u8>),
    /// Close the connection.
    Stop,
    /// Nothing.
    Nothing,
}

/// What a push connection does when its liveness timer fires.
#[derive(Clone, Copy, Debug, PartialEq, Eq, Structural)]
pub enum TickAction {
    /// Close: nothing was heard for too long.
    Stop,
    /// Send a protocol ping.
    Ping,
}

/// The state of one push connection.
#[derive(Debug)]
pub struct PushSession {
    pub identity: String,
    /// The time of the last liveness signal, in milliseconds.
    pub last_seen_ms: u64,
}

impl PushSession {
    /// A connection of `identity`, opened at `now_ms`.
    pub fn new(identity: String, now_ms: u64) -> (s: PushSession)
        ensures
            s.identity == identity,
            s.last_seen_ms == now_ms,
    {
        PushSession { identity, last_seen_ms: now_ms }
    }

    /// The reaction to one frame received at `now_ms`. A valid message goes
    /// to the hub; an invalid one, or text that did not decode, gets an
    /// error reply; a ping or a pong counts as a liveness signal, and a ping
    /// is answered; a close frame closes the connection.
    pub fn on_frame(&mut self, frame: Frame, now_ms: u64) -> (a: FrameAction)
        ensures
            final(self).identity == old(self).identity,
            final(self).last_seen_ms == (match frame {
                Frame::Ping(_) | Frame::Pong => now_ms,
                _ => old(self).last_seen_ms,
            }),
            match frame {
                Frame::Text(Ok(m)) => match m.problem() {
                    None => a == FrameAction::Publish(m),
                    Some(p) => a is Reply && a->Reply_0@ == "Invalid message: "@ + p,
                },
                Frame::Text(Err(e)) => a is Reply && a->Reply_0@ == "JSON parse error "@ + e@,
                Frame::Ping(bytes) => a == FrameAction::Pong(bytes),
                Frame::Pong => a is Nothing,
                Frame::Close => a is Stop,
                Frame::Other => a is Nothing,
            },
    {
        match frame {
            Frame::Text(Ok(m)) => match m.validate() {
                Ok(()) => FrameAction::Publish(m),
                Err(e) => FrameAction::Reply(String::from_str("Invalid message: ").concat(e.as_str())),
            },
            Frame::Text(Err(e)) => FrameAction::Reply(
                String::from_str("JSON parse error ").concat(e.as_str()),
            ),
            Frame::Ping(bytes) => {
                self.last_seen_ms = now_ms;
                FrameAction::Pong(bytes)
            },
            Frame::Pong => {
                self.last_seen_ms = now_ms;
                FrameAction::Nothing
            },
            Frame::Close => FrameAction::Stop,
            Frame::Other => FrameAction::Nothing,
        }
    }

    /// The reaction to a tick of the liveness timer at `now_ms`: close when
    /// the connection has been silent too long, else ping.
    pub fn on_tick(&self, now_ms: u64) -> (a: TickAction)
        ensures
            a == (if is_silent(self.last_seen_ms, now_ms) {
                TickAction::Stop
            } else {
                TickAction::Ping
            }),
    {
        if now_ms > self.last_seen_ms && now_ms - self.last_seen_ms > PROBE_INTERVAL_SECS
            * DEAD_AFTER_PROBES * 1000 {
            TickAction::Stop
        } else {
            TickAction::Ping
        }
    }
}

/// How a poll request ends.
#[derive(Debug)]
pub enum PollOutcome {
    /// A message of someone else arrived: its text.
    Delivered(String),
    /// Nothing arrived in time.
    TimedOut,
}

/// How a poll request ends, from what its wait saw: `still_waiting` says
/// that the hub still held the waiter when its time ran out (it was never
/// handed a message), and `received` is the message text that reached the
/// request, if any. A waiter the hub still held has timed out; one it handed
/// over is delivered, if its text arrived.
pub fn poll_outcome(still_waiting: bool, received: Option<String>) -> (r: PollOutcome)
    ensures
        r == (if still_waiting {
            PollOutcome::TimedOut
        } else {
            match received {
                Some(t) => PollOutcome::Delivered(t),
                None => PollOutcome::TimedOut,
            }
        }),
{
    if still_waiting {
        PollOutcome::TimedOut
    } else {
        match received {
            Some(t) => PollOutcome::Delivered(t),
            None => PollOutcome::TimedOut,
        }
    }
}

impl PollOutcome {
    /// The body of the answer: the message text, or the timeout marker.
    pub fn body(self) -> (r: String)
        ensures
            match self {
                PollOutcome::Delivered(t) => r == t,
                PollOutcome::TimedOut => r@ == "heartbeat timeout"@,
            },
    {
        match self {
            PollOutcome::Delivered(t) => t,
            PollOutcome::TimedOut => String::from_str("heartbeat timeout"),
        }
    }
}

} // verus!
