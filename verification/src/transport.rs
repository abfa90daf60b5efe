//! The transport read rules. The wrapper owns one long-lived text-frame
//! connection; what it does with each inbound frame, a protocol error, the
//! end of the stream or an idle timeout is decided here, and an unverified
//! shell only performs the chosen action.

use vstd::prelude::*;

verus! {

/// Hard limit on connection establishment, in seconds.
pub const CONNECT_TIMEOUT_S: u64 = 30;

/// Idle window on every read; when it passes without any frame, the wrapper
/// sends its own liveness probe.
pub const IDLE_TIMEOUT_S: u64 = 30;

/// How long the wrapper waits for the liveness response to its own probe.
pub const PROBE_TIMEOUT_S: u64 = 10;

/// Why a connection is given up.
#[derive(Debug, Clone, Copy, PartialEq, Eq, Structural)]
pub enum TransportError {
    /// Connection establishment took longer than `CONNECT_TIMEOUT_S`.
    ConnectTimeout,
    /// The handshake failed outright.
    ConnectFailed,
    /// A frame could not be sent.
    SendFailed,
    /// The peer signalled an orderly close; always treated as loss.
    Closed,
    /// The inbound stream ended.
    StreamEnded,
    /// A fatal read error.
    ReadFailed,
    /// No liveness response arrived inside the probe window.
    ProbeTimeout,
}

/// One inbound frame.
#[derive(Debug, Clone)]
pub enum Frame {
    Text(String),
    Binary(Vec<u8>),
    Ping(Vec<u8>),
    Pong(Vec<u8>),
    Close,
}

/// What one poll of the socket produced, with the idle window applied.
#[derive(Debug, Clone)]
pub enum PollResult {
    /// A frame arrived inside the window.
    Frame(Frame),
    /// A malformed frame or a bad encoding: recoverable.
    ProtocolError,
    /// Any other read error: fatal.
    FatalError,
    /// The stream ended.
    StreamEnded,
    /// Nothing at all arrived inside the window.
    TimedOut,
}

/// What the caller of a read must do next.
#[derive(Debug, Clone)]
pub enum ReadStep {
    /// Application data: hand this text to the adapter.
    Data(String),
    /// Answer the peer's probe with this payload, then poll again.
    PongReply(Vec<u8>),
    /// A control or non-text frame was consumed; poll again.
    NoData,
    /// Send a probe and wait up to `PROBE_TIMEOUT_S` for the response.
    SendProbe,
    /// The connection is lost.
    Fail(TransportError),
}

/// The read rule for a normal poll: text is data; a probe is answered and
/// yields no data; an unsolicited response is dropped; a close or any fatal
/// condition ends the connection; a malformed frame is a recoverable no-op;
/// an idle timeout asks for a probe of our own.
pub open spec fn spec_read_step(r: PollResult) -> ReadStep {
    match r {
        PollResult::Frame(Frame::Text(t)) => ReadStep::Data(t),
        PollResult::Frame(Frame::Binary(_)) => ReadStep::NoData,
        PollResult::Frame(Frame::Ping(d)) => ReadStep::PongReply(d),
        PollResult::Frame(Frame::Pong(_)) => ReadStep::NoData,
        PollResult::Frame(Frame::Close) => ReadStep::Fail(TransportError::Closed),
        PollResult::ProtocolError => ReadStep::NoData,
        PollResult::FatalError => ReadStep::Fail(TransportError::ReadFailed),
        PollResult::StreamEnded => ReadStep::Fail(TransportError::StreamEnded),
        PollResult::TimedOut => ReadStep::SendProbe,
    }
}

/// The read rule while waiting for the response to our own probe: only a
/// liveness response keeps the connection; anything else is a probe timeout.
pub open spec fn spec_probe_step(r: PollResult) -> ReadStep {
    match r {
        PollResult::Frame(Frame::Pong(_)) => ReadStep::NoData,
        _ => ReadStep::Fail(TransportError::ProbeTimeout),
    }
}

/// Decide what a normal poll's outcome means.
pub fn read_step(r: PollResult) -> (step: ReadStep)
    ensures
        step == spec_read_step(r),
{
    match r {
        PollResult::Frame(f) => match f {
            Frame::Text(t) => ReadStep::Data(t),
            Frame::Binary(_) => ReadStep::NoData,
            Frame::Ping(d) => ReadStep::PongReply(d),
            Frame::Pong(_) => ReadStep::NoData,
            Frame::Close => ReadStep::Fail(TransportError::Closed),
        },
        PollResult::ProtocolError => ReadStep::NoData,
        PollResult::FatalError => ReadStep::Fail(TransportError::ReadFailed),
        PollResult::StreamEnded => ReadStep::Fail(TransportError::StreamEnded),
        PollResult::TimedOut => ReadStep::SendProbe,
    }
}

/// Decide what the probe window's outcome means.
pub fn probe_step(r: PollResult) -> (step: ReadStep)
    ensures
        step == spec_probe_step(r),
{
    match r {
        PollResult::Frame(f) => match f {
            Frame::Pong(_) => ReadStep::NoData,
            _ => ReadStep::Fail(TransportError::ProbeTimeout),
        },
        _ => ReadStep::Fail(TransportError::ProbeTimeout),
    }
}

/// The idle-timeout round trip: a poll that saw no frame for the whole idle
/// window asks for exactly one probe; a liveness response inside the probe
/// window turns into "no data, poll again"; anything else is a probe
/// timeout, and the caller must treat the connection as lost.
pub proof fn lemma_probe_round_trip(idle: PollResult, then: PollResult)
    requires
        idle is TimedOut,
    ensures
        spec_read_step(idle) == ReadStep::SendProbe,
        (then matches PollResult::Frame(Frame::Pong(d)) ==> spec_probe_step(then)
            == ReadStep::NoData),
        !(then matches PollResult::Frame(Frame::Pong(d))) ==> spec_probe_step(then)
            == ReadStep::Fail(TransportError::ProbeTimeout),
{
}

} // verus!
