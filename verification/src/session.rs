//! The per-connection session policy. A live connection runs two loops:
//! the inbound loop reads frames from the transport and decides, frame
//! by frame, what to do; the outbound loop dequeues from the user's
//! fan-out subscription and writes to the transport. The session ends
//! as soon as either loop ends, and the other is then cancelled. The
//! decision itself is pure and stands here; the transport, the decoding
//! of frames and the cancellation plumbing live at the edge.

use vstd::prelude::*;
use crate::models::WsMessageIn;

verus! {

/// One observation of the inbound loop, after the transport edge has
/// classified and decoded a frame.
pub enum InboundEvent {
    /// A well-formed message frame.
    Frame(WsMessageIn),
    /// A text frame that does not decode as a message; one bad frame
    /// must not kill the session.
    MalformedFrame,
    /// Any other frame kind the transport may deliver.
    OtherFrame,
    /// The peer's explicit close frame.
    CloseFrame,
    /// The transport stream ended or failed.
    TransportClosed,
}

/// What the inbound loop does next.
pub enum SessionAction {
    /// Hand the decoded message to the pipeline; the session continues
    /// whatever the pipeline answers (a rejection is logged, not
    /// fatal).
    Deliver(WsMessageIn),
    /// Skip the frame and keep reading.
    Ignore,
    /// End the session; the companion outbound loop is cancelled.
    Terminate,
}

/// The inbound policy: a message frame is delivered to the pipeline, a
/// malformed or unrecognised frame is skipped, and only an explicit
/// close or the end of the transport terminates the session.
pub fn next_inbound_action(event: InboundEvent) -> (r: SessionAction)
    ensures
        match event {
            InboundEvent::Frame(f) => r matches SessionAction::Deliver(d) && d == f,
            InboundEvent::MalformedFrame => r is Ignore,
            InboundEvent::OtherFrame => r is Ignore,
            InboundEvent::CloseFrame => r is Terminate,
            InboundEvent::TransportClosed => r is Terminate,
        },
{
    match event {
        InboundEvent::Frame(f) => SessionAction::Deliver(f),
        InboundEvent::MalformedFrame => SessionAction::Ignore,
        InboundEvent::OtherFrame => SessionAction::Ignore,
        InboundEvent::CloseFrame => SessionAction::Terminate,
        InboundEvent::TransportClosed => SessionAction::Terminate,
    }
}

} // verus!
