//! Progress of the handshake that opens a channel.

use vstd::prelude::*;

verus! {

/// How far the handshake of a channel has come.
#[derive(Clone, Copy, Debug, PartialEq, Eq, Structural)]
pub enum HandshakeState {
    /// Nothing has been received yet.
    NotStarted,
    /// The peer has announced which log the channel replicates.
    FeedExchanged,
    /// The peer's handshake has arrived; the channel replicates.
    Complete,
}

impl HandshakeState {
    /// The state after the peer's `Feed`: a handshake that had not started
    /// now awaits the peer's `Handshake`; any other stays as it is.
    pub open spec fn fed(self) -> HandshakeState {
        match self {
            HandshakeState::NotStarted => HandshakeState::FeedExchanged,
            other => other,
        }
    }

    /// The state after the peer's `Feed`.
    pub fn on_feed(self) -> (next: HandshakeState)
        ensures
            next == self.fed(),
    {
        match self {
            HandshakeState::NotStarted => HandshakeState::FeedExchanged,
            other => other,
        }
    }

    /// The state after the peer's `Handshake`, which completes it.
    pub fn on_handshake(self) -> (next: HandshakeState)
        ensures
            next == HandshakeState::Complete,
    {
        HandshakeState::Complete
    }
}

} // verus!
