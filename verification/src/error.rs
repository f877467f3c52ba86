//! The ways in which a replication session can fail.

use vstd::prelude::*;

verus! {

/// A session-ending failure. None of them is retried: a channel whose handler
/// reports one is closed.
#[derive(Clone, Copy, Debug, PartialEq, Eq, Structural)]
pub enum ReplicationError {
    /// A handshake arrived on a channel that the session does not own.
    ChannelMismatch,
    /// The shared log could not be locked.
    LockAcquisitionFailure,
    /// The bitfield of a `Have` message is not a well-formed run-length
    /// encoding.
    BitfieldDecodeFailure,
    /// The local availability bitfield could not be compressed for the range
    /// that the peer asked about.
    BitfieldEncodeFailure,
    /// The log refused a block.
    StorageWriteFailure,
}

impl ReplicationError {
    /// The text that describes the failure.
    pub open spec fn text(self) -> Seq<char> {
        match self {
            ReplicationError::ChannelMismatch => "Wrong channel in use"@,
            ReplicationError::LockAcquisitionFailure => "Could not aquire feed lock"@,
            ReplicationError::BitfieldDecodeFailure => "could not decode bitfield"@,
            ReplicationError::BitfieldEncodeFailure => "could not compress bitfield"@,
            ReplicationError::StorageWriteFailure => "could not write data to feed"@,
        }
    }

    /// Describes the failure in words.
    pub fn description(&self) -> (text: &'static str)
        ensures
            text@ == self.text(),
    {
        match self {
            ReplicationError::ChannelMismatch => "Wrong channel in use",
            ReplicationError::LockAcquisitionFailure => "Could not aquire feed lock",
            ReplicationError::BitfieldDecodeFailure => "could not decode bitfield",
            ReplicationError::BitfieldEncodeFailure => "could not compress bitfield",
            ReplicationError::StorageWriteFailure => "could not write data to feed",
        }
    }
}

} // verus!
