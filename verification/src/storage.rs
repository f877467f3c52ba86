//! What a session reads from the shared log while it answers a peer.
//!
//! The log itself belongs to the storage engine and is shared between
//! sessions behind a lock. A handler never holds it: the caller takes the lock,
//! reads what is described here and hands it over.

use vstd::prelude::*;
use hypercore::bitfield::Bitfield;
use crate::audit::{Proof, ProofView};
use crate::message::bytes_view;

verus! {

/// The log's availability bitfield, as `hypercore` keeps it.
#[verifier::external_type_specification]
#[verifier::external_body]
pub struct ExBitfield(hypercore::bitfield::Bitfield);

/// A reading of the log, taken under its lock.
pub struct LogView<'a> {
    /// Number of blocks in the log.
    pub length: u64,
    /// Whether the log holds its last block, the one at `length - 1`.
    /// Carries no meaning for an empty log.
    pub head_present: bool,
    /// Which blocks the log holds.
    pub presence: &'a Bitfield,
}

/// A block to be written to the log, with the proof that storage checks.
#[derive(Clone, Debug, PartialEq, Eq)]
pub struct Put {
    pub index: u64,
    pub value: Option<Vec<u8>>,
    pub proof: Proof,
}

/// Mathematical value of a [`Put`].
pub ghost struct PutView {
    pub index: u64,
    pub value: Option<Seq<u8>>,
    pub proof: ProofView,
}

impl View for Put {
    type V = PutView;

    open spec fn view(&self) -> PutView {
        PutView { index: self.index, value: bytes_view(self.value), proof: self.proof@ }
    }
}

/// How an attempt to write a block ended.
#[derive(Clone, Copy, Debug, PartialEq, Eq, Structural)]
pub enum PutOutcome {
    /// Storage verified the proof and stored the block.
    Stored,
    /// Storage refused the block.
    Rejected,
    /// The log could not be locked for writing.
    LockUnavailable,
}

/// The pages of availability bits that a bitfield holds, by page number.
pub uninterp spec fn pages_of(presence: Bitfield) -> Map<int, Seq<u8>>;

/// What `Bitfield::compress` returns for the window of `length` bits at
/// `start` of a bitfield that holds `pages`; `None` where it reports an error.
pub uninterp spec fn compressed(pages: Map<int, Seq<u8>>, start: usize, length: usize) -> Option<
    Seq<u8>,
>;

/// Whether a window can be handed to the bitfield: both numbers are
/// addressable, and a buffer of `length` bytes can be asked for.
pub open spec fn window_fits(start: u64, length: u64) -> bool {
    start <= usize::MAX && length <= usize::MAX / 2
}

/// Decides [`window_fits`].
pub fn fits_window(start: u64, length: u64) -> (fits: bool)
    ensures
        fits == window_fits(start, length),
{
    start <= usize::MAX as u64 && length <= (usize::MAX / 2) as u64
}

/// Calls `Bitfield::compress`, which run-length encodes the pages of the
/// bitfield that the window covers, or the whole bitfield where `start` and
/// `length` are both zero. It reads nothing but the pages, which are named
/// [`pages_of`], and reserves `length` bytes before it starts, which the
/// largest allocation bounds. Its result is named [`compressed`].
#[verifier::external_body]
pub(crate) fn compress_window(presence: &Bitfield, start: usize, length: usize) -> (rle: Option<
    Vec<u8>,
>)
    requires
        length <= usize::MAX / 2,
    ensures
        bytes_view(rle) == compressed(pages_of(*presence), start, length),
{
    presence.compress(start, length).ok()
}

} // verus!
