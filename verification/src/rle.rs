//! Run-length codec for availability bitfields.
//!
//! An encoded bitfield is a series of runs. Each run starts with a varint
//! header. An odd header stands for `header / 4` repeated bytes, all ones when
//! its second bit is set and all zeros otherwise. An even header is followed by
//! `header / 2` literal bytes.

use vstd::prelude::*;
use crate::error::ReplicationError;

verus! {

/// Decoding refuses input that would expand to more bytes than this.
pub const MAX_BITFIELD_BYTES: usize = 0x7fff_ffff;

/// The widest varint that fits in 64 bits.
pub const MAX_VARINT_BYTES: usize = 10;

/// The bytes that `bitfield_rle::encode` yields for `bits`.
pub uninterp spec fn rle_encoded(bits: Seq<u8>) -> Seq<u8>;

/// Value and width of the little-endian base-128 varint that starts at `at`
/// and ends within `room` bytes; `None` where the buffer or the room ends
/// first.
pub open spec fn varint_at(buf: Seq<u8>, at: int, room: nat) -> Option<(int, int)>
    decreases room,
{
    if room == 0 || at < 0 || at >= buf.len() {
        None
    } else if buf[at] < 128 {
        Some((buf[at] as int, 1))
    } else {
        match varint_at(buf, at + 1, (room - 1) as nat) {
            Some((high, width)) => Some((buf[at] as int - 128 + 128 * high, width + 1)),
            None => None,
        }
    }
}

/// The run header that starts at `at`: a varint of at most
/// [`MAX_VARINT_BYTES`] bytes whose value fits in 64 bits.
pub open spec fn header_at(buf: Seq<u8>, at: int) -> Option<(int, int)> {
    match varint_at(buf, at, MAX_VARINT_BYTES as nat) {
        Some((value, width)) => if 0 <= value <= u64::MAX && 1 <= width {
            Some((value, width))
        } else {
            None
        },
        None => None,
    }
}

/// Number of bytes that a run with this header stands for.
pub open spec fn run_len(header: int) -> int {
    if header % 2 == 1 {
        header / 4
    } else {
        header / 2
    }
}

/// Number of encoded bytes that follow the header of a run.
pub open spec fn run_payload(header: int) -> int {
    if header % 2 == 1 {
        0
    } else {
        header / 2
    }
}

/// Number of bytes that the runs from offset `at` to the end of `buf` stand
/// for; `None` where a header is cut short or too wide, or a literal run
/// reaches past the end.
pub open spec fn decoded_len_from(buf: Seq<u8>, at: int) -> Option<int>
    decreases buf.len() - at,
{
    if at >= buf.len() {
        Some(0)
    } else {
        match header_at(buf, at) {
            None => None,
            Some((header, width)) => {
                let next = at + width + run_payload(header);
                if next > buf.len() {
                    None
                } else {
                    match decoded_len_from(buf, next) {
                        Some(rest) => Some(run_len(header) + rest),
                        None => None,
                    }
                }
            },
        }
    }
}

/// The bytes that a run stands for: `run_len(header)` bytes of ones or of
/// zeros for an odd header, by its second bit, and for an even header the
/// literal bytes that follow it at `after`.
pub open spec fn run_bytes(buf: Seq<u8>, header: int, after: int) -> Seq<u8> {
    if header % 2 == 1 {
        Seq::new(
            run_len(header) as nat,
            |i: int|
                if header % 4 == 3 {
                    255u8
                } else {
                    0u8
                },
        )
    } else {
        buf.subrange(after, after + run_len(header))
    }
}

/// The bytes that the runs from offset `at` to the end of `buf` stand for, in
/// order. Where the runs are not well formed it stops at the first that is
/// not.
pub open spec fn decoded_from(buf: Seq<u8>, at: int) -> Seq<u8>
    decreases buf.len() - at,
{
    if at >= buf.len() {
        Seq::empty()
    } else {
        match header_at(buf, at) {
            None => Seq::empty(),
            Some((header, width)) => {
                let next = at + width + run_payload(header);
                if next > buf.len() {
                    Seq::empty()
                } else {
                    run_bytes(buf, header, at + width) + decoded_from(buf, next)
                }
            },
        }
    }
}

/// The bitfield that `encoded` stands for: the bytes of its runs, in order.
pub open spec fn rle_decoded(encoded: Seq<u8>) -> Seq<u8> {
    decoded_from(encoded, 0)
}

/// Whether `buf` is a well-formed encoding of a bitfield of at most
/// [`MAX_BITFIELD_BYTES`] bytes.
pub open spec fn decodable(buf: Seq<u8>) -> bool {
    match decoded_len_from(buf, 0) {
        Some(n) => n <= MAX_BITFIELD_BYTES,
        None => false,
    }
}

proof fn lemma_varint_bounds(buf: Seq<u8>, at: int, room: nat)
    ensures
        match varint_at(buf, at, room) {
            Some((value, width)) => 0 <= value && 1 <= width <= room && at + width <= buf.len(),
            None => true,
        },
    decreases room,
{
    if room != 0 && 0 <= at < buf.len() && buf[at] >= 128 {
        lemma_varint_bounds(buf, at + 1, (room - 1) as nat);
    }
}

/// The runs of a well-formed encoding stand for as many bytes as their
/// headers say.
pub proof fn lemma_decoded_len_is_len(buf: Seq<u8>, at: int)
    requires
        0 <= at,
        decoded_len_from(buf, at) is Some,
    ensures
        decoded_from(buf, at).len() == decoded_len_from(buf, at).unwrap(),
    decreases buf.len() - at,
{
    if at < buf.len() {
        let (header, width) = header_at(buf, at).unwrap();
        let next = at + width + run_payload(header);
        lemma_varint_bounds(buf, at, MAX_VARINT_BYTES as nat);
        lemma_decoded_len_is_len(buf, next);
    }
}

/// An encoding without runs is well formed and stands for the empty
/// bitfield: no data is not a failure.
pub proof fn lemma_empty_encoding_is_empty_bitfield()
    ensures
        decodable(Seq::<u8>::empty()),
        rle_decoded(Seq::<u8>::empty()) == Seq::<u8>::empty(),
{
}

proof fn lemma_decoded_len_nonnegative(buf: Seq<u8>, at: int)
    ensures
        match decoded_len_from(buf, at) {
            Some(n) => 0 <= n,
            None => true,
        },
    decreases buf.len() - at,
{
    if at < buf.len() {
        match header_at(buf, at) {
            None => {},
            Some((header, width)) => {
                let next = at + width + run_payload(header);
                if next <= buf.len() {
                    lemma_decoded_len_nonnegative(buf, next);
                }
            },
        }
    }
}

/// Reads the varint at `at`, giving up after `room` bytes.
fn read_varint(buf: &[u8], at: usize, room: usize) -> (r: Option<(u64, usize)>)
    requires
        room <= MAX_VARINT_BYTES,
    ensures
        match varint_at(buf@, at as int, room as nat) {
            Some((value, width)) => if value <= u64::MAX {
                r == Some((value as u64, width as usize))
            } else {
                r is None
            },
            None => r is None,
        },
    decreases room,
{
    proof {
        lemma_varint_bounds(buf@, at as int, room as nat);
    }
    if room == 0 || at >= buf.len() {
        return None;
    }
    let byte: u8 = buf[at];
    if byte < 128 {
        return Some((byte as u64, 1));
    }
    proof {
        lemma_varint_bounds(buf@, at as int + 1, (room - 1) as nat);
    }
    match read_varint(buf, at + 1, room - 1) {
        None => None,
        Some((high, width)) => {
            let low: u64 = (byte - 128) as u64;
            if high > (u64::MAX - low) / 128 {
                None
            } else {
                Some((low + 128 * high, width + 1))
            }
        },
    }
}

/// Walks the runs of `encoded` and adds up the bytes they stand for.
///
/// Returns the length of the decoded bitfield where `encoded` is well formed
/// and that length is within [`MAX_BITFIELD_BYTES`], and `None` otherwise.
pub fn decoded_length(encoded: &[u8]) -> (r: Option<usize>)
    ensures
        match r {
            Some(n) => decodable(encoded@) && decoded_len_from(encoded@, 0) == Some(n as int),
            None => !decodable(encoded@),
        },
{
    let mut at: usize = 0;
    let mut total: usize = 0;
    while at < encoded.len()
        invariant
            at <= encoded.len(),
            total <= MAX_BITFIELD_BYTES,
            decoded_len_from(encoded@, 0) == match decoded_len_from(encoded@, at as int) {
                Some(rest) => Some(total + rest),
                None => None,
            },
        decreases encoded.len() - at,
    {
        proof {
            lemma_varint_bounds(encoded@, at as int, MAX_VARINT_BYTES as nat);
        }
        match read_varint(encoded, at, MAX_VARINT_BYTES) {
            None => {
                return None;
            },
            Some((header, width)) => {
                let repeated: bool = header % 2 == 1;
                let run: u64 = if repeated {
                    header / 4
                } else {
                    header / 2
                };
                let after: usize = at + width;
                let ghost next = after as int + run_payload(header as int);
                proof {
                    if next <= encoded@.len() {
                        lemma_decoded_len_nonnegative(encoded@, next);
                    }
                }
                if run > (MAX_BITFIELD_BYTES - total) as u64 {
                    return None;
                }
                if !repeated && run > (encoded.len() - after) as u64 {
                    return None;
                }
                total = total + run as usize;
                at = if repeated {
                    after
                } else {
                    after + run as usize
                };
            },
        }
    }
    Some(total)
}

/// Calls `bitfield_rle::decode`. On input whose runs are well formed and stand
/// for at most [`MAX_BITFIELD_BYTES`] bytes that function reads within the
/// buffer, overflows nowhere and reports no error; it returns the bytes of the
/// runs in order, as [`rle_decoded`] states them.
#[verifier::external_body]
fn rle_decode(encoded: &[u8]) -> (decoded: Option<Vec<u8>>)
    requires
        decodable(encoded@),
    ensures
        decoded is Some,
        decoded.unwrap()@ == rle_decoded(encoded@),
{
    bitfield_rle::decode(encoded).ok()
}

/// Calls `bitfield_rle::encode`, whose result is named [`rle_encoded`]. The
/// runs it writes are well formed, and decoding them gives the input back.
#[verifier::external_body]
fn rle_encode(bits: &[u8]) -> (encoded: Vec<u8>)
    ensures
        encoded@ == rle_encoded(bits@),
        bits@.len() <= MAX_BITFIELD_BYTES ==> decodable(encoded@) && rle_decoded(encoded@)
            == bits@,
{
    bitfield_rle::encode(bits)
}

/// Decodes a run-length-encoded bitfield.
///
/// Fails exactly on input that is not [`decodable`]: a header cut short or
/// wider than 64 bits, a literal run that reaches past the end, or a decoded
/// size beyond [`MAX_BITFIELD_BYTES`]. An encoding without runs is no
/// failure: it stands for the empty bitfield.
pub fn decode(encoded: &[u8]) -> (r: Result<Vec<u8>, ReplicationError>)
    ensures
        match r {
            Ok(bits) => decodable(encoded@) && bits@ == rle_decoded(encoded@) && bits@.len()
                == decoded_len_from(encoded@, 0).unwrap(),
            Err(e) => !decodable(encoded@) && e == ReplicationError::BitfieldDecodeFailure,
        },
{
    proof {
        if decoded_len_from(encoded@, 0) is Some {
            lemma_decoded_len_is_len(encoded@, 0);
        }
    }
    match decoded_length(encoded) {
        None => Err(ReplicationError::BitfieldDecodeFailure),
        Some(_) => match rle_decode(encoded) {
            Some(bits) => Ok(bits),
            None => Err(ReplicationError::BitfieldDecodeFailure),
        },
    }
}

/// Encodes a bitfield. Decoding the result gives the bitfield back.
pub fn encode(bits: &[u8]) -> (encoded: Vec<u8>)
    ensures
        encoded@ == rle_encoded(bits@),
        bits@.len() <= MAX_BITFIELD_BYTES ==> decodable(encoded@) && rle_decoded(encoded@)
            == bits@,
{
    rle_encode(bits)
}

} // verus!
