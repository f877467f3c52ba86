//! What a session has learned of the peer's blocks.
//!
//! A peer announces availability as bitfields: bit `k` of a bitfield that
//! starts at block `start` stands for block `start + k`, the most significant
//! bit of each byte first. The session keeps the union of what was announced.

use vstd::prelude::*;

verus! {

/// The value of bit `k` of a byte, counted from the most significant.
pub open spec fn bit_weight(k: int) -> int {
    if k == 0 {
        128
    } else if k == 1 {
        64
    } else if k == 2 {
        32
    } else if k == 3 {
        16
    } else if k == 4 {
        8
    } else if k == 5 {
        4
    } else if k == 6 {
        2
    } else {
        1
    }
}

/// Whether bit `k` of `byte` is set, counted from the most significant.
pub open spec fn bit_set(byte: u8, k: int) -> bool {
    0 <= k < 8 && (byte as int / bit_weight(k)) % 2 == 1
}

/// Whether a bitfield that starts at block `start` announces block `index`.
pub open spec fn run_has(start: u64, bits: Seq<u8>, index: u64) -> bool {
    start <= index && (index - start) / 8 < bits.len() && bit_set(
        bits[(index - start) / 8],
        (index - start) % 8,
    )
}

/// The blocks that a bitfield starting at block `start` announces.
pub open spec fn run_set(start: u64, bits: Seq<u8>) -> Set<u64> {
    Set::new(|index: u64| run_has(start, bits, index))
}

/// Whether `top` is the largest member of `blocks`.
pub open spec fn is_highest(blocks: Set<u64>, top: u64) -> bool {
    blocks.contains(top) && forall|index: u64| blocks.contains(index) ==> index <= top
}

/// The largest member of `blocks`, if it has one.
pub open spec fn highest_of(blocks: Set<u64>) -> Option<u64> {
    if exists|top: u64| is_highest(blocks, top) {
        Some(choose|top: u64| is_highest(blocks, top))
    } else {
        None
    }
}

/// A set has at most one largest member.
pub proof fn lemma_highest_unique(blocks: Set<u64>, top: u64)
    requires
        is_highest(blocks, top),
    ensures
        highest_of(blocks) == Some(top),
{
    let chosen = choose|t: u64| is_highest(blocks, t);
    assert(is_highest(blocks, chosen));
    assert(chosen <= top && top <= chosen);
}

/// A set of blocks that is not empty and lies below a bound has a largest
/// member.
pub proof fn lemma_bounded_set_has_highest(blocks: Set<u64>, member: u64, bound: int)
    requires
        blocks.contains(member),
        forall|index: u64| blocks.contains(index) ==> index < bound,
    ensures
        highest_of(blocks) is Some,
        is_highest(blocks, highest_of(blocks).unwrap()),
    decreases bound,
{
    if bound - 1 > u64::MAX {
        lemma_bounded_set_has_highest(blocks, member, bound - 1);
    } else {
        let last = (bound - 1) as u64;
        if blocks.contains(last) {
            assert(is_highest(blocks, last));
            lemma_highest_unique(blocks, last);
        } else {
            assert forall|index: u64| blocks.contains(index) implies index < bound - 1 by {
                if index == bound - 1 {
                    assert(index == last);
                }
            }
            lemma_bounded_set_has_highest(blocks, member, bound - 1);
        }
    }
}

/// The blocks that a bitfield announces either are none or have a highest.
pub proof fn lemma_run_is_empty_or_has_highest(start: u64, bits: Seq<u8>)
    ensures
        match highest_of(run_set(start, bits)) {
            Some(top) => is_highest(run_set(start, bits), top),
            None => forall|index: u64| !run_has(start, bits, index),
        },
{
    let blocks = run_set(start, bits);
    if exists|index: u64| run_has(start, bits, index) {
        let member = choose|index: u64| run_has(start, bits, index);
        lemma_bounded_set_has_highest(blocks, member, start + 8 * bits.len());
    } else {
        assert(forall|top: u64| !is_highest(blocks, top));
    }
}

fn weight(k: u8) -> (w: u8)
    requires
        k < 8,
    ensures
        w == bit_weight(k as int),
{
    if k == 0 {
        128
    } else if k == 1 {
        64
    } else if k == 2 {
        32
    } else if k == 3 {
        16
    } else if k == 4 {
        8
    } else if k == 5 {
        4
    } else if k == 6 {
        2
    } else {
        1
    }
}

/// Reads bit `k` of `byte`, counted from the most significant.
pub fn test_bit(byte: u8, k: u8) -> (set: bool)
    ensures
        set == bit_set(byte, k as int),
{
    k < 8 && (byte / weight(k)) % 2 == 1
}

/// Decides whether a bitfield that starts at block `start` announces block
/// `index`.
pub fn run_holds(start: u64, bits: &[u8], index: u64) -> (held: bool)
    ensures
        held == run_has(start, bits@, index),
{
    if index < start {
        return false;
    }
    let offset: u64 = index - start;
    let byte: u64 = offset / 8;
    if byte >= bits.len() as u64 {
        return false;
    }
    test_bit(bits[byte as usize], (offset % 8) as u8)
}

/// Finds the highest block that a bitfield starting at block `start`
/// announces. Bits that would stand for blocks beyond the last index are not
/// counted.
pub fn highest_set(start: u64, bits: &[u8]) -> (top: Option<u64>)
    ensures
        top == highest_of(run_set(start, bits@)),
{
    let room: u64 = u64::MAX - start;
    let mut best: Option<u64> = None;
    let mut byte: usize = 0;
    while byte < bits.len()
        invariant
            byte <= bits.len(),
            room == u64::MAX - start,
            match best {
                Some(b) => run_has(start, bits@, b) && b - start < 8 * byte,
                None => true,
            },
            forall|index: u64|
                run_has(start, bits@, index) && index - start < 8 * byte ==> best is Some
                    && index <= best.unwrap(),
        decreases bits.len() - byte,
    {
        let value: u8 = bits[byte];
        let mut k: u8 = 0;
        while k < 8
            invariant
                k <= 8,
                byte < bits.len(),
                value == bits@[byte as int],
                room == u64::MAX - start,
                match best {
                    Some(b) => run_has(start, bits@, b) && b - start < 8 * byte + k,
                    None => true,
                },
                forall|index: u64|
                    run_has(start, bits@, index) && index - start < 8 * byte + k ==> best is Some
                        && index <= best.unwrap(),
            decreases 8 - k,
        {
            let offset: u128 = 8 * (byte as u128) + k as u128;
            if offset <= room as u128 && test_bit(value, k) {
                let index: u64 = start + offset as u64;
                assert((index - start) / 8 == byte as int && (index - start) % 8 == k as int);
                best = Some(index);
            }
            k = k + 1;
        }
        byte = byte + 1;
    }
    proof {
        let blocks = run_set(start, bits@);
        match best {
            Some(b) => {
                assert(is_highest(blocks, b));
                lemma_highest_unique(blocks, b);
            },
            None => {
                assert(forall|t: u64| !is_highest(blocks, t));
            },
        }
    }
    best
}

/// One announced bitfield: its first block and its bytes.
#[derive(Clone, Debug)]
struct Run {
    start: u64,
    bits: Vec<u8>,
}

/// The union of the bitfields that a peer has announced.
#[derive(Clone, Debug)]
pub struct RemoteBitfield {
    runs: Vec<Run>,
}

impl View for RemoteBitfield {
    type V = Set<u64>;

    /// The blocks that the peer is known to have.
    closed spec fn view(&self) -> Set<u64> {
        Set::new(
            |index: u64|
                exists|r: int|
                    0 <= r < self.runs@.len() && run_has(
                        (#[trigger] self.runs@[r]).start,
                        self.runs@[r].bits@,
                        index,
                    ),
        )
    }
}

impl RemoteBitfield {
    /// Knows of no block.
    pub fn new() -> (remote: Self)
        ensures
            remote@ == Set::<u64>::empty(),
    {
        let remote = RemoteBitfield { runs: Vec::new() };
        assert(remote@ =~= Set::<u64>::empty());
        remote
    }

    /// Adds the blocks that a bitfield starting at block `start` announces.
    /// What was known before stays known.
    pub fn merge(&mut self, start: u64, bits: Vec<u8>)
        ensures
            final(self)@ == old(self)@.union(run_set(start, bits@)),
    {
        let ghost before = self.runs@;
        self.runs.push(Run { start, bits });
        proof {
            let after = self.runs@;
            assert forall|index: u64|
                final(self)@.contains(index) == (old(self)@.contains(index) || run_has(
                    start,
                    bits@,
                    index,
                )) by {
                if old(self)@.contains(index) {
                    let r = choose|r: int|
                        0 <= r < before.len() && run_has(
                            (#[trigger] before[r]).start,
                            before[r].bits@,
                            index,
                        );
                    assert(after[r] == before[r]);
                }
                if run_has(start, bits@, index) {
                    assert(after[before.len() as int].start == start);
                }
            }
            assert(final(self)@ =~= old(self)@.union(run_set(start, bits@)));
        }
    }

    /// Whether the peer is known to have block `index`.
    pub fn has(&self, index: u64) -> (known: bool)
        ensures
            known == self@.contains(index),
    {
        let mut r: usize = 0;
        while r < self.runs.len()
            invariant
                r <= self.runs@.len(),
                forall|q: int|
                    0 <= q < r ==> !run_has(
                        (#[trigger] self.runs@[q]).start,
                        self.runs@[q].bits@,
                        index,
                    ),
            decreases self.runs.len() - r,
        {
            if run_holds(self.runs[r].start, self.runs[r].bits.as_slice(), index) {
                return true;
            }
            r = r + 1;
        }
        false
    }
}

} // verus!
