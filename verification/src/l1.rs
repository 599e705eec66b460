//! What a block refers to of the L1 chain.

use crate::bytes;
use crate::commitment;
use crate::commitment::{Commitment, RawCommitmentBuilder};
use crate::u256;
use crate::u256::U256;
use std::cmp::Ordering;
use vstd::prelude::*;
use vstd::utf8::*;

verus! {

/// A finalized L1 block.
#[derive(Clone, Copy, Debug, PartialEq, Eq, Hash)]
pub struct L1BlockInfo {
    pub number: u64,
    pub timestamp: U256,
    pub hash: [u8; 32],
}

/// The state of the L1 chain as a client sees it.
#[derive(Clone, Copy, Debug, PartialEq, Eq, Hash)]
pub struct L1Snapshot {
    /// The number of the latest block.
    pub head: u64,
    /// The latest finalized block, where there is one yet.
    pub finalized: Option<L1BlockInfo>,
}

impl Default for L1BlockInfo {
    fn default() -> (r: Self)
        ensures
            r.number == 0,
            r.timestamp@ == 0,
            r.hash@ == Seq::new(32, |i: int| 0u8),
    {
        let hash: [u8; 32] = [0u8; 32];
        assert(hash@ =~= Seq::new(32, |i: int| 0u8));
        L1BlockInfo { number: 0, timestamp: U256::default(), hash }
    }
}

/// Blocks are ordered by their place in the L1 chain.
impl PartialOrd for L1BlockInfo {
    fn partial_cmp(&self, other: &Self) -> (r: Option<Ordering>) {
        if self.number < other.number {
            Some(Ordering::Less)
        } else if self.number > other.number {
            Some(Ordering::Greater)
        } else {
            Some(Ordering::Equal)
        }
    }
}

impl vstd::std_specs::cmp::PartialOrdSpecImpl for L1BlockInfo {
    open spec fn obeys_partial_cmp_spec() -> bool {
        true
    }

    open spec fn partial_cmp_spec(&self, other: &Self) -> Option<Ordering> {
        if self.number < other.number {
            Some(Ordering::Less)
        } else if self.number > other.number {
            Some(Ordering::Greater)
        } else {
            Some(Ordering::Equal)
        }
    }
}

/// Whether `a` is an earlier reference to the finalized L1 chain than `b`. No
/// block at all is earlier than any block.
pub open spec fn behind(a: Option<L1BlockInfo>, b: Option<L1BlockInfo>) -> bool {
    match (a, b) {
        (_, None) => false,
        (None, Some(_)) => true,
        (Some(x), Some(y)) => x.number < y.number,
    }
}

/// What an L1 block is committed to by.
pub open spec fn l1_block_transcript(block: L1BlockInfo) -> Seq<u8> {
    commitment::str_part("L1BLOCK"@) + commitment::u64_part("number"@, block.number)
        + commitment::fixed_part("timestamp"@, bytes::le_bytes(block.timestamp@, 32))
        + commitment::fixed_part("hash"@, block.hash@)
}

impl L1BlockInfo {
    /// The commitment to the block.
    pub fn commit(&self) -> (r: Commitment)
        ensures
            r.bytes == commitment::keccak256(l1_block_transcript(*self)),
    {
        let timestamp = self.timestamp.to_le_bytes();
        let builder = RawCommitmentBuilder::new("L1BLOCK").u64_field(
            "number",
            self.number,
        ).constant_str("timestamp").fixed_size_bytes(timestamp.as_slice()).constant_str(
            "hash",
        ).fixed_size_bytes(self.hash.as_slice());
        assert(builder@ =~= l1_block_transcript(*self));
        builder.finalize()
    }
}

/// The later of two references to the finalized L1 chain, the first where
/// neither is behind.
pub open spec fn later(a: Option<L1BlockInfo>, b: Option<L1BlockInfo>) -> Option<L1BlockInfo> {
    if behind(a, b) {
        b
    } else {
        a
    }
}

/// Computes `later`.
pub fn later_finalized(a: Option<L1BlockInfo>, b: Option<L1BlockInfo>) -> (r: Option<L1BlockInfo>)
    ensures
        r == later(a, b),
        r == a || r == b,
        b is None ==> r == a,
        a is None ==> r == b,
        a matches Some(x) ==> b matches Some(y) ==> x.number >= y.number ==> r == a,
        a matches Some(x) ==> b matches Some(y) ==> x.number < y.number ==> r == b,
{
    if a < b {
        b
    } else {
        a
    }
}

/// Of two references to the finalized L1 chain, one is behind the other exactly where
/// the other names a block and it names none, or one of a lower number.
pub proof fn references_are_ordered_by_number(a: Option<L1BlockInfo>, b: Option<L1BlockInfo>)
    ensures
        b is None ==> !behind(a, b),
        a is None && b is Some ==> behind(a, b),
        a matches Some(x) ==> b matches Some(y) ==> (behind(a, b) <==> x.number < y.number),
        behind(a, b) ==> !behind(b, a),
{
}

/// The later of two references is one of them and behind neither. It is the first
/// unless that is behind: however far ahead the first is, it is taken.
pub proof fn later_is_behind_neither(a: Option<L1BlockInfo>, b: Option<L1BlockInfo>)
    ensures
        later(a, b) == a || later(a, b) == b,
        !behind(later(a, b), a),
        !behind(later(a, b), b),
        b is None ==> later(a, b) == a,
        a is None ==> later(a, b) == b,
        a matches Some(x) ==> b matches Some(y) ==> x.number >= y.number ==> later(a, b) == a,
        a matches Some(x) ==> b matches Some(y) ==> x.number < y.number ==> later(a, b) == b,
{
}

/// Blocks compare as their numbers do, whatever else they hold.
pub proof fn blocks_compare_by_number(a: L1BlockInfo, b: L1BlockInfo)
    ensures
        vstd::std_specs::cmp::PartialOrdSpec::partial_cmp_spec(&a, &b) == Some(Ordering::Less) <==> a.number < b.number,
        vstd::std_specs::cmp::PartialOrdSpec::partial_cmp_spec(&a, &b) == Some(Ordering::Equal) <==> a.number == b.number,
        vstd::std_specs::cmp::PartialOrdSpec::partial_cmp_spec(&a, &b) == Some(Ordering::Greater) <==> a.number > b.number,
{
}

/// The transcript of an L1 block byte by byte: tag and names as they are in UTF-8, each
/// closed by the same two bytes, and after its name the number in eight bytes, the
/// timestamp in 32, and the hash in its own order.
pub proof fn l1_block_transcript_bytes(block: L1BlockInfo)
    ensures
        ({
            let t = l1_block_transcript(block);
            &&& t.len() == 106
            &&& t.subrange(0, 9) == encode_utf8("L1BLOCK"@) + seq![0xC0u8, 0x7Fu8]
            &&& t.subrange(9, 17) == encode_utf8("number"@) + seq![0xC0u8, 0x7Fu8]
            &&& t.subrange(17, 25) == bytes::le_bytes(block.number as nat, 8)
            &&& t.subrange(25, 36) == encode_utf8("timestamp"@) + seq![0xC0u8, 0x7Fu8]
            &&& t.subrange(36, 68) == bytes::le_bytes(block.timestamp@, 32)
            &&& t.subrange(68, 74) == encode_utf8("hash"@) + seq![0xC0u8, 0x7Fu8]
            &&& forall|i: int| 0 <= i < 32 ==> #[trigger] t[74 + i] == block.hash[i]
        }),
{
    commitment::lemma_ascii_names();
    bytes::lemma_le_bytes_len(block.number as nat, 8);
    bytes::lemma_le_bytes_len(block.timestamp@, 32);
    let t = l1_block_transcript(block);
    assert(t.subrange(0, 9) =~= encode_utf8("L1BLOCK"@) + seq![0xC0u8, 0x7Fu8]);
    assert(t.subrange(9, 17) =~= encode_utf8("number"@) + seq![0xC0u8, 0x7Fu8]);
    assert(t.subrange(17, 25) =~= bytes::le_bytes(block.number as nat, 8));
    assert(t.subrange(25, 36) =~= encode_utf8("timestamp"@) + seq![0xC0u8, 0x7Fu8]);
    assert(t.subrange(36, 68) =~= bytes::le_bytes(block.timestamp@, 32));
    assert(t.subrange(68, 74) =~= encode_utf8("hash"@) + seq![0xC0u8, 0x7Fu8]);
}

/// The transcript of an L1 block binds every field of it.
pub proof fn l1_block_transcript_binds(a: L1BlockInfo, b: L1BlockInfo)
    requires
        l1_block_transcript(a) == l1_block_transcript(b),
    ensures
        a == b,
{
    let (ta, tb) = (bytes::le_bytes(a.timestamp@, 32), bytes::le_bytes(b.timestamp@, 32));
    let (ha, hb) = (
        commitment::fixed_part("hash"@, a.hash@),
        commitment::fixed_part("hash"@, b.hash@),
    );
    let (xa, xb) = (
        commitment::fixed_part("timestamp"@, ta) + ha,
        commitment::fixed_part("timestamp"@, tb) + hb,
    );
    bytes::lemma_le_bytes_len(a.timestamp@, 32);
    bytes::lemma_le_bytes_len(b.timestamp@, 32);
    bytes::lemma_byte_range_values();
    u256::lemma_u256_bound(a.timestamp);
    u256::lemma_u256_bound(b.timestamp);
    assert(l1_block_transcript(a) =~= commitment::str_part("L1BLOCK"@) + (commitment::u64_part(
        "number"@,
        a.number,
    ) + xa));
    assert(l1_block_transcript(b) =~= commitment::str_part("L1BLOCK"@) + (commitment::u64_part(
        "number"@,
        b.number,
    ) + xb));
    commitment::lemma_same_parts(
        commitment::str_part("L1BLOCK"@),
        commitment::u64_part("number"@, a.number) + xa,
        commitment::str_part("L1BLOCK"@),
        commitment::u64_part("number"@, b.number) + xb,
    );
    commitment::lemma_u64_part_binds("number"@, a.number, xa, b.number, xb);
    commitment::lemma_fixed_part_binds("timestamp"@, ta, ha, tb, hb);
    commitment::lemma_same_parts(
        commitment::str_part("hash"@),
        a.hash@,
        commitment::str_part("hash"@),
        b.hash@,
    );
    bytes::lemma_le_bytes_injective(a.timestamp@, b.timestamp@, 32);
    u256::lemma_u256_value_determines(a.timestamp, b.timestamp);
    assert(a.hash =~= b.hash);
}

} // verus!
