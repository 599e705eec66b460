//! Block headers: what a header holds, how one follows another, and how a
//! proposed one is checked.

use crate::commitment;
use crate::commitment::{Commitment, RawCommitmentBuilder};
use crate::l1;
use crate::l1::{later_finalized, L1BlockInfo, L1Snapshot};
use crate::merkle::{BlockMerkleCommitment, FeeMerkleCommitment};
use vstd::prelude::*;
use vstd::utf8::*;

verus! {

/// The commitment to the payload of a block.
pub type VidCommitment = [u8; 32];

/// The height of the tree of all block headers.
pub const BLOCK_MERKLE_TREE_HEIGHT: usize = 32;

/// The height of the tree of all fee balances. A node has 256 children and an
/// address 20 bytes, so this height has room for every account.
pub const FEE_MERKLE_TREE_HEIGHT: usize = 20;

/// The root of the tree of a block's transactions, in canonical form.
#[derive(Debug, PartialEq, Eq, Hash)]
pub struct NMTRoot {
    pub root: Vec<u8>,
}

/// What an NMT root is committed to by.
pub open spec fn nmt_root_transcript(root: Seq<u8>) -> Seq<u8> {
    commitment::str_part("NMTROOT"@) + commitment::var_part("root"@, root)
}

impl View for NMTRoot {
    type V = Seq<u8>;

    open spec fn view(&self) -> Seq<u8> {
        self.root@
    }
}

impl Clone for NMTRoot {
    fn clone(&self) -> (r: Self)
        ensures
            r@ == self@,
            r.root@ == self.root@,
    {
        NMTRoot { root: crate::bytes::copy_bytes(&self.root) }
    }
}

impl NMTRoot {
    /// The commitment to the root.
    pub fn commit(&self) -> (r: Commitment)
        ensures
            r.bytes == commitment::keccak256(nmt_root_transcript(self@)),
            r.bytes == commitment::keccak256(nmt_root_transcript(self.root@)),
    {
        RawCommitmentBuilder::new("NMTROOT").var_size_field(
            "root",
            self.root.as_slice(),
        ).finalize()
    }

    /// The tag of a commitment to a root.
    pub fn tag() -> (r: String)
        ensures
            r@ == "NMTROOT"@,
    {
        "NMTROOT".to_owned()
    }
}

/// The state of the chain after a block: the frontier of the tree of all block
/// headers, and the tree of all fee balances. The trees are the caller's, and
/// are carried along as they are.
#[derive(Clone, Debug, PartialEq, Eq, Hash)]
pub struct ValidatedState<B, F> {
    pub block_merkle_tree: B,
    pub fee_merkle_tree: F,
}

/// A header is like a block with the body replaced by a digest.
#[derive(Clone, Debug, PartialEq, Eq, Hash)]
pub struct Header<B, F> {
    pub height: u64,
    pub timestamp: u64,
    /// The number of the latest L1 block when this block was sequenced. It may
    /// come to name another block after a reorganisation of the L1 chain.
    pub l1_head: u64,
    /// The latest finalized L1 block, where the L1 chain had one.
    pub l1_finalized: Option<L1BlockInfo>,
    pub payload_commitment: VidCommitment,
    pub transactions_root: NMTRoot,
    pub block_merkle_tree_root: BlockMerkleCommitment,
    pub fee_merkle_tree_root: FeeMerkleCommitment,
    pub validated_state: ValidatedState<B, F>,
}

/// The bytes that stand for an optional L1 block in the transcript of a header.
pub open spec fn l1_finalized_commitment(block: Option<L1BlockInfo>) -> Option<Seq<u8>> {
    match block {
        Some(b) => Some(commitment::keccak256(l1::l1_block_transcript(b))@),
        None => None,
    }
}

/// What a header is committed to by: every field but the state.
pub open spec fn header_transcript<B, F>(header: Header<B, F>) -> Seq<u8> {
    commitment::str_part("BLOCK"@) + commitment::u64_part("height"@, header.height)
        + commitment::u64_part("timestamp"@, header.timestamp) + commitment::u64_part(
        "l1_head"@,
        header.l1_head,
    ) + commitment::optional_part("l1_finalized"@, l1_finalized_commitment(header.l1_finalized))
        + commitment::fixed_part("payload_commitment"@, header.payload_commitment@)
        + commitment::fixed_part(
        "transactions_root"@,
        commitment::keccak256(nmt_root_transcript(header.transactions_root@))@,
    ) + commitment::var_part("block_merkle_tree_root"@, header.block_merkle_tree_root@)
        + commitment::var_part("fee_merkle_tree_root"@, header.fee_merkle_tree_root@)
}

/// The larger of two numbers.
pub open spec fn larger(a: u64, b: u64) -> u64 {
    if a < b {
        b
    } else {
        a
    }
}

/// The L1 block that a header finalizes: the one the L1 client saw, or the
/// parent's where that is later.
pub open spec fn next_finalized(
    parent: Option<L1BlockInfo>,
    seen: Option<L1BlockInfo>,
) -> Option<L1BlockInfo> {
    l1::later(seen, parent)
}

/// The timestamp of a header: the latest of the clock's, the parent's and the
/// finalized L1 block's.
pub open spec fn next_timestamp(parent: u64, now: u64, finalized: Option<L1BlockInfo>) -> u64 {
    let own = larger(now, parent);
    match finalized {
        Some(block) => larger(own, block.timestamp@ as u64),
        None => own,
    }
}

/// Whether the timestamp of a finalized block, where there is one, fits in a
/// header's.
pub open spec fn finalized_fits(finalized: Option<L1BlockInfo>) -> bool {
    finalized matches Some(block) ==> block.timestamp@ <= u64::MAX
}

/// The number of seconds of a clock as a timestamp: times before 1970 wrap
/// around.
pub open spec fn clock_timestamp(unix_seconds: i64) -> int {
    if unix_seconds >= 0 {
        unix_seconds as int
    } else {
        unix_seconds + 0x1_0000_0000_0000_0000
    }
}

/// The L1 chain as a header sees it: without an L1 client, one with no blocks.
pub open spec fn snapshot_or_mock(l1: Option<L1Snapshot>) -> L1Snapshot {
    match l1 {
        Some(snapshot) => snapshot,
        None => L1Snapshot { head: 0, finalized: None },
    }
}

/// Whether `child` may stand directly on `parent`: it is one higher, neither its
/// timestamp nor its L1 references go back, and its timestamp is not behind the
/// L1 block that it finalizes.
pub open spec fn advances<B, F>(parent: Header<B, F>, child: Header<B, F>) -> bool {
    &&& child.height == parent.height + 1
    &&& child.timestamp >= parent.timestamp
    &&& child.l1_head >= parent.l1_head
    &&& !l1::behind(child.l1_finalized, parent.l1_finalized)
    &&& child.l1_finalized matches Some(block) ==> child.timestamp >= block.timestamp@
}

/// Whether the roots of a header commit to the trees that it carries, each to its
/// own, where `block_comm` and `fee_comm` give the commitments of trees.
pub open spec fn commits_to_state<B, F>(
    header: Header<B, F>,
    block_comm: spec_fn(B) -> Seq<u8>,
    fee_comm: spec_fn(F) -> Seq<u8>,
) -> bool {
    &&& header.block_merkle_tree_root@ == block_comm(header.validated_state.block_merkle_tree)
    &&& header.fee_merkle_tree_root@ == fee_comm(header.validated_state.fee_merkle_tree)
}

/// The clock's seconds as a timestamp.
pub fn timestamp_of_clock(unix_seconds: i64) -> (r: u64)
    ensures
        r == clock_timestamp(unix_seconds),
        unix_seconds >= 0 ==> r == unix_seconds,
        unix_seconds < 0 ==> r == unix_seconds + 0x1_0000_0000_0000_0000,
{
    if unix_seconds >= 0 {
        unix_seconds as u64
    } else {
        u64::MAX - ((-1 - unix_seconds) as u64)
    }
}

impl<B, F> Header<B, F> {
    /// The commitment to the header.
    pub fn commit(&self) -> (r: Commitment)
        ensures
            r.bytes == commitment::keccak256(header_transcript(*self)),
    {
        let l1_finalized = match &self.l1_finalized {
            Some(block) => Some(block.commit()),
            None => None,
        };
        let builder = RawCommitmentBuilder::new("BLOCK").u64_field("height", self.height).u64_field(
            "timestamp",
            self.timestamp,
        ).u64_field("l1_head", self.l1_head).optional("l1_finalized", l1_finalized).constant_str(
            "payload_commitment",
        ).fixed_size_bytes(self.payload_commitment.as_slice()).field(
            "transactions_root",
            self.transactions_root.commit(),
        ).var_size_field(
            "block_merkle_tree_root",
            self.block_merkle_tree_root.bytes.as_slice(),
        ).var_size_field("fee_merkle_tree_root", self.fee_merkle_tree_root.bytes.as_slice());
        assert(builder@ =~= header_transcript(*self));
        builder.finalize()
    }

    /// The tag of a commitment to a header.
    pub fn tag() -> (r: String)
        ensures
            r@ == "BLOCK"@,
    {
        "BLOCK".to_owned()
    }

    /// The header that follows `parent`, from what the L1 client and the clock
    /// say. Where either is behind the parent, the parent is believed.
    pub fn from_info(
        payload_commitment: VidCommitment,
        transactions_root: NMTRoot,
        parent: &Self,
        l1: L1Snapshot,
        timestamp: u64,
        fee_merkle_tree_root: FeeMerkleCommitment,
        block_merkle_tree_root: BlockMerkleCommitment,
        validated_state: ValidatedState<B, F>,
    ) -> (r: Self)
        requires
            parent.height < u64::MAX,
            finalized_fits(next_finalized(parent.l1_finalized, l1.finalized)),
        ensures
            r.height == parent.height + 1,
            r.l1_head == larger(l1.head, parent.l1_head),
            r.l1_finalized == next_finalized(parent.l1_finalized, l1.finalized),
            r.timestamp == next_timestamp(parent.timestamp, timestamp, r.l1_finalized),
            r.payload_commitment == payload_commitment,
            r.transactions_root == transactions_root,
            r.fee_merkle_tree_root == fee_merkle_tree_root,
            r.block_merkle_tree_root == block_merkle_tree_root,
            r.validated_state == validated_state,
            advances(*parent, r),
            r.timestamp >= timestamp,
            r.timestamp >= parent.timestamp,
            r.l1_finalized matches Some(block) ==> r.timestamp >= block.timestamp@,
            r.timestamp == timestamp || r.timestamp == parent.timestamp || (
            r.l1_finalized matches Some(block) && r.timestamp == block.timestamp@),
            r.l1_head >= l1.head,
            r.l1_head >= parent.l1_head,
            r.l1_head == l1.head || r.l1_head == parent.l1_head,
            parent.l1_finalized is None ==> r.l1_finalized == l1.finalized,
            l1.finalized is None ==> r.l1_finalized == parent.l1_finalized,
            l1.finalized matches Some(s) ==> parent.l1_finalized matches Some(p) ==> r.l1_finalized
                == Some(
                if s.number < p.number {
                    p
                } else {
                    s
                },
            ),
    {
        let height = parent.height + 1;
        let mut own_timestamp: u64 = timestamp;
        if own_timestamp < parent.timestamp {
            own_timestamp = parent.timestamp;
        }
        let mut l1_head: u64 = l1.head;
        if l1_head < parent.l1_head {
            l1_head = parent.l1_head;
        }
        let l1_finalized = later_finalized(l1.finalized, parent.l1_finalized);
        if let Some(block) = &l1_finalized {
            let l1_timestamp: u64 = block.timestamp.as_u64();
            if own_timestamp < l1_timestamp {
                own_timestamp = l1_timestamp;
            }
        }
        Header {
            height,
            timestamp: own_timestamp,
            l1_head,
            l1_finalized,
            payload_commitment,
            transactions_root,
            block_merkle_tree_root,
            fee_merkle_tree_root,
            validated_state,
        }
    }

    /// The header that follows `parent`, once the state has been brought up to
    /// date: `l1` is what the L1 client sees, or `None` without a client, and
    /// `unix_seconds` is the clock.
    pub fn new(
        payload_commitment: VidCommitment,
        transactions_root: NMTRoot,
        parent: &Self,
        l1: Option<L1Snapshot>,
        unix_seconds: i64,
        fee_merkle_tree_root: FeeMerkleCommitment,
        block_merkle_tree_root: BlockMerkleCommitment,
        validated_state: ValidatedState<B, F>,
    ) -> (r: Self)
        requires
            parent.height < u64::MAX,
            finalized_fits(next_finalized(parent.l1_finalized, snapshot_or_mock(l1).finalized)),
        ensures
            r.height == parent.height + 1,
            r.l1_head == larger(snapshot_or_mock(l1).head, parent.l1_head),
            r.l1_finalized == next_finalized(parent.l1_finalized, snapshot_or_mock(l1).finalized),
            r.timestamp == next_timestamp(
                parent.timestamp,
                clock_timestamp(unix_seconds) as u64,
                r.l1_finalized,
            ),
            r.payload_commitment == payload_commitment,
            r.transactions_root == transactions_root,
            r.fee_merkle_tree_root == fee_merkle_tree_root,
            r.block_merkle_tree_root == block_merkle_tree_root,
            r.validated_state == validated_state,
            advances(*parent, r),
            r.timestamp >= unix_seconds,
            unix_seconds < 0 ==> r.timestamp >= unix_seconds + 0x1_0000_0000_0000_0000,
            r.timestamp >= parent.timestamp,
            r.l1_finalized matches Some(block) ==> r.timestamp >= block.timestamp@,
            r.timestamp == unix_seconds || r.timestamp == unix_seconds + 0x1_0000_0000_0000_0000
                || r.timestamp == parent.timestamp || (r.l1_finalized matches Some(block)
                && r.timestamp == block.timestamp@),
            l1 is None ==> r.l1_head == parent.l1_head,
            l1 is None ==> r.l1_finalized == parent.l1_finalized,
            l1 matches Some(snapshot) ==> {
                &&& r.l1_head >= snapshot.head
                &&& r.l1_head >= parent.l1_head
                &&& r.l1_head == snapshot.head || r.l1_head == parent.l1_head
                &&& parent.l1_finalized is None ==> r.l1_finalized == snapshot.finalized
                &&& snapshot.finalized is None ==> r.l1_finalized == parent.l1_finalized
                &&& snapshot.finalized matches Some(s)
                    ==> parent.l1_finalized matches Some(p) ==> r.l1_finalized == Some(
                    if s.number < p.number {
                        p
                    } else {
                        s
                    },
                )
            },
    {
        let snapshot = match l1 {
            Some(snapshot) => snapshot,
            None => L1Snapshot { head: 0, finalized: None },
        };
        Header::from_info(
            payload_commitment,
            transactions_root,
            parent,
            snapshot,
            timestamp_of_clock(unix_seconds),
            fee_merkle_tree_root,
            block_merkle_tree_root,
            validated_state,
        )
    }

    /// Whether a header may follow `parent` with what the L1 client sees: whether
    /// there is a next height, and the timestamp of the finalized L1 block fits.
    pub fn can_follow(parent: &Self, l1: Option<L1Snapshot>) -> (r: bool)
        ensures
            r == (parent.height < u64::MAX && finalized_fits(
                next_finalized(parent.l1_finalized, snapshot_or_mock(l1).finalized),
            )),
    {
        let seen = match l1 {
            Some(snapshot) => snapshot.finalized,
            None => None,
        };
        let fits = match later_finalized(seen, parent.l1_finalized) {
            Some(block) => block.timestamp.fits_u64(),
            None => true,
        };
        parent.height < u64::MAX && fits
    }

    /// The first header. It is the same whatever the clock and the L1 chain say.
    pub fn genesis(
        payload_commitment: VidCommitment,
        transactions_root: NMTRoot,
        block_merkle_tree_root: BlockMerkleCommitment,
        fee_merkle_tree_root: FeeMerkleCommitment,
        validated_state: ValidatedState<B, F>,
    ) -> (r: Self)
        ensures
            r.height == 0,
            r.timestamp == 0,
            r.l1_head == 0,
            r.l1_finalized is None,
            r.payload_commitment == payload_commitment,
            r.transactions_root == transactions_root,
            r.block_merkle_tree_root == block_merkle_tree_root,
            r.fee_merkle_tree_root == fee_merkle_tree_root,
            r.validated_state == validated_state,
    {
        Header {
            height: 0,
            timestamp: 0,
            l1_head: 0,
            l1_finalized: None,
            payload_commitment,
            transactions_root,
            block_merkle_tree_root,
            fee_merkle_tree_root,
            validated_state,
        }
    }

    /// The height of the block.
    pub fn block_number(&self) -> (r: u64)
        ensures
            r == self.height,
    {
        self.height
    }

    /// The commitment to the payload of the block.
    pub fn payload_commitment(&self) -> (r: VidCommitment)
        ensures
            r == self.payload_commitment,
    {
        self.payload_commitment
    }

    /// The root of the block's transactions.
    pub fn metadata(&self) -> (r: &NMTRoot)
        ensures
            *r == self.transactions_root,
    {
        &self.transactions_root
    }
}

/// The timestamp of a header is at least the clock's, the parent's and the finalized L1
/// block's, and it is one of the three. So a clock that is behind neither of the others
/// is kept, and a later clock never makes an earlier timestamp.
pub proof fn timestamp_is_latest_of_three(
    parent: u64,
    now: u64,
    later_now: u64,
    finalized: Option<L1BlockInfo>,
)
    requires
        finalized matches Some(block) ==> block.timestamp@ <= u64::MAX,
        now <= later_now,
    ensures
        ({
            let t = next_timestamp(parent, now, finalized);
            &&& t >= now
            &&& t >= parent
            &&& finalized matches Some(block) ==> t >= block.timestamp@
            &&& t == now || t == parent || (finalized matches Some(block) && t
                == block.timestamp@)
            &&& now >= parent && (finalized matches Some(block) ==> now >= block.timestamp@)
                ==> t == now
            &&& t <= next_timestamp(parent, later_now, finalized)
        }),
{
}

/// The larger of two numbers is one of them, and neither is above it.
pub proof fn larger_is_above_both(a: u64, b: u64)
    ensures
        larger(a, b) >= a,
        larger(a, b) >= b,
        larger(a, b) == a || larger(a, b) == b,
{
}

/// The finalized L1 block of a header is the one that the client sees, however far
/// ahead, unless that is behind the parent's; then it is the parent's.
pub proof fn finalized_block_is_seen_or_kept(
    parent: Option<L1BlockInfo>,
    seen: Option<L1BlockInfo>,
)
    ensures
        parent is None ==> next_finalized(parent, seen) == seen,
        seen is None ==> next_finalized(parent, seen) == parent,
        seen matches Some(s) ==> parent matches Some(p) ==> s.number >= p.number
            ==> next_finalized(parent, seen) == seen,
        seen matches Some(s) ==> parent matches Some(p) ==> s.number < p.number
            ==> next_finalized(parent, seen) == parent,
        !l1::behind(next_finalized(parent, seen), seen),
        !l1::behind(next_finalized(parent, seen), parent),
{
}

/// A clock's seconds and the timestamp differ by a multiple of `2^64`, and by nothing
/// from 1970 on.
pub proof fn clock_is_kept_modulo_range(unix_seconds: i64)
    ensures
        0 <= clock_timestamp(unix_seconds) < 0x1_0000_0000_0000_0000,
        (clock_timestamp(unix_seconds) - unix_seconds) % 0x1_0000_0000_0000_0000 == 0,
        unix_seconds >= 0 ==> clock_timestamp(unix_seconds) == unix_seconds,
{
}

/// What a client sees is what a header sees; without one, it sees no L1 block, and the
/// head at zero. A finalized block fits exactly where its timestamp is below `2^64`.
pub proof fn snapshot_is_seen_as_it_is(l1: Option<L1Snapshot>, block: L1BlockInfo)
    ensures
        l1 matches Some(snapshot) ==> snapshot_or_mock(l1) == snapshot,
        l1 is None ==> snapshot_or_mock(l1).head == 0 && snapshot_or_mock(l1).finalized is None,
        finalized_fits(None),
        finalized_fits(Some(block)) <==> block.timestamp@ < 0x1_0000_0000_0000_0000int,
{
}

/// A header that advances on a parent is one higher and goes back in nothing, and every
/// header of that kind advances.
pub proof fn advancing_goes_back_in_nothing<B, F>(parent: Header<B, F>, child: Header<B, F>)
    ensures
        advances(parent, child) <==> {
            &&& child.height - parent.height == 1
            &&& child.timestamp >= parent.timestamp
            &&& child.l1_head >= parent.l1_head
            &&& parent.l1_finalized matches Some(p) ==> child.l1_finalized matches Some(c)
                && c.number >= p.number
            &&& child.l1_finalized matches Some(c) ==> child.timestamp >= c.timestamp@
        },
{
}

/// Whether each header of `chain` stands on the one before it.
pub open spec fn is_chain<B, F>(chain: Seq<Header<B, F>>) -> bool {
    forall|i: int, j: int|
        0 <= i && j == i + 1 && j < chain.len() ==> #[trigger] advances(chain[i], chain[j])
}

/// Along a chain, heights count up one by one, and neither timestamps nor
/// references to the L1 chain ever go back. Once a header finalizes an L1 block,
/// so does every later one.
pub proof fn chain_never_goes_back<B, F>(chain: Seq<Header<B, F>>, i: int, j: int)
    requires
        is_chain(chain),
        0 <= i <= j < chain.len(),
    ensures
        chain[j].height == chain[i].height + (j - i),
        chain[j].timestamp >= chain[i].timestamp,
        chain[j].l1_head >= chain[i].l1_head,
        !l1::behind(chain[j].l1_finalized, chain[i].l1_finalized),
        chain[i].l1_finalized is Some ==> chain[j].l1_finalized is Some,
    decreases j - i,
{
    if i < j {
        chain_never_goes_back(chain, i, j - 1);
        assert(advances(chain[j - 1], chain[j]));
    }
}

/// The commitment to a header does not depend on the state that it carries.
pub proof fn commitment_ignores_state<B, F>(a: Header<B, F>, b: Header<B, F>)
    requires
        b == (Header { validated_state: b.validated_state, ..a }),
    ensures
        header_transcript(a) == header_transcript(b),
{
}

/// The transcript of an NMT root byte by byte: the tag and the name of the root as they
/// are in UTF-8, each closed by the same two bytes, the length in eight bytes, and then
/// byte `i` of the root at place `i`, for roots of every length.
pub proof fn nmt_root_transcript_bytes(root: Seq<u8>)
    ensures
        ({
            let t = nmt_root_transcript(root);
            &&& t.len() == 23 + root.len()
            &&& t.subrange(0, 9) == encode_utf8("NMTROOT"@) + seq![0xC0u8, 0x7Fu8]
            &&& t.subrange(9, 15) == encode_utf8("root"@) + seq![0xC0u8, 0x7Fu8]
            &&& t.subrange(15, 23) == crate::bytes::le_bytes(root.len(), 8)
            &&& forall|i: int| 0 <= i < root.len() ==> #[trigger] t[23 + i] == root[i]
        }),
{
    commitment::lemma_ascii_names();
    crate::bytes::lemma_le_bytes_len(root.len(), 8);
    let t = nmt_root_transcript(root);
    assert(t.subrange(0, 9) =~= encode_utf8("NMTROOT"@) + seq![0xC0u8, 0x7Fu8]);
    assert(t.subrange(9, 15) =~= encode_utf8("root"@) + seq![0xC0u8, 0x7Fu8]);
    assert(t.subrange(15, 23) =~= crate::bytes::le_bytes(root.len(), 8));
}

/// The transcript of a header byte by byte: the tag and all names as they are in UTF-8,
/// each closed by the same two bytes, and after its name each field in its own bytes: a
/// number in eight, a commitment in 32, a tree root after its length. The L1 block, and
/// the root of the transactions, stand by their commitments; eight zero bytes stand for
/// no L1 block.
pub proof fn header_transcript_bytes<B, F>(h: Header<B, F>)
    ensures
        ({
            let t = header_transcript(h);
            let end = seq![0xC0u8, 0x7Fu8];
            let o: int = if h.l1_finalized is Some {
                105
            } else {
                81
            };
            let b = h.block_merkle_tree_root.bytes@;
            let f = h.fee_merkle_tree_root.bytes@;
            let n = b.len() as int;
            &&& t.len() == o + 165 + n + f.len()
            &&& t.subrange(0, 7) == encode_utf8("BLOCK"@) + end
            &&& t.subrange(7, 15) == encode_utf8("height"@) + end
            &&& t.subrange(15, 23) == crate::bytes::le_bytes(h.height as nat, 8)
            &&& t.subrange(23, 34) == encode_utf8("timestamp"@) + end
            &&& t.subrange(34, 42) == crate::bytes::le_bytes(h.timestamp as nat, 8)
            &&& t.subrange(42, 51) == encode_utf8("l1_head"@) + end
            &&& t.subrange(51, 59) == crate::bytes::le_bytes(h.l1_head as nat, 8)
            &&& t.subrange(59, 73) == encode_utf8("l1_finalized"@) + end
            &&& h.l1_finalized matches Some(block) ==> t.subrange(73, 105)
                == commitment::keccak256(l1::l1_block_transcript(block))@
            &&& h.l1_finalized is None ==> t.subrange(73, 81) == Seq::new(8, |i: int| 0u8)
            &&& t.subrange(o, o + 20) == encode_utf8("payload_commitment"@) + end
            &&& t.subrange(o + 20, o + 52) == h.payload_commitment@
            &&& t.subrange(o + 52, o + 71) == encode_utf8("transactions_root"@) + end
            &&& t.subrange(o + 71, o + 103) == commitment::keccak256(
                nmt_root_transcript(h.transactions_root.root@),
            )@
            &&& t.subrange(o + 103, o + 127) == encode_utf8("block_merkle_tree_root"@) + end
            &&& t.subrange(o + 127, o + 135) == crate::bytes::le_bytes(b.len(), 8)
            &&& t.subrange(o + 135, o + 135 + n) == b
            &&& t.subrange(o + 135 + n, o + 157 + n) == encode_utf8(
                "fee_merkle_tree_root"@,
            ) + end
            &&& t.subrange(o + 157 + n, o + 165 + n) == crate::bytes::le_bytes(
                f.len(),
                8,
            )
            &&& t.skip(o + 165 + n) == f
        }),
{
    let t = header_transcript(h);
    let n = h.block_merkle_tree_root.bytes@.len() as int;
    let u = finalized_part(h);
    let v = body_part(h);
    let (p, o): (int, int) = if h.l1_finalized is Some {
        (46, 105)
    } else {
        (22, 81)
    };
    lemma_front_bytes(h);
    lemma_finalized_bytes(h);
    lemma_body_bytes(h);
    lemma_part_of_rest(t, 59, 0, 14);
    lemma_part_of_rest(t, 59, 14, p);
    assert(t.skip(o) =~= u.skip(p));
    lemma_part_of_rest(t, o, 0, 20);
    lemma_part_of_rest(t, o, 20, 52);
    lemma_part_of_rest(t, o, 52, 71);
    lemma_part_of_rest(t, o, 71, 103);
    lemma_part_of_rest(t, o, 103, 127);
    lemma_part_of_rest(t, o, 127, 135);
    lemma_part_of_rest(t, o, 135, 135 + n);
    lemma_part_of_rest(t, o, 135 + n, 157 + n);
    lemma_part_of_rest(t, o, 157 + n, 165 + n);
    assert(t.skip(o + (165 + n)) =~= v.skip(165 + n));
}

proof fn lemma_part_of_rest(t: Seq<u8>, o: int, a: int, b: int)
    requires
        0 <= o,
        0 <= a <= b,
        o + b <= t.len(),
    ensures
        t.subrange(o + a, o + b) == t.skip(o).subrange(a, b),
{
    assert(t.subrange(o + a, o + b) =~= t.skip(o).subrange(a, b));
}

proof fn lemma_front_bytes<B, F>(h: Header<B, F>)
    ensures
        ({
            let t = header_transcript(h);
            let end = seq![0xC0u8, 0x7Fu8];
            &&& t.len() == 59 + finalized_part(h).len()
            &&& t.subrange(0, 7) == encode_utf8("BLOCK"@) + end
            &&& t.subrange(7, 15) == encode_utf8("height"@) + end
            &&& t.subrange(15, 23) == crate::bytes::le_bytes(h.height as nat, 8)
            &&& t.subrange(23, 34) == encode_utf8("timestamp"@) + end
            &&& t.subrange(34, 42) == crate::bytes::le_bytes(h.timestamp as nat, 8)
            &&& t.subrange(42, 51) == encode_utf8("l1_head"@) + end
            &&& t.subrange(51, 59) == crate::bytes::le_bytes(h.l1_head as nat, 8)
            &&& t.skip(59) == finalized_part(h)
        }),
{
    commitment::lemma_ascii_names();
    lemma_transcript_parts(h);
    crate::bytes::lemma_le_bytes_len(h.height as nat, 8);
    crate::bytes::lemma_le_bytes_len(h.timestamp as nat, 8);
    crate::bytes::lemma_le_bytes_len(h.l1_head as nat, 8);
    let t = header_transcript(h);
    let end = seq![0xC0u8, 0x7Fu8];
    assert(t.subrange(0, 7) =~= encode_utf8("BLOCK"@) + end);
    assert(t.subrange(7, 15) =~= encode_utf8("height"@) + end);
    assert(t.subrange(15, 23) =~= crate::bytes::le_bytes(h.height as nat, 8));
    assert(t.subrange(23, 34) =~= encode_utf8("timestamp"@) + end);
    assert(t.subrange(34, 42) =~= crate::bytes::le_bytes(h.timestamp as nat, 8));
    assert(t.subrange(42, 51) =~= encode_utf8("l1_head"@) + end);
    assert(t.subrange(51, 59) =~= crate::bytes::le_bytes(h.l1_head as nat, 8));
    assert(t.skip(59) =~= finalized_part(h));
}

proof fn lemma_finalized_bytes<B, F>(h: Header<B, F>)
    ensures
        ({
            let u = finalized_part(h);
            let p: int = if h.l1_finalized is Some {
                46
            } else {
                22
            };
            &&& u.len() == p + body_part(h).len()
            &&& u.subrange(0, 14) == encode_utf8("l1_finalized"@) + seq![0xC0u8, 0x7Fu8]
            &&& h.l1_finalized matches Some(block) ==> u.subrange(14, 46)
                == commitment::keccak256(l1::l1_block_transcript(block))@
            &&& h.l1_finalized is None ==> u.subrange(14, 22) == Seq::new(8, |i: int| 0u8)
            &&& u.skip(p) == body_part(h)
        }),
{
    commitment::lemma_ascii_names();
    crate::bytes::lemma_le_bytes_len(0, 8);
    let u = finalized_part(h);
    assert(u.subrange(0, 14) =~= encode_utf8("l1_finalized"@) + seq![0xC0u8, 0x7Fu8]);
    match h.l1_finalized {
        Some(block) => {
            assert(u.subrange(14, 46) =~= commitment::keccak256(l1::l1_block_transcript(block))@);
            assert(u.skip(46) =~= body_part(h));
        },
        None => {
            commitment::parts_are_name_and_value("l1_finalized"@, Seq::empty(), 0);
            assert(u.subrange(14, 22) =~= commitment::optional_part("l1_finalized"@, None).skip(
                14,
            ));
            assert(u.skip(22) =~= body_part(h));
        },
    }
}

proof fn lemma_body_bytes<B, F>(h: Header<B, F>)
    ensures
        ({
            let v = body_part(h);
            let end = seq![0xC0u8, 0x7Fu8];
            let b = h.block_merkle_tree_root.bytes@;
            let f = h.fee_merkle_tree_root.bytes@;
            let n = b.len() as int;
            &&& v.len() == 165 + n + f.len()
            &&& v.subrange(0, 20) == encode_utf8("payload_commitment"@) + end
            &&& v.subrange(20, 52) == h.payload_commitment@
            &&& v.subrange(52, 71) == encode_utf8("transactions_root"@) + end
            &&& v.subrange(71, 103) == commitment::keccak256(
                nmt_root_transcript(h.transactions_root.root@),
            )@
            &&& v.subrange(103, 127) == encode_utf8("block_merkle_tree_root"@) + end
            &&& v.subrange(127, 135) == crate::bytes::le_bytes(b.len(), 8)
            &&& v.subrange(135, 135 + n) == b
            &&& v.subrange(135 + n, 157 + n) == encode_utf8("fee_merkle_tree_root"@) + end
            &&& v.subrange(157 + n, 165 + n) == crate::bytes::le_bytes(f.len(), 8)
            &&& v.skip(165 + n) == f
        }),
{
    commitment::lemma_ascii_names();
    let v = body_part(h);
    let end = seq![0xC0u8, 0x7Fu8];
    let b = h.block_merkle_tree_root.bytes@;
    let f = h.fee_merkle_tree_root.bytes@;
    let n = b.len() as int;
    crate::bytes::lemma_le_bytes_len(b.len(), 8);
    crate::bytes::lemma_le_bytes_len(f.len(), 8);
    let root = commitment::keccak256(nmt_root_transcript(h.transactions_root.root@))@;
    assert(v.subrange(0, 20) =~= encode_utf8("payload_commitment"@) + end);
    assert(v.subrange(20, 52) =~= h.payload_commitment@);
    assert(v.subrange(52, 71) =~= encode_utf8("transactions_root"@) + end);
    assert(v.subrange(71, 103) =~= root);
    assert(v.subrange(103, 127) =~= encode_utf8("block_merkle_tree_root"@) + end);
    assert(v.subrange(127, 135) =~= crate::bytes::le_bytes(b.len(), 8));
    assert(v.subrange(135, 135 + n) =~= b);
    assert(v.subrange(135 + n, 157 + n) =~= encode_utf8("fee_merkle_tree_root"@) + end);
    assert(v.subrange(157 + n, 165 + n) =~= crate::bytes::le_bytes(f.len(), 8));
    assert(v.skip(165 + n) =~= f);
}

/// The transcript of an NMT root binds the root. A root is at most as long as a
/// 64-bit length can say.
pub proof fn nmt_root_transcript_binds(a: Seq<u8>, b: Seq<u8>)
    requires
        a.len() <= u64::MAX,
        b.len() <= u64::MAX,
        nmt_root_transcript(a) == nmt_root_transcript(b),
    ensures
        a == b,
{
    let tag = commitment::str_part("NMTROOT"@);
    let (xa, xb) = (commitment::var_part("root"@, a), commitment::var_part("root"@, b));
    commitment::lemma_same_parts(tag, xa, tag, xb);
    assert(xa + Seq::<u8>::empty() =~= xa && xb + Seq::<u8>::empty() =~= xb);
    commitment::lemma_var_part_binds("root"@, a, Seq::empty(), b, Seq::empty());
}

/// The part of a header's transcript that follows the L1 references.
spec fn body_part<B, F>(header: Header<B, F>) -> Seq<u8> {
    commitment::fixed_part("payload_commitment"@, header.payload_commitment@)
        + (commitment::fixed_part(
        "transactions_root"@,
        commitment::keccak256(nmt_root_transcript(header.transactions_root@))@,
    ) + (commitment::var_part("block_merkle_tree_root"@, header.block_merkle_tree_root@)
        + commitment::var_part("fee_merkle_tree_root"@, header.fee_merkle_tree_root@)))
}

/// The part of a header's transcript that starts with the finalized L1 block.
spec fn finalized_part<B, F>(header: Header<B, F>) -> Seq<u8> {
    commitment::optional_part("l1_finalized"@, l1_finalized_commitment(header.l1_finalized))
        + body_part(header)
}

proof fn lemma_transcript_parts<B, F>(header: Header<B, F>)
    ensures
        header_transcript(header) == commitment::str_part("BLOCK"@) + (commitment::u64_part(
            "height"@,
            header.height,
        ) + (commitment::u64_part("timestamp"@, header.timestamp) + (commitment::u64_part(
            "l1_head"@,
            header.l1_head,
        ) + finalized_part(header)))),
{
    assert(header_transcript(header) =~= commitment::str_part("BLOCK"@) + (commitment::u64_part(
        "height"@,
        header.height,
    ) + (commitment::u64_part("timestamp"@, header.timestamp) + (commitment::u64_part(
        "l1_head"@,
        header.l1_head,
    ) + finalized_part(header)))));
}

proof fn lemma_body_binds<B, F>(a: Header<B, F>, b: Header<B, F>)
    requires
        body_part(a) == body_part(b),
    ensures
        a.payload_commitment == b.payload_commitment,
        commitment::keccak256(nmt_root_transcript(a.transactions_root@)) == commitment::keccak256(
            nmt_root_transcript(b.transactions_root@),
        ),
        a.block_merkle_tree_root@ == b.block_merkle_tree_root@,
        a.fee_merkle_tree_root@ == b.fee_merkle_tree_root@,
{
    let (ra, rb) = (
        commitment::keccak256(nmt_root_transcript(a.transactions_root@)),
        commitment::keccak256(nmt_root_transcript(b.transactions_root@)),
    );
    let (fa, fb) = (
        commitment::var_part("fee_merkle_tree_root"@, a.fee_merkle_tree_root@),
        commitment::var_part("fee_merkle_tree_root"@, b.fee_merkle_tree_root@),
    );
    let (ba, bb) = (
        commitment::var_part("block_merkle_tree_root"@, a.block_merkle_tree_root@) + fa,
        commitment::var_part("block_merkle_tree_root"@, b.block_merkle_tree_root@) + fb,
    );
    let (ta, tb) = (
        commitment::fixed_part("transactions_root"@, ra@) + ba,
        commitment::fixed_part("transactions_root"@, rb@) + bb,
    );
    commitment::lemma_fixed_part_binds(
        "payload_commitment"@,
        a.payload_commitment@,
        ta,
        b.payload_commitment@,
        tb,
    );
    commitment::lemma_fixed_part_binds("transactions_root"@, ra@, ba, rb@, bb);
    assert(a.block_merkle_tree_root.bytes.len() <= u64::MAX);
    assert(b.block_merkle_tree_root.bytes.len() <= u64::MAX);
    assert(a.fee_merkle_tree_root.bytes.len() <= u64::MAX);
    assert(b.fee_merkle_tree_root.bytes.len() <= u64::MAX);
    commitment::lemma_var_part_binds(
        "block_merkle_tree_root"@,
        a.block_merkle_tree_root@,
        fa,
        b.block_merkle_tree_root@,
        fb,
    );
    assert(fa + Seq::<u8>::empty() =~= fa && fb + Seq::<u8>::empty() =~= fb);
    commitment::lemma_var_part_binds(
        "fee_merkle_tree_root"@,
        a.fee_merkle_tree_root@,
        Seq::empty(),
        b.fee_merkle_tree_root@,
        Seq::empty(),
    );
    assert(a.payload_commitment =~= b.payload_commitment);
    assert(ra =~= rb);
}

/// Whether the commitment to an L1 block starts with eight zero bytes, as the
/// transcript of a header without an L1 block goes on.
pub open spec fn reads_as_no_block(block: L1BlockInfo) -> bool {
    commitment::keccak256(l1::l1_block_transcript(block))@.take(8) == crate::bytes::le_bytes(0, 8)
}

/// The transcript of a header binds every field but the state; the L1 block and
/// the transactions root it binds by their commitments. Two headers with the same
/// transcript can differ only where one of them has no L1 block, the commitment to
/// the other's reads as if there were none, and their tree roots differ in length.
/// So whether there is an L1 block always shows where the roots are as long.
pub proof fn header_transcript_binds<B, F>(a: Header<B, F>, b: Header<B, F>)
    requires
        header_transcript(a) == header_transcript(b),
    ensures
        a.height == b.height,
        a.timestamp == b.timestamp,
        a.l1_head == b.l1_head,
        (a.l1_finalized is Some) == (b.l1_finalized is Some) ==> {
            &&& l1_finalized_commitment(a.l1_finalized) == l1_finalized_commitment(b.l1_finalized)
            &&& a.payload_commitment == b.payload_commitment
            &&& commitment::keccak256(nmt_root_transcript(a.transactions_root@))
                == commitment::keccak256(nmt_root_transcript(b.transactions_root@))
            &&& a.block_merkle_tree_root@ == b.block_merkle_tree_root@
            &&& a.fee_merkle_tree_root@ == b.fee_merkle_tree_root@
        },
        a.l1_finalized matches Some(block) ==> b.l1_finalized is None ==> reads_as_no_block(block),
        b.l1_finalized matches Some(block) ==> a.l1_finalized is None ==> reads_as_no_block(block),
        a.block_merkle_tree_root@.len() + a.fee_merkle_tree_root@.len()
            == b.block_merkle_tree_root@.len() + b.fee_merkle_tree_root@.len() ==> (
        a.l1_finalized is Some) == (b.l1_finalized is Some),
{
    lemma_transcript_len(a);
    lemma_transcript_len(b);
    lemma_transcript_parts(a);
    lemma_transcript_parts(b);
    let (xa, xb) = (
        commitment::u64_part("l1_head"@, a.l1_head) + finalized_part(a),
        commitment::u64_part("l1_head"@, b.l1_head) + finalized_part(b),
    );
    let (ya, yb) = (
        commitment::u64_part("timestamp"@, a.timestamp) + xa,
        commitment::u64_part("timestamp"@, b.timestamp) + xb,
    );
    let tag = commitment::str_part("BLOCK"@);
    commitment::lemma_same_parts(
        tag,
        commitment::u64_part("height"@, a.height) + ya,
        tag,
        commitment::u64_part("height"@, b.height) + yb,
    );
    commitment::lemma_u64_part_binds("height"@, a.height, ya, b.height, yb);
    commitment::lemma_u64_part_binds("timestamp"@, a.timestamp, xa, b.timestamp, xb);
    commitment::lemma_u64_part_binds(
        "l1_head"@,
        a.l1_head,
        finalized_part(a),
        b.l1_head,
        finalized_part(b),
    );
    match (a.l1_finalized, b.l1_finalized) {
        (Some(p), Some(q)) => {
            commitment::lemma_fixed_part_binds(
                "l1_finalized"@,
                commitment::keccak256(l1::l1_block_transcript(p))@,
                body_part(a),
                commitment::keccak256(l1::l1_block_transcript(q))@,
                body_part(b),
            );
            lemma_body_binds(a, b);
        },
        (None, None) => {
            commitment::lemma_u64_part_binds("l1_finalized"@, 0, body_part(a), 0, body_part(b));
            lemma_body_binds(a, b);
        },
        (Some(p), None) => lemma_mixed_finalized(p, body_part(a), body_part(b)),
        (None, Some(q)) => lemma_mixed_finalized(q, body_part(b), body_part(a)),
    }
}

/// The length of the transcript of a header that has no L1 block and no roots.
spec fn bare_transcript_len() -> nat {
    commitment::str_part("BLOCK"@).len() + commitment::str_part("height"@).len()
        + commitment::str_part("timestamp"@).len() + commitment::str_part("l1_head"@).len()
        + commitment::str_part("l1_finalized"@).len() + commitment::str_part(
        "payload_commitment"@,
    ).len() + commitment::str_part("transactions_root"@).len() + commitment::str_part(
        "block_merkle_tree_root"@,
    ).len() + commitment::str_part("fee_merkle_tree_root"@).len() + 112
}

/// An L1 block makes the transcript of a header 24 bytes longer.
proof fn lemma_transcript_len<B, F>(header: Header<B, F>)
    ensures
        header_transcript(header).len() == bare_transcript_len()
            + header.block_merkle_tree_root@.len() + header.fee_merkle_tree_root@.len() + (
        if header.l1_finalized is Some {
            24nat
        } else {
            0nat
        }),
{
    crate::bytes::lemma_le_bytes_len(header.height as nat, 8);
    crate::bytes::lemma_le_bytes_len(header.timestamp as nat, 8);
    crate::bytes::lemma_le_bytes_len(header.l1_head as nat, 8);
    crate::bytes::lemma_le_bytes_len(0, 8);
    crate::bytes::lemma_le_bytes_len(header.block_merkle_tree_root@.len(), 8);
    crate::bytes::lemma_le_bytes_len(header.fee_merkle_tree_root@.len(), 8);
}

proof fn lemma_mixed_finalized(block: L1BlockInfo, x: Seq<u8>, y: Seq<u8>)
    requires
        commitment::fixed_part(
            "l1_finalized"@,
            commitment::keccak256(l1::l1_block_transcript(block))@,
        ) + x == commitment::u64_part("l1_finalized"@, 0) + y,
    ensures
        reads_as_no_block(block),
{
    let name = commitment::str_part("l1_finalized"@);
    let hash = commitment::keccak256(l1::l1_block_transcript(block))@;
    let zeros = crate::bytes::le_bytes(0, 8);
    crate::bytes::lemma_le_bytes_len(0, 8);
    assert((name + hash) + x =~= name + (hash + x));
    assert((name + zeros) + y =~= name + (zeros + y));
    commitment::lemma_same_parts(name, hash + x, name, zeros + y);
    assert(hash.take(8) =~= (hash + x).take(8));
    assert(zeros =~= (zeros + y).take(8));
}

} // verus!
