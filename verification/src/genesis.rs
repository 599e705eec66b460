//! The first block of a chain.

use crate::bytes;
use crate::commitment::Commitment;
use crate::header;
use crate::header::{
    Header, NMTRoot, ValidatedState, VidCommitment, BLOCK_MERKLE_TREE_HEIGHT,
    FEE_MERKLE_TREE_HEIGHT,
};
use crate::merkle::{BlockMerkleCommitment, FeeMerkleCommitment};
use crate::payload;
use crate::payload::{Entry, Payload};
use vstd::prelude::*;

verus! {

/// Over how many storage nodes the payload of the first block is committed to.
pub const GENESIS_STORAGE_NODES: usize = 1;

/// Whether a block tree and a root are an empty tree of height 32 and its
/// commitment, and a fee tree and a root an empty tree of height 20 and its.
pub open spec fn starts_empty<B, F, EB, CB, EF, CF>(
    empty_block_tree: EB,
    block_commitment: CB,
    empty_fee_tree: EF,
    fee_commitment: CF,
    header: Header<B, F>,
) -> bool where
    EB: Fn(usize) -> B,
    CB: Fn(&B) -> BlockMerkleCommitment,
    EF: Fn(usize) -> F,
    CF: Fn(&F) -> FeeMerkleCommitment,
 {
    let state = header.validated_state;
    &&& call_ensures(empty_block_tree, (32usize,), state.block_merkle_tree)
    &&& call_ensures(
        block_commitment,
        (&state.block_merkle_tree,),
        header.block_merkle_tree_root,
    )
    &&& call_ensures(empty_fee_tree, (20usize,), state.fee_merkle_tree)
    &&& call_ensures(fee_commitment, (&state.fee_merkle_tree,), header.fee_merkle_tree_root)
}

/// The first header, its payload, and the root of its transactions. The trees and the
/// commitments to payloads are the caller's: `nmt_root` gives the root of the
/// transaction tree of a payload, `vid_commitment` the commitment to an encoded
/// payload over a number of storage nodes, `empty_block_tree` and `empty_fee_tree`
/// an empty tree of a height, and `block_commitment` and `fee_commitment` the
/// commitment of a tree.
pub fn first_block<B, F, R, V, EB, CB, EF, CF>(
    nmt_root: R,
    vid_commitment: V,
    empty_block_tree: EB,
    block_commitment: CB,
    empty_fee_tree: EF,
    fee_commitment: CF,
) -> (r: (Header<B, F>, Payload, NMTRoot)) where
    R: Fn(&Payload) -> NMTRoot,
    V: Fn(&Vec<u8>, usize) -> VidCommitment,
    EB: Fn(usize) -> B,
    CB: Fn(&B) -> BlockMerkleCommitment,
    EF: Fn(usize) -> F,
    CF: Fn(&F) -> FeeMerkleCommitment,

    requires
        forall|p: &Payload| #[trigger] call_requires(nmt_root, (p,)),
        forall|encoded: &Vec<u8>, nodes: usize| #[trigger]
            call_requires(vid_commitment, (encoded, nodes)),
        call_requires(empty_block_tree, (32usize,)),
        forall|tree: &B| #[trigger] call_requires(block_commitment, (tree,)),
        call_requires(empty_fee_tree, (20usize,)),
        forall|tree: &F| #[trigger] call_requires(fee_commitment, (tree,)),
    ensures
        r.0.height == 0,
        r.0.timestamp == 0,
        r.0.l1_head == 0,
        r.0.l1_finalized is None,
        r.1@ == Seq::<Entry>::empty(),
        r.1.transactions@.len() == 0,
        call_ensures(nmt_root, (&r.1,), r.0.transactions_root),
        r.2@ == r.0.transactions_root@,
        exists|encoded: Vec<u8>|
            {
                &&& encoded@ == payload::encoding(r.1@)
                &&& encoded@ == Seq::new(8, |i: int| 0u8)
                &&& #[trigger] call_ensures(
                    vid_commitment,
                    (&encoded, 1usize),
                    r.0.payload_commitment,
                )
            },
        starts_empty(
            empty_block_tree,
            block_commitment,
            empty_fee_tree,
            fee_commitment,
            r.0,
        ),
        call_ensures(empty_block_tree, (32usize,), r.0.validated_state.block_merkle_tree),
        call_ensures(
            block_commitment,
            (&r.0.validated_state.block_merkle_tree,),
            r.0.block_merkle_tree_root,
        ),
        call_ensures(empty_fee_tree, (20usize,), r.0.validated_state.fee_merkle_tree),
        call_ensures(
            fee_commitment,
            (&r.0.validated_state.fee_merkle_tree,),
            r.0.fee_merkle_tree_root,
        ),
{
    let payload = Payload::genesis();
    let transactions_root = nmt_root(&payload);
    let encoded = match payload.encode() {
        Ok(encoded) => encoded,
        Err(_) => vstd::pervasive::unreached(),
    };
    proof {
        lemma_empty_encoding();
    }
    let payload_commitment = vid_commitment(&encoded, GENESIS_STORAGE_NODES);
    let block_merkle_tree = empty_block_tree(BLOCK_MERKLE_TREE_HEIGHT);
    let block_merkle_tree_root = block_commitment(&block_merkle_tree);
    let fee_merkle_tree = empty_fee_tree(FEE_MERKLE_TREE_HEIGHT);
    let fee_merkle_tree_root = fee_commitment(&fee_merkle_tree);
    let metadata = transactions_root.clone();
    let header = Header::genesis(
        payload_commitment,
        transactions_root,
        block_merkle_tree_root,
        fee_merkle_tree_root,
        ValidatedState { block_merkle_tree, fee_merkle_tree },
    );
    (header, payload, metadata)
}

/// The empty payload is encoded as eight zero bytes: the number of its transactions.
proof fn lemma_empty_encoding()
    ensures
        payload::encoding(Seq::<Entry>::empty()) == Seq::new(8, |i: int| 0u8),
{
    reveal_with_fuel(bytes::le_bytes, 9);
    assert(payload::encoding(Seq::<Entry>::empty()) =~= Seq::new(8, |i: int| 0u8));
}

/// The roots of the first header commit to the trees that it carries, each to its own,
/// and its height is the number of leaves of its block tree, which has none. So the
/// laws on the headers that are built on a parent hold from the first one on.
pub proof fn first_header_commits_to_empty_state<B, F, EB, CB, EF, CF>(
    empty_block_tree: EB,
    block_commitment: CB,
    empty_fee_tree: EF,
    fee_commitment: CF,
    header: Header<B, F>,
    block_empty: spec_fn(nat) -> B,
    block_comm: spec_fn(B) -> Seq<u8>,
    fee_empty: spec_fn(nat) -> F,
    fee_comm: spec_fn(F) -> Seq<u8>,
    leaves: spec_fn(B) -> Seq<Commitment>,
) where
    EB: Fn(usize) -> B,
    CB: Fn(&B) -> BlockMerkleCommitment,
    EF: Fn(usize) -> F,
    CF: Fn(&F) -> FeeMerkleCommitment,

    requires
        header.height == 0,
        starts_empty(
            empty_block_tree,
            block_commitment,
            empty_fee_tree,
            fee_commitment,
            header,
        ),
        forall|h: usize, tree: B| #[trigger]
            call_ensures(empty_block_tree, (h,), tree) ==> tree == block_empty(h as nat),
        forall|tree: &B, root: BlockMerkleCommitment| #[trigger]
            call_ensures(block_commitment, (tree,), root) ==> root@ == block_comm(*tree),
        forall|h: usize, tree: F| #[trigger]
            call_ensures(empty_fee_tree, (h,), tree) ==> tree == fee_empty(h as nat),
        forall|tree: &F, root: FeeMerkleCommitment| #[trigger]
            call_ensures(fee_commitment, (tree,), root) ==> root@ == fee_comm(*tree),
        leaves(block_empty(32)) == Seq::<Commitment>::empty(),
    ensures
        header.validated_state.block_merkle_tree == block_empty(32),
        header.validated_state.fee_merkle_tree == fee_empty(20),
        header.block_merkle_tree_root@ == block_comm(block_empty(32)),
        header.fee_merkle_tree_root@ == fee_comm(fee_empty(20)),
        header::commits_to_state(header, block_comm, fee_comm),
        header.height == leaves(header.validated_state.block_merkle_tree).len(),
{
}

} // verus!
