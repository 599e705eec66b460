//! Checking a proposed header against its parent.

use crate::builder;
use crate::builder::HeaderEvent;
use crate::commitment;
use crate::commitment::Commitment;
use crate::fee::FeeReceipt;
use crate::header;
use crate::header::{Header, NMTRoot, ValidatedState, VidCommitment};
use crate::merkle::{BlockMerkleCommitment, MerkleCommitment};
use crate::text;
use crate::text::push_decimal;
use vstd::prelude::*;
use vstd::string::*;

verus! {

/// Why a proposed header is refused.
#[derive(Debug, PartialEq, Eq)]
pub enum ProposalError {
    /// The proposal is not one higher than its parent.
    InvalidHeight { parent: u64, proposal: u64 },
    /// The proposal does not commit to the block tree with its parent added.
    InvalidRoot { expected: MerkleCommitment, proposed: MerkleCommitment },
}

/// Whether the proposal is one higher than its parent.
pub open spec fn height_follows<B, F>(parent: Header<B, F>, proposal: Header<B, F>) -> bool {
    proposal.height == parent.height + 1
}

/// Whether a proposal is accepted, where the parent's block tree with the parent
/// pushed onto it has the commitment `root`.
pub open spec fn acceptable<B, F>(
    parent: Header<B, F>,
    proposal: Header<B, F>,
    root: Seq<u8>,
) -> bool {
    height_follows(parent, proposal) && proposal.block_merkle_tree_root@ == root
}

/// The first half of the check, which needs no tree. Where the heights agree it
/// gives the commitment to the parent: the one to push onto a copy of the
/// parent's block tree before the second half.
pub fn check_height<B, F>(parent: &Header<B, F>, proposal: &Header<B, F>) -> (r: Result<
    Commitment,
    ProposalError,
>)
    requires
        parent.height < u64::MAX,
    ensures
        match r {
            Ok(commitment) => {
                &&& height_follows(*parent, *proposal)
                &&& commitment.bytes == commitment::keccak256(header::header_transcript(*parent))
            },
            Err(e) => {
                &&& !height_follows(*parent, *proposal)
                &&& e == (ProposalError::InvalidHeight {
                    parent: parent.height,
                    proposal: proposal.height,
                })
            },
        },
        r is Ok <==> proposal.height == parent.height + 1,
{
    if proposal.height != parent.height + 1 {
        return Err(
            ProposalError::InvalidHeight { parent: parent.height, proposal: proposal.height },
        );
    }
    Ok(parent.commit())
}

/// Checks a proposal against its parent. `block_merkle_tree` is the parent's
/// block tree with the commitment to the parent pushed onto it, and
/// `block_merkle_tree_root` its commitment. Gives the tree back where the
/// proposal is one higher than the parent and commits to that tree.
pub fn validate_proposal<B, F>(
    parent: &Header<B, F>,
    proposal: &Header<B, F>,
    block_merkle_tree: B,
    block_merkle_tree_root: &BlockMerkleCommitment,
) -> (r: Result<B, ProposalError>)
    requires
        parent.height < u64::MAX,
    ensures
        r is Ok <==> acceptable(*parent, *proposal, block_merkle_tree_root@),
        r is Ok <==> proposal.height == parent.height + 1
            && proposal.block_merkle_tree_root.bytes@ == block_merkle_tree_root.bytes@,
        (r matches Err(e) && e is InvalidHeight) <==> proposal.height != parent.height + 1,
        match r {
            Ok(tree) => tree == block_merkle_tree,
            Err(ProposalError::InvalidHeight { parent: p, proposal: q }) => {
                &&& !height_follows(*parent, *proposal)
                &&& p == parent.height
                &&& q == proposal.height
            },
            Err(ProposalError::InvalidRoot { expected, proposed }) => {
                &&& height_follows(*parent, *proposal)
                &&& proposal.block_merkle_tree_root@ != block_merkle_tree_root@
                &&& expected@ == block_merkle_tree_root@
                &&& proposed@ == proposal.block_merkle_tree_root@
            },
        },
{
    if proposal.height != parent.height + 1 {
        return Err(
            ProposalError::InvalidHeight { parent: parent.height, proposal: proposal.height },
        );
    }
    if !proposal.block_merkle_tree_root.same(block_merkle_tree_root) {
        return Err(
            ProposalError::InvalidRoot {
                expected: block_merkle_tree_root.clone(),
                proposed: proposal.block_merkle_tree_root.clone(),
            },
        );
    }
    Ok(block_merkle_tree)
}

/// Proposals that are accepted on one parent are all one higher than it, and all commit
/// to the same block tree. Every proposal of that height and root is accepted.
pub proof fn accepted_proposals_are_next<B, F>(
    parent: Header<B, F>,
    a: Header<B, F>,
    b: Header<B, F>,
    root: Seq<u8>,
)
    requires
        acceptable(parent, a, root),
    ensures
        a.height - parent.height == 1,
        height_follows(parent, b) <==> b.height == a.height,
        acceptable(parent, b, root) <==> b.height == a.height
            && b.block_merkle_tree_root.bytes@ == a.block_merkle_tree_root.bytes@,
        a.block_merkle_tree_root.bytes@ == root,
{
}

/// A proposal is accepted exactly where it is one higher than its parent and its root is
/// the one that the block tree has with the parent added.
pub proof fn acceptance_is_height_and_root<B, F>(
    parent: Header<B, F>,
    proposal: Header<B, F>,
    root: Seq<u8>,
)
    ensures
        acceptable(parent, proposal, root) <==> proposal.height - parent.height == 1
            && proposal.block_merkle_tree_root.bytes@ == root,
{
}

/// What is said of a proposal of the wrong height.
pub fn height_error_message(parent: u64, proposal: u64) -> (r: String)
    ensures
        r@ == "Invalid Height Error: "@ + text::decimal(parent as nat) + ", "@ + text::decimal(
            proposal as nat,
        ),
{
    let mut message = "Invalid Height Error: ".to_owned();
    push_decimal(&mut message, parent);
    message.append(", ");
    push_decimal(&mut message, proposal);
    message
}

/// What is said of a proposal with the wrong root, from the texts of both roots.
pub fn root_error_message(expected: &str, proposed: &str) -> (r: String)
    ensures
        r@ == "Invalid Root Error: "@ + expected@ + ", "@ + proposed@,
{
    let mut message = "Invalid Root Error: ".to_owned();
    message.append(expected);
    message.append(", ");
    message.append(proposed);
    message
}

impl ProposalError {
    /// What is said of the error. `expected` and `proposed` are the texts of the roots of
    /// an error about roots, and are not looked at otherwise.
    pub fn message(&self, expected: &str, proposed: &str) -> (r: String)
        ensures
            match self {
                ProposalError::InvalidHeight { parent, proposal } => r@
                    == "Invalid Height Error: "@ + text::decimal(*parent as nat) + ", "@
                    + text::decimal(*proposal as nat),
                ProposalError::InvalidRoot { .. } => r@ == "Invalid Root Error: "@ + expected@
                    + ", "@ + proposed@,
            },
    {
        match self {
            ProposalError::InvalidHeight { parent, proposal } => height_error_message(
                *parent,
                *proposal,
            ),
            ProposalError::InvalidRoot { .. } => root_error_message(expected, proposed),
        }
    }
}

/// A header that was built on a parent is accepted as a proposal on that parent.
pub proof fn built_header_is_acceptable<B, F>(
    parent: Header<B, F>,
    receipts: Seq<FeeReceipt>,
    log: Seq<HeaderEvent>,
    payload_commitment: VidCommitment,
    transactions_root: NMTRoot,
    validated_state: ValidatedState<B, F>,
    built: Header<B, F>,
)
    requires
        builder::built(
            parent,
            receipts,
            log,
            payload_commitment,
            transactions_root,
            validated_state,
            built,
        ),
    ensures
        acceptable(parent, built, builder::block_root_read(log)@),
{
}

} // verus!
