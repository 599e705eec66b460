//! What the Merkle trees of the chain state hand to the rest of the library.
//!
//! The trees themselves are kept by the caller. Their commitments are held here
//! in canonical form, and a lookup in one of them as its outcome.

use crate::bytes;
use vstd::prelude::*;

verus! {

/// The commitment of a Merkle tree, as its canonical compressed serialization.
#[derive(Debug, PartialEq, Eq, Hash)]
pub struct MerkleCommitment {
    pub bytes: Vec<u8>,
}

/// The commitment of the tree of all block headers.
pub type BlockMerkleCommitment = MerkleCommitment;

/// The commitment of the tree of all fee balances.
pub type FeeMerkleCommitment = MerkleCommitment;

impl View for MerkleCommitment {
    type V = Seq<u8>;

    open spec fn view(&self) -> Seq<u8> {
        self.bytes@
    }
}

impl Clone for MerkleCommitment {
    fn clone(&self) -> (r: Self)
        ensures
            r@ == self@,
            r.bytes@ == self.bytes@,
    {
        MerkleCommitment { bytes: bytes::copy_bytes(&self.bytes) }
    }
}

impl MerkleCommitment {
    /// Whether two trees have the same commitment.
    pub fn same(&self, other: &MerkleCommitment) -> (r: bool)
        ensures
            r == (self@ == other@),
            r <==> self.bytes@ == other.bytes@,
    {
        bytes::bytes_equal(self.bytes.as_slice(), other.bytes.as_slice())
    }
}

/// The outcome of looking up an index in a Merkle tree.
#[derive(Debug, PartialEq, Eq)]
pub enum LookupResult<V, P, N> {
    /// The value at the index, and a proof of it.
    Found(V, P),
    /// The index is not in use; a proof of that.
    NotFound(N),
    /// The tree does not remember this part of itself.
    NotInMemory,
}

} // verus!
