//! The serialized form of a transaction tree: the list of its leaves.

use crate::bytes;
use crate::payload;
use crate::payload::{Payload, PayloadError};
use crate::transaction::{Transaction, VmId};
use vstd::prelude::*;

verus! {

/// The leaves of the transaction tree of a payload, from left to right.
pub fn serialize(payload: &Payload) -> (r: Vec<(u64, Vec<u8>)>)
    ensures
        payload::entries_view(r@) == payload@,
        r@.len() == payload.transactions@.len(),
        forall|i: int|
            0 <= i < r@.len() ==> (#[trigger] r@[i]).0 == payload.transactions@[i].vm.0 && r@[i].1@
                == payload.transactions@[i].payload@,
{
    let mut leaves: Vec<(u64, Vec<u8>)> = Vec::new();
    let mut i: usize = 0;
    while i < payload.transactions.len()
        invariant
            i <= payload.transactions.len(),
            leaves@.len() == i,
            forall|j: int|
                0 <= j < i ==> (#[trigger] leaves@[j]).0 == payload.transactions@[j].vm.0
                    && leaves@[j].1@ == payload.transactions@[j].payload@,
            forall|j: int|
                0 <= j < i ==> ((#[trigger] leaves@[j]).0, leaves@[j].1@) == payload@[j],
        decreases payload.transactions.len() - i,
    {
        let t = &payload.transactions[i];
        leaves.push((t.vm.0, bytes::copy_bytes(&t.payload)));
        i = i + 1;
    }
    assert(payload::entries_view(leaves@) =~= payload@);
    leaves
}

/// The payload of serialized leaves, once a transaction tree of them has been
/// built, or has failed to be.
pub fn deserialize<E>(leaves: &Vec<(u64, Vec<u8>)>, tree: Result<(), E>) -> (r: Result<
    Payload,
    PayloadError,
>)
    ensures
        match r {
            Ok(decoded) => tree is Ok && decoded@ == payload::entries_view(leaves@),
            Err(e) => tree is Err && e == PayloadError::Tree,
        },
        r is Ok <==> tree is Ok,
        r matches Ok(decoded) ==> decoded.transactions@.len() == leaves@.len() && forall|i: int|
            0 <= i < leaves@.len() ==> (#[trigger] decoded.transactions@[i]).vm.0 == leaves@[i].0
                && decoded.transactions@[i].payload@ == leaves@[i].1@,
{
    match tree {
        Ok(_) => Ok(from_leaves(leaves)),
        Err(_) => Err(PayloadError::Tree),
    }
}

/// The payload of serialized leaves.
pub fn from_leaves(leaves: &Vec<(u64, Vec<u8>)>) -> (r: Payload)
    ensures
        r@ == payload::entries_view(leaves@),
        r.transactions@.len() == leaves@.len(),
        forall|i: int|
            0 <= i < leaves@.len() ==> (#[trigger] r.transactions@[i]).vm.0 == leaves@[i].0
                && r.transactions@[i].payload@ == leaves@[i].1@,
{
    let ghost all = payload::entries_view(leaves@);
    let mut transactions: Vec<Transaction> = Vec::new();
    let mut i: usize = 0;
    while i < leaves.len()
        invariant
            i <= leaves.len(),
            all == payload::entries_view(leaves@),
            transactions@.len() == i,
            forall|j: int|
                0 <= j < i ==> (#[trigger] transactions@[j]).vm.0 == leaves@[j].0
                    && transactions@[j].payload@ == leaves@[j].1@,
            forall|j: int| 0 <= j < i ==> (#[trigger] transactions@[j])@ == all[j],
        decreases leaves.len() - i,
    {
        let leaf = &leaves[i];
        transactions.push(Transaction::new(VmId(leaf.0), bytes::copy_bytes(&leaf.1)));
        i = i + 1;
    }
    let r = Payload { transactions };
    assert(r@ =~= all);
    r
}

} // verus!
