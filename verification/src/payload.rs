//! The payload of a block: its transactions, and their encoding.

use crate::bytes;
use crate::merkle::LookupResult;
use crate::nmt_serializer;
use crate::transaction;
use crate::transaction::{sort_by_vm, Transaction};
use vstd::prelude::*;

verus! {

/// `bincode::ErrorKind`, which says why bytes could not be decoded.
#[verifier::external_type_specification]
#[verifier::external_body]
pub struct ExBincodeErrorKind(bincode::ErrorKind);

/// Why a payload could not be encoded or decoded.
#[derive(Clone, Copy, Debug, PartialEq, Eq, Structural)]
pub enum PayloadError {
    /// The bytes are not those of a payload, or there is no room for them.
    Encoding,
    /// The transactions do not make up a tree.
    Tree,
}

/// A transaction of an encoded payload: its VM and what the VM is given.
pub type Entry = (u64, Seq<u8>);

/// The encoding of one transaction: its VM, the length of its payload, and its
/// payload.
pub open spec fn entry_bytes(entry: Entry) -> Seq<u8> {
    bytes::le_bytes(entry.0 as nat, 8) + bytes::le_bytes(entry.1.len(), 8) + entry.1
}

/// The encodings of transactions one after the other.
pub open spec fn entries_bytes(entries: Seq<Entry>) -> Seq<u8>
    decreases entries.len(),
{
    if entries.len() == 0 {
        Seq::empty()
    } else {
        entry_bytes(entries[0]) + entries_bytes(entries.drop_first())
    }
}

/// The encoding of a payload: the number of its transactions, and these.
pub open spec fn encoding(entries: Seq<Entry>) -> Seq<u8> {
    bytes::le_bytes(entries.len(), 8) + entries_bytes(entries)
}

/// Entries as they are handed to `bincode`, by their contents.
pub open spec fn entries_view(v: Seq<(u64, Vec<u8>)>) -> Seq<Entry> {
    Seq::new(v.len(), |i: int| (v[i].0, v[i].1@))
}

/// Calls `bincode::serialize` on a list of pairs of a number and a byte string. It
/// writes lengths and numbers as eight little-endian bytes, and nothing else but
/// the byte strings; it has no size limit, and does not fail on such a list.
#[verifier::external_body]
fn bincode_serialize(entries: &Vec<(u64, Vec<u8>)>) -> (r: Result<Vec<u8>, Box<bincode::ErrorKind>>)
    ensures
        r is Ok,
        r matches Ok(encoded) ==> encoded@ == encoding(entries_view(entries@)),
{
    bincode::serialize(entries)
}

/// Calls `bincode::deserialize` for a list of pairs of a number and a byte string.
/// It reads a list off the front of the bytes, and does not mind what follows. It
/// fails where the bytes start with the encoding of no list.
#[verifier::external_body]
fn bincode_deserialize(encoded: &[u8]) -> (r: Result<
    Vec<(u64, Vec<u8>)>,
    Box<bincode::ErrorKind>,
>)
    ensures
        match r {
            Ok(entries) => encoding(entries_view(entries@)).is_prefix_of(encoded@),
            Err(_) => forall|entries: Seq<Entry>| !(#[trigger] encoding(entries)).is_prefix_of(
                encoded@,
            ),
        },
{
    bincode::deserialize(encoded)
}

/// What a lookup of an index in the transaction tree gives: the transaction and the
/// proof of it, where it was found.
pub open spec fn transaction_found<P, N>(lookup: LookupResult<Transaction, P, N>) -> Option<
    (Transaction, P),
> {
    match lookup {
        LookupResult::Found(found, inclusion) => Some((found, inclusion)),
        _ => None,
    }
}

/// The payload of a block: the leaves of its transaction tree, from left to right.
#[derive(Debug, PartialEq, Eq, Hash)]
pub struct Payload {
    pub transactions: Vec<Transaction>,
}

impl View for Payload {
    type V = Seq<Entry>;

    open spec fn view(&self) -> Seq<Entry> {
        Seq::new(self.transactions@.len(), |i: int| self.transactions@[i]@)
    }
}

impl Payload {
    /// The payload of the given transactions: they are grouped by VM, and within
    /// one VM keep their order.
    pub fn from_transactions(transactions: Vec<Transaction>) -> (r: Payload)
        ensures
            transaction::grouped(r.transactions@),
            transaction::same_by_vm(r.transactions@, transactions@),
            forall|i: int, j: int|
                0 <= i <= j < r.transactions@.len() ==> (#[trigger] r.transactions@[i]).vm.0 <= (
                #[trigger] r.transactions@[j]).vm.0,
            r.transactions@.to_multiset() == transactions@.to_multiset(),
    {
        Payload { transactions: sort_by_vm(transactions) }
    }

    /// The payload of the first block, which has no transactions.
    pub fn genesis() -> (r: Payload)
        ensures
            r.transactions@ == Seq::<Transaction>::empty(),
            r@ == Seq::<Entry>::empty(),
    {
        let r = Payload::from_transactions(Vec::new());
        proof {
            transaction::same_by_vm_same_transactions(
                r.transactions@,
                Seq::<Transaction>::empty(),
            );
            assert(r.transactions@ =~= Seq::<Transaction>::empty());
            assert(r@ =~= Seq::<Entry>::empty());
        }
        r
    }

    /// The encoding of the payload.
    pub fn encode(&self) -> (r: Result<Vec<u8>, PayloadError>)
        ensures
            r matches Ok(encoded) && encoded@ == encoding(self@),
    {
        match bincode_serialize(&nmt_serializer::serialize(self)) {
            Ok(encoded) => Ok(encoded),
            Err(_) => Err(PayloadError::Encoding),
        }
    }

    /// The leaves of an encoded payload, which `nmt_serializer::deserialize` takes. What
    /// follows the encoding is not looked at.
    pub fn decode_leaves(encoded: &[u8]) -> (r: Result<Vec<(u64, Vec<u8>)>, PayloadError>)
        ensures
            match r {
                Ok(leaves) => encoding(entries_view(leaves@)).is_prefix_of(encoded@),
                Err(e) => {
                    &&& e == PayloadError::Encoding
                    &&& forall|entries: Seq<Entry>| !(#[trigger] encoding(entries)).is_prefix_of(
                        encoded@,
                    )
                },
            },
    {
        match bincode_deserialize(encoded) {
            Ok(leaves) => Ok(leaves),
            Err(_) => Err(PayloadError::Encoding),
        }
    }

    /// The encoded payload, before its transaction tree is built.
    pub fn from_bytes(encoded: &[u8]) -> (r: Result<Payload, PayloadError>)
        ensures
            match r {
                Ok(payload) => encoding(payload@).is_prefix_of(encoded@),
                Err(e) => {
                    &&& e == PayloadError::Encoding
                    &&& forall|entries: Seq<Entry>| !(#[trigger] encoding(entries)).is_prefix_of(
                        encoded@,
                    )
                },
            },
    {
        match Payload::decode_leaves(encoded) {
            Ok(leaves) => Ok(nmt_serializer::from_leaves(&leaves)),
            Err(e) => Err(e),
        }
    }

    /// The number of transactions.
    pub fn len(&self) -> (r: usize)
        ensures
            r == self@.len(),
            r == self.transactions@.len(),
    {
        self.transactions.len()
    }

    /// The number of transactions.
    pub fn txn_count(&self) -> (r: u64)
        ensures
            r == self@.len(),
            r == self.transactions@.len(),
    {
        self.transactions.len() as u64
    }

    /// The indices of all transactions.
    pub fn iter(&self) -> (r: std::ops::Range<u64>)
        ensures
            r.start == 0,
            r.end == self@.len(),
            r.end == self.transactions@.len(),
    {
        0..self.transactions.len() as u64
    }

    /// A transaction and the proof of it, from a lookup of its index in the
    /// transaction tree.
    pub fn transaction_with_proof<P, N>(lookup: LookupResult<Transaction, P, N>) -> (r: Option<
        (Transaction, P),
    >)
        ensures
            r == transaction_found(lookup),
            lookup matches LookupResult::Found(found, p) ==> r == Some((found, p)),
            r is None <==> !(lookup is Found),
    {
        match lookup {
            LookupResult::Found(found, inclusion) => Some((found, inclusion)),
            _ => None,
        }
    }

    /// The commitments to all transactions, in order, where `commit` commits to one.
    pub fn transaction_commitments<C>(&self, commit: impl Fn(&Transaction) -> C) -> (r: Vec<C>)
        requires
            forall|i: int|
                0 <= i < self.transactions@.len() ==> call_requires(
                    commit,
                    (&#[trigger] self.transactions@[i],),
                ),
        ensures
            r@.len() == self@.len(),
            r@.len() == self.transactions@.len(),
            forall|i: int|
                0 <= i < r@.len() ==> call_ensures(
                    commit,
                    (&self.transactions@[i],),
                    #[trigger] r@[i],
                ),
    {
        let mut out: Vec<C> = Vec::new();
        let mut i: usize = 0;
        while i < self.transactions.len()
            invariant
                i <= self.transactions.len(),
                out@.len() == i,
                forall|j: int|
                    0 <= j < self.transactions@.len() ==> call_requires(
                        commit,
                        (&#[trigger] self.transactions@[j],),
                    ),
                forall|j: int|
                    0 <= j < i ==> call_ensures(
                        commit,
                        (&self.transactions@[j],),
                        #[trigger] out@[j],
                    ),
            decreases self.transactions.len() - i,
        {
            out.push(commit(&self.transactions[i]));
            i = i + 1;
        }
        out
    }
}

impl PayloadError {
    /// What is said of transactions that do not make up a tree.
    pub fn message(&self) -> (r: Option<String>)
        ensures
            match self {
                PayloadError::Tree => r matches Some(s) && s@
                    == "Failed to build NMT from serialized leaves"@,
                PayloadError::Encoding => r is None,
            },
    {
        match self {
            PayloadError::Tree => Some("Failed to build NMT from serialized leaves".to_owned()),
            PayloadError::Encoding => None,
        }
    }
}

/// Whether the lengths in an encoding fit their eight bytes, as they do of every
/// list that there is room for.
pub open spec fn encodable(entries: Seq<Entry>) -> bool {
    &&& entries.len() <= u64::MAX
    &&& forall|i: int| 0 <= i < entries.len() ==> (#[trigger] entries[i]).1.len() <= u64::MAX
}

proof fn lemma_entries_prefix(a: Seq<Entry>, x: Seq<u8>, b: Seq<Entry>, y: Seq<u8>)
    requires
        encodable(a),
        encodable(b),
        a.len() == b.len(),
        entries_bytes(a) + x == entries_bytes(b) + y,
    ensures
        a == b,
        x == y,
    decreases a.len(),
{
    if a.len() == 0 {
        assert(entries_bytes(a) + x =~= x);
        assert(entries_bytes(b) + y =~= y);
        assert(a =~= b);
    } else {
        let (p, q) = (a[0], b[0]);
        let (va, vb) = (bytes::le_bytes(p.0 as nat, 8), bytes::le_bytes(q.0 as nat, 8));
        let (na, nb) = (bytes::le_bytes(p.1.len(), 8), bytes::le_bytes(q.1.len(), 8));
        let (ra, rb) = (entries_bytes(a.drop_first()) + x, entries_bytes(b.drop_first()) + y);
        bytes::lemma_le_bytes_len(p.0 as nat, 8);
        bytes::lemma_le_bytes_len(q.0 as nat, 8);
        bytes::lemma_le_bytes_len(p.1.len(), 8);
        bytes::lemma_le_bytes_len(q.1.len(), 8);
        bytes::lemma_byte_range_values();
        assert(entries_bytes(a) + x =~= va + (na + (p.1 + ra)));
        assert(entries_bytes(b) + y =~= vb + (nb + (q.1 + rb)));
        crate::commitment::lemma_same_parts(va, na + (p.1 + ra), vb, nb + (q.1 + rb));
        crate::commitment::lemma_same_parts(na, p.1 + ra, nb, q.1 + rb);
        bytes::lemma_le_bytes_injective(p.0 as nat, q.0 as nat, 8);
        bytes::lemma_le_bytes_injective(p.1.len(), q.1.len(), 8);
        crate::commitment::lemma_same_parts(p.1, ra, q.1, rb);
        assert(encodable(a.drop_first())) by {
            assert forall|i: int| 0 <= i < a.drop_first().len() implies (
            #[trigger] a.drop_first()[i]).1.len() <= u64::MAX by {
                assert(a.drop_first()[i] == a[i + 1]);
            }
        }
        assert(encodable(b.drop_first())) by {
            assert forall|i: int| 0 <= i < b.drop_first().len() implies (
            #[trigger] b.drop_first()[i]).1.len() <= u64::MAX by {
                assert(b.drop_first()[i] == b[i + 1]);
            }
        }
        lemma_entries_prefix(a.drop_first(), x, b.drop_first(), y);
        assert(a =~= seq![p] + a.drop_first());
        assert(b =~= seq![q] + b.drop_first());
    }
}

/// An encoded payload in full: the number of transactions in eight bytes, and then the
/// transactions one after the other, each as its VM and the length of its payload in
/// eight bytes each, and its payload as it is. Encoding a longer list adds to the end.
pub proof fn encoding_is_count_and_entries(a: Seq<Entry>, b: Seq<Entry>, entry: Entry)
    ensures
        encoding(a).take(8) == bytes::le_bytes(a.len(), 8),
        encoding(a).skip(8) == entries_bytes(a),
        entries_bytes(Seq::empty()) == Seq::<u8>::empty(),
        entries_bytes(a + b) == entries_bytes(a) + entries_bytes(b),
        entries_bytes(seq![entry]) == entry_bytes(entry),
        entry_bytes(entry).len() == 16 + entry.1.len(),
        entry_bytes(entry).take(8) == bytes::le_bytes(entry.0 as nat, 8),
        entry_bytes(entry).subrange(8, 16) == bytes::le_bytes(entry.1.len(), 8),
        entry_bytes(entry).skip(16) == entry.1,
    decreases a.len(),
{
    bytes::lemma_le_bytes_len(a.len(), 8);
    bytes::lemma_le_bytes_len(entry.0 as nat, 8);
    bytes::lemma_le_bytes_len(entry.1.len(), 8);
    assert(encoding(a).take(8) =~= bytes::le_bytes(a.len(), 8));
    assert(encoding(a).skip(8) =~= entries_bytes(a));
    assert(entry_bytes(entry).take(8) =~= bytes::le_bytes(entry.0 as nat, 8));
    assert(entry_bytes(entry).subrange(8, 16) =~= bytes::le_bytes(entry.1.len(), 8));
    assert(entry_bytes(entry).skip(16) =~= entry.1);
    let one = seq![entry];
    assert(one.drop_first() =~= Seq::<Entry>::empty());
    assert(entries_bytes(one.drop_first()) =~= Seq::<u8>::empty());
    assert(entries_bytes(one) =~= entry_bytes(entry));
    if a.len() == 0 {
        assert(a + b =~= b);
        assert(entries_bytes(a + b) =~= entries_bytes(a) + entries_bytes(b));
    } else {
        encoding_is_count_and_entries(a.drop_first(), b, entry);
        assert((a + b).drop_first() =~= a.drop_first() + b);
        assert(entries_bytes(a + b) =~= entries_bytes(a) + entries_bytes(b));
    }
}

/// The entries of a payload, and of the leaves of its tree, are their VMs and payloads, one
/// for each and in the same order.
pub proof fn entries_are_transactions(payload: Payload, leaves: Seq<(u64, Vec<u8>)>, i: int)
    ensures
        payload@.len() == payload.transactions@.len(),
        0 <= i < payload@.len() ==> payload@[i].0 == payload.transactions@[i].vm.0 && payload@[i].1
            == payload.transactions@[i].payload@,
        entries_view(leaves).len() == leaves.len(),
        0 <= i < leaves.len() ==> entries_view(leaves)[i].0 == leaves[i].0 && entries_view(
            leaves,
        )[i].1 == leaves[i].1@,
{
}

/// Bytes start with the encoding of one list at most.
pub proof fn encoding_is_prefix_free(encoded: Seq<u8>, a: Seq<Entry>, b: Seq<Entry>)
    requires
        encodable(a),
        encodable(b),
        encoding(a).is_prefix_of(encoded),
        encoding(b).is_prefix_of(encoded),
    ensures
        a == b,
{
    let (na, nb) = (bytes::le_bytes(a.len(), 8), bytes::le_bytes(b.len(), 8));
    let x = encoded.skip(encoding(a).len() as int);
    let y = encoded.skip(encoding(b).len() as int);
    bytes::lemma_le_bytes_len(a.len(), 8);
    bytes::lemma_le_bytes_len(b.len(), 8);
    bytes::lemma_byte_range_values();
    assert(encoded =~= encoding(a) + x && encoded =~= encoding(b) + y);
    assert(encoding(a) + x =~= na + (entries_bytes(a) + x));
    assert(encoding(b) + y =~= nb + (entries_bytes(b) + y));
    crate::commitment::lemma_same_parts(na, entries_bytes(a) + x, nb, entries_bytes(b) + y);
    bytes::lemma_le_bytes_injective(a.len(), b.len(), 8);
    lemma_entries_prefix(a, x, b, y);
}

/// Every payload is encodable.
pub proof fn payload_is_encodable(payload: Payload)
    ensures
        encodable(payload@),
{
    assert(payload.transactions.len() <= u64::MAX);
    assert forall|i: int| 0 <= i < payload@.len() implies (#[trigger] payload@[i]).1.len()
        <= u64::MAX by {
        assert(payload.transactions@[i].payload.len() <= u64::MAX);
    }
}

/// Bytes that start with the encoding of a payload never fail to decode: there is a
/// list whose encoding they start with.
pub proof fn encoded_payload_is_decodable(payload: Payload, rest: Seq<u8>)
    ensures
        encoding(payload@).is_prefix_of(encoding(payload@) + rest),
        !(forall|entries: Seq<Entry>| !(#[trigger] encoding(entries)).is_prefix_of(
            encoding(payload@) + rest,
        )),
{
    assert(encoding(payload@).is_prefix_of(encoding(payload@) + rest));
}

/// Decoding the encoding of a payload, whatever follows it, gives the payload back.
pub proof fn decoded_payload_is_encoded_payload(
    payload: Payload,
    rest: Seq<u8>,
    decoded: Payload,
)
    requires
        encoding(decoded@).is_prefix_of(encoding(payload@) + rest),
    ensures
        decoded@ == payload@,
{
    payload_is_encodable(payload);
    payload_is_encodable(decoded);
    assert(encoding(payload@).is_prefix_of(encoding(payload@) + rest));
    encoding_is_prefix_free(encoding(payload@) + rest, decoded@, payload@);
}

/// Where the lookup of an index finds the leaf at that index with a proof that
/// verifies, and nothing past the last leaf, a transaction comes of the indices from
/// zero to the number of transactions, and of no others; it is the one at that index.
pub proof fn transactions_are_found_by_index<P, N>(
    payload: Payload,
    index: u64,
    lookup: LookupResult<Transaction, P, N>,
    verifies: spec_fn(u64, Transaction, P) -> bool,
)
    requires
        index < payload.transactions@.len() ==> (lookup matches LookupResult::Found(found, p)
            && found == payload.transactions@[index as int] && verifies(index, found, p)),
        index >= payload.transactions@.len() ==> !(lookup is Found),
    ensures
        transaction_found(lookup) is Some <==> 0 <= index < payload@.len(),
        transaction_found(lookup) matches Some((t, p)) ==> {
            &&& t == payload.transactions@[index as int]
            &&& t@ == payload@[index as int]
            &&& verifies(index, t, p)
        },
{
}

} // verus!
