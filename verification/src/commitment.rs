//! Binding commitments to structured values.
//!
//! A value is committed to by hashing its transcript: a tag, then the value's
//! fields in a fixed order, each with its name. A name ends in two bytes that
//! occur in no UTF-8 string, and a field of variable size starts with its
//! length. The transcript is that of `committable::RawCommitmentBuilder`.

use crate::bytes;
use vstd::prelude::*;
use vstd::utf8::*;

verus! {

/// A commitment: the Keccak-256 hash of a transcript.
#[derive(Clone, Copy, Debug, PartialEq, Eq, Hash)]
pub struct Commitment {
    pub bytes: [u8; 32],
}

impl View for Commitment {
    type V = Seq<u8>;

    open spec fn view(&self) -> Seq<u8> {
        self.bytes@
    }
}

/// The Keccak-256 hash of `input`, which `ethers::utils::keccak256` computes.
pub uninterp spec fn keccak256(input: Seq<u8>) -> [u8; 32];

/// Calls `ethers::utils::keccak256`: the hash depends on the input bytes alone.
/// Of the hash function itself nothing is said.
#[verifier::external_body]
fn ethers_keccak256(input: &[u8]) -> (r: [u8; 32])
    ensures
        r == keccak256(input@),
{
    ethers::utils::keccak256(input)
}

/// A constant string in a transcript: its UTF-8 bytes and the closing pair.
pub open spec fn str_part(s: Seq<char>) -> Seq<u8> {
    encode_utf8(s) + seq![0xC0u8, 0x7Fu8]
}

/// A field of fixed size in a transcript.
pub open spec fn fixed_part(name: Seq<char>, value: Seq<u8>) -> Seq<u8> {
    str_part(name) + value
}

/// A numeric field in a transcript.
pub open spec fn u64_part(name: Seq<char>, value: u64) -> Seq<u8> {
    str_part(name) + bytes::le_bytes(value as nat, 8)
}

/// A field of variable size in a transcript.
pub open spec fn var_part(name: Seq<char>, value: Seq<u8>) -> Seq<u8> {
    str_part(name) + bytes::le_bytes(value.len(), 8) + value
}

/// An optional committed field in a transcript: the commitment, or the number
/// zero where there is none.
pub open spec fn optional_part(name: Seq<char>, value: Option<Seq<u8>>) -> Seq<u8> {
    match value {
        Some(commitment) => fixed_part(name, commitment),
        None => u64_part(name, 0),
    }
}

/// Collects a transcript.
pub struct RawCommitmentBuilder {
    transcript: Vec<u8>,
}

impl View for RawCommitmentBuilder {
    type V = Seq<u8>;

    closed spec fn view(&self) -> Seq<u8> {
        self.transcript@
    }
}

/// Two byte strings that agree and whose first parts are of the same length
/// agree part by part.
pub proof fn lemma_same_parts(a: Seq<u8>, x: Seq<u8>, b: Seq<u8>, y: Seq<u8>)
    requires
        a + x == b + y,
        a.len() == b.len(),
    ensures
        a == b,
        x == y,
{
    assert((a + x).take(a.len() as int) =~= a);
    assert((b + y).take(b.len() as int) =~= b);
    assert((a + x).skip(a.len() as int) =~= x);
    assert((b + y).skip(b.len() as int) =~= y);
}

/// A numeric field of a transcript can be told from what follows it.
pub proof fn lemma_u64_part_binds(name: Seq<char>, a: u64, x: Seq<u8>, b: u64, y: Seq<u8>)
    requires
        u64_part(name, a) + x == u64_part(name, b) + y,
    ensures
        a == b,
        x == y,
{
    bytes::lemma_le_bytes_len(a as nat, 8);
    bytes::lemma_le_bytes_len(b as nat, 8);
    bytes::lemma_byte_range_values();
    lemma_same_parts(u64_part(name, a), x, u64_part(name, b), y);
    lemma_same_parts(
        str_part(name),
        bytes::le_bytes(a as nat, 8),
        str_part(name),
        bytes::le_bytes(b as nat, 8),
    );
    bytes::lemma_le_bytes_injective(a as nat, b as nat, 8);
}

/// A field of fixed size of a transcript can be told from what follows it.
pub proof fn lemma_fixed_part_binds(
    name: Seq<char>,
    a: Seq<u8>,
    x: Seq<u8>,
    b: Seq<u8>,
    y: Seq<u8>,
)
    requires
        a.len() == b.len(),
        fixed_part(name, a) + x == fixed_part(name, b) + y,
    ensures
        a == b,
        x == y,
{
    lemma_same_parts(fixed_part(name, a), x, fixed_part(name, b), y);
    lemma_same_parts(str_part(name), a, str_part(name), b);
}

/// A field of variable size of a transcript can be told from what follows it.
pub proof fn lemma_var_part_binds(name: Seq<char>, a: Seq<u8>, x: Seq<u8>, b: Seq<u8>, y: Seq<u8>)
    requires
        a.len() <= u64::MAX,
        b.len() <= u64::MAX,
        var_part(name, a) + x == var_part(name, b) + y,
    ensures
        a == b,
        x == y,
{
    bytes::lemma_le_bytes_len(a.len(), 8);
    bytes::lemma_le_bytes_len(b.len(), 8);
    assert(var_part(name, a) + x =~= u64_part(name, a.len() as u64) + (a + x));
    assert(var_part(name, b) + y =~= u64_part(name, b.len() as u64) + (b + y));
    lemma_u64_part_binds(name, a.len() as u64, a + x, b.len() as u64, b + y);
    lemma_same_parts(a, x, b, y);
}

/// How long the tags and names of all transcripts are in UTF-8.
pub proof fn lemma_ascii_names()
    ensures
        encode_utf8("L1BLOCK"@).len() == 7,
        encode_utf8("number"@).len() == 6,
        encode_utf8("timestamp"@).len() == 9,
        encode_utf8("hash"@).len() == 4,
        encode_utf8("NMTROOT"@).len() == 7,
        encode_utf8("root"@).len() == 4,
        encode_utf8("BLOCK"@).len() == 5,
        encode_utf8("height"@).len() == 6,
        encode_utf8("l1_head"@).len() == 7,
        encode_utf8("l1_finalized"@).len() == 12,
        encode_utf8("payload_commitment"@).len() == 18,
        encode_utf8("transactions_root"@).len() == 17,
        encode_utf8("block_merkle_tree_root"@).len() == 22,
        encode_utf8("fee_merkle_tree_root"@).len() == 20,
{
    broadcast use is_ascii_chars_encode_utf8;

    reveal_strlit("L1BLOCK");
    reveal_strlit("number");
    reveal_strlit("timestamp");
    reveal_strlit("hash");
    reveal_strlit("NMTROOT");
    reveal_strlit("root");
    reveal_strlit("BLOCK");
    reveal_strlit("height");
    reveal_strlit("l1_head");
    reveal_strlit("l1_finalized");
    reveal_strlit("payload_commitment");
    reveal_strlit("transactions_root");
    reveal_strlit("block_merkle_tree_root");
    reveal_strlit("fee_merkle_tree_root");
    assert(is_ascii_chars("L1BLOCK"@));
    assert(is_ascii_chars("number"@));
    assert(is_ascii_chars("timestamp"@));
    assert(is_ascii_chars("hash"@));
    assert(is_ascii_chars("NMTROOT"@));
    assert(is_ascii_chars("root"@));
    assert(is_ascii_chars("BLOCK"@));
    assert(is_ascii_chars("height"@));
    assert(is_ascii_chars("l1_head"@));
    assert(is_ascii_chars("l1_finalized"@));
    assert(is_ascii_chars("payload_commitment"@));
    assert(is_ascii_chars("transactions_root"@));
    assert(is_ascii_chars("block_merkle_tree_root"@));
    assert(is_ascii_chars("fee_merkle_tree_root"@));
}

/// The parts of a transcript in full: a string is its UTF-8 bytes and two bytes that close
/// it; a field is its name as a string, and then its value, a number in eight bytes,
/// bytes as they are, or bytes after their length. An optional field is the value that
/// is there, or the number zero.
pub proof fn parts_are_name_and_value(name: Seq<char>, value: Seq<u8>, number: u64)
    ensures
        ({
            let n = encode_utf8(name).len() as int;
            &&& str_part(name).len() == n + 2
            &&& str_part(name).take(n) == encode_utf8(name)
            &&& str_part(name)[n] == 0xC0
            &&& str_part(name)[n + 1] == 0x7F
            &&& fixed_part(name, value).take(n + 2) == str_part(name)
            &&& fixed_part(name, value).skip(n + 2) == value
            &&& u64_part(name, number).take(n + 2) == str_part(name)
            &&& u64_part(name, number).skip(n + 2) == bytes::le_bytes(number as nat, 8)
            &&& var_part(name, value).len() == n + 10 + value.len()
            &&& var_part(name, value).take(n + 2) == str_part(name)
            &&& var_part(name, value).subrange(n + 2, n + 10) == bytes::le_bytes(value.len(), 8)
            &&& var_part(name, value).skip(n + 10) == value
            &&& optional_part(name, Some(value)).take(n + 2) == str_part(name)
            &&& optional_part(name, Some(value)).skip(n + 2) == value
            &&& optional_part(name, None).take(n + 2) == str_part(name)
            &&& optional_part(name, None).skip(n + 2) == Seq::new(8, |i: int| 0u8)
        }),
{
    let n = encode_utf8(name).len() as int;
    bytes::lemma_le_bytes_len(number as nat, 8);
    bytes::lemma_le_bytes_len(value.len(), 8);
    bytes::lemma_le_bytes_len(0, 8);
    reveal_with_fuel(bytes::le_bytes, 9);
    assert(bytes::le_bytes(0, 8) =~= Seq::new(8, |i: int| 0u8));
    assert(str_part(name).take(n) =~= encode_utf8(name));
    assert(fixed_part(name, value).take(n + 2) =~= str_part(name));
    assert(fixed_part(name, value).skip(n + 2) =~= value);
    assert(u64_part(name, number).take(n + 2) =~= str_part(name));
    assert(u64_part(name, number).skip(n + 2) =~= bytes::le_bytes(number as nat, 8));
    assert(var_part(name, value).take(n + 2) =~= str_part(name));
    assert(var_part(name, value).subrange(n + 2, n + 10) =~= bytes::le_bytes(value.len(), 8));
    assert(var_part(name, value).skip(n + 10) =~= value);
    assert(optional_part(name, None).take(n + 2) =~= str_part(name));
    assert(optional_part(name, None).skip(n + 2) =~= bytes::le_bytes(0, 8));
}

impl RawCommitmentBuilder {
    /// Starts a transcript with a tag.
    pub fn new(tag: &str) -> (r: Self)
        ensures
            r@ == str_part(tag@),
    {
        let empty = RawCommitmentBuilder { transcript: Vec::new() };
        let r = empty.constant_str(tag);
        assert(r@ =~= str_part(tag@));
        r
    }

    /// Adds a constant string.
    pub fn constant_str(self, s: &str) -> (r: Self)
        ensures
            r@ == self@ + str_part(s@),
    {
        let mut transcript = self.transcript;
        bytes::push_bytes(&mut transcript, s.as_bytes());
        transcript.push(0xC0);
        transcript.push(0x7F);
        assert(transcript@ =~= self@ + str_part(s@));
        RawCommitmentBuilder { transcript }
    }

    /// Adds bytes whose number the type of the value fixes.
    pub fn fixed_size_bytes(self, f: &[u8]) -> (r: Self)
        ensures
            r@ == self@ + f@,
    {
        let mut transcript = self.transcript;
        bytes::push_bytes(&mut transcript, f);
        RawCommitmentBuilder { transcript }
    }

    /// Adds a numeric field.
    pub fn u64_field(self, name: &str, val: u64) -> (r: Self)
        ensures
            r@ == self@ + u64_part(name@, val),
    {
        let mut transcript = self.constant_str(name).transcript;
        bytes::push_u64(&mut transcript, val);
        assert(transcript@ =~= self@ + u64_part(name@, val));
        RawCommitmentBuilder { transcript }
    }

    /// Adds a field of variable size.
    pub fn var_size_field(self, name: &str, val: &[u8]) -> (r: Self)
        ensures
            r@ == self@ + var_part(name@, val@),
    {
        let mut transcript = self.constant_str(name).transcript;
        bytes::push_u64(&mut transcript, val.len() as u64);
        bytes::push_bytes(&mut transcript, val);
        assert(transcript@ =~= self@ + var_part(name@, val@));
        RawCommitmentBuilder { transcript }
    }

    /// Adds a field by its commitment.
    pub fn field(self, name: &str, val: Commitment) -> (r: Self)
        ensures
            r@ == self@ + fixed_part(name@, val@),
    {
        let r = self.constant_str(name).fixed_size_bytes(val.bytes.as_slice());
        assert(r@ =~= self@ + fixed_part(name@, val@));
        r
    }

    /// Adds an optional field by its commitment.
    pub fn optional(self, name: &str, val: Option<Commitment>) -> (r: Self)
        ensures
            r@ == self@ + optional_part(
                name@,
                match val {
                    Some(commitment) => Some(commitment@),
                    None => None,
                },
            ),
    {
        match val {
            Some(commitment) => self.field(name, commitment),
            None => self.u64_field(name, 0),
        }
    }

    /// Hashes the transcript.
    pub fn finalize(self) -> (r: Commitment)
        ensures
            r.bytes == keccak256(self@),
    {
        Commitment { bytes: ethers_keccak256(self.transcript.as_slice()) }
    }
}

} // verus!
