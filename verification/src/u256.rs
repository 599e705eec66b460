//! 256-bit unsigned numbers.
//!
//! A number is held as its four 64-bit words, least significant first. The
//! arithmetic and the byte form are those of `ethers::types::U256`.

use crate::bytes;
use vstd::prelude::*;

verus! {

/// A 256-bit unsigned number.
#[derive(Clone, Copy, Debug, PartialEq, Eq, Hash)]
pub struct U256 {
    pub words: [u64; 4],
}

/// `2^64`, the first number that does not fit in a word.
pub open spec fn word_end() -> int {
    0x1_0000_0000_0000_0000
}

/// The number that four words write, least significant first.
pub open spec fn words_value(w: [u64; 4]) -> nat {
    (w[0] + word_end() * (w[1] + word_end() * (w[2] + word_end() * w[3]))) as nat
}

/// `2^256`, the first number that does not fit.
pub open spec fn u256_end() -> nat {
    0x1_0000000000000000_0000000000000000_0000000000000000_0000000000000000nat
}

/// Calls `ethers::types::U256`'s `+`. Of two numbers whose sum fits, it gives
/// the sum; it panics where the sum does not fit, so that is left out.
#[verifier::external_body]
fn ethers_add(a: [u64; 4], b: [u64; 4]) -> (r: [u64; 4])
    requires
        words_value(a) + words_value(b) < u256_end(),
    ensures
        words_value(r) == words_value(a) + words_value(b),
{
    (ethers::types::U256(a) + ethers::types::U256(b)).0
}

/// Calls `ethers::types::U256::checked_add`: the sum where it fits, `None`
/// where it does not.
#[verifier::external_body]
fn ethers_checked_add(a: [u64; 4], b: [u64; 4]) -> (r: Option<[u64; 4]>)
    ensures
        r is Some <==> words_value(a) + words_value(b) < u256_end(),
        r matches Some(s) ==> words_value(s) == words_value(a) + words_value(b),
{
    ethers::types::U256(a).checked_add(ethers::types::U256(b)).map(|s| s.0)
}

/// Calls `ethers::types::U256::to_little_endian` on a buffer of 32 bytes: it
/// fills the buffer with the number's base-256 digits, least significant
/// first.
#[verifier::external_body]
fn ethers_to_little_endian(a: [u64; 4]) -> (r: [u8; 32])
    ensures
        r@ == bytes::le_bytes(words_value(a), 32),
{
    let mut buffer = [0u8; 32];
    ethers::types::U256(a).to_little_endian(&mut buffer);
    buffer
}

/// Calls `ethers::types::U256::from_little_endian` on 32 bytes: it gives the
/// number whose base-256 digits they are, least significant first.
#[verifier::external_body]
fn ethers_from_little_endian(s: &[u8; 32]) -> (r: [u64; 4])
    ensures
        words_value(r) == bytes::le_value(s@),
{
    ethers::types::U256::from_little_endian(s).0
}

/// Calls `ethers::types::U256::as_u64`: it gives the number as a `u64`, and
/// panics where it does not fit, so that is left out.
#[verifier::external_body]
fn ethers_as_u64(a: [u64; 4]) -> (r: u64)
    requires
        words_value(a) <= u64::MAX,
    ensures
        r == words_value(a),
{
    ethers::types::U256(a).as_u64()
}

impl View for U256 {
    type V = nat;

    open spec fn view(&self) -> nat {
        words_value(self.words)
    }
}

impl Default for U256 {
    fn default() -> (r: Self)
        ensures
            r@ == 0,
    {
        U256 { words: [0, 0, 0, 0] }
    }
}

impl U256 {
    /// The number `n`.
    pub fn from_u64(n: u64) -> (r: Self)
        ensures
            r@ == n,
    {
        U256 { words: [n, 0, 0, 0] }
    }

    /// The sum of two numbers whose sum fits.
    pub fn add(self, other: U256) -> (r: Self)
        requires
            self@ + other@ < u256_end(),
        ensures
            r@ == self@ + other@,
    {
        U256 { words: ethers_add(self.words, other.words) }
    }

    /// The sum where it fits.
    pub fn checked_add(self, other: U256) -> (r: Option<Self>)
        ensures
            r is Some <==> self@ + other@ < u256_end(),
            r matches Some(s) ==> s@ == self@ + other@,
    {
        match ethers_checked_add(self.words, other.words) {
            Some(words) => Some(U256 { words }),
            None => None,
        }
    }

    /// The number as a `u64`, where it fits.
    pub fn as_u64(self) -> (r: u64)
        requires
            self@ <= u64::MAX,
        ensures
            r == self@,
    {
        ethers_as_u64(self.words)
    }

    /// Whether `as_u64` may be called.
    pub fn fits_u64(self) -> (r: bool)
        ensures
            r == (self@ <= u64::MAX),
    {
        self.words[1] == 0 && self.words[2] == 0 && self.words[3] == 0
    }

    /// The 32 little-endian bytes of the number.
    pub fn to_le_bytes(self) -> (r: [u8; 32])
        ensures
            r@ == bytes::le_bytes(self@, 32),
    {
        ethers_to_little_endian(self.words)
    }

    /// The number of 32 little-endian bytes.
    pub fn from_le_bytes(s: &[u8; 32]) -> (r: Self)
        ensures
            r@ == bytes::le_value(s@),
    {
        U256 { words: ethers_from_little_endian(s) }
    }
}

/// The words of a number weigh one, `2^64`, `2^128` and `2^192`.
pub proof fn words_count_by_place(a: U256)
    ensures
        a@ == a.words[0] + a.words[1] * 0x1_0000000000000000int + a.words[2]
            * 0x1_0000000000000000_0000000000000000int + a.words[3]
            * 0x1_0000000000000000_0000000000000000_0000000000000000int,
        a.words[1] == 0 && a.words[2] == 0 && a.words[3] == 0 <==> a@
            < 0x1_0000000000000000int,
{
}

/// The first number that does not fit is the first that 32 bytes do not hold.
pub proof fn numbers_end_at_32_bytes()
    ensures
        u256_end() == vstd::arithmetic::power::pow(256, 32),
{
    bytes::lemma_byte_range_values();
    vstd::arithmetic::power::lemma_pow_positive(256, 32);
}

/// Every number is below `2^256`.
pub proof fn lemma_u256_bound(a: U256)
    ensures
        a@ < u256_end(),
{
}

/// The last word and the rest of a number are both fixed by the number.
proof fn lemma_word_split(x: u64, p: int, y: u64, q: int)
    requires
        x + word_end() * p == y + word_end() * q,
    ensures
        x == y,
        p == q,
{
}

/// A number has one form only: two of the same value are the same.
pub proof fn lemma_u256_value_determines(a: U256, b: U256)
    requires
        a@ == b@,
    ensures
        a == b,
{
    let (x, y) = (a.words, b.words);
    let (p2, q2) = (x[2] + word_end() * x[3], y[2] + word_end() * y[3]);
    let (p1, q1) = (x[1] + word_end() * p2, y[1] + word_end() * q2);
    lemma_word_split(x[0], p1, y[0], q1);
    lemma_word_split(x[1], p2, y[1], q2);
    lemma_word_split(x[2], x[3] as int, y[2], y[3] as int);
    assert(x =~= y);
}

} // verus!
