//! Byte strings: little-endian numbers, comparison and copying.

use vstd::arithmetic::div_mod::*;
use vstd::arithmetic::power::*;
use vstd::prelude::*;
use vstd::slice::slice_to_vec;

verus! {

/// The number that `s` writes with its least significant byte first.
pub open spec fn le_value(s: Seq<u8>) -> nat
    decreases s.len(),
{
    if s.len() == 0 {
        0
    } else {
        s[0] as nat + 256 * le_value(s.drop_first())
    }
}

/// The lowest `k` base-256 digits of `n`, least significant first.
pub open spec fn le_bytes(n: nat, k: nat) -> Seq<u8>
    decreases k,
{
    if k == 0 {
        Seq::empty()
    } else {
        seq![(n % 256) as u8] + le_bytes(n / 256, (k - 1) as nat)
    }
}

/// `256^k`: how many numbers `k` bytes can tell apart.
pub open spec fn byte_range(k: nat) -> nat {
    pow(256, k) as nat
}

pub proof fn lemma_byte_range_step(k: nat)
    requires
        k > 0,
    ensures
        byte_range(k) == 256 * byte_range((k - 1) as nat),
        byte_range((k - 1) as nat) > 0,
{
    lemma_pow_positive(256, (k - 1) as nat);
    lemma_pow_adds(256, 1, (k - 1) as nat);
    lemma_pow1(256);
}

pub proof fn lemma_byte_range_values()
    ensures
        byte_range(0) == 1,
        byte_range(8) == 0x1_0000_0000_0000_0000,
        byte_range(32) == 0x1_0000000000000000_0000000000000000_0000000000000000_0000000000000000,
{
    lemma_pow0(256);
    assert(pow(256, 8) == 0x1_0000_0000_0000_0000) by {
        reveal_with_fuel(pow, 9);
    }
    lemma_pow_adds(256, 8, 8);
    lemma_pow_adds(256, 16, 16);
    assert(0x1_0000_0000_0000_0000int * 0x1_0000_0000_0000_0000int
        == 0x1_0000000000000000_0000000000000000int);
    assert(0x1_0000000000000000_0000000000000000int * 0x1_0000000000000000_0000000000000000int
        == 0x1_0000000000000000_0000000000000000_0000000000000000_0000000000000000int);
}

pub proof fn lemma_le_bytes_len(n: nat, k: nat)
    ensures
        le_bytes(n, k).len() == k,
    decreases k,
{
    if k > 0 {
        lemma_le_bytes_len(n / 256, (k - 1) as nat);
    }
}

/// Writing a number and reading it back gives the number, where it fits.
pub proof fn lemma_le_value_of_le_bytes(n: nat, k: nat)
    requires
        n < byte_range(k),
    ensures
        le_value(le_bytes(n, k)) == n,
    decreases k,
{
    lemma_byte_range_values();
    if k > 0 {
        lemma_byte_range_step(k);
        let rest = le_bytes(n / 256, (k - 1) as nat);
        lemma_le_value_of_le_bytes(n / 256, (k - 1) as nat);
        assert(le_bytes(n, k).drop_first() =~= rest);
    }
}

/// Reading a byte string and writing its number at the same width gives the
/// byte string.
pub proof fn lemma_le_bytes_of_le_value(s: Seq<u8>)
    ensures
        le_bytes(le_value(s), s.len()) == s,
    decreases s.len(),
{
    if s.len() > 0 {
        lemma_le_bytes_of_le_value(s.drop_first());
        let n = le_value(s);
        let m = le_value(s.drop_first());
        assert(n % 256 == s[0] as nat && n / 256 == m);
        assert(le_bytes(n, s.len()) =~= s);
    }
}

/// Two numbers with the same digits are the same number.
pub proof fn lemma_le_bytes_injective(n: nat, m: nat, k: nat)
    requires
        n < byte_range(k),
        m < byte_range(k),
        le_bytes(n, k) == le_bytes(m, k),
    ensures
        n == m,
{
    lemma_le_value_of_le_bytes(n, k);
    lemma_le_value_of_le_bytes(m, k);
}

/// Byte `i` of a written number is the number's digit of weight `256^i`.
pub proof fn bytes_are_digits(n: nat, k: nat, i: int)
    requires
        0 <= i < k,
    ensures
        le_bytes(n, k).len() == k,
        le_bytes(n, k)[i] == (n as int / pow(256, i as nat)) % 256,
    decreases k,
{
    lemma_le_bytes_len(n, k);
    if i == 0 {
        lemma_pow0(256);
    } else {
        bytes_are_digits(n / 256, (k - 1) as nat, i - 1);
        assert(le_bytes(n, k)[i] == le_bytes(n / 256, (k - 1) as nat)[i - 1]);
        lemma_pow_positive(256, (i - 1) as nat);
        lemma_pow_adds(256, 1, (i - 1) as nat);
        lemma_pow1(256);
        lemma_div_denominator(n as int, 256, pow(256, (i - 1) as nat));
    }
}

/// A byte that is read counts for as many times `256^i` as it says, where `i` bytes stand
/// before it. No bytes are read as zero.
pub proof fn read_byte_counts_by_place(s: Seq<u8>, b: u8)
    ensures
        le_value(Seq::<u8>::empty()) == 0,
        le_value(s.push(b)) == le_value(s) + b * pow(256, s.len()),
    decreases s.len(),
{
    let t = s.push(b);
    if s.len() == 0 {
        lemma_pow0(256);
        assert(t.drop_first() =~= Seq::<u8>::empty());
        assert(le_value(t.drop_first()) == 0);
    } else {
        assert(t.drop_first() =~= s.drop_first().push(b));
        read_byte_counts_by_place(s.drop_first(), b);
        let p = pow(256, (s.len() - 1) as nat);
        lemma_pow_adds(256, 1, (s.len() - 1) as nat);
        lemma_pow1(256);
        assert(256 * (b * p) == b * (256 * p)) by (nonlinear_arith);
    }
}

/// Appends the eight little-endian bytes of `v`.
pub fn push_u64(out: &mut Vec<u8>, v: u64)
    ensures
        final(out)@ == old(out)@ + le_bytes(v as nat, 8),
{
    let mut rest: u64 = v;
    let mut i: usize = 0;
    while i < 8
        invariant
            i <= 8,
            out@ + le_bytes(rest as nat, (8 - i) as nat) == old(out)@ + le_bytes(v as nat, 8),
        decreases 8 - i,
    {
        let ghost before = out@;
        let ghost tail = le_bytes((rest / 256) as nat, (8 - i - 1) as nat);
        let low: u8 = (rest % 256) as u8;
        out.push(low);
        assert(before + (seq![low] + tail) =~= out@ + tail);
        rest = rest / 256;
        i = i + 1;
    }
    assert(out@ + le_bytes(rest as nat, 0) =~= out@);
}

/// Appends `s`.
pub fn push_bytes(out: &mut Vec<u8>, s: &[u8])
    ensures
        final(out)@ == old(out)@ + s@,
{
    let mut i: usize = 0;
    while i < s.len()
        invariant
            i <= s.len(),
            out@ == old(out)@ + s@.take(i as int),
        decreases s.len() - i,
    {
        out.push(s[i]);
        i = i + 1;
        assert(s@.take(i as int) =~= s@.take(i - 1).push(s@[i - 1]));
    }
    assert(s@.take(i as int) =~= s@);
}

/// Whether two byte strings are the same.
pub fn bytes_equal(a: &[u8], b: &[u8]) -> (r: bool)
    ensures
        r == (a@ == b@),
{
    if a.len() != b.len() {
        return false;
    }
    let mut i: usize = 0;
    while i < a.len()
        invariant
            i <= a.len(),
            a.len() == b.len(),
            forall|j: int| 0 <= j < i ==> a@[j] == b@[j],
        decreases a.len() - i,
    {
        if a[i] != b[i] {
            return false;
        }
        i = i + 1;
    }
    assert(a@ =~= b@);
    true
}

/// The first 20 bytes of a longer byte string.
pub fn front_20(s: &[u8]) -> (r: [u8; 20])
    requires
        s@.len() >= 20,
    ensures
        r@ == s@.take(20),
{
    let mut out: [u8; 20] = [0u8; 20];
    let mut i: usize = 0;
    while i < 20
        invariant
            i <= 20 <= s@.len(),
            forall|j: int| 0 <= j < i ==> out@[j] == s@[j],
        decreases 20 - i,
    {
        out[i] = s[i];
        i = i + 1;
    }
    assert(out@ =~= s@.take(20));
    out
}

/// The first 32 bytes of a longer byte string.
pub fn front_32(s: &[u8]) -> (r: [u8; 32])
    requires
        s@.len() >= 32,
    ensures
        r@ == s@.take(32),
{
    let mut out: [u8; 32] = [0u8; 32];
    let mut i: usize = 0;
    while i < 32
        invariant
            i <= 32 <= s@.len(),
            forall|j: int| 0 <= j < i ==> out@[j] == s@[j],
        decreases 32 - i,
    {
        out[i] = s[i];
        i = i + 1;
    }
    assert(out@ =~= s@.take(32));
    out
}

/// A copy of a byte string.
pub fn copy_bytes(s: &Vec<u8>) -> (r: Vec<u8>)
    ensures
        r@ == s@,
{
    slice_to_vec(s.as_slice())
}

} // verus!
