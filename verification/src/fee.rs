//! Fee amounts, the accounts that hold them, and the receipts that add to them.

use crate::bytes;
use crate::merkle::LookupResult;
use crate::u256;
use crate::u256::U256;
use vstd::prelude::*;
use vstd::slice::slice_subrange;

verus! {

/// The address of an account.
pub type Address = [u8; 20];

/// The number of bytes in a serialized fee amount.
pub const FEE_AMOUNT_SIZE: usize = 32;

/// The number of bytes in a serialized fee account.
pub const FEE_ACCOUNT_SIZE: usize = 20;

/// Why a serialized value could not be read.
#[derive(Clone, Copy, Debug, PartialEq, Eq, Structural)]
pub enum SerializationError {
    /// The input ended before the value did.
    UnexpectedEof,
}

/// An amount of fees.
#[derive(Clone, Copy, Debug, PartialEq, Eq, Hash)]
pub struct FeeAmount(pub U256);

/// An account that holds fees.
#[derive(Clone, Copy, Debug, PartialEq, Eq, PartialOrd, Ord, Hash)]
pub struct FeeAccount(pub Address);

impl View for FeeAmount {
    type V = nat;

    open spec fn view(&self) -> nat {
        self.0@
    }
}

impl View for FeeAccount {
    type V = Seq<u8>;

    open spec fn view(&self) -> Seq<u8> {
        self.0@
    }
}

impl Default for FeeAmount {
    fn default() -> (r: Self)
        ensures
            r@ == 0,
    {
        FeeAmount(U256::default())
    }
}

/// The bytes of the address that is zero throughout.
pub open spec fn zero_address() -> Seq<u8> {
    Seq::new(20, |i: int| 0u8)
}

impl Default for FeeAccount {
    fn default() -> (r: Self)
        ensures
            r@ == zero_address(),
    {
        let address: Address = [0u8; 20];
        assert(address@ =~= zero_address());
        FeeAccount(address)
    }
}

impl FeeAmount {
    /// Every fee amount is valid.
    pub fn check(&self) -> (r: Result<(), SerializationError>)
        ensures
            r is Ok,
    {
        Ok(())
    }

    /// The sum of two amounts whose sum fits.
    pub fn add(self, other: FeeAmount) -> (r: FeeAmount)
        requires
            self@ + other@ < u256::u256_end(),
        ensures
            r@ == self@ + other@,
            r.0@ == self.0@ + other.0@,
    {
        FeeAmount(self.0.add(other.0))
    }

    /// Appends the 32 little-endian bytes of the amount.
    pub fn serialize_with_mode(&self, writer: &mut Vec<u8>) -> (r: Result<(), SerializationError>)
        ensures
            r is Ok,
            final(writer)@ == old(writer)@ + bytes::le_bytes(self@, 32),
            final(writer)@ == old(writer)@ + bytes::le_bytes(self.0@, 32),
    {
        let encoded = self.0.to_le_bytes();
        bytes::push_bytes(writer, encoded.as_slice());
        Ok(())
    }

    /// The number of bytes that `serialize_with_mode` appends.
    pub fn serialized_size(&self) -> (r: usize)
        ensures
            r == 32,
            r == bytes::le_bytes(self@, 32).len(),
    {
        proof {
            bytes::lemma_le_bytes_len(self@, 32);
        }
        FEE_AMOUNT_SIZE
    }

    /// Reads an amount off the front of `reader`, and gives what follows it.
    pub fn deserialize_with_mode(reader: &[u8]) -> (r: Result<(FeeAmount, &[u8]), SerializationError>)
        ensures
            r is Ok <==> reader@.len() >= 32,
            r matches Ok((amount, rest)) ==> {
                &&& amount@ == bytes::le_value(reader@.take(32))
                &&& amount.0@ == bytes::le_value(reader@.take(32))
                &&& rest@ == reader@.skip(32)
            },
            r matches Err(e) ==> e == SerializationError::UnexpectedEof,
    {
        if reader.len() < FEE_AMOUNT_SIZE {
            return Err(SerializationError::UnexpectedEof);
        }
        let encoded: [u8; 32] = bytes::front_32(reader);
        let amount = FeeAmount(U256::from_le_bytes(&encoded));
        let rest = slice_subrange(reader, FEE_AMOUNT_SIZE, reader.len());
        assert(rest@ =~= reader@.skip(32));
        Ok((amount, rest))
    }
}

/// Calls `ethers::abi::Address::from_low_u64_le`: the last eight bytes of the
/// address are the number's little-endian bytes, the others are zero.
#[verifier::external_body]
fn ethers_address_from_low_u64_le(n: u64) -> (r: [u8; 20])
    ensures
        r@ == low_address(n),
{
    ethers::abi::Address::from_low_u64_le(n).0
}

/// The bytes of the address that ends in the little-endian bytes of `n`.
pub open spec fn low_address(n: u64) -> Seq<u8> {
    Seq::new(12, |i: int| 0u8) + bytes::le_bytes(n as nat, 8)
}

/// The account of the address that ends in the little-endian bytes of `n`.
pub open spec fn low_account(n: u64) -> FeeAccount {
    let b = bytes::le_bytes(n as nat, 8);
    FeeAccount(
        [0, 0, 0, 0, 0, 0, 0, 0, 0, 0, 0, 0, b[0], b[1], b[2], b[3], b[4], b[5], b[6], b[7]],
    )
}

/// The address of `low_account`.
pub proof fn lemma_low_account_address(n: u64)
    ensures
        low_account(n)@ == low_address(n),
{
    bytes::lemma_le_bytes_len(n as nat, 8);
    assert(low_account(n)@ =~= low_address(n));
}

impl From<u64> for FeeAccount {
    fn from(item: u64) -> (r: Self) {
        let r = FeeAccount(ethers_address_from_low_u64_le(item));
        proof {
            lemma_low_account_address(item);
            assert(r.0 =~= low_account(item).0);
        }
        r
    }
}

impl vstd::std_specs::convert::FromSpecImpl<u64> for FeeAccount {
    open spec fn obeys_from_spec() -> bool {
        true
    }

    open spec fn from_spec(item: u64) -> FeeAccount {
        low_account(item)
    }
}

impl FeeAccount {
    /// Every fee account is valid.
    pub fn check(&self) -> (r: Result<(), SerializationError>)
        ensures
            r is Ok,
    {
        Ok(())
    }

    /// Appends the 20 bytes of the address.
    pub fn serialize_with_mode(&self, writer: &mut Vec<u8>) -> (r: Result<(), SerializationError>)
        ensures
            r is Ok,
            final(writer)@ == old(writer)@ + self@,
            final(writer)@ == old(writer)@ + self.0@,
    {
        bytes::push_bytes(writer, self.0.as_slice());
        Ok(())
    }

    /// The number of bytes that `serialize_with_mode` appends.
    pub fn serialized_size(&self) -> (r: usize)
        ensures
            r == 20,
            r == self@.len(),
    {
        FEE_ACCOUNT_SIZE
    }

    /// Reads an account off the front of `reader`, and gives what follows it.
    pub fn deserialize_with_mode(reader: &[u8]) -> (r: Result<
        (FeeAccount, &[u8]),
        SerializationError,
    >)
        ensures
            r is Ok <==> reader@.len() >= 20,
            r matches Ok((account, rest)) ==> {
                &&& account@ == reader@.take(20)
                &&& account.0@ == reader@.take(20)
                &&& rest@ == reader@.skip(20)
            },
            r matches Err(e) ==> e == SerializationError::UnexpectedEof,
    {
        if reader.len() < FEE_ACCOUNT_SIZE {
            return Err(SerializationError::UnexpectedEof);
        }
        let account = FeeAccount(bytes::front_20(reader));
        let rest = slice_subrange(reader, FEE_ACCOUNT_SIZE, reader.len());
        assert(rest@ =~= reader@.skip(20));
        Ok((account, rest))
    }

    /// The path from the root of a fee tree of the given height, of 256 children
    /// to a node, to this account: one byte of the address for each level.
    pub fn to_traversal_path(&self, height: usize) -> (r: Vec<usize>)
        ensures
            r@ == traversal_path(self@, height as nat),
            r@.len() == if height < 20 {
                height as nat
            } else {
                20
            },
            forall|i: int| 0 <= i < r@.len() ==> #[trigger] r@[i] == self.0[i],
    {
        let mut path: Vec<usize> = Vec::new();
        let mut i: usize = 0;
        while i < FEE_ACCOUNT_SIZE && i < height
            invariant
                i <= 20,
                i <= height,
                path@ == traversal_path(self@, i as nat),
            decreases 20 - i,
        {
            path.push(self.0[i] as usize);
            i = i + 1;
            assert(path@ =~= traversal_path(self@, i as nat));
        }
        assert(path@ =~= traversal_path(self@, height as nat));
        path
    }
}

/// The first `height` bytes of an address, or all where it has fewer, as
/// numbers.
pub open spec fn traversal_path(address: Seq<u8>, height: nat) -> Seq<usize> {
    let n = if height < address.len() {
        height
    } else {
        address.len()
    };
    Seq::new(n, |i: int| address[i] as usize)
}

/// A payment of fees into an account.
#[derive(Clone, Copy, Debug, PartialEq, Eq, Hash)]
pub struct FeeReceipt {
    pub recipient: FeeAccount,
    pub amount: FeeAmount,
}

impl Default for FeeReceipt {
    fn default() -> (r: Self)
        ensures
            r.recipient@ == zero_address(),
            r.amount@ == 0,
    {
        FeeReceipt { recipient: FeeAccount::default(), amount: FeeAmount::default() }
    }
}

impl FeeReceipt {
    /// Reads a receipt off the front of `reader`, the account first, and gives what
    /// follows it.
    pub fn deserialize_with_mode(reader: &[u8]) -> (r: Result<
        (FeeReceipt, &[u8]),
        SerializationError,
    >)
        ensures
            r is Ok <==> reader@.len() >= 52,
            r matches Ok((receipt, rest)) ==> {
                &&& receipt.recipient@ == reader@.take(20)
                &&& receipt.recipient.0@ == reader@.take(20)
                &&& receipt.amount@ == bytes::le_value(reader@.subrange(20, 52))
                &&& receipt.amount.0@ == bytes::le_value(reader@.subrange(20, 52))
                &&& rest@ == reader@.skip(52)
            },
            r matches Err(e) ==> e == SerializationError::UnexpectedEof,
    {
        match FeeAccount::deserialize_with_mode(reader) {
            Err(e) => Err(e),
            Ok((recipient, after)) => match FeeAmount::deserialize_with_mode(after) {
                Err(e) => Err(e),
                Ok((amount, rest)) => {
                    assert(after@.take(32) =~= reader@.subrange(20, 52));
                    assert(rest@ =~= reader@.skip(52));
                    Ok((FeeReceipt { recipient, amount }, rest))
                },
            },
        }
    }
}

/// The balance of an account after a receipt, from what was found of it before:
/// the sum of both, or the amount alone where no balance was found.
pub open spec fn credited<P, N>(lookup: LookupResult<FeeAmount, P, N>, amount: nat) -> nat {
    match lookup {
        LookupResult::Found(balance, _) => balance@ + amount,
        _ => amount,
    }
}

/// The balance to store for the account of a receipt of `amount`, from what was
/// found of the account. One that is not found, or not in memory, starts from
/// nothing.
pub fn credit<P, N>(lookup: &LookupResult<FeeAmount, P, N>, amount: FeeAmount) -> (r: FeeAmount)
    requires
        credited(*lookup, amount@) < u256::u256_end(),
    ensures
        r@ == credited(*lookup, amount@),
        lookup matches LookupResult::Found(balance, _) ==> r@ == balance.0@ + amount.0@,
        !(lookup is Found) ==> r == amount,
{
    match lookup {
        LookupResult::Found(balance, _) => balance.add(amount),
        _ => amount,
    }
}

/// Whether `credit` may be called: whether the balance fits.
pub fn can_credit<P, N>(lookup: &LookupResult<FeeAmount, P, N>, amount: FeeAmount) -> (r: bool)
    ensures
        r == (credited(*lookup, amount@) < u256::u256_end()),
        lookup matches LookupResult::Found(balance, _) ==> (r <==> balance.0@ + amount.0@
            < u256::u256_end()),
        !(lookup is Found) ==> r,
{
    proof {
        u256::lemma_u256_bound(amount.0);
    }
    match lookup {
        LookupResult::Found(balance, _) => balance.0.checked_add(amount.0).is_some(),
        _ => true,
    }
}

/// What is found of an account and what a receipt pays are added up; where nothing is
/// found, the account has what the receipt pays, whether it is new or forgotten.
pub proof fn credit_adds_up<P, N>(balance: FeeAmount, proof: P, absence: N, a: nat, b: nat)
    ensures
        credited(LookupResult::<FeeAmount, P, N>::Found(balance, proof), a) == balance.0@ + a,
        credited(LookupResult::<FeeAmount, P, N>::NotFound(absence), a) == a,
        credited(LookupResult::<FeeAmount, P, N>::NotInMemory, a) == a,
        credited(LookupResult::<FeeAmount, P, N>::Found(balance, proof), a + b) == credited(
            LookupResult::<FeeAmount, P, N>::Found(balance, proof),
            a,
        ) + b,
{
}

/// An account and an amount are the bytes and the number that they hold, and the zero
/// address is 20 zero bytes.
pub proof fn fees_are_what_they_hold(account: FeeAccount, amount: FeeAmount)
    ensures
        account@ == account.0@,
        amount@ == amount.0@,
        zero_address().len() == 20,
        forall|i: int| 0 <= i < 20 ==> #[trigger] zero_address()[i] == 0,
{
}

/// The account of a number has twelve zero bytes, and then at place `i` the number's
/// digit of weight `256^i`.
pub proof fn low_account_bytes(n: u64, i: int)
    requires
        0 <= i < 8,
    ensures
        low_address(n).len() == 20,
        low_account(n).0@ == low_address(n),
        forall|j: int| 0 <= j < 12 ==> #[trigger] low_address(n)[j] == 0,
        low_address(n)[12 + i] == (n as int / vstd::arithmetic::power::pow(256, i as nat)) % 256,
{
    lemma_low_account_address(n);
    bytes::lemma_le_bytes_len(n as nat, 8);
    bytes::bytes_are_digits(n as nat, 8, i);
    assert(low_address(n)[12 + i] == bytes::le_bytes(n as nat, 8)[i]);
}

/// Step `i` of a path is byte `i` of the address, for as many steps as the tree is high,
/// or as the address has bytes. So a higher tree only makes a path longer.
pub proof fn path_is_address_bytes(address: Seq<u8>, height: nat, higher: nat)
    requires
        height <= higher,
    ensures
        traversal_path(address, height).len() <= height,
        traversal_path(address, height).len() <= address.len(),
        traversal_path(address, height).len() == height || traversal_path(address, height).len()
            == address.len(),
        forall|i: int|
            0 <= i < traversal_path(address, height).len() ==> #[trigger] traversal_path(
                address,
                height,
            )[i] == address[i],
        traversal_path(address, height).is_prefix_of(traversal_path(address, higher)),
{
}

/// A serialized amount has 32 bytes, and reading it gives the amount back with
/// whatever was written after it.
pub proof fn fee_amount_round_trip(amount: FeeAmount, rest: Seq<u8>)
    ensures
        ({
            let written = bytes::le_bytes(amount@, 32) + rest;
            &&& written.len() >= 32
            &&& bytes::le_value(written.take(32)) == amount@
            &&& written.skip(32) == rest
        }),
{
    let written = bytes::le_bytes(amount@, 32) + rest;
    bytes::lemma_le_bytes_len(amount@, 32);
    bytes::lemma_byte_range_values();
    u256::lemma_u256_bound(amount.0);
    bytes::lemma_le_value_of_le_bytes(amount@, 32);
    assert(written.take(32) =~= bytes::le_bytes(amount@, 32));
    assert(written.skip(32) =~= rest);
}

/// Writing an amount that was read gives the bytes that it was read from.
pub proof fn fee_amount_bytes_round_trip(amount: FeeAmount, read: Seq<u8>)
    requires
        read.len() == 32,
        amount@ == bytes::le_value(read),
    ensures
        bytes::le_bytes(amount@, 32) == read,
{
    bytes::lemma_le_bytes_of_le_value(read);
}

/// A serialized account has 20 bytes, and reading it gives the account back with
/// whatever was written after it.
pub proof fn fee_account_round_trip(account: FeeAccount, rest: Seq<u8>)
    ensures
        ({
            let written = account@ + rest;
            &&& written.len() >= 20
            &&& written.take(20) == account@
            &&& written.skip(20) == rest
        }),
{
    assert((account@ + rest).take(20) =~= account@);
    assert((account@ + rest).skip(20) =~= rest);
}

/// Two numbers give the same account only where they are the same.
pub proof fn low_accounts_distinct(m: u64, n: u64)
    requires
        low_account(m) == low_account(n),
    ensures
        m == n,
{
    lemma_low_account_address(m);
    lemma_low_account_address(n);
    bytes::lemma_le_bytes_len(m as nat, 8);
    bytes::lemma_le_bytes_len(n as nat, 8);
    assert(low_address(m).skip(12) =~= bytes::le_bytes(m as nat, 8));
    assert(low_address(n).skip(12) =~= bytes::le_bytes(n as nat, 8));
    bytes::lemma_byte_range_values();
    bytes::lemma_le_bytes_injective(m as nat, n as nat, 8);
}

/// In a tree of height 20 or more, no two accounts share a path; every step of a
/// path names one of the 256 children of a node.
pub proof fn traversal_paths_distinct(a: FeeAccount, b: FeeAccount, height: nat)
    requires
        height >= 20,
        traversal_path(a@, height) == traversal_path(b@, height),
    ensures
        a == b,
        traversal_path(a@, height).len() == 20,
        forall|i: int| 0 <= i < 20 ==> #[trigger] traversal_path(a@, height)[i] < 256,
{
    assert forall|i: int| 0 <= i < 20 implies a.0[i] == b.0[i] by {
        assert(traversal_path(a@, height)[i] == a@[i] as usize);
        assert(traversal_path(b@, height)[i] == b@[i] as usize);
    }
    assert(a.0 =~= b.0);
}

} // verus!
