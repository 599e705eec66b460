//! Commitments to reference objects, which other implementations of the commitment
//! scheme can be held against.

use committable::{Commitment, Committable, RawCommitmentBuilder};
use sequencer::header::{Header, NMTRoot, ValidatedState};
use sequencer::l1::L1BlockInfo;
use sequencer::merkle::MerkleCommitment;
use sequencer::u256::U256;

struct NmtRootTag;
struct L1BlockTag;
struct HeaderTag;

impl Committable for NmtRootTag {
    fn commit(&self) -> Commitment<Self> {
        Commitment::from_raw(nmt_root().commit().bytes)
    }
    fn tag() -> String {
        NMTRoot::tag()
    }
}

impl Committable for L1BlockTag {
    fn commit(&self) -> Commitment<Self> {
        Commitment::from_raw(l1_block().commit().bytes)
    }
    fn tag() -> String {
        "L1BLOCK".to_string()
    }
}

impl Committable for HeaderTag {
    fn commit(&self) -> Commitment<Self> {
        Commitment::from_raw(header().commit().bytes)
    }
    fn tag() -> String {
        Header::<(), ()>::tag()
    }
}

fn hex(s: &str) -> Vec<u8> {
    (0..s.len() / 2).map(|i| u8::from_str_radix(&s[2 * i..2 * i + 2], 16).unwrap()).collect()
}

fn hex32(s: &str) -> [u8; 32] {
    hex(s).try_into().unwrap()
}

fn nmt_root() -> NMTRoot {
    NMTRoot { root: vec![0; 48] }
}

fn l1_block() -> L1BlockInfo {
    L1BlockInfo {
        number: 123,
        timestamp: U256::from_u64(0x456),
        hash: hex32("0123456789abcdef0123456789abcdef0123456789abcdef0123456789abcdef"),
    }
}

fn header() -> Header<(), ()> {
    Header {
        height: 42,
        timestamp: 789,
        l1_head: 124,
        l1_finalized: Some(l1_block()),
        payload_commitment: hex32(
            "d724be284b4bde80d90c125db16e753ddef3cb02221deb0166c4dba4ecebc4e7",
        ),
        transactions_root: nmt_root(),
        block_merkle_tree_root: MerkleCommitment {
            bytes: hex(concat_hex(
                "c81e3f02a6b7e7f3e8b24813a5c091d6854b87a05474b1c8b3b7ab1ca5a2faeb",
                "14000000000000000100000000000000",
            )
            .as_str()),
        },
        fee_merkle_tree_root: MerkleCommitment {
            bytes: hex(concat_hex(
                "549f73db7f5a3fd1990eb1e9dd5c703ddff4976f07739284001d6915e088c616",
                "20000000000000000200000000000000",
            )
            .as_str()),
        },
        validated_state: ValidatedState { block_merkle_tree: (), fee_merkle_tree: () },
    }
}

fn concat_hex(a: &str, b: &str) -> String {
    format!("{a}{b}")
}

fn reference_test<C: Committable>(object: C, expected: &str) {
    let actual = object.commit();
    assert_eq!(actual, expected.parse().unwrap());
    assert_eq!(actual.to_string(), expected);
}

#[test]
fn test_reference_nmt_root() {
    reference_test(NmtRootTag, "NMTROOT~-1Dow1sCihLw5x-sNsxaKtcqSLsPHIBDlXUacug5vgpx");
}

#[test]
fn test_reference_l1_block() {
    reference_test(L1BlockTag, "L1BLOCK~4HpzluLK2Isz3RdPNvNrDAyQcWOF2c9JeLZzVNLmfpQ9");
}

#[test]
fn test_reference_header() {
    reference_test(HeaderTag, "BLOCK~1F_cwBMF2HLjz71KagS4CZTlUhOdLwu9FHnK1Ni4uwAB");
}

/// The commitment to a header by the builder of the `committable` crate.
fn committable_header(header: &Header<(), ()>) -> Commitment<HeaderTag> {
    let builder = RawCommitmentBuilder::<HeaderTag>::new("BLOCK")
        .u64_field("height", header.height)
        .u64_field("timestamp", header.timestamp)
        .u64_field("l1_head", header.l1_head);
    let builder = match header.l1_finalized {
        Some(block) => builder.field(
            "l1_finalized",
            Commitment::<L1BlockTag>::from_raw(block.commit().bytes),
        ),
        None => builder.optional::<L1BlockTag>("l1_finalized", &None),
    };
    builder
        .constant_str("payload_commitment")
        .fixed_size_bytes(&header.payload_commitment)
        .field(
            "transactions_root",
            Commitment::<NmtRootTag>::from_raw(header.transactions_root.commit().bytes),
        )
        .var_size_field("block_merkle_tree_root", &header.block_merkle_tree_root.bytes)
        .var_size_field("fee_merkle_tree_root", &header.fee_merkle_tree_root.bytes)
        .finalize()
}

#[test]
fn header_commitment_is_that_of_committable() {
    let with_block = header();
    assert_eq!(committable_header(&with_block), HeaderTag.commit());

    let mut without_block = header();
    without_block.l1_finalized = None;
    assert_eq!(
        committable_header(&without_block),
        Commitment::from_raw(without_block.commit().bytes)
    );
    assert_ne!(without_block.commit(), with_block.commit());
}

#[test]
fn l1_block_and_root_commitments_are_those_of_committable() {
    let block = l1_block();
    let mut timestamp = [0u8; 32];
    timestamp[0] = 0x56;
    timestamp[1] = 0x04;
    let expected = RawCommitmentBuilder::<L1BlockTag>::new("L1BLOCK")
        .u64_field("number", 123)
        .constant_str("timestamp")
        .fixed_size_bytes(&timestamp)
        .constant_str("hash")
        .fixed_size_bytes(&block.hash)
        .finalize();
    assert_eq!(expected, L1BlockTag.commit());

    let root = NMTRoot { root: vec![1, 2, 3] };
    let expected = RawCommitmentBuilder::<NmtRootTag>::new("NMTROOT")
        .var_size_field("root", &[1, 2, 3])
        .finalize();
    assert_eq!(expected, Commitment::from_raw(root.commit().bytes));
}

#[test]
fn header_commitment_depends_on_every_field() {
    let base = header().commit();
    let mut changed = header();
    changed.height += 1;
    assert_ne!(changed.commit(), base);
    let mut changed = header();
    changed.timestamp += 1;
    assert_ne!(changed.commit(), base);
    let mut changed = header();
    changed.l1_head += 1;
    assert_ne!(changed.commit(), base);
    let mut changed = header();
    changed.payload_commitment[0] ^= 1;
    assert_ne!(changed.commit(), base);
    let mut changed = header();
    changed.transactions_root.root[47] = 1;
    assert_ne!(changed.commit(), base);
    let mut changed = header();
    changed.block_merkle_tree_root.bytes.push(0);
    assert_ne!(changed.commit(), base);
    let mut changed = header();
    changed.fee_merkle_tree_root.bytes.pop();
    assert_ne!(changed.commit(), base);
}

#[test]
fn header_commitment_shows_whether_there_is_an_l1_block() {
    let mut none = header();
    none.l1_finalized = None;
    let mut some = header();
    some.l1_finalized = Some(l1_block());
    assert_ne!(none.commit(), some.commit());
}

#[test]
fn header_commitment_ignores_state() {
    let with_state = |state: u8| Header {
        height: 1,
        timestamp: 2,
        l1_head: 3,
        l1_finalized: None,
        payload_commitment: [4; 32],
        transactions_root: nmt_root(),
        block_merkle_tree_root: MerkleCommitment { bytes: vec![5] },
        fee_merkle_tree_root: MerkleCommitment { bytes: vec![6] },
        validated_state: ValidatedState { block_merkle_tree: state, fee_merkle_tree: state },
    };
    assert_ne!(with_state(0), with_state(1));
    assert_eq!(with_state(0).commit(), with_state(1).commit());
}
