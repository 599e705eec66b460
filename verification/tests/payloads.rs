//! Payloads: the order of their transactions, and their encoding.

use sequencer::merkle::LookupResult;
use sequencer::nmt_serializer::{deserialize, serialize};
use sequencer::payload::{Payload, PayloadError};
use sequencer::transaction::{sort_by_vm, Transaction, VmId};

fn tx(vm: u64, payload: &[u8]) -> Transaction {
    Transaction::new(VmId(vm), payload.to_vec())
}

#[test]
fn transactions_are_grouped_by_vm_in_order() {
    let input = vec![
        tx(3, b"a"),
        tx(1, b"b"),
        tx(3, b"c"),
        tx(2, b"d"),
        tx(1, b"e"),
        tx(1, b"b"),
        tx(u64::MAX, b""),
        tx(0, b"f"),
    ];
    let mut expected = input.clone();
    expected.sort_by_key(|t| t.vm());
    let payload = Payload::from_transactions(input);
    assert_eq!(payload.transactions, expected);
    assert_eq!(
        payload.transactions,
        vec![
            tx(0, b"f"),
            tx(1, b"b"),
            tx(1, b"e"),
            tx(1, b"b"),
            tx(2, b"d"),
            tx(3, b"a"),
            tx(3, b"c"),
            tx(u64::MAX, b""),
        ]
    );
}

#[test]
fn sort_agrees_with_std_on_many_inputs() {
    let mut state = 1u64;
    for n in 0..60 {
        let mut input = vec![];
        for i in 0..n {
            state = state.wrapping_mul(6364136223846793005).wrapping_add(1442695040888963407);
            input.push(tx(state >> 61, &[i as u8]));
        }
        let mut expected = input.clone();
        expected.sort_by_key(|t| t.vm());
        assert_eq!(sort_by_vm(input), expected);
    }
}

#[test]
fn genesis_payload_is_empty() {
    let payload = Payload::genesis();
    assert_eq!(payload.len(), 0);
    assert_eq!(payload.txn_count(), 0);
    assert_eq!(payload.encode().unwrap(), vec![0; 8]);
    assert_eq!(payload.iter().count(), 0);
}

#[test]
fn encoding_is_exact() {
    let payload = Payload { transactions: vec![tx(1, &[7, 8]), tx(0x0203, &[])] };
    let encoded = payload.encode().unwrap();
    let mut expected = vec![2, 0, 0, 0, 0, 0, 0, 0];
    expected.extend_from_slice(&[1, 0, 0, 0, 0, 0, 0, 0]);
    expected.extend_from_slice(&[2, 0, 0, 0, 0, 0, 0, 0, 7, 8]);
    expected.extend_from_slice(&[3, 2, 0, 0, 0, 0, 0, 0]);
    expected.extend_from_slice(&[0, 0, 0, 0, 0, 0, 0, 0]);
    assert_eq!(encoded, expected);
    assert_eq!(
        encoded,
        bincode::serialize(&(vec![(1u64, vec![7u8, 8]), (0x0203, vec![])],)).unwrap()
    );
}

#[test]
fn payload_round_trip() {
    let payload =
        Payload::from_transactions(vec![tx(2, b"two"), tx(1, b""), tx(2, b"more"), tx(0, b"x")]);
    let mut encoded = payload.encode().unwrap();
    assert_eq!(Payload::from_bytes(&encoded).unwrap(), payload);
    // What follows the encoding is not looked at.
    encoded.extend_from_slice(b"trailing");
    assert_eq!(Payload::from_bytes(&encoded).unwrap(), payload);
    let leaves = Payload::decode_leaves(&encoded).unwrap();
    assert_eq!(leaves, serialize(&payload));
    assert_eq!(deserialize::<()>(&leaves, Ok(())).unwrap(), payload);
}

#[test]
fn bytes_that_are_no_payload() {
    let payload = Payload { transactions: vec![tx(1, &[7, 8])] };
    let encoded = payload.encode().unwrap();
    for n in 0..encoded.len() {
        assert_eq!(Payload::from_bytes(&encoded[..n]).unwrap_err(), PayloadError::Encoding);
        assert_eq!(Payload::decode_leaves(&encoded[..n]).unwrap_err(), PayloadError::Encoding);
    }
    assert_eq!(Payload::from_bytes(&[0xff; 100]).unwrap_err(), PayloadError::Encoding);
}

#[test]
fn leaves_that_make_no_tree() {
    let error = deserialize(&vec![(1, vec![])], Err("unsorted")).unwrap_err();
    assert_eq!(error, PayloadError::Tree);
    assert_eq!(
        error.message(),
        Some("Failed to build NMT from serialized leaves".to_string())
    );
    assert_eq!(PayloadError::Encoding.message(), None);
}

#[test]
fn every_transaction_has_an_index() {
    let payload = Payload { transactions: vec![tx(1, b"a"), tx(1, b"b"), tx(2, b"c")] };
    assert_eq!(payload.iter().collect::<Vec<u64>>(), vec![0, 1, 2]);
    assert_eq!(payload.len(), 3);
    assert_eq!(payload.txn_count(), 3);
}

#[test]
fn transactions_are_found_by_index() {
    let payload = Payload::from_transactions(vec![tx(2, b"c"), tx(1, b"a"), tx(1, b"b")]);
    let expected = vec![tx(1, b"a"), tx(1, b"b"), tx(2, b"c")];
    for index in 0..5u64 {
        let lookup: LookupResult<Transaction, u64, ()> =
            match payload.transactions.get(index as usize) {
                Some(t) => LookupResult::Found(t.clone(), index),
                None => LookupResult::NotFound(()),
            };
        let found = Payload::transaction_with_proof(lookup);
        assert_eq!(found.is_some(), payload.iter().contains(&index));
        if let Some((t, proof)) = found {
            assert_eq!((&t, proof), (&expected[index as usize], index));
        }
    }
}

#[test]
fn transaction_of_lookup() {
    let found: LookupResult<Transaction, u8, ()> = LookupResult::Found(tx(1, b"a"), 5);
    assert_eq!(Payload::transaction_with_proof(found), Some((tx(1, b"a"), 5)));
    let missing: LookupResult<Transaction, u8, ()> = LookupResult::NotFound(());
    assert_eq!(Payload::transaction_with_proof(missing), None);
    let forgotten: LookupResult<Transaction, u8, ()> = LookupResult::NotInMemory;
    assert_eq!(Payload::transaction_with_proof(forgotten), None);
}

#[test]
fn commitments_come_in_order() {
    let payload = Payload { transactions: vec![tx(1, b"a"), tx(2, b"bc")] };
    let commitments = payload.transaction_commitments(|t| (t.vm(), t.payload().len()));
    assert_eq!(commitments, vec![(VmId(1), 1), (VmId(2), 2)]);
}
