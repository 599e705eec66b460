//! Fee amounts and accounts, and proofs of balances.

use sequencer::account_proof::{
    FeeAccountProof, FeeMerkleProof, FeeProofError, ProofQuery, RememberAction,
};
use sequencer::builder::fetch_fee_receipts;
use sequencer::fee::{
    can_credit, credit, FeeAccount, FeeAmount, FeeReceipt, SerializationError, FEE_ACCOUNT_SIZE,
    FEE_AMOUNT_SIZE,
};
use sequencer::header::{
    Header, NMTRoot, ValidatedState, BLOCK_MERKLE_TREE_HEIGHT, FEE_MERKLE_TREE_HEIGHT,
};
use sequencer::merkle::{LookupResult, MerkleCommitment};
use sequencer::u256::U256;

fn amount(n: u64) -> FeeAmount {
    FeeAmount(U256::from_u64(n))
}

#[test]
fn amount_is_serialized_in_little_endian() {
    let a = FeeAmount(U256 { words: [0x0102030405060708, 1, 0, 0xff00000000000000] });
    let mut out = vec![9];
    a.serialize_with_mode(&mut out).unwrap();
    let mut expected = vec![9, 8, 7, 6, 5, 4, 3, 2, 1, 1];
    expected.extend_from_slice(&[0; 22]);
    expected.push(0xff);
    assert_eq!(out, expected);
    assert_eq!(a.serialized_size(), 32);
    assert_eq!(out.len() - 1, FEE_AMOUNT_SIZE);
    assert!(a.check().is_ok());
}

#[test]
fn amount_round_trip() {
    for words in [[0, 0, 0, 0], [1, 2, 3, 4], [u64::MAX; 4]] {
        let a = FeeAmount(U256 { words });
        let mut out = vec![];
        a.serialize_with_mode(&mut out).unwrap();
        out.extend_from_slice(&[5, 6]);
        let (b, rest) = FeeAmount::deserialize_with_mode(&out).unwrap();
        assert_eq!(a, b);
        assert_eq!(rest, &[5, 6]);
    }
    assert_eq!(
        FeeAmount::deserialize_with_mode(&[0; 31]).unwrap_err(),
        SerializationError::UnexpectedEof
    );
}

#[test]
fn amount_bytes_round_trip() {
    let mut read = [0; 32];
    for (i, byte) in read.iter_mut().enumerate() {
        *byte = 7 * i as u8;
    }
    let (a, rest) = FeeAmount::deserialize_with_mode(&read).unwrap();
    assert!(rest.is_empty());
    assert_eq!(a.0.words[0], 0x312a231c150e0700);
    let mut out = vec![];
    a.serialize_with_mode(&mut out).unwrap();
    assert_eq!(out, read);
}

#[test]
fn accounts_of_numbers_differ() {
    assert_ne!(FeeAccount::from(1), FeeAccount::from(256));
    assert_ne!(FeeAccount::from(0), FeeAccount::from(1 << 63));
    assert_eq!(FeeAccount::from(0), FeeAccount::default());
}

#[test]
fn account_round_trip() {
    let a = FeeAccount([3; 20]);
    let mut out = vec![];
    a.serialize_with_mode(&mut out).unwrap();
    assert_eq!(out, vec![3; 20]);
    assert_eq!(a.serialized_size(), FEE_ACCOUNT_SIZE);
    out.push(4);
    let (b, rest) = FeeAccount::deserialize_with_mode(&out).unwrap();
    assert_eq!((a, rest), (b, &[4u8][..]));
    assert_eq!(
        FeeAccount::deserialize_with_mode(&[0; 19]).unwrap_err(),
        SerializationError::UnexpectedEof
    );
    assert!(a.check().is_ok());
}

#[test]
fn receipt_is_account_then_amount() {
    let mut bytes = vec![3; 20];
    bytes.push(9);
    bytes.extend_from_slice(&[0; 31]);
    bytes.push(1);
    let (receipt, rest) = FeeReceipt::deserialize_with_mode(&bytes).unwrap();
    assert_eq!(receipt, FeeReceipt { recipient: FeeAccount([3; 20]), amount: amount(9) });
    assert_eq!(rest, &[1]);
    for n in [0, 19, 51] {
        assert_eq!(
            FeeReceipt::deserialize_with_mode(&bytes[..n]).unwrap_err(),
            SerializationError::UnexpectedEof
        );
    }
}

#[test]
fn account_of_number_ends_in_its_bytes() {
    let a = FeeAccount::from(0x0102030405060708u64);
    let mut expected = [0u8; 20];
    expected[12..].copy_from_slice(&[8, 7, 6, 5, 4, 3, 2, 1]);
    assert_eq!(a.0, expected);
    assert_eq!(a.0, ethers::abi::Address::from_low_u64_le(0x0102030405060708).0);
    assert_eq!(FeeAccount::from(0), FeeAccount::default());
}

#[test]
fn traversal_path_is_start_of_address() {
    let mut address = [0u8; 20];
    for (i, byte) in address.iter_mut().enumerate() {
        *byte = 250 + (i as u8) % 5;
    }
    let a = FeeAccount(address);
    assert_eq!(a.to_traversal_path(0), Vec::<usize>::new());
    assert_eq!(a.to_traversal_path(3), vec![250, 251, 252]);
    assert_eq!(a.to_traversal_path(20).len(), 20);
    assert_eq!(a.to_traversal_path(25), a.to_traversal_path(20));
    let mut other = address;
    other[19] = 0;
    let b = FeeAccount(other);
    assert_ne!(
        a.to_traversal_path(FEE_MERKLE_TREE_HEIGHT),
        b.to_traversal_path(FEE_MERKLE_TREE_HEIGHT)
    );
    assert_eq!(a.to_traversal_path(19), b.to_traversal_path(19));
    assert_eq!(BLOCK_MERKLE_TREE_HEIGHT, 32);
}

#[test]
fn credit_adds_to_what_was_found() {
    let found: LookupResult<FeeAmount, (), ()> = LookupResult::Found(amount(3), ());
    assert!(can_credit(&found, amount(4)));
    assert_eq!(credit(&found, amount(4)), amount(7));
    let missing: LookupResult<FeeAmount, (), ()> = LookupResult::NotFound(());
    assert_eq!(credit(&missing, amount(4)), amount(4));
    let forgotten: LookupResult<FeeAmount, (), ()> = LookupResult::NotInMemory;
    assert_eq!(credit(&forgotten, amount(4)), amount(4));
}

#[test]
fn credit_carries_and_stops_at_the_end() {
    let low = FeeAmount(U256 { words: [u64::MAX, u64::MAX, 0, 0] });
    let found: LookupResult<FeeAmount, (), ()> = LookupResult::Found(low, ());
    assert_eq!(credit(&found, amount(1)), FeeAmount(U256 { words: [0, 0, 1, 0] }));
    assert_eq!(low.add(amount(1)), FeeAmount(U256 { words: [0, 0, 1, 0] }));
    let last = FeeAmount(U256 { words: [u64::MAX; 4] });
    let found: LookupResult<FeeAmount, (), ()> = LookupResult::Found(last, ());
    assert!(can_credit(&found, amount(0)));
    assert!(!can_credit(&found, amount(1)));
    assert_eq!(last.0.checked_add(U256::from_u64(1)), None);
    assert_eq!(amount(2).0.checked_add(U256::from_u64(1)), Some(U256::from_u64(3)));
}

#[test]
fn numbers_that_fit_a_word() {
    assert!(U256::from_u64(u64::MAX).fits_u64());
    assert_eq!(U256::from_u64(u64::MAX).as_u64(), u64::MAX);
    assert!(!U256 { words: [0, 0, 0, 1] }.fits_u64());
    let mut bytes = [0u8; 32];
    bytes[31] = 2;
    assert_eq!(U256::from_le_bytes(&bytes), U256 { words: [0, 0, 0, 2 << 56] });
    assert_eq!(U256::from_le_bytes(&bytes).to_le_bytes(), bytes);
    assert_eq!(U256::default(), U256::from_u64(0));
}

#[test]
fn one_receipt_of_nothing_is_fetched() {
    let header = Header::genesis(
        [0; 32],
        NMTRoot { root: vec![] },
        MerkleCommitment { bytes: vec![] },
        MerkleCommitment { bytes: vec![] },
        ValidatedState { block_merkle_tree: (), fee_merkle_tree: () },
    );
    let receipts = fetch_fee_receipts(&header);
    assert_eq!(receipts, vec![FeeReceipt::default()]);
    assert_eq!(receipts[0].recipient, FeeAccount([0; 20]));
    assert_eq!(receipts[0].amount, amount(0));
}

type Proof = FeeAccountProof<&'static str, u8>;

#[test]
fn proof_of_balance() {
    let lookup = LookupResult::Found(amount(5), "member");
    let (balance, proof): (U256, Proof) = FeeAccountProof::prove(lookup, [1; 20]).unwrap();
    assert_eq!(balance, U256::from_u64(5));
    assert_eq!(proof.proof, FeeMerkleProof::Presence("member"));
    assert_eq!(proof.query(), ProofQuery::Membership(FeeAccount([1; 20]), &"member"));
    assert_eq!(proof.verify::<()>(Ok(true), Some(amount(5))), Ok(balance));
    assert_eq!(
        proof.remember::<()>(Some(amount(5))),
        Ok(RememberAction::Remember(FeeAccount([1; 20]), amount(5), &"member"))
    );
}

#[test]
fn proof_of_absence_gives_nothing() {
    let lookup = LookupResult::NotFound(8);
    let (balance, proof): (U256, Proof) = FeeAccountProof::prove(lookup, [1; 20]).unwrap();
    assert_eq!(balance, U256::from_u64(0));
    assert_eq!(proof.proof, FeeMerkleProof::Absence(8));
    assert_eq!(proof.query(), ProofQuery::NonMembership(FeeAccount([1; 20]), &8));
    assert_eq!(proof.verify::<()>(Ok(true), None), Ok(balance));
    assert_eq!(
        proof.remember::<()>(None),
        Ok(RememberAction::RememberAbsence(FeeAccount([1; 20]), &8))
    );
}

#[test]
fn forgotten_account_has_no_proof() {
    let lookup: LookupResult<FeeAmount, &'static str, u8> = LookupResult::NotInMemory;
    assert_eq!(FeeAccountProof::prove(lookup, [1; 20]), None);
}

#[test]
fn refused_proofs() {
    let presence: Proof =
        FeeAccountProof { account: [1; 20], proof: FeeMerkleProof::Presence("member") };
    let absence: Proof = FeeAccountProof { account: [1; 20], proof: FeeMerkleProof::Absence(8) };
    for proof in [&presence, &absence] {
        assert_eq!(proof.verify(Err("tree"), Some(amount(1))), Err(FeeProofError::Tree("tree")));
        let refused = proof.verify::<()>(Ok(false), Some(amount(1))).unwrap_err();
        assert_eq!(refused, FeeProofError::InvalidProof);
        assert_eq!(refused.message(), Some("invalid proof".to_string()));
    }
    let missing = presence.verify::<()>(Ok(true), None).unwrap_err();
    assert_eq!(missing, FeeProofError::MissingBalance);
    assert_eq!(presence.remember::<()>(None), Err(FeeProofError::MissingBalance));
    assert_eq!(
        missing.message(),
        Some("presence proof is missing account balance".to_string())
    );
    assert_eq!(FeeProofError::Tree(1).message(), None);
}

/// A stand-in for a fee tree of one account, which may have forgotten it. Its proofs
/// are the balance itself, and that there is none.
struct OneAccount {
    remembered: Option<Option<FeeAmount>>,
}

type PlainProof = FeeAccountProof<FeeAmount, ()>;

impl OneAccount {
    fn prove(&self) -> Option<(U256, PlainProof)> {
        let lookup = match self.remembered {
            Some(Some(balance)) => LookupResult::Found(balance, balance),
            Some(None) => LookupResult::NotFound(()),
            None => LookupResult::NotInMemory,
        };
        FeeAccountProof::prove(lookup, [1; 20])
    }

    fn remember(&mut self, proof: &PlainProof, elem: Option<FeeAmount>) -> Result<(), ()> {
        match proof.remember::<()>(elem) {
            Ok(RememberAction::Remember(account, balance, held)) => {
                assert_eq!((account, balance), (FeeAccount([1; 20]), *held));
                self.remembered = Some(Some(balance));
                Ok(())
            }
            Ok(RememberAction::RememberAbsence(account, _)) => {
                assert_eq!(account, FeeAccount([1; 20]));
                self.remembered = Some(None);
                Ok(())
            }
            Err(_) => Err(()),
        }
    }
}

#[test]
fn remembering_undoes_forgetting() {
    for held in [Some(amount(5)), None] {
        let (balance, proof) = OneAccount { remembered: Some(held) }.prove().unwrap();
        let mut tree = OneAccount { remembered: None };
        assert_eq!(tree.prove(), None);
        assert_eq!(tree.remember(&proof, held), Ok(()));
        assert_eq!(tree.prove(), Some((balance, proof)));
    }
}

#[test]
fn proof_without_balance_leaves_tree_alone() {
    let (_, proof) = OneAccount { remembered: Some(Some(amount(5))) }.prove().unwrap();
    let mut tree = OneAccount { remembered: None };
    assert_eq!(tree.remember(&proof, None), Err(()));
    assert_eq!(tree.remembered, None);
}

#[test]
fn accepted_proofs_agree() {
    let tree = OneAccount { remembered: Some(Some(amount(5))) };
    let (balance, proved) = tree.prove().unwrap();
    // A proof from elsewhere, of another balance, which the tree refuses.
    let forged: PlainProof =
        FeeAccountProof { account: [1; 20], proof: FeeMerkleProof::Presence(amount(6)) };
    let verdict = |p: &PlainProof| match p.query() {
        ProofQuery::Membership(_, held) => Ok::<bool, ()>(tree.remembered == Some(Some(*held))),
        ProofQuery::NonMembership(..) => Ok(tree.remembered == Some(None)),
    };
    assert_eq!(proved.verify(verdict(&proved), Some(amount(5))), Ok(balance));
    assert_eq!(
        forged.verify(verdict(&forged), Some(amount(6))),
        Err(FeeProofError::InvalidProof)
    );
    let copy = proved.clone();
    assert_eq!(copy.verify(verdict(&copy), Some(amount(5))), Ok(balance));
}
