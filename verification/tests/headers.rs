//! Headers: how one follows another, and how a proposed one is checked.

use sequencer::builder::{HeaderAction, HeaderBuilder, HeaderEvent};
use sequencer::commitment::Commitment;
use sequencer::fee::{FeeAccount, FeeAmount, FeeReceipt};
use sequencer::genesis::first_block;
use sequencer::header::{timestamp_of_clock, Header, NMTRoot, ValidatedState};
use sequencer::l1::{L1BlockInfo, L1Snapshot};
use sequencer::merkle::{LookupResult, MerkleCommitment};
use sequencer::payload::Payload;
use sequencer::proposal::{
    check_height, height_error_message, root_error_message, validate_proposal, ProposalError,
};
use sequencer::u256::U256;

/// A stand-in for the tree of all block headers: its leaves.
type BlockTree = Vec<Commitment>;

/// A stand-in for the tree of all fee balances: its entries.
type FeeTree = Vec<(FeeAccount, FeeAmount)>;

fn block_root(tree: &BlockTree) -> MerkleCommitment {
    let mut bytes = vec![32u8];
    for leaf in tree {
        bytes.extend_from_slice(&leaf.bytes);
    }
    MerkleCommitment { bytes }
}

fn fee_root(tree: &FeeTree) -> MerkleCommitment {
    let mut bytes = vec![20u8];
    for (account, amount) in tree {
        account.serialize_with_mode(&mut bytes).unwrap();
        amount.serialize_with_mode(&mut bytes).unwrap();
    }
    MerkleCommitment { bytes }
}

fn fee_lookup(tree: &FeeTree, account: FeeAccount) -> LookupResult<FeeAmount, (), ()> {
    match tree.iter().find(|(a, _)| *a == account) {
        Some((_, amount)) => LookupResult::Found(*amount, ()),
        None => LookupResult::NotFound(()),
    }
}

fn fee_update(tree: &mut FeeTree, account: FeeAccount, amount: FeeAmount) {
    match tree.iter_mut().find(|(a, _)| *a == account) {
        Some(entry) => entry.1 = amount,
        None => tree.push((account, amount)),
    }
}

fn genesis() -> Header<BlockTree, FeeTree> {
    let (block_tree, fee_tree) = (BlockTree::new(), FeeTree::new());
    Header::genesis(
        [7; 32],
        NMTRoot { root: vec![0; 48] },
        block_root(&block_tree),
        fee_root(&fee_tree),
        ValidatedState { block_merkle_tree: block_tree, fee_merkle_tree: fee_tree },
    )
}

#[derive(Debug, Default)]
struct TestCase {
    // Parent header info.
    parent_timestamp: u64,
    parent_l1_head: u64,
    parent_l1_finalized: Option<L1BlockInfo>,

    // Environment at the time the new header is created.
    l1_head: u64,
    l1_finalized: Option<L1BlockInfo>,
    timestamp: u64,

    // Expected new header info.
    expected_timestamp: u64,
    expected_l1_head: u64,
    expected_l1_finalized: Option<L1BlockInfo>,
}

impl TestCase {
    fn run(self) {
        // Check test case validity.
        assert!(self.expected_timestamp >= self.parent_timestamp);
        assert!(self.expected_l1_head >= self.parent_l1_head);
        assert!(self.expected_l1_finalized >= self.parent_l1_finalized);

        let genesis = genesis();

        let mut parent = genesis.clone();
        parent.timestamp = self.parent_timestamp;
        parent.l1_head = self.parent_l1_head;
        parent.l1_finalized = self.parent_l1_finalized;
        let block_merkle_tree = BlockTree::new();
        let block_merkle_tree_root = block_root(&block_merkle_tree);

        let FeeReceipt { recipient, amount } = FeeReceipt::default();
        let fee_merkle_tree = vec![(recipient, amount)];
        let fee_merkle_tree_root = fee_root(&fee_merkle_tree);

        let validated_state = ValidatedState { block_merkle_tree, fee_merkle_tree };

        let l1 = L1Snapshot { head: self.l1_head, finalized: self.l1_finalized };
        assert!(Header::can_follow(&parent, Some(l1)));
        let header = Header::from_info(
            genesis.payload_commitment,
            genesis.transactions_root,
            &parent,
            l1,
            self.timestamp,
            block_merkle_tree_root,
            fee_merkle_tree_root,
            validated_state,
        );
        assert_eq!(header.height, parent.height + 1);
        assert_eq!(header.timestamp, self.expected_timestamp);
        assert_eq!(header.l1_head, self.expected_l1_head);
        assert_eq!(header.l1_finalized, self.expected_l1_finalized);
        assert_eq!(header.validated_state.block_merkle_tree, BlockTree::new());
    }
}

fn l1_block(number: u64) -> L1BlockInfo {
    L1BlockInfo { number, ..Default::default() }
}

#[test]
fn test_new_header() {
    // Simplest case: building on genesis, L1 info and timestamp unchanged.
    TestCase::default().run()
}

#[test]
fn test_new_header_advance_timestamp() {
    TestCase { timestamp: 1, expected_timestamp: 1, ..Default::default() }.run()
}

#[test]
fn test_new_header_advance_l1_block() {
    TestCase {
        parent_l1_head: 0,
        parent_l1_finalized: Some(l1_block(0)),

        l1_head: 1,
        l1_finalized: Some(l1_block(1)),

        expected_l1_head: 1,
        expected_l1_finalized: Some(l1_block(1)),

        ..Default::default()
    }
    .run()
}

#[test]
fn test_new_header_advance_l1_finalized_from_none() {
    TestCase {
        l1_finalized: Some(l1_block(1)),
        expected_l1_finalized: Some(l1_block(1)),
        ..Default::default()
    }
    .run()
}

#[test]
fn test_new_header_timestamp_behind_finalized_l1_block() {
    let l1_finalized = Some(L1BlockInfo {
        number: 1,
        timestamp: U256::from_u64(1),
        ..Default::default()
    });
    TestCase {
        l1_head: 1,
        l1_finalized,
        timestamp: 0,

        expected_l1_head: 1,
        expected_l1_finalized: l1_finalized,
        expected_timestamp: 1,

        ..Default::default()
    }
    .run()
}

#[test]
fn test_new_header_timestamp_behind() {
    TestCase {
        parent_timestamp: 1,
        timestamp: 0,
        expected_timestamp: 1,

        ..Default::default()
    }
    .run()
}

#[test]
fn test_new_header_l1_head_behind() {
    TestCase {
        parent_l1_head: 1,
        l1_head: 0,
        expected_l1_head: 1,

        ..Default::default()
    }
    .run()
}

#[test]
fn test_new_header_l1_finalized_behind_some() {
    TestCase {
        parent_l1_finalized: Some(l1_block(1)),
        l1_finalized: Some(l1_block(0)),
        expected_l1_finalized: Some(l1_block(1)),

        ..Default::default()
    }
    .run()
}

#[test]
fn test_new_header_l1_finalized_behind_none() {
    TestCase {
        parent_l1_finalized: Some(l1_block(0)),
        l1_finalized: None,
        expected_l1_finalized: Some(l1_block(0)),

        ..Default::default()
    }
    .run()
}

/// What a proposal is refused for, as it is shown.
fn shown(error: ProposalError) -> String {
    match &error {
        ProposalError::InvalidHeight { .. } => error.message("", ""),
        ProposalError::InvalidRoot { expected, proposed } => error.message(
            &format!("{:?}", expected.bytes),
            &format!("{:?}", proposed.bytes),
        ),
    }
}

/// The check of a proposal, with the trees that a node has at hand.
fn check(
    parent: &Header<BlockTree, FeeTree>,
    proposal: &Header<BlockTree, FeeTree>,
) -> Result<BlockTree, ProposalError> {
    let commitment = check_height(parent, proposal)?;
    let mut tree = parent.validated_state.block_merkle_tree.clone();
    tree.push(commitment);
    let root = block_root(&tree);
    validate_proposal(parent, proposal, tree, &root)
}

/// A parent whose block tree has been populated with an initial push.
fn populated_parent() -> Header<BlockTree, FeeTree> {
    let mut header = genesis();
    let mut block_merkle_tree = header.validated_state.block_merkle_tree.clone();
    block_merkle_tree.push(header.commit());
    let block_merkle_tree_root = block_root(&block_merkle_tree);
    header.validated_state.block_merkle_tree = block_merkle_tree;
    header.block_merkle_tree_root = block_merkle_tree_root;
    header
}

#[test]
fn test_validate_proposal_error_cases() {
    let parent = populated_parent();
    let mut proposal = parent.clone();

    // Advance `proposal.height` to trigger validation error.
    let result = check(&parent, &proposal).unwrap_err();
    assert_eq!(result, ProposalError::InvalidHeight { parent: 0, proposal: 0 });
    assert_eq!(shown(result), "Invalid Height Error: 0, 0");
    assert_eq!(
        validate_proposal(&parent, &proposal, BlockTree::new(), &block_root(&vec![])).unwrap_err(),
        ProposalError::InvalidHeight { parent: 0, proposal: 0 }
    );

    // proposed `Header` root should include parent + parent.commit
    proposal.height += 1;
    let result = check(&parent, &proposal).unwrap_err();
    // Fails b/c `proposal` has not advanced from `parent`
    assert!(matches!(result, ProposalError::InvalidRoot { .. }));
    assert!(shown(result).contains("Invalid Root Error"));
}

#[test]
fn test_validate_proposal_success() {
    let parent = populated_parent();

    // get a proposal from a parent
    let proposal = build(&parent, HeaderBuilder::new(&parent), None, 0);

    let mut block_merkle_tree = proposal.validated_state.block_merkle_tree.clone();
    block_merkle_tree.push(proposal.commit());
    let result = check(&parent, &proposal).unwrap();
    assert_eq!(block_root(&result), proposal.block_merkle_tree_root);
}

/// Builds a header, with the trees that a node has at hand.
fn build(
    parent: &Header<BlockTree, FeeTree>,
    mut builder: HeaderBuilder<BlockTree, FeeTree>,
    l1: Option<L1Snapshot>,
    clock: i64,
) -> Header<BlockTree, FeeTree> {
    let mut state = parent.validated_state.clone();
    loop {
        let event = match builder.action() {
            HeaderAction::PushBlock(commitment) => {
                assert_eq!(commitment, parent.commit());
                state.block_merkle_tree.push(commitment);
                HeaderEvent::BlockPushed(block_root(&state.block_merkle_tree))
            }
            HeaderAction::LookupFee(account) => {
                HeaderEvent::FeeLookedUp(fee_lookup(&state.fee_merkle_tree, account))
            }
            HeaderAction::UpdateFee(account, amount) => {
                fee_update(&mut state.fee_merkle_tree, account, amount);
                HeaderEvent::FeeUpdated
            }
            HeaderAction::CommitFees => {
                HeaderEvent::FeesCommitted(fee_root(&state.fee_merkle_tree))
            }
            HeaderAction::SnapshotL1 => HeaderEvent::L1Read(l1),
            HeaderAction::ReadClock => HeaderEvent::ClockRead(clock),
            HeaderAction::Finish => break,
        };
        assert!(builder.accepts(&event));
        assert!(!builder.is_ready());
        builder = builder.step(event);
    }
    assert!(builder.is_ready());
    assert!(builder.can_finish());
    builder.finish(parent.payload_commitment, parent.transactions_root.clone(), state)
}

fn account(n: u64) -> FeeAccount {
    FeeAccount::from(n)
}

fn amount(n: u64) -> FeeAmount {
    FeeAmount(U256::from_u64(n))
}

#[test]
fn built_header_follows_parent() {
    let mut parent = genesis();
    parent.timestamp = 100;
    parent.l1_head = 5;
    let block = L1BlockInfo { number: 3, timestamp: U256::from_u64(150), hash: [1; 32] };
    let l1 = Some(L1Snapshot { head: 9, finalized: Some(block) });
    let header = build(&parent, HeaderBuilder::new(&parent), l1, 120);
    assert_eq!(header.height, 1);
    assert_eq!(header.block_number(), 1);
    assert_eq!(header.timestamp, 150);
    assert_eq!(header.l1_head, 9);
    assert_eq!(header.l1_finalized, Some(block));
    assert_eq!(header.payload_commitment(), [7; 32]);
    assert_eq!(header.metadata(), &NMTRoot { root: vec![0; 48] });
    assert_eq!(header.validated_state.block_merkle_tree, vec![parent.commit()]);
    // The one receipt is of nothing, for the zero account.
    assert_eq!(
        header.validated_state.fee_merkle_tree,
        vec![(FeeAccount::default(), FeeAmount::default())]
    );
    assert_eq!(
        header.block_merkle_tree_root,
        block_root(&header.validated_state.block_merkle_tree)
    );
    assert_eq!(header.fee_merkle_tree_root, fee_root(&header.validated_state.fee_merkle_tree));
}

#[test]
fn without_l1_client_l1_has_no_blocks() {
    let parent = genesis();
    let header = build(&parent, HeaderBuilder::new(&parent), None, 42);
    assert_eq!(header.l1_head, 0);
    assert_eq!(header.l1_finalized, None);
    assert_eq!(header.timestamp, 42);
}

#[test]
fn chain_never_goes_back() {
    let mut chain = vec![genesis()];
    for (head, number, clock) in [(5, 3, 10), (4, 2, 7), (6, 3, 20), (0, 1, 0)] {
        let parent = chain.last().unwrap().clone();
        let l1 = Some(L1Snapshot { head, finalized: Some(l1_block(number)) });
        chain.push(build(&parent, HeaderBuilder::new(&parent), l1, clock));
    }
    let heights: Vec<u64> = chain.iter().map(|h| h.height).collect();
    let timestamps: Vec<u64> = chain.iter().map(|h| h.timestamp).collect();
    let heads: Vec<u64> = chain.iter().map(|h| h.l1_head).collect();
    let finalized: Vec<Option<u64>> =
        chain.iter().map(|h| h.l1_finalized.map(|b| b.number)).collect();
    assert_eq!(heights, vec![0, 1, 2, 3, 4]);
    assert_eq!(timestamps, vec![0, 10, 10, 20, 20]);
    assert_eq!(heads, vec![0, 5, 5, 6, 6]);
    assert_eq!(finalized, vec![None, Some(3), Some(3), Some(3), Some(3)]);
    for pair in chain.windows(2) {
        assert!(check(&pair[0], &pair[1]).is_ok());
    }
    assert_eq!(chain[4].validated_state.block_merkle_tree.len(), 4);
}

#[test]
fn block_tree_holds_all_earlier_headers() {
    let mut chain = vec![genesis()];
    for clock in [10, 20, 30] {
        let parent = chain.last().unwrap().clone();
        chain.push(build(&parent, HeaderBuilder::new(&parent), None, clock));
    }
    let commitments: Vec<Commitment> = chain.iter().map(|h| h.commit()).collect();
    for (j, header) in chain.iter().enumerate() {
        assert_eq!(header.height, j as u64);
        assert_eq!(header.validated_state.block_merkle_tree, commitments[..j]);
    }
}

#[test]
fn roots_commit_to_carried_state() {
    // The parent's own roots match nothing.
    let mut parent = genesis();
    parent.block_merkle_tree_root = MerkleCommitment { bytes: vec![1] };
    parent.fee_merkle_tree_root = MerkleCommitment { bytes: vec![2] };
    parent.validated_state.fee_merkle_tree = vec![(account(1), amount(10))];
    let receipt = FeeReceipt { recipient: account(1), amount: amount(5) };
    let builder = HeaderBuilder::with_receipts(&parent, vec![receipt]);
    let header = build(&parent, builder, None, 0);
    assert_eq!(header.block_merkle_tree_root, block_root(&vec![parent.commit()]));
    assert_eq!(header.fee_merkle_tree_root, fee_root(&vec![(account(1), amount(15))]));
}

#[test]
fn receipts_add_up_in_fee_tree() {
    let mut parent = genesis();
    parent.validated_state.fee_merkle_tree = vec![(account(1), amount(10))];
    let receipts = vec![
        FeeReceipt { recipient: account(1), amount: amount(5) },
        FeeReceipt { recipient: account(2), amount: amount(7) },
        FeeReceipt { recipient: account(1), amount: amount(1) },
        FeeReceipt { recipient: account(2), amount: amount(2) },
    ];
    let builder = HeaderBuilder::with_receipts(&parent, receipts);
    let header = build(&parent, builder, None, 0);
    assert_eq!(
        header.validated_state.fee_merkle_tree,
        vec![(account(1), amount(16)), (account(2), amount(9))]
    );
}

#[test]
fn no_receipts_leave_fee_tree_alone() {
    let mut parent = genesis();
    parent.validated_state.fee_merkle_tree = vec![(account(1), amount(10))];
    let header = build(&parent, HeaderBuilder::with_receipts(&parent, vec![]), None, 0);
    assert_eq!(header.validated_state.fee_merkle_tree, vec![(account(1), amount(10))]);
}

#[test]
fn builder_accepts_answers_to_its_action_only() {
    let parent = genesis();
    let receipt = FeeReceipt { recipient: account(1), amount: amount(1) };
    let builder = HeaderBuilder::with_receipts(&parent, vec![receipt]);
    assert!(!builder.accepts(&HeaderEvent::FeeUpdated));
    assert!(!builder.accepts(&HeaderEvent::ClockRead(0)));
    assert!(!builder.can_finish());
    let builder = builder.step(HeaderEvent::BlockPushed(block_root(&vec![])));
    assert_eq!(builder.action(), HeaderAction::LookupFee(account(1)));
    assert!(!builder.accepts(&HeaderEvent::L1Read(None)));
    let full = FeeAmount(U256 { words: [u64::MAX; 4] });
    // The balance has no room for the receipt.
    assert!(!builder.accepts(&HeaderEvent::FeeLookedUp(LookupResult::Found(full, ()))));
    assert!(builder.accepts(&HeaderEvent::FeeLookedUp(LookupResult::NotInMemory)));
    let builder = builder.step(HeaderEvent::FeeLookedUp(LookupResult::NotInMemory));
    assert_eq!(builder.action(), HeaderAction::UpdateFee(account(1), amount(1)));
}

#[test]
fn header_that_cannot_follow() {
    let mut parent = genesis();
    parent.height = u64::MAX;
    assert!(!Header::can_follow(&parent, None));
    let parent = genesis();
    let late = L1BlockInfo { number: 1, timestamp: U256 { words: [0, 1, 0, 0] }, hash: [0; 32] };
    assert!(!Header::can_follow(&parent, Some(L1Snapshot { head: 1, finalized: Some(late) })));
    assert!(Header::can_follow(&parent, None));
    let builder = HeaderBuilder::with_receipts(&parent, vec![])
        .step(HeaderEvent::BlockPushed(block_root(&vec![])))
        .step(HeaderEvent::FeesCommitted(fee_root(&vec![])))
        .step(HeaderEvent::L1Read(Some(L1Snapshot { head: 1, finalized: Some(late) })))
        .step(HeaderEvent::ClockRead(0));
    assert!(builder.is_ready());
    assert!(!builder.can_finish());
}

#[test]
fn new_header_reads_clock_and_client() {
    let parent = genesis();
    let header = Header::new(
        [1; 32],
        NMTRoot { root: vec![2] },
        &parent,
        Some(L1Snapshot { head: 3, finalized: None }),
        4,
        MerkleCommitment { bytes: vec![5] },
        MerkleCommitment { bytes: vec![6] },
        parent.validated_state.clone(),
    );
    assert_eq!((header.height, header.timestamp, header.l1_head), (1, 4, 3));
    assert_eq!(header.fee_merkle_tree_root.bytes, vec![5]);
    assert_eq!(header.block_merkle_tree_root.bytes, vec![6]);
}

#[test]
fn clock_before_1970_wraps() {
    assert_eq!(timestamp_of_clock(0), 0);
    assert_eq!(timestamp_of_clock(i64::MAX), i64::MAX as u64);
    assert_eq!(timestamp_of_clock(-1), u64::MAX);
    assert_eq!(timestamp_of_clock(i64::MIN), i64::MIN as u64);
}

#[test]
fn first_block_starts_empty() {
    // A tree of the stand-ins starts with its height, so heights show in the roots.
    let (header, payload, metadata) = first_block(
        |payload: &Payload| NMTRoot { root: vec![payload.len() as u8; 48] },
        |encoded: &Vec<u8>, nodes: usize| {
            let mut commitment = [9; 32];
            commitment[..8].copy_from_slice(encoded);
            commitment[8] = nodes as u8;
            commitment
        },
        |height: usize| (height, BlockTree::new()),
        |tree: &(usize, BlockTree)| {
            MerkleCommitment { bytes: vec![0, tree.0 as u8, tree.1.len() as u8] }
        },
        |height: usize| (height, FeeTree::new()),
        |tree: &(usize, FeeTree)| {
            MerkleCommitment { bytes: vec![1, tree.0 as u8, tree.1.len() as u8] }
        },
    );
    assert_eq!((header.height, header.timestamp, header.l1_head), (0, 0, 0));
    assert_eq!(header.l1_finalized, None);
    assert_eq!(payload, Payload::genesis());
    assert_eq!(metadata, NMTRoot { root: vec![0; 48] });
    assert_eq!(header.metadata(), &metadata);
    let mut commitment = [9; 32];
    commitment[..9].copy_from_slice(&[0, 0, 0, 0, 0, 0, 0, 0, 1]);
    assert_eq!(header.payload_commitment(), commitment);
    assert_eq!(header.block_merkle_tree_root.bytes, vec![0, 32, 0]);
    assert_eq!(header.fee_merkle_tree_root.bytes, vec![1, 20, 0]);
    assert_eq!(header.validated_state.block_merkle_tree, (32, vec![]));
    assert_eq!(header.validated_state.fee_merkle_tree, (20, vec![]));
}

#[test]
fn genesis_header_is_fixed() {
    let header = genesis();
    assert_eq!((header.height, header.timestamp, header.l1_head), (0, 0, 0));
    assert_eq!(header.l1_finalized, None);
    assert_eq!(genesis().commit(), header.commit());
}

#[test]
fn error_messages() {
    let height = ProposalError::InvalidHeight { parent: 7, proposal: 10 };
    assert_eq!(height.message("a", "b"), "Invalid Height Error: 7, 10");
    let root = ProposalError::InvalidRoot {
        expected: MerkleCommitment { bytes: vec![1] },
        proposed: MerkleCommitment { bytes: vec![2] },
    };
    assert_eq!(root.message("a", "b"), "Invalid Root Error: a, b");
    assert_eq!(
        height_error_message(18446744073709551615, 10),
        "Invalid Height Error: 18446744073709551615, 10"
    );
    assert_eq!(root_error_message("a", "b"), "Invalid Root Error: a, b");
}

#[test]
fn l1_blocks_are_ordered_by_number() {
    let a = L1BlockInfo { number: 1, timestamp: U256::from_u64(9), hash: [9; 32] };
    let b = L1BlockInfo { number: 2, timestamp: U256::from_u64(0), hash: [0; 32] };
    assert!(a < b);
    assert!(Some(a) > None);
    assert!(!(a < L1BlockInfo { hash: [1; 32], ..a }));
    // Of two references to the same height, the one that the client sees is taken.
    let mut parent = genesis();
    parent.l1_finalized = Some(a);
    let seen = L1BlockInfo { hash: [1; 32], ..a };
    let header = build(
        &parent,
        HeaderBuilder::new(&parent),
        Some(L1Snapshot { head: 1, finalized: Some(seen) }),
        0,
    );
    assert_eq!(header.l1_finalized, Some(seen));
}
