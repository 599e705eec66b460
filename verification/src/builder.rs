//! Building the header that follows a parent.
//!
//! The trees of the chain state, the L1 client and the clock are the caller's. A
//! `HeaderBuilder` says what to do with them next, and is told what came of it:
//! the parent goes onto the block tree, each fee receipt is added to the balance
//! of its account in the fee tree, and the L1 chain and the clock are read last.

use crate::commitment;
use crate::commitment::Commitment;
use crate::fee;
use crate::fee::{can_credit, credit, FeeAccount, FeeAmount, FeeReceipt};
use crate::header;
use crate::header::{Header, NMTRoot, ValidatedState, VidCommitment};
use crate::l1::L1Snapshot;
use crate::merkle::{BlockMerkleCommitment, FeeMerkleCommitment, LookupResult};
use crate::u256;
use vstd::prelude::*;

verus! {

/// What a builder asks for next.
#[derive(Clone, Copy, Debug, PartialEq, Eq)]
pub enum HeaderAction {
    /// Push this commitment onto the block tree, and read the tree's commitment.
    PushBlock(Commitment),
    /// Look up the balance of this account in the fee tree.
    LookupFee(FeeAccount),
    /// Store this balance for this account in the fee tree.
    UpdateFee(FeeAccount, FeeAmount),
    /// Read the commitment of the fee tree.
    CommitFees,
    /// Ask the L1 client, where there is one, for the state of the L1 chain.
    SnapshotL1,
    /// Read the clock.
    ReadClock,
    /// Nothing: the header is ready.
    Finish,
}

/// What came of an action.
#[derive(Debug, PartialEq, Eq)]
pub enum HeaderEvent {
    /// The block tree has grown, and this is its commitment.
    BlockPushed(BlockMerkleCommitment),
    /// What the fee tree holds for the account. Proofs are left out.
    FeeLookedUp(LookupResult<FeeAmount, (), ()>),
    /// The balance is stored.
    FeeUpdated,
    /// The commitment of the fee tree.
    FeesCommitted(FeeMerkleCommitment),
    /// The state of the L1 chain, or `None` without an L1 client.
    L1Read(Option<L1Snapshot>),
    /// The clock, in seconds since 1970.
    ClockRead(i64),
}

/// How far a builder has come, and what it keeps for the header.
enum Stage {
    Push,
    Lookup { block_root: BlockMerkleCommitment, next: usize },
    Update { block_root: BlockMerkleCommitment, next: usize, amount: FeeAmount },
    Commit { block_root: BlockMerkleCommitment },
    Snapshot { block_root: BlockMerkleCommitment, fee_root: FeeMerkleCommitment },
    Clock {
        block_root: BlockMerkleCommitment,
        fee_root: FeeMerkleCommitment,
        l1: Option<L1Snapshot>,
    },
    Ready {
        block_root: BlockMerkleCommitment,
        fee_root: FeeMerkleCommitment,
        l1: Option<L1Snapshot>,
        unix_seconds: i64,
    },
}

/// A header in the making.
pub struct HeaderBuilder<'a, B, F> {
    parent: &'a Header<B, F>,
    receipts: Vec<FeeReceipt>,
    stage: Stage,
    log: Ghost<Seq<HeaderEvent>>,
}

/// What a builder asks for once `log` has happened. With `n` receipts there are
/// `2 * n + 4` actions: the push, a lookup and an update for each receipt in
/// turn, the fee tree's commitment, the L1 chain and the clock.
pub open spec fn asks<B, F>(
    parent: Header<B, F>,
    receipts: Seq<FeeReceipt>,
    log: Seq<HeaderEvent>,
    action: HeaderAction,
) -> bool {
    let n = receipts.len() as int;
    let k = log.len() as int;
    if k == 0 {
        action matches HeaderAction::PushBlock(c) && c.bytes == commitment::keccak256(
            header::header_transcript(parent),
        )
    } else if k <= 2 * n && k % 2 == 1 {
        action == HeaderAction::LookupFee(receipts[k / 2].recipient)
    } else if k <= 2 * n {
        let receipt = receipts[k / 2 - 1];
        action matches HeaderAction::UpdateFee(account, amount) && account == receipt.recipient
            && amount@ == fee::credited(log[k - 1]->FeeLookedUp_0, receipt.amount@)
    } else if k == 2 * n + 1 {
        action == HeaderAction::CommitFees
    } else if k == 2 * n + 2 {
        action == HeaderAction::SnapshotL1
    } else if k == 2 * n + 3 {
        action == HeaderAction::ReadClock
    } else {
        action == HeaderAction::Finish
    }
}

/// Whether `event` may be what came of the action that follows `log`: it is of
/// the right kind, and a balance that was found has room for the receipt.
pub open spec fn answers(
    receipts: Seq<FeeReceipt>,
    log: Seq<HeaderEvent>,
    event: HeaderEvent,
) -> bool {
    let n = receipts.len() as int;
    let k = log.len() as int;
    if k == 0 {
        event is BlockPushed
    } else if k <= 2 * n && k % 2 == 1 {
        event matches HeaderEvent::FeeLookedUp(lookup) && fee::credited(
            lookup,
            receipts[k / 2].amount@,
        ) < u256::u256_end()
    } else if k <= 2 * n {
        event is FeeUpdated
    } else if k == 2 * n + 1 {
        event is FeesCommitted
    } else if k == 2 * n + 2 {
        event is L1Read
    } else if k == 2 * n + 3 {
        event is ClockRead
    } else {
        false
    }
}

/// Whether every event of `log` answers the action that it came of.
pub open spec fn answered(receipts: Seq<FeeReceipt>, log: Seq<HeaderEvent>) -> bool {
    forall|k: int| 0 <= k < log.len() ==> #[trigger] answers(receipts, log.take(k), log[k])
}

/// Whether `log` holds all that a header needs.
pub open spec fn complete(receipts: Seq<FeeReceipt>, log: Seq<HeaderEvent>) -> bool {
    log.len() == 2 * receipts.len() + 4
}

/// The fee receipts that a block brings into the chain state: one, of nothing.
pub fn fetch_fee_receipts<B, F>(_parent: &Header<B, F>) -> (r: Vec<FeeReceipt>)
    ensures
        r@.len() == 1,
        r@[0].recipient@ == fee::zero_address(),
        r@[0].amount@ == 0,
{
    let mut receipts: Vec<FeeReceipt> = Vec::new();
    receipts.push(FeeReceipt::default());
    receipts
}

impl<'a, B, F> HeaderBuilder<'a, B, F> {
    /// The header to follow.
    pub closed spec fn parent(self) -> Header<B, F> {
        *self.parent
    }

    /// The receipts to add.
    pub closed spec fn receipts(self) -> Seq<FeeReceipt> {
        self.receipts@
    }

    /// What has happened so far.
    pub closed spec fn log(self) -> Seq<HeaderEvent> {
        self.log@
    }

    /// The stage and what it keeps agree with what has happened.
    pub closed spec fn well_formed(self) -> bool {
        let n = self.receipts@.len() as int;
        let log = self.log@;
        let k = log.len() as int;
        &&& answered(self.receipts@, log)
        &&& match self.stage {
            Stage::Push => k == 0,
            Stage::Lookup { block_root, next } => {
                &&& next < n
                &&& k == 2 * next + 1
                &&& log[0] == HeaderEvent::BlockPushed(block_root)
            },
            Stage::Update { block_root, next, amount } => {
                &&& next < n
                &&& k == 2 * next + 2
                &&& log[0] == HeaderEvent::BlockPushed(block_root)
                &&& log[k - 1] matches HeaderEvent::FeeLookedUp(lookup)
                &&& amount@ == fee::credited(lookup, self.receipts@[next as int].amount@)
            },
            Stage::Commit { block_root } => {
                &&& k == 2 * n + 1
                &&& log[0] == HeaderEvent::BlockPushed(block_root)
            },
            Stage::Snapshot { block_root, fee_root } => {
                &&& k == 2 * n + 2
                &&& log[0] == HeaderEvent::BlockPushed(block_root)
                &&& log[2 * n + 1] == HeaderEvent::FeesCommitted(fee_root)
            },
            Stage::Clock { block_root, fee_root, l1 } => {
                &&& k == 2 * n + 3
                &&& log[0] == HeaderEvent::BlockPushed(block_root)
                &&& log[2 * n + 1] == HeaderEvent::FeesCommitted(fee_root)
                &&& log[2 * n + 2] == HeaderEvent::L1Read(l1)
            },
            Stage::Ready { block_root, fee_root, l1, unix_seconds } => {
                &&& k == 2 * n + 4
                &&& log[0] == HeaderEvent::BlockPushed(block_root)
                &&& log[2 * n + 1] == HeaderEvent::FeesCommitted(fee_root)
                &&& log[2 * n + 2] == HeaderEvent::L1Read(l1)
                &&& log[2 * n + 3] == HeaderEvent::ClockRead(unix_seconds)
            },
        }
    }

    /// Starts the header that follows `parent` and brings in `receipts`.
    pub fn with_receipts(parent: &'a Header<B, F>, receipts: Vec<FeeReceipt>) -> (r: Self)
        ensures
            r.well_formed(),
            r.parent() == *parent,
            r.receipts() == receipts@,
            r.log() == Seq::<HeaderEvent>::empty(),
    {
        HeaderBuilder { parent, receipts, stage: Stage::Push, log: Ghost(Seq::empty()) }
    }

    /// Starts the header that follows `parent`.
    pub fn new(parent: &'a Header<B, F>) -> (r: Self)
        ensures
            r.well_formed(),
            r.parent() == *parent,
            r.receipts().len() == 1,
            r.receipts()[0].recipient@ == fee::zero_address(),
            r.receipts()[0].amount@ == 0,
            r.log() == Seq::<HeaderEvent>::empty(),
    {
        HeaderBuilder::with_receipts(parent, fetch_fee_receipts(parent))
    }

    /// What to do next.
    pub fn action(&self) -> (r: HeaderAction)
        requires
            self.well_formed(),
        ensures
            asks(self.parent(), self.receipts(), self.log(), r),
    {
        match &self.stage {
            Stage::Push => HeaderAction::PushBlock(self.parent.commit()),
            Stage::Lookup { next, .. } => HeaderAction::LookupFee(self.receipts[*next].recipient),
            Stage::Update { next, amount, .. } => HeaderAction::UpdateFee(
                self.receipts[*next].recipient,
                *amount,
            ),
            Stage::Commit { .. } => HeaderAction::CommitFees,
            Stage::Snapshot { .. } => HeaderAction::SnapshotL1,
            Stage::Clock { .. } => HeaderAction::ReadClock,
            Stage::Ready { .. } => HeaderAction::Finish,
        }
    }

    /// Whether `step` may be called with this event.
    pub fn accepts(&self, event: &HeaderEvent) -> (r: bool)
        requires
            self.well_formed(),
        ensures
            r == answers(self.receipts(), self.log(), *event),
    {
        match (&self.stage, event) {
            (Stage::Push, HeaderEvent::BlockPushed(_)) => true,
            (Stage::Lookup { next, .. }, HeaderEvent::FeeLookedUp(lookup)) => can_credit(
                lookup,
                self.receipts[*next].amount,
            ),
            (Stage::Update { .. }, HeaderEvent::FeeUpdated) => true,
            (Stage::Commit { .. }, HeaderEvent::FeesCommitted(_)) => true,
            (Stage::Snapshot { .. }, HeaderEvent::L1Read(_)) => true,
            (Stage::Clock { .. }, HeaderEvent::ClockRead(_)) => true,
            _ => false,
        }
    }

    /// Takes note of what came of the last action.
    pub fn step(self, event: HeaderEvent) -> (r: Self)
        requires
            self.well_formed(),
            answers(self.receipts(), self.log(), event),
        ensures
            r.well_formed(),
            r.parent() == self.parent(),
            r.receipts() == self.receipts(),
            r.log() == self.log().push(event),
    {
        let ghost log = self.log@.push(event);
        proof {
            lemma_answered_push(self.receipts@, self.log@, event);
        }
        let parent = self.parent;
        let receipts = self.receipts;
        let stage = match (self.stage, event) {
            (Stage::Push, HeaderEvent::BlockPushed(block_root)) => {
                if receipts.len() > 0 {
                    Stage::Lookup { block_root, next: 0 }
                } else {
                    Stage::Commit { block_root }
                }
            },
            (Stage::Lookup { block_root, next }, HeaderEvent::FeeLookedUp(lookup)) => {
                Stage::Update { block_root, next, amount: credit(&lookup, receipts[next].amount) }
            },
            (Stage::Update { block_root, next, .. }, HeaderEvent::FeeUpdated) => {
                if receipts.len() - next > 1 {
                    Stage::Lookup { block_root, next: next + 1 }
                } else {
                    Stage::Commit { block_root }
                }
            },
            (Stage::Commit { block_root }, HeaderEvent::FeesCommitted(fee_root)) => {
                Stage::Snapshot { block_root, fee_root }
            },
            (Stage::Snapshot { block_root, fee_root }, HeaderEvent::L1Read(l1)) => {
                Stage::Clock { block_root, fee_root, l1 }
            },
            (Stage::Clock { block_root, fee_root, l1 }, HeaderEvent::ClockRead(unix_seconds)) => {
                Stage::Ready { block_root, fee_root, l1, unix_seconds }
            },
            (stage, _) => stage,
        };
        HeaderBuilder { parent, receipts, stage, log: Ghost(log) }
    }

    /// Whether the header is ready.
    pub fn is_ready(&self) -> (r: bool)
        requires
            self.well_formed(),
        ensures
            r == complete(self.receipts(), self.log()),
    {
        match &self.stage {
            Stage::Ready { .. } => true,
            _ => false,
        }
    }

    /// The header, from the commitments to its payload and the state that the
    /// actions have led to.
    pub fn finish(
        self,
        payload_commitment: VidCommitment,
        transactions_root: NMTRoot,
        validated_state: ValidatedState<B, F>,
    ) -> (r: Header<B, F>)
        requires
            self.well_formed(),
            complete(self.receipts(), self.log()),
            self.parent().height < u64::MAX,
            header::finalized_fits(
                header::next_finalized(
                    self.parent().l1_finalized,
                    header::snapshot_or_mock(l1_read(self.receipts(), self.log())).finalized,
                ),
            ),
        ensures
            built(
                self.parent(),
                self.receipts(),
                self.log(),
                payload_commitment,
                transactions_root,
                validated_state,
                r,
            ),
            header::advances(self.parent(), r),
    {
        match self.stage {
            Stage::Ready { block_root, fee_root, l1, unix_seconds } => Header::new(
                payload_commitment,
                transactions_root,
                self.parent,
                l1,
                unix_seconds,
                fee_root,
                block_root,
                validated_state,
            ),
            _ => {
                proof {
                    assert(false);
                }
                vstd::pervasive::unreached()
            },
        }
    }

    /// Whether `finish` may be called on a header that is ready: whether there is
    /// a next height, and the timestamp of the finalized L1 block fits.
    pub fn can_finish(&self) -> (r: bool)
        requires
            self.well_formed(),
        ensures
            r == (complete(self.receipts(), self.log()) && self.parent().height < u64::MAX
                && header::finalized_fits(
                header::next_finalized(
                    self.parent().l1_finalized,
                    header::snapshot_or_mock(l1_read(self.receipts(), self.log())).finalized,
                ),
            )),
    {
        match &self.stage {
            Stage::Ready { l1, .. } => Header::can_follow(self.parent, *l1),
            _ => false,
        }
    }
}

/// The commitment of the block tree, out of a complete log.
pub open spec fn block_root_read(log: Seq<HeaderEvent>) -> BlockMerkleCommitment {
    log[0]->BlockPushed_0
}

/// The commitment of the fee tree, out of a complete log.
pub open spec fn fee_root_read(
    receipts: Seq<FeeReceipt>,
    log: Seq<HeaderEvent>,
) -> FeeMerkleCommitment {
    log[2 * receipts.len() as int + 1]->FeesCommitted_0
}

/// The state of the L1 chain, out of a complete log.
pub open spec fn l1_read(receipts: Seq<FeeReceipt>, log: Seq<HeaderEvent>) -> Option<L1Snapshot> {
    log[2 * receipts.len() as int + 2]->L1Read_0
}

/// The clock, out of a complete log.
pub open spec fn clock_read(receipts: Seq<FeeReceipt>, log: Seq<HeaderEvent>) -> i64 {
    log[2 * receipts.len() as int + 3]->ClockRead_0
}

/// Whether `r` is the header that a complete log leads to.
pub open spec fn built<B, F>(
    parent: Header<B, F>,
    receipts: Seq<FeeReceipt>,
    log: Seq<HeaderEvent>,
    payload_commitment: VidCommitment,
    transactions_root: NMTRoot,
    validated_state: ValidatedState<B, F>,
    r: Header<B, F>,
) -> bool {
    let snapshot = header::snapshot_or_mock(l1_read(receipts, log));
    let now = header::clock_timestamp(clock_read(receipts, log)) as u64;
    &&& r.height == parent.height + 1
    &&& r.l1_head == header::larger(snapshot.head, parent.l1_head)
    &&& r.l1_finalized == header::next_finalized(parent.l1_finalized, snapshot.finalized)
    &&& r.timestamp == header::next_timestamp(parent.timestamp, now, r.l1_finalized)
    &&& r.payload_commitment == payload_commitment
    &&& r.transactions_root == transactions_root
    &&& r.block_merkle_tree_root == block_root_read(log)
    &&& r.fee_merkle_tree_root == fee_root_read(receipts, log)
    &&& r.validated_state == validated_state
}

/// The actions of a builder in order: the push of the parent's commitment; for receipt
/// `i` the lookup of its account, and then the update of it to what was found and the
/// amount together, or to the amount where nothing was found; the commitment of the fee
/// tree, the L1 chain and the clock. Then there is nothing left to do.
pub proof fn actions_come_in_order<B, F>(
    parent: Header<B, F>,
    receipts: Seq<FeeReceipt>,
    log: Seq<HeaderEvent>,
    action: HeaderAction,
    i: int,
)
    requires
        asks(parent, receipts, log, action),
    ensures
        log.len() == 0 ==> (action matches HeaderAction::PushBlock(c) && c.bytes
            == commitment::keccak256(header::header_transcript(parent))),
        action is PushBlock ==> log.len() == 0,
        0 <= i < receipts.len() && log.len() == 2 * i + 1 ==> action == HeaderAction::LookupFee(
            receipts[i].recipient,
        ),
        0 <= i < receipts.len() && log.len() == 2 * i + 2 ==> {
            &&& action matches HeaderAction::UpdateFee(account, amount)
            &&& account == receipts[i].recipient
            &&& log.last() matches HeaderEvent::FeeLookedUp(LookupResult::Found(balance, _))
                ==> amount.0@ == balance.0@ + receipts[i].amount.0@
            &&& log.last() matches HeaderEvent::FeeLookedUp(lookup) ==> !(lookup is Found)
                ==> amount.0@ == receipts[i].amount.0@
        },
        log.len() == 2 * receipts.len() + 1 ==> action is CommitFees,
        log.len() == 2 * receipts.len() + 2 ==> action is SnapshotL1,
        log.len() == 2 * receipts.len() + 3 ==> action is ReadClock,
        action is Finish <==> log.len() >= 2 * receipts.len() + 4,
{
    if 0 <= i < receipts.len() && log.len() == 2 * i + 2 {
        assert((2 * i + 2) / 2 - 1 == i);
    }
    if 0 <= i < receipts.len() && log.len() == 2 * i + 1 {
        assert((2 * i + 1) / 2 == i && (2 * i + 1) % 2 == 1);
    }
}

/// A builder takes every answer of the right kind, and only such. Only a balance that was
/// found, and has no room for the receipt, is not taken. Nothing is taken at the end.
pub proof fn answers_of_right_kind_are_taken(
    receipts: Seq<FeeReceipt>,
    log: Seq<HeaderEvent>,
    event: HeaderEvent,
    i: int,
)
    ensures
        log.len() == 0 ==> (answers(receipts, log, event) <==> event is BlockPushed),
        0 <= i < receipts.len() && log.len() == 2 * i + 1 ==> (answers(receipts, log, event) <==> {
            &&& event matches HeaderEvent::FeeLookedUp(lookup)
            &&& lookup matches LookupResult::Found(balance, _) ==> balance.0@
                + receipts[i].amount.0@ < u256::u256_end()
        }),
        0 <= i < receipts.len() && log.len() == 2 * i + 2 ==> (answers(receipts, log, event)
            <==> event is FeeUpdated),
        log.len() == 2 * receipts.len() + 1 ==> (answers(receipts, log, event)
            <==> event is FeesCommitted),
        log.len() == 2 * receipts.len() + 2 ==> (answers(receipts, log, event)
            <==> event is L1Read),
        log.len() == 2 * receipts.len() + 3 ==> (answers(receipts, log, event)
            <==> event is ClockRead),
        log.len() >= 2 * receipts.len() + 4 ==> !answers(receipts, log, event),
        complete(receipts, log) <==> log.len() - 2 * receipts.len() == 4,
{
    if 0 <= i < receipts.len() && log.len() == 2 * i + 1 {
        assert((2 * i + 1) / 2 == i && (2 * i + 1) % 2 == 1);
        u256::lemma_u256_bound(receipts[i].amount.0);
    }
    if 0 <= i < receipts.len() && log.len() == 2 * i + 2 {
        assert((2 * i + 2) % 2 == 0);
    }
}

/// What a built header holds, from what was read: the roots of the trees, the later of
/// both heads and of both finalized blocks, and the latest of the clock, the parent and
/// the finalized block. The rest is what `finish` is given.
pub proof fn built_header_holds_what_was_read<B, F>(
    parent: Header<B, F>,
    receipts: Seq<FeeReceipt>,
    log: Seq<HeaderEvent>,
    payload_commitment: VidCommitment,
    transactions_root: NMTRoot,
    validated_state: ValidatedState<B, F>,
    r: Header<B, F>,
    block_root: BlockMerkleCommitment,
    fee_root: FeeMerkleCommitment,
    l1: L1Snapshot,
    unix_seconds: i64,
    clock: int,
)
    requires
        built(
            parent,
            receipts,
            log,
            payload_commitment,
            transactions_root,
            validated_state,
            r,
        ),
        log.len() == 2 * receipts.len() + 4,
        log[0] == HeaderEvent::BlockPushed(block_root),
        log[2 * receipts.len() as int + 1] == HeaderEvent::FeesCommitted(fee_root),
        log[2 * receipts.len() as int + 2] == HeaderEvent::L1Read(Some(l1)) || (
        log[2 * receipts.len() as int + 2] == HeaderEvent::L1Read(None) && l1.head == 0
            && l1.finalized is None),
        log[2 * receipts.len() as int + 3] == HeaderEvent::ClockRead(unix_seconds),
        0 <= clock <= u64::MAX,
        clock == unix_seconds || clock == unix_seconds + 0x1_0000_0000_0000_0000,
        r.l1_finalized matches Some(block) ==> block.timestamp@ <= u64::MAX,
    ensures
        r.height - parent.height == 1,
        r.payload_commitment == payload_commitment,
        r.transactions_root == transactions_root,
        r.validated_state == validated_state,
        r.block_merkle_tree_root == block_root,
        r.fee_merkle_tree_root == fee_root,
        r.l1_head >= l1.head,
        r.l1_head >= parent.l1_head,
        r.l1_head == l1.head || r.l1_head == parent.l1_head,
        parent.l1_finalized is None ==> r.l1_finalized == l1.finalized,
        l1.finalized is None ==> r.l1_finalized == parent.l1_finalized,
        l1.finalized matches Some(s) ==> parent.l1_finalized matches Some(p) ==> r.l1_finalized
            == Some(
            if s.number < p.number {
                p
            } else {
                s
            },
        ),
        r.timestamp >= clock,
        r.timestamp >= parent.timestamp,
        r.l1_finalized matches Some(block) ==> r.timestamp >= block.timestamp@,
        r.timestamp == clock || r.timestamp == parent.timestamp || (
        r.l1_finalized matches Some(block) && r.timestamp == block.timestamp@),
{
}

/// The roots of a built header commit to the trees that it carries, each to its own,
/// where the commitments that were read are those of the trees that the actions led
/// to. The parent's own roots do not matter.
pub proof fn built_header_commits_to_state<B, F>(
    parent: Header<B, F>,
    receipts: Seq<FeeReceipt>,
    log: Seq<HeaderEvent>,
    payload_commitment: VidCommitment,
    transactions_root: NMTRoot,
    validated_state: ValidatedState<B, F>,
    r: Header<B, F>,
    block_comm: spec_fn(B) -> Seq<u8>,
    fee_comm: spec_fn(F) -> Seq<u8>,
)
    requires
        built(
            parent,
            receipts,
            log,
            payload_commitment,
            transactions_root,
            validated_state,
            r,
        ),
        block_root_read(log)@ == block_comm(validated_state.block_merkle_tree),
        fee_root_read(receipts, log)@ == fee_comm(validated_state.fee_merkle_tree),
    ensures
        r.block_merkle_tree_root@ == block_comm(r.validated_state.block_merkle_tree),
        r.fee_merkle_tree_root@ == fee_comm(r.validated_state.fee_merkle_tree),
        header::commits_to_state(r, block_comm, fee_comm),
{
}

/// The commitments that a list of actions pushes onto the block tree, in order.
pub open spec fn pushed(actions: Seq<HeaderAction>) -> Seq<Commitment>
    decreases actions.len(),
{
    if actions.len() == 0 {
        Seq::empty()
    } else {
        let before = pushed(actions.drop_last());
        match actions.last() {
            HeaderAction::PushBlock(c) => before.push(c),
            _ => before,
        }
    }
}

/// Whether `actions` are those that a builder asked for, one for each event of `log`
/// in turn.
pub open spec fn asked<B, F>(
    parent: Header<B, F>,
    receipts: Seq<FeeReceipt>,
    log: Seq<HeaderEvent>,
    actions: Seq<HeaderAction>,
) -> bool {
    &&& actions.len() == log.len()
    &&& forall|k: int|
        0 <= k < actions.len() ==> #[trigger] asks(parent, receipts, log.take(k), actions[k])
}

/// Whether `c` is the commitment to a header.
pub open spec fn commits_to<B, F>(c: Commitment, header: Header<B, F>) -> bool {
    c.bytes == commitment::keccak256(header::header_transcript(header))
}

/// A builder that has begun has pushed one commitment onto the block tree: that to
/// the parent.
pub proof fn only_parent_is_pushed<B, F>(
    parent: Header<B, F>,
    receipts: Seq<FeeReceipt>,
    log: Seq<HeaderEvent>,
    actions: Seq<HeaderAction>,
)
    requires
        asked(parent, receipts, log, actions),
        log.len() > 0,
    ensures
        pushed(actions).len() == 1,
        commits_to(pushed(actions)[0], parent),
    decreases log.len(),
{
    let k = log.len() - 1;
    assert(asks(parent, receipts, log.take(k), actions[k]));
    if k == 0 {
        assert(pushed(actions.drop_last()) =~= Seq::empty());
    } else {
        assert forall|i: int| 0 <= i < k implies #[trigger] asks(
            parent,
            receipts,
            log.drop_last().take(i),
            actions.drop_last()[i],
        ) by {
            assert(log.drop_last().take(i) =~= log.take(i));
            assert(asks(parent, receipts, log.take(i), actions[i]));
        }
        only_parent_is_pushed(parent, receipts, log.drop_last(), actions.drop_last());
    }
}

/// What a builder was given to build one header, and what it asked for.
pub type Run = (Seq<FeeReceipt>, Seq<HeaderEvent>, Seq<HeaderAction>);

/// Whether a run built `child` on `parent`.
pub open spec fn run_builds<B, F>(parent: Header<B, F>, run: Run, child: Header<B, F>) -> bool {
    let (receipts, log, actions) = run;
    &&& asked(parent, receipts, log, actions)
    &&& complete(receipts, log)
    &&& built(
        parent,
        receipts,
        log,
        child.payload_commitment,
        child.transactions_root,
        child.validated_state,
        child,
    )
}

/// Whether each header of `chain` but the first was built on the one before it, by
/// the run of that place.
pub open spec fn built_chain<B, F>(chain: Seq<Header<B, F>>, runs: Seq<Run>) -> bool {
    &&& chain.len() == runs.len() + 1
    &&& forall|i: int|
        0 <= i < runs.len() ==> run_builds(chain[i], #[trigger] runs[i], chain[i + 1])
}

/// The commitments that the first `j` runs push onto the block tree, in order.
pub open spec fn pushed_by(runs: Seq<Run>, j: int) -> Seq<Commitment>
    decreases j,
{
    if j <= 0 {
        Seq::empty()
    } else {
        pushed_by(runs, j - 1) + pushed(runs[j - 1].2)
    }
}

/// Where the height of a header is the number of leaves of its block tree, so it is of
/// the header built on it. `leaves` gives the leaves of a tree, and the carried tree
/// is the parent's with the pushes of the run.
pub proof fn height_counts_leaves<B, F>(
    parent: Header<B, F>,
    run: Run,
    child: Header<B, F>,
    leaves: spec_fn(B) -> Seq<Commitment>,
)
    requires
        run_builds(parent, run, child),
        leaves(child.validated_state.block_merkle_tree) == leaves(
            parent.validated_state.block_merkle_tree,
        ) + pushed(run.2),
        parent.height == leaves(parent.validated_state.block_merkle_tree).len(),
    ensures
        child.height == leaves(child.validated_state.block_merkle_tree).len(),
        commits_to(leaves(child.validated_state.block_merkle_tree).last(), parent),
{
    only_parent_is_pushed(parent, run.0, run.1, run.2);
}

/// Along a chain that starts at height zero, a header's height is its place, and the
/// pushes that were asked for up to it are the commitments to all headers before it,
/// in order of height.
pub proof fn pushes_are_earlier_headers<B, F>(chain: Seq<Header<B, F>>, runs: Seq<Run>, j: int)
    requires
        built_chain(chain, runs),
        chain[0].height == 0,
        0 <= j < chain.len(),
    ensures
        chain[j].height == j,
        pushed_by(runs, j).len() == j,
        forall|i: int| 0 <= i < j ==> commits_to(#[trigger] pushed_by(runs, j)[i], chain[i]),
    decreases j,
{
    if j > 0 {
        pushes_are_earlier_headers(chain, runs, j - 1);
        let run = runs[j - 1];
        assert(run_builds(chain[j - 1], run, chain[j]));
        only_parent_is_pushed(chain[j - 1], run.0, run.1, run.2);
        assert forall|i: int| 0 <= i < j implies commits_to(
            #[trigger] pushed_by(runs, j)[i],
            chain[i],
        ) by {
            if i < j - 1 {
                assert(pushed_by(runs, j)[i] == pushed_by(runs, j - 1)[i]);
            } else {
                assert(pushed_by(runs, j)[i] == pushed(run.2)[0]);
            }
        }
    }
}

/// Along a chain that starts at height zero with an empty block tree, the tree that a
/// header carries holds the commitments to all headers before it, in order of
/// height, and nothing else. `leaves` gives the leaves of a tree, and each carried
/// tree is the one before it with the pushes of the run.
pub proof fn tree_holds_earlier_headers<B, F>(
    chain: Seq<Header<B, F>>,
    runs: Seq<Run>,
    leaves: spec_fn(B) -> Seq<Commitment>,
    j: int,
)
    requires
        built_chain(chain, runs),
        chain[0].height == 0,
        leaves(chain[0].validated_state.block_merkle_tree) == Seq::<Commitment>::empty(),
        forall|i: int|
            0 <= i < runs.len() ==> leaves(chain[i + 1].validated_state.block_merkle_tree)
                == leaves(chain[i].validated_state.block_merkle_tree) + pushed(
                (#[trigger] runs[i]).2,
            ),
        0 <= j < chain.len(),
    ensures
        leaves(chain[j].validated_state.block_merkle_tree).len() == chain[j].height,
        chain[j].height == j,
        forall|i: int|
            0 <= i < j ==> commits_to(
                #[trigger] leaves(chain[j].validated_state.block_merkle_tree)[i],
                chain[i],
            ),
{
    lemma_leaves_are_pushes(chain, runs, leaves, j);
    pushes_are_earlier_headers(chain, runs, j);
}

proof fn lemma_leaves_are_pushes<B, F>(
    chain: Seq<Header<B, F>>,
    runs: Seq<Run>,
    leaves: spec_fn(B) -> Seq<Commitment>,
    j: int,
)
    requires
        chain.len() == runs.len() + 1,
        leaves(chain[0].validated_state.block_merkle_tree) == Seq::<Commitment>::empty(),
        forall|i: int|
            0 <= i < runs.len() ==> leaves(chain[i + 1].validated_state.block_merkle_tree)
                == leaves(chain[i].validated_state.block_merkle_tree) + pushed(
                (#[trigger] runs[i]).2,
            ),
        0 <= j < chain.len(),
    ensures
        leaves(chain[j].validated_state.block_merkle_tree) == pushed_by(runs, j),
    decreases j,
{
    if j > 0 {
        lemma_leaves_are_pushes(chain, runs, leaves, j - 1);
        let run = runs[j - 1];
        assert(leaves(chain[j - 1 + 1].validated_state.block_merkle_tree) == leaves(
            chain[j - 1].validated_state.block_merkle_tree,
        ) + pushed(run.2));
    }
}

proof fn lemma_answered_push(receipts: Seq<FeeReceipt>, log: Seq<HeaderEvent>, event: HeaderEvent)
    requires
        answered(receipts, log),
        answers(receipts, log, event),
    ensures
        answered(receipts, log.push(event)),
{
    let longer = log.push(event);
    assert forall|k: int| 0 <= k < longer.len() implies #[trigger] answers(
        receipts,
        longer.take(k),
        longer[k],
    ) by {
        if k < log.len() {
            assert(longer.take(k) =~= log.take(k));
            assert(answers(receipts, log.take(k), log[k]));
        } else {
            assert(longer.take(k) =~= log);
        }
    }
}

/// The balances of a fee tree, by address.
pub type Ledger = Map<Seq<u8>, nat>;

/// The balance of an account, nothing where the ledger does not have it.
pub open spec fn balance(ledger: Ledger, account: Seq<u8>) -> nat {
    if ledger.contains_key(account) {
        ledger[account]
    } else {
        0
    }
}

/// A ledger with the amount of a receipt added to the balance of its account.
pub open spec fn add_receipt(ledger: Ledger, receipt: FeeReceipt) -> Ledger {
    ledger.insert(
        receipt.recipient@,
        balance(ledger, receipt.recipient@) + receipt.amount@,
    )
}

/// A ledger with receipts added one after the other.
pub open spec fn add_receipts(ledger: Ledger, receipts: Seq<FeeReceipt>) -> Ledger
    decreases receipts.len(),
{
    if receipts.len() == 0 {
        ledger
    } else {
        add_receipt(add_receipts(ledger, receipts.drop_last()), receipts.last())
    }
}

/// What receipts pay into an account in all.
pub open spec fn total_paid(receipts: Seq<FeeReceipt>, account: Seq<u8>) -> nat
    decreases receipts.len(),
{
    if receipts.len() == 0 {
        0
    } else {
        let before = total_paid(receipts.drop_last(), account);
        if receipts.last().recipient@ == account {
            before + receipts.last().amount@
        } else {
            before
        }
    }
}

/// Whether a lookup tells the truth about an account of the ledger.
pub open spec fn truthful<P, N>(
    lookup: LookupResult<FeeAmount, P, N>,
    ledger: Ledger,
    account: Seq<u8>,
) -> bool {
    match lookup {
        LookupResult::Found(found, _) => ledger.contains_key(account) && ledger[account] == found@,
        LookupResult::NotFound(_) => !ledger.contains_key(account),
        LookupResult::NotInMemory => false,
    }
}

/// Adding receipts to a ledger pays into every account what the receipts for it
/// come to, and nothing into any other account.
pub proof fn receipts_add_up(ledger: Ledger, receipts: Seq<FeeReceipt>, account: Seq<u8>)
    ensures
        balance(add_receipts(ledger, receipts), account) == balance(ledger, account) + total_paid(
            receipts,
            account,
        ),
    decreases receipts.len(),
{
    if receipts.len() > 0 {
        receipts_add_up(ledger, receipts.drop_last(), account);
    }
}

/// The ledger that a fee tree holds after the first `i` updates that a builder
/// asks for, where it held `ledger` before.
pub open spec fn stored(
    receipts: Seq<FeeReceipt>,
    log: Seq<HeaderEvent>,
    ledger: Ledger,
    i: int,
) -> Ledger
    decreases i,
{
    if i <= 0 {
        ledger
    } else {
        stored(receipts, log, ledger, i - 1).insert(
            receipts[i - 1].recipient@,
            fee::credited(log[2 * i - 1]->FeeLookedUp_0, receipts[i - 1].amount@),
        )
    }
}

/// The update that a builder asks for after a lookup is the one that `stored`
/// speaks of.
pub proof fn update_is_stored<B, F>(
    parent: Header<B, F>,
    receipts: Seq<FeeReceipt>,
    log: Seq<HeaderEvent>,
    ledger: Ledger,
    i: int,
    action: HeaderAction,
)
    requires
        0 <= i < receipts.len(),
        log.len() >= 2 * i + 2,
        asks(parent, receipts, log.take(2 * i + 2), action),
    ensures
        action matches HeaderAction::UpdateFee(account, amount) && stored(
            receipts,
            log,
            ledger,
            i,
        ).insert(account@, amount@) == stored(receipts, log, ledger, i + 1),
{
    let k = 2 * i + 2;
    assert(log.take(k)[k - 1] == log[2 * i + 1]);
    assert((2 * i + 2) / 2 - 1 == i && (2 * i + 2) % 2 == 0);
}

/// Where every lookup tells the truth about the fee tree at its time, the updates
/// of a builder leave the ledger with all receipts added: each account has what it
/// had and what the receipts for it come to.
pub proof fn fees_accumulate(
    receipts: Seq<FeeReceipt>,
    log: Seq<HeaderEvent>,
    ledger: Ledger,
    account: Seq<u8>,
)
    requires
        log.len() > 2 * receipts.len(),
        forall|j: int|
            0 <= j < receipts.len() ==> truthful(
                log[2 * j + 1]->FeeLookedUp_0,
                stored(receipts, log, ledger, j),
                (#[trigger] receipts[j]).recipient@,
            ),
    ensures
        stored(receipts, log, ledger, receipts.len() as int) == add_receipts(ledger, receipts),
        balance(stored(receipts, log, ledger, receipts.len() as int), account) == balance(
            ledger,
            account,
        ) + total_paid(receipts, account),
{
    lemma_stored_prefix(receipts, log, ledger, receipts.len() as int);
    assert(receipts.take(receipts.len() as int) =~= receipts);
    receipts_add_up(ledger, receipts, account);
}

proof fn lemma_stored_prefix(
    receipts: Seq<FeeReceipt>,
    log: Seq<HeaderEvent>,
    ledger: Ledger,
    i: int,
)
    requires
        0 <= i <= receipts.len(),
        forall|j: int|
            0 <= j < receipts.len() ==> truthful(
                log[2 * j + 1]->FeeLookedUp_0,
                stored(receipts, log, ledger, j),
                (#[trigger] receipts[j]).recipient@,
            ),
    ensures
        stored(receipts, log, ledger, i) == add_receipts(ledger, receipts.take(i)),
    decreases i,
{
    if i > 0 {
        lemma_stored_prefix(receipts, log, ledger, i - 1);
        assert(receipts.take(i).drop_last() =~= receipts.take(i - 1));
        let receipt = receipts[i - 1];
        assert(truthful(
            log[2 * (i - 1) + 1]->FeeLookedUp_0,
            stored(receipts, log, ledger, i - 1),
            receipt.recipient@,
        ));
        assert(2 * (i - 1) + 1 == 2 * i - 1);
    }
}

} // verus!
