//! Finding the first block of a slot range, stepping over skipped slots.
//!
//! Fetching a block is the caller's business. A [`BlockScan`] says which
//! slot to ask for, and [`BlockScan::on_outcome`] decides from the node's
//! answer whether the scan is over, has failed, or goes on with the next
//! slot.

use crate::commission::{commissions_of, voting_commissions, CommissionTable, RewardEntry};
use vstd::prelude::*;

verus! {

/// Code with which a node answers for a slot in which no block was made.
pub const SLOT_SKIPPED_CODE: i64 = -32007;

/// Code with which a node answers for a slot that its long-term storage
/// knows to have been skipped.
pub const LONG_TERM_STORAGE_SLOT_SKIPPED_CODE: i64 = -32009;

/// Why a request for a block failed.
#[derive(Clone, Copy, Debug, PartialEq, Eq)]
pub enum RpcErrorKind {
    /// No block was made in the slot.
    SlotSkipped,
    /// Long-term storage knows the slot to have been skipped.
    LongTermStorageSlotSkipped,
    /// Anything else.
    Other,
}

impl RpcErrorKind {
    /// The kind that a response code of the node stands for.
    pub open spec fn of_code(code: i64) -> RpcErrorKind {
        if code == SLOT_SKIPPED_CODE {
            RpcErrorKind::SlotSkipped
        } else if code == LONG_TERM_STORAGE_SLOT_SKIPPED_CODE {
            RpcErrorKind::LongTermStorageSlotSkipped
        } else {
            RpcErrorKind::Other
        }
    }

    /// Whether the failure only says that the slot holds no block.
    pub open spec fn skipped(&self) -> bool {
        *self is SlotSkipped || *self is LongTermStorageSlotSkipped
    }

    /// Classifies a response code of the node.
    pub fn from_response_code(code: i64) -> (kind: RpcErrorKind)
        ensures
            kind == RpcErrorKind::of_code(code),
    {
        if code == SLOT_SKIPPED_CODE {
            RpcErrorKind::SlotSkipped
        } else if code == LONG_TERM_STORAGE_SLOT_SKIPPED_CODE {
            RpcErrorKind::LongTermStorageSlotSkipped
        } else {
            RpcErrorKind::Other
        }
    }

    /// Whether the failure only says that the slot holds no block.
    pub fn is_skipped(&self) -> (skipped: bool)
        ensures
            skipped == self.skipped(),
    {
        match self {
            RpcErrorKind::SlotSkipped => true,
            RpcErrorKind::LongTermStorageSlotSkipped => true,
            RpcErrorKind::Other => false,
        }
    }
}

/// The node's answer to a request for one block, rewards only.
#[derive(Clone, Debug)]
pub enum FetchOutcome {
    /// The block, with its rewards where it lists any.
    Block { rewards: Option<Vec<RewardEntry>> },
    /// The request failed.
    Failed { kind: RpcErrorKind, cause: String },
}

/// A request for a block failed for another reason than a skipped slot.
#[derive(Clone, Debug)]
pub struct BlockFetchError {
    /// The slot that was asked for.
    pub slot: u64,
    /// What the node reported.
    pub cause: String,
}

/// A scan in progress: the slot to ask for next, and how many more slots
/// may be tried after it.
#[derive(Clone, Copy, Debug, PartialEq, Eq)]
pub struct BlockScan {
    pub slot: u64,
    pub retries_left: u64,
}

/// How a scan goes on after an answer of the node.
#[derive(Clone, Debug)]
pub enum ScanStep {
    /// The slot was skipped: ask for the block at the slot of this scan.
    Retry(BlockScan),
    /// A block was found at `slot`; these are the commissions it records.
    Found { slot: u64, commissions: CommissionTable },
    /// The node failed, and the scan with it.
    Failed(BlockFetchError),
    /// Every slot that the scan was allowed to try was skipped, `slot` being
    /// the last of them.
    Exhausted { slot: u64 },
}

/// What a step of a scan says, as mathematical values.
pub enum ScanStepModel {
    Retry(BlockScan),
    Found { slot: u64, commissions: Map<Seq<u8>, u8> },
    Failed { slot: u64, cause: Seq<char> },
    Exhausted { slot: u64 },
}

impl View for ScanStep {
    type V = ScanStepModel;

    open spec fn view(&self) -> ScanStepModel {
        match *self {
            ScanStep::Retry(scan) => ScanStepModel::Retry(scan),
            ScanStep::Found { slot, commissions } => ScanStepModel::Found {
                slot,
                commissions: commissions@,
            },
            ScanStep::Failed(e) => ScanStepModel::Failed { slot: e.slot, cause: e.cause@ },
            ScanStep::Exhausted { slot } => ScanStepModel::Exhausted { slot },
        }
    }
}

/// The rewards of a block, none where the block lists none.
pub open spec fn rewards_of(rewards: Option<Vec<RewardEntry>>) -> Seq<RewardEntry> {
    match rewards {
        Some(listed) => listed@,
        None => Seq::empty(),
    }
}

impl BlockScan {
    /// The step that follows the node's answer for the slot of this scan.
    ///
    /// A block ends the scan with its voting commissions. A skipped slot
    /// moves the scan to the next slot, as long as a retry is left and a
    /// next slot exists. Any other failure ends the scan at once.
    pub open spec fn step(&self, outcome: FetchOutcome) -> ScanStepModel {
        match outcome {
            FetchOutcome::Block { rewards } => ScanStepModel::Found {
                slot: self.slot,
                commissions: commissions_of(rewards_of(rewards)),
            },
            FetchOutcome::Failed { kind, cause } => if !kind.skipped() {
                ScanStepModel::Failed { slot: self.slot, cause: cause@ }
            } else if self.retries_left == 0 || self.slot == u64::MAX {
                ScanStepModel::Exhausted { slot: self.slot }
            } else {
                ScanStepModel::Retry(
                    BlockScan {
                        slot: (self.slot + 1) as u64,
                        retries_left: (self.retries_left - 1) as u64,
                    },
                )
            },
        }
    }

    /// Where a scan stands after the given answers, each but the last of
    /// them having called for a retry: the step that the last answer leads
    /// to. `None` where the scan was over before the answers were, or where
    /// there are no answers.
    pub open spec fn run(&self, outcomes: Seq<FetchOutcome>) -> Option<ScanStepModel>
        decreases outcomes.len(),
    {
        if outcomes.len() == 0 {
            None
        } else if outcomes.len() == 1 {
            Some(self.step(outcomes[0]))
        } else {
            match self.step(outcomes[0]) {
                ScanStepModel::Retry(next) => next.run(outcomes.drop_first()),
                _ => None,
            }
        }
    }

    /// A scan that starts at `first_slot` and gives up after `max_retries`
    /// skipped slots have been stepped over. With `u64::MAX` retries the
    /// scan ends only where the slots do.
    pub fn new(first_slot: u64, max_retries: u64) -> (scan: BlockScan)
        ensures
            scan == (BlockScan { slot: first_slot, retries_left: max_retries }),
    {
        BlockScan { slot: first_slot, retries_left: max_retries }
    }

    /// Decides how the scan goes on after the node's answer for `self.slot`.
    pub fn on_outcome(&self, outcome: FetchOutcome) -> (step: ScanStep)
        ensures
            step@ == self.step(outcome),
    {
        match outcome {
            FetchOutcome::Block { rewards } => {
                let commissions: CommissionTable = match rewards {
                    Some(listed) => voting_commissions(&listed),
                    None => voting_commissions(&Vec::new()),
                };
                ScanStep::Found { slot: self.slot, commissions }
            },
            FetchOutcome::Failed { kind, cause } => {
                if !kind.is_skipped() {
                    ScanStep::Failed(BlockFetchError { slot: self.slot, cause })
                } else if self.retries_left == 0 || self.slot == u64::MAX {
                    ScanStep::Exhausted { slot: self.slot }
                } else {
                    ScanStep::Retry(
                        BlockScan { slot: self.slot + 1, retries_left: self.retries_left - 1 },
                    )
                }
            },
        }
    }
}

/// Whether an answer reports a skipped slot.
pub open spec fn is_skip(outcome: FetchOutcome) -> bool {
    outcome matches FetchOutcome::Failed { kind, .. } && kind.skipped()
}

/// Whether every answer in the sequence reports a skipped slot.
pub open spec fn all_skipped(outcomes: Seq<FetchOutcome>) -> bool {
    forall|i: int| 0 <= i < outcomes.len() ==> is_skip(#[trigger] outcomes[i])
}

/// A scan that meets a run of skipped slots and then a block moves on by
/// exactly one slot for each skipped one, and ends with the commissions of
/// that first block.
pub proof fn lemma_scan_finds_first_block(
    scan: BlockScan,
    skips: Seq<FetchOutcome>,
    rewards: Option<Vec<RewardEntry>>,
)
    requires
        all_skipped(skips),
        skips.len() <= scan.retries_left,
        scan.slot + skips.len() <= u64::MAX,
    ensures
        scan.run(skips.push(FetchOutcome::Block { rewards })) == Some(
            ScanStepModel::Found {
                slot: (scan.slot + skips.len()) as u64,
                commissions: commissions_of(rewards_of(rewards)),
            },
        ),
    decreases skips.len(),
{
    let outcomes = skips.push(FetchOutcome::Block { rewards });
    if skips.len() == 0 {
        assert(outcomes[0] == FetchOutcome::Block { rewards });
    } else {
        assert(outcomes[0] == skips[0]);
        let next = BlockScan {
            slot: (scan.slot + 1) as u64,
            retries_left: (scan.retries_left - 1) as u64,
        };
        assert(scan.step(outcomes[0]) == ScanStepModel::Retry(next));
        let rest = skips.drop_first();
        assert(outcomes.drop_first() =~= rest.push(FetchOutcome::Block { rewards }));
        assert(all_skipped(rest)) by {
            assert forall|i: int| 0 <= i < rest.len() implies is_skip(#[trigger] rest[i]) by {
                assert(rest[i] == skips[i + 1]);
            }
        }
        lemma_scan_finds_first_block(next, rest, rewards);
    }
}

/// A scan that meets nothing but skipped slots gives up after the retries
/// it was allowed, at the slot that many past its first.
pub proof fn lemma_scan_gives_up(scan: BlockScan, skips: Seq<FetchOutcome>)
    requires
        all_skipped(skips),
        skips.len() == scan.retries_left + 1,
        scan.slot + scan.retries_left <= u64::MAX,
    ensures
        scan.run(skips) == Some(
            ScanStepModel::Exhausted { slot: (scan.slot + scan.retries_left) as u64 },
        ),
    decreases skips.len(),
{
    assert(is_skip(skips[0]));
    if skips.len() > 1 {
        let next = BlockScan {
            slot: (scan.slot + 1) as u64,
            retries_left: (scan.retries_left - 1) as u64,
        };
        let rest = skips.drop_first();
        assert(all_skipped(rest)) by {
            assert forall|i: int| 0 <= i < rest.len() implies is_skip(#[trigger] rest[i]) by {
                assert(rest[i] == skips[i + 1]);
            }
        }
        lemma_scan_gives_up(next, rest);
    }
}

} // verus!
