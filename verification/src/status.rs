//! The performance snapshot of one validator in one epoch.
//!
//! The snapshot is put together in two steps, because what has to be asked
//! of the node in between depends on the first: [`begin_status`] picks the
//! validator's vote account and says which slots to ask about, and
//! [`StatusInquiry::complete`] folds the node's answers in.

use crate::accounts::{credits_earned, credits_earned_in, VoteAccountRecord, VoteAccounts};
use crate::epoch::{epoch_slot_range, EpochInfo, FutureEpoch};
use vstd::prelude::*;

verus! {

/// Lamports in one SOL.
pub const LAMPORTS_IN_SOL: u64 = 1_000_000_000;

/// Reads the constant `solana_sdk::native_token::LAMPORTS_PER_SOL`, which
/// the ledger's SDK fixes at ten to the ninth.
#[verifier::external_body]
fn lamports_per_sol() -> (lamports: u64)
    ensures
        lamports == LAMPORTS_IN_SOL,
{
    solana_sdk::native_token::LAMPORTS_PER_SOL
}

/// Leader slots a validator was assigned in a slot range, and the blocks it
/// produced in them.
#[derive(Clone, Copy, Debug, PartialEq, Eq)]
pub struct BlockProductionStats {
    pub leader_slots: u64,
    pub blocks_produced: u64,
}

/// The share of leader slots in which no block was produced, as the exact
/// fraction `100 * missed / out_of` percent.
///
/// `out_of` is never zero: a validator without leader slots has
/// `missed == 0` and `out_of == 1`, so that its rate is zero.
#[derive(Clone, Copy, Debug, PartialEq, Eq)]
pub struct SkipRate {
    pub missed: u64,
    pub out_of: u64,
}

impl SkipRate {
    /// The rate that belongs to the given production figures.
    pub open spec fn of(stats: BlockProductionStats) -> SkipRate {
        SkipRate {
            missed: if stats.leader_slots >= stats.blocks_produced {
                (stats.leader_slots - stats.blocks_produced) as u64
            } else {
                0
            },
            out_of: if stats.leader_slots == 0 {
                1
            } else {
                stats.leader_slots
            },
        }
    }

    /// The rate in whole percent, rounded down.
    pub open spec fn percent(&self) -> int {
        100 * self.missed / (self.out_of as int)
    }

    /// Computes the rate from production figures.
    pub fn from_stats(stats: &BlockProductionStats) -> (rate: SkipRate)
        ensures
            rate == SkipRate::of(*stats),
    {
        SkipRate {
            missed: stats.leader_slots.saturating_sub(stats.blocks_produced),
            out_of: if stats.leader_slots == 0 {
                1
            } else {
                stats.leader_slots
            },
        }
    }
}

/// A validator without leader slots has a skip rate of zero, and no rate
/// exceeds one hundred percent.
pub proof fn lemma_skip_rate_bounds(stats: BlockProductionStats)
    ensures
        stats.leader_slots == 0 ==> SkipRate::of(stats).missed == 0 && SkipRate::of(
            stats,
        ).percent() == 0,
        SkipRate::of(stats).out_of > 0,
        SkipRate::of(stats).missed <= SkipRate::of(stats).out_of,
        0 <= SkipRate::of(stats).percent() <= 100,
{
    let rate = SkipRate::of(stats);
    assert(0 <= 100 * rate.missed / (rate.out_of as int) <= 100) by (nonlinear_arith)
        requires
            0 <= rate.missed <= rate.out_of,
            rate.out_of > 0,
    ;
}

/// The performance of one validator in one epoch.
#[derive(Clone, Copy, Debug, PartialEq, Eq)]
pub struct ValidatorStatus {
    /// The epoch the figures are about.
    pub epoch: u64,
    /// How much of that epoch has passed, in percent.
    pub epoch_progress: u64,
    /// Vote credits earned in the epoch.
    pub credits: u64,
    /// Slots between the last vote and the last rooted slot.
    pub vote_distance: u64,
    /// Active stake in whole SOL.
    pub delegated_stake: u64,
    /// Leader slots scheduled over the whole epoch.
    pub leader_slots_count: u64,
    /// Leader slots that have already passed.
    pub leader_slots_elapsed: u64,
    /// Blocks produced in the leader slots that have passed.
    pub blocks_produced: u64,
    /// Share of the passed leader slots without a block.
    pub skip_rate: SkipRate,
    /// Whether the validator has fallen behind.
    pub is_delinquent: bool,
}

/// What is known of a validator from its vote account alone, together with
/// the questions that remain to be put to the node.
#[derive(Clone, Debug)]
pub struct StatusInquiry {
    pub epoch: u64,
    pub epoch_progress: u64,
    pub credits: u64,
    pub vote_distance: u64,
    pub delegated_stake: u64,
    pub is_delinquent: bool,
    /// Identity of the node whose block production and leader schedule are
    /// to be asked for.
    pub identity: String,
    /// First slot of the block-production range, and the slot from which to
    /// take the leader schedule.
    pub first_slot: u64,
    /// Last slot of the block-production range.
    pub last_slot: u64,
}

/// What a status inquiry holds, as mathematical values.
pub struct StatusInquiryModel {
    pub epoch: u64,
    pub epoch_progress: u64,
    pub credits: u64,
    pub vote_distance: u64,
    pub delegated_stake: u64,
    pub is_delinquent: bool,
    pub identity: Seq<char>,
    pub first_slot: u64,
    pub last_slot: u64,
}

impl View for StatusInquiry {
    type V = StatusInquiryModel;

    open spec fn view(&self) -> StatusInquiryModel {
        StatusInquiryModel {
            epoch: self.epoch,
            epoch_progress: self.epoch_progress,
            credits: self.credits,
            vote_distance: self.vote_distance,
            delegated_stake: self.delegated_stake,
            is_delinquent: self.is_delinquent,
            identity: self.identity@,
            first_slot: self.first_slot,
            last_slot: self.last_slot,
        }
    }
}

/// Position of the first account at or after `start` whose vote address is
/// `vote_pubkey`.
pub open spec fn account_position(
    accounts: Seq<VoteAccountRecord>,
    vote_pubkey: Seq<char>,
    start: int,
) -> Option<int>
    decreases accounts.len() - start,
{
    if start < 0 || start >= accounts.len() {
        None
    } else if accounts[start].vote_pubkey@ == vote_pubkey {
        Some(start)
    } else {
        account_position(accounts, vote_pubkey, start + 1)
    }
}

/// The account that answers to `vote_pubkey`, and whether it is delinquent:
/// the voting accounts are searched first, the delinquent ones after them.
pub open spec fn selected_account(accounts: VoteAccounts, vote_pubkey: Seq<char>) -> Option<
    (VoteAccountRecord, bool),
> {
    match account_position(accounts.current@, vote_pubkey, 0) {
        Some(i) => Some((accounts.current@[i], false)),
        None => match account_position(accounts.delinquent@, vote_pubkey, 0) {
            Some(i) => Some((accounts.delinquent@[i], true)),
            None => None,
        },
    }
}

/// A position that `account_position` reports lies in range and holds the
/// address looked for; without a report, no account holds it.
pub proof fn lemma_account_position(
    accounts: Seq<VoteAccountRecord>,
    vote_pubkey: Seq<char>,
    start: int,
)
    requires
        0 <= start,
    ensures
        account_position(accounts, vote_pubkey, start) matches Some(i) ==> start <= i
            < accounts.len() && accounts[i].vote_pubkey@ == vote_pubkey,
        account_position(accounts, vote_pubkey, start) is None ==> forall|i: int|
            start <= i < accounts.len() ==> accounts[i].vote_pubkey@ != vote_pubkey,
    decreases accounts.len() - start,
{
    if start < accounts.len() && accounts[start].vote_pubkey@ != vote_pubkey {
        lemma_account_position(accounts, vote_pubkey, start + 1);
        if account_position(accounts, vote_pubkey, start) is None {
            assert forall|i: int| start <= i < accounts.len() implies accounts[i].vote_pubkey@
                != vote_pubkey by {
                if i > start {
                }
            }
        }
    }
}

fn find_account<'a>(accounts: &'a Vec<VoteAccountRecord>, vote_pubkey: &String) -> (found: Option<
    &'a VoteAccountRecord,
>)
    ensures
        found is Some <==> account_position(accounts@, vote_pubkey@, 0) is Some,
        found matches Some(account) ==> *account == accounts@[account_position(
            accounts@,
            vote_pubkey@,
            0,
        )->0],
{
    let mut i: usize = 0;
    while i < accounts.len()
        invariant
            i <= accounts.len(),
            account_position(accounts@, vote_pubkey@, 0) == account_position(
                accounts@,
                vote_pubkey@,
                i as int,
            ),
        decreases accounts.len() - i,
    {
        if accounts[i].vote_pubkey == *vote_pubkey {
            return Some(&accounts[i]);
        }
        i += 1;
    }
    None
}

/// Picks the account that answers to `vote_pubkey`, and says whether it was
/// found among the delinquent ones.
pub fn select_account<'a>(accounts: &'a VoteAccounts, vote_pubkey: &str) -> (found: Option<
    (&'a VoteAccountRecord, bool),
>)
    ensures
        found is Some <==> selected_account(*accounts, vote_pubkey@) is Some,
        found matches Some((account, delinquent)) ==> selected_account(*accounts, vote_pubkey@)
            == Some((*account, delinquent)),
{
    let wanted: String = String::from_str(vote_pubkey);
    match find_account(&accounts.current, &wanted) {
        Some(account) => Some((account, false)),
        None => match find_account(&accounts.delinquent, &wanted) {
            Some(account) => Some((account, true)),
            None => None,
        },
    }
}

/// Slots between the last vote and the last root, zero where the account
/// reports a root past its last vote.
pub open spec fn vote_distance_of(account: VoteAccountRecord) -> int {
    if account.last_vote >= account.root_slot {
        account.last_vote - account.root_slot
    } else {
        0
    }
}

/// Share of `target_epoch` that has passed, in percent: all of a past epoch,
/// and of the current one the part before the slot index.
pub open spec fn epoch_progress_of(epoch_info: EpochInfo, target_epoch: u64) -> int {
    if epoch_info.epoch > target_epoch {
        100
    } else {
        epoch_info.slot_index * 100 / (epoch_info.slots_in_epoch as int)
    }
}

/// A past epoch is complete, and no epoch is more than complete.
pub proof fn lemma_epoch_progress(epoch_info: EpochInfo, target_epoch: u64)
    requires
        epoch_info.wf(),
    ensures
        0 <= epoch_progress_of(epoch_info, target_epoch) <= 100,
        target_epoch < epoch_info.epoch ==> epoch_progress_of(epoch_info, target_epoch) == 100,
        target_epoch >= epoch_info.epoch ==> epoch_progress_of(epoch_info, target_epoch) < 100,
{
    assert(0 <= epoch_info.slot_index * 100 / (epoch_info.slots_in_epoch as int) < 100)
        by (nonlinear_arith)
        requires
            0 <= epoch_info.slot_index < epoch_info.slots_in_epoch,
    ;
}

/// The inquiry that `account` gives rise to.
pub open spec fn inquiry_for(
    account: VoteAccountRecord,
    delinquent: bool,
    epoch_info: EpochInfo,
    target_epoch: u64,
) -> StatusInquiryModel
    recommends
        target_epoch <= epoch_info.epoch,
        epoch_info.wf(),
{
    StatusInquiryModel {
        epoch: target_epoch,
        epoch_progress: epoch_progress_of(epoch_info, target_epoch) as u64,
        credits: match credits_earned(account.epoch_credits@, target_epoch) {
            Some(c) => c as u64,
            None => 0,
        },
        vote_distance: vote_distance_of(account) as u64,
        delegated_stake: (account.activated_stake / LAMPORTS_IN_SOL) as u64,
        is_delinquent: delinquent,
        identity: account.node_pubkey@,
        first_slot: epoch_info.first_slot(target_epoch) as u64,
        last_slot: epoch_info.last_slot(target_epoch) as u64,
    }
}

/// What `begin_status` answers: nothing for a validator that appears in
/// neither list, an error for a known validator and an epoch that has not
/// come yet, and otherwise the inquiry for the validator's account.
pub open spec fn status_begun(
    accounts: VoteAccounts,
    epoch_info: EpochInfo,
    target_epoch: u64,
    vote_pubkey: Seq<char>,
) -> Result<Option<StatusInquiryModel>, FutureEpoch> {
    match selected_account(accounts, vote_pubkey) {
        None => Ok(None),
        Some((account, delinquent)) => if target_epoch > epoch_info.epoch {
            Err(FutureEpoch { requested: target_epoch, current: epoch_info.epoch })
        } else {
            Ok(Some(inquiry_for(account, delinquent, epoch_info, target_epoch)))
        },
    }
}

/// Starts the status of the validator whose vote account is `vote_pubkey`.
///
/// A validator that appears in neither list is unknown, which is no error:
/// the result is `Ok(None)`. For a known validator the epoch must not lie
/// in the future.
pub fn begin_status(
    accounts: &VoteAccounts,
    epoch_info: &EpochInfo,
    target_epoch: u64,
    vote_pubkey: &str,
) -> (inquiry: Result<Option<StatusInquiry>, FutureEpoch>)
    requires
        epoch_info.wf(),
    ensures
        match status_begun(*accounts, *epoch_info, target_epoch, vote_pubkey@) {
            Ok(None) => inquiry == Ok::<Option<StatusInquiry>, FutureEpoch>(None),
            Ok(Some(expected)) => inquiry matches Ok(Some(started)) && started@ == expected,
            Err(e) => inquiry == Err::<Option<StatusInquiry>, FutureEpoch>(e),
        },
{
    let (account, is_delinquent) = match select_account(accounts, vote_pubkey) {
        Some(found) => found,
        None => {
            return Ok(None);
        },
    };
    let (first_slot, last_slot) = match epoch_slot_range(epoch_info, target_epoch) {
        Ok(window) => window,
        Err(e) => {
            return Err(e);
        },
    };
    let credits: u64 = match credits_earned_in(&account.epoch_credits, target_epoch) {
        Some(c) => c,
        None => 0,
    };
    let epoch_progress: u64 = if epoch_info.epoch > target_epoch {
        100
    } else {
        proof {
            lemma_epoch_progress(*epoch_info, target_epoch);
        }
        ((epoch_info.slot_index as u128) * 100 / (epoch_info.slots_in_epoch as u128)) as u64
    };
    Ok(
        Some(
            StatusInquiry {
                epoch: target_epoch,
                epoch_progress,
                credits,
                vote_distance: account.last_vote.saturating_sub(account.root_slot),
                delegated_stake: account.activated_stake / lamports_per_sol(),
                is_delinquent,
                identity: account.node_pubkey.clone(),
                first_slot,
                last_slot,
            },
        ),
    )
}

/// Position of the first entry at or after `start` that is filed under
/// `identity`.
pub open spec fn entry_position<T>(entries: Seq<(String, T)>, identity: Seq<char>, start: int)
    -> Option<int>
    decreases entries.len() - start,
{
    if start < 0 || start >= entries.len() {
        None
    } else if entries[start].0@ == identity {
        Some(start)
    } else {
        entry_position(entries, identity, start + 1)
    }
}

/// A position that `entry_position` reports lies in range and is filed
/// under the identity looked for; without a report, no entry is.
pub proof fn lemma_entry_position<T>(entries: Seq<(String, T)>, identity: Seq<char>, start: int)
    requires
        0 <= start,
    ensures
        entry_position(entries, identity, start) matches Some(i) ==> start <= i < entries.len()
            && entries[i].0@ == identity,
        entry_position(entries, identity, start) is None ==> forall|i: int|
            start <= i < entries.len() ==> entries[i].0@ != identity,
    decreases entries.len() - start,
{
    if start < entries.len() && entries[start].0@ != identity {
        lemma_entry_position(entries, identity, start + 1);
        if entry_position(entries, identity, start) is None {
            assert forall|i: int| start <= i < entries.len() implies entries[i].0@
                != identity by {
                if i > start {
                }
            }
        }
    }
}

/// The production figures filed under `identity`; zeros where there are
/// none.
pub open spec fn production_of(
    production: Seq<(String, BlockProductionStats)>,
    identity: Seq<char>,
) -> BlockProductionStats {
    match entry_position(production, identity, 0) {
        Some(i) => production[i].1,
        None => BlockProductionStats { leader_slots: 0, blocks_produced: 0 },
    }
}

/// Number of leader slots that the schedule holds for `identity`; zero where
/// there is no schedule or the identity is not in it.
pub open spec fn scheduled_slots(
    schedule: Option<Vec<(String, Vec<usize>)>>,
    identity: Seq<char>,
) -> nat {
    match schedule {
        Some(entries) => match entry_position(entries@, identity, 0) {
            Some(i) => entries@[i].1@.len(),
            None => 0,
        },
        None => 0,
    }
}

/// The status that an inquiry and the node's answers to it amount to.
pub open spec fn status_of(
    inquiry: StatusInquiryModel,
    production: Seq<(String, BlockProductionStats)>,
    schedule: Option<Vec<(String, Vec<usize>)>>,
) -> ValidatorStatus {
    let produced = production_of(production, inquiry.identity);
    ValidatorStatus {
        epoch: inquiry.epoch,
        epoch_progress: inquiry.epoch_progress,
        credits: inquiry.credits,
        vote_distance: inquiry.vote_distance,
        delegated_stake: inquiry.delegated_stake,
        leader_slots_count: scheduled_slots(schedule, inquiry.identity) as u64,
        leader_slots_elapsed: produced.leader_slots,
        blocks_produced: produced.blocks_produced,
        skip_rate: SkipRate::of(produced),
        is_delinquent: inquiry.is_delinquent,
    }
}

fn find_production(production: &Vec<(String, BlockProductionStats)>, identity: &String) -> (stats:
    BlockProductionStats)
    ensures
        stats == production_of(production@, identity@),
{
    let mut i: usize = 0;
    while i < production.len()
        invariant
            i <= production.len(),
            entry_position(production@, identity@, 0) == entry_position(
                production@,
                identity@,
                i as int,
            ),
        decreases production.len() - i,
    {
        if production[i].0 == *identity {
            return production[i].1;
        }
        i += 1;
    }
    BlockProductionStats { leader_slots: 0, blocks_produced: 0 }
}

fn count_scheduled(schedule: &Option<Vec<(String, Vec<usize>)>>, identity: &String) -> (count: u64)
    ensures
        count == scheduled_slots(*schedule, identity@),
{
    match schedule {
        Some(entries) => {
            let mut i: usize = 0;
            while i < entries.len()
                invariant
                    i <= entries.len(),
                    *schedule == Some(*entries),
                    entry_position(entries@, identity@, 0) == entry_position(
                        entries@,
                        identity@,
                        i as int,
                    ),
                decreases entries.len() - i,
            {
                if entries[i].0 == *identity {
                    return entries[i].1.len() as u64;
                }
                i += 1;
            }
            0
        },
        None => 0,
    }
}

impl StatusInquiry {
    /// Completes the status with what the node answered: the block
    /// production by identity over `first_slot..=last_slot`, and the leader
    /// schedule by identity taken at `first_slot`, if the node had one.
    pub fn complete(
        &self,
        production: &Vec<(String, BlockProductionStats)>,
        schedule: &Option<Vec<(String, Vec<usize>)>>,
    ) -> (status: ValidatorStatus)
        ensures
            status == status_of(self@, production@, *schedule),
    {
        let produced: BlockProductionStats = find_production(production, &self.identity);
        ValidatorStatus {
            epoch: self.epoch,
            epoch_progress: self.epoch_progress,
            credits: self.credits,
            vote_distance: self.vote_distance,
            delegated_stake: self.delegated_stake,
            leader_slots_count: count_scheduled(schedule, &self.identity),
            leader_slots_elapsed: produced.leader_slots,
            blocks_produced: produced.blocks_produced,
            skip_rate: SkipRate::from_stats(&produced),
            is_delinquent: self.is_delinquent,
        }
    }
}

/// A node that the production figures do not list has no leader slots, no
/// blocks and a skip rate of zero; a node that the schedule does not list,
/// and any node where there is no schedule, has no scheduled slots.
pub proof fn lemma_unlisted_identity(
    inquiry: StatusInquiryModel,
    production: Seq<(String, BlockProductionStats)>,
    schedule: Option<Vec<(String, Vec<usize>)>>,
)
    ensures
        (forall|i: int| 0 <= i < production.len() ==> production[i].0@ != inquiry.identity) ==> {
            let status = status_of(inquiry, production, schedule);
            status.leader_slots_elapsed == 0 && status.blocks_produced == 0
                && status.skip_rate.missed == 0
        },
        schedule is None ==> status_of(inquiry, production, schedule).leader_slots_count == 0,
        (schedule matches Some(entries) && forall|i: int|
            0 <= i < entries@.len() ==> entries@[i].0@ != inquiry.identity) ==> status_of(
            inquiry,
            production,
            schedule,
        ).leader_slots_count == 0,
{
    lemma_entry_position(production, inquiry.identity, 0);
    if schedule is Some {
        lemma_entry_position(schedule->0@, inquiry.identity, 0);
    }
}

/// A validator found only among the delinquent accounts is reported as
/// delinquent, and one found among the voting accounts is not.
pub proof fn lemma_delinquency(accounts: VoteAccounts, vote_pubkey: Seq<char>)
    ensures
        selected_account(accounts, vote_pubkey) matches Some((_, delinquent)) ==> (delinquent
            <==> (forall|i: int|
            0 <= i < accounts.current@.len() ==> accounts.current@[i].vote_pubkey@
                != vote_pubkey)),
        selected_account(accounts, vote_pubkey) is None <==> (forall|i: int|
            0 <= i < accounts.current@.len() ==> accounts.current@[i].vote_pubkey@ != vote_pubkey)
            && (forall|i: int|
            0 <= i < accounts.delinquent@.len() ==> accounts.delinquent@[i].vote_pubkey@
                != vote_pubkey),
{
    lemma_account_position(accounts.current@, vote_pubkey, 0);
    lemma_account_position(accounts.delinquent@, vote_pubkey, 0);
}

} // verus!
