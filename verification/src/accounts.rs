//! Vote accounts as the ledger reports them, and the credits they earned.

use vstd::prelude::*;

verus! {

/// One vote account, as reported for the current epoch.
#[derive(Clone, Debug)]
pub struct VoteAccountRecord {
    /// Address of the vote account, in base58.
    pub vote_pubkey: String,
    /// Identity of the validator node, in base58.
    pub node_pubkey: String,
    /// Stake delegated to the account and active in this epoch, in lamports.
    pub activated_stake: u64,
    /// Most recent slot the account voted on.
    pub last_vote: u64,
    /// Most recent slot the account has rooted.
    pub root_slot: u64,
    /// Share of the rewards the validator keeps, in percent.
    pub commission: u8,
    /// History of `(epoch, credits, previous credits)`, credits being
    /// cumulative.
    pub epoch_credits: Vec<(u64, u64, u64)>,
}

/// What a vote account record says, as mathematical values.
pub struct VoteAccountModel {
    pub vote_pubkey: Seq<char>,
    pub node_pubkey: Seq<char>,
    pub activated_stake: u64,
    pub last_vote: u64,
    pub root_slot: u64,
    pub commission: u8,
    pub epoch_credits: Seq<(u64, u64, u64)>,
}

impl View for VoteAccountRecord {
    type V = VoteAccountModel;

    open spec fn view(&self) -> VoteAccountModel {
        VoteAccountModel {
            vote_pubkey: self.vote_pubkey@,
            node_pubkey: self.node_pubkey@,
            activated_stake: self.activated_stake,
            last_vote: self.last_vote,
            root_slot: self.root_slot,
            commission: self.commission,
            epoch_credits: self.epoch_credits@,
        }
    }
}

/// The vote accounts of a cluster, split by liveness.
#[derive(Clone, Debug)]
pub struct VoteAccounts {
    /// Accounts that are voting.
    pub current: Vec<VoteAccountRecord>,
    /// Accounts that have fallen behind.
    pub delinquent: Vec<VoteAccountRecord>,
}

/// The models of a sequence of records, in order.
pub open spec fn models(records: Seq<VoteAccountRecord>) -> Seq<VoteAccountModel> {
    records.map_values(|record: VoteAccountRecord| record@)
}

/// Credits an entry of the history stands for: the growth of the cumulative
/// count over the epoch, zero where the count did not grow.
pub open spec fn entry_credits(entry: (u64, u64, u64)) -> int {
    if entry.1 >= entry.2 {
        entry.1 - entry.2
    } else {
        0
    }
}

/// Credits earned in `epoch` according to the first entry for that epoch at
/// or after position `start`; `None` where there is no such entry.
pub open spec fn credits_from(history: Seq<(u64, u64, u64)>, epoch: u64, start: int) -> Option<
    int,
>
    decreases history.len() - start,
{
    if start < 0 || start >= history.len() {
        None
    } else if history[start].0 == epoch {
        Some(entry_credits(history[start]))
    } else {
        credits_from(history, epoch, start + 1)
    }
}

/// Credits earned in `epoch`: those of the first entry for that epoch.
pub open spec fn credits_earned(history: Seq<(u64, u64, u64)>, epoch: u64) -> Option<int> {
    credits_from(history, epoch, 0)
}

/// A history without an entry for `epoch` yields no credits, and one with
/// such an entry yields the credits of the earliest.
pub proof fn lemma_credits_from(history: Seq<(u64, u64, u64)>, epoch: u64, start: int)
    requires
        0 <= start,
    ensures
        credits_from(history, epoch, start) is None <==> forall|i: int|
            start <= i < history.len() ==> history[i].0 != epoch,
        credits_from(history, epoch, start) matches Some(c) ==> exists|i: int|
            start <= i < history.len() && history[i].0 == epoch && c == entry_credits(history[i])
                && forall|j: int| start <= j < i ==> history[j].0 != epoch,
    decreases history.len() - start,
{
    if start < history.len() {
        if history[start].0 == epoch {
            assert(start <= start < history.len() && history[start].0 == epoch);
        } else {
            lemma_credits_from(history, epoch, start + 1);
            if credits_from(history, epoch, start) is Some {
                let c = credits_from(history, epoch, start)->0;
                let i = choose|i: int|
                    start + 1 <= i < history.len() && history[i].0 == epoch && c == entry_credits(
                        history[i],
                    ) && forall|j: int| start + 1 <= j < i ==> history[j].0 != epoch;
                assert(start <= i < history.len() && history[i].0 == epoch && c == entry_credits(
                    history[i],
                ) && forall|j: int| start <= j < i ==> history[j].0 != epoch);
            } else {
                assert forall|i: int| start <= i < history.len() implies history[i].0
                    != epoch by {
                    if i > start {
                    }
                }
            }
        }
    }
}

/// Looks up the credits earned in `epoch`.
pub fn credits_earned_in(history: &Vec<(u64, u64, u64)>, epoch: u64) -> (earned: Option<u64>)
    ensures
        earned is Some <==> credits_earned(history@, epoch) is Some,
        earned matches Some(c) ==> credits_earned(history@, epoch) == Some(c as int),
{
    let mut i: usize = 0;
    while i < history.len()
        invariant
            i <= history.len(),
            credits_earned(history@, epoch) == credits_from(history@, epoch, i as int),
        decreases history.len() - i,
    {
        let entry: (u64, u64, u64) = history[i];
        if entry.0 == epoch {
            return Some(entry.1.saturating_sub(entry.2));
        }
        i += 1;
    }
    None
}

} // verus!
