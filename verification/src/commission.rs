//! Commissions of validators as a block's rewards record them.

use crate::identity::{decoded_public_key, PublicKeyId};
use vstd::prelude::*;

verus! {

/// What a reward was paid for.
#[derive(Clone, Copy, Debug, PartialEq, Eq)]
pub enum RewardKind {
    Fee,
    Rent,
    Staking,
    Voting,
}

/// One reward recorded in a block.
#[derive(Clone, Debug)]
pub struct RewardEntry {
    /// Address the reward went to, in base58.
    pub pubkey: String,
    /// What the reward was paid for, where the block says so.
    pub reward_type: Option<RewardKind>,
    /// Commission of the vote account at the time, for voting and staking
    /// rewards.
    pub commission: Option<u8>,
}

/// Commission in percent by vote account.
#[derive(Clone, Debug)]
pub struct CommissionTable {
    entries: Vec<(PublicKeyId, u8)>,
}

/// The table that a list of entries stands for, a later entry for a key
/// replacing an earlier one.
pub closed spec fn table_of(entries: Seq<(PublicKeyId, u8)>) -> Map<Seq<u8>, u8>
    decreases entries.len(),
{
    if entries.len() == 0 {
        Map::empty()
    } else {
        table_of(entries.drop_last()).insert(entries.last().0@, entries.last().1)
    }
}

impl View for CommissionTable {
    type V = Map<Seq<u8>, u8>;

    closed spec fn view(&self) -> Map<Seq<u8>, u8> {
        table_of(self.entries@)
    }
}

impl CommissionTable {
    /// A table without entries.
    pub fn new() -> (table: CommissionTable)
        ensures
            table@ == Map::<Seq<u8>, u8>::empty(),
    {
        CommissionTable { entries: Vec::new() }
    }

    /// Records the commission of `key`, replacing what was recorded before.
    pub fn insert(&mut self, key: PublicKeyId, commission: u8)
        ensures
            final(self)@ == old(self)@.insert(key@, commission),
    {
        self.entries.push((key, commission));
        assert(self.entries@.drop_last() =~= old(self).entries@);
    }

    /// The commission recorded for `key`.
    pub fn get(&self, key: &PublicKeyId) -> (commission: Option<u8>)
        ensures
            commission == if self@.contains_key(key@) {
                Some(self@[key@])
            } else {
                None
            },
    {
        let mut i: usize = self.entries.len();
        assert(self.entries@.take(i as int) =~= self.entries@);
        while i > 0
            invariant
                i <= self.entries.len(),
                self@.contains_key(key@) == table_of(self.entries@.take(i as int)).contains_key(
                    key@,
                ),
                self@.contains_key(key@) ==> self@[key@] == table_of(
                    self.entries@.take(i as int),
                )[key@],
            decreases i,
        {
            assert(self.entries@.take(i as int).drop_last() =~= self.entries@.take(i - 1));
            i -= 1;
            if self.entries[i].0.same_as(key) {
                return Some(self.entries[i].1);
            }
        }
        None
    }
}

/// The key and commission that a reward contributes to the table: those of
/// a voting reward that names its commission and whose address is a key.
pub open spec fn voting_commission(entry: RewardEntry) -> Option<(Seq<u8>, u8)> {
    if entry.reward_type == Some(RewardKind::Voting) && entry.commission is Some {
        match decoded_public_key(entry.pubkey@) {
            Some(key) => Some((key, entry.commission->0)),
            None => None,
        }
    } else {
        None
    }
}

/// The commissions that a block's rewards record, a later reward for a vote
/// account replacing an earlier one.
pub open spec fn commissions_of(rewards: Seq<RewardEntry>) -> Map<Seq<u8>, u8>
    decreases rewards.len(),
{
    if rewards.len() == 0 {
        Map::empty()
    } else {
        let earlier = commissions_of(rewards.drop_last());
        match voting_commission(rewards.last()) {
            Some((key, commission)) => earlier.insert(key, commission),
            None => earlier,
        }
    }
}

/// Collects the commissions of the vote accounts from a block's rewards.
///
/// Rewards of another kind, rewards without a commission, and rewards whose
/// address cannot be read as a key are passed over.
pub fn voting_commissions(rewards: &Vec<RewardEntry>) -> (table: CommissionTable)
    ensures
        table@ == commissions_of(rewards@),
{
    let mut table: CommissionTable = CommissionTable::new();
    let mut i: usize = 0;
    assert(rewards@.take(0) =~= Seq::<RewardEntry>::empty());
    while i < rewards.len()
        invariant
            i <= rewards.len(),
            table@ == commissions_of(rewards@.take(i as int)),
        decreases rewards.len() - i,
    {
        assert(rewards@.take(i + 1).drop_last() =~= rewards@.take(i as int));
        assert(rewards@.take(i + 1).last() == rewards@[i as int]);
        let entry: &RewardEntry = &rewards[i];
        match (entry.reward_type, entry.commission) {
            (Some(RewardKind::Voting), Some(commission)) => {
                match PublicKeyId::parse(entry.pubkey.as_str()) {
                    Some(key) => {
                        table.insert(key, commission);
                    },
                    None => {},
                }
            },
            _ => {},
        }
        i += 1;
    }
    assert(rewards@.take(i as int) =~= rewards@);
    table
}

} // verus!
