//! Ranking all validators by the vote credits that reach their stakers.

use crate::accounts::{
    credits_earned, credits_earned_in, lemma_credits_from, VoteAccountRecord, VoteAccounts,
};
use crate::commission::CommissionTable;
use crate::epoch::{epoch_slot_range, EpochInfo, FutureEpoch};
use crate::identity::{decoded_public_key, PublicKeyId};
use crate::scanner::BlockScan;
use vstd::prelude::*;

verus! {

/// One validator in a ranking.
#[derive(Clone, Copy, Debug, PartialEq, Eq)]
pub struct RankedEntry {
    /// Credits of the epoch that are left for the stakers after commission.
    pub staker_credits: u64,
    /// The validator's vote account.
    pub vote_pubkey: PublicKeyId,
    /// Stake active on the account, in lamports.
    pub activated_stake: u64,
}

/// What a ranked entry says, as mathematical values.
pub struct Ranked {
    pub staker_credits: u64,
    pub vote_pubkey: Seq<u8>,
    pub activated_stake: u64,
}

impl View for RankedEntry {
    type V = Ranked;

    open spec fn view(&self) -> Ranked {
        Ranked {
            staker_credits: self.staker_credits,
            vote_pubkey: self.vote_pubkey@,
            activated_stake: self.activated_stake,
        }
    }
}

/// The commission of an earlier epoch was asked for, and the table of that
/// epoch does not hold the vote account.
#[derive(Clone, Copy, Debug, PartialEq, Eq)]
pub struct MissingCommission {
    pub vote_pubkey: PublicKeyId,
}

/// The models of a sequence of entries, in order.
pub open spec fn ranked_models(entries: Seq<RankedEntry>) -> Seq<Ranked> {
    entries.map_values(|entry: RankedEntry| entry@)
}

/// The part of `epoch_credits` that is left for the stakers when the
/// validator keeps `commission` percent, rounded down. A commission above
/// one hundred leaves nothing.
pub open spec fn staker_share(epoch_credits: int, commission: u8) -> int {
    let left: int = if commission >= 100 {
        0
    } else {
        100 - commission
    };
    epoch_credits * left / 100
}

/// Without commission the stakers get every credit, with full commission
/// none, and never more than was earned.
pub proof fn lemma_staker_share(epoch_credits: int, commission: u8)
    requires
        0 <= epoch_credits,
    ensures
        0 <= staker_share(epoch_credits, commission) <= epoch_credits,
        commission == 0 ==> staker_share(epoch_credits, commission) == epoch_credits,
        commission >= 100 ==> staker_share(epoch_credits, commission) == 0,
{
    let left: int = if commission >= 100 {
        0
    } else {
        100 - commission
    };
    assert(0 <= epoch_credits * left / 100 <= epoch_credits) by (nonlinear_arith)
        requires
            0 <= epoch_credits,
            0 <= left <= 100,
    ;
    assert(left == 100 ==> epoch_credits * left / 100 == epoch_credits) by (nonlinear_arith);
    assert(left == 0 ==> epoch_credits * left / 100 == 0) by (nonlinear_arith);
}

/// Computes the staker credits for the credits of an epoch and a commission
/// in percent.
pub fn staker_credits(epoch_credits: u64, commission: u8) -> (credits: u64)
    ensures
        credits == staker_share(epoch_credits as int, commission),
{
    let left: u128 = if commission >= 100 {
        0
    } else {
        (100 - commission) as u128
    };
    proof {
        lemma_staker_share(epoch_credits as int, commission);
    }
    assert((epoch_credits as u128) * left <= 0xffff_ffff_ffff_ffff * 100) by (nonlinear_arith)
        requires
            epoch_credits <= 0xffff_ffff_ffff_ffff,
            left <= 100,
    ;
    ((epoch_credits as u128) * left / 100) as u64
}

/// The tables that a ranking may draw commissions from, as a mathematical
/// value: none where the accounts' own commission counts.
pub open spec fn table_model(historical: Option<&CommissionTable>) -> Option<Map<Seq<u8>, u8>> {
    match historical {
        Some(table) => Some(table@),
        None => None,
    }
}

/// The commission that counts for an account: none at all where commission
/// is ignored, else the account's own, or, where a table of an earlier epoch
/// is given, what the table holds for the key. `None` where the table lacks
/// the key.
pub open spec fn commission_for(
    own: u8,
    key: Seq<u8>,
    historical: Option<Map<Seq<u8>, u8>>,
    ignore_commission: bool,
) -> Option<u8> {
    if ignore_commission {
        Some(0)
    } else {
        match historical {
            None => Some(own),
            Some(table) => if table.contains_key(key) {
                Some(table[key])
            } else {
                None
            },
        }
    }
}

/// What an account contributes to the ranking of `epoch`: nothing where its
/// address is no key; an entry without credits where its history has no
/// entry for the epoch; else its staker credits. The key alone where the
/// commission that counts is missing.
pub open spec fn entry_of(
    account: VoteAccountRecord,
    epoch: u64,
    historical: Option<Map<Seq<u8>, u8>>,
    ignore_commission: bool,
) -> Option<Result<Ranked, Seq<u8>>> {
    match decoded_public_key(account.vote_pubkey@) {
        None => None,
        Some(key) => Some(
            match credits_earned(account.epoch_credits@, epoch) {
                None => Ok(
                    Ranked {
                        staker_credits: 0,
                        vote_pubkey: key,
                        activated_stake: account.activated_stake,
                    },
                ),
                Some(earned) => match commission_for(
                    account.commission,
                    key,
                    historical,
                    ignore_commission,
                ) {
                    Some(commission) => Ok(
                        Ranked {
                            staker_credits: staker_share(earned, commission) as u64,
                            vote_pubkey: key,
                            activated_stake: account.activated_stake,
                        },
                    ),
                    None => Err(key),
                },
            },
        ),
    }
}

/// The entries of the accounts from position `start` on, appended in order
/// to `so_far`; the key of the first account whose commission is missing
/// instead, where there is one.
pub open spec fn collected_from(
    accounts: Seq<VoteAccountRecord>,
    start: int,
    so_far: Seq<Ranked>,
    epoch: u64,
    historical: Option<Map<Seq<u8>, u8>>,
    ignore_commission: bool,
) -> Result<Seq<Ranked>, Seq<u8>>
    decreases accounts.len() - start,
{
    if start < 0 || start >= accounts.len() {
        Ok(so_far)
    } else {
        match entry_of(accounts[start], epoch, historical, ignore_commission) {
            None => collected_from(
                accounts,
                start + 1,
                so_far,
                epoch,
                historical,
                ignore_commission,
            ),
            Some(Ok(entry)) => collected_from(
                accounts,
                start + 1,
                so_far.push(entry),
                epoch,
                historical,
                ignore_commission,
            ),
            Some(Err(key)) => Err(key),
        }
    }
}

/// All accounts, the voting ones first, in the order in which they are
/// listed.
pub open spec fn listed(accounts: VoteAccounts) -> Seq<VoteAccountRecord> {
    accounts.current@ + accounts.delinquent@
}

/// The entries of all accounts, in the order in which the accounts are
/// listed.
pub open spec fn collected(
    accounts: VoteAccounts,
    epoch: u64,
    historical: Option<Map<Seq<u8>, u8>>,
    ignore_commission: bool,
) -> Result<Seq<Ranked>, Seq<u8>> {
    collected_from(
        listed(accounts),
        0,
        Seq::empty(),
        epoch,
        historical,
        ignore_commission,
    )
}

/// Where an entry with `credits` goes into a ranking, looking from `start`:
/// before the first entry with fewer credits, so behind every entry with
/// as many.
pub open spec fn insertion_point(ranked: Seq<Ranked>, credits: u64, start: int) -> int
    decreases ranked.len() - start,
{
    if start < 0 || start >= ranked.len() {
        ranked.len() as int
    } else if ranked[start].staker_credits < credits {
        start
    } else {
        insertion_point(ranked, credits, start + 1)
    }
}

/// The entries in descending order of staker credits, entries with equal
/// credits in the order in which they came.
pub open spec fn ranking_of(entries: Seq<Ranked>) -> Seq<Ranked>
    decreases entries.len(),
{
    if entries.len() == 0 {
        Seq::empty()
    } else {
        let earlier = ranking_of(entries.drop_last());
        earlier.insert(
            insertion_point(earlier, entries.last().staker_credits, 0),
            entries.last(),
        )
    }
}

/// The ranking of the accounts for `epoch`, or the key whose commission is
/// missing.
pub open spec fn ranking(
    accounts: VoteAccounts,
    epoch: u64,
    historical: Option<Map<Seq<u8>, u8>>,
    ignore_commission: bool,
) -> Result<Seq<Ranked>, Seq<u8>> {
    match collected(accounts, epoch, historical, ignore_commission) {
        Ok(entries) => Ok(ranking_of(entries)),
        Err(key) => Err(key),
    }
}

/// The insertion point lies between `start` and the end; the entries from
/// `start` up to it have at least `credits`, and the entry at it has fewer.
pub proof fn lemma_insertion_point(ranked: Seq<Ranked>, credits: u64, start: int)
    requires
        0 <= start <= ranked.len(),
    ensures
        start <= insertion_point(ranked, credits, start) <= ranked.len(),
        forall|j: int|
            start <= j < insertion_point(ranked, credits, start) ==> ranked[j].staker_credits
                >= credits,
        insertion_point(ranked, credits, start) < ranked.len() ==> ranked[insertion_point(
            ranked,
            credits,
            start,
        )].staker_credits < credits,
    decreases ranked.len() - start,
{
    if start < ranked.len() && ranked[start].staker_credits >= credits {
        lemma_insertion_point(ranked, credits, start + 1);
        assert forall|j: int|
            start <= j < insertion_point(ranked, credits, start) implies ranked[j].staker_credits
            >= credits by {
            if j > start {
            }
        }
    }
}

/// Whether the entries stand in descending order of staker credits.
pub open spec fn descending(ranked: Seq<Ranked>) -> bool {
    forall|i: int, j: int|
        0 <= i < j < ranked.len() ==> ranked[i].staker_credits >= ranked[j].staker_credits
}

/// A ranking holds as many entries as it was made of, in descending order
/// of staker credits.
pub proof fn lemma_ranking_descending(entries: Seq<Ranked>)
    ensures
        ranking_of(entries).len() == entries.len(),
        descending(ranking_of(entries)),
    decreases entries.len(),
{
    if entries.len() > 0 {
        let earlier = ranking_of(entries.drop_last());
        let last = entries.last();
        lemma_ranking_descending(entries.drop_last());
        lemma_insertion_point(earlier, last.staker_credits, 0);
        let p = insertion_point(earlier, last.staker_credits, 0);
        let ranked = earlier.insert(p, last);
        assert forall|i: int, j: int| 0 <= i < j < ranked.len() implies ranked[i].staker_credits
            >= ranked[j].staker_credits by {
            if j < p {
                assert(ranked[i] == earlier[i] && ranked[j] == earlier[j]);
            } else if j == p {
                assert(ranked[i] == earlier[i]);
            } else if i < p {
                assert(ranked[i] == earlier[i] && ranked[j] == earlier[j - 1]);
            } else if i == p {
                assert(ranked[j] == earlier[j - 1]);
                assert(earlier[p].staker_credits >= earlier[j - 1].staker_credits || j - 1 == p);
            } else {
                assert(ranked[i] == earlier[i - 1] && ranked[j] == earlier[j - 1]);
            }
        }
    }
}

/// Ranking keeps the order in which entries with equal credits came: for
/// any number of credits, the entries with that many are the same sequence
/// before and after. So a ranking also holds exactly the entries it was
/// made of.
pub proof fn lemma_ranking_stable(entries: Seq<Ranked>, credits: u64)
    ensures
        ranking_of(entries).filter(|e: Ranked| e.staker_credits == credits) == entries.filter(
            |e: Ranked| e.staker_credits == credits,
        ),
    decreases entries.len(),
{
    let pred = |e: Ranked| e.staker_credits == credits;
    if entries.len() > 0 {
        let earlier = ranking_of(entries.drop_last());
        let last = entries.last();
        lemma_ranking_stable(entries.drop_last(), credits);
        lemma_ranking_descending(entries.drop_last());
        lemma_insertion_point(earlier, last.staker_credits, 0);
        let p = insertion_point(earlier, last.staker_credits, 0);
        let ranked = earlier.insert(p, last);
        let head = earlier.take(p);
        let tail = earlier.skip(p);
        assert(earlier =~= head + tail);
        assert(ranked =~= (head + seq![last]) + tail);
        Seq::filter_distributes_over_add(head, tail, pred);
        Seq::filter_distributes_over_add(head + seq![last], tail, pred);
        Seq::filter_distributes_over_add(head, seq![last], pred);
        assert(seq![last].drop_last() =~= Seq::<Ranked>::empty());
        assert(seq![last].last() == last);
        assert(seq![last].filter(pred) =~= if pred(last) {
            seq![last]
        } else {
            Seq::<Ranked>::empty()
        }) by {
            reveal_with_fuel(Seq::filter, 2);
        }
        assert(entries.filter(pred) =~= if pred(last) {
            entries.drop_last().filter(pred).push(last)
        } else {
            entries.drop_last().filter(pred)
        }) by {
            reveal_with_fuel(Seq::filter, 1);
        }
        if pred(last) {
            let none = |e: Ranked| !pred(e);
            assert forall|j: int| 0 <= j < tail.len() implies none(#[trigger] tail[j]) by {
                assert(tail[j] == earlier[p + j]);
                assert(earlier[p].staker_credits >= earlier[p + j].staker_credits || j == 0);
            }
            assert(tail.all(none));
            tail.lemma_all_neg_filter_empty(pred);
            assert(tail.filter(pred) =~= Seq::<Ranked>::empty());
            assert(ranked.filter(pred) =~= earlier.filter(pred).push(last));
        } else {
            assert(ranked.filter(pred) =~= earlier.filter(pred));
        }
    }
}

/// The plan for the commissions that a ranking of `target_epoch` needs.
///
/// For the current epoch the accounts' own commission counts, and nothing
/// has to be fetched. For an earlier epoch its first block has to be found,
/// by a scan that starts at the epoch's first slot and steps over at most
/// `max_retries` skipped slots. An epoch that has not come yet is an error.
pub fn commission_scan_for(epoch_info: &EpochInfo, target_epoch: u64, max_retries: u64) -> (plan:
    Result<Option<BlockScan>, FutureEpoch>)
    ensures
        target_epoch == epoch_info.epoch ==> plan == Ok::<Option<BlockScan>, FutureEpoch>(None),
        target_epoch < epoch_info.epoch ==> plan == Ok::<Option<BlockScan>, FutureEpoch>(
            Some(
                BlockScan {
                    slot: epoch_info.first_slot(target_epoch) as u64,
                    retries_left: max_retries,
                },
            ),
        ),
        target_epoch > epoch_info.epoch ==> plan == Err::<Option<BlockScan>, FutureEpoch>(
            FutureEpoch { requested: target_epoch, current: epoch_info.epoch },
        ),
{
    if target_epoch == epoch_info.epoch {
        return Ok(None);
    }
    match epoch_slot_range(epoch_info, target_epoch) {
        Ok((first_slot, _)) => Ok(Some(BlockScan::new(first_slot, max_retries))),
        Err(e) => Err(e),
    }
}

/// Puts entries in descending order of staker credits, keeping entries with
/// equal credits in the order in which they came.
pub fn rank_entries(entries: &Vec<RankedEntry>) -> (ranked: Vec<RankedEntry>)
    ensures
        ranked_models(ranked@) == ranking_of(ranked_models(entries@)),
{
    let mut ranked: Vec<RankedEntry> = Vec::new();
    let mut i: usize = 0;
    assert(ranked_models(entries@).take(0) =~= Seq::<Ranked>::empty());
    assert(ranked_models(ranked@) =~= Seq::<Ranked>::empty());
    while i < entries.len()
        invariant
            i <= entries.len(),
            ranked_models(ranked@) == ranking_of(ranked_models(entries@).take(i as int)),
        decreases entries.len() - i,
    {
        let entry: RankedEntry = entries[i];
        let ghost before = ranked_models(ranked@);
        let mut p: usize = 0;
        while p < ranked.len() && ranked[p].staker_credits >= entry.staker_credits
            invariant
                p <= ranked.len(),
                before == ranked_models(ranked@),
                insertion_point(before, entry.staker_credits, 0) == insertion_point(
                    before,
                    entry.staker_credits,
                    p as int,
                ),
            decreases ranked.len() - p,
        {
            p += 1;
        }
        ranked.insert(p, entry);
        proof {
            let prefix = ranked_models(entries@).take(i + 1);
            assert(prefix.drop_last() =~= ranked_models(entries@).take(i as int));
            assert(prefix.last() == entry@);
            assert(ranked_models(ranked@) =~= before.insert(p as int, entry@));
        }
        i += 1;
    }
    assert(ranked_models(entries@).take(i as int) =~= ranked_models(entries@));
    ranked
}

fn collect_entries(
    list: &mut Vec<RankedEntry>,
    accounts: &Vec<VoteAccountRecord>,
    all: Ghost<Seq<VoteAccountRecord>>,
    offset: Ghost<int>,
    target_epoch: u64,
    historical: Option<&CommissionTable>,
    ignore_commission: bool,
) -> (outcome: Result<(), MissingCommission>)
    requires
        0 <= offset@,
        offset@ + accounts@.len() <= all@.len(),
        forall|j: int| 0 <= j < accounts@.len() ==> all@[offset@ + j] == accounts@[j],
    ensures
        match outcome {
            Ok(_) => collected_from(
                all@,
                offset@,
                ranked_models(old(list)@),
                target_epoch,
                table_model(historical),
                ignore_commission,
            ) == collected_from(
                all@,
                offset@ + accounts@.len(),
                ranked_models(final(list)@),
                target_epoch,
                table_model(historical),
                ignore_commission,
            ),
            Err(e) => collected_from(
                all@,
                offset@,
                ranked_models(old(list)@),
                target_epoch,
                table_model(historical),
                ignore_commission,
            ) == Err::<Seq<Ranked>, Seq<u8>>(e.vote_pubkey@),
        },
{
    let ghost goal = collected_from(
        all@,
        offset@,
        ranked_models(list@),
        target_epoch,
        table_model(historical),
        ignore_commission,
    );
    let mut i: usize = 0;
    while i < accounts.len()
        invariant
            i <= accounts.len(),
            0 <= offset@,
            offset@ + accounts@.len() <= all@.len(),
            forall|j: int| 0 <= j < accounts@.len() ==> all@[offset@ + j] == accounts@[j],
            goal == collected_from(
                all@,
                offset@,
                ranked_models(old(list)@),
                target_epoch,
                table_model(historical),
                ignore_commission,
            ),
            goal == collected_from(
                all@,
                offset@ + i,
                ranked_models(list@),
                target_epoch,
                table_model(historical),
                ignore_commission,
            ),
        decreases accounts.len() - i,
    {
        let account: &VoteAccountRecord = &accounts[i];
        assert(all@[offset@ + i] == *account);
        let ghost before = ranked_models(list@);
        match PublicKeyId::parse(account.vote_pubkey.as_str()) {
            None => {},
            Some(key) => {
                let credits: u64 = match credits_earned_in(&account.epoch_credits, target_epoch) {
                    None => 0,
                    Some(earned) => {
                        let commission: u8 = if ignore_commission {
                            0
                        } else {
                            match historical {
                                None => account.commission,
                                Some(table) => match table.get(&key) {
                                    Some(recorded) => recorded,
                                    None => {
                                        return Err(MissingCommission { vote_pubkey: key });
                                    },
                                },
                            }
                        };
                        staker_credits(earned, commission)
                    },
                };
                list.push(
                    RankedEntry {
                        staker_credits: credits,
                        vote_pubkey: key,
                        activated_stake: account.activated_stake,
                    },
                );
                assert(ranked_models(list@) =~= before.push(list@.last()@));
            },
        }
        i += 1;
    }
    Ok(())
}

/// Ranks all validators by the credits of `target_epoch` that reach their
/// stakers, the highest first.
///
/// Accounts whose address is no key are left out. An account without an
/// entry for the epoch is ranked with no credits. With `historical` given,
/// the commissions are taken from that table instead of the accounts, and
/// an account that has an entry for the epoch but is missing from the table
/// fails the ranking, unless commission is ignored: the error names the
/// first such account, voting accounts coming before delinquent ones.
pub fn rank_validators(
    accounts: &VoteAccounts,
    target_epoch: u64,
    historical: Option<&CommissionTable>,
    ignore_commission: bool,
) -> (ranked: Result<Vec<RankedEntry>, MissingCommission>)
    ensures
        match ranking(*accounts, target_epoch, table_model(historical), ignore_commission) {
            Ok(expected) => ranked matches Ok(list) && ranked_models(list@) == expected,
            Err(key) => ranked matches Err(e) && e.vote_pubkey@ == key,
        },
{
    let ghost all = listed(*accounts);
    let mut list: Vec<RankedEntry> = Vec::new();
    assert(ranked_models(list@) =~= Seq::<Ranked>::empty());
    match collect_entries(
        &mut list,
        &accounts.current,
        Ghost(all),
        Ghost(0),
        target_epoch,
        historical,
        ignore_commission,
    ) {
        Err(e) => {
            return Err(e);
        },
        Ok(()) => {},
    }
    match collect_entries(
        &mut list,
        &accounts.delinquent,
        Ghost(all),
        Ghost(accounts.current@.len() as int),
        target_epoch,
        historical,
        ignore_commission,
    ) {
        Err(e) => {
            return Err(e);
        },
        Ok(()) => {},
    }
    Ok(rank_entries(&list))
}

/// A ranking holds exactly the entries it was made of.
pub proof fn lemma_ranking_holds_entries(entries: Seq<Ranked>, entry: Ranked)
    ensures
        ranking_of(entries).contains(entry) <==> entries.contains(entry),
{
    let pred = |e: Ranked| e.staker_credits == entry.staker_credits;
    lemma_ranking_stable(entries, entry.staker_credits);
    let ranked = ranking_of(entries);
    if entries.contains(entry) {
        let i = choose|i: int| 0 <= i < entries.len() && entries[i] == entry;
        entries.lemma_filter_contains(pred, i);
        ranked.lemma_filter_contains_rev(pred, entry);
    }
    if ranked.contains(entry) {
        let i = choose|i: int| 0 <= i < ranked.len() && ranked[i] == entry;
        ranked.lemma_filter_contains(pred, i);
        entries.lemma_filter_contains_rev(pred, entry);
    }
}

/// Where the entries of the accounts can be collected, they hold whatever
/// was collected before, and the entry of every account from `start` on
/// that has one.
pub proof fn lemma_collected_holds_entries(
    accounts: Seq<VoteAccountRecord>,
    start: int,
    so_far: Seq<Ranked>,
    epoch: u64,
    historical: Option<Map<Seq<u8>, u8>>,
    ignore_commission: bool,
)
    requires
        0 <= start,
        collected_from(accounts, start, so_far, epoch, historical, ignore_commission) is Ok,
    ensures
        forall|entry: Ranked| #[trigger]
            so_far.contains(entry) ==> collected_from(
                accounts,
                start,
                so_far,
                epoch,
                historical,
                ignore_commission,
            )->Ok_0.contains(entry),
        forall|i: int|
            start <= i < accounts.len() && (#[trigger] entry_of(
                accounts[i],
                epoch,
                historical,
                ignore_commission,
            )) is Some ==> collected_from(
                accounts,
                start,
                so_far,
                epoch,
                historical,
                ignore_commission,
            )->Ok_0.contains(
                entry_of(accounts[i], epoch, historical, ignore_commission)->0->Ok_0,
            ),
    decreases accounts.len() - start,
{
    if start < accounts.len() {
        let all = collected_from(accounts, start, so_far, epoch, historical, ignore_commission);
        match entry_of(accounts[start], epoch, historical, ignore_commission) {
            None => {
                lemma_collected_holds_entries(
                    accounts,
                    start + 1,
                    so_far,
                    epoch,
                    historical,
                    ignore_commission,
                );
            },
            Some(Ok(entry)) => {
                let next = so_far.push(entry);
                lemma_collected_holds_entries(
                    accounts,
                    start + 1,
                    next,
                    epoch,
                    historical,
                    ignore_commission,
                );
                assert(next[so_far.len() as int] == entry);
                assert(next.contains(entry));
                assert forall|e: Ranked| #[trigger] so_far.contains(e) implies all->Ok_0.contains(
                    e,
                ) by {
                    let i = choose|i: int| 0 <= i < so_far.len() && so_far[i] == e;
                    assert(next[i] == e);
                    assert(next.contains(e));
                }
            },
            Some(Err(_)) => {},
        }
    }
}

/// An account whose address is a key and whose history has no entry for the
/// epoch is ranked all the same, with no credits and with its stake: where
/// the accounts can be ranked at all, the ranking holds that entry.
pub proof fn lemma_entry_without_credits(
    accounts: VoteAccounts,
    position: int,
    epoch: u64,
    historical: Option<Map<Seq<u8>, u8>>,
    ignore_commission: bool,
)
    requires
        0 <= position < listed(accounts).len(),
        decoded_public_key(listed(accounts)[position].vote_pubkey@) is Some,
        forall|i: int|
            0 <= i < listed(accounts)[position].epoch_credits@.len() ==> listed(
                accounts,
            )[position].epoch_credits@[i].0 != epoch,
        ranking(accounts, epoch, historical, ignore_commission) is Ok,
    ensures
        ranking(accounts, epoch, historical, ignore_commission)->Ok_0.contains(
            Ranked {
                staker_credits: 0,
                vote_pubkey: decoded_public_key(listed(accounts)[position].vote_pubkey@)->0,
                activated_stake: listed(accounts)[position].activated_stake,
            },
        ),
{
    let account = listed(accounts)[position];
    let entry = Ranked {
        staker_credits: 0,
        vote_pubkey: decoded_public_key(account.vote_pubkey@)->0,
        activated_stake: account.activated_stake,
    };
    lemma_credits_from(account.epoch_credits@, epoch, 0);
    assert(entry_of(account, epoch, historical, ignore_commission) == Some(
        Ok::<Ranked, Seq<u8>>(entry),
    ));
    lemma_collected_holds_entries(
        listed(accounts),
        0,
        Seq::empty(),
        epoch,
        historical,
        ignore_commission,
    );
    lemma_ranking_holds_entries(
        collected(accounts, epoch, historical, ignore_commission)->Ok_0,
        entry,
    );
}

} // verus!
