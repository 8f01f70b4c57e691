use validator_metrics::accounts::{VoteAccountRecord, VoteAccounts};
use validator_metrics::commission::CommissionTable;
use validator_metrics::epoch::{EpochInfo, FutureEpoch};
use validator_metrics::identity::PublicKeyId;
use validator_metrics::ranking::{
    commission_scan_for, rank_entries, rank_validators, staker_credits, MissingCommission,
    RankedEntry,
};
use validator_metrics::scanner::BlockScan;

const A: &str = "Vote111111111111111111111111111111111111111";
const B: &str = "Stake11111111111111111111111111111111111111";
const C: &str = "Config1111111111111111111111111111111111111";
const D: &str = "SysvarC1ock11111111111111111111111111111111";

fn key(text: &str) -> PublicKeyId {
    PublicKeyId::parse(text).expect("a key")
}

fn account(vote: &str, commission: u8, stake: u64, credits: Vec<(u64, u64, u64)>) -> VoteAccountRecord {
    VoteAccountRecord {
        vote_pubkey: vote.to_string(),
        node_pubkey: vote.to_string(),
        activated_stake: stake,
        last_vote: 0,
        root_slot: 0,
        commission,
        epoch_credits: credits,
    }
}

fn entry(credits: u64, vote: &str, stake: u64) -> RankedEntry {
    RankedEntry { staker_credits: credits, vote_pubkey: key(vote), activated_stake: stake }
}

#[test]
fn staker_credits_formula() {
    assert_eq!(staker_credits(1_000, 10), 900);
    assert_eq!(staker_credits(999, 1), 989);
    assert_eq!(staker_credits(1, 99), 0);
    assert_eq!(staker_credits(199, 50), 99);
    assert_eq!(staker_credits(0, 0), 0);
}

#[test]
fn no_commission_leaves_every_credit() {
    assert_eq!(staker_credits(12_345, 0), 12_345);
    assert_eq!(staker_credits(u64::MAX, 0), u64::MAX);
}

#[test]
fn full_commission_leaves_nothing() {
    assert_eq!(staker_credits(12_345, 100), 0);
    assert_eq!(staker_credits(u64::MAX, 100), 0);
    assert_eq!(staker_credits(u64::MAX, 255), 0);
}

#[test]
fn large_credits_do_not_overflow() {
    assert_eq!(staker_credits(u64::MAX, 1), 18_262_276_632_972_456_098);
    assert_eq!(staker_credits(u64::MAX, 50), 9_223_372_036_854_775_807);
}

#[test]
fn ranking_is_descending_and_stable() {
    let entries = vec![
        entry(5, A, 1),
        entry(9, B, 2),
        entry(5, C, 3),
        entry(9, D, 4),
        entry(7, A, 5),
        entry(5, B, 6),
    ];
    let ranked = rank_entries(&entries);
    assert_eq!(
        ranked,
        vec![
            entry(9, B, 2),
            entry(9, D, 4),
            entry(7, A, 5),
            entry(5, A, 1),
            entry(5, C, 3),
            entry(5, B, 6),
        ]
    );
    let mut by_std = entries.clone();
    by_std.sort_by(|a, b| b.staker_credits.cmp(&a.staker_credits));
    assert_eq!(ranked, by_std);
    assert_eq!(rank_entries(&Vec::new()), Vec::new());
}

#[test]
fn ranking_with_current_commission() {
    let accounts = VoteAccounts {
        current: vec![
            account(A, 10, 100, vec![(9, 1_000, 0), (10, 3_000, 1_000)]),
            account(B, 0, 200, vec![(10, 1_900, 0)]),
        ],
        delinquent: vec![account(C, 100, 300, vec![(10, 9_000, 0)])],
    };
    let ranked = rank_validators(&accounts, 10, None, false).unwrap();
    assert_eq!(ranked, vec![entry(1_900, B, 200), entry(1_800, A, 100), entry(0, C, 300)]);
}

#[test]
fn ranking_ignoring_commission() {
    let accounts = VoteAccounts {
        current: vec![
            account(A, 10, 100, vec![(10, 3_000, 1_000)]),
            account(B, 0, 200, vec![(10, 1_900, 0)]),
        ],
        delinquent: vec![account(C, 100, 300, vec![(10, 9_000, 0)])],
    };
    let ranked = rank_validators(&accounts, 10, None, true).unwrap();
    assert_eq!(ranked, vec![entry(9_000, C, 300), entry(2_000, A, 100), entry(1_900, B, 200)]);
    let empty = CommissionTable::new();
    let ranked = rank_validators(&accounts, 10, Some(&empty), true).unwrap();
    assert_eq!(ranked, vec![entry(9_000, C, 300), entry(2_000, A, 100), entry(1_900, B, 200)]);
}

#[test]
fn ranking_with_commissions_of_an_earlier_epoch() {
    let accounts = VoteAccounts {
        current: vec![
            account(A, 10, 100, vec![(9, 1_000, 0), (10, 3_000, 1_000)]),
            account(B, 0, 200, vec![(9, 1_000, 500)]),
        ],
        delinquent: vec![],
    };
    let mut table = CommissionTable::new();
    table.insert(key(A), 50);
    table.insert(key(B), 20);
    let ranked = rank_validators(&accounts, 9, Some(&table), false).unwrap();
    assert_eq!(ranked, vec![entry(500, A, 100), entry(400, B, 200)]);
}

#[test]
fn missing_commission_fails_the_ranking() {
    let accounts = VoteAccounts {
        current: vec![account(A, 10, 100, vec![(9, 1_000, 0)])],
        delinquent: vec![
            account(B, 0, 200, vec![(9, 1_000, 500)]),
            account(C, 0, 200, vec![(9, 1_000, 500)]),
        ],
    };
    let mut table = CommissionTable::new();
    table.insert(key(A), 50);
    assert_eq!(
        rank_validators(&accounts, 9, Some(&table), false),
        Err(MissingCommission { vote_pubkey: key(B) })
    );
}

#[test]
fn account_without_credits_needs_no_commission() {
    let accounts = VoteAccounts {
        current: vec![account(A, 10, 100, vec![(9, 1_000, 0)])],
        delinquent: vec![account(B, 0, 200, vec![(8, 1_000, 500)])],
    };
    let mut table = CommissionTable::new();
    table.insert(key(A), 50);
    let ranked = rank_validators(&accounts, 9, Some(&table), false).unwrap();
    assert_eq!(ranked, vec![entry(500, A, 100), entry(0, B, 200)]);
}

#[test]
fn account_without_an_entry_for_the_epoch_is_ranked_with_zero() {
    let accounts = VoteAccounts {
        current: vec![
            account(A, 10, 100, vec![]),
            account(B, 5, 200, vec![(10, 100, 0)]),
            account(C, 5, 300, vec![(9, 100, 0)]),
        ],
        delinquent: vec![],
    };
    let ranked = rank_validators(&accounts, 10, None, false).unwrap();
    assert_eq!(ranked, vec![entry(95, B, 200), entry(0, A, 100), entry(0, C, 300)]);
}

#[test]
fn unreadable_vote_address_is_left_out() {
    let accounts = VoteAccounts {
        current: vec![
            account("not a key", 0, 100, vec![(10, 5_000, 0)]),
            account(B, 5, 200, vec![(10, 100, 0)]),
        ],
        delinquent: vec![account("", 0, 100, vec![(10, 5_000, 0)])],
    };
    let ranked = rank_validators(&accounts, 10, None, false).unwrap();
    assert_eq!(ranked, vec![entry(95, B, 200)]);
    let table = CommissionTable::new();
    let only_bad = VoteAccounts {
        current: vec![account("not a key", 0, 100, vec![(10, 5_000, 0)])],
        delinquent: vec![],
    };
    assert_eq!(rank_validators(&only_bad, 10, Some(&table), false), Ok(vec![]));
}

#[test]
fn ties_keep_the_order_of_the_lists() {
    let accounts = VoteAccounts {
        current: vec![
            account(C, 0, 1, vec![(10, 50, 0)]),
            account(A, 0, 2, vec![(10, 50, 0)]),
        ],
        delinquent: vec![
            account(D, 0, 3, vec![(10, 80, 0)]),
            account(B, 0, 4, vec![(10, 50, 0)]),
        ],
    };
    let ranked = rank_validators(&accounts, 10, None, false).unwrap();
    assert_eq!(ranked, vec![entry(80, D, 3), entry(50, C, 1), entry(50, A, 2), entry(50, B, 4)]);
}

#[test]
fn saturated_credit_delta_counts_as_zero() {
    let accounts = VoteAccounts {
        current: vec![account(A, 0, 1, vec![(10, 50, 70)])],
        delinquent: vec![],
    };
    assert_eq!(rank_validators(&accounts, 10, None, false), Ok(vec![entry(0, A, 1)]));
}

#[test]
fn plan_for_the_commissions() {
    let info =
        EpochInfo { epoch: 10, absolute_slot: 4_320_100, slot_index: 100, slots_in_epoch: 432_000 };
    assert_eq!(commission_scan_for(&info, 10, 5), Ok(None));
    assert_eq!(
        commission_scan_for(&info, 9, 431_999),
        Ok(Some(BlockScan { slot: 3_888_000, retries_left: 431_999 }))
    );
    assert_eq!(
        commission_scan_for(&info, 0, u64::MAX),
        Ok(Some(BlockScan { slot: 0, retries_left: u64::MAX }))
    );
    assert_eq!(
        commission_scan_for(&info, 11, 5),
        Err(FutureEpoch { requested: 11, current: 10 })
    );
}
