use validator_metrics::commission::{RewardEntry, RewardKind};
use validator_metrics::identity::PublicKeyId;
use validator_metrics::scanner::{
    BlockScan, FetchOutcome, RpcErrorKind, ScanStep, LONG_TERM_STORAGE_SLOT_SKIPPED_CODE,
    SLOT_SKIPPED_CODE,
};

const VOTE_ACCOUNT: &str = "Vote111111111111111111111111111111111111111";

fn skipped(kind: RpcErrorKind) -> FetchOutcome {
    FetchOutcome::Failed { kind, cause: "slot was skipped".to_string() }
}

fn block_with_commission(commission: u8) -> FetchOutcome {
    FetchOutcome::Block {
        rewards: Some(vec![RewardEntry {
            pubkey: VOTE_ACCOUNT.to_string(),
            reward_type: Some(RewardKind::Voting),
            commission: Some(commission),
        }]),
    }
}

#[test]
fn response_codes_are_classified() {
    assert_eq!(SLOT_SKIPPED_CODE, -32007);
    assert_eq!(LONG_TERM_STORAGE_SLOT_SKIPPED_CODE, -32009);
    assert_eq!(RpcErrorKind::from_response_code(-32007), RpcErrorKind::SlotSkipped);
    assert_eq!(
        RpcErrorKind::from_response_code(-32009),
        RpcErrorKind::LongTermStorageSlotSkipped
    );
    assert_eq!(RpcErrorKind::from_response_code(-32008), RpcErrorKind::Other);
    assert_eq!(RpcErrorKind::from_response_code(0), RpcErrorKind::Other);
    assert!(RpcErrorKind::SlotSkipped.is_skipped());
    assert!(RpcErrorKind::LongTermStorageSlotSkipped.is_skipped());
    assert!(!RpcErrorKind::Other.is_skipped());
}

#[test]
fn first_block_ends_the_scan() {
    let scan = BlockScan::new(1000, u64::MAX);
    match scan.on_outcome(block_with_commission(7)) {
        ScanStep::Found { slot, commissions } => {
            assert_eq!(slot, 1000);
            let key = PublicKeyId::parse(VOTE_ACCOUNT).unwrap();
            assert_eq!(commissions.get(&key), Some(7));
        }
        other => panic!("unexpected step {:?}", other),
    }
}

#[test]
fn each_skip_moves_one_slot() {
    let mut scan = BlockScan::new(1000, u64::MAX);
    let skips = [
        RpcErrorKind::SlotSkipped,
        RpcErrorKind::LongTermStorageSlotSkipped,
        RpcErrorKind::SlotSkipped,
    ];
    let mut asked = vec![scan.slot];
    for kind in skips {
        match scan.on_outcome(skipped(kind)) {
            ScanStep::Retry(next) => scan = next,
            other => panic!("unexpected step {:?}", other),
        }
        asked.push(scan.slot);
    }
    assert_eq!(asked, vec![1000, 1001, 1002, 1003]);
    match scan.on_outcome(block_with_commission(10)) {
        ScanStep::Found { slot, commissions } => {
            assert_eq!(slot, 1003);
            let key = PublicKeyId::parse(VOTE_ACCOUNT).unwrap();
            assert_eq!(commissions.get(&key), Some(10));
        }
        other => panic!("unexpected step {:?}", other),
    }
}

#[test]
fn other_failure_ends_the_scan_at_once() {
    let scan = BlockScan::new(77, 5);
    let outcome =
        FetchOutcome::Failed { kind: RpcErrorKind::Other, cause: "node is behind".to_string() };
    match scan.on_outcome(outcome) {
        ScanStep::Failed(e) => {
            assert_eq!(e.slot, 77);
            assert_eq!(e.cause, "node is behind");
        }
        other => panic!("unexpected step {:?}", other),
    }
}

#[test]
fn scan_gives_up_when_retries_run_out() {
    let slots_in_epoch: u64 = 4;
    let mut scan = BlockScan::new(100, slots_in_epoch - 1);
    let mut attempts: u64 = 0;
    let last = loop {
        attempts += 1;
        match scan.on_outcome(skipped(RpcErrorKind::SlotSkipped)) {
            ScanStep::Retry(next) => scan = next,
            ScanStep::Exhausted { slot } => break slot,
            other => panic!("unexpected step {:?}", other),
        }
    };
    assert_eq!(attempts, slots_in_epoch);
    assert_eq!(last, 103);
}

#[test]
fn scan_stops_at_the_last_slot() {
    let scan = BlockScan::new(u64::MAX, u64::MAX);
    match scan.on_outcome(skipped(RpcErrorKind::SlotSkipped)) {
        ScanStep::Exhausted { slot } => assert_eq!(slot, u64::MAX),
        other => panic!("unexpected step {:?}", other),
    }
    let none_left = BlockScan::new(5, 0);
    match none_left.on_outcome(skipped(RpcErrorKind::LongTermStorageSlotSkipped)) {
        ScanStep::Exhausted { slot } => assert_eq!(slot, 5),
        other => panic!("unexpected step {:?}", other),
    }
}

#[test]
fn block_without_rewards_gives_an_empty_table() {
    let scan = BlockScan::new(9, 0);
    match scan.on_outcome(FetchOutcome::Block { rewards: None }) {
        ScanStep::Found { slot, commissions } => {
            assert_eq!(slot, 9);
            let key = PublicKeyId::parse(VOTE_ACCOUNT).unwrap();
            assert_eq!(commissions.get(&key), None);
        }
        other => panic!("unexpected step {:?}", other),
    }
}
