use std::cell::Cell;
use std::collections::HashSet;

use shard_tracker::{AccountId, CryptoHash, EpochId, ShardId, ShardTracker};

#[derive(Clone, Debug, PartialEq)]
enum EpochError {
    MissingBlock(CryptoHash),
    UnknownAccount(AccountId),
}

/// SHA-256 of the one byte 0.
const HASH_0: CryptoHash = CryptoHash([
    0x6e, 0x34, 0x0b, 0x9c, 0xff, 0xb3, 0x7a, 0x98, 0x9c, 0xa5, 0x44, 0xe6, 0xbb, 0x78, 0x0a, 0x2c,
    0x78, 0x90, 0x1d, 0x3f, 0xb3, 0x37, 0x38, 0x76, 0x85, 0x11, 0xa3, 0x06, 0x17, 0xaf, 0xa0, 0x1d,
]);
/// SHA-256 of the one byte 1.
const HASH_1: CryptoHash = CryptoHash([
    0x4b, 0xf5, 0x12, 0x2f, 0x34, 0x45, 0x54, 0xc5, 0x3b, 0xde, 0x2e, 0xbb, 0x8c, 0xd2, 0xb7, 0xe3,
    0xd1, 0x60, 0x0a, 0xd6, 0x31, 0xc3, 0x85, 0xa5, 0xd7, 0xcc, 0xe2, 0x3c, 0x77, 0x85, 0x45, 0x9a,
]);
/// SHA-256 of the one byte 2.
const HASH_2: CryptoHash = CryptoHash([
    0xdb, 0xc1, 0xb4, 0xc9, 0x00, 0xff, 0xe4, 0x8d, 0x57, 0x5b, 0x5d, 0xa5, 0xc6, 0x38, 0x04, 0x01,
    0x25, 0xf6, 0x5d, 0xb0, 0xfe, 0x3e, 0x24, 0x49, 0x4b, 0x76, 0xea, 0x98, 0x64, 0x57, 0xd9, 0x86,
]);

/// An epoch manager for four shards, with the blocks that were recorded.
struct EpochManager {
    blocks: Vec<(CryptoHash, EpochId)>,
    asked: Cell<usize>,
}

impl EpochManager {
    fn account_id_to_shard_id(
        &self,
        account_id: &AccountId,
        _block_hash: &CryptoHash,
    ) -> Result<ShardId, EpochError> {
        self.asked.set(self.asked.get() + 1);
        match account_id.as_str() {
            "test1" => Ok(3),
            "test2" => Ok(0),
            "test3" => Ok(1),
            "test4" => Ok(3),
            _ => Err(EpochError::UnknownAccount(account_id.clone())),
        }
    }

    fn get_epoch_id(&self, block_hash: &CryptoHash) -> Result<EpochId, EpochError> {
        self.blocks
            .iter()
            .find(|(hash, _)| hash == block_hash)
            .map(|(_, epoch_id)| *epoch_id)
            .ok_or(EpochError::MissingBlock(*block_hash))
    }
}

fn get_epoch_manager() -> EpochManager {
    EpochManager { blocks: vec![], asked: Cell::new(0) }
}

/// Records a block. Epochs are one block long, and an epoch is called by the block two before it.
fn record_block(manager: &mut EpochManager, cur_h: CryptoHash, epoch_id: EpochId) {
    manager.blocks.push((cur_h, epoch_id));
}

fn record_three_blocks(manager: &mut EpochManager) {
    record_block(manager, HASH_0, EpochId::default());
    record_block(manager, HASH_1, EpochId::default());
    record_block(manager, HASH_2, EpochId(HASH_0));
}

fn id(name: &str) -> AccountId {
    name.to_string()
}

fn new_tracker(manager: &EpochManager) -> ShardTracker {
    ShardTracker::new(
        vec![],
        vec![],
        CryptoHash::default(),
        EpochId::default(),
        |a: &AccountId, h: &CryptoHash| manager.account_id_to_shard_id(a, h),
    )
}

fn track_accounts(tracker: &mut ShardTracker, manager: &EpochManager, names: &[&str]) {
    let ids: Vec<AccountId> = names.iter().map(|name| id(name)).collect();
    tracker.track_accounts(
        &ids,
        &CryptoHash::default(),
        |a: &AccountId, h: &CryptoHash| manager.account_id_to_shard_id(a, h),
    );
}

fn update_epoch(
    tracker: &mut ShardTracker,
    manager: &EpochManager,
    block_hash: &CryptoHash,
) -> Result<(), EpochError> {
    tracker.update_epoch(
        block_hash,
        |h: &CryptoHash| manager.get_epoch_id(h),
        |a: &AccountId, h: &CryptoHash| manager.account_id_to_shard_id(a, h),
    )
}

fn untrack_accounts(
    tracker: &mut ShardTracker,
    manager: &EpochManager,
    block_hash: &CryptoHash,
    names: &[&str],
) -> Result<(), EpochError> {
    tracker.untrack_accounts(
        block_hash,
        names.iter().map(|name| id(name)).collect(),
        |h: &CryptoHash| manager.get_epoch_id(h),
        |a: &AccountId, h: &CryptoHash| manager.account_id_to_shard_id(a, h),
    )
}

fn untrack_shards(
    tracker: &mut ShardTracker,
    manager: &EpochManager,
    block_hash: &CryptoHash,
    shard_ids: Vec<ShardId>,
) -> Result<(), EpochError> {
    tracker.untrack_shards(
        block_hash,
        shard_ids,
        |h: &CryptoHash| manager.get_epoch_id(h),
        |a: &AccountId, h: &CryptoHash| manager.account_id_to_shard_id(a, h),
    )
}

fn will_care(
    tracker: &ShardTracker,
    manager: &EpochManager,
    answer: Option<Result<bool, EpochError>>,
    shard_id: ShardId,
    is_me: bool,
) -> bool {
    let account_id = id("me");
    tracker.will_care_about_shard(
        answer.as_ref().map(|_| &account_id),
        &HASH_1,
        shard_id,
        is_me,
        |_: &CryptoHash, _: &AccountId, _: ShardId| answer.clone().unwrap(),
        |a: &AccountId, h: &CryptoHash| manager.account_id_to_shard_id(a, h),
    )
}

fn care(
    tracker: &ShardTracker,
    answer: Option<Result<bool, EpochError>>,
    shard_id: ShardId,
    is_me: bool,
) -> bool {
    let account_id = id("me");
    tracker.care_about_shard(
        answer.as_ref().map(|_| &account_id),
        &HASH_1,
        shard_id,
        is_me,
        |_: &CryptoHash, _: &AccountId, _: ShardId| answer.clone().unwrap(),
    )
}

fn shards(ids: &[ShardId]) -> HashSet<ShardId> {
    ids.iter().cloned().collect()
}

fn missing() -> EpochError {
    EpochError::MissingBlock(HASH_0)
}

#[test]
fn test_track_new_accounts_and_shards() {
    let epoch_manager = get_epoch_manager();
    let mut tracker = new_tracker(&epoch_manager);
    track_accounts(&mut tracker, &epoch_manager, &["test1", "test2"]);
    tracker.track_shards(&[2, 3]);
    let mut total_tracked_shards = HashSet::new();
    total_tracked_shards.insert(
        epoch_manager.account_id_to_shard_id(&id("test1"), &CryptoHash::default()).unwrap(),
    );
    total_tracked_shards.insert(
        epoch_manager.account_id_to_shard_id(&id("test2"), &CryptoHash::default()).unwrap(),
    );
    total_tracked_shards.insert(2);
    total_tracked_shards.insert(3);
    assert_eq!(*tracker.actual_tracked_shards(), total_tracked_shards);
}

#[test]
fn test_untrack_accounts() {
    let mut epoch_manager = get_epoch_manager();
    let mut tracker = new_tracker(&epoch_manager);
    track_accounts(&mut tracker, &epoch_manager, &["test1", "test2", "test3"]);
    tracker.track_shards(&[2, 3]);
    record_three_blocks(&mut epoch_manager);
    untrack_accounts(&mut tracker, &epoch_manager, &HASH_1, &["test2", "test3"]).unwrap();
    update_epoch(&mut tracker, &epoch_manager, &HASH_2).unwrap();

    let mut total_tracked_shards = HashSet::new();
    total_tracked_shards.insert(
        epoch_manager.account_id_to_shard_id(&id("test1"), &CryptoHash::default()).unwrap(),
    );
    total_tracked_shards.insert(2);
    total_tracked_shards.insert(3);

    assert_eq!(*tracker.actual_tracked_shards(), total_tracked_shards);
}

#[test]
fn test_untrack_shards() {
    let mut epoch_manager = get_epoch_manager();
    let mut tracker = new_tracker(&epoch_manager);
    track_accounts(&mut tracker, &epoch_manager, &["test1", "test2", "test3"]);
    tracker.track_shards(&[2, 3]);
    record_three_blocks(&mut epoch_manager);
    untrack_shards(&mut tracker, &epoch_manager, &HASH_1, vec![1, 2, 3]).unwrap();
    update_epoch(&mut tracker, &epoch_manager, &HASH_2).unwrap();

    let mut total_tracked_shards = HashSet::new();
    for account_id in vec!["test1", "test2", "test3"] {
        total_tracked_shards.insert(
            epoch_manager
                .account_id_to_shard_id(&account_id.to_string(), &CryptoHash::default())
                .unwrap(),
        );
    }

    assert_eq!(*tracker.actual_tracked_shards(), total_tracked_shards);
}

#[test]
fn new_tracks_shards_of_accounts_and_shards() {
    let manager = get_epoch_manager();
    let tracker = ShardTracker::new(
        vec![id("test1"), id("test2"), id("test4")],
        vec![2, 2],
        CryptoHash::default(),
        EpochId::default(),
        |a: &AccountId, h: &CryptoHash| manager.account_id_to_shard_id(a, h),
    );
    assert_eq!(*tracker.actual_tracked_shards(), shards(&[0, 2, 3]));
}

#[test]
fn with_placed_tracks_what_it_is_given() {
    let tracker = ShardTracker::with_placed(&[(id("a"), 7), (id("b"), 8)], &[9], EpochId::default());
    assert_eq!(*tracker.actual_tracked_shards(), shards(&[7, 8, 9]));
}

#[test]
fn tracking_passes_over_accounts_with_an_error() {
    let manager = get_epoch_manager();
    let mut tracker = new_tracker(&manager);
    track_accounts(&mut tracker, &manager, &["nobody", "test3", "no one"]);
    assert_eq!(*tracker.actual_tracked_shards(), shards(&[1]));
}

#[test]
fn tracking_starts_at_once_and_loses_nothing() {
    let manager = get_epoch_manager();
    let mut tracker = ShardTracker::with_placed(&[(id("a"), 6)], &[7], EpochId::default());
    track_accounts(&mut tracker, &manager, &["test1"]);
    assert_eq!(*tracker.actual_tracked_shards(), shards(&[3, 6, 7]));
    tracker.track_shards(&[8]);
    assert_eq!(*tracker.actual_tracked_shards(), shards(&[3, 6, 7, 8]));
    tracker.track_shards(&[]);
    assert_eq!(*tracker.actual_tracked_shards(), shards(&[3, 6, 7, 8]));
}

#[test]
fn tracking_order_is_irrelevant() {
    let manager = get_epoch_manager();
    let mut one = new_tracker(&manager);
    track_accounts(&mut one, &manager, &["test1", "test2"]);
    one.track_shards(&[2, 5]);
    let mut other = new_tracker(&manager);
    other.track_shards(&[5, 2, 5]);
    track_accounts(&mut other, &manager, &["test2", "test1", "test2"]);
    assert_eq!(one.actual_tracked_shards(), other.actual_tracked_shards());
    assert_eq!(*one.actual_tracked_shards(), shards(&[0, 2, 3, 5]));
}

#[test]
fn untracking_waits_for_another_epoch() {
    let mut manager = get_epoch_manager();
    record_three_blocks(&mut manager);
    let mut tracker = new_tracker(&manager);
    track_accounts(&mut tracker, &manager, &["test1", "test2"]);
    tracker.track_shards(&[2]);
    untrack_accounts(&mut tracker, &manager, &HASH_1, &["test1"]).unwrap();
    untrack_shards(&mut tracker, &manager, &HASH_1, vec![2]).unwrap();
    update_epoch(&mut tracker, &manager, &HASH_1).unwrap();
    assert_eq!(*tracker.actual_tracked_shards(), shards(&[0, 2, 3]));
    update_epoch(&mut tracker, &manager, &HASH_2).unwrap();
    assert_eq!(*tracker.actual_tracked_shards(), shards(&[0]));
    update_epoch(&mut tracker, &manager, &HASH_2).unwrap();
    assert_eq!(*tracker.actual_tracked_shards(), shards(&[0]));
}

#[test]
fn a_shard_stays_while_one_of_its_accounts_does() {
    let mut manager = get_epoch_manager();
    record_three_blocks(&mut manager);
    let mut tracker = new_tracker(&manager);
    track_accounts(&mut tracker, &manager, &["test1", "test4"]);
    untrack_accounts(&mut tracker, &manager, &HASH_1, &["test1"]).unwrap();
    update_epoch(&mut tracker, &manager, &HASH_2).unwrap();
    assert_eq!(*tracker.actual_tracked_shards(), shards(&[3]));
    untrack_accounts(&mut tracker, &manager, &HASH_2, &["test4"]).unwrap();
    update_epoch(&mut tracker, &manager, &HASH_1).unwrap();
    assert_eq!(*tracker.actual_tracked_shards(), shards(&[]));
}

#[test]
fn a_shard_stays_that_is_tracked_for_its_own_sake() {
    let mut manager = get_epoch_manager();
    record_three_blocks(&mut manager);
    let mut tracker = new_tracker(&manager);
    track_accounts(&mut tracker, &manager, &["test1"]);
    tracker.track_shards(&[3]);
    untrack_accounts(&mut tracker, &manager, &HASH_1, &["test1"]).unwrap();
    update_epoch(&mut tracker, &manager, &HASH_2).unwrap();
    assert_eq!(*tracker.actual_tracked_shards(), shards(&[3]));
}

#[test]
fn tracking_again_does_not_call_off_untracking() {
    let mut manager = get_epoch_manager();
    record_three_blocks(&mut manager);
    let mut tracker = new_tracker(&manager);
    track_accounts(&mut tracker, &manager, &["test1"]);
    untrack_accounts(&mut tracker, &manager, &HASH_1, &["test1"]).unwrap();
    track_accounts(&mut tracker, &manager, &["test1"]);
    assert_eq!(*tracker.actual_tracked_shards(), shards(&[3]));
    update_epoch(&mut tracker, &manager, &HASH_2).unwrap();
    assert_eq!(*tracker.actual_tracked_shards(), shards(&[]));
}

#[test]
fn untracking_brings_the_tracker_to_the_epoch_first() {
    let mut manager = get_epoch_manager();
    record_three_blocks(&mut manager);
    let mut tracker = new_tracker(&manager);
    track_accounts(&mut tracker, &manager, &["test1", "test2"]);
    untrack_accounts(&mut tracker, &manager, &HASH_1, &["test1"]).unwrap();
    untrack_accounts(&mut tracker, &manager, &HASH_2, &["test2"]).unwrap();
    assert_eq!(*tracker.actual_tracked_shards(), shards(&[0]));
}

#[test]
fn untracking_what_is_not_tracked_is_harmless() {
    let mut manager = get_epoch_manager();
    record_three_blocks(&mut manager);
    let mut tracker = new_tracker(&manager);
    track_accounts(&mut tracker, &manager, &["test2"]);
    untrack_accounts(&mut tracker, &manager, &HASH_1, &["test1", "test1"]).unwrap();
    untrack_shards(&mut tracker, &manager, &HASH_1, vec![9, 0]).unwrap();
    update_epoch(&mut tracker, &manager, &HASH_2).unwrap();
    assert_eq!(*tracker.actual_tracked_shards(), shards(&[0]));
}

#[test]
fn an_account_that_moved_stays_where_it_was_put() {
    let mut tracker = ShardTracker::with_placed(&[(id("a"), 1)], &[], EpochId::default());
    tracker.mark_accounts(vec![id("a")]);
    tracker.enter_epoch(EpochId(HASH_0), &[(id("a"), 2)]);
    assert_eq!(*tracker.actual_tracked_shards(), shards(&[1]));
}

#[test]
fn a_missing_block_is_an_error_and_changes_nothing() {
    let mut manager = get_epoch_manager();
    let mut tracker = new_tracker(&manager);
    track_accounts(&mut tracker, &manager, &["test1"]);
    tracker.track_shards(&[2]);
    let error = Err(EpochError::MissingBlock(HASH_1));
    assert_eq!(update_epoch(&mut tracker, &manager, &HASH_1), error);
    assert_eq!(untrack_accounts(&mut tracker, &manager, &HASH_1, &["test1"]), error);
    assert_eq!(untrack_shards(&mut tracker, &manager, &HASH_1, vec![2]), error);
    record_three_blocks(&mut manager);
    update_epoch(&mut tracker, &manager, &HASH_2).unwrap();
    assert_eq!(*tracker.actual_tracked_shards(), shards(&[2, 3]));
}

#[test]
fn a_failed_flush_changes_nothing_and_is_tried_again() {
    let mut manager = get_epoch_manager();
    record_three_blocks(&mut manager);
    let mut tracker = new_tracker(&manager);
    track_accounts(&mut tracker, &manager, &["test1", "test2"]);
    tracker.track_shards(&[2]);
    untrack_accounts(&mut tracker, &manager, &HASH_1, &["test1", "nobody"]).unwrap();
    untrack_shards(&mut tracker, &manager, &HASH_1, vec![2]).unwrap();
    let error = Err(EpochError::UnknownAccount(id("nobody")));
    assert_eq!(update_epoch(&mut tracker, &manager, &HASH_2), error);
    assert_eq!(*tracker.actual_tracked_shards(), shards(&[0, 2, 3]));
    assert_eq!(update_epoch(&mut tracker, &manager, &HASH_2), error);
    tracker
        .update_epoch(
            &HASH_2,
            |h: &CryptoHash| manager.get_epoch_id(h),
            |a: &AccountId, h: &CryptoHash| {
                Ok::<ShardId, EpochError>(manager.account_id_to_shard_id(a, h).unwrap_or(9))
            },
        )
        .unwrap();
    assert_eq!(*tracker.actual_tracked_shards(), shards(&[0]));
}

#[test]
fn flushing_carries_out_what_is_pending() {
    let manager = get_epoch_manager();
    let mut tracker = ShardTracker::with_placed(&[(id("test1"), 3)], &[4, 5], EpochId::default());
    tracker.mark_accounts(vec![id("test1")]);
    tracker.mark_shards(vec![5]);
    tracker
        .flush_pending(&HASH_1, |a: &AccountId, h: &CryptoHash| {
            manager.account_id_to_shard_id(a, h)
        })
        .unwrap();
    assert_eq!(*tracker.actual_tracked_shards(), shards(&[4]));
}

#[test]
fn untracking_undoes_tracking() {
    let before = ShardTracker::with_placed(&[(id("a"), 1)], &[2], EpochId::default());
    let mut tracker = before.clone();
    tracker.place_account(&id("b"), 1);
    tracker.place_account(&id("b"), 6);
    tracker.track_shards(&[7]);
    assert_eq!(*tracker.actual_tracked_shards(), shards(&[1, 2, 6, 7]));
    tracker.mark_accounts(vec![id("b")]);
    tracker.mark_shards(vec![7]);
    tracker.enter_epoch(EpochId(HASH_0), &[(id("b"), 1), (id("b"), 6)]);
    assert_eq!(tracker.actual_tracked_shards(), before.actual_tracked_shards());
}

#[test]
fn an_epoch_starts_tracking_nothing() {
    let mut tracker = ShardTracker::with_placed(&[], &[2], EpochId::default());
    tracker.mark_accounts(vec![id("a")]);
    tracker.enter_epoch(EpochId(HASH_0), &[(id("a"), 4)]);
    assert_eq!(*tracker.actual_tracked_shards(), shards(&[2]));
}

#[test]
fn care_of_a_node_without_account() {
    let tracker = ShardTracker::with_placed(&[(id("a"), 1)], &[2], EpochId::default());
    for is_me in [false, true] {
        assert!(care(&tracker, None, 1, is_me));
        assert!(care(&tracker, None, 2, is_me));
        assert!(!care(&tracker, None, 3, is_me));
    }
}

#[test]
fn care_of_another_node_is_up_to_its_account() {
    let tracker = ShardTracker::with_placed(&[(id("a"), 1)], &[], EpochId::default());
    assert!(!care(&tracker, Some(Ok(false)), 1, false));
    assert!(!care(&tracker, Some(Err(missing())), 1, false));
    assert!(care(&tracker, Some(Ok(true)), 3, false));
}

#[test]
fn care_of_the_own_node() {
    let tracker = ShardTracker::with_placed(&[(id("a"), 1)], &[], EpochId::default());
    assert!(care(&tracker, Some(Ok(false)), 1, true));
    assert!(care(&tracker, Some(Err(missing())), 1, true));
    assert!(care(&tracker, Some(Ok(true)), 3, true));
    assert!(!care(&tracker, Some(Ok(false)), 3, true));
    assert!(!care(&tracker, Some(Err(missing())), 3, true));
}

#[test]
fn care_is_asked_of_the_given_block_account_and_shard() {
    let tracker = ShardTracker::with_placed(&[], &[], EpochId::default());
    let account_id = id("a");
    assert!(tracker.care_about_shard(
        Some(&account_id),
        &HASH_2,
        6,
        false,
        |h: &CryptoHash, a: &AccountId, s: ShardId| {
            Ok::<bool, EpochError>(*h == HASH_2 && a == "a" && s == 6)
        },
    ));
}

#[test]
fn will_care_looks_past_what_is_pending() {
    let manager = get_epoch_manager();
    let mut tracker =
        ShardTracker::with_placed(&[(id("test1"), 3), (id("test2"), 0)], &[5], EpochId::default());
    tracker.mark_accounts(vec![id("test1")]);
    tracker.mark_shards(vec![5]);
    assert!(care(&tracker, None, 3, true));
    assert!(care(&tracker, None, 5, true));
    assert!(!will_care(&tracker, &manager, None, 3, true));
    assert!(!will_care(&tracker, &manager, None, 5, true));
    assert!(will_care(&tracker, &manager, None, 0, true));
    assert!(!will_care(&tracker, &manager, Some(Ok(false)), 3, true));
    assert!(will_care(&tracker, &manager, Some(Ok(false)), 0, true));
    assert!(will_care(&tracker, &manager, Some(Err(missing())), 0, true));
    assert!(!will_care(&tracker, &manager, Some(Ok(false)), 0, false));
    assert!(will_care(&tracker, &manager, Some(Ok(true)), 3, false));
    assert!(will_care(&tracker, &manager, Some(Ok(true)), 3, true));
    // Nothing was carried out.
    assert_eq!(*tracker.actual_tracked_shards(), shards(&[0, 3, 5]));
}

#[test]
fn will_care_asks_for_shards_only_where_the_tracker_decides() {
    let manager = get_epoch_manager();
    let mut tracker = ShardTracker::with_placed(&[(id("test1"), 3)], &[], EpochId::default());
    tracker.mark_accounts(vec![id("test1"), id("nobody")]);
    assert!(will_care(&tracker, &manager, Some(Ok(true)), 3, true));
    assert!(!will_care(&tracker, &manager, Some(Ok(false)), 3, false));
    assert_eq!(manager.asked.get(), 0);
}

#[test]
fn will_care_is_care_in_the_next_epoch() {
    let placed = [(id("a"), 1)];
    let mut tracker =
        ShardTracker::with_placed(&[(id("a"), 1), (id("b"), 2)], &[3, 4], EpochId::default());
    tracker.mark_accounts(vec![id("a")]);
    tracker.mark_shards(vec![4]);
    let mut next = tracker.clone();
    next.enter_epoch(EpochId(HASH_0), &placed);
    for shard_id in 0..6 {
        for account_cares in [None, Some(false), Some(true)] {
            for is_me in [false, true] {
                assert_eq!(
                    tracker.decide_will_care(account_cares, &placed, shard_id, is_me),
                    next.decide_care(account_cares, shard_id, is_me),
                );
            }
        }
    }
    assert_eq!(*next.actual_tracked_shards(), shards(&[2, 3]));
}

#[test]
fn with_nothing_pending_a_node_will_care_about_what_it_cares_about() {
    let manager = get_epoch_manager();
    let tracker = ShardTracker::with_placed(&[(id("a"), 1)], &[3], EpochId::default());
    for shard_id in 0..5 {
        assert_eq!(
            will_care(&tracker, &manager, None, shard_id, true),
            care(&tracker, None, shard_id, true),
        );
    }
}

#[test]
fn hashes_differ_by_any_byte() {
    let mut bytes = [0u8; 32];
    assert_eq!(CryptoHash(bytes), CryptoHash::default());
    for i in 0..32 {
        bytes[i] = 1;
        assert_ne!(CryptoHash(bytes), CryptoHash::default());
        assert_ne!(EpochId(CryptoHash(bytes)), EpochId::default());
        bytes[i] = 0;
    }
}
