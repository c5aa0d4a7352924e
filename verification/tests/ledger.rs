use mining_pool::error::PoolError;
use mining_pool::ledger::{CapacityLedger, WorkerEntry, SEARCH_SPACE_SIZE};

fn name(text: &str) -> String {
    text.to_string()
}

fn sum_of_active(ledger: &CapacityLedger) -> u128 {
    let mut sum = 0u128;
    for i in 0..ledger.len() {
        let entry = ledger.entry(i).unwrap();
        if entry.active {
            sum += entry.hashrate as u128;
        }
    }
    sum
}

#[test]
fn a_new_ledger_is_empty() {
    let ledger = CapacityLedger::new();
    assert_eq!(ledger.len(), 0);
    assert_eq!(ledger.total_capacity(), 0);
    assert_eq!(ledger.entry(0), None);
}

#[test]
fn register_makes_a_fresh_active_entry() {
    let mut ledger = CapacityLedger::new();
    assert_eq!(ledger.register(name("w1"), 10), Ok(()));
    assert_eq!(
        ledger.entry(0),
        Some(WorkerEntry {
            worker_id: name("w1"),
            hashrate: 10,
            hash_count: 0,
            reward: 0,
            active: true
        })
    );
    assert!(ledger.is_active(&name("w1")));
    assert_eq!(ledger.hashrate_of(&name("w1")), Some(10));
    assert_eq!(ledger.total_capacity(), 10);
}

#[test]
fn register_refuses_a_hashrate_of_zero() {
    let mut ledger = CapacityLedger::new();
    ledger.register(name("w1"), 10).unwrap();
    assert_eq!(ledger.register(name("w2"), 0), Err(PoolError::InvalidCapacity));
    assert_eq!(ledger.register(name("w1"), 0), Err(PoolError::InvalidCapacity));
    assert_eq!(ledger.len(), 1);
    assert_eq!(ledger.total_capacity(), 10);
    assert_eq!(ledger.hashrate_of(&name("w1")), Some(10));
}

#[test]
fn registering_again_does_not_count_twice() {
    let mut ledger = CapacityLedger::new();
    ledger.register(name("w1"), 10).unwrap();
    ledger.register(name("w2"), 5).unwrap();
    ledger.register(name("w1"), 10).unwrap();
    assert_eq!(ledger.len(), 2);
    assert_eq!(ledger.total_capacity(), 15);
    ledger.register(name("w1"), 3).unwrap();
    assert_eq!(ledger.total_capacity(), 8);
    assert_eq!(ledger.entry(0).unwrap().worker_id, "w1");
    assert_eq!(ledger.entry(1).unwrap().worker_id, "w2");
}

#[test]
fn registering_again_resets_count_and_reward() {
    let mut ledger = CapacityLedger::new();
    ledger.register(name("w1"), 10).unwrap();
    ledger.credit(&name("w1"), 7, 3).unwrap();
    ledger.register(name("w1"), 20).unwrap();
    assert_eq!(ledger.hash_count_of(&name("w1")), 0);
    assert_eq!(ledger.reward_of(&name("w1")), 0);
    assert_eq!(ledger.hashrate_of(&name("w1")), Some(20));
}

#[test]
fn total_is_the_sum_over_active_workers_after_any_registrations() {
    let mut ledger = CapacityLedger::new();
    let calls: [(&str, u64); 9] = [
        ("a", 5),
        ("b", 7),
        ("a", 1),
        ("c", u64::MAX),
        ("b", 0),
        ("d", u64::MAX),
        ("c", 2),
        ("a", 9),
        ("d", 4),
    ];
    for (worker, hashrate) in calls {
        let _ = ledger.register(name(worker), hashrate);
        assert_eq!(ledger.total_capacity(), sum_of_active(&ledger));
    }
    assert_eq!(ledger.total_capacity(), 9 + 7 + 2 + 4);
    assert_eq!(ledger.len(), 4);
}

#[test]
fn total_holds_more_than_one_word() {
    let mut ledger = CapacityLedger::new();
    ledger.register(name("a"), u64::MAX).unwrap();
    ledger.register(name("b"), u64::MAX).unwrap();
    assert_eq!(ledger.total_capacity(), 2 * (u64::MAX as u128));
    assert_eq!(ledger.quota_for(&name("a")), 500_000);
}

#[test]
fn reset_forgets_every_worker() {
    let mut ledger = CapacityLedger::new();
    ledger.register(name("w1"), 10).unwrap();
    ledger.register(name("w2"), 5).unwrap();
    ledger.reset();
    assert_eq!(ledger.len(), 0);
    assert_eq!(ledger.total_capacity(), 0);
    assert!(!ledger.is_active(&name("w1")));
    assert_eq!(ledger.quota_for(&name("w1")), 0);
}

#[test]
fn quota_is_the_floor_of_the_proportional_share() {
    let mut ledger = CapacityLedger::new();
    ledger.register(name("w1"), 1).unwrap();
    ledger.register(name("w2"), 3).unwrap();
    assert_eq!(ledger.quota_for(&name("w1")), 250_000);
    assert_eq!(ledger.quota_for(&name("w2")), 750_000);
    ledger.register(name("w3"), 3).unwrap();
    assert_eq!(ledger.quota_for(&name("w1")), 142_857);
    assert_eq!(ledger.quota_for(&name("w2")), 428_571);
    assert_eq!(ledger.quota_for(&name("w3")), 428_571);
    let sum: u64 = ["w1", "w2", "w3"].iter().map(|w| ledger.quota_for(&name(w))).sum();
    assert_eq!(sum, 999_999);
    assert!(sum < SEARCH_SPACE_SIZE);
}

#[test]
fn quota_of_a_lone_worker_is_the_whole_space() {
    let mut ledger = CapacityLedger::new();
    ledger.register(name("w1"), 77).unwrap();
    assert_eq!(ledger.quota_for(&name("w1")), SEARCH_SPACE_SIZE);
}

#[test]
fn quota_of_a_stranger_is_nothing() {
    let mut ledger = CapacityLedger::new();
    assert_eq!(ledger.quota_for(&name("nobody")), 0);
    ledger.register(name("w1"), 77).unwrap();
    assert_eq!(ledger.quota_for(&name("nobody")), 0);
}

#[test]
fn quota_can_round_down_to_nothing() {
    let mut ledger = CapacityLedger::new();
    ledger.register(name("small"), 1).unwrap();
    ledger.register(name("large"), 2_000_000).unwrap();
    assert_eq!(ledger.quota_for(&name("small")), 0);
    assert_eq!(ledger.quota_for(&name("large")), 999_999);
}

#[test]
fn quota_does_not_shrink_when_a_worker_declares_more() {
    let mut previous = 0;
    for hashrate in [1u64, 2, 3, 10, 999, 1_000_000, u64::MAX] {
        let mut ledger = CapacityLedger::new();
        ledger.register(name("a"), 40).unwrap();
        ledger.register(name("b"), 2).unwrap();
        ledger.register(name("w"), hashrate).unwrap();
        let quota = ledger.quota_for(&name("w"));
        assert!(quota >= previous);
        assert!(quota <= SEARCH_SPACE_SIZE);
        previous = quota;
    }
}

#[test]
fn credit_adds_hashes_and_sets_the_reward() {
    let mut ledger = CapacityLedger::new();
    ledger.register(name("w1"), 10).unwrap();
    assert_eq!(ledger.credit(&name("w1"), 5, 2), Ok(()));
    assert_eq!(ledger.hash_count_of(&name("w1")), 5);
    assert_eq!(ledger.reward_of(&name("w1")), 2);
    assert_eq!(ledger.credit(&name("w1"), 7, 0), Ok(()));
    assert_eq!(ledger.hash_count_of(&name("w1")), 12);
    assert_eq!(ledger.reward_of(&name("w1")), 0);
    assert_eq!(ledger.total_capacity(), 10);
}

#[test]
fn credit_refuses_an_unknown_worker() {
    let mut ledger = CapacityLedger::new();
    ledger.register(name("w1"), 10).unwrap();
    assert_eq!(ledger.credit(&name("w2"), 5, 2), Err(PoolError::UnknownWorker));
    assert_eq!(ledger.hash_count_of(&name("w1")), 0);
    assert_eq!(ledger.reward_of(&name("w2")), 0);
    assert_eq!(ledger.len(), 1);
}

#[test]
fn a_copy_of_an_entry_equals_it() {
    let entry = WorkerEntry {
        worker_id: name("w1"),
        hashrate: 10,
        hash_count: 7,
        reward: 3,
        active: true,
    };
    assert_eq!(entry.duplicate(), entry);
}
