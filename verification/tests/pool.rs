use mining_pool::error::PoolError;
use mining_pool::pool::{MiningEvent, MiningPool, DEFAULT_DIFFICULTY};

fn worker(text: &str) -> String {
    text.to_string()
}

#[test]
fn a_new_pool_is_idle_and_empty() {
    let mut pool = MiningPool::init();
    assert!(!pool.is_active());
    assert_eq!(pool.difficulty(), DEFAULT_DIFFICULTY);
    assert_eq!(pool.difficulty(), 4);
    assert!(pool.payload().is_empty());
    assert_eq!(pool.ledger().len(), 0);
    assert!(pool.list_solved_blocks().is_empty());
    assert!(pool.take_events().is_empty());
}

#[test]
fn start_round_sets_the_round_and_announces_it() {
    let mut pool = MiningPool::init();
    assert_eq!(pool.start_round(b"abc".to_vec(), 3), Ok(()));
    assert!(pool.is_active());
    assert_eq!(pool.payload(), &b"abc".to_vec());
    assert_eq!(pool.difficulty(), 3);
    assert_eq!(
        pool.take_events(),
        vec![MiningEvent::RoundStarted { payload: b"abc".to_vec(), difficulty: 3 }]
    );
}

#[test]
fn a_second_start_is_refused() {
    let mut pool = MiningPool::init();
    pool.start_round(b"abc".to_vec(), 0).unwrap();
    pool.register(worker("w1"), 10).unwrap();
    assert_eq!(pool.start_round(b"def".to_vec(), 1), Err(PoolError::AlreadyActive));
    assert_eq!(pool.payload(), &b"abc".to_vec());
    assert_eq!(pool.difficulty(), 0);
    assert_eq!(pool.ledger().len(), 1);
    assert_eq!(pool.take_events().len(), 2);
}

#[test]
fn an_empty_payload_is_refused() {
    let mut pool = MiningPool::init();
    assert_eq!(pool.start_round(Vec::new(), 1), Err(PoolError::InvalidPayload));
    assert!(!pool.is_active());
    assert!(pool.take_events().is_empty());
}

#[test]
fn an_active_pool_refuses_a_start_before_it_looks_at_the_payload() {
    let mut pool = MiningPool::init();
    pool.start_round(b"abc".to_vec(), 0).unwrap();
    assert_eq!(pool.start_round(Vec::new(), 1), Err(PoolError::AlreadyActive));
}

#[test]
fn a_new_round_clears_the_ledger_and_keeps_the_blocks() {
    let mut pool = MiningPool::init();
    pool.start_round(b"abc".to_vec(), 0).unwrap();
    pool.register(worker("w1"), 10).unwrap();
    pool.search(&worker("w1"), None).unwrap();
    assert_eq!(pool.list_solved_blocks().len(), 1);
    assert_eq!(pool.ledger().len(), 1);
    pool.start_round(b"def".to_vec(), 0).unwrap();
    assert_eq!(pool.ledger().len(), 0);
    assert_eq!(pool.ledger().total_capacity(), 0);
    assert_eq!(pool.reward_of(&worker("w1")), 0);
    assert_eq!(pool.list_solved_blocks().len(), 1);
}

#[test]
fn stop_round_is_idempotent() {
    let mut once = MiningPool::init();
    once.start_round(b"abc".to_vec(), 2).unwrap();
    once.register(worker("w1"), 10).unwrap();
    once.stop_round();
    let mut twice = MiningPool::init();
    twice.start_round(b"abc".to_vec(), 2).unwrap();
    twice.register(worker("w1"), 10).unwrap();
    twice.stop_round();
    twice.stop_round();
    assert_eq!(once.is_active(), twice.is_active());
    assert!(!twice.is_active());
    assert_eq!(once.payload(), twice.payload());
    assert_eq!(once.ledger().entry(0), twice.ledger().entry(0));
    assert_eq!(once.list_solved_blocks(), twice.list_solved_blocks());
    let events = twice.take_events();
    assert_eq!(once.take_events(), events);
    assert_eq!(events.last(), Some(&MiningEvent::RoundStopped));
    assert_eq!(events.len(), 3);
}

#[test]
fn stop_round_on_an_idle_pool_does_nothing() {
    let mut pool = MiningPool::init();
    pool.stop_round();
    assert!(!pool.is_active());
    assert!(pool.take_events().is_empty());
}

#[test]
fn stop_round_keeps_payload_and_workers() {
    let mut pool = MiningPool::init();
    pool.start_round(b"abc".to_vec(), 2).unwrap();
    pool.register(worker("w1"), 10).unwrap();
    pool.stop_round();
    assert_eq!(pool.payload(), &b"abc".to_vec());
    assert_eq!(pool.ledger().len(), 1);
    assert_eq!(pool.ledger().hashrate_of(&worker("w1")), Some(10));
}

#[test]
fn register_needs_a_round() {
    let mut pool = MiningPool::init();
    assert_eq!(pool.register(worker("w1"), 10), Err(PoolError::RoundNotActive));
    assert_eq!(pool.register(worker("w1"), 0), Err(PoolError::RoundNotActive));
    assert_eq!(pool.ledger().len(), 0);
    assert!(pool.take_events().is_empty());
}

#[test]
fn register_refuses_a_hashrate_of_zero_in_a_round() {
    let mut pool = MiningPool::init();
    pool.start_round(b"abc".to_vec(), 2).unwrap();
    assert_eq!(pool.register(worker("w1"), 0), Err(PoolError::InvalidCapacity));
    assert_eq!(pool.ledger().len(), 0);
    assert_eq!(pool.take_events().len(), 1);
}

#[test]
fn register_announces_the_worker() {
    let mut pool = MiningPool::init();
    pool.start_round(b"abc".to_vec(), 2).unwrap();
    pool.take_events();
    pool.register(worker("w1"), 10).unwrap();
    assert_eq!(
        pool.take_events(),
        vec![MiningEvent::WorkerJoined { worker_id: worker("w1"), hashrate: 10 }]
    );
    assert_eq!(pool.ledger().total_capacity(), 10);
}

#[test]
fn quotas_follow_the_hashrates() {
    let mut pool = MiningPool::init();
    pool.start_round(b"abc".to_vec(), 4).unwrap();
    pool.register(worker("w1"), 1).unwrap();
    pool.register(worker("w2"), 3).unwrap();
    assert_eq!(pool.quota_for(&worker("w1")), 250_000);
    assert_eq!(pool.quota_for(&worker("w2")), 750_000);
}

#[test]
fn record_solution_needs_a_round() {
    let mut pool = MiningPool::init();
    assert_eq!(
        pool.record_solution(worker("block-1"), b"abc".to_vec()),
        Err(PoolError::RoundNotActive)
    );
    assert!(pool.list_solved_blocks().is_empty());
    assert!(pool.take_events().is_empty());
}

#[test]
fn record_solution_ends_the_round_and_keeps_the_block() {
    let mut pool = MiningPool::init();
    pool.start_round(b"abc".to_vec(), 4).unwrap();
    pool.take_events();
    assert_eq!(pool.record_solution(worker("block-1"), b"abc".to_vec()), Ok(true));
    assert!(!pool.is_active());
    assert_eq!(pool.list_solved_blocks(), vec![worker("block-1")]);
    assert_eq!(pool.solved_payload(&worker("block-1")), Some(b"abc".to_vec()));
    assert_eq!(pool.solved_payload(&worker("block-2")), None);
    assert_eq!(
        pool.take_events(),
        vec![MiningEvent::BlockFound { worker_id: None, block_id: worker("block-1"), reward: 0 }]
    );
}

#[test]
fn a_block_is_never_overwritten() {
    let mut pool = MiningPool::init();
    pool.start_round(b"abc".to_vec(), 4).unwrap();
    assert_eq!(pool.record_solution(worker("block-1"), b"abc".to_vec()), Ok(true));
    pool.start_round(b"def".to_vec(), 4).unwrap();
    assert_eq!(pool.record_solution(worker("block-1"), b"def".to_vec()), Ok(false));
    assert!(!pool.is_active());
    assert_eq!(pool.list_solved_blocks(), vec![worker("block-1")]);
    assert_eq!(pool.solved_payload(&worker("block-1")), Some(b"abc".to_vec()));
}

#[test]
fn no_search_after_a_recorded_solution() {
    let mut pool = MiningPool::init();
    pool.start_round(b"abc".to_vec(), 0).unwrap();
    pool.register(worker("w1"), 10).unwrap();
    pool.record_solution(worker("block-1"), b"abc".to_vec()).unwrap();
    assert_eq!(pool.search(&worker("w1"), None), Err(PoolError::RoundNotActive));
    assert_eq!(pool.search(&worker("nobody"), Some(3)), Err(PoolError::RoundNotActive));
    assert_eq!(pool.ledger().hash_count_of(&worker("w1")), 0);
    assert_eq!(pool.reward_of(&worker("w1")), 0);
    assert_eq!(pool.list_solved_blocks(), vec![worker("block-1")]);
}

#[test]
fn a_listener_stops_the_round_on_a_block_found() {
    let mut pool = MiningPool::init();
    pool.start_round(b"abc".to_vec(), 4).unwrap();
    pool.on_event(&MiningEvent::WorkerJoined { worker_id: worker("w1"), hashrate: 1 });
    pool.on_event(&MiningEvent::RoundStarted { payload: b"abc".to_vec(), difficulty: 4 });
    pool.on_event(&MiningEvent::RoundStopped);
    assert!(pool.is_active());
    pool.on_event(&MiningEvent::BlockFound {
        worker_id: Some(worker("w1")),
        block_id: worker("block-1"),
        reward: 1,
    });
    assert!(!pool.is_active());
    assert_eq!(pool.take_events().last(), Some(&MiningEvent::RoundStopped));
}

#[test]
fn a_listener_changes_nothing_once_the_round_is_over() {
    let mut pool = MiningPool::init();
    pool.start_round(b"abc".to_vec(), 0).unwrap();
    pool.register(worker("w1"), 10).unwrap();
    pool.search(&worker("w1"), None).unwrap();
    let events = pool.take_events();
    assert_eq!(events.len(), 3);
    for event in &events {
        pool.on_event(event);
    }
    assert!(!pool.is_active());
    assert!(pool.take_events().is_empty());
}

#[test]
fn take_events_empties_the_outbox() {
    let mut pool = MiningPool::init();
    pool.start_round(b"abc".to_vec(), 4).unwrap();
    pool.register(worker("w1"), 10).unwrap();
    assert_eq!(pool.take_events().len(), 2);
    assert!(pool.take_events().is_empty());
    assert!(pool.is_active());
    assert_eq!(pool.ledger().len(), 1);
}

#[test]
fn start_mining_uses_the_text_and_the_difficulty_of_the_pool() {
    let mut pool = MiningPool::init();
    assert_eq!(pool.start_mining(worker("block1")), Ok(()));
    assert!(pool.is_active());
    assert_eq!(pool.payload(), &b"block1".to_vec());
    assert_eq!(pool.difficulty(), 4);
    assert_eq!(pool.start_mining(worker("block2")), Err(PoolError::AlreadyActive));
    assert_eq!(pool.stop_mining(), Ok(()));
    assert_eq!(pool.start_mining(String::new()), Err(PoolError::InvalidPayload));
    assert_eq!(pool.stop_mining(), Ok(()));
    assert!(!pool.is_active());
}

#[test]
fn join_mining_registers() {
    let mut pool = MiningPool::init();
    assert_eq!(pool.join_mining(worker("miner1"), 100), Err(PoolError::RoundNotActive));
    pool.start_mining(worker("block1")).unwrap();
    assert_eq!(pool.join_mining(worker("miner1"), 100), Ok(()));
    assert_eq!(pool.join_mining(worker("miner2"), 0), Err(PoolError::InvalidCapacity));
    assert_eq!(pool.join_mining(worker("miner1"), 100), Ok(()));
    assert_eq!(pool.ledger().total_capacity(), 100);
}
