use mining_pool::miner::MiningState;
use sha2::{Digest, Sha256};

fn hex_of(label: &str, nonce: u64) -> String {
    format!("{:x}", Sha256::digest(format!("{}{}", label, nonce).as_bytes()))
}

fn next_nonce(label: &str, from: u64) -> u64 {
    let mut nonce = from;
    while !hex_of(label, nonce).starts_with("0000") {
        nonce += 1;
    }
    nonce
}

#[test]
fn a_new_miner_may_mine_and_has_no_blocks() {
    let miner = MiningState::init();
    assert!(miner.is_active());
    assert!(miner.get_mined_blocks().is_empty());
}

#[test]
fn a_miner_finds_the_first_block_from_its_counter_on() {
    let nonce = next_nonce("node1tx-data", 0);
    let mut miner = MiningState::init();
    let found = miner.mine_block("node1".to_string(), "tx-data".to_string(), None).unwrap();
    let expected = format!("block-{}", hex_of("node1tx-data", nonce));
    assert_eq!(found, Some(expected.clone()));
    assert_eq!(miner.get_mined_blocks(), vec![expected]);
}

#[test]
fn a_miner_that_runs_out_of_iterations_finds_nothing() {
    let nonce = next_nonce("node1tx-data", 0);
    let mut miner = MiningState::init();
    assert_eq!(miner.mine_block("node1".to_string(), "tx-data".to_string(), Some(nonce)), Ok(None));
    assert_eq!(miner.mine_block("node1".to_string(), "tx-data".to_string(), Some(0)), Ok(None));
    assert!(miner.get_mined_blocks().is_empty());
}

#[test]
fn each_search_begins_one_nonce_later() {
    let first = next_nonce("node1tx-data", 0);
    let mut miner = MiningState::init();
    assert_eq!(miner.mine_block("node1".to_string(), "tx-data".to_string(), Some(0)), Ok(None));
    assert_eq!(
        miner.mine_block("node1".to_string(), "tx-data".to_string(), Some(first - 1)),
        Ok(None)
    );
    let found = miner.mine_block("node1".to_string(), "tx-data".to_string(), Some(first - 1));
    assert_eq!(found, Ok(Some(format!("block-{}", hex_of("node1tx-data", first)))));
}

#[test]
fn a_block_found_twice_is_kept_once() {
    let mut miner = MiningState::init();
    let first = miner.mine_block("node1".to_string(), "tx-data".to_string(), None).unwrap();
    assert!(first.is_some());
    assert_eq!(miner.mine_block("node1".to_string(), "tx-data".to_string(), None), Ok(None));
    assert_eq!(miner.get_mined_blocks().len(), 1);
}

#[test]
fn a_stopped_miner_finds_nothing_until_it_is_started_again() {
    let mut miner = MiningState::init();
    assert_eq!(miner.stop_mining(), Ok(()));
    assert!(!miner.is_active());
    assert_eq!(miner.mine_block("node1".to_string(), "tx-data".to_string(), None), Ok(None));
    assert!(miner.get_mined_blocks().is_empty());
    assert_eq!(miner.start_mining(), Ok(()));
    assert!(miner.is_active());
    let nonce = next_nonce("node1tx-data", 1);
    let found = miner.mine_block("node1".to_string(), "tx-data".to_string(), None).unwrap();
    assert_eq!(found, Some(format!("block-{}", hex_of("node1tx-data", nonce))));
}

#[test]
fn a_miner_has_room_while_its_nonces_can_be_counted() {
    let mut miner = MiningState::init();
    assert_eq!(miner.next_nonce(), 0);
    assert_eq!(miner.difficulty(), 4);
    assert!(miner.has_room(None));
    assert!(miner.has_room(Some(u64::MAX)));
    miner.mine_block("node1".to_string(), "tx-data".to_string(), Some(0)).unwrap();
    assert_eq!(miner.next_nonce(), 1);
    assert!(!miner.has_room(Some(u64::MAX)));
    assert!(miner.has_room(Some(u64::MAX - 1)));
}
