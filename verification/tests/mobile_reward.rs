use alloy_primitives::keccak256;
use n42_node::mobile_reward::{
    bls_pubkey_to_address, EpochBoundary, MobileRewardManager, Withdrawal, MAX_REWARD_QUEUE_SIZE,
};

fn test_pubkey(idx: u8) -> [u8; 48] {
    [idx; 48]
}

/// The reward of a count on the logarithmic curve of steepness four.
fn log_reward(count: u64, blocks: u64, base: u64) -> u64 {
    if count == 0 || blocks == 0 {
        return 0;
    }
    let n = count.min(blocks) as f64;
    let ratio = (1.0 + 4.0 * n).ln() / (1.0 + 4.0 * blocks as f64).ln();
    ((base as f64) * ratio) as u64
}

/// A manager with the curve's parameters.
struct Rewards {
    manager: MobileRewardManager,
    blocks: u64,
    base: u64,
}

impl Rewards {
    fn new(blocks: u64, base: u64, max_per_block: usize) -> Self {
        Rewards { manager: MobileRewardManager::new(blocks, base, max_per_block), blocks, base }
    }

    fn record_attestation(&mut self, pubkey: &[u8; 48]) {
        self.manager.record_attestation(pubkey);
    }

    fn check_epoch_boundary(&mut self, block: u64) {
        let rewards: Vec<u64> = self
            .manager
            .sorted_attestations()
            .iter()
            .map(|(_, count)| log_reward(*count, self.blocks, self.base))
            .collect();
        self.manager.check_epoch_boundary(block, &rewards);
    }

    fn take_pending_rewards(&mut self, block: u64) -> Vec<Withdrawal> {
        self.manager.take_pending_rewards(block)
    }

    fn pending_count(&self) -> usize {
        self.manager.pending_count()
    }

    fn epoch_attestation_count(&self) -> usize {
        self.manager.epoch_attestation_count()
    }
}

#[test]
fn mobile_reward_test_record_attestation() {
    let mut mgr = Rewards::new(100, 100_000_000, 32);
    let pk = test_pubkey(1);
    mgr.record_attestation(&pk);
    assert_eq!(mgr.epoch_attestation_count(), 1);
    assert_eq!(mgr.manager.attestations_of(&pk), 1);
    mgr.record_attestation(&pk);
    assert_eq!(mgr.manager.attestations_of(&pk), 2);
}

#[test]
fn test_epoch_boundary_no_early_distribution() {
    let mut mgr = Rewards::new(100, 100_000_000, 32);
    mgr.record_attestation(&test_pubkey(1));
    mgr.check_epoch_boundary(50);
    assert_eq!(mgr.pending_count(), 0);
    assert_eq!(mgr.epoch_attestation_count(), 1);
}

#[test]
fn test_epoch_boundary_distribution() {
    let mut mgr = Rewards::new(100, 100_000_000, 32);
    let pk1 = test_pubkey(1);
    let pk2 = test_pubkey(2);
    for _ in 0..10 {
        mgr.record_attestation(&pk1);
    }
    for _ in 0..5 {
        mgr.record_attestation(&pk2);
    }
    mgr.check_epoch_boundary(100);
    assert_eq!(mgr.pending_count(), 2);
    assert_eq!(mgr.epoch_attestation_count(), 0);
    let rewards = mgr.take_pending_rewards(100);
    assert_eq!(rewards.len(), 2);
    let expected_pk1 = log_reward(10, 100, 100_000_000);
    let expected_pk2 = log_reward(5, 100, 100_000_000);
    let total: u64 = rewards.iter().map(|w| w.amount).sum();
    assert_eq!(total, expected_pk1 + expected_pk2);
    let amounts: Vec<u64> = rewards.iter().map(|w| w.amount).collect();
    assert!(amounts.contains(&expected_pk1));
    assert!(amounts.contains(&expected_pk2));
    assert_eq!(rewards[0].index, 100 * 32);
    assert_eq!(rewards[1].index, 100 * 32 + 1);
    assert_eq!(rewards[0].address, bls_pubkey_to_address(&pk1));
    assert_eq!(rewards[1].address, bls_pubkey_to_address(&pk2));
}

#[test]
fn test_take_pending_bounded() {
    let mut mgr = Rewards::new(100, 100_000_000, 2);
    for i in 0..5u8 {
        mgr.record_attestation(&test_pubkey(i));
    }
    mgr.check_epoch_boundary(100);
    assert_eq!(mgr.pending_count(), 5);
    let batch1 = mgr.take_pending_rewards(100);
    assert_eq!(batch1.len(), 2);
    assert_eq!(mgr.pending_count(), 3);
    let batch2 = mgr.take_pending_rewards(101);
    assert_eq!(batch2.len(), 2);
    assert_eq!(mgr.pending_count(), 1);
    let batch3 = mgr.take_pending_rewards(102);
    assert_eq!(batch3.len(), 1);
    assert_eq!(mgr.pending_count(), 0);
}

#[test]
fn test_no_double_distribution() {
    let mut mgr = Rewards::new(100, 100_000_000, 32);
    mgr.record_attestation(&test_pubkey(1));
    mgr.check_epoch_boundary(100);
    assert_eq!(mgr.pending_count(), 1);
    mgr.record_attestation(&test_pubkey(2));
    mgr.check_epoch_boundary(100);
    assert_eq!(mgr.pending_count(), 1);
}

#[test]
fn test_withdrawal_index_block_based() {
    let mut mgr = Rewards::new(100, 100_000_000, 32);
    for i in 0..3u8 {
        mgr.record_attestation(&test_pubkey(i));
    }
    mgr.check_epoch_boundary(100);
    let rewards = mgr.take_pending_rewards(100);
    let indices: Vec<u64> = rewards.iter().map(|w| w.index).collect();
    assert_eq!(indices, vec![100 * 32, 100 * 32 + 1, 100 * 32 + 2]);
    mgr.record_attestation(&test_pubkey(10));
    mgr.check_epoch_boundary(200);
    let rewards2 = mgr.take_pending_rewards(200);
    assert_eq!(rewards2[0].index, 200 * 32);
}

#[test]
fn test_bls_pubkey_to_address_deterministic() {
    let addr1 = bls_pubkey_to_address(&test_pubkey(1));
    let addr2 = bls_pubkey_to_address(&test_pubkey(1));
    assert_eq!(addr1, addr2);
    let addr3 = bls_pubkey_to_address(&test_pubkey(2));
    assert_ne!(addr1, addr3);
}

#[test]
fn test_empty_epoch() {
    let mut mgr = Rewards::new(100, 100_000_000, 32);
    mgr.check_epoch_boundary(100);
    assert_eq!(mgr.pending_count(), 0);
}

#[test]
fn test_distinct_pubkeys_tracked_separately() {
    let mut mgr = Rewards::new(100, 100_000_000, 32);
    mgr.record_attestation(&test_pubkey(0xAA));
    mgr.record_attestation(&test_pubkey(0xBB));
    mgr.record_attestation(&test_pubkey(0xCC));
    assert_eq!(mgr.epoch_attestation_count(), 3);
}

#[test]
fn test_bls_pubkey_to_address_non_zero() {
    assert_ne!(bls_pubkey_to_address(&test_pubkey(1)), [0u8; 20]);
}

#[test]
fn test_zero_blocks_per_epoch_no_distribution() {
    let mut mgr = Rewards::new(0, 100_000_000, 32);
    mgr.record_attestation(&test_pubkey(1));
    mgr.check_epoch_boundary(100);
    assert_eq!(mgr.pending_count(), 0);
    assert_eq!(mgr.epoch_attestation_count(), 1);
}

#[test]
fn test_take_empty_queue_returns_empty() {
    let mut mgr = Rewards::new(100, 100_000_000, 32);
    assert!(mgr.take_pending_rewards(1).is_empty());
}

#[test]
fn test_multi_epoch_drain_across_blocks() {
    let mut mgr = Rewards::new(10, 1_000_000, 2);
    for i in 0..3u8 {
        mgr.record_attestation(&test_pubkey(i));
    }
    mgr.check_epoch_boundary(10);
    assert_eq!(mgr.pending_count(), 3);
    let batch1 = mgr.take_pending_rewards(10);
    assert_eq!(batch1.len(), 2);
    assert_eq!(mgr.pending_count(), 1);
    for i in 10..12u8 {
        mgr.record_attestation(&test_pubkey(i));
    }
    mgr.check_epoch_boundary(20);
    assert_eq!(mgr.pending_count(), 3);
    let batch2 = mgr.take_pending_rewards(20);
    assert_eq!(batch2.len(), 2);
    let batch3 = mgr.take_pending_rewards(21);
    assert_eq!(batch3.len(), 1);
    assert_eq!(mgr.pending_count(), 0);
}

#[test]
fn test_reward_address_matches_expected_derivation() {
    let pk = test_pubkey(42);
    let addr = bls_pubkey_to_address(&pk);
    let hash = keccak256(pk);
    assert_eq!(addr.as_slice(), &hash[12..]);
    assert_ne!(addr, [0u8; 20]);
}

#[test]
fn test_reward_no_overflow_with_max_base() {
    let mut mgr = Rewards::new(1, u64::MAX, 32);
    let pk = test_pubkey(1);
    mgr.record_attestation(&pk);
    mgr.record_attestation(&pk);
    mgr.check_epoch_boundary(1);
    let rewards = mgr.take_pending_rewards(1);
    assert_eq!(rewards.len(), 1);
    assert_eq!(rewards[0].amount, u64::MAX);
}

#[test]
fn test_many_unique_validators() {
    let mut mgr = Rewards::new(100, 1_000, 32);
    for i in 0..100u8 {
        mgr.record_attestation(&test_pubkey(i));
    }
    assert_eq!(mgr.epoch_attestation_count(), 100);
    mgr.check_epoch_boundary(100);
    assert_eq!(mgr.pending_count(), 100);
    let mut drained = 0;
    let mut block = 100u64;
    while mgr.pending_count() > 0 {
        let batch = mgr.take_pending_rewards(block);
        assert!(batch.len() <= 32);
        drained += batch.len();
        block += 1;
    }
    assert_eq!(drained, 100);
}

#[test]
fn boundaries() {
    let mut mgr = MobileRewardManager::new(10, 100, 2);
    assert_eq!(mgr.epoch_boundary(9), EpochBoundary::NotDue);
    assert_eq!(mgr.epoch_boundary(10), EpochBoundary::NoAttestations);
    mgr.record_attestation(&test_pubkey(1));
    assert_eq!(mgr.epoch_boundary(10), EpochBoundary::Due);
    mgr.check_epoch_boundary(10, &vec![5]);
    assert_eq!(mgr.epoch_boundary(19), EpochBoundary::NotDue);
    assert_eq!(mgr.epoch_boundary(20), EpochBoundary::NoAttestations);
    assert_eq!(MAX_REWARD_QUEUE_SIZE, 1_000_000);
}

#[test]
fn payments_are_capped_and_sorted() {
    let mut mgr = MobileRewardManager::new(10, 100, 5);
    for i in [9u8, 3, 7] {
        mgr.record_attestation(&test_pubkey(i));
    }
    let keys: Vec<u8> = mgr.sorted_attestations().iter().map(|(key, _)| key[0]).collect();
    assert_eq!(keys, vec![3, 7, 9]);
    mgr.check_epoch_boundary(10, &vec![1_000, 0, 40]);
    let paid = mgr.take_pending_rewards(10);
    let amounts: Vec<u64> = paid.iter().map(|w| w.amount).collect();
    assert_eq!(amounts, vec![100, 40], "a reward of zero is not paid");
    assert_eq!(paid[0].address, bls_pubkey_to_address(&test_pubkey(3)));
    assert_eq!(paid[1].address, bls_pubkey_to_address(&test_pubkey(9)));
}
