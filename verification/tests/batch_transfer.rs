use n42_node::batch_transfer::{
    apply_block, build_block, config, derive_private_key, estimated_recipient_count,
    fastlane_enabled, prehash, push_records, read_u32, read_u64, verify_apply_block, AccountCache,
    BatchTransferConfig, BatchTransferError,
};

const CHAIN: u64 = 94;

fn small() -> (BatchTransferConfig, AccountCache) {
    let cfg = config(Some(2), Some(3));
    (cfg, AccountCache::new(Some(1), 2).unwrap())
}

#[test]
fn a_built_block_verifies() {
    let (cfg, accounts) = small();
    let (hash, encoded, stats) = build_block(&cfg, &accounts, CHAIN, 7).unwrap();
    assert_eq!(encoded.len(), 12 + 2 * (77 + 3 * 12));
    assert_eq!(&hash, blake3::hash(&encoded).as_bytes());
    let verified = verify_apply_block(&encoded, &hash, CHAIN, &accounts).unwrap();
    assert_eq!(verified, stats);
    assert_eq!(stats.transfers, 6);
    assert_eq!(stats.transfers_per_sender, 3);

    let (_, ledger) = apply_block(&encoded, &hash, CHAIN, &accounts).unwrap();
    // Block seven starts at nonce 21; the second sender three further on.
    assert_eq!(ledger.sender_nonces, vec![24, 27]);
    assert_eq!(
        ledger.sender_balances,
        vec![u128::MAX / 4 - 3, u128::MAX / 4 - 3]
    );
    assert_eq!(ledger.recipient_balances.iter().sum::<u128>(), 6);
}

#[test]
fn tampering_is_refused() {
    let (cfg, accounts) = small();
    let (hash, encoded, _) = build_block(&cfg, &accounts, CHAIN, 7).unwrap();

    assert!(matches!(
        verify_apply_block(&encoded, &[0u8; 32], CHAIN, &accounts),
        Err(BatchTransferError::HashMismatch { expected, actual })
            if expected == [0u8; 32] && actual == hash
    ));

    // An amount changed: the signature no longer leads to the first sender.
    let mut changed = encoded.clone();
    changed[12 + 77 + 4] ^= 1;
    let rehashed = *blake3::hash(&changed).as_bytes();
    assert_eq!(
        verify_apply_block(&changed, &rehashed, CHAIN, &accounts),
        Err(BatchTransferError::SenderMismatch(0))
    );

    // The same block on another chain.
    assert_eq!(
        verify_apply_block(&encoded, &hash, CHAIN + 1, &accounts),
        Err(BatchTransferError::SenderMismatch(0))
    );

    let mut bad_parity = encoded.clone();
    bad_parity[12 + 12 + 64] = 5;
    let rehashed = *blake3::hash(&bad_parity).as_bytes();
    assert_eq!(
        verify_apply_block(&bad_parity, &rehashed, CHAIN, &accounts),
        Err(BatchTransferError::InvalidSignature)
    );

    let mut zero_signature = encoded.clone();
    for b in &mut zero_signature[12 + 12..12 + 12 + 64] {
        *b = 0;
    }
    let rehashed = *blake3::hash(&zero_signature).as_bytes();
    assert_eq!(
        verify_apply_block(&zero_signature, &rehashed, CHAIN, &accounts),
        Err(BatchTransferError::Unrecoverable)
    );
}

#[test]
fn short_and_long_blocks_are_refused() {
    let (cfg, accounts) = small();
    let (_, encoded, _) = build_block(&cfg, &accounts, CHAIN, 7).unwrap();
    let outcome = |bytes: &[u8]| {
        let hash = *blake3::hash(bytes).as_bytes();
        verify_apply_block(bytes, &hash, CHAIN, &accounts)
    };
    assert_eq!(
        outcome(&encoded[..5]),
        Err(BatchTransferError::TruncatedU64)
    );
    assert_eq!(
        outcome(&encoded[..9]),
        Err(BatchTransferError::TruncatedU32)
    );
    assert_eq!(
        outcome(&encoded[..16]),
        Err(BatchTransferError::TruncatedU64)
    );
    assert_eq!(
        outcome(&encoded[..22]),
        Err(BatchTransferError::TruncatedU32)
    );
    assert_eq!(
        outcome(&encoded[..40]),
        Err(BatchTransferError::TruncatedSignature)
    );
    assert_eq!(
        outcome(&encoded[..12 + 77 + 10]),
        Err(BatchTransferError::TruncatedRecords)
    );
    let mut long = encoded.clone();
    long.extend_from_slice(&[0, 0, 0]);
    assert_eq!(outcome(&long), Err(BatchTransferError::TrailingBytes(3)));
}

#[test]
fn too_few_accounts_are_reported() {
    let accounts = AccountCache::new(None, 0).unwrap();
    let cfg = config(Some(5000), Some(1));
    assert!(matches!(
        build_block(&cfg, &accounts, CHAIN, 1),
        Err(BatchTransferError::AccountCacheTooSmall {
            have: 4096,
            need: 5000
        })
    ));
}

#[test]
fn accounts_are_derived_from_their_names() {
    assert_eq!(
        derive_private_key(0),
        alloy_primitives::keccak256("n42-test-key-0").0
    );
    assert_eq!(
        derive_private_key(1234),
        alloy_primitives::keccak256("n42-test-key-1234").0
    );
}

#[test]
fn the_signed_hash_covers_every_field() {
    let records = [1u8; 12];
    let base = prehash(1, 2, 3, 4, &records);
    let mut message = b"N42_BATCH_TRANSFER_V0".to_vec();
    message.extend_from_slice(&1u64.to_le_bytes());
    message.extend_from_slice(&2u64.to_le_bytes());
    message.extend_from_slice(&3u64.to_le_bytes());
    message.extend_from_slice(&4u32.to_le_bytes());
    message.extend_from_slice(blake3::hash(&records).as_bytes());
    assert_eq!(&base, blake3::hash(&message).as_bytes());
    let mut hasher = blake3::Hasher::new();
    hasher.update(b"N42_BATCH_TRANSFER_V0");
    hasher.update(&message[21..]);
    assert_eq!(&base, hasher.finalize().as_bytes());
    assert_ne!(base, prehash(1, 2, 3, 4, &[2u8; 12]));
}

#[test]
fn records_spread_over_recipients() {
    let mut buf = vec![9u8];
    push_records(&mut buf, 1, 2);
    let mut expected = vec![9u8];
    for n in 2u32..4 {
        expected.extend_from_slice(&n.wrapping_mul(2_654_435_761).to_le_bytes());
        expected.extend_from_slice(&1u64.to_le_bytes());
    }
    assert_eq!(buf, expected);
}

#[test]
fn readers_stop_at_the_end() {
    let bytes = [1u8, 0, 0, 0, 2, 0, 0, 0, 0, 0, 0, 0];
    let mut offset = 0;
    assert_eq!(read_u32(&bytes, &mut offset), Ok(1));
    assert_eq!(read_u64(&bytes, &mut offset), Ok(2));
    assert_eq!(offset, 12);
    assert_eq!(
        read_u32(&bytes, &mut offset),
        Err(BatchTransferError::TruncatedU32)
    );
    assert_eq!(
        read_u64(&bytes, &mut offset),
        Err(BatchTransferError::TruncatedU64)
    );
    assert_eq!(offset, 12);
}

#[test]
fn shapes_have_defaults_and_a_minimum() {
    assert_eq!(
        config(None, None),
        BatchTransferConfig {
            senders: 128,
            transfers_per_sender: 10_000
        }
    );
    assert_eq!(
        config(Some(0), Some(0)),
        BatchTransferConfig {
            senders: 1,
            transfers_per_sender: 1
        }
    );
    assert!(!fastlane_enabled(None));
    assert!(!fastlane_enabled(Some(0)));
    assert!(fastlane_enabled(Some(1)));
    assert_eq!(estimated_recipient_count(&[0u8; 12 + 77 + 36], 1), 3);
    assert_eq!(estimated_recipient_count(&[0u8; 5], 1), 0);
}

#[test]
fn every_built_block_verifies() {
    let accounts = AccountCache::new(None, 8).unwrap();
    for block_number in [0, 1, 2, 1_000, u64::MAX] {
        for (senders, transfers) in [(1, 1), (3, 2), (8, 5)] {
            let cfg = config(Some(senders), Some(transfers));
            let (hash, encoded, stats) =
                build_block(&cfg, &accounts, CHAIN, block_number).unwrap();
            assert_eq!(encoded.len(), 12 + senders * (77 + 12 * transfers));
            for i in 0..senders {
                let start = 12 + i * (77 + 12 * transfers) + 12;
                let top = &encoded[start..start + 15];
                assert!(top.iter().any(|b| *b != 0), "the coordinate is high");
            }
            let read = verify_apply_block(&encoded, &hash, CHAIN, &accounts).unwrap();
            assert_eq!(read, stats);
            assert_eq!(read.block_number, block_number);
            assert_eq!(read.encoded_bytes, encoded.len());
        }
    }
}
