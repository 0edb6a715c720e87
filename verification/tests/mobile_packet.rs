use n42_node::codec::{decompress_payload, is_zstd};
use n42_node::header::Header;
use n42_node::mobile_packet::{
    after_attempt, frame_cache_sync, generate_packet, packet_compressed, packet_max_retries,
    packet_retry_base_ms, retry_delay, stream_packet, Attempt, CodeCache,
    MAX_PREVIOUSLY_SENT_CODES, MobilePacketError, NextAttempt,
};

#[test]
fn test_code_cache_insert_and_contains() {
    let mut cache = CodeCache::new(10);
    let hash = [0xAA; 32];
    assert!(!cache.contains_key(&hash));
    assert!(cache.is_empty());
    cache.insert(hash, vec![0x60, 0x00]);
    assert!(cache.contains_key(&hash));
    assert!(!cache.is_empty());
}

#[test]
fn test_code_cache_duplicate_insert_noop() {
    let mut cache = CodeCache::new(10);
    let hash = [0xBB; 32];
    cache.insert(hash, vec![0x60, 0x01]);
    cache.insert(hash, vec![0x60, 0x01]);
    assert_eq!(cache.len(), 1);
    assert_eq!(cache.codes().len(), 1);
}

#[test]
fn test_code_cache_fifo_eviction() {
    let mut cache = CodeCache::new(3);
    let h1 = [0x01; 32];
    let h2 = [0x02; 32];
    let h3 = [0x03; 32];
    let h4 = [0x04; 32];
    cache.insert(h1, vec![1]);
    cache.insert(h2, vec![2]);
    cache.insert(h3, vec![3]);
    assert_eq!(cache.len(), 3);
    cache.insert(h4, vec![4]);
    assert_eq!(cache.len(), 3);
    assert!(!cache.contains_key(&h1), "oldest entry should be evicted");
    assert!(cache.contains_key(&h2));
    assert!(cache.contains_key(&h3));
    assert!(cache.contains_key(&h4));
}

#[test]
fn test_code_cache_iter() {
    let mut cache = CodeCache::new(10);
    cache.insert([0x01; 32], vec![1]);
    cache.insert([0x02; 32], vec![2]);
    assert_eq!(cache.codes().len(), 2);
    assert_eq!(cache.codes(), vec![([0x01; 32], vec![1]), ([0x02; 32], vec![2])]);
}

#[test]
fn test_code_cache_zero_capacity() {
    let mut cache = CodeCache::new(0);
    cache.insert([0xFF; 32], vec![0xFF]);
    assert!(cache.is_empty(), "capacity 0 should keep nothing");
}

#[test]
fn test_code_cache_capacity_one() {
    let mut cache = CodeCache::new(1);
    let h1 = [0x01; 32];
    let h2 = [0x02; 32];
    cache.insert(h1, vec![1]);
    cache.insert(h2, vec![2]);
    assert!(!cache.contains_key(&h1), "h1 should be evicted");
    assert!(cache.contains_key(&h2));
    assert_eq!(cache.len(), 1);
}

#[test]
fn test_packet_retry_defaults() {
    assert_eq!(packet_max_retries(None), 10);
    assert_eq!(packet_retry_base_ms(None), 200);
    assert_eq!(packet_max_retries(Some(0)), 0);
    assert_eq!(packet_retry_base_ms(Some(7)), 7);
}

#[test]
fn test_zstd_roundtrip() {
    let data = vec![0xABu8; 10_000];
    let compressed = generate_packet(&mut CodeCache::new(1), &data, &vec![]).unwrap();
    assert!(compressed.len() < data.len());
    let decompressed = decompress_payload(&compressed).unwrap();
    assert_eq!(decompressed, data);
}

#[test]
fn test_zstd_witness_like_data_compresses_well() {
    let mut data = Vec::new();
    for _ in 0..100 {
        data.extend_from_slice(&[0x00; 20]);
        data.extend_from_slice(&[0x00; 32]);
        data.extend_from_slice(&[0xAB; 32]);
    }
    let compressed = generate_packet(&mut CodeCache::new(1), &data, &vec![]).unwrap();
    assert!(compressed.len() * 2 < data.len(), "should achieve >50% compression");
}

#[test]
fn delays_double_up_to_the_fourth_try() {
    let delays: Vec<u128> = (0..7).map(|attempt| retry_delay(200, attempt)).collect();
    assert_eq!(delays, vec![200, 400, 800, 1_600, 3_200, 3_200, 3_200]);
    assert_eq!(retry_delay(u64::MAX, 9), u64::MAX as u128 * 16);
}

#[test]
fn only_a_missing_block_is_tried_again() {
    assert_eq!(
        after_attempt(Attempt::BlockNotFound, 0, 10, 200),
        NextAttempt::Again { attempt: 1, delay_ms: 400 }
    );
    assert_eq!(after_attempt(Attempt::BlockNotFound, 9, 10, 200), NextAttempt::GaveUp);
    assert_eq!(after_attempt(Attempt::Sent, 0, 10, 200), NextAttempt::Done);
    assert_eq!(after_attempt(Attempt::Failed, 0, 10, 200), NextAttempt::Done);
}

#[test]
fn codes_are_sent_once() {
    let mut cache = CodeCache::new(10);
    let codes = vec![([1u8; 32], vec![1]), ([2u8; 32], vec![2])];
    assert_eq!(cache.new_codes(&codes), codes);
    cache.remember(&codes);
    let more = vec![([2u8; 32], vec![2]), ([3u8; 32], vec![3])];
    assert_eq!(cache.new_codes(&more), vec![([3u8; 32], vec![3])]);
    assert!(cache.new_codes(&codes).is_empty());
}

#[test]
fn cache_sync_is_framed() {
    let data = vec![7u8; 5_000];
    let framed = frame_cache_sync(0x05, data.clone());
    assert_eq!(framed[0], 0x05);
    assert!(is_zstd(&framed[1..]));
    assert_eq!(decompress_payload(&framed[1..]).unwrap(), data);
}

#[test]
fn error_texts() {
    let missing = MobilePacketError::BlockNotFound { block_hash: [0x11; 32] };
    assert_eq!(missing.to_text(), format!("block not found: 0x{}", "11".repeat(32)));
    assert!(missing.is_retryable());
    let others = [
        MobilePacketError::StateProvider { reason: "a".to_string() },
        MobilePacketError::Execution { reason: "b".to_string() },
        MobilePacketError::Compression { reason: "c".to_string() },
    ];
    let texts: Vec<String> = others.iter().map(|e| e.to_text()).collect();
    assert_eq!(
        texts,
        vec!["state provider error: a", "execution error: b", "compression error: c"]
    );
    assert!(others.iter().all(|e| !e.is_retryable()));
}

fn header() -> Header {
    Header {
        parent_hash: [1; 32],
        ommers_hash: [2; 32],
        beneficiary: [3; 20],
        state_root: [4; 32],
        transactions_root: [5; 32],
        receipts_root: [6; 32],
        logs_bloom: [0; 256],
        difficulty: [0; 32],
        number: 7,
        gas_limit: 8,
        gas_used: 9,
        timestamp: 10,
        extra_data: vec![11],
        mix_hash: [12; 32],
        nonce: [0; 8],
        base_fee_per_gas: Some(13),
        withdrawals_root: None,
        blob_gas_used: None,
        excess_blob_gas: None,
        parent_beacon_block_root: None,
        requests_hash: None,
    }
}

#[test]
fn packets_hold_what_phones_do_not_have() {
    let mut sent = CodeCache::new(MAX_PREVIOUSLY_SENT_CODES);
    assert!(sent.cache_sync().is_none());
    let first = vec![([1; 32], vec![0x60]), ([2; 32], vec![0x61])];
    let packet = stream_packet(&sent, [9; 32], &header(), vec![vec![5]], vec![6], &first);
    assert_eq!(packet.block_hash, [9; 32]);
    assert_eq!(packet.header_rlp, header().encode());
    assert_eq!(packet.transactions, vec![vec![5]]);
    assert_eq!(packet.read_log_data, vec![6]);
    assert_eq!(packet.bytecodes, first);
    let compressed = generate_packet(&mut sent, &vec![7; 500], &first).unwrap();
    assert_eq!(decompress_payload(&compressed).unwrap(), vec![7; 500]);
    assert_eq!(sent.cache_sync().unwrap(), first);
    let second = vec![([2; 32], vec![0x61]), ([3; 32], vec![0x62])];
    let packet = stream_packet(&sent, [8; 32], &header(), vec![], vec![], &second);
    assert_eq!(packet.bytecodes, vec![([3; 32], vec![0x62])]);
}

#[test]
fn a_frame_is_the_packet_and_its_codes_count_as_sent() {
    let mut sent = CodeCache::new(10);
    sent.insert([1; 32], vec![0x60]);
    let codes = vec![([2; 32], vec![0x61]), ([1; 32], vec![0x60])];
    let packet = packet_compressed(&mut sent, Ok(vec![9, 8, 7]), &codes);
    assert_eq!(packet.unwrap(), vec![9, 8, 7]);
    assert_eq!(sent.len(), 2);
    assert!(sent.contains_key(&[2; 32]));
}

#[test]
fn a_failed_compression_is_reported_and_no_code_counts_as_sent() {
    let mut sent = CodeCache::new(10);
    sent.insert([1; 32], vec![0x60]);
    let codes = vec![([2; 32], vec![0x61])];
    let failure = Err(String::from("out of memory"));
    match packet_compressed(&mut sent, failure, &codes) {
        Err(MobilePacketError::Compression { reason }) => assert_eq!(reason, "out of memory"),
        _ => panic!("the compressor failed"),
    }
    assert_eq!(sent.codes(), vec![([1; 32], vec![0x60])]);
    assert!(!sent.contains_key(&[2; 32]));
}
