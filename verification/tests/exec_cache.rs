use n42_node::codec::{decompress_payload, is_zstd};
use n42_node::exec_cache::{
    inject_compact_block, take_and_serialize_execution_output, CompactInjectTracker,
    RethExecutionOutputCache,
};

#[test]
fn outputs_go_out_compressed() {
    let json = vec![b'x'; 3_000];
    let compressed = take_and_serialize_execution_output(Some(&json)).unwrap();
    assert!(is_zstd(&compressed));
    assert!(compressed.len() < json.len());
    assert_eq!(decompress_payload(&compressed).unwrap(), json);
    assert!(take_and_serialize_execution_output(None).is_none());
}

#[test]
fn repeated_outputs_are_counted() {
    let mut tracker = CompactInjectTracker::new();
    let compressed = take_and_serialize_execution_output(Some(&b"output".to_vec())).unwrap();
    let first = inject_compact_block(&mut tracker, &[1; 32], &compressed);
    assert_eq!(first.repeated, None);
    assert_eq!(first.json.unwrap(), b"output".to_vec());
    let second = inject_compact_block(&mut tracker, &[1; 32], &compressed);
    assert_eq!(second.repeated, Some(2));
    let broken = inject_compact_block(&mut tracker, &[1; 32], &compressed[..6]);
    assert_eq!(broken.repeated, Some(3));
    assert!(broken.json.is_none());
}

#[test]
fn the_latest_blocks_are_remembered() {
    let mut tracker = CompactInjectTracker::new();
    for i in 0..2_049u32 {
        let mut hash = [0u8; 32];
        hash[..4].copy_from_slice(&i.to_le_bytes());
        assert_eq!(tracker.observe_compact_inject_attempt(hash), None);
    }
    assert_eq!(tracker.observe_compact_inject_attempt([0; 32]), None, "the first was forgotten");
    let mut last = [0u8; 32];
    last[..4].copy_from_slice(&2_048u32.to_le_bytes());
    assert_eq!(tracker.observe_compact_inject_attempt(last), Some(2));
}

#[test]
fn followers_get_the_output_back() {
    let mut cache = RethExecutionOutputCache::new();
    let json = b"{\"gas_used\":21000}".to_vec();
    let compressed = cache.take_serialized(Some(&json)).unwrap();
    assert_ne!(compressed, json);
    assert!(cache.take_serialized(None).is_none());
    assert_eq!(cache.inject(&[3; 32], &compressed).json.unwrap(), json);
    assert_eq!(cache.inject(&[3; 32], &compressed).repeated, Some(2));
    assert_eq!(cache.inject(&[3; 32], &json).json.unwrap(), json, "raw outputs pass through");
}
