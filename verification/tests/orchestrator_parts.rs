use n42_node::codec::{compress_payload, decompress_payload, is_zstd};
use n42_node::orchestrator::broadcast::{
    broadcast_blob_sidecars, decode_block, decode_sidecars, encode_block,
    extract_bundle_state_json, handle_blob_sidecar, ready_payload, BlockDataBroadcast,
};
use n42_node::orchestrator::cache::PendingBlocks;
use n42_node::orchestrator::forward::{validator_peer, Flush, TxForwardBuffer};
use n42_node::orchestrator::imports::{
    is_accepted, BackgroundImports, BgImport, EagerGuard, PayloadStatus, SyncingQueue,
};
use n42_node::orchestrator::pipeline::{PipelineTiming, PipelineTimings};
use n42_node::orchestrator::schedule::{
    builder_warmup_delay, max_consecutive_empty_skips, startup_delay_ms, BuildSchedule, Clock,
};

fn announced(output: Option<Vec<u8>>) -> BlockDataBroadcast {
    BlockDataBroadcast {
        block_hash: [0xAB; 32],
        view: 12,
        payload_json: vec![1, 2, 3],
        timestamp: 99,
        execution_output: output,
        leader_ready_unix_ms: 77,
    }
}

#[test]
fn announcements_read_back() {
    let data = encode_block(&announced(Some(vec![9]))).unwrap();
    let block = decode_block(&data).unwrap();
    assert_eq!(block.block_hash, [0xAB; 32]);
    assert_eq!(block.view, 12);
    assert_eq!(block.payload_json, vec![1, 2, 3]);
    assert_eq!(block.timestamp, 99);
    assert_eq!(block.execution_output, Some(vec![9]));
    assert_eq!(block.leader_ready_unix_ms, 77);
    assert!(decode_block(&data[..data.len() - 1]).is_none());
    assert!(ready_payload(&block.payload_json).is_none());
}

#[test]
fn execution_outputs_decompress() {
    let output = compress_payload(b"state");
    let data = encode_block(&announced(Some(output))).unwrap();
    assert_eq!(extract_bundle_state_json(&data).unwrap(), b"state".to_vec());
    let broken = encode_block(&announced(Some(vec![1, 2]))).unwrap();
    assert!(extract_bundle_state_json(&broken).is_none());
    let none = encode_block(&announced(None)).unwrap();
    assert!(extract_bundle_state_json(&none).is_none());
    assert!(extract_bundle_state_json(&[]).is_none());
}

#[test]
fn payloads_are_compressed() {
    let json = vec![b'a'; 4_000];
    let payload = compress_payload(&json);
    assert!(is_zstd(&payload));
    assert!(payload.len() < json.len());
    assert_eq!(decompress_payload(&payload).unwrap(), json);
    assert_eq!(decompress_payload(b"raw").unwrap(), b"raw".to_vec());
    assert!(decompress_payload(&payload[..10]).is_none());
}

#[test]
fn sidecars_that_decode_are_stored() {
    let sidecar = alloy_eips::eip7594::BlobTransactionSidecarVariant::Eip4844(
        alloy_eips::eip4844::BlobTransactionSidecar::default(),
    );
    let good = alloy_rlp::encode(&sidecar);
    let sidecars = vec![([1; 32], good.clone()), ([2; 32], vec![0x01])];
    let data = broadcast_blob_sidecars(&[7; 32], 3, &sidecars).unwrap();
    let back = decode_sidecars(&data).unwrap();
    assert_eq!((back.block_hash, back.view), ([7; 32], 3));
    assert_eq!(back.sidecars, sidecars);
    assert_eq!(handle_blob_sidecar(true, &data), vec![([1; 32], good)]);
    assert!(handle_blob_sidecar(false, &data).is_empty());
    assert!(handle_blob_sidecar(true, &[1]).is_empty());
    assert!(broadcast_blob_sidecars(&[7; 32], 3, &vec![]).is_none());
}

#[test]
fn the_cache_is_bounded() {
    let mut pending = PendingBlocks::new();
    for i in 0..16u8 {
        assert!(pending.cache_pending_block_data([i; 32], vec![i], &[]));
    }
    assert!(pending.cache_pending_block_data([200; 32], vec![1], &[[0; 32], [200; 32]]));
    assert!(pending.has_data(&[0; 32]), "a protected block stays");
    assert!(!pending.has_data(&[1; 32]), "the first unprotected one leaves");
    assert!(pending.has_data(&[200; 32]));
    pending.await_block([5; 32]);
    assert!(pending.is_awaited(&[5; 32]));
    pending.arrived(&[5; 32]);
    assert!(!pending.is_awaited(&[5; 32]));
    assert_eq!(pending.take(&[2; 32]), Some(vec![2]));
    assert_eq!(pending.take(&[2; 32]), None);
    pending.cache_own_block([3; 32], vec![33]);
    pending.clear();
    assert!(!pending.has_data(&[3; 32]));
}

fn slots() -> BuildSchedule {
    BuildSchedule::new(8_000, false, 0, 3)
}

#[test]
fn slots_lie_on_the_wall_clock() {
    let (timestamp, delay_ms) = slots().next_slot_boundary(1_700_000_003_500);
    assert_eq!(delay_ms, 4_500);
    assert_eq!(timestamp, 1_700_000_008);
    let (timestamp, delay_ms) = slots().next_slot_boundary(1_700_000_008_000);
    assert_eq!(delay_ms, 0, "on a boundary there is nothing to wait for");
    assert_eq!(timestamp, 1_700_000_008);
    let (timestamp, delay_ms) = slots().next_slot_boundary(1_700_000_008_001);
    assert_eq!(delay_ms, 7_999);
    assert_eq!(timestamp, 1_700_000_016);
}

#[test]
fn a_boundary_is_the_time_in_slots_rounded_up() {
    for unix_ms in [0u64, 1, 7_999, 8_000, 8_001, 1_700_000_003_500, 1_700_000_008_000] {
        let (timestamp, delay_ms) = slots().next_slot_boundary(unix_ms);
        let boundary = unix_ms.div_ceil(8_000) * 8_000;
        assert_eq!((timestamp, delay_ms), (boundary / 1_000, boundary - unix_ms));
    }
    let mut schedule = slots();
    let clock = Clock { instant_ms: 1_000, unix_ms: 1_700_000_008_000 };
    assert!(!schedule.schedule_payload_build(false, clock));
    assert_eq!(schedule.next_build_at, Some(1_000));
    assert_eq!(schedule.next_slot_timestamp, Some(1_700_000_008));
}

#[test]
fn without_slots_the_next_boundary_is_a_second_away() {
    let schedule = BuildSchedule::new(0, false, 0, 3);
    assert_eq!(schedule.next_slot_boundary(1_700_000_003_500), (1_700_000_004, 1_000));
}

#[test]
fn empty_proposals_are_skipped_three_times() {
    let mut schedule = BuildSchedule::new(0, false, 0, 3);
    let clock = Clock { instant_ms: 100, unix_ms: 1_700_000_000_000 };
    let mut at_once = Vec::new();
    for _ in 0..5 {
        at_once.push(schedule.schedule_payload_build(true, clock));
    }
    assert_eq!(at_once.iter().filter(|now| **now).count(), 1);
    assert!(at_once[3], "after three skips the leader proposes");
    assert!(BuildSchedule::new(0, false, 0, 3).schedule_payload_build(false, clock));
}

#[test]
fn builds_wait_for_their_slot() {
    let mut schedule = slots();
    let clock = Clock { instant_ms: 1_000, unix_ms: 1_700_000_003_500 };
    assert!(!schedule.schedule_payload_build(false, clock));
    assert_eq!(schedule.next_build_at, Some(5_500));
    assert_eq!(schedule.next_slot_timestamp, Some(1_700_000_008));
}

#[test]
fn settings_of_the_schedule() {
    assert_eq!(builder_warmup_delay(None), 10);
    assert_eq!(builder_warmup_delay(Some(3)), 3);
    assert_eq!(max_consecutive_empty_skips(None), 3);
    assert_eq!(max_consecutive_empty_skips(Some(0)), 0);
    assert_eq!(startup_delay_ms(None, 1), 0);
    assert_eq!(startup_delay_ms(None, 4), 7_000);
    assert_eq!(startup_delay_ms(Some(5), 4), 5);
}

#[test]
fn transactions_go_to_the_leader() {
    let mut buffer = TxForwardBuffer::new();
    let peers = vec![(0, 50), (1, 51)];
    assert!(matches!(buffer.flush_tx_forward_buffer(false, false, 1, &peers), Flush::Keep));
    buffer.push(vec![1]);
    buffer.push(vec![2]);
    assert!(!buffer.is_full_batch());
    assert!(matches!(buffer.flush_tx_forward_buffer(false, false, 9, &peers), Flush::Keep));
    assert_eq!(buffer.len(), 2);
    match buffer.flush_tx_forward_buffer(false, false, 1, &peers) {
        Flush::Forward { peer, txs } => {
            assert_eq!(peer, 51);
            assert_eq!(txs, vec![vec![1], vec![2]]);
        }
        other => panic!("{other:?}"),
    }
    assert_eq!(buffer.len(), 0);
    buffer.push(vec![3]);
    assert!(matches!(
        buffer.flush_tx_forward_buffer(false, true, 1, &peers),
        Flush::Local { txs } if txs == vec![vec![3]]
    ));
    assert_eq!(validator_peer(&peers, 1), Some(51));
    assert_eq!(validator_peer(&peers, 2), None);
}

#[test]
fn long_buffers_lose_their_oldest() {
    let mut buffer = TxForwardBuffer::new();
    for i in 0..4_096u32 {
        buffer.push(i.to_le_bytes().to_vec());
    }
    assert!(buffer.is_full_batch());
    assert_eq!(buffer.trim_tx_forward_buffer(), 0);
    buffer.push(vec![0]);
    assert_eq!(buffer.trim_tx_forward_buffer(), 2_049);
    assert_eq!(buffer.len(), 2_048);
    assert_eq!(*buffer.get(0), 2_049u32.to_le_bytes().to_vec());
}

fn import(hash: u8) -> BgImport {
    BgImport { data: vec![hash], block_hash: [hash; 32], view: hash as u64 }
}

#[test]
fn imports_run_one_at_a_time() {
    let mut imports = BackgroundImports::new();
    assert!(!imports.is_busy());
    assert_eq!(imports.enqueue_bg_import(import(1)).unwrap().view, 1);
    assert!(imports.enqueue_bg_import(import(2)).is_none());
    assert!(imports.enqueue_bg_import(import(3)).is_none());
    assert_eq!(imports.waiting(), 2);
    assert_eq!(imports.finished().unwrap().view, 2);
    assert!(imports.is_busy());
    imports.failed();
    assert!(!imports.is_busy());
    assert_eq!(imports.waiting(), 0);
}

#[test]
fn no_block_is_imported_twice_at_a_time() {
    let mut imports = BackgroundImports::new();
    assert!(imports.enqueue_bg_import(import(1)).is_some());
    assert!(imports.enqueue_bg_import(import(1)).is_none(), "it runs");
    assert_eq!(imports.waiting(), 0);
    assert!(imports.enqueue_bg_import(import(2)).is_none());
    assert!(imports.enqueue_bg_import(import(2)).is_none(), "it waits");
    assert_eq!(imports.waiting(), 1);
    assert!(imports.has(&[1; 32]) && imports.has(&[2; 32]) && !imports.has(&[3; 32]));
    assert_eq!(imports.finished().unwrap().block_hash, [2; 32]);
    assert!(!imports.has(&[1; 32]));
    assert!(imports.enqueue_bg_import(import(1)).is_none());
    assert_eq!(imports.waiting(), 1, "once done it may be imported again");
    imports.failed();
    assert!(!imports.has(&[1; 32]) && !imports.has(&[2; 32]));
    assert_eq!(imports.enqueue_bg_import(import(2)).unwrap().block_hash, [2; 32]);
    assert!(imports.finished().is_none());
    assert!(!imports.is_busy());
}

#[test]
fn waiting_blocks_are_tried_three_times() {
    let mut queue = SyncingQueue::new();
    for i in 0..9u8 {
        queue.queue_syncing_block(vec![i]);
    }
    assert_eq!(queue.len(), 8);
    let mut blocks = queue.take_all();
    assert_eq!(blocks[0].data, vec![1], "the oldest left");
    let mut block = blocks.remove(0);
    let mut tries = 0;
    loop {
        tries += 1;
        if !queue.retried(block, PayloadStatus::Syncing) {
            break;
        }
        block = queue.take_all().remove(0);
    }
    assert_eq!(tries, 3);
    assert!(!queue.retried(blocks.remove(0), PayloadStatus::Invalid));
    assert!(is_accepted(PayloadStatus::Valid) && is_accepted(PayloadStatus::Accepted));
    assert!(!is_accepted(PayloadStatus::Syncing) && !is_accepted(PayloadStatus::Invalid));
}

#[test]
fn the_guard_lets_each_number_through_once() {
    let mut guard = EagerGuard::new();
    assert!(guard.lets_through(3));
    assert!(!guard.lets_through(3));
    assert!(!guard.lets_through(2));
    assert!(guard.lets_through(4));
    guard.reset(1);
    assert!(guard.lets_through(2));
}

#[test]
fn stages_are_summed_up() {
    let mut timings = PipelineTimings::new();
    let mut timing = PipelineTiming::new_follower(100);
    timing.build_complete = Some(130);
    timings.record_pipeline_timing([1; 32], timing);
    timings.mark_imported(&[1; 32], 170);
    let done = timings.take_committed(&[1; 32], 220).unwrap();
    assert_eq!(done.import_complete, Some(170));
    assert_eq!(done.committed, Some(220));
    let summary = done.summary();
    assert!(summary.starts_with("role=F"), "{summary}");
    assert!(timings.take_committed(&[1; 32], 220).is_none());
    for i in 0..40u8 {
        timings.record_pipeline_timing([i; 32], PipelineTiming::new_follower(i as u64));
    }
    let kept = (0..40u8).filter(|i| timings.take_committed(&[*i; 32], 1).is_some()).count();
    assert_eq!(kept, 32);
}
