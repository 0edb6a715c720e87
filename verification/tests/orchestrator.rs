use alloy_consensus::{Block, BlockBody, TxEnvelope};
use alloy_primitives::{keccak256, B256};
use alloy_rpc_types_engine::ExecutionData;
use n42_node::codec::compress_payload;
use n42_node::consensus_state::SharedConsensusState;
use n42_node::epoch_schedule::expected_validator_peers;
use n42_node::orchestrator::broadcast::{encode_block, BlockDataBroadcast};
use n42_node::orchestrator::chain::{BlockSyncRequest, QuorumCertificate};
use n42_node::orchestrator::consensus_loop::{EngineOutput, FinalizeImport, OutputAction};
use n42_node::orchestrator::finalize::{
    Finalization, FinalizeAction, FinalizeEvent, FinalizeStage,
};
use n42_node::orchestrator::execution_bridge::{
    background_import, background_import_result, compact_block_enabled, compact_output,
    eager_import_result, handle_built_payload, retry_payload, BlockData, BuildResponse, BuildStep,
    BuiltPayload, ImportOutcome,
};
use n42_node::orchestrator::imports::PayloadStatus;
use n42_node::orchestrator::network::{NetworkAction, NetworkEvent};
use n42_node::orchestrator::schedule::{Clock, Startup, TimerAction};
use n42_node::orchestrator::{prev_randao, ConsensusOrchestrator, OrchestratorConfig};

fn config() -> OrchestratorConfig {
    OrchestratorConfig {
        slot_time_ms: 0,
        fast_propose: false,
        min_propose_delay_ms: 0,
        max_empty_skips: 3,
        sync_timeout_ms: 30_000,
        max_committed_blocks: 10_000,
    }
}

fn make_test_orchestrator() -> ConsensusOrchestrator {
    ConsensusOrchestrator::new(config())
}

fn with_execution_layer() -> ConsensusOrchestrator {
    ConsensusOrchestrator::with_engine_api(config(), [0x10; 32], [0xFE; 20])
}

fn genesis_qc() -> QuorumCertificate {
    QuorumCertificate {
        view: 0,
        block_hash: [0; 32],
        aggregate_signature: vec![0xC0; 96],
        signers: vec![],
    }
}

fn clock(instant_ms: u64) -> Clock {
    Clock { instant_ms, unix_ms: 1_700_000_000_000 + instant_ms }
}

fn output(
    orchestrator: &mut ConsensusOrchestrator,
    output: EngineOutput,
    peers: &Vec<(u32, u64)>,
) -> OutputAction {
    orchestrator.handle_engine_output(output, peers, true, clock(1_000))
}

fn commit(orchestrator: &mut ConsensusOrchestrator, view: u64, block_hash: [u8; 32]) {
    let committed = EngineOutput::BlockCommitted { view, block_hash, commit_qc: genesis_qc() };
    output(orchestrator, committed, &vec![]);
}

fn payload_json(number: u64) -> Vec<u8> {
    let mut block: Block<TxEnvelope> =
        Block { header: Default::default(), body: BlockBody::<TxEnvelope>::default() };
    block.header.number = number;
    block.header.base_fee_per_gas = Some(7);
    let data = ExecutionData::from_block_unchecked(block.header.hash_slow(), &block);
    serde_json::to_vec(&data).unwrap()
}

fn block_data(hash: u8, view: u64, number: u64) -> BlockDataBroadcast {
    BlockDataBroadcast {
        block_hash: [hash; 32],
        view,
        payload_json: compress_payload(&payload_json(number)),
        timestamp: 1_700_000_000 + view,
        execution_output: None,
        leader_ready_unix_ms: 5,
    }
}

fn bytes_of(hash: u8, view: u64, number: u64) -> Vec<u8> {
    encode_block(&block_data(hash, view, number)).unwrap()
}

fn construct() {
    let orchestrator = make_test_orchestrator();
    assert_eq!(orchestrator.head_block_hash(), [0; 32]);
    assert_eq!(orchestrator.committed_block_count(), 0);
    let with_layer = with_execution_layer().with_committed_block_count(9).with_validator_set(true);
    assert_eq!(with_layer.head_block_hash(), [0x10; 32]);
    assert_eq!(with_layer.committed_block_count(), 9);
}

#[test]
fn orchestrator_test_orchestrator_construction() {
    construct();
}

#[test]
fn mod_test_orchestrator_construction() {
    construct();
}

fn broadcast_goes_to_everybody() {
    let mut orchestrator = make_test_orchestrator();
    assert_eq!(
        output(&mut orchestrator, EngineOutput::BroadcastMessage, &vec![(0, 7)]),
        OutputAction::Send { direct: None }
    );
}

#[test]
fn orchestrator_test_handle_engine_output_broadcast() {
    broadcast_goes_to_everybody();
}

#[test]
fn mod_test_handle_engine_output_broadcast() {
    broadcast_goes_to_everybody();
}

fn message_to_validator_falls_back() {
    let mut orchestrator = make_test_orchestrator();
    assert_eq!(
        output(&mut orchestrator, EngineOutput::SendToValidator { target: 0 }, &vec![]),
        OutputAction::Send { direct: None },
        "SendToValidator should fallback to BroadcastConsensus"
    );
    assert_eq!(
        output(&mut orchestrator, EngineOutput::SendToValidator { target: 3 }, &vec![(3, 77)]),
        OutputAction::Send { direct: Some(77) }
    );
}

#[test]
fn orchestrator_test_handle_engine_output_send_to_validator() {
    message_to_validator_falls_back();
}

#[test]
fn mod_test_handle_engine_output_send_to_validator() {
    message_to_validator_falls_back();
}

fn execute_block() {
    let mut orchestrator = make_test_orchestrator();
    let hash = [0xCC; 32];
    assert_eq!(
        output(&mut orchestrator, EngineOutput::ExecuteBlock { block_hash: hash }, &vec![]),
        OutputAction::Awaited
    );
    assert!(orchestrator.pending_blocks().is_awaited(&hash));
    let cached = orchestrator.handle_block_data(bytes_of(0xCC, 1, 1), 10);
    assert!(matches!(cached, BlockData::Cached { .. }));
    assert!(!orchestrator.pending_blocks().is_awaited(&hash));
    assert_eq!(
        output(&mut orchestrator, EngineOutput::ExecuteBlock { block_hash: hash }, &vec![]),
        OutputAction::BlockImported
    );
}

#[test]
fn orchestrator_test_handle_engine_output_execute_block() {
    execute_block();
}

#[test]
fn mod_test_handle_engine_output_execute_block() {
    execute_block();
}

fn block_committed() {
    let mut orchestrator = make_test_orchestrator();
    commit(&mut orchestrator, 1, [0xDD; 32]);
    assert_eq!(
        orchestrator.head_block_hash(),
        [0xDD; 32],
        "head should be updated after commit"
    );
    assert_eq!(orchestrator.committed_block_count(), 1);
    assert_eq!(orchestrator.committed_blocks().len(), 1);
}

#[test]
fn orchestrator_test_handle_engine_output_block_committed() {
    block_committed();
}

#[test]
fn mod_test_handle_engine_output_block_committed() {
    block_committed();
}

fn view_changed() {
    let mut orchestrator = make_test_orchestrator();
    let action = output(&mut orchestrator, EngineOutput::ViewChanged { new_view: 5 }, &vec![]);
    match action {
        OutputAction::ViewChanged { change } => {
            assert_eq!(change.sync, None);
            assert!(change.build_now, "without slots the leader builds at once");
        }
        other => panic!("{other:?}"),
    }
}

#[test]
fn orchestrator_test_handle_engine_output_view_changed() {
    view_changed();
}

#[test]
fn mod_test_handle_engine_output_view_changed() {
    view_changed();
}

#[test]
fn test_epoch_transition_refreshes_expected_validator_peers() {
    let mut orchestrator = make_test_orchestrator();
    let action = output(&mut orchestrator, EngineOutput::EpochTransition { new_epoch: 1 }, &vec![]);
    assert_eq!(action, OutputAction::StageEpoch { epoch: 2 });
    let peers = expected_validator_peers(&vec![Some(100), Some(101)], &vec![1, 2], true);
    assert_eq!(peers, vec![(0, 100), (1, 101)]);
}

#[test]
fn test_epoch_transition_clears_expected_validator_peers_when_strict_binding_missing() {
    let mut orchestrator = make_test_orchestrator().with_allow_deterministic_validator_peers(false);
    let action = output(&mut orchestrator, EngineOutput::EpochTransition { new_epoch: 1 }, &vec![]);
    assert_eq!(action, OutputAction::StageEpoch { epoch: 2 });
    assert!(expected_validator_peers(&vec![None, None], &vec![1, 2], false).is_empty());
}

fn peer_events() {
    let mut orchestrator = make_test_orchestrator();
    orchestrator.handle_network_event(NetworkEvent::PeerConnected { peer: 4 }, false, 1);
    orchestrator.handle_network_event(NetworkEvent::PeerConnected { peer: 5 }, false, 1);
    orchestrator.handle_network_event(NetworkEvent::PeerConnected { peer: 4 }, false, 1);
    assert_eq!(orchestrator.connected_peers().len(), 2);
    orchestrator.handle_network_event(NetworkEvent::PeerDisconnected { peer: 4 }, false, 1);
    assert_eq!(orchestrator.connected_peers().len(), 1);
}

#[test]
fn orchestrator_test_orchestrator_processes_peer_events() {
    peer_events();
}

#[test]
fn mod_test_orchestrator_processes_peer_events() {
    peer_events();
}

fn commit_updates_shared_state() {
    let mut state = SharedConsensusState::new(0, None);
    let mut orchestrator = make_test_orchestrator();
    assert!(state.load_committed_qc().is_none(), "should start with no QC");
    commit(&mut orchestrator, 1, [0xEE; 32]);
    state.update_committed_qc(genesis_qc());
    state.notify_block_committed(orchestrator.head_block_hash(), 1);
    assert!(state.load_committed_qc().is_some(), "should have QC after commit");
    assert_eq!(state.attestation_state().get_attestation_count(&[0xEE; 32]), Some(0));
}

#[test]
fn orchestrator_test_block_committed_updates_shared_state() {
    commit_updates_shared_state();
}

#[test]
fn mod_test_block_committed_updates_shared_state() {
    commit_updates_shared_state();
}

fn block_ready() {
    let mut orchestrator = with_execution_layer();
    assert!(orchestrator.do_trigger_payload_build(None, clock(1)).is_some());
    assert!(orchestrator.do_trigger_payload_build(None, clock(2)).is_none());
    orchestrator.on_block_ready([0xFF; 32], 3);
    assert!(
        orchestrator.do_trigger_payload_build(None, clock(4)).is_some(),
        "a built payload frees its parent"
    );
}

#[test]
fn orchestrator_test_block_ready_channel() {
    block_ready();
}

#[test]
fn mod_test_block_ready_channel() {
    block_ready();
}

#[test]
fn test_restore_failed_tx_forward_batch_preserves_recent_suffix() {
    let mut orchestrator = make_test_orchestrator();
    let txs: Vec<Vec<u8>> =
        (0..5000).map(|i| vec![(i & 0xff) as u8, ((i >> 8) & 0xff) as u8]).collect();
    let expected_tail = txs[2952..].to_vec();
    let buffer = orchestrator.tx_forward_buffer();
    buffer.restore_failed_tx_forward_batch(txs);
    assert_eq!(buffer.len(), 2048);
    let kept: Vec<Vec<u8>> = (0..2048).map(|i| buffer.get(i).clone()).collect();
    assert_eq!(kept, expected_tail);
}

fn sync_timeout() {
    let mut orchestrator = make_test_orchestrator();
    orchestrator.handle_network_event(NetworkEvent::PeerConnected { peer: 9 }, false, 1);
    orchestrator.sync_requested(1_000);
    assert!(orchestrator.initiate_sync(1, 10, 20_000).is_none(), "one request is under way");
    let request = orchestrator.initiate_sync(1, 10, 61_000).expect("the request timed out");
    assert_eq!(
        request,
        (9, BlockSyncRequest { from_view: 2, to_view: 10, local_committed_view: 1 })
    );
    orchestrator.sync_requested(61_000);
    assert!(orchestrator.sync_tracker().in_flight, "new sync request should be in flight");
    assert_eq!(orchestrator.sync_tracker().started_at, Some(61_000));
}

#[test]
fn orchestrator_test_sync_timeout_resets_in_flight() {
    sync_timeout();
}

#[test]
fn mod_test_sync_timeout_resets_in_flight() {
    sync_timeout();
}

#[test]
fn test_prev_randao_from_commit_qc() {
    assert_eq!(prev_randao(None), [0; 32]);
    let qc = genesis_qc();
    let r1 = prev_randao(Some(&qc));
    let r2 = prev_randao(Some(&qc));
    assert_eq!(r1, r2, "must be deterministic");
    assert_eq!(B256::from(r1), keccak256(&qc.aggregate_signature));
}

#[test]
fn builds_go_by_the_last_commit() {
    let mut orchestrator = with_execution_layer();
    commit(&mut orchestrator, 1, [0x11; 32]);
    let request = orchestrator.do_trigger_payload_build(Some(1_700_000_008), clock(50)).unwrap();
    assert_eq!(request.head, [0x11; 32]);
    assert_eq!(request.attributes.timestamp, 1_700_000_008);
    assert_eq!(request.attributes.prev_randao, keccak256(vec![0xC0; 96]).0);
    assert_eq!(request.attributes.suggested_fee_recipient, [0xFE; 20]);
    assert_eq!(request.attributes.parent_beacon_block_root, [0; 32]);
    assert_eq!(request.withdrawals_for_block, 2);
    let step = orchestrator.on_build_response(
        true,
        1_700_000_008,
        BuildResponse::Started,
        true,
        60,
    );
    assert_eq!(step, BuildStep::Resolve);
    assert_eq!(orchestrator.last_committed_timestamp(), 1_700_000_008);
    orchestrator.on_build_complete();
    let again = orchestrator.do_trigger_payload_build(Some(1_700_000_008), clock(70)).unwrap();
    assert_eq!(again.attributes.timestamp, 1_700_000_009, "timestamps increase");
}

#[test]
fn failed_builds_are_tried_again() {
    let mut orchestrator = with_execution_layer();
    let request = orchestrator.do_trigger_payload_build(None, clock(0)).unwrap();
    let used = request.attributes.timestamp;
    assert_eq!(used, 1_700_000_000);
    let first = orchestrator.on_build_response(true, used, BuildResponse::Failed, true, 5);
    assert_eq!(first, BuildStep::Again { timestamp: used + 2 });
    let second = orchestrator.on_build_response(false, used + 2, BuildResponse::Failed, true, 6);
    assert_eq!(second, BuildStep::Stop);
    assert_eq!(orchestrator.next_build_at(), Some(2_006));
    assert!(orchestrator.do_trigger_payload_build(None, clock(7)).is_some());
    let nothing = orchestrator.on_build_response(true, used, BuildResponse::NoPayload, false, 8);
    assert_eq!(nothing, BuildStep::Stop);
}

#[test]
fn starting_and_timers() {
    let mut orchestrator = with_execution_layer();
    let startup = orchestrator.initialize_startup_schedule(true, None, 4, 100);
    assert_eq!(startup, Startup::Wait { delay_ms: 7_000 });
    assert_eq!(orchestrator.next_build_at(), Some(7_100));
    assert_eq!(
        orchestrator.on_build_timer(true, 1),
        TimerAction::Build { slot_timestamp: None, reset_pacemaker: true }
    );
    assert_eq!(orchestrator.next_build_at(), None);
    assert_eq!(orchestrator.on_build_timer(false, 1), TimerAction::Skip);
    orchestrator.begin_speculative_build([1; 32]);
    assert_eq!(orchestrator.on_build_timer(true, 5), TimerAction::Skip);
    assert_eq!(
        with_execution_layer().initialize_startup_schedule(true, None, 1, 100),
        Startup::Schedule
    );
    assert_eq!(
        make_test_orchestrator().initialize_startup_schedule(true, None, 4, 100),
        Startup::Idle
    );
}

#[test]
fn committed_blocks_are_imported_or_wait() {
    let mut orchestrator = with_execution_layer();
    commit(&mut orchestrator, 3, [0x21; 32]);
    assert!(orchestrator.finalize_committed_block());
    assert!(matches!(orchestrator.import_committed(3, [0x21; 32]), FinalizeImport::NoData));
    let deferred = orchestrator.import_or_defer(3, [0x21; 32], &genesis_qc(), vec![]);
    assert!(matches!(deferred, FinalizeImport::NoData));
    assert!(orchestrator.is_finalization_pending(&[0x21; 32]));
    let waiting = orchestrator
        .handle_leader_payload_feedback([0x21; 32], bytes_of(0x21, 3, 3))
        .expect("the finalization is resumed");
    assert_eq!((waiting.view, waiting.block_hash), (3, [0x21; 32]));
    match orchestrator.import_committed(3, [0x21; 32]) {
        FinalizeImport::Start { import } => {
            assert_eq!(import.block_hash, [0x21; 32]);
            assert_eq!(import.data, bytes_of(0x21, 3, 3));
        }
        other => panic!("{other:?}"),
    }
    orchestrator.handle_block_data(bytes_of(0x22, 4, 4), 1);
    assert!(matches!(orchestrator.import_committed(4, [0x22; 32]), FinalizeImport::Queued));
    orchestrator.handle_block_data(bytes_of(0x22, 4, 4), 1);
    assert!(matches!(orchestrator.import_committed(4, [0x22; 32]), FinalizeImport::Queued));
    let done = orchestrator.handle_import_done([0x21; 32], 3, true, 9, false, 5, clock(1));
    assert!(done.mobile_packet);
    assert_eq!(done.next.unwrap().block_hash, [0x22; 32]);
    assert!(!done.build_now);
    assert_eq!(orchestrator.head_block_hash(), [0x21; 32]);
    let last = orchestrator.handle_import_done([0x22; 32], 4, true, 10, false, 5, clock(1));
    assert!(last.next.is_none(), "the second request for the block changed nothing");
    let failed = orchestrator.handle_import_done([0x22; 32], 4, false, 9, true, 5, clock(1));
    assert!(!failed.mobile_packet && failed.next.is_none() && failed.sync.is_none());
}

#[test]
fn own_blocks_fill_in_the_payload() {
    let mut orchestrator = with_execution_layer();
    commit(&mut orchestrator, 3, [0x21; 32]);
    assert!(orchestrator.staking_payload().is_none());
    assert!(orchestrator.zk_input(&[0x21; 32]).is_none());
    orchestrator.handle_leader_payload_feedback([0x21; 32], bytes_of(0x21, 3, 3));
    assert_eq!(orchestrator.staking_payload().unwrap(), payload_json(3));
    let input = orchestrator.zk_input(&[0x21; 32]).unwrap();
    assert_eq!(input.block_number, 1);
    assert_eq!(input.parent_hash, [0x21; 32]);
    assert!(input.bundle_state_json.is_empty());
    assert_eq!(orchestrator.last_committed_timestamp(), 1_700_000_003);
}

#[test]
fn execution_outputs_are_read() {
    let mut orchestrator = with_execution_layer();
    let mut block = block_data(0x31, 1, 1);
    block.execution_output = Some(compress_payload(b"{\"bundle\":1}"));
    orchestrator.handle_block_data(encode_block(&block).unwrap(), 1);
    assert_eq!(orchestrator.execution_json(&[0x31; 32]).unwrap(), b"{\"bundle\":1}".to_vec());
    assert!(orchestrator.execution_json(&[0x32; 32]).is_none());
    assert!(orchestrator.prunes_state_trie());
    commit(&mut orchestrator, 1, [0x31; 32]);
    assert!(!orchestrator.prunes_state_trie());
}

#[test]
fn announced_blocks_are_cached_once() {
    let mut orchestrator = with_execution_layer();
    assert!(matches!(orchestrator.handle_block_data(vec![1, 2, 3], 1), BlockData::Unreadable));
    match orchestrator.handle_block_data(bytes_of(0x41, 2, 2), 1) {
        BlockData::Cached { block } => assert_eq!(block.view, 2),
        other => panic!("{other:?}"),
    }
    assert!(matches!(
        orchestrator.handle_block_data(bytes_of(0x41, 2, 2), 1),
        BlockData::Duplicate
    ));
    assert_eq!(orchestrator.last_committed_timestamp(), 1_700_000_002);
}

#[test]
fn no_number_is_imported_twice_ahead() {
    let mut orchestrator = with_execution_layer();
    let payload = compress_payload(&payload_json(5));
    let ready = orchestrator.prepare_eager_import(&payload).unwrap();
    assert_eq!(ready.block_number, 5);
    assert_eq!(ready.transaction_count, 0);
    assert_eq!(ready.json, payload_json(5));
    assert!(orchestrator.prepare_eager_import(&payload).is_none());
    assert!(orchestrator.prepare_eager_import(b"not json").is_none());
    assert_eq!(orchestrator.eager_guard().highest, 5);
    commit(&mut orchestrator, 1, [1; 32]);
    output(&mut orchestrator, EngineOutput::ViewChanged { new_view: 2 }, &vec![]);
    assert_eq!(orchestrator.eager_guard().highest, 1, "a view change resets the guard");
}

#[test]
fn imports_are_answered() {
    let mut orchestrator = with_execution_layer();
    let block = block_data(0x51, 2, 2);
    assert_eq!(orchestrator.begin_import(&block).unwrap().block_number, 2);
    assert!(make_test_orchestrator().begin_import(&block).is_none());
    let syncing = orchestrator.on_new_payload(&block, PayloadStatus::Syncing, None, false);
    assert_eq!(syncing, ImportOutcome::Waiting);
    let refused = orchestrator.on_new_payload(&block, PayloadStatus::Invalid, None, false);
    assert_eq!(refused, ImportOutcome::Rejected);
    let other = Some([9; 32]);
    let mismatch = orchestrator.on_new_payload(&block, PayloadStatus::Valid, other, false);
    assert_eq!(mismatch, ImportOutcome::Mismatch);
    let taken =
        orchestrator.on_new_payload(&block, PayloadStatus::Valid, Some([0x51; 32]), false);
    assert_eq!(
        taken,
        ImportOutcome::Imported { finalized_view: None, build_now: false, retry_syncing: true }
    );
    assert_eq!(orchestrator.head_block_hash(), [0x51; 32]);
    let mut waiting = orchestrator.retry_syncing_blocks();
    assert_eq!(waiting.len(), 1);
    let block = waiting.pop().unwrap();
    let retry = retry_payload(&block).unwrap();
    assert_eq!(retry.block.block_hash, [0x51; 32]);
    assert_eq!(retry.payload.block_number, 2);
    assert!(!orchestrator.on_retry_result(block, [0x51; 32], PayloadStatus::Syncing));
    let block = orchestrator.retry_syncing_blocks().pop().unwrap();
    assert_eq!(block.retries, 1);
    assert!(orchestrator.on_retry_result(block, [0x52; 32], PayloadStatus::Accepted));
    assert_eq!(orchestrator.head_block_hash(), [0x52; 32]);
}

#[test]
fn imports_in_the_background() {
    let ready = background_import(&bytes_of(0x52, 3, 3)).unwrap();
    assert_eq!(ready.block.block_hash, [0x52; 32]);
    assert_eq!(ready.payload.block_number, 3);
    assert!(background_import(&[1, 2]).is_none());
    let mut unreadable = block_data(0x52, 3, 3);
    unreadable.payload_json = b"no json".to_vec();
    assert!(background_import(&encode_block(&unreadable).unwrap()).is_none());
    assert_eq!(background_import_result(7, Some(PayloadStatus::Accepted)), (true, 7));
    assert_eq!(background_import_result(7, Some(PayloadStatus::Syncing)), (false, 0));
    assert_eq!(background_import_result(7, None), (false, 0));
}

#[test]
fn imports_ahead_of_the_commit() {
    let mut block = block_data(0x53, 3, 3);
    assert!(compact_output(&block, true).is_none());
    block.execution_output = Some(vec![1, 2]);
    assert_eq!(compact_output(&block, true), Some(&vec![1, 2]));
    assert!(compact_output(&block, false).is_none());
    let valid = Some(PayloadStatus::Valid);
    assert_eq!(eager_import_result([0x53; 32], 9, valid), Some(([0x53; 32], 9)));
    assert_eq!(eager_import_result([0x53; 32], 9, Some(PayloadStatus::Invalid)), None);
    assert_eq!(eager_import_result([0x53; 32], 9, None), None);
    assert!(make_test_orchestrator().prepare_eager_import(&payload_json(5)).is_none());
}

#[test]
fn deferred_finalization_completes_with_the_import() {
    let mut orchestrator = with_execution_layer();
    commit(&mut orchestrator, 7, [0x61; 32]);
    orchestrator.import_or_defer(7, [0x61; 32], &genesis_qc(), vec![]);
    let block = block_data(0x61, 7, 7);
    let outcome = orchestrator.on_new_payload(&block, PayloadStatus::Accepted, None, true);
    assert_eq!(
        outcome,
        ImportOutcome::Imported { finalized_view: Some(7), build_now: true, retry_syncing: false }
    );
    assert!(!orchestrator.is_finalization_pending(&[0x61; 32]));
}

#[test]
fn stale_finalizations_are_given_up() {
    let mut orchestrator = with_execution_layer();
    orchestrator.handle_network_event(NetworkEvent::PeerConnected { peer: 3 }, false, 1);
    commit(&mut orchestrator, 7, [0x61; 32]);
    orchestrator.import_or_defer(7, [0x61; 32], &genesis_qc(), vec![]);
    let near = orchestrator.handle_view_changed(9, false, clock(5));
    assert_eq!(near.sync, None);
    assert!(orchestrator.is_finalization_pending(&[0x61; 32]));
    let far = orchestrator.handle_view_changed(10, false, clock(6));
    assert_eq!(
        far.sync,
        Some((3, BlockSyncRequest { from_view: 8, to_view: 10, local_committed_view: 7 }))
    );
    assert!(!orchestrator.is_finalization_pending(&[0x61; 32]));
}

#[test]
fn own_imports_before_the_head_moves() {
    let mut orchestrator = with_execution_layer();
    let done = vec![([1; 32], 5), ([2; 32], 9)];
    assert!(orchestrator.note_eager_imports(&done, &[2; 32], 4));
    assert!(!orchestrator.note_eager_imports(&done, &[3; 32], 4));
    assert_eq!(orchestrator.last_committed_timestamp(), 9);
    assert_eq!(orchestrator.head_block_hash(), [0x10; 32]);
    assert!(orchestrator.block_finalized(&[1; 32], true, clock(1)));
    orchestrator.begin_speculative_build([1; 32]);
    assert!(!orchestrator.block_finalized(&[1; 32], true, clock(1)));
}

#[test]
fn the_leader_announces_what_it_built() {
    let mut orchestrator = with_execution_layer();
    let built = BuiltPayload {
        hash: [0x71; 32],
        number: 4,
        timestamp: 1_700_000_100,
        json: payload_json(4),
    };
    let output = Some(vec![1, 2, 3]);
    let emission =
        handle_built_payload(orchestrator.eager_guard(), &built, 6, false, output.clone(), 77);
    assert!(emission.import);
    let announced = emission.announcement.unwrap();
    let mut follower = with_execution_layer();
    match follower.handle_block_data(announced, 1) {
        BlockData::Cached { block } => {
            assert_eq!(block.block_hash, [0x71; 32]);
            assert_eq!(block.view, 6);
            assert_eq!(block.timestamp, 1_700_000_100);
            assert_eq!(block.execution_output, None);
            assert_eq!(block.leader_ready_unix_ms, 77);
            let ready = follower.prepare_eager_import(&block.payload_json).unwrap();
            assert_eq!(ready.json, payload_json(4));
        }
        other => panic!("{other:?}"),
    }
    let again = handle_built_payload(orchestrator.eager_guard(), &built, 6, true, output, 77);
    assert!(!again.import);
    let empty = BuiltPayload { json: vec![], ..built };
    let nothing = handle_built_payload(orchestrator.eager_guard(), &empty, 6, true, None, 77);
    assert!(nothing.announcement.is_none());
}

#[test]
fn network_events_lead_to_actions() {
    let mut orchestrator = with_execution_layer();
    let message = NetworkEvent::ConsensusMessage { source: 8, signer: Some(2) };
    assert!(matches!(
        orchestrator.handle_network_event(message, false, 1),
        NetworkAction::Process { authenticate: Some((8, 2)) }
    ));
    let tx = NetworkEvent::TransactionReceived { data: vec![1, 2] };
    assert!(matches!(
        orchestrator.handle_network_event(tx, false, 1),
        NetworkAction::ImportTxs { txs } if txs == vec![vec![1, 2]]
    ));
    let none = NetworkEvent::TxForwardReceived { txs: vec![] };
    assert!(matches!(
        orchestrator.handle_network_event(none, false, 1),
        NetworkAction::Nothing
    ));
    commit(&mut orchestrator, 5, [5; 32]);
    let request = NetworkEvent::SyncRequest {
        request_id: 12,
        request: BlockSyncRequest { from_view: 1, to_view: 9, local_committed_view: 0 },
    };
    match orchestrator.handle_network_event(request, false, 1) {
        NetworkAction::Respond { request_id, response } => {
            assert_eq!(request_id, 12);
            assert_eq!(response.peer_committed_view, 5);
            assert_eq!(response.blocks.len(), 1);
        }
        other => panic!("{other:?}"),
    }
    orchestrator.sync_requested(3);
    orchestrator.handle_network_event(NetworkEvent::SyncRequestFailed, false, 4);
    assert!(!orchestrator.sync_tracker().in_flight);
    assert!(matches!(
        orchestrator.handle_network_event(NetworkEvent::Other, false, 1),
        NetworkAction::Nothing
    ));
    let block = NetworkEvent::BlockAnnouncement { data: bytes_of(0x77, 6, 6) };
    assert!(matches!(
        orchestrator.handle_network_event(block, false, 1),
        NetworkAction::Block { outcome: BlockData::Cached { .. } }
    ));
}

#[test]
fn timeouts_arrange_a_build() {
    let mut orchestrator = with_execution_layer();
    orchestrator.on_timeout(false, 10);
    assert_eq!(orchestrator.next_build_at(), None);
    orchestrator.on_timeout(true, 10);
    assert_eq!(orchestrator.next_build_at(), Some(2_010));
    orchestrator.on_timeout(true, 500);
    assert_eq!(orchestrator.next_build_at(), Some(2_010), "a build is arranged already");
}

#[test]
fn compact_blocks_are_on_unless_switched_off() {
    assert!(compact_block_enabled(None));
    assert!(compact_block_enabled(Some("1")));
    assert!(compact_block_enabled(Some("")));
    assert!(!compact_block_enabled(Some("0")));
}

fn run_of(view: u64, hash: u8) -> Finalization {
    Finalization::new(view, [hash; 32], genesis_qc())
}

#[test]
fn a_committed_block_becomes_the_head() {
    let mut orch = with_execution_layer();
    let mut run = run_of(3, 0x21);
    let first = orch.finalize_step(&mut run, FinalizeEvent::Committed, true, clock(1));
    assert!(matches!(first, FinalizeAction::MoveHead));
    assert_eq!(run.stage, FinalizeStage::FirstTry);
    let again = orch.finalize_step(&mut run, FinalizeEvent::Committed, true, clock(1));
    assert!(matches!(again, FinalizeAction::Nothing), "it has started already");
    let moved = FinalizeEvent::HeadAnswered { moved: true };
    let done = orch.finalize_step(&mut run, moved, true, clock(1));
    assert!(matches!(done, FinalizeAction::Finalized { build_now: true }));
    assert_eq!(run.stage, FinalizeStage::Done);
    let late = FinalizeEvent::HeadAnswered { moved: true };
    assert!(matches!(
        orch.finalize_step(&mut run, late, true, clock(1)),
        FinalizeAction::Nothing
    ));

    let mut bare = make_test_orchestrator();
    let mut run = run_of(3, 0x21);
    let nothing = bare.finalize_step(&mut run, FinalizeEvent::Committed, true, clock(1));
    assert!(matches!(nothing, FinalizeAction::Nothing));
    assert_eq!(run.stage, FinalizeStage::Done);
}

#[test]
fn the_head_is_tried_again_once() {
    let mut orch = with_execution_layer();
    let mut run = run_of(3, 0x21);
    orch.finalize_step(&mut run, FinalizeEvent::Committed, false, clock(1));
    let refused = FinalizeEvent::HeadAnswered { moved: false };
    let action = orch.finalize_step(&mut run, refused, false, clock(1));
    assert!(matches!(action, FinalizeAction::CollectImports));
    let done = vec![([0x20; 32], 5), ([0x21; 32], 9)];
    let imports = FinalizeEvent::EagerImports { done };
    let action = orch.finalize_step(&mut run, imports, false, clock(1));
    assert!(matches!(action, FinalizeAction::MoveHead), "its import finished meanwhile");
    assert_eq!(run.stage, FinalizeStage::SecondTry);
    assert_eq!(orch.last_committed_timestamp(), 9);
    let refused = FinalizeEvent::HeadAnswered { moved: false };
    let action = orch.finalize_step(&mut run, refused, false, clock(1));
    assert!(matches!(action, FinalizeAction::CollectOwnBlocks), "there is no third try");
    let none = FinalizeEvent::OwnBlocks { blocks: vec![] };
    let action = orch.finalize_step(&mut run, none, false, clock(1));
    assert!(matches!(action, FinalizeAction::Deferred));
    assert!(orch.is_finalization_pending(&[0x21; 32]));
    assert_eq!(run.stage, FinalizeStage::Done);
}

fn refused_run(orch: &mut ConsensusOrchestrator, view: u64, hash: u8) -> (Finalization, FinalizeAction) {
    let mut run = run_of(view, hash);
    orch.finalize_step(&mut run, FinalizeEvent::Committed, false, clock(1));
    let refused = FinalizeEvent::HeadAnswered { moved: false };
    orch.finalize_step(&mut run, refused, false, clock(1));
    let imports = FinalizeEvent::EagerImports { done: vec![([0x99; 32], 1)] };
    let action = orch.finalize_step(&mut run, imports, false, clock(1));
    (run, action)
}

#[test]
fn a_block_that_is_not_the_head_is_imported() {
    let mut orch = with_execution_layer();
    orch.handle_block_data(bytes_of(0x21, 3, 3), 1);
    let (run, action) = refused_run(&mut orch, 3, 0x21);
    match action {
        FinalizeAction::Import { import } => {
            assert_eq!((import.block_hash, import.view), ([0x21; 32], 3));
            assert_eq!(import.data, bytes_of(0x21, 3, 3));
        }
        other => panic!("{other:?}"),
    }
    assert_eq!(run.stage, FinalizeStage::Done);

    let (mut run, action) = refused_run(&mut orch, 4, 0x22);
    assert!(matches!(action, FinalizeAction::CollectOwnBlocks));
    let blocks = vec![([0x22; 32], bytes_of(0x22, 4, 4))];
    let own = FinalizeEvent::OwnBlocks { blocks };
    let action = orch.finalize_step(&mut run, own, false, clock(1));
    assert!(matches!(action, FinalizeAction::Queued), "another import runs");
}
