use n42_node::orchestrator::chain::{BlockSyncRequest, QuorumCertificate};
use n42_node::orchestrator::broadcast::{encode_block, BlockDataBroadcast};
use n42_node::orchestrator::consensus_loop::{EngineOutput, FinalizeImport, OutputAction};
use n42_node::orchestrator::forward::Flush;
use n42_node::orchestrator::network::{NetworkAction, NetworkEvent};
use n42_node::orchestrator::run::{LoopAction, LoopContext, LoopEvent};
use n42_node::orchestrator::schedule::{Clock, TimerAction};
use n42_node::orchestrator::{orchestrator_config, ConsensusOrchestrator, OrchestratorConfig};

fn config() -> OrchestratorConfig {
    orchestrator_config(None, None, None, None, None, None)
}

fn orchestrator() -> ConsensusOrchestrator {
    ConsensusOrchestrator::with_engine_api(config(), [0x10; 32], [0xFE; 20])
}

fn context(is_leader: bool) -> LoopContext {
    LoopContext {
        is_leader,
        current_view: 4,
        leader_index: 2,
        validator_peers: vec![(1, 11), (2, 22)],
        forwarding_disabled: false,
        has_blob_store: false,
        clock: Clock { instant_ms: 1_000, unix_ms: 1_700_000_000_000 },
    }
}

fn commit(view: u64, hash: u8) -> LoopEvent {
    LoopEvent::Output {
        output: EngineOutput::BlockCommitted {
            view,
            block_hash: [hash; 32],
            commit_qc: QuorumCertificate {
                view,
                block_hash: [hash; 32],
                aggregate_signature: vec![1; 96],
                signers: vec![1],
            },
        },
    }
}

#[test]
fn the_defaults_of_the_settings() {
    assert_eq!(
        config(),
        OrchestratorConfig {
            slot_time_ms: 0,
            fast_propose: false,
            min_propose_delay_ms: 0,
            max_empty_skips: 3,
            sync_timeout_ms: 30_000,
            max_committed_blocks: 10_000,
        }
    );
    assert_eq!(
        orchestrator_config(Some(8_000), Some(1), Some(5), Some(0), Some(u64::MAX), Some(7)),
        OrchestratorConfig {
            slot_time_ms: 8_000,
            fast_propose: true,
            min_propose_delay_ms: 5,
            max_empty_skips: 0,
            sync_timeout_ms: u64::MAX,
            max_committed_blocks: 7,
        }
    );
    assert!(!orchestrator_config(None, Some(0), None, None, None, None).fast_propose);
}

#[test]
fn orchestrator_test_orchestrator_exits_on_net_event_channel_close() {
    let mut orch = ConsensusOrchestrator::new(config());
    let action = orch.on_event(LoopEvent::NetworkClosed, &context(true));
    assert!(
        matches!(action, LoopAction::Stop),
        "orchestrator should exit when network event channel is closed"
    );
}

#[test]
fn mod_test_orchestrator_exits_on_net_event_channel_close() {
    let mut orch = ConsensusOrchestrator::new(config());
    let action = orch.on_event(LoopEvent::NetworkClosed, &context(true));
    assert!(
        matches!(action, LoopAction::Stop),
        "orchestrator should exit when network event channel is closed"
    );
}

#[test]
fn only_closed_channels_end_the_loop() {
    let mut orch = orchestrator();
    let here = context(true);
    assert!(matches!(orch.on_event(LoopEvent::OutputsClosed, &here), LoopAction::Stop));
    assert!(matches!(orch.on_event(LoopEvent::ConsensusMessagesClosed, &here), LoopAction::Wait));
    assert!(matches!(orch.on_event(LoopEvent::BuildComplete, &here), LoopAction::Wait));
}

#[test]
fn a_timeout_makes_the_leader_try_again() {
    let mut orch = orchestrator();
    orch.on_event(LoopEvent::Timeout, &context(false));
    assert_eq!(orch.next_build_at(), None);
    orch.on_event(LoopEvent::Timeout, &context(true));
    assert_eq!(orch.next_build_at(), Some(3_000));
    match orch.on_event(LoopEvent::BuildTimer, &context(true)) {
        LoopAction::Timer { action } => assert_eq!(
            action,
            TimerAction::Build { slot_timestamp: None, reset_pacemaker: false }
        ),
        other => panic!("{other:?}"),
    }
    assert_eq!(orch.next_build_at(), None);
}

#[test]
fn commits_and_imports_move_the_head() {
    let mut orch = orchestrator();
    let here = context(true);
    match orch.on_event(commit(3, 0x21), &here) {
        LoopAction::Output { action: OutputAction::Finalize { .. } } => {}
        other => panic!("{other:?}"),
    }
    assert_eq!(orch.head_block_hash(), [0x21; 32]);
    assert_eq!(orch.committed_block_count(), 1);
    orch.on_event(LoopEvent::EagerImportDone { hash: [0x22; 32], timestamp: 9 }, &here);
    orch.on_event(LoopEvent::BlockReady { hash: [0x23; 32] }, &here);
    assert_eq!(orch.head_block_hash(), [0x21; 32]);
    assert_eq!(orch.last_committed_timestamp(), 9);
    let done =
        LoopEvent::ImportDone { hash: [0x24; 32], view: 4, success: true, timestamp: 11 };
    match orch.on_event(done, &here) {
        LoopAction::Imported { done } => {
            assert!(done.mobile_packet);
            assert!(!done.build_now, "the last block had no transactions");
        }
        other => panic!("{other:?}"),
    }
    assert_eq!(orch.head_block_hash(), [0x24; 32]);
    assert_eq!(orch.committed_block_count(), 1);
}

#[test]
fn failed_imports_lead_to_a_sync() {
    let mut orch = orchestrator();
    let here = context(false);
    let peer = NetworkEvent::PeerConnected { peer: 6 };
    match orch.on_event(LoopEvent::Network { event: peer }, &here) {
        LoopAction::Network { action: NetworkAction::Nothing } => {}
        other => panic!("{other:?}"),
    }
    let done =
        LoopEvent::ImportDone { hash: [0x24; 32], view: 2, success: false, timestamp: 0 };
    match orch.on_event(done, &here) {
        LoopAction::Imported { done } => assert_eq!(
            done.sync,
            Some((6, BlockSyncRequest { from_view: 3, to_view: 4, local_committed_view: 2 }))
        ),
        other => panic!("{other:?}"),
    }
}

#[test]
fn a_finalization_waits_for_the_leaders_own_block() {
    let mut orch = orchestrator();
    let here = context(true);
    orch.on_event(commit(3, 0x31), &here);
    let qc = QuorumCertificate {
        view: 3,
        block_hash: [0x31; 32],
        aggregate_signature: vec![],
        signers: vec![],
    };
    let import = orch.import_or_defer(3, [0x31; 32], &qc, vec![]);
    assert!(matches!(import, FinalizeImport::NoData));
    let block = BlockDataBroadcast {
        block_hash: [0x31; 32],
        view: 3,
        payload_json: vec![1],
        timestamp: 50,
        execution_output: None,
        leader_ready_unix_ms: 0,
    };
    let data = encode_block(&block).unwrap();
    let other = LoopEvent::LeaderPayload { hash: [0x32; 32], data: data.clone() };
    assert!(matches!(orch.on_event(other, &here), LoopAction::Wait));
    let own = LoopEvent::LeaderPayload { hash: [0x31; 32], data };
    match orch.on_event(own, &here) {
        LoopAction::Finalize { waiting } => assert_eq!(waiting.view, 3),
        other => panic!("{other:?}"),
    }
    assert_eq!(orch.last_committed_timestamp(), 50);
}

#[test]
fn transactions_go_to_the_leader_in_batches() {
    let mut orch = orchestrator();
    let few = LoopEvent::Transactions { txs: vec![vec![1]; 511] };
    assert!(matches!(orch.on_event(few, &context(false)), LoopAction::Wait));
    match orch.on_event(LoopEvent::Transactions { txs: vec![vec![2]] }, &context(false)) {
        LoopAction::Flush { flush: Flush::Forward { peer, txs } } => {
            assert_eq!(peer, 22);
            assert_eq!(txs.len(), 512);
            assert_eq!(txs[511], vec![2]);
        }
        other => panic!("{other:?}"),
    }
    orch.on_event(LoopEvent::Transactions { txs: vec![vec![3]] }, &context(true));
    match orch.on_event(LoopEvent::FlushTimer, &context(true)) {
        LoopAction::Flush { flush: Flush::Local { txs } } => assert_eq!(txs, vec![vec![3]]),
        other => panic!("{other:?}"),
    }
    match orch.on_event(LoopEvent::FlushTimer, &context(true)) {
        LoopAction::Flush { flush: Flush::Keep } => {}
        other => panic!("{other:?}"),
    }
}
