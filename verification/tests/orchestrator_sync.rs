use n42_node::orchestrator::broadcast::{encode_block, BlockDataBroadcast};
use n42_node::orchestrator::chain::{
    max_committed_blocks, BlockSyncRequest, BlockSyncResponse, CommittedBlock, CommittedChain,
    QuorumCertificate,
};
use n42_node::orchestrator::imports::PayloadStatus;
use n42_node::orchestrator::network::{NetworkAction, NetworkEvent};
use n42_node::orchestrator::observer::{ObserverAction, ObserverOrchestrator, Stage};
use n42_node::orchestrator::sync::{
    announcement, is_behind, sync_request_timeout, verify_sync_block_qc, Peers, SyncTracker,
    WithoutValidators,
};
use n42_node::orchestrator::{ConsensusOrchestrator, OrchestratorConfig};

fn qc(view: u64, hash: u8) -> QuorumCertificate {
    QuorumCertificate {
        view,
        block_hash: [hash; 32],
        aggregate_signature: vec![1],
        signers: vec![1],
    }
}

fn block(view: u64, hash: u8, payload: Vec<u8>) -> CommittedBlock {
    CommittedBlock { view, block_hash: [hash; 32], commit_qc: qc(view, hash), payload }
}

fn orchestrator(has_validators: bool) -> ConsensusOrchestrator {
    ConsensusOrchestrator::with_engine_api(
        OrchestratorConfig {
            slot_time_ms: 0,
            fast_propose: false,
            min_propose_delay_ms: 0,
            max_empty_skips: 3,
            sync_timeout_ms: 30_000,
            max_committed_blocks: 3,
        },
        [0; 32],
        [0; 20],
    )
    .with_validator_set(has_validators)
}

#[test]
fn test_observer_construction() {
    let observer = ObserverOrchestrator::new([7; 32]);
    assert_eq!(observer.head_block_hash(), [7; 32]);
    assert_eq!(observer.local_view(), 0);
    assert_eq!(observer.stage(), Stage::Waiting);
}

#[test]
fn test_verify_sync_block_no_validator_set_passes() {
    let unvouched = block(1, 2, vec![1]);
    assert!(verify_sync_block_qc(&unvouched, false, WithoutValidators::Trust, false));
    assert!(!verify_sync_block_qc(&unvouched, false, WithoutValidators::Refuse, true));
}

#[test]
fn certificates_name_their_block() {
    let good = block(3, 4, vec![1]);
    assert!(verify_sync_block_qc(&good, true, WithoutValidators::Trust, true));
    assert!(!verify_sync_block_qc(&good, true, WithoutValidators::Trust, false));
    let mut other_view = block(3, 4, vec![1]);
    other_view.commit_qc = qc(2, 4);
    assert!(!verify_sync_block_qc(&other_view, true, WithoutValidators::Trust, true));
    let mut other_hash = block(3, 4, vec![1]);
    other_hash.commit_qc = qc(3, 5);
    assert!(!verify_sync_block_qc(&other_hash, true, WithoutValidators::Trust, true));
}

#[test]
fn only_vouched_blocks_are_taken() {
    let response = || BlockSyncResponse {
        blocks: vec![
            block(1, 1, vec![1]),
            block(2, 2, vec![]),
            block(3, 3, vec![3]),
            block(4, 4, vec![4]),
        ],
        peer_committed_view: 4,
    };
    let valid = vec![true, true, false, true];
    let mut node = orchestrator(true);
    node.sync_requested(5);
    let event = NetworkEvent::SyncResponse { response: response(), qc_valid: valid.clone() };
    match node.handle_network_event(event, false, 9) {
        NetworkAction::ImportBlocks { imports, ask_for_more } => {
            let views: Vec<u64> = imports.iter().map(|b| b.view).collect();
            assert_eq!(views, vec![1, 4], "empty and unvouched blocks are left out");
            assert_eq!(imports[1].payload_json, vec![4]);
            assert!(ask_for_more);
        }
        other => panic!("{other:?}"),
    }
    assert_eq!(node.committed_blocks().len(), 2);
    assert!(!node.sync_tracker().in_flight);
    let mut without = orchestrator(false);
    assert!(without.handle_sync_response(&response(), &valid).is_empty());
    let mut observer = ObserverOrchestrator::new([0; 32]);
    let imports = observer.handle_sync_response(&response(), &valid);
    let views: Vec<u64> = imports.iter().map(|b| b.view).collect();
    assert_eq!(views, vec![1, 3, 4], "an observer trusts the execution layer");
}

#[test]
fn nodes_ask_until_they_are_close() {
    let mut node = orchestrator(true);
    node.handle_network_event(NetworkEvent::PeerConnected { peer: 6 }, false, 1);
    assert!(node.ask_for_more(7, 10, 1).is_none());
    assert_eq!(
        node.ask_for_more(6, 10, 1),
        Some((6, BlockSyncRequest { from_view: 7, to_view: 10, local_committed_view: 6 }))
    );
    assert!(!is_behind(7, 10));
    assert!(is_behind(6, 10));
}

#[test]
fn the_chain_keeps_the_newest() {
    let mut chain = CommittedChain::new(3);
    for view in 1..=5u64 {
        chain.store(block(view, view as u8, vec![view as u8]));
    }
    assert_eq!(chain.len(), 3);
    let answer = chain.handle_sync_request(&BlockSyncRequest {
        from_view: 2,
        to_view: 4,
        local_committed_view: 1,
    });
    let views: Vec<u64> = answer.blocks.iter().map(|b| b.view).collect();
    assert_eq!(views, vec![3, 4]);
    assert_eq!(answer.peer_committed_view, 5);
    assert_eq!(chain.newest_payload(), Some(&vec![5]));
    assert_eq!(max_committed_blocks(None), 10_000);
    assert_eq!(max_committed_blocks(Some(3)), 3);
}

#[test]
fn answers_are_bounded() {
    let mut chain = CommittedChain::new(1_000);
    for view in 1..=300u64 {
        chain.store(block(view, 1, vec![1]));
    }
    let answer = chain.handle_sync_request(&BlockSyncRequest {
        from_view: 10,
        to_view: 300,
        local_committed_view: 9,
    });
    assert_eq!(answer.blocks.len(), 128);
    assert_eq!(answer.blocks[0].view, 10);
    assert_eq!(answer.blocks[127].view, 137);
}

#[test]
fn payloads_are_filled_in_once() {
    let mut chain = CommittedChain::new(10);
    chain.store(block(1, 1, vec![]));
    chain.store(block(2, 2, vec![9]));
    assert!(chain.fill_payload(&[1; 32], &vec![5]));
    assert!(!chain.fill_payload(&[2; 32], &vec![5]), "a payload is not replaced");
    assert!(!chain.fill_payload(&[3; 32], &vec![5]));
    let answer = chain.handle_sync_request(&BlockSyncRequest {
        from_view: 1,
        to_view: 2,
        local_committed_view: 0,
    });
    assert_eq!(answer.blocks[0].payload, vec![5]);
    assert_eq!(answer.blocks[1].payload, vec![9]);
}

#[test]
fn activity_shows_in_the_payloads() {
    let mut chain = CommittedChain::new(10);
    assert!(!chain.recent_blocks_empty());
    for view in 1..=3u64 {
        chain.store(block(view, 1, vec![0; 100]));
    }
    assert!(chain.recent_blocks_empty());
    chain.store(block(4, 1, vec![0; 512]));
    assert!(!chain.recent_blocks_empty());
}

#[test]
fn peers_take_turns() {
    let mut peers = Peers::new();
    assert_eq!(peers.at_turn(3), None);
    for peer in [10, 20, 30, 20] {
        peers.connected(peer);
    }
    assert_eq!(peers.len(), 3);
    assert_eq!(peers.at_turn(0), Some(10));
    assert_eq!(peers.at_turn(4), Some(20));
    peers.disconnected(10);
    assert_eq!(peers.at_turn(0), Some(20));
}

#[test]
fn requests_time_out() {
    let mut tracker = SyncTracker::new(100);
    assert!(tracker.may_start(0));
    tracker.sent(10);
    assert!(!tracker.may_start(110));
    assert!(tracker.may_start(111));
    assert!(!tracker.in_flight);
    tracker.sent(200);
    tracker.finished();
    assert!(tracker.may_start(200));
    assert_eq!(sync_request_timeout(None), 30);
    assert_eq!(sync_request_timeout(Some(5)), 5);
}

fn announced(view: u64, hash: u8) -> BlockDataBroadcast {
    BlockDataBroadcast {
        block_hash: [hash; 32],
        view,
        payload_json: vec![1, 2],
        timestamp: 0,
        execution_output: None,
        leader_ready_unix_ms: 0,
    }
}

#[test]
fn observers_follow_the_chain() {
    let mut observer = ObserverOrchestrator::new([0; 32]);
    let bytes = encode_block(&announced(4, 9)).unwrap();
    let block = observer.handle_block_announcement(&bytes).unwrap();
    assert_eq!(block.view, 4);
    assert!(observer.handle_block_announcement(&[1, 2]).is_none());
    assert!(observer.import_block_data(&block).is_none(), "the payload does not read");
    assert_eq!(observer.highest_seen_view(), 4);
    assert!(!observer.on_new_payload(&block, &qc(4, 9), PayloadStatus::Syncing, true));
    assert!(observer.on_new_payload(&block, &qc(4, 9), PayloadStatus::Valid, false));
    assert_eq!(observer.local_view(), 0, "the head was not moved");
    assert!(observer.on_new_payload(&block, &qc(4, 9), PayloadStatus::Valid, true));
    assert_eq!(observer.head_block_hash(), [9; 32]);
    assert_eq!(observer.local_view(), 4);
    assert_eq!(observer.blocks_imported(), 1);
    assert_eq!(observer.stage(), Stage::Tracking);
    let request = BlockSyncRequest { from_view: 1, to_view: 9, local_committed_view: 0 };
    assert!(observer.handle_sync_request(&request, false).is_none());
    assert_eq!(observer.handle_sync_request(&request, true).unwrap().blocks.len(), 2);
}

#[test]
fn observers_catch_up_in_batches() {
    let mut observer = ObserverOrchestrator::new([0; 32]);
    observer.import_block_data(&announced(1_000, 1));
    assert_eq!(observer.stage(), Stage::CatchUp);
    assert!(observer.check_and_initiate_sync(1).is_none(), "nobody is connected");
    observer.peer_connected(5);
    observer.peer_connected(6);
    assert_eq!(
        observer.check_and_initiate_sync(1),
        Some((5, BlockSyncRequest { from_view: 1, to_view: 128, local_committed_view: 0 }))
    );
    observer.sync_requested(1);
    assert!(observer.check_and_initiate_sync(2).is_none());
    observer.sync_request_failed();
    assert_eq!(observer.ask_for_more(1_000, 3).unwrap().0, 6, "each attempt goes to the next peer");
    observer.peer_disconnected(5);
    assert_eq!(observer.initiate_sync(0, 10, 4).unwrap().1.to_view, 10);
}

#[test]
fn observers_handle_network_events() {
    let mut observer = ObserverOrchestrator::new([0; 32]);
    let connected = NetworkEvent::PeerConnected { peer: 5 };
    assert!(matches!(
        observer.handle_network_event(connected, true, false),
        ObserverAction::Nothing
    ));
    let data = encode_block(&announced(4, 9)).unwrap();
    match observer.handle_network_event(NetworkEvent::BlockAnnouncement { data }, true, false) {
        ObserverAction::Import { block } => assert_eq!(block.view, 4),
        other => panic!("{other:?}"),
    }
    let noise = NetworkEvent::BlockAnnouncement { data: vec![1] };
    assert!(matches!(observer.handle_network_event(noise, true, false), ObserverAction::Nothing));
    let message = NetworkEvent::ConsensusMessage { source: 1, signer: None };
    assert!(matches!(
        observer.handle_network_event(message, true, false),
        ObserverAction::Nothing
    ));
    let request = BlockSyncRequest { from_view: 1, to_view: 9, local_committed_view: 0 };
    let asked = NetworkEvent::SyncRequest { request_id: 3, request };
    assert!(matches!(observer.handle_network_event(asked, false, false), ObserverAction::Nothing));
    let asked = NetworkEvent::SyncRequest { request_id: 3, request };
    match observer.handle_network_event(asked, true, false) {
        ObserverAction::Respond { request_id, response } => {
            assert_eq!(request_id, 3);
            assert!(response.blocks.is_empty());
        }
        other => panic!("{other:?}"),
    }
    observer.import_block_data(&announced(1_000, 1));
    assert!(observer.check_and_initiate_sync(1).is_some());
    observer.sync_requested(1);
    let failed = NetworkEvent::SyncRequestFailed;
    assert!(matches!(observer.handle_network_event(failed, true, false), ObserverAction::Nothing));
    assert!(observer.check_and_initiate_sync(2).is_some(), "the request is done");
    let response =
        BlockSyncResponse { blocks: vec![block(1, 1, vec![7])], peer_committed_view: 1 };
    let answer = NetworkEvent::SyncResponse { response, qc_valid: vec![false] };
    match observer.handle_network_event(answer, true, false) {
        ObserverAction::ImportBlocks { blocks, ask_for_more } => {
            assert!(ask_for_more);
            assert_eq!(blocks[0].view, 1);
            assert_eq!(announcement(&blocks[0]).payload_json, blocks[0].payload);
        }
        other => panic!("{other:?}"),
    }
    let gone = NetworkEvent::PeerDisconnected { peer: 5 };
    observer.handle_network_event(gone, true, false);
    observer.sync_request_failed();
    assert!(observer.check_and_initiate_sync(3).is_none(), "nobody is connected");
}
