use n42_node::components::N42HeaderProfile;
use n42_node::consensus_state::SharedConsensusState;
use n42_node::engine_validator::N42EngineValidator;
use n42_node::node::N42Node;
use std::sync::Arc;

fn make_node() -> N42Node {
    let state = Arc::new(SharedConsensusState::new(0, None));
    N42Node::new(state)
}

#[test]
fn test_n42_node_with_state() {
    let _ = make_node();
}

#[test]
fn test_n42_node_clone() {
    let _ = make_node().clone();
}

#[test]
fn test_n42_node_debug() {
    assert!(format!("{:?}", make_node()).contains("N42Node"));
}

#[test]
fn nodes_hand_their_settings_to_consensus() {
    let plain = make_node().consensus_builder();
    assert!(plain.has_validator_set);
    assert!(!plain.has_validator_set_resolver);
    assert_eq!(plain.header_profile, N42HeaderProfile::Ethereum);

    let builder = make_node()
        .with_validator_set_resolver()
        .with_header_profile(N42HeaderProfile::Gov5H2)
        .consensus_builder();
    assert!(builder.has_validator_set_resolver);
    assert!(builder.build_consensus(true).checks_committee_evidence);
    assert!(!builder.build_consensus(false).checks_committee_evidence);
}

#[test]
fn nodes_hand_their_profile_to_the_validator() {
    assert_eq!(
        make_node().engine_validator_builder().build(),
        N42EngineValidator::new(N42HeaderProfile::Ethereum)
    );
    let gov5 = make_node().with_header_profile(N42HeaderProfile::Gov5H2);
    assert_eq!(
        gov5.engine_validator_builder().build(),
        N42EngineValidator::new(N42HeaderProfile::Gov5H2)
    );
}

#[test]
fn nodes_share_the_state_of_consensus() {
    let mut state = SharedConsensusState::new(7, None);
    state.notify_block_committed([3; 32], 5);
    let node = N42Node::new(Arc::new(state));
    let other = node.clone().with_header_profile(N42HeaderProfile::Gov5H2);
    assert!(Arc::ptr_eq(&node.consensus_state, &other.consensus_state));
    assert_eq!(Arc::strong_count(&node.consensus_state), 2);
}
