use n42_node::epoch_schedule::{
    expected_validator_peers, EpochEntry, EpochSchedule, PeerBinding, ValidatorInfo,
};

fn make_validators(count: usize) -> Vec<ValidatorInfo> {
    (0..count)
        .map(|i| {
            let mut address = [0u8; 20];
            address[19] = i as u8;
            ValidatorInfo { address, bls_public_key: [i as u8 + 1; 48], p2p_peer_id: None }
        })
        .collect()
}

fn bound_to(peer: &str) -> PeerBinding {
    PeerBinding { text: peer.to_string(), peer: Ok(peer.to_string()) }
}

fn bound_validators(peers: &[&str]) -> Vec<ValidatorInfo> {
    let mut validators = make_validators(peers.len());
    for (validator, peer) in validators.iter_mut().zip(peers) {
        validator.p2p_peer_id = Some(bound_to(peer));
    }
    validators
}

fn entry(start_epoch: u64, validators: Vec<ValidatorInfo>, fault_tolerance: u32) -> EpochEntry {
    let params_error = if validators.len() < 3 * fault_tolerance as usize + 1 {
        Some(format!("{} validators do not tolerate {fault_tolerance} faults", validators.len()))
    } else {
        None
    };
    EpochEntry { start_epoch, validators, fault_tolerance, params_error }
}

fn error_of(entries: Vec<EpochEntry>) -> String {
    match EpochSchedule::from_entries(entries) {
        Ok(_) => panic!("the schedule is accepted"),
        Err(message) => message,
    }
}

fn schedule_of(entries: Vec<EpochEntry>) -> EpochSchedule {
    match EpochSchedule::from_entries(entries) {
        Ok(schedule) => schedule,
        Err(message) => panic!("{message}"),
    }
}

#[test]
fn test_load_valid_schedule() {
    let schedule =
        schedule_of(vec![entry(2, make_validators(4), 1), entry(3, make_validators(7), 2)]);
    assert_eq!(schedule.len(), 2);
    assert!(schedule.get_for_epoch(2).is_some());
    assert!(schedule.get_for_epoch(3).is_some());
    assert!(schedule.get_for_epoch(4).is_none());
}

#[test]
fn test_get_for_epoch_returns_correct_data() {
    let schedule = schedule_of(vec![entry(5, make_validators(4), 1)]);
    let (loaded_validators, fault_tolerance) = schedule.get_for_epoch(5).unwrap();
    assert_eq!(loaded_validators.len(), 4);
    assert_eq!(fault_tolerance, 1);
}

#[test]
fn test_load_empty_array_ok() {
    assert!(schedule_of(vec![]).is_empty());
}

#[test]
fn test_get_for_epoch_missing_epoch_none() {
    let schedule = schedule_of(vec![entry(10, make_validators(4), 1)]);
    assert!(schedule.get_for_epoch(9).is_none());
    assert!(schedule.get_for_epoch(11).is_none());
    assert!(schedule.get_for_epoch(10).is_some());
}

#[test]
fn test_load_legacy_threshold_alias() {
    let err = error_of(vec![entry(2, vec![], 1)]);
    assert!(err.contains("empty validator set"));
    assert_eq!(err, "epoch 2 has empty validator set");
}

#[test]
fn test_load_rejects_invalid_fault_tolerance() {
    let err = error_of(vec![entry(2, make_validators(4), 2)]);
    assert!(err.contains("invalid validator set parameters"));
    assert_eq!(
        err,
        "epoch 2 has invalid validator set parameters: 4 validators do not tolerate 2 faults"
    );
}

#[test]
fn test_recovery_window_tracks_active_set_per_epoch() {
    let initial = make_validators(4);
    let schedule =
        schedule_of(vec![entry(2, make_validators(5), 1), entry(4, make_validators(7), 2)]);
    let window = schedule.recovery_window(&initial, 1, 4, 3);
    assert_eq!(window.len(), 4);
    assert_eq!(window[0].0, 1);
    assert_eq!(window[0].1.len(), 4);
    assert_eq!(window[1].0, 2);
    assert_eq!(window[1].1.len(), 5);
    assert_eq!(window[2].0, 3);
    assert_eq!(window[2].1.len(), 5);
    assert_eq!(window[3].0, 4);
    assert_eq!(window[3].1.len(), 7);
    assert_eq!(window[3].2, 2);
}

#[test]
fn test_validate_peer_binding_policy_rejects_strict_multi_validator_fallback() {
    let schedule = schedule_of(vec![entry(2, make_validators(4), 1)]);
    let err = schedule.validate_peer_binding_policy(false).unwrap_err();
    assert!(err.contains("missing explicit p2p_peer_id"));
    assert!(schedule.validate_peer_binding_policy(true).is_ok());
}

#[test]
fn test_active_config_for_epoch_tracks_latest_prior_entry() {
    let initial = make_validators(4);
    let schedule =
        schedule_of(vec![entry(2, make_validators(5), 1), entry(4, make_validators(7), 2)]);
    let (validators0, ft0) = schedule.active_config_for_epoch(0, &initial, 1);
    let (validators3, ft3) = schedule.active_config_for_epoch(3, &initial, 1);
    let (validators5, ft5) = schedule.active_config_for_epoch(5, &initial, 1);
    assert_eq!(validators0.len(), 4);
    assert_eq!(ft0, 1);
    assert_eq!(validators3.len(), 5);
    assert_eq!(ft3, 1);
    assert_eq!(validators5.len(), 7);
    assert_eq!(ft5, 2);
}

#[test]
fn a_window_starts_with_the_first_epoch() {
    let initial = make_validators(4);
    let window = schedule_of(vec![]).recovery_window(&initial, 1, 1, 3);
    let epochs: Vec<u64> = window.iter().map(|w| w.0).collect();
    assert_eq!(epochs, vec![0, 1]);
    let window = schedule_of(vec![]).recovery_window(&initial, 1, 2, usize::MAX);
    let epochs: Vec<u64> = window.iter().map(|w| w.0).collect();
    assert_eq!(epochs, vec![0, 1, 2], "no depth is too deep for a small epoch");
    let window = schedule_of(vec![]).recovery_window(&initial, 1, u64::MAX, 1);
    let epochs: Vec<u64> = window.iter().map(|w| w.0).collect();
    assert_eq!(epochs, vec![u64::MAX - 1, u64::MAX]);
}

#[test]
fn entries_need_not_be_in_order() {
    let schedule =
        schedule_of(vec![entry(9, make_validators(7), 2), entry(3, make_validators(4), 1)]);
    assert_eq!(schedule.get_for_epoch(3).unwrap().0.len(), 4);
    assert_eq!(schedule.get_for_epoch(9).unwrap().0.len(), 7);
}

#[test]
fn an_epoch_is_planned_once() {
    let err = error_of(vec![entry(2, make_validators(4), 1), entry(2, make_validators(4), 1)]);
    assert_eq!(err, "duplicate epoch entry for start_epoch 2");
}

#[test]
fn bindings_are_checked() {
    let mut some = make_validators(4);
    some[1].p2p_peer_id = Some(bound_to("a"));
    assert_eq!(
        error_of(vec![entry(2, some, 1)]),
        "epoch 2 must either define p2p_peer_id for all validators or omit it for all"
    );
    let twice = error_of(vec![entry(2, bound_validators(&["a", "b", "c", "a"]), 1)]);
    assert_eq!(twice, "epoch 2 has duplicate validator p2p_peer_id: a");
    let mut aliased = bound_validators(&["a", "b", "c", "d"]);
    aliased[3].p2p_peer_id =
        Some(PeerBinding { text: "another name of a".to_string(), peer: Ok("a".to_string()) });
    assert_eq!(
        error_of(vec![entry(2, aliased, 1)]),
        "epoch 2 has duplicate validator p2p_peer_id: a"
    );
    let mut malformed = bound_validators(&["a", "b", "c", "d"]);
    malformed[2].p2p_peer_id =
        Some(PeerBinding { text: "??".to_string(), peer: Err("is bad".to_string()) });
    assert_eq!(malformed[2].duplicate().p2p_peer_id.unwrap().text, "??");
    assert!(error_of(vec![entry(2, malformed, 1)]).ends_with("is bad"));
    let all = schedule_of(vec![entry(2, bound_validators(&["a", "b", "c", "d"]), 1)]);
    assert!(all.validate_peer_binding_policy(false).is_ok());
    let one = schedule_of(vec![entry(2, make_validators(1), 0)]);
    assert!(one.validate_peer_binding_policy(false).is_ok(), "one validator needs no binding");
}

#[test]
fn peers_are_expected_as_bound() {
    let bound = vec![Some(7), None, Some(9)];
    assert_eq!(expected_validator_peers(&bound, &vec![1, 2, 3], true), vec![(0, 7), (2, 9)]);
    let none = vec![None, None];
    assert_eq!(expected_validator_peers(&none, &vec![1, 2], true), vec![(0, 1), (1, 2)]);
    assert!(expected_validator_peers(&none, &vec![1, 2], false).is_empty());
}
