use n42_node::{
    elapsed_between, elapsed_since_unix_ms, validate_state_root_bypass_flags, BENCH_CHAIN_ID_MAX,
    BENCH_CHAIN_ID_MIN,
};

#[test]
fn no_flags_always_pass() {
    assert!(validate_state_root_bypass_flags(false, false, false, 1).is_ok());
    assert!(validate_state_root_bypass_flags(false, false, true, 1).is_ok());
}

#[test]
fn bypass_without_allow_refused_everywhere() {
    for chain_id in [1, BENCH_CHAIN_ID_MIN, 94] {
        assert!(validate_state_root_bypass_flags(true, false, false, chain_id).is_err());
        assert!(validate_state_root_bypass_flags(false, true, false, chain_id).is_err());
    }
}

#[test]
fn bypass_with_allow_only_inside_bench_range() {
    assert!(validate_state_root_bypass_flags(false, true, true, BENCH_CHAIN_ID_MIN).is_ok());
    assert!(validate_state_root_bypass_flags(true, true, true, BENCH_CHAIN_ID_MAX - 1).is_ok());
    assert!(validate_state_root_bypass_flags(false, true, true, BENCH_CHAIN_ID_MAX).is_err());
    assert!(validate_state_root_bypass_flags(true, false, true, 1).is_err());
    assert!(validate_state_root_bypass_flags(true, false, true, 94).is_err());
}

#[test]
fn refusal_names_the_flags() {
    let err = validate_state_root_bypass_flags(true, true, false, 1).unwrap_err();
    assert!(err.contains("N42_SKIP_STATE_ROOT+N42_DEFER_STATE_ROOT"));
}

#[test]
fn refusal_messages_are_exact() {
    assert_eq!(
        validate_state_root_bypass_flags(true, false, false, 1).unwrap_err(),
        "N42_SKIP_STATE_ROOT=1 disables state-root verification and is refused without N42_ALLOW_BENCH_MODE=1"
    );
    assert_eq!(
        validate_state_root_bypass_flags(false, true, true, 94).unwrap_err(),
        "N42_DEFER_STATE_ROOT=1 is only allowed on benchmark chain ids [4242400,4242500); got 94"
    );
}

#[test]
fn elapsed_time_needs_a_start() {
    assert_eq!(elapsed_between(0, 100), None);
    assert_eq!(elapsed_between(40, 100), Some(60));
    assert_eq!(elapsed_between(100, 40), Some(0));
    assert_eq!(elapsed_since_unix_ms(0), None);
    // The clock stands well after this start.
    assert!(elapsed_since_unix_ms(1).unwrap() > 1_600_000_000_000);
}
