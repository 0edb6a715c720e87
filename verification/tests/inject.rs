use n42_node::inject::{inject_high_water, InjectSession, InjectStats};

#[test]
fn injection_is_gated_at_the_high_water_mark() {
    assert_eq!(inject_high_water(None), 90_000);
    assert_eq!(inject_high_water(Some(5)), 5);
    let mut stats = InjectStats::new();
    let mut session = InjectSession::new(5);
    assert_eq!(session.on_header(0, &mut stats), None);
    assert_eq!(session.on_header(4, &mut stats), Some(4));
    assert_eq!(session.on_batch(4, 3, 4, &mut stats), None);
    assert!(!session.gate_logged);
    assert_eq!(
        session.on_submitted(3, 2, 6, &mut stats),
        vec![2, 0, 0, 0, 6, 0, 0, 0]
    );
    assert_eq!(
        session.on_batch(2, 2, 0x1_0000_0005, &mut stats),
        Some(vec![0, 0, 0, 0, 5, 0, 0, 0])
    );
    assert!(session.gate_logged);
    assert_eq!(
        stats,
        InjectStats {
            received: 4,
            accepted: 2,
            decode_errors: 1,
            pool_errors: 1
        }
    );
}
