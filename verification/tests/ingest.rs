use n42_node::ingest::{
    active_virtual_block_credit, adaptive_pool_limit_txs, configured_block_cap, credit_available,
    decode_prefix, effective_credit_limit, effective_high_water, ingest_credit_poll_interval,
    ingest_high_water, ingest_target_pending, ingest_virtual_block_credit_cap,
    note_virtual_block_credit, read_record, record_missing, reserve_credit_probe_allowance,
    reset_expired_virtual_block_credit, write_ack, BatchAction, ClientSession, CreditGrant,
    HeaderAction, IngestStats, RawTransaction, VirtualBlockCreditState, CREDIT_WAIT_SENTINEL,
};

#[test]
fn marks_follow_the_configuration() {
    assert_eq!(configured_block_cap(Some(0)), None);
    assert_eq!(adaptive_pool_limit_txs(None, None), 100_000);
    assert_eq!(adaptive_pool_limit_txs(Some(5), Some(90_000)), 5);
    assert_eq!(adaptive_pool_limit_txs(Some(0), Some(90_000)), 270_000);
    assert_eq!(ingest_high_water(None, None, None), 90_000);
    assert_eq!(ingest_high_water(Some(7), None, Some(90_000)), 7);
    // Eight thirds of a block, below the pool's headroom of a third of a block.
    assert_eq!(ingest_high_water(None, None, Some(90_000)), 240_000);
    assert_eq!(ingest_high_water(None, Some(200_000), Some(90_000)), 170_000);
    assert_eq!(ingest_target_pending(None, None, 90_000), 82_000);
    assert_eq!(ingest_target_pending(None, Some(90_000), 240_000), 225_000);
    assert_eq!(ingest_target_pending(Some(1_000_000), None, 90_000), 90_000);
    assert_eq!(ingest_target_pending(None, None, 5_000), 5_000);
    assert_eq!(ingest_virtual_block_credit_cap(None, None), 0);
    assert_eq!(ingest_virtual_block_credit_cap(Some(0), Some(9)), 9);
    assert_eq!(ingest_virtual_block_credit_cap(Some(4), Some(9)), 4);
    assert_eq!(ingest_credit_poll_interval(None), 10);
    assert_eq!(ingest_credit_poll_interval(Some(0)), 1);
    assert_eq!(ingest_credit_poll_interval(Some(25)), 25);
}

#[test]
fn credit_is_armed_capped_and_lapses() {
    let mut state = VirtualBlockCreditState::default();
    assert!(!note_virtual_block_credit(&mut state, 100, 0, 50, 1_000));
    assert!(!note_virtual_block_credit(&mut state, 0, 10, 50, 1_000));
    assert!(!note_virtual_block_credit(&mut state, 100, 10, 0, 1_000));
    assert_eq!(state, VirtualBlockCreditState::default());

    assert!(note_virtual_block_credit(&mut state, 100, 10, 50, 1_000));
    assert_eq!((state.available_txs, state.until_ms), (50, 1_010));
    // A smaller block that lasts longer keeps the larger credit.
    assert!(note_virtual_block_credit(&mut state, 20, 30, 50, 1_005));
    assert_eq!((state.available_txs, state.until_ms), (50, 1_035));
    assert_eq!(active_virtual_block_credit(&state, 90, 30, 1_035, 1_000), 50);
    assert_eq!(active_virtual_block_credit(&state, 980, 30, 1_035, 1_000), 20);
    assert_eq!(active_virtual_block_credit(&state, 90, 0, 1_035, 1_000), 0);
    assert_eq!(active_virtual_block_credit(&state, 90, 30, 1_036, 1_000), 0);
    // Lapsed credit does not count towards the next.
    assert!(note_virtual_block_credit(&mut state, 20, 30, 50, 2_000));
    assert_eq!((state.available_txs, state.until_ms), (20, 2_030));
    reset_expired_virtual_block_credit(&mut state, 2_031);
    assert_eq!(state, VirtualBlockCreditState::default());
}

#[test]
fn grants_fill_up_to_the_raised_mark() {
    let mut state = VirtualBlockCreditState {
        available_txs: 30,
        until_ms: 500,
    };
    let grant = reserve_credit_probe_allowance(&mut state, 100, 90, 10, 400, 120);
    assert_eq!(
        grant,
        CreditGrant {
            high_water: 120,
            credit_limit: 120,
            credit: 30
        }
    );
    assert_eq!((state.available_txs, state.until_ms), (10, 500));
    let grant = reserve_credit_probe_allowance(&mut state, 100, 105, 10, 400, 120);
    assert_eq!(grant.credit, 5);
    assert_eq!(state.available_txs, 5);
    let grant = reserve_credit_probe_allowance(&mut state, 100, 105, 10, 400, 120);
    assert_eq!(grant.credit, 0);
    // Without a lifetime there is only what fits below the base mark.
    let grant = reserve_credit_probe_allowance(&mut state, 100, 40, 0, 400, 120);
    assert_eq!(grant.credit, 60);
}

#[test]
fn limits_depend_on_the_probe() {
    assert_eq!(effective_high_water(100, false, 30), 100);
    assert_eq!(effective_high_water(100, true, 30), 130);
    assert_eq!(effective_credit_limit(100, 80, false, 30), 80);
    assert_eq!(effective_credit_limit(100, 80, true, 30), 130);
    assert_eq!(credit_available(10, 4), 6);
    assert_eq!(credit_available(4, 10), 0);
}

#[test]
fn answers_grow_with_the_extensions() {
    assert_eq!(
        write_ack(1, 2, 3, 4, false, false),
        vec![1, 0, 0, 0, 2, 0, 0, 0]
    );
    assert_eq!(
        write_ack(1, 2, 3, 4, true, false),
        vec![1, 0, 0, 0, 2, 0, 0, 0, 3, 0, 0, 0]
    );
    assert_eq!(
        write_ack(1, 0x1_0000_0000, 3, 4, true, true),
        vec![1, 0, 0, 0, 255, 255, 255, 255, 3, 0, 0, 0, 4, 0, 0, 0]
    );
}

#[test]
fn headers_select_the_action() {
    let mut stats = IngestStats::new();
    let plain = ClientSession::new(100, 80, false, false);
    let probing = ClientSession::new(100, 80, true, false);
    assert!(probing.extended_ack_enabled);
    assert_eq!(plain.on_header(0, &mut stats), HeaderAction::Close);
    assert_eq!(
        plain.on_header(CREDIT_WAIT_SENTINEL, &mut stats),
        HeaderAction::RefuseProbe
    );
    assert_eq!(
        probing.on_header(CREDIT_WAIT_SENTINEL, &mut stats),
        HeaderAction::WaitForCredit
    );
    assert_eq!(stats, IngestStats::default());
    assert_eq!(plain.on_header(3, &mut stats), HeaderAction::ReadBatch(3));
    assert_eq!(stats.received, 3);
    assert_eq!(plain.refuse_probe(9), vec![0, 0, 0, 0, 9, 0, 0, 0]);
}

#[test]
fn batches_are_gated() {
    let mut stats = IngestStats::new();
    let mut plain = ClientSession::new(100, 80, false, false);
    assert_eq!(
        plain.on_batch(10, 99, 0, &mut stats),
        BatchAction::Take(10)
    );
    assert_eq!(
        plain.on_batch(10, 100, 0, &mut stats),
        BatchAction::HardGated
    );
    assert!(plain.hard_gate_logged);

    let mut extended = ClientSession::new(100, 80, false, true);
    assert_eq!(
        extended.on_batch(10, 75, 0, &mut stats),
        BatchAction::Take(5)
    );
    assert_eq!(
        extended.on_batch(10, 80, 0, &mut stats),
        BatchAction::SoftGated
    );
    assert_eq!(stats.soft_gated, 1);
    assert_eq!(
        extended.refuse_batch(80),
        vec![0, 0, 0, 0, 80, 0, 0, 0, 0, 0, 0, 0]
    );

    let mut probing = ClientSession::new(100, 80, true, false);
    assert_eq!(
        probing.on_batch(10, 50, 0, &mut stats),
        BatchAction::SoftGated
    );
    assert_eq!(
        probing.grant_probe(50, 4),
        vec![0, 0, 0, 0, 50, 0, 0, 0, 0, 0, 0, 0, 4, 0, 0, 0]
    );
    assert_eq!(
        probing.on_batch(10, 500, 0, &mut stats),
        BatchAction::Take(4)
    );
    let ack = probing.on_submitted(10, 4, 3, 2, 52, &mut stats);
    assert_eq!(ack, vec![2, 0, 0, 0, 52, 0, 0, 0, 4, 0, 0, 0, 0, 0, 0, 0]);
    assert_eq!(probing.leased_credit_remaining, 0);
    assert_eq!(
        (stats.accepted, stats.decode_errors, stats.pool_errors),
        (2, 1, 1)
    );
    assert_eq!((stats.partial_batches, stats.deferred), (1, 6));
}

#[test]
fn probes_wait_for_room() {
    let mut stats = IngestStats::new();
    let mut session = ClientSession::new(100, 80, true, false);
    let mut state = VirtualBlockCreditState::default();
    let mut waited = false;
    assert_eq!(
        session.wait_for_credit_probe(&mut waited, &mut state, 100, 10, 1, 200, 0, &mut stats),
        None
    );
    assert!(waited && session.hard_gate_logged);
    assert_eq!(
        session.wait_for_credit_probe(&mut waited, &mut state, 101, 10, 2, 200, 5, &mut stats),
        None
    );
    assert_eq!(stats.soft_gated, 1);
    assert_eq!(
        session.wait_for_credit_probe(&mut waited, &mut state, 70, 10, 3, 200, 9, &mut stats),
        Some(30)
    );
    assert_eq!((stats.credit_waits, stats.credit_wait_ms), (1, 9));
    assert!(!session.hard_gate_logged && !session.soft_gate_logged);
}

#[test]
fn records_are_read_from_the_wire() {
    let mut wire = vec![3, 0, 7, 8, 9];
    wire.extend_from_slice(&[5u8; 20]);
    wire.push(77);
    let (raw, n) = read_record(&wire).unwrap();
    assert_eq!(n, 25);
    assert_eq!(raw.bytes, vec![7, 8, 9]);
    assert_eq!(raw.sender, [5u8; 20]);
    assert!(read_record(&wire[..24]).is_none());
    assert!(read_record(&wire[..1]).is_none());
    assert_eq!(record_missing(&[]), 2);
    assert_eq!(record_missing(&wire[..1]), 1);
    assert_eq!(record_missing(&wire[..2]), n - 2);
    assert_eq!(record_missing(&wire[..n - 1]), 1);
    assert_eq!(record_missing(&wire), 0);
}

#[test]
fn transactions_that_do_not_decode_are_counted() {
    // An unsigned-looking legacy transaction: nonce 9, one wei per gas, signed with toy values.
    let legacy: Vec<u8> = vec![
        0xc9, 0x09, 0x01, 0x80, 0x80, 0x80, 0x80, 0x1b, 0x01, 0x01,
    ];
    let raw = |bytes: Vec<u8>| RawTransaction {
        bytes,
        sender: [1u8; 20],
    };
    let batch = vec![raw(vec![0x60]), raw(legacy.clone()), raw(vec![])];
    let (decoded, errors) = decode_prefix(&batch, 10);
    assert_eq!(errors, 2);
    assert_eq!(decoded.len(), 1);
    assert_eq!(decoded[0].bytes, legacy);
    assert_eq!(decoded[0].sender, [1u8; 20]);
    assert_eq!(decoded[0].nonce, 9);
    assert_eq!(decoded[0].hash, alloy_primitives::keccak256(&legacy).0);
    let (decoded, errors) = decode_prefix(&batch, 1);
    assert_eq!((decoded.len(), errors), (0, 1));
}
