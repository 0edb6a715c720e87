use n42_node::eof_guard::EofFilteringTransactions;
use n42_node::payload::{
    execution_lanes, listed_transactions, sender_sharded_transactions,
    BestTransactionsAttributes, PendingTransaction, SenderShardedTransactions,
};

fn last_byte20(b: u8) -> [u8; 20] {
    let mut a = [0u8; 20];
    a[19] = b;
    a
}

fn last_byte32(b: u8) -> [u8; 32] {
    let mut a = [0u8; 32];
    a[31] = b;
    a
}

const BASEFEE: u64 = 10;

fn tx(sender: u8, nonce: u64, gas_price: u128, hash: u8) -> PendingTransaction {
    PendingTransaction {
        sender: last_byte20(sender),
        nonce,
        hash: last_byte32(hash),
        max_fee_per_gas: gas_price,
        max_fee_per_blob_gas: None,
        max_priority_fee_per_gas: None,
        is_eip4844: false,
        is_create: false,
        input_start: None,
    }
}

fn attributes() -> BestTransactionsAttributes {
    BestTransactionsAttributes {
        basefee: BASEFEE,
        blob_fee: None,
    }
}

fn drain(mut merged: SenderShardedTransactions) -> Vec<([u8; 20], u64)> {
    let mut out = Vec::new();
    while let Some(tx) = merged.next() {
        out.push((tx.sender, tx.nonce));
    }
    out
}

#[test]
fn deterministic_merge_releases_sender_nonce_chains() {
    let input = vec![
        tx(1, 1, 30, 2),
        tx(2, 0, 200, 3),
        tx(1, 0, 100, 1),
        tx(2, 1, 150, 4),
    ];
    let output = drain(sender_sharded_transactions(input, attributes()));
    assert_eq!(
        output,
        vec![
            (last_byte20(2), 0),
            (last_byte20(2), 1),
            (last_byte20(1), 0),
            (last_byte20(1), 1),
        ]
    );
}

#[test]
fn equal_tip_sender_run_matches_repeated_heap_order() {
    let input = vec![
        tx(2, 1, 100, 5),
        tx(1, 2, 100, 3),
        tx(2, 0, 100, 4),
        tx(1, 0, 100, 1),
        tx(1, 1, 100, 2),
    ];
    let output = drain(sender_sharded_transactions(input, attributes()));
    assert_eq!(
        output,
        vec![
            (last_byte20(1), 0),
            (last_byte20(1), 1),
            (last_byte20(1), 2),
            (last_byte20(2), 0),
            (last_byte20(2), 1),
        ]
    );
}

#[test]
fn invalid_transaction_suppresses_only_its_sender_suffix() {
    let input = vec![
        tx(1, 0, 100, 1),
        tx(1, 1, 90, 2),
        tx(2, 0, 200, 3),
        tx(2, 1, 150, 4),
    ];
    let mut output = sender_sharded_transactions(input, attributes());

    let invalid = output.next().expect("highest-tip sender head");
    assert_eq!((invalid.sender, invalid.nonce), (last_byte20(2), 0));
    output.mark_invalid(&invalid);

    assert_eq!(
        drain(output),
        vec![(last_byte20(1), 0), (last_byte20(1), 1)]
    );
}

#[test]
fn below_basefee_head_drops_complete_sender_suffix() {
    let input = vec![tx(1, 0, 9, 1), tx(1, 1, 500, 2), tx(2, 0, 20, 3)];
    let output = drain(sender_sharded_transactions(input, attributes()));
    assert_eq!(output, vec![(last_byte20(2), 0)]);
}

#[test]
fn order_does_not_depend_on_the_listing() {
    let mut input = vec![
        tx(3, 0, 50, 1),
        tx(1, 0, 50, 2),
        tx(1, 1, 80, 3),
        tx(2, 0, 60, 4),
        tx(2, 1, 60, 5),
    ];
    let forward = drain(sender_sharded_transactions(input.clone(), attributes()));
    input.reverse();
    let backward = drain(sender_sharded_transactions(input, attributes()));
    assert_eq!(forward, backward);
    assert_eq!(
        forward,
        vec![
            (last_byte20(2), 0),
            (last_byte20(2), 1),
            (last_byte20(1), 0),
            (last_byte20(1), 1),
            (last_byte20(3), 0),
        ]
    );
}

#[test]
fn skipped_blobs_take_their_sender_along() {
    let mut blob = tx(1, 0, 100, 1);
    blob.is_eip4844 = true;
    blob.max_fee_per_blob_gas = Some(5);
    let input = vec![blob, tx(1, 1, 90, 2), tx(2, 0, 20, 3)];
    let mut merged = sender_sharded_transactions(input, attributes());
    assert_eq!(merged.size_hint(), (0, Some(3)));
    merged.no_updates();
    merged.set_skip_blobs(true);
    assert_eq!(drain(merged), vec![(last_byte20(2), 0)]);
}

#[test]
fn blob_fee_prices_out_blob_transactions() {
    let mut blob = tx(1, 0, 100, 1);
    blob.max_fee_per_blob_gas = Some(5);
    let attributes = BestTransactionsAttributes {
        basefee: BASEFEE,
        blob_fee: Some(6),
    };
    let output = drain(sender_sharded_transactions(
        vec![blob, tx(2, 0, 20, 3)],
        attributes,
    ));
    assert_eq!(output, vec![(last_byte20(2), 0)]);
}

#[test]
fn lanes_stay_between_six_and_eight() {
    assert_eq!(execution_lanes(None), 8);
    assert_eq!(execution_lanes(Some(1)), 6);
    assert_eq!(execution_lanes(Some(7)), 7);
    assert_eq!(execution_lanes(Some(64)), 8);
}

#[test]
fn object_format_creations_are_left_out() {
    let mut refused = tx(2, 0, 200, 3);
    refused.is_create = true;
    refused.input_start = Some([0xEF, 0x00]);
    let mut call = tx(3, 0, 90, 5);
    call.input_start = Some([0xEF, 0x00]);
    let mut legacy = tx(1, 0, 100, 1);
    legacy.is_create = true;
    legacy.input_start = Some([0xEF, 0x01]);
    let input = vec![legacy, refused, tx(2, 1, 150, 4), call];
    let merged = sender_sharded_transactions(input, attributes());
    let mut left = EofFilteringTransactions::new(merged);
    left.no_updates();
    left.set_skip_blobs(true);
    let first = left.next().unwrap();
    assert_eq!(first.sender, last_byte20(1), "nothing follows a refused one of its sender");
    let mut again = first;
    again.sender = last_byte20(3);
    left.mark_invalid(&again);
    assert!(left.next().is_none());
}

#[test]
fn each_transaction_handed_out_is_the_best_head() {
    let mut input = Vec::new();
    for sender in 1..=4u8 {
        for nonce in 0..5u64 {
            let mixed = (u64::from(sender) * 7 + nonce * 5) % 4;
            let hash = sender * 10 + nonce as u8;
            input.push(tx(sender, nonce, 20 + u128::from(mixed), hash));
        }
    }
    let mut chains: Vec<Vec<PendingTransaction>> = Vec::new();
    for sender in 1..=4u8 {
        chains.push(input.iter().filter(|t| t.sender == last_byte20(sender)).copied().collect());
    }
    let mut merged = sender_sharded_transactions(input, attributes());
    let mut count = 0;
    while let Some(next) = merged.next() {
        let best = chains
            .iter()
            .filter_map(|chain| chain.first())
            .max_by_key(|head| (head.tip(BASEFEE), std::cmp::Reverse(head.sender)))
            .unwrap();
        assert_eq!((next.sender, next.nonce), (best.sender, best.nonce));
        let c = chains.iter().position(|chain| chain.first().is_some_and(|t| t.sender == next.sender));
        chains[c.unwrap()].remove(0);
        count += 1;
    }
    assert_eq!(count, 20);
}

#[test]
fn the_same_transaction_twice_does_not_disturb_the_order() {
    let input = vec![tx(1, 0, 50, 1), tx(2, 0, 60, 2), tx(1, 0, 50, 1), tx(1, 1, 70, 3)];
    let forward = drain(sender_sharded_transactions(input.clone(), attributes()));
    let mut turned = input;
    turned.reverse();
    assert_eq!(drain(sender_sharded_transactions(turned, attributes())), forward);
    assert_eq!(
        forward,
        vec![
            (last_byte20(2), 0),
            (last_byte20(1), 0),
            (last_byte20(1), 0),
            (last_byte20(1), 1),
        ]
    );
}

#[test]
fn any_order_is_filtered() {
    let mut eof = tx(1, 0, 100, 1);
    eof.is_create = true;
    eof.input_start = Some([0xEF, 0x00]);
    // The order is neither by tip nor by nonce: it is the one that is given.
    let listed = vec![tx(3, 4, 20, 5), eof, tx(2, 0, 30, 3), tx(1, 1, 900, 2), tx(2, 1, 40, 4)];
    let given: Vec<([u8; 20], u64)> = listed.iter().map(|t| (t.sender, t.nonce)).collect();
    assert_eq!(drain(listed_transactions(listed.clone())), given);

    let mut left = EofFilteringTransactions::new(listed_transactions(listed.clone()));
    left.no_updates();
    let mut out = Vec::new();
    while let Some(tx) = left.next() {
        out.push((tx.sender, tx.nonce));
    }
    assert_eq!(out, vec![(last_byte20(3), 4), (last_byte20(2), 0), (last_byte20(2), 1)]);

    let mut blobs = listed;
    blobs[0].is_eip4844 = true;
    let mut left = EofFilteringTransactions::new(listed_transactions(blobs));
    left.set_skip_blobs(true);
    let first = left.next().unwrap();
    assert_eq!(first.sender, last_byte20(2));
    left.mark_invalid(&first);
    assert!(left.next().is_none());
}

#[test]
fn tips_are_what_is_left_above_the_base_fee() {
    let mut dynamic = tx(1, 0, 100, 1);
    assert_eq!(dynamic.tip(10), 90);
    dynamic.max_priority_fee_per_gas = Some(7);
    assert_eq!(dynamic.tip(10), 7);
    assert_eq!(dynamic.tip(95), 5);
    assert_eq!(dynamic.tip(100), 0);
    assert_eq!(dynamic.tip(101), 0, "it cannot pay the base fee");

    // The same transactions come in another order at another base fee.
    let mut capped = tx(1, 0, 1_000, 1);
    capped.max_priority_fee_per_gas = Some(20);
    let input = vec![capped, tx(2, 0, 100, 2)];
    let at = |basefee: u64| BestTransactionsAttributes { basefee, blob_fee: None };
    let low = drain(sender_sharded_transactions(input.clone(), at(10)));
    assert_eq!(low, vec![(last_byte20(2), 0), (last_byte20(1), 0)]);
    let high = drain(sender_sharded_transactions(input, at(90)));
    assert_eq!(high, vec![(last_byte20(1), 0), (last_byte20(2), 0)]);
}
