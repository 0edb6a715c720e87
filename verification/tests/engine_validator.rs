use alloy_consensus::{Block, BlockBody, TxEnvelope};
use alloy_primitives::{Bytes, B256, U256};
use alloy_rpc_types_engine::ExecutionData;
use n42_node::components::N42HeaderProfile;
use n42_node::engine_validator::{
    gov5_candidate, mismatch, read_payload, replay_candidate, replay_shape, Checks,
    N42EngineValidator, N42EngineValidatorBuilder, NativeHeader, PayloadParts, PayloadRefusal,
    SealedHeader, DIFFICULTY_ONE,
};
use n42_node::header::Header;

type WireHeader = alloy_consensus::Header;

fn plain(h: &WireHeader) -> Header {
    Header {
        parent_hash: h.parent_hash.0,
        ommers_hash: h.ommers_hash.0,
        beneficiary: h.beneficiary.into_array(),
        state_root: h.state_root.0,
        transactions_root: h.transactions_root.0,
        receipts_root: h.receipts_root.0,
        logs_bloom: h.logs_bloom.0 .0,
        difficulty: h.difficulty.to_be_bytes(),
        number: h.number,
        gas_limit: h.gas_limit,
        gas_used: h.gas_used,
        timestamp: h.timestamp,
        extra_data: h.extra_data.to_vec(),
        mix_hash: h.mix_hash.0,
        nonce: h.nonce.0,
        base_fee_per_gas: h.base_fee_per_gas,
        withdrawals_root: h.withdrawals_root.map(|r| r.0),
        blob_gas_used: h.blob_gas_used,
        excess_blob_gas: h.excess_blob_gas,
        parent_beacon_block_root: h.parent_beacon_block_root.map(|r| r.0),
        requests_hash: h.requests_hash.map(|r| r.0),
    }
}

fn gov5_extra() -> Vec<u8> {
    [b"N42H".as_slice(), &[0_u8; 8], &[0_u8; 96]].concat()
}

fn block_with_difficulty(difficulty: U256) -> Block<TxEnvelope> {
    Block {
        header: WireHeader {
            ommers_hash: B256::ZERO,
            difficulty,
            base_fee_per_gas: Some(0),
            extra_data: gov5_extra().into(),
            ..Default::default()
        },
        body: BlockBody::<TxEnvelope>::default(),
    }
}

fn zero_ommers_payload_with_difficulty(difficulty: U256) -> ExecutionData {
    let block = block_with_difficulty(difficulty);
    ExecutionData::from_block_unchecked(block.header.hash_slow(), &block)
}

fn zero_ommers_payload() -> ExecutionData {
    zero_ommers_payload_with_difficulty(U256::ZERO)
}

fn json_of(payload: &ExecutionData) -> Vec<u8> {
    serde_json::to_vec(payload).unwrap()
}

fn checks_of(payload: &ExecutionData) -> Checks {
    let extra = payload.payload.as_v1().extra_data.clone();
    Checks {
        extra: if extra.starts_with(b"N42H") {
            None
        } else {
            Some("header extra is not identified".to_string())
        },
        standard: None,
        replay: None,
        current: None,
        legacy: None,
        native: None,
        rewards_root: None,
    }
}

fn convert(
    profile: N42HeaderProfile,
    payload: &ExecutionData,
    checks: Checks,
) -> Option<Result<SealedHeader, PayloadRefusal>> {
    N42EngineValidator::new(profile).convert_payload_to_block(&json_of(payload), checks)
}

fn gov5(payload: &ExecutionData) -> Result<SealedHeader, PayloadRefusal> {
    convert(N42HeaderProfile::Gov5H2, payload, checks_of(payload)).unwrap()
}

#[test]
fn gov5_profile_reconstructs_zero_ommers_block_hash() {
    let payload = zero_ommers_payload();
    let sealed = gov5(&payload).unwrap();
    assert_eq!(sealed.hash, payload.block_hash().0);
    assert_eq!(sealed.header.ommers_hash, [0u8; 32]);
    assert_eq!(sealed.header.difficulty, [0u8; 32]);
}

#[test]
fn gov5_profile_preserves_legacy_difficulty_one_history() {
    let payload = zero_ommers_payload_with_difficulty(U256::from(1));
    let sealed = gov5(&payload).unwrap();
    assert_eq!(sealed.header.difficulty, DIFFICULTY_ONE);
    assert_eq!(U256::from_be_bytes(sealed.header.difficulty), U256::from(1));
}

#[test]
fn standard_profile_and_tampered_hash_reject_zero_ommers_payload() {
    let payload = zero_ommers_payload();
    assert!(
        convert(N42HeaderProfile::Ethereum, &payload, checks_of(&payload)).is_none(),
        "the standard conversion stands, which refuses extra data of this length"
    );
    assert!(payload.clone().try_into_block::<TxEnvelope>().is_err());
    let mut tampered = zero_ommers_payload();
    tampered.payload.as_v1_mut().block_hash = B256::repeat_byte(0x42);
    let refusal = gov5(&tampered).unwrap_err();
    match refusal {
        PayloadRefusal::BlockHash { execution, consensus } => {
            assert_eq!(execution, payload.block_hash().0);
            assert_eq!(consensus, [0x42; 32]);
        }
        other => panic!("{other:?}"),
    }
}

#[test]
fn gov5_profile_seals_native_headers_through_the_registry() {
    let rewards_root = B256::repeat_byte(0x77);
    let header = WireHeader {
        ommers_hash: B256::ZERO,
        number: 13_560_376,
        base_fee_per_gas: Some(7),
        withdrawals_root: Some(rewards_root),
        blob_gas_used: Some(0),
        excess_blob_gas: Some(0),
        parent_beacon_block_root: Some(B256::repeat_byte(0x22)),
        extra_data: gov5_extra().into(),
        ..Default::default()
    };
    // The header is known under the hash of an encoding that the fields do not give.
    let hash = B256::repeat_byte(0x94);
    assert_ne!(hash, header.hash_slow());
    let block = Block {
        header: header.clone(),
        body: BlockBody::<TxEnvelope> {
            withdrawals: Some(Default::default()),
            ..Default::default()
        },
    };
    let payload = ExecutionData::from_block_unchecked(hash, &block);
    let remembered = |field: fn(&mut Header)| {
        let mut native = plain(&header);
        field(&mut native);
        Checks {
            native: Some(NativeHeader { header: native, refusal: None }),
            rewards_root: Some(rewards_root.0),
            ..checks_of(&payload)
        }
    };
    let sealed = convert(N42HeaderProfile::Gov5H2, &payload, remembered(|_| {})).unwrap().unwrap();
    assert_eq!(sealed.hash, hash.0);
    assert_eq!(sealed.header.parent_beacon_block_root, Some([0x22; 32]));
    assert_eq!(sealed.header.withdrawals_root, Some(rewards_root.0));

    let refusal = convert(N42HeaderProfile::Gov5H2, &payload, remembered(|h| h.gas_used = 1))
        .unwrap()
        .unwrap_err();
    assert!(matches!(refusal, PayloadRefusal::Invalid { message } if message == format!(
        "gov5 payload {hash} disagrees with its remembered native header on gasUsed"
    )));

    // Without a remembered encoding the same payload has no provable hash.
    let mut unknown = block.clone();
    unknown.header.number += 1;
    let payload = ExecutionData::from_block_unchecked(B256::repeat_byte(0x99), &unknown);
    assert!(gov5(&payload).is_err());
}

#[test]
fn gov5_profile_rejects_unidentified_header_extra() {
    let mut payload = zero_ommers_payload();
    payload.payload.as_v1_mut().extra_data = Bytes::from_static(b"not-n42h");
    assert!(matches!(
        gov5(&payload).unwrap_err(),
        PayloadRefusal::Invalid { message } if message == "header extra is not identified"
    ));
}

#[test]
fn replayed_blocks_are_settled_by_their_hash() {
    let mut header = block_with_difficulty(U256::ZERO).header;
    header.ommers_hash = alloy_consensus::EMPTY_OMMER_ROOT_HASH;
    header.extra_data = Bytes::from_static(&[0u8; 32]);
    let block = Block { header: header.clone(), body: BlockBody::<TxEnvelope>::default() };
    let mut sealed_form = header;
    sealed_form.withdrawals_root = Some(alloy_primitives::keccak256([]));
    let payload = ExecutionData::from_block_unchecked(sealed_form.hash_slow(), &block);
    let sealed = gov5(&payload).unwrap();
    assert_eq!(sealed.hash, sealed_form.hash_slow().0);
    assert_eq!(sealed.header.hash_slow(), sealed.hash);
    let other = ExecutionData::from_block_unchecked(B256::repeat_byte(1), &block);
    assert!(matches!(
        gov5(&other).unwrap_err(),
        PayloadRefusal::BlockHash { execution, consensus }
            if execution == sealed.hash && consensus == [1u8; 32]
    ));
    let refused = Checks { replay: Some("no".to_string()), ..checks_of(&payload) };
    assert!(matches!(
        convert(N42HeaderProfile::Gov5H2, &payload, refused).unwrap().unwrap_err(),
        PayloadRefusal::Invalid { message } if message == "no"
    ));
}

#[test]
fn verdicts_are_asked_in_order() {
    let refused = |change: fn(&mut Checks)| {
        let payload = zero_ommers_payload_with_difficulty(U256::from(1));
        let mut checks = checks_of(&payload);
        change(&mut checks);
        match convert(N42HeaderProfile::Gov5H2, &payload, checks).unwrap() {
            Err(PayloadRefusal::Invalid { message }) => message,
            other => panic!("{other:?}"),
        }
    };
    let all = |c: &mut Checks| {
        c.current = Some("current".to_string());
        c.legacy = Some("legacy".to_string());
    };
    assert_eq!(refused(all), "current");
    assert_eq!(refused(|c| c.legacy = Some("legacy".to_string())), "legacy");
    assert_eq!(
        refused(|c| {
            c.standard = Some("standard".to_string());
            c.current = Some("current".to_string());
        }),
        "standard"
    );
    assert_eq!(
        refused(|c| {
            c.extra = Some("extra".to_string());
            c.standard = Some("standard".to_string());
        }),
        "extra"
    );
}

#[test]
fn payloads_are_read_without_their_extra_data() {
    let payload = zero_ommers_payload();
    let parts = read_payload(&json_of(&payload)).unwrap();
    assert_eq!(parts.hash, payload.block_hash().0);
    assert_eq!(parts.extra_data, gov5_extra());
    let standard = parts.standard.unwrap();
    assert_eq!(standard.extra_data, Vec::<u8>::new());
    assert_eq!(standard.ommers_hash, alloy_consensus::EMPTY_OMMER_ROOT_HASH.0);
    assert_eq!(standard.base_fee_per_gas, Some(0));
    assert!(read_payload(b"{}").is_none());
}

#[test]
fn every_field_of_a_payload_is_read() {
    let wire = WireHeader {
        parent_hash: B256::repeat_byte(1),
        beneficiary: alloy_primitives::Address::repeat_byte(2),
        state_root: B256::repeat_byte(3),
        receipts_root: B256::repeat_byte(4),
        logs_bloom: alloy_primitives::Bloom::repeat_byte(5),
        number: 6,
        gas_limit: 7,
        gas_used: 8,
        timestamp: 9,
        extra_data: gov5_extra().into(),
        mix_hash: B256::repeat_byte(10),
        base_fee_per_gas: Some(11),
        blob_gas_used: Some(12),
        excess_blob_gas: Some(13),
        parent_beacon_block_root: Some(B256::repeat_byte(14)),
        withdrawals_root: Some(alloy_consensus::EMPTY_ROOT_HASH),
        transactions_root: alloy_consensus::EMPTY_ROOT_HASH,
        ..Default::default()
    };
    let block = Block {
        header: wire.clone(),
        body: BlockBody::<TxEnvelope> {
            withdrawals: Some(Default::default()),
            ..Default::default()
        },
    };
    let payload = ExecutionData::from_block_unchecked(B256::repeat_byte(15), &block);
    let parts = read_payload(&json_of(&payload)).unwrap();
    let mut expected = plain(&wire);
    expected.extra_data = Vec::new();
    assert_eq!(parts.standard.unwrap().encode(), expected.encode());
    assert_eq!(parts.hash, [15; 32]);
}

#[test]
fn payloads_that_stand_for_no_block_are_refused() {
    let mut payload = zero_ommers_payload();
    payload.payload.as_v1_mut().transactions = vec![Bytes::from_static(&[0xff])];
    assert!(matches!(gov5(&payload).unwrap_err(), PayloadRefusal::Invalid { .. }));
    let validator = N42EngineValidator::new(N42HeaderProfile::Gov5H2);
    let refused = validator.convert_payload_to_block(b"no payload", checks_of(&payload));
    assert!(matches!(refused, Some(Err(PayloadRefusal::Unreadable))));
    let ethereum = N42EngineValidator::new(N42HeaderProfile::Ethereum);
    assert!(ethereum.convert_payload_to_block(b"no payload", checks_of(&payload)).is_none());
}

#[test]
fn what_a_payload_says_settles_its_header() {
    let validator = N42EngineValidator::new(N42HeaderProfile::Gov5H2);
    let payload = zero_ommers_payload();
    let standard = read_payload(&json_of(&payload)).unwrap().standard.unwrap();
    let expected = gov5_candidate(&standard, &gov5_extra(), [0; 32]).hash_slow();
    let parts = PayloadParts {
        hash: expected,
        extra_data: gov5_extra(),
        standard: Ok(standard),
    };
    let sealed = validator.settle_payload(parts, checks_of(&payload)).unwrap().unwrap();
    assert_eq!(sealed.hash, expected);
    let parts = PayloadParts {
        hash: expected,
        extra_data: gov5_extra(),
        standard: Err("no block".to_string()),
    };
    assert!(matches!(
        validator.settle_payload(parts, checks_of(&payload)),
        Some(Err(PayloadRefusal::Invalid { message })) if message == "no block"
    ));
}

#[test]
fn headers_encode_as_alloy_does() {
    let wire = WireHeader {
        parent_hash: B256::repeat_byte(1),
        beneficiary: alloy_primitives::Address::repeat_byte(2),
        number: 5,
        gas_limit: 30_000_000,
        timestamp: 99,
        extra_data: Bytes::from_static(b"abc"),
        difficulty: U256::from(77),
        nonce: alloy_primitives::B64::repeat_byte(9),
        base_fee_per_gas: Some(3),
        withdrawals_root: Some(B256::repeat_byte(4)),
        requests_hash: None,
        ..Default::default()
    };
    let header = plain(&wire);
    assert_eq!(header.encode(), alloy_rlp::encode(&wire));
    assert_eq!(header.hash_slow(), wire.hash_slow().0);
    assert_eq!(header.duplicate().hash_slow(), header.hash_slow());
}

#[test]
fn candidates_differ_where_they_should() {
    let standard = plain(&WireHeader::default());
    let replay = replay_candidate(&standard, &vec![0u8; 32]);
    assert_eq!(replay.withdrawals_root, Some(alloy_primitives::keccak256([]).0));
    assert!(replay_shape(&replay.extra_data));
    assert!(!replay_shape(&vec![0u8; 31]));
    assert!(!replay_shape(&gov5_extra()));
    let legacy = gov5_candidate(&standard, &gov5_extra(), DIFFICULTY_ONE);
    assert_eq!(legacy.ommers_hash, [0u8; 32]);
    assert_eq!(legacy.extra_data, gov5_extra());
    assert_eq!(legacy.difficulty, DIFFICULTY_ONE);
}

#[test]
fn each_field_is_compared() {
    let base = plain(&WireHeader::default());
    let cases: Vec<(fn(&mut Header), &str)> = vec![
        (|h| h.parent_hash = [1; 32], "parentHash"),
        (|h| h.beneficiary = [1; 20], "miner"),
        (|h| h.state_root = [1; 32], "stateRoot"),
        (|h| h.transactions_root = [1; 32], "transactionsRoot"),
        (|h| h.receipts_root = [1; 32], "receiptsRoot"),
        (|h| h.logs_bloom = [1; 256], "logsBloom"),
        (|h| h.number = 1, "number"),
        (|h| h.gas_limit = 1, "gasLimit"),
        (|h| h.gas_used = 1, "gasUsed"),
        (|h| h.timestamp = 1, "timestamp"),
        (|h| h.extra_data = vec![1], "extraData"),
        (|h| h.mix_hash = [1; 32], "mixHash"),
        (|h| h.base_fee_per_gas = Some(1), "baseFeePerGas"),
        (|h| h.withdrawals_root = Some([1; 32]), "withdrawalsRoot (rewards)"),
        (|h| h.blob_gas_used = Some(1), "blob gas"),
        (|h| h.excess_blob_gas = Some(1), "blob gas"),
        (|h| h.parent_beacon_block_root = Some([1; 32]), "parentBeaconBlockRoot"),
    ];
    for (change, field) in cases {
        let mut native = base.duplicate();
        change(&mut native);
        assert_eq!(mismatch(&base, &native, &None), Some(field));
    }
    let mut zero = base.duplicate();
    zero.blob_gas_used = Some(0);
    zero.difficulty = [7; 32];
    assert_eq!(mismatch(&base, &zero, &None), None);
}

#[test]
fn the_builder_hands_on_the_profile() {
    assert_eq!(
        N42EngineValidatorBuilder::default().build(),
        N42EngineValidator::new(N42HeaderProfile::Ethereum)
    );
    assert_eq!(
        N42EngineValidatorBuilder::new(N42HeaderProfile::Gov5H2).build(),
        N42EngineValidator::new(N42HeaderProfile::Gov5H2)
    );
}
