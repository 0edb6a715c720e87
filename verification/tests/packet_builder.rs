use alloy_primitives::keccak256;
use n42_node::header::Header;
use n42_node::keyed::ByteMap;
use n42_node::packet_builder::{
    build_verification_packet, resolve_accounts, Account, ExecutionWitness, PacketBlock,
    PacketBuildError, Preimages,
};
use n42_node::primitives::KECCAK_EMPTY;

fn address(last: u8) -> [u8; 20] {
    let mut a = [0u8; 20];
    a[19] = last;
    a
}

fn word(last: u8) -> [u8; 32] {
    let mut w = [0u8; 32];
    w[31] = last;
    w
}

fn number(n: u64) -> [u8; 32] {
    let mut w = [0u8; 32];
    w[24..].copy_from_slice(&n.to_be_bytes());
    w
}

fn witness(accounts: Vec<([u8; 32], Option<Account>)>, keys: Vec<Vec<u8>>) -> ExecutionWitness {
    ExecutionWitness {
        accounts,
        storages: ByteMap::new(),
        codes: vec![],
        keys,
        lowest_block_number: None,
    }
}

fn block() -> PacketBlock {
    PacketBlock {
        hash: [0x99; 32],
        header: Header {
            parent_hash: [1; 32],
            ommers_hash: [2; 32],
            beneficiary: [3; 20],
            state_root: [4; 32],
            transactions_root: [5; 32],
            receipts_root: [6; 32],
            logs_bloom: [0; 256],
            difficulty: [0; 32],
            number: 7,
            gas_limit: 8,
            gas_used: 9,
            timestamp: 10,
            extra_data: vec![11],
            mix_hash: [12; 32],
            nonce: [0; 8],
            base_fee_per_gas: None,
            withdrawals_root: None,
            blob_gas_used: None,
            excess_blob_gas: None,
            parent_beacon_block_root: None,
            requests_hash: None,
        },
        transactions: vec![vec![1, 2], vec![3]],
    }
}

#[test]
fn test_build_preimage_maps() {
    let addr = address(0x42);
    let slot = word(0x01);
    let keys = vec![addr.to_vec(), slot.to_vec(), vec![1, 2, 3]];
    let addr_map = Preimages::from_keys(&keys, 20);
    let slot_map = Preimages::from_keys(&keys, 32);
    assert_eq!(addr_map.get(&keccak256(addr).0), Some(&addr.to_vec()));
    assert_eq!(slot_map.get(&keccak256(slot).0), Some(&slot.to_vec()));
    assert_eq!(addr_map.get(&keccak256(slot).0), None);
    assert_eq!(slot_map.get(&keccak256([1, 2, 3]).0), None);
}

#[test]
fn test_destroyed_accounts_skipped() {
    let addr = address(0x01);
    let witness = witness(vec![(keccak256(addr).0, None)], vec![addr.to_vec()]);
    let accounts = resolve_accounts(&witness).unwrap();
    assert!(accounts.is_empty(), "destroyed accounts should be skipped");
}

#[test]
fn test_uncached_bytecodes_hash() {
    let code = vec![0x60, 0x00, 0x60, 0x00, 0xf3];
    let mut witness = witness(vec![], vec![]);
    witness.codes = vec![code.clone()];
    let packet = build_verification_packet(&witness, &block(), &vec![]).unwrap();
    assert_eq!(packet.uncached_bytecodes.len(), 1);
    assert_eq!(packet.uncached_bytecodes[0].0, keccak256(&code).0);
    assert_eq!(packet.uncached_bytecodes[0].1, code);
}

#[test]
fn test_build_with_account_and_storage() {
    let addr = address(0x42);
    let hashed_addr = keccak256(addr).0;
    let slot = word(0x01);
    let hashed_slot = keccak256(slot).0;
    let account = Account { nonce: 5, balance: number(1000), bytecode_hash: Some(KECCAK_EMPTY) };
    let mut witness =
        witness(vec![(hashed_addr, Some(account))], vec![addr.to_vec(), slot.to_vec()]);
    witness.storages.insert(hashed_addr, vec![(hashed_slot, number(42))]);
    let accounts = resolve_accounts(&witness).unwrap();
    assert_eq!(accounts.len(), 1);
    assert_eq!(accounts[0].address, addr);
    assert_eq!(accounts[0].nonce, 5);
    assert_eq!(accounts[0].balance, number(1000));
    assert_eq!(accounts[0].code_hash, KECCAK_EMPTY);
    assert_eq!(accounts[0].storage, vec![(slot, number(42))]);
}

#[test]
fn test_missing_account_preimage() {
    let hashed_addr = keccak256(address(0x99)).0;
    let account = Account { nonce: 1, balance: number(100), bytecode_hash: Some(KECCAK_EMPTY) };
    let witness = witness(vec![(hashed_addr, Some(account))], vec![]);
    let error = build_verification_packet(&witness, &block(), &vec![]).unwrap_err();
    assert_eq!(error, PacketBuildError::MissingAccountPreimage { hashed: hashed_addr });
    assert_eq!(
        error.to_text(),
        format!("missing preimage for hashed account key {}", keccak256(address(0x99)))
    );
}

#[test]
fn missing_slots_are_told() {
    let addr = address(1);
    let hashed_addr = keccak256(addr).0;
    let account = Account { nonce: 1, balance: number(1), bytecode_hash: None };
    let mut witness = witness(vec![(hashed_addr, Some(account))], vec![addr.to_vec()]);
    witness.storages.insert(hashed_addr, vec![([7; 32], number(1)), ([8; 32], number(2))]);
    let error = resolve_accounts(&witness).unwrap_err();
    assert_eq!(error, PacketBuildError::MissingStoragePreimage { hashed: [7; 32] });
    assert_eq!(
        error.to_text(),
        format!("missing preimage for hashed storage key 0x{}", "07".repeat(32))
    );
}

#[test]
fn packets_copy_the_header() {
    let addr = address(1);
    let account = Account { nonce: 1, balance: number(1), bytecode_hash: None };
    let mut witness = witness(vec![(keccak256(addr).0, Some(account))], vec![addr.to_vec()]);
    witness.lowest_block_number = Some(3);
    let block = block();
    let packet = build_verification_packet(&witness, &block, &vec![(6, [6; 32])]).unwrap();
    assert_eq!(packet.block_hash, [0x99; 32]);
    assert_eq!(packet.block_number, 7);
    assert_eq!(packet.parent_hash, [1; 32]);
    assert_eq!(packet.state_root, [4; 32]);
    assert_eq!(packet.transactions_root, [5; 32]);
    assert_eq!(packet.receipts_root, [6; 32]);
    assert_eq!(packet.timestamp, 10);
    assert_eq!(packet.gas_limit, 8);
    assert_eq!(packet.beneficiary, [3; 20]);
    assert_eq!(packet.header_rlp, block.header.encode());
    assert_eq!(packet.transactions, vec![vec![1, 2], vec![3]]);
    assert_eq!(packet.lowest_block_number, Some(3));
    assert_eq!(packet.block_hashes, vec![(6, [6; 32])]);
    assert_eq!(packet.witness_accounts[0].code_hash, KECCAK_EMPTY);
    assert_eq!(KECCAK_EMPTY, keccak256([]).0);
}
