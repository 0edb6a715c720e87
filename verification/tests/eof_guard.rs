use alloy_primitives::keccak256;
use n42_node::eof_guard::{
    check_block, check_built_block, eof_rejections_total, find_eof_initcode, is_eof_code,
    code_hash_of, is_eof_create, BundleAccount, BundleState, CodeInfo, CodeLookup, EofGuardError,
    EofInitcodeError, EofRejections, EofSighting, GuardStage, GuardedBlock, GuardedTransaction,
    EOF_UNSUPPORTED,
};
use n42_node::primitives::KECCAK_EMPTY;
use std::collections::HashMap;

type B256 = [u8; 32];
type Address = [u8; 20];

#[derive(Default)]
struct MapLookup {
    by_hash: HashMap<B256, Vec<u8>>,
    by_address: HashMap<Address, Vec<u8>>,
}

impl MapLookup {
    fn with_account(mut self, address: Address, code: Vec<u8>) -> Self {
        self.by_hash.insert(keccak256(&code).0, code.clone());
        self.by_address.insert(address, code);
        self
    }
}

impl CodeLookup for MapLookup {
    fn code_by_hash(&self, code_hash: &B256) -> Result<Option<Vec<u8>>, String> {
        Ok(self.by_hash.get(code_hash).cloned())
    }

    fn code_of(&self, address: &Address) -> Result<Option<Vec<u8>>, String> {
        Ok(self.by_address.get(address).cloned())
    }
}

struct FailingLookup;

impl CodeLookup for FailingLookup {
    fn code_by_hash(&self, _: &B256) -> Result<Option<Vec<u8>>, String> {
        Err("database closed".into())
    }

    fn code_of(&self, _: &Address) -> Result<Option<Vec<u8>>, String> {
        Err("database closed".into())
    }
}

fn tx(nonce: u8, to: Option<Address>, input: Vec<u8>) -> GuardedTransaction {
    GuardedTransaction {
        hash: keccak256([nonce]).0,
        to,
        input,
    }
}

fn block(transactions: Vec<GuardedTransaction>) -> GuardedBlock {
    GuardedBlock {
        number: 13_560_376,
        hash: [0xB1; 32],
        transactions,
    }
}

fn empty() -> BundleState {
    BundleState {
        contracts: Vec::new(),
        accounts: Vec::new(),
    }
}

fn eof_code() -> Vec<u8> {
    vec![0xEF, 0x00, 0x01, 0x01, 0x00, 0x04, 0x02, 0x00]
}

fn legacy_code() -> Vec<u8> {
    vec![0x60, 0x00, 0x60, 0x00, 0xF3]
}

fn account_with_code(
    address: Address,
    original: Option<Vec<u8>>,
    present: Option<Vec<u8>>,
) -> BundleAccount {
    let info = |code: Vec<u8>| CodeInfo {
        code_hash: keccak256(&code).0,
        code: Some(code),
    };
    BundleAccount {
        address,
        original_info: original.map(info),
        info: present.map(info),
    }
}

#[test]
fn eof_magic_is_ef00_only() {
    assert!(is_eof_code(&[0xEF, 0x00]));
    assert!(is_eof_code(&[0xEF, 0x00, 0x01]));
    assert!(!is_eof_code(&[0xEF]));
    assert!(
        !is_eof_code(&[0xEF, 0x01, 0x00]),
        "EIP-7702 designators are not EOF"
    );
    assert!(!is_eof_code(&[0x60, 0x00]));
    assert!(!is_eof_code(&[]));
}

#[test]
fn a_block_with_eof_initcode_is_rejected() {
    let mut rejections = EofRejections::default();
    let before = eof_rejections_total(&rejections);
    let create = tx(0, None, eof_code());
    let hash = create.hash;
    let block = block(vec![create]);
    let error = check_block(
        &block,
        &empty(),
        &MapLookup::default(),
        GuardStage::Import,
        &mut rejections,
    )
    .unwrap_err();
    assert_eq!(
        error,
        EofGuardError::Eof {
            block_number: 13_560_376,
            block_hash: block.hash,
            sighting: EofSighting::Initcode {
                tx_index: 0,
                tx_hash: hash
            },
        }
    );
    let text = error.to_text();
    assert!(text.contains(EOF_UNSUPPORTED), "{text}");
    assert!(text.contains("block 13560376"), "{text}");
    assert!(text.contains("refusing to vote or propose"), "{text}");
    assert!(
        eof_rejections_total(&rejections) > before,
        "metric mirror increments"
    );
    assert!(
        check_built_block(&block, &mut rejections).is_err(),
        "the builder refuses the same block"
    );
}

#[test]
fn a_block_deploying_eof_runtime_code_is_rejected() {
    let mut rejections = EofRejections::default();
    let block = block(vec![tx(0, None, legacy_code())]);
    let deployed = [0xDE; 20];
    let state = BundleState {
        contracts: vec![(keccak256(eof_code()).0, eof_code())],
        accounts: vec![account_with_code(deployed, None, Some(eof_code()))],
    };
    let error = check_block(
        &block,
        &state,
        &MapLookup::default(),
        GuardStage::Import,
        &mut rejections,
    )
    .unwrap_err();
    assert!(matches!(
        error,
        EofGuardError::Eof {
            sighting: EofSighting::Deployed {
                address: Some(address),
                ..
            },
            ..
        } if address == deployed
    ));

    // The same deployment seen only through the account's post-state.
    let state = BundleState {
        contracts: Vec::new(),
        accounts: vec![account_with_code(deployed, None, Some(eof_code()))],
    };
    let error = check_block(
        &block,
        &state,
        &MapLookup::default(),
        GuardStage::Import,
        &mut rejections,
    )
    .unwrap_err();
    assert!(matches!(
        error,
        EofGuardError::Eof {
            sighting: EofSighting::Deployed { .. },
            ..
        }
    ));
}

#[test]
fn a_call_to_a_pre_existing_eof_account_is_rejected() {
    let mut rejections = EofRejections::default();
    let target = [0xE0; 20];
    let block = block(vec![tx(0, Some(target), Vec::new())]);

    // Touched: the account is in the bundle with unchanged EOF code.
    let state = BundleState {
        contracts: Vec::new(),
        accounts: vec![account_with_code(
            target,
            Some(eof_code()),
            Some(eof_code()),
        )],
    };
    let error = check_block(
        &block,
        &state,
        &MapLookup::default(),
        GuardStage::Import,
        &mut rejections,
    )
    .unwrap_err();
    assert!(matches!(
        error,
        EofGuardError::Eof {
            sighting: EofSighting::Loaded { address, .. },
            ..
        } if address == target
    ));

    // Not touched: only the call target and the state say so.
    let lookup = MapLookup::default().with_account(target, eof_code());
    let error = check_block(
        &block,
        &empty(),
        &lookup,
        GuardStage::Import,
        &mut rejections,
    )
    .unwrap_err();
    assert!(matches!(
        error,
        EofGuardError::Eof {
            sighting: EofSighting::Loaded { address, code_hash },
            ..
        } if address == target && code_hash == keccak256(eof_code()).0
    ));

    // Touched with the code hash only (no bytes in the bundle): resolved through the lookup.
    let mut account = account_with_code(target, Some(eof_code()), Some(eof_code()));
    account.info.as_mut().unwrap().code = None;
    account.original_info.as_mut().unwrap().code = None;
    let state = BundleState {
        contracts: Vec::new(),
        accounts: vec![account],
    };
    let error = check_block(
        &block,
        &state,
        &lookup,
        GuardStage::Import,
        &mut rejections,
    )
    .unwrap_err();
    assert!(matches!(error, EofGuardError::Eof { .. }));
}

#[test]
fn a_normal_block_passes() {
    let mut rejections = EofRejections::default();
    let target = [0x11; 20];
    let block = block(vec![
        tx(0, None, legacy_code()),
        tx(1, Some(target), vec![0xEF, 0x00]),
    ]);
    let deployed = [0xDD; 20];
    let state = BundleState {
        contracts: vec![(keccak256(legacy_code()).0, legacy_code())],
        accounts: vec![
            account_with_code(deployed, None, Some(legacy_code())),
            account_with_code(target, Some(legacy_code()), Some(legacy_code())),
        ],
    };
    let lookup = MapLookup::default().with_account(target, legacy_code());
    check_block(
        &block,
        &state,
        &lookup,
        GuardStage::Import,
        &mut rejections,
    )
    .expect("legacy code passes");
    check_built_block(&block, &mut rejections)
        .expect("calldata starting with EF00 is not initcode");
    assert_eq!(
        rejections,
        EofRejections::default(),
        "a clean block records no refusal"
    );
}

#[test]
fn an_unreadable_code_lookup_fails_closed() {
    let mut rejections = EofRejections::default();
    let target = [0xE0; 20];
    let block = block(vec![tx(0, Some(target), Vec::new())]);
    let error = check_block(
        &block,
        &empty(),
        &FailingLookup,
        GuardStage::Import,
        &mut rejections,
    )
    .unwrap_err();
    assert!(matches!(error, EofGuardError::Lookup { .. }));
    assert!(error.to_text().contains(EOF_UNSUPPORTED));
    assert_eq!(
        error.to_text(),
        "EOF code is not supported by this node (revm has no EOF): block 13560376: cannot read account code to clear the block: database closed"
    );
}

#[test]
fn the_metric_counts_every_refusal() {
    let mut rejections = EofRejections::default();
    let block = block(vec![tx(0, None, eof_code())]);
    let _ = check_block(
        &block,
        &empty(),
        &MapLookup::default(),
        GuardStage::Import,
        &mut rejections,
    );
    let _ = check_built_block(&block, &mut rejections);
    assert_eq!(rejections.import, 1);
    assert_eq!(rejections.build, 1);
    assert_eq!(eof_rejections_total(&rejections), 2);
}

#[test]
fn sightings_are_spelled_out() {
    let address: Address = alloy_primitives::Address::from_slice(&[
        0xd8, 0xda, 0x6b, 0xf2, 0x69, 0x64, 0xaf, 0x9d, 0x7e, 0xed, 0x9e, 0x03, 0xe5, 0x34, 0x15,
        0xd3, 0x7a, 0xa9, 0x60, 0x45,
    ])
    .into_array();
    let zeros = "00".repeat(31);
    let mut code_hash = [0u8; 32];
    code_hash[31] = 0xab;
    assert_eq!(
        EofSighting::Deployed {
            address: Some(address),
            code_hash
        }
        .to_text(),
        format!("EOF code deployed at 0xd8dA6BF26964aF9D7eEd9e03E53415D37aA96045 (code hash 0x{zeros}ab)")
    );
    assert_eq!(
        EofSighting::Deployed {
            address: None,
            code_hash
        }
        .to_text(),
        format!("EOF code deployed (code hash 0x{zeros}ab)")
    );
    assert_eq!(
        EofSighting::Loaded { address, code_hash }.to_text(),
        format!("EOF code loaded from 0xd8dA6BF26964aF9D7eEd9e03E53415D37aA96045 (code hash 0x{zeros}ab)")
    );
    assert_eq!(
        EofSighting::Initcode {
            tx_index: 12,
            tx_hash: code_hash
        }
        .to_text(),
        format!("EOF initcode in transaction 12 (0x{zeros}ab)")
    );
}

#[test]
fn only_creations_with_eof_initcode_are_passed_over() {
    assert!(is_eof_create(true, &eof_code()));
    assert!(!is_eof_create(false, &eof_code()));
    assert!(!is_eof_create(true, &legacy_code()));
    assert!(!EofInitcodeError.is_bad_transaction());
    assert_eq!(
        EofInitcodeError.to_text(),
        format!("{EOF_UNSUPPORTED}: create transaction carries EOF initcode")
    );
    assert_eq!(find_eof_initcode(&vec![tx(0, None, legacy_code())]), None);
}

#[test]
fn empty_code_has_its_known_hash() {
    assert_eq!(KECCAK_EMPTY, keccak256([]).0);
}

#[test]
fn accounts_without_code_are_not_looked_up() {
    let empty = alloy_primitives::keccak256([]).0;
    assert_eq!(code_hash_of(None), None);
    assert_eq!(code_hash_of(Some(None)), None);
    assert_eq!(code_hash_of(Some(Some(empty))), None);
    assert_eq!(code_hash_of(Some(Some([7; 32]))), Some([7; 32]));
}
