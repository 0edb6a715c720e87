//! Refuses blocks that carry code in the EVM Object Format.
//!
//! Such code starts with `0xEF00`. It can enter a block in three places: the
//! initcode of a create transaction, the code that the block deploys, and the
//! code that the block loads. Delegation designators start with `0xEF01` and
//! are not object-format code.
use crate::crypto::{keccak256, keccak256_of};
use crate::payload::{BestTransactions, PendingTransaction};
use crate::primitives::{same_key, Address, B256, KECCAK_EMPTY, ZERO_HASH};
use crate::text::{
    address_text, decimal, hash_text, push_address, push_decimal, push_hash,
};
use vstd::prelude::*;
use vstd::string::StringExecFns;

verus! {

/// The first bytes of an object-format container.
pub const EOF_MAGIC: [u8; 2] = [0xEF, 0x00];

/// The fixed part of every refusal.
pub const EOF_UNSUPPORTED: &'static str = "EOF code is not supported by this node (revm has no EOF)";

/// Code that starts with the first two bytes of an object-format container.
pub open spec fn eof_code(code: Seq<u8>) -> bool {
    code.len() >= 2 && code[0] == 0xEF && code[1] == 0x00
}

/// Whether `code` is an object-format container or initcode.
pub fn is_eof_code(code: &[u8]) -> (eof: bool)
    ensures
        eof == eof_code(code@),
{
    code.len() >= 2 && code[0] == EOF_MAGIC[0] && code[1] == EOF_MAGIC[1]
}

/// Where object-format code was found in a block.
#[allow(inconsistent_fields)]
#[derive(Debug, Clone, Copy, PartialEq, Eq)]
pub enum EofSighting {
    /// A create transaction whose initcode is a container.
    Initcode { tx_index: usize, tx_hash: B256 },
    /// Code deployed by the block; the address where the bundle names one.
    Deployed { address: Option<Address>, code_hash: B256 },
    /// Code that the block loaded.
    Loaded { address: Address, code_hash: B256 },
}

impl EofSighting {
    /// The sighting in words.
    pub open spec fn text(self) -> Seq<char> {
        match self {
            EofSighting::Initcode { tx_index, tx_hash } => "EOF initcode in transaction "@ + decimal(
                tx_index as int,
            ) + " ("@ + hash_text(tx_hash) + ")"@,
            EofSighting::Deployed { address: Some(address), code_hash } => "EOF code deployed at "@
                + address_text(address) + " (code hash "@ + hash_text(code_hash) + ")"@,
            EofSighting::Deployed { address: None, code_hash } => "EOF code deployed (code hash "@
                + hash_text(code_hash) + ")"@,
            EofSighting::Loaded { address, code_hash } => "EOF code loaded from "@ + address_text(
                address,
            ) + " (code hash "@ + hash_text(code_hash) + ")"@,
        }
    }

    /// The sighting in words.
    pub fn to_text(&self) -> (s: String)
        ensures
            s@ == self.text(),
    {
        let mut s = String::new();
        match self {
            EofSighting::Initcode { tx_index, tx_hash } => {
                s.append("EOF initcode in transaction ");
                push_decimal(&mut s, *tx_index as u64);
                s.append(" (");
                push_hash(&mut s, tx_hash);
            },
            EofSighting::Deployed { address: Some(address), code_hash } => {
                s.append("EOF code deployed at ");
                push_address(&mut s, address);
                s.append(" (code hash ");
                push_hash(&mut s, code_hash);
            },
            EofSighting::Deployed { address: None, code_hash } => {
                s.append("EOF code deployed (code hash ");
                push_hash(&mut s, code_hash);
            },
            EofSighting::Loaded { address, code_hash } => {
                s.append("EOF code loaded from ");
                push_address(&mut s, address);
                s.append(" (code hash ");
                push_hash(&mut s, code_hash);
            },
        }
        s.append(")");
        assert(s@ =~= self.text());
        s
    }
}

/// Why a block was refused by the guard.
#[derive(Debug, PartialEq, Eq)]
pub enum EofGuardError {
    /// The block carries object-format code.
    Eof { block_number: u64, block_hash: B256, sighting: EofSighting },
    /// The code of an account could not be read, so the block cannot be cleared.
    Lookup { block_number: u64, message: String },
}

impl EofGuardError {
    /// The refusal in words.
    pub open spec fn text(self) -> Seq<char> {
        match self {
            EofGuardError::Eof { block_number, block_hash, sighting } => EOF_UNSUPPORTED@
                + ": block "@ + decimal(block_number as int) + " ("@ + hash_text(block_hash) + "): "@
                + sighting.text() + "; refusing to vote or propose"@,
            EofGuardError::Lookup { block_number, message } => EOF_UNSUPPORTED@ + ": block "@
                + decimal(block_number as int)
                + ": cannot read account code to clear the block: "@ + message@,
        }
    }

    /// The refusal in words.
    pub fn to_text(&self) -> (s: String)
        ensures
            s@ == self.text(),
    {
        let mut s = String::new();
        s.append(EOF_UNSUPPORTED);
        s.append(": block ");
        match self {
            EofGuardError::Eof { block_number, block_hash, sighting } => {
                push_decimal(&mut s, *block_number);
                s.append(" (");
                push_hash(&mut s, block_hash);
                s.append("): ");
                s.append(sighting.to_text().as_str());
                s.append("; refusing to vote or propose");
            },
            EofGuardError::Lookup { block_number, message } => {
                push_decimal(&mut s, *block_number);
                s.append(": cannot read account code to clear the block: ");
                s.append(message.as_str());
            },
        }
        assert(s@ =~= self.text());
        s
    }
}

/// A transaction as the guard reads it; one without a target creates a contract.
#[derive(Debug)]
pub struct GuardedTransaction {
    pub hash: B256,
    pub to: Option<Address>,
    pub input: Vec<u8>,
}

impl GuardedTransaction {
    /// A create transaction whose initcode is a container.
    pub open spec fn carries_eof_initcode(self) -> bool {
        self.to is None && eof_code(self.input@)
    }
}

/// Whether a transaction is a create transaction with a container as initcode,
/// which must not enter a block.
pub fn is_eof_create(is_create: bool, input: &[u8]) -> (eof: bool)
    ensures
        eof == (is_create && eof_code(input@)),
{
    is_create && is_eof_code(input)
}

/// A block as the guard reads it.
#[derive(Debug)]
pub struct GuardedBlock {
    pub number: u64,
    pub hash: B256,
    pub transactions: Vec<GuardedTransaction>,
}

/// The code of an account before or after a block: its hash, and its bytes
/// where the bundle holds them.
#[derive(Debug)]
pub struct CodeInfo {
    pub code_hash: B256,
    pub code: Option<Vec<u8>>,
}

/// An account that a block touched.
#[derive(Debug)]
pub struct BundleAccount {
    pub address: Address,
    pub original_info: Option<CodeInfo>,
    pub info: Option<CodeInfo>,
}

/// What executing a block left behind, in the order in which it is walked.
#[derive(Debug)]
pub struct BundleState {
    pub contracts: Vec<(B256, Vec<u8>)>,
    pub accounts: Vec<BundleAccount>,
}

/// Reads account code for the guard, of one state: while it is used, the same
/// question always has the same answer, be it an error.
pub trait CodeLookup {
    /// What is stored under a code hash.
    closed spec fn stored_code(&self, code_hash: B256) -> Result<Option<Seq<u8>>, Seq<char>> {
        arbitrary()
    }

    /// What code an account has.
    closed spec fn account_code(&self, address: Address) -> Result<Option<Seq<u8>>, Seq<char>> {
        arbitrary()
    }

    /// The code stored under `code_hash`, if any.
    fn code_by_hash(&self, code_hash: &B256) -> (code: Result<Option<Vec<u8>>, String>)
        ensures
            is_code_result(code, self.stored_code(*code_hash)),
    ;

    /// The code of `address`, if it has any.
    fn code_of(&self, address: &Address) -> (code: Result<Option<Vec<u8>>, String>)
        ensures
            is_code_result(code, self.account_code(*address)),
    ;
}

/// A lookup handed out what is there.
pub open spec fn is_code_result(
    got: Result<Option<Vec<u8>>, String>,
    there: Result<Option<Seq<u8>>, Seq<char>>,
) -> bool {
    match got {
        Ok(Some(code)) => there == Ok::<Option<Seq<u8>>, Seq<char>>(Some(code@)),
        Ok(None) => there == Ok::<Option<Seq<u8>>, Seq<char>>(None),
        Err(message) => there == Err::<Option<Seq<u8>>, Seq<char>>(message@),
    }
}

/// Blocks that the guard has refused, in all and by stage. The counts wrap around.
#[derive(Clone, Copy, Debug, PartialEq, Eq, Structural)]
pub struct EofRejections {
    pub total: u64,
    pub import: u64,
    pub build: u64,
}

impl Default for EofRejections {
    fn default() -> (r: Self)
        ensures
            r == (EofRejections { total: 0, import: 0, build: 0 }),
    {
        EofRejections { total: 0, import: 0, build: 0 }
    }
}

/// Where a block was refused.
#[derive(Clone, Copy, Debug, PartialEq, Eq, Structural)]
pub enum GuardStage {
    Import,
    Build,
}

/// Blocks refused since the counts began.
pub fn eof_rejections_total(rejections: &EofRejections) -> (n: u64)
    ensures
        n == rejections.total,
{
    rejections.total
}

/// The counts after one more refusal.
pub open spec fn one_more_rejection(r: EofRejections, stage: GuardStage) -> EofRejections {
    EofRejections {
        total: r.total.wrapping_add(1),
        import: if stage == GuardStage::Import {
            r.import.wrapping_add(1)
        } else {
            r.import
        },
        build: if stage == GuardStage::Build {
            r.build.wrapping_add(1)
        } else {
            r.build
        },
    }
}

fn record_rejection(rejections: &mut EofRejections, stage: GuardStage)
    ensures
        *final(rejections) == one_more_rejection(*old(rejections), stage),
{
    rejections.total = rejections.total.wrapping_add(1);
    match stage {
        GuardStage::Import => {
            rejections.import = rejections.import.wrapping_add(1);
        },
        GuardStage::Build => {
            rejections.build = rejections.build.wrapping_add(1);
        },
    }
}

/// The first create transaction from `from` on with a container as initcode.
pub open spec fn first_eof_initcode(txs: Seq<GuardedTransaction>, from: int) -> Option<EofSighting>
    decreases txs.len() - from,
{
    if from < 0 || from >= txs.len() {
        None
    } else if txs[from].carries_eof_initcode() {
        Some(EofSighting::Initcode { tx_index: from as usize, tx_hash: txs[from].hash })
    } else {
        first_eof_initcode(txs, from + 1)
    }
}

/// The first create transaction whose initcode is a container.
pub fn find_eof_initcode(transactions: &Vec<GuardedTransaction>) -> (sighting: Option<EofSighting>)
    ensures
        sighting == first_eof_initcode(transactions@, 0),
{
    let mut i: usize = 0;
    while i < transactions.len()
        invariant
            i <= transactions@.len(),
            first_eof_initcode(transactions@, 0) == first_eof_initcode(transactions@, i as int),
        decreases transactions@.len() - i,
    {
        let tx = &transactions[i];
        if is_eof_create(tx.to.is_none(), tx.input.as_slice()) {
            return Some(EofSighting::Initcode { tx_index: i, tx_hash: tx.hash });
        }
        i += 1;
    }
    None
}

/// The hash of some code: neither that of no code nor zero.
pub open spec fn code_hash(hash: B256) -> bool {
    hash != KECCAK_EMPTY && hash != ZERO_HASH
}

fn is_code_hash(hash: &B256) -> (is: bool)
    ensures
        is == code_hash(*hash),
{
    !same_key(hash, &KECCAK_EMPTY) && !same_key(hash, &ZERO_HASH)
}

/// The hash under which an account's code is stored. There is none where there is
/// no account, where the account names no code, or where it names that of none.
pub open spec fn stored_under(account: Option<Option<B256>>) -> Option<B256> {
    match account {
        Some(Some(hash)) => if hash != KECCAK_EMPTY {
            Some(hash)
        } else {
            None
        },
        _ => None,
    }
}

/// The hash under which to read an account's code, given the account and the hash
/// that it names, where there are any.
pub fn code_hash_of(account: Option<Option<B256>>) -> (hash: Option<B256>)
    ensures
        hash == stored_under(account),
{
    match account {
        Some(Some(hash)) => if same_key(&hash, &KECCAK_EMPTY) {
            None
        } else {
            Some(hash)
        },
        _ => None,
    }
}

/// What looking for object-format code gives: where it is, that there is none,
/// or that some code could not be read.
pub type Search = Result<Option<EofSighting>, Seq<char>>;

/// The first account from `from` on that has the code hash after the block.
pub open spec fn first_holder(accounts: Seq<BundleAccount>, hash: B256, from: int) -> Option<
    Address,
>
    decreases accounts.len() - from,
{
    if from < 0 || from >= accounts.len() {
        None
    } else if accounts[from].info matches Some(info) && info.code_hash == hash {
        Some(accounts[from].address)
    } else {
        first_holder(accounts, hash, from + 1)
    }
}

/// The first container among the block's new contracts from `from` on.
pub open spec fn first_eof_contract(output: BundleState, from: int) -> Option<EofSighting>
    decreases output.contracts@.len() - from,
{
    if from < 0 || from >= output.contracts@.len() {
        None
    } else if eof_code(output.contracts@[from].1@) {
        let code_hash = output.contracts@[from].0;
        Some(
            EofSighting::Deployed {
                address: first_holder(output.accounts@, code_hash, 0),
                code_hash,
            },
        )
    } else {
        first_eof_contract(output, from + 1)
    }
}

/// The bytes of an account's code: from the bundle, else from the lookup.
pub open spec fn resolved_code<L: CodeLookup + ?Sized>(info: CodeInfo, lookup: &L) -> Result<
    Option<Seq<u8>>,
    Seq<char>,
> {
    match info.code {
        Some(code) => Ok(Some(code@)),
        None => lookup.stored_code(info.code_hash),
    }
}

/// Code that was resolved and is a container.
pub open spec fn resolved_eof(code: Result<Option<Seq<u8>>, Seq<char>>) -> bool {
    code matches Ok(Some(bytes)) && eof_code(bytes)
}

/// The account had this code already before the block.
pub open spec fn had_code(account: BundleAccount, hash: B256) -> bool {
    account.original_info matches Some(info) && code_hash(info.code_hash) && info.code_hash == hash
}

/// What the account's code after the block shows.
pub open spec fn present_sighting<L: CodeLookup + ?Sized>(
    account: BundleAccount,
    lookup: &L,
) -> Search {
    match account.info {
        Some(info) => if !code_hash(info.code_hash) {
            Ok(None)
        } else {
            match resolved_code(info, lookup) {
                Err(message) => Err(message),
                Ok(code) => if !resolved_eof(Ok(code)) {
                    Ok(None)
                } else if had_code(account, info.code_hash) {
                    Ok(
                        Some(
                            EofSighting::Loaded {
                                address: account.address,
                                code_hash: info.code_hash,
                            },
                        ),
                    )
                } else {
                    Ok(
                        Some(
                            EofSighting::Deployed {
                                address: Some(account.address),
                                code_hash: info.code_hash,
                            },
                        ),
                    )
                },
            }
        },
        None => Ok(None),
    }
}

/// What the account's code before the block shows.
pub open spec fn original_sighting<L: CodeLookup + ?Sized>(
    account: BundleAccount,
    lookup: &L,
) -> Search {
    match account.original_info {
        Some(info) => if !code_hash(info.code_hash) {
            Ok(None)
        } else {
            match resolved_code(info, lookup) {
                Err(message) => Err(message),
                Ok(code) => if resolved_eof(Ok(code)) {
                    Ok(
                        Some(
                            EofSighting::Loaded {
                                address: account.address,
                                code_hash: info.code_hash,
                            },
                        ),
                    )
                } else {
                    Ok(None)
                },
            }
        },
        None => Ok(None),
    }
}

/// What one touched account shows: its code after the block, then before it.
pub open spec fn account_sighting<L: CodeLookup + ?Sized>(
    account: BundleAccount,
    lookup: &L,
) -> Search {
    let present = present_sighting(account, lookup);
    if present == Ok::<Option<EofSighting>, Seq<char>>(None) {
        original_sighting(account, lookup)
    } else {
        present
    }
}

/// What the touched accounts from `from` on show.
pub open spec fn accounts_sighting<L: CodeLookup + ?Sized>(
    accounts: Seq<BundleAccount>,
    lookup: &L,
    from: int,
) -> Search
    decreases accounts.len() - from,
{
    if from < 0 || from >= accounts.len() {
        Ok(None)
    } else {
        let found = account_sighting(accounts[from], lookup);
        if found == Ok::<Option<EofSighting>, Seq<char>>(None) {
            accounts_sighting(accounts, lookup, from + 1)
        } else {
            found
        }
    }
}

/// The block touched this account.
pub open spec fn touched(accounts: Seq<BundleAccount>, address: Address) -> bool {
    exists|i: int| 0 <= i < accounts.len() && (#[trigger] accounts[i]).address == address
}

/// What the target of one transaction shows, where the block did not touch it.
pub open spec fn target_sighting<L: CodeLookup + ?Sized>(
    tx: GuardedTransaction,
    accounts: Seq<BundleAccount>,
    lookup: &L,
) -> Search {
    match tx.to {
        None => Ok(None),
        Some(target) => if touched(accounts, target) {
            Ok(None)
        } else {
            match lookup.account_code(target) {
                Err(message) => Err(message),
                Ok(Some(code)) => if eof_code(code) {
                    Ok(
                        Some(
                            EofSighting::Loaded { address: target, code_hash: keccak256_of(code) },
                        ),
                    )
                } else {
                    Ok(None)
                },
                Ok(None) => Ok(None),
            }
        },
    }
}

/// What the targets of the transactions from `from` on show.
pub open spec fn targets_sighting<L: CodeLookup + ?Sized>(
    txs: Seq<GuardedTransaction>,
    accounts: Seq<BundleAccount>,
    lookup: &L,
    from: int,
) -> Search
    decreases txs.len() - from,
{
    if from < 0 || from >= txs.len() {
        Ok(None)
    } else {
        let found = target_sighting(txs[from], accounts, lookup);
        if found == Ok::<Option<EofSighting>, Seq<char>>(None) {
            targets_sighting(txs, accounts, lookup, from + 1)
        } else {
            found
        }
    }
}

/// What the whole block shows: initcode, new contracts, touched accounts, and
/// the targets of its calls, in this order.
pub open spec fn block_sighting<L: CodeLookup + ?Sized>(
    block: GuardedBlock,
    output: BundleState,
    lookup: &L,
) -> Search {
    let initcode = first_eof_initcode(block.transactions@, 0);
    let contract = first_eof_contract(output, 0);
    let accounts = accounts_sighting(output.accounts@, lookup, 0);
    if initcode is Some {
        Ok(initcode)
    } else if contract is Some {
        Ok(contract)
    } else if accounts != Ok::<Option<EofSighting>, Seq<char>>(None) {
        accounts
    } else {
        targets_sighting(block.transactions@, output.accounts@, lookup, 0)
    }
}

/// A search of the code is what it should be.
pub open spec fn is_search(got: Result<Option<EofSighting>, String>, expected: Search) -> bool {
    match got {
        Ok(found) => expected == Ok::<Option<EofSighting>, Seq<char>>(found),
        Err(message) => expected == Err::<Option<EofSighting>, Seq<char>>(message@),
    }
}

fn find_holder(accounts: &Vec<BundleAccount>, hash: &B256) -> (address: Option<Address>)
    ensures
        address == first_holder(accounts@, *hash, 0),
{
    let mut i: usize = 0;
    while i < accounts.len()
        invariant
            i <= accounts@.len(),
            first_holder(accounts@, *hash, 0) == first_holder(accounts@, *hash, i as int),
        decreases accounts@.len() - i,
    {
        if let Some(info) = &accounts[i].info {
            if same_key(&info.code_hash, hash) {
                return Some(accounts[i].address);
            }
        }
        i += 1;
    }
    None
}

fn resolve_eof<L: CodeLookup + ?Sized>(info: &CodeInfo, lookup: &L) -> (eof: Result<bool, String>)
    ensures
        match eof {
            Ok(b) => resolved_code(*info, lookup) is Ok && b == resolved_eof(
                resolved_code(*info, lookup),
            ),
            Err(message) => resolved_code(*info, lookup) == Err::<Option<Seq<u8>>, Seq<char>>(
                message@,
            ),
        },
{
    match &info.code {
        Some(code) => Ok(is_eof_code(code.as_slice())),
        None => match lookup.code_by_hash(&info.code_hash) {
            Ok(Some(code)) => Ok(is_eof_code(code.as_slice())),
            Ok(None) => Ok(false),
            Err(message) => Err(message),
        },
    }
}

fn search_account<L: CodeLookup + ?Sized>(account: &BundleAccount, lookup: &L) -> (found: Result<
    Option<EofSighting>,
    String,
>)
    ensures
        is_search(found, account_sighting(*account, lookup)),
{
    if let Some(info) = &account.info {
        if is_code_hash(&info.code_hash) {
            match resolve_eof(info, lookup) {
                Err(message) => {
                    return Err(message);
                },
                Ok(eof) => {
                    if eof {
                        if let Some(original) = &account.original_info {
                            if is_code_hash(&original.code_hash) && same_key(
                                &original.code_hash,
                                &info.code_hash,
                            ) {
                                return Ok(
                                    Some(
                                        EofSighting::Loaded {
                                            address: account.address,
                                            code_hash: info.code_hash,
                                        },
                                    ),
                                );
                            }
                        }
                        return Ok(
                            Some(
                                EofSighting::Deployed {
                                    address: Some(account.address),
                                    code_hash: info.code_hash,
                                },
                            ),
                        );
                    }
                },
            }
        }
    }
    if let Some(info) = &account.original_info {
        if is_code_hash(&info.code_hash) {
            match resolve_eof(info, lookup) {
                Err(message) => {
                    return Err(message);
                },
                Ok(eof) => {
                    if eof {
                        return Ok(
                            Some(
                                EofSighting::Loaded {
                                    address: account.address,
                                    code_hash: info.code_hash,
                                },
                            ),
                        );
                    }
                },
            }
        }
    }
    Ok(None)
}

fn is_touched(accounts: &Vec<BundleAccount>, address: &Address) -> (is: bool)
    ensures
        is == touched(accounts@, *address),
{
    let mut i: usize = 0;
    while i < accounts.len()
        invariant
            i <= accounts@.len(),
            forall|j: int| 0 <= j < i ==> (#[trigger] accounts@[j]).address != *address,
        decreases accounts@.len() - i,
    {
        if same_key(&accounts[i].address, address) {
            return true;
        }
        i += 1;
    }
    false
}

fn search_target<L: CodeLookup + ?Sized>(
    tx: &GuardedTransaction,
    accounts: &Vec<BundleAccount>,
    lookup: &L,
) -> (found: Result<Option<EofSighting>, String>)
    ensures
        is_search(found, target_sighting(*tx, accounts@, lookup)),
{
    match &tx.to {
        None => Ok(None),
        Some(target) => {
            if is_touched(accounts, target) {
                return Ok(None);
            }
            match lookup.code_of(target) {
                Err(message) => Err(message),
                Ok(None) => Ok(None),
                Ok(Some(code)) => {
                    if is_eof_code(code.as_slice()) {
                        Ok(
                            Some(
                                EofSighting::Loaded {
                                    address: *target,
                                    code_hash: keccak256(code.as_slice()),
                                },
                            ),
                        )
                    } else {
                        Ok(None)
                    }
                },
            }
        },
    }
}

/// Finds object-format code anywhere the block can carry it.
pub fn find_eof_in_block<L: CodeLookup + ?Sized>(
    block: &GuardedBlock,
    output: &BundleState,
    lookup: &L,
) -> (found: Result<Option<EofSighting>, String>)
    ensures
        is_search(found, block_sighting(*block, *output, lookup)),
{
    let initcode = find_eof_initcode(&block.transactions);
    if initcode.is_some() {
        return Ok(initcode);
    }
    let mut i: usize = 0;
    while i < output.contracts.len()
        invariant
            i <= output.contracts@.len(),
            first_eof_initcode(block.transactions@, 0) is None,
            first_eof_contract(*output, 0) == first_eof_contract(*output, i as int),
        decreases output.contracts@.len() - i,
    {
        if is_eof_code(output.contracts[i].1.as_slice()) {
            let code_hash = output.contracts[i].0;
            let address = find_holder(&output.accounts, &code_hash);
            return Ok(Some(EofSighting::Deployed { address, code_hash }));
        }
        i += 1;
    }
    let mut i: usize = 0;
    while i < output.accounts.len()
        invariant
            i <= output.accounts@.len(),
            first_eof_initcode(block.transactions@, 0) is None,
            first_eof_contract(*output, 0) is None,
            accounts_sighting(output.accounts@, lookup, 0) == accounts_sighting(
                output.accounts@,
                lookup,
                i as int,
            ),
        decreases output.accounts@.len() - i,
    {
        match search_account(&output.accounts[i], lookup) {
            Err(message) => {
                return Err(message);
            },
            Ok(found) => {
                if found.is_some() {
                    return Ok(found);
                }
            },
        }
        i += 1;
    }
    let mut i: usize = 0;
    while i < block.transactions.len()
        invariant
            i <= block.transactions@.len(),
            first_eof_initcode(block.transactions@, 0) is None,
            first_eof_contract(*output, 0) is None,
            accounts_sighting(output.accounts@, lookup, 0) == Ok::<Option<EofSighting>, Seq<char>>(
                None,
            ),
            targets_sighting(block.transactions@, output.accounts@, lookup, 0) == targets_sighting(
                block.transactions@,
                output.accounts@,
                lookup,
                i as int,
            ),
        decreases block.transactions@.len() - i,
    {
        match search_target(&block.transactions[i], &output.accounts, lookup) {
            Err(message) => {
                return Err(message);
            },
            Ok(found) => {
                if found.is_some() {
                    return Ok(found);
                }
            },
        }
        i += 1;
    }
    Ok(None)
}

/// Refuses `block` when it carries object-format code, or when some code could
/// not be read; counts the refusal.
pub fn check_block<L: CodeLookup + ?Sized>(
    block: &GuardedBlock,
    output: &BundleState,
    lookup: &L,
    stage: GuardStage,
    rejections: &mut EofRejections,
) -> (cleared: Result<(), EofGuardError>)
    ensures
        match block_sighting(*block, *output, lookup) {
            Ok(None) => cleared is Ok,
            Ok(Some(sighting)) => cleared == Err::<(), EofGuardError>(
                EofGuardError::Eof {
                    block_number: block.number,
                    block_hash: block.hash,
                    sighting,
                },
            ),
            Err(message) => cleared matches Err(EofGuardError::Lookup { block_number, message: m })
                && block_number == block.number && m@ == message,
        },
        *final(rejections) == if cleared is Ok {
            *old(rejections)
        } else {
            one_more_rejection(*old(rejections), stage)
        },
{
    let error = match find_eof_in_block(block, output, lookup) {
        Ok(None) => {
            return Ok(());
        },
        Ok(Some(sighting)) => EofGuardError::Eof {
            block_number: block.number,
            block_hash: block.hash,
            sighting,
        },
        Err(message) => EofGuardError::Lookup { block_number: block.number, message },
    };
    record_rejection(rejections, stage);
    Err(error)
}

/// Refuses a block that was just built when one of its create transactions
/// carries a container as initcode; counts the refusal. Deployed and loaded
/// code is checked when the block is imported.
pub fn check_built_block(block: &GuardedBlock, rejections: &mut EofRejections) -> (cleared: Result<
    (),
    EofGuardError,
>)
    ensures
        match first_eof_initcode(block.transactions@, 0) {
            None => cleared is Ok,
            Some(sighting) => cleared == Err::<(), EofGuardError>(
                EofGuardError::Eof {
                    block_number: block.number,
                    block_hash: block.hash,
                    sighting,
                },
            ),
        },
        *final(rejections) == if cleared is Ok {
            *old(rejections)
        } else {
            one_more_rejection(*old(rejections), GuardStage::Build)
        },
{
    match find_eof_initcode(&block.transactions) {
        Some(sighting) => {
            record_rejection(rejections, GuardStage::Build);
            Err(
                EofGuardError::Eof {
                    block_number: block.number,
                    block_hash: block.hash,
                    sighting,
                },
            )
        },
        None => Ok(()),
    }
}

/// The pool error of a create transaction that was passed over.
#[derive(Debug, Clone, Copy, PartialEq, Eq, Structural)]
pub struct EofInitcodeError;

impl EofInitcodeError {
    /// Passing the transaction over does not hold it against its sender.
    pub fn is_bad_transaction(&self) -> (bad: bool)
        ensures
            !bad,
    {
        false
    }

    /// The error in words.
    pub fn to_text(&self) -> (s: String)
        ensures
            s@ == EOF_UNSUPPORTED@ + ": create transaction carries EOF initcode"@,
    {
        let mut s = String::new();
        s.append(EOF_UNSUPPORTED);
        s.append(": create transaction carries EOF initcode");
        assert(s@ =~= EOF_UNSUPPORTED@ + ": create transaction carries EOF initcode"@);
        s
    }
}

/// Code could be read and is not a container.
pub open spec fn harmless(code: Result<Option<Seq<u8>>, Seq<char>>) -> bool {
    code is Ok && !resolved_eof(code)
}

/// The code of an account at one moment is absent or harmless.
pub open spec fn harmless_info<L: CodeLookup + ?Sized>(info: Option<CodeInfo>, lookup: &L) -> bool {
    info matches Some(i) ==> code_hash(i.code_hash) ==> harmless(resolved_code(i, lookup))
}

/// Nothing that the block creates, deploys, touches or calls is object-format
/// code, and all of it could be read.
pub open spec fn carries_no_eof<L: CodeLookup + ?Sized>(
    block: GuardedBlock,
    output: BundleState,
    lookup: &L,
) -> bool {
    &&& forall|i: int|
        0 <= i < block.transactions@.len() ==> !(
        #[trigger] block.transactions@[i]).carries_eof_initcode()
    &&& forall|i: int|
        0 <= i < output.contracts@.len() ==> !eof_code((#[trigger] output.contracts@[i]).1@)
    &&& forall|i: int|
        0 <= i < output.accounts@.len() ==> harmless_info(
            (#[trigger] output.accounts@[i]).info,
            lookup,
        ) && harmless_info(output.accounts@[i].original_info, lookup)
    &&& forall|i: int|
        0 <= i < block.transactions@.len() ==> ((#[trigger] block.transactions@[i]).to matches Some(
            target,
        ) ==> touched(output.accounts@, target) || harmless(lookup.account_code(target)))
}

proof fn no_initcode_from(txs: Seq<GuardedTransaction>, from: int)
    requires
        0 <= from <= txs.len(),
    ensures
        first_eof_initcode(txs, from) is None <==> forall|i: int|
            from <= i < txs.len() ==> !(#[trigger] txs[i]).carries_eof_initcode(),
    decreases txs.len() - from,
{
    if from < txs.len() {
        no_initcode_from(txs, from + 1);
    }
}

proof fn no_contract_from(output: BundleState, from: int)
    requires
        0 <= from <= output.contracts@.len(),
    ensures
        first_eof_contract(output, from) is None <==> forall|i: int|
            from <= i < output.contracts@.len() ==> !eof_code(
                (#[trigger] output.contracts@[i]).1@,
            ),
    decreases output.contracts@.len() - from,
{
    if from < output.contracts@.len() {
        no_contract_from(output, from + 1);
    }
}

proof fn no_account_from<L: CodeLookup + ?Sized>(
    accounts: Seq<BundleAccount>,
    lookup: &L,
    from: int,
)
    requires
        0 <= from <= accounts.len(),
    ensures
        accounts_sighting(accounts, lookup, from) == Ok::<Option<EofSighting>, Seq<char>>(None)
            <==> forall|i: int|
            from <= i < accounts.len() ==> harmless_info((#[trigger] accounts[i]).info, lookup)
                && harmless_info(accounts[i].original_info, lookup),
    decreases accounts.len() - from,
{
    if from < accounts.len() {
        no_account_from(accounts, lookup, from + 1);
    }
}

proof fn no_target_from<L: CodeLookup + ?Sized>(
    txs: Seq<GuardedTransaction>,
    accounts: Seq<BundleAccount>,
    lookup: &L,
    from: int,
)
    requires
        0 <= from <= txs.len(),
    ensures
        targets_sighting(txs, accounts, lookup, from) == Ok::<Option<EofSighting>, Seq<char>>(None)
            <==> forall|i: int|
            from <= i < txs.len() ==> ((#[trigger] txs[i]).to matches Some(target) ==> touched(
                accounts,
                target,
            ) || harmless(lookup.account_code(target))),
    decreases txs.len() - from,
{
    if from < txs.len() {
        no_target_from(txs, accounts, lookup, from + 1);
    }
}

/// The guard clears a block if and only if the block carries no object-format
/// code anywhere and all the code it depends on could be read.
pub proof fn guard_is_exact<L: CodeLookup + ?Sized>(
    block: GuardedBlock,
    output: BundleState,
    lookup: &L,
)
    ensures
        block_sighting(block, output, lookup) == Ok::<Option<EofSighting>, Seq<char>>(None)
            <==> carries_no_eof(block, output, lookup),
{
    no_initcode_from(block.transactions@, 0);
    no_contract_from(output, 0);
    no_account_from(output.accounts@, lookup, 0);
    no_target_from(block.transactions@, output.accounts@, lookup, 0);
}

/// A block that the builder refuses is refused on import too, for the same reason.
pub proof fn built_refusal_holds_on_import<L: CodeLookup + ?Sized>(
    block: GuardedBlock,
    output: BundleState,
    lookup: &L,
)
    ensures
        first_eof_initcode(block.transactions@, 0) matches Some(sighting) ==> block_sighting(
            block,
            output,
            lookup,
        ) == Ok::<Option<EofSighting>, Seq<char>>(Some(sighting)),
{
}

/// A transaction of the pool that creates a contract by object-format code.
pub open spec fn creates_eof(tx: PendingTransaction) -> bool {
    tx.is_create && (tx.input_start matches Some(start) && eof_code(start@))
}

/// Whether a transaction of the pool creates a contract by object-format code.
pub fn creates_eof_contract(tx: &PendingTransaction) -> (eof: bool)
    ensures
        eof == creates_eof(*tx),
{
    match &tx.input_start {
        Some(start) => is_eof_create(tx.is_create, start.as_slice()),
        None => false,
    }
}

/// The transactions that are left when those that create a contract by
/// object-format code are taken out, and with each what its sender sends after
/// it.
pub open spec fn without_eof(txs: Seq<PendingTransaction>, refused: Set<Address>) -> Seq<
    PendingTransaction,
>
    decreases txs.len(),
{
    if txs.len() == 0 {
        Seq::empty()
    } else if refused.contains(txs[0].sender) {
        without_eof(txs.drop_first(), refused)
    } else if creates_eof(txs[0]) {
        without_eof(txs.drop_first(), refused.insert(txs[0].sender))
    } else {
        seq![txs[0]] + without_eof(txs.drop_first(), refused)
    }
}

proof fn refusing_is_filtering(txs: Seq<PendingTransaction>, refused: Set<Address>, sender: Address)
    ensures
        without_eof(txs, refused.insert(sender)) == without_eof(
            txs.filter(|tx: PendingTransaction| tx.sender != sender),
            refused,
        ),
    decreases txs.len(),
{
    let others = |tx: PendingTransaction| tx.sender != sender;
    if txs.len() == 0 {
        assert(txs.filter(others) =~= Seq::empty()) by {
            reveal(Seq::filter);
        }
    } else {
        let first = txs[0];
        let rest = txs.drop_first();
        let one = seq![first];
        assert(txs =~= one + rest);
        Seq::filter_distributes_over_add(one, rest, others);
        assert(one.filter(others) =~= if first.sender != sender {
            one
        } else {
            Seq::empty()
        }) by {
            reveal(Seq::filter);
            assert(one.drop_last() =~= Seq::empty());
            assert(one.drop_last().filter(others) =~= Seq::empty());
        }
        let kept = rest.filter(others);
        refusing_is_filtering(rest, refused, sender);
        if first.sender == sender {
            assert(txs.filter(others) =~= kept);
        } else {
            assert(txs.filter(others) =~= one + kept);
            assert((one + kept).drop_first() =~= kept);
            refusing_is_filtering(rest, refused.insert(first.sender), sender);
            assert(refused.insert(first.sender).insert(sender) =~= refused.insert(sender).insert(
                first.sender,
            ));
        }
    }
}

/// Transactions for a block in an order of some kind, without those that create
/// a contract by object-format code.
pub struct EofFilteringTransactions<I: BestTransactions> {
    inner: I,
}

impl<I: BestTransactions> EofFilteringTransactions<I> {
    /// The transactions that are filtered.
    pub closed spec fn inner(self) -> I {
        self.inner
    }

    /// The order that is filtered can be walked.
    pub open spec fn wf(self) -> bool {
        self.inner().walkable()
    }

    /// What further calls of `next` hand out.
    pub open spec fn remaining(self) -> Seq<PendingTransaction> {
        without_eof(self.inner().upcoming(self.inner().passes_over_blobs()), Set::empty())
    }

    /// Filters transactions.
    pub fn new(inner: I) -> (filtered: Self)
        requires
            inner.walkable(),
        ensures
            filtered.wf(),
            filtered.inner() == inner,
    {
        EofFilteringTransactions { inner }
    }

    /// Hands out the next transaction that is not refused. A refused one counts
    /// as invalid, so that nothing of its sender follows.
    pub fn next(&mut self) -> (tx: Option<PendingTransaction>)
        requires
            old(self).wf(),
        ensures
            final(self).wf(),
            final(self).inner().passes_over_blobs() == old(self).inner().passes_over_blobs(),
            match tx {
                Some(t) => old(self).remaining().len() > 0 && t == old(self).remaining()[0]
                    && final(self).remaining() == old(self).remaining().drop_first()
                    && !creates_eof(t),
                None => old(self).remaining().len() == 0,
            },
    {
        let ghost skips = self.inner.passes_over_blobs();
        loop
            invariant
                self.wf(),
                skips == old(self).inner().passes_over_blobs(),
                self.inner().passes_over_blobs() == skips,
                self.remaining() == old(self).remaining(),
            decreases self.inner().upcoming(skips).len(),
        {
            let ghost before = self.inner.upcoming(skips);
            match self.inner.next() {
                Some(tx) => {
                    let ghost rest = self.inner.upcoming(skips);
                    if creates_eof_contract(&tx) {
                        self.inner.mark_invalid(&tx);
                        proof {
                            refusing_is_filtering(rest, Set::empty(), tx.sender);
                            filter_is_shorter(rest, tx.sender);
                        }
                        continue;
                    }
                    assert(old(self).remaining() =~= seq![tx] + self.remaining());
                    assert(old(self).remaining().drop_first() =~= self.remaining());
                    return Some(tx);
                },
                None => {
                    return None;
                },
            }
        }
    }

    /// Passes over everything that is left of the sender of `tx`.
    pub fn mark_invalid(&mut self, tx: &PendingTransaction)
        requires
            old(self).wf(),
        ensures
            final(self).wf(),
            final(self).inner().passes_over_blobs() == old(self).inner().passes_over_blobs(),
            final(self).remaining() == old(self).remaining().filter(
                |other: PendingTransaction| other.sender != tx.sender,
            ),
    {
        proof {
            let before = self.inner.upcoming(self.inner.passes_over_blobs());
            refusing_is_filtering(before, Set::empty(), tx.sender);
            refused_are_left_out(before, Set::empty(), tx.sender);
        }
        self.inner.mark_invalid(tx);
    }

    /// Hands out nothing that comes later than now.
    pub fn no_updates(&mut self)
        requires
            old(self).wf(),
        ensures
            final(self).wf(),
            final(self).inner().passes_over_blobs() == old(self).inner().passes_over_blobs(),
            final(self).remaining() == old(self).remaining(),
    {
        self.inner.no_updates();
    }

    /// Sets whether blob transactions are passed over.
    pub fn set_skip_blobs(&mut self, skip_blobs: bool)
        requires
            old(self).wf(),
        ensures
            final(self).wf(),
            final(self).inner().passes_over_blobs() == skip_blobs,
            final(self).remaining() == without_eof(
                old(self).inner().upcoming(skip_blobs),
                Set::empty(),
            ),
    {
        self.inner.set_skip_blobs(skip_blobs);
    }
}

proof fn filter_is_shorter(txs: Seq<PendingTransaction>, sender: Address)
    ensures
        txs.filter(|tx: PendingTransaction| tx.sender != sender).len() <= txs.len(),
    decreases txs.len(),
{
    reveal(Seq::filter);
    if txs.len() > 0 {
        filter_is_shorter(txs.drop_last(), sender);
    }
}

proof fn refused_are_left_out(txs: Seq<PendingTransaction>, refused: Set<Address>, sender: Address)
    ensures
        without_eof(txs, refused.insert(sender)) == without_eof(txs, refused).filter(
            |tx: PendingTransaction| tx.sender != sender,
        ),
    decreases txs.len(),
{
    let others = |tx: PendingTransaction| tx.sender != sender;
    if txs.len() == 0 {
        assert(Seq::<PendingTransaction>::empty().filter(others) =~= Seq::empty()) by {
            reveal(Seq::filter);
        }
    } else {
        let first = txs[0];
        let rest = txs.drop_first();
        if refused.contains(first.sender) {
            refused_are_left_out(rest, refused, sender);
        } else if creates_eof(first) {
            refused_are_left_out(rest, refused.insert(first.sender), sender);
            assert(refused.insert(first.sender).insert(sender) =~= refused.insert(sender).insert(
                first.sender,
            ));
            if first.sender == sender {
                assert(refused.insert(sender).insert(first.sender) =~= refused.insert(sender));
            }
        } else {
            refused_are_left_out(rest, refused, sender);
            let one = seq![first];
            let tail = without_eof(rest, refused);
            Seq::filter_distributes_over_add(one, tail, others);
            assert(one.filter(others) =~= if first.sender != sender {
                one
            } else {
                Seq::empty()
            }) by {
                reveal(Seq::filter);
                assert(one.drop_last() =~= Seq::empty());
                assert(one.drop_last().filter(others) =~= Seq::empty());
            }
            if first.sender == sender {
                assert(Seq::<PendingTransaction>::empty() + tail.filter(others) =~= tail.filter(
                    others,
                ));
            }
        }
    }
}

/// No transaction that is left creates a contract by object-format code: the
/// builder never puts one into a block.
pub proof fn nothing_left_creates_eof(txs: Seq<PendingTransaction>, refused: Set<Address>)
    ensures
        forall|i: int|
            0 <= i < without_eof(txs, refused).len() ==> !creates_eof(
                #[trigger] without_eof(txs, refused)[i],
            ),
    decreases txs.len(),
{
    if txs.len() > 0 {
        let rest = txs.drop_first();
        nothing_left_creates_eof(rest, refused);
        nothing_left_creates_eof(rest, refused.insert(txs[0].sender));
        let left = without_eof(txs, refused);
        assert forall|i: int| 0 <= i < left.len() implies !creates_eof(
            #[trigger] left[i],
        ) by {
            if refused.contains(txs[0].sender) {
                assert(left[i] == without_eof(rest, refused)[i]);
            } else if creates_eof(txs[0]) {
                assert(left[i] == without_eof(rest, refused.insert(txs[0].sender))[i]);
            } else if i > 0 {
                assert(left[i] == without_eof(rest, refused)[i - 1]);
            } else {
                assert(left[i] == txs[0]);
            }
        }
    }
}

/// Code that begins with the bytes EF and 00.
pub open spec fn begins_ef00(code: Seq<u8>) -> bool {
    code.len() >= 2 && code[0] == 239 && code[1] == 0
}

/// What is known of an account's code can be read, and does not begin with EF 00;
/// accounts without code are fine.
pub open spec fn reads_clean<L: CodeLookup + ?Sized>(info: Option<CodeInfo>, lookup: &L) -> bool {
    info matches Some(i) ==> i.code_hash == KECCAK_EMPTY || i.code_hash == ZERO_HASH || match i.code {
        Some(code) => !begins_ef00(code@),
        None => lookup.stored_code(i.code_hash) matches Ok(found) && (found matches Some(code)
            ==> !begins_ef00(code)),
    }
}

/// Only code that begins with EF 00 is object-format code; a delegation, which
/// begins with EF 01, is not.
pub proof fn only_ef00_is_eof(code: Seq<u8>)
    ensures
        eof_code(code) <==> begins_ef00(code),
        code.len() >= 2 && code[1] == 1 ==> !eof_code(code),
        code.len() < 2 ==> !eof_code(code),
{
}

/// The guard clears a block exactly where no initcode, no deployed code, no code of
/// a touched account, before or after, and no code of a called account begins with
/// EF 00, and all that code could be read.
pub proof fn blocks_with_ef00_are_refused<L: CodeLookup + ?Sized>(
    block: GuardedBlock,
    output: BundleState,
    lookup: &L,
)
    ensures
        block_sighting(block, output, lookup) == Ok::<Option<EofSighting>, Seq<char>>(None) <==> {
            &&& forall|i: int|
                0 <= i < block.transactions@.len() && (#[trigger] block.transactions@[i]).to is None
                    ==> !begins_ef00(block.transactions@[i].input@)
            &&& forall|i: int|
                0 <= i < output.contracts@.len() ==> !begins_ef00(
                    (#[trigger] output.contracts@[i]).1@,
                )
            &&& forall|i: int|
                0 <= i < output.accounts@.len() ==> reads_clean(
                    (#[trigger] output.accounts@[i]).info,
                    lookup,
                ) && reads_clean(output.accounts@[i].original_info, lookup)
            &&& forall|i: int|
                0 <= i < block.transactions@.len() ==> ((
                #[trigger] block.transactions@[i]).to matches Some(target) ==> (exists|k: int|
                    0 <= k < output.accounts@.len() && (#[trigger] output.accounts@[k]).address
                        == target) || (lookup.account_code(target) matches Ok(found) && (
                found matches Some(code) ==> !begins_ef00(code))))
        },
{
    guard_is_exact(block, output, lookup);
    let clear = block_sighting(block, output, lookup) == Ok::<Option<EofSighting>, Seq<char>>(None);
    let txs = block.transactions@;
    assert forall|i: int| 0 <= i < txs.len() implies (!(#[trigger] txs[i]).carries_eof_initcode()
        <==> (txs[i].to is None ==> !begins_ef00(txs[i].input@))) by {}
    assert forall|i: int| 0 <= i < output.accounts@.len() implies (harmless_info(
        (#[trigger] output.accounts@[i]).info,
        lookup,
    ) <==> reads_clean(output.accounts@[i].info, lookup)) && (harmless_info(
        output.accounts@[i].original_info,
        lookup,
    ) <==> reads_clean(output.accounts@[i].original_info, lookup)) by {}
    if clear {
        assert forall|i: int| 0 <= i < txs.len() && (#[trigger] txs[i]).to is None implies !begins_ef00(
            txs[i].input@,
        ) by {
            assert(!txs[i].carries_eof_initcode());
        }
    }
}

/// A refused create transaction is the first of its block whose initcode begins with
/// EF 00, and is named by its place and its hash.
pub proof fn the_first_initcode_is_named(txs: Seq<GuardedTransaction>, from: int)
    requires
        0 <= from <= txs.len(),
        txs.len() <= usize::MAX,
    ensures
        match first_eof_initcode(txs, from) {
            Some(sighting) => sighting matches EofSighting::Initcode { tx_index, tx_hash } && {
                &&& from <= tx_index < txs.len()
                &&& txs[tx_index as int].to is None
                &&& begins_ef00(txs[tx_index as int].input@)
                &&& tx_hash == txs[tx_index as int].hash
                &&& forall|i: int|
                    from <= i < tx_index ==> (#[trigger] txs[i]).to is Some || !begins_ef00(
                        txs[i].input@,
                    )
            },
            None => forall|i: int|
                from <= i < txs.len() ==> (#[trigger] txs[i]).to is Some || !begins_ef00(
                    txs[i].input@,
                ),
        },
    decreases txs.len() - from,
{
    if from < txs.len() && !txs[from].carries_eof_initcode() {
        the_first_initcode_is_named(txs, from + 1);
    }
}

/// Deployed code is named by its hash, and by the first account that holds it.
pub proof fn the_first_deployed_code_is_named(output: BundleState, from: int)
    requires
        0 <= from <= output.contracts@.len(),
    ensures
        match first_eof_contract(output, from) {
            Some(sighting) => sighting matches EofSighting::Deployed { address, code_hash } && {
                &&& exists|i: int|
                    from <= i < output.contracts@.len() && (#[trigger] output.contracts@[i]).0
                        == code_hash && begins_ef00(output.contracts@[i].1@)
                &&& address == first_holder(output.accounts@, code_hash, 0)
            },
            None => forall|i: int|
                from <= i < output.contracts@.len() ==> !begins_ef00(
                    (#[trigger] output.contracts@[i]).1@,
                ),
        },
    decreases output.contracts@.len() - from,
{
    if from < output.contracts@.len() && !eof_code(output.contracts@[from].1@) {
        the_first_deployed_code_is_named(output, from + 1);
    }
}

/// The holder of a code is the first account, as the block left them, with its hash.
pub proof fn holders_have_the_code(accounts: Seq<BundleAccount>, hash: B256, from: int) -> (at: int)
    requires
        0 <= from <= accounts.len(),
    ensures
        match first_holder(accounts, hash, from) {
            Some(address) => {
                &&& from <= at < accounts.len()
                &&& accounts[at].address == address
                &&& accounts[at].info matches Some(info) && info.code_hash == hash
                &&& forall|i: int|
                    from <= i < at ==> ((#[trigger] accounts[i]).info matches Some(info)
                        ==> info.code_hash != hash)
            },
            None => forall|i: int|
                from <= i < accounts.len() ==> ((#[trigger] accounts[i]).info matches Some(info)
                    ==> info.code_hash != hash),
        },
    decreases accounts.len() - from,
{
    if from >= accounts.len() || (accounts[from].info matches Some(info) && info.code_hash == hash) {
        from
    } else {
        holders_have_the_code(accounts, hash, from + 1)
    }
}

/// An account whose code is found is named with the hash of that code: as one that
/// deployed it where the account had other code before, or none, and else as one it
/// was loaded from.
pub proof fn accounts_are_named_with_their_code<L: CodeLookup + ?Sized>(
    account: BundleAccount,
    lookup: &L,
)
    ensures
        account_sighting(account, lookup) matches Ok(Some(sighting)) ==> match sighting {
            EofSighting::Initcode { .. } => false,
            EofSighting::Deployed { address, code_hash } => address == Some(account.address) && (
            account.info matches Some(info) && info.code_hash == code_hash) && !(
            account.original_info matches Some(info) && info.code_hash == code_hash) && !reads_clean(
                account.info,
                lookup,
            ),
            EofSighting::Loaded { address, code_hash } => address == account.address && (
            account.original_info matches Some(info) && info.code_hash == code_hash),
        },
{
}

/// A stored code hash is that of code: the hash of no code is none.
pub proof fn empty_code_is_no_code(account: Option<Option<B256>>, hash: B256)
    ensures
        stored_under(account) == Some(hash) <==> account == Some(Some(hash)) && hash
            != KECCAK_EMPTY,
{
}

/// A refusal is counted once in all, and once for its stage.
pub proof fn refusals_are_counted_by_stage(r: EofRejections, stage: GuardStage)
    requires
        r.total < u64::MAX,
        r.import < u64::MAX,
        r.build < u64::MAX,
    ensures
        ({
            let after = one_more_rejection(r, stage);
            &&& after.total == r.total + 1
            &&& after.import + after.build == r.import + r.build + 1
            &&& stage == GuardStage::Import ==> after.import == r.import + 1
            &&& stage == GuardStage::Build ==> after.build == r.build + 1
        }),
{
}

/// Of the pool's transactions exactly those are left out that create a contract by
/// code that begins with EF 00, and what their senders send after them; the others
/// keep their order.
pub proof fn only_eof_senders_are_left_out(
    txs: Seq<PendingTransaction>,
    refused: Set<Address>,
) -> (at: Seq<int>)
    ensures
        ({
            let out = without_eof(txs, refused);
            &&& out.len() == at.len()
            &&& forall|i: int, j: int| 0 <= i < j < at.len() ==> #[trigger] at[i] < #[trigger] at[j]
            &&& forall|i: int|
                0 <= i < at.len() ==> 0 <= #[trigger] at[i] < txs.len() && out[i] == txs[at[i]]
                    && !refused.contains(out[i].sender) && !(out[i].is_create && (
                out[i].input_start matches Some(start) && begins_ef00(start@)))
            &&& forall|k: int|
                0 <= k < txs.len() && !refused.contains((#[trigger] txs[k]).sender) && (forall|
                    j: int,
                |
                    0 <= j <= k && (#[trigger] txs[j]).sender == txs[k].sender ==> !(
                    txs[j].is_create && (txs[j].input_start matches Some(start) && begins_ef00(
                        start@,
                    )))) ==> at.contains(k)
        }),
    decreases txs.len(),
{
    if txs.len() == 0 {
        Seq::empty()
    } else {
        let tx = txs[0];
        let rest = txs.drop_first();
        let passed = refused.contains(tx.sender);
        let stopped = !passed && creates_eof(tx);
        let then_refused = if stopped {
            refused.insert(tx.sender)
        } else {
            refused
        };
        let tail = only_eof_senders_are_left_out(rest, then_refused);
        let shifted = Seq::new(tail.len(), |i: int| tail[i] + 1);
        let at = if passed || stopped {
            shifted
        } else {
            seq![0int] + shifted
        };
        let out = without_eof(txs, refused);
        let later = without_eof(rest, then_refused);
        assert forall|i: int| 0 <= i < at.len() implies 0 <= #[trigger] at[i] < txs.len() && out[i]
            == txs[at[i]] && !refused.contains(out[i].sender) && !(out[i].is_create && (
        out[i].input_start matches Some(start) && begins_ef00(start@))) by {
            if passed || stopped {
                assert(tail[i] + 1 == at[i]);
                assert(later[i] == rest[tail[i]]);
            } else if i > 0 {
                assert(tail[i - 1] + 1 == at[i]);
                assert(later[i - 1] == rest[tail[i - 1]]);
            }
        }
        assert forall|i: int, j: int| 0 <= i < j < at.len() implies #[trigger] at[i]
            < #[trigger] at[j] by {
            if passed || stopped {
                assert(tail[i] < tail[j]);
            } else if i > 0 {
                assert(tail[i - 1] < tail[j - 1]);
            } else {
                assert(tail[j - 1] >= 0);
            }
        }
        assert forall|k: int|
            0 <= k < txs.len() && !refused.contains((#[trigger] txs[k]).sender) && (forall|j: int|
                0 <= j <= k && (#[trigger] txs[j]).sender == txs[k].sender ==> !(txs[j].is_create
                    && (txs[j].input_start matches Some(start) && begins_ef00(start@)))) implies at.contains(
            k,
        ) by {
            if k == 0 {
                assert(!stopped);
                assert(at[0] == 0);
            } else {
                assert(rest[k - 1] == txs[k]);
                if stopped {
                    assert(txs[0].sender != txs[k].sender);
                }
                assert forall|j: int|
                    0 <= j <= k - 1 && (#[trigger] rest[j]).sender == rest[k - 1].sender implies !(
                rest[j].is_create && (rest[j].input_start matches Some(start) && begins_ef00(
                    start@,
                ))) by {
                    assert(txs[j + 1] == rest[j]);
                }
                assert(tail.contains(k - 1));
                let t = choose|t: int| 0 <= t < tail.len() && tail[t] == k - 1;
                assert(shifted[t] == k);
                if passed || stopped {
                    assert(at[t] == k);
                } else {
                    assert(at[t + 1] == k);
                }
            }
        }
        at
    }
}

} // verus!
