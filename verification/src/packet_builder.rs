//! Packets that let a phone execute a block: the state it reads, found by
//! resolving hashed keys, and the block itself.
use crate::crypto::{keccak256, keccak256_of};
use crate::header::{header_rlp, Header, HeaderState};
use crate::keyed::ByteMap;
use crate::primitives::{copy_bytes, Address, B256, KECCAK_EMPTY, ZERO_ADDRESS, ZERO_HASH};
use crate::text::{hash_text, push_hash};
use vstd::prelude::*;
use vstd::string::StringExecFns;

verus! {

/// Why a packet could not be built: a hashed key whose key is not known.
#[derive(Clone, Copy, Debug, PartialEq, Eq)]
pub enum PacketBuildError {
    MissingAccountPreimage { hashed: B256 },
    MissingStoragePreimage { hashed: B256 },
}

/// The text of an error.
pub open spec fn build_error_text(error: PacketBuildError) -> Seq<char> {
    match error {
        PacketBuildError::MissingAccountPreimage { hashed } =>
            "missing preimage for hashed account key "@ + hash_text(hashed),
        PacketBuildError::MissingStoragePreimage { hashed } =>
            "missing preimage for hashed storage key "@ + hash_text(hashed),
    }
}

impl PacketBuildError {
    /// The text of the error.
    pub fn to_text(&self) -> (text: String)
        ensures
            text@ == build_error_text(*self),
    {
        let mut text = String::new();
        match self {
            PacketBuildError::MissingAccountPreimage { hashed } => {
                text.append("missing preimage for hashed account key ");
                push_hash(&mut text, hashed);
            },
            PacketBuildError::MissingStoragePreimage { hashed } => {
                text.append("missing preimage for hashed storage key ");
                push_hash(&mut text, hashed);
            },
        }
        assert(text@ =~= build_error_text(*self));
        text
    }
}

/// An account as a block leaves it. Numbers of 256 bits are given by their bytes,
/// the highest first.
#[derive(Clone, Copy, Debug, PartialEq, Eq)]
pub struct Account {
    pub nonce: u64,
    pub balance: B256,
    pub bytecode_hash: Option<B256>,
}

/// What a block reads, under hashed keys.
pub struct ExecutionWitness {
    /// The accounts under their hashed addresses; none for a destroyed one.
    pub accounts: Vec<(B256, Option<Account>)>,
    /// The storage under the hashed addresses: values under hashed slots.
    pub storages: ByteMap<32, Vec<(B256, B256)>>,
    /// The code that ran.
    pub codes: Vec<Vec<u8>>,
    /// The keys behind the hashes: addresses and slots.
    pub keys: Vec<Vec<u8>>,
    pub lowest_block_number: Option<u64>,
}

/// A block as it is packed.
#[derive(Debug)]
pub struct PacketBlock {
    pub hash: B256,
    pub header: Header,
    /// The encoded transactions.
    pub transactions: Vec<Vec<u8>>,
}

/// An account in a packet.
#[derive(Debug)]
pub struct WitnessAccount {
    pub address: Address,
    pub nonce: u64,
    pub balance: B256,
    pub code_hash: B256,
    /// Values under slots.
    pub storage: Vec<(B256, B256)>,
}

/// What a phone needs to execute a block.
#[derive(Debug)]
pub struct VerificationPacket {
    pub block_hash: B256,
    pub block_number: u64,
    pub parent_hash: B256,
    pub state_root: B256,
    pub transactions_root: B256,
    pub receipts_root: B256,
    pub timestamp: u64,
    pub gas_limit: u64,
    pub beneficiary: Address,
    pub header_rlp: Vec<u8>,
    pub transactions: Vec<Vec<u8>>,
    pub witness_accounts: Vec<WitnessAccount>,
    pub uncached_bytecodes: Vec<(B256, Vec<u8>)>,
    pub lowest_block_number: Option<u64>,
    pub block_hashes: Vec<(u64, B256)>,
}

/// The contents of an account in a packet.
#[verifier::ext_equal]
pub ghost struct AccountState {
    pub address: Seq<u8>,
    pub nonce: u64,
    pub balance: B256,
    pub code_hash: B256,
    pub storage: Seq<(Seq<u8>, B256)>,
}

/// The contents of the storage of an account.
pub open spec fn slots_state(slots: Seq<(B256, B256)>) -> Seq<(Seq<u8>, B256)> {
    slots.map_values(|s: (B256, B256)| (s.0@, s.1))
}

impl View for WitnessAccount {
    type V = AccountState;

    open spec fn view(&self) -> AccountState {
        AccountState {
            address: self.address@,
            nonce: self.nonce,
            balance: self.balance,
            code_hash: self.code_hash,
            storage: slots_state(self.storage@),
        }
    }
}

/// The contents of several accounts.
pub open spec fn accounts_state(accounts: Seq<WitnessAccount>) -> Seq<AccountState> {
    accounts.map_values(|a: WitnessAccount| a@)
}

/// The contents of several byte strings.
pub open spec fn bytes_state(list: Seq<Vec<u8>>) -> Seq<Seq<u8>> {
    list.map_values(|b: Vec<u8>| b@)
}

/// The keys of one length under their hashes. Of two keys with one hash the
/// later counts.
pub open spec fn preimages(keys: Seq<Seq<u8>>, length: int) -> Map<B256, Seq<u8>>
    decreases keys.len(),
{
    if keys.len() == 0 {
        Map::empty()
    } else if keys.last().len() == length {
        preimages(keys.drop_last(), length).insert(keccak256_of(keys.last()), keys.last())
    } else {
        preimages(keys.drop_last(), length)
    }
}

/// The slots behind hashed slots, with their values; or the first hashed slot
/// that is not known.
pub open spec fn resolved_slots(slots: Seq<(B256, B256)>, known: Map<B256, Seq<u8>>) -> Result<
    Seq<(Seq<u8>, B256)>,
    PacketBuildError,
>
    decreases slots.len(),
{
    if slots.len() == 0 {
        Ok(Seq::empty())
    } else {
        match resolved_slots(slots.drop_last(), known) {
            Err(error) => Err(error),
            Ok(resolved) => if known.contains_key(slots.last().0) {
                Ok(resolved.push((known[slots.last().0], slots.last().1)))
            } else {
                Err(PacketBuildError::MissingStoragePreimage { hashed: slots.last().0 })
            },
        }
    }
}

/// The code hash of an account.
pub open spec fn code_hash_of(account: Account) -> B256 {
    match account.bytecode_hash {
        Some(hash) => hash,
        None => KECCAK_EMPTY,
    }
}

/// The storage of an account, under hashed slots.
pub open spec fn storage_of(storages: Map<B256, Vec<(B256, B256)>>, hashed: B256) -> Seq<
    (B256, B256),
> {
    if storages.contains_key(hashed) {
        storages[hashed]@
    } else {
        Seq::empty()
    }
}

/// An account with its address and slots; or the first hashed key that is not
/// known, the address before the slots.
pub open spec fn resolved_account(
    hashed: B256,
    account: Account,
    storage: Seq<(B256, B256)>,
    addresses: Map<B256, Seq<u8>>,
    slots: Map<B256, Seq<u8>>,
) -> Result<AccountState, PacketBuildError> {
    if !addresses.contains_key(hashed) {
        Err(PacketBuildError::MissingAccountPreimage { hashed })
    } else {
        match resolved_slots(storage, slots) {
            Err(error) => Err(error),
            Ok(storage) => Ok(
                AccountState {
                    address: addresses[hashed],
                    nonce: account.nonce,
                    balance: account.balance,
                    code_hash: code_hash_of(account),
                    storage,
                },
            ),
        }
    }
}

/// The accounts with their addresses and slots, without the destroyed ones; or
/// the first hashed key that is not known.
pub open spec fn resolved_accounts(
    accounts: Seq<(B256, Option<Account>)>,
    storages: Map<B256, Vec<(B256, B256)>>,
    addresses: Map<B256, Seq<u8>>,
    slots: Map<B256, Seq<u8>>,
) -> Result<Seq<AccountState>, PacketBuildError>
    decreases accounts.len(),
{
    if accounts.len() == 0 {
        Ok(Seq::empty())
    } else {
        match resolved_accounts(accounts.drop_last(), storages, addresses, slots) {
            Err(error) => Err(error),
            Ok(resolved) => match accounts.last().1 {
                None => Ok(resolved),
                Some(account) => match resolved_account(
                    accounts.last().0,
                    account,
                    storage_of(storages, accounts.last().0),
                    addresses,
                    slots,
                ) {
                    Err(error) => Err(error),
                    Ok(one) => Ok(resolved.push(one)),
                },
            },
        }
    }
}

/// The codes with their hashes.
pub open spec fn hashed_codes(codes: Seq<Seq<u8>>) -> Seq<(B256, Seq<u8>)> {
    codes.map_values(|code: Seq<u8>| (keccak256_of(code), code))
}

/// The contents of codes with their hashes.
pub open spec fn codes_state(codes: Seq<(B256, Vec<u8>)>) -> Seq<(B256, Seq<u8>)> {
    codes.map_values(|c: (B256, Vec<u8>)| (c.0, c.1@))
}

fn address_from(bytes: &Vec<u8>) -> (address: Address)
    requires
        bytes@.len() == 20,
    ensures
        address@ == bytes@,
{
    let mut address: Address = ZERO_ADDRESS;
    let mut i: usize = 0;
    while i < 20
        invariant
            i <= 20,
            bytes@.len() == 20,
            forall|j: int| 0 <= j < i ==> address@[j] == bytes@[j],
        decreases 20 - i,
    {
        address[i] = bytes[i];
        i += 1;
    }
    assert(address@ =~= bytes@);
    address
}

fn slot_from(bytes: &Vec<u8>) -> (slot: B256)
    requires
        bytes@.len() == 32,
    ensures
        slot@ == bytes@,
{
    let mut slot: B256 = ZERO_HASH;
    let mut i: usize = 0;
    while i < 32
        invariant
            i <= 32,
            bytes@.len() == 32,
            forall|j: int| 0 <= j < i ==> slot@[j] == bytes@[j],
        decreases 32 - i,
    {
        slot[i] = bytes[i];
        i += 1;
    }
    assert(slot@ =~= bytes@);
    slot
}

/// The keys of one length under their hashes.
pub struct Preimages {
    keys: ByteMap<32, Vec<u8>>,
}

impl View for Preimages {
    type V = Map<B256, Seq<u8>>;

    closed spec fn view(&self) -> Map<B256, Seq<u8>> {
        self.keys@.map_values(|key: Vec<u8>| key@)
    }
}

impl Preimages {
    /// Each hash stands for one key.
    pub closed spec fn wf(self) -> bool {
        self.keys.wf()
    }

    /// The keys of one length among some.
    pub fn from_keys(keys: &Vec<Vec<u8>>, length: usize) -> (known: Self)
        ensures
            known.wf(),
            known@ == preimages(bytes_state(keys@), length as int),
    {
        let ghost all = bytes_state(keys@);
        let mut known = Preimages { keys: ByteMap::new() };
        let mut i: usize = 0;
        assert(all.take(0) =~= Seq::empty());
        assert(known@ =~= Map::empty());
        while i < keys.len()
            invariant
                i <= keys@.len(),
                all == bytes_state(keys@),
                known.wf(),
                known@ == preimages(all.take(i as int), length as int),
            decreases keys@.len() - i,
        {
            let ghost before = known@;
            proof {
                assert(all.take(i + 1).drop_last() =~= all.take(i as int));
                assert(all.take(i + 1).last() == keys@[i as int]@);
            }
            if keys[i].len() == length {
                let hash: B256 = keccak256(&keys[i]);
                known.keys.insert(hash, copy_bytes(&keys[i]));
                assert(known@ =~= before.insert(hash, keys@[i as int]@));
            }
            i += 1;
        }
        assert(all.take(i as int) =~= all);
        known
    }

    /// The key behind a hash, where it is known.
    pub fn get(&self, hashed: &B256) -> (key: Option<&Vec<u8>>)
        requires
            self.wf(),
        ensures
            match key {
                Some(k) => self@.contains_key(*hashed) && self@[*hashed] == k@,
                None => !self@.contains_key(*hashed),
            },
    {
        self.keys.get(hashed)
    }
}

proof fn preimages_have_the_length(keys: Seq<Seq<u8>>, length: int, hashed: B256)
    requires
        preimages(keys, length).contains_key(hashed),
    ensures
        preimages(keys, length)[hashed].len() == length,
        keccak256_of(preimages(keys, length)[hashed]) == hashed,
    decreases keys.len(),
{
    if keys.len() > 0 {
        if !(keys.last().len() == length && keccak256_of(keys.last()) == hashed) {
            preimages_have_the_length(keys.drop_last(), length, hashed);
        }
    }
}

fn resolve_slots(
    slots: &Vec<(B256, B256)>,
    keys: &Vec<Vec<u8>>,
    known: &Preimages,
) -> (resolved: Result<Vec<(B256, B256)>, PacketBuildError>)
    requires
        known.wf(),
        known@ == preimages(bytes_state(keys@), 32),
    ensures
        match resolved {
            Ok(r) => resolved_slots(slots@, known@) == Ok::<_, PacketBuildError>(slots_state(r@)),
            Err(error) => resolved_slots(slots@, known@) == Err::<Seq<(Seq<u8>, B256)>, _>(error),
        },
{
    let mut resolved: Vec<(B256, B256)> = Vec::new();
    let mut i: usize = 0;
    assert(slots@.take(0) =~= Seq::empty());
    assert(slots_state(resolved@) =~= Seq::empty());
    while i < slots.len()
        invariant
            i <= slots@.len(),
            known.wf(),
            known@ == preimages(bytes_state(keys@), 32),
            resolved_slots(slots@.take(i as int), known@) == Ok::<_, PacketBuildError>(
                slots_state(resolved@),
            ),
        decreases slots@.len() - i,
    {
        let ghost before = resolved@;
        proof {
            assert(slots@.take(i + 1).drop_last() =~= slots@.take(i as int));
            assert(slots@.take(i + 1).last() == slots@[i as int]);
        }
        match known.get(&slots[i].0) {
            Some(key) => {
                proof {
                    preimages_have_the_length(bytes_state(keys@), 32, slots@[i as int].0);
                }
                resolved.push((slot_from(key), slots[i].1));
                assert(slots_state(resolved@) =~= slots_state(before).push(
                    (key@, slots@[i as int].1),
                ));
            },
            None => {
                proof {
                    missing_slot_stays(slots@, known@, i + 1);
                }
                return Err(PacketBuildError::MissingStoragePreimage { hashed: slots[i].0 });
            },
        }
        i += 1;
    }
    assert(slots@.take(i as int) =~= slots@);
    Ok(resolved)
}

proof fn missing_slot_stays(slots: Seq<(B256, B256)>, known: Map<B256, Seq<u8>>, upto: int)
    requires
        0 <= upto <= slots.len(),
        resolved_slots(slots.take(upto), known) is Err,
    ensures
        resolved_slots(slots, known) == resolved_slots(slots.take(upto), known),
    decreases slots.len() - upto,
{
    if upto < slots.len() {
        assert(slots.take(upto + 1).drop_last() =~= slots.take(upto));
        missing_slot_stays(slots, known, upto + 1);
    } else {
        assert(slots.take(upto) =~= slots);
    }
}

proof fn missing_account_stays(
    accounts: Seq<(B256, Option<Account>)>,
    storages: Map<B256, Vec<(B256, B256)>>,
    addresses: Map<B256, Seq<u8>>,
    slots: Map<B256, Seq<u8>>,
    upto: int,
)
    requires
        0 <= upto <= accounts.len(),
        resolved_accounts(accounts.take(upto), storages, addresses, slots) is Err,
    ensures
        resolved_accounts(accounts, storages, addresses, slots) == resolved_accounts(
            accounts.take(upto),
            storages,
            addresses,
            slots,
        ),
    decreases accounts.len() - upto,
{
    if upto < accounts.len() {
        assert(accounts.take(upto + 1).drop_last() =~= accounts.take(upto));
        missing_account_stays(accounts, storages, addresses, slots, upto + 1);
    } else {
        assert(accounts.take(upto) =~= accounts);
    }
}

fn resolve_account(
    hashed: &B256,
    account: &Account,
    storages: &ByteMap<32, Vec<(B256, B256)>>,
    keys: &Vec<Vec<u8>>,
    addresses: &Preimages,
    slots: &Preimages,
) -> (resolved: Result<WitnessAccount, PacketBuildError>)
    requires
        storages.wf(),
        addresses.wf(),
        slots.wf(),
        addresses@ == preimages(bytes_state(keys@), 20),
        slots@ == preimages(bytes_state(keys@), 32),
    ensures
        ({
            let expected = resolved_account(
                *hashed,
                *account,
                storage_of(storages@, *hashed),
                addresses@,
                slots@,
            );
            match resolved {
                Ok(r) => expected == Ok::<_, PacketBuildError>(r@),
                Err(error) => expected == Err::<AccountState, _>(error),
            }
        }),
{
    let address: Address = match addresses.get(hashed) {
        Some(key) => {
            proof {
                preimages_have_the_length(bytes_state(keys@), 20, *hashed);
            }
            address_from(key)
        },
        None => {
            return Err(PacketBuildError::MissingAccountPreimage { hashed: *hashed });
        },
    };
    let storage: Vec<(B256, B256)> = match storages.get(hashed) {
        Some(hashed_storage) => match resolve_slots(hashed_storage, keys, slots) {
            Ok(storage) => storage,
            Err(error) => {
                return Err(error);
            },
        },
        None => Vec::new(),
    };
    let code_hash: B256 = match account.bytecode_hash {
        Some(hash) => hash,
        None => KECCAK_EMPTY,
    };
    assert(storage@.len() == 0 ==> slots_state(storage@) =~= Seq::empty());
    Ok(
        WitnessAccount { address, nonce: account.nonce, balance: account.balance, code_hash, storage },
    )
}

/// Finds the accounts that a block reads; or the first hashed key that is not
/// known.
pub fn resolve_accounts(witness: &ExecutionWitness) -> (resolved: Result<
    Vec<WitnessAccount>,
    PacketBuildError,
>)
    requires
        witness.storages.wf(),
    ensures
        match resolved {
            Ok(r) => accounts_of(*witness) == Ok::<_, PacketBuildError>(accounts_state(r@)),
            Err(error) => accounts_of(*witness) == Err::<Seq<AccountState>, _>(error),
        },
{
    let addresses = Preimages::from_keys(&witness.keys, 20);
    let slots = Preimages::from_keys(&witness.keys, 32);
    let ghost accounts = witness.accounts@;
    let mut resolved: Vec<WitnessAccount> = Vec::new();
    let mut i: usize = 0;
    assert(accounts.take(0) =~= Seq::empty());
    assert(accounts_state(resolved@) =~= Seq::empty());
    while i < witness.accounts.len()
        invariant
            i <= witness.accounts@.len(),
            accounts == witness.accounts@,
            witness.storages.wf(),
            addresses.wf(),
            slots.wf(),
            addresses@ == preimages(bytes_state(witness.keys@), 20),
            slots@ == preimages(bytes_state(witness.keys@), 32),
            resolved_accounts(accounts.take(i as int), witness.storages@, addresses@, slots@)
                == Ok::<_, PacketBuildError>(accounts_state(resolved@)),
        decreases witness.accounts@.len() - i,
    {
        let ghost before = resolved@;
        proof {
            assert(accounts.take(i + 1).drop_last() =~= accounts.take(i as int));
            assert(accounts.take(i + 1).last() == accounts[i as int]);
        }
        if let Some(account) = &witness.accounts[i].1 {
            match resolve_account(
                &witness.accounts[i].0,
                account,
                &witness.storages,
                &witness.keys,
                &addresses,
                &slots,
            ) {
                Ok(one) => {
                    resolved.push(one);
                    assert(accounts_state(resolved@) =~= accounts_state(before).push(one@));
                },
                Err(error) => {
                    proof {
                        missing_account_stays(
                            accounts,
                            witness.storages@,
                            addresses@,
                            slots@,
                            i + 1,
                        );
                    }
                    return Err(error);
                },
            }
        }
        i += 1;
    }
    assert(accounts.take(i as int) =~= accounts);
    Ok(resolved)
}

/// The accounts that a block reads; or the first hashed key that is not known.
pub open spec fn accounts_of(witness: ExecutionWitness) -> Result<
    Seq<AccountState>,
    PacketBuildError,
> {
    resolved_accounts(
        witness.accounts@,
        witness.storages@,
        preimages(bytes_state(witness.keys@), 20),
        preimages(bytes_state(witness.keys@), 32),
    )
}

fn hash_codes(codes: &Vec<Vec<u8>>) -> (hashed: Vec<(B256, Vec<u8>)>)
    ensures
        codes_state(hashed@) == hashed_codes(bytes_state(codes@)),
{
    let mut hashed: Vec<(B256, Vec<u8>)> = Vec::new();
    let mut i: usize = 0;
    while i < codes.len()
        invariant
            i <= codes@.len(),
            hashed@.len() == i,
            forall|j: int|
                0 <= j < i ==> (#[trigger] hashed@[j]).0 == keccak256_of(codes@[j]@)
                    && hashed@[j].1@ == codes@[j]@,
        decreases codes@.len() - i,
    {
        hashed.push((keccak256(&codes[i]), copy_bytes(&codes[i])));
        i += 1;
    }
    assert(codes_state(hashed@) =~= hashed_codes(bytes_state(codes@)));
    hashed
}

fn copy_all(list: &Vec<Vec<u8>>) -> (copy: Vec<Vec<u8>>)
    ensures
        bytes_state(copy@) == bytes_state(list@),
{
    let mut copy: Vec<Vec<u8>> = Vec::new();
    let mut i: usize = 0;
    while i < list.len()
        invariant
            i <= list@.len(),
            copy@.len() == i,
            forall|j: int| 0 <= j < i ==> (#[trigger] copy@[j])@ == list@[j]@,
        decreases list@.len() - i,
    {
        copy.push(copy_bytes(&list[i]));
        i += 1;
    }
    assert(bytes_state(copy@) =~= bytes_state(list@));
    copy
}

/// The packet says of the block what its header says.
pub open spec fn packs_header(packet: VerificationPacket, hash: B256, header: HeaderState) -> bool {
    &&& packet.block_hash == hash
    &&& packet.block_number == header.number
    &&& packet.parent_hash == header.parent_hash
    &&& packet.state_root == header.state_root
    &&& packet.transactions_root == header.transactions_root
    &&& packet.receipts_root == header.receipts_root
    &&& packet.timestamp == header.timestamp
    &&& packet.gas_limit == header.gas_limit
    &&& packet.beneficiary == header.beneficiary
    &&& packet.header_rlp@ == header_rlp(header)
}

/// What a phone needs to execute a block; or the first hashed key that is not
/// known.
pub fn build_verification_packet(
    witness: &ExecutionWitness,
    block: &PacketBlock,
    block_hashes: &Vec<(u64, B256)>,
) -> (packet: Result<VerificationPacket, PacketBuildError>)
    requires
        witness.storages.wf(),
    ensures
        match packet {
            Ok(p) => {
                &&& accounts_of(*witness) == Ok::<_, PacketBuildError>(
                    accounts_state(p.witness_accounts@),
                )
                &&& packs_header(p, block.hash, block.header@)
                &&& bytes_state(p.transactions@) == bytes_state(block.transactions@)
                &&& codes_state(p.uncached_bytecodes@) == hashed_codes(bytes_state(witness.codes@))
                &&& p.lowest_block_number == witness.lowest_block_number
                &&& p.block_hashes@ == block_hashes@
            },
            Err(error) => accounts_of(*witness) == Err::<Seq<AccountState>, _>(error),
        },
{
    let witness_accounts: Vec<WitnessAccount> = match resolve_accounts(witness) {
        Ok(accounts) => accounts,
        Err(error) => {
            return Err(error);
        },
    };
    let mut hashes: Vec<(u64, B256)> = Vec::new();
    let mut i: usize = 0;
    while i < block_hashes.len()
        invariant
            i <= block_hashes@.len(),
            hashes@ == block_hashes@.take(i as int),
        decreases block_hashes@.len() - i,
    {
        hashes.push((block_hashes[i].0, block_hashes[i].1));
        assert(hashes@ =~= block_hashes@.take(i + 1));
        i += 1;
    }
    assert(block_hashes@.take(i as int) =~= block_hashes@);
    Ok(
        VerificationPacket {
            block_hash: block.hash,
            block_number: block.header.number,
            parent_hash: block.header.parent_hash,
            state_root: block.header.state_root,
            transactions_root: block.header.transactions_root,
            receipts_root: block.header.receipts_root,
            timestamp: block.header.timestamp,
            gas_limit: block.header.gas_limit,
            beneficiary: block.header.beneficiary,
            header_rlp: block.header.encode(),
            transactions: copy_all(&block.transactions),
            witness_accounts,
            uncached_bytecodes: hash_codes(&witness.codes),
            lowest_block_number: witness.lowest_block_number,
            block_hashes: hashes,
        },
    )
}

/// Every account in a packet was read under the hash of its address.
pub proof fn resolved_addresses_have_their_hash(
    accounts: Seq<(B256, Option<Account>)>,
    storages: Map<B256, Vec<(B256, B256)>>,
    keys: Seq<Seq<u8>>,
    resolved: Seq<AccountState>,
)
    requires
        resolved_accounts(accounts, storages, preimages(keys, 20), preimages(keys, 32)) == Ok::<
            _,
            PacketBuildError,
        >(resolved),
    ensures
        forall|one: AccountState| #[trigger]
            resolved.contains(one) ==> one.address.len() == 20 && read_under(
                accounts,
                keccak256_of(one.address),
            ),
    decreases accounts.len(),
{
    if accounts.len() > 0 {
        let rest = accounts.drop_last();
        let addresses = preimages(keys, 20);
        let slots = preimages(keys, 32);
        let before = resolved_accounts(rest, storages, addresses, slots)->Ok_0;
        resolved_addresses_have_their_hash(rest, storages, keys, before);
        assert forall|one: AccountState| #[trigger] resolved.contains(one) implies one.address.len()
            == 20 && read_under(accounts, keccak256_of(one.address)) by {
            let at = choose|at: int| 0 <= at < resolved.len() && resolved[at] == one;
            if at < before.len() {
                assert(before[at] == one);
                assert(before.contains(one));
                let i = choose|i: int|
                    0 <= i < rest.len() && (#[trigger] rest[i]).0 == keccak256_of(one.address)
                        && rest[i].1 is Some;
                assert(accounts[i] == rest[i]);
            } else {
                preimages_have_the_length(keys, 20, accounts.last().0);
                assert(accounts[accounts.len() - 1].0 == keccak256_of(one.address));
            }
        }
    }
}

/// A block read a live account under this hash.
pub open spec fn read_under(accounts: Seq<(B256, Option<Account>)>, hashed: B256) -> bool {
    exists|i: int|
        0 <= i < accounts.len() && (#[trigger] accounts[i]).0 == hashed && accounts[i].1 is Some
}

/// A witness of destroyed accounts alone needs no keys.
pub proof fn destroyed_accounts_are_left_out(
    accounts: Seq<(B256, Option<Account>)>,
    storages: Map<B256, Vec<(B256, B256)>>,
    addresses: Map<B256, Seq<u8>>,
    slots: Map<B256, Seq<u8>>,
)
    requires
        forall|i: int| 0 <= i < accounts.len() ==> (#[trigger] accounts[i]).1 is None,
    ensures
        resolved_accounts(accounts, storages, addresses, slots) == Ok::<_, PacketBuildError>(
            Seq::<AccountState>::empty(),
        ),
    decreases accounts.len(),
{
    if accounts.len() > 0 {
        assert(accounts[accounts.len() - 1].1 is None);
        assert forall|i: int| 0 <= i < accounts.drop_last().len() implies (
        #[trigger] accounts.drop_last()[i]).1 is None by {
            assert(accounts[i].1 is None);
        }
        destroyed_accounts_are_left_out(accounts.drop_last(), storages, addresses, slots);
    }
}

/// Every live account of a witness stands in the packet, in order, and nothing
/// else does: under the address whose hash it was read under, with the same nonce
/// and balance, and with its code hash, which is that of no code where it has
/// none.
pub proof fn live_accounts_are_packed(witness: ExecutionWitness, resolved: Seq<AccountState>) -> (at:
    Seq<int>)
    requires
        accounts_of(witness) == Ok::<_, PacketBuildError>(resolved),
    ensures
        at.len() == resolved.len(),
        forall|i: int, j: int| 0 <= i < j < at.len() ==> #[trigger] at[i] < #[trigger] at[j],
        forall|i: int|
            0 <= i < at.len() ==> {
                let k = #[trigger] at[i];
                &&& 0 <= k < witness.accounts@.len()
                &&& witness.accounts@[k].1 matches Some(account) && {
                    let hashed = witness.accounts@[k].0;
                    &&& resolved[i].address.len() == 20
                    &&& bytes_state(witness.keys@).contains(resolved[i].address)
                    &&& keccak256_of(resolved[i].address) == hashed
                    &&& resolved[i].nonce == account.nonce
                    &&& resolved[i].balance == account.balance
                    &&& account.bytecode_hash matches Some(hash) ==> resolved[i].code_hash == hash
                    &&& account.bytecode_hash is None ==> resolved[i].code_hash == KECCAK_EMPTY
                    &&& !witness.storages@.contains_key(hashed) ==> resolved[i].storage.len() == 0
                    &&& witness.storages@.contains_key(hashed) ==> slots_are_packed(
                        witness.storages@[hashed]@,
                        bytes_state(witness.keys@),
                        resolved[i].storage,
                    )
                }
            },
        forall|k: int|
            0 <= k < witness.accounts@.len() && (#[trigger] witness.accounts@[k]).1 is Some
                ==> at.contains(k),
{
    live_accounts_resolve(
        witness.accounts@,
        witness.storages@,
        bytes_state(witness.keys@),
        resolved,
    )
}

proof fn live_accounts_resolve(
    accounts: Seq<(B256, Option<Account>)>,
    storages: Map<B256, Vec<(B256, B256)>>,
    keys: Seq<Seq<u8>>,
    resolved: Seq<AccountState>,
) -> (at: Seq<int>)
    requires
        resolved_accounts(accounts, storages, preimages(keys, 20), preimages(keys, 32)) == Ok::<
            _,
            PacketBuildError,
        >(resolved),
    ensures
        at.len() == resolved.len(),
        forall|i: int, j: int| 0 <= i < j < at.len() ==> #[trigger] at[i] < #[trigger] at[j],
        forall|i: int|
            0 <= i < at.len() ==> {
                let k = #[trigger] at[i];
                &&& 0 <= k < accounts.len()
                &&& accounts[k].1 matches Some(account) && {
                    &&& resolved[i].address.len() == 20
                    &&& keys.contains(resolved[i].address)
                    &&& keccak256_of(resolved[i].address) == accounts[k].0
                    &&& resolved[i].nonce == account.nonce
                    &&& resolved[i].balance == account.balance
                    &&& account.bytecode_hash matches Some(hash) ==> resolved[i].code_hash == hash
                    &&& account.bytecode_hash is None ==> resolved[i].code_hash == KECCAK_EMPTY
                    &&& !storages.contains_key(accounts[k].0) ==> resolved[i].storage.len() == 0
                    &&& storages.contains_key(accounts[k].0) ==> slots_are_packed(
                        storages[accounts[k].0]@,
                        keys,
                        resolved[i].storage,
                    )
                }
            },
        forall|k: int|
            0 <= k < accounts.len() && (#[trigger] accounts[k]).1 is Some ==> at.contains(k),
    decreases accounts.len(),
{
    let addresses = preimages(keys, 20);
    let slots = preimages(keys, 32);
    if accounts.len() == 0 {
        Seq::empty()
    } else {
        let rest = accounts.drop_last();
        let last = accounts.len() - 1;
        let before = resolved_accounts(rest, storages, addresses, slots)->Ok_0;
        let kept = live_accounts_resolve(rest, storages, keys, before);
        let at = match accounts.last().1 {
            Some(_) => kept.push(last),
            None => kept,
        };
        assert forall|i: int| 0 <= i < kept.len() implies #[trigger] kept[i] < last && accounts[kept[i]]
            == rest[kept[i]] && resolved[i] == before[i] by {}
        if let Some(account) = accounts.last().1 {
            let hashed = accounts.last().0;
            preimages_have_the_length(keys, 20, hashed);
            preimages_are_keys(keys, 20, hashed);
            if storages.contains_key(hashed) {
                slots_resolve_one_for_one(storages[hashed]@, keys, resolved.last().storage);
            }
            assert(at[at.len() - 1] == last);
        }
        assert forall|k: int|
            0 <= k < accounts.len() && (#[trigger] accounts[k]).1 is Some implies at.contains(
            k,
        ) by {
            if k < last {
                assert(rest[k] == accounts[k]);
                let t = choose|t: int| 0 <= t < kept.len() && kept[t] == k;
                assert(at[t] == k);
            } else {
                assert(at[at.len() - 1] == k);
            }
        }
        at
    }
}

/// The slots of an account are packed one for one, each under the key of 32 bytes
/// whose hash it was read under, with its value.
pub open spec fn slots_are_packed(
    hashed: Seq<(B256, B256)>,
    keys: Seq<Seq<u8>>,
    packed: Seq<(Seq<u8>, B256)>,
) -> bool {
    &&& packed.len() == hashed.len()
    &&& forall|i: int|
        0 <= i < packed.len() ==> (#[trigger] packed[i]).0.len() == 32 && keys.contains(packed[i].0)
            && keccak256_of(packed[i].0) == hashed[i].0 && packed[i].1 == hashed[i].1
}

proof fn preimages_are_keys(keys: Seq<Seq<u8>>, length: int, hashed: B256)
    requires
        preimages(keys, length).contains_key(hashed),
    ensures
        keys.contains(preimages(keys, length)[hashed]),
    decreases keys.len(),
{
    if keys.len() > 0 {
        if keys.last().len() == length && keccak256_of(keys.last()) == hashed {
            assert(keys[keys.len() - 1] == keys.last());
        } else {
            let rest = keys.drop_last();
            preimages_are_keys(rest, length, hashed);
            let i = choose|i: int| 0 <= i < rest.len() && rest[i] == preimages(rest, length)[hashed];
            assert(keys[i] == rest[i]);
        }
    }
}

proof fn slots_resolve_one_for_one(
    hashed: Seq<(B256, B256)>,
    keys: Seq<Seq<u8>>,
    packed: Seq<(Seq<u8>, B256)>,
)
    requires
        resolved_slots(hashed, preimages(keys, 32)) == Ok::<_, PacketBuildError>(packed),
    ensures
        slots_are_packed(hashed, keys, packed),
    decreases hashed.len(),
{
    if hashed.len() > 0 {
        let rest = hashed.drop_last();
        let before = resolved_slots(rest, preimages(keys, 32))->Ok_0;
        slots_resolve_one_for_one(rest, keys, before);
        preimages_have_the_length(keys, 32, hashed.last().0);
        preimages_are_keys(keys, 32, hashed.last().0);
        assert forall|i: int| 0 <= i < packed.len() implies (#[trigger] packed[i]).0.len() == 32
            && keys.contains(packed[i].0) && keccak256_of(packed[i].0) == hashed[i].0 && packed[i].1
            == hashed[i].1 by {
            if i < before.len() {
                assert(packed[i] == before[i]);
                assert(rest[i] == hashed[i]);
            }
        }
    }
}

/// A packet can be built wherever the keys hold the address behind every live
/// account and the slot behind every value of its storage.
pub proof fn packets_can_be_built_from_known_keys(witness: ExecutionWitness)
    requires
        forall|k: int|
            0 <= k < witness.accounts@.len() && (#[trigger] witness.accounts@[k]).1 is Some
                ==> is_known(bytes_state(witness.keys@), 20, witness.accounts@[k].0) && (
            witness.storages@.contains_key(witness.accounts@[k].0) ==> forall|s: int|
                0 <= s < witness.storages@[witness.accounts@[k].0]@.len() ==> is_known(
                    bytes_state(witness.keys@),
                    32,
                    (#[trigger] witness.storages@[witness.accounts@[k].0]@[s]).0,
                )),
    ensures
        accounts_of(witness) is Ok,
{
    known_keys_are_enough(witness.accounts@, witness.storages@, bytes_state(witness.keys@));
}

proof fn known_keys_are_enough(
    accounts: Seq<(B256, Option<Account>)>,
    storages: Map<B256, Vec<(B256, B256)>>,
    keys: Seq<Seq<u8>>,
)
    requires
        forall|k: int|
            0 <= k < accounts.len() && (#[trigger] accounts[k]).1 is Some ==> is_known(
                keys,
                20,
                accounts[k].0,
            ) && (storages.contains_key(accounts[k].0) ==> forall|s: int|
                0 <= s < storages[accounts[k].0]@.len() ==> is_known(
                    keys,
                    32,
                    (#[trigger] storages[accounts[k].0]@[s]).0,
                )),
    ensures
        resolved_accounts(accounts, storages, preimages(keys, 20), preimages(keys, 32)) is Ok,
    decreases accounts.len(),
{
    if accounts.len() > 0 {
        let rest = accounts.drop_last();
        assert forall|k: int| 0 <= k < rest.len() && (#[trigger] rest[k]).1 is Some implies is_known(
            keys,
            20,
            rest[k].0,
        ) && (storages.contains_key(rest[k].0) ==> forall|s: int|
            0 <= s < storages[rest[k].0]@.len() ==> is_known(
                keys,
                32,
                (#[trigger] storages[rest[k].0]@[s]).0,
            )) by {
            assert(accounts[k] == rest[k]);
        }
        known_keys_are_enough(rest, storages, keys);
        let last = accounts[accounts.len() - 1];
        if last.1 is Some {
            known_keys_are_found(keys, 20, last.0);
            if storages.contains_key(last.0) {
                known_slots_are_enough(storages[last.0]@, keys);
            }
        }
    }
}

/// A key of this length has this hash.
pub open spec fn is_known(keys: Seq<Seq<u8>>, length: int, hashed: B256) -> bool {
    exists|i: int|
        0 <= i < keys.len() && (#[trigger] keys[i]).len() == length && keccak256_of(keys[i])
            == hashed
}

proof fn known_keys_are_found(keys: Seq<Seq<u8>>, length: int, hashed: B256)
    requires
        is_known(keys, length, hashed),
    ensures
        preimages(keys, length).contains_key(hashed),
    decreases keys.len(),
{
    let i = choose|i: int|
        0 <= i < keys.len() && (#[trigger] keys[i]).len() == length && keccak256_of(keys[i])
            == hashed;
    if i < keys.len() - 1 {
        assert(keys.drop_last()[i] == keys[i]);
        known_keys_are_found(keys.drop_last(), length, hashed);
    }
}

proof fn known_slots_are_enough(slots: Seq<(B256, B256)>, keys: Seq<Seq<u8>>)
    requires
        forall|s: int| 0 <= s < slots.len() ==> is_known(keys, 32, (#[trigger] slots[s]).0),
    ensures
        resolved_slots(slots, preimages(keys, 32)) is Ok,
    decreases slots.len(),
{
    if slots.len() > 0 {
        assert forall|s: int| 0 <= s < slots.drop_last().len() implies is_known(
            keys,
            32,
            (#[trigger] slots.drop_last()[s]).0,
        ) by {
            assert(slots[s] == slots.drop_last()[s]);
        }
        known_slots_are_enough(slots.drop_last(), keys);
        assert(is_known(keys, 32, slots[slots.len() - 1].0));
        known_keys_are_found(keys, 32, slots.last().0);
    }
}

/// The codes of a witness are packed one for one, each under its own hash.
pub proof fn codes_are_packed_under_their_hash(codes: Seq<Seq<u8>>, i: int)
    requires
        0 <= i < codes.len(),
    ensures
        hashed_codes(codes).len() == codes.len(),
        hashed_codes(codes)[i].0 == keccak256_of(codes[i]),
        hashed_codes(codes)[i].1 == codes[i],
{
}

/// Where a packet cannot be built, the error names the address of a live account,
/// or a slot of one, whose key is not known.
pub proof fn missing_keys_are_named(witness: ExecutionWitness, error: PacketBuildError)
    requires
        accounts_of(witness) == Err::<Seq<AccountState>, _>(error),
    ensures
        match error {
            PacketBuildError::MissingAccountPreimage { hashed } => read_under(
                witness.accounts@,
                hashed,
            ) && !is_known(bytes_state(witness.keys@), 20, hashed),
            PacketBuildError::MissingStoragePreimage { hashed } => !is_known(
                bytes_state(witness.keys@),
                32,
                hashed,
            ) && exists|k: int, s: int|
                0 <= k < witness.accounts@.len() && witness.accounts@[k].1 is Some
                    && witness.storages@.contains_key((#[trigger] witness.accounts@[k]).0) && 0 <= s
                    < witness.storages@[witness.accounts@[k].0]@.len() && (
                #[trigger] witness.storages@[witness.accounts@[k].0]@[s]).0 == hashed,
        },
{
    missing_keys_are_read(
        witness.accounts@,
        witness.storages@,
        bytes_state(witness.keys@),
        error,
    );
}

proof fn missing_keys_are_read(
    accounts: Seq<(B256, Option<Account>)>,
    storages: Map<B256, Vec<(B256, B256)>>,
    keys: Seq<Seq<u8>>,
    error: PacketBuildError,
)
    requires
        resolved_accounts(accounts, storages, preimages(keys, 20), preimages(keys, 32)) == Err::<
            Seq<AccountState>,
            _,
        >(error),
    ensures
        match error {
            PacketBuildError::MissingAccountPreimage { hashed } => read_under(accounts, hashed)
                && !is_known(keys, 20, hashed),
            PacketBuildError::MissingStoragePreimage { hashed } => !is_known(keys, 32, hashed)
                && exists|k: int, s: int|
                0 <= k < accounts.len() && accounts[k].1 is Some && storages.contains_key(
                    (#[trigger] accounts[k]).0,
                ) && 0 <= s < storages[accounts[k].0]@.len() && (
                #[trigger] storages[accounts[k].0]@[s]).0 == hashed,
        },
    decreases accounts.len(),
{
    if accounts.len() > 0 {
        let rest = accounts.drop_last();
        let last = accounts.len() - 1;
        if resolved_accounts(rest, storages, preimages(keys, 20), preimages(keys, 32)) is Err {
            missing_keys_are_read(rest, storages, keys, error);
            match error {
                PacketBuildError::MissingAccountPreimage { hashed } => {
                    let i = choose|i: int|
                        0 <= i < rest.len() && (#[trigger] rest[i]).0 == hashed && rest[i].1
                            is Some;
                    assert(accounts[i] == rest[i]);
                },
                PacketBuildError::MissingStoragePreimage { hashed } => {
                    let (k, s) = choose|k: int, s: int|
                        0 <= k < rest.len() && rest[k].1 is Some && storages.contains_key(
                            (#[trigger] rest[k]).0,
                        ) && 0 <= s < storages[rest[k].0]@.len() && (
                        #[trigger] storages[rest[k].0]@[s]).0 == hashed;
                    assert(accounts[k] == rest[k]);
                    assert(storages[accounts[k].0]@[s].0 == hashed);
                },
            }
        } else {
            let hashed = accounts[last].0;
            assert(accounts[last].1 is Some);
            if preimages(keys, 20).contains_key(hashed) {
                let slots = storage_of(storages, hashed);
                let s = missing_slots_are_read(slots, keys, error);
                assert(storages.contains_key(accounts[last].0));
                assert(storages[accounts[last].0]@[s] == slots[s]);
            } else if is_known(keys, 20, hashed) {
                known_keys_are_found(keys, 20, hashed);
            }
        }
    }
}

proof fn missing_slots_are_read(
    slots: Seq<(B256, B256)>,
    keys: Seq<Seq<u8>>,
    error: PacketBuildError,
) -> (s: int)
    requires
        resolved_slots(slots, preimages(keys, 32)) == Err::<Seq<(Seq<u8>, B256)>, _>(error),
    ensures
        0 <= s < slots.len(),
        error matches PacketBuildError::MissingStoragePreimage { hashed } && slots[s].0 == hashed
            && !is_known(keys, 32, hashed),
    decreases slots.len(),
{
    if resolved_slots(slots.drop_last(), preimages(keys, 32)) is Err {
        missing_slots_are_read(slots.drop_last(), keys, error)
    } else {
        let hashed = slots.last().0;
        if is_known(keys, 32, hashed) {
            known_keys_are_found(keys, 32, hashed);
        }
        slots.len() - 1
    }
}

/// A packet says of its block what the block's header says.
pub proof fn packets_say_what_headers_say(
    packet: VerificationPacket,
    hash: B256,
    header: HeaderState,
)
    requires
        packs_header(packet, hash, header),
    ensures
        packet.block_hash == hash && packet.parent_hash == header.parent_hash,
        packet.block_number == header.number && packet.timestamp == header.timestamp,
        packet.state_root == header.state_root && packet.receipts_root == header.receipts_root,
        packet.transactions_root == header.transactions_root,
        packet.gas_limit == header.gas_limit && packet.beneficiary == header.beneficiary,
        packet.header_rlp@ == header_rlp(header),
{
}

} // verus!
