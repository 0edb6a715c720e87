//! Blocks of plain transfers, signed once per sender.
//!
//! A block is `[u64 LE number][u32 LE senders]` and then, for each sender,
//! `[u64 LE first nonce][u32 LE count][65-byte signature]` followed by `count`
//! records of `[u32 LE recipient][u64 LE amount]`.
use crate::crypto::{
    address_of_key, blake3_hash, blake3_of, has_high_coordinate, keccak256, keccak256_of,
    key_address, recover_signer, recovered_signer, sign_hash, signature_is_well_formed,
    signature_of, well_formed_signature,
};
use crate::primitives::{
    saturating_mul_u64, saturating_mul_usize, saturating_product, same_key, Address, B256,
};
use crate::text::{decimal, push_decimal};
use vstd::bytes::{
    spec_u32_from_le_bytes, spec_u32_to_le_bytes, spec_u64_from_le_bytes, spec_u64_to_le_bytes,
    u32_from_le_bytes, u32_to_le_bytes, u64_from_le_bytes, u64_to_le_bytes,
};
use vstd::prelude::*;
use vstd::string::StringExecFns;

verus! {

/// The length of one transfer record.
pub const RECORD_BYTES: usize = 12;

/// The length of what stands before a sender's records.
pub const HEADER_BYTES: usize = 77;

/// The number of senders when nothing is configured.
pub const DEFAULT_SENDERS: usize = 128;

/// The number of transfers per sender when nothing is configured.
pub const DEFAULT_TRANSFERS_PER_SENDER: usize = 10_000;

/// The least number of accounts that are kept.
pub const DEFAULT_ACCOUNT_CACHE: usize = 4096;

/// What separates batch signatures from all other signatures.
pub const DOMAIN: [u8; 21] = [
    78, 52, 50, 95, 66, 65, 84, 67, 72, 95, 84, 82, 65, 78, 83, 70, 69, 82, 95, 86, 48,
];

/// The multiplier that spreads transfers over the recipients.
pub const RECIPIENT_SPREAD: u32 = 2_654_435_761;

/// What a block is made of.
#[derive(Clone, Copy, Debug, PartialEq, Eq, Structural)]
pub struct BatchTransferConfig {
    pub senders: usize,
    pub transfers_per_sender: usize,
}

/// Why a block is refused.
#[derive(Clone, Copy, Debug, PartialEq, Eq)]
pub enum BatchTransferError {
    /// The bytes do not have the announced hash.
    HashMismatch { expected: B256, actual: B256 },
    /// The bytes end inside a `u32`.
    TruncatedU32,
    /// The bytes end inside a `u64`.
    TruncatedU64,
    /// The bytes end inside a signature.
    TruncatedSignature,
    /// A signature cannot be parsed.
    InvalidSignature,
    /// The length of a sender's records does not fit the machine.
    RecordsOverflow,
    /// The bytes end inside a sender's records.
    TruncatedRecords,
    /// No signer can be recovered from a signature.
    Unrecoverable,
    /// The batch at this position was not signed by its sender.
    SenderMismatch(usize),
    /// That many bytes stand behind the last batch.
    TrailingBytes(usize),
    /// There are not enough accounts.
    AccountCacheTooSmall { have: usize, need: usize },
    /// The key of the account at this position is not valid.
    InvalidKey(usize),
    /// Signing the batch at this position failed.
    SignFailed(usize),
}

/// Whether blocks of plain transfers are switched on.
pub fn fastlane_enabled(configured: Option<u64>) -> (enabled: bool)
    ensures
        enabled == (configured matches Some(n) && n > 0),
{
    match configured {
        Some(n) => n > 0,
        None => false,
    }
}

/// The configured shape of a block, with defaults for what is not configured
/// and at least one of each.
pub fn config(senders: Option<usize>, transfers_per_sender: Option<usize>) -> (c:
    BatchTransferConfig)
    ensures
        c.senders == match senders {
            Some(n) => if n == 0 {
                1
            } else {
                n
            },
            None => DEFAULT_SENDERS,
        },
        c.transfers_per_sender == match transfers_per_sender {
            Some(n) => if n == 0 {
                1
            } else {
                n
            },
            None => DEFAULT_TRANSFERS_PER_SENDER,
        },
{
    let s: usize = match senders {
        Some(n) => n,
        None => DEFAULT_SENDERS,
    };
    let t: usize = match transfers_per_sender {
        Some(n) => n,
        None => DEFAULT_TRANSFERS_PER_SENDER,
    };
    BatchTransferConfig {
        senders: if s == 0 {
            1
        } else {
            s
        },
        transfers_per_sender: if t == 0 {
            1
        } else {
            t
        },
    }
}

/// What is known of a block that was built or verified.
#[derive(Clone, Copy, Debug, PartialEq, Eq, Structural)]
pub struct BatchTransferStats {
    pub block_number: u64,
    pub senders: usize,
    pub transfers_per_sender: usize,
    pub transfers: u64,
    pub encoded_bytes: usize,
}

/// The text that the private key of account `index` is the hash of.
pub open spec fn key_seed(index: int) -> Seq<char> {
    "n42-test-key-"@ + decimal(index)
}

/// The private key of account `index`.
pub open spec fn private_key(index: int) -> B256 {
    keccak256_of(vstd::utf8::encode_utf8(key_seed(index)))
}

/// The private key of account `index`: the hash of its name.
pub fn derive_private_key(index: usize) -> (key: B256)
    ensures
        key == private_key(index as int),
{
    let mut seed = String::new();
    seed.append("n42-test-key-");
    push_decimal(&mut seed, index as u64);
    proof {
        assert(seed@ =~= key_seed(index as int));
    }
    keccak256(seed.as_str().as_bytes())
}

/// An account that signs batches.
#[derive(Clone, Copy, Debug)]
pub struct BatchAccount {
    pub key: B256,
    pub address: Address,
}

/// The first accounts, in order.
pub struct AccountCache {
    accounts: Vec<BatchAccount>,
}

impl AccountCache {
    /// The accounts.
    pub closed spec fn view(&self) -> Seq<BatchAccount> {
        self.accounts@
    }

    /// Account `i` has the key derived from `i` and the address of that key.
    pub open spec fn wf(&self) -> bool {
        forall|i: int|
            0 <= i < self@.len() ==> (#[trigger] self@[i]).key == private_key(i)
                && address_of_key(private_key(i)) == Some(self@[i].address)
    }

    /// Derives the accounts: as many as configured, as needed, and at least the
    /// default number. Fails at the first account whose key is not valid.
    pub fn new(configured: Option<usize>, required: usize) -> (cache: Result<
        Self,
        BatchTransferError,
    >)
        ensures
            ({
                let count = cache_size(configured, required);
                match cache {
                    Ok(c) => c.wf() && c@.len() == count && forall|i: int|
                        0 <= i < count ==> address_of_key(#[trigger] private_key(i)) is Some,
                    Err(e) => exists|i: int|
                        0 <= i < count && e == BatchTransferError::InvalidKey(i as usize)
                            && address_of_key(#[trigger] private_key(i)) is None && forall|j: int|
                            0 <= j < i ==> address_of_key(#[trigger] private_key(j)) is Some,
                }
            }),
    {
        let configured_count: usize = match configured {
            Some(n) => n,
            None => DEFAULT_ACCOUNT_CACHE,
        };
        let mut count: usize = if configured_count > DEFAULT_ACCOUNT_CACHE {
            configured_count
        } else {
            DEFAULT_ACCOUNT_CACHE
        };
        if required > count {
            count = required;
        }
        let mut accounts: Vec<BatchAccount> = Vec::new();
        let mut i: usize = 0;
        while i < count
            invariant
                i <= count,
                count == cache_size(configured, required),
                accounts@.len() == i,
                forall|j: int|
                    0 <= j < i ==> (#[trigger] accounts@[j]).key == private_key(j)
                        && address_of_key(private_key(j)) == Some(accounts@[j].address),
                forall|j: int| 0 <= j < i ==> address_of_key(#[trigger] private_key(j)) is Some,
            decreases count - i,
        {
            let key = derive_private_key(i);
            match key_address(&key) {
                Some(address) => {
                    accounts.push(BatchAccount { key, address });
                },
                None => {
                    assert(address_of_key(private_key(i as int)) is None);
                    return Err(BatchTransferError::InvalidKey(i));
                },
            }
            i += 1;
        }
        Ok(AccountCache { accounts })
    }

    /// Fails where there are fewer than `required` accounts.
    pub fn require(&self, required: usize) -> (enough: Result<(), BatchTransferError>)
        ensures
            enough == if self@.len() < required {
                Err::<(), BatchTransferError>(
                    BatchTransferError::AccountCacheTooSmall {
                        have: self@.len() as usize,
                        need: required,
                    },
                )
            } else {
                Ok(())
            },
    {
        if self.accounts.len() < required {
            return Err(
                BatchTransferError::AccountCacheTooSmall {
                    have: self.accounts.len(),
                    need: required,
                },
            );
        }
        Ok(())
    }
}

/// How many accounts are derived.
pub open spec fn cache_size(configured: Option<usize>, required: usize) -> int {
    let wanted = match configured {
        Some(n) => if n > DEFAULT_ACCOUNT_CACHE {
            n
        } else {
            DEFAULT_ACCOUNT_CACHE
        },
        None => DEFAULT_ACCOUNT_CACHE,
    };
    if required > wanted {
        required as int
    } else {
        wanted as int
    }
}

/// One transfer of one unit: the `n`-th of a block.
pub open spec fn record_at(n: int) -> Seq<u8> {
    spec_u32_to_le_bytes((n as u32).wrapping_mul(RECIPIENT_SPREAD)) + spec_u64_to_le_bytes(1)
}

/// The transfers from number `first` on, `count` of them.
pub open spec fn records_from(first: int, count: int) -> Seq<u8>
    decreases count,
{
    if count <= 0 {
        Seq::empty()
    } else {
        records_from(first, count - 1) + record_at(first + count - 1)
    }
}

/// A sequence of records is as long as its records together.
pub proof fn records_len(first: int, count: int)
    requires
        0 <= count,
    ensures
        records_from(first, count).len() == count * 12,
    decreases count,
{
    vstd::bytes::lemma_auto_spec_u32_to_from_le_bytes();
    vstd::bytes::lemma_auto_spec_u64_to_from_le_bytes();
    if count > 0 {
        records_len(first, count - 1);
        let r = record_at(first + count - 1);
        assert(spec_u32_to_le_bytes(
            ((first + count - 1) as u32).wrapping_mul(RECIPIENT_SPREAD),
        ).len() == 4);
        assert(spec_u64_to_le_bytes(1).len() == 8);
        assert(r.len() == 12);
    }
}

/// Appends the transfers of sender `sender_idx`.
pub fn push_records(buf: &mut Vec<u8>, sender_idx: usize, transfers: usize)
    requires
        sender_idx * transfers + transfers <= usize::MAX,
    ensures
        final(buf)@ == old(buf)@ + records_from(sender_idx * transfers, transfers as int),
{
    let first: usize = sender_idx * transfers;
    let mut i: usize = 0;
    assert(buf@ =~= old(buf)@ + records_from(first as int, 0));
    while i < transfers
        invariant
            i <= transfers,
            first == sender_idx * transfers,
            first + transfers <= usize::MAX,
            buf@ == old(buf)@ + records_from(first as int, i as int),
        decreases transfers - i,
    {
        let number: u32 = #[verifier::truncate]
        ((first + i) as u32);
        let recipient_index: u32 = number.wrapping_mul(RECIPIENT_SPREAD);
        let ghost before = buf@;
        let mut recipient = u32_to_le_bytes(recipient_index);
        let mut amount = u64_to_le_bytes(1);
        buf.append(&mut recipient);
        buf.append(&mut amount);
        proof {
            assert(buf@ =~= before + record_at(first + i));
            assert(old(buf)@ + records_from(first as int, i + 1) =~= buf@);
        }
        i += 1;
    }
}

/// The bytes that a sender's signature covers.
pub open spec fn signed_bytes(
    chain_id: u64,
    block_number: u64,
    start_nonce: u64,
    count: u32,
    records: Seq<u8>,
) -> Seq<u8> {
    DOMAIN@ + spec_u64_to_le_bytes(chain_id) + spec_u64_to_le_bytes(block_number)
        + spec_u64_to_le_bytes(start_nonce) + spec_u32_to_le_bytes(count) + blake3_of(records)@
}

/// The hash that a sender signs for its batch.
pub fn prehash(
    chain_id: u64,
    block_number: u64,
    start_nonce: u64,
    count: u32,
    records: &[u8],
) -> (hash: B256)
    ensures
        hash == blake3_of(signed_bytes(chain_id, block_number, start_nonce, count, records@)),
{
    let records_hash = blake3_hash(records);
    let mut message: Vec<u8> = Vec::new();
    message.extend_from_slice(DOMAIN.as_slice());
    assert(message@ =~= DOMAIN@);
    let mut chain = u64_to_le_bytes(chain_id);
    let mut block = u64_to_le_bytes(block_number);
    let mut nonce = u64_to_le_bytes(start_nonce);
    let mut number = u32_to_le_bytes(count);
    message.append(&mut chain);
    message.append(&mut block);
    message.append(&mut nonce);
    message.append(&mut number);
    let ghost before = message@;
    message.extend_from_slice(records_hash.as_slice());
    assert(message@ =~= before + records_hash@);
    blake3_hash(message.as_slice())
}

/// The nonce of the first transfer of sender `sender_idx`.
pub open spec fn first_nonce(block_number: u64, sender_idx: int, transfers: int) -> u64 {
    let base = saturating_product(block_number as int, transfers, u64::MAX as int);
    if base + sender_idx * transfers > u64::MAX {
        u64::MAX
    } else {
        (base + sender_idx * transfers) as u64
    }
}

/// The hash that sender `sender_idx` signs.
pub open spec fn batch_hash(
    chain_id: u64,
    block_number: u64,
    sender_idx: int,
    transfers: int,
) -> B256 {
    blake3_of(
        signed_bytes(
            chain_id,
            block_number,
            first_nonce(block_number, sender_idx, transfers),
            transfers as u32,
            records_from(sender_idx * transfers, transfers),
        ),
    )
}

/// The signature of sender `sender_idx` under its batch.
pub open spec fn batch_signature(
    chain_id: u64,
    block_number: u64,
    sender_idx: int,
    transfers: int,
) -> Option<[u8; 65]> {
    signature_of(
        private_key(sender_idx),
        batch_hash(chain_id, block_number, sender_idx, transfers),
    )
}

/// The signature of sender `i` leads back to the sender's address.
pub open spec fn batch_leads_back(
    chain_id: u64,
    block_number: u64,
    i: int,
    transfers: int,
) -> bool {
    batch_signature(chain_id, block_number, i, transfers) matches Some(signature)
        && recovered_signer(signature@, batch_hash(chain_id, block_number, i, transfers))
        == address_of_key(private_key(i))
}

/// Sender `i` signed its batch: the signature can be parsed, and where its
/// coordinate is high it leads back to the sender's address.
pub open spec fn batch_is_signed(
    chain_id: u64,
    block_number: u64,
    i: int,
    transfers: int,
) -> bool {
    batch_signature(chain_id, block_number, i, transfers) matches Some(signature)
        && well_formed_signature(signature@) && (has_high_coordinate(signature@)
        ==> batch_leads_back(chain_id, block_number, i, transfers))
}

/// The bytes of the batch of sender `sender_idx`.
pub open spec fn batch_bytes(
    chain_id: u64,
    block_number: u64,
    sender_idx: int,
    transfers: int,
) -> Seq<u8> {
    spec_u64_to_le_bytes(first_nonce(block_number, sender_idx, transfers)) + spec_u32_to_le_bytes(
        transfers as u32,
    ) + batch_signature(chain_id, block_number, sender_idx, transfers)->0@ + records_from(
        sender_idx * transfers,
        transfers,
    )
}

/// The bytes of a block up to and without the batch of sender `n`.
pub open spec fn block_bytes(
    chain_id: u64,
    block_number: u64,
    senders: usize,
    transfers: int,
    n: int,
) -> Seq<u8>
    decreases n,
{
    if n <= 0 {
        spec_u64_to_le_bytes(block_number) + spec_u32_to_le_bytes(senders as u32)
    } else {
        block_bytes(chain_id, block_number, senders, transfers, n - 1) + batch_bytes(
            chain_id,
            block_number,
            n - 1,
            transfers,
        )
    }
}

/// Builds the block `block_number`: its hash, its bytes and what it holds.
pub fn build_block(
    cfg: &BatchTransferConfig,
    accounts: &AccountCache,
    chain_id: u64,
    block_number: u64,
) -> (built: Result<(B256, Vec<u8>, BatchTransferStats), BatchTransferError>)
    requires
        accounts.wf(),
        12 + cfg.senders * (77 + cfg.transfers_per_sender * 12) <= usize::MAX,
    ensures
        match built {
            Ok((hash, encoded, stats)) => {
                &&& cfg.senders <= accounts@.len()
                &&& forall|i: int|
                    0 <= i < cfg.senders ==> #[trigger] batch_is_signed(
                        chain_id,
                        block_number,
                        i,
                        cfg.transfers_per_sender as int,
                    )
                &&& encoded@ == block_bytes(
                    chain_id,
                    block_number,
                    cfg.senders,
                    cfg.transfers_per_sender as int,
                    cfg.senders as int,
                )
                &&& encoded@.len() == 12 + cfg.senders * (77 + cfg.transfers_per_sender * 12)
                &&& hash == blake3_of(encoded@)
                &&& stats == (BatchTransferStats {
                    block_number,
                    senders: cfg.senders,
                    transfers_per_sender: cfg.transfers_per_sender,
                    transfers: (cfg.senders * cfg.transfers_per_sender) as u64,
                    encoded_bytes: encoded@.len() as usize,
                })
            },
            Err(e) => {
                ||| cfg.senders > accounts@.len() && e == (
                BatchTransferError::AccountCacheTooSmall {
                    have: accounts@.len() as usize,
                    need: cfg.senders,
                })
                ||| cfg.senders <= accounts@.len() && exists|i: int|
                    0 <= i < cfg.senders && e == BatchTransferError::SignFailed(i as usize)
                        && #[trigger] batch_signature(
                        chain_id,
                        block_number,
                        i,
                        cfg.transfers_per_sender as int,
                    ) is None && forall|j: int|
                        0 <= j < i ==> #[trigger] batch_signature(
                            chain_id,
                            block_number,
                            j,
                            cfg.transfers_per_sender as int,
                        ) is Some
            },
        },
{
    let senders: usize = cfg.senders;
    let transfers: usize = cfg.transfers_per_sender;
    match accounts.require(senders) {
        Ok(()) => {},
        Err(e) => {
            return Err(e);
        },
    }
    assert(senders * transfers <= usize::MAX) by (nonlinear_arith)
        requires
            12 + senders * (77 + transfers * 12) <= usize::MAX,
            0 <= senders,
            0 <= transfers,
    ;
    let mut encoded = u64_to_le_bytes(block_number);
    let mut number = u32_to_le_bytes(
        #[verifier::truncate]
        (senders as u32),
    );
    encoded.append(&mut number);
    let mut sender_idx: usize = 0;
    while sender_idx < senders
        invariant
            sender_idx <= senders <= accounts@.len(),
            senders == cfg.senders,
            transfers == cfg.transfers_per_sender,
            accounts.wf(),
            senders * transfers <= usize::MAX,
            encoded@ == block_bytes(
                chain_id,
                block_number,
                senders,
                transfers as int,
                sender_idx as int,
            ),
            forall|i: int|
                0 <= i < sender_idx ==> #[trigger] batch_is_signed(
                    chain_id,
                    block_number,
                    i,
                    transfers as int,
                ),
        decreases senders - sender_idx,
    {
        assert(sender_idx * transfers + transfers <= usize::MAX) by (nonlinear_arith)
            requires
                sender_idx < senders,
                senders * transfers <= usize::MAX,
                0 <= transfers,
        ;
        let offset: u64 = sender_idx as u64 * transfers as u64;
        let start_nonce: u64 = saturating_mul_u64(block_number, transfers as u64).saturating_add(
            offset,
        );
        assert(start_nonce == first_nonce(block_number, sender_idx as int, transfers as int));
        let count: u32 = #[verifier::truncate]
        (transfers as u32);
        let mut records: Vec<u8> = Vec::new();
        push_records(&mut records, sender_idx, transfers);
        assert(records@ =~= records_from(sender_idx * transfers, transfers as int));
        let hash = prehash(chain_id, block_number, start_nonce, count, records.as_slice());
        match sign_hash(&accounts.accounts[sender_idx].key, &hash) {
            Some(signature) => {
                let ghost before = encoded@;
                let mut nonce = u64_to_le_bytes(start_nonce);
                let mut number = u32_to_le_bytes(count);
                encoded.append(&mut nonce);
                encoded.append(&mut number);
                let ghost headed = encoded@;
                encoded.extend_from_slice(signature.as_slice());
                assert(encoded@ =~= headed + signature@);
                encoded.append(&mut records);
                assert(encoded@ =~= before + batch_bytes(
                    chain_id,
                    block_number,
                    sender_idx as int,
                    transfers as int,
                ));
            },
            None => {
                assert(batch_signature(chain_id, block_number, sender_idx as int, transfers as int)
                    is None);
                assert forall|j: int| 0 <= j < sender_idx implies #[trigger] batch_signature(
                    chain_id,
                    block_number,
                    j,
                    transfers as int,
                ) is Some by {
                    assert(batch_is_signed(chain_id, block_number, j, transfers as int));
                }
                return Err(BatchTransferError::SignFailed(sender_idx));
            },
        }
        sender_idx += 1;
    }
    proof {
        block_bytes_len(chain_id, block_number, senders, transfers as int, senders as int);
    }
    let hash = blake3_hash(encoded.as_slice());
    let stats = BatchTransferStats {
        block_number,
        senders,
        transfers_per_sender: transfers,
        transfers: (senders * transfers) as u64,
        encoded_bytes: encoded.len(),
    };
    Ok((hash, encoded, stats))
}

/// Reads a little-endian `u32` at `offset` and moves `offset` behind it.
pub fn read_u32(bytes: &[u8], offset: &mut usize) -> (value: Result<u32, BatchTransferError>)
    ensures
        match value {
            Ok(v) => *old(offset) + 4 <= bytes@.len() && *final(offset) == *old(offset) + 4 && v
                == spec_u32_from_le_bytes(bytes@.subrange(*old(offset) as int, *old(offset) + 4)),
            Err(e) => *old(offset) + 4 > bytes@.len() && *final(offset) == *old(offset) && e
                == BatchTransferError::TruncatedU32,
        },
{
    let at: usize = *offset;
    if at > bytes.len() || bytes.len() - at < 4 {
        return Err(BatchTransferError::TruncatedU32);
    }
    let value: u32 = u32_from_le_bytes(vstd::slice::slice_subrange(bytes, at, at + 4));
    *offset = at + 4;
    Ok(value)
}

/// Reads a little-endian `u64` at `offset` and moves `offset` behind it.
pub fn read_u64(bytes: &[u8], offset: &mut usize) -> (value: Result<u64, BatchTransferError>)
    ensures
        match value {
            Ok(v) => *old(offset) + 8 <= bytes@.len() && *final(offset) == *old(offset) + 8 && v
                == spec_u64_from_le_bytes(bytes@.subrange(*old(offset) as int, *old(offset) + 8)),
            Err(e) => *old(offset) + 8 > bytes@.len() && *final(offset) == *old(offset) && e
                == BatchTransferError::TruncatedU64,
        },
{
    let at: usize = *offset;
    if at > bytes.len() || bytes.len() - at < 8 {
        return Err(BatchTransferError::TruncatedU64);
    }
    let value: u64 = u64_from_le_bytes(vstd::slice::slice_subrange(bytes, at, at + 8));
    *offset = at + 8;
    Ok(value)
}

/// How many records a block of this length holds if it is well formed.
pub open spec fn record_estimate(encoded_len: int, senders: int) -> int {
    let headers = saturating_product(senders, 77, usize::MAX as int);
    let body = if encoded_len >= 12 {
        encoded_len - 12
    } else {
        0
    };
    if body >= headers {
        (body - headers) / 12
    } else {
        0
    }
}

/// How many records, and so how many recipients, a block can hold.
pub fn estimated_recipient_count(encoded: &[u8], senders: usize) -> (n: usize)
    ensures
        n == record_estimate(encoded@.len() as int, senders as int),
{
    let body: usize = encoded.len().saturating_sub(12);
    let records: usize = body.saturating_sub(saturating_mul_usize(senders, HEADER_BYTES));
    records / RECORD_BYTES
}

/// Balances and nonces while a block is applied.
pub struct BatchLedger {
    pub sender_balances: Vec<u128>,
    pub sender_nonces: Vec<u64>,
    pub recipient_balances: Vec<u128>,
    /// Changes with every balance that a transfer leaves behind.
    pub checksum: u128,
}

/// The contents of a ledger.
pub ghost struct LedgerState {
    pub sender_balances: Seq<u128>,
    pub sender_nonces: Seq<u64>,
    pub recipient_balances: Seq<u128>,
    pub checksum: u128,
}

impl View for BatchLedger {
    type V = LedgerState;

    open spec fn view(&self) -> LedgerState {
        LedgerState {
            sender_balances: self.sender_balances@,
            sender_nonces: self.sender_nonces@,
            recipient_balances: self.recipient_balances@,
            checksum: self.checksum,
        }
    }
}

/// How many recipients a block of this length is applied to.
pub open spec fn recipient_count(encoded_len: int, senders: int) -> int {
    let n = record_estimate(encoded_len, senders);
    if n > 2_000_000 {
        2_000_000
    } else if n < 1 {
        1
    } else {
        n
    }
}

/// The ledger before the first transfer: every sender holds a quarter of the
/// largest amount, every recipient nothing.
pub open spec fn opening_ledger(encoded_len: int, senders: int) -> LedgerState {
    let n = if senders == 0 {
        1
    } else {
        senders
    } as nat;
    LedgerState {
        sender_balances: Seq::new(n, |i: int| u128::MAX / 4),
        sender_nonces: Seq::new(n, |i: int| 0u64),
        recipient_balances: Seq::new(
            recipient_count(encoded_len, senders) as nat,
            |i: int| 0u128,
        ),
        checksum: 0,
    }
}

/// The recipient that record `k` names.
pub open spec fn record_recipient(records: Seq<u8>, k: int) -> u32 {
    spec_u32_from_le_bytes(records.subrange(12 * k, 12 * k + 4))
}

/// The amount that record `k` moves.
pub open spec fn record_amount(records: Seq<u8>, k: int) -> u64 {
    spec_u64_from_le_bytes(records.subrange(12 * k + 4, 12 * k + 12))
}

/// The ledger after one transfer.
pub open spec fn transferred(
    ledger: LedgerState,
    sender: int,
    recipient_index: u32,
    amount: u64,
) -> LedgerState {
    let recipient = recipient_index as int % ledger.recipient_balances.len() as int;
    let credited = ledger.recipient_balances[recipient].wrapping_add(amount as u128);
    LedgerState {
        sender_balances: ledger.sender_balances.update(
            sender,
            ledger.sender_balances[sender].wrapping_sub(amount as u128),
        ),
        sender_nonces: ledger.sender_nonces.update(
            sender,
            ledger.sender_nonces[sender].wrapping_add(1),
        ),
        recipient_balances: ledger.recipient_balances.update(recipient, credited),
        checksum: ledger.checksum ^ credited,
    }
}

/// The ledger after the first `n` of a sender's transfers.
pub open spec fn applied(
    ledger: LedgerState,
    sender: int,
    start_nonce: u64,
    records: Seq<u8>,
    n: int,
) -> LedgerState
    decreases n,
{
    if n <= 0 {
        LedgerState {
            sender_nonces: ledger.sender_nonces.update(sender, start_nonce),
            ..ledger
        }
    } else {
        transferred(
            applied(ledger, sender, start_nonce, records, n - 1),
            sender,
            record_recipient(records, n - 1),
            record_amount(records, n - 1),
        )
    }
}

proof fn applied_shape(
    ledger: LedgerState,
    sender: int,
    start_nonce: u64,
    records: Seq<u8>,
    n: int,
)
    requires
        0 <= sender < ledger.sender_balances.len(),
        sender < ledger.sender_nonces.len(),
        ledger.recipient_balances.len() > 0,
    ensures
        ({
            let after = applied(ledger, sender, start_nonce, records, n);
            &&& after.sender_balances.len() == ledger.sender_balances.len()
            &&& after.sender_nonces.len() == ledger.sender_nonces.len()
            &&& after.recipient_balances.len() == ledger.recipient_balances.len()
        }),
    decreases n,
{
    if n > 0 {
        applied_shape(ledger, sender, start_nonce, records, n - 1);
    }
}

impl BatchLedger {
    /// The ledger before the first transfer of a block.
    pub fn new(encoded: &[u8], senders: usize) -> (ledger: Self)
        ensures
            ledger@ == opening_ledger(encoded@.len() as int, senders as int),
    {
        let n: usize = if senders == 0 {
            1
        } else {
            senders
        };
        let mut recipients: usize = estimated_recipient_count(encoded, senders);
        if recipients > 2_000_000 {
            recipients = 2_000_000;
        }
        if recipients < 1 {
            recipients = 1;
        }
        let sender_balances: Vec<u128> = vec![u128::MAX / 4; n];
        let sender_nonces: Vec<u64> = vec![0; n];
        let recipient_balances: Vec<u128> = vec![0; recipients];
        let ledger = BatchLedger { sender_balances, sender_nonces, recipient_balances, checksum: 0 };
        proof {
            let opening = opening_ledger(encoded@.len() as int, senders as int);
            assert(ledger.sender_balances@ =~= opening.sender_balances);
            assert(ledger.sender_nonces@ =~= opening.sender_nonces);
            assert(ledger.recipient_balances@ =~= opening.recipient_balances);
        }
        ledger
    }

    /// Applies the transfers of sender `sender`.
    pub fn apply(&mut self, sender: usize, start_nonce: u64, records: &[u8])
        requires
            sender < old(self).sender_balances@.len(),
            sender < old(self).sender_nonces@.len(),
            old(self).recipient_balances@.len() > 0,
            records@.len() % 12 == 0,
        ensures
            final(self)@ == applied(
                old(self)@,
                sender as int,
                start_nonce,
                records@,
                records@.len() as int / 12,
            ),
    {
        let recipients: usize = self.recipient_balances.len();
        self.sender_nonces[sender] = start_nonce;
        let len: usize = records.len();
        let count: usize = len / RECORD_BYTES;
        let mut k: usize = 0;
        while k < count
            invariant
                k <= count,
                len == records@.len(),
                count == records@.len() / 12,
                recipients == self.recipient_balances@.len(),
                recipients > 0,
                sender < self.sender_balances@.len(),
                sender < self.sender_nonces@.len(),
                self@ == applied(old(self)@, sender as int, start_nonce, records@, k as int),
            decreases count - k,
        {
            let at: usize = k * 12;
            let recipient_index: u32 = u32_from_le_bytes(
                vstd::slice::slice_subrange(records, at, at + 4),
            );
            let amount: u128 = u64_from_le_bytes(
                vstd::slice::slice_subrange(records, at + 4, at + 12),
            ) as u128;
            let recipient: usize = recipient_index as usize % recipients;
            self.sender_balances[sender] = self.sender_balances[sender].wrapping_sub(amount);
            let credited: u128 = self.recipient_balances[recipient].wrapping_add(amount);
            self.recipient_balances[recipient] = credited;
            self.sender_nonces[sender] = self.sender_nonces[sender].wrapping_add(1);
            self.checksum = self.checksum ^ credited;
            k += 1;
        }
    }
}

/// One sender's batch in a block: where its records are and what its header says.
pub ghost struct BatchAt {
    pub start_nonce: u64,
    pub count: u32,
    pub records: Seq<u8>,
    pub end: int,
}

/// Reads and checks the batch of sender `sender_idx` that starts at `offset`.
pub open spec fn batch_at(
    encoded: Seq<u8>,
    offset: int,
    sender_idx: int,
    chain_id: u64,
    block_number: u64,
    address: Address,
) -> Result<BatchAt, BatchTransferError> {
    let left = encoded.len() - offset;
    let start_nonce = spec_u64_from_le_bytes(encoded.subrange(offset, offset + 8));
    let count = spec_u32_from_le_bytes(encoded.subrange(offset + 8, offset + 12));
    let signature = encoded.subrange(offset + 12, offset + 77);
    let end = offset + 77 + count * 12;
    let records = encoded.subrange(offset + 77, end);
    let hash = blake3_of(signed_bytes(chain_id, block_number, start_nonce, count, records));
    if left < 8 {
        Err(BatchTransferError::TruncatedU64)
    } else if left < 12 {
        Err(BatchTransferError::TruncatedU32)
    } else if left < 77 {
        Err(BatchTransferError::TruncatedSignature)
    } else if !well_formed_signature(signature) {
        Err(BatchTransferError::InvalidSignature)
    } else if count * 12 > usize::MAX {
        Err(BatchTransferError::RecordsOverflow)
    } else if left < 77 + count * 12 {
        Err(BatchTransferError::TruncatedRecords)
    } else {
        match recovered_signer(signature, hash) {
            None => Err(BatchTransferError::Unrecoverable),
            Some(signer) => if signer == address {
                Ok(BatchAt { start_nonce, count, records, end })
            } else {
                Err(BatchTransferError::SenderMismatch(sender_idx as usize))
            },
        }
    }
}

/// What is left of a block once the batches from `sender_idx` on have been
/// checked and applied: the number of transfers, the end, and the ledger.
pub open spec fn apply_batches(
    encoded: Seq<u8>,
    offset: int,
    sender_idx: int,
    senders: int,
    chain_id: u64,
    block_number: u64,
    accounts: Seq<BatchAccount>,
    transfers: int,
    ledger: LedgerState,
) -> Result<(int, int, LedgerState), BatchTransferError>
    decreases senders - sender_idx,
{
    if sender_idx >= senders {
        Ok((transfers, offset, ledger))
    } else {
        match batch_at(
            encoded,
            offset,
            sender_idx,
            chain_id,
            block_number,
            accounts[sender_idx].address,
        ) {
            Err(e) => Err(e),
            Ok(batch) => apply_batches(
                encoded,
                batch.end,
                sender_idx + 1,
                senders,
                chain_id,
                block_number,
                accounts,
                transfers + batch.count,
                applied(ledger, sender_idx, batch.start_nonce, batch.records, batch.count as int),
            ),
        }
    }
}

/// What verifying and applying a block gives.
pub open spec fn block_outcome(
    encoded: Seq<u8>,
    expected_hash: B256,
    chain_id: u64,
    accounts: Seq<BatchAccount>,
) -> Result<(BatchTransferStats, LedgerState), BatchTransferError> {
    let actual = blake3_of(encoded);
    let block_number = spec_u64_from_le_bytes(encoded.subrange(0, 8));
    let senders = spec_u32_from_le_bytes(encoded.subrange(8, 12));
    if actual != expected_hash {
        Err(BatchTransferError::HashMismatch { expected: expected_hash, actual })
    } else if encoded.len() < 8 {
        Err(BatchTransferError::TruncatedU64)
    } else if encoded.len() < 12 {
        Err(BatchTransferError::TruncatedU32)
    } else if accounts.len() < senders {
        Err(
            BatchTransferError::AccountCacheTooSmall {
                have: accounts.len() as usize,
                need: senders as usize,
            },
        )
    } else {
        match apply_batches(
            encoded,
            12,
            0,
            senders as int,
            chain_id,
            block_number,
            accounts,
            0,
            opening_ledger(encoded.len() as int, senders as int),
        ) {
            Err(e) => Err(e),
            Ok((transfers, end, ledger)) => if end != encoded.len() {
                Err(BatchTransferError::TrailingBytes((encoded.len() - end) as usize))
            } else {
                Ok(
                    (
                        BatchTransferStats {
                            block_number,
                            senders: senders as usize,
                            transfers_per_sender: if senders == 0 {
                                0
                            } else {
                                (transfers / senders as int) as usize
                            },
                            transfers: transfers as u64,
                            encoded_bytes: encoded.len() as usize,
                        },
                        ledger,
                    ),
                )
            },
        }
    }
}

/// Checks a block against its hash and its senders' signatures, applies its
/// transfers, and hands back what it holds and the ledger that it leaves.
pub fn apply_block(
    encoded: &[u8],
    expected_hash: &B256,
    chain_id: u64,
    accounts: &AccountCache,
) -> (outcome: Result<(BatchTransferStats, BatchLedger), BatchTransferError>)
    ensures
        match outcome {
            Ok((stats, ledger)) => block_outcome(encoded@, *expected_hash, chain_id, accounts@)
                == Ok::<_, BatchTransferError>((stats, ledger@)),
            Err(e) => block_outcome(encoded@, *expected_hash, chain_id, accounts@) == Err::<
                (BatchTransferStats, LedgerState),
                _,
            >(e),
        },
{
    let actual = blake3_hash(encoded);
    if !same_key(&actual, expected_hash) {
        return Err(BatchTransferError::HashMismatch { expected: *expected_hash, actual });
    }
    let mut offset: usize = 0;
    let block_number: u64 = match read_u64(encoded, &mut offset) {
        Ok(v) => v,
        Err(e) => {
            return Err(e);
        },
    };
    let senders: usize = match read_u32(encoded, &mut offset) {
        Ok(v) => v as usize,
        Err(e) => {
            return Err(e);
        },
    };
    match accounts.require(senders) {
        Ok(()) => {},
        Err(e) => {
            return Err(e);
        },
    }
    let mut total: usize = 0;
    let mut ledger = BatchLedger::new(encoded, senders);
    let ghost opening = ledger@;
    let mut idx: usize = 0;
    while idx < senders
        invariant
            idx <= senders <= accounts@.len(),
            offset <= encoded@.len(),
            total * 12 <= offset,
            ledger.sender_balances@.len() >= senders,
            ledger.sender_nonces@.len() >= senders,
            ledger.recipient_balances@.len() > 0,
            blake3_of(encoded@) == *expected_hash,
            encoded@.len() >= 12,
            block_number == spec_u64_from_le_bytes(encoded@.subrange(0, 8)),
            senders == spec_u32_from_le_bytes(encoded@.subrange(8, 12)),
            opening == opening_ledger(encoded@.len() as int, senders as int),
            apply_batches(
                encoded@,
                12,
                0,
                senders as int,
                chain_id,
                block_number,
                accounts@,
                0,
                opening,
            ) == apply_batches(
                encoded@,
                offset as int,
                idx as int,
                senders as int,
                chain_id,
                block_number,
                accounts@,
                total as int,
                ledger@,
            ),
        decreases senders - idx,
    {
        let ghost start = offset as int;
        let start_nonce: u64 = match read_u64(encoded, &mut offset) {
            Ok(v) => v,
            Err(e) => {
                return Err(e);
            },
        };
        let count: u32 = match read_u32(encoded, &mut offset) {
            Ok(v) => v,
            Err(e) => {
                return Err(e);
            },
        };
        if encoded.len() - offset < 65 {
            return Err(BatchTransferError::TruncatedSignature);
        }
        let signature = vstd::slice::slice_subrange(encoded, offset, offset + 65);
        if !signature_is_well_formed(signature) {
            return Err(BatchTransferError::InvalidSignature);
        }
        offset = offset + 65;
        let records_len: usize = match (count as usize).checked_mul(RECORD_BYTES) {
            Some(n) => n,
            None => {
                return Err(BatchTransferError::RecordsOverflow);
            },
        };
        if encoded.len() - offset < records_len {
            return Err(BatchTransferError::TruncatedRecords);
        }
        let records_end: usize = offset + records_len;
        let records = vstd::slice::slice_subrange(encoded, offset, records_end);
        let hash = prehash(chain_id, block_number, start_nonce, count, records);
        match recover_signer(signature, &hash) {
            None => {
                return Err(BatchTransferError::Unrecoverable);
            },
            Some(signer) => {
                if !same_key(&signer, &accounts.accounts[idx].address) {
                    return Err(BatchTransferError::SenderMismatch(idx));
                }
            },
        }
        let ghost before = ledger@;
        ledger.apply(idx, start_nonce, records);
        proof {
            applied_shape(before, idx as int, start_nonce, records@, count as int);
            assert(records@.len() as int / 12 == count);
        }
        total = total + count as usize;
        offset = records_end;
        idx += 1;
    }
    if offset != encoded.len() {
        return Err(BatchTransferError::TrailingBytes(encoded.len() - offset));
    }
    let transfers_per_sender: usize = if senders == 0 {
        0
    } else {
        total / senders
    };
    let stats = BatchTransferStats {
        block_number,
        senders,
        transfers_per_sender,
        transfers: total as u64,
        encoded_bytes: encoded.len(),
    };
    Ok((stats, ledger))
}

/// Checks a block against its hash and its senders' signatures, and applies its
/// transfers.
pub fn verify_apply_block(
    encoded: &[u8],
    expected_hash: &B256,
    chain_id: u64,
    accounts: &AccountCache,
) -> (stats: Result<BatchTransferStats, BatchTransferError>)
    ensures
        match block_outcome(encoded@, *expected_hash, chain_id, accounts@) {
            Ok((s, _)) => stats == Ok::<BatchTransferStats, BatchTransferError>(s),
            Err(e) => stats == Err::<BatchTransferStats, BatchTransferError>(e),
        },
{
    match apply_block(encoded, expected_hash, chain_id, accounts) {
        Ok((stats, _)) => Ok(stats),
        Err(e) => Err(e),
    }
}

/// Every sender of a block signed its batch, and a signature whose coordinate is
/// low leads back to its sender, as those with a high one do.
pub open spec fn signatures_lead_back(
    chain_id: u64,
    block_number: u64,
    senders: int,
    transfers: int,
) -> bool {
    forall|i: int|
        0 <= i < senders ==> #[trigger] batch_is_signed(chain_id, block_number, i, transfers) && (
        has_high_coordinate(batch_signature(chain_id, block_number, i, transfers)->0@)
            || batch_leads_back(chain_id, block_number, i, transfers))
}

/// Where the batch of sender `i` starts.
spec fn batch_start(transfers: int, i: int) -> int {
    12 + i * (77 + transfers * 12)
}

proof fn batch_start_step(transfers: int, i: int)
    ensures
        batch_start(transfers, i + 1) == batch_start(transfers, i) + 77 + transfers * 12,
{
    assert((i + 1) * (77 + transfers * 12) == i * (77 + transfers * 12) + 77 + transfers * 12)
        by (nonlinear_arith);
}

proof fn block_bytes_len(
    chain_id: u64,
    block_number: u64,
    senders: usize,
    transfers: int,
    n: int,
)
    requires
        0 <= n,
        0 <= transfers,
    ensures
        block_bytes(chain_id, block_number, senders, transfers, n).len() == batch_start(
            transfers,
            n,
        ),
    decreases n,
{
    vstd::bytes::lemma_auto_spec_u32_to_from_le_bytes();
    vstd::bytes::lemma_auto_spec_u64_to_from_le_bytes();
    if n > 0 {
        block_bytes_len(chain_id, block_number, senders, transfers, n - 1);
        batch_start_step(transfers, n - 1);
        records_len((n - 1) * transfers, transfers);
        let b = batch_bytes(chain_id, block_number, n - 1, transfers);
        assert(b.len() == 77 + transfers * 12);
    } else {
        assert(spec_u64_to_le_bytes(block_number).len() == 8);
        assert(spec_u32_to_le_bytes(senders as u32).len() == 4);
    }
}

proof fn block_bytes_prefix(
    chain_id: u64,
    block_number: u64,
    senders: usize,
    transfers: int,
    n: int,
    m: int,
)
    requires
        0 <= n <= m,
        0 <= transfers,
    ensures
        block_bytes(chain_id, block_number, senders, transfers, m).take(
            batch_start(transfers, n),
        ) == block_bytes(chain_id, block_number, senders, transfers, n),
        batch_start(transfers, n) <= batch_start(transfers, m),
    decreases m - n,
{
    block_bytes_len(chain_id, block_number, senders, transfers, m);
    block_bytes_len(chain_id, block_number, senders, transfers, n);
    let whole = block_bytes(chain_id, block_number, senders, transfers, m);
    if n == m {
        assert(whole.take(batch_start(transfers, n)) =~= whole);
    } else {
        block_bytes_prefix(chain_id, block_number, senders, transfers, n, m - 1);
        block_bytes_len(chain_id, block_number, senders, transfers, m - 1);
        batch_start_step(transfers, m - 1);
        let shorter = block_bytes(chain_id, block_number, senders, transfers, m - 1);
        assert(whole.take(batch_start(transfers, n)) =~= shorter.take(batch_start(transfers, n)));
    }
}

proof fn built_batch_reads_back(
    chain_id: u64,
    block_number: u64,
    senders: usize,
    transfers: int,
    i: int,
    address: Address,
)
    requires
        0 <= i < senders,
        0 <= transfers <= u32::MAX,
        batch_start(transfers, senders as int) <= usize::MAX,
        signatures_lead_back(chain_id, block_number, senders as int, transfers),
        address_of_key(private_key(i)) == Some(address),
    ensures
        ({
            let encoded = block_bytes(chain_id, block_number, senders, transfers, senders as int);
            let start_nonce = first_nonce(block_number, i, transfers);
            batch_at(encoded, batch_start(transfers, i), i, chain_id, block_number, address) == Ok::<
                BatchAt,
                BatchTransferError,
            >(
                BatchAt {
                    start_nonce,
                    count: transfers as u32,
                    records: records_from(i * transfers, transfers),
                    end: batch_start(transfers, i + 1),
                },
            )
        }),
{
    vstd::bytes::lemma_auto_spec_u32_to_from_le_bytes();
    vstd::bytes::lemma_auto_spec_u64_to_from_le_bytes();
    let encoded = block_bytes(chain_id, block_number, senders, transfers, senders as int);
    let from = batch_start(transfers, i);
    let to = batch_start(transfers, i + 1);
    block_bytes_len(chain_id, block_number, senders, transfers, senders as int);
    block_bytes_len(chain_id, block_number, senders, transfers, i + 1);
    block_bytes_len(chain_id, block_number, senders, transfers, i);
    block_bytes_prefix(chain_id, block_number, senders, transfers, i + 1, senders as int);
    batch_start_step(transfers, i);
    records_len(i * transfers, transfers);
    let upto = block_bytes(chain_id, block_number, senders, transfers, i + 1);
    let b = batch_bytes(chain_id, block_number, i, transfers);
    assert(upto.subrange(from, to) =~= b);
    assert(encoded.subrange(from, to) =~= b) by {
        assert(encoded.take(to).subrange(from, to) =~= encoded.subrange(from, to));
    }
    assert(batch_is_signed(chain_id, block_number, i, transfers));
    let signature = batch_signature(chain_id, block_number, i, transfers)->0;
    let nonce = spec_u64_to_le_bytes(first_nonce(block_number, i, transfers));
    let count = spec_u32_to_le_bytes(transfers as u32);
    assert(nonce.len() == 8 && count.len() == 4);
    assert(encoded.subrange(from, from + 8) =~= nonce) by {
        assert(encoded.subrange(from, to).subrange(0, 8) =~= encoded.subrange(from, from + 8));
        assert(b.subrange(0, 8) =~= nonce);
    }
    assert(encoded.subrange(from + 8, from + 12) =~= count) by {
        assert(encoded.subrange(from, to).subrange(8, 12) =~= encoded.subrange(
            from + 8,
            from + 12,
        ));
        assert(b.subrange(8, 12) =~= count);
    }
    assert(encoded.subrange(from + 12, from + 77) =~= signature@) by {
        assert(encoded.subrange(from, to).subrange(12, 77) =~= encoded.subrange(
            from + 12,
            from + 77,
        ));
        assert(b.subrange(12, 77) =~= signature@);
    }
    let records = records_from(i * transfers, transfers);
    assert(encoded.subrange(from + 77, to) =~= records) by {
        assert(encoded.subrange(from, to).subrange(77, to - from) =~= encoded.subrange(
            from + 77,
            to,
        ));
        assert(b.subrange(77, to - from) =~= records);
    }
    block_bytes_prefix(chain_id, block_number, senders, transfers, i + 1, senders as int);
    assert(batch_start(transfers, 0) == 12);
    block_bytes_prefix(chain_id, block_number, senders, transfers, 0, i);
}

/// The ledger after the batches of the first `n` senders of a built block.
pub open spec fn built_ledger(
    opening: LedgerState,
    block_number: u64,
    transfers: int,
    n: int,
) -> LedgerState
    decreases n,
{
    if n <= 0 {
        opening
    } else {
        applied(
            built_ledger(opening, block_number, transfers, n - 1),
            n - 1,
            first_nonce(block_number, n - 1, transfers),
            records_from((n - 1) * transfers, transfers),
            transfers,
        )
    }
}

proof fn built_batches_apply(
    chain_id: u64,
    block_number: u64,
    senders: usize,
    transfers: int,
    accounts: Seq<BatchAccount>,
    opening: LedgerState,
    n: int,
)
    requires
        0 <= n <= senders <= accounts.len(),
        0 <= transfers <= u32::MAX,
        batch_start(transfers, senders as int) <= usize::MAX,
        signatures_lead_back(chain_id, block_number, senders as int, transfers),
        forall|i: int|
            0 <= i < accounts.len() ==> address_of_key(private_key(i)) == Some(
                (#[trigger] accounts[i]).address,
            ),
    ensures
        ({
            let encoded = block_bytes(chain_id, block_number, senders, transfers, senders as int);
            apply_batches(
                encoded,
                batch_start(transfers, n),
                n,
                senders as int,
                chain_id,
                block_number,
                accounts,
                n * transfers,
                built_ledger(opening, block_number, transfers, n),
            ) == Ok::<(int, int, LedgerState), BatchTransferError>(
                (
                    senders * transfers,
                    batch_start(transfers, senders as int),
                    built_ledger(opening, block_number, transfers, senders as int),
                ),
            )
        }),
    decreases senders - n,
{
    if n < senders {
        assert(address_of_key(private_key(n)) == Some(accounts[n].address));
        built_batch_reads_back(
            chain_id,
            block_number,
            senders,
            transfers,
            n,
            accounts[n].address,
        );
        built_batches_apply(
            chain_id,
            block_number,
            senders,
            transfers,
            accounts,
            opening,
            n + 1,
        );
        assert((n + 1) * transfers == n * transfers + transfers) by (nonlinear_arith);
    }
}

/// A block that was built is accepted under its own hash, and its statistics
/// read back as they were built. Left out are blocks with a signature whose
/// coordinate is low and which does not lead back to its sender.
pub proof fn built_block_verifies(
    chain_id: u64,
    block_number: u64,
    senders: usize,
    transfers: usize,
    accounts: &AccountCache,
)
    requires
        accounts.wf(),
        senders <= accounts@.len(),
        senders <= u32::MAX,
        transfers <= u32::MAX,
        12 + senders * (77 + transfers * 12) <= usize::MAX,
    ensures
        block_bytes(chain_id, block_number, senders, transfers as int, senders as int).len() == 12
            + senders * (77 + transfers * 12),
        signatures_lead_back(chain_id, block_number, senders as int, transfers as int) ==> {
            let encoded = block_bytes(
                chain_id,
                block_number,
                senders,
                transfers as int,
                senders as int,
            );
            block_outcome(encoded, blake3_of(encoded), chain_id, accounts@) == Ok::<
                (BatchTransferStats, LedgerState),
                BatchTransferError,
            >(
                (
                    BatchTransferStats {
                        block_number,
                        senders,
                        transfers_per_sender: if senders == 0 {
                            0
                        } else {
                            transfers
                        },
                        transfers: (senders * transfers) as u64,
                        encoded_bytes: encoded.len() as usize,
                    },
                    built_ledger(
                        opening_ledger(encoded.len() as int, senders as int),
                        block_number,
                        transfers as int,
                        senders as int,
                    ),
                ),
            )
        },
{
    block_bytes_len(chain_id, block_number, senders, transfers as int, senders as int);
    if signatures_lead_back(chain_id, block_number, senders as int, transfers as int) {
        vstd::bytes::lemma_auto_spec_u32_to_from_le_bytes();
        vstd::bytes::lemma_auto_spec_u64_to_from_le_bytes();
        let encoded = block_bytes(
            chain_id,
            block_number,
            senders,
            transfers as int,
            senders as int,
        );
        let opening = opening_ledger(encoded.len() as int, senders as int);
        block_bytes_prefix(chain_id, block_number, senders, transfers as int, 0, senders as int);
        assert(batch_start(transfers as int, 0) == 12);
        let head = block_bytes(chain_id, block_number, senders, transfers as int, 0);
        let number = spec_u64_to_le_bytes(block_number);
        let count = spec_u32_to_le_bytes(senders as u32);
        assert(number.len() == 8 && count.len() == 4);
        assert(encoded.take(12) =~= head);
        assert(encoded.subrange(0, 8) =~= number) by {
            assert(encoded.take(12).subrange(0, 8) =~= encoded.subrange(0, 8));
            assert(head.subrange(0, 8) =~= number);
        }
        assert(encoded.subrange(8, 12) =~= count) by {
            assert(encoded.take(12).subrange(8, 12) =~= encoded.subrange(8, 12));
            assert(head.subrange(8, 12) =~= count);
        }
        built_batches_apply(
            chain_id,
            block_number,
            senders,
            transfers as int,
            accounts@,
            opening,
            0,
        );
        if senders > 0 {
            assert((senders * transfers) / senders as int == transfers) by (nonlinear_arith)
                requires
                    senders > 0,
            ;
        }
    }
}

/// Applying a batch leaves its sender's nonce behind the batch's last transfer.
pub proof fn nonce_advances_by_count(
    ledger: LedgerState,
    sender: int,
    start_nonce: u64,
    records: Seq<u8>,
    n: int,
)
    requires
        0 <= n,
        0 <= sender < ledger.sender_balances.len(),
        sender < ledger.sender_nonces.len(),
        ledger.recipient_balances.len() > 0,
    ensures
        applied(ledger, sender, start_nonce, records, n).sender_nonces[sender] == (start_nonce + n)
            % (u64::MAX + 1),
    decreases n,
{
    applied_shape(ledger, sender, start_nonce, records, n);
    if n > 0 {
        nonce_advances_by_count(ledger, sender, start_nonce, records, n - 1);
        applied_shape(ledger, sender, start_nonce, records, n - 1);
    }
}

/// The sum of balances.
pub open spec fn balance_sum(balances: Seq<u128>) -> int
    decreases balances.len(),
{
    if balances.len() == 0 {
        0
    } else {
        balance_sum(balances.drop_last()) + balances.last()
    }
}

proof fn balance_sum_update(balances: Seq<u128>, i: int, value: u128)
    requires
        0 <= i < balances.len(),
    ensures
        balance_sum(balances.update(i, value)) == balance_sum(balances) - balances[i] + value,
    decreases balances.len(),
{
    let after = balances.update(i, value);
    if i == balances.len() - 1 {
        assert(after.drop_last() =~= balances.drop_last());
    } else {
        balance_sum_update(balances.drop_last(), i, value);
        assert(after.drop_last() =~= balances.drop_last().update(i, value));
    }
}

/// Transfers move amounts: all balances together stay the same, counted modulo
/// the width of a balance.
pub proof fn transfers_conserve_balances(
    ledger: LedgerState,
    sender: int,
    start_nonce: u64,
    records: Seq<u8>,
    n: int,
)
    requires
        0 <= sender < ledger.sender_balances.len(),
        sender < ledger.sender_nonces.len(),
        ledger.recipient_balances.len() > 0,
    ensures
        ({
            let after = applied(ledger, sender, start_nonce, records, n);
            let change = balance_sum(after.sender_balances) + balance_sum(after.recipient_balances)
                - balance_sum(ledger.sender_balances) - balance_sum(ledger.recipient_balances);
            change % (u128::MAX + 1) == 0
        }),
    decreases n,
{
    if n > 0 {
        transfers_conserve_balances(ledger, sender, start_nonce, records, n - 1);
        applied_shape(ledger, sender, start_nonce, records, n - 1);
        let before = applied(ledger, sender, start_nonce, records, n - 1);
        let amount = record_amount(records, n - 1) as u128;
        let recipient = record_recipient(records, n - 1) as int
            % before.recipient_balances.len() as int;
        balance_sum_update(
            before.sender_balances,
            sender,
            before.sender_balances[sender].wrapping_sub(amount),
        );
        balance_sum_update(
            before.recipient_balances,
            recipient,
            before.recipient_balances[recipient].wrapping_add(amount),
        );
    }
}

/// Accounts are kept for as many senders as are asked for or configured, and for no
/// fewer than 4096.
pub proof fn enough_accounts_are_kept(configured: Option<usize>, required: usize)
    ensures
        cache_size(configured, required) >= 4096,
        cache_size(configured, required) >= required,
        configured matches Some(n) ==> cache_size(configured, required) >= n,
        cache_size(configured, required) == 4096 || cache_size(configured, required) == required
            || configured == Some(cache_size(configured, required) as usize),
{
}

/// Each transfer is of one unit, to the recipient that its place is spread to.
pub proof fn records_read_back(n: u32, rest: Seq<u8>)
    ensures
        record_at(n as int).len() == 12,
        record_recipient(record_at(n as int) + rest, 0) == (n * 2_654_435_761) % 0x1_0000_0000,
        record_amount(record_at(n as int) + rest, 0) == 1,
{
    vstd::bytes::lemma_auto_spec_u32_to_from_le_bytes();
    vstd::bytes::lemma_auto_spec_u64_to_from_le_bytes();
    let record = record_at(n as int);
    let all = record + rest;
    assert(all.subrange(0, 4) =~= spec_u32_to_le_bytes(n.wrapping_mul(RECIPIENT_SPREAD)));
    assert(all.subrange(4, 12) =~= spec_u64_to_le_bytes(1));
}

/// What is signed names, one after the other, the domain, the chain, the block, the
/// first nonce, the count and the hash of the records.
pub proof fn signatures_cover_everything(
    chain_id: u64,
    block_number: u64,
    start_nonce: u64,
    count: u32,
    records: Seq<u8>,
)
    ensures
        ({
            let bytes = signed_bytes(chain_id, block_number, start_nonce, count, records);
            &&& bytes.len() == 81
            &&& bytes.subrange(0, 21) == DOMAIN@
            &&& spec_u64_from_le_bytes(bytes.subrange(21, 29)) == chain_id
            &&& spec_u64_from_le_bytes(bytes.subrange(29, 37)) == block_number
            &&& spec_u64_from_le_bytes(bytes.subrange(37, 45)) == start_nonce
            &&& spec_u32_from_le_bytes(bytes.subrange(45, 49)) == count
            &&& bytes.subrange(49, 81) == blake3_of(records)@
        }),
{
    vstd::bytes::lemma_auto_spec_u32_to_from_le_bytes();
    vstd::bytes::lemma_auto_spec_u64_to_from_le_bytes();
    let bytes = signed_bytes(chain_id, block_number, start_nonce, count, records);
    assert(bytes.subrange(0, 21) =~= DOMAIN@);
    assert(bytes.subrange(21, 29) =~= spec_u64_to_le_bytes(chain_id));
    assert(bytes.subrange(29, 37) =~= spec_u64_to_le_bytes(block_number));
    assert(bytes.subrange(37, 45) =~= spec_u64_to_le_bytes(start_nonce));
    assert(bytes.subrange(45, 49) =~= spec_u32_to_le_bytes(count));
    assert(bytes.subrange(49, 81) =~= blake3_of(records)@);
}

/// The senders of a block have nonces one behind the other: each starts where the
/// one before it ends, as long as the numbers last.
pub proof fn nonces_of_a_block_are_consecutive(block_number: u64, sender_idx: nat, transfers: nat)
    requires
        block_number * transfers + (sender_idx + 1) * transfers <= u64::MAX,
    ensures
        first_nonce(block_number, 0, transfers as int) == block_number * transfers,
        first_nonce(block_number, sender_idx as int + 1, transfers as int) == first_nonce(
            block_number,
            sender_idx as int,
            transfers as int,
        ) + transfers,
{
    assert((sender_idx + 1) * transfers == sender_idx * transfers + transfers) by (nonlinear_arith);
    assert(sender_idx * transfers >= 0) by (nonlinear_arith);
    assert(block_number * transfers >= 0) by (nonlinear_arith);
}

/// The number of recipients is taken from the length of a block: twelve bytes of
/// header, 77 for each sender and twelve for each record; it lies between one and
/// two millions.
pub proof fn recipients_are_estimated(senders: int, records: int)
    requires
        0 <= senders,
        0 <= records,
        12 + 77 * senders + 12 * records <= usize::MAX,
    ensures
        ({
            let length = 12 + 77 * senders + 12 * records;
            &&& record_estimate(length, senders) == records
            &&& 1 <= records <= 2_000_000 ==> recipient_count(length, senders) == records
            &&& records == 0 ==> recipient_count(length, senders) == 1
            &&& records > 2_000_000 ==> recipient_count(length, senders) == 2_000_000
        }),
{
}

/// A ledger opens with a quarter of all money at each sender, no nonce used, and
/// nothing at the recipients.
pub proof fn ledgers_open_with_funded_senders(encoded_len: nat, senders: nat, i: int)
    ensures
        ({
            let ledger = opening_ledger(encoded_len as int, senders as int);
            &&& senders > 0 ==> ledger.sender_balances.len() == senders
            &&& senders == 0 ==> ledger.sender_balances.len() == 1
            &&& ledger.sender_nonces.len() == ledger.sender_balances.len()
            &&& ledger.recipient_balances.len() >= 1
            &&& 0 <= i < ledger.sender_balances.len() ==> ledger.sender_balances[i] == u128::MAX / 4
                && ledger.sender_nonces[i] == 0
            &&& 0 <= i < ledger.recipient_balances.len() ==> ledger.recipient_balances[i] == 0
            &&& ledger.checksum == 0
        }),
{
}

/// A transfer takes its amount from the sender, gives it to the recipient that its
/// index stands for, and uses one nonce; nobody else's balance or nonce changes.
pub proof fn transfers_move_their_amount(
    ledger: LedgerState,
    sender: int,
    recipient_index: u32,
    amount: u64,
    other: int,
)
    requires
        0 <= sender < ledger.sender_balances.len(),
        sender < ledger.sender_nonces.len(),
        ledger.recipient_balances.len() > 0,
        ledger.sender_balances[sender] >= amount,
        ledger.sender_nonces[sender] < u64::MAX,
        ledger.recipient_balances[recipient_index as int % ledger.recipient_balances.len() as int]
            + amount <= u128::MAX,
    ensures
        ({
            let after = transferred(ledger, sender, recipient_index, amount);
            let recipient = recipient_index as int % ledger.recipient_balances.len() as int;
            &&& after.sender_balances[sender] == ledger.sender_balances[sender] - amount
            &&& after.sender_nonces[sender] == ledger.sender_nonces[sender] + 1
            &&& after.recipient_balances[recipient] == ledger.recipient_balances[recipient] + amount
            &&& after.checksum == ledger.checksum ^ after.recipient_balances[recipient]
            &&& after.sender_balances.len() == ledger.sender_balances.len()
            &&& after.recipient_balances.len() == ledger.recipient_balances.len()
            &&& other != sender && 0 <= other < ledger.sender_balances.len()
                ==> after.sender_balances[other] == ledger.sender_balances[other]
            &&& other != sender && 0 <= other < ledger.sender_nonces.len()
                ==> after.sender_nonces[other] == ledger.sender_nonces[other]
            &&& other != recipient && 0 <= other < ledger.recipient_balances.len()
                ==> after.recipient_balances[other] == ledger.recipient_balances[other]
        }),
{
    vstd::arithmetic::div_mod::lemma_mod_bound(
        recipient_index as int,
        ledger.recipient_balances.len() as int,
    );
}

/// A batch is taken exactly where it is whole, its signature is well formed, and the
/// signer of its bytes is the expected sender; what it holds is what stands there.
pub proof fn batches_need_their_sender(
    encoded: Seq<u8>,
    offset: nat,
    sender_idx: usize,
    chain_id: u64,
    block_number: u64,
    address: Address,
)
    requires
        offset + 77 <= encoded.len(),
        encoded.len() <= usize::MAX,
    ensures
        ({
            let start_nonce = spec_u64_from_le_bytes(
                encoded.subrange(offset as int, offset + 8int),
            );
            let count = spec_u32_from_le_bytes(encoded.subrange(offset + 8int, offset + 12int));
            let signature = encoded.subrange(offset + 12int, offset + 77int);
            let end = offset + 77 + 12 * count;
            let records = encoded.subrange(offset + 77int, end);
            let signer = recovered_signer(
                signature,
                blake3_of(signed_bytes(chain_id, block_number, start_nonce, count, records)),
            );
            let formed = signature[64] == 0 || signature[64] == 1 || signature[64] == 27
                || signature[64] == 28 || signature[64] >= 35;
            let outcome = batch_at(
                encoded,
                offset as int,
                sender_idx as int,
                chain_id,
                block_number,
                address,
            );
            &&& outcome is Ok <==> formed && end <= encoded.len() && signer == Some(address)
            &&& outcome matches Ok(batch) ==> batch.start_nonce == start_nonce && batch.count
                == count && batch.records == records && batch.end == end
            &&& !formed ==> outcome == Err::<BatchAt, BatchTransferError>(
                BatchTransferError::InvalidSignature,
            )
            &&& formed && end > encoded.len() && 12 * count <= usize::MAX ==> outcome == Err::<
                BatchAt,
                BatchTransferError,
            >(BatchTransferError::TruncatedRecords)
            &&& formed && end <= encoded.len() && signer is None ==> outcome == Err::<
                BatchAt,
                BatchTransferError,
            >(BatchTransferError::Unrecoverable)
            &&& formed && end <= encoded.len() && signer is Some && signer != Some(address)
                ==> outcome == Err::<BatchAt, BatchTransferError>(
                BatchTransferError::SenderMismatch(sender_idx),
            )
        }),
{
}

/// A block is taken only where its bytes have the announced hash, there is an
/// account for each of its senders, and nothing is left over; what is told of it is
/// what it says.
pub proof fn blocks_need_their_hash(
    encoded: Seq<u8>,
    expected_hash: B256,
    chain_id: u64,
    accounts: Seq<BatchAccount>,
)
    requires
        encoded.len() <= usize::MAX,
        accounts.len() <= usize::MAX,
    ensures
        ({
            let outcome = block_outcome(encoded, expected_hash, chain_id, accounts);
            let hash = blake3_of(encoded);
            let senders = spec_u32_from_le_bytes(encoded.subrange(8, 12));
            &&& hash != expected_hash ==> outcome == Err::<
                (BatchTransferStats, LedgerState),
                BatchTransferError,
            >(BatchTransferError::HashMismatch { expected: expected_hash, actual: hash })
            &&& hash == expected_hash && encoded.len() < 8 ==> outcome == Err::<
                (BatchTransferStats, LedgerState),
                BatchTransferError,
            >(BatchTransferError::TruncatedU64)
            &&& hash == expected_hash && 8 <= encoded.len() < 12 ==> outcome == Err::<
                (BatchTransferStats, LedgerState),
                BatchTransferError,
            >(BatchTransferError::TruncatedU32)
            &&& hash == expected_hash && 12 <= encoded.len() && accounts.len() < senders
                ==> outcome == Err::<(BatchTransferStats, LedgerState), BatchTransferError>(
                BatchTransferError::AccountCacheTooSmall {
                    have: accounts.len() as usize,
                    need: senders as usize,
                },
            )
            &&& hash == expected_hash && encoded.len() > 12 && senders == 0 ==> outcome == Err::<
                (BatchTransferStats, LedgerState),
                BatchTransferError,
            >(BatchTransferError::TrailingBytes((encoded.len() - 12) as usize))
            &&& outcome matches Ok((stats, ledger)) ==> {
                &&& stats.block_number == spec_u64_from_le_bytes(encoded.subrange(0, 8))
                &&& stats.senders == senders
                &&& stats.encoded_bytes == encoded.len()
            }
        }),
{
}

/// Batches are taken one behind the other, each from its own sender's account and
/// where the one before it ends; the first that fails refuses the block, and the
/// transfers are counted.
pub proof fn batches_follow_each_other(
    encoded: Seq<u8>,
    offset: int,
    sender_idx: int,
    senders: int,
    chain_id: u64,
    block_number: u64,
    accounts: Seq<BatchAccount>,
    transfers: int,
    ledger: LedgerState,
)
    requires
        0 <= sender_idx < senders,
    ensures
        ({
            let outcome = apply_batches(
                encoded,
                offset,
                sender_idx,
                senders,
                chain_id,
                block_number,
                accounts,
                transfers,
                ledger,
            );
            match batch_at(
                encoded,
                offset,
                sender_idx,
                chain_id,
                block_number,
                accounts[sender_idx].address,
            ) {
                Err(error) => outcome == Err::<(int, int, LedgerState), BatchTransferError>(error),
                Ok(batch) => sender_idx + 1 == senders ==> outcome == Ok::<
                    (int, int, LedgerState),
                    BatchTransferError,
                >(
                    (
                        transfers + batch.count,
                        batch.end,
                        applied(
                            ledger,
                            sender_idx,
                            batch.start_nonce,
                            batch.records,
                            batch.count as int,
                        ),
                    ),
                ),
            }
        }),
{
    reveal_with_fuel(apply_batches, 2);
}

} // verus!
