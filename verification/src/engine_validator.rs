//! Payloads whose headers carry what Ethereum's do not: which header a payload
//! stands for is settled by the hash that it was announced under.
use crate::components::N42HeaderProfile;
use crate::crypto::{keccak256, keccak256_of};
use crate::header::{header_hash, header_rlp, Header, HeaderState};
use crate::primitives::{copy_bytes, same_bytes, same_key, Address, B256, ZERO_HASH};
use crate::text::{hash_text, push_hash};
use alloy_consensus::{EthereumTxEnvelope, TxEip4844};
use alloy_rpc_types_engine::ExecutionData;
use vstd::prelude::*;
use vstd::string::StringExecFns;

verus! {

/// A difficulty of one.
pub const DIFFICULTY_ONE: [u8; 32] = [
    0, 0, 0, 0, 0, 0, 0, 0, 0, 0, 0, 0, 0, 0, 0, 0,
    0, 0, 0, 0, 0, 0, 0, 0, 0, 0, 0, 0, 0, 0, 0, 1,
];

/// The nonce of zeros.
pub const NO_NONCE: [u8; 8] = [0, 0, 0, 0, 0, 0, 0, 0];

/// Why a payload is refused.
#[derive(Debug)]
pub enum PayloadRefusal {
    /// It is no payload at all.
    Unreadable,
    /// Something about it is not valid.
    Invalid { message: String },
    /// It does not hash to what it was announced under.
    BlockHash { execution: B256, consensus: B256 },
}

/// The contents of a refusal.
#[verifier::ext_equal]
pub ghost enum RefusalState {
    Unreadable,
    Invalid { message: Seq<char> },
    BlockHash { execution: B256, consensus: B256 },
}

impl View for PayloadRefusal {
    type V = RefusalState;

    open spec fn view(&self) -> RefusalState {
        match self {
            PayloadRefusal::Unreadable => RefusalState::Unreadable,
            PayloadRefusal::Invalid { message } => RefusalState::Invalid { message: message@ },
            PayloadRefusal::BlockHash { execution, consensus } => RefusalState::BlockHash {
                execution: *execution,
                consensus: *consensus,
            },
        }
    }
}

/// A header with the hash that it is known under.
#[derive(Debug)]
pub struct SealedHeader {
    pub header: Header,
    pub hash: B256,
}

/// The contents of a sealed header.
#[verifier::ext_equal]
pub ghost struct SealedState {
    pub header: HeaderState,
    pub hash: B256,
}

impl View for SealedHeader {
    type V = SealedState;

    open spec fn view(&self) -> SealedState {
        SealedState { header: self.header@, hash: self.hash }
    }
}

/// What a payload comes to.
pub type Conversion = Result<SealedState, RefusalState>;

/// The contents of an outcome.
pub open spec fn conversion_state(outcome: Result<SealedHeader, PayloadRefusal>) -> Conversion {
    match outcome {
        Ok(sealed) => Ok(sealed@),
        Err(refusal) => Err(refusal@),
    }
}

/// The contents of an optional text.
pub open spec fn text_state(text: Option<String>) -> Option<Seq<char>> {
    match text {
        Some(t) => Some(t@),
        None => None,
    }
}

/// A header that was remembered as it came over the network.
#[derive(Debug)]
pub struct NativeHeader {
    pub header: Header,
    /// Why the header is not valid, where it is not.
    pub refusal: Option<String>,
}

/// The contents of a remembered header.
#[verifier::ext_equal]
pub ghost struct NativeState {
    pub header: HeaderState,
    pub refusal: Option<Seq<char>>,
}

impl View for NativeHeader {
    type V = NativeState;

    open spec fn view(&self) -> NativeState {
        NativeState { header: self.header@, refusal: text_state(self.refusal) }
    }
}

/// What others say of a payload: of a verdict, why it is a refusal.
#[derive(Debug)]
pub struct Checks {
    /// Of the extra data.
    pub extra: Option<String>,
    /// Of the payload without its extra data, under the hash of its standard
    /// header.
    pub standard: Option<String>,
    /// Of the replay header.
    pub replay: Option<String>,
    /// Of the header with a difficulty of zero.
    pub current: Option<String>,
    /// Of the header with a difficulty of one.
    pub legacy: Option<String>,
    /// The header that is remembered under the announced hash.
    pub native: Option<NativeHeader>,
    /// The root of the rewards that the payload holds, where it holds any list.
    pub rewards_root: Option<B256>,
}

/// The contents of what others say of a payload.
#[verifier::ext_equal]
pub ghost struct ChecksState {
    pub extra: Option<Seq<char>>,
    pub standard: Option<Seq<char>>,
    pub replay: Option<Seq<char>>,
    pub current: Option<Seq<char>>,
    pub legacy: Option<Seq<char>>,
    pub native: Option<NativeState>,
    pub rewards_root: Option<B256>,
}

impl View for Checks {
    type V = ChecksState;

    open spec fn view(&self) -> ChecksState {
        ChecksState {
            extra: text_state(self.extra),
            standard: text_state(self.standard),
            replay: text_state(self.replay),
            current: text_state(self.current),
            legacy: text_state(self.legacy),
            native: match self.native {
                Some(native) => Some(native@),
                None => None,
            },
            rewards_root: self.rewards_root,
        }
    }
}

/// The fields of a payload's header by their types: the hashes of the parent, the
/// ommers, the state, the transactions, the receipts and the mix; the
/// beneficiary; the bloom; the number, the gas limit, the gas used and the
/// timestamp; the base fee, the blob gas used and the excess blob gas; the roots
/// of the withdrawals and the parent beacon block and the hash of the requests.
pub type HeaderFields = (
    [B256; 6],
    Address,
    [u8; 256],
    [u64; 4],
    [Option<u64>; 3],
    [Option<B256>; 3],
);

/// The header of these fields and this extra data, without a difficulty or a
/// nonce.
pub open spec fn fields_state(f: HeaderFields, extra: Seq<u8>) -> HeaderState {
    HeaderState {
        parent_hash: f.0@[0],
        ommers_hash: f.0@[1],
        beneficiary: f.1,
        state_root: f.0@[2],
        transactions_root: f.0@[3],
        receipts_root: f.0@[4],
        logs_bloom: f.2,
        difficulty: ZERO_HASH,
        number: f.3@[0],
        gas_limit: f.3@[1],
        gas_used: f.3@[2],
        timestamp: f.3@[3],
        extra_data: extra,
        mix_hash: f.0@[5],
        nonce: NO_NONCE,
        base_fee_per_gas: f.4@[0],
        withdrawals_root: f.5@[0],
        blob_gas_used: f.4@[1],
        excess_blob_gas: f.4@[2],
        parent_beacon_block_root: f.5@[1],
        requests_hash: f.5@[2],
    }
}

/// The header of these fields and this extra data.
fn header_of(f: HeaderFields, extra_data: Vec<u8>) -> (header: Header)
    ensures
        header@ == fields_state(f, extra_data@),
{
    Header {
        parent_hash: f.0[0],
        ommers_hash: f.0[1],
        beneficiary: f.1,
        state_root: f.0[2],
        transactions_root: f.0[3],
        receipts_root: f.0[4],
        logs_bloom: f.2,
        difficulty: ZERO_HASH,
        number: f.3[0],
        gas_limit: f.3[1],
        gas_used: f.3[2],
        timestamp: f.3[3],
        extra_data,
        mix_hash: f.0[5],
        nonce: NO_NONCE,
        base_fee_per_gas: f.4[0],
        withdrawals_root: f.5[0],
        blob_gas_used: f.4[1],
        excess_blob_gas: f.4[2],
        parent_beacon_block_root: f.5[1],
        requests_hash: f.5[2],
    }
}

/// The hash that a JSON execution payload is announced under and its extra data,
/// where the JSON holds a payload.
pub uninterp spec fn payload_identity(json: Seq<u8>) -> Option<(B256, Seq<u8>)>;

/// Calls `serde_json::from_slice` for alloy's `ExecutionData` and its method
/// `block_hash`, and takes the extra data. Claimed is that the outcome depends
/// on the bytes alone.
#[verifier::external_body]
fn identity_of(json: &[u8]) -> (identity: Option<(B256, Vec<u8>)>)
    ensures
        match identity {
            Some(i) => payload_identity(json@) == Some((i.0, i.1@)),
            None => payload_identity(json@) is None,
        },
{
    serde_json::from_slice::<ExecutionData>(json).ok().map(
        |data| (data.block_hash().0, data.payload.as_v1().extra_data.to_vec()),
    )
}

/// The header of the block that a JSON execution payload stands for with other
/// extra data, or why it stands for none; nothing where the JSON holds no
/// payload.
pub uninterp spec fn payload_header(json: Seq<u8>, extra: Seq<u8>) -> Option<
    Result<HeaderState, Seq<char>>,
>;

/// Calls `serde_json::from_slice` for alloy's `ExecutionData`, gives the payload
/// the extra data, and calls `ExecutionData::try_into_block` for
/// `EthereumTxEnvelope<TxEip4844>`. Claimed is that the header, or the text of
/// the error, depends on the bytes and the extra data alone, and that the header
/// has this extra data, no difficulty and no nonce.
#[verifier::external_body]
fn block_fields(json: &[u8], extra: Vec<u8>) -> (fields: Option<Result<HeaderFields, String>>)
    ensures
        match fields {
            Some(Ok(f)) => payload_header(json@, extra@) == Some(
                Ok::<HeaderState, Seq<char>>(fields_state(f, extra@)),
            ),
            Some(Err(message)) => payload_header(json@, extra@) == Some(
                Err::<HeaderState, Seq<char>>(message@),
            ),
            None => payload_header(json@, extra@) is None,
        },
{
    let mut data: ExecutionData = serde_json::from_slice(json).ok()?;
    data.payload.as_v1_mut().extra_data = extra.into();
    let block = data.try_into_block::<EthereumTxEnvelope<TxEip4844>>();
    Some(block.map_err(|e| e.to_string()).map(|b| b.header).map(|h| (
        [h.parent_hash, h.ommers_hash, h.state_root, h.transactions_root, h.receipts_root,
            h.mix_hash].map(Into::into),
        h.beneficiary.into(), h.logs_bloom.into(),
        [h.number, h.gas_limit, h.gas_used, h.timestamp],
        [h.base_fee_per_gas, h.blob_gas_used, h.excess_blob_gas],
        [h.withdrawals_root, h.parent_beacon_block_root, h.requests_hash].map(|r| r.map(|x| x.0)),
    )))
}

/// What a payload says.
#[derive(Debug)]
pub struct PayloadParts {
    /// The hash that it is announced under.
    pub hash: B256,
    pub extra_data: Vec<u8>,
    /// The standard header of the payload without its extra data, or why there
    /// is none.
    pub standard: Result<Header, String>,
}

/// The contents of a payload.
#[verifier::ext_equal]
pub ghost struct PartsState {
    pub hash: B256,
    pub extra_data: Seq<u8>,
    pub standard: Result<HeaderState, Seq<char>>,
}

impl View for PayloadParts {
    type V = PartsState;

    open spec fn view(&self) -> PartsState {
        PartsState {
            hash: self.hash,
            extra_data: self.extra_data@,
            standard: match self.standard {
                Ok(header) => Ok(header@),
                Err(message) => Err(message@),
            },
        }
    }
}

/// What a JSON execution payload says, where it is one.
pub open spec fn payload_parts(json: Seq<u8>) -> Option<PartsState> {
    match (payload_identity(json), payload_header(json, Seq::empty())) {
        (Some((hash, extra_data)), Some(standard)) => Some(
            PartsState { hash, extra_data, standard },
        ),
        _ => None,
    }
}

/// Reads a JSON execution payload.
pub fn read_payload(json: &[u8]) -> (parts: Option<PayloadParts>)
    ensures
        match parts {
            Some(p) => payload_parts(json@) == Some(p@),
            None => payload_parts(json@) is None,
        },
{
    let (hash, extra_data) = match identity_of(json) {
        Some(identity) => identity,
        None => {
            return None;
        },
    };
    let empty: Vec<u8> = Vec::new();
    assert(empty@ =~= Seq::empty());
    let standard = match block_fields(json, empty) {
        Some(Ok(fields)) => Ok(header_of(fields, Vec::new())),
        Some(Err(message)) => Err(message),
        None => {
            return None;
        },
    };
    Some(PayloadParts { hash, extra_data, standard })
}

/// The extra data of a replayed block: 32 zeros.
pub open spec fn is_replay_shape(extra: Seq<u8>) -> bool {
    extra == ZERO_HASH@
}

/// Whether the extra data is that of a replayed block.
pub fn replay_shape(extra: &Vec<u8>) -> (replay: bool)
    ensures
        replay == is_replay_shape(extra@),
{
    same_bytes(extra.as_slice(), ZERO_HASH.as_slice())
}

/// The header of a replayed block.
pub open spec fn replay_header(standard: HeaderState, extra: Seq<u8>) -> HeaderState {
    HeaderState {
        extra_data: extra,
        withdrawals_root: Some(keccak256_of(Seq::empty())),
        ..standard
    }
}

/// The header of a replayed block.
pub fn replay_candidate(standard: &Header, extra: &Vec<u8>) -> (header: Header)
    ensures
        header@ == replay_header(standard@, extra@),
{
    let mut header = standard.duplicate();
    let empty: Vec<u8> = Vec::new();
    header.extra_data = copy_bytes(extra);
    header.withdrawals_root = Some(keccak256(&empty));
    assert(empty@ =~= Seq::empty());
    header
}

/// The header with this difficulty.
pub open spec fn gov5_header(
    standard: HeaderState,
    extra: Seq<u8>,
    difficulty: B256,
) -> HeaderState {
    HeaderState { ommers_hash: ZERO_HASH, extra_data: extra, difficulty, ..standard }
}

/// The header with this difficulty.
pub fn gov5_candidate(standard: &Header, extra: &Vec<u8>, difficulty: B256) -> (header: Header)
    ensures
        header@ == gov5_header(standard@, extra@, difficulty),
{
    let mut header = standard.duplicate();
    header.ommers_hash = ZERO_HASH;
    header.extra_data = copy_bytes(extra);
    header.difficulty = difficulty;
    header
}

/// The amount, or zero.
pub open spec fn or_zero(amount: Option<u64>) -> u64 {
    match amount {
        Some(n) => n,
        None => 0,
    }
}

fn amount_or_zero(amount: Option<u64>) -> (n: u64)
    ensures
        n == or_zero(amount),
{
    match amount {
        Some(n) => n,
        None => 0,
    }
}

/// The first field in which a payload's header and the remembered one disagree.
pub open spec fn first_mismatch(
    p: HeaderState,
    n: HeaderState,
    rewards_root: Option<B256>,
) -> Option<Seq<char>> {
    if p.parent_hash != n.parent_hash {
        Some("parentHash"@)
    } else if p.beneficiary != n.beneficiary {
        Some("miner"@)
    } else if p.state_root != n.state_root {
        Some("stateRoot"@)
    } else if p.transactions_root != n.transactions_root {
        Some("transactionsRoot"@)
    } else if p.receipts_root != n.receipts_root {
        Some("receiptsRoot"@)
    } else if p.logs_bloom != n.logs_bloom {
        Some("logsBloom"@)
    } else if p.number != n.number {
        Some("number"@)
    } else if p.gas_limit != n.gas_limit {
        Some("gasLimit"@)
    } else if p.gas_used != n.gas_used {
        Some("gasUsed"@)
    } else if p.timestamp != n.timestamp {
        Some("timestamp"@)
    } else if p.extra_data != n.extra_data {
        Some("extraData"@)
    } else if p.mix_hash != n.mix_hash {
        Some("mixHash"@)
    } else if p.base_fee_per_gas != n.base_fee_per_gas {
        Some("baseFeePerGas"@)
    } else if rewards_root != n.withdrawals_root {
        Some("withdrawalsRoot (rewards)"@)
    } else if or_zero(p.blob_gas_used) != or_zero(n.blob_gas_used) || or_zero(p.excess_blob_gas)
        != or_zero(n.excess_blob_gas) {
        Some("blob gas"@)
    } else if p.parent_beacon_block_root != n.parent_beacon_block_root {
        Some("parentBeaconBlockRoot"@)
    } else {
        None
    }
}

fn same_root(a: &Option<B256>, b: &Option<B256>) -> (same: bool)
    ensures
        same == (*a == *b),
{
    match (a, b) {
        (Some(x), Some(y)) => same_key(x, y),
        (None, None) => true,
        _ => false,
    }
}

fn same_amount(a: Option<u64>, b: Option<u64>) -> (same: bool)
    ensures
        same == (a == b),
{
    match (a, b) {
        (Some(x), Some(y)) => x == y,
        (None, None) => true,
        _ => false,
    }
}

/// The first field in which a payload's header and the remembered one disagree.
pub fn mismatch(p: &Header, n: &Header, rewards_root: &Option<B256>) -> (field: Option<&'static str>)
    ensures
        match field {
            Some(name) => first_mismatch(p@, n@, *rewards_root) == Some(name@),
            None => first_mismatch(p@, n@, *rewards_root) is None,
        },
{
    if !same_key(&p.parent_hash, &n.parent_hash) {
        return Some("parentHash");
    }
    if !same_key(&p.beneficiary, &n.beneficiary) {
        return Some("miner");
    }
    if !same_key(&p.state_root, &n.state_root) {
        return Some("stateRoot");
    }
    if !same_key(&p.transactions_root, &n.transactions_root) {
        return Some("transactionsRoot");
    }
    if !same_key(&p.receipts_root, &n.receipts_root) {
        return Some("receiptsRoot");
    }
    if !same_key(&p.logs_bloom, &n.logs_bloom) {
        return Some("logsBloom");
    }
    if p.number != n.number {
        return Some("number");
    }
    if p.gas_limit != n.gas_limit {
        return Some("gasLimit");
    }
    if p.gas_used != n.gas_used {
        return Some("gasUsed");
    }
    if p.timestamp != n.timestamp {
        return Some("timestamp");
    }
    if !same_bytes(p.extra_data.as_slice(), n.extra_data.as_slice()) {
        return Some("extraData");
    }
    if !same_key(&p.mix_hash, &n.mix_hash) {
        return Some("mixHash");
    }
    if !same_amount(p.base_fee_per_gas, n.base_fee_per_gas) {
        return Some("baseFeePerGas");
    }
    if !same_root(rewards_root, &n.withdrawals_root) {
        return Some("withdrawalsRoot (rewards)");
    }
    if amount_or_zero(p.blob_gas_used) != amount_or_zero(n.blob_gas_used) || amount_or_zero(
        p.excess_blob_gas,
    ) != amount_or_zero(n.excess_blob_gas) {
        return Some("blob gas");
    }
    if !same_root(&p.parent_beacon_block_root, &n.parent_beacon_block_root) {
        return Some("parentBeaconBlockRoot");
    }
    None
}

/// The message of a disagreement.
pub open spec fn mismatch_message(hash: B256, field: Seq<char>) -> Seq<char> {
    "gov5 payload "@ + hash_text(hash) + " disagrees with its remembered native header on "@ + field
}

fn mismatch_text(hash: &B256, field: &str) -> (message: String)
    ensures
        message@ == mismatch_message(*hash, field@),
{
    let mut message = String::new();
    message.append("gov5 payload ");
    push_hash(&mut message, hash);
    message.append(" disagrees with its remembered native header on ");
    message.append(field);
    assert(message@ =~= mismatch_message(*hash, field@));
    message
}

/// A header is taken where its hash is the announced one.
pub open spec fn taken(header: HeaderState, expected: B256) -> Option<SealedState> {
    if header_hash(header) == expected {
        Some(SealedState { header, hash: expected })
    } else {
        None
    }
}

/// What a replayed block comes to.
pub open spec fn convert_replay(
    expected: B256,
    extra: Seq<u8>,
    standard: HeaderState,
    refusal: Option<Seq<char>>,
) -> Conversion {
    let header = replay_header(standard, extra);
    match refusal {
        Some(message) => Err(RefusalState::Invalid { message }),
        None => match taken(header, expected) {
            Some(sealed) => Ok(sealed),
            None => Err(
                RefusalState::BlockHash { execution: header_hash(header), consensus: expected },
            ),
        },
    }
}

/// What a payload comes to whose header is remembered: the remembered one, where
/// the two agree.
pub open spec fn convert_native(
    expected: B256,
    legacy: HeaderState,
    native: NativeState,
    rewards_root: Option<B256>,
) -> Conversion {
    match native.refusal {
        Some(message) => Err(RefusalState::Invalid { message }),
        None => match first_mismatch(legacy, native.header, rewards_root) {
            Some(field) => Err(
                RefusalState::Invalid { message: mismatch_message(expected, field) },
            ),
            None => Ok(SealedState { header: native.header, hash: expected }),
        },
    }
}

/// What a payload comes to: the header with a difficulty of zero or else of one,
/// whichever has the announced hash, or else the remembered one.
pub open spec fn convert_gov5(
    expected: B256,
    extra: Seq<u8>,
    standard: HeaderState,
    checks: ChecksState,
) -> Conversion {
    let current = gov5_header(standard, extra, ZERO_HASH);
    let legacy = gov5_header(standard, extra, DIFFICULTY_ONE);
    if checks.standard is Some {
        Err(RefusalState::Invalid { message: checks.standard->Some_0 })
    } else if checks.current is Some {
        Err(RefusalState::Invalid { message: checks.current->Some_0 })
    } else if header_hash(current) == expected {
        Ok(SealedState { header: current, hash: expected })
    } else if checks.legacy is Some {
        Err(RefusalState::Invalid { message: checks.legacy->Some_0 })
    } else if header_hash(legacy) == expected {
        Ok(SealedState { header: legacy, hash: expected })
    } else {
        match checks.native {
            Some(native) => convert_native(expected, legacy, native, checks.rewards_root),
            None => Err(
                RefusalState::BlockHash { execution: header_hash(current), consensus: expected },
            ),
        }
    }
}

/// What a payload comes to. There is nothing to settle where headers are
/// Ethereum's.
pub open spec fn converted(
    profile: N42HeaderProfile,
    payload: PartsState,
    checks: ChecksState,
) -> Option<Conversion> {
    match profile {
        N42HeaderProfile::Ethereum => None,
        N42HeaderProfile::Gov5H2 => {
            let extra = payload.extra_data;
            if !is_replay_shape(extra) && checks.extra is Some {
                Some(Err(RefusalState::Invalid { message: checks.extra->Some_0 }))
            } else {
                match payload.standard {
                    Err(message) => Some(Err(RefusalState::Invalid { message })),
                    Ok(standard) => if is_replay_shape(extra) {
                        Some(convert_replay(payload.hash, extra, standard, checks.replay))
                    } else {
                        Some(convert_gov5(payload.hash, extra, standard, checks))
                    },
                }
            }
        },
    }
}

/// Settles which header a payload stands for.
#[derive(Clone, Copy, Debug, PartialEq, Eq, Structural)]
pub struct N42EngineValidator {
    header_profile: N42HeaderProfile,
}

impl N42EngineValidator {
    /// How headers of the chain look.
    pub closed spec fn profile(self) -> N42HeaderProfile {
        self.header_profile
    }

    /// For a chain whose headers look so.
    pub fn new(header_profile: N42HeaderProfile) -> (validator: Self)
        ensures
            validator.profile() == header_profile,
    {
        N42EngineValidator { header_profile }
    }

    /// What a JSON execution payload comes to, given what others say of it. Where
    /// headers are Ethereum's there is nothing to settle: the standard conversion
    /// stands.
    pub fn convert_payload_to_block(&self, payload_json: &[u8], checks: Checks) -> (outcome: Option<
        Result<SealedHeader, PayloadRefusal>,
    >)
        ensures
            outcome is None == (self.profile() == N42HeaderProfile::Ethereum),
            outcome matches Some(o) ==> Some(conversion_state(o)) == match payload_parts(
                payload_json@,
            ) {
                Some(payload) => converted(self.profile(), payload, checks@),
                None => Some(Err(RefusalState::Unreadable)),
            },
    {
        if self.header_profile == N42HeaderProfile::Ethereum {
            return None;
        }
        match read_payload(payload_json) {
            Some(payload) => self.settle_payload(payload, checks),
            None => Some(Err(PayloadRefusal::Unreadable)),
        }
    }

    /// What a payload comes to, given what it says and what others say of it.
    pub fn settle_payload(&self, payload: PayloadParts, checks: Checks) -> (outcome: Option<
        Result<SealedHeader, PayloadRefusal>,
    >)
        ensures
            match outcome {
                Some(o) => converted(self.profile(), payload@, checks@) == Some(
                    conversion_state(o),
                ),
                None => converted(self.profile(), payload@, checks@) is None,
            },
    {
        if self.header_profile == N42HeaderProfile::Ethereum {
            return None;
        }
        let extra_data = &payload.extra_data;
        let replay = replay_shape(extra_data);
        if !replay {
            if let Some(message) = checks.extra {
                return Some(Err(PayloadRefusal::Invalid { message }));
            }
        }
        let standard = match payload.standard {
            Ok(header) => header,
            Err(message) => {
                return Some(Err(PayloadRefusal::Invalid { message }));
            },
        };
        if replay {
            return Some(Self::settle_replay(payload.hash, extra_data, &standard, checks.replay));
        }
        if let Some(message) = checks.standard {
            return Some(Err(PayloadRefusal::Invalid { message }));
        }
        Some(
            Self::settle_gov5(
                payload.hash,
                extra_data,
                &standard,
                checks.current,
                checks.legacy,
                checks.native,
                checks.rewards_root,
            ),
        )
    }

    fn settle_replay(
        expected: B256,
        extra: &Vec<u8>,
        standard: &Header,
        refusal: Option<String>,
    ) -> (outcome: Result<SealedHeader, PayloadRefusal>)
        ensures
            conversion_state(outcome) == convert_replay(
                expected,
                extra@,
                standard@,
                text_state(refusal),
            ),
    {
        let header = replay_candidate(standard, extra);
        if let Some(message) = refusal {
            return Err(PayloadRefusal::Invalid { message });
        }
        let hash = header.hash_slow();
        if same_key(&hash, &expected) {
            return Ok(SealedHeader { header, hash });
        }
        Err(PayloadRefusal::BlockHash { execution: hash, consensus: expected })
    }

    fn settle_gov5(
        expected: B256,
        extra: &Vec<u8>,
        standard: &Header,
        current_refusal: Option<String>,
        legacy_refusal: Option<String>,
        native: Option<NativeHeader>,
        rewards_root: Option<B256>,
    ) -> (outcome: Result<SealedHeader, PayloadRefusal>)
        ensures
            forall|checks: ChecksState|
                checks.standard is None && checks.current == text_state(current_refusal) && checks.legacy == text_state(
                    legacy_refusal,
                ) && checks.native == (match native {
                    Some(n) => Some(n@),
                    None => None,
                }) && checks.rewards_root == rewards_root ==> conversion_state(outcome)
                    == #[trigger] convert_gov5(expected, extra@, standard@, checks),
    {
        let current = gov5_candidate(standard, extra, ZERO_HASH);
        if let Some(message) = current_refusal {
            return Err(PayloadRefusal::Invalid { message });
        }
        let current_hash = current.hash_slow();
        if same_key(&current_hash, &expected) {
            return Ok(SealedHeader { header: current, hash: current_hash });
        }
        let legacy = gov5_candidate(standard, extra, DIFFICULTY_ONE);
        if let Some(message) = legacy_refusal {
            return Err(PayloadRefusal::Invalid { message });
        }
        let legacy_hash = legacy.hash_slow();
        if same_key(&legacy_hash, &expected) {
            return Ok(SealedHeader { header: legacy, hash: legacy_hash });
        }
        match native {
            Some(remembered) => Self::settle_native(expected, &legacy, remembered, rewards_root),
            None => Err(
                PayloadRefusal::BlockHash { execution: current_hash, consensus: expected },
            ),
        }
    }

    fn settle_native(
        expected: B256,
        legacy: &Header,
        native: NativeHeader,
        rewards_root: Option<B256>,
    ) -> (outcome: Result<SealedHeader, PayloadRefusal>)
        ensures
            conversion_state(outcome) == convert_native(expected, legacy@, native@, rewards_root),
    {
        if let Some(message) = native.refusal {
            return Err(PayloadRefusal::Invalid { message });
        }
        match mismatch(legacy, &native.header, &rewards_root) {
            Some(field) => Err(
                PayloadRefusal::Invalid { message: mismatch_text(&expected, field) },
            ),
            None => Ok(SealedHeader { header: native.header, hash: expected }),
        }
    }
}

/// Makes the validator of a node.
#[derive(Clone, Copy, Debug, PartialEq, Eq, Structural)]
pub struct N42EngineValidatorBuilder {
    header_profile: N42HeaderProfile,
}

impl N42EngineValidatorBuilder {
    /// How headers of the chain look.
    pub closed spec fn profile(self) -> N42HeaderProfile {
        self.header_profile
    }

    /// For a chain whose headers look so.
    pub fn new(header_profile: N42HeaderProfile) -> (builder: Self)
        ensures
            builder.profile() == header_profile,
    {
        N42EngineValidatorBuilder { header_profile }
    }

    /// The validator.
    pub fn build(self) -> (validator: N42EngineValidator)
        ensures
            validator.profile() == self.profile(),
    {
        N42EngineValidator::new(self.header_profile)
    }
}

impl Default for N42EngineValidatorBuilder {
    fn default() -> (builder: Self)
        ensures
            builder.profile() == N42HeaderProfile::Ethereum,
    {
        N42EngineValidatorBuilder { header_profile: N42HeaderProfile::Ethereum }
    }
}

/// A payload is taken only under the hash that it was announced under, and its
/// header has that hash unless it is the remembered one.
pub proof fn taken_payloads_have_their_hash(
    payload: PartsState,
    checks: ChecksState,
    sealed: SealedState,
)
    requires
        converted(N42HeaderProfile::Gov5H2, payload, checks) == Some(
            Ok::<SealedState, RefusalState>(sealed),
        ),
    ensures
        sealed.hash == payload.hash,
        header_hash(sealed.header) == payload.hash || (checks.native matches Some(native)
            && native.refusal is None && sealed.header == native.header),
{
}

/// A header that does not come from the remembered ones says what the payload
/// says. From the standard header it differs only in its extra data and, in a
/// replayed block, in its withdrawals, else in its ommers and its difficulty.
pub proof fn taken_headers_keep_the_payload(
    payload: PartsState,
    checks: ChecksState,
    sealed: SealedState,
)
    requires
        converted(N42HeaderProfile::Gov5H2, payload, checks) == Some(
            Ok::<SealedState, RefusalState>(sealed),
        ),
        checks.native is None,
    ensures
        payload.standard matches Ok(standard) && if is_replay_shape(payload.extra_data) {
            sealed.header == (HeaderState {
                extra_data: payload.extra_data,
                withdrawals_root: sealed.header.withdrawals_root,
                ..standard
            })
        } else {
            sealed.header == (HeaderState {
                extra_data: payload.extra_data,
                ommers_hash: ZERO_HASH,
                difficulty: sealed.header.difficulty,
                ..standard
            }) && (sealed.header.difficulty == ZERO_HASH || sealed.header.difficulty
                == DIFFICULTY_ONE)
        },
{
}

/// A remembered header is taken only for a payload that says the same.
pub proof fn remembered_headers_are_bound(
    expected: B256,
    legacy: HeaderState,
    native: NativeState,
    rewards_root: Option<B256>,
)
    requires
        convert_native(expected, legacy, native, rewards_root) is Ok,
    ensures
        ({
            let n = native.header;
            &&& legacy.parent_hash == n.parent_hash
            &&& legacy.beneficiary == n.beneficiary
            &&& legacy.state_root == n.state_root
            &&& legacy.transactions_root == n.transactions_root
            &&& legacy.receipts_root == n.receipts_root
            &&& legacy.logs_bloom == n.logs_bloom
            &&& legacy.number == n.number
            &&& legacy.gas_limit == n.gas_limit
            &&& legacy.gas_used == n.gas_used
            &&& legacy.timestamp == n.timestamp
            &&& legacy.extra_data == n.extra_data
            &&& legacy.mix_hash == n.mix_hash
            &&& legacy.base_fee_per_gas == n.base_fee_per_gas
            &&& rewards_root == n.withdrawals_root
            &&& or_zero(legacy.blob_gas_used) == or_zero(n.blob_gas_used)
            &&& or_zero(legacy.excess_blob_gas) == or_zero(n.excess_blob_gas)
            &&& legacy.parent_beacon_block_root == n.parent_beacon_block_root
        }),
{
}

/// An ordinary payload is left to the standard conversion.
pub proof fn ordinary_payloads_are_left_alone(payload: PartsState, checks: ChecksState)
    ensures
        converted(N42HeaderProfile::Ethereum, payload, checks) is None,
        converted(N42HeaderProfile::Gov5H2, payload, checks) is Some,
{
}

/// A payload whose extra data is 32 zero bytes is a replayed one. It is taken
/// exactly where nothing speaks against it and its header, with that extra data and
/// the hash of nothing as its withdrawals root, has the announced hash.
pub proof fn replayed_payloads_have_their_hash(
    payload: PartsState,
    checks: ChecksState,
    standard: HeaderState,
)
    requires
        payload.extra_data.len() == 32,
        forall|i: int| 0 <= i < 32 ==> #[trigger] payload.extra_data[i] == 0,
        payload.standard == Ok::<HeaderState, Seq<char>>(standard),
    ensures
        ({
            let header = HeaderState {
                extra_data: payload.extra_data,
                withdrawals_root: Some(keccak256_of(Seq::empty())),
                ..standard
            };
            let hash = keccak256_of(header_rlp(header));
            let outcome = converted(N42HeaderProfile::Gov5H2, payload, checks)->0;
            &&& checks.replay matches Some(message) ==> outcome == Err::<SealedState, RefusalState>(
                RefusalState::Invalid { message },
            )
            &&& checks.replay is None && hash == payload.hash ==> outcome == Ok::<
                SealedState,
                RefusalState,
            >(SealedState { header, hash: payload.hash })
            &&& checks.replay is None && hash != payload.hash ==> outcome == Err::<
                SealedState,
                RefusalState,
            >(RefusalState::BlockHash { execution: hash, consensus: payload.hash })
        }),
{
    assert(payload.extra_data =~= ZERO_HASH@);
}

/// Any other payload is taken with no ommers and its own extra data where that has
/// the announced hash, first at a difficulty of zero, then at a difficulty of one.
/// Otherwise a remembered native header decides; without one the payload is refused
/// for its hash.
pub proof fn gov5_payloads_have_their_hash(
    payload: PartsState,
    checks: ChecksState,
    standard: HeaderState,
    i: int,
)
    requires
        0 <= i < payload.extra_data.len(),
        payload.extra_data[i] != 0 || payload.extra_data.len() != 32,
        payload.standard == Ok::<HeaderState, Seq<char>>(standard),
        checks.extra is None,
        checks.standard is None,
        checks.current is None,
        checks.legacy is None,
    ensures
        ({
            let current = HeaderState {
                ommers_hash: ZERO_HASH,
                extra_data: payload.extra_data,
                difficulty: ZERO_HASH,
                ..standard
            };
            let legacy = HeaderState { difficulty: DIFFICULTY_ONE, ..current };
            let hash = keccak256_of(header_rlp(current));
            let legacy_hash = keccak256_of(header_rlp(legacy));
            let outcome = converted(N42HeaderProfile::Gov5H2, payload, checks)->0;
            &&& hash == payload.hash ==> outcome == Ok::<SealedState, RefusalState>(
                SealedState { header: current, hash: payload.hash },
            )
            &&& hash != payload.hash && legacy_hash == payload.hash ==> outcome == Ok::<
                SealedState,
                RefusalState,
            >(SealedState { header: legacy, hash: payload.hash })
            &&& hash != payload.hash && legacy_hash != payload.hash && checks.native is None
                ==> outcome == Err::<SealedState, RefusalState>(
                RefusalState::BlockHash { execution: hash, consensus: payload.hash },
            )
            &&& hash != payload.hash && legacy_hash != payload.hash && (
            checks.native matches Some(native) && native.refusal is None) && outcome is Ok
                ==> outcome == Ok::<SealedState, RefusalState>(
                SealedState { header: checks.native->0.header, hash: payload.hash },
            )
        }),
{
    if payload.extra_data == ZERO_HASH@ {
        assert(payload.extra_data[i] == ZERO_HASH@[i]);
    }
}

/// What speaks against a payload refuses it, in its own words: its extra data first,
/// then what cannot be read, then its standard form, then the header at a difficulty
/// of zero and at last, where that header does not fit, the one at a difficulty of
/// one.
pub proof fn refusals_are_told_in_order(payload: PartsState, checks: ChecksState, i: int)
    requires
        0 <= i < payload.extra_data.len(),
        payload.extra_data[i] != 0 || payload.extra_data.len() != 32,
    ensures
        ({
            let outcome = converted(N42HeaderProfile::Gov5H2, payload, checks)->0;
            &&& checks.extra matches Some(message) ==> outcome == Err::<SealedState, RefusalState>(
                RefusalState::Invalid { message },
            )
            &&& checks.extra is None ==> {
                &&& payload.standard matches Err(message) ==> outcome == Err::<
                    SealedState,
                    RefusalState,
                >(RefusalState::Invalid { message })
                &&& payload.standard matches Ok(standard) ==> {
                    &&& checks.standard matches Some(message) ==> outcome == Err::<
                        SealedState,
                        RefusalState,
                    >(RefusalState::Invalid { message })
                    &&& checks.standard is None ==> (checks.current matches Some(message)
                        ==> outcome == Err::<SealedState, RefusalState>(
                        RefusalState::Invalid { message },
                    ))
                    &&& checks.standard is None && checks.current is None && keccak256_of(
                        header_rlp(
                            HeaderState {
                                ommers_hash: ZERO_HASH,
                                extra_data: payload.extra_data,
                                difficulty: ZERO_HASH,
                                ..standard
                            },
                        ),
                    ) != payload.hash ==> (checks.legacy matches Some(message) ==> outcome == Err::<
                        SealedState,
                        RefusalState,
                    >(RefusalState::Invalid { message }))
                }
            }
        }),
{
    if payload.extra_data == ZERO_HASH@ {
        assert(payload.extra_data[i] == ZERO_HASH@[i]);
    }
}

/// A remembered header is taken wherever it agrees with the payload in every field
/// that the payload fixes; absent blob gas counts as none.
pub proof fn agreeing_headers_are_taken(
    expected: B256,
    p: HeaderState,
    native: NativeState,
    rewards_root: Option<B256>,
)
    requires
        native.refusal is None,
        ({
            let n = native.header;
            &&& p.parent_hash == n.parent_hash
            &&& p.beneficiary == n.beneficiary
            &&& p.state_root == n.state_root
            &&& p.transactions_root == n.transactions_root
            &&& p.receipts_root == n.receipts_root
            &&& p.logs_bloom == n.logs_bloom
            &&& p.number == n.number
            &&& p.gas_limit == n.gas_limit
            &&& p.gas_used == n.gas_used
            &&& p.timestamp == n.timestamp
            &&& p.extra_data == n.extra_data
            &&& p.mix_hash == n.mix_hash
            &&& p.base_fee_per_gas == n.base_fee_per_gas
            &&& rewards_root == n.withdrawals_root
            &&& p.blob_gas_used == n.blob_gas_used || (p.blob_gas_used == Some(0u64)
                && n.blob_gas_used is None) || (p.blob_gas_used is None && n.blob_gas_used == Some(
                0u64,
            ))
            &&& p.excess_blob_gas == n.excess_blob_gas || (p.excess_blob_gas == Some(0u64)
                && n.excess_blob_gas is None) || (p.excess_blob_gas is None && n.excess_blob_gas
                == Some(0u64))
            &&& p.parent_beacon_block_root == n.parent_beacon_block_root
        }),
    ensures
        convert_native(expected, p, native, rewards_root) == Ok::<SealedState, RefusalState>(
            SealedState { header: native.header, hash: expected },
        ),
{
}

/// A payload reads where both its identity and its block can be read, and then has
/// the hash, the extra data and the header that these give.
pub proof fn payloads_are_read_in_parts(json: Seq<u8>)
    ensures
        payload_parts(json) is Some <==> payload_identity(json) is Some && payload_header(
            json,
            Seq::empty(),
        ) is Some,
        payload_parts(json) matches Some(parts) ==> payload_identity(json) == Some(
            (parts.hash, parts.extra_data),
        ) && payload_header(json, Seq::empty()) == Some(parts.standard),
{
}

} // verus!
