//! Binary transaction ingest: the credit window that keeps the pool below its
//! limit, the frames of the protocol, and what a connection does with a batch.
//!
//! A client sends `[u32 LE count]` and then, for each transaction,
//! `[u16 LE length][bytes][20-byte sender]`. A count of zero closes the
//! connection; the largest count asks for fresh credit. The answer holds the
//! accepted count and the pool's pending count, and, where the extensions are
//! on, the consumed count and the credit that is left.
use crate::primitives::{
    copy_bytes, saturating_mul_usize, saturating_product, to_bytes, Address, B256,
};
use crate::settings::{is_on, switched_on};
use vstd::bytes::{
    spec_u16_from_le_bytes, spec_u32_from_le_bytes, spec_u32_to_le_bytes, u16_from_le_bytes,
    u32_to_le_bytes,
};
use vstd::prelude::*;

verus! {

/// The header by which a client asks for credit without sending a batch.
pub const CREDIT_WAIT_SENTINEL: u32 = 0xffff_ffff;

/// The pending count at which batches are refused when nothing is configured.
pub const DEFAULT_INGEST_HIGH_WATER: usize = 90_000;

/// The pending count that partial batches fill up to when nothing is configured.
pub const DEFAULT_INGEST_TARGET_PENDING: usize = 82_000;

/// How long virtual block credit lasts when nothing is configured: it is off.
pub const DEFAULT_INGEST_VIRTUAL_BLOCK_CREDIT_MS: u64 = 0;

/// The pool's size when nothing is configured.
pub const DEFAULT_POOL_MAX_TXS: usize = 100_000;

/// The larger of two counts.
pub open spec fn larger(a: int, b: int) -> int {
    if a >= b {
        a
    } else {
        b
    }
}

/// The smaller of two counts.
pub open spec fn smaller(a: int, b: int) -> int {
    if a <= b {
        a
    } else {
        b
    }
}

/// `a - b`, or zero where `b` is larger.
pub open spec fn less(a: int, b: int) -> int {
    if a >= b {
        a - b
    } else {
        0
    }
}

fn max_usize(a: usize, b: usize) -> (m: usize)
    ensures
        m == larger(a as int, b as int),
{
    if a >= b {
        a
    } else {
        b
    }
}

fn min_usize(a: usize, b: usize) -> (m: usize)
    ensures
        m == smaller(a as int, b as int),
{
    if a <= b {
        a
    } else {
        b
    }
}

/// A configured count, where it is positive.
pub open spec fn positive(configured: Option<usize>) -> Option<usize> {
    match configured {
        Some(n) => if n > 0 {
            Some(n)
        } else {
            None
        },
        None => None,
    }
}

/// The configured number of transactions per block; zero counts as unset.
pub fn configured_block_cap(configured: Option<usize>) -> (cap: Option<usize>)
    ensures
        cap == positive(configured),
{
    match configured {
        Some(n) => {
            if n > 0 {
                Some(n)
            } else {
                None
            }
        },
        None => None,
    }
}

/// The pool's size: as configured, else three blocks, but never under the default.
pub open spec fn pool_limit(pool_max: Option<usize>, block_cap: Option<usize>) -> int {
    match (positive(pool_max), positive(block_cap)) {
        (Some(n), _) => n as int,
        (None, Some(cap)) => larger(
            DEFAULT_POOL_MAX_TXS as int,
            saturating_product(cap as int, 3, usize::MAX as int),
        ),
        (None, None) => DEFAULT_POOL_MAX_TXS as int,
    }
}

/// The number of transactions that the pool is sized for.
pub fn adaptive_pool_limit_txs(pool_max: Option<usize>, block_cap: Option<usize>) -> (limit: usize)
    ensures
        limit == pool_limit(pool_max, block_cap),
{
    if let Some(n) = configured_block_cap(pool_max) {
        return n;
    }
    match configured_block_cap(block_cap) {
        Some(cap) => max_usize(DEFAULT_POOL_MAX_TXS, saturating_mul_usize(cap, 3)),
        None => DEFAULT_POOL_MAX_TXS,
    }
}

/// The most that virtual block credit may be armed with: as configured, else
/// one block, else nothing.
pub fn ingest_virtual_block_credit_cap(
    configured: Option<usize>,
    block_cap: Option<usize>,
) -> (cap: usize)
    ensures
        cap == match (positive(configured), positive(block_cap)) {
            (Some(n), _) => n,
            (None, Some(n)) => n,
            (None, None) => 0,
        },
{
    if let Some(n) = configured_block_cap(configured) {
        return n;
    }
    match configured_block_cap(block_cap) {
        Some(n) => n,
        None => 0,
    }
}

/// The high-water mark: as configured; else, with a block cap, eight thirds of
/// a block, but no less than the default and leaving the pool its headroom.
pub open spec fn high_water(
    configured: Option<usize>,
    pool_max: Option<usize>,
    block_cap: Option<usize>,
) -> int {
    match (configured, positive(block_cap)) {
        (Some(n), _) => n as int,
        (None, Some(cap)) => smaller(
            larger(
                DEFAULT_INGEST_HIGH_WATER as int,
                saturating_product(cap as int, 8, usize::MAX as int) / 3,
            ),
            less(pool_limit(pool_max, block_cap), larger(cap as int / 3, 8_000)),
        ),
        (None, None) => DEFAULT_INGEST_HIGH_WATER as int,
    }
}

/// The pending count at which batches are refused.
pub fn ingest_high_water(
    configured: Option<usize>,
    pool_max: Option<usize>,
    block_cap: Option<usize>,
) -> (mark: usize)
    ensures
        mark == high_water(configured, pool_max, block_cap),
{
    if let Some(n) = configured {
        return n;
    }
    match configured_block_cap(block_cap) {
        Some(cap) => {
            let limit: usize = adaptive_pool_limit_txs(pool_max, block_cap);
            let headroom: usize = max_usize(cap / 3, 8_000);
            min_usize(
                max_usize(DEFAULT_INGEST_HIGH_WATER, saturating_mul_usize(cap, 8) / 3),
                limit.saturating_sub(headroom),
            )
        },
        None => DEFAULT_INGEST_HIGH_WATER,
    }
}

/// The pending count that partial batches fill up to: as configured, else a
/// sixth of a block below the high-water mark; never above that mark.
pub open spec fn target_pending(
    configured: Option<usize>,
    block_cap: Option<usize>,
    mark: int,
) -> int {
    let headroom = match positive(block_cap) {
        Some(cap) => larger(cap as int / 6, 8_000),
        None => 8_000,
    };
    let default_target = larger(
        less(mark, headroom),
        smaller(DEFAULT_INGEST_TARGET_PENDING as int, mark),
    );
    smaller(
        match configured {
            Some(n) => n as int,
            None => default_target,
        },
        mark,
    )
}

/// The pending count up to which credit is given without the credit probe.
pub fn ingest_target_pending(
    configured: Option<usize>,
    block_cap: Option<usize>,
    high_water: usize,
) -> (target: usize)
    ensures
        target == target_pending(configured, block_cap, high_water as int),
{
    let headroom: usize = match configured_block_cap(block_cap) {
        Some(cap) => max_usize(cap / 6, 8_000),
        None => 8_000,
    };
    let default_target: usize = max_usize(
        high_water.saturating_sub(headroom),
        min_usize(DEFAULT_INGEST_TARGET_PENDING, high_water),
    );
    let target: usize = match configured {
        Some(n) => n,
        None => default_target,
    };
    min_usize(target, high_water)
}

/// Whether answers hold the consumed count too.
pub fn ingest_extended_ack_enabled(setting: Option<&str>) -> (enabled: bool)
    ensures
        enabled == (setting matches Some(text) && is_on(text@)),
{
    switched_on(setting)
}

/// Whether clients may ask for credit.
pub fn ingest_credit_probe_enabled(setting: Option<&str>) -> (enabled: bool)
    ensures
        enabled == (setting matches Some(text) && is_on(text@)),
{
    switched_on(setting)
}

/// How long virtual block credit lasts.
pub fn ingest_virtual_block_credit_ttl_ms(configured: Option<u64>) -> (ms: u64)
    ensures
        ms == match configured {
            Some(ms) => ms,
            None => DEFAULT_INGEST_VIRTUAL_BLOCK_CREDIT_MS,
        },
{
    match configured {
        Some(ms) => ms,
        None => DEFAULT_INGEST_VIRTUAL_BLOCK_CREDIT_MS,
    }
}

/// How long to wait between two looks at the pool: as configured, ten
/// milliseconds by default, at least one.
pub fn ingest_credit_poll_interval(configured_ms: Option<u64>) -> (ms: u64)
    ensures
        ms == match configured_ms {
            Some(n) => if n == 0 {
                1u64
            } else {
                n
            },
            None => 10,
        },
{
    match configured_ms {
        Some(n) => {
            if n == 0 {
                1
            } else {
                n
            }
        },
        None => 10,
    }
}

/// Transactions that a block is about to take out of the pool, which clients
/// may already send more for.
#[derive(Clone, Copy, Debug, PartialEq, Eq, Structural)]
pub struct VirtualBlockCreditState {
    pub available_txs: usize,
    pub until_ms: u64,
}

impl Default for VirtualBlockCreditState {
    fn default() -> (state: Self)
        ensures
            state == (VirtualBlockCreditState { available_txs: 0, until_ms: 0 }),
    {
        VirtualBlockCreditState { available_txs: 0, until_ms: 0 }
    }
}

/// The state once credit whose time is over has lapsed.
pub open spec fn lapsed(state: VirtualBlockCreditState, now_ms: u64) -> VirtualBlockCreditState {
    if state.until_ms == 0 || now_ms > state.until_ms {
        VirtualBlockCreditState { available_txs: 0, until_ms: 0 }
    } else {
        state
    }
}

/// Drops credit whose time is over.
pub fn reset_expired_virtual_block_credit(state: &mut VirtualBlockCreditState, now_ms: u64)
    ensures
        *final(state) == lapsed(*old(state), now_ms),
{
    if state.until_ms == 0 || now_ms > state.until_ms {
        state.available_txs = 0;
        state.until_ms = 0;
    }
}

/// Arms credit for a block of `tx_count` transactions; says whether it did.
/// Credit that is still armed is kept where it is larger or lasts longer.
pub fn note_virtual_block_credit(
    state: &mut VirtualBlockCreditState,
    tx_count: usize,
    ttl_ms: u64,
    cap: usize,
    now_ms: u64,
) -> (armed: bool)
    ensures
        armed == (ttl_ms > 0 && tx_count > 0 && cap > 0),
        !armed ==> *final(state) == *old(state),
        armed ==> {
            let kept = lapsed(*old(state), now_ms);
            &&& final(state).available_txs == larger(
                kept.available_txs as int,
                smaller(tx_count as int, cap as int),
            )
            &&& final(state).until_ms == larger(
                kept.until_ms as int,
                smaller(now_ms + ttl_ms, u64::MAX as int),
            )
        },
{
    if ttl_ms == 0 || tx_count == 0 {
        return false;
    }
    let credit_txs: usize = min_usize(tx_count, cap);
    if credit_txs == 0 {
        return false;
    }
    let until_ms: u64 = now_ms.saturating_add(ttl_ms);
    reset_expired_virtual_block_credit(state, now_ms);
    state.available_txs = max_usize(state.available_txs, credit_txs);
    if until_ms > state.until_ms {
        state.until_ms = until_ms;
    }
    true
}

/// The credit above the high-water mark, as far as the pool has room for it.
pub open spec fn active_credit(
    state: VirtualBlockCreditState,
    base_high_water: int,
    ttl_ms: u64,
    now_ms: u64,
    pool_limit: int,
) -> int {
    if ttl_ms == 0 || now_ms > state.until_ms {
        0
    } else {
        smaller(state.available_txs as int, less(pool_limit, base_high_water))
    }
}

/// The credit that may be used above the high-water mark.
pub fn active_virtual_block_credit(
    state: &VirtualBlockCreditState,
    base_high_water: usize,
    ttl_ms: u64,
    now_ms: u64,
    pool_limit: usize,
) -> (credit: usize)
    ensures
        credit == active_credit(*state, base_high_water as int, ttl_ms, now_ms, pool_limit as int),
{
    if ttl_ms == 0 {
        return 0;
    }
    if now_ms > state.until_ms {
        return 0;
    }
    min_usize(state.available_txs, pool_limit.saturating_sub(base_high_water))
}

/// The high-water mark, raised by what credit there is where the probe is on.
pub open spec fn raised_high_water(base: int, credit_probe_enabled: bool, credit: int) -> int {
    if credit_probe_enabled {
        smaller(base + credit, usize::MAX as int)
    } else {
        base
    }
}

/// The pending count at which batches are refused, given the credit in force.
pub fn effective_high_water(
    base_high_water: usize,
    credit_probe_enabled: bool,
    credit: usize,
) -> (mark: usize)
    ensures
        mark == raised_high_water(base_high_water as int, credit_probe_enabled, credit as int),
{
    if credit_probe_enabled {
        base_high_water.saturating_add(credit)
    } else {
        base_high_water
    }
}

/// The pending count that a batch may fill up to: the raised high-water mark
/// with the credit probe, the target without it.
pub fn effective_credit_limit(
    base_high_water: usize,
    target_pending: usize,
    credit_probe_enabled: bool,
    credit: usize,
) -> (limit: usize)
    ensures
        limit == if credit_probe_enabled {
            raised_high_water(base_high_water as int, true, credit as int)
        } else {
            target_pending as int
        },
{
    if credit_probe_enabled {
        effective_high_water(base_high_water, true, credit)
    } else {
        target_pending
    }
}

/// How many transactions fit below `target_pending`.
pub fn credit_available(target_pending: usize, pending: usize) -> (credit: usize)
    ensures
        credit == less(target_pending as int, pending as int),
{
    target_pending.saturating_sub(pending)
}

/// What a credit probe is granted: the raised mark and the credit below it.
#[derive(Clone, Copy, Debug, PartialEq, Eq, Structural)]
pub struct CreditGrant {
    pub high_water: usize,
    pub credit_limit: usize,
    pub credit: usize,
}

/// The mark up to which a probe at `now_ms` may fill the pool.
pub open spec fn probe_mark(
    state: VirtualBlockCreditState,
    base_high_water: int,
    ttl_ms: u64,
    now_ms: u64,
    pool_limit: int,
) -> int {
    if ttl_ms == 0 {
        base_high_water
    } else {
        smaller(
            base_high_water + smaller(
                lapsed(state, now_ms).available_txs as int,
                less(pool_limit, base_high_water),
            ),
            usize::MAX as int,
        )
    }
}

/// What is left of the virtual credit once a probe has been granted what fits:
/// less by the part of the grant that lies above the base mark.
pub open spec fn after_grant(
    state: VirtualBlockCreditState,
    base_high_water: int,
    pending: int,
    ttl_ms: u64,
    now_ms: u64,
    pool_limit: int,
) -> VirtualBlockCreditState {
    let kept = lapsed(state, now_ms);
    let mark = probe_mark(state, base_high_water, ttl_ms, now_ms, pool_limit);
    let used = less(mark, pending) - less(base_high_water, pending);
    let left = (kept.available_txs - used) as usize;
    if ttl_ms == 0 {
        state
    } else if pending >= mark {
        kept
    } else {
        VirtualBlockCreditState {
            available_txs: left,
            until_ms: if left == 0 {
                0
            } else {
                kept.until_ms
            },
        }
    }
}

/// Grants a credit probe everything that fits below the raised mark, and takes
/// the part of it that lies above the base mark out of the virtual credit.
pub fn reserve_credit_probe_allowance(
    state: &mut VirtualBlockCreditState,
    base_high_water: usize,
    pending: usize,
    ttl_ms: u64,
    now_ms: u64,
    pool_limit: usize,
) -> (grant: CreditGrant)
    ensures
        grant.high_water == probe_mark(
            *old(state),
            base_high_water as int,
            ttl_ms,
            now_ms,
            pool_limit as int,
        ),
        grant.credit_limit == grant.high_water,
        grant.credit == less(grant.high_water as int, pending as int),
        *final(state) == after_grant(
            *old(state),
            base_high_water as int,
            pending as int,
            ttl_ms,
            now_ms,
            pool_limit as int,
        ),
{
    let base_credit: usize = base_high_water.saturating_sub(pending);
    if ttl_ms == 0 {
        return CreditGrant {
            high_water: base_high_water,
            credit_limit: base_high_water,
            credit: base_credit,
        };
    }
    let extra_headroom: usize = pool_limit.saturating_sub(base_high_water);
    reset_expired_virtual_block_credit(state, now_ms);
    let virtual_available: usize = min_usize(state.available_txs, extra_headroom);
    let dynamic_high_water: usize = base_high_water.saturating_add(virtual_available);
    if pending >= dynamic_high_water {
        return CreditGrant {
            high_water: dynamic_high_water,
            credit_limit: dynamic_high_water,
            credit: 0,
        };
    }
    let virtual_grant: usize = dynamic_high_water.saturating_sub(pending).saturating_sub(
        base_credit,
    );
    let reserved_virtual: usize = min_usize(virtual_grant, state.available_txs);
    state.available_txs = state.available_txs.saturating_sub(reserved_virtual);
    if state.available_txs == 0 {
        state.until_ms = 0;
    }
    CreditGrant {
        high_water: dynamic_high_water,
        credit_limit: dynamic_high_water,
        credit: base_credit.saturating_add(reserved_virtual),
    }
}

/// Counters of the ingest server. They wrap around.
#[derive(Clone, Copy, Debug, PartialEq, Eq, Structural)]
pub struct IngestStats {
    pub received: u64,
    pub accepted: u64,
    pub decode_errors: u64,
    pub pool_errors: u64,
    pub soft_gated: u64,
    pub credit_waits: u64,
    pub credit_wait_ms: u64,
    pub partial_batches: u64,
    pub deferred: u64,
}

/// All counters at zero.
pub open spec fn no_stats() -> IngestStats {
    IngestStats {
        received: 0,
        accepted: 0,
        decode_errors: 0,
        pool_errors: 0,
        soft_gated: 0,
        credit_waits: 0,
        credit_wait_ms: 0,
        partial_batches: 0,
        deferred: 0,
    }
}

impl Default for IngestStats {
    fn default() -> (stats: Self)
        ensures
            stats == no_stats(),
    {
        IngestStats {
            received: 0,
            accepted: 0,
            decode_errors: 0,
            pool_errors: 0,
            soft_gated: 0,
            credit_waits: 0,
            credit_wait_ms: 0,
            partial_batches: 0,
            deferred: 0,
        }
    }
}

impl IngestStats {
    /// Counters that have counted nothing yet.
    pub fn new() -> (stats: Self)
        ensures
            stats == no_stats(),
    {
        Self::default()
    }
}

/// A count as the four bytes of an answer: counts that do not fit are sent as
/// the largest that does.
pub open spec fn ack_word(n: int) -> Seq<u8> {
    spec_u32_to_le_bytes(smaller(n, u32::MAX as int) as u32)
}

fn push_ack_word(ack: &mut Vec<u8>, n: usize)
    ensures
        final(ack)@ == old(ack)@ + ack_word(n as int),
{
    let word: u32 = if n >= 0xffff_ffff {
        0xffff_ffff
    } else {
        n as u32
    };
    let mut bytes = u32_to_le_bytes(word);
    ack.append(&mut bytes);
}

/// The bytes of an answer.
pub open spec fn ack_bytes(
    accepted: int,
    pool_pending: int,
    consumed: int,
    credit_available: int,
    extended_ack_enabled: bool,
    credit_probe_enabled: bool,
) -> Seq<u8> {
    let short = ack_word(accepted) + ack_word(pool_pending);
    if credit_probe_enabled {
        short + ack_word(consumed) + ack_word(credit_available)
    } else if extended_ack_enabled {
        short + ack_word(consumed)
    } else {
        short
    }
}

/// Encodes an answer: two words, three with the extended answer, four with the
/// credit probe.
pub fn write_ack(
    accepted: usize,
    pool_pending: usize,
    consumed: usize,
    credit_available: usize,
    extended_ack_enabled: bool,
    credit_probe_enabled: bool,
) -> (ack: Vec<u8>)
    ensures
        ack@ == ack_bytes(
            accepted as int,
            pool_pending as int,
            consumed as int,
            credit_available as int,
            extended_ack_enabled,
            credit_probe_enabled,
        ),
{
    let mut ack: Vec<u8> = Vec::new();
    push_ack_word(&mut ack, accepted);
    push_ack_word(&mut ack, pool_pending);
    assert(ack@ =~= ack_word(accepted as int) + ack_word(pool_pending as int));
    if credit_probe_enabled {
        push_ack_word(&mut ack, consumed);
        push_ack_word(&mut ack, credit_available);
    } else if extended_ack_enabled {
        push_ack_word(&mut ack, consumed);
    }
    ack
}

/// A transaction as a client sends it, with the sender that the client names.
#[derive(Debug)]
pub struct RawTransaction {
    pub bytes: Vec<u8>,
    pub sender: Address,
}

/// The bytes of one transaction on the wire.
pub open spec fn record_bytes(tx_bytes: Seq<u8>, sender: Address) -> Seq<u8> {
    vstd::bytes::spec_u16_to_le_bytes(tx_bytes.len() as u16) + tx_bytes + sender@
}

/// How many bytes have to come before the transaction at the front of `wire` is
/// all there: those of its length first, then the rest.
pub open spec fn missing_bytes(wire: Seq<u8>) -> int {
    if wire.len() < 2 {
        2 - wire.len()
    } else {
        let whole = 22 + spec_u16_from_le_bytes(wire.take(2));
        if wire.len() < whole {
            whole - wire.len()
        } else {
            0
        }
    }
}

/// How many bytes to read next for the transaction at the front of `wire`;
/// nothing where it is all there.
pub fn record_missing(wire: &[u8]) -> (missing: usize)
    ensures
        missing == missing_bytes(wire@),
{
    if wire.len() < 2 {
        return 2 - wire.len();
    }
    let (prefix, _) = wire.split_at(2);
    assert(prefix@ =~= wire@.take(2));
    let whole: usize = u16_from_le_bytes(prefix) as usize + 22;
    if wire.len() < whole {
        whole - wire.len()
    } else {
        0
    }
}

/// Reads one transaction from the front of `wire`: it and the number of bytes
/// that it takes, or nothing where the bytes are not all there.
pub fn read_record(wire: &[u8]) -> (read: Option<(RawTransaction, usize)>)
    ensures
        match read {
            Some((raw, n)) => missing_bytes(wire@) == 0 && raw.bytes@.len() <= 65535 && n
                == raw.bytes@.len() + 22 && n <= wire@.len() && wire@.take(n as int)
                == record_bytes(raw.bytes@, raw.sender),
            None => missing_bytes(wire@) > 0,
        },
{
    if wire.len() < 2 {
        return None;
    }
    let (prefix, rest) = wire.split_at(2);
    proof {
        assert(prefix@ =~= wire@.take(2));
        vstd::bytes::lemma_auto_spec_u16_to_from_le_bytes();
    }
    let tx_len: usize = u16_from_le_bytes(prefix) as usize;
    if rest.len() < tx_len + 20 {
        return None;
    }
    let (body, tail) = rest.split_at(tx_len);
    let mut sender: Address = [0u8; 20];
    let mut i: usize = 0;
    while i < 20
        invariant
            i <= 20,
            tail@.len() >= 20,
            forall|j: int| 0 <= j < i ==> sender@[j] == tail@[j],
        decreases 20 - i,
    {
        sender[i] = tail[i];
        i += 1;
    }
    let raw = RawTransaction { bytes: to_bytes(body), sender };
    assert(wire@.take(tx_len + 22) =~= record_bytes(raw.bytes@, raw.sender));
    Some((raw, tx_len + 22))
}

/// What a client wrote for a transaction is read back as that transaction,
/// whatever follows it on the wire.
pub proof fn record_reads_back(tx_bytes: Seq<u8>, sender: Address, rest: Seq<u8>)
    requires
        tx_bytes.len() <= 65535,
    ensures
        ({
            let wire = record_bytes(tx_bytes, sender) + rest;
            &&& missing_bytes(wire) == 0
            &&& forall|bytes: Seq<u8>, from: Address|
                bytes.len() <= 65535 && bytes.len() + 22 <= wire.len() && wire.take(
                    bytes.len() + 22int,
                ) == #[trigger] record_bytes(bytes, from) ==> bytes == tx_bytes && from == sender
        }),
{
    vstd::bytes::lemma_auto_spec_u16_to_from_le_bytes();
    let wire = record_bytes(tx_bytes, sender) + rest;
    let n = vstd::bytes::spec_u16_to_le_bytes(tx_bytes.len() as u16);
    assert(wire.take(2) =~= n);
    assert forall|bytes: Seq<u8>, from: Address|
        bytes.len() <= 65535 && bytes.len() + 22 <= wire.len() && wire.take(bytes.len() + 22int)
            == #[trigger] record_bytes(bytes, from) implies bytes == tx_bytes && from == sender by {
        let again = record_bytes(bytes, from);
        let m = vstd::bytes::spec_u16_to_le_bytes(bytes.len() as u16);
        assert(again.take(2) =~= m);
        assert(wire.take(bytes.len() + 22int).take(2) =~= wire.take(2));
        assert(m == n);
        assert(bytes.len() == tx_bytes.len());
        assert forall|k: int| 0 <= k < bytes.len() implies bytes[k] == tx_bytes[k] by {
            assert(again[k + 2] == bytes[k]);
            assert(wire[k + 2] == tx_bytes[k]);
        }
        assert(bytes =~= tx_bytes);
        assert forall|k: int| 0 <= k < 20 implies from@[k] == sender@[k] by {
            assert(again[bytes.len() + 2 + k] == from@[k]);
            assert(wire[bytes.len() + 2 + k] == sender@[k]);
        }
        assert(from =~= sender);
    }
}

/// Hash and nonce of the transaction that `bytes` start with in EIP-2718 form,
/// where they start with one.
pub uninterp spec fn decoded_transaction(bytes: Seq<u8>) -> Option<(B256, u64)>;

/// Calls `alloy_eips::eip2718::Decodable2718::decode_2718` for
/// `alloy_consensus::EthereumTxEnvelope<TxEip4844>` and takes the transaction's
/// hash and nonce. Claimed is that the outcome depends on the bytes alone.
#[verifier::external_body]
fn decode_transaction(bytes: &Vec<u8>) -> (decoded: Option<(B256, u64)>)
    ensures
        decoded == decoded_transaction(bytes@),
{
    let tx: alloy_consensus::EthereumTxEnvelope<alloy_consensus::TxEip4844> =
        alloy_eips::eip2718::Decodable2718::decode_2718(&mut &bytes[..]).ok()?;
    Some((tx.tx_hash().0, alloy_consensus::Transaction::nonce(&tx)))
}

/// A transaction that decodes, as the client sent it and with what it decodes to.
#[derive(Debug)]
pub struct DecodedTransaction {
    pub bytes: Vec<u8>,
    pub sender: Address,
    pub hash: B256,
    pub nonce: u64,
}

/// The contents of a transaction that decodes.
pub type DecodedState = (Seq<u8>, Address, B256, u64);

impl View for DecodedTransaction {
    type V = DecodedState;

    open spec fn view(&self) -> DecodedState {
        (self.bytes@, self.sender, self.hash, self.nonce)
    }
}

/// The contents of a list of transactions that decode.
pub open spec fn decoded_state(txs: Seq<DecodedTransaction>) -> Seq<DecodedState> {
    txs.map_values(|tx: DecodedTransaction| tx@)
}

/// The transactions among the first `n` of a batch that decode, in order.
pub open spec fn decodable(raw: Seq<RawTransaction>, n: int) -> Seq<DecodedState>
    decreases n,
{
    if n <= 0 {
        Seq::empty()
    } else {
        let before = decodable(raw, n - 1);
        match decoded_transaction(raw[n - 1].bytes@) {
            Some((hash, nonce)) => before.push(
                (raw[n - 1].bytes@, raw[n - 1].sender, hash, nonce),
            ),
            None => before,
        }
    }
}

/// Decodes the first `take_limit` transactions of a batch; those that do not
/// decode are counted and left out.
pub fn decode_prefix(raw: &Vec<RawTransaction>, take_limit: usize) -> (decoded: (
    Vec<DecodedTransaction>,
    u64,
))
    ensures
        decoded_state(decoded.0@) == decodable(
            raw@,
            smaller(take_limit as int, raw@.len() as int),
        ),
        decoded.1 + decoded.0@.len() == smaller(take_limit as int, raw@.len() as int),
{
    let n: usize = min_usize(take_limit, raw.len());
    let mut decoded: Vec<DecodedTransaction> = Vec::new();
    let mut errors: u64 = 0;
    let mut i: usize = 0;
    assert(decoded_state(decoded@) =~= Seq::empty());
    while i < n
        invariant
            i <= n <= raw@.len(),
            decoded_state(decoded@) == decodable(raw@, i as int),
            errors == i - decoded@.len(),
        decreases n - i,
    {
        match decode_transaction(&raw[i].bytes) {
            Some((hash, nonce)) => {
                let ghost before = decoded@;
                let tx = DecodedTransaction {
                    bytes: copy_bytes(&raw[i].bytes),
                    sender: raw[i].sender,
                    hash,
                    nonce,
                };
                let ghost added = tx@;
                decoded.push(tx);
                assert(decoded_state(decoded@) =~= decoded_state(before).push(added));
            },
            None => {
                errors += 1;
            },
        }
        i += 1;
    }
    (decoded, errors)
}

/// What one connection remembers between batches.
#[derive(Clone, Copy, Debug, PartialEq, Eq, Structural)]
pub struct ClientSession {
    pub base_high_water: usize,
    pub target_pending: usize,
    pub credit_probe_enabled: bool,
    pub extended_ack_enabled: bool,
    /// The refusal at the high-water mark has been reported.
    pub hard_gate_logged: bool,
    /// The wait at the target has been reported.
    pub soft_gate_logged: bool,
    /// What is left of the credit that the last probe was granted.
    pub leased_credit_remaining: usize,
}

/// What the connection does next after it has read a header.
#[derive(Clone, Copy, Debug, PartialEq, Eq, Structural)]
pub enum HeaderAction {
    /// Close the connection.
    Close,
    /// Answer a credit probe although probes are off.
    RefuseProbe,
    /// Wait until the pool has room, then answer the probe.
    WaitForCredit,
    /// Read that many transactions.
    ReadBatch(usize),
}

/// What the connection does with a batch that it has read.
#[derive(Clone, Copy, Debug, PartialEq, Eq, Structural)]
pub enum BatchAction {
    /// Answer that nothing was taken: the pool is near its limit.
    HardGated,
    /// Answer that nothing was taken: there is no credit.
    SoftGated,
    /// Decode and submit that many transactions from the front of the batch.
    Take(usize),
}

/// How many transactions of a batch may be taken.
pub open spec fn take_limit(
    session: ClientSession,
    num_txs: int,
    pending: int,
    mark: int,
) -> int {
    if session.credit_probe_enabled {
        smaller(session.leased_credit_remaining as int, num_txs)
    } else if !session.extended_ack_enabled {
        num_txs
    } else if pending >= mark {
        0
    } else {
        smaller(less(session.target_pending as int, pending), num_txs)
    }
}

/// What becomes of a batch at a pool with `pending` transactions.
pub open spec fn batch_action(
    session: ClientSession,
    num_txs: int,
    pending: int,
    credit: int,
) -> BatchAction {
    let mark = raised_high_water(
        session.base_high_water as int,
        session.credit_probe_enabled,
        credit,
    );
    let limit = take_limit(session, num_txs, pending, mark);
    if pending >= mark && (!session.credit_probe_enabled || session.leased_credit_remaining == 0) {
        BatchAction::HardGated
    } else if session.extended_ack_enabled && limit == 0 {
        BatchAction::SoftGated
    } else {
        BatchAction::Take(limit as usize)
    }
}

impl ClientSession {
    /// The session of a new connection. The credit probe implies the extended answer.
    pub fn new(
        base_high_water: usize,
        target_pending: usize,
        credit_probe_enabled: bool,
        extended_ack_configured: bool,
    ) -> (session: Self)
        ensures
            session == (ClientSession {
                base_high_water,
                target_pending,
                credit_probe_enabled,
                extended_ack_enabled: credit_probe_enabled || extended_ack_configured,
                hard_gate_logged: false,
                soft_gate_logged: false,
                leased_credit_remaining: 0,
            }),
            session.credit_probe_enabled ==> session.extended_ack_enabled,
    {
        ClientSession {
            base_high_water,
            target_pending,
            credit_probe_enabled,
            extended_ack_enabled: credit_probe_enabled || extended_ack_configured,
            hard_gate_logged: false,
            soft_gate_logged: false,
            leased_credit_remaining: 0,
        }
    }

    /// Reads a header; a batch is counted as received.
    pub fn on_header(&self, header: u32, stats: &mut IngestStats) -> (action: HeaderAction)
        ensures
            action == if header == 0 {
                HeaderAction::Close
            } else if header != CREDIT_WAIT_SENTINEL {
                HeaderAction::ReadBatch(header as usize)
            } else if self.credit_probe_enabled {
                HeaderAction::WaitForCredit
            } else {
                HeaderAction::RefuseProbe
            },
            *final(stats) == if action is ReadBatch {
                IngestStats {
                    received: old(stats).received.wrapping_add(header as u64),
                    ..*old(stats)
                }
            } else {
                *old(stats)
            },
    {
        if header == 0 {
            return HeaderAction::Close;
        }
        if header == CREDIT_WAIT_SENTINEL {
            if self.credit_probe_enabled {
                return HeaderAction::WaitForCredit;
            }
            return HeaderAction::RefuseProbe;
        }
        stats.received = stats.received.wrapping_add(header as u64);
        HeaderAction::ReadBatch(header as usize)
    }

    /// The answer to a credit probe while probes are off.
    pub fn refuse_probe(&self, pending: usize) -> (ack: Vec<u8>)
        ensures
            ack@ == ack_bytes(0, pending as int, 0, 0, self.extended_ack_enabled, false),
    {
        write_ack(0, pending, 0, 0, self.extended_ack_enabled, false)
    }

    /// Leases the granted credit to the client and answers the probe.
    pub fn grant_probe(&mut self, pending: usize, credit: usize) -> (ack: Vec<u8>)
        ensures
            *final(self) == (ClientSession { leased_credit_remaining: credit, ..*old(self) }),
            ack@ == ack_bytes(
                0,
                pending as int,
                0,
                credit as int,
                old(self).extended_ack_enabled,
                old(self).credit_probe_enabled,
            ),
    {
        self.leased_credit_remaining = credit;
        write_ack(0, pending, 0, credit, self.extended_ack_enabled, self.credit_probe_enabled)
    }

    /// Decides on a batch of `num_txs` transactions while `pending` are in the
    /// pool and `credit` is in force above the high-water mark.
    pub fn on_batch(
        &mut self,
        num_txs: usize,
        pending: usize,
        credit: usize,
        stats: &mut IngestStats,
    ) -> (action: BatchAction)
        ensures
            action == batch_action(*old(self), num_txs as int, pending as int, credit as int),
            *final(self) == (ClientSession {
                hard_gate_logged: action == BatchAction::HardGated,
                soft_gate_logged: match action {
                    BatchAction::HardGated => old(self).soft_gate_logged,
                    BatchAction::SoftGated => true,
                    BatchAction::Take(_) => false,
                },
                ..*old(self)
            }),
            *final(stats) == if action == BatchAction::SoftGated {
                IngestStats { soft_gated: old(stats).soft_gated.wrapping_add(1), ..*old(stats) }
            } else {
                *old(stats)
            },
            action matches BatchAction::Take(n) ==> n <= num_txs,
    {
        let mark: usize = effective_high_water(
            self.base_high_water,
            self.credit_probe_enabled,
            credit,
        );
        let credit_limit: usize = effective_credit_limit(
            self.base_high_water,
            self.target_pending,
            self.credit_probe_enabled,
            credit,
        );
        let limit: usize = if self.credit_probe_enabled {
            min_usize(self.leased_credit_remaining, num_txs)
        } else if !self.extended_ack_enabled {
            num_txs
        } else if pending >= mark {
            0
        } else {
            min_usize(credit_available(credit_limit, pending), num_txs)
        };
        if pending >= mark && (!self.credit_probe_enabled || self.leased_credit_remaining == 0) {
            self.hard_gate_logged = true;
            return BatchAction::HardGated;
        }
        self.hard_gate_logged = false;
        if self.extended_ack_enabled && limit == 0 {
            stats.soft_gated = stats.soft_gated.wrapping_add(1);
            self.soft_gate_logged = true;
            return BatchAction::SoftGated;
        }
        self.soft_gate_logged = false;
        BatchAction::Take(limit)
    }

    /// The answer to a batch of which nothing was taken.
    pub fn refuse_batch(&self, pending: usize) -> (ack: Vec<u8>)
        ensures
            ack@ == ack_bytes(
                0,
                pending as int,
                0,
                0,
                self.extended_ack_enabled,
                self.credit_probe_enabled,
            ),
    {
        write_ack(0, pending, 0, 0, self.extended_ack_enabled, self.credit_probe_enabled)
    }

    /// Accounts for a batch of which the first `consumed` transactions were
    /// taken: `submitted` of them went to the pool, and `accepted` of these were
    /// accepted. All others that were taken could not be made into transactions
    /// of the pool, and count as decode errors.
    pub fn on_submitted(
        &mut self,
        num_txs: usize,
        consumed: usize,
        submitted: usize,
        accepted: usize,
        new_pending: usize,
        stats: &mut IngestStats,
    ) -> (ack: Vec<u8>)
        requires
            accepted <= submitted <= consumed <= num_txs,
        ensures
            *final(self) == (ClientSession {
                leased_credit_remaining: if old(self).credit_probe_enabled {
                    less(old(self).leased_credit_remaining as int, consumed as int) as usize
                } else {
                    old(self).leased_credit_remaining
                },
                ..*old(self)
            }),
            *final(stats) == (IngestStats {
                accepted: old(stats).accepted.wrapping_add(accepted as u64),
                decode_errors: old(stats).decode_errors.wrapping_add(
                    (consumed - submitted) as u64,
                ),
                pool_errors: old(stats).pool_errors.wrapping_add((submitted - accepted) as u64),
                partial_batches: old(stats).partial_batches.wrapping_add(
                    if consumed < num_txs {
                        1
                    } else {
                        0
                    },
                ),
                deferred: old(stats).deferred.wrapping_add((num_txs - consumed) as u64),
                ..*old(stats)
            }),
            ack@ == ack_bytes(
                accepted as int,
                new_pending as int,
                consumed as int,
                final(self).leased_credit_remaining as int,
                old(self).extended_ack_enabled,
                old(self).credit_probe_enabled,
            ),
    {
        let decode_errors: usize = consumed - submitted;
        if decode_errors > 0 {
            stats.decode_errors = stats.decode_errors.wrapping_add(decode_errors as u64);
        }
        let pool_errors: usize = submitted - accepted;
        stats.accepted = stats.accepted.wrapping_add(accepted as u64);
        if pool_errors > 0 {
            stats.pool_errors = stats.pool_errors.wrapping_add(pool_errors as u64);
        }
        if consumed < num_txs {
            stats.partial_batches = stats.partial_batches.wrapping_add(1);
            stats.deferred = stats.deferred.wrapping_add((num_txs - consumed) as u64);
        }
        if self.credit_probe_enabled {
            self.leased_credit_remaining = self.leased_credit_remaining.saturating_sub(consumed);
        }
        write_ack(
            accepted,
            new_pending,
            consumed,
            self.leased_credit_remaining,
            self.extended_ack_enabled,
            self.credit_probe_enabled,
        )
    }

    /// One look at the pool while a credit probe waits: the credit to grant, or
    /// nothing where the client has to wait for another look. `waited_ms` is how
    /// long it has waited; `waited` says whether it had to.
    pub fn wait_for_credit_probe(
        &mut self,
        waited: &mut bool,
        state: &mut VirtualBlockCreditState,
        pending: usize,
        ttl_ms: u64,
        now_ms: u64,
        pool_limit: usize,
        waited_ms: u64,
        stats: &mut IngestStats,
    ) -> (credit: Option<usize>)
        ensures
            ({
                let base = old(self).base_high_water as int;
                let gate = smaller(
                    base + active_credit(*old(state), base, ttl_ms, now_ms, pool_limit as int),
                    usize::MAX as int,
                );
                let offered = less(
                    probe_mark(*old(state), base, ttl_ms, now_ms, pool_limit as int),
                    pending as int,
                );
                match credit {
                    Some(c) => {
                        &&& pending < gate
                        &&& c > 0
                        &&& c == offered
                        &&& *final(waited) == *old(waited)
                        &&& *final(self) == (ClientSession {
                            hard_gate_logged: false,
                            soft_gate_logged: false,
                            ..*old(self)
                        })
                        &&& *final(stats) == if *old(waited) {
                            IngestStats {
                                credit_waits: old(stats).credit_waits.wrapping_add(1),
                                credit_wait_ms: old(stats).credit_wait_ms.wrapping_add(waited_ms),
                                ..*old(stats)
                            }
                        } else {
                            *old(stats)
                        }
                    },
                    None => {
                        &&& pending >= gate || offered == 0
                        &&& *final(waited)
                        &&& *final(self) == (ClientSession {
                            hard_gate_logged: pending >= gate,
                            soft_gate_logged: pending < gate || old(self).soft_gate_logged,
                            ..*old(self)
                        })
                        &&& *final(stats) == if *old(waited) {
                            *old(stats)
                        } else {
                            IngestStats {
                                soft_gated: old(stats).soft_gated.wrapping_add(1),
                                ..*old(stats)
                            }
                        }
                    },
                }
            }),
            *final(state) == if pending >= smaller(
                old(self).base_high_water + active_credit(
                    *old(state),
                    old(self).base_high_water as int,
                    ttl_ms,
                    now_ms,
                    pool_limit as int,
                ),
                usize::MAX as int,
            ) {
                *old(state)
            } else {
                after_grant(
                    *old(state),
                    old(self).base_high_water as int,
                    pending as int,
                    ttl_ms,
                    now_ms,
                    pool_limit as int,
                )
            },
    {
        let active: usize = active_virtual_block_credit(
            state,
            self.base_high_water,
            ttl_ms,
            now_ms,
            pool_limit,
        );
        let gate: usize = effective_high_water(self.base_high_water, true, active);
        if pending >= gate {
            self.hard_gate_logged = true;
        } else {
            self.hard_gate_logged = false;
            let grant = reserve_credit_probe_allowance(
                state,
                self.base_high_water,
                pending,
                ttl_ms,
                now_ms,
                pool_limit,
            );
            if grant.credit > 0 {
                if *waited {
                    stats.credit_waits = stats.credit_waits.wrapping_add(1);
                    stats.credit_wait_ms = stats.credit_wait_ms.wrapping_add(waited_ms);
                }
                self.soft_gate_logged = false;
                return Some(grant.credit);
            }
            self.soft_gate_logged = true;
        }
        if !*waited {
            stats.soft_gated = stats.soft_gated.wrapping_add(1);
            *waited = true;
        }
        None
    }
}

/// A granted credit never lets the pool grow beyond the mark it was granted
/// below, and what it uses of the virtual credit and what is left of that make
/// up what was armed.
pub proof fn grant_stays_below_mark(
    state: VirtualBlockCreditState,
    base_high_water: usize,
    pending: usize,
    ttl_ms: u64,
    now_ms: u64,
    pool_limit: usize,
)
    ensures
        ({
            let mark = probe_mark(state, base_high_water as int, ttl_ms, now_ms, pool_limit as int);
            let credit = less(mark, pending as int);
            &&& credit > 0 ==> pending + credit == mark
            &&& base_high_water <= mark <= larger(base_high_water as int, pool_limit as int)
            &&& ttl_ms > 0 ==> after_grant(
                state,
                base_high_water as int,
                pending as int,
                ttl_ms,
                now_ms,
                pool_limit as int,
            ).available_txs + (credit - less(base_high_water as int, pending as int)) == lapsed(
                state,
                now_ms,
            ).available_txs
        }),
{
}

/// A batch of a client with a lease takes no more than what is left of the
/// lease, and uses up what it takes.
pub proof fn batches_stay_within_lease(
    session: ClientSession,
    num_txs: int,
    pending: int,
    credit: int,
    n: usize,
)
    requires
        session.credit_probe_enabled,
        0 <= num_txs,
        batch_action(session, num_txs, pending, credit) == BatchAction::Take(n),
    ensures
        n <= session.leased_credit_remaining,
        less(session.leased_credit_remaining as int, n as int) + n
            == session.leased_credit_remaining,
{
}

/// A batch is never taken from a client without a lease once the pool has
/// reached the high-water mark.
pub proof fn full_pool_takes_nothing(
    session: ClientSession,
    num_txs: int,
    pending: int,
    credit: int,
)
    requires
        0 <= num_txs,
        0 <= credit,
        pending >= raised_high_water(
            session.base_high_water as int,
            session.credit_probe_enabled,
            credit,
        ),
        !session.credit_probe_enabled || session.leased_credit_remaining == 0,
    ensures
        batch_action(session, num_txs, pending, credit) == BatchAction::HardGated,
{
}

/// The default marks leave the pool its headroom, and the target never lies
/// above the high-water mark.
pub proof fn marks_are_ordered(
    configured: Option<usize>,
    pool_max: Option<usize>,
    block_cap: usize,
    mark: usize,
)
    requires
        block_cap > 0,
    ensures
        target_pending(configured, Some(block_cap), mark as int) <= mark,
        high_water(None, pool_max, Some(block_cap)) <= less(
            pool_limit(pool_max, Some(block_cap)),
            larger(block_cap as int / 3, 8_000),
        ),
{
}

/// Each record of the taken part that decodes is submitted, in order and as it
/// was received: its bytes and its sender, with the hash and nonce that its bytes
/// decode to. Nothing else is.
pub proof fn records_are_decoded_in_order(raw: Seq<RawTransaction>, n: int) -> (at: Seq<int>)
    requires
        0 <= n <= raw.len(),
    ensures
        at.len() == decodable(raw, n).len(),
        forall|i: int, j: int| 0 <= i < j < at.len() ==> #[trigger] at[i] < #[trigger] at[j],
        forall|i: int|
            0 <= i < at.len() ==> {
                let k = #[trigger] at[i];
                let tx = decodable(raw, n)[i];
                &&& 0 <= k < n
                &&& tx.0 == raw[k].bytes@
                &&& tx.1 == raw[k].sender
                &&& decoded_transaction(raw[k].bytes@) == Some((tx.2, tx.3))
            },
        forall|k: int|
            0 <= k < n && decoded_transaction((#[trigger] raw[k]).bytes@) is Some ==> at.contains(
                k,
            ),
    decreases n,
{
    if n <= 0 {
        Seq::empty()
    } else {
        let kept = records_are_decoded_in_order(raw, n - 1);
        let before = decodable(raw, n - 1);
        let after = decodable(raw, n);
        let at = match decoded_transaction(raw[n - 1].bytes@) {
            Some(_) => kept.push(n - 1),
            None => kept,
        };
        assert forall|i: int| 0 <= i < kept.len() implies #[trigger] kept[i] < n - 1 && after[i]
            == before[i] by {}
        assert forall|k: int|
            0 <= k < n && decoded_transaction((#[trigger] raw[k]).bytes@) is Some implies at.contains(
            k,
        ) by {
            if k < n - 1 {
                let t = choose|t: int| 0 <= t < kept.len() && kept[t] == k;
                assert(at[t] == k);
            } else {
                assert(at[at.len() - 1] == k);
            }
        }
        at
    }
}

/// A pool of a configured size has that size; else it holds at least three of the
/// configured blocks, and no less than the default.
pub proof fn pools_hold_three_blocks(pool_max: Option<usize>, block_cap: Option<usize>)
    ensures
        pool_max matches Some(n) ==> n > 0 ==> pool_limit(pool_max, block_cap) == n,
        pool_max is None || pool_max == Some(0usize) ==> {
            let limit = pool_limit(pool_max, block_cap);
            let default = 100_000int;
            &&& limit >= default
            &&& block_cap matches Some(cap) ==> limit == usize::MAX || limit >= 3 * cap
            &&& limit == default || (block_cap matches Some(cap) && (limit == 3 * cap || limit
                == usize::MAX && 3 * cap > limit))
        },
{
}

/// A configured mark is taken as it is. Else the mark leaves a third of a block,
/// and no less than 8,000, free below the pool's limit, and is no higher than what
/// eight thirds of a block and the default ask for.
pub proof fn marks_leave_room(pool_max: Option<usize>, block_cap: Option<usize>, configured: usize)
    ensures
        high_water(Some(configured), pool_max, block_cap) == configured,
        block_cap is None || block_cap == Some(0usize) ==> high_water(None, pool_max, block_cap)
            == 90_000,
        block_cap matches Some(cap) ==> cap > 0 && 8 * cap <= usize::MAX ==> {
            let mark = high_water(None, pool_max, block_cap);
            let limit = pool_limit(pool_max, block_cap);
            let wanted = if 8 * cap / 3 >= 90_000 {
                8 * cap / 3
            } else {
                90_000
            };
            let free = if cap as int / 3 >= 8_000 {
                cap as int / 3
            } else {
                8_000
            };
            &&& 0 <= mark <= wanted
            &&& limit >= free ==> mark + free <= limit
            &&& limit < free ==> mark == 0
            &&& mark == wanted || mark + free == limit || mark == 0
        },
{
}

/// The target is what is configured, but never above the mark. Else it leaves a
/// sixth of a block, and no less than 8,000, free below the mark, but is no less
/// than the default where the mark allows that.
pub proof fn targets_stay_below_marks(configured: usize, block_cap: Option<usize>, mark: usize)
    ensures
        configured <= mark ==> target_pending(Some(configured), block_cap, mark as int)
            == configured,
        configured > mark ==> target_pending(Some(configured), block_cap, mark as int) == mark,
        ({
            let target = target_pending(None, block_cap, mark as int);
            let free = match block_cap {
                Some(cap) => if cap as int / 6 >= 8_000 {
                    cap as int / 6
                } else {
                    8_000
                },
                None => 8_000int,
            };
            let default = 82_000int;
            &&& target <= mark
            &&& target + free >= mark
            &&& target >= default || target == mark
            &&& target + free == mark || target == default || target == mark
            &&& mark >= default + free ==> target + free == mark
        }),
{
}

/// Credit is worth something only until it runs out; an unexpired credit is kept
/// as it is.
pub proof fn credit_runs_out(state: VirtualBlockCreditState, now_ms: u64)
    ensures
        now_ms > state.until_ms ==> lapsed(state, now_ms).available_txs == 0 && lapsed(
            state,
            now_ms,
        ).until_ms == 0,
        state.until_ms > 0 && now_ms <= state.until_ms ==> lapsed(state, now_ms) == state,
        state.until_ms == 0 ==> lapsed(state, now_ms).available_txs == 0,
{
}

/// Active credit is what is available, as far as the pool has room above the mark;
/// it is nothing once it ran out or where credit is switched off.
pub proof fn active_credit_fits_the_pool(
    state: VirtualBlockCreditState,
    base_high_water: usize,
    ttl_ms: u64,
    now_ms: u64,
    pool_limit: usize,
)
    ensures
        ({
            let credit = active_credit(
                state,
                base_high_water as int,
                ttl_ms,
                now_ms,
                pool_limit as int,
            );
            &&& ttl_ms == 0 || now_ms > state.until_ms ==> credit == 0
            &&& credit <= state.available_txs
            &&& credit > 0 ==> base_high_water + credit <= pool_limit
            &&& ttl_ms > 0 && now_ms <= state.until_ms && base_high_water + state.available_txs
                <= pool_limit ==> credit == state.available_txs
            &&& ttl_ms > 0 && now_ms <= state.until_ms && base_high_water + state.available_txs
                > pool_limit && base_high_water <= pool_limit ==> base_high_water + credit
                == pool_limit
        }),
{
}

/// Only a client that probes for credit has the mark raised by it.
pub proof fn only_probing_clients_use_credit(base: usize, credit: usize)
    ensures
        raised_high_water(base as int, false, credit as int) == base,
        base + credit <= usize::MAX ==> raised_high_water(base as int, true, credit as int) == base
            + credit,
        base + credit > usize::MAX ==> raised_high_water(base as int, true, credit as int)
            == usize::MAX,
{
}

/// A probe's mark is the base mark and what credit is left, as far as the pool has
/// room for it. Granting uses up credit only for what goes above the base mark,
/// and where credit is used up, it has run out.
pub proof fn grants_use_up_credit(
    state: VirtualBlockCreditState,
    base_high_water: usize,
    pending: usize,
    ttl_ms: u64,
    now_ms: u64,
    pool_limit: usize,
)
    requires
        ttl_ms > 0,
        0 < state.until_ms,
        now_ms <= state.until_ms,
        base_high_water <= pool_limit,
    ensures
        ({
            let mark = probe_mark(state, base_high_water as int, ttl_ms, now_ms, pool_limit as int);
            let after = after_grant(
                state,
                base_high_water as int,
                pending as int,
                ttl_ms,
                now_ms,
                pool_limit as int,
            );
            &&& base_high_water + state.available_txs <= pool_limit ==> mark == base_high_water
                + state.available_txs
            &&& base_high_water + state.available_txs > pool_limit ==> mark == pool_limit
            &&& pending >= mark ==> after == state
            &&& pending <= base_high_water && pending < mark ==> after.available_txs
                == state.available_txs - (mark - base_high_water)
            &&& base_high_water < pending < mark ==> after.available_txs == state.available_txs - (
            mark - pending)
            &&& after.available_txs > 0 || pending >= mark ==> after.until_ms == state.until_ms
            &&& after.available_txs == 0 && pending < mark ==> after.until_ms == 0
        }),
{
}

/// Without credit switched on, a probe's mark is the base mark and nothing changes.
pub proof fn no_credit_no_change(
    state: VirtualBlockCreditState,
    base_high_water: usize,
    pending: usize,
    now_ms: u64,
    pool_limit: usize,
)
    ensures
        probe_mark(state, base_high_water as int, 0, now_ms, pool_limit as int) == base_high_water,
        after_grant(state, base_high_water as int, pending as int, 0, now_ms, pool_limit as int)
            == state,
{
}

/// A batch is taken whole from a client that knows no partial acknowledgement,
/// wherever the pool is below the mark. From one that does, as much is taken as the
/// target leaves room for; from one that probes, as much as it was granted.
pub proof fn batches_are_taken(
    session: ClientSession,
    num_txs: usize,
    pending: usize,
    credit: usize,
)
    requires
        session.credit_probe_enabled ==> session.extended_ack_enabled,
    ensures
        ({
            let action = batch_action(session, num_txs as int, pending as int, credit as int);
            let lease = session.leased_credit_remaining;
            let room = session.target_pending - pending;
            &&& !session.credit_probe_enabled && pending >= session.base_high_water ==> action
                == BatchAction::HardGated
            &&& !session.extended_ack_enabled && pending < session.base_high_water ==> action
                == BatchAction::Take(num_txs)
            &&& session.extended_ack_enabled && !session.credit_probe_enabled && pending
                < session.base_high_water ==> {
                &&& num_txs == 0 || room <= 0 ==> action == BatchAction::SoftGated
                &&& 0 < num_txs <= room ==> action == BatchAction::Take(num_txs)
                &&& 0 < room < num_txs ==> action == BatchAction::Take(room as usize)
            }
            &&& session.credit_probe_enabled && lease > 0 ==> {
                &&& num_txs == 0 ==> action == BatchAction::SoftGated
                &&& 0 < num_txs <= lease ==> action == BatchAction::Take(num_txs)
                &&& lease < num_txs ==> action == BatchAction::Take(lease)
            }
            &&& session.credit_probe_enabled && lease == 0 ==> !(action is Take)
        }),
{
}

/// An acknowledgement says, in words of four bytes, the lowest first, how many
/// were accepted and how many are pending; then how many were consumed and what
/// credit is left, as far as the client knows of these.
pub proof fn acknowledgements_are_read_back(
    accepted: u32,
    pool_pending: u32,
    consumed: u32,
    credit: u32,
    extended: bool,
    probe: bool,
)
    ensures
        ({
            let ack = ack_bytes(
                accepted as int,
                pool_pending as int,
                consumed as int,
                credit as int,
                extended,
                probe,
            );
            &&& ack.len() == if probe {
                16int
            } else if extended {
                12int
            } else {
                8int
            }
            &&& spec_u32_from_le_bytes(ack.subrange(0, 4)) == accepted
            &&& spec_u32_from_le_bytes(ack.subrange(4, 8)) == pool_pending
            &&& probe || extended ==> spec_u32_from_le_bytes(ack.subrange(8, 12)) == consumed
            &&& probe ==> spec_u32_from_le_bytes(ack.subrange(12, 16)) == credit
        }),
{
    vstd::bytes::lemma_auto_spec_u32_to_from_le_bytes();
    let ack = ack_bytes(
        accepted as int,
        pool_pending as int,
        consumed as int,
        credit as int,
        extended,
        probe,
    );
    assert(ack.subrange(0, 4) =~= spec_u32_to_le_bytes(accepted));
    assert(ack.subrange(4, 8) =~= spec_u32_to_le_bytes(pool_pending));
    if probe || extended {
        assert(ack.subrange(8, 12) =~= spec_u32_to_le_bytes(consumed));
    }
    if probe {
        assert(ack.subrange(12, 16) =~= spec_u32_to_le_bytes(credit));
    }
}

/// A record needs its two length bytes, then as many bytes as they say and twenty
/// for the sender.
pub proof fn records_say_how_long_they_are(length: u16, rest: Seq<u8>, wire: Seq<u8>)
    ensures
        wire.len() < 2 ==> missing_bytes(wire) == 2 - wire.len(),
        wire == vstd::bytes::spec_u16_to_le_bytes(length) + rest ==> {
            &&& rest.len() >= length + 20 ==> missing_bytes(wire) == 0
            &&& rest.len() < length + 20 ==> missing_bytes(wire) == length + 20 - rest.len()
        },
{
    vstd::bytes::lemma_auto_spec_u16_to_from_le_bytes();
    let head = vstd::bytes::spec_u16_to_le_bytes(length);
    if wire == head + rest {
        assert(wire.take(2) =~= head);
    }
}

} // verus!
