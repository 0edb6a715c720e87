//! Decision logic of the N42 node: what the node does with consensus outputs,
//! block data, transactions and mobile attestations, as verified functions on
//! plain values.

pub mod attestation_store;
pub mod batch_transfer;
pub mod codec;
pub mod components;
pub mod consensus_state;
pub mod crypto;
pub mod engine_validator;
pub mod eof_guard;
pub mod epoch_schedule;
pub mod exec_cache;
pub mod fifo;
pub mod header;
pub mod ingest;
pub mod inject;
pub mod keyed;
pub mod mobile_bridge;
pub mod mobile_evidence;
pub mod mobile_packet;
pub mod mobile_reward;
pub mod names;
pub mod node;
pub mod orchestrator;
pub mod packet_builder;
pub mod payload;
pub mod persistence;
pub mod primitives;
pub mod ring;
pub mod settings;
pub mod text;

use crate::text::{decimal, push_decimal};
use vstd::prelude::*;
use vstd::string::StringExecFns;

verus! {

/// Reserved benchmark chain ids, in which the state-root bypass flags may run.
pub const BENCH_CHAIN_ID_MIN: u64 = 4_242_400;

/// Exclusive upper bound of the reserved benchmark chain ids.
pub const BENCH_CHAIN_ID_MAX: u64 = 4_242_500;

/// Reads the wall clock through `std::time::SystemTime`: milliseconds since the
/// Unix epoch, zero before it. Nothing is claimed of the time.
#[verifier::external_body]
pub(crate) fn now_unix_ms() -> (ms: u64)
{
    std::time::SystemTime::now().duration_since(
        std::time::UNIX_EPOCH,
    ).unwrap_or_default().as_millis() as u64
}

/// How long ago a moment was, where it is known: a start of zero is not.
pub open spec fn elapsed_at(start_ms: u64, now_ms: u64) -> Option<u64> {
    if start_ms == 0 {
        None
    } else if now_ms >= start_ms {
        Some((now_ms - start_ms) as u64)
    } else {
        Some(0)
    }
}

/// How many milliseconds lie between a known start and `now_ms`.
pub fn elapsed_between(start_ms: u64, now_ms: u64) -> (elapsed: Option<u64>)
    ensures
        elapsed == elapsed_at(start_ms, now_ms),
{
    if start_ms > 0 {
        Some(now_ms.saturating_sub(start_ms))
    } else {
        None
    }
}

/// How many milliseconds have passed since a known start.
pub fn elapsed_since_unix_ms(start_ms: u64) -> (elapsed: Option<u64>)
    ensures
        elapsed is Some == (start_ms > 0),
        exists|now_ms: u64| elapsed == #[trigger] elapsed_at(start_ms, now_ms),
{
    let now_ms: u64 = now_unix_ms();
    elapsed_between(start_ms, now_ms)
}

/// The names of the flags that are set.
pub open spec fn bypass_flags(skip: bool, defer: bool) -> Seq<char> {
    if skip && defer {
        "N42_SKIP_STATE_ROOT+N42_DEFER_STATE_ROOT"@
    } else if skip {
        "N42_SKIP_STATE_ROOT"@
    } else {
        "N42_DEFER_STATE_ROOT"@
    }
}

/// The message when a bypass was not allowed.
pub open spec fn not_allowed_message(flags: Seq<char>) -> Seq<char> {
    flags
        + "=1 disables state-root verification and is refused without N42_ALLOW_BENCH_MODE=1"@
}

/// The message when a bypass was asked for outside the benchmark chains.
pub open spec fn outside_bench_message(flags: Seq<char>, chain_id: u64) -> Seq<char> {
    flags + "=1 is only allowed on benchmark chain ids ["@ + decimal(BENCH_CHAIN_ID_MIN as int)
        + ","@ + decimal(BENCH_CHAIN_ID_MAX as int) + "); got "@ + decimal(chain_id as int)
}

/// Whether the state-root bypass flags may run: only where the operator allowed
/// benchmark mode and the chain id is a reserved one. Hands back the message of
/// the refusal.
pub fn validate_state_root_bypass_flags(
    skip: bool,
    defer: bool,
    allow_bench: bool,
    chain_id: u64,
) -> (verdict: Result<(), String>)
    ensures
        verdict is Ok <==> (!skip && !defer) || (allow_bench && BENCH_CHAIN_ID_MIN <= chain_id
            < BENCH_CHAIN_ID_MAX),
        verdict matches Err(message) ==> message@ == if !allow_bench {
            not_allowed_message(bypass_flags(skip, defer))
        } else {
            outside_bench_message(bypass_flags(skip, defer), chain_id)
        },
{
    if !skip && !defer {
        return Ok(());
    }
    let flags: &str = if skip && defer {
        "N42_SKIP_STATE_ROOT+N42_DEFER_STATE_ROOT"
    } else if skip {
        "N42_SKIP_STATE_ROOT"
    } else {
        "N42_DEFER_STATE_ROOT"
    };
    let mut message = String::new();
    message.append(flags);
    if !allow_bench {
        message.append(
            "=1 disables state-root verification and is refused without N42_ALLOW_BENCH_MODE=1",
        );
        assert(message@ =~= not_allowed_message(bypass_flags(skip, defer)));
        return Err(message);
    }
    if chain_id < BENCH_CHAIN_ID_MIN || chain_id >= BENCH_CHAIN_ID_MAX {
        message.append("=1 is only allowed on benchmark chain ids [");
        push_decimal(&mut message, BENCH_CHAIN_ID_MIN);
        message.append(",");
        push_decimal(&mut message, BENCH_CHAIN_ID_MAX);
        message.append("); got ");
        push_decimal(&mut message, chain_id);
        assert(message@ =~= outside_bench_message(bypass_flags(skip, defer), chain_id));
        return Err(message);
    }
    Ok(())
}

/// The time since a start is what lies between them, nothing where the clock went
/// back, and unknown where nothing was started.
pub proof fn elapsed_time_never_runs_back(start_ms: u64, now_ms: u64)
    ensures
        start_ms == 0 ==> elapsed_at(start_ms, now_ms) is None,
        0 < start_ms <= now_ms ==> elapsed_at(start_ms, now_ms) == Some(
            (now_ms - start_ms) as u64,
        ),
        start_ms > 0 && now_ms < start_ms ==> elapsed_at(start_ms, now_ms) == Some(0u64),
{
}

} // verus!
