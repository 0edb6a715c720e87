//! Binary transaction injection: the plain form of the ingest protocol, without
//! credit. A batch is taken whole or, near the pool's limit, not at all.
//!
//! The answer to a batch holds the accepted count and, as a hint, the pool's
//! pending count.
use vstd::bytes::{spec_u32_from_le_bytes, spec_u32_to_le_bytes, u32_to_le_bytes};
use vstd::prelude::*;

verus! {

/// The pending count at which batches are refused when nothing is configured.
pub const DEFAULT_INJECT_HIGH_WATER: usize = 90_000;

/// Counters of the injection server. They wrap around.
#[derive(Clone, Copy, Debug, PartialEq, Eq, Structural)]
pub struct InjectStats {
    pub received: u64,
    pub accepted: u64,
    pub decode_errors: u64,
    pub pool_errors: u64,
}

impl Default for InjectStats {
    fn default() -> (stats: Self)
        ensures
            stats == (InjectStats { received: 0, accepted: 0, decode_errors: 0, pool_errors: 0 }),
    {
        InjectStats { received: 0, accepted: 0, decode_errors: 0, pool_errors: 0 }
    }
}

impl InjectStats {
    /// Counters that have counted nothing yet.
    pub fn new() -> (stats: Self)
        ensures
            stats == (InjectStats { received: 0, accepted: 0, decode_errors: 0, pool_errors: 0 }),
    {
        Self::default()
    }
}

/// The pending count at which batches are refused.
pub fn inject_high_water(configured: Option<usize>) -> (mark: usize)
    ensures
        mark == match configured {
            Some(n) => n,
            None => DEFAULT_INJECT_HIGH_WATER,
        },
{
    match configured {
        Some(n) => n,
        None => DEFAULT_INJECT_HIGH_WATER,
    }
}

/// The bytes of an answer: the low 32 bits of each count.
pub open spec fn inject_ack(accepted: usize, pending: usize) -> Seq<u8> {
    spec_u32_to_le_bytes(accepted as u32) + spec_u32_to_le_bytes(pending as u32)
}

fn encode_ack(accepted: usize, pending: usize) -> (ack: Vec<u8>)
    ensures
        ack@ == inject_ack(accepted, pending),
{
    let mut ack = u32_to_le_bytes(
        #[verifier::truncate]
        (accepted as u32),
    );
    let mut hint = u32_to_le_bytes(
        #[verifier::truncate]
        (pending as u32),
    );
    ack.append(&mut hint);
    ack
}

/// What one connection remembers between batches.
#[derive(Clone, Copy, Debug, PartialEq, Eq, Structural)]
pub struct InjectSession {
    pub high_water: usize,
    /// The refusal has been reported.
    pub gate_logged: bool,
}

impl InjectSession {
    /// The session of a new connection.
    pub fn new(high_water: usize) -> (session: Self)
        ensures
            session == (InjectSession { high_water, gate_logged: false }),
    {
        InjectSession { high_water, gate_logged: false }
    }

    /// How many transactions to read after a header; zero closes the connection.
    pub fn on_header(&self, header: u32, stats: &mut InjectStats) -> (num_txs: Option<usize>)
        ensures
            num_txs == if header == 0 {
                None
            } else {
                Some(header as usize)
            },
            *final(stats) == (InjectStats {
                received: old(stats).received.wrapping_add(header as u64),
                ..*old(stats)
            }),
    {
        if header == 0 {
            return None;
        }
        stats.received = stats.received.wrapping_add(header as u64);
        Some(header as usize)
    }

    /// Whether a batch is refused while `pending` transactions are in the pool;
    /// if so, the answer. Of its `num_txs` transactions `pooled` could be made
    /// into transactions of the pool; the others are counted either way.
    pub fn on_batch(
        &mut self,
        num_txs: usize,
        pooled: usize,
        pending: usize,
        stats: &mut InjectStats,
    ) -> (refusal: Option<Vec<u8>>)
        requires
            pooled <= num_txs,
        ensures
            refusal is Some == (pending >= old(self).high_water),
            refusal matches Some(ack) ==> ack@ == inject_ack(0, pending),
            *final(self) == (InjectSession {
                gate_logged: pending >= old(self).high_water,
                ..*old(self)
            }),
            *final(stats) == (InjectStats {
                decode_errors: old(stats).decode_errors.wrapping_add((num_txs - pooled) as u64),
                ..*old(stats)
            }),
    {
        let decode_errors: usize = num_txs - pooled;
        if decode_errors > 0 {
            stats.decode_errors = stats.decode_errors.wrapping_add(decode_errors as u64);
        }
        if pending >= self.high_water {
            self.gate_logged = true;
            return Some(encode_ack(0, pending));
        }
        self.gate_logged = false;
        None
    }

    /// Accounts for a submitted batch and answers it.
    pub fn on_submitted(
        &self,
        submitted: usize,
        accepted: usize,
        new_pending: usize,
        stats: &mut InjectStats,
    ) -> (ack: Vec<u8>)
        requires
            accepted <= submitted,
        ensures
            ack@ == inject_ack(accepted, new_pending),
            *final(stats) == (InjectStats {
                accepted: old(stats).accepted.wrapping_add(accepted as u64),
                pool_errors: old(stats).pool_errors.wrapping_add((submitted - accepted) as u64),
                ..*old(stats)
            }),
    {
        let pool_errors: usize = submitted - accepted;
        stats.accepted = stats.accepted.wrapping_add(accepted as u64);
        if pool_errors > 0 {
            stats.pool_errors = stats.pool_errors.wrapping_add(pool_errors as u64);
        }
        encode_ack(accepted, new_pending)
    }
}

/// An acknowledgement says in two words of four bytes, the lowest first, how many
/// were accepted and how many are pending.
pub proof fn inject_acknowledgements_are_read_back(accepted: u32, pending: u32)
    ensures
        ({
            let ack = inject_ack(accepted as usize, pending as usize);
            &&& ack.len() == 8
            &&& spec_u32_from_le_bytes(ack.subrange(0, 4)) == accepted
            &&& spec_u32_from_le_bytes(ack.subrange(4, 8)) == pending
        }),
{
    vstd::bytes::lemma_auto_spec_u32_to_from_le_bytes();
    let ack = inject_ack(accepted as usize, pending as usize);
    assert(ack.subrange(0, 4) =~= spec_u32_to_le_bytes(accepted));
    assert(ack.subrange(4, 8) =~= spec_u32_to_le_bytes(pending));
}

} // verus!
