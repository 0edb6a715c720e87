//! Phones that verify blocks: who is connected, what their receipts say, and
//! when a block has enough of them.
use crate::attestation_store::{
    bit_at, participants, participants_are_registered, participants_of, AggregatedAttestation,
    VerifierRegistry,
};
use crate::fifo::{fifo_has, fifo_index, fifo_value, fifo_with, FifoMap};
use crate::keyed::{distinct_keys, ByteSet};
use crate::primitives::{copy_bytes, same_key, BlsSignature, PubKey, B256, ZERO_HASH};
use std::collections::HashMap;
use vstd::prelude::*;
use vstd::string::StrSliceExecFns;

verus! {

broadcast use vstd::std_specs::hash::group_hash_axioms;

/// How many phones must attest when nothing is configured.
pub const DEFAULT_MIN_ATTESTATION_THRESHOLD: u32 = 10;

/// The signature of zeros.
pub const NO_SIGNATURE: [u8; 96] = [
    0, 0, 0, 0, 0, 0, 0, 0, 0, 0, 0, 0, 0, 0, 0, 0, 0, 0, 0, 0, 0, 0, 0, 0, 0, 0, 0, 0, 0, 0, 0, 0,
    0, 0, 0, 0, 0, 0, 0, 0, 0, 0, 0, 0, 0, 0, 0, 0, 0, 0, 0, 0, 0, 0, 0, 0, 0, 0, 0, 0, 0, 0, 0, 0,
    0, 0, 0, 0, 0, 0, 0, 0, 0, 0, 0, 0, 0, 0, 0, 0, 0, 0, 0, 0, 0, 0, 0, 0, 0, 0, 0, 0, 0, 0, 0, 0,
];

/// A block has enough attestations. Where the phones' signatures were
/// aggregated, the aggregate is told too.
#[derive(Debug)]
pub struct AttestationEvent {
    pub block_hash: B256,
    pub block_number: u64,
    pub valid_count: u32,
    pub receipts_root: B256,
    pub aggregate_signature: BlsSignature,
    pub participant_count: u16,
    pub packed_participants: Vec<u8>,
    pub created_at_ms: u64,
}

/// The contents of an event.
#[verifier::ext_equal]
pub ghost struct EventState {
    pub block_hash: B256,
    pub block_number: u64,
    pub valid_count: u32,
    pub receipts_root: B256,
    pub aggregate_signature: BlsSignature,
    pub participant_count: u16,
    pub packed_participants: Seq<u8>,
    pub created_at_ms: u64,
}

impl View for AttestationEvent {
    type V = EventState;

    open spec fn view(&self) -> EventState {
        EventState {
            block_hash: self.block_hash,
            block_number: self.block_number,
            valid_count: self.valid_count,
            receipts_root: self.receipts_root,
            aggregate_signature: self.aggregate_signature,
            participant_count: self.participant_count,
            packed_participants: self.packed_participants@,
            created_at_ms: self.created_at_ms,
        }
    }
}

/// A phone's receipt for a block.
#[derive(Clone, Copy, Debug, PartialEq, Eq)]
pub struct VerificationReceipt {
    pub block_hash: B256,
    pub block_number: u64,
    pub computed_receipts_root: B256,
    pub verifier_pubkey: PubKey,
}

/// The receipts of a block are to be aggregated.
#[derive(Clone, Copy, Debug, PartialEq, Eq)]
pub struct AggregateTask {
    pub block_hash: B256,
    pub block_number: u64,
    pub receipts_root: B256,
}

/// What a receipt comes to.
#[derive(Clone, Copy, Debug, PartialEq, Eq, Structural)]
pub enum Assessment {
    /// Nothing: its signature is not valid.
    Dropped,
    Assessed {
        /// The phone computed the expected root.
        valid: bool,
        /// So many phones computed another root that the node may have diverged.
        alert: bool,
        /// The receipt's signature goes into the block's aggregate.
        aggregate: bool,
    },
}

/// What the hub of the phones reports.
#[derive(Clone, Copy, Debug, PartialEq, Eq)]
pub enum HubEvent {
    PhoneConnected { session_id: u64, verifier_pubkey: PubKey },
    PhoneDisconnected { session_id: u64 },
    ReceiptReceived { receipt: VerificationReceipt },
    CacheInventoryReceived { session_id: u64 },
}

/// What is known when the hub reports: of the settings, whether all phones may
/// verify and how many must attest at least; of a phone that connects, whether
/// it is registered, where staking is asked for; of a receipt, whether its
/// signature is valid and which root its block is expected to have.
#[derive(Clone, Copy, Debug, PartialEq, Eq)]
pub struct HubContext {
    pub open: bool,
    pub minimum: u32,
    pub registered: Option<bool>,
    pub signature_valid: bool,
    pub expected_root: Option<B256>,
    pub now_ms: u64,
}

/// What to do about a report.
#[derive(Clone, Copy, Debug, PartialEq, Eq)]
pub enum HubAction {
    /// The phone is not registered.
    Reject,
    /// Authorize the phone, register it, and tell of its session.
    Welcome { session_id: u64, pubkey: PubKey },
    /// The phone is authorized no longer.
    Farewell { pubkey: PubKey },
    /// Go on with the receipt.
    Receipt { assessment: Assessment },
    Nothing,
}

/// A block has enough receipts.
#[derive(Debug)]
pub struct FinalizedAttestation {
    pub event: AttestationEvent,
    /// The phones that are rewarded.
    pub reward_pubkeys: Vec<PubKey>,
    /// How long it took from the first receipt on.
    pub latency_ms: Option<u64>,
}

/// How many phones must attest at least.
pub fn min_attestation_threshold(configured: Option<u32>) -> (n: u32)
    ensures
        n == match configured {
            Some(n) => n,
            None => DEFAULT_MIN_ATTESTATION_THRESHOLD,
        },
{
    match configured {
        Some(n) => n,
        None => DEFAULT_MIN_ATTESTATION_THRESHOLD,
    }
}

/// The character is a letter, in lower or in upper case.
pub open spec fn is_letter(c: char, lower: char, upper: char) -> bool {
    c == lower || c == upper
}

/// The setting is `1` or `true`, in whatever case.
pub open spec fn is_open_setting(setting: Seq<char>) -> bool {
    setting == seq!['1'] || (setting.len() == 4 && is_letter(setting[0], 't', 'T') && is_letter(
        setting[1],
        'r',
        'R',
    ) && is_letter(setting[2], 'u', 'U') && is_letter(setting[3], 'e', 'E'))
}

/// Whether all phones may verify.
pub fn open_verification(setting: Option<&str>) -> (open: bool)
    ensures
        open == (setting matches Some(s) && is_open_setting(s@)),
{
    match setting {
        Some(s) => {
            let n: usize = s.unicode_len();
            if n == 1 {
                let one = s.get_char(0) == '1';
                assert(one ==> s@ =~= seq!['1']);
                assert(s@ == seq!['1'] ==> s@[0] == '1');
                return one;
            }
            if n != 4 {
                assert(seq!['1'].len() == 1);
                return false;
            }
            let a: char = s.get_char(0);
            let b: char = s.get_char(1);
            let c: char = s.get_char(2);
            let d: char = s.get_char(3);
            assert(seq!['1'].len() == 1);
            (a == 't' || a == 'T') && (b == 'r' || b == 'R') && (c == 'u' || c == 'U') && (d == 'e'
                || d == 'E')
        },
        None => false,
    }
}

/// What the bridge knows.
#[verifier::ext_equal]
pub ghost struct BridgeState {
    pub sessions: Map<u64, PubKey>,
    pub threshold: u32,
    pub invalid_counts: Seq<(B256, u32)>,
    pub first_receipts: Seq<(B256, u64)>,
    pub aggregating: Set<B256>,
    pub max_tracked: usize,
    pub has_store: bool,
}

/// The tracked blocks with room for one more.
pub open spec fn with_space<V>(entries: Seq<(B256, V)>, max: usize) -> Seq<(B256, V)> {
    if entries.len() >= max && entries.len() > 0 {
        entries.drop_first()
    } else {
        entries
    }
}

/// The counts after one more receipt with another root than expected.
pub open spec fn with_invalid(counts: Seq<(B256, u32)>, hash: B256, max: usize) -> Seq<(B256, u32)> {
    if fifo_has(counts, hash) {
        fifo_with(counts, hash, (fifo_value(counts, hash) + 1) as u32)
    } else {
        with_space(counts, max).push((hash, 1u32))
    }
}

/// How many receipts of a block had another root than expected.
pub open spec fn invalid_count(counts: Seq<(B256, u32)>, hash: B256) -> u32 {
    if fifo_has(counts, hash) {
        fifo_value(counts, hash)
    } else {
        0
    }
}

/// The first receipts after one more receipt: the first of a block counts.
pub open spec fn with_receipt(
    receipts: Seq<(B256, u64)>,
    hash: B256,
    now_ms: u64,
    max: usize,
) -> Seq<(B256, u64)> {
    if fifo_has(receipts, hash) {
        receipts
    } else {
        with_space(receipts, max).push((hash, now_ms))
    }
}

/// How many receipts with another root than expected give the alarm: a third of
/// the connected phones.
pub open spec fn alert_threshold(connected: int) -> int {
    if connected > 0 {
        connected / 3
    } else {
        1
    }
}

/// The phone computed the expected root, or none is expected.
pub open spec fn is_expected(computed: B256, expected: Option<B256>) -> bool {
    expected matches Some(root) ==> computed == root
}

/// What the bridge knows after a receipt with a valid signature.
pub open spec fn receipt_seen(
    s: BridgeState,
    receipt: VerificationReceipt,
    expected: Option<B256>,
    now_ms: u64,
) -> BridgeState {
    BridgeState {
        invalid_counts: if is_expected(receipt.computed_receipts_root, expected) {
            s.invalid_counts
        } else {
            with_invalid(s.invalid_counts, receipt.block_hash, s.max_tracked)
        },
        first_receipts: with_receipt(s.first_receipts, receipt.block_hash, now_ms, s.max_tracked),
        ..s
    }
}

/// What a receipt with a valid signature comes to.
pub open spec fn receipt_assessed(
    s: BridgeState,
    receipt: VerificationReceipt,
    expected: Option<B256>,
) -> Assessment {
    let valid = is_expected(receipt.computed_receipts_root, expected);
    Assessment::Assessed {
        valid,
        alert: !valid && invalid_count(s.invalid_counts, receipt.block_hash) + 1
            >= alert_threshold(s.sessions.len() as u32 as int),
        aggregate: valid && s.has_store && s.aggregating.contains(receipt.block_hash),
    }
}

/// How many phones must attest: two thirds of those connected, and at least the
/// configured number.
pub open spec fn dynamic_threshold(connected: int, minimum: u32) -> int {
    if connected * 2 / 3 >= minimum {
        connected * 2 / 3
    } else {
        minimum as int
    }
}

/// What the bridge knows when other phones are connected: the threshold adapts.
pub open spec fn with_sessions(
    s: BridgeState,
    sessions: Map<u64, PubKey>,
    minimum: u32,
) -> BridgeState {
    BridgeState {
        sessions,
        threshold: dynamic_threshold(sessions.len() as int, minimum) as u32,
        ..s
    }
}

/// The aggregate as far as an event can carry it: the event counts participants
/// by 16 bits, and carries no aggregate of more.
pub open spec fn carried(aggregate: Option<AggregatedAttestation>) -> Option<
    AggregatedAttestation,
> {
    match aggregate {
        Some(a) => if a.participant_count <= u16::MAX {
            Some(a)
        } else {
            None
        },
        None => None,
    }
}

/// The event of a block that has enough receipts, with the aggregate that it
/// carries.
pub open spec fn event_of(
    receipt: VerificationReceipt,
    valid_count: u32,
    aggregate: Option<AggregatedAttestation>,
) -> EventState {
    match aggregate {
        Some(a) => EventState {
            block_hash: receipt.block_hash,
            block_number: receipt.block_number,
            valid_count,
            receipts_root: a.receipts_root,
            aggregate_signature: a.aggregate_signature,
            participant_count: a.participant_count as u16,
            packed_participants: a.participant_bitfield@,
            created_at_ms: a.created_at_ms,
        },
        None => EventState {
            block_hash: receipt.block_hash,
            block_number: receipt.block_number,
            valid_count,
            receipts_root: ZERO_HASH,
            aggregate_signature: NO_SIGNATURE,
            participant_count: 0,
            packed_participants: Seq::empty(),
            created_at_ms: 0,
        },
    }
}

/// The report can be counted: there are not too many phones or wrong receipts.
pub open spec fn is_countable(s: BridgeState, event: HubEvent) -> bool {
    &&& (s.sessions.len() + 1) * 2 <= u32::MAX
    &&& event matches HubEvent::ReceiptReceived { receipt } ==> invalid_count(
        s.invalid_counts,
        receipt.block_hash,
    ) < u32::MAX
}

/// What the bridge knows after a report.
pub open spec fn after_event(s: BridgeState, event: HubEvent, context: HubContext) -> BridgeState {
    match event {
        HubEvent::PhoneConnected { session_id, verifier_pubkey } => if context.open
            || context.registered != Some(false) {
            with_sessions(s, s.sessions.insert(session_id, verifier_pubkey), context.minimum)
        } else {
            s
        },
        HubEvent::PhoneDisconnected { session_id } => with_sessions(
            s,
            s.sessions.remove(session_id),
            context.minimum,
        ),
        HubEvent::ReceiptReceived { receipt } => if context.signature_valid {
            receipt_seen(s, receipt, context.expected_root, context.now_ms)
        } else {
            s
        },
        HubEvent::CacheInventoryReceived { .. } => s,
    }
}

/// What to do about a report.
pub open spec fn event_action(s: BridgeState, event: HubEvent, context: HubContext) -> HubAction {
    match event {
        HubEvent::PhoneConnected { session_id, verifier_pubkey } => if context.open
            || context.registered != Some(false) {
            HubAction::Welcome { session_id, pubkey: verifier_pubkey }
        } else {
            HubAction::Reject
        },
        HubEvent::PhoneDisconnected { session_id } => if s.sessions.contains_key(session_id) {
            HubAction::Farewell { pubkey: s.sessions[session_id] }
        } else {
            HubAction::Nothing
        },
        HubEvent::ReceiptReceived { receipt } => HubAction::Receipt {
            assessment: if context.signature_valid {
                receipt_assessed(s, receipt, context.expected_root)
            } else {
                Assessment::Dropped
            },
        },
        HubEvent::CacheInventoryReceived { .. } => HubAction::Nothing,
    }
}

/// Phones that verify blocks.
pub struct MobileVerificationBridge {
    connected_sessions: HashMap<u64, PubKey>,
    threshold: u32,
    invalid_receipt_counts: FifoMap<u32>,
    block_first_receipt_at: FifoMap<u64>,
    attestation_builders: ByteSet<32>,
    max_tracked: usize,
    has_store: bool,
}

impl View for MobileVerificationBridge {
    type V = BridgeState;

    closed spec fn view(&self) -> BridgeState {
        BridgeState {
            sessions: self.connected_sessions@,
            threshold: self.threshold,
            invalid_counts: self.invalid_receipt_counts@,
            first_receipts: self.block_first_receipt_at@,
            aggregating: self.attestation_builders@,
            max_tracked: self.max_tracked,
            has_store: self.has_store,
        }
    }
}

impl MobileVerificationBridge {
    /// No more blocks are tracked than the limit allows, or one.
    pub closed spec fn wf(self) -> bool {
        &&& self.invalid_receipt_counts.wf()
        &&& self.block_first_receipt_at.wf()
        &&& self.attestation_builders.wf()
        &&& self.invalid_receipt_counts@.len() <= self.max_tracked
            || self.invalid_receipt_counts@.len() <= 1
        &&& self.block_first_receipt_at@.len() <= self.max_tracked
            || self.block_first_receipt_at@.len() <= 1
    }

    /// No more blocks are tracked than the limit allows, or one.
    pub proof fn bounded(&self)
        requires
            self.wf(),
        ensures
            self@.invalid_counts.len() <= self@.max_tracked || self@.invalid_counts.len() <= 1,
            self@.first_receipts.len() <= self@.max_tracked || self@.first_receipts.len() <= 1,
    {
    }

    /// No phones are connected. A threshold of zero counts as one.
    pub fn new(default_threshold: u32, max_tracked_blocks: usize) -> (bridge: Self)
        ensures
            bridge.wf(),
            bridge@ == (BridgeState {
                sessions: Map::empty(),
                threshold: if default_threshold == 0 {
                    1
                } else {
                    default_threshold
                },
                invalid_counts: Seq::empty(),
                first_receipts: Seq::empty(),
                aggregating: Set::empty(),
                max_tracked: max_tracked_blocks,
                has_store: false,
            }),
    {
        let threshold: u32 = if default_threshold == 0 {
            1
        } else {
            default_threshold
        };
        MobileVerificationBridge {
            connected_sessions: HashMap::new(),
            threshold,
            invalid_receipt_counts: FifoMap::new(),
            block_first_receipt_at: FifoMap::new(),
            attestation_builders: ByteSet::new(),
            max_tracked: max_tracked_blocks,
            has_store: false,
        }
    }

    /// Attestations are kept in a store.
    pub fn with_attestation_store(self) -> (bridge: Self)
        requires
            self.wf(),
        ensures
            bridge.wf(),
            bridge@ == (BridgeState { has_store: true, ..self@ }),
    {
        let mut bridge = self;
        bridge.has_store = true;
        bridge
    }

    /// How many phones are connected.
    pub fn connected(&self) -> (n: usize)
        ensures
            n == self@.sessions.len(),
    {
        self.connected_sessions.len()
    }

    /// How many phones must attest to a block that is dispatched now.
    pub fn threshold(&self) -> (n: u32)
        ensures
            n == self@.threshold,
    {
        self.threshold
    }

    /// Whether receipts of a block are being aggregated.
    pub fn is_aggregating(&self, block_hash: &B256) -> (aggregating: bool)
        ensures
            aggregating == self@.aggregating.contains(*block_hash),
    {
        self.attestation_builders.contains(block_hash)
    }

    /// How many receipts of a block had another root than expected, where any
    /// had.
    pub fn invalid_receipts(&self, block_hash: &B256) -> (count: Option<u32>)
        requires
            self.wf(),
        ensures
            count == if fifo_has(self@.invalid_counts, *block_hash) {
                Some(fifo_value(self@.invalid_counts, *block_hash))
            } else {
                None
            },
    {
        match self.invalid_receipt_counts.get(block_hash) {
            Some(n) => Some(*n),
            None => None,
        }
    }

    /// When the first receipt of a block came, where it is known.
    pub fn first_receipt_at(&self, block_hash: &B256) -> (at: Option<u64>)
        requires
            self.wf(),
        ensures
            at == if fifo_has(self@.first_receipts, *block_hash) {
                Some(fifo_value(self@.first_receipts, *block_hash))
            } else {
                None
            },
    {
        match self.block_first_receipt_at.get(block_hash) {
            Some(at) => Some(*at),
            None => None,
        }
    }

    /// How many blocks have a known first receipt, and how many have receipts
    /// with another root than expected.
    pub fn tracked_blocks(&self) -> (counts: (usize, usize))
        ensures
            counts.0 == self@.first_receipts.len(),
            counts.1 == self@.invalid_counts.len(),
    {
        (self.block_first_receipt_at.len(), self.invalid_receipt_counts.len())
    }

    /// A block goes out to the phones. Says what to aggregate from now on: its
    /// receipts, where their root is expected and they are not aggregated yet.
    pub fn register_dispatched_block(
        &mut self,
        block_hash: B256,
        block_number: u64,
        expected_receipts_root: Option<B256>,
    ) -> (aggregate: Option<AggregateTask>)
        requires
            old(self).wf(),
        ensures
            final(self).wf(),
            aggregate == match expected_receipts_root {
                Some(receipts_root) => if old(self)@.aggregating.contains(block_hash) {
                    None
                } else {
                    Some(AggregateTask { block_hash, block_number, receipts_root })
                },
                None => None,
            },
            final(self)@ == (BridgeState {
                aggregating: if expected_receipts_root is Some {
                    old(self)@.aggregating.insert(block_hash)
                } else {
                    old(self)@.aggregating
                },
                ..old(self)@
            }),
    {
        match expected_receipts_root {
            Some(receipts_root) => {
                if self.attestation_builders.insert(block_hash) {
                    Some(AggregateTask { block_hash, block_number, receipts_root })
                } else {
                    None
                }
            },
            None => None,
        }
    }

    /// A phone connected. It is let in where all are, where no staking is asked
    /// for, or where it is registered; with it the threshold adapts.
    pub fn phone_connected(
        &mut self,
        session_id: u64,
        pubkey: PubKey,
        open: bool,
        registered: Option<bool>,
        minimum: u32,
    ) -> (accepted: bool)
        requires
            old(self).wf(),
            (old(self)@.sessions.len() + 1) * 2 <= u32::MAX,
        ensures
            final(self).wf(),
            accepted == (open || registered != Some(false)),
            final(self)@ == if accepted {
                with_sessions(
                    old(self)@,
                    old(self)@.sessions.insert(session_id, pubkey),
                    minimum,
                )
            } else {
                old(self)@
            },
    {
        let may_verify = open || match registered {
            Some(r) => r,
            None => true,
        };
        if may_verify {
            let _ = self.connected_sessions.insert(session_id, pubkey);
            self.update_dynamic_threshold(minimum);
        }
        may_verify
    }

    /// A phone disconnected: hands back its key, which is no longer authorized,
    /// and adapts the threshold.
    pub fn phone_disconnected(&mut self, session_id: u64, minimum: u32) -> (pubkey: Option<PubKey>)
        requires
            old(self).wf(),
            old(self)@.sessions.len() * 2 <= u32::MAX,
        ensures
            final(self).wf(),
            final(self)@ == with_sessions(
                old(self)@,
                old(self)@.sessions.remove(session_id),
                minimum,
            ),
            pubkey == if old(self)@.sessions.contains_key(session_id) {
                Some(old(self)@.sessions[session_id])
            } else {
                None
            },
    {
        let pubkey = self.connected_sessions.remove(&session_id);
        self.update_dynamic_threshold(minimum);
        pubkey
    }

    /// Adapts how many phones must attest to how many are connected.
    pub fn update_dynamic_threshold(&mut self, minimum: u32)
        requires
            old(self).wf(),
            old(self)@.sessions.len() * 2 <= u32::MAX,
        ensures
            final(self).wf(),
            final(self)@ == with_sessions(old(self)@, old(self)@.sessions, minimum),
    {
        let connected: u32 = self.connected_sessions.len() as u32;
        let share: u32 = connected * 2 / 3;
        self.threshold = if share >= minimum {
            share
        } else {
            minimum
        };
    }

    /// The hub reports something.
    pub fn handle_hub_event(&mut self, event: HubEvent, context: &HubContext) -> (action: HubAction)
        requires
            old(self).wf(),
            is_countable(old(self)@, event),
        ensures
            final(self).wf(),
            action == event_action(old(self)@, event, *context),
            final(self)@ == after_event(old(self)@, event, *context),
    {
        match event {
            HubEvent::PhoneConnected { session_id, verifier_pubkey } => {
                if self.phone_connected(
                    session_id,
                    verifier_pubkey,
                    context.open,
                    context.registered,
                    context.minimum,
                ) {
                    HubAction::Welcome { session_id, pubkey: verifier_pubkey }
                } else {
                    HubAction::Reject
                }
            },
            HubEvent::PhoneDisconnected { session_id } => {
                match self.phone_disconnected(session_id, context.minimum) {
                    Some(pubkey) => HubAction::Farewell { pubkey },
                    None => HubAction::Nothing,
                }
            },
            HubEvent::ReceiptReceived { receipt } => {
                let assessment = self.process_receipt(
                    &receipt,
                    context.signature_valid,
                    context.expected_root,
                    context.now_ms,
                );
                HubAction::Receipt { assessment }
            },
            HubEvent::CacheInventoryReceived { .. } => HubAction::Nothing,
        }
    }

    /// A receipt came. Whether its signature is valid and which root is expected
    /// for its block are given. Receipts with another root are counted, and too
    /// many of them give the alarm.
    pub fn process_receipt(
        &mut self,
        receipt: &VerificationReceipt,
        signature_valid: bool,
        expected_root: Option<B256>,
        now_ms: u64,
    ) -> (assessment: Assessment)
        requires
            old(self).wf(),
            invalid_count(old(self)@.invalid_counts, receipt.block_hash) < u32::MAX,
        ensures
            final(self).wf(),
            assessment == if signature_valid {
                receipt_assessed(old(self)@, *receipt, expected_root)
            } else {
                Assessment::Dropped
            },
            final(self)@ == if signature_valid {
                receipt_seen(old(self)@, *receipt, expected_root, now_ms)
            } else {
                old(self)@
            },
    {
        if !signature_valid {
            return Assessment::Dropped;
        }
        let valid = match &expected_root {
            Some(root) => same_key(&receipt.computed_receipts_root, root),
            None => true,
        };
        let mut alert = false;
        if !valid {
            let count: u32 = self.count_invalid(receipt.block_hash);
            let connected: u32 = #[verifier::truncate]
            (self.connected_sessions.len() as u32);
            let limit: u32 = if connected > 0 {
                connected / 3
            } else {
                1
            };
            alert = count >= limit;
        }
        if !self.block_first_receipt_at.contains_key(&receipt.block_hash) {
            let ghost before = self.block_first_receipt_at@;
            if self.block_first_receipt_at.len() >= self.max_tracked {
                self.block_first_receipt_at.pop_oldest();
            }
            proof {
                no_new_keys(before, self.max_tracked, receipt.block_hash);
            }
            self.block_first_receipt_at.push(receipt.block_hash, now_ms);
        }
        let aggregate = valid && self.has_store && self.attestation_builders.contains(
            &receipt.block_hash,
        );
        Assessment::Assessed { valid, alert, aggregate }
    }

    fn count_invalid(&mut self, block_hash: B256) -> (count: u32)
        requires
            old(self).wf(),
            invalid_count(old(self)@.invalid_counts, block_hash) < u32::MAX,
        ensures
            final(self).wf(),
            count == invalid_count(old(self)@.invalid_counts, block_hash) + 1,
            final(self)@ == (BridgeState {
                invalid_counts: with_invalid(
                    old(self)@.invalid_counts,
                    block_hash,
                    old(self)@.max_tracked,
                ),
                ..old(self)@
            }),
    {
        let before: Option<u32> = match self.invalid_receipt_counts.get(&block_hash) {
            Some(n) => Some(*n),
            None => None,
        };
        match before {
            Some(n) => {
                self.invalid_receipt_counts.replace(block_hash, n + 1);
                n + 1
            },
            None => {
                let ghost counts = self.invalid_receipt_counts@;
                if self.invalid_receipt_counts.len() >= self.max_tracked {
                    self.invalid_receipt_counts.pop_oldest();
                }
                proof {
                    no_new_keys(counts, self.max_tracked, block_hash);
                }
                self.invalid_receipt_counts.push(block_hash, 1);
                1
            },
        }
    }

    /// A block has enough receipts. What came of aggregating its receipts is
    /// given. Where they were aggregated and attestations are kept, the phones
    /// that took part are rewarded, however many they are. The event carries the
    /// aggregate where it can count its participants.
    pub fn finalize_attestation(
        &mut self,
        receipt: &VerificationReceipt,
        valid_count: u32,
        aggregate: Option<&AggregatedAttestation>,
        registry: &VerifierRegistry,
        now_ms: u64,
    ) -> (finalized: FinalizedAttestation)
        requires
            old(self).wf(),
        ensures
            final(self).wf(),
            final(self)@ == (BridgeState {
                aggregating: old(self)@.aggregating.remove(receipt.block_hash),
                ..old(self)@
            }),
            ({
                let built: Option<AggregatedAttestation> = if old(self)@.aggregating.contains(
                    receipt.block_hash,
                ) {
                    match aggregate {
                        Some(a) => Some(*a),
                        None => None,
                    }
                } else {
                    None
                };
                &&& finalized.event@ == event_of(*receipt, valid_count, carried(built))
                &&& finalized.reward_pubkeys@ == match built {
                    Some(a) => if old(self)@.has_store {
                        participants_of(a.participant_bitfield@, registry@)
                    } else {
                        Seq::empty()
                    },
                    None => Seq::empty(),
                }
            }),
            finalized.latency_ms == if fifo_has(
                old(self)@.first_receipts,
                receipt.block_hash,
            ) {
                Some(
                    if now_ms >= fifo_value(old(self)@.first_receipts, receipt.block_hash) {
                        (now_ms - fifo_value(
                            old(self)@.first_receipts,
                            receipt.block_hash,
                        )) as u64
                    } else {
                        0
                    },
                )
            } else {
                None
            },
    {
        let latency_ms: Option<u64> = match self.first_receipt_at(&receipt.block_hash) {
            Some(at) => Some(now_ms.saturating_sub(at)),
            None => None,
        };
        let had_builder = self.attestation_builders.remove(&receipt.block_hash);
        let mut reward_pubkeys: Vec<PubKey> = Vec::new();
        let mut event = AttestationEvent {
            block_hash: receipt.block_hash,
            block_number: receipt.block_number,
            valid_count,
            receipts_root: ZERO_HASH,
            aggregate_signature: NO_SIGNATURE,
            participant_count: 0,
            packed_participants: Vec::new(),
            created_at_ms: 0,
        };
        if had_builder {
            if let Some(a) = aggregate {
                if a.participant_count <= u16::MAX as u32 {
                    event.receipts_root = a.receipts_root;
                    event.aggregate_signature = a.aggregate_signature;
                    event.participant_count = a.participant_count as u16;
                    event.packed_participants = copy_bytes(&a.participant_bitfield);
                    event.created_at_ms = a.created_at_ms;
                }
                if self.has_store {
                    reward_pubkeys = participants(&a.participant_bitfield, registry);
                }
            }
        }
        assert(reward_pubkeys@.len() == 0 ==> reward_pubkeys@ =~= Seq::empty());
        FinalizedAttestation { event, reward_pubkeys, latency_ms }
    }
}

proof fn no_new_keys<V>(entries: Seq<(B256, V)>, max: usize, hash: B256)
    requires
        !fifo_has(entries, hash),
    ensures
        !fifo_has(with_space(entries, max), hash),
{
    let kept = with_space(entries, max);
    if fifo_has(kept, hash) {
        let i = choose|i: int| 0 <= i < kept.len() && (#[trigger] kept[i]).0 == hash;
        if entries.len() >= max && entries.len() > 0 {
            assert(entries[i + 1].0 == hash);
        }
    }
}

/// A receipt with the expected root, or for which none is expected, is never
/// counted as wrong, and one without a valid signature changes nothing.
pub proof fn only_mismatches_count(
    s: BridgeState,
    receipt: VerificationReceipt,
    context: HubContext,
    now_ms: u64,
)
    ensures
        !context.signature_valid ==> after_event(
            s,
            HubEvent::ReceiptReceived { receipt },
            context,
        ) == s,
        receipt_seen(s, receipt, None, now_ms).invalid_counts == s.invalid_counts,
        receipt_seen(
            s,
            receipt,
            Some(receipt.computed_receipts_root),
            now_ms,
        ).invalid_counts == s.invalid_counts,
        receipt_assessed(s, receipt, None) matches Assessment::Assessed { valid, alert, .. } && valid
            && !alert,
{
}

/// The phone's bit is set in the aggregate.
pub open spec fn took_part(bits: Seq<u8>, registry: Seq<PubKey>, pubkey: PubKey) -> bool {
    exists|i: int|
        0 <= i < bits.len() * 8 && i < registry.len() && #[trigger] registry[i] == pubkey && bit_at(
            bits,
            i,
        )
}

/// Only phones that took part in a block's aggregate are rewarded for it, each
/// once.
pub proof fn rewards_go_to_participants(bits: Seq<u8>, registry: Seq<PubKey>)
    requires
        registry.no_duplicates(),
    ensures
        participants_of(bits, registry).no_duplicates(),
        forall|pubkey: PubKey| #[trigger]
            participants_of(bits, registry).contains(pubkey) ==> took_part(bits, registry, pubkey),
{
    participants_are_registered(bits, registry, bits.len() * 8int);
    assert forall|pubkey: PubKey| #[trigger] participants_of(bits, registry).contains(
        pubkey,
    ) implies took_part(bits, registry, pubkey) by {
        let i = choose|i: int|
            0 <= i < bits.len() * 8 && i < registry.len() && #[trigger] registry[i] == pubkey
                && bit_at(bits, i);
        assert(registry[i] == pubkey);
    }
}

/// A phone that connects under a new session and disconnects again leaves the
/// bridge as it was, but for a threshold that had not been adapted.
pub proof fn disconnecting_undoes_connecting(
    s: BridgeState,
    session: u64,
    pubkey: PubKey,
    minimum: u32,
)
    requires
        !s.sessions.contains_key(session),
    ensures
        with_sessions(
            with_sessions(s, s.sessions.insert(session, pubkey), minimum),
            s.sessions.insert(session, pubkey).remove(session),
            minimum,
        ) == with_sessions(s, s.sessions, minimum),
{
    assert(s.sessions.insert(session, pubkey).remove(session) =~= s.sessions);
}

/// The threshold never falls below the configured minimum, and more phones never
/// lower it.
pub proof fn threshold_follows_phones(connected: int, more: int, minimum: u32)
    requires
        0 <= connected <= more,
    ensures
        minimum <= dynamic_threshold(connected, minimum) <= dynamic_threshold(more, minimum),
{
}

/// What came of offering a reward or an event to a channel.
#[derive(Clone, Copy, Debug, PartialEq, Eq, Structural)]
pub enum Offer {
    Taken,
    Full,
    Closed,
}

/// What comes after an offer.
#[derive(Clone, Copy, Debug, PartialEq, Eq, Structural)]
pub enum AfterOffer {
    /// Offer the next.
    Next,
    /// Wait until there is room for this one.
    Wait,
    /// Offer no more.
    Stop,
}

/// What comes after an offer: a full channel is waited for where that may be,
/// and nothing more is offered to a closed one.
pub fn after_offer(offer: Offer, may_wait: bool) -> (next: AfterOffer)
    ensures
        next == match offer {
            Offer::Taken => AfterOffer::Next,
            Offer::Full => if may_wait {
                AfterOffer::Wait
            } else {
                AfterOffer::Stop
            },
            Offer::Closed => AfterOffer::Stop,
        },
{
    match offer {
        Offer::Taken => AfterOffer::Next,
        Offer::Full => if may_wait {
            AfterOffer::Wait
        } else {
            AfterOffer::Stop
        },
        Offer::Closed => AfterOffer::Stop,
    }
}

/// Two thirds of the connected phones must attest, but no fewer than the minimum.
pub proof fn thresholds_are_two_thirds(s: BridgeState, sessions: Map<u64, PubKey>, minimum: u32)
    requires
        sessions.len() * 2 <= u32::MAX,
    ensures
        ({
            let after = with_sessions(s, sessions, minimum);
            &&& after.sessions == sessions
            &&& after.threshold >= minimum
            &&& 3 * (after.threshold + 1) > 2 * sessions.len()
            &&& after.threshold > minimum ==> 3 * after.threshold <= 2 * sessions.len()
            &&& (BridgeState { sessions: s.sessions, threshold: s.threshold, ..after }) == s
        }),
{
}

/// A phone is turned away only where verification is closed and its key is known
/// not to be registered. A welcomed phone's session is kept under its key, until
/// it disconnects.
pub proof fn phones_come_and_go(
    s: BridgeState,
    session_id: u64,
    verifier_pubkey: PubKey,
    other: u64,
    context: HubContext,
)
    requires
        other != session_id,
    ensures
        ({
            let event = HubEvent::PhoneConnected { session_id, verifier_pubkey };
            let after = after_event(s, event, context);
            let action = event_action(s, event, context);
            let refused = !context.open && context.registered == Some(false);
            &&& refused ==> action is Reject && after == s
            &&& !refused ==> action == (HubAction::Welcome { session_id, pubkey: verifier_pubkey })
                && after.sessions.contains_key(session_id) && after.sessions[session_id]
                == verifier_pubkey
            &&& after.sessions.contains_key(other) <==> s.sessions.contains_key(other)
            &&& after.sessions.contains_key(other) ==> after.sessions[other] == s.sessions[other]
            &&& (BridgeState { sessions: s.sessions, threshold: s.threshold, ..after }) == s
        }),
        ({
            let event = HubEvent::PhoneDisconnected { session_id };
            let after = after_event(s, event, context);
            let action = event_action(s, event, context);
            &&& !after.sessions.contains_key(session_id)
            &&& after.sessions.contains_key(other) <==> s.sessions.contains_key(other)
            &&& s.sessions.contains_key(session_id) ==> action == (HubAction::Farewell {
                pubkey: s.sessions[session_id],
            })
            &&& !s.sessions.contains_key(session_id) ==> action is Nothing
            &&& (BridgeState { sessions: s.sessions, threshold: s.threshold, ..after }) == s
        }),
{
}

/// A receipt with a bad signature is dropped without a trace. One that computed
/// another root than the expected one is invalid and counted; once a third of the
/// phones say so, an alert is raised. Only a valid one counts towards an aggregate,
/// and only of a block that is being aggregated into a store.
pub proof fn receipts_are_judged_by_their_root(
    s: BridgeState,
    receipt: VerificationReceipt,
    context: HubContext,
)
    requires
        s.sessions.len() <= u32::MAX,
    ensures
        ({
            let event = HubEvent::ReceiptReceived { receipt };
            let after = after_event(s, event, context);
            let differs = context.expected_root matches Some(root) && receipt.computed_receipts_root
                != root;
            let before = if fifo_has(s.invalid_counts, receipt.block_hash) {
                fifo_value(s.invalid_counts, receipt.block_hash) as int
            } else {
                0int
            };
            &&& event_action(s, event, context) matches HubAction::Receipt { assessment } && {
                &&& !context.signature_valid ==> assessment is Dropped && after == s
                &&& context.signature_valid ==> (assessment matches Assessment::Assessed {
                    valid,
                    alert,
                    aggregate,
                } && {
                    &&& valid <==> !differs
                    &&& alert ==> differs
                    &&& differs && s.sessions.len() > 0 ==> (alert <==> 3 * (before + 1) + 2
                        >= s.sessions.len())
                    &&& differs && s.sessions.len() == 0 ==> alert
                    &&& aggregate <==> !differs && s.has_store && s.aggregating.contains(
                        receipt.block_hash,
                    )
                })
            }
            &&& !differs ==> after.invalid_counts == s.invalid_counts
            &&& (BridgeState {
                invalid_counts: s.invalid_counts,
                first_receipts: s.first_receipts,
                ..after
            }) == s
        }),
{
}

/// An invalid receipt raises its block's count by one, from nothing where there was
/// none, and no other count; a count leaves only where the table is full.
pub proof fn invalid_receipts_are_counted(
    s: BridgeState,
    receipt: VerificationReceipt,
    root: B256,
    context: HubContext,
    other: B256,
)
    requires
        context.signature_valid,
        context.expected_root == Some(root),
        receipt.computed_receipts_root != root,
        other != receipt.block_hash,
        distinct_keys(s.invalid_counts),
        fifo_has(s.invalid_counts, receipt.block_hash) ==> fifo_value(
            s.invalid_counts,
            receipt.block_hash,
        ) < u32::MAX,
    ensures
        ({
            let hash = receipt.block_hash;
            let counts = after_event(s, HubEvent::ReceiptReceived { receipt }, context).invalid_counts;
            &&& distinct_keys(counts)
            &&& fifo_has(counts, hash)
            &&& fifo_has(s.invalid_counts, hash) ==> fifo_value(counts, hash) == fifo_value(
                s.invalid_counts,
                hash,
            ) + 1 && counts.len() == s.invalid_counts.len()
            &&& !fifo_has(s.invalid_counts, hash) ==> fifo_value(counts, hash) == 1
            &&& fifo_has(counts, other) ==> fifo_has(s.invalid_counts, other) && fifo_value(
                counts,
                other,
            ) == fifo_value(s.invalid_counts, other)
            &&& fifo_has(s.invalid_counts, other) && (s.invalid_counts.len() < s.max_tracked
                || fifo_has(s.invalid_counts, hash)) ==> fifo_has(counts, other)
        }),
{
    let hash = receipt.block_hash;
    let before = s.invalid_counts;
    let counts = after_event(s, HubEvent::ReceiptReceived { receipt }, context).invalid_counts;
    if fifo_has(before, hash) {
        let at = fifo_index(before, hash);
        assert(counts[at].0 == hash);
        let found = fifo_index(counts, hash);
        assert(found == at);
        if fifo_has(before, other) {
            let i = fifo_index(before, other);
            assert(counts[i] == before[i]);
            assert(fifo_index(counts, other) == i);
        }
        if fifo_has(counts, other) {
            let i = fifo_index(counts, other);
            assert(before[i] == counts[i]);
            assert(fifo_index(before, other) == i);
        }
    } else {
        let kept = with_space(before, s.max_tracked);
        assert(counts == kept.push((hash, 1u32)));
        let last = counts.len() - 1;
        assert(counts[last].0 == hash);
        assert forall|i: int| 0 <= i < kept.len() implies before.contains(#[trigger] kept[i])
            && counts[i] == kept[i] by {
            if before.len() >= s.max_tracked && before.len() > 0 {
                assert(before[i + 1] == kept[i]);
            } else {
                assert(before[i] == kept[i]);
            }
        }
        assert forall|i: int, j: int| 0 <= i < j < counts.len() implies (#[trigger] counts[i]).0 != (
        #[trigger] counts[j]).0 by {
            let gone = if before.len() >= s.max_tracked && before.len() > 0 {
                1int
            } else {
                0int
            };
            assert(counts[i] == before[i + gone]);
            if j < last {
                assert(counts[j] == before[j + gone]);
            }
        }
        assert(fifo_index(counts, hash) == last);
        if fifo_has(counts, other) {
            let i = fifo_index(counts, other);
            assert(i != last);
            let k = choose|k: int| 0 <= k < before.len() && before[k] == kept[i];
            assert(before[k].0 == other);
            assert(fifo_index(before, other) == k);
        }
        if fifo_has(before, other) && before.len() < s.max_tracked {
            let i = fifo_index(before, other);
            assert(counts[i] == before[i]);
        }
    }
}

/// The first receipt of a block is timed, whatever it says; later ones change
/// nothing of that.
pub proof fn first_receipts_are_timed(
    s: BridgeState,
    receipt: VerificationReceipt,
    context: HubContext,
)
    requires
        context.signature_valid,
        distinct_keys(s.first_receipts),
    ensures
        ({
            let hash = receipt.block_hash;
            let after = after_event(s, HubEvent::ReceiptReceived { receipt }, context);
            &&& fifo_has(after.first_receipts, hash)
            &&& fifo_has(s.first_receipts, hash) ==> after.first_receipts == s.first_receipts
            &&& !fifo_has(s.first_receipts, hash) ==> after.first_receipts.last() == (
                hash,
                context.now_ms,
            ) && fifo_value(after.first_receipts, hash) == context.now_ms
        }),
{
    let hash = receipt.block_hash;
    let before = s.first_receipts;
    let after = after_event(s, HubEvent::ReceiptReceived { receipt }, context).first_receipts;
    if !fifo_has(before, hash) {
        let kept = with_space(before, s.max_tracked);
        let last = after.len() - 1;
        assert(after[last] == (hash, context.now_ms));
        assert forall|i: int| 0 <= i < last implies (#[trigger] after[i]).0 != hash by {
            if before.len() >= s.max_tracked && before.len() > 0 {
                assert(after[i] == before[i + 1]);
            } else {
                assert(after[i] == before[i]);
            }
        }
        assert(fifo_index(after, hash) == last);
    }
}

/// An event says of a finalized block what its receipt and its aggregate say; one
/// with more participants than fit in sixteen bits is not carried.
pub proof fn events_carry_the_aggregate(
    receipt: VerificationReceipt,
    valid_count: u32,
    aggregate: Option<AggregatedAttestation>,
)
    ensures
        ({
            let event = event_of(receipt, valid_count, carried(aggregate));
            &&& event.block_hash == receipt.block_hash
            &&& event.block_number == receipt.block_number
            &&& event.valid_count == valid_count
            &&& aggregate matches Some(a) ==> a.participant_count <= 65_535 ==> {
                &&& event.receipts_root == a.receipts_root
                &&& event.aggregate_signature == a.aggregate_signature
                &&& event.participant_count == a.participant_count
                &&& event.packed_participants == a.participant_bitfield@
                &&& event.created_at_ms == a.created_at_ms
            }
            &&& aggregate is None || aggregate->0.participant_count > 65_535 ==> {
                &&& event.receipts_root == ZERO_HASH
                &&& event.participant_count == 0
                &&& event.packed_participants.len() == 0
                &&& event.created_at_ms == 0
            }
        }),
{
}

/// Verification is open where its setting is a one, or the word true in letters of
/// any size.
pub proof fn verification_is_opened_by_one_or_true(setting: Seq<char>)
    ensures
        is_open_setting(setting) ==> setting.len() == 1 || setting.len() == 4,
        setting.len() == 1 ==> (is_open_setting(setting) <==> setting[0] == '1'),
        setting.len() == 4 ==> (is_open_setting(setting) <==> (setting[0] == 't' || setting[0]
            == 'T') && (setting[1] == 'r' || setting[1] == 'R') && (setting[2] == 'u' || setting[2]
            == 'U') && (setting[3] == 'e' || setting[3] == 'E')),
{
    if setting.len() == 1 && setting[0] == '1' {
        assert(setting =~= seq!['1']);
    }
}

} // verus!
