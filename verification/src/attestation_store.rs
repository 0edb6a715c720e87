//! Completed attestations, and the points that phones have earned with them.
use crate::names::{from_pairs, NameMap};
use crate::primitives::{copy_bytes, same_key, BlsSignature, PubKey, B256};
use crate::ring::{ring_push, Ring};
use crate::text::{hex_encode, hex_text, hex_text_is_unique};
use vstd::prelude::*;

verus! {

/// The version of a snapshot's format.
pub const SNAPSHOT_VERSION: u32 = 1;

/// How many attestations are kept.
pub const MAX_STORED_ATTESTATIONS: usize = 1000;

/// What one phone has earned.
#[derive(Clone, Copy, Debug, PartialEq, Eq, Structural)]
pub struct VerifierRewardPoints {
    pub blocks_attested: u64,
    pub points: u64,
    pub last_attested_block: u64,
}

impl Default for VerifierRewardPoints {
    fn default() -> (points: Self)
        ensures
            points == no_points(),
    {
        VerifierRewardPoints { blocks_attested: 0, points: 0, last_attested_block: 0 }
    }
}

/// Nothing earned.
pub open spec fn no_points() -> VerifierRewardPoints {
    VerifierRewardPoints { blocks_attested: 0, points: 0, last_attested_block: 0 }
}

/// An attestation of many phones to one block, under one signature.
#[derive(Debug)]
pub struct AggregatedAttestation {
    pub block_hash: B256,
    pub block_number: u64,
    pub receipts_root: B256,
    pub aggregate_signature: BlsSignature,
    /// One bit for each registered phone, the lowest bit first.
    pub participant_bitfield: Vec<u8>,
    pub participant_count: u32,
    pub created_at_ms: u64,
}

/// The contents of an attestation.
pub ghost struct AttestationState {
    pub block_hash: B256,
    pub block_number: u64,
    pub receipts_root: B256,
    pub aggregate_signature: BlsSignature,
    pub participant_bitfield: Seq<u8>,
    pub participant_count: u32,
    pub created_at_ms: u64,
}

impl View for AggregatedAttestation {
    type V = AttestationState;

    open spec fn view(&self) -> AttestationState {
        AttestationState {
            block_hash: self.block_hash,
            block_number: self.block_number,
            receipts_root: self.receipts_root,
            aggregate_signature: self.aggregate_signature,
            participant_bitfield: self.participant_bitfield@,
            participant_count: self.participant_count,
            created_at_ms: self.created_at_ms,
        }
    }
}

impl AggregatedAttestation {
    /// A copy of the attestation.
    pub fn duplicate(&self) -> (attestation: Self)
        ensures
            attestation@ == self@,
    {
        AggregatedAttestation {
            block_hash: self.block_hash,
            block_number: self.block_number,
            receipts_root: self.receipts_root,
            aggregate_signature: self.aggregate_signature,
            participant_bitfield: copy_bytes(&self.participant_bitfield),
            participant_count: self.participant_count,
            created_at_ms: self.created_at_ms,
        }
    }
}

/// The phones that may attest, each with its index.
pub struct VerifierRegistry {
    pubkeys: Vec<PubKey>,
}

impl View for VerifierRegistry {
    type V = Seq<PubKey>;

    closed spec fn view(&self) -> Seq<PubKey> {
        self.pubkeys@
    }
}

impl VerifierRegistry {
    /// No phone is registered twice.
    pub open spec fn wf(self) -> bool {
        self@.no_duplicates()
    }

    /// No phones.
    pub fn new() -> (registry: Self)
        ensures
            registry.wf(),
            registry@ == Seq::<PubKey>::empty(),
    {
        VerifierRegistry { pubkeys: Vec::new() }
    }

    /// How many phones are registered.
    pub fn len(&self) -> (n: usize)
        ensures
            n == self@.len(),
    {
        self.pubkeys.len()
    }

    /// Registers a phone, unless it is registered; hands back its index.
    pub fn register(&mut self, pubkey: PubKey) -> (index: usize)
        requires
            old(self).wf(),
        ensures
            final(self).wf(),
            index < final(self)@.len(),
            final(self)@[index as int] == pubkey,
            final(self)@ == if old(self)@.contains(pubkey) {
                old(self)@
            } else {
                old(self)@.push(pubkey)
            },
    {
        let mut i: usize = 0;
        while i < self.pubkeys.len()
            invariant
                self.wf(),
                self@ == old(self)@,
                i <= self.pubkeys@.len(),
                forall|j: int| 0 <= j < i ==> self.pubkeys@[j] != pubkey,
            decreases self.pubkeys@.len() - i,
        {
            if same_key(&self.pubkeys[i], &pubkey) {
                return i;
            }
            i += 1;
        }
        self.pubkeys.push(pubkey);
        i
    }

    /// The phone at an index.
    pub fn pubkey_at(&self, index: usize) -> (pubkey: Option<PubKey>)
        ensures
            pubkey == if index < self@.len() {
                Some(self@[index as int])
            } else {
                None
            },
    {
        if index < self.pubkeys.len() {
            Some(self.pubkeys[index])
        } else {
            None
        }
    }
}

/// The bit of a byte, counted from the lowest.
pub open spec fn bit_set(byte: u8, bit: u8) -> bool {
    (byte >> bit) & 1 == 1
}

/// The bit of a bitfield, counted from the lowest bit of the first byte.
pub open spec fn bit_at(bits: Seq<u8>, i: int) -> bool {
    bit_set(bits[i / 8], (i % 8) as u8)
}

/// The registered phones whose bits are set among the first `upto`, in order.
pub open spec fn participants_upto(bits: Seq<u8>, registry: Seq<PubKey>, upto: int) -> Seq<PubKey>
    decreases upto,
{
    if upto <= 0 {
        Seq::empty()
    } else {
        let rest = participants_upto(bits, registry, upto - 1);
        if bit_at(bits, upto - 1) && upto - 1 < registry.len() {
            rest.push(registry[upto - 1])
        } else {
            rest
        }
    }
}

/// The registered phones whose bits are set, in the order of their indices.
pub open spec fn participants_of(bits: Seq<u8>, registry: Seq<PubKey>) -> Seq<PubKey> {
    participants_upto(bits, registry, bits.len() * 8int)
}

/// The registered phones whose bits are set, in the order of their indices.
pub fn participants(bits: &Vec<u8>, registry: &VerifierRegistry) -> (pubkeys: Vec<PubKey>)
    ensures
        pubkeys@ == participants_of(bits@, registry@),
{
    let mut pubkeys: Vec<PubKey> = Vec::new();
    let n: usize = bits.len();
    let mut byte: usize = 0;
    while byte < n
        invariant
            n == bits@.len(),
            byte <= n,
            pubkeys@ == participants_upto(bits@, registry@, byte * 8),
        decreases n - byte,
    {
        let mut bit: u8 = 0;
        while bit < 8
            invariant
                n == bits@.len(),
                byte < n,
                bit <= 8,
                pubkeys@ == participants_upto(bits@, registry@, byte * 8 + bit),
            decreases 8 - bit,
        {
            let ghost i = byte * 8 + bit;
            assert(i / 8 == byte as int && i % 8 == bit as int);
            assert(bit_at(bits@, i) == bit_set(bits@[byte as int], bit));
            if (bits[byte] >> bit) & 1 == 1 {
                match checked_index(byte, bit) {
                    Some(index) => match registry.pubkey_at(index) {
                        Some(pubkey) => {
                            pubkeys.push(pubkey);
                        },
                        None => {},
                    },
                    None => {
                        proof {
                            registry_fits(registry);
                        }
                    },
                }
            }
            bit += 1;
        }
        byte += 1;
    }
    pubkeys
}

/// A registry has no more phones than an index can count.
proof fn registry_fits(registry: &VerifierRegistry)
    ensures
        registry@.len() <= usize::MAX,
{
    assert(registry.pubkeys@.len() == registry.pubkeys.len());
}

fn checked_index(byte: usize, bit: u8) -> (index: Option<usize>)
    requires
        bit < 8,
    ensures
        match index {
            Some(i) => i == byte * 8 + bit,
            None => byte * 8 + bit > usize::MAX,
        },
{
    match byte.checked_mul(8) {
        Some(base) => base.checked_add(bit as usize),
        None => None,
    }
}

/// The points by phone, the phones named by their keys in hex.
pub type Points = Map<Seq<char>, VerifierRewardPoints>;

/// What a phone has earned, where it is known, or else nothing.
pub open spec fn points_of(points: Points, name: Seq<char>) -> VerifierRewardPoints {
    if points.contains_key(name) {
        points[name]
    } else {
        no_points()
    }
}

/// The points after one phone attested to a block.
pub open spec fn with_point(points: Points, pubkey: PubKey, block_number: u64) -> Points {
    let name = hex_text(pubkey@);
    let before = points_of(points, name);
    points.insert(
        name,
        VerifierRewardPoints {
            blocks_attested: (before.blocks_attested + 1) as u64,
            points: (before.points + 1) as u64,
            last_attested_block: block_number,
        },
    )
}

/// The points after several phones attested to a block.
pub open spec fn with_points(points: Points, pubkeys: Seq<PubKey>, block_number: u64) -> Points
    decreases pubkeys.len(),
{
    if pubkeys.len() == 0 {
        points
    } else {
        with_point(
            with_points(points, pubkeys.drop_last(), block_number),
            pubkeys.last(),
            block_number,
        )
    }
}

/// Every phone can earn one more point.
pub open spec fn points_fit(points: Points) -> bool {
    forall|name: Seq<char>| #[trigger]
        points.contains_key(name) ==> points[name].blocks_attested < u64::MAX
            && points[name].points < u64::MAX
}

/// What the store knows.
#[verifier::ext_equal]
pub ghost struct StoreState {
    pub attestations: Seq<AttestationState>,
    pub points: Points,
    pub registry: Seq<PubKey>,
    pub total_attestations: u64,
    pub version: u32,
    pub dirty: bool,
}

/// What a node saves of the store.
#[derive(Debug)]
pub struct AttestationSnapshot {
    pub version: u32,
    /// The attestations, oldest first.
    pub attestations: Vec<AggregatedAttestation>,
    /// The points by phone, the phones named by their keys in hex.
    pub reward_points: Vec<(String, VerifierRewardPoints)>,
    /// The phones in the order in which they were registered.
    pub registry: Vec<PubKey>,
    pub total_attestations: u64,
}

/// The contents of a snapshot.
#[verifier::ext_equal]
pub ghost struct SnapshotState {
    pub version: u32,
    pub attestations: Seq<AttestationState>,
    pub points: Points,
    pub registry: Seq<PubKey>,
    pub total_attestations: u64,
}

/// The contents of several attestations.
pub open spec fn attestations_state(attestations: Seq<AggregatedAttestation>) -> Seq<
    AttestationState,
> {
    attestations.map_values(|a: AggregatedAttestation| a@)
}

impl View for AttestationSnapshot {
    type V = SnapshotState;

    open spec fn view(&self) -> SnapshotState {
        SnapshotState {
            version: self.version,
            attestations: attestations_state(self.attestations@),
            points: from_pairs(self.reward_points@),
            registry: self.registry@,
            total_attestations: self.total_attestations,
        }
    }
}

impl Default for AttestationSnapshot {
    fn default() -> (snapshot: Self)
        ensures
            snapshot@ == empty_snapshot(),
    {
        let snapshot = AttestationSnapshot {
            version: SNAPSHOT_VERSION,
            attestations: Vec::new(),
            reward_points: Vec::new(),
            registry: Vec::new(),
            total_attestations: 0,
        };
        assert(snapshot@ =~= empty_snapshot());
        snapshot
    }
}

impl AttestationSnapshot {
    /// Whether a newer node wrote the snapshot.
    pub fn is_newer(&self) -> (newer: bool)
        ensures
            newer == (self.version > SNAPSHOT_VERSION),
    {
        self.version > SNAPSHOT_VERSION
    }
}

/// The snapshot of an empty store.
pub open spec fn empty_snapshot() -> SnapshotState {
    SnapshotState {
        version: SNAPSHOT_VERSION,
        attestations: Seq::empty(),
        points: Map::empty(),
        registry: Seq::empty(),
        total_attestations: 0,
    }
}

/// What is saved of the store.
pub open spec fn snapshot_of(s: StoreState) -> SnapshotState {
    SnapshotState {
        version: s.version,
        attestations: s.attestations,
        points: s.points,
        registry: s.registry,
        total_attestations: s.total_attestations,
    }
}

/// The registered phones after several registered in order: each counts once.
pub open spec fn registered(pubkeys: Seq<PubKey>) -> Seq<PubKey>
    decreases pubkeys.len(),
{
    if pubkeys.len() == 0 {
        Seq::empty()
    } else {
        let before = registered(pubkeys.drop_last());
        if before.contains(pubkeys.last()) {
            before
        } else {
            before.push(pubkeys.last())
        }
    }
}

/// The store that a snapshot gives: there is nothing to save.
pub open spec fn restored(snapshot: SnapshotState) -> StoreState {
    StoreState {
        attestations: snapshot.attestations,
        points: snapshot.points,
        registry: registered(snapshot.registry),
        total_attestations: snapshot.total_attestations,
        version: snapshot.version,
        dirty: false,
    }
}

proof fn distinct_phones_register(pubkeys: Seq<PubKey>)
    requires
        pubkeys.no_duplicates(),
    ensures
        registered(pubkeys) == pubkeys,
    decreases pubkeys.len(),
{
    if pubkeys.len() > 0 {
        let rest = pubkeys.drop_last();
        assert(rest.no_duplicates());
        distinct_phones_register(rest);
        if rest.contains(pubkeys.last()) {
            let i = choose|i: int| 0 <= i < rest.len() && rest[i] == pubkeys.last();
            assert(pubkeys[i] == pubkeys[pubkeys.len() - 1]);
        }
        assert(rest.push(pubkeys.last()) =~= pubkeys);
    }
}

/// What was saved is what is restored.
pub proof fn restoring_gives_back_what_was_saved(s: StoreState)
    requires
        s.registry.no_duplicates(),
    ensures
        restored(snapshot_of(s)) == (StoreState { dirty: false, ..s }),
{
    distinct_phones_register(s.registry);
}

/// How much the store holds.
#[derive(Clone, Copy, Debug, PartialEq, Eq, Structural)]
pub struct AttestationStats {
    pub stored_attestations: usize,
    pub total_attestations: u64,
    pub registered_verifiers: u32,
    pub verifiers_with_points: usize,
}

/// Completed attestations, and the points that phones have earned with them.
pub struct AttestationStore {
    attestations: Ring<AggregatedAttestation>,
    reward_points: NameMap<VerifierRewardPoints>,
    registry: VerifierRegistry,
    total_attestations: u64,
    version: u32,
    /// Something changed since the last save.
    dirty: bool,
}

impl View for AttestationStore {
    type V = StoreState;

    closed spec fn view(&self) -> StoreState {
        StoreState {
            attestations: attestations_state(self.attestations@),
            points: self.reward_points@,
            registry: self.registry@,
            total_attestations: self.total_attestations,
            version: self.version,
            dirty: self.dirty,
        }
    }
}

/// The first attestation to a block.
pub open spec fn first_attestation(attestations: Seq<AttestationState>, hash: B256) -> Option<
    AttestationState,
>
    decreases attestations.len(),
{
    if attestations.len() == 0 {
        None
    } else if attestations[0].block_hash == hash {
        Some(attestations[0])
    } else {
        first_attestation(attestations.drop_first(), hash)
    }
}

/// The store after an attestation was completed.
pub open spec fn attestation_recorded(s: StoreState, attestation: AttestationState) -> StoreState {
    StoreState {
        attestations: ring_push(s.attestations, MAX_STORED_ATTESTATIONS as int, attestation),
        points: with_points(
            s.points,
            participants_of(attestation.participant_bitfield, s.registry),
            attestation.block_number,
        ),
        total_attestations: (s.total_attestations + 1) as u64,
        dirty: true,
        ..s
    }
}

impl AttestationStore {
    /// Every phone is registered once and named once.
    pub closed spec fn wf(self) -> bool {
        self.attestations.limit() == MAX_STORED_ATTESTATIONS && self.reward_points.wf()
            && self.registry.wf()
    }

    /// No phone is registered twice.
    pub proof fn phones_are_distinct(&self)
        requires
            self.wf(),
        ensures
            self@.registry.no_duplicates(),
    {
    }

    /// An empty store.
    pub fn new() -> (store: Self)
        ensures
            store.wf(),
            store@ == restored(empty_snapshot()),
    {
        let store = AttestationStore {
            attestations: Ring::new(MAX_STORED_ATTESTATIONS),
            reward_points: NameMap::new(),
            registry: VerifierRegistry::new(),
            total_attestations: 0,
            version: SNAPSHOT_VERSION,
            dirty: false,
        };
        assert(store@ =~= restored(empty_snapshot()));
        store
    }

    /// The store that a snapshot gives.
    pub fn from_snapshot(snapshot: AttestationSnapshot) -> (store: Self)
        ensures
            store.wf(),
            store@ == restored(snapshot@),
    {
        let ghost whole = snapshot@;
        let ghost phones = snapshot.registry@;
        let mut registry = VerifierRegistry::new();
        let mut i: usize = 0;
        assert(phones.take(0) =~= Seq::empty());
        while i < snapshot.registry.len()
            invariant
                i <= snapshot.registry@.len(),
                phones == snapshot.registry@,
                registry.wf(),
                registry@ == registered(phones.take(i as int)),
            decreases snapshot.registry@.len() - i,
        {
            let _ = registry.register(snapshot.registry[i]);
            proof {
                assert(phones.take(i + 1).drop_last() =~= phones.take(i as int));
                assert(phones.take(i + 1).last() == phones[i as int]);
            }
            i += 1;
        }
        assert(phones.take(i as int) =~= phones);
        let reward_points = NameMap::of_pairs(&snapshot.reward_points);
        let store = AttestationStore {
            attestations: Ring::of_items(snapshot.attestations, MAX_STORED_ATTESTATIONS),
            reward_points,
            registry,
            total_attestations: snapshot.total_attestations,
            version: snapshot.version,
            dirty: false,
        };
        assert(store@ =~= restored(whole));
        store
    }

    /// What is saved of the store.
    pub fn snapshot(&self) -> (snapshot: AttestationSnapshot)
        requires
            self.wf(),
        ensures
            snapshot@ == snapshot_of(self@),
    {
        let n: usize = self.attestations.len();
        let mut attestations: Vec<AggregatedAttestation> = Vec::new();
        let mut i: usize = 0;
        while i < n
            invariant
                n == self.attestations@.len(),
                i <= n,
                attestations@.len() == i,
                forall|j: int| 0 <= j < i ==> (#[trigger] attestations@[j])@ == self.attestations@[j]@,
            decreases n - i,
        {
            attestations.push(self.attestations.get(i).duplicate());
            i += 1;
        }
        let mut registry: Vec<PubKey> = Vec::new();
        let phones: usize = self.registry.len();
        let mut k: usize = 0;
        while k < phones
            invariant
                phones == self.registry@.len(),
                k <= phones,
                registry@ == self.registry@.take(k as int),
            decreases phones - k,
        {
            if let Some(pubkey) = self.registry.pubkey_at(k) {
                registry.push(pubkey);
            }
            assert(registry@ =~= self.registry@.take(k + 1));
            k += 1;
        }
        let snapshot = AttestationSnapshot {
            version: self.version,
            attestations,
            reward_points: self.reward_points.pairs(),
            registry,
            total_attestations: self.total_attestations,
        };
        assert(snapshot@ =~= snapshot_of(self@));
        snapshot
    }

    /// Records a completed attestation: every phone that took part earns a
    /// point, and the oldest attestation leaves where the limit is reached.
    pub fn record_attestation(&mut self, attestation: &AggregatedAttestation)
        requires
            old(self).wf(),
            old(self)@.total_attestations < u64::MAX,
            points_fit(old(self)@.points),
        ensures
            final(self).wf(),
            final(self)@ == attestation_recorded(old(self)@, attestation@),
    {
        let pubkeys = participants(&attestation.participant_bitfield, &self.registry);
        let ghost start = self.reward_points@;
        let ghost all = pubkeys@;
        proof {
            participants_are_registered(
                attestation.participant_bitfield@,
                self.registry@,
                attestation.participant_bitfield@.len() * 8int,
            );
        }
        let mut i: usize = 0;
        assert(all.take(0) =~= Seq::empty());
        while i < pubkeys.len()
            invariant
                i <= pubkeys@.len(),
                pubkeys@ == all,
                all.no_duplicates(),
                points_fit(start),
                self.wf(),
                self.reward_points@ == with_points(
                    start,
                    all.take(i as int),
                    attestation.block_number,
                ),
                self.attestations@ == old(self).attestations@,
                self.registry@ == old(self).registry@,
                self.total_attestations == old(self).total_attestations,
                self.version == old(self).version,
                self.dirty == old(self).dirty,
            decreases pubkeys@.len() - i,
        {
            let name = hex_encode(&pubkeys[i]);
            let ghost before = self.reward_points@;
            proof {
                let done = all.take(i as int);
                assert(done.no_duplicates());
                each_participant_earns_one(
                    start,
                    done,
                    attestation.block_number,
                    all[i as int],
                );
                assert(!done.contains(all[i as int]));
            }
            let mut entry: VerifierRewardPoints = match self.reward_points.get(name.as_str()) {
                Some(points) => *points,
                None => VerifierRewardPoints::default(),
            };
            entry.blocks_attested = entry.blocks_attested + 1;
            entry.points = entry.points + 1;
            entry.last_attested_block = attestation.block_number;
            self.reward_points.insert(name, entry);
            proof {
                assert(all.take(i + 1).drop_last() =~= all.take(i as int));
                assert(all.take(i + 1).last() == pubkeys@[i as int]);
                assert(self.reward_points@ =~= with_point(
                    before,
                    pubkeys@[i as int],
                    attestation.block_number,
                ));
            }
            i += 1;
        }
        assert(all.take(i as int) =~= all);
        self.attestations.push(attestation.duplicate());
        self.total_attestations = self.total_attestations + 1;
        self.dirty = true;
        assert(self@.attestations =~= attestation_recorded(old(self)@, attestation@).attestations);
        assert(self@ =~= attestation_recorded(old(self)@, attestation@));
    }

    /// The registered phones.
    pub fn registry(&self) -> (registry: &VerifierRegistry)
        ensures
            registry@ == self@.registry,
    {
        &self.registry
    }

    /// Registers a phone, unless it is registered; hands back its index.
    pub fn register(&mut self, pubkey: PubKey) -> (index: usize)
        requires
            old(self).wf(),
        ensures
            final(self).wf(),
            index < final(self)@.registry.len(),
            final(self)@.registry[index as int] == pubkey,
            final(self)@ == (StoreState {
                registry: if old(self)@.registry.contains(pubkey) {
                    old(self)@.registry
                } else {
                    old(self)@.registry.push(pubkey)
                },
                dirty: true,
                ..old(self)@
            }),
    {
        self.dirty = true;
        self.registry.register(pubkey)
    }

    /// What a phone has earned, by its key in hex.
    pub fn get_reward_points(&self, pubkey_hex: &str) -> (points: Option<VerifierRewardPoints>)
        requires
            self.wf(),
        ensures
            points == if self@.points.contains_key(pubkey_hex@) {
                Some(self@.points[pubkey_hex@])
            } else {
                None
            },
    {
        match self.reward_points.get(pubkey_hex) {
            Some(points) => Some(*points),
            None => None,
        }
    }

    /// What every phone has earned, by the phones' keys in hex.
    pub fn all_reward_points(&self) -> (points: Vec<(String, VerifierRewardPoints)>)
        requires
            self.wf(),
        ensures
            from_pairs(points@) == self@.points,
    {
        self.reward_points.pairs()
    }

    /// The newest attestation.
    pub fn latest_attestation(&self) -> (attestation: Option<&AggregatedAttestation>)
        ensures
            match attestation {
                Some(a) => self@.attestations.len() > 0 && a@ == self@.attestations.last(),
                None => self@.attestations.len() == 0,
            },
    {
        let n: usize = self.attestations.len();
        if n == 0 {
            None
        } else {
            Some(self.attestations.get(n - 1))
        }
    }

    /// The oldest attestation that is kept.
    pub fn oldest_attestation(&self) -> (attestation: Option<&AggregatedAttestation>)
        ensures
            match attestation {
                Some(a) => self@.attestations.len() > 0 && a@ == self@.attestations[0],
                None => self@.attestations.len() == 0,
            },
    {
        if self.attestations.len() == 0 {
            None
        } else {
            Some(self.attestations.get(0))
        }
    }

    /// The first attestation to a block.
    pub fn get_attestation(&self, block_hash: &B256) -> (attestation: Option<&AggregatedAttestation>)
        ensures
            match attestation {
                Some(a) => first_attestation(self@.attestations, *block_hash) == Some(a@),
                None => first_attestation(self@.attestations, *block_hash) is None,
            },
    {
        let n: usize = self.attestations.len();
        let mut i: usize = 0;
        assert(self@.attestations.skip(0) =~= self@.attestations);
        while i < n
            invariant
                n == self.attestations@.len(),
                n == self@.attestations.len(),
                i <= n,
                first_attestation(self@.attestations, *block_hash) == first_attestation(
                    self@.attestations.skip(i as int),
                    *block_hash,
                ),
            decreases n - i,
        {
            let attestation = self.attestations.get(i);
            assert(self@.attestations.skip(i as int)[0] == attestation@);
            assert(self@.attestations.skip(i as int).drop_first() =~= self@.attestations.skip(
                i + 1,
            ));
            if same_key(&attestation.block_hash, block_hash) {
                return Some(attestation);
            }
            i += 1;
        }
        None
    }

    /// How many attestations were ever completed.
    pub fn total_attestations(&self) -> (n: u64)
        ensures
            n == self@.total_attestations,
    {
        self.total_attestations
    }

    /// How much the store holds.
    pub fn stats(&self) -> (stats: AttestationStats)
        requires
            self.wf(),
        ensures
            stats == (AttestationStats {
                stored_attestations: self@.attestations.len() as usize,
                total_attestations: self@.total_attestations,
                registered_verifiers: self@.registry.len() as u32,
                verifiers_with_points: self@.points.len() as usize,
            }),
    {
        AttestationStats {
            stored_attestations: self.attestations.len(),
            total_attestations: self.total_attestations,
            registered_verifiers: #[verifier::truncate]
            (self.registry.len() as u32),
            verifiers_with_points: self.reward_points.len(),
        }
    }

    /// Whether there is something to save.
    pub fn needs_save(&self) -> (dirty: bool)
        ensures
            dirty == self@.dirty,
    {
        self.dirty
    }

    /// Everything is saved.
    pub fn saved(&mut self)
        requires
            old(self).wf(),
        ensures
            final(self).wf(),
            final(self)@ == (StoreState { dirty: false, ..old(self)@ }),
    {
        self.dirty = false;
    }

    /// Everything is to be saved again.
    pub fn force_save(&mut self)
        requires
            old(self).wf(),
        ensures
            final(self).wf(),
            final(self)@ == (StoreState { dirty: true, ..old(self)@ }),
    {
        self.dirty = true;
    }
}

/// Recording keeps no more attestations than the limit allows.
pub proof fn recording_keeps_the_bound(s: StoreState, attestation: AttestationState)
    requires
        s.attestations.len() <= MAX_STORED_ATTESTATIONS,
    ensures
        attestation_recorded(s, attestation).attestations.len() <= MAX_STORED_ATTESTATIONS,
{
}

/// Every participant is a registered phone whose bit is set, and no phone is
/// listed twice.
pub proof fn participants_are_registered(bits: Seq<u8>, registry: Seq<PubKey>, upto: int)
    requires
        registry.no_duplicates(),
        0 <= upto,
    ensures
        participants_upto(bits, registry, upto).no_duplicates(),
        forall|pubkey: PubKey| #[trigger]
            participants_upto(bits, registry, upto).contains(pubkey) <==> exists|i: int|
                0 <= i < upto && i < registry.len() && #[trigger] registry[i] == pubkey && bit_at(
                    bits,
                    i,
                ),
        participants_upto(bits, registry, upto).len() <= upto,
    decreases upto,
{
    if upto > 0 {
        let rest = participants_upto(bits, registry, upto - 1);
        let all = participants_upto(bits, registry, upto);
        participants_are_registered(bits, registry, upto - 1);
        if bit_at(bits, upto - 1) && upto - 1 < registry.len() {
            let last = registry[upto - 1];
            if rest.contains(last) {
                let i = choose|i: int|
                    0 <= i < upto - 1 && i < registry.len() && #[trigger] registry[i] == last
                        && bit_at(bits, i);
                assert(registry[i] == registry[upto - 1]);
            }
            assert forall|pubkey: PubKey| #[trigger] all.contains(pubkey) <==> exists|i: int|
                0 <= i < upto && i < registry.len() && #[trigger] registry[i] == pubkey && bit_at(
                    bits,
                    i,
                ) by {
                if all.contains(pubkey) {
                    let k = choose|k: int| 0 <= k < all.len() && all[k] == pubkey;
                    if k < rest.len() {
                        assert(rest[k] == pubkey);
                        assert(rest.contains(pubkey));
                    } else {
                        assert(registry[upto - 1] == pubkey);
                    }
                }
                if exists|i: int|
                    0 <= i < upto && i < registry.len() && #[trigger] registry[i] == pubkey
                        && bit_at(bits, i) {
                    let i = choose|i: int|
                        0 <= i < upto && i < registry.len() && #[trigger] registry[i] == pubkey
                            && bit_at(bits, i);
                    if i < upto - 1 {
                        assert(rest.contains(pubkey));
                        let k = choose|k: int| 0 <= k < rest.len() && rest[k] == pubkey;
                        assert(all[k] == pubkey);
                    } else {
                        assert(all[rest.len() as int] == pubkey);
                    }
                }
            }
        } else {
            assert forall|pubkey: PubKey| #[trigger] all.contains(pubkey) <==> exists|i: int|
                0 <= i < upto && i < registry.len() && #[trigger] registry[i] == pubkey && bit_at(
                    bits,
                    i,
                ) by {
                if exists|i: int|
                    0 <= i < upto && i < registry.len() && #[trigger] registry[i] == pubkey
                        && bit_at(bits, i) {
                    let i = choose|i: int|
                        0 <= i < upto && i < registry.len() && #[trigger] registry[i] == pubkey
                            && bit_at(bits, i);
                    assert(i < upto - 1);
                }
            }
        }
    }
}

/// An attestation gives each participant exactly one point, with its block as
/// the last one, and leaves everybody else's points as they were.
pub proof fn each_participant_earns_one(
    points: Points,
    pubkeys: Seq<PubKey>,
    block_number: u64,
    pubkey: PubKey,
)
    requires
        pubkeys.no_duplicates(),
        points_fit(points),
    ensures
        ({
            let name = hex_text(pubkey@);
            let before = points_of(points, name);
            let after = points_of(with_points(points, pubkeys, block_number), name);
            if pubkeys.contains(pubkey) {
                after == (VerifierRewardPoints {
                    blocks_attested: (before.blocks_attested + 1) as u64,
                    points: (before.points + 1) as u64,
                    last_attested_block: block_number,
                }) && after.points == before.points + 1
            } else {
                after == before
            }
        }),
    decreases pubkeys.len(),
{
    if pubkeys.len() > 0 {
        let rest = pubkeys.drop_last();
        let last = pubkeys.last();
        each_participant_earns_one(points, rest, block_number, pubkey);
        each_participant_earns_one(points, rest, block_number, last);
        assert(!rest.contains(last)) by {
            if rest.contains(last) {
                let i = choose|i: int| 0 <= i < rest.len() && rest[i] == last;
                assert(pubkeys[i] == pubkeys[pubkeys.len() - 1]);
            }
        }
        if hex_text(pubkey@) == hex_text(last@) {
            hex_text_is_unique(pubkey@, last@);
            assert(pubkey =~= last);
            assert(pubkeys[pubkeys.len() - 1] == pubkey);
        }
        if pubkeys.contains(pubkey) && pubkey != last {
            let i = choose|i: int| 0 <= i < pubkeys.len() && pubkeys[i] == pubkey;
            assert(rest[i] == pubkey);
        }
        if rest.contains(pubkey) {
            let i = choose|i: int| 0 <= i < rest.len() && rest[i] == pubkey;
            assert(pubkeys[i] == pubkey);
        }
    }
}

/// Bits are counted from the lowest of the first byte: bit `j` of byte `i` is the
/// one worth two to the power of `j`.
pub proof fn bits_are_counted_from_the_lowest(bits: Seq<u8>, i: int, j: u8)
    requires
        0 <= i < bits.len(),
        j < 8,
    ensures
        bit_at(bits, 8 * i + j) <==> (bits[i] / (1u8 << j)) % 2 == 1,
        j == 0 ==> (bit_at(bits, 8 * i + j) <==> bits[i] % 2 == 1),
        j == 7 ==> (bit_at(bits, 8 * i + j) <==> bits[i] >= 128),
{
    let byte = bits[i];
    assert((8 * i + j) / 8 == i && (8 * i + j) % 8 == j);
    assert(((byte >> j) & 1 == 1) <==> (byte / (1u8 << j)) % 2 == 1) by (bit_vector)
        requires
            j < 8,
    ;
    assert(((byte >> 0u8) & 1 == 1) <==> byte % 2 == 1) by (bit_vector);
    assert(((byte >> 7u8) & 1 == 1) <==> byte >= 128) by (bit_vector);
}

/// The participants are the registered phones whose bit is set: all of them, in
/// the order of their indices, and no others.
pub proof fn participants_come_in_index_order(bits: Seq<u8>, registry: Seq<PubKey>) -> (at: Seq<int>)
    ensures
        at.len() == participants_of(bits, registry).len(),
        forall|i: int, j: int| 0 <= i < j < at.len() ==> #[trigger] at[i] < #[trigger] at[j],
        forall|i: int|
            0 <= i < at.len() ==> 0 <= #[trigger] at[i] < registry.len() && at[i] < 8 * bits.len()
                && bit_at(bits, at[i]) && participants_of(bits, registry)[i] == registry[at[i]],
        forall|k: int|
            0 <= k < registry.len() && k < 8 * bits.len() && #[trigger] bit_at(bits, k)
                ==> at.contains(k),
{
    participants_upto_in_order(bits, registry, bits.len() * 8int)
}

proof fn participants_upto_in_order(bits: Seq<u8>, registry: Seq<PubKey>, upto: int) -> (at: Seq<
    int,
>)
    requires
        0 <= upto,
    ensures
        at.len() == participants_upto(bits, registry, upto).len(),
        forall|i: int, j: int| 0 <= i < j < at.len() ==> #[trigger] at[i] < #[trigger] at[j],
        forall|i: int|
            0 <= i < at.len() ==> 0 <= #[trigger] at[i] < registry.len() && at[i] < upto && bit_at(
                bits,
                at[i],
            ) && participants_upto(bits, registry, upto)[i] == registry[at[i]],
        forall|k: int|
            0 <= k < registry.len() && k < upto && #[trigger] bit_at(bits, k) ==> at.contains(k),
    decreases upto,
{
    if upto == 0 {
        Seq::empty()
    } else {
        let last = upto - 1;
        let kept = participants_upto_in_order(bits, registry, last);
        let before = participants_upto(bits, registry, last);
        let after = participants_upto(bits, registry, upto);
        let at = if bit_at(bits, last) && last < registry.len() {
            kept.push(last)
        } else {
            kept
        };
        assert forall|i: int| 0 <= i < kept.len() implies #[trigger] kept[i] < last && after[i]
            == before[i] by {}
        assert forall|k: int|
            0 <= k < registry.len() && k < upto && #[trigger] bit_at(bits, k) implies at.contains(
            k,
        ) by {
            if k < last {
                let t = choose|t: int| 0 <= t < kept.len() && kept[t] == k;
                assert(at[t] == k);
            } else {
                assert(at[at.len() - 1] == k);
            }
        }
        at
    }
}

/// A recorded attestation is the newest; of a thousand older ones the oldest
/// leaves. It is counted, and the phones stay registered.
pub proof fn recorded_attestations_are_kept(s: StoreState, attestation: AttestationState)
    requires
        s.attestations.len() <= 1000,
        s.total_attestations < u64::MAX,
    ensures
        ({
            let after = attestation_recorded(s, attestation);
            &&& after.attestations.last() == attestation
            &&& after.attestations.len() <= 1000
            &&& s.attestations.len() < 1000 ==> after.attestations.drop_last() == s.attestations
            &&& s.attestations.len() == 1000 ==> after.attestations.drop_last()
                == s.attestations.drop_first()
            &&& after.total_attestations == s.total_attestations + 1
            &&& after.registry == s.registry
            &&& after.version == s.version
            &&& after.dirty
        }),
{
    let after = attestation_recorded(s, attestation);
    if s.attestations.len() < 1000 {
        assert(after.attestations.drop_last() =~= s.attestations);
    } else {
        assert(after.attestations.drop_last() =~= s.attestations.drop_first());
    }
}

/// A registered phone whose bit is set in a recorded attestation earns one point;
/// every other phone's points stay.
pub proof fn attesting_earns_one_point(s: StoreState, attestation: AttestationState, pubkey: PubKey)
    requires
        s.registry.no_duplicates(),
        points_fit(s.points),
    ensures
        ({
            let bits = attestation.participant_bitfield;
            let name = hex_text(pubkey@);
            let after = attestation_recorded(s, attestation).points;
            let attested = exists|i: int|
                0 <= i < s.registry.len() && i < 8 * bits.len() && #[trigger] s.registry[i]
                    == pubkey && bit_at(bits, i);
            &&& attested && s.points.contains_key(name) ==> {
                &&& after.contains_key(name)
                &&& after[name].points == s.points[name].points + 1
                &&& after[name].blocks_attested == s.points[name].blocks_attested + 1
                &&& after[name].last_attested_block == attestation.block_number
            }
            &&& attested && !s.points.contains_key(name) ==> {
                &&& after.contains_key(name)
                &&& after[name].points == 1
                &&& after[name].blocks_attested == 1
                &&& after[name].last_attested_block == attestation.block_number
            }
            &&& !attested && s.points.contains_key(name) ==> after.contains_key(name)
                && after[name] == s.points[name]
        }),
{
    let bits = attestation.participant_bitfield;
    let pubkeys = participants_of(bits, s.registry);
    participants_are_registered(bits, s.registry, bits.len() * 8int);
    each_participant_earns_one(s.points, pubkeys, attestation.block_number, pubkey);
    pointed_names_stay(s.points, pubkeys, attestation.block_number, pubkey);
}

proof fn pointed_names_stay(
    points: Points,
    pubkeys: Seq<PubKey>,
    block_number: u64,
    pubkey: PubKey,
)
    ensures
        ({
            let name = hex_text(pubkey@);
            points.contains_key(name) || pubkeys.contains(pubkey) ==> with_points(
                points,
                pubkeys,
                block_number,
            ).contains_key(name)
        }),
    decreases pubkeys.len(),
{
    if pubkeys.len() > 0 {
        let rest = pubkeys.drop_last();
        pointed_names_stay(points, rest, block_number, pubkey);
        if pubkeys.contains(pubkey) && pubkeys.last() != pubkey {
            let i = choose|i: int| 0 <= i < pubkeys.len() && pubkeys[i] == pubkey;
            assert(rest[i] == pubkey);
        }
    }
}

/// A lookup finds the oldest stored attestation of a block, and one wherever there
/// is one.
pub proof fn lookups_find_the_first_attestation(
    attestations: Seq<AttestationState>,
    hash: B256,
) -> (at: int)
    ensures
        match first_attestation(attestations, hash) {
            Some(found) => {
                &&& 0 <= at < attestations.len()
                &&& attestations[at] == found
                &&& found.block_hash == hash
                &&& forall|i: int| 0 <= i < at ==> (#[trigger] attestations[i]).block_hash != hash
            },
            None => forall|i: int|
                0 <= i < attestations.len() ==> (#[trigger] attestations[i]).block_hash != hash,
        },
    decreases attestations.len(),
{
    if attestations.len() == 0 || attestations[0].block_hash == hash {
        0
    } else {
        let rest = attestations.drop_first();
        let at = lookups_find_the_first_attestation(rest, hash);
        assert forall|i: int|
            0 <= i < attestations.len() && (first_attestation(rest, hash) is Some ==> i < at
                + 1) implies (#[trigger] attestations[i]).block_hash != hash by {
            if i > 0 {
                assert(rest[i - 1] == attestations[i]);
            }
        }
        at + 1
    }
}

/// Restoring takes everything as it was saved; each phone is registered once, at
/// the place of its first mention.
pub proof fn restoring_registers_each_phone_once(snapshot: SnapshotState, pubkey: PubKey)
    ensures
        ({
            let s = restored(snapshot);
            &&& s.attestations == snapshot.attestations
            &&& s.points == snapshot.points
            &&& s.total_attestations == snapshot.total_attestations
            &&& s.version == snapshot.version
            &&& !s.dirty
            &&& s.registry.no_duplicates()
            &&& s.registry.contains(pubkey) <==> snapshot.registry.contains(pubkey)
            &&& snapshot.registry.len() > 0 ==> s.registry.len() > 0 && s.registry[0]
                == snapshot.registry[0]
        }),
{
    registered_once(snapshot.registry, pubkey);
}

proof fn registered_once(pubkeys: Seq<PubKey>, pubkey: PubKey)
    ensures
        registered(pubkeys).no_duplicates(),
        registered(pubkeys).contains(pubkey) <==> pubkeys.contains(pubkey),
        pubkeys.len() > 0 ==> registered(pubkeys).len() > 0 && registered(pubkeys)[0] == pubkeys[0],
    decreases pubkeys.len(),
{
    if pubkeys.len() > 0 {
        let rest = pubkeys.drop_last();
        let last = pubkeys.last();
        let before = registered(rest);
        let after = registered(pubkeys);
        registered_once(rest, pubkey);
        registered_once(rest, last);
        if rest.contains(pubkey) {
            let i = choose|i: int| 0 <= i < rest.len() && rest[i] == pubkey;
            assert(pubkeys[i] == pubkey);
            let j = choose|j: int| 0 <= j < before.len() && before[j] == pubkey;
            assert(after[j] == pubkey);
        }
        if pubkey == last {
            assert(pubkeys[pubkeys.len() - 1] == pubkey);
            if !before.contains(last) {
                assert(after[after.len() - 1] == pubkey);
            }
        } else {
            if pubkeys.contains(pubkey) {
                let i = choose|i: int| 0 <= i < pubkeys.len() && pubkeys[i] == pubkey;
                assert(rest[i] == pubkey);
            }
            if after.contains(pubkey) {
                let j = choose|j: int| 0 <= j < after.len() && after[j] == pubkey;
                assert(before[j] == pubkey);
            }
        }
        if rest.len() == 0 {
            assert(before.len() == 0);
        }
    }
}

} // verus!
