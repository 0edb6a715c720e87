//! Packets for phones: what they need to verify a block, without the contract
//! code that they have already.
use crate::codec::{compressed_or_raw, zstd_compress, zstd_content, zstd_frame, ZSTD_LEVEL};
use crate::fifo::{fifo_has, FifoMap};
use crate::header::{header_rlp, Header};
use crate::primitives::{copy_bytes, B256};
use crate::text::{hash_text, push_hash};
use vstd::prelude::*;
use vstd::string::StringExecFns;

verus! {

/// How many codes are remembered as sent.
pub const MAX_PREVIOUSLY_SENT_CODES: usize = 2000;

/// How often a packet is tried when nothing is configured.
pub const DEFAULT_PACKET_MAX_RETRIES: u32 = 10;

/// The base of the delay between two tries when nothing is configured.
pub const DEFAULT_PACKET_RETRY_BASE_MS: u64 = 200;

/// Why a packet could not be made.
#[derive(Debug)]
pub enum MobilePacketError {
    BlockNotFound { block_hash: B256 },
    StateProvider { reason: String },
    Execution { reason: String },
    Compression { reason: String },
}

/// The text of an error.
pub open spec fn packet_error_text(error: MobilePacketError) -> Seq<char> {
    match error {
        MobilePacketError::BlockNotFound { block_hash } => "block not found: "@ + hash_text(
            block_hash,
        ),
        MobilePacketError::StateProvider { reason } => "state provider error: "@ + reason@,
        MobilePacketError::Execution { reason } => "execution error: "@ + reason@,
        MobilePacketError::Compression { reason } => "compression error: "@ + reason@,
    }
}

impl MobilePacketError {
    /// The text of the error.
    pub fn to_text(&self) -> (text: String)
        ensures
            text@ == packet_error_text(*self),
    {
        let mut text = String::new();
        match self {
            MobilePacketError::BlockNotFound { block_hash } => {
                text.append("block not found: ");
                push_hash(&mut text, block_hash);
            },
            MobilePacketError::StateProvider { reason } => {
                text.append("state provider error: ");
                text.append(reason.as_str());
            },
            MobilePacketError::Execution { reason } => {
                text.append("execution error: ");
                text.append(reason.as_str());
            },
            MobilePacketError::Compression { reason } => {
                text.append("compression error: ");
                text.append(reason.as_str());
            },
        }
        assert(text@ =~= packet_error_text(*self));
        text
    }

    /// Whether another try can help: the block may not have arrived yet.
    pub fn is_retryable(&self) -> (retryable: bool)
        ensures
            retryable == (self is BlockNotFound),
    {
        match self {
            MobilePacketError::BlockNotFound { .. } => true,
            _ => false,
        }
    }
}

/// How often a packet is tried.
pub fn packet_max_retries(configured: Option<u32>) -> (n: u32)
    ensures
        n == match configured {
            Some(n) => n,
            None => DEFAULT_PACKET_MAX_RETRIES,
        },
{
    match configured {
        Some(n) => n,
        None => DEFAULT_PACKET_MAX_RETRIES,
    }
}

/// The base of the delay between two tries.
pub fn packet_retry_base_ms(configured: Option<u64>) -> (ms: u64)
    ensures
        ms == match configured {
            Some(ms) => ms,
            None => DEFAULT_PACKET_RETRY_BASE_MS,
        },
{
    match configured {
        Some(ms) => ms,
        None => DEFAULT_PACKET_RETRY_BASE_MS,
    }
}

/// How many bases the delay before a try is: it doubles with each try up to the
/// fourth.
pub open spec fn retry_factor(attempt: u32) -> int
    decreases attempt,
{
    if attempt == 0 {
        1
    } else if attempt > 4 {
        16
    } else {
        2 * retry_factor((attempt - 1) as u32)
    }
}

/// The delay before a try.
pub fn retry_delay(base_ms: u64, attempt: u32) -> (ms: u128)
    ensures
        ms == base_ms * retry_factor(attempt),
{
    proof {
        reveal_with_fuel(retry_factor, 6);
    }
    let base: u128 = base_ms as u128;
    match attempt {
        0 => base,
        1 => base * 2,
        2 => base * 4,
        3 => base * 8,
        _ => base * 16,
    }
}

/// What came of a try.
#[derive(Clone, Copy, Debug, PartialEq, Eq, Structural)]
pub enum Attempt {
    Sent,
    BlockNotFound,
    Failed,
}

/// What comes after a try.
#[derive(Clone, Copy, Debug, PartialEq, Eq, Structural)]
pub enum NextAttempt {
    /// Nothing: the packet is sent, or cannot be made.
    Done,
    /// Try again after the delay.
    Again { attempt: u32, delay_ms: u128 },
    /// The block never arrived.
    GaveUp,
}

/// What comes after a try.
pub fn after_attempt(outcome: Attempt, attempt: u32, max_retries: u32, base_ms: u64) -> (next:
    NextAttempt)
    requires
        attempt < max_retries,
    ensures
        next == match outcome {
            Attempt::BlockNotFound => if attempt + 1 < max_retries {
                NextAttempt::Again {
                    attempt: (attempt + 1) as u32,
                    delay_ms: (base_ms * retry_factor((attempt + 1) as u32)) as u128,
                }
            } else {
                NextAttempt::GaveUp
            },
            _ => NextAttempt::Done,
        },
{
    match outcome {
        Attempt::BlockNotFound => {
            let next: u32 = attempt + 1;
            if next < max_retries {
                NextAttempt::Again { attempt: next, delay_ms: retry_delay(base_ms, next) }
            } else {
                NextAttempt::GaveUp
            }
        },
        _ => NextAttempt::Done,
    }
}

/// The contents of a list of codes.
pub open spec fn codes_state(codes: Seq<(B256, Vec<u8>)>) -> Seq<(B256, Seq<u8>)> {
    codes.map_values(|c: (B256, Vec<u8>)| (c.0, c.1@))
}

/// The remembered codes after one more: one that is there stays where it is, and
/// the oldest leave where there are too many.
pub open spec fn with_code(
    codes: Seq<(B256, Seq<u8>)>,
    capacity: int,
    hash: B256,
    code: Seq<u8>,
) -> Seq<(B256, Seq<u8>)> {
    if fifo_has(codes, hash) {
        codes
    } else if codes.len() >= capacity {
        codes.push((hash, code)).drop_first()
    } else {
        codes.push((hash, code))
    }
}

/// The remembered codes after several more.
pub open spec fn with_codes(
    codes: Seq<(B256, Seq<u8>)>,
    capacity: int,
    more: Seq<(B256, Seq<u8>)>,
) -> Seq<(B256, Seq<u8>)>
    decreases more.len(),
{
    if more.len() == 0 {
        codes
    } else {
        with_code(
            with_codes(codes, capacity, more.drop_last()),
            capacity,
            more.last().0,
            more.last().1,
        )
    }
}

/// The codes that were not sent before, in order.
pub open spec fn unsent(sent: Seq<(B256, Seq<u8>)>, codes: Seq<(B256, Seq<u8>)>) -> Seq<
    (B256, Seq<u8>),
> {
    codes.filter(|c: (B256, Seq<u8>)| !fifo_has(sent, c.0))
}

/// The codes that were sent, in the order in which they were first sent.
pub struct CodeCache {
    codes: FifoMap<Vec<u8>>,
    capacity: usize,
}

impl View for CodeCache {
    type V = Seq<(B256, Seq<u8>)>;

    closed spec fn view(&self) -> Seq<(B256, Seq<u8>)> {
        codes_state(self.codes@)
    }
}

impl CodeCache {
    /// How many codes are remembered.
    pub closed spec fn capacity(self) -> usize {
        self.capacity
    }

    /// No more codes are remembered than the capacity.
    pub closed spec fn wf(self) -> bool {
        self.codes.wf() && self.codes@.len() <= self.capacity
    }

    /// No more codes are remembered than the capacity.
    pub proof fn bounded(&self)
        requires
            self.wf(),
        ensures
            self@.len() <= self.capacity(),
    {
    }

    /// Nothing was sent.
    pub fn new(capacity: usize) -> (cache: Self)
        ensures
            cache.wf(),
            cache@ == Seq::<(B256, Seq<u8>)>::empty(),
            cache.capacity() == capacity,
    {
        let cache = CodeCache { codes: FifoMap::new(), capacity };
        assert(cache@ =~= Seq::<(B256, Seq<u8>)>::empty());
        cache
    }

    /// Whether a code was sent.
    pub fn contains_key(&self, hash: &B256) -> (sent: bool)
        requires
            self.wf(),
        ensures
            sent == fifo_has(self@, *hash),
    {
        proof {
            same_keys(self.codes@, *hash);
        }
        self.codes.contains_key(hash)
    }

    /// Remembers a code as sent; the oldest leaves where there are too many.
    pub fn insert(&mut self, hash: B256, code: Vec<u8>)
        requires
            old(self).wf(),
        ensures
            final(self).wf(),
            final(self).capacity() == old(self).capacity(),
            final(self)@ == with_code(old(self)@, old(self).capacity() as int, hash, code@),
    {
        let ghost before = self.codes@;
        proof {
            same_keys(before, hash);
        }
        if self.codes.contains_key(&hash) {
            return;
        }
        self.codes.push(hash, code);
        assert(codes_state(self.codes@) =~= codes_state(before).push((hash, code@)));
        if self.codes.len() > self.capacity {
            self.codes.pop_oldest();
        }
        assert(self@ =~= with_code(codes_state(before), self.capacity as int, hash, code@));
    }

    /// Whether nothing is remembered.
    pub fn is_empty(&self) -> (empty: bool)
        ensures
            empty == (self@.len() == 0),
    {
        self.codes.len() == 0
    }

    /// How many codes are remembered.
    pub fn len(&self) -> (n: usize)
        ensures
            n == self@.len(),
    {
        self.codes.len()
    }

    /// The remembered codes, oldest first.
    pub fn codes(&self) -> (codes: Vec<(B256, Vec<u8>)>)
        ensures
            codes_state(codes@) == self@,
    {
        let mut codes: Vec<(B256, Vec<u8>)> = Vec::new();
        let n: usize = self.codes.len();
        let mut i: usize = 0;
        while i < n
            invariant
                n == self.codes@.len(),
                i <= n,
                codes@.len() == i,
                forall|j: int|
                    0 <= j < i ==> (#[trigger] codes@[j]).0 == self.codes@[j].0 && codes@[j].1@
                        == self.codes@[j].1@,
            decreases n - i,
        {
            let entry = self.codes.entry_at(i);
            codes.push((entry.0, copy_bytes(&entry.1)));
            i += 1;
        }
        assert(codes_state(codes@) =~= self@);
        codes
    }

    /// What a phone is sent that connects: the remembered codes, where there are
    /// any.
    pub fn cache_sync(&self) -> (codes: Option<Vec<(B256, Vec<u8>)>>)
        ensures
            match codes {
                Some(c) => self@.len() > 0 && codes_state(c@) == self@,
                None => self@.len() == 0,
            },
    {
        if self.is_empty() {
            None
        } else {
            Some(self.codes())
        }
    }

    /// The codes of a block that no packet has held yet, in order.
    pub fn new_codes(&self, codes: &Vec<(B256, Vec<u8>)>) -> (unsent_codes: Vec<(B256, Vec<u8>)>)
        requires
            self.wf(),
        ensures
            codes_state(unsent_codes@) == unsent(self@, codes_state(codes@)),
    {
        let ghost all = codes_state(codes@);
        let ghost new = |c: (B256, Seq<u8>)| !fifo_has(self@, c.0);
        let mut kept: Vec<(B256, Vec<u8>)> = Vec::new();
        let mut i: usize = 0;
        assert(all.take(0).filter(new) =~= Seq::empty()) by {
            reveal(Seq::filter);
        }
        assert(codes_state(kept@) =~= Seq::empty());
        while i < codes.len()
            invariant
                self.wf(),
                i <= codes@.len(),
                all == codes_state(codes@),
                new == (|c: (B256, Seq<u8>)| !fifo_has(self@, c.0)),
                codes_state(kept@) == all.take(i as int).filter(new),
            decreases codes@.len() - i,
        {
            let ghost before = kept@;
            proof {
                reveal(Seq::filter);
                assert(all.take(i + 1).drop_last() =~= all.take(i as int));
                assert(all.take(i + 1).last() == (codes@[i as int].0, codes@[i as int].1@));
            }
            if !self.contains_key(&codes[i].0) {
                kept.push((codes[i].0, copy_bytes(&codes[i].1)));
                assert(codes_state(kept@) =~= codes_state(before).push(all[i as int]));
            }
            i += 1;
        }
        assert(all.take(i as int) =~= all);
        kept
    }

    /// Remembers the codes of a block as sent.
    pub fn remember(&mut self, codes: &Vec<(B256, Vec<u8>)>)
        requires
            old(self).wf(),
        ensures
            final(self).wf(),
            final(self).capacity() == old(self).capacity(),
            final(self)@ == with_codes(
                old(self)@,
                old(self).capacity() as int,
                codes_state(codes@),
            ),
    {
        let ghost all = codes_state(codes@);
        let mut i: usize = 0;
        assert(all.take(0) =~= Seq::empty());
        while i < codes.len()
            invariant
                i <= codes@.len(),
                all == codes_state(codes@),
                self.wf(),
                self.capacity() == old(self).capacity(),
                self@ == with_codes(old(self)@, old(self).capacity() as int, all.take(i as int)),
            decreases codes@.len() - i,
        {
            proof {
                assert(all.take(i + 1).drop_last() =~= all.take(i as int));
                assert(all.take(i + 1).last() == (codes@[i as int].0, codes@[i as int].1@));
            }
            self.insert(codes[i].0, copy_bytes(&codes[i].1));
            i += 1;
        }
        assert(all.take(i as int) =~= all);
    }
}

proof fn same_keys(codes: Seq<(B256, Vec<u8>)>, hash: B256)
    ensures
        fifo_has(codes, hash) == fifo_has(codes_state(codes), hash),
{
    if fifo_has(codes, hash) {
        let i = choose|i: int| 0 <= i < codes.len() && (#[trigger] codes[i]).0 == hash;
        assert(codes_state(codes)[i].0 == hash);
    }
    if fifo_has(codes_state(codes), hash) {
        let i = choose|i: int|
            0 <= i < codes_state(codes).len() && (#[trigger] codes_state(codes)[i]).0 == hash;
        assert(codes[i].0 == hash);
    }
}

/// A code that was just sent is remembered, wherever anything is; and a code
/// that is remembered is not sent again.
pub proof fn sent_codes_are_remembered(
    codes: Seq<(B256, Seq<u8>)>,
    capacity: int,
    hash: B256,
    code: Seq<u8>,
)
    requires
        0 < capacity,
        codes.len() <= capacity,
    ensures
        fifo_has(with_code(codes, capacity, hash, code), hash),
        with_code(codes, capacity, hash, code).len() <= capacity,
        unsent(with_code(codes, capacity, hash, code), seq![(hash, code)]) == Seq::<
            (B256, Seq<u8>),
        >::empty(),
{
    let after = with_code(codes, capacity, hash, code);
    if !fifo_has(codes, hash) {
        let grown = codes.push((hash, code));
        if codes.len() >= capacity {
            assert(after[after.len() - 1] == grown[grown.len() - 1]);
        } else {
            assert(after[codes.len() as int].0 == hash);
        }
    }
    let one = seq![(hash, code)];
    reveal_with_fuel(Seq::filter, 2);
    assert(one.drop_last() =~= Seq::empty());
    assert(unsent(after, one) =~= Seq::empty());
}

/// The frame around the codes for a phone that connects: the message type, and
/// the codes compressed where that succeeds.
pub fn frame_cache_sync(message_type: u8, data: Vec<u8>) -> (framed: Vec<u8>)
    ensures
        framed@.len() > 0,
        framed@[0] == message_type,
        framed@.skip(1) == data@ || (framed@.skip(1) == zstd_frame(data@, ZSTD_LEVEL) && forall|
            capacity: usize,
        |
            data@.len() <= capacity ==> #[trigger] zstd_content(framed@.skip(1), capacity) == Some(
                data@,
            )),
{
    let frame = zstd_compress(&data, ZSTD_LEVEL).ok();
    let body = compressed_or_raw(&data, frame);
    let mut framed: Vec<u8> = Vec::new();
    framed.push(message_type);
    framed.extend_from_slice(&body);
    assert(framed@.skip(1) =~= body@);
    framed
}

/// What phones verify a block from: its header, its transactions, what its
/// execution read, and the codes that they do not have yet.
#[derive(Debug)]
pub struct StreamPacket {
    pub block_hash: B256,
    pub header_rlp: Vec<u8>,
    pub transactions: Vec<Vec<u8>>,
    pub read_log_data: Vec<u8>,
    pub bytecodes: Vec<(B256, Vec<u8>)>,
}

/// The packet of a block: of the codes that its execution used, it holds those
/// that no packet has held yet.
pub fn stream_packet(
    sent: &CodeCache,
    block_hash: B256,
    header: &Header,
    transactions: Vec<Vec<u8>>,
    read_log_data: Vec<u8>,
    codes: &Vec<(B256, Vec<u8>)>,
) -> (packet: StreamPacket)
    requires
        sent.wf(),
    ensures
        packet.block_hash == block_hash,
        packet.header_rlp@ == header_rlp(header@),
        packet.transactions == transactions,
        packet.read_log_data == read_log_data,
        codes_state(packet.bytecodes@) == unsent(sent@, codes_state(codes@)),
{
    StreamPacket {
        block_hash,
        header_rlp: header.encode(),
        transactions,
        read_log_data,
        bytecodes: sent.new_codes(codes),
    }
}

/// What is sent of a block once the compressor has answered. A frame is the
/// packet, and all the codes that the block's execution used count as sent then;
/// where compression failed, the error says why, and nothing counts as sent.
pub fn packet_compressed(
    sent: &mut CodeCache,
    frame: Result<Vec<u8>, String>,
    codes: &Vec<(B256, Vec<u8>)>,
) -> (packet: Result<Vec<u8>, MobilePacketError>)
    requires
        old(sent).wf(),
    ensures
        final(sent).wf(),
        final(sent).capacity() == old(sent).capacity(),
        match frame {
            Ok(f) => packet matches Ok(p) && p@ == f@ && final(sent)@ == with_codes(
                old(sent)@,
                old(sent).capacity() as int,
                codes_state(codes@),
            ),
            Err(reason) => packet matches Err(MobilePacketError::Compression { reason: r }) && r@
                == reason@ && final(sent)@ == old(sent)@,
        },
{
    match frame {
        Ok(packet) => {
            sent.remember(codes);
            Ok(packet)
        },
        Err(reason) => Err(MobilePacketError::Compression { reason }),
    }
}

/// Compresses the encoded packet of a block to be sent. The codes that the
/// block's execution used count as sent then, all of them; where compression
/// fails nothing does.
pub fn generate_packet(
    sent: &mut CodeCache,
    encoded: &Vec<u8>,
    codes: &Vec<(B256, Vec<u8>)>,
) -> (packet: Result<Vec<u8>, MobilePacketError>)
    requires
        old(sent).wf(),
    ensures
        final(sent).wf(),
        final(sent).capacity() == old(sent).capacity(),
        match packet {
            Ok(p) => p@ == zstd_frame(encoded@, ZSTD_LEVEL) && (forall|capacity: usize|
                encoded@.len() <= capacity ==> #[trigger] zstd_content(p@, capacity) == Some(
                    encoded@,
                )) && final(sent)@ == with_codes(
                old(sent)@,
                old(sent).capacity() as int,
                codes_state(codes@),
            ),
            Err(error) => error is Compression && final(sent)@ == old(sent)@,
        },
{
    let frame = zstd_compress(encoded, ZSTD_LEVEL);
    packet_compressed(sent, frame, codes)
}

/// The wait doubles with every attempt, up to sixteen times the base.
pub proof fn waits_double(attempt: u32)
    ensures
        attempt == 0 ==> retry_factor(attempt) == 1,
        attempt < 4 ==> retry_factor((attempt + 1) as u32) == 2 * retry_factor(attempt),
        attempt >= 4 ==> retry_factor(attempt) == 16,
        1 <= retry_factor(attempt) <= 16,
{
    reveal_with_fuel(retry_factor, 6);
}

/// The codes that go into a packet are those that were not sent: all of them, in
/// order and whole, and no others.
pub proof fn unsent_codes_are_packed(
    sent: Seq<(B256, Seq<u8>)>,
    codes: Seq<(B256, Seq<u8>)>,
) -> (at: Seq<int>)
    ensures
        at.len() == unsent(sent, codes).len(),
        forall|i: int, j: int| 0 <= i < j < at.len() ==> #[trigger] at[i] < #[trigger] at[j],
        forall|i: int|
            0 <= i < at.len() ==> 0 <= #[trigger] at[i] < codes.len() && unsent(sent, codes)[i]
                == codes[at[i]] && forall|k: int|
                0 <= k < sent.len() ==> (#[trigger] sent[k]).0 != codes[at[i]].0,
        forall|c: int|
            0 <= c < codes.len() && (forall|k: int|
                0 <= k < sent.len() ==> (#[trigger] sent[k]).0 != codes[c].0) ==> #[trigger] at.contains(
                c,
            ),
    decreases codes.len(),
{
    reveal(Seq::filter);
    if codes.len() == 0 {
        Seq::empty()
    } else {
        let rest = codes.drop_last();
        let last = codes.len() - 1;
        let kept = unsent_codes_are_packed(sent, rest);
        let new = !fifo_has(sent, codes[last].0);
        let at = if new {
            kept.push(last)
        } else {
            kept
        };
        assert forall|i: int| 0 <= i < kept.len() implies #[trigger] kept[i] < last
            && codes[kept[i]] == rest[kept[i]] && unsent(sent, codes)[i] == unsent(sent, rest)[i] by {
        }
        assert forall|i: int| 0 <= i < at.len() implies 0 <= #[trigger] at[i] < codes.len()
            && unsent(sent, codes)[i] == codes[at[i]] && forall|k: int|
            0 <= k < sent.len() ==> (#[trigger] sent[k]).0 != codes[at[i]].0 by {
            if i < kept.len() {
                assert(at[i] == kept[i]);
            }
        }
        assert forall|c: int|
            0 <= c < codes.len() && (forall|k: int|
                0 <= k < sent.len() ==> (#[trigger] sent[k]).0 != codes[c].0) implies #[trigger] at.contains(
            c,
        ) by {
            if c < last {
                assert(rest[c] == codes[c]);
                assert(kept.contains(c));
                let t = choose|t: int| 0 <= t < kept.len() && kept[t] == c;
                assert(at[t] == c);
            } else {
                assert(at[at.len() - 1] == c);
            }
        }
        at
    }
}

/// A code that was sent is kept as it is; a new one comes last, and of a full cache
/// the one that was sent first leaves.
pub proof fn sent_codes_leave_in_order(
    codes: Seq<(B256, Seq<u8>)>,
    capacity: int,
    hash: B256,
    code: Seq<u8>,
)
    requires
        0 < capacity,
        codes.len() <= capacity,
    ensures
        ({
            let after = with_code(codes, capacity, hash, code);
            let sent = exists|i: int| 0 <= i < codes.len() && (#[trigger] codes[i]).0 == hash;
            &&& sent ==> after == codes
            &&& !sent ==> after.last() == (hash, code)
            &&& !sent && codes.len() < capacity ==> after.drop_last() == codes
            &&& !sent && codes.len() == capacity ==> after.drop_last() == codes.drop_first()
        }),
{
    let after = with_code(codes, capacity, hash, code);
    if !fifo_has(codes, hash) {
        if codes.len() < capacity {
            assert(after.drop_last() =~= codes);
        } else {
            assert(after.drop_last() =~= codes.drop_first());
        }
    }
}

/// All codes of a packet are remembered, beside those sent before, as long as the
/// cache has room for them.
pub proof fn packed_codes_are_remembered(
    codes: Seq<(B256, Seq<u8>)>,
    capacity: int,
    more: Seq<(B256, Seq<u8>)>,
    hash: B256,
)
    requires
        codes.len() + more.len() <= capacity,
    ensures
        ({
            let after = with_codes(codes, capacity, more);
            &&& after.len() <= codes.len() + more.len()
            &&& codes.is_prefix_of(after)
            &&& fifo_has(after, hash) <==> fifo_has(codes, hash) || fifo_has(more, hash)
        }),
    decreases more.len(),
{
    let after = with_codes(codes, capacity, more);
    if more.len() == 0 {
        assert(!fifo_has(more, hash));
    } else {
        let rest = more.drop_last();
        let last = more.last();
        let before = with_codes(codes, capacity, rest);
        packed_codes_are_remembered(codes, capacity, rest, hash);
        packed_codes_are_remembered(codes, capacity, rest, last.0);
        assert forall|i: int| 0 <= i < before.len() implies #[trigger] before[i] == after[i] by {}
        assert(codes =~= after.subrange(0, codes.len() as int)) by {
            assert(codes =~= before.subrange(0, codes.len() as int));
            assert forall|i: int| 0 <= i < codes.len() implies codes[i] == after[i] by {
                assert(codes[i] == before.subrange(0, codes.len() as int)[i]);
                assert(before[i] == after[i]);
            }
        }
        if fifo_has(before, hash) {
            let i = choose|i: int| 0 <= i < before.len() && (#[trigger] before[i]).0 == hash;
            assert(after[i].0 == hash);
        }
        if fifo_has(rest, hash) {
            let i = choose|i: int| 0 <= i < rest.len() && (#[trigger] rest[i]).0 == hash;
            assert(more[i].0 == hash);
        }
        if fifo_has(after, hash) {
            let i = choose|i: int| 0 <= i < after.len() && (#[trigger] after[i]).0 == hash;
            if i < before.len() {
                assert(before[i].0 == hash);
            } else {
                assert(more[more.len() - 1].0 == hash);
            }
        }
        if fifo_has(more, hash) && !fifo_has(rest, hash) {
            let i = choose|i: int| 0 <= i < more.len() && (#[trigger] more[i]).0 == hash;
            if i < rest.len() {
                assert(rest[i].0 == hash);
            }
            assert(last.0 == hash);
            if !fifo_has(before, hash) {
                assert(after[after.len() - 1].0 == hash);
            }
        }
    }
}

} // verus!
