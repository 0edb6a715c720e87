//! Execution outputs that come with a block, so that followers can skip its
//! execution.
use crate::codec::{
    compress_payload, decompress_payload, has_magic, payload_content, zstd_frame, MAX_DECOMPRESSED,
    ZSTD_LEVEL,
};
use crate::fifo::{fifo_has, fifo_index, fifo_value, fifo_with, FifoMap};
use crate::keyed::distinct_keys;
use crate::primitives::B256;
use vstd::prelude::*;

verus! {

/// How many blocks are remembered.
pub const COMPACT_INJECT_TRACKER_LIMIT: usize = 2048;

/// What is remembered after one more attempt.
pub open spec fn after_attempt(seen: Seq<(B256, u64)>, hash: B256) -> Seq<(B256, u64)> {
    if fifo_has(seen, hash) {
        fifo_with(seen, hash, (fifo_value(seen, hash) + 1) as u64)
    } else if seen.len() >= COMPACT_INJECT_TRACKER_LIMIT {
        seen.push((hash, 1u64)).drop_first()
    } else {
        seen.push((hash, 1u64))
    }
}

/// How often the output of each of the latest blocks was handed over.
pub struct CompactInjectTracker {
    seen: FifoMap<u64>,
}

impl View for CompactInjectTracker {
    type V = Seq<(B256, u64)>;

    closed spec fn view(&self) -> Seq<(B256, u64)> {
        self.seen@
    }
}

impl CompactInjectTracker {
    /// No more blocks are remembered than the limit allows.
    pub closed spec fn wf(self) -> bool {
        self.seen.wf() && self@.len() <= COMPACT_INJECT_TRACKER_LIMIT
    }

    /// No more blocks are remembered than the limit allows.
    pub proof fn bounded(&self)
        requires
            self.wf(),
        ensures
            self@.len() <= COMPACT_INJECT_TRACKER_LIMIT,
    {
    }

    /// Nothing is remembered.
    pub fn new() -> (tracker: Self)
        ensures
            tracker.wf(),
            tracker@ == Seq::<(B256, u64)>::empty(),
    {
        CompactInjectTracker { seen: FifoMap::new() }
    }

    /// A block's output was handed over. Hands back the number of the attempt,
    /// where it was not the first.
    pub fn observe_compact_inject_attempt(&mut self, hash: B256) -> (repeated: Option<u64>)
        requires
            old(self).wf(),
            fifo_has(old(self)@, hash) ==> fifo_value(old(self)@, hash) < u64::MAX,
        ensures
            final(self).wf(),
            final(self)@ == after_attempt(old(self)@, hash),
            repeated == if fifo_has(old(self)@, hash) {
                Some((fifo_value(old(self)@, hash) + 1) as u64)
            } else {
                None
            },
    {
        let before: Option<u64> = match self.seen.get(&hash) {
            Some(n) => Some(*n),
            None => None,
        };
        if let Some(n) = before {
            let attempt: u64 = n + 1;
            self.seen.replace(hash, attempt);
            return Some(attempt);
        }
        self.seen.push(hash, 1);
        if self.seen.len() > COMPACT_INJECT_TRACKER_LIMIT {
            self.seen.pop_oldest();
        }
        None
    }
}

/// The bytes of an execution output as they go out with a block, where there is
/// an output.
pub fn take_and_serialize_execution_output(json: Option<&Vec<u8>>) -> (compressed: Option<Vec<u8>>)
    ensures
        compressed is Some == json is Some,
        compressed matches Some(c) ==> {
            let output = json->0@;
            &&& c@ == output || (c@ == zstd_frame(output, ZSTD_LEVEL) && has_magic(c@))
            &&& output.len() <= MAX_DECOMPRESSED && !has_magic(output) ==> payload_content(c@)
                == Some(output)
        },
{
    match json {
        Some(json) => Some(compress_payload(json)),
        None => None,
    }
}

/// What becomes of an execution output that came with a block.
#[derive(Debug)]
pub struct Injection {
    /// The number of the attempt, where it was not the first for the block.
    pub repeated: Option<u64>,
    /// The decompressed output, where it is well formed: the execution layer is
    /// given it.
    pub json: Option<Vec<u8>>,
}

/// An execution output came with a block: counts the attempt and decompresses
/// the output.
pub fn inject_compact_block(
    tracker: &mut CompactInjectTracker,
    hash: &B256,
    compressed: &[u8],
) -> (injection: Injection)
    requires
        old(tracker).wf(),
        fifo_has(old(tracker)@, *hash) ==> fifo_value(old(tracker)@, *hash) < u64::MAX,
    ensures
        final(tracker).wf(),
        final(tracker)@ == after_attempt(old(tracker)@, *hash),
        injection.repeated == if fifo_has(old(tracker)@, *hash) {
            Some((fifo_value(old(tracker)@, *hash) + 1) as u64)
        } else {
            None
        },
        match injection.json {
            Some(j) => payload_content(compressed@) == Some(j@),
            None => payload_content(compressed@) is None,
        },
{
    let repeated: Option<u64> = tracker.observe_compact_inject_attempt(*hash);
    Injection { repeated, json: decompress_payload(compressed) }
}

/// Hands execution outputs to the execution layer and takes them from it.
pub struct RethExecutionOutputCache {
    attempts: CompactInjectTracker,
}

impl View for RethExecutionOutputCache {
    type V = Seq<(B256, u64)>;

    closed spec fn view(&self) -> Seq<(B256, u64)> {
        self.attempts@
    }
}

impl RethExecutionOutputCache {
    /// No more blocks are remembered than the limit allows.
    pub closed spec fn wf(self) -> bool {
        self.attempts.wf()
    }

    /// Nothing was handed over.
    pub fn new() -> (cache: Self)
        ensures
            cache.wf(),
            cache@ == Seq::<(B256, u64)>::empty(),
    {
        RethExecutionOutputCache { attempts: CompactInjectTracker::new() }
    }

    /// The bytes of an execution output as they go out with a block, where the
    /// execution layer has an output.
    pub fn take_serialized(&self, json: Option<&Vec<u8>>) -> (compressed: Option<Vec<u8>>)
        ensures
            compressed is Some == json is Some,
            compressed matches Some(c) ==> {
                let output = json->0@;
                &&& c@ == output || (c@ == zstd_frame(output, ZSTD_LEVEL) && has_magic(c@))
                &&& output.len() <= MAX_DECOMPRESSED && !has_magic(output) ==> payload_content(c@)
                    == Some(output)
            },
    {
        take_and_serialize_execution_output(json)
    }

    /// An execution output came with a block: counts the attempt and hands back
    /// what the execution layer is given.
    pub fn inject(&mut self, hash: &B256, compressed: &[u8]) -> (injection: Injection)
        requires
            old(self).wf(),
            fifo_has(old(self)@, *hash) ==> fifo_value(old(self)@, *hash) < u64::MAX,
        ensures
            final(self).wf(),
            final(self)@ == after_attempt(old(self)@, *hash),
            injection.repeated == if fifo_has(old(self)@, *hash) {
                Some((fifo_value(old(self)@, *hash) + 1) as u64)
            } else {
                None
            },
            match injection.json {
                Some(j) => payload_content(compressed@) == Some(j@),
                None => payload_content(compressed@) is None,
            },
    {
        inject_compact_block(&mut self.attempts, hash, compressed)
    }
}

/// The first attempt on a block is noted as one, every further one is counted; of
/// 2048 blocks the one noted first leaves for a new one, and no other count changes.
pub proof fn attempts_are_counted(seen: Seq<(B256, u64)>, hash: B256, i: int)
    requires
        distinct_keys(seen),
        seen.len() <= 2048,
        0 <= i < seen.len(),
    ensures
        ({
            let after = after_attempt(seen, hash);
            &&& after.len() <= 2048
            &&& fifo_has(after, hash)
            &&& seen[i].0 == hash && seen[i].1 < u64::MAX ==> after.len() == seen.len() && after[i]
                == (hash, (seen[i].1 + 1) as u64)
            &&& seen[i].0 != hash && fifo_has(seen, hash) ==> after[i] == seen[i]
            &&& !fifo_has(seen, hash) ==> after.last() == (hash, 1u64)
            &&& !fifo_has(seen, hash) && seen.len() < 2048 ==> after.drop_last() == seen
            &&& !fifo_has(seen, hash) && seen.len() == 2048 ==> after.drop_last()
                == seen.drop_first()
        }),
{
    let after = after_attempt(seen, hash);
    if fifo_has(seen, hash) {
        let at = fifo_index(seen, hash);
        assert(after[at].0 == hash);
        if seen[i].0 == hash {
            assert(at == i);
        }
    } else {
        assert(after[after.len() - 1].0 == hash);
        if seen.len() < 2048 {
            assert(after.drop_last() =~= seen);
        } else {
            assert(after.drop_last() =~= seen.drop_first());
        }
    }
}

} // verus!
