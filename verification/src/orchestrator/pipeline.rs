//! How long each block spends in the stages between its proposal and its commit.
use crate::keyed::ByteMap;
use crate::primitives::B256;
use crate::text::{decimal, push_decimal};
use vstd::prelude::*;
use vstd::string::StringExecFns;

verus! {

/// The most blocks whose stages are tracked.
pub const MAX_PIPELINE_ENTRIES: usize = 32;

/// When a block passed each stage, in milliseconds.
#[derive(Clone, Copy, Debug, PartialEq, Eq, Structural)]
pub struct PipelineTiming {
    /// When the node first learned of the block.
    pub created: u64,
    pub is_leader: bool,
    /// When the payload was built, or its data received.
    pub build_complete: Option<u64>,
    pub import_complete: Option<u64>,
    pub committed: Option<u64>,
}

/// How long after `start` a moment was; none where it has not come.
pub open spec fn since(start: u64, at: Option<u64>) -> Option<int> {
    match at {
        Some(at) => Some(
            if at >= start {
                at - start
            } else {
                0
            },
        ),
        None => None,
    }
}

/// How long the import was done before the commit.
pub open spec fn headroom(timing: PipelineTiming) -> Option<int> {
    match (timing.import_complete, timing.committed) {
        (Some(imported), Some(committed)) => if imported <= committed {
            Some(committed - imported)
        } else {
            None
        },
        _ => None,
    }
}

/// A number of milliseconds, or a dash.
pub open spec fn ms_text(ms: Option<int>) -> Seq<char> {
    match ms {
        Some(ms) => decimal(ms),
        None => "-"@,
    }
}

/// The line that sums up a block's stages.
pub open spec fn summary_text(timing: PipelineTiming) -> Seq<char> {
    "role="@ + (if timing.is_leader {
        "L"@
    } else {
        "F"@
    }) + " build="@ + ms_text(since(timing.created, timing.build_complete)) + "ms import="@
        + ms_text(since(timing.created, timing.import_complete)) + "ms commit="@ + ms_text(
        since(timing.created, timing.committed),
    ) + "ms import_headroom="@ + ms_text(headroom(timing)) + "ms"@
}

fn push_ms(text: &mut String, ms: Option<u64>)
    ensures
        final(text)@ == old(text)@ + ms_text(
            match ms {
                Some(ms) => Some(ms as int),
                None => None,
            },
        ),
{
    match ms {
        Some(ms) => push_decimal(text, ms),
        None => text.append("-"),
    }
}

fn ms_since(start: u64, at: Option<u64>) -> (ms: Option<u64>)
    ensures
        match ms {
            Some(ms) => since(start, at) == Some(ms as int),
            None => since(start, at) is None,
        },
{
    match at {
        Some(at) => Some(at.saturating_sub(start)),
        None => None,
    }
}

impl PipelineTiming {
    /// A block whose data a follower received.
    pub fn new_follower(now_ms: u64) -> (timing: Self)
        ensures
            timing == (PipelineTiming {
                created: now_ms,
                is_leader: false,
                build_complete: None,
                import_complete: None,
                committed: None,
            }),
    {
        PipelineTiming {
            created: now_ms,
            is_leader: false,
            build_complete: None,
            import_complete: None,
            committed: None,
        }
    }

    /// The line that sums up the stages.
    pub fn summary(&self) -> (text: String)
        ensures
            text@ == summary_text(*self),
    {
        let mut text = String::new();
        text.append("role=");
        if self.is_leader {
            text.append("L");
        } else {
            text.append("F");
        }
        text.append(" build=");
        push_ms(&mut text, ms_since(self.created, self.build_complete));
        text.append("ms import=");
        push_ms(&mut text, ms_since(self.created, self.import_complete));
        text.append("ms commit=");
        push_ms(&mut text, ms_since(self.created, self.committed));
        text.append("ms import_headroom=");
        let room: Option<u64> = match (self.import_complete, self.committed) {
            (Some(imported), Some(committed)) => if imported <= committed {
                Some(committed - imported)
            } else {
                None
            },
            _ => None,
        };
        push_ms(&mut text, room);
        text.append("ms");
        assert(text@ =~= summary_text(*self));
        text
    }
}

/// `oldest` is a tracked block that came no later than any other.
pub open spec fn is_oldest(timings: Map<B256, PipelineTiming>, oldest: B256) -> bool {
    timings.contains_key(oldest) && forall|hash: B256| #[trigger]
        timings.contains_key(hash) ==> timings[oldest].created <= timings[hash].created
}

/// The tracked blocks after one more came: an oldest leaves where the limit is
/// reached.
pub open spec fn after_recording(
    before: Map<B256, PipelineTiming>,
    hash: B256,
    timing: PipelineTiming,
    after: Map<B256, PipelineTiming>,
) -> bool {
    if before.len() < MAX_PIPELINE_ENTRIES {
        after == before.insert(hash, timing)
    } else {
        exists|oldest: B256| #[trigger]
            is_oldest(before, oldest) && after == before.remove(oldest).insert(hash, timing)
    }
}

/// The tracked blocks after one was imported.
pub open spec fn after_import(timings: Map<B256, PipelineTiming>, hash: B256, now_ms: u64) -> Map<
    B256,
    PipelineTiming,
> {
    if timings.contains_key(hash) {
        timings.insert(
            hash,
            PipelineTiming { import_complete: Some(now_ms), ..timings[hash] },
        )
    } else {
        timings
    }
}

/// The stages of the latest blocks.
pub struct PipelineTimings {
    timings: ByteMap<32, PipelineTiming>,
}

impl View for PipelineTimings {
    type V = Map<B256, PipelineTiming>;

    closed spec fn view(&self) -> Map<B256, PipelineTiming> {
        self.timings@
    }
}

impl PipelineTimings {
    /// No more blocks than the limit are tracked.
    pub closed spec fn wf(self) -> bool {
        self.timings.wf() && self@.dom().finite() && self@.len() <= MAX_PIPELINE_ENTRIES
    }

    /// No more blocks than the limit are tracked.
    pub proof fn bounded(&self)
        requires
            self.wf(),
        ensures
            self@.dom().finite(),
            self@.len() <= MAX_PIPELINE_ENTRIES,
    {
    }

    /// No blocks are tracked.
    pub fn new() -> (timings: Self)
        ensures
            timings.wf(),
            timings@ == Map::<B256, PipelineTiming>::empty(),
    {
        PipelineTimings { timings: ByteMap::new() }
    }

    fn oldest(&self) -> (oldest: B256)
        requires
            self.wf(),
            self@.len() > 0,
        ensures
            is_oldest(self@, oldest),
    {
        proof {
            self.timings.keys_are_the_domain();
        }
        let n: usize = self.timings.len();
        let mut oldest: B256 = self.timings.key_at(0);
        let mut created: u64 = match self.timings.get(&oldest) {
            Some(t) => t.created,
            None => 0,
        };
        let mut i: usize = 1;
        while i < n
            invariant
                self.wf(),
                n == self.timings.keys().len(),
                1 <= i <= n,
                self@.contains_key(oldest),
                created == self@[oldest].created,
                forall|j: int|
                    0 <= j < i ==> created <= self@[#[trigger] self.timings.keys()[j]].created,
            decreases n - i,
        {
            let key: B256 = self.timings.key_at(i);
            if let Some(t) = self.timings.get(&key) {
                if t.created < created {
                    oldest = key;
                    created = t.created;
                }
            }
            i += 1;
        }
        proof {
            self.timings.keys_are_the_domain();
            assert forall|hash: B256| #[trigger] self@.contains_key(hash) implies created
                <= self@[hash].created by {
                let j = choose|j: int|
                    0 <= j < self.timings.keys().len() && self.timings.keys()[j] == hash;
                assert(created <= self@[self.timings.keys()[j]].created);
            }
        }
        oldest
    }

    /// Tracks a block; an oldest one leaves where the limit is reached.
    pub fn record_pipeline_timing(&mut self, hash: B256, timing: PipelineTiming)
        requires
            old(self).wf(),
        ensures
            final(self).wf(),
            after_recording(old(self)@, hash, timing, final(self)@),
    {
        let ghost before = self@;
        if self.timings.len() >= MAX_PIPELINE_ENTRIES {
            let oldest: B256 = self.oldest();
            let _ = self.timings.remove(&oldest);
            assert(is_oldest(before, oldest));
        }
        self.timings.insert(hash, timing);
    }

    /// A block's import is complete.
    pub fn mark_imported(&mut self, hash: &B256, now_ms: u64)
        requires
            old(self).wf(),
        ensures
            final(self).wf(),
            final(self)@ == after_import(old(self)@, *hash, now_ms),
    {
        let found: Option<PipelineTiming> = match self.timings.get(hash) {
            Some(t) => Some(*t),
            None => None,
        };
        if let Some(t) = found {
            let mut timing: PipelineTiming = t;
            timing.import_complete = Some(now_ms);
            self.timings.insert(*hash, timing);
            assert(self@.dom() =~= old(self)@.dom());
        }
    }

    /// A block is committed: its stages leave, with the commit marked.
    pub fn take_committed(&mut self, hash: &B256, now_ms: u64) -> (timing: Option<PipelineTiming>)
        requires
            old(self).wf(),
        ensures
            final(self).wf(),
            final(self)@ == old(self)@.remove(*hash),
            timing == if old(self)@.contains_key(*hash) {
                Some(PipelineTiming { committed: Some(now_ms), ..old(self)@[*hash] })
            } else {
                None
            },
    {
        match self.timings.remove(hash) {
            Some(t) => {
                let mut timing: PipelineTiming = t;
                timing.committed = Some(now_ms);
                Some(timing)
            },
            None => None,
        }
    }
}

/// Recording a block's stages keeps them under its hash, whole. At most 32 blocks
/// are tracked: where there are as many, one that began before all others leaves.
pub proof fn recorded_stages_are_kept(
    before: Map<B256, PipelineTiming>,
    hash: B256,
    timing: PipelineTiming,
    after: Map<B256, PipelineTiming>,
    other: B256,
)
    requires
        before.dom().finite(),
        before.len() <= 32,
        after_recording(before, hash, timing, after),
    ensures
        after.contains_key(hash),
        after[hash] == timing,
        other != hash && after.contains_key(other) ==> before.contains_key(other) && after[other]
            == before[other],
        other != hash && before.contains_key(other) && before.len() < 32 ==> after.contains_key(
            other,
        ),
        other != hash && before.contains_key(other) && !after.contains_key(other) ==> forall|
            k: B256,
        | #[trigger]
            before.contains_key(k) ==> before[other].created <= before[k].created,
        after.len() <= 32,
{
}

/// An import stamps the block's own stages, and no others.
pub proof fn imports_stamp_their_block(
    timings: Map<B256, PipelineTiming>,
    hash: B256,
    now_ms: u64,
    other: B256,
)
    ensures
        ({
            let after = after_import(timings, hash, now_ms);
            &&& after.dom() == timings.dom()
            &&& timings.contains_key(hash) ==> after[hash].import_complete == Some(now_ms)
                && after[hash].created == timings[hash].created && after[hash].is_leader
                == timings[hash].is_leader && after[hash].build_complete
                == timings[hash].build_complete && after[hash].committed
                == timings[hash].committed
            &&& other != hash && timings.contains_key(other) ==> after[other] == timings[other]
        }),
{
    assert(after_import(timings, hash, now_ms).dom() =~= timings.dom());
}

/// A stage's time is counted from when the block was first seen, and a block that
/// was imported before its commit had the time between them to spare.
pub proof fn stages_are_timed(timing: PipelineTiming, start: u64, at: u64)
    ensures
        since(start, None) is None,
        at >= start ==> since(start, Some(at)) == Some(at - start),
        at < start ==> since(start, Some(at)) == Some(0int),
        headroom(timing) matches Some(ms) ==> (timing.import_complete matches Some(i)
            && timing.committed matches Some(c) && i <= c && ms == c - i),
        (timing.import_complete matches Some(i) && timing.committed matches Some(c) && i <= c)
            ==> headroom(timing) is Some,
{
}

} // verus!
