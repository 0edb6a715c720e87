//! How a committed block becomes the head of the execution layer, step by step.
use super::cache::{nothing_pending, the_last_own_block_is_cached};
use super::chain::{QcState, QuorumCertificate};
use super::consensus_loop::{
    all_eager_imported, build_arranged, builds_at_once, deferred, has_import_of, importing,
    own_blocks_cached, own_blocks_state, FinalizeImport,
};
use super::imports::{BgImport, BgImportState};
use super::schedule::Clock;
use super::{is_that_hash, ConsensusOrchestrator, OrchState};
use crate::primitives::B256;
use vstd::prelude::*;

verus! {

/// How far the finalization of a block has come.
#[derive(Clone, Copy, Debug, PartialEq, Eq, Structural)]
pub enum FinalizeStage {
    /// Nothing was done yet.
    Start,
    /// The execution layer was asked to make the block its head.
    FirstTry,
    /// It refused, and the imports that finished meanwhile are looked at.
    Imports,
    /// It was asked again.
    SecondTry,
    /// The block's data is missing, and the leader's own blocks are looked at.
    OwnBlocks,
    /// Nothing is left to do.
    Done,
}

/// A committed block on its way to become the head.
#[derive(Debug)]
pub struct Finalization {
    pub view: u64,
    pub block_hash: B256,
    pub commit_qc: QuorumCertificate,
    pub stage: FinalizeStage,
}

/// The contents of a finalization.
pub ghost struct FinalizationState {
    pub view: u64,
    pub block_hash: B256,
    pub commit_qc: QcState,
    pub stage: FinalizeStage,
}

impl View for Finalization {
    type V = FinalizationState;

    open spec fn view(&self) -> FinalizationState {
        FinalizationState {
            view: self.view,
            block_hash: self.block_hash,
            commit_qc: self.commit_qc@,
            stage: self.stage,
        }
    }
}

/// What happened to a finalization.
#[derive(Debug)]
pub enum FinalizeEvent {
    /// The block was committed, or its data came after its commit.
    Committed,
    /// The execution layer answered, and made the block its head or did not.
    HeadAnswered { moved: bool },
    /// The imports ahead of their commits that finished meanwhile, with their
    /// timestamps.
    EagerImports { done: Vec<(B256, u64)> },
    /// The leader's own blocks that came back meanwhile.
    OwnBlocks { blocks: Vec<(B256, Vec<u8>)> },
}

/// What is done next for a finalization.
#[derive(Debug)]
pub enum FinalizeAction {
    Nothing,
    /// Ask the execution layer to make the block its head.
    MoveHead,
    /// Collect the imports that finished meanwhile.
    CollectImports,
    /// Collect the leader's own blocks that came back meanwhile.
    CollectOwnBlocks,
    /// The block is the head: tell the phones, and build a payload where it is
    /// time to.
    Finalized { build_now: bool },
    /// Import the block in the background.
    Import { import: BgImport },
    /// The block is imported behind others, or is on its way already.
    Queued,
    /// The finalization waits for the block's data.
    Deferred,
}

/// What is done next, with the contents of an import.
pub ghost enum FinalizeActionState {
    Nothing,
    MoveHead,
    CollectImports,
    CollectOwnBlocks,
    Finalized { build_now: bool },
    Import { import: BgImportState },
    Queued,
    Deferred,
}

impl View for FinalizeAction {
    type V = FinalizeActionState;

    open spec fn view(&self) -> FinalizeActionState {
        match *self {
            FinalizeAction::Nothing => FinalizeActionState::Nothing,
            FinalizeAction::MoveHead => FinalizeActionState::MoveHead,
            FinalizeAction::CollectImports => FinalizeActionState::CollectImports,
            FinalizeAction::CollectOwnBlocks => FinalizeActionState::CollectOwnBlocks,
            FinalizeAction::Finalized { build_now } => FinalizeActionState::Finalized {
                build_now,
            },
            FinalizeAction::Import { import } => FinalizeActionState::Import { import: import@ },
            FinalizeAction::Queued => FinalizeActionState::Queued,
            FinalizeAction::Deferred => FinalizeActionState::Deferred,
        }
    }
}

/// A step of a finalization: what the node knows then, how far it has come, and
/// what is done next.
pub type FinalizeStep = (OrchState, FinalizeStage, FinalizeActionState);

/// The leader arranges its next build once the block is the head, unless a build
/// runs on this block already.
pub open spec fn builds_on(s: OrchState, hash: B256, is_leader: bool) -> bool {
    is_leader && !is_that_hash(s.speculative_build_hash, hash)
}

/// The block is the head.
pub open spec fn head_moved(s: OrchState, hash: B256, is_leader: bool, clock: Clock) -> FinalizeStep {
    let cleared = OrchState { pending: nothing_pending(), ..s };
    let builds = builds_on(s, hash, is_leader);
    (
        if builds {
            build_arranged(cleared, clock)
        } else {
            cleared
        },
        FinalizeStage::Done,
        FinalizeActionState::Finalized { build_now: builds && builds_at_once(s) },
    )
}

/// The block's data is there, and goes into the execution layer.
pub open spec fn data_found(s: OrchState, f: FinalizationState) -> FinalizeStep {
    let data = s.pending.data[f.block_hash];
    (
        importing(s, data, f.block_hash, f.view),
        FinalizeStage::Done,
        if s.bg.running is None {
            FinalizeActionState::Import { import: (data, f.block_hash, f.view) }
        } else {
            FinalizeActionState::Queued
        },
    )
}

/// The block is not the head for good: its data is imported or looked for.
pub open spec fn head_refused(s: OrchState, f: FinalizationState) -> FinalizeStep {
    if s.pending.data.contains_key(f.block_hash) {
        data_found(s, f)
    } else {
        (s, FinalizeStage::OwnBlocks, FinalizeActionState::CollectOwnBlocks)
    }
}

/// What an event brings. One that does not belong to the stage brings nothing.
pub open spec fn finalize_next(
    s: OrchState,
    f: FinalizationState,
    event: FinalizeEvent,
    is_leader: bool,
    clock: Clock,
) -> FinalizeStep {
    match (f.stage, event) {
        (FinalizeStage::Start, FinalizeEvent::Committed) => if s.has_execution_layer {
            (s, FinalizeStage::FirstTry, FinalizeActionState::MoveHead)
        } else {
            (
                OrchState { pending: nothing_pending(), ..s },
                FinalizeStage::Done,
                FinalizeActionState::Nothing,
            )
        },
        (FinalizeStage::FirstTry, FinalizeEvent::HeadAnswered { moved }) => if moved {
            head_moved(s, f.block_hash, is_leader, clock)
        } else {
            (s, FinalizeStage::Imports, FinalizeActionState::CollectImports)
        },
        (FinalizeStage::Imports, FinalizeEvent::EagerImports { done }) => {
            let noted = all_eager_imported(s, done@, clock.instant_ms);
            if has_import_of(done@, f.block_hash) {
                (noted, FinalizeStage::SecondTry, FinalizeActionState::MoveHead)
            } else {
                head_refused(noted, f)
            }
        },
        (FinalizeStage::SecondTry, FinalizeEvent::HeadAnswered { moved }) => if moved {
            head_moved(s, f.block_hash, is_leader, clock)
        } else {
            head_refused(s, f)
        },
        (FinalizeStage::OwnBlocks, FinalizeEvent::OwnBlocks { blocks }) => {
            let cached = own_blocks_cached(s, own_blocks_state(blocks@));
            if cached.pending.data.contains_key(f.block_hash) {
                data_found(cached, f)
            } else {
                (
                    deferred(cached, f.view, f.block_hash, f.commit_qc),
                    FinalizeStage::Done,
                    FinalizeActionState::Deferred,
                )
            }
        },
        _ => (s, f.stage, FinalizeActionState::Nothing),
    }
}

impl Finalization {
    /// A block whose finalization starts.
    pub fn new(view: u64, block_hash: B256, commit_qc: QuorumCertificate) -> (f: Self)
        ensures
            f@ == (FinalizationState {
                view,
                block_hash,
                commit_qc: commit_qc@,
                stage: FinalizeStage::Start,
            }),
    {
        Finalization { view, block_hash, commit_qc, stage: FinalizeStage::Start }
    }
}

impl ConsensusOrchestrator {
    fn refused(&mut self, f: &Finalization) -> (step: (FinalizeStage, FinalizeAction))
        requires
            old(self).wf(),
        ensures
            final(self).wf(),
            (final(self)@, step.0, step.1@) == head_refused(old(self)@, f@),
    {
        match self.import_committed(f.view, f.block_hash) {
            FinalizeImport::NoData => {
                (FinalizeStage::OwnBlocks, FinalizeAction::CollectOwnBlocks)
            },
            FinalizeImport::Queued => (FinalizeStage::Done, FinalizeAction::Queued),
            FinalizeImport::Start { import } => {
                (FinalizeStage::Done, FinalizeAction::Import { import })
            },
        }
    }

    /// Takes a finalization one step further. The block is made the head; where
    /// that fails it is tried once more, if its import finished meanwhile. Else
    /// its data is imported, from the cache or from the leader's own blocks, or
    /// waited for.
    pub fn finalize_step(
        &mut self,
        f: &mut Finalization,
        event: FinalizeEvent,
        is_leader: bool,
        clock: Clock,
    ) -> (action: FinalizeAction)
        requires
            old(self).wf(),
            old(self)@.schedule.clocks_fit(clock),
        ensures
            final(self).wf(),
            (final(self)@, final(f)@.stage, action@) == finalize_next(
                old(self)@,
                old(f)@,
                event,
                is_leader,
                clock,
            ),
            final(f)@ == (FinalizationState { stage: final(f)@.stage, ..old(f)@ }),
    {
        match (f.stage, event) {
            (FinalizeStage::Start, FinalizeEvent::Committed) => {
                if self.finalize_committed_block() {
                    f.stage = FinalizeStage::FirstTry;
                    FinalizeAction::MoveHead
                } else {
                    f.stage = FinalizeStage::Done;
                    FinalizeAction::Nothing
                }
            },
            (FinalizeStage::FirstTry, FinalizeEvent::HeadAnswered { moved }) => {
                if moved {
                    f.stage = FinalizeStage::Done;
                    let build_now = self.block_finalized(&f.block_hash, is_leader, clock);
                    FinalizeAction::Finalized { build_now }
                } else {
                    f.stage = FinalizeStage::Imports;
                    FinalizeAction::CollectImports
                }
            },
            (FinalizeStage::Imports, FinalizeEvent::EagerImports { done }) => {
                if self.note_eager_imports(&done, &f.block_hash, clock.instant_ms) {
                    f.stage = FinalizeStage::SecondTry;
                    FinalizeAction::MoveHead
                } else {
                    let (stage, action) = self.refused(f);
                    f.stage = stage;
                    action
                }
            },
            (FinalizeStage::SecondTry, FinalizeEvent::HeadAnswered { moved }) => {
                if moved {
                    f.stage = FinalizeStage::Done;
                    let build_now = self.block_finalized(&f.block_hash, is_leader, clock);
                    FinalizeAction::Finalized { build_now }
                } else {
                    let (stage, action) = self.refused(f);
                    f.stage = stage;
                    action
                }
            },
            (FinalizeStage::OwnBlocks, FinalizeEvent::OwnBlocks { blocks }) => {
                f.stage = FinalizeStage::Done;
                match self.import_or_defer(f.view, f.block_hash, &f.commit_qc, blocks) {
                    FinalizeImport::NoData => FinalizeAction::Deferred,
                    FinalizeImport::Queued => FinalizeAction::Queued,
                    FinalizeImport::Start { import } => FinalizeAction::Import { import },
                }
            },
            _ => FinalizeAction::Nothing,
        }
    }
}

/// An event of a finalization, with whether this node leads then and the time.
pub ghost struct FinalizeMoment {
    pub event: FinalizeEvent,
    pub is_leader: bool,
    pub clock: Clock,
}

/// How often the execution layer is asked to make the block its head while these
/// events happen.
pub open spec fn heads_asked(s: OrchState, f: FinalizationState, events: Seq<FinalizeMoment>) -> nat
    decreases events.len(),
{
    if events.len() == 0 {
        0
    } else {
        let m = events[0];
        let (next, stage, action) = finalize_next(s, f, m.event, m.is_leader, m.clock);
        let rest = heads_asked(next, FinalizationState { stage, ..f }, events.drop_first());
        if action is MoveHead {
            1 + rest
        } else {
            rest
        }
    }
}

/// How often the execution layer may still be asked.
pub open spec fn tries_left(stage: FinalizeStage) -> nat {
    match stage {
        FinalizeStage::Start => 2,
        FinalizeStage::FirstTry | FinalizeStage::Imports => 1,
        _ => 0,
    }
}

/// Whatever happens, the execution layer is asked at most twice to make a block
/// its head: there is one try more, and no third.
pub proof fn head_is_tried_again_once(
    s: OrchState,
    f: FinalizationState,
    events: Seq<FinalizeMoment>,
)
    ensures
        heads_asked(s, f, events) <= tries_left(f.stage),
        f.stage == FinalizeStage::Start ==> heads_asked(s, f, events) <= 2,
    decreases events.len(),
{
    if events.len() > 0 {
        let m = events[0];
        let (next, stage, action) = finalize_next(s, f, m.event, m.is_leader, m.clock);
        head_is_tried_again_once(next, FinalizationState { stage, ..f }, events.drop_first());
    }
}

/// Where a stage stands in the course of a finalization.
pub open spec fn stage_rank(stage: FinalizeStage) -> nat {
    match stage {
        FinalizeStage::Start => 0,
        FinalizeStage::FirstTry => 1,
        FinalizeStage::Imports => 2,
        FinalizeStage::SecondTry => 3,
        FinalizeStage::OwnBlocks => 4,
        FinalizeStage::Done => 5,
    }
}

/// A finalization only moves forward, and ends: an event takes it to a later
/// stage or changes nothing at all, and nothing follows the last stage.
pub proof fn finalization_moves_forward(
    s: OrchState,
    f: FinalizationState,
    event: FinalizeEvent,
    is_leader: bool,
    clock: Clock,
)
    ensures
        ({
            let (next, stage, action) = finalize_next(s, f, event, is_leader, clock);
            &&& stage_rank(stage) > stage_rank(f.stage) || (next == s && stage == f.stage
                && action is Nothing)
            &&& f.stage == FinalizeStage::Done ==> next == s && stage == f.stage
                && action is Nothing
        }),
{
}

/// The second try comes only after an import of the block finished, and the
/// block's data is imported only after the head could not be moved.
pub proof fn second_try_needs_an_import(
    s: OrchState,
    f: FinalizationState,
    event: FinalizeEvent,
    is_leader: bool,
    clock: Clock,
)
    ensures
        ({
            let (next, stage, action) = finalize_next(s, f, event, is_leader, clock);
            &&& action is MoveHead && f.stage != FinalizeStage::Start ==> (event matches
                FinalizeEvent::EagerImports { done } && has_import_of(done@, f.block_hash))
            &&& next.bg != s.bg ==> f.stage == FinalizeStage::Imports || f.stage
                == FinalizeStage::SecondTry || f.stage == FinalizeStage::OwnBlocks
        }),
{
    if let FinalizeEvent::EagerImports { done } = event {
        eager_imports_leave_background(s, done@, clock.instant_ms);
    }
}

proof fn eager_imports_leave_background(s: OrchState, done: Seq<(B256, u64)>, instant_ms: u64)
    ensures
        all_eager_imported(s, done, instant_ms).bg == s.bg,
    decreases done.len(),
{
    if done.len() > 0 {
        eager_imports_leave_background(s, done.drop_last(), instant_ms);
    }
}

/// Finalization starts by asking the execution layer to move its head; a node
/// without one has nothing to do, and forgets what it cached.
pub proof fn finalization_asks_for_the_head(
    s: OrchState,
    f: FinalizationState,
    is_leader: bool,
    clock: Clock,
)
    requires
        f.stage == FinalizeStage::Start,
    ensures
        ({
            let (next, stage, action) = finalize_next(
                s,
                f,
                FinalizeEvent::Committed,
                is_leader,
                clock,
            );
            &&& s.has_execution_layer ==> action is MoveHead && next == s && stage
                == FinalizeStage::FirstTry
            &&& !s.has_execution_layer ==> action is Nothing && stage == FinalizeStage::Done
                && next.pending.data == Map::<B256, Seq<u8>>::empty() && (OrchState {
                pending: s.pending,
                ..next
            }) == s
        }),
{
}

/// Once the head moved, the cache is cleared and nothing else changes but the
/// schedule of a leader that has not built on the block yet; only such a leader
/// builds, and it does so at once where nothing makes it wait.
pub proof fn moved_heads_are_built_on(
    s: OrchState,
    f: FinalizationState,
    is_leader: bool,
    clock: Clock,
)
    requires
        f.stage == FinalizeStage::FirstTry || f.stage == FinalizeStage::SecondTry,
    ensures
        ({
            let (next, stage, action) = finalize_next(
                s,
                f,
                FinalizeEvent::HeadAnswered { moved: true },
                is_leader,
                clock,
            );
            let builds = is_leader && s.speculative_build_hash != Some(f.block_hash);
            &&& stage == FinalizeStage::Done
            &&& next.pending.data == Map::<B256, Seq<u8>>::empty()
            &&& (OrchState { pending: s.pending, schedule: s.schedule, ..next }) == s
            &&& !builds ==> next.schedule == s.schedule
            &&& action matches FinalizeActionState::Finalized { build_now } && {
                &&& build_now ==> builds
                &&& builds && (s.schedule.slot_time_ms == 0 || s.schedule.fast_propose)
                    && s.schedule.min_propose_delay_ms == 0 && s.schedule.consecutive_empty_skips
                    >= s.schedule.max_empty_skips ==> build_now
            }
        }),
{
}

/// When the execution layer refuses the head for the first time, the imports that
/// finished are looked at. If the block is among them, the head is asked for
/// again; they are noted either way.
pub proof fn refused_heads_wait_for_their_import(
    s: OrchState,
    f: FinalizationState,
    done: Vec<(B256, u64)>,
    is_leader: bool,
    clock: Clock,
)
    ensures
        f.stage == FinalizeStage::FirstTry ==> finalize_next(
            s,
            f,
            FinalizeEvent::HeadAnswered { moved: false },
            is_leader,
            clock,
        ) == (s, FinalizeStage::Imports, FinalizeActionState::CollectImports),
        f.stage == FinalizeStage::Imports ==> {
            let (next, stage, action) = finalize_next(
                s,
                f,
                FinalizeEvent::EagerImports { done },
                is_leader,
                clock,
            );
            &&& (exists|i: int| 0 <= i < done@.len() && (#[trigger] done@[i]).0 == f.block_hash)
                <==> action is MoveHead
            &&& action is MoveHead ==> stage == FinalizeStage::SecondTry && next.pending
                == s.pending && next.bg == s.bg
            &&& next.last_committed_timestamp >= s.last_committed_timestamp
            &&& forall|i: int|
                0 <= i < done@.len() ==> next.last_committed_timestamp >= (#[trigger] done@[i]).1
            &&& next.head == s.head && next.chain == s.chain && next.schedule == s.schedule
        },
{
    imports_are_all_noted(s, done@, clock.instant_ms);
}

proof fn imports_are_all_noted(s: OrchState, done: Seq<(B256, u64)>, instant_ms: u64)
    ensures
        ({
            let after = all_eager_imported(s, done, instant_ms);
            &&& after.last_committed_timestamp >= s.last_committed_timestamp
            &&& forall|i: int|
                0 <= i < done.len() ==> after.last_committed_timestamp >= (#[trigger] done[i]).1
            &&& (OrchState {
                last_committed_timestamp: s.last_committed_timestamp,
                timings: s.timings,
                ..after
            }) == s
        }),
    decreases done.len(),
{
    if done.len() > 0 {
        let rest = done.drop_last();
        imports_are_all_noted(s, rest, instant_ms);
        let after = all_eager_imported(s, done, instant_ms);
        assert forall|i: int| 0 <= i < done.len() implies after.last_committed_timestamp >= (
        #[trigger] done[i]).1 by {
            if i < rest.len() {
                assert(rest[i] == done[i]);
            }
        }
    }
}

/// A block whose head was refused is imported from its cached data, or queued
/// behind the import that runs; either way the cache is cleared. Without its data
/// the leader's own blocks are looked at.
pub proof fn refused_blocks_are_imported(
    s: OrchState,
    f: FinalizationState,
    is_leader: bool,
    clock: Clock,
)
    requires
        f.stage == FinalizeStage::SecondTry,
        s.bg.running != Some(f.block_hash),
        forall|i: int| 0 <= i < s.bg.queue.len() ==> (#[trigger] s.bg.queue[i]).1 != f.block_hash,
    ensures
        ({
            let (next, stage, action) = finalize_next(
                s,
                f,
                FinalizeEvent::HeadAnswered { moved: false },
                is_leader,
                clock,
            );
            let data = s.pending.data[f.block_hash];
            &&& s.pending.data.contains_key(f.block_hash) ==> {
                &&& stage == FinalizeStage::Done
                &&& next.pending.data == Map::<B256, Seq<u8>>::empty()
                &&& s.bg.running is None ==> action == (FinalizeActionState::Import {
                    import: (data, f.block_hash, f.view),
                }) && next.bg.running == Some(f.block_hash)
                &&& s.bg.running is Some ==> action is Queued && next.bg.running == s.bg.running
                    && next.bg.queue == s.bg.queue.push((data, f.block_hash, f.view))
                &&& (OrchState { pending: s.pending, bg: s.bg, ..next }) == s
            }
            &&& !s.pending.data.contains_key(f.block_hash) ==> next == s && stage
                == FinalizeStage::OwnBlocks && action is CollectOwnBlocks
        }),
{
}

/// A block that is nowhere to be found is waited for: its finalization is kept,
/// with its certificate. One that the leader built is imported from its own data.
pub proof fn missing_blocks_are_waited_for(
    s: OrchState,
    f: FinalizationState,
    hash: B256,
    data: Vec<u8>,
    blocks: Vec<(B256, Vec<u8>)>,
    is_leader: bool,
    clock: Clock,
)
    requires
        f.stage == FinalizeStage::OwnBlocks,
        s.pending.data.dom().finite(),
        s.pending.data.len() <= 16,
        !s.pending.data.contains_key(f.block_hash),
        s.bg.running is None,
        s.bg.queue.len() == 0,
    ensures
        ({
            let (next, stage, action) = finalize_next(
                s,
                f,
                FinalizeEvent::OwnBlocks { blocks },
                is_leader,
                clock,
            );
            &&& stage == FinalizeStage::Done
            &&& blocks@.len() == 0 ==> action is Deferred && next.pending_finalization == Some(
                (f.view, f.block_hash, f.commit_qc),
            ) && next.pending.executions.contains(f.block_hash) && next.pending.data
                == s.pending.data && next.bg == s.bg
            &&& blocks@.len() == 1 && blocks@[0].0 == f.block_hash ==> action == (
            FinalizeActionState::Import { import: (blocks@[0].1@, f.block_hash, f.view) })
                && next.bg.running == Some(f.block_hash)
            &&& action is Deferred || action is Import
        }),
{
    let own = own_blocks_state(blocks@);
    the_last_own_block_is_cached(s.pending.data, own);
    if blocks@.len() == 1 {
        assert(own[0] == (blocks@[0].0, blocks@[0].1@));
        assert(own.last() == own[0]);
    }
}

} // verus!
