//! Blocks on their way into the execution layer.
use crate::primitives::{max_u64, same_key, B256};
use std::collections::VecDeque;
use vstd::prelude::*;

verus! {

/// The most blocks that wait while the execution layer syncs.
pub const MAX_SYNCING_QUEUE_SIZE: usize = 8;

/// A waiting block is given up once it has been tried this often.
pub const MAX_SYNCING_RETRIES: u32 = 3;

/// What the execution layer says of a payload.
#[derive(Clone, Copy, Debug, PartialEq, Eq, Structural)]
pub enum PayloadStatus {
    Valid,
    Accepted,
    Syncing,
    Invalid,
}

/// The execution layer took the payload.
pub open spec fn took(status: PayloadStatus) -> bool {
    status == PayloadStatus::Valid || status == PayloadStatus::Accepted
}

/// Whether the execution layer took the payload.
pub fn is_accepted(status: PayloadStatus) -> (accepted: bool)
    ensures
        accepted == took(status),
{
    match status {
        PayloadStatus::Valid => true,
        PayloadStatus::Accepted => true,
        _ => false,
    }
}

/// A committed block to import in the background.
#[derive(Debug)]
pub struct BgImport {
    pub data: Vec<u8>,
    pub block_hash: B256,
    pub view: u64,
}

/// The contents of a block to import.
pub type BgImportState = (Seq<u8>, B256, u64);

impl View for BgImport {
    type V = BgImportState;

    open spec fn view(&self) -> BgImportState {
        (self.data@, self.block_hash, self.view)
    }
}

/// The block that is imported, and what waits behind it, oldest first.
#[verifier::ext_equal]
pub ghost struct BgState {
    pub running: Option<B256>,
    pub queue: Seq<BgImportState>,
}

/// No import runs, and none waits.
pub open spec fn no_imports() -> BgState {
    BgState { running: None, queue: Seq::empty() }
}

/// The block waits for its import.
pub open spec fn is_waiting(state: BgState, hash: B256) -> bool {
    exists|i: int| 0 <= i < state.queue.len() && (#[trigger] state.queue[i]).1 == hash
}

/// The block is imported, or waits for its import.
pub open spec fn is_under_way(state: BgState, hash: B256) -> bool {
    state.running == Some(hash) || is_waiting(state, hash)
}

/// Nothing waits unless an import runs.
pub open spec fn in_sequence(state: BgState) -> bool {
    state.queue.len() > 0 ==> state.running is Some
}

/// No block is under way twice.
pub open spec fn each_once(state: BgState) -> bool {
    &&& forall|i: int, j: int|
        0 <= i < j < state.queue.len() ==> (#[trigger] state.queue[i]).1 != (
        #[trigger] state.queue[j]).1
    &&& forall|i: int|
        0 <= i < state.queue.len() ==> state.running != Some((#[trigger] state.queue[i]).1)
}

/// The imports with one more: it runs where none does, and else waits behind the
/// others. A block that is under way already is not imported again.
pub open spec fn with_import(state: BgState, import: BgImportState) -> BgState {
    if is_under_way(state, import.1) {
        state
    } else if state.running is Some {
        BgState { queue: state.queue.push(import), ..state }
    } else {
        BgState { running: Some(import.1), ..state }
    }
}

/// The imports once the running one succeeded: the next one runs.
pub open spec fn after_import_done(state: BgState) -> BgState {
    if state.queue.len() > 0 {
        BgState { running: Some(state.queue[0].1), queue: state.queue.drop_first() }
    } else {
        BgState { running: None, ..state }
    }
}

/// Background imports, one at a time: a parent goes in before its child.
pub struct BackgroundImports {
    running: Option<B256>,
    queue: VecDeque<BgImport>,
}

impl View for BackgroundImports {
    type V = BgState;

    closed spec fn view(&self) -> BgState {
        BgState { running: self.running, queue: self.queue@.map_values(|i: BgImport| i@) }
    }
}

impl BackgroundImports {
    /// Nothing waits unless an import runs, and no block is under way twice.
    pub open spec fn wf(self) -> bool {
        in_sequence(self@) && each_once(self@)
    }

    /// No import runs.
    pub fn new() -> (imports: Self)
        ensures
            imports.wf(),
            imports@ == no_imports(),
    {
        let imports = BackgroundImports { running: None, queue: VecDeque::new() };
        assert(imports@.queue =~= Seq::empty());
        imports
    }

    /// Whether an import runs or waits.
    pub fn is_busy(&self) -> (busy: bool)
        requires
            self.wf(),
        ensures
            busy == self@.running is Some,
    {
        self.running.is_some() || self.queue.len() > 0
    }

    /// How many imports wait.
    pub fn waiting(&self) -> (n: usize)
        ensures
            n == self@.queue.len(),
    {
        self.queue.len()
    }

    /// Whether a block is imported or waits for its import.
    pub fn has(&self, block_hash: &B256) -> (has: bool)
        ensures
            has == is_under_way(self@, *block_hash),
    {
        if let Some(running) = &self.running {
            if same_key(running, block_hash) {
                return true;
            }
        }
        let mut i: usize = 0;
        while i < self.queue.len()
            invariant
                i <= self.queue@.len(),
                forall|j: int| 0 <= j < i ==> (#[trigger] self@.queue[j]).1 != *block_hash,
            decreases self.queue@.len() - i,
        {
            assert(self@.queue[i as int].1 == self.queue@[i as int].block_hash);
            if same_key(&self.queue[i].block_hash, block_hash) {
                return true;
            }
            i += 1;
        }
        false
    }

    /// Imports a block: at once where no import runs, else behind the others.
    /// Hands back the block to import now. A block that is under way already is
    /// left to that.
    pub fn enqueue_bg_import(&mut self, import: BgImport) -> (start: Option<BgImport>)
        requires
            old(self).wf(),
        ensures
            final(self).wf(),
            final(self)@ == with_import(old(self)@, import@),
            match start {
                Some(s) => old(self)@.running is None && s == import,
                None => old(self)@.running is Some,
            },
    {
        if self.has(&import.block_hash) {
            return None;
        }
        if self.running.is_some() {
            let ghost before = self@;
            let ghost added = import@;
            self.queue.push_back(import);
            assert(self@.queue =~= before.queue.push(added));
            None
        } else {
            self.running = Some(import.block_hash);
            Some(import)
        }
    }

    /// The running import succeeded: hands back the next one to run.
    pub fn finished(&mut self) -> (next: Option<BgImport>)
        requires
            old(self).wf(),
        ensures
            final(self).wf(),
            final(self)@ == after_import_done(old(self)@),
            match next {
                Some(n) => old(self)@.queue.len() > 0 && n@ == old(self)@.queue[0],
                None => old(self)@.queue.len() == 0,
            },
    {
        let ghost before = self@;
        match self.queue.pop_front() {
            Some(next) => {
                assert(next@ == before.queue[0]);
                self.running = Some(next.block_hash);
                assert(self@.queue =~= before.queue.drop_first());
                Some(next)
            },
            None => {
                self.running = None;
                assert(self@.queue =~= before.queue);
                None
            },
        }
    }

    /// The running import failed: what waits behind it would fail too.
    pub fn failed(&mut self)
        ensures
            final(self).wf(),
            final(self)@ == no_imports(),
    {
        self.running = None;
        self.queue.clear();
        assert(self@.queue =~= Seq::empty());
    }
}

/// A block that waits while the execution layer syncs, and how often it was tried.
#[derive(Debug)]
pub struct SyncingBlock {
    pub data: Vec<u8>,
    pub retries: u32,
}

impl View for SyncingBlock {
    type V = (Seq<u8>, u32);

    open spec fn view(&self) -> (Seq<u8>, u32) {
        (self.data@, self.retries)
    }
}

/// The contents of a list of waiting blocks.
pub open spec fn syncing_state(blocks: Seq<SyncingBlock>) -> Seq<(Seq<u8>, u32)> {
    blocks.map_values(|b: SyncingBlock| b@)
}

/// The waiting blocks after one more came: the oldest leaves where the limit is
/// reached.
pub open spec fn after_queueing(blocks: Seq<(Seq<u8>, u32)>, data: Seq<u8>) -> Seq<
    (Seq<u8>, u32),
> {
    if blocks.len() >= MAX_SYNCING_QUEUE_SIZE {
        blocks.drop_first().push((data, 0u32))
    } else {
        blocks.push((data, 0u32))
    }
}

/// A block that is still syncing is tried again.
pub open spec fn tried_again(block: (Seq<u8>, u32), status: PayloadStatus) -> bool {
    status == PayloadStatus::Syncing && block.1 + 1 < MAX_SYNCING_RETRIES
}

/// Blocks that wait while the execution layer syncs, oldest first.
pub struct SyncingQueue {
    blocks: VecDeque<SyncingBlock>,
}

impl View for SyncingQueue {
    type V = Seq<(Seq<u8>, u32)>;

    closed spec fn view(&self) -> Seq<(Seq<u8>, u32)> {
        syncing_state(self.blocks@)
    }
}

impl SyncingQueue {
    /// The queue is within its limit, and no block was tried too often.
    pub open spec fn wf(self) -> bool {
        self@.len() <= MAX_SYNCING_QUEUE_SIZE && forall|i: int|
            0 <= i < self@.len() ==> (#[trigger] self@[i]).1 < MAX_SYNCING_RETRIES
    }

    /// Nothing waits.
    pub fn new() -> (queue: Self)
        ensures
            queue.wf(),
            queue@ == Seq::<(Seq<u8>, u32)>::empty(),
    {
        let queue = SyncingQueue { blocks: VecDeque::new() };
        assert(queue@ =~= Seq::<(Seq<u8>, u32)>::empty());
        queue
    }

    /// How many blocks wait.
    pub fn len(&self) -> (n: usize)
        ensures
            n == self@.len(),
    {
        self.blocks.len()
    }

    /// Lets a block wait; the oldest leaves where the limit is reached.
    pub fn queue_syncing_block(&mut self, data: Vec<u8>)
        requires
            old(self).wf(),
        ensures
            final(self).wf(),
            final(self)@ == after_queueing(old(self)@, data@),
    {
        let ghost before = self.blocks@;
        if self.blocks.len() >= MAX_SYNCING_QUEUE_SIZE {
            let _ = self.blocks.pop_front();
        }
        self.blocks.push_back(SyncingBlock { data, retries: 0 });
        assert(self@ =~= after_queueing(syncing_state(before), data@));
    }

    /// Takes the waiting blocks out, to try them again in order.
    pub fn take_all(&mut self) -> (blocks: Vec<SyncingBlock>)
        requires
            old(self).wf(),
        ensures
            final(self).wf(),
            final(self)@ == Seq::<(Seq<u8>, u32)>::empty(),
            syncing_state(blocks@) == old(self)@,
    {
        let ghost all = self.blocks@;
        let mut taken: Vec<SyncingBlock> = Vec::new();
        while self.blocks.len() > 0
            invariant
                taken@ + self.blocks@ == all,
            decreases self.blocks@.len(),
        {
            let ghost rest = self.blocks@;
            if let Some(block) = self.blocks.pop_front() {
                let ghost before = taken@;
                taken.push(block);
                assert(before + rest =~= taken@ + self.blocks@);
            }
        }
        assert(taken@ =~= all);
        assert(self@ =~= Seq::<(Seq<u8>, u32)>::empty());
        taken
    }

    /// A block was tried again. While the execution layer still syncs it waits
    /// on, unless it was tried too often; says whether it waits.
    pub fn retried(&mut self, block: SyncingBlock, status: PayloadStatus) -> (waits: bool)
        requires
            old(self).wf(),
            old(self)@.len() < MAX_SYNCING_QUEUE_SIZE,
            block.retries < MAX_SYNCING_RETRIES,
        ensures
            final(self).wf(),
            waits == tried_again(block@, status),
            final(self)@ == if tried_again(block@, status) {
                old(self)@.push((block@.0, (block@.1 + 1) as u32))
            } else {
                old(self)@
            },
    {
        if status != PayloadStatus::Syncing {
            return false;
        }
        let next: u32 = block.retries + 1;
        if next >= MAX_SYNCING_RETRIES {
            return false;
        }
        let ghost before = self.blocks@;
        let ghost data = block@.0;
        self.blocks.push_back(SyncingBlock { data: block.data, retries: next });
        assert(self@ =~= syncing_state(before).push((data, next)));
        true
    }
}

/// Keeps one block number from being imported twice ahead of its commit.
#[derive(Clone, Copy, Debug, PartialEq, Eq, Structural)]
pub struct EagerGuard {
    /// The highest block number that was let through.
    pub highest: u64,
}

impl EagerGuard {
    /// Nothing was let through.
    pub fn new() -> (guard: Self)
        ensures
            guard == (EagerGuard { highest: 0 }),
    {
        EagerGuard { highest: 0 }
    }

    /// Lets a block through whose number is higher than all before.
    pub fn lets_through(&mut self, block_number: u64) -> (passed: bool)
        ensures
            passed == (block_number > old(self).highest),
            *final(self) == (EagerGuard {
                highest: if block_number > old(self).highest {
                    block_number
                } else {
                    old(self).highest
                },
            }),
    {
        let previous: u64 = self.highest;
        self.highest = max_u64(previous, block_number);
        previous < block_number
    }

    /// A view changed: another block of the next number may come.
    pub fn reset(&mut self, committed_block_count: u64)
        ensures
            *final(self) == (EagerGuard { highest: committed_block_count }),
    {
        self.highest = committed_block_count;
    }
}

/// The guard after a list of block numbers went by.
pub open spec fn guard_after(highest: u64, numbers: Seq<u64>) -> u64
    decreases numbers.len(),
{
    if numbers.len() == 0 {
        highest
    } else {
        let before = guard_after(highest, numbers.drop_last());
        if numbers.last() > before {
            numbers.last()
        } else {
            before
        }
    }
}

/// Between two resets no block number is let through twice: once it went by, it
/// is not above the guard.
pub proof fn no_number_twice(highest: u64, numbers: Seq<u64>, i: int)
    requires
        0 <= i < numbers.len(),
    ensures
        numbers[i] <= guard_after(highest, numbers),
        highest <= guard_after(highest, numbers),
    decreases numbers.len(),
{
    let rest = numbers.drop_last();
    if i < rest.len() {
        no_number_twice(highest, rest, i);
    } else if rest.len() > 0 {
        no_number_twice(highest, rest, 0);
    }
}

/// A waiting block that was tried twice before is not tried again after the
/// third time, whatever came of it.
pub proof fn retries_end(block: (Seq<u8>, u32), status: PayloadStatus)
    requires
        block.1 == MAX_SYNCING_RETRIES - 1,
    ensures
        !tried_again(block, status),
{
}

/// Only a payload that is valid or accepted went into the execution layer.
pub proof fn only_good_payloads_are_taken()
    ensures
        took(PayloadStatus::Valid),
        took(PayloadStatus::Accepted),
        !took(PayloadStatus::Syncing),
        !took(PayloadStatus::Invalid),
{
}

/// Background imports run in the order in which they came, one at a time, and
/// none is lost: a new one runs at once or stands last, and when one is done the
/// first that waits runs.
pub proof fn imports_run_in_order(state: BgState, import: BgImportState)
    requires
        state.queue.len() > 0 ==> state.running is Some,
        state.running != Some(import.1),
        forall|i: int| 0 <= i < state.queue.len() ==> (#[trigger] state.queue[i]).1 != import.1,
    ensures
        ({
            let after = with_import(state, import);
            &&& state.running is None ==> after.running == Some(import.1) && after.queue.len() == 0
            &&& state.running is Some ==> after.running == state.running && after.queue.len()
                == state.queue.len() + 1 && after.queue.last() == import && after.queue.drop_last()
                == state.queue
        }),
        state.queue.len() > 0 ==> after_import_done(state).running == Some(state.queue[0].1)
            && after_import_done(state).queue == state.queue.drop_first(),
        state.queue.len() == 0 ==> after_import_done(state).running is None && after_import_done(
            state,
        ).queue.len() == 0,
        no_imports().running is None,
        no_imports().queue.len() == 0,
{
    let after = with_import(state, import);
    if state.running is Some {
        assert(after.queue.drop_last() =~= state.queue);
    } else {
        assert(after.queue =~= state.queue);
    }
}

/// At most eight blocks wait for a sync; a new one is the last, untried, and the
/// oldest leaves where there are eight.
pub proof fn waiting_blocks_are_the_newest_eight(
    blocks: Seq<(Seq<u8>, u32)>,
    data: Seq<u8>,
)
    requires
        blocks.len() <= 8,
    ensures
        ({
            let after = after_queueing(blocks, data);
            &&& after.len() <= 8
            &&& after.last() == (data, 0u32)
            &&& blocks.len() < 8 ==> after.drop_last() == blocks
            &&& blocks.len() == 8 ==> after.drop_last() == blocks.drop_first()
        }),
{
    let after = after_queueing(blocks, data);
    if blocks.len() < 8 {
        assert(after.drop_last() =~= blocks);
    } else {
        assert(after.drop_last() =~= blocks.drop_first());
    }
}

/// A block waits on only while the execution layer syncs, and is tried three
/// times in all.
pub proof fn waiting_blocks_have_three_tries(block: (Seq<u8>, u32), status: PayloadStatus)
    ensures
        tried_again(block, status) <==> status == PayloadStatus::Syncing && block.1 < 2,
{
}

} // verus!
