//! The event loop: one event at a time, what the node knows then and what it
//! does next.
use super::consensus_loop::{
    awaits_finalization, build_arranged, builds_at_once, eager_imported, import_succeeded,
    next_import, output_fits, output_handled, own_block_cached, planned_request, sync_planned,
    EngineOutput, ImportDone, OutputAction,
};
use super::broadcast::announced_block;
use super::cache::own_blocks_get_in;
use super::chain::late_payloads_fill_gaps;
use super::forward::{flushed, peer_of, peers_are_found, txs_state, Flush, TX_FORWARD_BATCH_TARGET};
use super::imports::no_imports;
use super::network::{event_handled, NetworkAction, NetworkEvent};
use super::pipeline::{after_recording, PipelineTiming};
use super::schedule::{after_retry, after_timer, timer_action, Clock, TimerAction};
use super::{ConsensusOrchestrator, OrchState, PendingFinalization};
use crate::primitives::B256;
use vstd::prelude::*;

verus! {

/// What the loop waits for.
#[derive(Debug)]
pub enum LoopEvent {
    /// The pacemaker timed out.
    Timeout,
    /// Consensus put something out.
    Output { output: EngineOutput },
    /// Consensus will put out nothing more.
    OutputsClosed,
    /// Something came in from the network.
    Network { event: NetworkEvent },
    /// Nothing more will come in from the network.
    NetworkClosed,
    /// No consensus messages will come in any more.
    ConsensusMessagesClosed,
    /// A payload of this leader's own is built.
    BlockReady { hash: B256 },
    /// A background import ended.
    ImportDone { hash: B256, view: u64, success: bool, timestamp: u64 },
    /// A block was imported ahead of its commit.
    EagerImportDone { hash: B256, timestamp: u64 },
    /// This leader's own block came back from its broadcast.
    LeaderPayload { hash: B256, data: Vec<u8> },
    /// A build task ended.
    BuildComplete,
    /// The build timer fired.
    BuildTimer,
    /// Transactions came out of this node's pool.
    Transactions { txs: Vec<Vec<u8>> },
    /// A partial batch of transactions has waited long enough.
    FlushTimer,
}

/// What the loop does next.
#[allow(inconsistent_fields)]
#[derive(Debug)]
pub enum LoopAction {
    /// Wait for the next event.
    Wait,
    Output { action: OutputAction },
    Network { action: NetworkAction },
    /// Tell consensus that the block is ready.
    BlockReady { hash: B256 },
    Imported { done: ImportDone },
    /// Finalize the block that waited for its data.
    Finalize { waiting: PendingFinalization },
    Timer { action: TimerAction },
    Flush { flush: Flush },
    /// Save the state and end.
    Stop,
}

/// What the other parts of the node say at the time of an event.
#[derive(Debug)]
pub struct LoopContext {
    pub is_leader: bool,
    pub current_view: u64,
    pub leader_index: u32,
    /// The validators whose peers are connected.
    pub validator_peers: Vec<(u32, u64)>,
    pub forwarding_disabled: bool,
    pub has_blob_store: bool,
    pub clock: Clock,
}

/// Numbers that the handling of an event adds to stay in range, and a verdict
/// is given for each answered block.
pub open spec fn event_fits(s: OrchState, event: LoopEvent, clock: Clock) -> bool {
    &&& s.schedule.clocks_fit(clock)
    &&& match event {
        LoopEvent::Output { output } => output_fits(s, output),
        LoopEvent::Network { event } => event matches NetworkEvent::SyncResponse {
            response,
            qc_valid,
        } ==> qc_valid@.len() == response.blocks@.len(),
        LoopEvent::ImportDone { view, .. } => view < u64::MAX,
        _ => true,
    }
}

/// A background import ended: what the node knows and does then.
pub open spec fn import_handled(
    s: OrchState,
    hash: B256,
    view: u64,
    success: bool,
    timestamp: u64,
    context: LoopContext,
    after: OrchState,
    done: ImportDone,
) -> bool {
    let clock = context.clock;
    let last = s.bg.queue.len() == 0;
    &&& done.mobile_packet == success
    &&& done.sync == if success {
        None
    } else {
        planned_request(s, view, context.current_view, clock.instant_ms)
    }
    &&& match done.next {
        Some(next) => success && !last && next@ == s.bg.queue[0],
        None => !success || last,
    }
    &&& done.build_now == (success && last && context.is_leader && builds_at_once(s))
    &&& after == if success {
        let advanced = next_import(import_succeeded(s, hash, timestamp, clock.instant_ms));
        if last && context.is_leader {
            build_arranged(advanced, clock)
        } else {
            advanced
        }
    } else {
        sync_planned(
            OrchState { bg: no_imports(), ..s },
            clock.instant_ms,
        )
    }
}

/// A payload of this leader's own is built: what the node knows then, apart
/// from the stages that it tracks.
pub open spec fn block_ready(s: OrchState, timings: Map<B256, PipelineTiming>) -> OrchState {
    OrchState { building_on_parent: None, build_triggered_at: None, timings, ..s }
}

/// The stages of a block of this leader's own that is just built.
pub open spec fn built_timing(s: OrchState, instant_ms: u64) -> PipelineTiming {
    PipelineTiming {
        created: match s.build_triggered_at {
            Some(at) => at,
            None => instant_ms,
        },
        is_leader: true,
        build_complete: Some(instant_ms),
        import_complete: None,
        committed: None,
    }
}

/// The buffered transactions were flushed.
pub open spec fn buffer_flushed(
    s: OrchState,
    buffer: Seq<Seq<u8>>,
    context: LoopContext,
    after: OrchState,
    flush: Flush,
) -> bool {
    after == (OrchState { forward: after.forward, ..s }) && flushed(
        buffer,
        context.forwarding_disabled,
        context.is_leader,
        peer_of(context.validator_peers@, context.leader_index),
        after.forward,
        flush,
    )
}

/// The action and the knowledge that an event leads to fit together.
pub open spec fn step_taken(
    s: OrchState,
    event: LoopEvent,
    context: LoopContext,
    after: OrchState,
    action: LoopAction,
) -> bool {
    let clock = context.clock;
    match event {
        LoopEvent::Timeout => action is Wait && after == if s.schedule.next_build_at is None
            && s.speculative_build_hash is None {
            OrchState {
                schedule: after_retry(s.schedule, context.is_leader, clock.instant_ms),
                ..s
            }
        } else {
            s
        },
        LoopEvent::Output { output } => action matches LoopAction::Output { action } && (
            after,
            action,
        ) == output_handled(s, output, context.validator_peers@, context.is_leader, clock),
        LoopEvent::Network { event } => action matches LoopAction::Network { action }
            && event_handled(s, event, context.has_blob_store, clock.instant_ms, after, action),
        LoopEvent::OutputsClosed => action is Stop && after == s,
        LoopEvent::NetworkClosed => action is Stop && after == s,
        LoopEvent::ConsensusMessagesClosed => action is Wait && after == s,
        LoopEvent::BlockReady { hash } => {
            &&& action == (LoopAction::BlockReady { hash })
            &&& after_recording(
                s.timings,
                hash,
                built_timing(s, clock.instant_ms),
                after.timings,
            )
            &&& after == block_ready(s, after.timings)
        },
        LoopEvent::ImportDone { hash, view, success, timestamp } =>
            action matches LoopAction::Imported { done } && import_handled(
            s,
            hash,
            view,
            success,
            timestamp,
            context,
            after,
            done,
        ),
        LoopEvent::EagerImportDone { hash, timestamp } => action is Wait && after
            == eager_imported(s, hash, timestamp, clock.instant_ms),
        LoopEvent::LeaderPayload { hash, data } => {
            let cached = own_block_cached(s, hash, data@);
            if awaits_finalization(s, hash) {
                &&& action matches LoopAction::Finalize { waiting }
                &&& s.pending_finalization == Some(waiting@)
                &&& after == (OrchState { pending_finalization: None, ..cached })
            } else {
                action is Wait && after == cached
            }
        },
        LoopEvent::BuildComplete => action is Wait && after == if s.building_on_parent is Some {
            OrchState { building_on_parent: None, build_triggered_at: None, ..s }
        } else {
            s
        },
        LoopEvent::BuildTimer => action == (LoopAction::Timer {
            action: timer_action(
                s.schedule,
                context.is_leader,
                context.current_view,
                s.speculative_build_hash is Some,
            ),
        }) && after == (OrchState { schedule: after_timer(s.schedule), ..s }),
        LoopEvent::Transactions { txs } => {
            let buffer = s.forward + txs_state(txs@);
            if buffer.len() >= TX_FORWARD_BATCH_TARGET {
                action matches LoopAction::Flush { flush } && buffer_flushed(
                    s,
                    buffer,
                    context,
                    after,
                    flush,
                )
            } else {
                action is Wait && after == (OrchState { forward: buffer, ..s })
            }
        },
        LoopEvent::FlushTimer => action matches LoopAction::Flush { flush } && buffer_flushed(
            s,
            s.forward,
            context,
            after,
            flush,
        ),
    }
}

impl ConsensusOrchestrator {
    /// Handles one event. The loop ends when consensus or the network is gone;
    /// a node without a channel for consensus messages goes on.
    pub fn on_event(&mut self, event: LoopEvent, context: &LoopContext) -> (action: LoopAction)
        requires
            old(self).wf(),
            event_fits(old(self)@, event, context.clock),
        ensures
            final(self).wf(),
            step_taken(old(self)@, event, *context, final(self)@, action),
    {
        let clock: Clock = context.clock;
        match event {
            LoopEvent::Timeout => {
                self.on_timeout(context.is_leader, clock.instant_ms);
                LoopAction::Wait
            },
            LoopEvent::Output { output } => {
                let action = self.handle_engine_output(
                    output,
                    &context.validator_peers,
                    context.is_leader,
                    clock,
                );
                LoopAction::Output { action }
            },
            LoopEvent::Network { event } => {
                let action = self.handle_network_event(
                    event,
                    context.has_blob_store,
                    clock.instant_ms,
                );
                LoopAction::Network { action }
            },
            LoopEvent::OutputsClosed => LoopAction::Stop,
            LoopEvent::NetworkClosed => LoopAction::Stop,
            LoopEvent::ConsensusMessagesClosed => LoopAction::Wait,
            LoopEvent::BlockReady { hash } => {
                self.on_block_ready(hash, clock.instant_ms);
                LoopAction::BlockReady { hash }
            },
            LoopEvent::ImportDone { hash, view, success, timestamp } => {
                let done = self.handle_import_done(
                    hash,
                    view,
                    success,
                    timestamp,
                    context.is_leader,
                    context.current_view,
                    clock,
                );
                LoopAction::Imported { done }
            },
            LoopEvent::EagerImportDone { hash, timestamp } => {
                self.handle_eager_import_done(&hash, timestamp, clock.instant_ms);
                LoopAction::Wait
            },
            LoopEvent::LeaderPayload { hash, data } => {
                match self.handle_leader_payload_feedback(hash, data) {
                    Some(waiting) => LoopAction::Finalize { waiting },
                    None => LoopAction::Wait,
                }
            },
            LoopEvent::BuildComplete => {
                self.on_build_complete();
                LoopAction::Wait
            },
            LoopEvent::BuildTimer => {
                let action = self.on_build_timer(context.is_leader, context.current_view);
                LoopAction::Timer { action }
            },
            LoopEvent::Transactions { txs } => {
                self.forward.push_all(txs);
                if self.forward.is_full_batch() {
                    let flush = self.flush_tx_forward_buffer(context);
                    LoopAction::Flush { flush }
                } else {
                    LoopAction::Wait
                }
            },
            LoopEvent::FlushTimer => {
                let flush = self.flush_tx_forward_buffer(context);
                LoopAction::Flush { flush }
            },
        }
    }

    fn flush_tx_forward_buffer(&mut self, context: &LoopContext) -> (flush: Flush)
        requires
            old(self).wf(),
        ensures
            final(self).wf(),
            buffer_flushed(old(self)@, old(self)@.forward, *context, final(self)@, flush),
    {
        self.forward.flush_tx_forward_buffer(
            context.forwarding_disabled,
            context.is_leader,
            context.leader_index,
            &context.validator_peers,
        )
    }
}

/// The loop ends only when consensus or the network is gone.
pub proof fn only_closing_stops_the_loop(
    s: OrchState,
    event: LoopEvent,
    context: LoopContext,
    after: OrchState,
    action: LoopAction,
)
    requires
        step_taken(s, event, context, after, action),
    ensures
        action is Stop <==> (event is OutputsClosed || event is NetworkClosed),
{
}

/// No event but a commit moves the number of committed blocks, and only by one.
pub proof fn only_commits_are_counted(
    s: OrchState,
    event: LoopEvent,
    context: LoopContext,
    after: OrchState,
    action: LoopAction,
)
    requires
        step_taken(s, event, context, after, action),
        event_fits(s, event, context.clock),
    ensures
        after.committed_block_count == s.committed_block_count + if event matches LoopEvent::Output {
            output,
        } && output is BlockCommitted {
            1int
        } else {
            0int
        },
{
}

/// Of the loop's events only a commit and a background import that succeeded
/// move the head, each to its own block.
pub proof fn the_head_moves_by_commits_and_imports(
    s: OrchState,
    event: LoopEvent,
    context: LoopContext,
    after: OrchState,
    action: LoopAction,
)
    requires
        step_taken(s, event, context, after, action),
        after.head != s.head,
    ensures
        (event matches LoopEvent::Output { output } && output
            matches EngineOutput::BlockCommitted { block_hash, .. } && after.head == block_hash) || (
        event matches LoopEvent::ImportDone { hash, success, .. } && success && after.head == hash),
{
}

/// A background import that succeeded makes its block the head, with its
/// timestamp; the next one that waits starts, and with none left the leader
/// arranges a build. After a failure nothing waits any more, the head stays, and
/// what is missing is asked for.
pub proof fn import_results_are_acted_on(
    s: OrchState,
    hash: B256,
    view: u64,
    success: bool,
    timestamp: u64,
    context: LoopContext,
    after: OrchState,
    done: ImportDone,
)
    requires
        view < u64::MAX,
        s.bg.queue.len() > 0 ==> s.bg.running is Some,
        s.schedule.clocks_fit(context.clock),
        import_handled(s, hash, view, success, timestamp, context, after, done),
    ensures
        done.mobile_packet == success,
        success ==> after.head == hash && done.sync is None,
        success ==> after.last_committed_timestamp >= timestamp && after.last_committed_timestamp
            >= s.last_committed_timestamp,
        success && s.bg.queue.len() > 0 ==> (done.next matches Some(next) && next@
            == s.bg.queue[0] && after.bg.running == Some(next.block_hash) && after.bg.queue
            == s.bg.queue.drop_first()) && !done.build_now && after.schedule == s.schedule,
        success && s.bg.queue.len() == 0 ==> done.next is None && after.bg.running is None,
        done.build_now ==> success && context.is_leader && s.bg.queue.len() == 0,
        success && s.bg.queue.len() == 0 && context.is_leader && (s.schedule.slot_time_ms == 0
            || s.schedule.fast_propose) && s.schedule.min_propose_delay_ms == 0
            && s.schedule.consecutive_empty_skips >= s.schedule.max_empty_skips ==> done.build_now,
        !context.is_leader ==> after.schedule == s.schedule,
        !success ==> after.head == s.head && done.next is None && !done.build_now
            && after.bg.running is None && after.bg.queue.len() == 0 && after.schedule
            == s.schedule && after.last_committed_timestamp == s.last_committed_timestamp,
        !success ==> (done.sync matches Some((peer, request)) ==> s.peers.contains(peer)
            && request.from_view == view + 1 && request.to_view == context.current_view),
        !success && s.peers.len() > 0 && !s.sync.in_flight ==> done.sync is Some,
        after.chain == s.chain && after.pending == s.pending && after.committed_block_count
            == s.committed_block_count && after.pending_finalization == s.pending_finalization,
{
    if s.peers.len() > 0 {
        vstd::arithmetic::div_mod::lemma_mod_bound(view as int, s.peers.len() as int);
        assert(s.peers.contains(s.peers[view as int % s.peers.len() as int]));
    }
    if success && s.bg.queue.len() > 0 {
        let first = s.bg.queue[0];
        assert(done.next->0@ == first);
    }
}

/// The leader's own block, back from its broadcast, is cached; where it was
/// committed before, the kept block gets its payload, and where its finalization
/// waited for it, that goes on.
pub proof fn own_blocks_are_cached_and_resumed(
    s: OrchState,
    hash: B256,
    data: Vec<u8>,
    context: LoopContext,
    after: OrchState,
    action: LoopAction,
)
    requires
        s.pending.data.dom().finite(),
        s.pending.data.len() <= 16,
        step_taken(s, LoopEvent::LeaderPayload { hash, data }, context, after, action),
    ensures
        after.pending.data.contains_key(hash),
        !s.pending.data.contains_key(hash) ==> after.pending.data[hash] == data@,
        action matches LoopAction::Finalize { waiting } ==> waiting.block_hash == hash
            && s.pending_finalization == Some(waiting@) && after.pending_finalization is None,
        (s.pending_finalization matches Some(p) && p.1 == hash) <==> action is Finalize,
        !(action is Finalize) ==> action is Wait && after.pending_finalization
            == s.pending_finalization,
        announced_block(data@) matches Some(block) ==> {
            &&& after.last_committed_timestamp >= block.3
            &&& after.last_committed_timestamp >= s.last_committed_timestamp
            &&& after.chain.len() == s.chain.len()
            &&& s.chain.len() > 0 && s.chain.last().block_hash == hash
                && s.chain.last().payload.len() == 0 ==> after.chain.last().payload == block.2
            &&& forall|i: int|
                0 <= i < s.chain.len() && ((#[trigger] s.chain[i]).payload.len() > 0
                    || s.chain[i].block_hash != hash) ==> after.chain[i] == s.chain[i]
        },
        after.head == s.head && after.bg == s.bg && after.schedule == s.schedule,
{
    own_blocks_get_in(s.pending.data, hash, data@, hash);
    if let Some(block) = announced_block(data@) {
        assert forall|i: int|
            0 <= i < s.chain.len() && ((#[trigger] s.chain[i]).payload.len() > 0
                || s.chain[i].block_hash != hash) implies after.chain[i] == s.chain[i] by {
            late_payloads_fill_gaps(s.chain, hash, block.2, i);
        }
        if s.chain.len() > 0 {
            late_payloads_fill_gaps(s.chain, hash, block.2, s.chain.len() - 1);
        }
    }
}

/// When the pacemaker times out, a leader without a build under way or arranged
/// tries one in two seconds; nobody else does anything.
pub proof fn timeouts_retry_the_leader(
    s: OrchState,
    context: LoopContext,
    after: OrchState,
    action: LoopAction,
)
    requires
        context.clock.instant_ms + 2_000 <= u64::MAX,
        step_taken(s, LoopEvent::Timeout, context, after, action),
    ensures
        action is Wait,
        context.is_leader && s.schedule.next_build_at is None && s.speculative_build_hash is None
            ==> after.schedule.next_build_at == Some((context.clock.instant_ms + 2_000) as u64),
        !context.is_leader || s.schedule.next_build_at is Some || s.speculative_build_hash is Some
            ==> after == s,
        (OrchState { schedule: s.schedule, ..after }) == s,
{
}

/// A built payload is told to consensus under its hash, and its parent is free
/// for other builds; so it is when a build ends in any way.
pub proof fn ended_builds_free_their_parent(
    s: OrchState,
    hash: B256,
    context: LoopContext,
    after: OrchState,
    action: LoopAction,
)
    requires
        s.timings.dom().finite(),
    ensures
        step_taken(s, LoopEvent::BlockReady { hash }, context, after, action) ==> {
            &&& action == (LoopAction::BlockReady { hash })
            &&& after.building_on_parent is None
            &&& after.build_triggered_at is None
            &&& after.timings.contains_key(hash)
            &&& after.timings[hash].is_leader
            &&& after.timings[hash].build_complete == Some(context.clock.instant_ms)
            &&& s.build_triggered_at matches Some(at) ==> after.timings[hash].created == at
            &&& after.head == s.head && after.chain == s.chain && after.schedule == s.schedule
        },
        step_taken(s, LoopEvent::BuildComplete, context, after, action) ==> {
            &&& action is Wait
            &&& after.building_on_parent is None
            &&& (OrchState {
                building_on_parent: s.building_on_parent,
                build_triggered_at: s.build_triggered_at,
                ..after
            }) == s
        },
{
}

/// A block that was imported ahead of its commit is stamped, and a later build
/// has a later timestamp; the head and all else stay.
pub proof fn eager_imports_are_noted(
    s: OrchState,
    hash: B256,
    timestamp: u64,
    context: LoopContext,
    after: OrchState,
    action: LoopAction,
)
    requires
        step_taken(s, LoopEvent::EagerImportDone { hash, timestamp }, context, after, action),
    ensures
        action is Wait,
        after.last_committed_timestamp >= timestamp,
        after.last_committed_timestamp >= s.last_committed_timestamp,
        after.last_committed_timestamp == timestamp || after.last_committed_timestamp
            == s.last_committed_timestamp,
        s.timings.contains_key(hash) ==> after.timings[hash].import_complete == Some(
            context.clock.instant_ms,
        ),
        (OrchState {
            last_committed_timestamp: s.last_committed_timestamp,
            timings: s.timings,
            ..after
        }) == s,
{
}

/// Transactions of this node's pool gather in order until there are 512, and are
/// then handed on, all of them; a follower's go to the leader's peer.
pub proof fn transactions_are_handed_on(
    s: OrchState,
    txs: Vec<Vec<u8>>,
    context: LoopContext,
    after: OrchState,
    action: LoopAction,
)
    requires
        step_taken(s, LoopEvent::Transactions { txs }, context, after, action),
    ensures
        ({
            let all = s.forward + txs_state(txs@);
            &&& all.len() < 512 ==> action is Wait && after.forward == all
            &&& all.len() >= 512 ==> (action matches LoopAction::Flush { flush } && match flush {
                Flush::Local { txs: out } => txs_state(out@) == all && after.forward.len() == 0
                    && (context.is_leader || context.forwarding_disabled),
                Flush::Forward { peer, txs: out } => txs_state(out@) == all
                    && after.forward.len() == 0 && !context.is_leader && exists|i: int|
                    0 <= i < context.validator_peers@.len()
                        && #[trigger] context.validator_peers@[i] == (context.leader_index, peer),
                Flush::Keep => !context.is_leader && !context.forwarding_disabled && forall|
                    i: int,
                |
                    0 <= i < context.validator_peers@.len() ==> (
                    #[trigger] context.validator_peers@[i]).0 != context.leader_index,
            })
            &&& (OrchState { forward: s.forward, ..after }) == s
        }),
{
    peers_are_found(context.validator_peers@, context.leader_index);
}

/// The build timer's event leads to what the timer decides, once.
pub proof fn build_timers_lead_to_builds(
    s: OrchState,
    context: LoopContext,
    after: OrchState,
    action: LoopAction,
)
    requires
        step_taken(s, LoopEvent::BuildTimer, context, after, action),
    ensures
        after.schedule.next_build_at is None,
        after.schedule.next_slot_timestamp is None,
        (OrchState { schedule: s.schedule, ..after }) == s,
        action matches LoopAction::Timer { action: timer } && {
            &&& timer is Build <==> s.schedule.next_slot_timestamp is Some || (context.is_leader
                && s.speculative_build_hash is None)
            &&& timer matches TimerAction::Build { slot_timestamp, reset_pacemaker }
                ==> slot_timestamp == s.schedule.next_slot_timestamp && (reset_pacemaker ==> slot_timestamp
                is None && context.current_view <= 1)
        },
{
}

} // verus!
