//! When the leader builds its next payload.
use vstd::arithmetic::div_mod::{lemma_fundamental_div_mod, lemma_mod_multiples_basic};
use vstd::arithmetic::mul::{lemma_mul_is_commutative, lemma_mul_is_distributive_add};
use vstd::prelude::*;

verus! {

/// How many empty proposals in a row may be skipped when nothing is configured.
pub const DEFAULT_MAX_EMPTY_SKIPS: u32 = 3;

/// How long the leader waits before it tries a failed build again.
pub const BUILD_RETRY_MS: u64 = 2_000;

/// How long the builder may pack transactions when nothing is configured.
pub const DEFAULT_BUILDER_WARMUP_MS: u64 = 10;

/// How long a payload build may take.
pub const PAYLOAD_BUILD_TIMEOUT_MS: u64 = 30_000;

/// A moment on the two clocks: one that only moves forward, and the wall clock.
#[derive(Clone, Copy, Debug, PartialEq, Eq, Structural)]
pub struct Clock {
    pub instant_ms: u64,
    pub unix_ms: u64,
}

/// How long the builder may pack transactions.
pub fn builder_warmup_delay(configured: Option<u64>) -> (ms: u64)
    ensures
        ms == match configured {
            Some(ms) => ms,
            None => DEFAULT_BUILDER_WARMUP_MS,
        },
{
    match configured {
        Some(ms) => ms,
        None => DEFAULT_BUILDER_WARMUP_MS,
    }
}

/// How many empty proposals in a row may be skipped.
pub fn max_consecutive_empty_skips(configured: Option<u32>) -> (n: u32)
    ensures
        n == match configured {
            Some(n) => n,
            None => DEFAULT_MAX_EMPTY_SKIPS,
        },
{
    match configured {
        Some(n) => n,
        None => DEFAULT_MAX_EMPTY_SKIPS,
    }
}

/// When the next payload is built, and what that depends on.
#[derive(Clone, Copy, Debug, PartialEq, Eq, Structural)]
pub struct BuildSchedule {
    /// The length of a slot; zero where there are no slots.
    pub slot_time_ms: u64,
    /// Propose without waiting for a slot boundary.
    pub fast_propose: bool,
    /// How long to let transactions gather before a proposal without slots.
    pub min_propose_delay_ms: u64,
    pub max_empty_skips: u32,
    /// When the next build is due.
    pub next_build_at: Option<u64>,
    /// The timestamp of the slot that the next build is for.
    pub next_slot_timestamp: Option<u64>,
    pub consecutive_empty_skips: u32,
}

/// The delay leads to the first slot boundary from `unix_ms` on: the lowest
/// multiple of the slot time that is not in the past. At a boundary there is
/// nothing to wait for.
pub open spec fn leads_to_boundary(unix_ms: u64, slot_ms: u64, delay_ms: u64) -> bool {
    0 <= delay_ms < slot_ms && (unix_ms + delay_ms) % slot_ms as int == 0
}

/// The delay until the next slot boundary.
pub open spec fn boundary_delay(unix_ms: u64, slot_ms: u64) -> u64 {
    if slot_ms == 0 {
        1_000
    } else {
        choose|delay_ms: u64| leads_to_boundary(unix_ms, slot_ms, delay_ms)
    }
}

/// The timestamp, in seconds, of the next slot boundary.
pub open spec fn boundary_timestamp(unix_ms: u64, slot_ms: u64) -> u64 {
    if slot_ms == 0 {
        (unix_ms / 1_000 + 1) as u64
    } else {
        ((unix_ms + boundary_delay(unix_ms, slot_ms)) / 1_000) as u64
    }
}

/// Only one delay leads to the next slot boundary.
pub proof fn boundary_is_unique(unix_ms: u64, slot_ms: u64, a: u64, b: u64)
    requires
        leads_to_boundary(unix_ms, slot_ms, a),
        leads_to_boundary(unix_ms, slot_ms, b),
    ensures
        a == b,
{
    let s = slot_ms as int;
    let x = unix_ms + a;
    let y = unix_ms + b;
    lemma_fundamental_div_mod(x, s);
    lemma_fundamental_div_mod(y, s);
    let p = x / s;
    let q = y / s;
    assert(x == s * p && y == s * q);
    assert(p == q) by (nonlinear_arith)
        requires
            x == s * p,
            y == s * q,
            s > 0,
            x - y < s,
            y - x < s,
    ;
}

/// How far the next slot boundary is: the rest of the slot that has begun, and
/// nothing where none has.
pub proof fn boundary_is_reached(unix_ms: u64, slot_ms: u64)
    requires
        slot_ms > 0,
    ensures
        leads_to_boundary(unix_ms, slot_ms, boundary_delay(unix_ms, slot_ms)),
        boundary_delay(unix_ms, slot_ms) == if unix_ms % slot_ms == 0 {
            0
        } else {
            slot_ms - unix_ms % slot_ms
        },
{
    let s = slot_ms as int;
    let past = unix_ms as int % s;
    let delay_ms = if past == 0 {
        0u64
    } else {
        (s - past) as u64
    };
    let q = unix_ms as int / s;
    lemma_fundamental_div_mod(unix_ms as int, s);
    if past != 0 {
        lemma_mul_is_distributive_add(s, q, 1);
        assert(unix_ms + delay_ms == s * (q + 1));
        lemma_mul_is_commutative(s, q + 1);
        lemma_mod_multiples_basic(q + 1, s);
    }
    assert(leads_to_boundary(unix_ms, slot_ms, delay_ms));
    boundary_is_unique(unix_ms, slot_ms, delay_ms, boundary_delay(unix_ms, slot_ms));
}

/// The slot boundary is the time counted in slots, rounded up to a whole slot.
pub proof fn boundary_rounds_up(unix_ms: u64, slot_ms: u64)
    requires
        slot_ms > 0,
    ensures
        unix_ms + boundary_delay(unix_ms, slot_ms) == (unix_ms + slot_ms - 1) / slot_ms as int
            * slot_ms,
{
    boundary_is_reached(unix_ms, slot_ms);
    let s = slot_ms as int;
    let x = unix_ms as int;
    let b = x + boundary_delay(unix_ms, slot_ms);
    lemma_fundamental_div_mod(b, s);
    let k = b / s;
    assert(k == (x + s - 1) / s) by (nonlinear_arith)
        requires
            s > 0,
            b == s * k,
            x <= b < x + s,
    ;
    lemma_mul_is_commutative(s, k);
}

/// How the schedule looks once an empty proposal was skipped.
pub open spec fn after_skip(before: BuildSchedule, clock: Clock) -> BuildSchedule {
    let skipped = BuildSchedule {
        consecutive_empty_skips: (before.consecutive_empty_skips + 1) as u32,
        ..before
    };
    if before.slot_time_ms == 0 {
        skipped
    } else if before.fast_propose {
        BuildSchedule {
            next_build_at: Some((clock.instant_ms + before.slot_time_ms) as u64),
            next_slot_timestamp: None,
            ..skipped
        }
    } else {
        at_next_slot(skipped, clock)
    }
}

/// A schedule whose next build is at the next slot boundary.
pub open spec fn at_next_slot(before: BuildSchedule, clock: Clock) -> BuildSchedule {
    BuildSchedule {
        next_build_at: Some(
            (clock.instant_ms + boundary_delay(clock.unix_ms, before.slot_time_ms)) as u64,
        ),
        next_slot_timestamp: Some(boundary_timestamp(clock.unix_ms, before.slot_time_ms)),
        ..before
    }
}

/// The leader may skip a proposal: there was no activity and the skips are not
/// used up.
pub open spec fn may_skip(schedule: BuildSchedule, recent_blocks_empty: bool) -> bool {
    recent_blocks_empty && schedule.consecutive_empty_skips < schedule.max_empty_skips
}

/// The leader proposes at once: there is nothing to wait for.
pub open spec fn proposes_at_once(schedule: BuildSchedule) -> bool {
    (schedule.slot_time_ms == 0 || schedule.fast_propose) && schedule.min_propose_delay_ms == 0
}

/// The schedule after the next build was arranged.
pub open spec fn after_scheduling(
    before: BuildSchedule,
    recent_blocks_empty: bool,
    clock: Clock,
) -> BuildSchedule {
    let fresh = BuildSchedule { consecutive_empty_skips: 0, ..before };
    if may_skip(before, recent_blocks_empty) {
        after_skip(before, clock)
    } else if proposes_at_once(before) {
        fresh
    } else if before.slot_time_ms == 0 || before.fast_propose {
        BuildSchedule {
            next_build_at: Some((clock.instant_ms + before.min_propose_delay_ms) as u64),
            next_slot_timestamp: None,
            ..fresh
        }
    } else {
        at_next_slot(fresh, clock)
    }
}

/// The schedule after a retry was arranged: a leader tries again in two seconds.
pub open spec fn after_retry(before: BuildSchedule, is_leader: bool, instant_ms: u64) -> BuildSchedule {
    if is_leader {
        BuildSchedule {
            next_build_at: Some((instant_ms + BUILD_RETRY_MS) as u64),
            next_slot_timestamp: None,
            ..before
        }
    } else {
        before
    }
}

/// What the first leader does at start.
#[derive(Clone, Copy, Debug, PartialEq, Eq, Structural)]
pub enum Startup {
    /// Nothing: this node is not the leader or has no execution layer.
    Idle,
    /// Wait for the network to form: the pacemaker's deadline moves by the delay.
    Wait { delay_ms: u64 },
    /// Arrange the first build.
    Schedule,
}

/// What happens when the build timer fires.
#[derive(Clone, Copy, Debug, PartialEq, Eq, Structural)]
pub enum TimerAction {
    /// Nothing: this node leads no longer, or a build runs already.
    Skip,
    /// Build; after the delay at start the pacemaker is reset for the view.
    Build { slot_timestamp: Option<u64>, reset_pacemaker: bool },
}

/// What the first leader does at start.
pub open spec fn startup_of(is_leader: bool, has_execution_layer: bool, delay_ms: u64) -> Startup {
    if !is_leader || !has_execution_layer {
        Startup::Idle
    } else if delay_ms > 0 {
        Startup::Wait { delay_ms }
    } else {
        Startup::Schedule
    }
}

/// The schedule at start: the first build waits for the delay.
pub open spec fn after_startup(
    before: BuildSchedule,
    startup: Startup,
    instant_ms: u64,
) -> BuildSchedule {
    match startup {
        Startup::Wait { delay_ms } => BuildSchedule {
            next_build_at: Some((instant_ms + delay_ms) as u64),
            ..before
        },
        _ => before,
    }
}

/// The schedule when the build timer fired: nothing is due.
pub open spec fn after_timer(before: BuildSchedule) -> BuildSchedule {
    BuildSchedule { next_build_at: None, next_slot_timestamp: None, ..before }
}

/// What happens when the build timer fires.
pub open spec fn timer_action(
    before: BuildSchedule,
    is_leader: bool,
    view: u64,
    speculating: bool,
) -> TimerAction {
    match before.next_slot_timestamp {
        Some(ts) => TimerAction::Build { slot_timestamp: Some(ts), reset_pacemaker: false },
        None => if is_leader && !speculating {
            TimerAction::Build { slot_timestamp: None, reset_pacemaker: view <= 1 }
        } else {
            TimerAction::Skip
        },
    }
}

/// How long the first leader waits for the network to form.
pub open spec fn startup_delay(configured: Option<u64>, validators: u32) -> u64 {
    match configured {
        Some(ms) => ms,
        None => if validators <= 1 {
            0
        } else {
            (5_000 + validators * 500) as u64
        },
    }
}

/// How long the first leader waits for the network to form.
pub fn startup_delay_ms(configured: Option<u64>, validators: u32) -> (ms: u64)
    ensures
        ms == startup_delay(configured, validators),
{
    match configured {
        Some(ms) => ms,
        None => if validators <= 1 {
            0
        } else {
            5_000 + validators as u64 * 500
        },
    }
}

impl BuildSchedule {
    /// A schedule with nothing arranged.
    pub fn new(
        slot_time_ms: u64,
        fast_propose: bool,
        min_propose_delay_ms: u64,
        max_empty_skips: u32,
    ) -> (schedule: Self)
        ensures
            schedule == (BuildSchedule {
                slot_time_ms,
                fast_propose,
                min_propose_delay_ms,
                max_empty_skips,
                next_build_at: None,
                next_slot_timestamp: None,
                consecutive_empty_skips: 0,
            }),
    {
        BuildSchedule {
            slot_time_ms,
            fast_propose,
            min_propose_delay_ms,
            max_empty_skips,
            next_build_at: None,
            next_slot_timestamp: None,
            consecutive_empty_skips: 0,
        }
    }

    /// Both clocks leave room for every delay of the schedule.
    pub open spec fn clocks_fit(self, clock: Clock) -> bool {
        &&& clock.unix_ms + self.slot_time_ms <= u64::MAX
        &&& clock.instant_ms + self.slot_time_ms <= u64::MAX
        &&& clock.instant_ms + self.min_propose_delay_ms <= u64::MAX
        &&& clock.instant_ms + BUILD_RETRY_MS <= u64::MAX
    }

    /// The timestamp in seconds of the next slot boundary and the delay until
    /// then. Without slots the delay is a second.
    pub fn next_slot_boundary(&self, unix_ms: u64) -> (boundary: (u64, u64))
        requires
            unix_ms + self.slot_time_ms <= u64::MAX,
        ensures
            boundary == (
                boundary_timestamp(unix_ms, self.slot_time_ms),
                boundary_delay(unix_ms, self.slot_time_ms),
            ),
            self.slot_time_ms > 0 ==> leads_to_boundary(unix_ms, self.slot_time_ms, boundary.1),
            self.slot_time_ms > 0 ==> boundary.0 == (unix_ms + boundary.1) / 1_000,
    {
        let slot_ms: u64 = self.slot_time_ms;
        if slot_ms == 0 {
            return (unix_ms / 1_000 + 1, 1_000);
        }
        let past: u64 = unix_ms % slot_ms;
        let delay_ms: u64 = if past == 0 {
            0
        } else {
            slot_ms - past
        };
        proof {
            boundary_is_reached(unix_ms, slot_ms);
        }
        ((unix_ms + delay_ms) / 1_000, delay_ms)
    }

    /// Arranges the next build: skipped where there was no activity, at the next
    /// slot boundary, after a delay, or at once. Says whether to build at once.
    pub fn schedule_payload_build(&mut self, recent_blocks_empty: bool, clock: Clock) -> (at_once:
        bool)
        requires
            old(self).clocks_fit(clock),
        ensures
            *final(self) == after_scheduling(*old(self), recent_blocks_empty, clock),
            at_once == (!may_skip(*old(self), recent_blocks_empty) && proposes_at_once(*old(self))),
    {
        if recent_blocks_empty && self.consecutive_empty_skips < self.max_empty_skips {
            self.consecutive_empty_skips = self.consecutive_empty_skips + 1;
            if self.slot_time_ms != 0 {
                if self.fast_propose {
                    self.next_build_at = Some(clock.instant_ms + self.slot_time_ms);
                    self.next_slot_timestamp = None;
                } else {
                    let (slot_timestamp, delay_ms) = self.next_slot_boundary(clock.unix_ms);
                    self.next_build_at = Some(clock.instant_ms + delay_ms);
                    self.next_slot_timestamp = Some(slot_timestamp);
                }
            }
            return false;
        }
        self.consecutive_empty_skips = 0;
        if self.slot_time_ms == 0 || self.fast_propose {
            if self.min_propose_delay_ms > 0 {
                self.next_build_at = Some(clock.instant_ms + self.min_propose_delay_ms);
                self.next_slot_timestamp = None;
                return false;
            }
            return true;
        }
        let (slot_timestamp, delay_ms) = self.next_slot_boundary(clock.unix_ms);
        self.next_build_at = Some(clock.instant_ms + delay_ms);
        self.next_slot_timestamp = Some(slot_timestamp);
        false
    }

    /// Arranges another attempt in two seconds, where this node leads.
    pub fn schedule_build_retry(&mut self, is_leader: bool, instant_ms: u64)
        requires
            instant_ms + BUILD_RETRY_MS <= u64::MAX,
        ensures
            *final(self) == after_retry(*old(self), is_leader, instant_ms),
    {
        if !is_leader {
            return;
        }
        self.next_build_at = Some(instant_ms + BUILD_RETRY_MS);
        self.next_slot_timestamp = None;
    }

    /// What the first leader does at start: it waits for the network to form,
    /// where there is a delay, before it builds.
    pub fn initialize_startup_schedule(
        &mut self,
        is_leader: bool,
        has_execution_layer: bool,
        configured_delay_ms: Option<u64>,
        validators: u32,
        instant_ms: u64,
    ) -> (startup: Startup)
        requires
            instant_ms + startup_delay(configured_delay_ms, validators) <= u64::MAX,
        ensures
            startup == startup_of(
                is_leader,
                has_execution_layer,
                startup_delay(configured_delay_ms, validators),
            ),
            *final(self) == after_startup(*old(self), startup, instant_ms),
    {
        if !is_leader || !has_execution_layer {
            return Startup::Idle;
        }
        let delay_ms: u64 = startup_delay_ms(configured_delay_ms, validators);
        if delay_ms > 0 {
            self.next_build_at = Some(instant_ms + delay_ms);
            Startup::Wait { delay_ms }
        } else {
            Startup::Schedule
        }
    }

    /// The build timer fired. A build for a slot goes ahead; a retry or the
    /// first build only where this node leads and no build runs.
    pub fn on_build_timer(&mut self, is_leader: bool, view: u64, speculating: bool) -> (action:
        TimerAction)
        ensures
            *final(self) == after_timer(*old(self)),
            action == timer_action(*old(self), is_leader, view, speculating),
    {
        let slot_timestamp: Option<u64> = self.next_slot_timestamp;
        self.next_slot_timestamp = None;
        self.next_build_at = None;
        if slot_timestamp.is_none() {
            if !is_leader || speculating {
                return TimerAction::Skip;
            }
            return TimerAction::Build { slot_timestamp, reset_pacemaker: view <= 1 };
        }
        TimerAction::Build { slot_timestamp, reset_pacemaker: false }
    }
}

/// A leader never skips more proposals in a row than the limit: where the skips
/// are used up, the next arrangement is for a build.
pub proof fn skips_are_bounded(before: BuildSchedule, recent_blocks_empty: bool, clock: Clock)
    requires
        before.consecutive_empty_skips <= before.max_empty_skips,
    ensures
        after_scheduling(before, recent_blocks_empty, clock).consecutive_empty_skips
            <= before.max_empty_skips,
        before.consecutive_empty_skips == before.max_empty_skips ==> !may_skip(
            before,
            recent_blocks_empty,
        ) && after_scheduling(before, recent_blocks_empty, clock).consecutive_empty_skips == 0,
{
}

/// A leader with slots or a delay always has a next build arranged, skip or not,
/// and never in the past.
pub proof fn build_is_always_due(before: BuildSchedule, recent_blocks_empty: bool, clock: Clock)
    requires
        before.clocks_fit(clock),
        before.slot_time_ms > 0,
        !proposes_at_once(before),
    ensures
        after_scheduling(before, recent_blocks_empty, clock).next_build_at matches Some(at) && at
            >= clock.instant_ms,
{
    if !before.fast_propose {
        boundary_is_reached(clock.unix_ms, before.slot_time_ms);
    }
}

/// Arranging a build: a proposal is skipped only where there was no activity and
/// skips are left, and every skip is counted. Else the count starts again, and
/// the build is now, after the delay, or at the start of a slot.
pub proof fn builds_are_arranged(before: BuildSchedule, recent_blocks_empty: bool, clock: Clock)
    requires
        before.clocks_fit(clock),
        before.consecutive_empty_skips < u32::MAX,
    ensures
        ({
            let after = after_scheduling(before, recent_blocks_empty, clock);
            let skipped = after.consecutive_empty_skips == before.consecutive_empty_skips + 1;
            let slots = before.slot_time_ms > 0 && !before.fast_propose;
            &&& skipped <==> recent_blocks_empty && before.consecutive_empty_skips
                < before.max_empty_skips
            &&& !skipped ==> after.consecutive_empty_skips == 0
            &&& after.slot_time_ms == before.slot_time_ms && after.fast_propose
                == before.fast_propose && after.min_propose_delay_ms
                == before.min_propose_delay_ms && after.max_empty_skips == before.max_empty_skips
            &&& slots ==> (after.next_build_at matches Some(at) && clock.instant_ms <= at && at
                - clock.instant_ms < before.slot_time_ms && (clock.unix_ms + (at
                - clock.instant_ms)) % before.slot_time_ms as int == 0
                && after.next_slot_timestamp == Some(
                ((clock.unix_ms + (at - clock.instant_ms)) / 1_000) as u64,
            ))
            &&& !slots && skipped && before.slot_time_ms > 0 ==> after.next_build_at == Some(
                (clock.instant_ms + before.slot_time_ms) as u64,
            ) && after.next_slot_timestamp is None
            &&& !slots && skipped && before.slot_time_ms == 0 ==> after.next_build_at
                == before.next_build_at && after.next_slot_timestamp == before.next_slot_timestamp
            &&& !slots && !skipped && before.min_propose_delay_ms > 0 ==> after.next_build_at
                == Some((clock.instant_ms + before.min_propose_delay_ms) as u64)
                && after.next_slot_timestamp is None && !proposes_at_once(before)
            &&& !slots && !skipped && before.min_propose_delay_ms == 0 ==> after.next_build_at
                == before.next_build_at && after.next_slot_timestamp == before.next_slot_timestamp
                && proposes_at_once(before)
            &&& slots ==> !proposes_at_once(before)
        }),
{
    if before.slot_time_ms > 0 {
        boundary_is_reached(clock.unix_ms, before.slot_time_ms);
    }
}

/// A leader tries a failed build again in two seconds; a follower does not.
pub proof fn retries_come_in_two_seconds(before: BuildSchedule, is_leader: bool, instant_ms: u64)
    requires
        instant_ms + 2_000 <= u64::MAX,
    ensures
        ({
            let after = after_retry(before, is_leader, instant_ms);
            &&& is_leader ==> after.next_build_at == Some((instant_ms + 2_000) as u64)
                && after.next_slot_timestamp is None
            &&& !is_leader ==> after == before
            &&& after.consecutive_empty_skips == before.consecutive_empty_skips
            &&& after.slot_time_ms == before.slot_time_ms && after.max_empty_skips
                == before.max_empty_skips && after.min_propose_delay_ms
                == before.min_propose_delay_ms && after.fast_propose == before.fast_propose
        }),
{
}

/// At start only a leader with an execution layer does anything: it waits for the
/// network to form, where there is a delay, and else builds. One validator waits
/// for nobody; a configured delay is always kept.
pub proof fn first_leaders_wait_for_the_network(
    before: BuildSchedule,
    is_leader: bool,
    has_execution_layer: bool,
    configured: Option<u64>,
    validators: u32,
    instant_ms: u64,
)
    requires
        instant_ms + startup_delay(configured, validators) <= u64::MAX,
    ensures
        ({
            let delay = startup_delay(configured, validators);
            let startup = startup_of(is_leader, has_execution_layer, delay);
            let after = after_startup(before, startup, instant_ms);
            &&& startup is Idle <==> !(is_leader && has_execution_layer)
            &&& configured matches Some(ms) ==> delay == ms
            &&& configured is None && validators <= 1 ==> delay == 0
            &&& configured is None && validators > 1 ==> delay == 5_000 + validators * 500
            &&& is_leader && has_execution_layer && delay == 0 ==> startup is Schedule && after
                == before
            &&& is_leader && has_execution_layer && delay > 0 ==> startup == (Startup::Wait {
                delay_ms: delay,
            }) && after.next_build_at == Some((instant_ms + delay) as u64)
            &&& startup is Idle ==> after == before
            &&& after.next_slot_timestamp == before.next_slot_timestamp
        }),
{
}

/// The build timer fires once. A build for a slot goes ahead with the slot's
/// timestamp; any other only where this node leads and no build runs ahead.
pub proof fn timers_fire_once(
    before: BuildSchedule,
    is_leader: bool,
    view: u64,
    speculating: bool,
)
    ensures
        ({
            let action = timer_action(before, is_leader, view, speculating);
            let after = after_timer(before);
            &&& after.next_build_at is None && after.next_slot_timestamp is None
            &&& after.consecutive_empty_skips == before.consecutive_empty_skips
                && after.slot_time_ms == before.slot_time_ms && after.max_empty_skips
                == before.max_empty_skips
            &&& action matches TimerAction::Build { slot_timestamp, reset_pacemaker } ==> {
                &&& slot_timestamp == before.next_slot_timestamp
                &&& slot_timestamp is Some || (is_leader && !speculating)
                &&& reset_pacemaker <==> slot_timestamp is None && view <= 1
            }
            &&& action is Skip <==> before.next_slot_timestamp is None && (!is_leader
                || speculating)
        }),
{
}

/// A slot boundary is a multiple of the slot time, in seconds rounded down; without
/// slots it is the next full second, a second from now.
pub proof fn boundaries_are_told_in_seconds(unix_ms: u64, slot_ms: u64)
    requires
        unix_ms + slot_ms <= u64::MAX,
    ensures
        slot_ms == 0 ==> boundary_delay(unix_ms, slot_ms) == 1_000,
        slot_ms == 0 ==> boundary_timestamp(unix_ms, slot_ms) == unix_ms / 1_000 + 1,
        slot_ms > 0 ==> {
            let boundary = unix_ms + boundary_delay(unix_ms, slot_ms);
            &&& unix_ms <= boundary < unix_ms + slot_ms
            &&& boundary % slot_ms as int == 0
            &&& boundary_timestamp(unix_ms, slot_ms) == boundary / 1_000
        },
{
    if slot_ms > 0 {
        boundary_is_reached(unix_ms, slot_ms);
    }
}

} // verus!
