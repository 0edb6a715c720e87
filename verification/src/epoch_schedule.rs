//! Which validators run which epoch.
use crate::names::{copy_text, same_text};
use crate::primitives::{Address, PubKey};
use crate::text::{decimal, push_decimal};
use vstd::prelude::*;
use vstd::string::StringExecFns;

verus! {

/// The peer that a validator is bound to.
#[derive(Debug)]
pub struct PeerBinding {
    /// The text of the entry.
    pub text: String,
    /// The peer that the text reads as, or why it does not read as one.
    pub peer: Result<String, String>,
}

/// A validator.
#[derive(Debug)]
pub struct ValidatorInfo {
    pub address: Address,
    pub bls_public_key: PubKey,
    pub p2p_peer_id: Option<PeerBinding>,
}

/// What a peer binding says.
pub ghost struct BindingState {
    pub text: Seq<char>,
    pub peer: Result<Seq<char>, Seq<char>>,
}

/// What is known of a validator.
pub ghost struct ValidatorState {
    pub address: Address,
    pub bls_public_key: PubKey,
    pub p2p_peer_id: Option<BindingState>,
}

impl View for PeerBinding {
    type V = BindingState;

    open spec fn view(&self) -> BindingState {
        BindingState {
            text: self.text@,
            peer: match self.peer {
                Ok(peer_id) => Ok(peer_id@),
                Err(error) => Err(error@),
            },
        }
    }
}

impl View for ValidatorInfo {
    type V = ValidatorState;

    open spec fn view(&self) -> ValidatorState {
        ValidatorState {
            address: self.address,
            bls_public_key: self.bls_public_key,
            p2p_peer_id: match self.p2p_peer_id {
                Some(binding) => Some(binding@),
                None => None,
            },
        }
    }
}

impl ValidatorInfo {
    /// A copy of the entry.
    pub fn duplicate(&self) -> (validator: Self)
        ensures
            validator@ == self@,
    {
        ValidatorInfo {
            address: self.address,
            bls_public_key: self.bls_public_key,
            p2p_peer_id: match &self.p2p_peer_id {
                Some(binding) => Some(
                    PeerBinding {
                        text: copy_text(&binding.text),
                        peer: match &binding.peer {
                            Ok(peer_id) => Ok(copy_text(peer_id)),
                            Err(error) => Err(copy_text(error)),
                        },
                    },
                ),
                None => None,
            },
        }
    }
}

/// What is known of a list of validators.
pub open spec fn validators_state(validators: Seq<ValidatorInfo>) -> Seq<ValidatorState> {
    validators.map_values(|v: ValidatorInfo| v@)
}

/// A copy of a list of validators.
pub fn copy_validators(validators: &Vec<ValidatorInfo>) -> (copy: Vec<ValidatorInfo>)
    ensures
        validators_state(copy@) == validators_state(validators@),
{
    let mut copy: Vec<ValidatorInfo> = Vec::new();
    let mut i: usize = 0;
    while i < validators.len()
        invariant
            i <= validators@.len(),
            copy@.len() == i,
            forall|j: int| 0 <= j < i ==> (#[trigger] copy@[j])@ == validators@[j]@,
        decreases validators@.len() - i,
    {
        copy.push(validators[i].duplicate());
        i += 1;
    }
    assert(validators_state(copy@) =~= validators_state(validators@));
    copy
}

/// One entry of a schedule: from an epoch on, these validators with this fault
/// tolerance.
#[derive(Debug)]
pub struct EpochEntry {
    pub start_epoch: u64,
    pub validators: Vec<ValidatorInfo>,
    pub fault_tolerance: u32,
    /// Why so many validators cannot have this fault tolerance, where they
    /// cannot.
    pub params_error: Option<String>,
}

/// What an entry says.
pub ghost struct EntryState {
    pub start_epoch: u64,
    pub validators: Seq<ValidatorState>,
    pub fault_tolerance: u32,
    pub params_error: Option<Seq<char>>,
}

impl View for EpochEntry {
    type V = EntryState;

    open spec fn view(&self) -> EntryState {
        EntryState {
            start_epoch: self.start_epoch,
            validators: validators_state(self.validators@),
            fault_tolerance: self.fault_tolerance,
            params_error: match self.params_error {
                Some(error) => Some(error@),
                None => None,
            },
        }
    }
}

/// What a list of entries says.
pub open spec fn entries_state(entries: Seq<EpochEntry>) -> Seq<EntryState> {
    entries.map_values(|e: EpochEntry| e@)
}

/// The validators and the fault tolerance of an epoch.
pub type EpochConfig = (Seq<ValidatorState>, u32);

/// How many of the validators have a peer bound.
pub open spec fn bound_count(validators: Seq<ValidatorState>) -> int
    decreases validators.len(),
{
    if validators.len() == 0 {
        0
    } else {
        bound_count(validators.drop_last()) + if validators.last().p2p_peer_id is Some {
            1int
        } else {
            0int
        }
    }
}

/// The validator is bound to this peer, whatever text names it.
pub open spec fn names_peer(validator: ValidatorState, peer: Seq<char>) -> bool {
    validator.p2p_peer_id matches Some(binding) && binding.peer == Ok::<Seq<char>, Seq<char>>(peer)
}

/// A validator is bound to this peer.
pub open spec fn is_bound_to(validators: Seq<ValidatorState>, peer: Seq<char>) -> bool {
    exists|i: int|
        0 <= i < validators.len() && names_peer(#[trigger] validators[i], peer)
}

/// What is wrong with the first binding that is wrong.
pub open spec fn binding_error(validators: Seq<ValidatorState>) -> Option<Seq<char>>
    decreases validators.len(),
{
    if validators.len() == 0 {
        None
    } else {
        let rest = validators.drop_last();
        match binding_error(rest) {
            Some(error) => Some(error),
            None => match validators.last().p2p_peer_id {
                None => None,
                Some(binding) => match binding.peer {
                    Err(error) => Some(error),
                    Ok(peer_id) => if is_bound_to(rest, peer_id) {
                        Some("has duplicate validator p2p_peer_id: "@ + peer_id)
                    } else {
                        None
                    },
                },
            },
        }
    }
}

/// An epoch's number in front of a message.
pub open spec fn epoch_message(epoch: u64, text: Seq<char>) -> Seq<char> {
    "epoch "@ + decimal(epoch as int) + text
}

/// An earlier entry is for the same epoch.
pub open spec fn has_epoch(entries: Seq<EntryState>, epoch: u64) -> bool {
    exists|i: int| 0 <= i < entries.len() && (#[trigger] entries[i]).start_epoch == epoch
}

/// What is wrong with an entry by itself.
pub open spec fn own_error(entry: EntryState) -> Option<Seq<char>> {
    if entry.validators.len() == 0 {
        Some(epoch_message(entry.start_epoch, " has empty validator set"@))
    } else if entry.params_error is Some {
        Some(
            epoch_message(
                entry.start_epoch,
                " has invalid validator set parameters: "@ + entry.params_error->0,
            ),
        )
    } else if bound_count(entry.validators) != 0 && bound_count(entry.validators)
        != entry.validators.len() {
        Some(
            epoch_message(
                entry.start_epoch,
                " must either define p2p_peer_id for all validators or omit it for all"@,
            ),
        )
    } else {
        match binding_error(entry.validators) {
            Some(error) => Some(epoch_message(entry.start_epoch, " "@ + error)),
            None => None,
        }
    }
}

/// What is wrong with the first entry that is wrong.
pub open spec fn schedule_error(entries: Seq<EntryState>) -> Option<Seq<char>>
    decreases entries.len(),
{
    if entries.len() == 0 {
        None
    } else {
        let rest = entries.drop_last();
        match schedule_error(rest) {
            Some(error) => Some(error),
            None => match own_error(entries.last()) {
                Some(error) => Some(error),
                None => if has_epoch(rest, entries.last().start_epoch) {
                    Some(
                        "duplicate epoch entry for start_epoch "@ + decimal(
                            entries.last().start_epoch as int,
                        ),
                    )
                } else {
                    None
                },
            },
        }
    }
}

/// The schedule that a list of entries stands for.
pub open spec fn planned(entries: Seq<EntryState>) -> Map<u64, EpochConfig>
    decreases entries.len(),
{
    if entries.len() == 0 {
        Map::empty()
    } else {
        planned(entries.drop_last()).insert(
            entries.last().start_epoch,
            (entries.last().validators, entries.last().fault_tolerance),
        )
    }
}

/// `start` is the last planned epoch up to `epoch`.
pub open spec fn is_latest(plan: Map<u64, EpochConfig>, epoch: u64, start: u64) -> bool {
    plan.contains_key(start) && start <= epoch && forall|other: u64| #[trigger]
        plan.contains_key(other) && other <= epoch ==> other <= start
}

/// The configuration that runs an epoch: the last planned one, or the initial.
pub open spec fn active(
    plan: Map<u64, EpochConfig>,
    epoch: u64,
    initial: EpochConfig,
) -> EpochConfig {
    if exists|start: u64| is_latest(plan, epoch, start) {
        plan[choose|start: u64| is_latest(plan, epoch, start)]
    } else {
        initial
    }
}

/// Which validators run which epoch, by the epoch from which on they run it.
pub struct EpochSchedule {
    entries: Vec<EpochEntry>,
}

impl View for EpochSchedule {
    type V = Map<u64, EpochConfig>;

    closed spec fn view(&self) -> Map<u64, EpochConfig> {
        planned(entries_state(self.entries@))
    }
}

/// The epochs rise.
spec fn rising(entries: Seq<EpochEntry>) -> bool {
    forall|i: int, j: int|
        0 <= i < j < entries.len() ==> (#[trigger] entries[i]).start_epoch < (
        #[trigger] entries[j]).start_epoch
}

/// What a plan says of a list of entries of which no two are for one epoch.
proof fn plan_entries(entries: Seq<EntryState>)
    requires
        forall|i: int, j: int|
            0 <= i < entries.len() && 0 <= j < entries.len() && i != j ==> (
            #[trigger] entries[i]).start_epoch != (#[trigger] entries[j]).start_epoch,
    ensures
        forall|i: int|
            0 <= i < entries.len() ==> planned(entries).contains_key(
                (#[trigger] entries[i]).start_epoch,
            ) && planned(entries)[entries[i].start_epoch] == (
                entries[i].validators,
                entries[i].fault_tolerance,
            ),
        forall|epoch: u64| #[trigger]
            planned(entries).contains_key(epoch) <==> has_epoch(entries, epoch),
        planned(entries).dom().finite(),
        planned(entries).len() == entries.len(),
    decreases entries.len(),
{
    if entries.len() > 0 {
        let rest = entries.drop_last();
        let last = entries.last();
        assert forall|i: int, j: int|
            0 <= i < rest.len() && 0 <= j < rest.len() && i != j implies (
        #[trigger] rest[i]).start_epoch != (#[trigger] rest[j]).start_epoch by {
            assert(entries[i].start_epoch != entries[j].start_epoch);
        }
        plan_entries(rest);
        assert forall|i: int| 0 <= i < entries.len() implies planned(entries).contains_key(
            (#[trigger] entries[i]).start_epoch,
        ) && planned(entries)[entries[i].start_epoch] == (
            entries[i].validators,
            entries[i].fault_tolerance,
        ) by {
            if i < rest.len() {
                assert(rest[i] == entries[i]);
                assert(entries[i].start_epoch != entries[entries.len() - 1].start_epoch);
            }
        }
        assert forall|epoch: u64| #[trigger] planned(entries).contains_key(epoch) <==> has_epoch(
            entries,
            epoch,
        ) by {
            if has_epoch(rest, epoch) {
                let i = choose|i: int|
                    0 <= i < rest.len() && (#[trigger] rest[i]).start_epoch == epoch;
                assert(entries[i].start_epoch == epoch);
            }
            if has_epoch(entries, epoch) && epoch != last.start_epoch {
                let i = choose|i: int|
                    0 <= i < entries.len() && (#[trigger] entries[i]).start_epoch == epoch;
                assert(rest[i].start_epoch == epoch);
            }
            if epoch == last.start_epoch {
                assert(entries[entries.len() - 1].start_epoch == epoch);
            }
        }
        if planned(rest).contains_key(last.start_epoch) {
            let i = choose|i: int|
                0 <= i < rest.len() && (#[trigger] rest[i]).start_epoch == last.start_epoch;
            assert(entries[i].start_epoch == entries[entries.len() - 1].start_epoch);
        }
    }
}

proof fn plan_of_rising(entries: Seq<EpochEntry>)
    requires
        rising(entries),
    ensures
        forall|i: int|
            0 <= i < entries.len() ==> planned(entries_state(entries)).contains_key(
                (#[trigger] entries[i]).start_epoch,
            ) && planned(entries_state(entries))[entries[i].start_epoch] == (
                validators_state(entries[i].validators@),
                entries[i].fault_tolerance,
            ),
        forall|epoch: u64| #[trigger]
            planned(entries_state(entries)).contains_key(epoch) <==> exists|i: int|
                0 <= i < entries.len() && (#[trigger] entries[i]).start_epoch == epoch,
        planned(entries_state(entries)).dom().finite(),
        planned(entries_state(entries)).len() == entries.len(),
{
    let states = entries_state(entries);
    assert forall|i: int, j: int|
        0 <= i < states.len() && 0 <= j < states.len() && i != j implies (
    #[trigger] states[i]).start_epoch != (#[trigger] states[j]).start_epoch by {
        if i < j {
            assert(entries[i].start_epoch < entries[j].start_epoch);
        } else {
            assert(entries[j].start_epoch < entries[i].start_epoch);
        }
    }
    plan_entries(states);
    assert forall|i: int| 0 <= i < entries.len() implies planned(states).contains_key(
        (#[trigger] entries[i]).start_epoch,
    ) && planned(states)[entries[i].start_epoch] == (
        validators_state(entries[i].validators@),
        entries[i].fault_tolerance,
    ) by {
        assert(states[i] == entries[i]@);
    }
    assert forall|epoch: u64| #[trigger] planned(states).contains_key(epoch) <==> exists|i: int|
        0 <= i < entries.len() && (#[trigger] entries[i]).start_epoch == epoch by {
        if has_epoch(states, epoch) {
            let i = choose|i: int|
                0 <= i < states.len() && (#[trigger] states[i]).start_epoch == epoch;
            assert(entries[i].start_epoch == epoch);
        }
        if exists|i: int| 0 <= i < entries.len() && (#[trigger] entries[i]).start_epoch == epoch {
            let i = choose|i: int|
                0 <= i < entries.len() && (#[trigger] entries[i]).start_epoch == epoch;
            assert(states[i].start_epoch == epoch);
        }
    }
}

/// Plans that agree on every epoch are equal, however their entries are ordered.
proof fn plan_after_insert(before: Seq<EpochEntry>, at: int, entry: EpochEntry)
    requires
        rising(before),
        0 <= at <= before.len(),
        forall|i: int| 0 <= i < at ==> (#[trigger] before[i]).start_epoch < entry.start_epoch,
        forall|i: int|
            at <= i < before.len() ==> (#[trigger] before[i]).start_epoch > entry.start_epoch,
    ensures
        rising(before.insert(at, entry)),
        planned(entries_state(before.insert(at, entry))) == planned(
            entries_state(before),
        ).insert(entry.start_epoch, (validators_state(entry.validators@), entry.fault_tolerance)),
{
    let after = before.insert(at, entry);
    assert forall|i: int, j: int| 0 <= i < j < after.len() implies (
    #[trigger] after[i]).start_epoch < (#[trigger] after[j]).start_epoch by {
        let oi = if i < at {
            i
        } else {
            i - 1
        };
        let oj = if j < at {
            j
        } else {
            j - 1
        };
        if i != at {
            assert(after[i] == before[oi]);
        }
        if j != at {
            assert(after[j] == before[oj]);
        }
    }
    plan_of_rising(before);
    plan_of_rising(after);
    let old_plan = planned(entries_state(before));
    let new_plan = planned(entries_state(after));
    let want = old_plan.insert(
        entry.start_epoch,
        (validators_state(entry.validators@), entry.fault_tolerance),
    );
    assert forall|epoch: u64| #[trigger] new_plan.contains_key(epoch) <==> want.contains_key(
        epoch,
    ) by {
        if new_plan.contains_key(epoch) {
            let i = choose|i: int|
                0 <= i < after.len() && (#[trigger] after[i]).start_epoch == epoch;
            if i < at {
                assert(before[i] == after[i]);
            } else if i > at {
                assert(before[i - 1] == after[i]);
            }
        }
        if old_plan.contains_key(epoch) {
            let i = choose|i: int|
                0 <= i < before.len() && (#[trigger] before[i]).start_epoch == epoch;
            if i < at {
                assert(after[i] == before[i]);
            } else {
                assert(after[i + 1] == before[i]);
            }
        }
        if epoch == entry.start_epoch {
            assert(after[at] == entry);
        }
    }
    assert forall|epoch: u64| #[trigger] new_plan.contains_key(epoch) implies new_plan[epoch]
        == want[epoch] by {
        let i = choose|i: int| 0 <= i < after.len() && (#[trigger] after[i]).start_epoch == epoch;
        if i < at {
            assert(before[i] == after[i]);
        } else if i > at {
            assert(before[i - 1] == after[i]);
        } else {
            assert(after[at] == entry);
        }
    }
    assert(new_plan =~= want);
}

/// A message that starts with an epoch's number.
fn message_for(epoch: u64, text: &str) -> (message: String)
    ensures
        message@ == epoch_message(epoch, text@),
{
    let mut message = String::new();
    message.append("epoch ");
    push_decimal(&mut message, epoch);
    message.append(text);
    assert(message@ =~= epoch_message(epoch, text@));
    message
}

fn count_bound(validators: &Vec<ValidatorInfo>) -> (n: usize)
    ensures
        n == bound_count(validators_state(validators@)),
        n <= validators@.len(),
{
    let ghost all = validators_state(validators@);
    let mut n: usize = 0;
    let mut i: usize = 0;
    assert(all.take(0) =~= Seq::empty());
    while i < validators.len()
        invariant
            i <= validators@.len(),
            n <= i,
            all == validators_state(validators@),
            n == bound_count(all.take(i as int)),
        decreases validators@.len() - i,
    {
        proof {
            assert(all.take(i + 1).drop_last() =~= all.take(i as int));
            assert(all.take(i + 1).last() == validators@[i as int]@);
        }
        if validators[i].p2p_peer_id.is_some() {
            n += 1;
        }
        i += 1;
    }
    assert(all.take(i as int) =~= all);
    n
}

fn first_binding_error(validators: &Vec<ValidatorInfo>) -> (error: Option<String>)
    ensures
        match error {
            Some(e) => binding_error(validators_state(validators@)) == Some(e@),
            None => binding_error(validators_state(validators@)) is None,
        },
{
    let ghost all = validators_state(validators@);
    let mut i: usize = 0;
    assert(all.take(0) =~= Seq::empty());
    while i < validators.len()
        invariant
            i <= validators@.len(),
            all == validators_state(validators@),
            binding_error(all.take(i as int)) is None,
        decreases validators@.len() - i,
    {
        let ghost rest = all.take(i as int);
        proof {
            assert(all.take(i + 1).drop_last() =~= rest);
            assert(all.take(i + 1).last() == validators@[i as int]@);
        }
        let found: Option<String> = match &validators[i].p2p_peer_id {
            None => None,
            Some(binding) => match &binding.peer {
                Err(error) => Some(copy_text(error)),
                Ok(peer_id) => {
                    if is_bound_before(validators, i, peer_id) {
                        let mut text = String::new();
                        text.append("has duplicate validator p2p_peer_id: ");
                        text.append(peer_id.as_str());
                        assert(text@ =~= "has duplicate validator p2p_peer_id: "@ + peer_id@);
                        Some(text)
                    } else {
                        None
                    }
                },
            },
        };
        if found.is_some() {
            proof {
                later_entries_keep_the_error(all, i + 1);
            }
            return found;
        }
        i += 1;
    }
    assert(all.take(i as int) =~= all);
    None
}

proof fn later_entries_keep_the_error(validators: Seq<ValidatorState>, n: int)
    requires
        0 <= n <= validators.len(),
        binding_error(validators.take(n)) is Some,
    ensures
        binding_error(validators) == binding_error(validators.take(n)),
    decreases validators.len(),
{
    if n < validators.len() {
        let rest = validators.drop_last();
        assert(rest.take(n) =~= validators.take(n));
        later_entries_keep_the_error(rest, n);
    } else {
        assert(validators.take(n) =~= validators);
    }
}

fn is_bound_before(validators: &Vec<ValidatorInfo>, n: usize, peer: &String) -> (bound: bool)
    requires
        n <= validators@.len(),
    ensures
        bound == is_bound_to(validators_state(validators@).take(n as int), peer@),
{
    let ghost all = validators_state(validators@).take(n as int);
    let mut i: usize = 0;
    while i < n
        invariant
            i <= n <= validators@.len(),
            all == validators_state(validators@).take(n as int),
            forall|j: int|
                0 <= j < i ==> !names_peer(#[trigger] all[j], peer@),
        decreases n - i,
    {
        assert(all[i as int] == validators@[i as int]@);
        if let Some(binding) = &validators[i].p2p_peer_id {
            if let Ok(peer_id) = &binding.peer {
                if same_text(peer_id, peer) {
                    assert(names_peer(all[i as int], peer@));
                    return true;
                }
            }
        }
        i += 1;
    }
    false
}

fn check_entry(entry: &EpochEntry) -> (error: Option<String>)
    ensures
        match error {
            Some(e) => own_error(entry@) == Some(e@),
            None => own_error(entry@) is None,
        },
{
    if entry.validators.len() == 0 {
        return Some(message_for(entry.start_epoch, " has empty validator set"));
    }
    if let Some(reason) = &entry.params_error {
        let mut text = String::new();
        text.append(" has invalid validator set parameters: ");
        text.append(reason.as_str());
        assert(text@ =~= " has invalid validator set parameters: "@ + reason@);
        return Some(message_for(entry.start_epoch, text.as_str()));
    }
    let bound: usize = count_bound(&entry.validators);
    if bound != 0 && bound != entry.validators.len() {
        return Some(
            message_for(
                entry.start_epoch,
                " must either define p2p_peer_id for all validators or omit it for all",
            ),
        );
    }
    match first_binding_error(&entry.validators) {
        Some(error) => {
            let mut text = String::new();
            text.append(" ");
            text.append(error.as_str());
            assert(text@ =~= " "@ + error@);
            Some(message_for(entry.start_epoch, text.as_str()))
        },
        None => None,
    }
}

proof fn later_entries_keep_the_schedule_error(entries: Seq<EntryState>, n: int)
    requires
        0 <= n <= entries.len(),
        schedule_error(entries.take(n)) is Some,
    ensures
        schedule_error(entries) == schedule_error(entries.take(n)),
    decreases entries.len(),
{
    if n < entries.len() {
        let rest = entries.drop_last();
        assert(rest.take(n) =~= entries.take(n));
        later_entries_keep_the_schedule_error(rest, n);
    } else {
        assert(entries.take(n) =~= entries);
    }
}

/// Multi-validator epochs whose peers would have to be derived.
pub open spec fn unbound(config: EpochConfig) -> bool {
    config.0.len() > 1 && forall|i: int|
        0 <= i < config.0.len() ==> (#[trigger] config.0[i]).p2p_peer_id is None
}

/// `epoch` is the first planned epoch without bound peers.
pub open spec fn is_first_unbound(plan: Map<u64, EpochConfig>, epoch: u64) -> bool {
    plan.contains_key(epoch) && unbound(plan[epoch]) && forall|other: u64| #[trigger]
        plan.contains_key(other) && unbound(plan[other]) ==> epoch <= other
}

/// Some planned epoch has no bound peers.
pub open spec fn some_unbound(plan: Map<u64, EpochConfig>) -> bool {
    exists|epoch: u64| #[trigger] plan.contains_key(epoch) && unbound(plan[epoch])
}

/// What a window says of each of its epochs.
pub open spec fn window_state(window: Seq<(u64, Vec<ValidatorInfo>, u32)>) -> Seq<
    (u64, EpochConfig),
> {
    window.map_values(
        |w: (u64, Vec<ValidatorInfo>, u32)| (w.0, (validators_state(w.1@), w.2)),
    )
}

impl EpochSchedule {
    /// The epochs rise.
    pub closed spec fn wf(self) -> bool {
        rising(self.entries@)
    }

    /// Checks the entries of a schedule and takes them in. Hands back the first
    /// thing that is wrong with them.
    pub fn from_entries(entries: Vec<EpochEntry>) -> (schedule: Result<Self, String>)
        ensures
            match schedule {
                Ok(s) => schedule_error(entries_state(entries@)) is None && s.wf() && s@
                    == planned(entries_state(entries@)),
                Err(message) => schedule_error(entries_state(entries@)) == Some(message@),
            },
    {
        let ghost all = entries_state(entries@);
        let mut schedule = EpochSchedule { entries: Vec::new() };
        let n: usize = entries.len();
        let mut rest = entries;
        let mut i: usize = 0;
        proof {
            assert(all.take(0) =~= Seq::empty());
            assert(entries_state(schedule.entries@) =~= Seq::empty());
        }
        while i < n
            invariant
                i <= n,
                all == entries_state(entries@),
                n == all.len(),
                rest@.len() == n - i,
                forall|j: int| 0 <= j < rest@.len() ==> (#[trigger] rest@[j])@ == all[i + j],
                schedule.wf(),
                schedule_error(all.take(i as int)) is None,
                schedule@ == planned(all.take(i as int)),
                forall|epoch: u64| #[trigger]
                    schedule@.contains_key(epoch) <==> has_epoch(all.take(i as int), epoch),
            decreases n - i,
        {
            let entry = rest.remove(0);
            let ghost before = all.take(i as int);
            proof {
                assert(all.take(i + 1).drop_last() =~= before);
                assert(all.take(i + 1).last() == entry@);
            }
            if let Some(message) = check_entry(&entry) {
                proof {
                    later_entries_keep_the_schedule_error(all, i + 1);
                }
                return Err(message);
            }
            let epoch: u64 = entry.start_epoch;
            if !schedule.add(entry) {
                let mut message = String::new();
                message.append("duplicate epoch entry for start_epoch ");
                push_decimal(&mut message, epoch);
                proof {
                    assert(message@ =~= "duplicate epoch entry for start_epoch "@ + decimal(
                        epoch as int,
                    ));
                    later_entries_keep_the_schedule_error(all, i + 1);
                }
                return Err(message);
            }
            proof {
                assert forall|e: u64| #[trigger] schedule@.contains_key(e) <==> has_epoch(
                    all.take(i + 1),
                    e,
                ) by {
                    let after = all.take(i + 1);
                    if has_epoch(before, e) {
                        let j = choose|j: int|
                            0 <= j < before.len() && (#[trigger] before[j]).start_epoch == e;
                        assert(after[j].start_epoch == e);
                    }
                    if has_epoch(after, e) && e != epoch {
                        let j = choose|j: int|
                            0 <= j < after.len() && (#[trigger] after[j]).start_epoch == e;
                        assert(before[j].start_epoch == e);
                    }
                    if e == epoch {
                        assert(after[i as int].start_epoch == e);
                    }
                }
            }
            i += 1;
        }
        assert(all.take(i as int) =~= all);
        Ok(schedule)
    }

    fn add(&mut self, entry: EpochEntry) -> (added: bool)
        requires
            old(self).wf(),
        ensures
            final(self).wf(),
            added == !old(self)@.contains_key(entry.start_epoch),
            final(self)@ == if added {
                old(self)@.insert(
                    entry.start_epoch,
                    (validators_state(entry.validators@), entry.fault_tolerance),
                )
            } else {
                old(self)@
            },
    {
        let ghost before = self.entries@;
        proof {
            plan_of_rising(before);
        }
        let n: usize = self.entries.len();
        let mut at: usize = 0;
        while at < n && self.entries[at].start_epoch < entry.start_epoch
            invariant
                self.entries@ == before,
                n == before.len(),
                at <= n,
                forall|i: int|
                    0 <= i < at ==> (#[trigger] before[i]).start_epoch < entry.start_epoch,
            decreases n - at,
        {
            at += 1;
        }
        if at < n && self.entries[at].start_epoch == entry.start_epoch {
            assert(before[at as int].start_epoch == entry.start_epoch);
            return false;
        }
        proof {
            assert forall|i: int| at <= i < n implies (#[trigger] before[i]).start_epoch
                > entry.start_epoch by {
                if i > at {
                    assert(before[at as int].start_epoch < before[i].start_epoch);
                }
            }
            plan_after_insert(before, at as int, entry);
            if self@.contains_key(entry.start_epoch) {
                let i = choose|i: int|
                    0 <= i < before.len() && (#[trigger] before[i]).start_epoch
                        == entry.start_epoch;
                assert(i < at || i >= at);
            }
        }
        self.entries.insert(at, entry);
        true
    }

    /// The configuration that is planned to start with an epoch.
    pub fn get_for_epoch(&self, epoch: u64) -> (config: Option<(&Vec<ValidatorInfo>, u32)>)
        requires
            self.wf(),
        ensures
            match config {
                Some((validators, fault_tolerance)) => self@.contains_key(epoch) && self@[epoch]
                    == (validators_state(validators@), fault_tolerance),
                None => !self@.contains_key(epoch),
            },
    {
        proof {
            plan_of_rising(self.entries@);
        }
        let n: usize = self.entries.len();
        let mut i: usize = 0;
        while i < n
            invariant
                n == self.entries@.len(),
                i <= n,
                forall|j: int| 0 <= j < i ==> (#[trigger] self.entries@[j]).start_epoch != epoch,
                forall|j: int|
                    0 <= j < n ==> self@.contains_key((#[trigger] self.entries@[j]).start_epoch)
                        && self@[self.entries@[j].start_epoch] == (
                        validators_state(self.entries@[j].validators@),
                        self.entries@[j].fault_tolerance,
                    ),
            decreases n - i,
        {
            if self.entries[i].start_epoch == epoch {
                return Some((&self.entries[i].validators, self.entries[i].fault_tolerance));
            }
            i += 1;
        }
        None
    }

    /// The configuration that runs an epoch: the last planned one up to it, or
    /// the initial one.
    pub fn active_config_for_epoch<'a>(
        &'a self,
        epoch: u64,
        initial_validators: &'a Vec<ValidatorInfo>,
        initial_fault_tolerance: u32,
    ) -> (config: (&'a Vec<ValidatorInfo>, u32))
        requires
            self.wf(),
        ensures
            (validators_state(config.0@), config.1) == active(
                self@,
                epoch,
                (validators_state(initial_validators@), initial_fault_tolerance),
            ),
    {
        proof {
            plan_of_rising(self.entries@);
        }
        let n: usize = self.entries.len();
        let mut i: usize = 0;
        while i < n && self.entries[i].start_epoch <= epoch
            invariant
                n == self.entries@.len(),
                i <= n,
                forall|j: int| 0 <= j < i ==> (#[trigger] self.entries@[j]).start_epoch <= epoch,
            decreases n - i,
        {
            i += 1;
        }
        proof {
            assert forall|j: int| i <= j < n implies (#[trigger] self.entries@[j]).start_epoch
                > epoch by {
                if j > i {
                    assert(self.entries@[i as int].start_epoch < self.entries@[j].start_epoch);
                }
            }
        }
        if i == 0 {
            proof {
                assert forall|start: u64| !is_latest(self@, epoch, start) by {
                    if is_latest(self@, epoch, start) {
                        let j = choose|j: int|
                            0 <= j < self.entries@.len() && (
                            #[trigger] self.entries@[j]).start_epoch == start;
                        assert(self.entries@[j].start_epoch > epoch);
                    }
                }
            }
            (initial_validators, initial_fault_tolerance)
        } else {
            proof {
                let start = self.entries@[i - 1].start_epoch;
                assert forall|other: u64| #[trigger]
                    self@.contains_key(other) && other <= epoch implies other <= start by {
                    let j = choose|j: int|
                        0 <= j < self.entries@.len() && (#[trigger] self.entries@[j]).start_epoch
                            == other;
                    if j < i - 1 {
                        assert(self.entries@[j].start_epoch < self.entries@[i - 1].start_epoch);
                    }
                }
                assert(is_latest(self@, epoch, start));
                let chosen = choose|s: u64| is_latest(self@, epoch, s);
                assert(chosen == start);
            }
            (&self.entries[i - 1].validators, self.entries[i - 1].fault_tolerance)
        }
    }

    /// Whether every planned epoch with several validators has its peers bound,
    /// where they may not be derived; else which is the first that has not.
    pub fn validate_peer_binding_policy(&self, allow_deterministic_fallback: bool) -> (verdict:
        Result<(), String>)
        requires
            self.wf(),
        ensures
            verdict is Ok <==> allow_deterministic_fallback || !some_unbound(self@),
            verdict matches Err(message) ==> exists|epoch: u64| #[trigger]
                is_first_unbound(self@, epoch) && message@ == epoch_message(
                    epoch,
                    " is missing explicit p2p_peer_id bindings for a multi-validator set"@,
                ),
    {
        if allow_deterministic_fallback {
            return Ok(());
        }
        proof {
            plan_of_rising(self.entries@);
        }
        let n: usize = self.entries.len();
        let mut i: usize = 0;
        while i < n
            invariant
                self.wf(),
                !allow_deterministic_fallback,
                n == self.entries@.len(),
                i <= n,
                forall|j: int|
                    0 <= j < n ==> self@.contains_key((#[trigger] self.entries@[j]).start_epoch)
                        && self@[self.entries@[j].start_epoch] == (
                        validators_state(self.entries@[j].validators@),
                        self.entries@[j].fault_tolerance,
                    ),
                forall|epoch: u64| #[trigger]
                    self@.contains_key(epoch) <==> exists|j: int|
                        0 <= j < n && (#[trigger] self.entries@[j]).start_epoch == epoch,
                forall|j: int|
                    0 <= j < i ==> !unbound(self@[(#[trigger] self.entries@[j]).start_epoch]),
            decreases n - i,
        {
            let validators = &self.entries[i].validators;
            let bound: usize = count_bound(validators);
            proof {
                let states = validators_state(validators@);
                none_bound(states);
            }
            if validators.len() > 1 && bound == 0 {
                let epoch: u64 = self.entries[i].start_epoch;
                let message = message_for(
                    epoch,
                    " is missing explicit p2p_peer_id bindings for a multi-validator set",
                );
                proof {
                    assert(unbound(self@[epoch]));
                    assert forall|other: u64| #[trigger]
                        self@.contains_key(other) && unbound(self@[other]) implies epoch
                        <= other by {
                        let j = choose|j: int|
                            0 <= j < n && (#[trigger] self.entries@[j]).start_epoch == other;
                        if j < i {
                            assert(!unbound(self@[self.entries@[j].start_epoch]));
                        } else if j > i {
                            assert(self.entries@[i as int].start_epoch
                                < self.entries@[j].start_epoch);
                        }
                    }
                    assert(is_first_unbound(self@, epoch));
                }
                return Err(message);
            }
            i += 1;
        }
        proof {
            if some_unbound(self@) {
                let epoch = choose|epoch: u64| #[trigger]
                    self@.contains_key(epoch) && unbound(self@[epoch]);
                let j = choose|j: int|
                    0 <= j < n && (#[trigger] self.entries@[j]).start_epoch == epoch;
                assert(!unbound(self@[self.entries@[j].start_epoch]));
            }
        }
        Ok(())
    }

    /// The configurations of the epochs up to the current one, as many of them
    /// back as is asked for: what a node recovers with.
    pub fn recovery_window(
        &self,
        initial_validators: &Vec<ValidatorInfo>,
        initial_fault_tolerance: u32,
        current_epoch: u64,
        history_depth: usize,
    ) -> (window: Vec<(u64, Vec<ValidatorInfo>, u32)>)
        requires
            self.wf(),
            history_depth < usize::MAX || current_epoch < usize::MAX,
        ensures
            ({
                let first = if current_epoch >= history_depth {
                    current_epoch - history_depth
                } else {
                    0
                };
                let initial = (validators_state(initial_validators@), initial_fault_tolerance);
                window_state(window@) == Seq::new(
                    (current_epoch - first + 1) as nat,
                    |i: int| ((first + i) as u64, active(self@, (first + i) as u64, initial)),
                )
            }),
    {
        let first: u64 = current_epoch.saturating_sub(history_depth as u64);
        let count: u64 = current_epoch - first;
        let mut window: Vec<(u64, Vec<ValidatorInfo>, u32)> = Vec::new();
        let ghost initial = (validators_state(initial_validators@), initial_fault_tolerance);
        let mut i: u64 = 0;
        let mut done = false;
        while !done
            invariant
                self.wf(),
                first + count == current_epoch,
                count < usize::MAX,
                i <= count + 1,
                done == (i == count + 1),
                initial == (validators_state(initial_validators@), initial_fault_tolerance),
                window@.len() == i,
                forall|j: int|
                    0 <= j < i ==> (
                        (#[trigger] window@[j]).0,
                        (validators_state(window@[j].1@), window@[j].2),
                    ) == ((first + j) as u64, active(self@, (first + j) as u64, initial)),
            decreases count + 1 - i,
        {
            let epoch: u64 = first + i;
            let (validators, fault_tolerance) = self.active_config_for_epoch(
                epoch,
                initial_validators,
                initial_fault_tolerance,
            );
            window.push((epoch, copy_validators(validators), fault_tolerance));
            done = i == count;
            i += 1;
        }
        assert(window_state(window@) =~= Seq::new(
            (count + 1) as nat,
            |j: int| ((first + j) as u64, active(self@, (first + j) as u64, initial)),
        ));
        window
    }

    /// How many epochs are planned.
    pub fn len(&self) -> (n: usize)
        requires
            self.wf(),
        ensures
            n == self@.len(),
    {
        proof {
            plan_of_rising(self.entries@);
        }
        self.entries.len()
    }

    /// Whether nothing is planned.
    pub fn is_empty(&self) -> (empty: bool)
        requires
            self.wf(),
        ensures
            empty == (self@.len() == 0),
    {
        proof {
            plan_of_rising(self.entries@);
        }
        self.entries.len() == 0
    }
}

proof fn none_bound(validators: Seq<ValidatorState>)
    ensures
        bound_count(validators) >= 0,
        bound_count(validators) == 0 <==> forall|i: int|
            0 <= i < validators.len() ==> (#[trigger] validators[i]).p2p_peer_id is None,
    decreases validators.len(),
{
    if validators.len() > 0 {
        let rest = validators.drop_last();
        none_bound(rest);
        if bound_count(validators) == 0 {
            assert forall|i: int| 0 <= i < validators.len() implies (
            #[trigger] validators[i]).p2p_peer_id is None by {
                if i < rest.len() {
                    assert(rest[i].p2p_peer_id is None);
                }
            }
        }
        if forall|i: int|
            0 <= i < validators.len() ==> (#[trigger] validators[i]).p2p_peer_id is None {
            assert forall|i: int| 0 <= i < rest.len() implies (
            #[trigger] rest[i]).p2p_peer_id is None by {
                assert(validators[i].p2p_peer_id is None);
            }
            assert(validators[validators.len() - 1].p2p_peer_id is None);
        }
    }
}

/// The peers that a node expects its validators at: the bound ones; where none
/// is bound, the derived ones if those are allowed.
pub open spec fn expected_peers(
    bound: Seq<Option<u64>>,
    derived: Seq<u64>,
    allow_deterministic: bool,
) -> Map<u32, u64> {
    if exists|i: int| 0 <= i < bound.len() && #[trigger] bound[i] is Some {
        Map::new(
            |i: u32| i < bound.len() && bound[i as int] is Some,
            |i: u32| bound[i as int]->0,
        )
    } else if allow_deterministic {
        Map::new(|i: u32| i < derived.len(), |i: u32| derived[i as int])
    } else {
        Map::empty()
    }
}

/// The pairs list each index of the map once, with its peer.
pub open spec fn lists(pairs: Seq<(u32, u64)>, peers: Map<u32, u64>) -> bool {
    &&& forall|i: int, j: int|
        0 <= i < j < pairs.len() ==> (#[trigger] pairs[i]).0 < (#[trigger] pairs[j]).0
    &&& forall|k: int|
        0 <= k < pairs.len() ==> peers.contains_key((#[trigger] pairs[k]).0)
            && peers[pairs[k].0] == pairs[k].1
    &&& forall|index: u32| #[trigger]
        peers.contains_key(index) ==> exists|k: int|
            0 <= k < pairs.len() && (#[trigger] pairs[k]).0 == index
}

/// The peers that a node expects its validators at after an epoch change, by
/// validator index.
pub fn expected_validator_peers(
    bound: &Vec<Option<u64>>,
    derived: &Vec<u64>,
    allow_deterministic: bool,
) -> (pairs: Vec<(u32, u64)>)
    requires
        bound@.len() <= u32::MAX,
        derived@.len() <= u32::MAX,
    ensures
        lists(pairs@, expected_peers(bound@, derived@, allow_deterministic)),
{
    let mut pairs: Vec<(u32, u64)> = Vec::new();
    let n: usize = bound.len();
    let mut i: usize = 0;
    while i < n
        invariant
            n == bound@.len(),
            n <= u32::MAX,
            i <= n,
            forall|a: int, b: int|
                0 <= a < b < pairs@.len() ==> (#[trigger] pairs@[a]).0 < (#[trigger] pairs@[b]).0,
            forall|k: int|
                0 <= k < pairs@.len() ==> (#[trigger] pairs@[k]).0 < i && bound@[pairs@[k].0 as int]
                    == Some(pairs@[k].1),
            forall|j: int|
                0 <= j < i && (#[trigger] bound@[j]) is Some ==> exists|k: int|
                    0 <= k < pairs@.len() && (#[trigger] pairs@[k]).0 == j,
        decreases n - i,
    {
        let ghost before = pairs@;
        if let Some(peer) = bound[i] {
            pairs.push((i as u32, peer));
            assert(pairs@[before.len() as int].0 == i);
        }
        proof {
            assert forall|j: int| 0 <= j < i + 1 && (#[trigger] bound@[j]) is Some implies exists|
                k: int,
            |
                0 <= k < pairs@.len() && (#[trigger] pairs@[k]).0 == j by {
                if j < i {
                    let k = choose|k: int|
                        0 <= k < before.len() && (#[trigger] before[k]).0 == j;
                    assert(pairs@[k].0 == j);
                }
            }
        }
        i += 1;
    }
    let ghost peers = expected_peers(bound@, derived@, allow_deterministic);
    if pairs.len() > 0 {
        proof {
            assert(bound@[pairs@[0].0 as int] is Some);
            assert forall|index: u32| #[trigger] peers.contains_key(index) implies exists|k: int|
                0 <= k < pairs@.len() && (#[trigger] pairs@[k]).0 == index by {
                assert(bound@[index as int] is Some);
            }
        }
        return pairs;
    }
    proof {
        assert forall|j: int| 0 <= j < bound@.len() implies !(#[trigger] bound@[j] is Some) by {}
    }
    if !allow_deterministic {
        return pairs;
    }
    let m: usize = derived.len();
    let mut j: usize = 0;
    while j < m
        invariant
            m == derived@.len(),
            m <= u32::MAX,
            j <= m,
            pairs@.len() == j,
            forall|k: int|
                0 <= k < j ==> (#[trigger] pairs@[k]) == (k as u32, derived@[k]),
        decreases m - j,
    {
        pairs.push((j as u32, derived[j]));
        j += 1;
    }
    proof {
        assert forall|index: u32| #[trigger] peers.contains_key(index) implies exists|k: int|
            0 <= k < pairs@.len() && (#[trigger] pairs@[k]).0 == index by {
            assert(pairs@[index as int].0 == index);
        }
    }
    pairs
}

/// The configuration of an epoch changes only where an epoch is planned to
/// start: up to the next planned epoch the same one runs.
pub proof fn active_changes_only_at_planned_epochs(
    plan: Map<u64, EpochConfig>,
    epoch: u64,
    initial: EpochConfig,
)
    requires
        epoch < u64::MAX,
        !plan.contains_key((epoch + 1) as u64),
    ensures
        active(plan, (epoch + 1) as u64, initial) == active(plan, epoch, initial),
{
    let next = (epoch + 1) as u64;
    assert forall|start: u64| is_latest(plan, next, start) <==> is_latest(plan, epoch, start) by {
        if is_latest(plan, next, start) {
            assert forall|other: u64| #[trigger]
                plan.contains_key(other) && other <= epoch implies other <= start by {}
        }
        if is_latest(plan, epoch, start) {
            assert forall|other: u64| #[trigger]
                plan.contains_key(other) && other <= next implies other <= start by {}
        }
    }
    if exists|start: u64| is_latest(plan, epoch, start) {
        let a = choose|start: u64| is_latest(plan, epoch, start);
        let b = choose|start: u64| is_latest(plan, next, start);
        assert(is_latest(plan, next, a));
        assert(a == b);
    }
}

/// A planned epoch runs with its own configuration.
pub proof fn planned_epoch_is_active(plan: Map<u64, EpochConfig>, epoch: u64, initial: EpochConfig)
    requires
        plan.contains_key(epoch),
    ensures
        active(plan, epoch, initial) == plan[epoch],
{
    assert(is_latest(plan, epoch, epoch));
    let chosen = choose|start: u64| is_latest(plan, epoch, start);
    assert(chosen == epoch);
}

/// An entry is in order: it has validators and sound parameters, either all of its
/// validators name a peer or none does, every named peer can be read, and no two
/// validators name the same one.
pub open spec fn is_sound(entry: EntryState) -> bool {
    let v = entry.validators;
    &&& v.len() > 0
    &&& entry.params_error is None
    &&& (forall|i: int| 0 <= i < v.len() ==> (#[trigger] v[i]).p2p_peer_id is Some) || (forall|i: int|
        0 <= i < v.len() ==> (#[trigger] v[i]).p2p_peer_id is None)
    &&& forall|i: int|
        0 <= i < v.len() ==> ((#[trigger] v[i]).p2p_peer_id matches Some(binding) ==> binding.peer
            is Ok)
    &&& forall|i: int, j: int|
        0 <= i < j < v.len() ==> ((#[trigger] v[i]).p2p_peer_id matches Some(a) ==> ((
        #[trigger] v[j]).p2p_peer_id matches Some(b) ==> a.peer->Ok_0 != b.peer->Ok_0))
}

/// A schedule is taken exactly where every entry is in order and no two start at the
/// same epoch.
pub proof fn sound_schedules_are_taken(entries: Seq<EntryState>)
    ensures
        schedule_error(entries) is None <==> {
            &&& forall|i: int| 0 <= i < entries.len() ==> is_sound(#[trigger] entries[i])
            &&& forall|i: int, j: int|
                0 <= i < j < entries.len() ==> (#[trigger] entries[i]).start_epoch != (
                #[trigger] entries[j]).start_epoch
        },
    decreases entries.len(),
{
    if entries.len() > 0 {
        let rest = entries.drop_last();
        let last = entries.len() - 1;
        sound_schedules_are_taken(rest);
        sound_entries_have_no_error(entries[last]);
        assert forall|i: int| 0 <= i < rest.len() implies #[trigger] rest[i] == entries[i] by {}
        if has_epoch(rest, entries[last].start_epoch) {
            let i = choose|i: int|
                0 <= i < rest.len() && (#[trigger] rest[i]).start_epoch
                    == entries[last].start_epoch;
            assert(entries[i].start_epoch == entries[last].start_epoch);
        }
        if (forall|i: int| 0 <= i < entries.len() ==> is_sound(#[trigger] entries[i])) && (forall|
            i: int,
            j: int,
        |
            0 <= i < j < entries.len() ==> (#[trigger] entries[i]).start_epoch != (
            #[trigger] entries[j]).start_epoch) {
            assert forall|i: int| 0 <= i < rest.len() implies is_sound(#[trigger] rest[i]) by {
                assert(is_sound(entries[i]));
            }
            assert forall|i: int, j: int| 0 <= i < j < rest.len() implies (
            #[trigger] rest[i]).start_epoch != (#[trigger] rest[j]).start_epoch by {
                assert(entries[i].start_epoch != entries[j].start_epoch);
            }
            assert(is_sound(entries[last]));
        }
        if schedule_error(entries) is None {
            assert forall|i: int| 0 <= i < entries.len() implies is_sound(#[trigger] entries[i]) by {
                if i < last {
                    assert(is_sound(rest[i]));
                }
            }
            assert forall|i: int, j: int| 0 <= i < j < entries.len() implies (
            #[trigger] entries[i]).start_epoch != (#[trigger] entries[j]).start_epoch by {
                if j < last {
                    assert(rest[i].start_epoch != rest[j].start_epoch);
                } else {
                    assert(rest[i].start_epoch == entries[i].start_epoch);
                }
            }
        }
    }
}

proof fn sound_entries_have_no_error(entry: EntryState)
    ensures
        own_error(entry) is None <==> is_sound(entry),
{
    let v = entry.validators;
    bound_validators_are_counted(v);
    sound_bindings_have_no_error(v);
}

proof fn bound_validators_are_counted(validators: Seq<ValidatorState>)
    ensures
        0 <= bound_count(validators) <= validators.len(),
        bound_count(validators) == validators.len() <==> forall|i: int|
            0 <= i < validators.len() ==> (#[trigger] validators[i]).p2p_peer_id is Some,
        bound_count(validators) == 0 <==> forall|i: int|
            0 <= i < validators.len() ==> (#[trigger] validators[i]).p2p_peer_id is None,
    decreases validators.len(),
{
    if validators.len() > 0 {
        let rest = validators.drop_last();
        let last = validators.len() - 1;
        bound_validators_are_counted(rest);
        assert forall|i: int| 0 <= i < rest.len() implies #[trigger] rest[i] == validators[i] by {}
        if forall|i: int| 0 <= i < validators.len() ==> (#[trigger] validators[i]).p2p_peer_id is Some {
            assert forall|i: int| 0 <= i < rest.len() implies (#[trigger] rest[i]).p2p_peer_id
                is Some by {
                assert(validators[i].p2p_peer_id is Some);
            }
            assert(validators[last].p2p_peer_id is Some);
        }
        if forall|i: int| 0 <= i < validators.len() ==> (#[trigger] validators[i]).p2p_peer_id is None {
            assert forall|i: int| 0 <= i < rest.len() implies (#[trigger] rest[i]).p2p_peer_id
                is None by {
                assert(validators[i].p2p_peer_id is None);
            }
            assert(validators[last].p2p_peer_id is None);
        }
        if bound_count(validators) == validators.len() {
            assert forall|i: int| 0 <= i < validators.len() implies (
            #[trigger] validators[i]).p2p_peer_id is Some by {
                if i < last {
                    assert(rest[i].p2p_peer_id is Some);
                }
            }
        }
        if bound_count(validators) == 0 {
            assert forall|i: int| 0 <= i < validators.len() implies (
            #[trigger] validators[i]).p2p_peer_id is None by {
                if i < last {
                    assert(rest[i].p2p_peer_id is None);
                }
            }
        }
    }
}

spec fn has_sound_bindings(v: Seq<ValidatorState>) -> bool {
    &&& forall|i: int|
        0 <= i < v.len() ==> ((#[trigger] v[i]).p2p_peer_id matches Some(binding) ==> binding.peer
            is Ok)
    &&& forall|i: int, j: int|
        0 <= i < j < v.len() ==> ((#[trigger] v[i]).p2p_peer_id matches Some(a) ==> ((
        #[trigger] v[j]).p2p_peer_id matches Some(b) ==> a.peer->Ok_0 != b.peer->Ok_0))
}

proof fn sound_bindings_have_no_error(v: Seq<ValidatorState>)
    ensures
        binding_error(v) is None <==> has_sound_bindings(v),
    decreases v.len(),
{
    if v.len() > 0 {
        let rest = v.drop_last();
        let last = v.len() - 1;
        sound_bindings_have_no_error(rest);
        assert forall|i: int| 0 <= i < rest.len() implies #[trigger] rest[i] == v[i] by {}
        if has_sound_bindings(v) {
            assert forall|i: int| 0 <= i < rest.len() implies ((
            #[trigger] rest[i]).p2p_peer_id matches Some(binding) ==> binding.peer is Ok) by {
                assert(v[i].p2p_peer_id matches Some(binding) ==> binding.peer is Ok);
            }
            assert forall|i: int, j: int| 0 <= i < j < rest.len() implies ((
            #[trigger] rest[i]).p2p_peer_id matches Some(a) ==> ((
            #[trigger] rest[j]).p2p_peer_id matches Some(b) ==> a.peer->Ok_0 != b.peer->Ok_0)) by {
                assert(v[i] == rest[i] && v[j] == rest[j]);
            }
            assert(has_sound_bindings(rest));
            if let Some(binding) = v[last].p2p_peer_id {
                assert(binding.peer is Ok);
                let peer = binding.peer->Ok_0;
                if is_bound_to(rest, peer) {
                    let i = choose|i: int| 0 <= i < rest.len() && names_peer(#[trigger] rest[i], peer);
                    assert(v[i] == rest[i]);
                }
            }
        }
        if binding_error(v) is None {
            assert(has_sound_bindings(rest));
            assert forall|i: int| 0 <= i < v.len() implies ((
            #[trigger] v[i]).p2p_peer_id matches Some(binding) ==> binding.peer is Ok) by {
                if i < last {
                    assert(rest[i] == v[i]);
                }
            }
            assert forall|i: int, j: int| 0 <= i < j < v.len() implies ((
            #[trigger] v[i]).p2p_peer_id matches Some(a) ==> ((
            #[trigger] v[j]).p2p_peer_id matches Some(b) ==> a.peer->Ok_0 != b.peer->Ok_0)) by {
                assert(rest[i] == v[i]);
                if j < last {
                    assert(rest[j] == v[j]);
                } else if let Some(a) = v[i].p2p_peer_id {
                    if let Some(b) = v[j].p2p_peer_id {
                        if a.peer->Ok_0 == b.peer->Ok_0 {
                            assert(names_peer(rest[i], b.peer->Ok_0));
                        }
                    }
                }
            }
        }
    }
}

/// The plan holds each entry of a schedule without doubles under its epoch, and
/// nothing else.
pub proof fn plans_hold_the_entries(entries: Seq<EntryState>, i: int, epoch: u64)
    requires
        0 <= i < entries.len(),
        forall|a: int, b: int|
            0 <= a < b < entries.len() ==> (#[trigger] entries[a]).start_epoch != (
            #[trigger] entries[b]).start_epoch,
    ensures
        planned(entries).contains_key(entries[i].start_epoch),
        planned(entries)[entries[i].start_epoch].0 == entries[i].validators,
        planned(entries)[entries[i].start_epoch].1 == entries[i].fault_tolerance,
        planned(entries).contains_key(epoch) <==> exists|k: int|
            0 <= k < entries.len() && (#[trigger] entries[k]).start_epoch == epoch,
    decreases entries.len(),
{
    let rest = entries.drop_last();
    let last = entries.len() - 1;
    assert forall|a: int, b: int| 0 <= a < b < rest.len() implies (#[trigger] rest[a]).start_epoch != (
    #[trigger] rest[b]).start_epoch by {
        assert(entries[a].start_epoch != entries[b].start_epoch);
    }
    if rest.len() > 0 {
        plans_hold_the_entries(
            rest,
            if i < last {
                i
            } else {
                0
            },
            epoch,
        );
        assert(rest[0] == entries[0]);
    } else {
        assert(planned(rest) == Map::<u64, EpochConfig>::empty());
    }
    if i < last {
        assert(rest[i] == entries[i]);
        assert(entries[i].start_epoch != entries[last].start_epoch);
    }
    if planned(entries).contains_key(epoch) {
        if epoch == entries[last].start_epoch {
            assert(entries[last].start_epoch == epoch);
        } else {
            let k = choose|k: int| 0 <= k < rest.len() && (#[trigger] rest[k]).start_epoch == epoch;
            assert(entries[k].start_epoch == epoch);
        }
    }
    if exists|k: int| 0 <= k < entries.len() && (#[trigger] entries[k]).start_epoch == epoch {
        let k = choose|k: int| 0 <= k < entries.len() && (#[trigger] entries[k]).start_epoch == epoch;
        if k < last {
            assert(rest[k].start_epoch == epoch);
        }
    }
}

/// In an epoch the set is active that was planned last, at that epoch or before it;
/// the initial set where none was.
pub proof fn the_last_planned_set_is_active(
    plan: Map<u64, EpochConfig>,
    epoch: u64,
    initial: EpochConfig,
    start: u64,
)
    ensures
        plan.contains_key(start) && start <= epoch && (forall|other: u64| #[trigger]
            plan.contains_key(other) && start < other ==> epoch < other) ==> active(
            plan,
            epoch,
            initial,
        ) == plan[start],
        (forall|other: u64| #[trigger] plan.contains_key(other) ==> epoch < other) ==> active(
            plan,
            epoch,
            initial,
        ) == initial,
{
    if plan.contains_key(start) && start <= epoch && (forall|other: u64| #[trigger]
        plan.contains_key(other) && start < other ==> epoch < other) {
        assert(is_latest(plan, epoch, start));
        let chosen = choose|s: u64| is_latest(plan, epoch, s);
        assert(plan.contains_key(chosen));
        assert(chosen == start);
    }
}

/// A set of several validators, none of which names a peer, is unbound; the first
/// such epoch is the one with no earlier one.
pub proof fn unbound_sets_name_no_peer(plan: Map<u64, EpochConfig>, epoch: u64, earlier: u64)
    ensures
        plan.contains_key(epoch) && plan[epoch].0.len() >= 2 && (forall|i: int|
            0 <= i < plan[epoch].0.len() ==> (#[trigger] plan[epoch].0[i]).p2p_peer_id is None)
            ==> some_unbound(plan),
        (forall|e: u64| #[trigger] plan.contains_key(e) ==> plan[e].0.len() <= 1 || exists|i: int|
            0 <= i < plan[e].0.len() && (#[trigger] plan[e].0[i]).p2p_peer_id is Some)
            ==> !some_unbound(plan),
        is_first_unbound(plan, epoch) && plan.contains_key(earlier) && earlier < epoch
            ==> plan[earlier].0.len() <= 1 || exists|i: int|
            0 <= i < plan[earlier].0.len() && (#[trigger] plan[earlier].0[i]).p2p_peer_id is Some,
        is_first_unbound(plan, epoch) ==> plan.contains_key(epoch) && plan[epoch].0.len() >= 2,
{
}

/// Where any validator names its peer, exactly the named peers are expected; else
/// the derived ones are, if that is allowed, and else none.
pub proof fn named_peers_come_first(
    bound: Seq<Option<u64>>,
    derived: Seq<u64>,
    allow_deterministic: bool,
    index: u32,
)
    ensures
        ({
            let peers = expected_peers(bound, derived, allow_deterministic);
            let named = exists|i: int| 0 <= i < bound.len() && #[trigger] bound[i] is Some;
            &&& named ==> (peers.contains_key(index) <==> index < bound.len() && bound[index as int]
                is Some)
            &&& named && peers.contains_key(index) ==> bound[index as int] == Some(peers[index])
            &&& !named && allow_deterministic ==> (peers.contains_key(index) <==> index
                < derived.len())
            &&& !named && allow_deterministic && index < derived.len() ==> peers[index]
                == derived[index as int]
            &&& !named && !allow_deterministic ==> !peers.contains_key(index)
        }),
{
}

/// A listing of peers holds each of them once, in the order of their indices.
pub proof fn listings_are_complete(pairs: Seq<(u32, u64)>, peers: Map<u32, u64>, index: u32)
    requires
        lists(pairs, peers),
    ensures
        peers.contains_key(index) <==> exists|k: int|
            0 <= k < pairs.len() && #[trigger] pairs[k] == (index, peers[index]),
        forall|i: int, j: int|
            0 <= i < j < pairs.len() ==> (#[trigger] pairs[i]).0 < (#[trigger] pairs[j]).0,
{
    if peers.contains_key(index) {
        let k = choose|k: int| 0 <= k < pairs.len() && (#[trigger] pairs[k]).0 == index;
        assert(pairs[k] == (index, peers[index]));
    }
    if exists|k: int| 0 <= k < pairs.len() && #[trigger] pairs[k] == (index, peers[index]) {
        let k = choose|k: int| 0 <= k < pairs.len() && #[trigger] pairs[k] == (index, peers[index]);
        assert(peers.contains_key(pairs[k].0));
    }
}

/// The first faulty entry is the one whose error is told: the entries before it are
/// in order.
pub proof fn the_first_fault_is_told(entries: Seq<EntryState>) -> (at: int)
    requires
        schedule_error(entries) is Some,
    ensures
        0 <= at < entries.len(),
        schedule_error(entries.take(at)) is None,
        !is_sound(entries[at]) ==> own_error(entries[at]) == schedule_error(entries),
        is_sound(entries[at]) ==> schedule_error(entries) == Some(
            "duplicate epoch entry for start_epoch "@ + decimal(entries[at].start_epoch as int),
        ) && exists|i: int|
            0 <= i < at && (#[trigger] entries[i]).start_epoch == entries[at].start_epoch,
    decreases entries.len(),
{
    let rest = entries.drop_last();
    let last = entries.len() - 1;
    if schedule_error(rest) is Some {
        let at = the_first_fault_is_told(rest);
        assert(rest.take(at) =~= entries.take(at));
        if is_sound(entries[at]) {
            let i = choose|i: int|
                0 <= i < at && (#[trigger] rest[i]).start_epoch == rest[at].start_epoch;
            assert(entries[i].start_epoch == entries[at].start_epoch);
        }
        at
    } else {
        sound_entries_have_no_error(entries[last]);
        assert(entries.take(last) =~= rest);
        if is_sound(entries[last]) {
            let i = choose|i: int|
                0 <= i < rest.len() && (#[trigger] rest[i]).start_epoch
                    == entries[last].start_epoch;
            assert(entries[i].start_epoch == entries[last].start_epoch);
        }
        last
    }
}

} // verus!
