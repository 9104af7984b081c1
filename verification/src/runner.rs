//! The runner: one batch of selected modules and their results.
//!
//! A `Batch` is the bookkeeping of a concurrent run. Whoever drives it asks
//! which slots go to which lane, launches them in any order, and reports
//! each completion as it comes in; the batch keeps one slot per selected
//! module, so the results come out in request order whatever the order of
//! completion. `run_selected` is the same run on the calling context alone.

use crate::descriptor::{ExecutionMode, ModuleDescriptor};
use crate::dispatcher::{
    dispatch, kind_of, lane_for, lane_of, normalize, normalized, Lane, ModuleResult, Outcome,
};
use crate::error::ModuleError;
use vstd::prelude::*;

verus! {

/// The slots of the modules that run on `lane`, in increasing order; for
/// batches of at most `usize::MAX` modules.
pub open spec fn lane_slots(modes: Seq<ExecutionMode>, lane: Lane) -> Seq<usize>
    decreases modes.len(),
{
    if modes.len() == 0 {
        Seq::<usize>::empty()
    } else {
        let before = lane_slots(modes.drop_last(), lane);
        if lane_for(modes.last()) == lane {
            before.push((modes.len() - 1) as usize)
        } else {
            before
        }
    }
}

/// The result that a slot stands for once the batch is over: what was
/// recorded, or a cancellation where nothing was.
pub open spec fn settled(slot: Option<ModuleResult>) -> ModuleResult {
    match slot {
        Some(result) => result,
        None => Err(ModuleError::Cancelled),
    }
}

/// The slots after a completion is reported: the first report for a pending
/// slot is recorded, any other report changes nothing.
pub open spec fn recorded(
    slots: Seq<Option<ModuleResult>>,
    slot: int,
    outcome: Outcome,
) -> Seq<Option<ModuleResult>> {
    if 0 <= slot < slots.len() && slots[slot] is None {
        slots.update(slot, Some(normalized(outcome)))
    } else {
        slots
    }
}

/// The slots that hold no result, in increasing order; for batches of at
/// most `usize::MAX` modules.
pub open spec fn pending_slots(slots: Seq<Option<ModuleResult>>) -> Seq<usize>
    decreases slots.len(),
{
    if slots.len() == 0 {
        Seq::<usize>::empty()
    } else {
        let before = pending_slots(slots.drop_last());
        if slots.last() is None {
            before.push((slots.len() - 1) as usize)
        } else {
            before
        }
    }
}

/// The order of arrival after a completion is reported: a report that is
/// recorded puts its slot last, any other report changes nothing.
pub open spec fn arrived(
    arrivals: Seq<usize>,
    slots: Seq<Option<ModuleResult>>,
    slot: usize,
) -> Seq<usize> {
    if slot < slots.len() && slots[slot as int] is None {
        arrivals.push(slot)
    } else {
        arrivals
    }
}

/// The slots after cancellation: every pending slot holds a cancellation.
pub open spec fn cancelled(slots: Seq<Option<ModuleResult>>) -> Seq<Option<ModuleResult>> {
    Seq::new(slots.len(), |i: int| Some(settled(slots[i])))
}

/// `lane_slots` holds exactly the slots whose mode maps to the lane, each
/// once and in increasing order.
pub proof fn lemma_lane_slots(modes: Seq<ExecutionMode>, lane: Lane)
    requires
        modes.len() <= usize::MAX,
    ensures
        forall|k: int|
            0 <= k < lane_slots(modes, lane).len() ==> (#[trigger] lane_slots(modes, lane)[k])
                < modes.len() && lane_for(modes[lane_slots(modes, lane)[k] as int]) == lane,
        forall|a: int, b: int|
            0 <= a < b < lane_slots(modes, lane).len() ==> (#[trigger] lane_slots(modes, lane)[a])
                < (#[trigger] lane_slots(modes, lane)[b]),
        forall|slot: int|
            0 <= slot < modes.len() && lane_for(#[trigger] modes[slot]) == lane ==> lane_slots(
                modes,
                lane,
            ).contains(slot as usize),
    decreases modes.len(),
{
    if modes.len() > 0 {
        let init = modes.drop_last();
        lemma_lane_slots(init, lane);
        let before = lane_slots(init, lane);
        let all = lane_slots(modes, lane);
        assert forall|slot: int|
            0 <= slot < modes.len() && lane_for(#[trigger] modes[slot]) == lane implies all.contains(
            slot as usize,
        ) by {
            if slot < modes.len() - 1 {
                assert(init[slot] == modes[slot]);
                let k = choose|k: int| 0 <= k < before.len() && before[k] == slot as usize;
                assert(all[k] == slot as usize);
            } else {
                assert(all[all.len() - 1] == slot as usize);
            }
        }
    }
}

/// Every slot runs on exactly one lane: the lanes partition the batch.
pub proof fn lemma_lanes_partition(modes: Seq<ExecutionMode>, slot: int)
    requires
        0 <= slot < modes.len() <= usize::MAX,
    ensures
        lane_slots(modes, lane_for(modes[slot])).contains(slot as usize),
        forall|lane: Lane|
            lane != lane_for(modes[slot]) ==> !(#[trigger] lane_slots(modes, lane)).contains(
                slot as usize,
            ),
{
    lemma_lane_slots(modes, lane_for(modes[slot]));
    assert forall|lane: Lane| lane != lane_for(modes[slot]) implies !(#[trigger] lane_slots(
        modes,
        lane,
    )).contains(slot as usize) by {
        lemma_lane_slots(modes, lane);
        if lane_slots(modes, lane).contains(slot as usize) {
            let k = choose|k: int|
                0 <= k < lane_slots(modes, lane).len() && lane_slots(modes, lane)[k]
                    == slot as usize;
            assert(lane_for(modes[lane_slots(modes, lane)[k] as int]) == lane);
        }
    }
}

/// Completions of different slots may be reported in either order: the
/// batch ends up the same.
pub proof fn lemma_completion_order_free(
    slots: Seq<Option<ModuleResult>>,
    a: int,
    x: Outcome,
    b: int,
    y: Outcome,
)
    requires
        a != b,
    ensures
        recorded(recorded(slots, a, x), b, y) == recorded(recorded(slots, b, y), a, x),
{
    assert(recorded(recorded(slots, a, x), b, y) =~= recorded(recorded(slots, b, y), a, x));
}

/// A report for a slot that already holds a result changes nothing, and
/// nothing changes a batch once it is cancelled.
pub proof fn lemma_first_report_wins(slots: Seq<Option<ModuleResult>>, slot: int, x: Outcome, y: Outcome)
    ensures
        recorded(recorded(slots, slot, x), slot, y) == recorded(slots, slot, x),
        recorded(cancelled(slots), slot, x) == cancelled(slots),
{
}

/// Milliseconds that a cancelled batch still waits for the modules in
/// flight before it settles them as cancelled.
pub const GRACE_PERIOD_MS: u64 = 500;

/// What a cancelled batch does next.
#[derive(Clone, Copy, Debug, PartialEq, Eq, Structural, Hash)]
pub enum GraceStep {
    /// Go on collecting results for at most this many milliseconds.
    Wait(u64),
    /// Wait no longer: settle what is pending and hand out the results.
    Settle,
}

/// The step of a cancelled batch that has waited `waited_ms` milliseconds
/// since the cancellation: it waits for what is left of the grace period
/// while a result is missing, and settles once every result is in or the
/// grace period is over.
pub open spec fn grace_for(finished: bool, waited_ms: u64) -> GraceStep {
    if finished || waited_ms >= GRACE_PERIOD_MS {
        GraceStep::Settle
    } else {
        GraceStep::Wait((GRACE_PERIOD_MS - waited_ms) as u64)
    }
}

/// The bookkeeping of one batch run.
pub struct Batch {
    modes: Vec<ExecutionMode>,
    slots: Vec<Option<ModuleResult>>,
    delivered: usize,
    arrivals: Vec<usize>,
    streamed: usize,
}

impl Batch {
    /// The execution mode of each selected module, by slot.
    pub closed spec fn modes(&self) -> Seq<ExecutionMode> {
        self.modes@
    }

    /// What each slot holds: `None` while its module has no result.
    pub closed spec fn slots(&self) -> Seq<Option<ModuleResult>> {
        self.slots@
    }

    /// How many results `next_ready` has handed out.
    pub closed spec fn delivered(&self) -> nat {
        self.delivered as nat
    }

    /// The slots that hold a result, in the order in which the results
    /// came in.
    pub closed spec fn arrivals(&self) -> Seq<usize> {
        self.arrivals@
    }

    /// How many results `next_arrival` has handed out.
    pub closed spec fn streamed(&self) -> nat {
        self.streamed as nat
    }

    /// What every operation keeps true of a batch: there is one slot per
    /// module, every slot already handed out holds a result, and the order
    /// of arrival lists the slots that hold a result, each once.
    pub closed spec fn valid(&self) -> bool {
        &&& self.modes@.len() == self.slots@.len()
        &&& self.delivered <= self.slots@.len()
        &&& forall|i: int| 0 <= i < self.delivered ==> (#[trigger] self.slots@[i]) is Some
        &&& self.streamed <= self.arrivals@.len()
        &&& self.arrivals@.no_duplicates()
        &&& forall|k: int|
            0 <= k < self.arrivals@.len() ==> (#[trigger] self.arrivals@[k]) < self.slots@.len()
                && self.slots@[self.arrivals@[k] as int] is Some
        &&& forall|i: int|
            0 <= i < self.slots@.len() && (#[trigger] self.slots@[i]) is Some
                ==> self.arrivals@.contains(i as usize)
    }

    /// Whether every slot holds a result.
    pub open spec fn finished(&self) -> bool {
        forall|i: int| 0 <= i < self.slots().len() ==> (#[trigger] self.slots()[i]) is Some
    }

    /// The results of the batch as it stands, one per slot in request
    /// order; a slot without a result counts as cancelled.
    pub open spec fn results(&self) -> Seq<ModuleResult> {
        Seq::new(self.slots().len(), |i: int| settled(self.slots()[i]))
    }

    /// What `valid` says, in terms of the public state.
    pub proof fn lemma_valid(&self)
        requires
            self.valid(),
        ensures
            self.modes().len() == self.slots().len(),
            self.delivered() <= self.slots().len(),
            forall|i: int| 0 <= i < self.delivered() ==> (#[trigger] self.slots()[i]) is Some,
            self.streamed() <= self.arrivals().len(),
            self.arrivals().no_duplicates(),
            forall|k: int|
                0 <= k < self.arrivals().len() ==> (#[trigger] self.arrivals()[k])
                    < self.slots().len() && self.slots()[self.arrivals()[k] as int] is Some,
            forall|i: int|
                0 <= i < self.slots().len() && (#[trigger] self.slots()[i]) is Some
                    ==> self.arrivals().contains(i as usize),
    {
    }

    /// Opens a batch over the selected modules: one pending slot each, in
    /// the order of the selection.
    pub fn open(selection: &Vec<&ModuleDescriptor>) -> (out: Batch)
        ensures
            out.valid(),
            out.modes() == Seq::new(selection@.len(), |i: int| selection@[i].execution_mode),
            out.slots() == Seq::new(selection@.len(), |i: int| None::<ModuleResult>),
            out.delivered() == 0,
            out.arrivals() == Seq::<usize>::empty(),
            out.streamed() == 0,
    {
        let mut modes: Vec<ExecutionMode> = Vec::new();
        let mut slots: Vec<Option<ModuleResult>> = Vec::new();
        let n = selection.len();
        let mut i: usize = 0;
        while i < n
            invariant
                i <= n,
                n == selection@.len(),
                modes@.len() == i,
                slots@.len() == i,
                forall|k: int| 0 <= k < i ==> modes@[k] == selection@[k].execution_mode,
                forall|k: int| 0 <= k < i ==> slots@[k] == None::<ModuleResult>,
            decreases n - i,
        {
            modes.push(selection[i].execution_mode);
            slots.push(None);
            i = i + 1;
        }
        assert(modes@ =~= Seq::new(selection@.len(), |i: int| selection@[i].execution_mode));
        assert(slots@ =~= Seq::new(selection@.len(), |i: int| None::<ModuleResult>));
        Batch { modes, slots, delivered: 0, arrivals: Vec::new(), streamed: 0 }
    }

    /// Number of slots, which is the number of selected modules.
    pub fn len(&self) -> (n: usize)
        ensures
            n == self.slots().len(),
    {
        self.slots.len()
    }

    /// The slots to launch on `lane`, in request order.
    pub fn lane(&self, lane: Lane) -> (out: Vec<usize>)
        ensures
            out@ == lane_slots(self.modes(), lane),
    {
        let mut out: Vec<usize> = Vec::new();
        let n = self.modes.len();
        let mut i: usize = 0;
        assert(self.modes@.take(0) =~= Seq::<ExecutionMode>::empty());
        while i < n
            invariant
                i <= n,
                n == self.modes@.len(),
                out@ == lane_slots(self.modes@.take(i as int), lane),
            decreases n - i,
        {
            assert(self.modes@.take(i as int + 1).drop_last() =~= self.modes@.take(i as int));
            if lane_of(self.modes[i]) == lane {
                out.push(i);
            }
            i = i + 1;
        }
        assert(self.modes@.take(n as int) =~= self.modes@);
        out
    }

    /// Reports what came back from the module in `slot`. The report is
    /// recorded, normalised, if the slot exists and is still pending, and
    /// ignored otherwise; the answer says which.
    pub fn complete(&mut self, slot: usize, outcome: Outcome) -> (taken: bool)
        requires
            old(self).valid(),
        ensures
            final(self).valid(),
            final(self).modes() == old(self).modes(),
            final(self).delivered() == old(self).delivered(),
            final(self).streamed() == old(self).streamed(),
            final(self).slots() == recorded(old(self).slots(), slot as int, outcome),
            final(self).arrivals() == arrived(old(self).arrivals(), old(self).slots(), slot),
            taken == (slot < old(self).slots().len() && old(self).slots()[slot as int] is None),
    {
        if slot >= self.slots.len() {
            return false;
        }
        if self.slots[slot].is_some() {
            return false;
        }
        self.slots.set(slot, Some(normalize(outcome)));
        self.arrivals.push(slot);
        proof {
            let before = old(self).arrivals@;
            let after = self.arrivals@;
            assert forall|i: int|
                0 <= i < self.slots@.len() && (#[trigger] self.slots@[i]) is Some implies after.contains(
                i as usize,
            ) by {
                if i == slot {
                    assert(after[after.len() - 1] == slot);
                } else {
                    assert(old(self).slots@[i] is Some);
                    let k = choose|k: int| 0 <= k < before.len() && before[k] == i as usize;
                    assert(after[k] == i as usize);
                }
            }
        }
        true
    }

    /// After a cancellation was asked for `waited_ms` milliseconds ago: wait
    /// on, for no longer than the rest of the grace period, or settle. The
    /// caller keeps reporting completions while it waits and calls `cancel`
    /// once the answer is `Settle`, so a module that cannot be stopped never
    /// holds the batch up for longer than `GRACE_PERIOD_MS`.
    pub fn grace_step(&self, waited_ms: u64) -> (out: GraceStep)
        ensures
            out == grace_for(self.finished(), waited_ms),
    {
        if waited_ms >= GRACE_PERIOD_MS || self.is_finished() {
            GraceStep::Settle
        } else {
            GraceStep::Wait(GRACE_PERIOD_MS - waited_ms)
        }
    }

    /// Cancels the batch: every slot still pending is settled as cancelled.
    /// Invocations still in flight are left to themselves; what they report
    /// later is ignored.
    pub fn cancel(&mut self)
        requires
            old(self).valid(),
        ensures
            final(self).valid(),
            final(self).modes() == old(self).modes(),
            final(self).delivered() == old(self).delivered(),
            final(self).streamed() == old(self).streamed(),
            final(self).slots() == cancelled(old(self).slots()),
            final(self).arrivals() == old(self).arrivals() + pending_slots(old(self).slots()),
    {
        let n = self.slots.len();
        let mut i: usize = 0;
        proof {
            assert(old(self).slots@.take(0) =~= Seq::<Option<ModuleResult>>::empty());
            assert(self.arrivals@ =~= old(self).arrivals@ + pending_slots(old(self).slots@.take(0)));
        }
        while i < n
            invariant
                i <= n,
                n == self.slots@.len(),
                self.modes@ == old(self).modes@,
                self.delivered == old(self).delivered,
                self.streamed == old(self).streamed,
                old(self).slots@.len() == n,
                old(self).valid(),
                forall|k: int| 0 <= k < i ==> self.slots@[k] == Some(settled(old(self).slots@[k])),
                forall|k: int| i <= k < n ==> self.slots@[k] == old(self).slots@[k],
                self.arrivals@ == old(self).arrivals@ + pending_slots(
                    old(self).slots@.take(i as int),
                ),
                self.arrivals@.len() >= old(self).arrivals@.len(),
                self.arrivals@.no_duplicates(),
                forall|k: int|
                    0 <= k < self.arrivals@.len() ==> (#[trigger] self.arrivals@[k]) < n
                        && self.slots@[self.arrivals@[k] as int] is Some,
                forall|j: int|
                    0 <= j < n && (#[trigger] self.slots@[j]) is Some ==> self.arrivals@.contains(
                        j as usize,
                    ),
            decreases n - i,
        {
            let ghost before = self.arrivals@;
            let ghost slots_before = self.slots@;
            proof {
                assert(old(self).slots@.take(i as int + 1).drop_last() =~= old(self).slots@.take(
                    i as int,
                ));
            }
            if self.slots[i].is_none() {
                self.slots.set(i, Some(Err(ModuleError::Cancelled)));
                self.arrivals.push(i);
                proof {
                    let after = self.arrivals@;
                    assert(after =~= old(self).arrivals@ + pending_slots(
                        old(self).slots@.take(i as int + 1),
                    ));
                    assert forall|a: int, b: int|
                        0 <= a < after.len() && 0 <= b < after.len() && a != b implies after[a]
                        != after[b] by {
                        if a < before.len() {
                            assert(slots_before[before[a] as int] is Some);
                        }
                        if b < before.len() {
                            assert(slots_before[before[b] as int] is Some);
                        }
                    }
                    assert forall|j: int|
                        0 <= j < n && (#[trigger] self.slots@[j]) is Some implies after.contains(
                        j as usize,
                    ) by {
                        if j == i {
                            assert(after[after.len() - 1] == i);
                        } else {
                            assert(slots_before[j] is Some);
                            let k = choose|k: int| 0 <= k < before.len() && before[k] == j as usize;
                            assert(after[k] == j as usize);
                        }
                    }
                }
            }
            i = i + 1;
        }
        assert(self.slots@ =~= cancelled(old(self).slots@));
        assert(old(self).slots@.take(n as int) =~= old(self).slots@);
    }

    /// Whether every slot holds a result.
    pub fn is_finished(&self) -> (done: bool)
        ensures
            done == self.finished(),
    {
        let n = self.slots.len();
        let mut i: usize = 0;
        while i < n
            invariant
                i <= n,
                n == self.slots@.len(),
                forall|k: int| 0 <= k < i ==> (#[trigger] self.slots@[k]) is Some,
            decreases n - i,
        {
            if self.slots[i].is_none() {
                return false;
            }
            i = i + 1;
        }
        true
    }

    /// The result recorded for `slot`, if there is one.
    pub fn result(&self, slot: usize) -> (out: Option<&ModuleResult>)
        ensures
            match out {
                Some(result) => slot < self.slots().len() && self.slots()[slot as int] == Some(
                    *result,
                ),
                None => slot >= self.slots().len() || self.slots()[slot as int] is None,
            },
    {
        if slot >= self.slots.len() {
            return None;
        }
        self.slots[slot].as_ref()
    }

    /// For delivery in request order: the next slot to hand out, once its
    /// result is in. A result is held back until every slot before it has
    /// been handed out.
    pub fn next_ready(&mut self) -> (out: Option<usize>)
        requires
            old(self).valid(),
        ensures
            final(self).valid(),
            final(self).modes() == old(self).modes(),
            final(self).slots() == old(self).slots(),
            final(self).arrivals() == old(self).arrivals(),
            final(self).streamed() == old(self).streamed(),
            match out {
                Some(slot) => slot == old(self).delivered() && slot < old(self).slots().len()
                    && old(self).slots()[slot as int] is Some && final(self).delivered()
                    == old(self).delivered() + 1,
                None => final(self).delivered() == old(self).delivered() && (old(self).delivered()
                    == old(self).slots().len() || old(self).slots()[old(self).delivered() as int]
                    is None),
            },
    {
        let slot = self.delivered;
        if slot < self.slots.len() && self.slots[slot].is_some() {
            self.delivered = slot + 1;
            Some(slot)
        } else {
            None
        }
    }

    /// For delivery as results come in: the next slot in order of arrival
    /// that has not been handed out yet. Every slot that holds a result is
    /// handed out once.
    pub fn next_arrival(&mut self) -> (out: Option<usize>)
        requires
            old(self).valid(),
        ensures
            final(self).valid(),
            final(self).modes() == old(self).modes(),
            final(self).slots() == old(self).slots(),
            final(self).arrivals() == old(self).arrivals(),
            final(self).delivered() == old(self).delivered(),
            match out {
                Some(slot) => old(self).streamed() < old(self).arrivals().len() && slot
                    == old(self).arrivals()[old(self).streamed() as int] && final(self).streamed()
                    == old(self).streamed() + 1,
                None => old(self).streamed() == old(self).arrivals().len()
                    && final(self).streamed() == old(self).streamed(),
            },
    {
        if self.streamed < self.arrivals.len() {
            let slot = self.arrivals[self.streamed];
            self.streamed = self.streamed + 1;
            Some(slot)
        } else {
            None
        }
    }

    /// Ends the batch and hands out its results: one per selected module, in
    /// request order, success or failure. A module that has no result by
    /// now counts as cancelled.
    pub fn into_results(self) -> (out: Vec<ModuleResult>)
        ensures
            out@ == self.results(),
    {
        let ghost slots = self.slots@;
        let mut remaining = self.slots;
        let mut reversed: Vec<ModuleResult> = Vec::new();
        let n = remaining.len();
        while remaining.len() > 0
            invariant
                n == slots.len(),
                remaining@ == slots.take(remaining@.len() as int),
                reversed@.len() + remaining@.len() == n,
                forall|k: int|
                    0 <= k < reversed@.len() ==> reversed@[k] == settled(slots[n - 1 - k]),
            decreases remaining@.len(),
        {
            let slot = remaining.pop();
            let result = match slot {
                Some(Some(result)) => result,
                _ => Err(ModuleError::Cancelled),
            };
            reversed.push(result);
            assert(remaining@ =~= slots.take(remaining@.len() as int));
        }
        let mut out: Vec<ModuleResult> = Vec::new();
        while reversed.len() > 0
            invariant
                n == slots.len(),
                out@.len() + reversed@.len() == n,
                forall|k: int|
                    0 <= k < reversed@.len() ==> reversed@[k] == settled(slots[n - 1 - k]),
                forall|k: int| 0 <= k < out@.len() ==> out@[k] == settled(slots[k]),
            decreases reversed@.len(),
        {
            let result = reversed.pop();
            match result {
                Some(r) => {
                    out.push(r);
                },
                None => {},
            }
        }
        assert(out@ =~= self.results());
        out
    }
}

/// Whether `results` can be what `run` handed back for the modules of
/// `selected`, one by one and in order.
pub open spec fn is_run_of<F: Fn(&ModuleDescriptor) -> ModuleResult>(
    run: F,
    selected: Seq<ModuleDescriptor>,
    results: Seq<ModuleResult>,
) -> bool {
    &&& results.len() == selected.len()
    &&& forall|i: int|
        0 <= i < selected.len() ==> call_ensures(run, (&selected[i],), #[trigger] results[i])
}

/// Whether `run` accepts each of `modules`.
pub open spec fn accepts_each<F: Fn(&ModuleDescriptor) -> ModuleResult>(
    run: F,
    modules: Seq<ModuleDescriptor>,
) -> bool {
    forall|i: int| 0 <= i < modules.len() ==> call_requires(run, (&#[trigger] modules[i],))
}

/// Two runs over the same selection have the same shape wherever the code
/// behind the modules is deterministic as to success and kind of failure:
/// the same number of results, in the same order, of the same kinds.
pub proof fn lemma_runs_have_same_shape<F: Fn(&ModuleDescriptor) -> ModuleResult>(
    run: F,
    selected: Seq<ModuleDescriptor>,
    first: Seq<ModuleResult>,
    second: Seq<ModuleResult>,
)
    requires
        is_run_of(run, selected, first),
        is_run_of(run, selected, second),
        forall|d: &ModuleDescriptor, a: ModuleResult, b: ModuleResult|
            call_ensures(run, (d,), a) && call_ensures(run, (d,), b) ==> kind_of(a) == kind_of(b),
    ensures
        first.len() == second.len(),
        forall|i: int| 0 <= i < first.len() ==> kind_of(first[i]) == kind_of(second[i]),
{
    assert forall|i: int| 0 <= i < first.len() implies kind_of(first[i]) == kind_of(
        second[i],
    ) by {
        assert(call_ensures(run, (&selected[i],), first[i]));
        assert(call_ensures(run, (&selected[i],), second[i]));
    }
}

/// Runs the selected modules on the calling context, one after the other,
/// and hands back one result per module in the order of the selection. A
/// module that fails yields a failure in its place; the run goes on.
pub fn run_selected<F: Fn(&ModuleDescriptor) -> ModuleResult>(
    selection: &Vec<&ModuleDescriptor>,
    run: &F,
) -> (out: Vec<ModuleResult>)
    requires
        forall|i: int| 0 <= i < selection@.len() ==> call_requires(*run, (#[trigger] selection@[i],)),
    ensures
        out@.len() == selection@.len(),
        forall|i: int|
            0 <= i < selection@.len() ==> call_ensures(*run, (selection@[i],), #[trigger] out@[i]),
{
    let mut out: Vec<ModuleResult> = Vec::new();
    let n = selection.len();
    let mut i: usize = 0;
    while i < n
        invariant
            i <= n,
            n == selection@.len(),
            out@.len() == i,
            forall|k: int| 0 <= k < n ==> call_requires(*run, (#[trigger] selection@[k],)),
            forall|k: int| 0 <= k < i ==> call_ensures(*run, (selection@[k],), #[trigger] out@[k]),
        decreases n - i,
    {
        let result = dispatch(selection[i], run);
        out.push(result);
        i = i + 1;
    }
    out
}

} // verus!
