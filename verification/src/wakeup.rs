use vstd::prelude::*;
use crate::error::ProbeError;

verus! {

/// What a waiter does after it has read the predicate under exclusive access.
#[derive(Clone, Copy, Debug, PartialEq, Eq, Structural)]
pub enum WaitAction {
    /// The predicate is true: the waiter releases and reports completion.
    Proceed,
    /// It is false: the waiter blocks on the condition variable, releasing the
    /// lock in the same step, and reads the predicate again when it wakes.
    Block,
}

/// One pass of a waiter's loop condition, taken while it holds the lock. A
/// wakeup by itself proves nothing: only the predicate decides.
pub fn waiter_step(predicate: bool) -> (action: WaitAction)
    ensures
        action == (if predicate {
            WaitAction::Proceed
        } else {
            WaitAction::Block
        }),
{
    if predicate {
        WaitAction::Proceed
    } else {
        WaitAction::Block
    }
}

/// Where a waiter stands.
#[derive(Clone, Copy, Debug, PartialEq, Eq, Structural)]
pub enum WaiterState {
    /// About to read the predicate: newly started, or woken from a wait.
    Ready,
    /// Blocked on the condition variable.
    Blocked,
    /// Past its wait; it has reported completion.
    Completed,
}

/// What can happen in the protocol: waiter `Examine(i)` gets the lock and
/// reads the predicate, the orchestrator notifies every blocked waiter, or the
/// orchestrator sets the predicate.
#[derive(Clone, Copy, Debug, PartialEq, Eq, Structural)]
pub enum WakeupEvent {
    Examine(usize),
    NotifyAll,
    Raise,
}

/// The protocol as a mathematical object: the predicate and where each waiter
/// stands.
pub struct WakeupModel {
    pub predicate: bool,
    pub waiters: Seq<WaiterState>,
}

/// The protocol before any thread has run: the predicate is false and every
/// waiter is about to read it.
pub open spec fn wakeup_start(waiters: nat) -> WakeupModel {
    WakeupModel { predicate: false, waiters: Seq::new(waiters, |i: int| WaiterState::Ready) }
}

/// Where a waiter that reads `predicate` goes.
pub open spec fn examined(predicate: bool) -> WaiterState {
    if predicate {
        WaiterState::Completed
    } else {
        WaiterState::Blocked
    }
}

/// Where a notification leaves a waiter: it wakes the blocked ones and no
/// others.
pub open spec fn notified(state: WaiterState) -> WaiterState {
    match state {
        WaiterState::Blocked => WaiterState::Ready,
        other => other,
    }
}

/// Waiter `index` gets the lock and reads the predicate. Only a waiter that is
/// about to read does anything; an index that names no waiter changes nothing.
pub open spec fn wakeup_examine(m: WakeupModel, index: int) -> WakeupModel {
    if 0 <= index < m.waiters.len() && m.waiters[index] == WaiterState::Ready {
        WakeupModel { waiters: m.waiters.update(index, examined(m.predicate)), ..m }
    } else {
        m
    }
}

/// The orchestrator notifies all: every blocked waiter wakes, and the
/// predicate is what it was.
pub open spec fn wakeup_notify(m: WakeupModel) -> WakeupModel {
    WakeupModel { waiters: m.waiters.map_values(|w: WaiterState| notified(w)), ..m }
}

/// The orchestrator sets the predicate; nobody wakes by that alone.
pub open spec fn wakeup_raise(m: WakeupModel) -> WakeupModel {
    WakeupModel { predicate: true, ..m }
}

/// The protocol after one event.
pub open spec fn wakeup_apply(m: WakeupModel, event: WakeupEvent) -> WakeupModel {
    match event {
        WakeupEvent::Examine(index) => wakeup_examine(m, index as int),
        WakeupEvent::NotifyAll => wakeup_notify(m),
        WakeupEvent::Raise => wakeup_raise(m),
    }
}

/// The protocol after the events of `schedule`, in that order.
pub open spec fn wakeup_run(m: WakeupModel, schedule: Seq<WakeupEvent>) -> WakeupModel
    decreases schedule.len(),
{
    if schedule.len() == 0 {
        m
    } else {
        wakeup_apply(wakeup_run(m, schedule.drop_last()), schedule.last())
    }
}

/// No waiter has reported completion.
pub open spec fn none_completed(m: WakeupModel) -> bool {
    forall|i: int| 0 <= i < m.waiters.len() ==> m.waiters[i] != WaiterState::Completed
}

/// Every waiter has reported completion.
pub open spec fn all_completed(m: WakeupModel) -> bool {
    forall|i: int| 0 <= i < m.waiters.len() ==> m.waiters[i] == WaiterState::Completed
}

/// The protocol's invariant: while the predicate is false, no waiter is past
/// its wait.
pub open spec fn wakeup_safe(m: WakeupModel) -> bool {
    !m.predicate ==> none_completed(m)
}

/// One examination by each of the waiters `0, 1, .., count - 1`, in that
/// order.
pub open spec fn examine_each(count: nat) -> Seq<WakeupEvent>
    recommends
        count <= usize::MAX,
{
    Seq::new(count, |i: int| WakeupEvent::Examine(i as usize))
}

/// An event keeps the invariant and the number of waiters, whichever it is,
/// and only `Raise` changes the predicate.
pub proof fn lemma_wakeup_apply_safe(m: WakeupModel, event: WakeupEvent)
    requires
        wakeup_safe(m),
    ensures
        wakeup_safe(wakeup_apply(m, event)),
        wakeup_apply(m, event).waiters.len() == m.waiters.len(),
        wakeup_apply(m, event).predicate == (m.predicate || event == WakeupEvent::Raise),
{
}

/// Whatever the schedule, no waiter reports completion while the predicate is
/// false: a notification that finds it false sends every waiter it woke back
/// to its wait.
pub proof fn lemma_wakeup_invariant(waiters: nat, schedule: Seq<WakeupEvent>)
    ensures
        wakeup_safe(wakeup_run(wakeup_start(waiters), schedule)),
        wakeup_run(wakeup_start(waiters), schedule).waiters.len() == waiters,
    decreases schedule.len(),
{
    if schedule.len() > 0 {
        lemma_wakeup_invariant(waiters, schedule.drop_last());
        lemma_wakeup_apply_safe(
            wakeup_run(wakeup_start(waiters), schedule.drop_last()),
            schedule.last(),
        );
    }
}

/// Until the orchestrator sets the predicate, nothing a schedule holds
/// (notifications included) lets a waiter report completion.
pub proof fn lemma_wakeup_none_before_raise(waiters: nat, schedule: Seq<WakeupEvent>)
    requires
        !schedule.contains(WakeupEvent::Raise),
    ensures
        !wakeup_run(wakeup_start(waiters), schedule).predicate,
        none_completed(wakeup_run(wakeup_start(waiters), schedule)),
    decreases schedule.len(),
{
    lemma_wakeup_invariant(waiters, schedule);
    if schedule.len() > 0 {
        let init = schedule.drop_last();
        assert forall|e: WakeupEvent| init.contains(e) implies schedule.contains(e) by {
            let k = choose|k: int| 0 <= k < init.len() && init[k] == e;
            assert(schedule[k] == e);
        }
        assert(schedule[schedule.len() - 1] == schedule.last());
        lemma_wakeup_none_before_raise(waiters, init);
        lemma_wakeup_apply_safe(wakeup_run(wakeup_start(waiters), init), schedule.last());
    }
}

/// With the predicate true and nobody blocked, the first `count` waiters are
/// past their wait once each of them has read the predicate.
pub proof fn lemma_examine_each(m: WakeupModel, count: nat)
    requires
        m.predicate,
        count <= m.waiters.len() <= usize::MAX,
        forall|i: int| 0 <= i < m.waiters.len() ==> m.waiters[i] != WaiterState::Blocked,
    ensures
        wakeup_run(m, examine_each(count)).predicate,
        wakeup_run(m, examine_each(count)).waiters.len() == m.waiters.len(),
        forall|i: int|
            0 <= i < m.waiters.len() ==> wakeup_run(m, examine_each(count)).waiters[i]
                != WaiterState::Blocked,
        forall|i: int|
            0 <= i < count ==> wakeup_run(m, examine_each(count)).waiters[i]
                == WaiterState::Completed,
    decreases count,
{
    if count > 0 {
        let before = (count - 1) as nat;
        assert(examine_each(count).drop_last() =~= examine_each(before));
        assert(examine_each(count).last() == WakeupEvent::Examine(before as usize));
        lemma_examine_each(m, before);
    }
}

/// The real wakeup always works: after any schedule, with or without earlier
/// notifications, once the orchestrator sets the predicate and notifies all,
/// every waiter reports completion as soon as it has read the predicate.
pub proof fn lemma_wakeup_completes(waiters: nat, schedule: Seq<WakeupEvent>)
    requires
        waiters <= usize::MAX,
    ensures
        all_completed(
            wakeup_run(
                wakeup_notify(wakeup_raise(wakeup_run(wakeup_start(waiters), schedule))),
                examine_each(waiters),
            ),
        ),
{
    lemma_wakeup_invariant(waiters, schedule);
    let m = wakeup_notify(wakeup_raise(wakeup_run(wakeup_start(waiters), schedule)));
    lemma_examine_each(m, waiters);
}

/// Every waiter is blocked on the condition variable.
pub open spec fn all_blocked(m: WakeupModel) -> bool {
    forall|i: int| 0 <= i < m.waiters.len() ==> m.waiters[i] == WaiterState::Blocked
}

/// With the predicate false and every waiter about to read it, the first
/// `count` waiters are blocked once each of them has read the predicate, and
/// the others are where they were.
pub proof fn lemma_examine_each_blocks(m: WakeupModel, count: nat)
    requires
        !m.predicate,
        count <= m.waiters.len() <= usize::MAX,
        forall|i: int| 0 <= i < m.waiters.len() ==> m.waiters[i] == WaiterState::Ready,
    ensures
        !wakeup_run(m, examine_each(count)).predicate,
        wakeup_run(m, examine_each(count)).waiters.len() == m.waiters.len(),
        forall|i: int|
            0 <= i < count ==> wakeup_run(m, examine_each(count)).waiters[i]
                == WaiterState::Blocked,
        forall|i: int|
            count <= i < m.waiters.len() ==> wakeup_run(m, examine_each(count)).waiters[i]
                == WaiterState::Ready,
    decreases count,
{
    if count > 0 {
        let before = (count - 1) as nat;
        assert(examine_each(count).drop_last() =~= examine_each(before));
        assert(examine_each(count).last() == WakeupEvent::Examine(before as usize));
        lemma_examine_each_blocks(m, before);
    }
}

/// A spurious wakeup gets nobody past its wait. After any schedule in which
/// the orchestrator has not set the predicate, a notification wakes every
/// waiter, and each of them, on reading the predicate, blocks again.
pub proof fn lemma_wakeup_spurious(waiters: nat, schedule: Seq<WakeupEvent>)
    requires
        waiters <= usize::MAX,
        !schedule.contains(WakeupEvent::Raise),
    ensures
        !wakeup_run(
            wakeup_notify(wakeup_run(wakeup_start(waiters), schedule)),
            examine_each(waiters),
        ).predicate,
        all_blocked(
            wakeup_run(
                wakeup_notify(wakeup_run(wakeup_start(waiters), schedule)),
                examine_each(waiters),
            ),
        ),
{
    lemma_wakeup_invariant(waiters, schedule);
    lemma_wakeup_none_before_raise(waiters, schedule);
    let m = wakeup_run(wakeup_start(waiters), schedule);
    let woken = wakeup_notify(m);
    assert forall|i: int| 0 <= i < woken.waiters.len() implies woken.waiters[i]
        == WaiterState::Ready by {
        assert(m.waiters[i] != WaiterState::Completed);
    }
    lemma_examine_each_blocks(woken, waiters);
}

/// Two runs that both end with every waiter joined end with every waiter in
/// the same place, however differently they were scheduled: a run leaves
/// nothing behind that the next one could see.
pub proof fn lemma_wakeup_repeatable(
    waiters: nat,
    first: Seq<WakeupEvent>,
    second: Seq<WakeupEvent>,
)
    requires
        all_completed(wakeup_run(wakeup_start(waiters), first)),
        all_completed(wakeup_run(wakeup_start(waiters), second)),
    ensures
        wakeup_run(wakeup_start(waiters), first).waiters == wakeup_run(
            wakeup_start(waiters),
            second,
        ).waiters,
        waiters > 0 ==> wakeup_run(wakeup_start(waiters), first).predicate && wakeup_run(
            wakeup_start(waiters),
            second,
        ).predicate,
{
    let a = wakeup_run(wakeup_start(waiters), first);
    let b = wakeup_run(wakeup_start(waiters), second);
    lemma_wakeup_invariant(waiters, first);
    lemma_wakeup_invariant(waiters, second);
    assert(a.waiters =~= b.waiters);
    if waiters > 0 {
        assert(a.waiters[0] == WaiterState::Completed);
        assert(b.waiters[0] == WaiterState::Completed);
    }
}

/// A protocol that can be run: the executable counterpart of
/// [`WakeupModel`].
pub struct CondvarWakeupProbe {
    predicate: bool,
    waiters: Vec<WaiterState>,
}

impl View for CondvarWakeupProbe {
    type V = WakeupModel;

    closed spec fn view(&self) -> WakeupModel {
        WakeupModel { predicate: self.predicate, waiters: self.waiters@ }
    }
}

impl CondvarWakeupProbe {
    /// While the predicate is false, no waiter is past its wait.
    pub open spec fn wf(&self) -> bool {
        wakeup_safe(self@)
    }

    /// A protocol of `waiters` waiters with the predicate false.
    pub fn new(waiters: usize) -> (w: CondvarWakeupProbe)
        ensures
            w@ == wakeup_start(waiters as nat),
            w.wf(),
    {
        let mut states: Vec<WaiterState> = Vec::new();
        let mut i: usize = 0;
        while i < waiters
            invariant
                i <= waiters,
                states.len() == i,
                forall|k: int| 0 <= k < i ==> states[k] == WaiterState::Ready,
            decreases waiters - i,
        {
            states.push(WaiterState::Ready);
            i += 1;
        }
        let w = CondvarWakeupProbe { predicate: false, waiters: states };
        assert(w@.waiters =~= wakeup_start(waiters as nat).waiters);
        w
    }

    /// Waiter `index` gets the lock and reads the predicate; says what it does
    /// next, or `None` when it is blocked, past its wait, or no waiter.
    pub fn examine(&mut self, index: usize) -> (action: Option<WaitAction>)
        requires
            old(self).wf(),
        ensures
            final(self)@ == wakeup_examine(old(self)@, index as int),
            final(self).wf(),
            action == (if index < old(self)@.waiters.len() && old(self)@.waiters[index as int]
                == WaiterState::Ready {
                Some(
                    if old(self)@.predicate {
                        WaitAction::Proceed
                    } else {
                        WaitAction::Block
                    },
                )
            } else {
                None
            }),
    {
        proof {
            lemma_wakeup_apply_safe(self@, WakeupEvent::Examine(index));
        }
        if index < self.waiters.len() {
            match self.waiters[index] {
                WaiterState::Ready => {
                    let action = waiter_step(self.predicate);
                    let next = match action {
                        WaitAction::Proceed => WaiterState::Completed,
                        WaitAction::Block => WaiterState::Blocked,
                    };
                    self.waiters.set(index, next);
                    Some(action)
                },
                _ => None,
            }
        } else {
            None
        }
    }

    /// The orchestrator notifies all. Whether the wakeup is real or spurious
    /// is not for the notification to say: the predicate is left as it is.
    pub fn notify_all(&mut self)
        requires
            old(self).wf(),
        ensures
            final(self)@ == wakeup_notify(old(self)@),
            final(self).wf(),
    {
        proof {
            lemma_wakeup_apply_safe(self@, WakeupEvent::NotifyAll);
        }
        let mut i: usize = 0;
        while i < self.waiters.len()
            invariant
                i <= self.waiters.len(),
                self.waiters.len() == old(self).waiters.len(),
                self.predicate == old(self).predicate,
                forall|k: int| 0 <= k < i ==> self.waiters[k] == notified(old(self).waiters[k]),
                forall|k: int| i <= k < self.waiters.len() ==> self.waiters[k] == old(self).waiters[k],
            decreases self.waiters.len() - i,
        {
            match self.waiters[i] {
                WaiterState::Blocked => {
                    self.waiters.set(i, WaiterState::Ready);
                },
                _ => {},
            }
            i += 1;
        }
        assert(self@.waiters =~= wakeup_notify(old(self)@).waiters);
    }

    /// The orchestrator, holding the lock, sets the predicate.
    pub fn raise(&mut self)
        requires
            old(self).wf(),
        ensures
            final(self)@ == wakeup_raise(old(self)@),
            final(self).wf(),
    {
        self.predicate = true;
    }

    /// One event.
    pub fn apply(&mut self, event: WakeupEvent)
        requires
            old(self).wf(),
        ensures
            final(self)@ == wakeup_apply(old(self)@, event),
            final(self).wf(),
    {
        match event {
            WakeupEvent::Examine(index) => {
                self.examine(index);
            },
            WakeupEvent::NotifyAll => {
                self.notify_all();
            },
            WakeupEvent::Raise => {
                self.raise();
            },
        }
    }

    /// The events of `schedule`, in that order.
    pub fn run(&mut self, schedule: &Vec<WakeupEvent>)
        requires
            old(self).wf(),
        ensures
            final(self)@ == wakeup_run(old(self)@, schedule@),
            final(self).wf(),
    {
        let mut i: usize = 0;
        assert(schedule@.take(0) =~= Seq::<WakeupEvent>::empty());
        while i < schedule.len()
            invariant
                i <= schedule.len(),
                self.wf(),
                self@ == wakeup_run(old(self)@, schedule@.take(i as int)),
            decreases schedule.len() - i,
        {
            assert(schedule@.take(i + 1).drop_last() =~= schedule@.take(i as int));
            self.apply(schedule[i]);
            i += 1;
        }
        assert(schedule@.take(i as int) =~= schedule@);
    }

    /// The number of waiters.
    pub fn waiters(&self) -> (n: usize)
        ensures
            n == self@.waiters.len(),
    {
        self.waiters.len()
    }

    /// What the predicate reads.
    pub fn predicate(&self) -> (p: bool)
        ensures
            p == self@.predicate,
    {
        self.predicate
    }

    /// Where waiter `index` stands.
    pub fn state(&self, index: usize) -> (s: WaiterState)
        requires
            index < self@.waiters.len(),
        ensures
            s == self@.waiters[index as int],
    {
        self.waiters[index]
    }

    /// Whether every waiter has reported completion; only then do the
    /// orchestrator's joins all return.
    pub fn completed(&self) -> (all: bool)
        ensures
            all == all_completed(self@),
    {
        let mut i: usize = 0;
        while i < self.waiters.len()
            invariant
                i <= self.waiters.len(),
                forall|k: int| 0 <= k < i ==> self.waiters[k] == WaiterState::Completed,
            decreases self.waiters.len() - i,
        {
            match self.waiters[i] {
                WaiterState::Completed => {},
                _ => {
                    return false;
                },
            }
            i += 1;
        }
        true
    }

    /// The orchestrator's final check: every waiter must have reported
    /// completion.
    pub fn check(&self) -> (r: Result<(), ProbeError>)
        ensures
            r == (if all_completed(self@) {
                Ok::<(), ProbeError>(())
            } else {
                Err(ProbeError::AssertionFailed)
            }),
    {
        if self.completed() {
            Ok(())
        } else {
            Err(ProbeError::AssertionFailed)
        }
    }
}

} // verus!
