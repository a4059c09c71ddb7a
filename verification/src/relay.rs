use vstd::prelude::*;
use crate::error::ProbeError;

verus! {

/// What a relay worker does after it has looked at the baton under exclusive
/// access.
#[derive(Clone, Copy, Debug, PartialEq, Eq, Structural)]
pub enum RelayAction {
    /// It was the worker's turn: the baton was passed on and the worker ends.
    Advance,
    /// It was not: the worker releases, backs off and tries again.
    Backoff,
}

/// The baton a worker leaves behind, and what the worker does next.
#[derive(Clone, Copy, Debug, PartialEq, Eq, Structural)]
pub struct RelayTurn {
    pub baton: usize,
    pub action: RelayAction,
}

/// The turn of worker `index` on a baton that reads `baton`.
pub open spec fn relay_turn(baton: usize, index: usize) -> RelayTurn {
    if baton == index {
        RelayTurn { baton: (baton + 1) as usize, action: RelayAction::Advance }
    } else {
        RelayTurn { baton, action: RelayAction::Backoff }
    }
}

/// One pass of a worker's loop body, taken while it holds the lock: the baton
/// moves on by one exactly when it reads the worker's own index.
pub fn relay_step(baton: usize, index: usize) -> (turn: RelayTurn)
    requires
        index < usize::MAX,
    ensures
        turn == relay_turn(baton, index),
        turn.baton == (if baton == index { baton + 1 } else { baton as int }),
{
    if baton == index {
        RelayTurn { baton: baton + 1, action: RelayAction::Advance }
    } else {
        RelayTurn { baton, action: RelayAction::Backoff }
    }
}

/// The relay as a mathematical object: how many workers there are, whether
/// the orchestrator still holds the lock it took before spawning, what the
/// baton reads, and the indices of the workers that took their turn, in the
/// order in which they took it.
pub struct RelayModel {
    pub workers: nat,
    pub held: bool,
    pub baton: nat,
    pub turns: Seq<nat>,
}

/// The relay as the workers are spawned: the baton is at zero and the
/// orchestrator holds the lock.
pub open spec fn relay_start(workers: nat) -> RelayModel {
    RelayModel { workers, held: true, baton: 0, turns: Seq::empty() }
}

/// The orchestrator gives its hold back.
pub open spec fn relay_release(m: RelayModel) -> RelayModel {
    RelayModel { held: false, ..m }
}

/// The relay once every worker is spawned and the orchestrator has let go.
pub open spec fn relay_released(workers: nat) -> RelayModel {
    relay_release(relay_start(workers))
}

/// One acquisition asked for by worker `index`. While the orchestrator holds
/// the lock nobody gets it. After that, only the worker whose index the baton
/// reads changes anything; an index that names no worker changes nothing.
pub open spec fn relay_attempt(m: RelayModel, index: nat) -> RelayModel {
    if !m.held && index < m.workers && m.baton == index {
        RelayModel { baton: m.baton + 1, turns: m.turns.push(index), ..m }
    } else {
        m
    }
}

/// The relay after the acquisitions of `schedule`, in that order.
pub open spec fn relay_run(m: RelayModel, schedule: Seq<nat>) -> RelayModel
    decreases schedule.len(),
{
    if schedule.len() == 0 {
        m
    } else {
        relay_attempt(relay_run(m, schedule.drop_last()), schedule.last())
    }
}

/// The numbers `0, 1, .., len - 1` in increasing order.
pub open spec fn ascending(len: nat) -> Seq<nat> {
    Seq::new(len, |i: int| i as nat)
}

/// The numbers `from, from + 1, .., to - 1` in increasing order.
pub open spec fn ascending_from(from: nat, to: nat) -> Seq<nat> {
    Seq::new((to - from) as nat, |i: int| (from + i) as nat)
}

/// The relay's invariant: the baton counts the workers that took their turn,
/// and they took it in index order.
pub open spec fn relay_ordered(m: RelayModel) -> bool {
    &&& m.baton <= m.workers
    &&& m.turns == ascending(m.baton)
}

/// Worker `index` has taken its turn.
pub open spec fn relay_finished(m: RelayModel, index: nat) -> bool {
    m.turns.contains(index)
}

/// An acquisition keeps the invariant, whoever makes it.
pub proof fn lemma_relay_attempt_ordered(m: RelayModel, index: nat)
    requires
        relay_ordered(m),
    ensures
        relay_ordered(relay_attempt(m, index)),
        relay_attempt(m, index).workers == m.workers,
        relay_attempt(m, index).held == m.held,
        relay_attempt(m, index).baton >= m.baton,
{
    let next = relay_attempt(m, index);
    if !m.held && index < m.workers && m.baton == index {
        assert(next.turns =~= ascending(next.baton));
    }
}

/// A schedule keeps the invariant and never moves the baton back.
pub proof fn lemma_relay_run_ordered(m: RelayModel, schedule: Seq<nat>)
    requires
        relay_ordered(m),
    ensures
        relay_ordered(relay_run(m, schedule)),
        relay_run(m, schedule).workers == m.workers,
        relay_run(m, schedule).held == m.held,
        relay_run(m, schedule).baton >= m.baton,
    decreases schedule.len(),
{
    if schedule.len() > 0 {
        lemma_relay_run_ordered(m, schedule.drop_last());
        lemma_relay_attempt_ordered(relay_run(m, schedule.drop_last()), schedule.last());
    }
}

/// While the orchestrator holds the lock no worker gets anywhere, whatever the
/// schedule: the relay stays as it was when the workers were spawned.
pub proof fn lemma_relay_held(workers: nat, schedule: Seq<nat>)
    ensures
        relay_run(relay_start(workers), schedule) == relay_start(workers),
    decreases schedule.len(),
{
    if schedule.len() > 0 {
        lemma_relay_held(workers, schedule.drop_last());
    }
}

/// Whatever the schedule, a relay of `workers` workers that starts at zero has
/// a baton equal to the number of turns taken, and the turns were taken by the
/// workers `0, 1, 2, ..` in that order.
pub proof fn lemma_relay_order(workers: nat, schedule: Seq<nat>)
    ensures
        relay_ordered(relay_run(relay_released(workers), schedule)),
        relay_run(relay_released(workers), schedule).workers == workers,
        !relay_run(relay_released(workers), schedule).held,
{
    assert(relay_released(workers).turns =~= ascending(0));
    lemma_relay_run_ordered(relay_released(workers), schedule);
}

/// Once every worker has taken its turn (which is when the orchestrator's
/// joins return), the baton reads exactly the number of workers and the turns
/// are `0, 1, .., workers - 1`, whatever the schedule was.
pub proof fn lemma_relay_joined(workers: nat, schedule: Seq<nat>)
    requires
        forall|i: nat| i < workers ==> relay_finished(relay_run(relay_released(workers), schedule), i),
    ensures
        relay_run(relay_released(workers), schedule).baton == workers,
        relay_run(relay_released(workers), schedule).turns == ascending(workers),
{
    lemma_relay_order(workers, schedule);
    let m = relay_run(relay_released(workers), schedule);
    if m.baton < workers {
        let i: nat = m.baton;
        assert(relay_finished(m, i));
        let k = choose|k: int| 0 <= k < m.turns.len() && m.turns[k] == i;
        assert(m.turns[k] == k as nat);
        assert(false);
    }
}

/// Two runs that both end with every worker joined end in the same state,
/// however differently they were scheduled: a run leaves nothing behind that
/// the next one could see.
pub proof fn lemma_relay_repeatable(workers: nat, first: Seq<nat>, second: Seq<nat>)
    requires
        forall|i: nat| i < workers ==> relay_finished(relay_run(relay_released(workers), first), i),
        forall|i: nat| i < workers ==> relay_finished(relay_run(relay_released(workers), second), i),
    ensures
        relay_run(relay_released(workers), first) == relay_run(relay_released(workers), second),
{
    lemma_relay_joined(workers, first);
    lemma_relay_joined(workers, second);
    lemma_relay_order(workers, first);
    lemma_relay_order(workers, second);
}

/// After any schedule, the acquisitions of the workers that have not yet taken
/// their turn, made in index order, end the relay: no schedule can leave it
/// stuck, and the baton then reads the number of workers.
pub proof fn lemma_relay_completes(workers: nat, schedule: Seq<nat>)
    ensures
        relay_run(
            relay_run(relay_released(workers), schedule),
            ascending_from(relay_run(relay_released(workers), schedule).baton, workers),
        ).baton == workers,
{
    lemma_relay_order(workers, schedule);
    let m = relay_run(relay_released(workers), schedule);
    lemma_relay_tail(m, (workers - m.baton) as nat);
}

/// From a relay in order, the next `count` workers in index order each find
/// the baton on their own index.
pub proof fn lemma_relay_tail(m: RelayModel, count: nat)
    requires
        relay_ordered(m),
        !m.held,
        m.baton + count <= m.workers,
    ensures
        relay_run(m, ascending_from(m.baton, m.baton + count)).baton == m.baton + count,
        relay_run(m, ascending_from(m.baton, m.baton + count)).workers == m.workers,
        !relay_run(m, ascending_from(m.baton, m.baton + count)).held,
    decreases count,
{
    let tail = ascending_from(m.baton, m.baton + count);
    if count > 0 {
        let before = ascending_from(m.baton, (m.baton + count - 1) as nat);
        assert(tail.drop_last() =~= before);
        lemma_relay_tail(m, (count - 1) as nat);
    }
}

/// The relay after the acquisitions of each round of `rounds`, round after
/// round.
pub open spec fn relay_rounds(m: RelayModel, rounds: Seq<Seq<nat>>) -> RelayModel
    decreases rounds.len(),
{
    if rounds.len() == 0 {
        m
    } else {
        relay_run(relay_rounds(m, rounds.drop_last()), rounds.last())
    }
}

/// Every worker asks for the lock at least once in `round`.
pub open spec fn round_is_fair(round: Seq<nat>, workers: nat) -> bool {
    forall|i: nat| i < workers ==> round.contains(i)
}

/// Running one schedule and then another is running the two as one.
pub proof fn lemma_relay_run_concat(m: RelayModel, first: Seq<nat>, second: Seq<nat>)
    ensures
        relay_run(m, first + second) == relay_run(relay_run(m, first), second),
    decreases second.len(),
{
    if second.len() == 0 {
        assert(first + second =~= first);
    } else {
        assert((first + second).drop_last() =~= first + second.drop_last());
        lemma_relay_run_concat(m, first, second.drop_last());
    }
}

/// A schedule in which the worker whose turn it is asks for the lock moves the
/// baton on, wherever in the schedule that worker stands.
pub proof fn lemma_relay_round_advances(m: RelayModel, round: Seq<nat>)
    requires
        relay_ordered(m),
        !m.held,
        m.baton < m.workers,
        round.contains(m.baton),
    ensures
        relay_run(m, round).baton > m.baton,
    decreases round.len(),
{
    let init = round.drop_last();
    let before = relay_run(m, init);
    lemma_relay_run_ordered(m, init);
    lemma_relay_attempt_ordered(before, round.last());
    if before.baton == m.baton && round.last() != m.baton {
        let k = choose|k: int| 0 <= k < round.len() && round[k] == m.baton;
        assert(init[k] == m.baton);
        lemma_relay_round_advances(m, init);
    }
}

/// Fair rounds move the baton on by at least one worker each, until it has
/// reached the last.
pub proof fn lemma_relay_rounds_advance(workers: nat, rounds: Seq<Seq<nat>>)
    requires
        forall|r: int| 0 <= r < rounds.len() ==> round_is_fair(#[trigger] rounds[r], workers),
    ensures
        relay_ordered(relay_rounds(relay_released(workers), rounds)),
        relay_rounds(relay_released(workers), rounds).workers == workers,
        !relay_rounds(relay_released(workers), rounds).held,
        relay_rounds(relay_released(workers), rounds).baton >= rounds.len()
            || relay_rounds(relay_released(workers), rounds).baton == workers,
    decreases rounds.len(),
{
    if rounds.len() == 0 {
        assert(relay_released(workers).turns =~= ascending(0));
    } else {
        let init = rounds.drop_last();
        let before = relay_rounds(relay_released(workers), init);
        assert forall|r: int| 0 <= r < init.len() implies round_is_fair(
            #[trigger] init[r],
            workers,
        ) by {
            assert(init[r] == rounds[r]);
        }
        lemma_relay_rounds_advance(workers, init);
        lemma_relay_run_ordered(before, rounds.last());
        if before.baton < workers {
            assert(round_is_fair(rounds[rounds.len() - 1], workers));
            lemma_relay_round_advances(before, rounds.last());
        }
    }
}

/// The relay does not rest on timing. Let the workers contend in any order
/// whatever, as long as each of them asks for the lock at least once per
/// round: after as many rounds as there are workers the baton reads the
/// number of workers, and the turns were taken in index order.
pub proof fn lemma_relay_fair(workers: nat, rounds: Seq<Seq<nat>>)
    requires
        rounds.len() >= workers,
        forall|r: int| 0 <= r < rounds.len() ==> round_is_fair(#[trigger] rounds[r], workers),
    ensures
        relay_rounds(relay_released(workers), rounds).baton == workers,
        relay_rounds(relay_released(workers), rounds).turns == ascending(workers),
{
    lemma_relay_rounds_advance(workers, rounds);
}

/// A relay that can be run: the executable counterpart of [`RelayModel`].
pub struct MutexRelayProbe {
    workers: usize,
    held: bool,
    baton: usize,
    turns: Vec<usize>,
}

/// A schedule of worker indices as the model reads it.
pub open spec fn schedule_of(indices: Seq<usize>) -> Seq<nat> {
    indices.map_values(|v: usize| v as nat)
}

impl View for MutexRelayProbe {
    type V = RelayModel;

    closed spec fn view(&self) -> RelayModel {
        RelayModel {
            workers: self.workers as nat,
            held: self.held,
            baton: self.baton as nat,
            turns: schedule_of(self.turns@),
        }
    }
}

impl MutexRelayProbe {
    /// The baton counts the turns taken, and they were taken in index order.
    pub open spec fn wf(&self) -> bool {
        relay_ordered(self@)
    }

    /// A relay of `workers` workers with the baton at zero and the lock in
    /// the orchestrator's hand.
    pub fn new(workers: usize) -> (relay: MutexRelayProbe)
        ensures
            relay@ == relay_start(workers as nat),
            relay.wf(),
    {
        let relay = MutexRelayProbe { workers, held: true, baton: 0, turns: Vec::new() };
        assert(relay@.turns =~= Seq::<nat>::empty());
        assert(relay@.turns =~= ascending(0));
        relay
    }

    /// The orchestrator gives its hold back; from now on the workers get the
    /// lock.
    pub fn release(&mut self)
        requires
            old(self).wf(),
        ensures
            final(self)@ == relay_release(old(self)@),
            final(self).wf(),
    {
        self.held = false;
    }

    /// One acquisition asked for by worker `index`; says whether the worker
    /// took its turn or has to back off, or `None` while the orchestrator's
    /// hold keeps the worker from the lock.
    pub fn attempt(&mut self, index: usize) -> (action: Option<RelayAction>)
        requires
            old(self).wf(),
        ensures
            final(self)@ == relay_attempt(old(self)@, index as nat),
            final(self).wf(),
            action == (if old(self)@.held {
                None
            } else if index < old(self)@.workers && old(self)@.baton == index {
                Some(RelayAction::Advance)
            } else {
                Some(RelayAction::Backoff)
            }),
    {
        proof {
            lemma_relay_attempt_ordered(self@, index as nat);
        }
        if self.held {
            None
        } else if index < self.workers {
            let turn = relay_step(self.baton, index);
            match turn.action {
                RelayAction::Advance => {
                    self.baton = turn.baton;
                    self.turns.push(index);
                    assert(self@.turns =~= old(self)@.turns.push(index as nat));
                },
                RelayAction::Backoff => {},
            }
            Some(turn.action)
        } else {
            Some(RelayAction::Backoff)
        }
    }

    /// The acquisitions of `schedule`, in that order.
    pub fn run(&mut self, schedule: &Vec<usize>)
        requires
            old(self).wf(),
        ensures
            final(self)@ == relay_run(old(self)@, schedule_of(schedule@)),
            final(self).wf(),
    {
        let mut i: usize = 0;
        assert(schedule_of(schedule@).take(0) =~= Seq::<nat>::empty());
        while i < schedule.len()
            invariant
                i <= schedule.len(),
                self.wf(),
                self@ == relay_run(old(self)@, schedule_of(schedule@).take(i as int)),
            decreases schedule.len() - i,
        {
            let ghost all = schedule_of(schedule@);
            assert(all.take(i + 1).drop_last() =~= all.take(i as int));
            assert(all.take(i + 1).last() == schedule[i as int] as nat);
            self.attempt(schedule[i]);
            i += 1;
        }
        assert(schedule_of(schedule@).take(i as int) =~= schedule_of(schedule@));
    }

    /// The number of workers.
    pub fn workers(&self) -> (n: usize)
        ensures
            n == self@.workers,
    {
        self.workers
    }

    /// Whether the orchestrator still holds the lock.
    pub fn held(&self) -> (held: bool)
        ensures
            held == self@.held,
    {
        self.held
    }

    /// What the baton reads.
    pub fn baton(&self) -> (n: usize)
        ensures
            n == self@.baton,
    {
        self.baton
    }

    /// The indices of the workers that took their turn, in the order in which
    /// they took it.
    pub fn turns(&self) -> (log: &Vec<usize>)
        ensures
            schedule_of(log@) == self@.turns,
    {
        &self.turns
    }

    /// Whether worker `index` has taken its turn; a finished worker can be
    /// joined.
    pub fn finished(&self, index: usize) -> (done: bool)
        requires
            self.wf(),
        ensures
            done == relay_finished(self@, index as nat),
    {
        proof {
            let turns = self@.turns;
            if index < self.baton {
                assert(turns[index as int] == index as nat);
            } else if turns.contains(index as nat) {
                let k = choose|k: int| 0 <= k < turns.len() && turns[k] == index as nat;
                assert(turns[k] == k as nat);
            }
        }
        index < self.baton
    }

    /// The orchestrator's final check, made after every worker has been
    /// joined: the baton must read the number of workers.
    pub fn check(&self) -> (r: Result<(), ProbeError>)
        ensures
            r == (if self@.baton == self@.workers {
                Ok::<(), ProbeError>(())
            } else {
                Err(ProbeError::AssertionFailed)
            }),
    {
        crate::error::check_counter(self.baton, self.workers)
    }
}

} // verus!
