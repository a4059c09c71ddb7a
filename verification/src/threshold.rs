use vstd::prelude::*;
use vstd::set_lib::*;
use crate::error::ProbeError;

verus! {

/// What the poller does after it has read the counter under shared access.
#[derive(Clone, Copy, Debug, PartialEq, Eq, Structural)]
pub enum PollAction {
    /// The counter has reached the number of writers: the poller ends.
    Terminate,
    /// It has not: the poller reports the value it read, releases, sleeps and
    /// reads again.
    Report(usize),
}

/// A writer's only step, taken while it holds exclusive access: the counter
/// goes up by one, whatever it reads.
pub fn writer_step(counter: usize) -> (next: usize)
    requires
        counter < usize::MAX,
    ensures
        next == counter + 1,
{
    counter + 1
}

/// One pass of the poller's loop body, taken while it holds shared access.
pub fn poller_step(counter: usize, writers: usize) -> (action: PollAction)
    ensures
        action == (if counter == writers {
            PollAction::Terminate
        } else {
            PollAction::Report(counter)
        }),
{
    if counter == writers {
        PollAction::Terminate
    } else {
        PollAction::Report(counter)
    }
}

/// What can happen to the counter: writer `Write(i)` gets exclusive access, or
/// the poller gets shared access.
#[derive(Clone, Copy, Debug, PartialEq, Eq, Structural)]
pub enum ThresholdEvent {
    Write(usize),
    Poll,
}

/// The protocol as a mathematical object: the number of writers, whether the
/// orchestrator still holds the exclusive access it took before spawning, the
/// counter, the writers that have made their increment, every value the
/// poller has read, in the order in which it read them, and whether the
/// poller still runs.
pub struct ThresholdModel {
    pub writers: nat,
    pub held: bool,
    pub counter: nat,
    pub written: Set<int>,
    pub observed: Seq<nat>,
    pub polling: bool,
}

/// The protocol as the threads are spawned: the counter is at zero, nothing
/// has been read, and the orchestrator holds exclusive access.
pub open spec fn threshold_start(writers: nat) -> ThresholdModel {
    ThresholdModel {
        writers,
        held: true,
        counter: 0,
        written: Set::empty(),
        observed: Seq::empty(),
        polling: true,
    }
}

/// The orchestrator gives its hold back.
pub open spec fn threshold_release(m: ThresholdModel) -> ThresholdModel {
    ThresholdModel { held: false, ..m }
}

/// The protocol once every thread is spawned and the orchestrator has let go.
pub open spec fn threshold_released(writers: nat) -> ThresholdModel {
    threshold_release(threshold_start(writers))
}

/// Writer `index` gets the lock and has its increment still to make: the
/// orchestrator has let go, the index names a writer, and that writer has not
/// written.
pub open spec fn threshold_can_write(m: ThresholdModel, index: int) -> bool {
    !m.held && 0 <= index < m.writers && !m.written.contains(index)
}

/// Writer `index` asks for exclusive access. While the orchestrator holds the
/// lock nobody gets it. After that the writer increments once in its life; an
/// index that names no writer, or one that has written, changes nothing.
pub open spec fn threshold_write(m: ThresholdModel, index: int) -> ThresholdModel {
    if threshold_can_write(m, index) {
        ThresholdModel { counter: m.counter + 1, written: m.written.insert(index), ..m }
    } else {
        m
    }
}

/// The poller asks for shared access, which it gets once the orchestrator has
/// let go. While it runs it records what it reads, and it ends on reading the
/// number of writers.
pub open spec fn threshold_poll(m: ThresholdModel) -> ThresholdModel {
    if !m.held && m.polling {
        ThresholdModel {
            observed: m.observed.push(m.counter),
            polling: m.counter != m.writers,
            ..m
        }
    } else {
        m
    }
}

/// The protocol after one event.
pub open spec fn threshold_apply(m: ThresholdModel, event: ThresholdEvent) -> ThresholdModel {
    match event {
        ThresholdEvent::Write(index) => threshold_write(m, index as int),
        ThresholdEvent::Poll => threshold_poll(m),
    }
}

/// The protocol after the events of `schedule`, in that order.
pub open spec fn threshold_run(m: ThresholdModel, schedule: Seq<ThresholdEvent>) -> ThresholdModel
    decreases schedule.len(),
{
    if schedule.len() == 0 {
        m
    } else {
        threshold_apply(threshold_run(m, schedule.drop_last()), schedule.last())
    }
}

/// No value of `observed` is larger than one that was read after it.
pub open spec fn non_decreasing(observed: Seq<nat>) -> bool {
    forall|i: int, j: int| 0 <= i <= j < observed.len() ==> observed[i] <= observed[j]
}

/// Every writer has made its increment, which is when the orchestrator's joins
/// return.
pub open spec fn all_written(m: ThresholdModel) -> bool {
    forall|i: int| 0 <= i < m.writers ==> m.written.contains(i)
}

/// The protocol's invariant: the counter is the number of writers that have
/// written; what the poller read never decreases and never exceeds the
/// counter; and a poller that has ended did so on reading the number of
/// writers.
pub open spec fn threshold_consistent(m: ThresholdModel) -> bool {
    &&& m.written.subset_of(set_int_range(0, m.writers as int))
    &&& m.written.finite()
    &&& m.counter == m.written.len()
    &&& m.counter <= m.writers
    &&& non_decreasing(m.observed)
    &&& forall|i: int| 0 <= i < m.observed.len() ==> m.observed[i] <= m.counter
    &&& !m.polling ==> m.counter == m.writers && m.observed.len() > 0 && m.observed.last()
        == m.writers
}

/// An event keeps the invariant, whichever it is, and never lowers the
/// counter.
pub proof fn lemma_threshold_apply_consistent(m: ThresholdModel, event: ThresholdEvent)
    requires
        threshold_consistent(m),
    ensures
        threshold_consistent(threshold_apply(m, event)),
        threshold_apply(m, event).writers == m.writers,
        threshold_apply(m, event).held == m.held,
        threshold_apply(m, event).counter >= m.counter,
{
    let next = threshold_apply(m, event);
    let range = set_int_range(0, m.writers as int);
    lemma_int_range(0, m.writers as int);
    match event {
        ThresholdEvent::Write(index) => {
            if !m.held && 0 <= index < m.writers && !m.written.contains(index as int) {
                assert(next.written.subset_of(range));
                lemma_len_subset(next.written, range);
            }
        },
        ThresholdEvent::Poll => {
            if !m.held && m.polling {
                assert forall|i: int, j: int| 0 <= i <= j < next.observed.len() implies next.observed[i]
                    <= next.observed[j] by {
                    if j < m.observed.len() {
                        assert(m.observed[i] <= m.observed[j]);
                    }
                }
            }
        },
    }
}

/// While the orchestrator holds the lock no writer and no poller gets
/// anywhere, whatever the schedule: the protocol stays as it was when the
/// threads were spawned.
pub proof fn lemma_threshold_held(writers: nat, schedule: Seq<ThresholdEvent>)
    ensures
        threshold_run(threshold_start(writers), schedule) == threshold_start(writers),
    decreases schedule.len(),
{
    if schedule.len() > 0 {
        lemma_threshold_held(writers, schedule.drop_last());
    }
}

/// Whatever the schedule, the counter is the number of writers that have
/// written, the values the poller read are non-decreasing and at most the
/// counter, and a poller that has ended read the number of writers last.
pub proof fn lemma_threshold_invariant(writers: nat, schedule: Seq<ThresholdEvent>)
    ensures
        threshold_consistent(threshold_run(threshold_released(writers), schedule)),
        threshold_run(threshold_released(writers), schedule).writers == writers,
        !threshold_run(threshold_released(writers), schedule).held,
    decreases schedule.len(),
{
    if schedule.len() == 0 {
        assert(threshold_released(writers).written.subset_of(set_int_range(0, writers as int)));
    } else {
        lemma_threshold_invariant(writers, schedule.drop_last());
        lemma_threshold_apply_consistent(
            threshold_run(threshold_released(writers), schedule.drop_last()),
            schedule.last(),
        );
    }
}

/// When every writer has written, the counter is exactly the number of
/// writers.
pub proof fn lemma_threshold_full(m: ThresholdModel)
    requires
        threshold_consistent(m),
        all_written(m),
    ensures
        m.counter == m.writers,
{
    lemma_int_range(0, m.writers as int);
    assert(m.written =~= set_int_range(0, m.writers as int));
}

/// Once every writer has written (which is when the orchestrator's joins
/// return), the counter is exactly the number of writers, whatever the
/// schedule was; and a poller that still runs ends at its next read, with the
/// number of writers as the last value it read.
pub proof fn lemma_threshold_joined(writers: nat, schedule: Seq<ThresholdEvent>)
    requires
        all_written(threshold_run(threshold_released(writers), schedule)),
    ensures
        threshold_run(threshold_released(writers), schedule).counter == writers,
        !threshold_poll(threshold_run(threshold_released(writers), schedule)).polling,
        threshold_poll(threshold_run(threshold_released(writers), schedule)).observed.last()
            == writers,
        non_decreasing(threshold_poll(threshold_run(threshold_released(writers), schedule)).observed),
{
    let m = threshold_run(threshold_released(writers), schedule);
    lemma_threshold_invariant(writers, schedule);
    lemma_threshold_full(m);
    lemma_threshold_apply_consistent(m, ThresholdEvent::Poll);
}

/// A schedule never takes a writer's increment back.
pub proof fn lemma_threshold_written_stays(m: ThresholdModel, schedule: Seq<ThresholdEvent>, index: int)
    requires
        m.written.contains(index),
    ensures
        threshold_run(m, schedule).written.contains(index),
    decreases schedule.len(),
{
    if schedule.len() > 0 {
        lemma_threshold_written_stays(m, schedule.drop_last(), index);
    }
}

/// Once the orchestrator has let go, a writer that gets the lock has made its
/// increment by the time it gives the lock back.
pub proof fn lemma_threshold_write_lands(
    writers: nat,
    schedule: Seq<ThresholdEvent>,
    index: usize,
)
    requires
        index < writers,
        schedule.contains(ThresholdEvent::Write(index)),
    ensures
        threshold_run(threshold_released(writers), schedule).written.contains(index as int),
    decreases schedule.len(),
{
    let init = schedule.drop_last();
    lemma_threshold_invariant(writers, init);
    if schedule.last() != ThresholdEvent::Write(index) {
        let k = choose|k: int| 0 <= k < schedule.len() && schedule[k] == ThresholdEvent::Write(index);
        assert(init[k] == ThresholdEvent::Write(index));
        lemma_threshold_write_lands(writers, init, index);
    }
}

/// Whatever the order in which the writers get the lock, and however the
/// poller's reads fall between them: once each writer has had the lock, the
/// counter is exactly the number of writers.
pub proof fn lemma_threshold_any_order(writers: nat, schedule: Seq<ThresholdEvent>)
    requires
        writers <= usize::MAX,
        forall|i: usize| i < writers ==> schedule.contains(ThresholdEvent::Write(i)),
    ensures
        all_written(threshold_run(threshold_released(writers), schedule)),
        threshold_run(threshold_released(writers), schedule).counter == writers,
{
    let m = threshold_run(threshold_released(writers), schedule);
    lemma_threshold_invariant(writers, schedule);
    assert forall|i: int| 0 <= i < writers implies m.written.contains(i) by {
        lemma_threshold_write_lands(writers, schedule, i as usize);
    }
    lemma_threshold_joined(writers, schedule);
}

/// Each value of `observed` is larger than the one read before it.
pub open spec fn strictly_increasing(observed: Seq<nat>) -> bool {
    forall|i: int, j: int| 0 <= i < j < observed.len() ==> observed[i] < observed[j]
}

/// A strictly increasing row of numbers has at least `i` at place `i`.
pub proof fn lemma_increasing_floor(observed: Seq<nat>, i: int)
    requires
        strictly_increasing(observed),
        0 <= i < observed.len(),
    ensures
        observed[i] >= i,
    decreases i,
{
    if i > 0 {
        lemma_increasing_floor(observed, i - 1);
        assert(observed[i - 1] < observed[i]);
    }
}

/// The poller's reads are bounded by the number of writers: whatever the
/// schedule, if every read found the counter higher than the read before it,
/// there were at most one more reads than writers.
pub proof fn lemma_threshold_poll_bound(writers: nat, schedule: Seq<ThresholdEvent>)
    requires
        strictly_increasing(threshold_run(threshold_released(writers), schedule).observed),
    ensures
        threshold_run(threshold_released(writers), schedule).observed.len() <= writers + 1,
{
    let m = threshold_run(threshold_released(writers), schedule);
    lemma_threshold_invariant(writers, schedule);
    if m.observed.len() > 0 {
        lemma_increasing_floor(m.observed, m.observed.len() - 1);
    }
}

/// Two runs that both end with every writer joined end with the same counter
/// and the same writers done, however differently they were scheduled: a run
/// leaves nothing behind that the next one could see.
pub proof fn lemma_threshold_repeatable(
    writers: nat,
    first: Seq<ThresholdEvent>,
    second: Seq<ThresholdEvent>,
)
    requires
        all_written(threshold_run(threshold_released(writers), first)),
        all_written(threshold_run(threshold_released(writers), second)),
    ensures
        threshold_run(threshold_released(writers), first).counter == threshold_run(
            threshold_released(writers),
            second,
        ).counter,
        threshold_run(threshold_released(writers), first).written == threshold_run(
            threshold_released(writers),
            second,
        ).written,
{
    let a = threshold_run(threshold_released(writers), first);
    let b = threshold_run(threshold_released(writers), second);
    lemma_threshold_joined(writers, first);
    lemma_threshold_joined(writers, second);
    lemma_threshold_invariant(writers, first);
    lemma_threshold_invariant(writers, second);
    assert(a.written =~= set_int_range(0, writers as int));
    assert(b.written =~= set_int_range(0, writers as int));
}

/// The writers that a row of flags marks.
pub open spec fn marked(flags: Seq<bool>) -> Set<int> {
    Set::new(|i: int| 0 <= i < flags.len() && flags[i])
}

/// The values the poller read, as the model holds them.
pub open spec fn readings(values: Seq<usize>) -> Seq<nat> {
    values.map_values(|v: usize| v as nat)
}

/// A protocol that can be run: the executable counterpart of
/// [`ThresholdModel`].
pub struct RwLockThresholdProbe {
    writers: usize,
    held: bool,
    counter: usize,
    written: Vec<bool>,
    observed: Vec<usize>,
    polling: bool,
}

impl View for RwLockThresholdProbe {
    type V = ThresholdModel;

    closed spec fn view(&self) -> ThresholdModel {
        ThresholdModel {
            writers: self.writers as nat,
            held: self.held,
            counter: self.counter as nat,
            written: marked(self.written@),
            observed: readings(self.observed@),
            polling: self.polling,
        }
    }
}

impl RwLockThresholdProbe {
    /// The value keeps the protocol's invariant.
    pub closed spec fn wf(&self) -> bool {
        &&& self.written.len() == self.writers
        &&& threshold_consistent(self@)
    }

    /// What `wf` says of the model.
    pub proof fn lemma_wf(&self)
        requires
            self.wf(),
        ensures
            threshold_consistent(self@),
    {
    }

    /// A protocol of `writers` writers with the counter at zero, the poller
    /// running and the lock in the orchestrator's hand.
    pub fn new(writers: usize) -> (t: RwLockThresholdProbe)
        ensures
            t@ == threshold_start(writers as nat),
            t.wf(),
    {
        let mut written: Vec<bool> = Vec::new();
        let mut i: usize = 0;
        while i < writers
            invariant
                i <= writers,
                written.len() == i,
                forall|k: int| 0 <= k < i ==> !written[k],
            decreases writers - i,
        {
            written.push(false);
            i += 1;
        }
        let t = RwLockThresholdProbe {
            writers,
            held: true,
            counter: 0,
            written,
            observed: Vec::new(),
            polling: true,
        };
        assert(t@.written =~= Set::<int>::empty());
        assert(t@.observed =~= Seq::<nat>::empty());
        assert(t@.written.subset_of(set_int_range(0, writers as int)));
        t
    }

    /// The orchestrator gives its hold back; from now on the writers and the
    /// poller get the lock.
    pub fn release(&mut self)
        requires
            old(self).wf(),
        ensures
            final(self)@ == threshold_release(old(self)@),
            final(self).wf(),
    {
        self.held = false;
    }

    /// Writer `index` asks for exclusive access; says whether it incremented.
    pub fn write(&mut self, index: usize) -> (incremented: bool)
        requires
            old(self).wf(),
        ensures
            final(self)@ == threshold_write(old(self)@, index as int),
            final(self).wf(),
            incremented == threshold_can_write(old(self)@, index as int),
    {
        proof {
            lemma_threshold_apply_consistent(self@, ThresholdEvent::Write(index));
        }
        if !self.held && index < self.writers && !self.written[index] {
            self.counter = writer_step(self.counter);
            self.written.set(index, true);
            assert(self@.written =~= old(self)@.written.insert(index as int));
            true
        } else {
            false
        }
    }

    /// The poller asks for shared access; says what it does next, or `None`
    /// when the orchestrator's hold keeps it from the lock or it has ended
    /// before.
    pub fn poll(&mut self) -> (action: Option<PollAction>)
        requires
            old(self).wf(),
        ensures
            final(self)@ == threshold_poll(old(self)@),
            final(self).wf(),
            action == (if old(self)@.held || !old(self)@.polling {
                None
            } else if old(self)@.counter == old(self)@.writers {
                Some(PollAction::Terminate)
            } else {
                Some(PollAction::Report(old(self)@.counter as usize))
            }),
    {
        proof {
            lemma_threshold_apply_consistent(self@, ThresholdEvent::Poll);
        }
        if !self.held && self.polling {
            let action = poller_step(self.counter, self.writers);
            self.observed.push(self.counter);
            self.polling = self.counter != self.writers;
            assert(self@.observed =~= old(self)@.observed.push(self.counter as nat));
            Some(action)
        } else {
            None
        }
    }

    /// One event.
    pub fn apply(&mut self, event: ThresholdEvent)
        requires
            old(self).wf(),
        ensures
            final(self)@ == threshold_apply(old(self)@, event),
            final(self).wf(),
    {
        match event {
            ThresholdEvent::Write(index) => {
                self.write(index);
            },
            ThresholdEvent::Poll => {
                self.poll();
            },
        }
    }

    /// The events of `schedule`, in that order.
    pub fn run(&mut self, schedule: &Vec<ThresholdEvent>)
        requires
            old(self).wf(),
        ensures
            final(self)@ == threshold_run(old(self)@, schedule@),
            final(self).wf(),
    {
        let mut i: usize = 0;
        assert(schedule@.take(0) =~= Seq::<ThresholdEvent>::empty());
        while i < schedule.len()
            invariant
                i <= schedule.len(),
                self.wf(),
                self@ == threshold_run(old(self)@, schedule@.take(i as int)),
            decreases schedule.len() - i,
        {
            assert(schedule@.take(i + 1).drop_last() =~= schedule@.take(i as int));
            self.apply(schedule[i]);
            i += 1;
        }
        assert(schedule@.take(i as int) =~= schedule@);
    }

    /// The number of writers.
    pub fn writers(&self) -> (n: usize)
        ensures
            n == self@.writers,
    {
        self.writers
    }

    /// Whether the orchestrator still holds the lock.
    pub fn held(&self) -> (held: bool)
        ensures
            held == self@.held,
    {
        self.held
    }

    /// What the counter reads.
    pub fn counter(&self) -> (n: usize)
        ensures
            n == self@.counter,
    {
        self.counter
    }

    /// Every value the poller read, in the order in which it read them.
    pub fn observed(&self) -> (log: &Vec<usize>)
        ensures
            readings(log@) == self@.observed,
    {
        &self.observed
    }

    /// Whether the poller still runs.
    pub fn polling(&self) -> (running: bool)
        ensures
            running == self@.polling,
    {
        self.polling
    }

    /// Whether writer `index` has made its increment; such a writer can be
    /// joined.
    pub fn has_written(&self, index: usize) -> (done: bool)
        requires
            self.wf(),
        ensures
            done == self@.written.contains(index as int),
    {
        index < self.writers && self.written[index]
    }

    /// The orchestrator's final check, made after every writer has been
    /// joined: the counter must read the number of writers.
    pub fn check(&self) -> (r: Result<(), ProbeError>)
        ensures
            r == (if self@.counter == self@.writers {
                Ok::<(), ProbeError>(())
            } else {
                Err(ProbeError::AssertionFailed)
            }),
    {
        crate::error::check_counter(self.counter, self.writers)
    }
}

} // verus!
