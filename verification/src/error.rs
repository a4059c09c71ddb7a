use vstd::prelude::*;

verus! {

/// The ways a probe can fail. None of them is retried: each one says that the
/// primitive under test is broken.
#[derive(Clone, Copy, Debug, PartialEq, Eq, Structural)]
pub enum ProbeError {
    /// An earlier holder ended abnormally while it held the lock.
    LockPoisoned,
    /// The final state of a probe is not the expected one.
    AssertionFailed,
    /// A worker ended abnormally; seen by the orchestrator when it joins.
    ThreadPanicked,
}

/// What an acquisition attempt is worth to a probe: a poisoned lock is fatal.
pub fn acquired(poisoned: bool) -> (r: Result<(), ProbeError>)
    ensures
        r == (if poisoned { Err::<(), ProbeError>(ProbeError::LockPoisoned) } else { Ok(()) }),
{
    if poisoned {
        Err(ProbeError::LockPoisoned)
    } else {
        Ok(())
    }
}

/// What a join is worth to the orchestrator: a worker that panicked is fatal.
pub fn joined(panicked: bool) -> (r: Result<(), ProbeError>)
    ensures
        r == (if panicked { Err::<(), ProbeError>(ProbeError::ThreadPanicked) } else { Ok(()) }),
{
    if panicked {
        Err(ProbeError::ThreadPanicked)
    } else {
        Ok(())
    }
}

/// The final-state check of the two counting probes: the counter that the
/// orchestrator reads after joining must equal the number of workers.
pub fn check_counter(counter: usize, workers: usize) -> (r: Result<(), ProbeError>)
    ensures
        r == (if counter == workers { Ok::<(), ProbeError>(()) } else { Err(ProbeError::AssertionFailed) }),
{
    if counter == workers {
        Ok(())
    } else {
        Err(ProbeError::AssertionFailed)
    }
}

} // verus!
