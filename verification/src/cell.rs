use vstd::prelude::*;
use crate::error::ProbeError;

verus! {

/// The two flavours of lock a cell can stand for.
#[derive(Clone, Copy, Debug, PartialEq, Eq, Structural)]
pub enum CellKind {
    /// Mutual exclusion: one holder at a time.
    Mutex,
    /// Shared/exclusive: many shared holders or one exclusive holder.
    ReadWrite,
}

/// The answer to an acquisition on a cell that is not poisoned.
#[derive(Clone, Copy, Debug, PartialEq, Eq, Structural)]
pub enum Acquire {
    /// Access is granted; the caller now holds the cell.
    Granted,
    /// Another holder is in the way; the caller has to wait and ask again.
    Blocked,
}

/// Whom the release of an exclusive hold wakes.
#[derive(Clone, Copy, Debug, PartialEq, Eq, Structural)]
pub enum Wake {
    /// One waiter: only one can get a mutual-exclusion lock next.
    One,
    /// All waiters: several shared acquisitions may now succeed together.
    All,
}

/// A cell as a mathematical object: the value, the flavour, who holds it, and
/// whether a holder ended abnormally.
pub struct CellModel<T> {
    pub value: T,
    pub kind: CellKind,
    pub exclusive: bool,
    pub shared: nat,
    pub poisoned: bool,
}

/// The access rule: never a shared and an exclusive holder together, and no
/// shared holder at all on a mutual-exclusion lock.
pub open spec fn cell_exclusion<T>(m: CellModel<T>) -> bool {
    &&& m.exclusive ==> m.shared == 0
    &&& m.kind == CellKind::Mutex ==> m.shared == 0
}

/// Somebody holds the cell.
pub open spec fn cell_held<T>(m: CellModel<T>) -> bool {
    m.exclusive || m.shared > 0
}

/// A value owned by several threads, with the bookkeeping of who may touch it.
/// An acquisition never waits here: it answers at once whether access is
/// granted, and a caller that is told `Blocked` asks again later.
pub struct SharedCell<T> {
    value: T,
    kind: CellKind,
    exclusive: bool,
    shared: usize,
    poisoned: bool,
}

impl<T> View for SharedCell<T> {
    type V = CellModel<T>;

    closed spec fn view(&self) -> CellModel<T> {
        CellModel {
            value: self.value,
            kind: self.kind,
            exclusive: self.exclusive,
            shared: self.shared as nat,
            poisoned: self.poisoned,
        }
    }
}

impl<T> SharedCell<T> {
    /// The cell obeys the access rule.
    pub open spec fn wf(&self) -> bool {
        cell_exclusion(self@)
    }

    /// A cell that nobody holds.
    pub fn new(kind: CellKind, value: T) -> (cell: SharedCell<T>)
        ensures
            cell@ == (CellModel { value, kind, exclusive: false, shared: 0, poisoned: false }),
            cell.wf(),
    {
        SharedCell { value, kind, exclusive: false, shared: 0, poisoned: false }
    }

    /// Asks for exclusive access. A poisoned cell refuses for good; otherwise
    /// access is granted exactly when nobody holds the cell.
    pub fn acquire_exclusive(&mut self) -> (r: Result<Acquire, ProbeError>)
        requires
            old(self).wf(),
        ensures
            final(self).wf(),
            old(self)@.poisoned ==> r == Err::<Acquire, ProbeError>(ProbeError::LockPoisoned)
                && final(self)@ == old(self)@,
            !old(self)@.poisoned && cell_held(old(self)@) ==> r == Ok::<Acquire, ProbeError>(
                Acquire::Blocked,
            ) && final(self)@ == old(self)@,
            !old(self)@.poisoned && !cell_held(old(self)@) ==> r == Ok::<Acquire, ProbeError>(
                Acquire::Granted,
            ) && final(self)@ == (CellModel { exclusive: true, ..old(self)@ }),
    {
        if self.poisoned {
            Err(ProbeError::LockPoisoned)
        } else if self.exclusive || self.shared > 0 {
            Ok(Acquire::Blocked)
        } else {
            self.exclusive = true;
            Ok(Acquire::Granted)
        }
    }

    /// Asks for shared access to a shared/exclusive cell. A poisoned cell
    /// refuses for good; otherwise access is granted exactly when no exclusive
    /// holder is active and the count of shared holders can still grow.
    pub fn acquire_shared(&mut self) -> (r: Result<Acquire, ProbeError>)
        requires
            old(self).wf(),
            old(self)@.kind == CellKind::ReadWrite,
        ensures
            final(self).wf(),
            old(self)@.poisoned ==> r == Err::<Acquire, ProbeError>(ProbeError::LockPoisoned)
                && final(self)@ == old(self)@,
            !old(self)@.poisoned && (old(self)@.exclusive || old(self)@.shared >= usize::MAX)
                ==> r == Ok::<Acquire, ProbeError>(Acquire::Blocked) && final(self)@ == old(
                self,
            )@,
            !old(self)@.poisoned && !old(self)@.exclusive && old(self)@.shared < usize::MAX
                ==> r == Ok::<Acquire, ProbeError>(Acquire::Granted) && final(self)@ == (
            CellModel { shared: old(self)@.shared + 1, ..old(self)@ }),
    {
        if self.poisoned {
            Err(ProbeError::LockPoisoned)
        } else if self.exclusive || self.shared == usize::MAX {
            Ok(Acquire::Blocked)
        } else {
            self.shared = self.shared + 1;
            Ok(Acquire::Granted)
        }
    }

    /// Gives the exclusive hold back, and says whom that wakes.
    pub fn release_exclusive(&mut self) -> (wake: Wake)
        requires
            old(self).wf(),
            old(self)@.exclusive,
        ensures
            final(self).wf(),
            final(self)@ == (CellModel { exclusive: false, ..old(self)@ }),
            wake == (match old(self)@.kind {
                CellKind::Mutex => Wake::One,
                CellKind::ReadWrite => Wake::All,
            }),
    {
        self.exclusive = false;
        match self.kind {
            CellKind::Mutex => Wake::One,
            CellKind::ReadWrite => Wake::All,
        }
    }

    /// Gives one shared hold back, and says whom that wakes: only a
    /// shared/exclusive cell has shared holders, so it is all waiters.
    pub fn release_shared(&mut self) -> (wake: Wake)
        requires
            old(self).wf(),
            old(self)@.shared > 0,
        ensures
            final(self).wf(),
            final(self)@ == (CellModel { shared: (old(self)@.shared - 1) as nat, ..old(self)@ }),
            wake == Wake::All,
    {
        self.shared = self.shared - 1;
        Wake::All
    }

    /// A holder ends abnormally. Its hold is given back, never leaked, and the
    /// cell is poisoned: every later acquisition fails.
    pub fn abandon(&mut self)
        requires
            old(self).wf(),
            cell_held(old(self)@),
        ensures
            final(self).wf(),
            final(self)@ == (if old(self)@.exclusive {
                CellModel { exclusive: false, poisoned: true, ..old(self)@ }
            } else {
                CellModel { shared: (old(self)@.shared - 1) as nat, poisoned: true, ..old(self)@ }
            }),
    {
        if self.exclusive {
            self.exclusive = false;
        } else {
            self.shared = self.shared - 1;
        }
        self.poisoned = true;
    }

    /// Reads the value; for a holder, shared or exclusive.
    pub fn get(&self) -> (value: &T)
        requires
            cell_held(self@),
        ensures
            *value == self@.value,
    {
        &self.value
    }

    /// Replaces the value; for the exclusive holder only.
    pub fn set(&mut self, value: T)
        requires
            old(self)@.exclusive,
        ensures
            final(self)@ == (CellModel { value, ..old(self)@ }),
    {
        self.value = value;
    }

    /// Whether a holder ended abnormally.
    pub fn is_poisoned(&self) -> (poisoned: bool)
        ensures
            poisoned == self@.poisoned,
    {
        self.poisoned
    }
}

} // verus!
