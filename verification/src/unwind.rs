use vstd::prelude::*;
use crate::error::ProbeError;

verus! {

/// The verdict on the unwinding check. The host runs a unit of work that is
/// known to panic and says whether the panic was caught at the boundary it was
/// run under; a panic that was not caught there is a failed check.
pub fn test_panic_unwind(caught: bool) -> (r: Result<(), ProbeError>)
    ensures
        r == (if caught { Ok::<(), ProbeError>(()) } else { Err(ProbeError::AssertionFailed) }),
{
    if caught {
        Ok(())
    } else {
        Err(ProbeError::AssertionFailed)
    }
}

} // verus!
