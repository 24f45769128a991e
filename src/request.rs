use vstd::prelude::*;

use crate::error::DbgenError;

verus! {

/// Whether a partition request is malformed: both bounds are given and the
/// step lies beyond the number of steps.
pub open spec fn partition_invalid(step: Option<usize>, n_steps: Option<usize>) -> bool {
    match (step, n_steps) {
        (Some(s), Some(n)) => s > n,
        _ => false,
    }
}

/// Checks the partition invariant of a generation request. This runs before
/// any workspace is created or the generator is called, so a request that
/// fails here has no side effect.
pub fn check_partition(step: Option<usize>, n_steps: Option<usize>) -> (r: Result<(), DbgenError>)
    ensures
        r is Err <==> partition_invalid(step, n_steps),
        r matches Err(e) ==> e == (DbgenError::InvalidPartition {
            step: step.unwrap(),
            n_steps: n_steps.unwrap(),
        }),
{
    if let (Some(s), Some(n)) = (step, n_steps) {
        if s > n {
            return Err(DbgenError::InvalidPartition { step: s, n_steps: n });
        }
    }
    Ok(())
}

/// Interprets the generator's exit status: zero is success, anything else is
/// surfaced with its code.
pub fn generation_outcome(status: i32) -> (r: Result<(), DbgenError>)
    ensures
        status == 0 ==> r is Ok,
        status != 0 ==> r == Err::<(), DbgenError>(DbgenError::GenerationFailed { code: status }),
{
    if status == 0 {
        Ok(())
    } else {
        Err(DbgenError::GenerationFailed { code: status })
    }
}

} // verus!
