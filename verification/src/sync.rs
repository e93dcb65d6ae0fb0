//! Recovery of a lock guard from a poisoned lock. The store itself is a
//! plain value; callers that share it wrap it in a lock, and a thread
//! that panicked while holding that lock poisons it. Every store
//! operation either completes its mutation or leaves the store unchanged,
//! so the value behind a poisoned lock is still sound and the guard can
//! simply be taken.

use vstd::prelude::*;

verus! {

/// std's marker for a lock whose holder panicked; opaque here, it only
/// carries the guard through.
#[verifier::external_type_specification]
#[verifier::external_body]
#[verifier::reject_recursive_types(T)]
pub struct ExPoisonError<T>(std::sync::PoisonError<T>);

/// Relies on std's `PoisonError::into_inner`: it consumes the error and
/// returns the lock guard it carries. Nothing further is promised of that
/// guard.
pub assume_specification<T>[ std::sync::PoisonError::<T>::into_inner ](
    err: std::sync::PoisonError<T>,
) -> T;

/// Takes the guard out of a lock-acquisition result, recovering it when
/// the lock was poisoned by a panicking holder.
pub fn handle_poison<T>(result: Result<T, std::sync::PoisonError<T>>) -> (r: T)
    ensures
        result matches Ok(guard) ==> r == guard,
{
    match result {
        Ok(guard) => guard,
        Err(poisoned) => poisoned.into_inner(),
    }
}

} // verus!
