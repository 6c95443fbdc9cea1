//! Small helpers.
use vstd::prelude::*;

verus! {

/// The value of a result whose error the caller has already dealt with.
pub fn ignore_err<T, E>(x: Result<T, E>) -> (r: Option<T>)
    ensures
        match x {
            Ok(t) => r == Some(t),
            Err(_) => r is None,
        },
{
    match x {
        Ok(t) => Some(t),
        Err(_) => None,
    }
}

} // verus!
