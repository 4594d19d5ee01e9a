//! Random words from the `rand` crate.
use vstd::prelude::*;

verus! {

/// Relies on `rand::random`: a value drawn from the thread-local
/// generator. Nothing is promised of the value.
pub assume_specification<T>[ rand::random::<T> ]() -> (r: T)
    where
        rand::distributions::Standard: rand::distributions::Distribution<T>,
;

} // verus!
