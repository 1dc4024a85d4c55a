//! Randomness for peer sampling.
//!
//! Every draw goes through the `rand` crate; the verified code states only
//! what holds of every outcome, never which value comes back.

use vstd::prelude::*;

verus! {

/// Relies on rand::random: a freshly drawn value of the requested type.
/// Nothing is assumed of which value comes back.
pub assume_specification<T>[ rand::random::<T> ]() -> (r: T)
    where
        rand::distributions::Standard: rand::distributions::Distribution<T>,
;

/// Draws a uniformly random index below `len`.
pub fn random_index(len: usize) -> (r: usize)
    requires
        len > 0,
    ensures
        r < len,
{
    let x: u64 = rand::random::<u64>();
    let m: u64 = x % (len as u64);
    proof {
        assert(m < len as u64);
    }
    m as usize
}

} // verus!
