//! The annotations that an analysed program calls.
//!
//! At run time none of them does anything: they mark places for the
//! analyzer, which recognises them by their paths.

use vstd::prelude::*;
use vstd::std_specs::convert::FromSpec;

verus! {

/// Marks a condition that the analyzer is to prove.
#[allow(non_snake_case)]
pub fn Vassert(_cond: bool) {
}

/// Marks a condition that the analyzer may take for granted.
#[allow(non_snake_case)]
pub fn Vassume(_cond: bool) {
}

/// Marks an invariant of the loop that follows.
#[allow(non_snake_case)]
pub fn Vinvariant(_cond: bool) {
}

/// Stands for an integer that the analyzer knows nothing about. At run time
/// it is zero.
#[allow(non_snake_case)]
pub fn Vrand_int<T: From<i32>>() -> (value: T)
    ensures
        T::obeys_from_spec() ==> value == T::from_spec(0i32),
{
    T::from(0)
}

/// Stands for a truth value that the analyzer knows nothing about. At run
/// time it is false.
#[allow(non_snake_case)]
pub fn Vrand_bool<T: From<bool>>() -> (value: T)
    ensures
        T::obeys_from_spec() ==> value == T::from_spec(false),
{
    T::from(false)
}

/// Marks the end of a value's use: the analyzer forgets what it knew of it.
#[allow(non_snake_case)]
pub fn Vdrop<T>(_value: T) {
}

} // verus!
