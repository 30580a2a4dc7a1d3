//! The numbers that samples and coefficients are made of.

use core::ops::{Add, Div, Mul, Neg, Sub};
use vstd::prelude::*;
use vstd::std_specs::convert::FromSpec;
use vstd::std_specs::ops::{AddSpec, DivSpec, MulSpec, NegSpec, SubSpec};

verus! {

/// A numeric type that samples can be made of: it can be copied, added,
/// subtracted, multiplied, divided and negated, and the small integers
/// convert into it, which is where zero and one come from.
///
/// Every signed primitive number with at least 16 bits is a `Sample`.
pub trait Sample: Copy + From<i8> + Add<Output = Self> + Sub<Output = Self> + Mul<
    Output = Self,
> + Div<Output = Self> + Neg<Output = Self> {

}

impl<T> Sample for T where
    T: Copy + From<i8> + Add<Output = T> + Sub<Output = T> + Mul<Output = T> + Div<Output = T> + Neg<
        Output = T,
    >,
 {

}

/// The arithmetic of `T` computes what its specification says, so that
/// results can be stated exactly. This holds of the primitive integers. Of
/// floating-point numbers nothing is specified: the same code runs on them,
/// but no contract here speaks of what it computes.
pub open spec fn lawful<T: Sample>() -> bool {
    &&& T::obeys_add_spec()
    &&& T::obeys_sub_spec()
    &&& T::obeys_mul_spec()
    &&& T::obeys_div_spec()
    &&& T::obeys_neg_spec()
    &&& <T as FromSpec<i8>>::obeys_from_spec()
}

/// The additive identity of `T`.
pub open spec fn zero<T: Sample>() -> T {
    <T as FromSpec<i8>>::from_spec(0i8)
}

/// The multiplicative identity of `T`.
pub open spec fn one<T: Sample>() -> T {
    <T as FromSpec<i8>>::from_spec(1i8)
}

/// Zero as a value.
pub fn make_zero<T: Sample>() -> (z: T)
    requires
        lawful::<T>(),
    ensures
        z == zero::<T>(),
{
    T::from(0i8)
}

/// One as a value.
pub fn make_one<T: Sample>() -> (u: T)
    requires
        lawful::<T>(),
    ensures
        u == one::<T>(),
{
    T::from(1i8)
}

/// The signed primitive integers of 16 bits and more are lawful, with the
/// integers zero and one as their identities.
pub proof fn lemma_integers_are_lawful()
    ensures
        lawful::<i16>() && zero::<i16>() == 0 && one::<i16>() == 1,
        lawful::<i32>() && zero::<i32>() == 0 && one::<i32>() == 1,
        lawful::<i64>() && zero::<i64>() == 0 && one::<i64>() == 1,
        lawful::<i128>() && zero::<i128>() == 0 && one::<i128>() == 1,
        lawful::<isize>() && zero::<isize>() == 0 && one::<isize>() == 1,
{
}

} // verus!
