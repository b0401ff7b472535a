//! The fields whose elements make up a witness.

use vstd::prelude::*;

verus! {

/// What witness generation needs of a field: the elements that stand for numbers, and inverses.
pub trait Field: Copy {
    /// The additive identity.
    spec fn zero_element() -> Self;

    /// The multiplicative identity.
    spec fn one_element() -> Self;

    /// The element that stands for the number `value`.
    spec fn embed(value: u64) -> Self;

    /// The product of two elements.
    spec fn times(self, other: Self) -> Self;

    /// The number zero stands for the additive identity.
    proof fn law_zero_stands_for_zero()
        ensures
            Self::embed(0) == Self::zero_element(),
    ;

    /// The order of two factors does not matter.
    proof fn law_times_commutes(self, other: Self)
        ensures
            self.times(other) == other.times(self),
    ;

    /// Returns the additive identity.
    fn zero() -> (element: Self)
        ensures
            element == Self::zero_element(),
    ;

    /// Returns the element that stands for `value`.
    fn from_u64(value: u64) -> (element: Self)
        ensures
            element == Self::embed(value),
    ;

    /// Returns the multiplicative inverse of every element but zero.
    fn inverse(&self) -> (inverse: Option<Self>)
        ensures
            inverse is None <==> *self == Self::zero_element(),
            inverse matches Some(element) ==> self.times(element) == Self::one_element(),
    ;
}

} // verus!
