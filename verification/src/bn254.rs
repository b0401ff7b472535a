//! The scalar field of the BN254 curve.

use crate::field::Field;
use vstd::arithmetic::div_mod::*;
use vstd::arithmetic::mul::*;
use vstd::prelude::*;

verus! {

/// The order of the field.
pub open spec fn order() -> nat {
    0x30644e72e131a029b85045b68181585d2833e84879b9709143e1f593f0000001nat
}

/// The number of values of a digit.
pub open spec fn base() -> nat {
    0x1_0000_0000_0000_0000
}

/// The number whose digits to the base `2^64` are `limbs`, the least significant one first.
pub open spec fn number(limbs: [u64; 4]) -> nat {
    limbs[0] as nat + base() * (limbs[1] as nat + base() * (limbs[2] as nat + base() * (
    limbs[3] as nat)))
}

/// The digits of `n` to the base `2^64`, the least significant one first.
pub open spec fn digits(n: nat) -> [u64; 4] {
    [
        (n % base()) as u64,
        (n / base() % base()) as u64,
        (n / base() / base() % base()) as u64,
        (n / base() / base() / base()) as u64,
    ]
}

/// An element of the scalar field of BN254, as the number below the order that stands for it.
#[derive(Clone, Copy, Debug, PartialEq, Eq)]
pub struct Fp {
    limbs: [u64; 4],
}

/// The zero of the field, by `Fr::zero` of `ark_bn254`, an instance of `ark_ff::Zero::zero`. It
/// stands for the number zero.
#[verifier::external_body]
fn ark_zero() -> (limbs: [u64; 4])
    ensures
        number(limbs) == 0,
{
    let zero: ark_bn254::Fr = ark_ff::Zero::zero();
    ark_ff::PrimeField::into_bigint(zero).0
}

/// The element for `value`, by `<Fr as From<u64>>::from` of `ark_bn254`. The order of the field
/// exceeds every `u64`, so that the element stands for `value` itself.
#[verifier::external_body]
fn ark_from_u64(value: u64) -> (limbs: [u64; 4])
    ensures
        number(limbs) == value,
{
    let element = ark_bn254::Fr::from(value);
    ark_ff::PrimeField::into_bigint(element).0
}

/// The multiplicative inverse of the element that `limbs` stands for, by `ark_ff::Field::inverse`
/// on `Fr` of `ark_bn254`. Zero alone has none; the product of any other element and its inverse
/// is one.
#[verifier::external_body]
fn ark_inverse(limbs: [u64; 4]) -> (inverse: Option<[u64; 4]>)
    requires
        number(limbs) < order(),
    ensures
        inverse is None <==> number(limbs) == 0,
        inverse matches Some(other) ==> number(other) < order() && (number(limbs) * number(other))
            % order() == 1,
{
    let element: ark_bn254::Fr = ark_ff::PrimeField::from_bigint(ark_ff::BigInt(limbs)).unwrap();
    match ark_ff::Field::inverse(&element) {
        Some(other) => Some(ark_ff::PrimeField::into_bigint(other).0),
        None => None,
    }
}

impl Fp {
    #[verifier::type_invariant]
    spec fn is_reduced(self) -> bool {
        number(self.limbs) < order()
    }

    /// The number below the order that stands for the element.
    pub closed spec fn value(self) -> nat {
        number(self.limbs)
    }

    /// The element that the number `n` stands for.
    pub closed spec fn of(n: nat) -> Fp {
        Fp { limbs: digits(n % order()) }
    }

    /// Returns the number that stands for the element, to the base `2^64`, the least significant
    /// digit first.
    pub fn limbs(&self) -> (limbs: [u64; 4])
        ensures
            number(limbs) == self.value(),
            self.value() < order(),
    {
        proof {
            use_type_invariant(self);
        }
        self.limbs
    }

    /// The elements are the numbers below the order: the one for `n` has the value `n`, and there
    /// is no other with that value.
    pub proof fn lemma_of_value(n: nat)
        requires
            n < order(),
        ensures
            Self::of(n).value() == n,
            forall|element: Fp| element.value() == n ==> element == Self::of(n),
    {
        lemma_small_mod(n, order());
        lemma_number_of_digits(n);
        assert forall|element: Fp| element.value() == n implies element == Self::of(n) by {
            lemma_digits_of_number(element.limbs);
        }
    }
}

/// A number below `2^256` is the one that its digits stand for.
proof fn lemma_number_of_digits(n: nat)
    requires
        n < order(),
    ensures
        number(digits(n)) == n,
{
    let b = base() as int;
    let (n1, n2, n3) = (n as int / b, n as int / b / b, n as int / b / b / b);
    lemma_fundamental_div_mod(n as int, b);
    lemma_fundamental_div_mod(n1, b);
    lemma_fundamental_div_mod(n2, b);
    assert(n3 < b);
    let limbs = digits(n);
    assert(limbs[0] == n as int % b);
    assert(limbs[1] == n1 % b);
    assert(limbs[2] == n2 % b);
    assert(limbs[3] == n3);
}

/// A number has no other digits than those that it is made of.
proof fn lemma_digits_of_number(limbs: [u64; 4])
    ensures
        limbs == digits(number(limbs)),
{
    let b = base() as int;
    let n = number(limbs) as int;
    let n1 = limbs[1] + b * (limbs[2] + b * limbs[3]);
    let n2 = limbs[2] + b * limbs[3];
    lemma_fundamental_div_mod_converse(n, b, n1, limbs[0] as int);
    lemma_fundamental_div_mod_converse(n1, b, n2, limbs[1] as int);
    lemma_fundamental_div_mod_converse(n2, b, limbs[3] as int, limbs[2] as int);
    assert(limbs =~= digits(number(limbs)));
}

/// A `u64` is its own residue, so that two of them never stand for the same element, and only the
/// number zero stands for the zero element.
pub proof fn law_embed_is_injective(x: u64, y: u64)
    ensures
        Fp::embed(x) == Fp::embed(y) <==> x == y,
        Fp::embed(x) == Fp::zero_element() <==> x == 0,
        Fp::embed(x).value() == x,
{
    Fp::lemma_of_value(x as nat);
    Fp::lemma_of_value(y as nat);
    Fp::lemma_of_value(0);
}

/// An element has at most one multiplicative inverse.
pub proof fn law_inverse_is_unique(x: Fp, y: Fp, z: Fp)
    requires
        y.value() < order(),
        z.value() < order(),
        x.times(y) == Fp::one_element(),
        x.times(z) == Fp::one_element(),
    ensures
        y == z,
{
    let p = order() as int;
    let (a, b, c) = (x.value() as int, y.value() as int, z.value() as int);
    assert((a * b) % p == 1 && (a * c) % p == 1) by {
        assert(0 <= a * b && 0 <= a * c) by (nonlinear_arith)
            requires
                a >= 0,
                b >= 0,
                c >= 0,
        ;
        lemma_mod_bound(a * b, p);
        lemma_mod_bound(a * c, p);
        Fp::lemma_of_value(((a * b) % p) as nat);
        Fp::lemma_of_value(((a * c) % p) as nat);
        Fp::lemma_of_value(1);
        lemma_mod_twice(a * b, p);
        lemma_mod_twice(a * c, p);
    }
    // b = b * (a * c) = c * (a * b) = c
    assert(b == c) by {
        lemma_mul_mod_noop(b, a * c, p);
        lemma_mul_mod_noop(c, a * b, p);
        assert(b * (a * c) == c * (a * b)) by (nonlinear_arith);
        lemma_small_mod(b as nat, p as nat);
        lemma_small_mod(c as nat, p as nat);
    }
    Fp::lemma_of_value(y.value());
}

impl Field for Fp {
    open spec fn zero_element() -> Fp {
        Fp::of(0)
    }

    open spec fn one_element() -> Fp {
        Fp::of(1)
    }

    open spec fn embed(value: u64) -> Fp {
        Fp::of(value as nat)
    }

    open spec fn times(self, other: Fp) -> Fp {
        Fp::of(self.value() * other.value())
    }

    proof fn law_zero_stands_for_zero() {
    }

    proof fn law_times_commutes(self, other: Fp) {
        lemma_mul_is_commutative(self.value() as int, other.value() as int);
    }

    fn zero() -> Fp {
        proof {
            Fp::lemma_of_value(0);
        }
        let element = Fp { limbs: ark_zero() };
        assert(element.value() == 0);
        element
    }

    fn from_u64(value: u64) -> Fp {
        proof {
            Fp::lemma_of_value(value as nat);
        }
        let element = Fp { limbs: ark_from_u64(value) };
        assert(element.value() == value);
        element
    }

    fn inverse(&self) -> Option<Fp> {
        proof {
            use_type_invariant(self);
            Fp::lemma_of_value(0);
            assert(self.value() == 0 ==> *self == Fp::of(0));
            lemma_small_mod(1, order());
        }
        match ark_inverse(self.limbs) {
            Some(limbs) => Some(Fp { limbs }),
            None => None,
        }
    }
}

/// The digits of a number are worth the powers of `2^64`, from the first one on.
pub proof fn law_digits_of_a_number(limbs: [u64; 4])
    ensures
        number(limbs) == limbs[0] + limbs[1] * 0x1_0000_0000_0000_0000nat + limbs[2]
            * 0x1_0000_0000_0000_0000_0000_0000_0000_0000nat + limbs[3]
            * 0x1_0000_0000_0000_0000_0000_0000_0000_0000_0000_0000_0000_0000nat,
{
}

/// The elements zero and one stand for the numbers zero and one, and the product of two elements
/// for the product of their numbers, up to a multiple of the order.
pub proof fn law_values_of_elements(x: Fp, y: Fp)
    ensures
        Fp::zero_element().value() == 0,
        Fp::one_element().value() == 1,
        x.times(y).value() < order(),
        (x.value() * y.value() - x.times(y).value()) % order() as int == 0,
{
    let p = order() as int;
    let product = x.value() * y.value();
    let rest = product as int % p;
    Fp::lemma_of_value(0);
    Fp::lemma_of_value(1);
    lemma_mod_bound(product as int, p);
    Fp::lemma_of_value(rest as nat);
    lemma_mod_twice(product as int, p);
    lemma_fundamental_div_mod(product as int, p);
    lemma_mod_multiples_basic(product as int / p, p);
    assert(product - rest == (product as int / p) * p) by (nonlinear_arith)
        requires
            product as int == p * (product as int / p) + rest,
    ;
}

} // verus!
