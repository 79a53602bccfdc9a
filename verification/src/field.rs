//! Arithmetic in the prime field with `2^64 - 2^32 + 1` elements.

use twenty_first::math::traits::ModPowU32;
use vstd::arithmetic::div_mod::lemma_mul_mod_noop_general;
use vstd::prelude::*;

verus! {

/// The field's prime modulus, `2^64 - 2^32 + 1`.
pub const P: u64 = 0xffff_ffff_0000_0001;

/// An element of the prime field, held as a residue modulo [`P`].
///
/// Every element that this library produces is canonical: its residue is the least
/// non-negative one. All operations are total on `value`, whatever it holds.
#[derive(Clone, Copy, Debug, PartialEq, Eq, Structural)]
pub struct BFieldElement {
    pub value: u64,
}

/// The element that an integer stands for.
pub open spec fn field_element(n: int) -> BFieldElement {
    BFieldElement { value: (n % (P as int)) as u64 }
}

pub open spec fn field_sum(a: BFieldElement, b: BFieldElement) -> BFieldElement {
    field_element(a.value + b.value)
}

pub open spec fn field_difference(a: BFieldElement, b: BFieldElement) -> BFieldElement {
    field_element(a.value - b.value)
}

pub open spec fn field_product(a: BFieldElement, b: BFieldElement) -> BFieldElement {
    field_element(a.value * b.value)
}

/// Whether `r` is the canonical multiplicative inverse of `a`.
pub open spec fn is_field_inverse(a: BFieldElement, r: BFieldElement) -> bool {
    r.value < P && (a.value * r.value) % (P as int) == 1
}

/// The multiplicative inverse of an element other than zero.
pub open spec fn field_inverse(a: BFieldElement) -> BFieldElement {
    choose|r: BFieldElement| is_field_inverse(a, r)
}

/// `base` raised to the power `exponent`.
pub open spec fn field_power(base: BFieldElement, exponent: nat) -> BFieldElement
    decreases exponent,
{
    if exponent == 0 {
        field_element(1)
    } else {
        field_product(base, field_power(base, (exponent - 1) as nat))
    }
}

/// An element has at most one canonical inverse.
pub proof fn lemma_field_inverse_unique(a: BFieldElement, r: BFieldElement, s: BFieldElement)
    requires
        is_field_inverse(a, r),
        is_field_inverse(a, s),
    ensures
        r == s,
{
    let p = P as int;
    let av = a.value as int;
    let rv = r.value as int;
    let sv = s.value as int;
    assert((rv * av) * sv == rv * (av * sv)) by (nonlinear_arith);
    assert(rv * av == av * rv) by (nonlinear_arith);
    lemma_mul_mod_noop_general(rv * av, sv, p);
    lemma_mul_mod_noop_general(rv, av * sv, p);
    assert((1 * sv) % p == sv);
    assert((rv * 1) % p == rv);
}

/// Calls `BFieldElement::inverse` of the crate twenty-first. That function raises its operand
/// to the power `P - 2`, and panics on zero. The contract states that the result, read back
/// canonically, multiplies with the operand to one.
#[verifier::external_body]
fn inverse_of_nonzero(a: BFieldElement) -> (r: BFieldElement)
    requires
        a.value % P != 0,
    ensures
        is_field_inverse(a, r),
{
    let operand = twenty_first::math::b_field_element::BFieldElement::new(a.value);
    BFieldElement { value: operand.inverse().value() }
}

/// Calls `ModPowU32::mod_pow_u32` of the crate twenty-first on a field element. The contract
/// states that the result, read back canonically, is the operand multiplied with itself
/// `exponent` times.
#[verifier::external_body]
fn power_of(base: BFieldElement, exponent: u32) -> (r: BFieldElement)
    ensures
        r == field_power(base, exponent as nat),
{
    let operand = twenty_first::math::b_field_element::BFieldElement::new(base.value);
    BFieldElement { value: operand.mod_pow_u32(exponent).value() }
}

impl BFieldElement {
    pub open spec fn is_canonical(self) -> bool {
        self.value < P
    }

    /// The element that `value` stands for, reduced.
    pub fn new(value: u64) -> (r: Self)
        ensures
            r == field_element(value as int),
            r.is_canonical(),
    {
        BFieldElement { value: value % P }
    }

    pub fn zero() -> (r: Self)
        ensures
            r.value == 0,
    {
        BFieldElement { value: 0 }
    }

    pub fn one() -> (r: Self)
        ensures
            r.value == 1,
    {
        BFieldElement { value: 1 }
    }

    /// The residue that is held.
    pub fn value(&self) -> (v: u64)
        ensures
            v == self.value,
    {
        self.value
    }

    pub fn is_zero(&self) -> (b: bool)
        ensures
            b == (self.value % P == 0),
    {
        self.value % P == 0
    }

    pub fn plus(self, rhs: Self) -> (r: Self)
        ensures
            r == field_sum(self, rhs),
            r.is_canonical(),
    {
        let wide: u128 = (self.value as u128 + rhs.value as u128) % (P as u128);
        BFieldElement { value: wide as u64 }
    }

    pub fn minus(self, rhs: Self) -> (r: Self)
        ensures
            r == field_difference(self, rhs),
            r.is_canonical(),
    {
        let modulus: u128 = P as u128;
        let lifted: u128 = self.value as u128 + 2 * modulus - rhs.value as u128;
        assert((lifted as int) % (P as int) == (self.value - rhs.value) % (P as int)) by {
            vstd::arithmetic::div_mod::lemma_mod_multiples_vanish(
                2,
                self.value - rhs.value,
                P as int,
            );
        }
        BFieldElement { value: (lifted % modulus) as u64 }
    }

    pub fn times(self, rhs: Self) -> (r: Self)
        ensures
            r == field_product(self, rhs),
            r.is_canonical(),
    {
        assert(self.value * rhs.value <= 0xffff_ffff_ffff_ffff * 0xffff_ffff_ffff_ffff)
            by (nonlinear_arith)
            requires
                self.value <= 0xffff_ffff_ffff_ffff,
                rhs.value <= 0xffff_ffff_ffff_ffff,
        ;
        let wide: u128 = (self.value as u128 * rhs.value as u128) % (P as u128);
        BFieldElement { value: wide as u64 }
    }

    /// The multiplicative inverse, which every element but zero has.
    pub fn inverse(self) -> (r: Option<Self>)
        ensures
            r is None <==> self.value % P == 0,
            r matches Some(x) ==> x == field_inverse(self) && is_field_inverse(self, x),
    {
        if self.is_zero() {
            None
        } else {
            let x = inverse_of_nonzero(self);
            proof {
                lemma_field_inverse_unique(self, x, field_inverse(self));
            }
            Some(x)
        }
    }

    /// The element raised to the power `exponent`.
    pub fn power(self, exponent: u32) -> (r: Self)
        ensures
            r == field_power(self, exponent as nat),
    {
        power_of(self, exponent)
    }
}

} // verus!
