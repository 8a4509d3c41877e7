//! Prime fields: arithmetic modulo a number, and the interface that the circuit needs
//! of a type of field elements.

use vstd::arithmetic::div_mod::{
    lemma_fundamental_div_mod, lemma_mod_bound, lemma_mod_multiples_vanish, lemma_mul_mod_noop_left,
    lemma_mul_mod_noop_right, lemma_small_mod,
};
use vstd::prelude::*;

verus! {

/// The sum of `a` and `b` modulo `p`.
pub open spec fn add_mod(p: int, a: int, b: int) -> int {
    (a + b) % p
}

/// The difference of `a` and `b` modulo `p`.
pub open spec fn sub_mod(p: int, a: int, b: int) -> int {
    (a - b) % p
}

/// The product of `a` and `b` modulo `p`.
pub open spec fn mul_mod(p: int, a: int, b: int) -> int {
    (a * b) % p
}

/// Whether `p` is a prime number.
pub open spec fn is_prime(p: int) -> bool {
    &&& p > 1
    &&& forall|d: int| 1 < d < p ==> #[trigger] (p % d) != 0
}

/// Whether `y` is an inverse of `x` modulo `p`.
pub open spec fn is_inverse(p: int, x: int, y: int) -> bool {
    mul_mod(p, x, y) == 1
}

/// The inverse of `x` modulo `p` in `[0, p)`, or 0 where `x` has none.
pub open spec fn inverse_or_zero(p: int, x: int) -> int {
    if exists|y: int| 0 <= y < p && is_inverse(p, x, y) {
        choose|y: int| 0 <= y < p && is_inverse(p, x, y)
    } else {
        0
    }
}

/// A type of elements of a prime field that has more than `u64::MAX` elements.
pub trait Field: Sized + Copy {
    /// The number of elements of the field.
    spec fn modulus() -> int;

    /// The number in `[0, modulus)` that the element stands for.
    spec fn value(&self) -> int;

    /// Every `u64` stands for an element of its own.
    proof fn lemma_modulus_exceeds_u64()
        ensures
            Self::modulus() > u64::MAX,
    ;

    /// The number of elements is prime.
    proof fn lemma_modulus_prime()
        ensures
            is_prime(Self::modulus()),
    ;

    /// The value of an element is reduced.
    proof fn lemma_value_reduced(x: Self)
        ensures
            0 <= x.value() < Self::modulus(),
    ;

    /// The neutral element of addition.
    fn zero() -> (r: Self)
        ensures
            r.value() == 0,
    ;

    /// The neutral element of multiplication.
    fn one() -> (r: Self)
        ensures
            r.value() == 1,
    ;

    /// The element that `n` stands for.
    fn from_u64(n: u64) -> (r: Self)
        ensures
            r.value() == n,
    ;

    /// The sum of two elements.
    fn add(&self, other: &Self) -> (r: Self)
        ensures
            r.value() == add_mod(Self::modulus(), self.value(), other.value()),
            r.value() == (self.value() + other.value()) % Self::modulus(),
    ;

    /// The difference of two elements.
    fn sub(&self, other: &Self) -> (r: Self)
        ensures
            r.value() == sub_mod(Self::modulus(), self.value(), other.value()),
            r.value() == (self.value() - other.value()) % Self::modulus(),
    ;

    /// The product of two elements.
    fn mul(&self, other: &Self) -> (r: Self)
        ensures
            r.value() == mul_mod(Self::modulus(), self.value(), other.value()),
            r.value() == (self.value() * other.value()) % Self::modulus(),
    ;

    /// The inverse of an element; 0 has none.
    fn invert(&self) -> (r: Option<Self>)
        ensures
            match r {
                Some(y) => self.value() != 0 && is_inverse(
                    Self::modulus(),
                    self.value(),
                    y.value(),
                ) && (self.value() * y.value()) % Self::modulus() == 1,
                None => self.value() == 0,
            },
    ;

    /// Whether two elements are the same.
    fn equals(&self, other: &Self) -> (r: bool)
        ensures
            r == (self.value() == other.value()),
    ;

    /// The low 128 bits of the number that the element stands for.
    fn get_lower_128(&self) -> (r: u128)
        ensures
            r == self.value() % 0x1_0000_0000_0000_0000_0000_0000_0000_0000int,
    ;
}

/// Every number that a prime `p` does not divide has an inverse modulo `p`.
pub proof fn lemma_inverse_exists(p: int, a: int) -> (y: int)
    requires
        is_prime(p),
        0 < a < p,
    ensures
        0 <= y < p,
        is_inverse(p, a, y),
    decreases a,
{
    if a == 1 {
        lemma_small_mod(1, p as nat);
        1
    } else {
        let q = p / a;
        let r = p % a;
        lemma_fundamental_div_mod(p, a);
        let z = lemma_inverse_exists(p, r);
        let y = -(q * z);
        // a * y == r * z - p * z
        assert(a * y == r * z + p * (-z)) by (nonlinear_arith)
            requires
                y == -(q * z),
                p == a * q + r,
        ;
        lemma_mod_multiples_vanish(-z, r * z, p);
        assert(mul_mod(p, a, y) == 1);
        lemma_mul_mod_noop_right(a, y, p);
        lemma_mod_bound(y, p);
        y % p
    }
}

/// Two inverses of one number are congruent.
pub proof fn lemma_inverse_unique(p: int, x: int, y: int, z: int)
    requires
        p > 1,
        0 <= y < p,
        0 <= z < p,
        is_inverse(p, x, y),
        is_inverse(p, x, z),
    ensures
        y == z,
{
    // y == y * (x * z) == z * (x * y) == z
    lemma_mul_mod_noop_right(y, x * z, p);
    lemma_mul_mod_noop_right(z, x * y, p);
    assert(y * (x * z) == z * (x * y)) by (nonlinear_arith);
    lemma_small_mod(y as nat, p as nat);
    lemma_small_mod(z as nat, p as nat);
}

/// The inverse that [`inverse_or_zero`] picks is any inverse there is.
pub proof fn lemma_inverse_or_zero(p: int, x: int, y: int)
    requires
        p > 1,
        0 <= y < p,
        is_inverse(p, x, y),
    ensures
        inverse_or_zero(p, x) == y,
{
    let z = inverse_or_zero(p, x);
    lemma_inverse_unique(p, x, y, z);
}

/// For 0 there is no inverse to pick.
pub proof fn lemma_zero_has_no_inverse(p: int)
    requires
        p > 1,
    ensures
        inverse_or_zero(p, 0) == 0,
{
    assert forall|y: int| !is_inverse(p, 0, y) by {
        assert(0 * y == 0);
        lemma_small_mod(0, p as nat);
    }
}

/// A prime field has no zero divisors.
pub proof fn lemma_no_zero_divisors(p: int, a: int, b: int)
    requires
        is_prime(p),
        0 <= a < p,
        0 <= b < p,
        mul_mod(p, a, b) == 0,
    ensures
        a == 0 || b == 0,
{
    if a != 0 {
        let y = lemma_inverse_exists(p, a);
        // b == (a * y) * b == y * (a * b) == 0
        lemma_mul_mod_noop_left(a * y, b, p);
        lemma_mul_mod_noop_right(y, a * b, p);
        assert((a * y) * b == y * (a * b)) by (nonlinear_arith);
        lemma_small_mod(b as nat, p as nat);
        lemma_small_mod(0, p as nat);
    }
}

} // verus!
