//! The scalar field of the curve BN254.

use crate::field::Field;
use crate::fr_prime::lemma_modulus_is_prime;
use crate::u256::U256;
use vstd::arithmetic::div_mod::{
    lemma_add_mod_noop, lemma_fundamental_div_mod, lemma_fundamental_div_mod_converse_mod,
    lemma_mod_multiples_vanish, lemma_mul_mod_noop_left, lemma_small_mod, lemma_sub_mod_noop,
};
use vstd::prelude::*;

verus! {

/// The number of elements of the field.
pub open spec fn fr_modulus() -> int {
    0x30644e72e131a029b85045b68181585d2833e84879b9709143e1f593f0000001int
}

/// The number of elements of the field, in limbs.
fn modulus_limbs() -> (n: U256)
    ensures
        n.value() == fr_modulus(),
{
    U256 {
        l0: 0x43e1f593f0000001,
        l1: 0x2833e84879b97091,
        l2: 0xb85045b68181585d,
        l3: 0x30644e72e131a029,
    }
}

/// An element of the field.
#[derive(Clone, Copy, Debug, PartialEq, Eq)]
pub struct Fr {
    n: U256,
}

/// Halving is injective modulo an odd number.
proof fn lemma_cancel_two(p: int, a: int, b: int)
    requires
        p > 0,
        p % 2 == 1,
        (2 * a) % p == (2 * b) % p,
    ensures
        a % p == b % p,
{
    lemma_fundamental_div_mod(2 * a, p);
    lemma_fundamental_div_mod(2 * b, p);
    let k = (2 * a) / p - (2 * b) / p;
    assert(2 * (a - b) == p * k) by (nonlinear_arith)
        requires
            2 * a == p * ((2 * a) / p) + (2 * a) % p,
            2 * b == p * ((2 * b) / p) + (2 * b) % p,
            (2 * a) % p == (2 * b) % p,
            k == (2 * a) / p - (2 * b) / p,
    ;
    let h = p / 2;
    let m = a - b - h * k;
    // p * k is even and p is odd, so k is even
    assert(k == 2 * m) by (nonlinear_arith)
        requires
            2 * (a - b) == p * k,
            p == 2 * h + 1,
            m == a - b - h * k,
    ;
    assert(a == b + p * m) by (nonlinear_arith)
        requires
            2 * (a - b) == p * k,
            k == 2 * m,
    ;
    lemma_mod_multiples_vanish(m, b, p);
}

/// What a number divides, its multiples and their sums have as a divisor.
proof fn lemma_divides_sum(d: int, a: int, b: int)
    requires
        d > 0,
        a % d == 0,
        b % d == 0,
    ensures
        (a + b) % d == 0,
{
    lemma_add_mod_noop(a, b, d);
    lemma_small_mod(0, d as nat);
}

/// Half of a reduced number, or of its sum with an odd modulus, is reduced and doubles to it.
proof fn lemma_half(p: int, a: int, h: int)
    requires
        p % 2 == 1,
        0 <= a < p,
        h == if a % 2 == 0 {
            a / 2
        } else {
            (a + p) / 2
        },
    ensures
        0 <= h < p,
        (2 * h) % p == a,
        h % p == h,
{
    lemma_small_mod(h as nat, p as nat);
    lemma_small_mod(a as nat, p as nat);
    if a % 2 == 0 {
        assert(2 * h == a);
    } else {
        assert(2 * h == p * 1 + a);
        lemma_mod_multiples_vanish(1, a, p);
    }
}

impl Fr {
    #[verifier::type_invariant]
    spec fn reduced(self) -> bool {
        self.n.value() < fr_modulus()
    }

    /// The element that `n` stands for, where `n` is reduced.
    pub fn from_limbs(n: U256) -> (r: Option<Self>)
        ensures
            r is Some <==> n.value() < fr_modulus(),
            r matches Some(x) ==> x.value() == n.value(),
    {
        if n.at_least(&modulus_limbs()) {
            None
        } else {
            proof {
                lemma_small_mod(n.value() as nat, fr_modulus() as nat);
            }
            Some(Fr { n })
        }
    }

    /// The number that the element stands for, in limbs.
    pub fn to_limbs(&self) -> (n: U256)
        ensures
            n.value() == self.value(),
    {
        proof {
            use_type_invariant(self);
            lemma_small_mod(self.n.value() as nat, fr_modulus() as nat);
        }
        self.n
    }

    /// The element that gives `self` when it is doubled.
    #[verifier::rlimit(50)]
    fn half(&self) -> (r: Self)
        ensures
            (2 * r.value()) % fr_modulus() == self.value(),
    {
        let a = self.to_limbs();
        proof {
            Self::lemma_value_reduced(*self);
        }
        if a.is_even() {
            let h = a.half();
            proof {
                lemma_half(fr_modulus(), a.value(), h.value());
            }
            Fr { n: h }
        } else {
            let h = a.plus(&modulus_limbs()).half();
            proof {
                lemma_half(fr_modulus(), a.value(), h.value());
            }
            Fr { n: h }
        }
    }
}

impl Field for Fr {
    open spec fn modulus() -> int {
        fr_modulus()
    }

    closed spec fn value(&self) -> int {
        self.n.value() % fr_modulus()
    }

    proof fn lemma_modulus_exceeds_u64() {
    }

    proof fn lemma_modulus_prime() {
        lemma_modulus_is_prime();
    }

    proof fn lemma_value_reduced(x: Self) {
    }

    fn zero() -> Self {
        Fr { n: U256 { l0: 0, l1: 0, l2: 0, l3: 0 } }
    }

    fn one() -> Self {
        Fr { n: U256 { l0: 1, l1: 0, l2: 0, l3: 0 } }
    }

    fn from_u64(n: u64) -> Self {
        Fr { n: U256 { l0: n, l1: 0, l2: 0, l3: 0 } }
    }

    #[verifier::rlimit(50)]
    fn add(&self, other: &Self) -> Self {
        let a = self.to_limbs();
        let b = other.to_limbs();
        proof {
            use_type_invariant(self);
            use_type_invariant(other);
        }
        let s = a.plus(&b);
        if s.at_least(&modulus_limbs()) {
            proof {
                lemma_mod_multiples_vanish(-1, s.value(), fr_modulus());
            }
            Fr { n: s.minus(&modulus_limbs()) }
        } else {
            Fr { n: s }
        }
    }

    #[verifier::rlimit(50)]
    fn sub(&self, other: &Self) -> Self {
        let a = self.to_limbs();
        let b = other.to_limbs();
        proof {
            use_type_invariant(self);
            use_type_invariant(other);
        }
        if a.at_least(&b) {
            Fr { n: a.minus(&b) }
        } else {
            let d = modulus_limbs().minus(&b);
            proof {
                lemma_mod_multiples_vanish(1, a.value() - b.value(), fr_modulus());
            }
            Fr { n: a.plus(&d) }
        }
    }

    /// Doubling and adding, from the least significant bit of `other`.
    #[verifier::rlimit(50)]
    fn mul(&self, other: &Self) -> Self {
        let ghost p = fr_modulus();
        let ghost product = self.value() * other.value();
        let mut r = Fr::zero();
        let mut power = *self;
        let mut rest = other.to_limbs();
        while rest.l0 != 0 || rest.l1 != 0 || rest.l2 != 0 || rest.l3 != 0
            invariant
                p == fr_modulus(),
                (r.value() + power.value() * rest.value()) % p == product % p,
            decreases rest.value(),
        {
            let ghost (r0, x, n) = (r.value(), power.value(), rest.value());
            if !rest.is_even() {
                r = r.add(&power);
            }
            power = power.add(&power);
            rest = rest.half();
            proof {
                lemma_doubling_step(p, r0, x, n);
            }
        }
        proof {
            assert(power.value() * rest.value() == 0) by (nonlinear_arith)
                requires
                    rest.value() == 0,
            ;
            Fr::lemma_value_reduced(r);
            lemma_small_mod(r.value() as nat, p as nat);
        }
        r
    }

    /// The binary form of the extended algorithm of Euclid.
    #[verifier::rlimit(50)]
    fn invert(&self) -> Option<Self> {
        let ghost p = fr_modulus();
        let ghost v = self.value();
        let mut u = self.to_limbs();
        let mut w = modulus_limbs();
        let mut x = Fr::one();
        let mut y = Fr::zero();
        proof {
            Fr::lemma_value_reduced(*self);
            lemma_small_mod(v as nat, p as nat);
            lemma_mod_multiples_vanish(1, 0, p);
        }
        // `u` and `w` are `x * v` and `y * v` modulo `p`, and whatever divides both
        // divides `v` and `p`.
        while u.l0 != 0 || u.l1 != 0 || u.l2 != 0 || u.l3 != 0
            invariant
                p == fr_modulus(),
                v == self.value(),
                w.value() % 2 == 1,
                u.value() % p == (x.value() * v) % p,
                w.value() % p == (y.value() * v) % p,
                forall|d: int|
                    d > 0 && u.value() % d == 0 && #[trigger] (w.value() % d) == 0 ==> v % d == 0
                        && p % d == 0,
            decreases u.value() + w.value(),
        {
            let ghost (u0, w0) = (u, w);
            let ghost (x0, y0) = (x.value(), y.value());
            if u.is_even() {
                u = u.half();
                x = x.half();
                proof {
                    // 2 * u == u0 == x0 * v == 2 * (x * v)
                    lemma_mul_mod_noop_left(2 * x.value(), v, p);
                    assert((2 * x.value()) * v == 2 * (x.value() * v)) by (nonlinear_arith);
                    lemma_cancel_two(p, u.value(), x.value() * v);
                    assert forall|d: int|
                        d > 0 && u.value() % d == 0 && #[trigger] (w.value() % d) == 0 implies v % d
                        == 0 && p % d == 0 by {
                        lemma_divides_sum(d, u.value(), u.value());
                        assert(w0.value() % d == 0);
                    }
                }
            } else if u.at_least(&w) {
                u = u.minus(&w);
                x = x.sub(&y);
                proof {
                    lemma_subtract_step(p, v, u0.value(), w0.value(), x0, y0);
                    assert forall|d: int|
                        d > 0 && u.value() % d == 0 && #[trigger] (w.value() % d) == 0 implies v % d
                        == 0 && p % d == 0 by {
                        lemma_divides_sum(d, u.value(), w.value());
                        assert(w0.value() % d == 0);
                    }
                }
            } else {
                let (t, s) = (u, x);
                u = w.minus(&u);
                x = y.sub(&x);
                w = t;
                y = s;
                proof {
                    lemma_subtract_step(p, v, w0.value(), u0.value(), y0, x0);
                    assert forall|d: int|
                        d > 0 && u.value() % d == 0 && #[trigger] (w.value() % d) == 0 implies v % d
                        == 0 && p % d == 0 by {
                        lemma_divides_sum(d, u.value(), w.value());
                        assert(w0.value() % d == 0);
                    }
                }
            }
        }
        if w.l0 == 1 && w.l1 == 0 && w.l2 == 0 && w.l3 == 0 {
            proof {
                assert(v * y.value() == y.value() * v) by (nonlinear_arith);
                if v == 0 {
                    assert(v * y.value() == 0) by (nonlinear_arith)
                        requires
                            v == 0,
                    ;
                    lemma_small_mod(0, p as nat);
                }
            }
            Some(y)
        } else {
            proof {
                // a divisor of `p` other than 1 is `p`
                let d = w.value();
                assert(w.value() % d == 0);
                assert(v % d == 0 && p % d == 0);
                lemma_modulus_is_prime();
                if d > p {
                    lemma_small_mod(p as nat, d as nat);
                }
            }
            None
        }
    }

    fn equals(&self, other: &Self) -> bool {
        let a = self.to_limbs();
        let b = other.to_limbs();
        a.l0 == b.l0 && a.l1 == b.l1 && a.l2 == b.l2 && a.l3 == b.l3
    }

    fn get_lower_128(&self) -> u128 {
        let n = self.to_limbs();
        proof {
            lemma_fundamental_div_mod_converse_mod(
                n.value(),
                0x1_0000_0000_0000_0000_0000_0000_0000_0000int,
                n.l2 + n.l3 * 0x1_0000_0000_0000_0000,
                n.l0 + n.l1 * 0x1_0000_0000_0000_0000,
            );
        }
        n.l0 as u128 + n.l1 as u128 * 0x1_0000_0000_0000_0000
    }
}

/// One step of multiplication by doubling.
proof fn lemma_doubling_step(p: int, r: int, x: int, n: int)
    requires
        p > 0,
        n >= 0,
    ensures
        n % 2 == 0 ==> (r + ((x + x) % p) * (n / 2)) % p == (r + x * n) % p,
        n % 2 == 1 ==> ((r + x) % p + ((x + x) % p) * (n / 2)) % p == (r + x * n) % p,
{
    let h = n / 2;
    lemma_mul_mod_noop_left(x + x, h, p);
    if n % 2 == 0 {
        assert((x + x) * h == x * n) by (nonlinear_arith)
            requires
                n == 2 * h,
        ;
        lemma_add_mod_noop(r, ((x + x) % p) * h, p);
        lemma_add_mod_noop(r, (x + x) * h, p);
    } else {
        assert((x + x) * h + x == x * n) by (nonlinear_arith)
            requires
                n == 2 * h + 1,
        ;
        lemma_add_mod_noop((r + x) % p, ((x + x) % p) * h, p);
        lemma_add_mod_noop(r + x, (x + x) * h, p);
        lemma_small_mod(((r + x) % p) as nat, p as nat);
    }
}

/// One subtraction in the algorithm of Euclid.
proof fn lemma_subtract_step(p: int, v: int, u: int, w: int, x: int, y: int)
    requires
        p > 0,
        u % p == (x * v) % p,
        w % p == (y * v) % p,
    ensures
        (u - w) % p == (((x - y) % p) * v) % p,
{
    lemma_sub_mod_noop(u, w, p);
    lemma_sub_mod_noop(x * v, y * v, p);
    lemma_mul_mod_noop_left(x - y, v, p);
    assert((x - y) * v == x * v - y * v) by (nonlinear_arith);
}

} // verus!
