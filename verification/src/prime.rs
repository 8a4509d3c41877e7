//! How to show that a number is prime.

use crate::field::{is_prime, lemma_no_zero_divisors, mul_mod};
use vstd::arithmetic::div_mod::{
    lemma_fundamental_div_mod, lemma_fundamental_div_mod_converse, lemma_mod_bound, lemma_mod_mod,
    lemma_mod_multiples_basic, lemma_mul_mod_noop, lemma_mul_mod_noop_left,
    lemma_mul_mod_noop_right, lemma_small_mod, lemma_sub_mod_noop,
};
use vstd::prelude::*;
use vstd::set_lib::{lemma_int_range, lemma_len_subset, lemma_map_size, set_int_range};

verus! {

/// `c` to the power `e`, modulo `n`.
pub closed spec fn pow_mod(n: int, c: int, e: int) -> int
    decreases e,
{
    if e <= 0 {
        1int % n
    } else {
        mul_mod(n, pow_mod(n, c, e - 1), c)
    }
}

/// A power is reduced.
proof fn lemma_pow_bound(n: int, c: int, e: int)
    requires
        n > 1,
    ensures
        0 <= pow_mod(n, c, e) < n,
{
    if e <= 0 {
        lemma_mod_bound(1, n);
    } else {
        lemma_mod_bound(pow_mod(n, c, e - 1) * c, n);
    }
}

/// The product of two powers.
proof fn lemma_pow_add(n: int, c: int, a: int, b: int)
    requires
        n > 1,
        a >= 0,
        b >= 0,
    ensures
        pow_mod(n, c, a + b) == mul_mod(n, pow_mod(n, c, a), pow_mod(n, c, b)),
    decreases b,
{
    let x = pow_mod(n, c, a);
    lemma_pow_bound(n, c, a);
    if b == 0 {
        lemma_small_mod(1, n as nat);
        lemma_small_mod(x as nat, n as nat);
        assert(x * 1 == x);
    } else {
        let y = pow_mod(n, c, b - 1);
        lemma_pow_add(n, c, a, b - 1);
        assert(pow_mod(n, c, a + b) == mul_mod(n, pow_mod(n, c, a + b - 1), c));
        lemma_mul_mod_noop_left(x * y, c, n);
        lemma_mul_mod_noop_right(x, y * c, n);
        assert((x * y) * c == x * (y * c)) by (nonlinear_arith);
    }
}

/// The power of a power.
proof fn lemma_pow_mul(n: int, c: int, a: int, b: int)
    requires
        n > 1,
        a >= 0,
        b >= 0,
    ensures
        pow_mod(n, c, a * b) == pow_mod(n, pow_mod(n, c, a), b),
    decreases b,
{
    if b == 0 {
        assert(a * b == 0) by (nonlinear_arith)
            requires
                b == 0,
        ;
    } else {
        lemma_pow_mul(n, c, a, b - 1);
        assert(a * b == a * (b - 1) + a) by (nonlinear_arith);
        assert(a * (b - 1) >= 0) by (nonlinear_arith)
            requires
                a >= 0,
                b >= 1,
        ;
        lemma_pow_add(n, c, a * (b - 1), a);
    }
}

/// The powers of 1.
proof fn lemma_pow_one(n: int, e: int)
    requires
        n > 1,
    ensures
        pow_mod(n, 1, e) == 1,
    decreases e,
{
    lemma_small_mod(1, n as nat);
    if e > 0 {
        lemma_pow_one(n, e - 1);
    }
}

/// A power modulo a divisor.
proof fn lemma_pow_divisor(n: int, d: int, c: int, e: int)
    requires
        d > 1,
        n > 1,
        n % d == 0,
    ensures
        pow_mod(n, c, e) % d == pow_mod(d, c, e),
    decreases e,
{
    if e <= 0 {
        lemma_small_mod(1, n as nat);
    } else {
        let x = pow_mod(n, c, e - 1);
        lemma_pow_divisor(n, d, c, e - 1);
        lemma_reduce(n, d, x * c);
        lemma_mul_mod_noop_left(x, c, d);
    }
}

/// Reducing modulo a multiple first changes nothing.
proof fn lemma_reduce(n: int, d: int, x: int)
    requires
        d > 1,
        n > 1,
        n % d == 0,
    ensures
        (x % n) % d == x % d,
{
    let k = n / d;
    lemma_fundamental_div_mod(n, d);
    assert(k > 0) by (nonlinear_arith)
        requires
            n == d * k,
            n > 1,
            d > 1,
    ;
    lemma_mod_mod(x, d, k);
}

/// The square of a power.
pub proof fn lemma_square(n: int, c: int, e: int, x: int, y: int)
    requires
        n > 1,
        e >= 0,
        pow_mod(n, c, e) == x,
        mul_mod(n, x, x) == y,
    ensures
        pow_mod(n, c, 2 * e) == y,
{
    lemma_pow_add(n, c, e, e);
}

/// The next power.
pub proof fn lemma_next(n: int, c: int, e: int, x: int, y: int)
    requires
        n > 1,
        e >= 0,
        pow_mod(n, c, e) == x,
        mul_mod(n, x, c) == y,
    ensures
        pow_mod(n, c, e + 1) == y,
{
}

/// The first power.
pub proof fn lemma_first(n: int, c: int)
    requires
        n > 1,
        0 <= c < n,
    ensures
        pow_mod(n, c, 1) == c,
{
    lemma_small_mod(1, n as nat);
    lemma_small_mod(c as nat, n as nat);
    assert(pow_mod(n, c, 0) == 1);
    assert(1 * c == c);
}

/// Where two powers are 1, so is one whose exponent divides both.
proof fn lemma_common(d: int, c: int, a: int, b: int) -> (g: int)
    requires
        d > 1,
        a > 0,
        b >= 0,
        pow_mod(d, c, a) == 1,
        pow_mod(d, c, b) == 1,
    ensures
        g > 0,
        a % g == 0,
        b % g == 0,
        pow_mod(d, c, g) == 1,
    decreases b,
{
    if b == 0 {
        lemma_mod_multiples_basic(1, a);
        lemma_small_mod(0, a as nat);
        a
    } else {
        let (q, r) = (a / b, a % b);
        lemma_fundamental_div_mod(a, b);
        lemma_mod_bound(a, b);
        assert(q >= 0) by (nonlinear_arith)
            requires
                a == b * q + r,
                0 <= r < b,
                a > 0,
                b > 0,
        ;
        assert(b * q >= 0) by (nonlinear_arith)
            requires
                b > 0,
                q >= 0,
        ;
        // 1 == c^a == (c^b)^q * c^r == c^r
        lemma_pow_add(d, c, b * q, r);
        lemma_pow_mul(d, c, b, q);
        lemma_pow_one(d, q);
        lemma_pow_bound(d, c, r);
        lemma_small_mod(pow_mod(d, c, r) as nat, d as nat);
        assert(1 * pow_mod(d, c, r) == pow_mod(d, c, r));
        let g = lemma_common(d, c, b, r);
        lemma_multiple(g, b, q);
        lemma_sum_of_multiples(g, b * q, r);
        g
    }
}

/// A multiple of a multiple.
proof fn lemma_multiple(g: int, a: int, k: int)
    requires
        g > 0,
        a % g == 0,
    ensures
        (a * k) % g == 0,
{
    lemma_mul_mod_noop_left(a, k, g);
    lemma_small_mod(0, g as nat);
    assert(0 * k == 0);
}

/// The sum of two multiples.
proof fn lemma_sum_of_multiples(g: int, a: int, b: int)
    requires
        g > 0,
        a % g == 0,
        b % g == 0,
    ensures
        (a + b) % g == 0,
{
    lemma_fundamental_div_mod(a, g);
    lemma_fundamental_div_mod(b, g);
    let k = a / g + b / g;
    assert(a + b == k * g) by (nonlinear_arith)
        requires
            a == g * (a / g),
            b == g * (b / g),
            k == a / g + b / g,
    ;
    lemma_mod_multiples_basic(k, g);
}

/// The product of numbers.
pub open spec fn product_of(numbers: Seq<int>) -> int
    decreases numbers.len(),
{
    if numbers.len() == 0 {
        1
    } else {
        product_of(numbers.drop_last()) * numbers.last()
    }
}

/// Whether numbers are prime.
pub open spec fn all_prime(numbers: Seq<int>) -> bool {
    forall|i: int| 0 <= i < numbers.len() ==> is_prime(#[trigger] numbers[i])
}

/// A product of primes is positive, and its primes divide it.
proof fn lemma_product_of_primes(primes: Seq<int>)
    requires
        all_prime(primes),
    ensures
        product_of(primes) > 0,
        forall|i: int|
            0 <= i < primes.len() ==> product_of(primes) == primes[i] * (product_of(primes)
                / #[trigger] primes[i]),
    decreases primes.len(),
{
    if primes.len() > 0 {
        let fewer = primes.drop_last();
        let q = primes.last();
        assert forall|i: int| 0 <= i < fewer.len() implies is_prime(#[trigger] fewer[i]) by {
            assert(fewer[i] == primes[i]);
        }
        assert(is_prime(primes[primes.len() - 1]));
        lemma_product_of_primes(fewer);
        let m = product_of(fewer);
        assert(m * q > 0) by (nonlinear_arith)
            requires
                m > 0,
                q > 1,
        ;
        assert forall|i: int| 0 <= i < primes.len() implies m * q == primes[i] * ((m * q)
            / #[trigger] primes[i]) by {
            let p = primes[i];
            assert(p > 1);
            if i < fewer.len() {
                assert(fewer[i] == p);
                let k = m / p;
                assert(m * q == (k * q) * p) by (nonlinear_arith)
                    requires
                        m == p * k,
                ;
                lemma_fundamental_div_mod_converse(m * q, p, k * q, 0);
                assert(p * (k * q) == (k * q) * p) by (nonlinear_arith);
            } else {
                lemma_fundamental_div_mod_converse(m * q, p, m, 0);
                assert(p * m == m * p) by (nonlinear_arith);
            }
        }
    }
}

/// What divides a prime times a number divides the number, or is the prime times a divisor of the
/// number.
proof fn lemma_divisor_of_product(q: int, m: int, g: int)
    requires
        is_prime(q),
        m > 0,
        g > 0,
        (m * q) % g == 0,
    ensures
        m % g == 0 || (g == (g / q) * q && g / q > 0 && m % (g / q) == 0),
{
    let k = (m * q) / g;
    lemma_fundamental_div_mod(m * q, g);
    if g % q == 0 {
        let h = g / q;
        lemma_fundamental_div_mod(g, q);
        assert(h > 0) by (nonlinear_arith)
            requires
                g == q * h,
                g > 0,
                q > 1,
        ;
        assert(m == h * k) by (nonlinear_arith)
            requires
                m * q == g * k,
                g == q * h,
                q > 1,
        ;
        assert(h * k == k * h) by (nonlinear_arith);
        lemma_mod_multiples_basic(k, h);
        assert(q * h == h * q) by (nonlinear_arith);
    } else {
        // `q` divides `g * k` and not `g`, so it divides `k`
        lemma_mod_multiples_basic(m, q);
        lemma_mul_mod_noop(g, k, q);
        lemma_mod_bound(g, q);
        lemma_mod_bound(k, q);
        lemma_no_zero_divisors(q, g % q, k % q);
        let j = k / q;
        lemma_fundamental_div_mod(k, q);
        assert(m == j * g) by (nonlinear_arith)
            requires
                m * q == g * k,
                k == q * j,
                q > 1,
        ;
        lemma_mod_multiples_basic(j, g);
    }
}

/// What divides a product of primes, and is not the product, divides the product without one of
/// them.
proof fn lemma_proper_divisor(primes: Seq<int>, g: int) -> (i: int)
    requires
        all_prime(primes),
        0 < g < product_of(primes),
        product_of(primes) % g == 0,
    ensures
        0 <= i < primes.len(),
        (product_of(primes) / primes[i]) % g == 0,
    decreases primes.len(),
{
    lemma_product_of_primes(primes);
    let fewer = primes.drop_last();
    let q = primes.last();
    let n = primes.len() - 1;
    assert forall|i: int| 0 <= i < fewer.len() implies is_prime(#[trigger] fewer[i]) by {
        assert(fewer[i] == primes[i]);
    }
    assert(is_prime(primes[n]));
    lemma_product_of_primes(fewer);
    let m = product_of(fewer);
    lemma_divisor_of_product(q, m, g);
    if m % g == 0 {
        lemma_fundamental_div_mod_converse(m * q, q, m, 0);
        n
    } else {
        let h = g / q;
        lemma_fundamental_div_mod(m, h);
        if h >= m {
            assert(h * q >= m * q) by (nonlinear_arith)
                requires
                    h >= m,
                    q > 1,
            ;
        }
        let i = lemma_proper_divisor(fewer, h);
        let p = primes[i];
        assert(fewer[i] == p);
        let k = m / p;
        assert(m * q == (k * q) * p) by (nonlinear_arith)
            requires
                m == p * k,
        ;
        lemma_fundamental_div_mod_converse(m * q, p, k * q, 0);
        lemma_fundamental_div_mod(k, h);
        assert(k * q == (k / h) * g) by (nonlinear_arith)
            requires
                k == h * (k / h),
                g == h * q,
        ;
        lemma_mod_multiples_basic(k / h, g);
        i
    }
}

/// Whether `c` has an order modulo `n`, and modulo every divisor of `n`, that is the product of
/// `primes`.
pub open spec fn has_order(n: int, c: int, primes: Seq<int>) -> bool {
    &&& pow_mod(n, c, product_of(primes)) == 1
    &&& forall|i: int|
        0 <= i < primes.len() ==> exists|u: int| #[trigger]
            mul_mod(n, pow_mod(n, c, product_of(primes) / #[trigger] primes[i]) - 1, u) == 1
}

/// No power of `c` below its order is 1 modulo a divisor.
proof fn lemma_no_smaller_power(n: int, d: int, c: int, primes: Seq<int>, k: int)
    requires
        n > 1,
        d > 1,
        n % d == 0,
        all_prime(primes),
        has_order(n, c, primes),
        0 < k < product_of(primes),
    ensures
        pow_mod(d, c, k) != 1,
{
    if pow_mod(d, c, k) == 1 {
        let f = product_of(primes);
        lemma_pow_divisor(n, d, c, f);
        lemma_small_mod(1, d as nat);
        let g = lemma_common(d, c, k, f);
        lemma_fundamental_div_mod(k, g);
        assert(g <= k) by (nonlinear_arith)
            requires
                k == g * (k / g),
                k > 0,
                g > 0,
        ;
        let i = lemma_proper_divisor(primes, g);
        lemma_product_of_primes(primes);
        let e = f / primes[i];
        let x = pow_mod(n, c, e);
        let u = choose|u: int| #[trigger] mul_mod(n, x - 1, u) == 1;
        // modulo `d`, the power `e` is 1
        let j = e / g;
        lemma_fundamental_div_mod(e, g);
        assert(is_prime(primes[i]));
        assert(e >= 0) by (nonlinear_arith)
            requires
                f == primes[i] * e,
                f > 0,
                primes[i] > 1,
        ;
        assert(j >= 0) by (nonlinear_arith)
            requires
                e == g * j,
                e >= 0,
                g > 0,
        ;
        lemma_pow_mul(d, c, g, j);
        lemma_pow_one(d, j);
        lemma_pow_divisor(n, d, c, e);
        assert(x % d == 1);
        lemma_sub_mod_noop(x, 1, d);
        lemma_small_mod(0, d as nat);
        assert((x - 1) % d == 0);
        lemma_multiple(d, x - 1, u);
        lemma_reduce(n, d, (x - 1) * u);
    }
}

/// Two powers of `c` below its order differ modulo a divisor.
proof fn lemma_powers_differ(n: int, d: int, c: int, primes: Seq<int>, i: int, j: int)
    requires
        n > 1,
        d > 1,
        n % d == 0,
        all_prime(primes),
        has_order(n, c, primes),
        0 <= i < j < product_of(primes),
    ensures
        pow_mod(d, c, i) != pow_mod(d, c, j),
{
    let f = product_of(primes);
    lemma_pow_divisor(n, d, c, f);
    lemma_small_mod(1, d as nat);
    if pow_mod(d, c, i) == pow_mod(d, c, j) {
        lemma_pow_add(d, c, f - i, i);
        lemma_pow_add(d, c, f - i, j);
        assert(f - i + j == f + (j - i));
        lemma_pow_add(d, c, f, j - i);
        lemma_pow_bound(d, c, j - i);
        lemma_small_mod(pow_mod(d, c, j - i) as nat, d as nat);
        assert(1 * pow_mod(d, c, j - i) == pow_mod(d, c, j - i));
        lemma_no_smaller_power(n, d, c, primes, j - i);
    }
}

/// A divisor is at least the order of `c`.
proof fn lemma_divisor_bound(n: int, d: int, c: int, primes: Seq<int>)
    requires
        n > 1,
        d > 1,
        n % d == 0,
        all_prime(primes),
        has_order(n, c, primes),
    ensures
        product_of(primes) <= d,
{
    let f = product_of(primes);
    lemma_product_of_primes(primes);
    let exponents = set_int_range(0, f);
    let powers = exponents.map(|e: int| pow_mod(d, c, e));
    lemma_int_range(0, f);
    lemma_int_range(0, d);
    assert forall|i: int, j: int|
        exponents.contains(i) && exponents.contains(j) && #[trigger] pow_mod(d, c, i)
            == #[trigger] pow_mod(d, c, j) implies i == j by {
        if i < j {
            lemma_powers_differ(n, d, c, primes, i, j);
        }
        if j < i {
            lemma_powers_differ(n, d, c, primes, j, i);
        }
    }
    lemma_map_size(exponents, powers, |e: int| pow_mod(d, c, e));
    assert(powers.subset_of(set_int_range(0, d))) by {
        assert forall|x: int| powers.contains(x) implies set_int_range(0, d).contains(x) by {
            let e = choose|e: int| exponents.contains(e) && x == pow_mod(d, c, e);
            lemma_pow_bound(d, c, e);
        }
    }
    lemma_len_subset(powers, set_int_range(0, d));
}

/// A number is prime if it has an element whose order is a product of primes larger than the
/// square root of the number.
pub proof fn lemma_prime(n: int, c: int, primes: Seq<int>)
    requires
        n > 1,
        all_prime(primes),
        has_order(n, c, primes),
        product_of(primes) * product_of(primes) > n,
    ensures
        is_prime(n),
{
    assert forall|d: int| 1 < d < n implies #[trigger] (n % d) != 0 by {
        if n % d == 0 {
            let f = product_of(primes);
            let e = n / d;
            lemma_fundamental_div_mod(n, d);
            assert(e > 1) by (nonlinear_arith)
                requires
                    n == d * e,
                    1 < d < n,
            ;
            lemma_mod_multiples_basic(d, e);
            lemma_divisor_bound(n, d, c, primes);
            lemma_divisor_bound(n, e, c, primes);
            lemma_product_of_primes(primes);
            assert(d * e >= f * f) by (nonlinear_arith)
                requires
                    d >= f,
                    e >= f,
                    f > 0,
            ;
        }
    }
}

/// A number is prime if an element of it has a prime order larger than its square root.
pub proof fn lemma_prime_one(n: int, c: int, q: int, u: int)
    requires
        n > 1,
        0 <= c < n,
        is_prime(q),
        pow_mod(n, c, q) == 1,
        mul_mod(n, c - 1, u) == 1,
        q * q > n,
    ensures
        is_prime(n),
{
    let primes = seq![q];
    assert(product_of(primes) == q) by {
        reveal_with_fuel(product_of, 2);
    }
    lemma_first(n, c);
    lemma_fundamental_div_mod_converse(q, q, 1, 0);
    assert forall|i: int| 0 <= i < primes.len() implies exists|u: int| #[trigger]
        mul_mod(n, pow_mod(n, c, product_of(primes) / #[trigger] primes[i]) - 1, u) == 1 by {
        assert(mul_mod(n, pow_mod(n, c, product_of(primes) / primes[i]) - 1, u) == 1);
    }
    lemma_prime(n, c, primes);
}

/// A number is prime if an element of it has an order, a product of two primes, larger than its
/// square root.
pub proof fn lemma_prime_two(
    n: int,
    c: int,
    q1: int,
    q2: int,
    x1: int,
    u1: int,
    x2: int,
    u2: int,
)
    requires
        n > 1,
        is_prime(q1),
        is_prime(q2),
        pow_mod(n, c, q1) == x1,
        pow_mod(n, x1, q2) == 1,
        mul_mod(n, x1 - 1, u1) == 1,
        pow_mod(n, c, q2) == x2,
        mul_mod(n, x2 - 1, u2) == 1,
        (q1 * q2) * (q1 * q2) > n,
    ensures
        is_prime(n),
{
    let primes = seq![q1, q2];
    assert(product_of(primes) == q1 * q2) by {
        reveal_with_fuel(product_of, 3);
    }
    lemma_pow_mul(n, c, q1, q2);
    assert(q1 * q2 == q2 * q1) by (nonlinear_arith);
    lemma_fundamental_div_mod_converse(q1 * q2, q1, q2, 0);
    lemma_fundamental_div_mod_converse(q1 * q2, q2, q1, 0);
    assert forall|i: int| 0 <= i < primes.len() implies exists|u: int| #[trigger]
        mul_mod(n, pow_mod(n, c, product_of(primes) / #[trigger] primes[i]) - 1, u) == 1 by {
        let u = if i == 0 {
            u2
        } else {
            u1
        };
        assert(mul_mod(n, pow_mod(n, c, product_of(primes) / primes[i]) - 1, u) == 1);
    }
    lemma_prime(n, c, primes);
}

/// A number is prime if an element of it has an order, a product of three primes, larger than its
/// square root.
pub proof fn lemma_prime_three(
    n: int,
    c: int,
    q1: int,
    q2: int,
    q3: int,
    f: int,
    x1: int,
    u1: int,
    x2: int,
    u2: int,
    x3: int,
    u3: int,
)
    requires
        n > 1,
        is_prime(q1),
        is_prime(q2),
        is_prime(q3),
        pow_mod(n, c, q2 * q3) == x1,
        mul_mod(n, x1 - 1, u1) == 1,
        pow_mod(n, c, q1 * q3) == x2,
        mul_mod(n, x2 - 1, u2) == 1,
        pow_mod(n, c, q1 * q2) == x3,
        mul_mod(n, x3 - 1, u3) == 1,
        pow_mod(n, x3, q3) == 1,
        f == q1 * q2 * q3,
        f * f > n,
    ensures
        is_prime(n),
{
    let primes = seq![q1, q2, q3];
    assert(product_of(primes) == f) by {
        reveal_with_fuel(product_of, 4);
    }
    assert(q1 * q2 > 0) by (nonlinear_arith)
        requires
            q1 > 1,
            q2 > 1,
    ;
    lemma_pow_mul(n, c, q1 * q2, q3);
    assert(f == (q2 * q3) * q1 && f == (q1 * q3) * q2) by (nonlinear_arith)
        requires
            f == q1 * q2 * q3,
    ;
    lemma_fundamental_div_mod_converse(f, q1, q2 * q3, 0);
    lemma_fundamental_div_mod_converse(f, q2, q1 * q3, 0);
    lemma_fundamental_div_mod_converse(f, q3, q1 * q2, 0);
    assert forall|i: int| 0 <= i < primes.len() implies exists|u: int| #[trigger]
        mul_mod(n, pow_mod(n, c, product_of(primes) / #[trigger] primes[i]) - 1, u) == 1 by {
        let u = if i == 0 {
            u1
        } else if i == 1 {
            u2
        } else {
            u3
        };
        assert(mul_mod(n, pow_mod(n, c, product_of(primes) / primes[i]) - 1, u) == 1);
    }
    lemma_prime(n, c, primes);
}

/// A number is prime if none up to its square root divides it.
pub proof fn lemma_prime_by_trial(n: int, k: int)
    requires
        n > 1,
        k >= 1,
        (k + 1) * (k + 1) > n,
        forall|d: int| 1 < d <= k ==> #[trigger] (n % d) != 0,
    ensures
        is_prime(n),
{
    assert forall|d: int| 1 < d < n implies #[trigger] (n % d) != 0 by {
        if n % d == 0 {
            let e = n / d;
            lemma_fundamental_div_mod(n, d);
            assert(1 < e) by (nonlinear_arith)
                requires
                    n == d * e,
                    1 < d < n,
            ;
            lemma_mod_multiples_basic(d, e);
            if d > k && e > k {
                assert(d * e >= (k + 1) * (k + 1)) by (nonlinear_arith)
                    requires
                        d >= k + 1,
                        e >= k + 1,
                        k >= 1,
                ;
            }
        }
    }
}

} // verus!
