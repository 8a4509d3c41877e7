//! The number of elements of the scalar field of BN254 is prime.
//!
//! The proof goes down a chain of primes. Modulo each of them there is an element whose order is
//! larger than the square root of the prime and a product of smaller primes. The smallest primes
//! are shown by division.

use crate::field::is_prime;
use crate::fr::fr_modulus;
use crate::prime::{
    lemma_first, lemma_next, lemma_prime_by_trial, lemma_prime_one, lemma_prime_three,
    lemma_prime_two, lemma_square, pow_mod,
};
use vstd::prelude::*;

verus! {

/// One of the primes.
proof fn lemma_2_is_prime()
    ensures
        is_prime(2),
{
    lemma_prime_by_trial(2, 1);
}

/// One of the primes.
proof fn lemma_3_is_prime()
    ensures
        is_prime(3),
{
    lemma_prime_by_trial(3, 1);
}

/// One of the primes.
proof fn lemma_5_is_prime()
    ensures
        is_prime(5),
{
    assert forall|d: int| 1 < d <= 2 implies #[trigger] (5int % d) != 0 by {
        assert(d == 2);
    }
    lemma_prime_by_trial(5, 2);
}

/// One of the primes.
proof fn lemma_17_is_prime()
    ensures
        is_prime(17),
{
    assert forall|d: int| 1 < d <= 4 implies #[trigger] (17int % d) != 0 by {
        assert(d == 2 || d == 3 || d == 4);
    }
    lemma_prime_by_trial(17, 4);
}

/// One of the primes.
proof fn lemma_31_is_prime()
    ensures
        is_prime(31),
{
    assert forall|d: int| 1 < d <= 5 implies #[trigger] (31int % d) != 0 by {
        assert(d == 2 || d == 3 || d == 4 || d == 5);
    }
    lemma_prime_by_trial(31, 5);
}

/// One of the primes.
proof fn lemma_71_is_prime()
    ensures
        is_prime(71),
{
    assert forall|d: int| 1 < d <= 8 implies #[trigger] (71int % d) != 0 by {
        assert(d == 2 || d == 3 || d == 4 || d == 5 || d == 6 || d == 7 || d == 8);
    }
    lemma_prime_by_trial(71, 8);
}

/// The square of a power of the element `c` of order 17 * 3 modulo 409.
proof fn square_409(e: int, x: int, y: int)
    requires
        e >= 0,
        pow_mod(0x199int, 0x100int, e) == x,
        (x * x) % 0x199int == y,
    ensures
        pow_mod(0x199int, 0x100int, 2 * e) == y,
{
    lemma_square(0x199int, 0x100int, e, x, y);
}

/// The next power of the element `c` of order 17 * 3 modulo 409.
proof fn next_409(e: int, x: int, y: int)
    requires
        e >= 0,
        pow_mod(0x199int, 0x100int, e) == x,
        (x * 0x100int) % 0x199int == y,
    ensures
        pow_mod(0x199int, 0x100int, e + 1) == y,
{
    lemma_next(0x199int, 0x100int, e, x, y);
}

/// `c` to the power 17.
proof fn lemma_power1_409()
    ensures
        pow_mod(0x199int, 0x100int, 0x11int) == 0x163int,
{
    lemma_first(0x199int, 0x100int);
    square_409(0x1int, 0x100int, 0x60int);
    square_409(0x2int, 0x60int, 0xdaint);
    square_409(0x4int, 0xdaint, 0x50int);
    square_409(0x8int, 0x50int, 0x109int);
    next_409(0x10int, 0x109int, 0x163int);
}

/// `c` to the power 3.
proof fn lemma_power2_409()
    ensures
        pow_mod(0x199int, 0x100int, 0x3int) == 0x24int,
{
    lemma_first(0x199int, 0x100int);
    square_409(0x1int, 0x100int, 0x60int);
    next_409(0x2int, 0x60int, 0x24int);
}

/// The square of a power of `c` to the power 17.
proof fn square_409_x(e: int, x: int, y: int)
    requires
        e >= 0,
        pow_mod(0x199int, 0x163int, e) == x,
        (x * x) % 0x199int == y,
    ensures
        pow_mod(0x199int, 0x163int, 2 * e) == y,
{
    lemma_square(0x199int, 0x163int, e, x, y);
}

/// The next power of `c` to the power 17.
proof fn next_409_x(e: int, x: int, y: int)
    requires
        e >= 0,
        pow_mod(0x199int, 0x163int, e) == x,
        (x * 0x163int) % 0x199int == y,
    ensures
        pow_mod(0x199int, 0x163int, e + 1) == y,
{
    lemma_next(0x199int, 0x163int, e, x, y);
}

/// The order of `c`.
proof fn lemma_order_409()
    ensures
        pow_mod(0x199int, 0x163int, 0x3int) == 0x1int,
{
    lemma_first(0x199int, 0x163int);
    square_409_x(0x1int, 0x163int, 0x35int);
    next_409_x(0x2int, 0x35int, 0x1int);
}

/// One of the primes.
proof fn lemma_409_is_prime()
    ensures
        is_prime(409int),
{
    lemma_17_is_prime();
    lemma_3_is_prime();
    lemma_power1_409();
    lemma_power2_409();
    lemma_order_409();
    assert((0x163int - 1) * 0x122int % 0x199int == 1);
    assert((0x24int - 1) * 0xbbint % 0x199int == 1);
    lemma_prime_two(
        0x199int,
        0x100int,
        0x11int,
        0x3int,
        0x163int,
        0x122int,
        0x24int,
        0xbbint,
    );
}

/// The square of a power of the element of order 409 modulo 1637.
proof fn square_1637(e: int, x: int, y: int)
    requires
        e >= 0,
        pow_mod(0x665int, 0x10int, e) == x,
        (x * x) % 0x665int == y,
    ensures
        pow_mod(0x665int, 0x10int, 2 * e) == y,
{
    lemma_square(0x665int, 0x10int, e, x, y);
}

/// The next power of the element of order 409 modulo 1637.
proof fn next_1637(e: int, x: int, y: int)
    requires
        e >= 0,
        pow_mod(0x665int, 0x10int, e) == x,
        (x * 0x10int) % 0x665int == y,
    ensures
        pow_mod(0x665int, 0x10int, e + 1) == y,
{
    lemma_next(0x665int, 0x10int, e, x, y);
}

/// The order of that element.
proof fn lemma_order_1637()
    ensures
        pow_mod(0x665int, 0x10int, 0x199int) == 0x1int,
{
    lemma_first(0x665int, 0x10int);
    square_1637(0x1int, 0x10int, 0x100int);
    next_1637(0x2int, 0x100int, 0x336int);
    square_1637(0x3int, 0x336int, 0x4d8int);
    square_1637(0x6int, 0x4d8int, 0x1c9int);
    square_1637(0xcint, 0x1c9int, 0x3b6int);
    next_1637(0x18int, 0x3b6int, 0x1d3int);
    square_1637(0x19int, 0x1d3int, 0x170int);
    next_1637(0x32int, 0x170int, 0x3d1int);
    square_1637(0x33int, 0x3d1int, 0x9eint);
    square_1637(0x66int, 0x9eint, 0x199int);
    square_1637(0xccint, 0x199int, 0x133int);
    next_1637(0x198int, 0x133int, 0x1int);
}

/// One of the primes.
proof fn lemma_1637_is_prime()
    ensures
        is_prime(1637int),
{
    lemma_409_is_prime();
    lemma_order_1637();
    assert((0x10int - 1) * 0x2fcint % 0x665int == 1);
    lemma_prime_one(0x665int, 0x10int, 0x199int, 0x2fcint);
}

/// The square of a power of the element of order 71 modulo 853.
proof fn square_853(e: int, x: int, y: int)
    requires
        e >= 0,
        pow_mod(0x355int, 0x2acint, e) == x,
        (x * x) % 0x355int == y,
    ensures
        pow_mod(0x355int, 0x2acint, 2 * e) == y,
{
    lemma_square(0x355int, 0x2acint, e, x, y);
}

/// The next power of the element of order 71 modulo 853.
proof fn next_853(e: int, x: int, y: int)
    requires
        e >= 0,
        pow_mod(0x355int, 0x2acint, e) == x,
        (x * 0x2acint) % 0x355int == y,
    ensures
        pow_mod(0x355int, 0x2acint, e + 1) == y,
{
    lemma_next(0x355int, 0x2acint, e, x, y);
}

/// The order of that element.
proof fn lemma_order_853()
    ensures
        pow_mod(0x355int, 0x2acint, 0x47int) == 0x1int,
{
    lemma_first(0x355int, 0x2acint);
    square_853(0x1int, 0x2acint, 0x19cint);
    square_853(0x2int, 0x19cint, 0x352int);
    square_853(0x4int, 0x352int, 0x9int);
    square_853(0x8int, 0x9int, 0x51int);
    next_853(0x10int, 0x51int, 0x32cint);
    square_853(0x11int, 0x32cint, 0x33cint);
    next_853(0x22int, 0x33cint, 0x32dint);
    square_853(0x23int, 0x32dint, 0x2ebint);
    next_853(0x46int, 0x2ebint, 0x1int);
}

/// One of the primes.
proof fn lemma_853_is_prime()
    ensures
        is_prime(853int),
{
    lemma_71_is_prime();
    lemma_order_853();
    assert((0x2acint - 1) * 0x11eint % 0x355int == 1);
    lemma_prime_one(0x355int, 0x2acint, 0x47int, 0x11eint);
}

/// The square of a power of the element `c` of order 31 * 5 * 2 modulo 93001.
proof fn square_93001(e: int, x: int, y: int)
    requires
        e >= 0,
        pow_mod(0x16b49int, 0x1af8int, e) == x,
        (x * x) % 0x16b49int == y,
    ensures
        pow_mod(0x16b49int, 0x1af8int, 2 * e) == y,
{
    lemma_square(0x16b49int, 0x1af8int, e, x, y);
}

/// The next power of the element `c` of order 31 * 5 * 2 modulo 93001.
proof fn next_93001(e: int, x: int, y: int)
    requires
        e >= 0,
        pow_mod(0x16b49int, 0x1af8int, e) == x,
        (x * 0x1af8int) % 0x16b49int == y,
    ensures
        pow_mod(0x16b49int, 0x1af8int, e + 1) == y,
{
    lemma_next(0x16b49int, 0x1af8int, e, x, y);
}

/// `c` to the power 10.
proof fn lemma_power1_93001()
    ensures
        pow_mod(0x16b49int, 0x1af8int, 0xaint) == 0x68c5int,
{
    lemma_first(0x16b49int, 0x1af8int);
    square_93001(0x1int, 0x1af8int, 0xbe40int);
    square_93001(0x2int, 0xbe40int, 0x15c17int);
    next_93001(0x4int, 0x15c17int, 0x50f9int);
    square_93001(0x5int, 0x50f9int, 0x68c5int);
}

/// `c` to the power 62.
proof fn lemma_power2_93001()
    ensures
        pow_mod(0x16b49int, 0x1af8int, 0x3eint) == 0xf0d7int,
{
    lemma_first(0x16b49int, 0x1af8int);
    square_93001(0x1int, 0x1af8int, 0xbe40int);
    next_93001(0x2int, 0xbe40int, 0xd229int);
    square_93001(0x3int, 0xd229int, 0x12ea6int);
    next_93001(0x6int, 0x12ea6int, 0xe7e1int);
    square_93001(0x7int, 0xe7e1int, 0x3478int);
    next_93001(0xeint, 0x3478int, 0x30f3int);
    square_93001(0xfint, 0x30f3int, 0x9d51int);
    next_93001(0x1eint, 0x9d51int, 0xfd23int);
    square_93001(0x1fint, 0xfd23int, 0xf0d7int);
}

/// `c` to the power 155.
proof fn lemma_power3_93001()
    ensures
        pow_mod(0x16b49int, 0x1af8int, 0x9bint) == 0x16b48int,
{
    lemma_first(0x16b49int, 0x1af8int);
    square_93001(0x1int, 0x1af8int, 0xbe40int);
    square_93001(0x2int, 0xbe40int, 0x15c17int);
    square_93001(0x4int, 0x15c17int, 0x10192int);
    next_93001(0x8int, 0x10192int, 0x15be2int);
    square_93001(0x9int, 0x15be2int, 0x3ed2int);
    next_93001(0x12int, 0x3ed2int, 0x1383fint);
    square_93001(0x13int, 0x1383fint, 0xf821int);
    square_93001(0x26int, 0xf821int, 0x10dc0int);
    next_93001(0x4cint, 0x10dc0int, 0x9a4aint);
    square_93001(0x4dint, 0x9a4aint, 0xe5int);
    next_93001(0x9aint, 0xe5int, 0x16b48int);
}

/// The square of a power of `c` to the power 155.
proof fn square_93001_x(e: int, x: int, y: int)
    requires
        e >= 0,
        pow_mod(0x16b49int, 0x16b48int, e) == x,
        (x * x) % 0x16b49int == y,
    ensures
        pow_mod(0x16b49int, 0x16b48int, 2 * e) == y,
{
    lemma_square(0x16b49int, 0x16b48int, e, x, y);
}

/// The order of `c`.
proof fn lemma_order_93001()
    ensures
        pow_mod(0x16b49int, 0x16b48int, 0x2int) == 0x1int,
{
    lemma_first(0x16b49int, 0x16b48int);
    square_93001_x(0x1int, 0x16b48int, 0x1int);
}

/// One of the primes.
proof fn lemma_93001_is_prime()
    ensures
        is_prime(93001int),
{
    lemma_31_is_prime();
    lemma_5_is_prime();
    lemma_2_is_prime();
    lemma_power1_93001();
    lemma_power2_93001();
    lemma_power3_93001();
    lemma_order_93001();
    assert((0x68c5int - 1) * 0x3260int % 0x16b49int == 1);
    assert((0xf0d7int - 1) * 0x62dbint % 0x16b49int == 1);
    assert((0x16b48int - 1) * 0xb5a4int % 0x16b49int == 1);
    lemma_prime_three(0x16b49int, 0x1af8int, 31, 5, 2, 310, 0x68c5int, 0x3260int, 0xf0d7int, 0x62dbint, 0x16b48int, 0xb5a4int);
}

/// The square of a power of the element `c` of order 1637 * 853 modulo 639533339.
proof fn square_639533339(e: int, x: int, y: int)
    requires
        e >= 0,
        pow_mod(0x261e811bint, 0x21f889e1int, e) == x,
        (x * x) % 0x261e811bint == y,
    ensures
        pow_mod(0x261e811bint, 0x21f889e1int, 2 * e) == y,
{
    lemma_square(0x261e811bint, 0x21f889e1int, e, x, y);
}

/// The next power of the element `c` of order 1637 * 853 modulo 639533339.
proof fn next_639533339(e: int, x: int, y: int)
    requires
        e >= 0,
        pow_mod(0x261e811bint, 0x21f889e1int, e) == x,
        (x * 0x21f889e1int) % 0x261e811bint == y,
    ensures
        pow_mod(0x261e811bint, 0x21f889e1int, e + 1) == y,
{
    lemma_next(0x261e811bint, 0x21f889e1int, e, x, y);
}

/// `c` to the power 1637.
proof fn lemma_power1_639533339()
    ensures
        pow_mod(0x261e811bint, 0x21f889e1int, 0x665int) == 0xf4320edint,
{
    lemma_first(0x261e811bint, 0x21f889e1int);
    square_639533339(0x1int, 0x21f889e1int, 0x83b7dbint);
    next_639533339(0x2int, 0x83b7dbint, 0x22609f5cint);
    square_639533339(0x3int, 0x22609f5cint, 0x14a4e4dcint);
    square_639533339(0x6int, 0x14a4e4dcint, 0x1c606e1bint);
    square_639533339(0xcint, 0x1c606e1bint, 0x232b929fint);
    next_639533339(0x18int, 0x232b929fint, 0x10d1c3b0int);
    square_639533339(0x19int, 0x10d1c3b0int, 0x5d514abint);
    next_639533339(0x32int, 0x5d514abint, 0x8974b84int);
    square_639533339(0x33int, 0x8974b84int, 0x124c627dint);
    square_639533339(0x66int, 0x124c627dint, 0x1f9f02b3int);
    square_639533339(0xccint, 0x1f9f02b3int, 0x23b473d8int);
    next_639533339(0x198int, 0x23b473d8int, 0x8d5c729int);
    square_639533339(0x199int, 0x8d5c729int, 0x1ad0742fint);
    square_639533339(0x332int, 0x1ad0742fint, 0x204443f3int);
    next_639533339(0x664int, 0x204443f3int, 0xf4320edint);
}

/// `c` to the power 853.
proof fn lemma_power2_639533339()
    ensures
        pow_mod(0x261e811bint, 0x21f889e1int, 0x355int) == 0xed58fc3int,
{
    lemma_first(0x261e811bint, 0x21f889e1int);
    square_639533339(0x1int, 0x21f889e1int, 0x83b7dbint);
    next_639533339(0x2int, 0x83b7dbint, 0x22609f5cint);
    square_639533339(0x3int, 0x22609f5cint, 0x14a4e4dcint);
    square_639533339(0x6int, 0x14a4e4dcint, 0x1c606e1bint);
    next_639533339(0xcint, 0x1c606e1bint, 0x229f5fa6int);
    square_639533339(0xdint, 0x229f5fa6int, 0x12561696int);
    square_639533339(0x1aint, 0x12561696int, 0x11840adaint);
    next_639533339(0x34int, 0x11840adaint, 0x2e9ef00int);
    square_639533339(0x35int, 0x2e9ef00int, 0x12633803int);
    square_639533339(0x6aint, 0x12633803int, 0x289cb8eint);
    next_639533339(0xd4int, 0x289cb8eint, 0x12d55c21int);
    square_639533339(0xd5int, 0x12d55c21int, 0xbaae05fint);
    square_639533339(0x1aaint, 0xbaae05fint, 0x1397cecdint);
    next_639533339(0x354int, 0x1397cecdint, 0xed58fc3int);
}

/// The square of a power of `c` to the power 1637.
proof fn square_639533339_x(e: int, x: int, y: int)
    requires
        e >= 0,
        pow_mod(0x261e811bint, 0xf4320edint, e) == x,
        (x * x) % 0x261e811bint == y,
    ensures
        pow_mod(0x261e811bint, 0xf4320edint, 2 * e) == y,
{
    lemma_square(0x261e811bint, 0xf4320edint, e, x, y);
}

/// The next power of `c` to the power 1637.
proof fn next_639533339_x(e: int, x: int, y: int)
    requires
        e >= 0,
        pow_mod(0x261e811bint, 0xf4320edint, e) == x,
        (x * 0xf4320edint) % 0x261e811bint == y,
    ensures
        pow_mod(0x261e811bint, 0xf4320edint, e + 1) == y,
{
    lemma_next(0x261e811bint, 0xf4320edint, e, x, y);
}

/// The order of `c`.
proof fn lemma_order_639533339()
    ensures
        pow_mod(0x261e811bint, 0xf4320edint, 0x355int) == 0x1int,
{
    lemma_first(0x261e811bint, 0xf4320edint);
    square_639533339_x(0x1int, 0xf4320edint, 0x20075d5cint);
    next_639533339_x(0x2int, 0x20075d5cint, 0xc75273fint);
    square_639533339_x(0x3int, 0xc75273fint, 0x1f687a11int);
    square_639533339_x(0x6int, 0x1f687a11int, 0x25771895int);
    next_639533339_x(0xcint, 0x25771895int, 0x23e1b36bint);
    square_639533339_x(0xdint, 0x23e1b36bint, 0x353395aint);
    square_639533339_x(0x1aint, 0x353395aint, 0x671026int);
    next_639533339_x(0x34int, 0x671026int, 0xddcd25aint);
    square_639533339_x(0x35int, 0xddcd25aint, 0x125e004bint);
    square_639533339_x(0x6aint, 0x125e004bint, 0x7dcd011int);
    next_639533339_x(0xd4int, 0x7dcd011int, 0x11174cb2int);
    square_639533339_x(0xd5int, 0x11174cb2int, 0x15f66782int);
    square_639533339_x(0x1aaint, 0x15f66782int, 0x1053f46bint);
    next_639533339_x(0x354int, 0x1053f46bint, 0x1int);
}

/// One of the primes.
proof fn lemma_639533339_is_prime()
    ensures
        is_prime(639533339int),
{
    lemma_1637_is_prime();
    lemma_853_is_prime();
    lemma_power1_639533339();
    lemma_power2_639533339();
    lemma_order_639533339();
    assert((0xf4320edint - 1) * 0x121e58afint % 0x261e811bint == 1);
    assert((0xed58fc3int - 1) * 0x11aa936bint % 0x261e811bint == 1);
    lemma_prime_two(
        0x261e811bint,
        0x21f889e1int,
        0x665int,
        0x355int,
        0xf4320edint,
        0x121e58afint,
        0xed58fc3int,
        0x11aa936bint,
    );
}

/// The square of a power of the element of order 639533339 modulo 65865678001877903.
proof fn square_65865678001877903(e: int, x: int, y: int)
    requires
        e >= 0,
        pow_mod(0xea007c3431338fint, 0x1e8949ee7b99cfint, e) == x,
        (x * x) % 0xea007c3431338fint == y,
    ensures
        pow_mod(0xea007c3431338fint, 0x1e8949ee7b99cfint, 2 * e) == y,
{
    lemma_square(0xea007c3431338fint, 0x1e8949ee7b99cfint, e, x, y);
}

/// The next power of the element of order 639533339 modulo 65865678001877903.
proof fn next_65865678001877903(e: int, x: int, y: int)
    requires
        e >= 0,
        pow_mod(0xea007c3431338fint, 0x1e8949ee7b99cfint, e) == x,
        (x * 0x1e8949ee7b99cfint) % 0xea007c3431338fint == y,
    ensures
        pow_mod(0xea007c3431338fint, 0x1e8949ee7b99cfint, e + 1) == y,
{
    lemma_next(0xea007c3431338fint, 0x1e8949ee7b99cfint, e, x, y);
}

/// The order of that element.
proof fn lemma_order_65865678001877903()
    ensures
        pow_mod(0xea007c3431338fint, 0x1e8949ee7b99cfint, 0x261e811bint) == 0x1int,
{
    lemma_first(0xea007c3431338fint, 0x1e8949ee7b99cfint);
    square_65865678001877903(0x1int, 0x1e8949ee7b99cfint, 0x444e024ec9bcedint);
    square_65865678001877903(0x2int, 0x444e024ec9bcedint, 0xca6465eb42ad9eint);
    square_65865678001877903(0x4int, 0xca6465eb42ad9eint, 0xb9c4c44d780fdint);
    next_65865678001877903(0x8int, 0xb9c4c44d780fdint, 0x421f33f000ea31int);
    square_65865678001877903(0x9int, 0x421f33f000ea31int, 0x61a03f7b998867int);
    next_65865678001877903(0x12int, 0x61a03f7b998867int, 0x9b5ffa4123e5b0int);
    square_65865678001877903(0x13int, 0x9b5ffa4123e5b0int, 0xac1eaad9857fc7int);
    square_65865678001877903(0x26int, 0xac1eaad9857fc7int, 0xe649ccead27df0int);
    square_65865678001877903(0x4cint, 0xe649ccead27df0int, 0xb65c5b26bbff1dint);
    square_65865678001877903(0x98int, 0xb65c5b26bbff1dint, 0xd9bb821ae8b700int);
    square_65865678001877903(0x130int, 0xd9bb821ae8b700int, 0x7443b078c326f1int);
    next_65865678001877903(0x260int, 0x7443b078c326f1int, 0xcfb5bdab93615bint);
    square_65865678001877903(0x261int, 0xcfb5bdab93615bint, 0x9557cfe5c8aa2cint);
    next_65865678001877903(0x4c2int, 0x9557cfe5c8aa2cint, 0x59639e226c0b65int);
    square_65865678001877903(0x4c3int, 0x59639e226c0b65int, 0x91a85389530321int);
    next_65865678001877903(0x986int, 0x91a85389530321int, 0x99c5827e71ca0eint);
    square_65865678001877903(0x987int, 0x99c5827e71ca0eint, 0xb13f582f147fbint);
    next_65865678001877903(0x130eint, 0xb13f582f147fbint, 0x3e66ea8db9c46cint);
    square_65865678001877903(0x130fint, 0x3e66ea8db9c46cint, 0xc486e176cfbf54int);
    square_65865678001877903(0x261eint, 0xc486e176cfbf54int, 0x301103170c2c26int);
    next_65865678001877903(0x4c3cint, 0x301103170c2c26int, 0x39e8cbd8ba1eeint);
    square_65865678001877903(0x4c3dint, 0x39e8cbd8ba1eeint, 0x2b9a1658505ad8int);
    square_65865678001877903(0x987aint, 0x2b9a1658505ad8int, 0xd6e88a60365447int);
    square_65865678001877903(0x130f4int, 0xd6e88a60365447int, 0xb67c71f5143fd4int);
    square_65865678001877903(0x261e8int, 0xb67c71f5143fd4int, 0x7d096634ef467fint);
    square_65865678001877903(0x4c3d0int, 0x7d096634ef467fint, 0x946c1015294647int);
    square_65865678001877903(0x987a0int, 0x946c1015294647int, 0x88a26b9a7c19e8int);
    square_65865678001877903(0x130f40int, 0x88a26b9a7c19e8int, 0x65f68c8b673cf8int);
    next_65865678001877903(0x261e80int, 0x65f68c8b673cf8int, 0x78f701b4ebc838int);
    square_65865678001877903(0x261e81int, 0x78f701b4ebc838int, 0xe3e1cf3b53edb9int);
    square_65865678001877903(0x4c3d02int, 0xe3e1cf3b53edb9int, 0x196fe366bd4445int);
    square_65865678001877903(0x987a04int, 0x196fe366bd4445int, 0x757500329b41c8int);
    square_65865678001877903(0x130f408int, 0x757500329b41c8int, 0x9c57795512369fint);
    next_65865678001877903(0x261e810int, 0x9c57795512369fint, 0xa1cf78126f730bint);
    square_65865678001877903(0x261e811int, 0xa1cf78126f730bint, 0xc1fdf9468361e4int);
    next_65865678001877903(0x4c3d022int, 0xc1fdf9468361e4int, 0xd7639825304061int);
    square_65865678001877903(0x4c3d023int, 0xd7639825304061int, 0xca920e3b244852int);
    square_65865678001877903(0x987a046int, 0xca920e3b244852int, 0x511482f1d97bd0int);
    next_65865678001877903(0x130f408cint, 0x511482f1d97bd0int, 0xb66e83919a59b7int);
    square_65865678001877903(0x130f408dint, 0xb66e83919a59b7int, 0x3bfdbe6799d141int);
    next_65865678001877903(0x261e811aint, 0x3bfdbe6799d141int, 0x1int);
}

/// One of the primes.
proof fn lemma_65865678001877903_is_prime()
    ensures
        is_prime(65865678001877903int),
{
    lemma_639533339_is_prime();
    lemma_order_65865678001877903();
    assert((0x1e8949ee7b99cfint - 1) * 0x8aac914b371ee1int % 0xea007c3431338fint == 1);
    lemma_prime_one(0xea007c3431338fint, 0x1e8949ee7b99cfint, 0x261e811bint, 0x8aac914b371ee1int);
}

/// The square of a power of the element of order 65865678001877903 modulo 13818364434197438864469338081.
proof fn square_13818364434197438864469338081(e: int, x: int, y: int)
    requires
        e >= 0,
        pow_mod(0x2ca6487cfcd795e8729527e1int, 0x19a3e92405bebb4bd6527e50int, e) == x,
        (x * x) % 0x2ca6487cfcd795e8729527e1int == y,
    ensures
        pow_mod(0x2ca6487cfcd795e8729527e1int, 0x19a3e92405bebb4bd6527e50int, 2 * e) == y,
{
    lemma_square(0x2ca6487cfcd795e8729527e1int, 0x19a3e92405bebb4bd6527e50int, e, x, y);
}

/// The next power of the element of order 65865678001877903 modulo 13818364434197438864469338081.
proof fn next_13818364434197438864469338081(e: int, x: int, y: int)
    requires
        e >= 0,
        pow_mod(0x2ca6487cfcd795e8729527e1int, 0x19a3e92405bebb4bd6527e50int, e) == x,
        (x * 0x19a3e92405bebb4bd6527e50int) % 0x2ca6487cfcd795e8729527e1int == y,
    ensures
        pow_mod(0x2ca6487cfcd795e8729527e1int, 0x19a3e92405bebb4bd6527e50int, e + 1) == y,
{
    lemma_next(0x2ca6487cfcd795e8729527e1int, 0x19a3e92405bebb4bd6527e50int, e, x, y);
}

/// The order of that element.
proof fn lemma_order_13818364434197438864469338081()
    ensures
        pow_mod(0x2ca6487cfcd795e8729527e1int, 0x19a3e92405bebb4bd6527e50int, 0xea007c3431338fint) == 0x1int,
{
    lemma_first(0x2ca6487cfcd795e8729527e1int, 0x19a3e92405bebb4bd6527e50int);
    square_13818364434197438864469338081(0x1int, 0x19a3e92405bebb4bd6527e50int, 0x1c3ba0731838bf068f2c2897int);
    next_13818364434197438864469338081(0x2int, 0x1c3ba0731838bf068f2c2897int, 0x1377743336b03795709a3dfcint);
    square_13818364434197438864469338081(0x3int, 0x1377743336b03795709a3dfcint, 0x2315c9fdc5ca349889eeed73int);
    next_13818364434197438864469338081(0x6int, 0x2315c9fdc5ca349889eeed73int, 0x29dd6322677c53601f9b8f1dint);
    square_13818364434197438864469338081(0x7int, 0x29dd6322677c53601f9b8f1dint, 0x2a1ccadc2fe323cbf7f65a7bint);
    square_13818364434197438864469338081(0xeint, 0x2a1ccadc2fe323cbf7f65a7bint, 0x1229a2367c3af89fe9edf62cint);
    next_13818364434197438864469338081(0x1cint, 0x1229a2367c3af89fe9edf62cint, 0x1e1b137ff36a324a4ae6d9d7int);
    square_13818364434197438864469338081(0x1dint, 0x1e1b137ff36a324a4ae6d9d7int, 0xb447ed7839e5ced0e9416cbint);
    square_13818364434197438864469338081(0x3aint, 0xb447ed7839e5ced0e9416cbint, 0xc5de839651988f891bae8c4int);
    next_13818364434197438864469338081(0x74int, 0xc5de839651988f891bae8c4int, 0x1cfc319e15305a5bb2514c73int);
    square_13818364434197438864469338081(0x75int, 0x1cfc319e15305a5bb2514c73int, 0x2a2849632887881fe9aa8518int);
    square_13818364434197438864469338081(0xeaint, 0x2a2849632887881fe9aa8518int, 0x59be5bf25ef4f4c96b71cebint);
    square_13818364434197438864469338081(0x1d4int, 0x59be5bf25ef4f4c96b71cebint, 0x75c33d0907400032cdc3981int);
    square_13818364434197438864469338081(0x3a8int, 0x75c33d0907400032cdc3981int, 0x21c9b255c4936e4d095aba87int);
    square_13818364434197438864469338081(0x750int, 0x21c9b255c4936e4d095aba87int, 0x256c79b3a74dd54db5dc03a0int);
    square_13818364434197438864469338081(0xea0int, 0x256c79b3a74dd54db5dc03a0int, 0xe59669e756e8e998d55b865int);
    square_13818364434197438864469338081(0x1d40int, 0xe59669e756e8e998d55b865int, 0x1b0aa2759336eca181645bceint);
    square_13818364434197438864469338081(0x3a80int, 0x1b0aa2759336eca181645bceint, 0x1ded7c80a2b12c7bb762ae60int);
    square_13818364434197438864469338081(0x7500int, 0x1ded7c80a2b12c7bb762ae60int, 0x21a5825f715c9f16a80314d1int);
    square_13818364434197438864469338081(0xea00int, 0x21a5825f715c9f16a80314d1int, 0x254b30aadbc19fa27ec1011aint);
    square_13818364434197438864469338081(0x1d400int, 0x254b30aadbc19fa27ec1011aint, 0x17d089a17e39e6877220e502int);
    next_13818364434197438864469338081(0x3a800int, 0x17d089a17e39e6877220e502int, 0xd367c05503bac9d6419e6a5int);
    square_13818364434197438864469338081(0x3a801int, 0xd367c05503bac9d6419e6a5int, 0x10b5be12af9b05e9a2b90f2dint);
    next_13818364434197438864469338081(0x75002int, 0x10b5be12af9b05e9a2b90f2dint, 0x6666b9237bfae9a5fbcd45int);
    square_13818364434197438864469338081(0x75003int, 0x6666b9237bfae9a5fbcd45int, 0x2c810cc5e54aabe2ccf6dc8int);
    next_13818364434197438864469338081(0xea006int, 0x2c810cc5e54aabe2ccf6dc8int, 0xce957194f4106347ba8851cint);
    square_13818364434197438864469338081(0xea007int, 0xce957194f4106347ba8851cint, 0x29ceaff8c3c95e9a5026af8bint);
    next_13818364434197438864469338081(0x1d400eint, 0x29ceaff8c3c95e9a5026af8bint, 0x174e96b90d33704bca99dee7int);
    square_13818364434197438864469338081(0x1d400fint, 0x174e96b90d33704bca99dee7int, 0x1d2049e12dd78ecb30839346int);
    next_13818364434197438864469338081(0x3a801eint, 0x1d2049e12dd78ecb30839346int, 0xa94bd527b6649b7cab81bfbint);
    square_13818364434197438864469338081(0x3a801fint, 0xa94bd527b6649b7cab81bfbint, 0x19261ecd3a311dac4e5004f4int);
    square_13818364434197438864469338081(0x75003eint, 0x19261ecd3a311dac4e5004f4int, 0x273788c4a10bc624c6c33619int);
    square_13818364434197438864469338081(0xea007cint, 0x273788c4a10bc624c6c33619int, 0x26f062ff9dc36e7f330c116int);
    square_13818364434197438864469338081(0x1d400f8int, 0x26f062ff9dc36e7f330c116int, 0x1ea1aef1dc016f24d376e6e3int);
    square_13818364434197438864469338081(0x3a801f0int, 0x1ea1aef1dc016f24d376e6e3int, 0x2067a44bd98f97ce848db475int);
    next_13818364434197438864469338081(0x75003e0int, 0x2067a44bd98f97ce848db475int, 0x2150627447f80d425b750ae7int);
    square_13818364434197438864469338081(0x75003e1int, 0x2150627447f80d425b750ae7int, 0x19d1eac688d131a5ce4580b9int);
    next_13818364434197438864469338081(0xea007c2int, 0x19d1eac688d131a5ce4580b9int, 0xa241be77843f0927716a343int);
    square_13818364434197438864469338081(0xea007c3int, 0xa241be77843f0927716a343int, 0x285629362a5c555ffa9ef2f9int);
    square_13818364434197438864469338081(0x1d400f86int, 0x285629362a5c555ffa9ef2f9int, 0x26cb8cb58fdbf6a10db61131int);
    next_13818364434197438864469338081(0x3a801f0cint, 0x26cb8cb58fdbf6a10db61131int, 0x75f2340be930d65f861b611int);
    square_13818364434197438864469338081(0x3a801f0dint, 0x75f2340be930d65f861b611int, 0x1b3f02289bfe9b3461e9a7a3int);
    square_13818364434197438864469338081(0x75003e1aint, 0x1b3f02289bfe9b3461e9a7a3int, 0x1e01d89f21bbcb33354f621aint);
    square_13818364434197438864469338081(0xea007c34int, 0x1e01d89f21bbcb33354f621aint, 0x17bfb88f93eb4891faa4a291int);
    square_13818364434197438864469338081(0x1d400f868int, 0x17bfb88f93eb4891faa4a291int, 0x2452589b30bf4ec4d0dbca32int);
    square_13818364434197438864469338081(0x3a801f0d0int, 0x2452589b30bf4ec4d0dbca32int, 0x172f7856db9d9049329e1c23int);
    next_13818364434197438864469338081(0x75003e1a0int, 0x172f7856db9d9049329e1c23int, 0x21e9b5b44c62f77b58be4e16int);
    square_13818364434197438864469338081(0x75003e1a1int, 0x21e9b5b44c62f77b58be4e16int, 0x196f94099462c1876d938261int);
    next_13818364434197438864469338081(0xea007c342int, 0x196f94099462c1876d938261int, 0x611cbea0101c8219feaa757int);
    square_13818364434197438864469338081(0xea007c343int, 0x611cbea0101c8219feaa757int, 0x174fe46632dcb2d184f7a48eint);
    square_13818364434197438864469338081(0x1d400f8686int, 0x174fe46632dcb2d184f7a48eint, 0x1b12d250a91c5ea809f78c5eint);
    square_13818364434197438864469338081(0x3a801f0d0cint, 0x1b12d250a91c5ea809f78c5eint, 0x29b1c7dcbbb1efce4434fc59int);
    square_13818364434197438864469338081(0x75003e1a18int, 0x29b1c7dcbbb1efce4434fc59int, 0x152b83548099d32980ee3a31int);
    next_13818364434197438864469338081(0xea007c3430int, 0x152b83548099d32980ee3a31int, 0x2251208b9ca0ee7b6ace2256int);
    square_13818364434197438864469338081(0xea007c3431int, 0x2251208b9ca0ee7b6ace2256int, 0x83f3c33f2d6756b21a262aaint);
    square_13818364434197438864469338081(0x1d400f86862int, 0x83f3c33f2d6756b21a262aaint, 0x4da7b262650460a5798fb7int);
    square_13818364434197438864469338081(0x3a801f0d0c4int, 0x4da7b262650460a5798fb7int, 0x1eed329aa5d46090a3dd90afint);
    next_13818364434197438864469338081(0x75003e1a188int, 0x1eed329aa5d46090a3dd90afint, 0x12f0b8f09b9f2ff90bd7e637int);
    square_13818364434197438864469338081(0x75003e1a189int, 0x12f0b8f09b9f2ff90bd7e637int, 0x16b9a16776bd769758e03fb7int);
    next_13818364434197438864469338081(0xea007c34312int, 0x16b9a16776bd769758e03fb7int, 0x127829bc6a9b3d50afa90311int);
    square_13818364434197438864469338081(0xea007c34313int, 0x127829bc6a9b3d50afa90311int, 0x1e19df92d17a8bd855584f71int);
    square_13818364434197438864469338081(0x1d400f868626int, 0x1e19df92d17a8bd855584f71int, 0x16668b3d4c5c3d8ee04830ddint);
    square_13818364434197438864469338081(0x3a801f0d0c4cint, 0x16668b3d4c5c3d8ee04830ddint, 0x25b6c138d2dc290e26ec7d4eint);
    next_13818364434197438864469338081(0x75003e1a1898int, 0x25b6c138d2dc290e26ec7d4eint, 0x9f6d40fde8b4957e29ce599int);
    square_13818364434197438864469338081(0x75003e1a1899int, 0x9f6d40fde8b4957e29ce599int, 0x24ec1f53c4e0f854341966f8int);
    next_13818364434197438864469338081(0xea007c343132int, 0x24ec1f53c4e0f854341966f8int, 0xa18470a66e409a1ec145373int);
    square_13818364434197438864469338081(0xea007c343133int, 0xa18470a66e409a1ec145373int, 0x167d98aa1b915d48e3fb1f4bint);
    next_13818364434197438864469338081(0x1d400f8686266int, 0x167d98aa1b915d48e3fb1f4bint, 0x9e16e62fcf21495b4bacce2int);
    square_13818364434197438864469338081(0x1d400f8686267int, 0x9e16e62fcf21495b4bacce2int, 0xc78928c0f6bcc9fcedc74deint);
    square_13818364434197438864469338081(0x3a801f0d0c4ceint, 0xc78928c0f6bcc9fcedc74deint, 0x142eb1294b5eef14840542a3int);
    square_13818364434197438864469338081(0x75003e1a1899cint, 0x142eb1294b5eef14840542a3int, 0x18a2fea047d7d0de7989a763int);
    square_13818364434197438864469338081(0xea007c3431338int, 0x18a2fea047d7d0de7989a763int, 0x25f0a954347f42d2b5ad85d3int);
    next_13818364434197438864469338081(0x1d400f86862670int, 0x25f0a954347f42d2b5ad85d3int, 0x1295d3396a19afe2000e24e3int);
    square_13818364434197438864469338081(0x1d400f86862671int, 0x1295d3396a19afe2000e24e3int, 0xf0708495b5d4b5b9980a20fint);
    next_13818364434197438864469338081(0x3a801f0d0c4ce2int, 0xf0708495b5d4b5b9980a20fint, 0x1dd1ccc1a22f7ab9c010bed0int);
    square_13818364434197438864469338081(0x3a801f0d0c4ce3int, 0x1dd1ccc1a22f7ab9c010bed0int, 0x1eca70f016b32ecb9d6348daint);
    next_13818364434197438864469338081(0x75003e1a1899c6int, 0x1eca70f016b32ecb9d6348daint, 0x174ec4335b0352e468e4b618int);
    square_13818364434197438864469338081(0x75003e1a1899c7int, 0x174ec4335b0352e468e4b618int, 0x240457762e2704b35853b7e7int);
    next_13818364434197438864469338081(0xea007c3431338eint, 0x240457762e2704b35853b7e7int, 0x1int);
}

/// One of the primes.
proof fn lemma_13818364434197438864469338081_is_prime()
    ensures
        is_prime(13818364434197438864469338081int),
{
    lemma_65865678001877903_is_prime();
    lemma_order_13818364434197438864469338081();
    assert((0x19a3e92405bebb4bd6527e50int - 1) * 0x27af4995b5c971ff1be1666aint % 0x2ca6487cfcd795e8729527e1int == 1);
    lemma_prime_one(0x2ca6487cfcd795e8729527e1int, 0x19a3e92405bebb4bd6527e50int, 0xea007c3431338fint, 0x27af4995b5c971ff1be1666aint);
}

/// The square of a power of the element `c` of order 93001 * 2 modulo 12048837557.
proof fn square_12048837557(e: int, x: int, y: int)
    requires
        e >= 0,
        pow_mod(0x2ce2aabb5int, 0x1b4c424f6int, e) == x,
        (x * x) % 0x2ce2aabb5int == y,
    ensures
        pow_mod(0x2ce2aabb5int, 0x1b4c424f6int, 2 * e) == y,
{
    lemma_square(0x2ce2aabb5int, 0x1b4c424f6int, e, x, y);
}

/// The next power of the element `c` of order 93001 * 2 modulo 12048837557.
proof fn next_12048837557(e: int, x: int, y: int)
    requires
        e >= 0,
        pow_mod(0x2ce2aabb5int, 0x1b4c424f6int, e) == x,
        (x * 0x1b4c424f6int) % 0x2ce2aabb5int == y,
    ensures
        pow_mod(0x2ce2aabb5int, 0x1b4c424f6int, e + 1) == y,
{
    lemma_next(0x2ce2aabb5int, 0x1b4c424f6int, e, x, y);
}

/// `c` to the power 93001.
proof fn lemma_power1_12048837557()
    ensures
        pow_mod(0x2ce2aabb5int, 0x1b4c424f6int, 0x16b49int) == 0x2ce2aabb4int,
{
    lemma_first(0x2ce2aabb5int, 0x1b4c424f6int);
    square_12048837557(0x1int, 0x1b4c424f6int, 0x11af1660aint);
    square_12048837557(0x2int, 0x11af1660aint, 0x181299cc5int);
    next_12048837557(0x4int, 0x181299cc5int, 0x18523442dint);
    square_12048837557(0x5int, 0x18523442dint, 0xb1b95871int);
    next_12048837557(0xaint, 0xb1b95871int, 0x13df5b8c9int);
    square_12048837557(0xbint, 0x13df5b8c9int, 0x24111d372int);
    square_12048837557(0x16int, 0x24111d372int, 0x167083c76int);
    next_12048837557(0x2cint, 0x167083c76int, 0x1f4d9e233int);
    square_12048837557(0x2dint, 0x1f4d9e233int, 0x222d58279int);
    square_12048837557(0x5aint, 0x222d58279int, 0x26b5847f7int);
    next_12048837557(0xb4int, 0x26b5847f7int, 0x10bb6f894int);
    square_12048837557(0xb5int, 0x10bb6f894int, 0x2b6991505int);
    next_12048837557(0x16aint, 0x2b6991505int, 0x19eb5e152int);
    square_12048837557(0x16bint, 0x19eb5e152int, 0x193ece20fint);
    square_12048837557(0x2d6int, 0x193ece20fint, 0x1e6b81299int);
    next_12048837557(0x5acint, 0x1e6b81299int, 0x9c12748int);
    square_12048837557(0x5adint, 0x9c12748int, 0x156a2f638int);
    square_12048837557(0xb5aint, 0x156a2f638int, 0x1b398f4fbint);
    square_12048837557(0x16b4int, 0x1b398f4fbint, 0x1cf8319ebint);
    next_12048837557(0x2d68int, 0x1cf8319ebint, 0xb11d6e35int);
    square_12048837557(0x2d69int, 0xb11d6e35int, 0x201ba31aint);
    square_12048837557(0x5ad2int, 0x201ba31aint, 0x54bf2dfaint);
    square_12048837557(0xb5a4int, 0x54bf2dfaint, 0x178d70c72int);
    next_12048837557(0x16b48int, 0x178d70c72int, 0x2ce2aabb4int);
}

/// `c` to the power 2.
proof fn lemma_power2_12048837557()
    ensures
        pow_mod(0x2ce2aabb5int, 0x1b4c424f6int, 0x2int) == 0x11af1660aint,
{
    lemma_first(0x2ce2aabb5int, 0x1b4c424f6int);
    square_12048837557(0x1int, 0x1b4c424f6int, 0x11af1660aint);
}

/// The square of a power of `c` to the power 93001.
proof fn square_12048837557_x(e: int, x: int, y: int)
    requires
        e >= 0,
        pow_mod(0x2ce2aabb5int, 0x2ce2aabb4int, e) == x,
        (x * x) % 0x2ce2aabb5int == y,
    ensures
        pow_mod(0x2ce2aabb5int, 0x2ce2aabb4int, 2 * e) == y,
{
    lemma_square(0x2ce2aabb5int, 0x2ce2aabb4int, e, x, y);
}

/// The order of `c`.
proof fn lemma_order_12048837557()
    ensures
        pow_mod(0x2ce2aabb5int, 0x2ce2aabb4int, 0x2int) == 0x1int,
{
    lemma_first(0x2ce2aabb5int, 0x2ce2aabb4int);
    square_12048837557_x(0x1int, 0x2ce2aabb4int, 0x1int);
}

/// One of the primes.
proof fn lemma_12048837557_is_prime()
    ensures
        is_prime(12048837557int),
{
    lemma_93001_is_prime();
    lemma_2_is_prime();
    lemma_power1_12048837557();
    lemma_power2_12048837557();
    lemma_order_12048837557();
    assert((0x2ce2aabb4int - 1) * 0x1671555daint % 0x2ce2aabb5int == 1);
    assert((0x11af1660aint - 1) * 0x2662fd159int % 0x2ce2aabb5int == 1);
    lemma_prime_two(
        0x2ce2aabb5int,
        0x1b4c424f6int,
        0x16b49int,
        0x2int,
        0x2ce2aabb4int,
        0x1671555daint,
        0x11af1660aint,
        0x2662fd159int,
    );
}

/// The square of a power of the element of order 12048837557 modulo 5156902474397.
proof fn square_5156902474397(e: int, x: int, y: int)
    requires
        e >= 0,
        pow_mod(0x4b0af57129dint, 0x4512e21e802int, e) == x,
        (x * x) % 0x4b0af57129dint == y,
    ensures
        pow_mod(0x4b0af57129dint, 0x4512e21e802int, 2 * e) == y,
{
    lemma_square(0x4b0af57129dint, 0x4512e21e802int, e, x, y);
}

/// The next power of the element of order 12048837557 modulo 5156902474397.
proof fn next_5156902474397(e: int, x: int, y: int)
    requires
        e >= 0,
        pow_mod(0x4b0af57129dint, 0x4512e21e802int, e) == x,
        (x * 0x4512e21e802int) % 0x4b0af57129dint == y,
    ensures
        pow_mod(0x4b0af57129dint, 0x4512e21e802int, e + 1) == y,
{
    lemma_next(0x4b0af57129dint, 0x4512e21e802int, e, x, y);
}

/// The order of that element.
proof fn lemma_order_5156902474397()
    ensures
        pow_mod(0x4b0af57129dint, 0x4512e21e802int, 0x2ce2aabb5int) == 0x1int,
{
    lemma_first(0x4b0af57129dint, 0x4512e21e802int);
    square_5156902474397(0x1int, 0x4512e21e802int, 0x46eb57ab7beint);
    square_5156902474397(0x2int, 0x46eb57ab7beint, 0x101ac896adbint);
    next_5156902474397(0x4int, 0x101ac896adbint, 0x3508533c162int);
    square_5156902474397(0x5int, 0x3508533c162int, 0x224cf307efint);
    next_5156902474397(0xaint, 0x224cf307efint, 0x1603476299cint);
    square_5156902474397(0xbint, 0x1603476299cint, 0x23c61c1f447int);
    square_5156902474397(0x16int, 0x23c61c1f447int, 0x13f7d6536c0int);
    square_5156902474397(0x2cint, 0x13f7d6536c0int, 0x365f035a15aint);
    next_5156902474397(0x58int, 0x365f035a15aint, 0x39ff1fabe89int);
    square_5156902474397(0x59int, 0x39ff1fabe89int, 0x12981bd88d1int);
    next_5156902474397(0xb2int, 0x12981bd88d1int, 0x336d4ca07a6int);
    square_5156902474397(0xb3int, 0x336d4ca07a6int, 0x3e85dc32320int);
    next_5156902474397(0x166int, 0x3e85dc32320int, 0x1e87988c39fint);
    square_5156902474397(0x167int, 0x1e87988c39fint, 0x39798d1d952int);
    square_5156902474397(0x2ceint, 0x39798d1d952int, 0x2a02a16ec15int);
    square_5156902474397(0x59cint, 0x2a02a16ec15int, 0x4725c012f7bint);
    square_5156902474397(0xb38int, 0x4725c012f7bint, 0x4340b2f7eaaint);
    next_5156902474397(0x1670int, 0x4340b2f7eaaint, 0x1142957b5e9int);
    square_5156902474397(0x1671int, 0x1142957b5e9int, 0x46c53a5f133int);
    square_5156902474397(0x2ce2int, 0x46c53a5f133int, 0x982319fe78int);
    next_5156902474397(0x59c4int, 0x982319fe78int, 0x3356d5dc1bfint);
    square_5156902474397(0x59c5int, 0x3356d5dc1bfint, 0x8488b83e35int);
    square_5156902474397(0xb38aint, 0x8488b83e35int, 0x2c96d7c7efint);
    next_5156902474397(0x16714int, 0x2c96d7c7efint, 0x3ee854c9fc2int);
    square_5156902474397(0x16715int, 0x3ee854c9fc2int, 0xf6045996b9int);
    square_5156902474397(0x2ce2aint, 0xf6045996b9int, 0x1657944f369int);
    next_5156902474397(0x59c54int, 0x1657944f369int, 0x2b2de4a465cint);
    square_5156902474397(0x59c55int, 0x2b2de4a465cint, 0x3d538e215f6int);
    square_5156902474397(0xb38aaint, 0x3d538e215f6int, 0x248686ab03fint);
    next_5156902474397(0x167154int, 0x248686ab03fint, 0x1d2e496a891int);
    square_5156902474397(0x167155int, 0x1d2e496a891int, 0x1fd8ad29240int);
    square_5156902474397(0x2ce2aaint, 0x1fd8ad29240int, 0xe0c5c15c53int);
    next_5156902474397(0x59c554int, 0xe0c5c15c53int, 0x25d172b46bdint);
    square_5156902474397(0x59c555int, 0x25d172b46bdint, 0x47599de12b2int);
    square_5156902474397(0xb38aaaint, 0x47599de12b2int, 0x2cd7907e80cint);
    next_5156902474397(0x1671554int, 0x2cd7907e80cint, 0x22a0d81113cint);
    square_5156902474397(0x1671555int, 0x22a0d81113cint, 0xd8c472571bint);
    next_5156902474397(0x2ce2aaaint, 0xd8c472571bint, 0x414fe385554int);
    square_5156902474397(0x2ce2aabint, 0x414fe385554int, 0x40576f4565cint);
    next_5156902474397(0x59c5556int, 0x40576f4565cint, 0x22b63198e91int);
    square_5156902474397(0x59c5557int, 0x22b63198e91int, 0x20e56bb7606int);
    square_5156902474397(0xb38aaaeint, 0x20e56bb7606int, 0x315f165b5a6int);
    next_5156902474397(0x1671555cint, 0x315f165b5a6int, 0x47ec933355eint);
    square_5156902474397(0x1671555dint, 0x47ec933355eint, 0x20f68f63d75int);
    next_5156902474397(0x2ce2aabaint, 0x20f68f63d75int, 0x1607bd44e4fint);
    square_5156902474397(0x2ce2aabbint, 0x1607bd44e4fint, 0x31061ef348bint);
    square_5156902474397(0x59c55576int, 0x31061ef348bint, 0x163e2d7fe3dint);
    next_5156902474397(0xb38aaaecint, 0x163e2d7fe3dint, 0x4282ef1d030int);
    square_5156902474397(0xb38aaaedint, 0x4282ef1d030int, 0x3950ae87442int);
    square_5156902474397(0x1671555daint, 0x3950ae87442int, 0x3b58eed532bint);
    next_5156902474397(0x2ce2aabb4int, 0x3b58eed532bint, 0x1int);
}

/// One of the primes.
proof fn lemma_5156902474397_is_prime()
    ensures
        is_prime(5156902474397int),
{
    lemma_12048837557_is_prime();
    lemma_order_5156902474397();
    assert((0x4512e21e802int - 1) * 0x4a0f11df894int % 0x4b0af57129dint == 1);
    lemma_prime_one(0x4b0af57129dint, 0x4512e21e802int, 0x2ce2aabb5int, 0x4a0f11df894int);
}

/// The square of a power of the element of order 5156902474397 modulo 1670836401704629.
proof fn square_1670836401704629(e: int, x: int, y: int)
    requires
        e >= 0,
        pow_mod(0x5ef9dea338eb5int, 0xa0be5150fc4int, e) == x,
        (x * x) % 0x5ef9dea338eb5int == y,
    ensures
        pow_mod(0x5ef9dea338eb5int, 0xa0be5150fc4int, 2 * e) == y,
{
    lemma_square(0x5ef9dea338eb5int, 0xa0be5150fc4int, e, x, y);
}

/// The next power of the element of order 5156902474397 modulo 1670836401704629.
proof fn next_1670836401704629(e: int, x: int, y: int)
    requires
        e >= 0,
        pow_mod(0x5ef9dea338eb5int, 0xa0be5150fc4int, e) == x,
        (x * 0xa0be5150fc4int) % 0x5ef9dea338eb5int == y,
    ensures
        pow_mod(0x5ef9dea338eb5int, 0xa0be5150fc4int, e + 1) == y,
{
    lemma_next(0x5ef9dea338eb5int, 0xa0be5150fc4int, e, x, y);
}

/// The order of that element.
proof fn lemma_order_1670836401704629()
    ensures
        pow_mod(0x5ef9dea338eb5int, 0xa0be5150fc4int, 0x4b0af57129dint) == 0x1int,
{
    lemma_first(0x5ef9dea338eb5int, 0xa0be5150fc4int);
    square_1670836401704629(0x1int, 0xa0be5150fc4int, 0x5e7f526c5addcint);
    square_1670836401704629(0x2int, 0x5e7f526c5addcint, 0xdd4ffd55cc98int);
    square_1670836401704629(0x4int, 0xdd4ffd55cc98int, 0x5d518914c2c8cint);
    next_1670836401704629(0x8int, 0x5d518914c2c8cint, 0x355afdc1c11ebint);
    square_1670836401704629(0x9int, 0x355afdc1c11ebint, 0x2ed8821b444c0int);
    square_1670836401704629(0x12int, 0x2ed8821b444c0int, 0x3dbc061a5a443int);
    next_1670836401704629(0x24int, 0x3dbc061a5a443int, 0xf312eb87adeaint);
    square_1670836401704629(0x25int, 0xf312eb87adeaint, 0xb0a1df1c9225int);
    next_1670836401704629(0x4aint, 0xb0a1df1c9225int, 0x2d034678ff69int);
    square_1670836401704629(0x4bint, 0x2d034678ff69int, 0x1178596d65b47int);
    square_1670836401704629(0x96int, 0x1178596d65b47int, 0x8191308a2c21int);
    square_1670836401704629(0x12cint, 0x8191308a2c21int, 0x3da6476ef6e92int);
    square_1670836401704629(0x258int, 0x3da6476ef6e92int, 0x3d6ac778e36d1int);
    square_1670836401704629(0x4b0int, 0x3d6ac778e36d1int, 0x111926fd8c4f4int);
    next_1670836401704629(0x960int, 0x111926fd8c4f4int, 0x2bf00df88547dint);
    square_1670836401704629(0x961int, 0x2bf00df88547dint, 0x2e200b09643e7int);
    square_1670836401704629(0x12c2int, 0x2e200b09643e7int, 0x49d8d83641556int);
    next_1670836401704629(0x2584int, 0x49d8d83641556int, 0x56198d8d40b0dint);
    square_1670836401704629(0x2585int, 0x56198d8d40b0dint, 0x3f4e3b4dfcb39int);
    square_1670836401704629(0x4b0aint, 0x3f4e3b4dfcb39int, 0x47a84e55edc4aint);
    next_1670836401704629(0x9614int, 0x47a84e55edc4aint, 0x54ed8b165c6d4int);
    square_1670836401704629(0x9615int, 0x54ed8b165c6d4int, 0x552566fd1a8edint);
    next_1670836401704629(0x12c2aint, 0x552566fd1a8edint, 0x5394f4587f44dint);
    square_1670836401704629(0x12c2bint, 0x5394f4587f44dint, 0x224a6f838b994int);
    next_1670836401704629(0x25856int, 0x224a6f838b994int, 0x2652bad517eb0int);
    square_1670836401704629(0x25857int, 0x2652bad517eb0int, 0x53c90dff19e36int);
    next_1670836401704629(0x4b0aeint, 0x53c90dff19e36int, 0x4d8c705955886int);
    square_1670836401704629(0x4b0afint, 0x4d8c705955886int, 0x4b9d36fb8d9fdint);
    square_1670836401704629(0x9615eint, 0x4b9d36fb8d9fdint, 0x28b10aa4ccf15int);
    next_1670836401704629(0x12c2bcint, 0x28b10aa4ccf15int, 0xa9183f238a07int);
    square_1670836401704629(0x12c2bdint, 0xa9183f238a07int, 0x46ccb5b6dff73int);
    square_1670836401704629(0x25857aint, 0x46ccb5b6dff73int, 0x5de7143d99ff4int);
    next_1670836401704629(0x4b0af4int, 0x5de7143d99ff4int, 0x1c8b309d09e2int);
    square_1670836401704629(0x4b0af5int, 0x1c8b309d09e2int, 0x1e49454fe958dint);
    square_1670836401704629(0x9615eaint, 0x1e49454fe958dint, 0x471f6b1572680int);
    next_1670836401704629(0x12c2bd4int, 0x471f6b1572680int, 0x13419c1cba11bint);
    square_1670836401704629(0x12c2bd5int, 0x13419c1cba11bint, 0x506747ef5c22eint);
    next_1670836401704629(0x25857aaint, 0x506747ef5c22eint, 0x4b1e09dd29342int);
    square_1670836401704629(0x25857abint, 0x4b1e09dd29342int, 0x212a54f00319bint);
    next_1670836401704629(0x4b0af56int, 0x212a54f00319bint, 0x2038f21b76651int);
    square_1670836401704629(0x4b0af57int, 0x2038f21b76651int, 0x30ebd4424f4e5int);
    square_1670836401704629(0x9615eaeint, 0x30ebd4424f4e5int, 0x5de550c2a9cc1int);
    square_1670836401704629(0x12c2bd5cint, 0x5de550c2a9cc1int, 0x5bb093609704eint);
    square_1670836401704629(0x25857ab8int, 0x5bb093609704eint, 0x33141e56556aaint);
    next_1670836401704629(0x4b0af570int, 0x33141e56556aaint, 0x1c4fa1f39f794int);
    square_1670836401704629(0x4b0af571int, 0x1c4fa1f39f794int, 0x2f02429eae04cint);
    square_1670836401704629(0x9615eae2int, 0x2f02429eae04cint, 0x312c39b848b6fint);
    square_1670836401704629(0x12c2bd5c4int, 0x312c39b848b6fint, 0x579ad394db2a8int);
    next_1670836401704629(0x25857ab88int, 0x579ad394db2a8int, 0x105a2066caaebint);
    square_1670836401704629(0x25857ab89int, 0x105a2066caaebint, 0x132a8aa9a80f9int);
    square_1670836401704629(0x4b0af5712int, 0x132a8aa9a80f9int, 0x16642f49fb72dint);
    next_1670836401704629(0x9615eae24int, 0x16642f49fb72dint, 0x5330111d1d1baint);
    square_1670836401704629(0x9615eae25int, 0x5330111d1d1baint, 0x5586132f71c0dint);
    square_1670836401704629(0x12c2bd5c4aint, 0x5586132f71c0dint, 0x5eb400413b1a7int);
    square_1670836401704629(0x25857ab894int, 0x5eb400413b1a7int, 0x1fb830c1f2e99int);
    next_1670836401704629(0x4b0af57128int, 0x1fb830c1f2e99int, 0x214d082260309int);
    square_1670836401704629(0x4b0af57129int, 0x214d082260309int, 0x474c8177e3f04int);
    next_1670836401704629(0x9615eae252int, 0x474c8177e3f04int, 0x3610c94d74c0eint);
    square_1670836401704629(0x9615eae253int, 0x3610c94d74c0eint, 0xe27b325ac8c7int);
    next_1670836401704629(0x12c2bd5c4a6int, 0xe27b325ac8c7int, 0x5eefc9dba5c48int);
    square_1670836401704629(0x12c2bd5c4a7int, 0x5eefc9dba5c48int, 0x6f6a60827250int);
    square_1670836401704629(0x25857ab894eint, 0x6f6a60827250int, 0x2382d1ac7ef7bint);
    next_1670836401704629(0x4b0af57129cint, 0x2382d1ac7ef7bint, 0x1int);
}

/// One of the primes.
proof fn lemma_1670836401704629_is_prime()
    ensures
        is_prime(1670836401704629int),
{
    lemma_5156902474397_is_prime();
    lemma_order_1670836401704629();
    assert((0xa0be5150fc4int - 1) * 0x29d2d0e172d3fint % 0x5ef9dea338eb5int == 1);
    lemma_prime_one(0x5ef9dea338eb5int, 0xa0be5150fc4int, 0x4b0af57129dint, 0x29d2d0e172d3fint);
}

/// The square of a power of the element `c` of order 13818364434197438864469338081 * 1670836401704629 modulo the modulus.
proof fn square_modulus(e: int, x: int, y: int)
    requires
        e >= 0,
        pow_mod(0x30644e72e131a029b85045b68181585d2833e84879b9709143e1f593f0000001int, 0x8fdf6a009ddb0f44829608cbae4d277cf3727232b632f357b4ae966ddb136a8int, e) == x,
        (x * x) % 0x30644e72e131a029b85045b68181585d2833e84879b9709143e1f593f0000001int == y,
    ensures
        pow_mod(0x30644e72e131a029b85045b68181585d2833e84879b9709143e1f593f0000001int, 0x8fdf6a009ddb0f44829608cbae4d277cf3727232b632f357b4ae966ddb136a8int, 2 * e) == y,
{
    lemma_square(0x30644e72e131a029b85045b68181585d2833e84879b9709143e1f593f0000001int, 0x8fdf6a009ddb0f44829608cbae4d277cf3727232b632f357b4ae966ddb136a8int, e, x, y);
}

/// The next power of the element `c` of order 13818364434197438864469338081 * 1670836401704629 modulo the modulus.
proof fn next_modulus(e: int, x: int, y: int)
    requires
        e >= 0,
        pow_mod(0x30644e72e131a029b85045b68181585d2833e84879b9709143e1f593f0000001int, 0x8fdf6a009ddb0f44829608cbae4d277cf3727232b632f357b4ae966ddb136a8int, e) == x,
        (x * 0x8fdf6a009ddb0f44829608cbae4d277cf3727232b632f357b4ae966ddb136a8int) % 0x30644e72e131a029b85045b68181585d2833e84879b9709143e1f593f0000001int == y,
    ensures
        pow_mod(0x30644e72e131a029b85045b68181585d2833e84879b9709143e1f593f0000001int, 0x8fdf6a009ddb0f44829608cbae4d277cf3727232b632f357b4ae966ddb136a8int, e + 1) == y,
{
    lemma_next(0x30644e72e131a029b85045b68181585d2833e84879b9709143e1f593f0000001int, 0x8fdf6a009ddb0f44829608cbae4d277cf3727232b632f357b4ae966ddb136a8int, e, x, y);
}

/// `c` to the power 13818364434197438864469338081.
proof fn lemma_power1_modulus()
    ensures
        pow_mod(0x30644e72e131a029b85045b68181585d2833e84879b9709143e1f593f0000001int, 0x8fdf6a009ddb0f44829608cbae4d277cf3727232b632f357b4ae966ddb136a8int, 0x2ca6487cfcd795e8729527e1int) == 0x2200524a255dbf6af47485a398ccebd619e3d57040f03e65be26ba6bf27f8ff3int,
{
    lemma_first(0x30644e72e131a029b85045b68181585d2833e84879b9709143e1f593f0000001int, 0x8fdf6a009ddb0f44829608cbae4d277cf3727232b632f357b4ae966ddb136a8int);
    square_modulus(0x1int, 0x8fdf6a009ddb0f44829608cbae4d277cf3727232b632f357b4ae966ddb136a8int, 0xe1e6ba2302b44c608f0e8f18de6c2682898b53add1c30d4d2b7d5a1dfb52f80int);
    square_modulus(0x2int, 0xe1e6ba2302b44c608f0e8f18de6c2682898b53add1c30d4d2b7d5a1dfb52f80int, 0x27af568a4003d9fb8df4edcc8c1e1fe4dad9a83ca7ddf62f1cf7af87ef184425int);
    next_modulus(0x4int, 0x27af568a4003d9fb8df4edcc8c1e1fe4dad9a83ca7ddf62f1cf7af87ef184425int, 0x1d44ddd89101748239baed92f2d1f8da6571bde0728453b77f287a47cd9705d4int);
    square_modulus(0x5int, 0x1d44ddd89101748239baed92f2d1f8da6571bde0728453b77f287a47cd9705d4int, 0xcad4b4c13528e4fd836d3dae0c16f0122566e49b35a2d711159b4a811c6f040int);
    next_modulus(0xaint, 0xcad4b4c13528e4fd836d3dae0c16f0122566e49b35a2d711159b4a811c6f040int, 0x2850c4080a8341d45d54524b04b7dba1bfd29198656dc59a65ed523c6f1cbdfaint);
    square_modulus(0xbint, 0x2850c4080a8341d45d54524b04b7dba1bfd29198656dc59a65ed523c6f1cbdfaint, 0x2d98bf1d63affca10b199b048049ac1e1b8f8afa534a7c5c7f25a02d8570f73int);
    square_modulus(0x16int, 0x2d98bf1d63affca10b199b048049ac1e1b8f8afa534a7c5c7f25a02d8570f73int, 0x22b0aaab00a2f668e98870325a8a65ea55ca9f3bb68a41d3907cb698168fb5d9int);
    square_modulus(0x2cint, 0x22b0aaab00a2f668e98870325a8a65ea55ca9f3bb68a41d3907cb698168fb5d9int, 0x15cf34facb2f045cf1768cb0f5a36a15322f97cf10134bfde36fe1309368d5b1int);
    next_modulus(0x58int, 0x15cf34facb2f045cf1768cb0f5a36a15322f97cf10134bfde36fe1309368d5b1int, 0x1d1fd2a9d8174f1ed625460c9ae261bb7fd42a6838522c649cf3a8406d1a6086int);
    square_modulus(0x59int, 0x1d1fd2a9d8174f1ed625460c9ae261bb7fd42a6838522c649cf3a8406d1a6086int, 0xb66758d229ff3bb3af249bca478c278ddd01a27f8766e091f0e24332dd8f88int);
    square_modulus(0xb2int, 0xb66758d229ff3bb3af249bca478c278ddd01a27f8766e091f0e24332dd8f88int, 0x136cb07554866ac6d6263e85fac861aecde219d07088c47712aae62c46133a67int);
    next_modulus(0x164int, 0x136cb07554866ac6d6263e85fac861aecde219d07088c47712aae62c46133a67int, 0x4f6a9628d4730c534ace8d474119172cc95419b1c53c5a27878eead0c65fdbfint);
    square_modulus(0x165int, 0x4f6a9628d4730c534ace8d474119172cc95419b1c53c5a27878eead0c65fdbfint, 0x126b37f43f1200681799d95035a91a48c2af845247721da8d72a6d22ef74d5f7int);
    square_modulus(0x2caint, 0x126b37f43f1200681799d95035a91a48c2af845247721da8d72a6d22ef74d5f7int, 0x1c014b5df12b9fc50a38b5dde155365a19b650264c63bc6252388dc967c834a3int);
    square_modulus(0x594int, 0x1c014b5df12b9fc50a38b5dde155365a19b650264c63bc6252388dc967c834a3int, 0x135b3e741b09444b085616ad256d11a55b15a56fa39679f448f2fced1cad386cint);
    next_modulus(0xb28int, 0x135b3e741b09444b085616ad256d11a55b15a56fa39679f448f2fced1cad386cint, 0x22fe4d9d204d7346bc4b6e300e176e2405ed5d68a697a6395c7ca613e29b88c1int);
    square_modulus(0xb29int, 0x22fe4d9d204d7346bc4b6e300e176e2405ed5d68a697a6395c7ca613e29b88c1int, 0x268a368718822e277c67fd51468bf9beb291840aeabff5d4b53571a7bb4c592dint);
    next_modulus(0x1652int, 0x268a368718822e277c67fd51468bf9beb291840aeabff5d4b53571a7bb4c592dint, 0x921253db5f27fc176752bd62b08af90b6ae22cb0d8cb8d2787fb5480e6ba6f6int);
    square_modulus(0x1653int, 0x921253db5f27fc176752bd62b08af90b6ae22cb0d8cb8d2787fb5480e6ba6f6int, 0x171f13d01388ee95c34c6acbc02303fdd277bb86ce50ce0f0e0fbfeef06c6931int);
    square_modulus(0x2ca6int, 0x171f13d01388ee95c34c6acbc02303fdd277bb86ce50ce0f0e0fbfeef06c6931int, 0x1a0533256a114f5b9fe2f79f073309a30cb03ab6127ab4afa9cb244524257545int);
    square_modulus(0x594cint, 0x1a0533256a114f5b9fe2f79f073309a30cb03ab6127ab4afa9cb244524257545int, 0x10dc8f8ccd15c1c1555b6fc5293b0ef768c09d3174c21112b94bfef6210ce553int);
    next_modulus(0xb298int, 0x10dc8f8ccd15c1c1555b6fc5293b0ef768c09d3174c21112b94bfef6210ce553int, 0x250c0c9e96d73d93e304ebe9d1630ee81f856f2ea027fce5e1a44fcb42b03c32int);
    square_modulus(0xb299int, 0x250c0c9e96d73d93e304ebe9d1630ee81f856f2ea027fce5e1a44fcb42b03c32int, 0xf59f2627b477da09353b922ca4939eb56069e295608051a0964e79bd30bafa3int);
    square_modulus(0x16532int, 0xf59f2627b477da09353b922ca4939eb56069e295608051a0964e79bd30bafa3int, 0x13e0c0a0e7e4b99346275f0f1f4757b42bce41637bbf09e1dc494b6863bf9198int);
    square_modulus(0x2ca64int, 0x13e0c0a0e7e4b99346275f0f1f4757b42bce41637bbf09e1dc494b6863bf9198int, 0xed0a7f9930bee47734ca54e36852d3ad144a7c801ae5890af341a7eb54ba3beint);
    next_modulus(0x594c8int, 0xed0a7f9930bee47734ca54e36852d3ad144a7c801ae5890af341a7eb54ba3beint, 0x26266873db0df7ecc05bd6e64db1c46fd37861843e02588774c626d7c665ea2bint);
    square_modulus(0x594c9int, 0x26266873db0df7ecc05bd6e64db1c46fd37861843e02588774c626d7c665ea2bint, 0x1c7bf86252c3a12bd555b59bb15f631f7b424d1dc1e66771ec17493d90615f78int);
    square_modulus(0xb2992int, 0x1c7bf86252c3a12bd555b59bb15f631f7b424d1dc1e66771ec17493d90615f78int, 0x159a1af2a6c7e1e48909c5394cb4d700d4d05ee3908947aeb1d0df03e22966caint);
    square_modulus(0x165324int, 0x159a1af2a6c7e1e48909c5394cb4d700d4d05ee3908947aeb1d0df03e22966caint, 0x1abde34d51aff1f68a075803054fdae1d579788c63a7bdd5d398f38b46bdf567int);
    square_modulus(0x2ca648int, 0x1abde34d51aff1f68a075803054fdae1d579788c63a7bdd5d398f38b46bdf567int, 0x15051d339b447589084f14e7a30a623cbeae705bc644651d7a494be827f6eaaeint);
    square_modulus(0x594c90int, 0x15051d339b447589084f14e7a30a623cbeae705bc644651d7a494be827f6eaaeint, 0xa617dba595d5e9958b5a652da7bc74063227b5da5399085129f2f66493590a2int);
    next_modulus(0xb29920int, 0xa617dba595d5e9958b5a652da7bc74063227b5da5399085129f2f66493590a2int, 0x27a54b85fc649567210afccab7a338ca7668444f96aec23c4df3b7cb7e28a450int);
    square_modulus(0xb29921int, 0x27a54b85fc649567210afccab7a338ca7668444f96aec23c4df3b7cb7e28a450int, 0x1864665b87d76315a237129c8330e7273e65d01c0135210ac5a5103d9ebb9403int);
    next_modulus(0x1653242int, 0x1864665b87d76315a237129c8330e7273e65d01c0135210ac5a5103d9ebb9403int, 0x1b37214f249ad3efc33252b4193778553d8ae8fb1857ddd743441054925b3d31int);
    square_modulus(0x1653243int, 0x1b37214f249ad3efc33252b4193778553d8ae8fb1857ddd743441054925b3d31int, 0x475e3dc0c03a7db37a46ea9f9d9f5a6e5092263712daa73f204befe5c952f35int);
    next_modulus(0x2ca6486int, 0x475e3dc0c03a7db37a46ea9f9d9f5a6e5092263712daa73f204befe5c952f35int, 0xe2516a35b57362d4cb7dea238f23cf799c35bb7b73ff811210f9988c2146c93int);
    square_modulus(0x2ca6487int, 0xe2516a35b57362d4cb7dea238f23cf799c35bb7b73ff811210f9988c2146c93int, 0x24190448a25f1a186106a54628101852a9c4a2b9caa99694e11fc7789a668949int);
    next_modulus(0x594c90eint, 0x24190448a25f1a186106a54628101852a9c4a2b9caa99694e11fc7789a668949int, 0x71e44f65f3006fbf55c55ceaa477c0a7b41734083eab6c0b79c0a657383356aint);
    square_modulus(0x594c90fint, 0x71e44f65f3006fbf55c55ceaa477c0a7b41734083eab6c0b79c0a657383356aint, 0x1a8adbe88b3b4f277ffc1de1d7738f88a3d9c97733ff4e1001ad5668a4193c1int);
    next_modulus(0xb29921eint, 0x1a8adbe88b3b4f277ffc1de1d7738f88a3d9c97733ff4e1001ad5668a4193c1int, 0xf718a68b7b16760f47e43cc14d43dff52314fcae99f2e7c2a9cfec5be64d6b0int);
    square_modulus(0xb29921fint, 0xf718a68b7b16760f47e43cc14d43dff52314fcae99f2e7c2a9cfec5be64d6b0int, 0x2237dd4a55bcf95d2f2dda68e398d7af31a73f4938c12b91c7f8d0ca50a9a914int);
    square_modulus(0x1653243eint, 0x2237dd4a55bcf95d2f2dda68e398d7af31a73f4938c12b91c7f8d0ca50a9a914int, 0x16cd7595e8df2197b947a7a7d188689b26a4a3e7457640c5ef00a48c491e6c23int);
    square_modulus(0x2ca6487cint, 0x16cd7595e8df2197b947a7a7d188689b26a4a3e7457640c5ef00a48c491e6c23int, 0x1f4b972af6ac0523a119537846095c76b866b3904f88dfb1f8ed3c0d5d18341eint);
    next_modulus(0x594c90f8int, 0x1f4b972af6ac0523a119537846095c76b866b3904f88dfb1f8ed3c0d5d18341eint, 0x26e30d82fe9e1e3cba095d3b284a68d07278e3426a631fcd21fcb2b168d68febint);
    square_modulus(0x594c90f9int, 0x26e30d82fe9e1e3cba095d3b284a68d07278e3426a631fcd21fcb2b168d68febint, 0x61bb5bb44647184f3d91a3d808c3d55523e8663f1961491922cbfe552b0eb93int);
    next_modulus(0xb29921f2int, 0x61bb5bb44647184f3d91a3d808c3d55523e8663f1961491922cbfe552b0eb93int, 0x21863b6d6d3453a298a4d2641ad0beccbf9d3954968eb5f61fa77dabd1f1d651int);
    square_modulus(0xb29921f3int, 0x21863b6d6d3453a298a4d2641ad0beccbf9d3954968eb5f61fa77dabd1f1d651int, 0x139cdf6962fe12a9657a86b1de2b8e8bcc1b751759c1f2286dc264afa352fc4dint);
    next_modulus(0x1653243e6int, 0x139cdf6962fe12a9657a86b1de2b8e8bcc1b751759c1f2286dc264afa352fc4dint, 0x13661526c80ae0fc6165a47001d93f015ae927766266cb793a3538c4941dce76int);
    square_modulus(0x1653243e7int, 0x13661526c80ae0fc6165a47001d93f015ae927766266cb793a3538c4941dce76int, 0x2510a4f0f8c99163d89d7a84b91182776ca6abf4e5993c514234a3fd20a50f2aint);
    next_modulus(0x2ca6487ceint, 0x2510a4f0f8c99163d89d7a84b91182776ca6abf4e5993c514234a3fd20a50f2aint, 0x9a3bb98ad1482bed703ad0eddacb10d258d70b7d8f95bdeff7d60d1c89b08a2int);
    square_modulus(0x2ca6487cfint, 0x9a3bb98ad1482bed703ad0eddacb10d258d70b7d8f95bdeff7d60d1c89b08a2int, 0x74dc698bffd6a6e57df5b40e400058ce8dc00e7ec7747c4c858c27223cf1f62int);
    next_modulus(0x594c90f9eint, 0x74dc698bffd6a6e57df5b40e400058ce8dc00e7ec7747c4c858c27223cf1f62int, 0x23fbe26324fdc9c46d18050ba8bd856440218b2b71bcdd104f03841ec50fe974int);
    square_modulus(0x594c90f9fint, 0x23fbe26324fdc9c46d18050ba8bd856440218b2b71bcdd104f03841ec50fe974int, 0xea911b51522ee1ed32a137c7ad80a4ae565aecd0350d85b6976c83692f69ed3int);
    next_modulus(0xb29921f3eint, 0xea911b51522ee1ed32a137c7ad80a4ae565aecd0350d85b6976c83692f69ed3int, 0x1c8a257bf6e0f5ec1ec53b0093279eb64e1918db18fb45fc122d14f107ce5581int);
    square_modulus(0xb29921f3fint, 0x1c8a257bf6e0f5ec1ec53b0093279eb64e1918db18fb45fc122d14f107ce5581int, 0x230b54dbd8e59978b19435ea6a380ee2d63dfa0bcf522cca69cd2af2275f369dint);
    square_modulus(0x1653243e7eint, 0x230b54dbd8e59978b19435ea6a380ee2d63dfa0bcf522cca69cd2af2275f369dint, 0xd237577ca9f3a0986562ba48412759531b52dceacca4dd006a7959222323064int);
    square_modulus(0x2ca6487cfcint, 0xd237577ca9f3a0986562ba48412759531b52dceacca4dd006a7959222323064int, 0xf683fc578fa26d0fc91b96cc1a12282c4ba80fdd594c8d6e7d66630cc7b1c1aint);
    next_modulus(0x594c90f9f8int, 0xf683fc578fa26d0fc91b96cc1a12282c4ba80fdd594c8d6e7d66630cc7b1c1aint, 0x12408d1ee3c8e52a1b80357a93544cb84689d1b781c56e75051ee761582e07b2int);
    square_modulus(0x594c90f9f9int, 0x12408d1ee3c8e52a1b80357a93544cb84689d1b781c56e75051ee761582e07b2int, 0x91f5527cb00454a32939362ff1d8f2e87a0b210c233db3e739adc3f5631ff74int);
    next_modulus(0xb29921f3f2int, 0x91f5527cb00454a32939362ff1d8f2e87a0b210c233db3e739adc3f5631ff74int, 0x13c010c149103f1de36a6ee3341b0160caec486022a165ad6b6384b2d777d040int);
    square_modulus(0xb29921f3f3int, 0x13c010c149103f1de36a6ee3341b0160caec486022a165ad6b6384b2d777d040int, 0x2d8547341e7b1efb1c8c53610a5489988fa610bece88218c52b9830e09facad0int);
    square_modulus(0x1653243e7e6int, 0x2d8547341e7b1efb1c8c53610a5489988fa610bece88218c52b9830e09facad0int, 0x817715b61857d2169f7089abbb5916ce3dc441005a009e265eed2bc2d5925bfint);
    next_modulus(0x2ca6487cfccint, 0x817715b61857d2169f7089abbb5916ce3dc441005a009e265eed2bc2d5925bfint, 0x129c8d32bbd43f0a227260dd51e0069c825a51464a487e16047e11c4984861a5int);
    square_modulus(0x2ca6487cfcdint, 0x129c8d32bbd43f0a227260dd51e0069c825a51464a487e16047e11c4984861a5int, 0xa18a97df531f95951cba64947c1fd703eedfa73c18d977f321423b34a130990int);
    square_modulus(0x594c90f9f9aint, 0xa18a97df531f95951cba64947c1fd703eedfa73c18d977f321423b34a130990int, 0x2ae21599b1913ab08404e71242b866a5573e1b6edfaa9bac115d3e586a3625ccint);
    next_modulus(0xb29921f3f34int, 0x2ae21599b1913ab08404e71242b866a5573e1b6edfaa9bac115d3e586a3625ccint, 0x154bd7b4da09c86bbabe8a8cd134fd9b5ce4e1eb29e15c84815a7a0ac6bdd0ccint);
    square_modulus(0xb29921f3f35int, 0x154bd7b4da09c86bbabe8a8cd134fd9b5ce4e1eb29e15c84815a7a0ac6bdd0ccint, 0x2fb00814f88f7671d510a8a7550cd729b9d14a3e635f87ba9e463efc858b5ab4int);
    next_modulus(0x1653243e7e6aint, 0x2fb00814f88f7671d510a8a7550cd729b9d14a3e635f87ba9e463efc858b5ab4int, 0x25a9c9f2a54d18a891741a8ffe4f128bbb22316798baf1c7c556f9f1ac7e6b02int);
    square_modulus(0x1653243e7e6bint, 0x25a9c9f2a54d18a891741a8ffe4f128bbb22316798baf1c7c556f9f1ac7e6b02int, 0xf3812637489a2b7b0f66499c202ca54e257610a6989c86d6e90dae38cc4fd55int);
    next_modulus(0x2ca6487cfcd6int, 0xf3812637489a2b7b0f66499c202ca54e257610a6989c86d6e90dae38cc4fd55int, 0x14db2f233e523efc1a011b9376af1ebd4d5a94e57c7250a9e47ec9019239cd36int);
    square_modulus(0x2ca6487cfcd7int, 0x14db2f233e523efc1a011b9376af1ebd4d5a94e57c7250a9e47ec9019239cd36int, 0xa9c81c28a06b4c6e35206e6c336a038e9b1ddc0783049202b153234eef66019int);
    next_modulus(0x594c90f9f9aeint, 0xa9c81c28a06b4c6e35206e6c336a038e9b1ddc0783049202b153234eef66019int, 0x1d60991d8e42ffb79396403fa4bacebb4d3b7776074ccdae621d6378fc8b4f41int);
    square_modulus(0x594c90f9f9afint, 0x1d60991d8e42ffb79396403fa4bacebb4d3b7776074ccdae621d6378fc8b4f41int, 0xa80dfe6ff39e1818a0bb6a1c270014ac691fc1816791226b63867134a587e06int);
    square_modulus(0xb29921f3f35eint, 0xa80dfe6ff39e1818a0bb6a1c270014ac691fc1816791226b63867134a587e06int, 0x1cd18e39fff6b5e554611e9dcc71fd37d3d7744f52b5170c7bbe2a077ed26515int);
    square_modulus(0x1653243e7e6bcint, 0x1cd18e39fff6b5e554611e9dcc71fd37d3d7744f52b5170c7bbe2a077ed26515int, 0x122b995ec1fca5689b215034529c389a7f5af728093e39b80807bd8363b9ff85int);
    next_modulus(0x2ca6487cfcd78int, 0x122b995ec1fca5689b215034529c389a7f5af728093e39b80807bd8363b9ff85int, 0x22fafcd41ce9cfedd8079a48864f1b2af064adc8577e480dc953d0438796969bint);
    square_modulus(0x2ca6487cfcd79int, 0x22fafcd41ce9cfedd8079a48864f1b2af064adc8577e480dc953d0438796969bint, 0x83937f5f7f47e6ea438a8f95f20aec2405b7ac200e73e4ece1a26d1f68ae629int);
    square_modulus(0x594c90f9f9af2int, 0x83937f5f7f47e6ea438a8f95f20aec2405b7ac200e73e4ece1a26d1f68ae629int, 0x174c2181e094889cf1ec5df2500424a4f314446f8b3012115849b649da152489int);
    next_modulus(0xb29921f3f35e4int, 0x174c2181e094889cf1ec5df2500424a4f314446f8b3012115849b649da152489int, 0x2474507c081fce953f39b38e727feac31eccb1bb9e9dffe50209fe6e874bcb43int);
    square_modulus(0xb29921f3f35e5int, 0x2474507c081fce953f39b38e727feac31eccb1bb9e9dffe50209fe6e874bcb43int, 0x1e137e45f69fb8ddb673271632267f1195fb9b586ed3d6a3c5fac197cae489dcint);
    square_modulus(0x1653243e7e6bcaint, 0x1e137e45f69fb8ddb673271632267f1195fb9b586ed3d6a3c5fac197cae489dcint, 0x15807e88acb1b51b8e9fdaf55b68f0345f983c8b66fd1f7faf15d6dacc19bdc2int);
    next_modulus(0x2ca6487cfcd794int, 0x15807e88acb1b51b8e9fdaf55b68f0345f983c8b66fd1f7faf15d6dacc19bdc2int, 0x2e8bd58798dd2d2975e41b8fb2a2aa99e9c32983fe72ea0284154278b9c412fint);
    square_modulus(0x2ca6487cfcd795int, 0x2e8bd58798dd2d2975e41b8fb2a2aa99e9c32983fe72ea0284154278b9c412fint, 0x6eef2b5da81032201a3a445feda06fcf904a218f64e3ca5c1e6baa2880e3aa9int);
    next_modulus(0x594c90f9f9af2aint, 0x6eef2b5da81032201a3a445feda06fcf904a218f64e3ca5c1e6baa2880e3aa9int, 0x212ca2e3dc4db526dfbb49c84246eb4135b6b7b9c009898c816f025e514a8158int);
    square_modulus(0x594c90f9f9af2bint, 0x212ca2e3dc4db526dfbb49c84246eb4135b6b7b9c009898c816f025e514a8158int, 0x125c241accb7450214fcf0115d4fee3f29a1806751be82da4df77a7bd3769a78int);
    next_modulus(0xb29921f3f35e56int, 0x125c241accb7450214fcf0115d4fee3f29a1806751be82da4df77a7bd3769a78int, 0x2a74881ca50dc33fef15667e3e53fe4ae263fc05194f6e3b8cb8df47d2f96b18int);
    square_modulus(0xb29921f3f35e57int, 0x2a74881ca50dc33fef15667e3e53fe4ae263fc05194f6e3b8cb8df47d2f96b18int, 0x13f3cd3cc62edd17fd24a16984ad7b84373d1c1132d69adc2b51dc43ce7116b0int);
    next_modulus(0x1653243e7e6bcaeint, 0x13f3cd3cc62edd17fd24a16984ad7b84373d1c1132d69adc2b51dc43ce7116b0int, 0x2a843b016306164ff0831d6e36bbf01334e1fd217786be1ee259d30a14916522int);
    square_modulus(0x1653243e7e6bcafint, 0x2a843b016306164ff0831d6e36bbf01334e1fd217786be1ee259d30a14916522int, 0x5a506cd18cd76c24b43de12d906eccf381a5ea6bad4d0d59b2bfd8b0634dd14int);
    square_modulus(0x2ca6487cfcd795eint, 0x5a506cd18cd76c24b43de12d906eccf381a5ea6bad4d0d59b2bfd8b0634dd14int, 0x20e40be3e24344e3b4031cda95df62b16e5488a4fb918597520311157077b902int);
    next_modulus(0x594c90f9f9af2bcint, 0x20e40be3e24344e3b4031cda95df62b16e5488a4fb918597520311157077b902int, 0x21df613fe909b9484c7b03277b1ebc47adfe55e3f08e0b7b3ed36cb616342d5cint);
    square_modulus(0x594c90f9f9af2bdint, 0x21df613fe909b9484c7b03277b1ebc47adfe55e3f08e0b7b3ed36cb616342d5cint, 0x8423d9aadb24ab87c10633909d575f92e59b970e2f2bb45fdb362acf4afdd93int);
    square_modulus(0xb29921f3f35e57aint, 0x8423d9aadb24ab87c10633909d575f92e59b970e2f2bb45fdb362acf4afdd93int, 0xc6e1272a1c687643890468473b44d88e64c127971d811a52e67a572f6a1d136int);
    square_modulus(0x1653243e7e6bcaf4int, 0xc6e1272a1c687643890468473b44d88e64c127971d811a52e67a572f6a1d136int, 0x29a9c259294e3c4a0b93861219a8f0f959028eea9ec6d46c808b2e1dc331e84eint);
    square_modulus(0x2ca6487cfcd795e8int, 0x29a9c259294e3c4a0b93861219a8f0f959028eea9ec6d46c808b2e1dc331e84eint, 0x10a24623af30b8bdcf66ae387c5abe7048a9863863c5ef06a4445794f6dade7bint);
    square_modulus(0x594c90f9f9af2bd0int, 0x10a24623af30b8bdcf66ae387c5abe7048a9863863c5ef06a4445794f6dade7bint, 0x84288404e86b87084c3a8eb08e26ce0e39654564c4b799a387a1ed99235610eint);
    next_modulus(0xb29921f3f35e57a0int, 0x84288404e86b87084c3a8eb08e26ce0e39654564c4b799a387a1ed99235610eint, 0x12ade1f1782518827f253adb12c08114e4ada0e65c4af313cb74cf98e54f475cint);
    square_modulus(0xb29921f3f35e57a1int, 0x12ade1f1782518827f253adb12c08114e4ada0e65c4af313cb74cf98e54f475cint, 0x1d86a35a808f7e1a6256adaf6668da2cd7a1a7ec95e350914f79c38171c48ae3int);
    next_modulus(0x1653243e7e6bcaf42int, 0x1d86a35a808f7e1a6256adaf6668da2cd7a1a7ec95e350914f79c38171c48ae3int, 0x57eb9b192e4f396f75c4d9a1920e00de85da9bb61043f23be67c2d9322b5c85int);
    square_modulus(0x1653243e7e6bcaf43int, 0x57eb9b192e4f396f75c4d9a1920e00de85da9bb61043f23be67c2d9322b5c85int, 0x573cfed28c7901877446013beeec365e0fcdf832ae4295ce27cab8f1c1f3e80int);
    next_modulus(0x2ca6487cfcd795e86int, 0x573cfed28c7901877446013beeec365e0fcdf832ae4295ce27cab8f1c1f3e80int, 0x3e64b43d62f1f8ad3e78d44f3726553e8519a661214213e082650c345b02b2bint);
    square_modulus(0x2ca6487cfcd795e87int, 0x3e64b43d62f1f8ad3e78d44f3726553e8519a661214213e082650c345b02b2bint, 0xa82c2b31e3b9b2f36600b82be194e8a26cc29729154c4cb60a48bade4a02562int);
    square_modulus(0x594c90f9f9af2bd0eint, 0xa82c2b31e3b9b2f36600b82be194e8a26cc29729154c4cb60a48bade4a02562int, 0x2dc1409c625114c18a1e7ebfcdd352a61104e7e29236ccc93d7ecc4080503728int);
    square_modulus(0xb29921f3f35e57a1cint, 0x2dc1409c625114c18a1e7ebfcdd352a61104e7e29236ccc93d7ecc4080503728int, 0x828727945e9de072891a0b8c4b961e5b4bd2e8be724ab8042c9670b20c50664int);
    next_modulus(0x1653243e7e6bcaf438int, 0x828727945e9de072891a0b8c4b961e5b4bd2e8be724ab8042c9670b20c50664int, 0x130e83b3a8e36c56d952b9d4ce730c55b1e5b2c02361750f5ec5137110e51cbdint);
    square_modulus(0x1653243e7e6bcaf439int, 0x130e83b3a8e36c56d952b9d4ce730c55b1e5b2c02361750f5ec5137110e51cbdint, 0x178603a2735be45b1a609f747df6334ca1123bb2e070d5785d22dcdbe44af403int);
    square_modulus(0x2ca6487cfcd795e872int, 0x178603a2735be45b1a609f747df6334ca1123bb2e070d5785d22dcdbe44af403int, 0x749a56efed822e26ff8174587f20fa114c13e65b08351ef5d75e0521f80b7acint);
    next_modulus(0x594c90f9f9af2bd0e4int, 0x749a56efed822e26ff8174587f20fa114c13e65b08351ef5d75e0521f80b7acint, 0x1e211916d6dec8fe6ed3bd50b0946d06e149c8cd5589d9d652ffea6ae39e83b0int);
    square_modulus(0x594c90f9f9af2bd0e5int, 0x1e211916d6dec8fe6ed3bd50b0946d06e149c8cd5589d9d652ffea6ae39e83b0int, 0x344d971db60e764cb45756fde63ab4c18a998c57e0c0f2a4b9c47d95e66e92bint);
    square_modulus(0xb29921f3f35e57a1caint, 0x344d971db60e764cb45756fde63ab4c18a998c57e0c0f2a4b9c47d95e66e92bint, 0x1bab6febc5f4feb818c59e62123207937f8a8dce17854258cd9d6362486c0f11int);
    square_modulus(0x1653243e7e6bcaf4394int, 0x1bab6febc5f4feb818c59e62123207937f8a8dce17854258cd9d6362486c0f11int, 0x10d9571cb6ce7014d63ae05e9c0e75e6db4515c9e8b4279b26d966f703099429int);
    next_modulus(0x2ca6487cfcd795e8728int, 0x10d9571cb6ce7014d63ae05e9c0e75e6db4515c9e8b4279b26d966f703099429int, 0xe6a00512a5b9cc63f9c163c505723695a8ff194abfb81c276b671aebf21e697int);
    square_modulus(0x2ca6487cfcd795e8729int, 0xe6a00512a5b9cc63f9c163c505723695a8ff194abfb81c276b671aebf21e697int, 0x2531ba888f125c19bef81e3a3ebc510134921529f640a3b55794a62db64bee48int);
    square_modulus(0x594c90f9f9af2bd0e52int, 0x2531ba888f125c19bef81e3a3ebc510134921529f640a3b55794a62db64bee48int, 0x11c60e302f715a26ddc6eae125e07ba0124cb8de87526a606688e96f735cc904int);
    next_modulus(0xb29921f3f35e57a1ca4int, 0x11c60e302f715a26ddc6eae125e07ba0124cb8de87526a606688e96f735cc904int, 0xacd68e2e7f0e6b3719aa71aab61f14569f8968b8260ec8fde3843d603f8851cint);
    square_modulus(0xb29921f3f35e57a1ca5int, 0xacd68e2e7f0e6b3719aa71aab61f14569f8968b8260ec8fde3843d603f8851cint, 0x17ed2723a15bd731ce674d6c22be3e16a325619f3f56dcf6c9aed106d9b66b98int);
    square_modulus(0x1653243e7e6bcaf4394aint, 0x17ed2723a15bd731ce674d6c22be3e16a325619f3f56dcf6c9aed106d9b66b98int, 0x1784db1e39d0d5f0877ae3ad962e1865cc346923ed52ac5d114854fd7bd1e4feint);
    next_modulus(0x2ca6487cfcd795e87294int, 0x1784db1e39d0d5f0877ae3ad962e1865cc346923ed52ac5d114854fd7bd1e4feint, 0xdcc2fb670a38e172a6aaaba79ad2c9679b34a0ebf0ab187389906ee2c0ce734int);
    square_modulus(0x2ca6487cfcd795e87295int, 0xdcc2fb670a38e172a6aaaba79ad2c9679b34a0ebf0ab187389906ee2c0ce734int, 0x231319ea986906b787a5d34fe761ca4b176c33732184cd38d7aee68546f1a6dint);
    square_modulus(0x594c90f9f9af2bd0e52aint, 0x231319ea986906b787a5d34fe761ca4b176c33732184cd38d7aee68546f1a6dint, 0x1e67d0c55a595b0c9d035f3607c28b50767dad6895d878a1845d10a1dd2b7c20int);
    square_modulus(0xb29921f3f35e57a1ca54int, 0x1e67d0c55a595b0c9d035f3607c28b50767dad6895d878a1845d10a1dd2b7c20int, 0x2d95ed16a5f67bb3718e79bb00b028344f16e0676ce59df041f41cba2fe786cint);
    next_modulus(0x1653243e7e6bcaf4394a8int, 0x2d95ed16a5f67bb3718e79bb00b028344f16e0676ce59df041f41cba2fe786cint, 0xc78a90735b8ddc35a514a5336207ae69a12e1668568bab223b9405560a264bint);
    square_modulus(0x1653243e7e6bcaf4394a9int, 0xc78a90735b8ddc35a514a5336207ae69a12e1668568bab223b9405560a264bint, 0x160dd019068d7f3dda7750732f5beca3cc7122709209473faa1e536013fb630cint);
    square_modulus(0x2ca6487cfcd795e872952int, 0x160dd019068d7f3dda7750732f5beca3cc7122709209473faa1e536013fb630cint, 0x2b6bbe26082d2aa197ec9af46c5e31f09d9c790e893a9542925f797d11cd633bint);
    square_modulus(0x594c90f9f9af2bd0e52a4int, 0x2b6bbe26082d2aa197ec9af46c5e31f09d9c790e893a9542925f797d11cd633bint, 0x6cf067c63517a8937de2da817eab27e08bc3ac081d2edc96e973cc6fc2c84f9int);
    next_modulus(0xb29921f3f35e57a1ca548int, 0x6cf067c63517a8937de2da817eab27e08bc3ac081d2edc96e973cc6fc2c84f9int, 0x25e4b0f7559c73e62e3a0815f66cea5ca47f8c8ee61e44b350e724c406b3a5b8int);
    square_modulus(0xb29921f3f35e57a1ca549int, 0x25e4b0f7559c73e62e3a0815f66cea5ca47f8c8ee61e44b350e724c406b3a5b8int, 0x20e39173747dbe9e90346ef852b962513778393ac202c88478a2921f75838c9fint);
    next_modulus(0x1653243e7e6bcaf4394a92int, 0x20e39173747dbe9e90346ef852b962513778393ac202c88478a2921f75838c9fint, 0x2056dc80d59ee42e73ffed9e0516a05046d56b8e0985a5aed82d762a191ac26int);
    square_modulus(0x1653243e7e6bcaf4394a93int, 0x2056dc80d59ee42e73ffed9e0516a05046d56b8e0985a5aed82d762a191ac26int, 0xdf20940be554156d4acd7b0813e3a1d426a328a6d07c0ed0d7122d14937d019int);
    next_modulus(0x2ca6487cfcd795e8729526int, 0xdf20940be554156d4acd7b0813e3a1d426a328a6d07c0ed0d7122d14937d019int, 0xcaddb702982d1a5a880c2ad424415df499b417a348a2561ecc6f1ad155eec39int);
    square_modulus(0x2ca6487cfcd795e8729527int, 0xcaddb702982d1a5a880c2ad424415df499b417a348a2561ecc6f1ad155eec39int, 0x2db5234de40575689be9001c876073ffdd5bbf40ab018daf51b2ef38f1f0f32eint);
    next_modulus(0x594c90f9f9af2bd0e52a4eint, 0x2db5234de40575689be9001c876073ffdd5bbf40ab018daf51b2ef38f1f0f32eint, 0x397e85855ca66990e83b90d0499fdff43d0d4ce2efeede50b096d2432a0d60cint);
    square_modulus(0x594c90f9f9af2bd0e52a4fint, 0x397e85855ca66990e83b90d0499fdff43d0d4ce2efeede50b096d2432a0d60cint, 0x2e5175aebc3d0298c9bb5eb3c6b288aba64e20ba3d29a86ca02761ad4c3d1136int);
    next_modulus(0xb29921f3f35e57a1ca549eint, 0x2e5175aebc3d0298c9bb5eb3c6b288aba64e20ba3d29a86ca02761ad4c3d1136int, 0x21be9b1c300ab61e9c12fbabc11e2ae3e0b8997bfdfe0fb577221db63e785100int);
    square_modulus(0xb29921f3f35e57a1ca549fint, 0x21be9b1c300ab61e9c12fbabc11e2ae3e0b8997bfdfe0fb577221db63e785100int, 0x1d746f2f26df3b4d9d1a6f1b9c485567c675573883e42269189b95f7a78fedb2int);
    next_modulus(0x1653243e7e6bcaf4394a93eint, 0x1d746f2f26df3b4d9d1a6f1b9c485567c675573883e42269189b95f7a78fedb2int, 0x10acfe6980db4c24a9050a42757e8115c92cf84a38d29288f67c681b8bcc34f1int);
    square_modulus(0x1653243e7e6bcaf4394a93fint, 0x10acfe6980db4c24a9050a42757e8115c92cf84a38d29288f67c681b8bcc34f1int, 0x17f95e389f80f635f826fb70c48648235f74c74d5b14993569da5d5ab9ff6896int);
    square_modulus(0x2ca6487cfcd795e8729527eint, 0x17f95e389f80f635f826fb70c48648235f74c74d5b14993569da5d5ab9ff6896int, 0x1781901d5464a0968ae7007da96bb0ec41b1691d36533e38a60e0546928b5debint);
    square_modulus(0x594c90f9f9af2bd0e52a4fcint, 0x1781901d5464a0968ae7007da96bb0ec41b1691d36533e38a60e0546928b5debint, 0x839295cfbd1a6da3b7791dc221ba0534ed2709bcf00b4fd080cfb4537805ffbint);
    square_modulus(0xb29921f3f35e57a1ca549f8int, 0x839295cfbd1a6da3b7791dc221ba0534ed2709bcf00b4fd080cfb4537805ffbint, 0x176fd2495eff53c1517f55b0d7f066c0e1403a5ae93609a1ce753a4bc35ca7c3int);
    square_modulus(0x1653243e7e6bcaf4394a93f0int, 0x176fd2495eff53c1517f55b0d7f066c0e1403a5ae93609a1ce753a4bc35ca7c3int, 0x1d366dd0770a1526aa32de152c7bc767d1e922c258c8d1a73141ff60ad118831int);
    next_modulus(0x2ca6487cfcd795e8729527e0int, 0x1d366dd0770a1526aa32de152c7bc767d1e922c258c8d1a73141ff60ad118831int, 0x2200524a255dbf6af47485a398ccebd619e3d57040f03e65be26ba6bf27f8ff3int);
}

/// `c` to the power 1670836401704629.
proof fn lemma_power2_modulus()
    ensures
        pow_mod(0x30644e72e131a029b85045b68181585d2833e84879b9709143e1f593f0000001int, 0x8fdf6a009ddb0f44829608cbae4d277cf3727232b632f357b4ae966ddb136a8int, 0x5ef9dea338eb5int) == 0x299662f9e8574586530237c7b2e285cc00b75b8c63b1d725b7ffc6d604e94fc8int,
{
    lemma_first(0x30644e72e131a029b85045b68181585d2833e84879b9709143e1f593f0000001int, 0x8fdf6a009ddb0f44829608cbae4d277cf3727232b632f357b4ae966ddb136a8int);
    square_modulus(0x1int, 0x8fdf6a009ddb0f44829608cbae4d277cf3727232b632f357b4ae966ddb136a8int, 0xe1e6ba2302b44c608f0e8f18de6c2682898b53add1c30d4d2b7d5a1dfb52f80int);
    square_modulus(0x2int, 0xe1e6ba2302b44c608f0e8f18de6c2682898b53add1c30d4d2b7d5a1dfb52f80int, 0x27af568a4003d9fb8df4edcc8c1e1fe4dad9a83ca7ddf62f1cf7af87ef184425int);
    next_modulus(0x4int, 0x27af568a4003d9fb8df4edcc8c1e1fe4dad9a83ca7ddf62f1cf7af87ef184425int, 0x1d44ddd89101748239baed92f2d1f8da6571bde0728453b77f287a47cd9705d4int);
    square_modulus(0x5int, 0x1d44ddd89101748239baed92f2d1f8da6571bde0728453b77f287a47cd9705d4int, 0xcad4b4c13528e4fd836d3dae0c16f0122566e49b35a2d711159b4a811c6f040int);
    next_modulus(0xaint, 0xcad4b4c13528e4fd836d3dae0c16f0122566e49b35a2d711159b4a811c6f040int, 0x2850c4080a8341d45d54524b04b7dba1bfd29198656dc59a65ed523c6f1cbdfaint);
    square_modulus(0xbint, 0x2850c4080a8341d45d54524b04b7dba1bfd29198656dc59a65ed523c6f1cbdfaint, 0x2d98bf1d63affca10b199b048049ac1e1b8f8afa534a7c5c7f25a02d8570f73int);
    next_modulus(0x16int, 0x2d98bf1d63affca10b199b048049ac1e1b8f8afa534a7c5c7f25a02d8570f73int, 0xca60ba9e75b26c0aee9ff7133998f3f198b84fd5092d9ddcf59c3d56b47f1b1int);
    square_modulus(0x17int, 0xca60ba9e75b26c0aee9ff7133998f3f198b84fd5092d9ddcf59c3d56b47f1b1int, 0x189e4d0adf3f48374625570ae5e85bc4100e432242bead93ab363bdd9e1466c4int);
    next_modulus(0x2eint, 0x189e4d0adf3f48374625570ae5e85bc4100e432242bead93ab363bdd9e1466c4int, 0x1c525a2f21d2eb4d146cb7ca51a30ab689ffe4b9e1eb4c544b91b34c2c7f41beint);
    square_modulus(0x2fint, 0x1c525a2f21d2eb4d146cb7ca51a30ab689ffe4b9e1eb4c544b91b34c2c7f41beint, 0x2250eb8205a9551f8d0c3486150db5dfd9ce352cea74b6d0c3c0738f6f3d8408int);
    square_modulus(0x5eint, 0x2250eb8205a9551f8d0c3486150db5dfd9ce352cea74b6d0c3c0738f6f3d8408int, 0x28f39018d1f273abd28859459b17b435875f66da860787d5346665a8bf2fbe97int);
    next_modulus(0xbcint, 0x28f39018d1f273abd28859459b17b435875f66da860787d5346665a8bf2fbe97int, 0x2cc5104160764dd7fa29c6eaed1fdf53fb900b7964d1035d7d0da2ca5c8d3606int);
    square_modulus(0xbdint, 0x2cc5104160764dd7fa29c6eaed1fdf53fb900b7964d1035d7d0da2ca5c8d3606int, 0x1dc0b654c2f7016a64b490a3d6a1abcc21e68529825e61d71a3b23857dcc773cint);
    next_modulus(0x17aint, 0x1dc0b654c2f7016a64b490a3d6a1abcc21e68529825e61d71a3b23857dcc773cint, 0x523ec220d9d056a66c7e11ec2bd6c0a3bb5595ca9d8fba868ca697ce849429eint);
    square_modulus(0x17bint, 0x523ec220d9d056a66c7e11ec2bd6c0a3bb5595ca9d8fba868ca697ce849429eint, 0x2ee5b3e962021a94e2706c78835dfdce3ef72db3e7e532dc34aa38bb09289cd4int);
    next_modulus(0x2f6int, 0x2ee5b3e962021a94e2706c78835dfdce3ef72db3e7e532dc34aa38bb09289cd4int, 0x489755debdee5bf5c93bcbffbb2aff4069f24b4e72a9d4071b6f64c7a2c01e7int);
    square_modulus(0x2f7int, 0x489755debdee5bf5c93bcbffbb2aff4069f24b4e72a9d4071b6f64c7a2c01e7int, 0x2caa5f59f2363086ec42d5633e8513d41dcafd9bcab2ed405adfc2bac7e16e20int);
    next_modulus(0x5eeint, 0x2caa5f59f2363086ec42d5633e8513d41dcafd9bcab2ed405adfc2bac7e16e20int, 0xbbad1eecb70e89b5fc26658c59e6bbce68f21ad891c461c94d2d03a01e6b29cint);
    square_modulus(0x5efint, 0xbbad1eecb70e89b5fc26658c59e6bbce68f21ad891c461c94d2d03a01e6b29cint, 0xd5b66b99f3890775faa8c9fad1a1d9efdb7e9d2b9601f3414b8d65c53be8d50int);
    next_modulus(0xbdeint, 0xd5b66b99f3890775faa8c9fad1a1d9efdb7e9d2b9601f3414b8d65c53be8d50int, 0x1119fe6248a2d2e34cf26ac2169ae5506caf48f441f6992b4f951ea2b14b955fint);
    square_modulus(0xbdfint, 0x1119fe6248a2d2e34cf26ac2169ae5506caf48f441f6992b4f951ea2b14b955fint, 0x1e5e3eace33af87ad3d7d5899fb4307867dacd135f909a635881294abad8459eint);
    square_modulus(0x17beint, 0x1e5e3eace33af87ad3d7d5899fb4307867dacd135f909a635881294abad8459eint, 0x204261f9c004045403cd18d41592f936d6ace0945c755b93120a72d6cc5e5ea0int);
    square_modulus(0x2f7cint, 0x204261f9c004045403cd18d41592f936d6ace0945c755b93120a72d6cc5e5ea0int, 0x1f781681173d63a6ffc8daddeed5aef21fd193999072d43864c07c5770044b30int);
    next_modulus(0x5ef8int, 0x1f781681173d63a6ffc8daddeed5aef21fd193999072d43864c07c5770044b30int, 0x150b3f478bbd41c2a5ba02a3a2051a58ec99a3ab4bfb110e2883f60ad29ab711int);
    square_modulus(0x5ef9int, 0x150b3f478bbd41c2a5ba02a3a2051a58ec99a3ab4bfb110e2883f60ad29ab711int, 0x1bc47f7a4a465a879f53c93f02390e1de00315058716f83bf2108397e0002277int);
    next_modulus(0xbdf2int, 0x1bc47f7a4a465a879f53c93f02390e1de00315058716f83bf2108397e0002277int, 0x149e3d47eaade2e02c3e1bde42ffbb5d3b10f5a8da63e9443d98aa9d91738c00int);
    square_modulus(0xbdf3int, 0x149e3d47eaade2e02c3e1bde42ffbb5d3b10f5a8da63e9443d98aa9d91738c00int, 0x2f9d9f7f0d2cdb598bd7f1bee5f413bbd85799a1c992d39ac1c8a5f1e3c3dbebint);
    next_modulus(0x17be6int, 0x2f9d9f7f0d2cdb598bd7f1bee5f413bbd85799a1c992d39ac1c8a5f1e3c3dbebint, 0xed4506ec8812472a8b71bca92ead075e792979181cdc8c25a281bc683abeb96int);
    square_modulus(0x17be7int, 0xed4506ec8812472a8b71bca92ead075e792979181cdc8c25a281bc683abeb96int, 0x7ba90e8947fb01447454f14452ddaee56cb387ef32c97573a6bbfd80c413fe8int);
    square_modulus(0x2f7ceint, 0x7ba90e8947fb01447454f14452ddaee56cb387ef32c97573a6bbfd80c413fe8int, 0xb6ae937cdbafae670de28a199b825e17c3bce92717c4e1523c13d908c07ad2cint);
    next_modulus(0x5ef9cint, 0xb6ae937cdbafae670de28a199b825e17c3bce92717c4e1523c13d908c07ad2cint, 0x2784ec32db16a8d197c036744b2241a70028f7a9d68026b3261564cd4a0943fcint);
    square_modulus(0x5ef9dint, 0x2784ec32db16a8d197c036744b2241a70028f7a9d68026b3261564cd4a0943fcint, 0x1d72a8c1bd1e5ea15589b64cc34741df558f8cb78d8baf8b49d291b13048f9daint);
    next_modulus(0xbdf3aint, 0x1d72a8c1bd1e5ea15589b64cc34741df558f8cb78d8baf8b49d291b13048f9daint, 0x19dece823c132a94a2567826c39f3e801d432e8659687c350307ed5a40e7e711int);
    square_modulus(0xbdf3bint, 0x19dece823c132a94a2567826c39f3e801d432e8659687c350307ed5a40e7e711int, 0x14b8f64921e29f554db07885620e414241541fda0384624d4a9be50e1ae7908aint);
    next_modulus(0x17be76int, 0x14b8f64921e29f554db07885620e414241541fda0384624d4a9be50e1ae7908aint, 0x10d15787f14f24874d7ac079734666a9d34d88fc1dfd1ec8cbb84d6698e4af48int);
    square_modulus(0x17be77int, 0x10d15787f14f24874d7ac079734666a9d34d88fc1dfd1ec8cbb84d6698e4af48int, 0x16230f736b303578fbea51ea19eb10e8c33645f584b73ed867e889a24ecb02caint);
    next_modulus(0x2f7ceeint, 0x16230f736b303578fbea51ea19eb10e8c33645f584b73ed867e889a24ecb02caint, 0x1102f1dbfa6f0cb39c846c1d0e182efbb88e9f0aa75ea1fc4a225ff8d6718f05int);
    square_modulus(0x2f7cefint, 0x1102f1dbfa6f0cb39c846c1d0e182efbb88e9f0aa75ea1fc4a225ff8d6718f05int, 0x133054faaad60b9d0b56f3963bd99e16024ecab2f9fe116cc9eb7720e997c0a7int);
    square_modulus(0x5ef9deint, 0x133054faaad60b9d0b56f3963bd99e16024ecab2f9fe116cc9eb7720e997c0a7int, 0x15b43c438e0b211460149cd11474ea6d83d0a0899091d0e780f190d9b59e0862int);
    next_modulus(0xbdf3bcint, 0x15b43c438e0b211460149cd11474ea6d83d0a0899091d0e780f190d9b59e0862int, 0xe4350aeafb6ae016178bab69f4af10b619d74b6157c0f47b7863c610083b20int);
    square_modulus(0xbdf3bdint, 0xe4350aeafb6ae016178bab69f4af10b619d74b6157c0f47b7863c610083b20int, 0x2c50be7a703a8ec06633ed18ec86a7d22a3cae572d1142445078663695e26b87int);
    square_modulus(0x17be77aint, 0x2c50be7a703a8ec06633ed18ec86a7d22a3cae572d1142445078663695e26b87int, 0x273882d34d563d36bf55a5b183da56bf1bc9a6f316bdc28a37c636c288e71926int);
    next_modulus(0x2f7cef4int, 0x273882d34d563d36bf55a5b183da56bf1bc9a6f316bdc28a37c636c288e71926int, 0x12338380bfa921ded8aea529bb517d7096aaeaaa2e860cfdcbcecbdc818b1281int);
    square_modulus(0x2f7cef5int, 0x12338380bfa921ded8aea529bb517d7096aaeaaa2e860cfdcbcecbdc818b1281int, 0x131464c000009688675be04eb2861e70d6dd88dd1521913cc90665a3c9d50429int);
    square_modulus(0x5ef9deaint, 0x131464c000009688675be04eb2861e70d6dd88dd1521913cc90665a3c9d50429int, 0x27c086cb1caaee9e195191ac464829378b89d572d4d4d7bb2e80311bc8ea838fint);
    square_modulus(0xbdf3bd4int, 0x27c086cb1caaee9e195191ac464829378b89d572d4d4d7bb2e80311bc8ea838fint, 0x185635f29f35b9d35262acdc73bb7f1c097cc2544b1d604ebf3afa945493466eint);
    square_modulus(0x17be77a8int, 0x185635f29f35b9d35262acdc73bb7f1c097cc2544b1d604ebf3afa945493466eint, 0x1a0daa9f3fdb0c483a263b412f549d2da2c0aaee5e58c9070e133c4807068df6int);
    next_modulus(0x2f7cef50int, 0x1a0daa9f3fdb0c483a263b412f549d2da2c0aaee5e58c9070e133c4807068df6int, 0x18f2f19983b607ea637aebdf05e2b2deb185bed803180d4f152355223655bda3int);
    square_modulus(0x2f7cef51int, 0x18f2f19983b607ea637aebdf05e2b2deb185bed803180d4f152355223655bda3int, 0x2fe5eeac1d1335f9c00a9ab17ec824b606cb1ac989ee62a9985bff38268eb6d2int);
    next_modulus(0x5ef9dea2int, 0x2fe5eeac1d1335f9c00a9ab17ec824b606cb1ac989ee62a9985bff38268eb6d2int, 0x1e70d70b3042473db3c88ee00840ee77f1b28b1d6460496ed32e93741eb389f6int);
    square_modulus(0x5ef9dea3int, 0x1e70d70b3042473db3c88ee00840ee77f1b28b1d6460496ed32e93741eb389f6int, 0x11f6e59866b7ec8d7de4c569fcab6f97c41d15f21ba36a0d5b0b13afcc2a6cc2int);
    square_modulus(0xbdf3bd46int, 0x11f6e59866b7ec8d7de4c569fcab6f97c41d15f21ba36a0d5b0b13afcc2a6cc2int, 0x21a1032066275666540fc79fa5fbb5afd0cbec5048c690aad865105ba443cfdeint);
    square_modulus(0x17be77a8cint, 0x21a1032066275666540fc79fa5fbb5afd0cbec5048c690aad865105ba443cfdeint, 0x2f86fdf6f9057dc6b16c773ef91884891b15fe0488bb8a7bd549c7c7c255c568int);
    next_modulus(0x2f7cef518int, 0x2f86fdf6f9057dc6b16c773ef91884891b15fe0488bb8a7bd549c7c7c255c568int, 0x20c6b1e06abe4217afa0d748e01ef1110947db2a903ab80a1b7da4cf344237e2int);
    square_modulus(0x2f7cef519int, 0x20c6b1e06abe4217afa0d748e01ef1110947db2a903ab80a1b7da4cf344237e2int, 0x7c02a15b46bc029f299649f64cf74622b3665efc04df7c4fc1563b3c110c596int);
    next_modulus(0x5ef9dea32int, 0x7c02a15b46bc029f299649f64cf74622b3665efc04df7c4fc1563b3c110c596int, 0x193fc38bdc24f8b04909ae4c56c16ff2567872c6bea93f3c551480e08fe2b043int);
    square_modulus(0x5ef9dea33int, 0x193fc38bdc24f8b04909ae4c56c16ff2567872c6bea93f3c551480e08fe2b043int, 0xb6b248934ec2e8dc89566c7467c206e4de207136a80910cdf051efbd3d2f2b0int);
    next_modulus(0xbdf3bd466int, 0xb6b248934ec2e8dc89566c7467c206e4de207136a80910cdf051efbd3d2f2b0int, 0x28e4dd344ccba3caa94c4916299f2f1c2e17e1b32f44e2cb7d3c5d333240aacbint);
    square_modulus(0xbdf3bd467int, 0x28e4dd344ccba3caa94c4916299f2f1c2e17e1b32f44e2cb7d3c5d333240aacbint, 0x4f21ba1d1469cd3e5761ca4e9ff612515fbf991a0e97569d409b5d650bb957bint);
    square_modulus(0x17be77a8ceint, 0x4f21ba1d1469cd3e5761ca4e9ff612515fbf991a0e97569d409b5d650bb957bint, 0x646f4e3b72c7c5934dc73f0f5c7bf0fcaf3e7f45e7eed4554c9470affe2958aint);
    square_modulus(0x2f7cef519cint, 0x646f4e3b72c7c5934dc73f0f5c7bf0fcaf3e7f45e7eed4554c9470affe2958aint, 0x33cf3c77635feadd8fcb7118be89058ef0b0933455d104ee51be00c5e174b84int);
    square_modulus(0x5ef9dea338int, 0x33cf3c77635feadd8fcb7118be89058ef0b0933455d104ee51be00c5e174b84int, 0x2dea7d54c6aa5b66577089cd5f8a702aac10b32fa6e8e90ef8a013a8530fc48cint);
    next_modulus(0xbdf3bd4670int, 0x2dea7d54c6aa5b66577089cd5f8a702aac10b32fa6e8e90ef8a013a8530fc48cint, 0x29d4d211f554121a4c5098185d945482f792e44ff524e9785f4c76b98f93f087int);
    square_modulus(0xbdf3bd4671int, 0x29d4d211f554121a4c5098185d945482f792e44ff524e9785f4c76b98f93f087int, 0xf30e02087d086662bfad6d8c1e2436593ceac664971117c635259a57527418cint);
    next_modulus(0x17be77a8ce2int, 0xf30e02087d086662bfad6d8c1e2436593ceac664971117c635259a57527418cint, 0x3019c50b2cd5842434f97d00834e3352dc88b95bf152a5ca62f77e42a6669118int);
    square_modulus(0x17be77a8ce3int, 0x3019c50b2cd5842434f97d00834e3352dc88b95bf152a5ca62f77e42a6669118int, 0xa05140d799e8cffd2a4a0e80b96065cf330588916c505f4e6e6f2fce37921aint);
    next_modulus(0x2f7cef519c6int, 0xa05140d799e8cffd2a4a0e80b96065cf330588916c505f4e6e6f2fce37921aint, 0x5632fda2275c853cdcaf32c67b2852947eebbb83206600e2b4c2441ee4bc020int);
    square_modulus(0x2f7cef519c7int, 0x5632fda2275c853cdcaf32c67b2852947eebbb83206600e2b4c2441ee4bc020int, 0x2673c66d9e636ef60c5c18db7fe32d670f3aea1071ac50890292a4b63349afecint);
    square_modulus(0x5ef9dea338eint, 0x2673c66d9e636ef60c5c18db7fe32d670f3aea1071ac50890292a4b63349afecint, 0x21bfc7c44039d7fcd174e3a9f5874cbbe0f167587bf9815dcfcbd2206d40a05eint);
    next_modulus(0xbdf3bd4671cint, 0x21bfc7c44039d7fcd174e3a9f5874cbbe0f167587bf9815dcfcbd2206d40a05eint, 0x2529d9f9d506cd0ef9b9a9964077db249dad0ae21bb7de4cdc1c4775ef310711int);
    square_modulus(0xbdf3bd4671dint, 0x2529d9f9d506cd0ef9b9a9964077db249dad0ae21bb7de4cdc1c4775ef310711int, 0x29358463a760abf850c46d1db50ce847a093581dd41f56bdc0220ced30801dacint);
    square_modulus(0x17be77a8ce3aint, 0x29358463a760abf850c46d1db50ce847a093581dd41f56bdc0220ced30801dacint, 0x1cc1062dd57c81ccea2ba497d2f95f2dc41b5a541951c62e2abc1702e41137aint);
    next_modulus(0x2f7cef519c74int, 0x1cc1062dd57c81ccea2ba497d2f95f2dc41b5a541951c62e2abc1702e41137aint, 0xe9b7b5bf37dc590e84538593f24a2e5354686bcc8372282a3fab89b30b21cbbint);
    square_modulus(0x2f7cef519c75int, 0xe9b7b5bf37dc590e84538593f24a2e5354686bcc8372282a3fab89b30b21cbbint, 0xcc5a6dd6def14c6b176ae7863ce724089689d1b5954f949979f9c0525078896int);
    next_modulus(0x5ef9dea338eaint, 0xcc5a6dd6def14c6b176ae7863ce724089689d1b5954f949979f9c0525078896int, 0x8ec0269a8c9313dc4d47abb493f3e33421d484bb887cb0de1c8bd3dd0e3d7ceint);
    square_modulus(0x5ef9dea338ebint, 0x8ec0269a8c9313dc4d47abb493f3e33421d484bb887cb0de1c8bd3dd0e3d7ceint, 0x210feedaa530c0bff2d3cfef46a8bdf97d0ed3237911c8506f9a21c4fd14adecint);
    square_modulus(0xbdf3bd4671d6int, 0x210feedaa530c0bff2d3cfef46a8bdf97d0ed3237911c8506f9a21c4fd14adecint, 0xbc30d94f4276bead63697a59cf22e28085f84cde1da567427abc75fe4b77c26int);
    next_modulus(0x17be77a8ce3acint, 0xbc30d94f4276bead63697a59cf22e28085f84cde1da567427abc75fe4b77c26int, 0x21877a33e59e4d6baddd6b243f2eef07d7367167687079a0694411bddebe1d3aint);
    square_modulus(0x17be77a8ce3adint, 0x21877a33e59e4d6baddd6b243f2eef07d7367167687079a0694411bddebe1d3aint, 0x12353ed5ad447799acedbe05cf492a0f04e31daf655173fb0f8a0ab302deff2dint);
    square_modulus(0x2f7cef519c75aint, 0x12353ed5ad447799acedbe05cf492a0f04e31daf655173fb0f8a0ab302deff2dint, 0x2367e679ff5632343219280c2eb9963f2f3a64555f13de1387d17cbc7d558ff7int);
    next_modulus(0x5ef9dea338eb4int, 0x2367e679ff5632343219280c2eb9963f2f3a64555f13de1387d17cbc7d558ff7int, 0x299662f9e8574586530237c7b2e285cc00b75b8c63b1d725b7ffc6d604e94fc8int);
}

/// The square of a power of `c` to the power 13818364434197438864469338081.
proof fn square_modulus_x(e: int, x: int, y: int)
    requires
        e >= 0,
        pow_mod(0x30644e72e131a029b85045b68181585d2833e84879b9709143e1f593f0000001int, 0x2200524a255dbf6af47485a398ccebd619e3d57040f03e65be26ba6bf27f8ff3int, e) == x,
        (x * x) % 0x30644e72e131a029b85045b68181585d2833e84879b9709143e1f593f0000001int == y,
    ensures
        pow_mod(0x30644e72e131a029b85045b68181585d2833e84879b9709143e1f593f0000001int, 0x2200524a255dbf6af47485a398ccebd619e3d57040f03e65be26ba6bf27f8ff3int, 2 * e) == y,
{
    lemma_square(0x30644e72e131a029b85045b68181585d2833e84879b9709143e1f593f0000001int, 0x2200524a255dbf6af47485a398ccebd619e3d57040f03e65be26ba6bf27f8ff3int, e, x, y);
}

/// The next power of `c` to the power 13818364434197438864469338081.
proof fn next_modulus_x(e: int, x: int, y: int)
    requires
        e >= 0,
        pow_mod(0x30644e72e131a029b85045b68181585d2833e84879b9709143e1f593f0000001int, 0x2200524a255dbf6af47485a398ccebd619e3d57040f03e65be26ba6bf27f8ff3int, e) == x,
        (x * 0x2200524a255dbf6af47485a398ccebd619e3d57040f03e65be26ba6bf27f8ff3int) % 0x30644e72e131a029b85045b68181585d2833e84879b9709143e1f593f0000001int == y,
    ensures
        pow_mod(0x30644e72e131a029b85045b68181585d2833e84879b9709143e1f593f0000001int, 0x2200524a255dbf6af47485a398ccebd619e3d57040f03e65be26ba6bf27f8ff3int, e + 1) == y,
{
    lemma_next(0x30644e72e131a029b85045b68181585d2833e84879b9709143e1f593f0000001int, 0x2200524a255dbf6af47485a398ccebd619e3d57040f03e65be26ba6bf27f8ff3int, e, x, y);
}

/// The order of `c`.
proof fn lemma_order_modulus()
    ensures
        pow_mod(0x30644e72e131a029b85045b68181585d2833e84879b9709143e1f593f0000001int, 0x2200524a255dbf6af47485a398ccebd619e3d57040f03e65be26ba6bf27f8ff3int, 0x5ef9dea338eb5int) == 0x1int,
{
    lemma_first(0x30644e72e131a029b85045b68181585d2833e84879b9709143e1f593f0000001int, 0x2200524a255dbf6af47485a398ccebd619e3d57040f03e65be26ba6bf27f8ff3int);
    square_modulus_x(0x1int, 0x2200524a255dbf6af47485a398ccebd619e3d57040f03e65be26ba6bf27f8ff3int, 0x2acdbea3c5d2e746fb67e131fa516a7ed25bb8e97da235d0e8ff4ecb7a45b440int);
    square_modulus_x(0x2int, 0x2acdbea3c5d2e746fb67e131fa516a7ed25bb8e97da235d0e8ff4ecb7a45b440int, 0x12070791c71c40e07bc0e6ddf2e4e23fb65c417073018e8b78616a65a8e0b3adint);
    next_modulus_x(0x4int, 0x12070791c71c40e07bc0e6ddf2e4e23fb65c417073018e8b78616a65a8e0b3adint, 0x96b71f34b730b36061c8ed4331f084641cb1122b36c6944200d8488b2bf3e95int);
    square_modulus_x(0x5int, 0x96b71f34b730b36061c8ed4331f084641cb1122b36c6944200d8488b2bf3e95int, 0x1946b694eea09b0ce7b1709e992823c9beab7b63ff82f422b305c9b99fc3e32aint);
    next_modulus_x(0xaint, 0x1946b694eea09b0ce7b1709e992823c9beab7b63ff82f422b305c9b99fc3e32aint, 0x1e66549d28d32566ee04bfa4e2d99c59e4b55603287dda6ebdf59bcc4fa53d38int);
    square_modulus_x(0xbint, 0x1e66549d28d32566ee04bfa4e2d99c59e4b55603287dda6ebdf59bcc4fa53d38int, 0x856863df3989dcdc6c750ee5f00af519d64e895eb09e0da0c03a163754ff070int);
    next_modulus_x(0x16int, 0x856863df3989dcdc6c750ee5f00af519d64e895eb09e0da0c03a163754ff070int, 0x11eebb9f9245ad5eb31da4a028bbcdebf54a84acf8258cc08000592d396e2decint);
    square_modulus_x(0x17int, 0x11eebb9f9245ad5eb31da4a028bbcdebf54a84acf8258cc08000592d396e2decint, 0x2fdce38e5bde52a605b349e50f3d3b3a1dfb54c7f0ae1eed69d0a21ffb764219int);
    next_modulus_x(0x2eint, 0x2fdce38e5bde52a605b349e50f3d3b3a1dfb54c7f0ae1eed69d0a21ffb764219int, 0x2f78e42498f0215ad8e17bb71a409034059343aecede3b34f0ec2d69b80b903cint);
    square_modulus_x(0x2fint, 0x2f78e42498f0215ad8e17bb71a409034059343aecede3b34f0ec2d69b80b903cint, 0x723488d1d5509ebd9d924cbae1995d192e4c8fbf3a1ad4313dea2e1910c28daint);
    square_modulus_x(0x5eint, 0x723488d1d5509ebd9d924cbae1995d192e4c8fbf3a1ad4313dea2e1910c28daint, 0x11e50e333e491ec085a94f1b4880a30fdbc7b034c1bd37697f5d77aa4d5a11cbint);
    next_modulus_x(0xbcint, 0x11e50e333e491ec085a94f1b4880a30fdbc7b034c1bd37697f5d77aa4d5a11cbint, 0x3919d8dc0ae2f9c759b8b465b0430f91aa60910d9a767345cf8939c38a71000int);
    square_modulus_x(0xbdint, 0x3919d8dc0ae2f9c759b8b465b0430f91aa60910d9a767345cf8939c38a71000int, 0x1f45a1e69e5ca88691053a0af268e7b4cb57ca5eccfa4b20d5d87db01f4b5253int);
    next_modulus_x(0x17aint, 0x1f45a1e69e5ca88691053a0af268e7b4cb57ca5eccfa4b20d5d87db01f4b5253int, 0x21826ec1d81d44b29f5610aab954c629bc4a513ba65100841806c0db1bba3504int);
    square_modulus_x(0x17bint, 0x21826ec1d81d44b29f5610aab954c629bc4a513ba65100841806c0db1bba3504int, 0x297a8aea0023a51e0dce1d6eebe4d5aaca68506c2841bf11d1e7efcccf46e72eint);
    next_modulus_x(0x2f6int, 0x297a8aea0023a51e0dce1d6eebe4d5aaca68506c2841bf11d1e7efcccf46e72eint, 0x153c09003eb9f67679a1d66f8dd031956aaf8d80ec10f87f1341a1b93c53dd41int);
    square_modulus_x(0x2f7int, 0x153c09003eb9f67679a1d66f8dd031956aaf8d80ec10f87f1341a1b93c53dd41int, 0xa150bcf2473e1e54873c39772e56259417292800bbd0bba1d8c1b60dfb8b3b3int);
    next_modulus_x(0x5eeint, 0xa150bcf2473e1e54873c39772e56259417292800bbd0bba1d8c1b60dfb8b3b3int, 0x222549e549ac1af71e0bd5a1b03ead31917e1bf9bcb81ce8c02b7ca70d7de58aint);
    square_modulus_x(0x5efint, 0x222549e549ac1af71e0bd5a1b03ead31917e1bf9bcb81ce8c02b7ca70d7de58aint, 0x14e04b89dfd6b369b5229e097a4030f93172cb05e71b98673450aed3305f0d6eint);
    next_modulus_x(0xbdeint, 0x14e04b89dfd6b369b5229e097a4030f93172cb05e71b98673450aed3305f0d6eint, 0x1eb0d16cc5549273bba48fe6e245531a5b7ca792c7266408d1aec36c0e41d75dint);
    square_modulus_x(0xbdfint, 0x1eb0d16cc5549273bba48fe6e245531a5b7ca792c7266408d1aec36c0e41d75dint, 0x9734583a2192652a254c224c8dc72bed931d0f8a68132a3df73d74a844fd2ceint);
    square_modulus_x(0x17beint, 0x9734583a2192652a254c224c8dc72bed931d0f8a68132a3df73d74a844fd2ceint, 0xb954fffda73683c07f990e81bfb880727efdd665731e913358332b6a6a159d8int);
    square_modulus_x(0x2f7cint, 0xb954fffda73683c07f990e81bfb880727efdd665731e913358332b6a6a159d8int, 0x46a94581fa44cd1b18a9ee62eeba7728d6d2b01c90408695756b9552d70123dint);
    next_modulus_x(0x5ef8int, 0x46a94581fa44cd1b18a9ee62eeba7728d6d2b01c90408695756b9552d70123dint, 0x1cbc9671676b8de134057e0ef39860495985221589c94910e79e4465cf62cadaint);
    square_modulus_x(0x5ef9int, 0x1cbc9671676b8de134057e0ef39860495985221589c94910e79e4465cf62cadaint, 0x1f0a21f4814e6fdf1f251d8aa3be9458f517a934ff7f44452ad41f6250fd2f80int);
    next_modulus_x(0xbdf2int, 0x1f0a21f4814e6fdf1f251d8aa3be9458f517a934ff7f44452ad41f6250fd2f80int, 0x2e92233ba84cc0dd768aebb14c12c367583e0f0f034a31d7eb88d2de3f62a300int);
    square_modulus_x(0xbdf3int, 0x2e92233ba84cc0dd768aebb14c12c367583e0f0f034a31d7eb88d2de3f62a300int, 0x11bcd96dfbbc666b2aa6da13786c1f0ca00e457dfe1eb98d34d21c860da56a83int);
    next_modulus_x(0x17be6int, 0x11bcd96dfbbc666b2aa6da13786c1f0ca00e457dfe1eb98d34d21c860da56a83int, 0x174678f505ed93e359dca7d24bd48975a2ad784b523d9a052204272e755d1dd4int);
    square_modulus_x(0x17be7int, 0x174678f505ed93e359dca7d24bd48975a2ad784b523d9a052204272e755d1dd4int, 0x1936b0dc1eb0940a3073257f25fcb60efa2974c21d8efca192ec4063ce9ff2acint);
    square_modulus_x(0x2f7ceint, 0x1936b0dc1eb0940a3073257f25fcb60efa2974c21d8efca192ec4063ce9ff2acint, 0x2ad8ac5ce44535158abe8191514a67a541a1709a8d52b0aeef2f4c5a622c684cint);
    next_modulus_x(0x5ef9cint, 0x2ad8ac5ce44535158abe8191514a67a541a1709a8d52b0aeef2f4c5a622c684cint, 0x6c0386a63a1031c52fe56a67b5698030b5ea23a2741be59b61a12a436af2ba6int);
    square_modulus_x(0x5ef9dint, 0x6c0386a63a1031c52fe56a67b5698030b5ea23a2741be59b61a12a436af2ba6int, 0x2cd9e1704bdef6205fc85641d64d8b8d86e8cd32e83052911fc7255b6c01f271int);
    next_modulus_x(0xbdf3aint, 0x2cd9e1704bdef6205fc85641d64d8b8d86e8cd32e83052911fc7255b6c01f271int, 0x1695c852c1dbd0764e59c4579fb07eda9d0964d41a6a1ba48116d307025c9f44int);
    square_modulus_x(0xbdf3bint, 0x1695c852c1dbd0764e59c4579fb07eda9d0964d41a6a1ba48116d307025c9f44int, 0x21812b618cd18a72ebd27a7e15900d057db380082d25c22c57da69fc7e512142int);
    next_modulus_x(0x17be76int, 0x21812b618cd18a72ebd27a7e15900d057db380082d25c22c57da69fc7e512142int, 0x1f406814fb0c92855027f60c30d71da27ab63aed880d8f632ad0414eb4cd1facint);
    square_modulus_x(0x17be77int, 0x1f406814fb0c92855027f60c30d71da27ab63aed880d8f632ad0414eb4cd1facint, 0x2c06a37fe9aac729df1fb0bf5a933bed3b4cc11edd3fe750cde0e2434915ab6eint);
    next_modulus_x(0x2f7ceeint, 0x2c06a37fe9aac729df1fb0bf5a933bed3b4cc11edd3fe750cde0e2434915ab6eint, 0x172fd473218a3a1d15e8a177ae50576442f652257fe5764dd1b5cf3385f2fa75int);
    square_modulus_x(0x2f7cefint, 0x172fd473218a3a1d15e8a177ae50576442f652257fe5764dd1b5cf3385f2fa75int, 0x207eb9754cf90b268bc0e1fd134e480331d6328f5ddd1b26aabad2be02bcb4d9int);
    square_modulus_x(0x5ef9deint, 0x207eb9754cf90b268bc0e1fd134e480331d6328f5ddd1b26aabad2be02bcb4d9int, 0x4c7aef7f402264c7f012e9e6d982f7e1385f5405e5a0284a3c80f28999bb2c5int);
    next_modulus_x(0xbdf3bcint, 0x4c7aef7f402264c7f012e9e6d982f7e1385f5405e5a0284a3c80f28999bb2c5int, 0xf5c7c51a2b51ce8a4b11aa0105c07eda8453f8ad4f8c2c3f7cdf8b18b030ec2int);
    square_modulus_x(0xbdf3bdint, 0xf5c7c51a2b51ce8a4b11aa0105c07eda8453f8ad4f8c2c3f7cdf8b18b030ec2int, 0x6e919b9a5f4e37103f33c885bfad10396e2269e6be88f5bc9d5c492e95f0137int);
    square_modulus_x(0x17be77aint, 0x6e919b9a5f4e37103f33c885bfad10396e2269e6be88f5bc9d5c492e95f0137int, 0xe1b2e147c07a1fb8cfe01526bb7354e961387f28250c03f5ad5e1b8429aeca7int);
    next_modulus_x(0x2f7cef4int, 0xe1b2e147c07a1fb8cfe01526bb7354e961387f28250c03f5ad5e1b8429aeca7int, 0xe1fa8aa5222810308e09b11edc5b844a201700977d0a50d22f1c9dd79dc8a56int);
    square_modulus_x(0x2f7cef5int, 0xe1fa8aa5222810308e09b11edc5b844a201700977d0a50d22f1c9dd79dc8a56int, 0x688c2bfdf14ad8d79bd22e03317df1ee76de92668ae1f5c654715f8bfb8efbcint);
    square_modulus_x(0x5ef9deaint, 0x688c2bfdf14ad8d79bd22e03317df1ee76de92668ae1f5c654715f8bfb8efbcint, 0x119db120f98b4969114fa045ac6a9c38efbd5b3a457dd171fd619e8e30c1be02int);
    square_modulus_x(0xbdf3bd4int, 0x119db120f98b4969114fa045ac6a9c38efbd5b3a457dd171fd619e8e30c1be02int, 0x1af6d116cde7e704e7a5c2b7dde63cdea32ad39da541baa922303f3e1873f3f9int);
    square_modulus_x(0x17be77a8int, 0x1af6d116cde7e704e7a5c2b7dde63cdea32ad39da541baa922303f3e1873f3f9int, 0x947f0fa9f4bd4bd8d19b3140215742d8af56db04da2f955fdcead8a16c2e874int);
    next_modulus_x(0x2f7cef50int, 0x947f0fa9f4bd4bd8d19b3140215742d8af56db04da2f955fdcead8a16c2e874int, 0x15f436cbcb54cc12ce0b90561993aca8632577b79a7929267dc6f8a8682dffb2int);
    square_modulus_x(0x2f7cef51int, 0x15f436cbcb54cc12ce0b90561993aca8632577b79a7929267dc6f8a8682dffb2int, 0x244f7bcf80c57b6a0543348821ba2ec55cdb8024dbad5cb3900a2c6236daad56int);
    next_modulus_x(0x5ef9dea2int, 0x244f7bcf80c57b6a0543348821ba2ec55cdb8024dbad5cb3900a2c6236daad56int, 0x55c58e25937ee4bf3b03617ac95ee5372b4312fabeead105b7c3bc3c1ab1449int);
    square_modulus_x(0x5ef9dea3int, 0x55c58e25937ee4bf3b03617ac95ee5372b4312fabeead105b7c3bc3c1ab1449int, 0x1346b38cc0f26abe6d2a1b7f16e17b03c986ca4ae852bd1780492371903cdaccint);
    square_modulus_x(0xbdf3bd46int, 0x1346b38cc0f26abe6d2a1b7f16e17b03c986ca4ae852bd1780492371903cdaccint, 0xafa615d887f18b3ecd3fde847129641b38526ce34ecac3d964ff2a88e733a1eint);
    square_modulus_x(0x17be77a8cint, 0xafa615d887f18b3ecd3fde847129641b38526ce34ecac3d964ff2a88e733a1eint, 0x27a985f7afc0b3c77d9738bfc894c605356862fe92b1bf1cb46fee7746f5cc4dint);
    next_modulus_x(0x2f7cef518int, 0x27a985f7afc0b3c77d9738bfc894c605356862fe92b1bf1cb46fee7746f5cc4dint, 0xe9721b32c75056de03e1ff237f4b66c4d45d36ebcf26b0a694948b964c65beint);
    square_modulus_x(0x2f7cef519int, 0xe9721b32c75056de03e1ff237f4b66c4d45d36ebcf26b0a694948b964c65beint, 0x209471e569b9acd8d34289b00ac73f1e45e700c06ebad87bed7a45fbc72781abint);
    next_modulus_x(0x5ef9dea32int, 0x209471e569b9acd8d34289b00ac73f1e45e700c06ebad87bed7a45fbc72781abint, 0x2d6b25b948ad8c05c33dc8dd5272edf88dd4ca068b80f6dab707641c52302d5int);
    square_modulus_x(0x5ef9dea33int, 0x2d6b25b948ad8c05c33dc8dd5272edf88dd4ca068b80f6dab707641c52302d5int, 0x1ab41d1fbfac9824cd70aca9182ca06f17f073a3fd2b5e856c00dd2aa02841c8int);
    next_modulus_x(0xbdf3bd466int, 0x1ab41d1fbfac9824cd70aca9182ca06f17f073a3fd2b5e856c00dd2aa02841c8int, 0x1e5531274ae7f4b1d169621a3c697f75831397af1fd796d59d94f1e9d7d41c98int);
    square_modulus_x(0xbdf3bd467int, 0x1e5531274ae7f4b1d169621a3c697f75831397af1fd796d59d94f1e9d7d41c98int, 0xad8a194e3b34b00dc5f3581f0c3f3e1c8c12bc86b0dfa9ab3985cd0b7efe340int);
    square_modulus_x(0x17be77a8ceint, 0xad8a194e3b34b00dc5f3581f0c3f3e1c8c12bc86b0dfa9ab3985cd0b7efe340int, 0x12aa81f902c8df45ef1cf26c9843b67d9b5c10ec43e6c5894e414d88e54fdint);
    square_modulus_x(0x2f7cef519cint, 0x12aa81f902c8df45ef1cf26c9843b67d9b5c10ec43e6c5894e414d88e54fdint, 0x1d4474536330649921f7164c1f26588f8eb779c1b911afe2367346a80dc91adeint);
    square_modulus_x(0x5ef9dea338int, 0x1d4474536330649921f7164c1f26588f8eb779c1b911afe2367346a80dc91adeint, 0x15a27da15e5e85fd513f3f9678078748f06f3245ce83a068989b2077977c952aint);
    next_modulus_x(0xbdf3bd4670int, 0x15a27da15e5e85fd513f3f9678078748f06f3245ce83a068989b2077977c952aint, 0xfaa00e7d32ac9ba44168d126b2dfe254ec2258c975d3caf446320d2ac285036int);
    square_modulus_x(0xbdf3bd4671int, 0xfaa00e7d32ac9ba44168d126b2dfe254ec2258c975d3caf446320d2ac285036int, 0x1fe2303508978eb61b94b17f852a280936569be62d590aa9268640d467cb6562int);
    next_modulus_x(0x17be77a8ce2int, 0x1fe2303508978eb61b94b17f852a280936569be62d590aa9268640d467cb6562int, 0x24aaa683e7f59cc1c1bc7883b29bffc41a85f992d9bd0f285261158569155625int);
    square_modulus_x(0x17be77a8ce3int, 0x24aaa683e7f59cc1c1bc7883b29bffc41a85f992d9bd0f285261158569155625int, 0x1e139a8ccc90217d4c5f698269650ddd620999ce7ed6c411f1f2247c72d5be0cint);
    next_modulus_x(0x2f7cef519c6int, 0x1e139a8ccc90217d4c5f698269650ddd620999ce7ed6c411f1f2247c72d5be0cint, 0x281e1597c64861d929315f61af4dccfa2cdaae6f308759177621fc067540211bint);
    square_modulus_x(0x2f7cef519c7int, 0x281e1597c64861d929315f61af4dccfa2cdaae6f308759177621fc067540211bint, 0x14301cefa952f444889bfbdadbf32f48c3ac806bcc51084246c65974c6d35ec0int);
    square_modulus_x(0x5ef9dea338eint, 0x14301cefa952f444889bfbdadbf32f48c3ac806bcc51084246c65974c6d35ec0int, 0x223f6e7b9de511d67f58d4db0c8b8709bb63311f5ce6e04f2c2ad0d523358143int);
    next_modulus_x(0xbdf3bd4671cint, 0x223f6e7b9de511d67f58d4db0c8b8709bb63311f5ce6e04f2c2ad0d523358143int, 0x240d046154ddb7eebb6e62ddf70b14fb48c36c601517a2d0c4daa63e68153b5fint);
    square_modulus_x(0xbdf3bd4671dint, 0x240d046154ddb7eebb6e62ddf70b14fb48c36c601517a2d0c4daa63e68153b5fint, 0x2d056fad7f257663aae9ba2f03b7304c6600298187274876be2353f10ff70b2fint);
    square_modulus_x(0x17be77a8ce3aint, 0x2d056fad7f257663aae9ba2f03b7304c6600298187274876be2353f10ff70b2fint, 0x299016231b16ee24214551e4963990d1886a29e533a1a533d46407edb3a78969int);
    next_modulus_x(0x2f7cef519c74int, 0x299016231b16ee24214551e4963990d1886a29e533a1a533d46407edb3a78969int, 0x1af7a0aeca3e85657e7c8dd0977f779e952146b6f38ba95d147bdb084fbd38cfint);
    square_modulus_x(0x2f7cef519c75int, 0x1af7a0aeca3e85657e7c8dd0977f779e952146b6f38ba95d147bdb084fbd38cfint, 0x84d90f35e682e44e3fc7d9e2704ff6710a198409050f6578afa231311415e8eint);
    next_modulus_x(0x5ef9dea338eaint, 0x84d90f35e682e44e3fc7d9e2704ff6710a198409050f6578afa231311415e8eint, 0x12f85116896839ae56c6232304a95d8f7364f6fecd938c4b3e2c7a9f327b5c2int);
    square_modulus_x(0x5ef9dea338ebint, 0x12f85116896839ae56c6232304a95d8f7364f6fecd938c4b3e2c7a9f327b5c2int, 0x13cfe4037a294a4f68f53062a638023655c6a7d617c3c91bb4fd6a38b831dfdfint);
    square_modulus_x(0xbdf3bd4671d6int, 0x13cfe4037a294a4f68f53062a638023655c6a7d617c3c91bb4fd6a38b831dfdfint, 0x1b43d248d44b377e44b5a0e9a3359c4b516870f39904b7bb2169233421a65e2eint);
    next_modulus_x(0x17be77a8ce3acint, 0x1b43d248d44b377e44b5a0e9a3359c4b516870f39904b7bb2169233421a65e2eint, 0x27453dd309c17eb67daf2f4254fec7073de9d5e582f256ac7fa2390132c95ea6int);
    square_modulus_x(0x17be77a8ce3adint, 0x27453dd309c17eb67daf2f4254fec7073de9d5e582f256ac7fa2390132c95ea6int, 0x2adb6e7f18c177294f7025cd641ca815c30baa39b003b445fba5835b2a17482cint);
    square_modulus_x(0x2f7cef519c75aint, 0x2adb6e7f18c177294f7025cd641ca815c30baa39b003b445fba5835b2a17482cint, 0x2b133fc82091ead16a010f4cabcfecdb61061eba8d4b2ecd589a8f38d34f63e4int);
    next_modulus_x(0x5ef9dea338eb4int, 0x2b133fc82091ead16a010f4cabcfecdb61061eba8d4b2ecd589a8f38d34f63e4int, 0x1int);
}

/// The number of elements of the field is prime.
pub proof fn lemma_modulus_is_prime()
    ensures
        is_prime(fr_modulus()),
{
    lemma_13818364434197438864469338081_is_prime();
    lemma_1670836401704629_is_prime();
    lemma_power1_modulus();
    lemma_power2_modulus();
    lemma_order_modulus();
    assert((0x2200524a255dbf6af47485a398ccebd619e3d57040f03e65be26ba6bf27f8ff3int - 1) * 0x30b43c635b2375e9f82f247135e791541018e190295925392ce8c12f2bea62int % 0x30644e72e131a029b85045b68181585d2833e84879b9709143e1f593f0000001int == 1);
    assert((0x299662f9e8574586530237c7b2e285cc00b75b8c63b1d725b7ffc6d604e94fc8int - 1) * 0x29a1d6cdff4615644953694b0908408f070056350f6009ad0924c654e07a589dint % 0x30644e72e131a029b85045b68181585d2833e84879b9709143e1f593f0000001int == 1);
    lemma_prime_two(
        0x30644e72e131a029b85045b68181585d2833e84879b9709143e1f593f0000001int,
        0x8fdf6a009ddb0f44829608cbae4d277cf3727232b632f357b4ae966ddb136a8int,
        0x2ca6487cfcd795e8729527e1int,
        0x5ef9dea338eb5int,
        0x2200524a255dbf6af47485a398ccebd619e3d57040f03e65be26ba6bf27f8ff3int,
        0x30b43c635b2375e9f82f247135e791541018e190295925392ce8c12f2bea62int,
        0x299662f9e8574586530237c7b2e285cc00b75b8c63b1d725b7ffc6d604e94fc8int,
        0x29a1d6cdff4615644953694b0908408f070056350f6009ad0924c654e07a589dint,
    );
}

} // verus!
