//! 256-bit numbers.

use vstd::prelude::*;

verus! {

/// A number below 2^256, as four 64-bit limbs, the least significant first.
#[derive(Clone, Copy, Debug, PartialEq, Eq, Structural)]
pub struct U256 {
    pub l0: u64,
    pub l1: u64,
    pub l2: u64,
    pub l3: u64,
}

/// 2^64.
pub const LIMB: u128 = 0x1_0000_0000_0000_0000;

impl U256 {
    /// The number that the limbs stand for.
    pub open spec fn value(self) -> int {
        self.l0 + self.l1 * 0x1_0000_0000_0000_0000 + self.l2
            * 0x1_0000_0000_0000_0000_0000_0000_0000_0000int + self.l3
            * 0x1_0000_0000_0000_0000_0000_0000_0000_0000_0000_0000_0000_0000int
    }

    /// Whether the number is even.
    pub fn is_even(&self) -> (r: bool)
        ensures
            r == (self.value() % 2 == 0),
    {
        self.l0 % 2 == 0
    }

    /// Whether `self` is at least `other`.
    pub fn at_least(&self, other: &Self) -> (r: bool)
        ensures
            r == (self.value() >= other.value()),
    {
        if self.l3 != other.l3 {
            self.l3 > other.l3
        } else if self.l2 != other.l2 {
            self.l2 > other.l2
        } else if self.l1 != other.l1 {
            self.l1 > other.l1
        } else {
            self.l0 >= other.l0
        }
    }

    /// The sum, where it fits.
    pub fn plus(&self, other: &Self) -> (r: Self)
        requires
            self.value() + other.value()
                < 0x1_0000_0000_0000_0000_0000_0000_0000_0000_0000_0000_0000_0000_0000_0000_0000_0000int,
        ensures
            r.value() == self.value() + other.value(),
    {
        let s0: u128 = self.l0 as u128 + other.l0 as u128;
        let s1: u128 = self.l1 as u128 + other.l1 as u128 + s0 / LIMB;
        let s2: u128 = self.l2 as u128 + other.l2 as u128 + s1 / LIMB;
        let s3: u128 = self.l3 as u128 + other.l3 as u128 + s2 / LIMB;
        U256 {
            l0: (s0 % LIMB) as u64,
            l1: (s1 % LIMB) as u64,
            l2: (s2 % LIMB) as u64,
            l3: s3 as u64,
        }
    }

    /// The difference, where it is no less than 0.
    pub fn minus(&self, other: &Self) -> (r: Self)
        requires
            self.value() >= other.value(),
        ensures
            r.value() == self.value() - other.value(),
    {
        let d0: u128 = LIMB + self.l0 as u128 - other.l0 as u128;
        let d1: u128 = LIMB - 1 + d0 / LIMB + self.l1 as u128 - other.l1 as u128;
        let d2: u128 = LIMB - 1 + d1 / LIMB + self.l2 as u128 - other.l2 as u128;
        let d3: u128 = LIMB - 1 + d2 / LIMB + self.l3 as u128 - other.l3 as u128;
        U256 {
            l0: (d0 % LIMB) as u64,
            l1: (d1 % LIMB) as u64,
            l2: (d2 % LIMB) as u64,
            l3: (d3 % LIMB) as u64,
        }
    }

    /// Half of the number, rounded down.
    pub fn half(&self) -> (r: Self)
        ensures
            r.value() == self.value() / 2,
    {
        let top: u64 = 0x8000_0000_0000_0000;
        U256 {
            l0: self.l0 / 2 + (self.l1 % 2) * top,
            l1: self.l1 / 2 + (self.l2 % 2) * top,
            l2: self.l2 / 2 + (self.l3 % 2) * top,
            l3: self.l3 / 2,
        }
    }
}

} // verus!
