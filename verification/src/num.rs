//! Generators of unsigned integers.

use crate::driver::bound::{spec_widen_u32, spec_widen_u64, spec_widen_u8};
use crate::driver::{parse_uint, spec_limits, Bound, Driver, Entropy};
use crate::generator::{BoundedValue, TypeGenerator, ValueGenerator};
use core::ops::Range;
use vstd::prelude::*;

verus! {


impl TypeGenerator for u8 {
    /// A `u8` is decoded from one byte, least significant first.
    open spec fn parse_type(tape: Seq<u8>, room: nat) -> Option<(u8, nat)> {
        match parse_uint(tape, 1, 0, 0xff) {
            Some((value, taken)) => Some((value as u8, taken)),
            None => None,
        }
    }

    fn generate<D: Driver>(driver: &mut D) -> (r: Option<u8>) {
        driver.gen_u8(Bound::Unbounded, Bound::Unbounded)
    }
}

impl BoundedValue for u8 {
    open spec fn within(value: u8, min: Bound<u8>, max: Bound<u8>) -> bool {
        spec_limits(spec_widen_u8(min), spec_widen_u8(max), 0xff) matches Some((low, high))
            && low <= value <= high
    }

    /// A `u8` in a range is decoded from one byte, least significant
    /// first, and brought into the range by its remainder.
    open spec fn parse_bounded(tape: Seq<u8>, min: Bound<u8>, max: Bound<u8>) -> Option<
        (u8, nat),
    > {
        match spec_limits(spec_widen_u8(min), spec_widen_u8(max), 0xff) {
            Some((low, high)) => match parse_uint(tape, 1, low as nat, high as nat) {
                Some((value, taken)) => Some((value as u8, taken)),
                None => None,
            },
            None => None,
        }
    }

    fn gen_bounded<D: Driver>(driver: &mut D, min: Bound<u8>, max: Bound<u8>) -> (r: Option<
        u8,
    >) {
        driver.gen_u8(min, max)
    }
}

/// A `u8` generates itself and takes no bytes.
impl ValueGenerator for u8 {
    type Output = u8;

    open spec fn parse(&self, tape: Seq<u8>, room: nat) -> Option<(u8, nat)> {
        Some((*self, 0))
    }

    open spec fn produces(&self, value: u8) -> bool {
        value == *self
    }

    fn generate<D: Driver>(&self, driver: &mut D) -> (r: Option<u8>) {
        proof {
            match driver@.entropy {
                Entropy::Fixed(tape) => {
                    assert(tape.skip(0) == tape);
                },
                Entropy::Random(_) => {},
            }
        }
        Some(*self)
    }
}

impl TypeGenerator for u32 {
    /// A `u32` is decoded from four bytes, least significant first.
    open spec fn parse_type(tape: Seq<u8>, room: nat) -> Option<(u32, nat)> {
        match parse_uint(tape, 4, 0, 0xffff_ffff) {
            Some((value, taken)) => Some((value as u32, taken)),
            None => None,
        }
    }

    fn generate<D: Driver>(driver: &mut D) -> (r: Option<u32>) {
        driver.gen_u32(Bound::Unbounded, Bound::Unbounded)
    }
}

impl BoundedValue for u32 {
    open spec fn within(value: u32, min: Bound<u32>, max: Bound<u32>) -> bool {
        spec_limits(spec_widen_u32(min), spec_widen_u32(max), 0xffff_ffff) matches Some((low, high))
            && low <= value <= high
    }

    /// A `u32` in a range is decoded from four bytes, least significant
    /// first, and brought into the range by its remainder.
    open spec fn parse_bounded(tape: Seq<u8>, min: Bound<u32>, max: Bound<u32>) -> Option<
        (u32, nat),
    > {
        match spec_limits(spec_widen_u32(min), spec_widen_u32(max), 0xffff_ffff) {
            Some((low, high)) => match parse_uint(tape, 4, low as nat, high as nat) {
                Some((value, taken)) => Some((value as u32, taken)),
                None => None,
            },
            None => None,
        }
    }

    fn gen_bounded<D: Driver>(driver: &mut D, min: Bound<u32>, max: Bound<u32>) -> (r: Option<
        u32,
    >) {
        driver.gen_u32(min, max)
    }
}

/// A `u32` generates itself and takes no bytes.
impl ValueGenerator for u32 {
    type Output = u32;

    open spec fn parse(&self, tape: Seq<u8>, room: nat) -> Option<(u32, nat)> {
        Some((*self, 0))
    }

    open spec fn produces(&self, value: u32) -> bool {
        value == *self
    }

    fn generate<D: Driver>(&self, driver: &mut D) -> (r: Option<u32>) {
        proof {
            match driver@.entropy {
                Entropy::Fixed(tape) => {
                    assert(tape.skip(0) == tape);
                },
                Entropy::Random(_) => {},
            }
        }
        Some(*self)
    }
}

impl TypeGenerator for u64 {
    /// A `u64` is decoded from eight bytes, least significant first.
    open spec fn parse_type(tape: Seq<u8>, room: nat) -> Option<(u64, nat)> {
        match parse_uint(tape, 8, 0, 0xffff_ffff_ffff_ffff) {
            Some((value, taken)) => Some((value as u64, taken)),
            None => None,
        }
    }

    fn generate<D: Driver>(driver: &mut D) -> (r: Option<u64>) {
        driver.gen_u64(Bound::Unbounded, Bound::Unbounded)
    }
}

impl BoundedValue for u64 {
    open spec fn within(value: u64, min: Bound<u64>, max: Bound<u64>) -> bool {
        spec_limits(
            spec_widen_u64(min),
            spec_widen_u64(max),
            0xffff_ffff_ffff_ffff,
        ) matches Some((low, high)) && low <= value <= high
    }

    /// A `u64` in a range is decoded from eight bytes, least significant
    /// first, and brought into the range by its remainder.
    open spec fn parse_bounded(tape: Seq<u8>, min: Bound<u64>, max: Bound<u64>) -> Option<
        (u64, nat),
    > {
        match spec_limits(spec_widen_u64(min), spec_widen_u64(max), 0xffff_ffff_ffff_ffff) {
            Some((low, high)) => match parse_uint(tape, 8, low as nat, high as nat) {
                Some((value, taken)) => Some((value as u64, taken)),
                None => None,
            },
            None => None,
        }
    }

    fn gen_bounded<D: Driver>(driver: &mut D, min: Bound<u64>, max: Bound<u64>) -> (r: Option<
        u64,
    >) {
        driver.gen_u64(min, max)
    }
}

/// A `u64` generates itself and takes no bytes.
impl ValueGenerator for u64 {
    type Output = u64;

    open spec fn parse(&self, tape: Seq<u8>, room: nat) -> Option<(u64, nat)> {
        Some((*self, 0))
    }

    open spec fn produces(&self, value: u64) -> bool {
        value == *self
    }

    fn generate<D: Driver>(&self, driver: &mut D) -> (r: Option<u64>) {
        proof {
            match driver@.entropy {
                Entropy::Fixed(tape) => {
                    assert(tape.skip(0) == tape);
                },
                Entropy::Random(_) => {},
            }
        }
        Some(*self)
    }
}

impl TypeGenerator for u128 {
    /// A `u128` is decoded from sixteen bytes, least significant first.
    open spec fn parse_type(tape: Seq<u8>, room: nat) -> Option<(u128, nat)> {
        match parse_uint(tape, 16, 0, u128::MAX as nat) {
            Some((value, taken)) => Some((value as u128, taken)),
            None => None,
        }
    }

    fn generate<D: Driver>(driver: &mut D) -> (r: Option<u128>) {
        driver.gen_u128(Bound::Unbounded, Bound::Unbounded)
    }
}

impl BoundedValue for u128 {
    open spec fn within(value: u128, min: Bound<u128>, max: Bound<u128>) -> bool {
        spec_limits(min, max, u128::MAX) matches Some((low, high)) && low <= value <= high
    }

    /// A `u128` in a range is decoded from sixteen bytes, least significant
    /// first, and brought into the range by its remainder.
    open spec fn parse_bounded(tape: Seq<u8>, min: Bound<u128>, max: Bound<u128>) -> Option<
        (u128, nat),
    > {
        match spec_limits(min, max, u128::MAX) {
            Some((low, high)) => match parse_uint(tape, 16, low as nat, high as nat) {
                Some((value, taken)) => Some((value as u128, taken)),
                None => None,
            },
            None => None,
        }
    }

    fn gen_bounded<D: Driver>(driver: &mut D, min: Bound<u128>, max: Bound<u128>) -> (r: Option<
        u128,
    >) {
        driver.gen_u128(min, max)
    }
}

/// A `u128` generates itself and takes no bytes.
impl ValueGenerator for u128 {
    type Output = u128;

    open spec fn parse(&self, tape: Seq<u8>, room: nat) -> Option<(u128, nat)> {
        Some((*self, 0))
    }

    open spec fn produces(&self, value: u128) -> bool {
        value == *self
    }

    fn generate<D: Driver>(&self, driver: &mut D) -> (r: Option<u128>) {
        proof {
            match driver@.entropy {
                Entropy::Fixed(tape) => {
                    assert(tape.skip(0) == tape);
                },
                Entropy::Random(_) => {},
            }
        }
        Some(*self)
    }
}

/// A range generates the values from its start up to, not including, its
/// end.
impl<T: BoundedValue + Copy> ValueGenerator for Range<T> {
    type Output = T;

    open spec fn parse(&self, tape: Seq<u8>, room: nat) -> Option<(T, nat)> {
        T::parse_bounded(tape, Bound::Included(self.start), Bound::Excluded(self.end))
    }

    open spec fn produces(&self, value: T) -> bool {
        T::within(value, Bound::Included(self.start), Bound::Excluded(self.end))
    }

    fn generate<D: Driver>(&self, driver: &mut D) -> (r: Option<T>) {
        T::gen_bounded(driver, Bound::Included(self.start), Bound::Excluded(self.end))
    }
}

} // verus!
