//! Spans of time, counted in whole seconds and nanoseconds, and their
//! generators.

use crate::driver::{Bound, Driver, Entropy};
use crate::generator::{
    produce, BoundedValue, TypeGenerator, TypeGeneratorWithParams, TypeValueGenerator,
    ValueGenerator,
};
use core::ops::Range;
use vstd::prelude::*;

verus! {

/// Nanoseconds in one second.
pub const NANOS_PER_SEC: u32 = 1_000_000_000;

/// A span of time. Its view is the span's length in nanoseconds.
#[derive(Clone, Copy, Debug, PartialEq, Eq)]
pub struct Duration {
    secs: u64,
    nanos: u32,
}

impl View for Duration {
    type V = nat;

    closed spec fn view(&self) -> nat {
        (self.secs as nat) * (NANOS_PER_SEC as nat) + (self.nanos as nat)
    }
}

impl Duration {
    #[verifier::type_invariant]
    spec fn subsecond(self) -> bool {
        self.nanos < NANOS_PER_SEC
    }

    /// The span of `secs` seconds and `nanos` nanoseconds, where the
    /// seconds carried over from `nanos` fit beside `secs`.
    pub closed spec fn spec_new(secs: u64, nanos: u32) -> Duration {
        Duration {
            secs: (secs + nanos / NANOS_PER_SEC) as u64,
            nanos: nanos % NANOS_PER_SEC,
        }
    }

    /// Whether the seconds carried over from `nanos` fit beside `secs`.
    pub open spec fn fits(secs: u64, nanos: u32) -> bool {
        secs + nanos / NANOS_PER_SEC <= u64::MAX
    }

    /// The span of `nanos` nanoseconds.
    pub closed spec fn spec_from_nanos(nanos: u64) -> Duration {
        Duration {
            secs: nanos / (NANOS_PER_SEC as u64),
            nanos: (nanos % (NANOS_PER_SEC as u64)) as u32,
        }
    }

    /// The length of the span of `secs` seconds and `nanos` nanoseconds.
    pub proof fn lemma_new_view(secs: u64, nanos: u32)
        requires
            Duration::fits(secs, nanos),
        ensures
            Duration::spec_new(secs, nanos)@ == secs * NANOS_PER_SEC + nanos,
    {
        let d = Duration::spec_new(secs, nanos);
        let carry = nanos / NANOS_PER_SEC;
        let rest = nanos % NANOS_PER_SEC;
        assert(d@ == secs * NANOS_PER_SEC + nanos) by (nonlinear_arith)
            requires
                d@ == ((secs + carry) as nat) * (NANOS_PER_SEC as nat) + (rest as nat),
                carry == nanos / NANOS_PER_SEC,
                rest == nanos % NANOS_PER_SEC,
                NANOS_PER_SEC == 1_000_000_000,
        ;
    }

    /// The length of the span of `nanos` nanoseconds.
    pub proof fn lemma_from_nanos_view(nanos: u64)
        ensures
            Duration::spec_from_nanos(nanos)@ == nanos,
    {
        let d = Duration::spec_from_nanos(nanos);
        let per = NANOS_PER_SEC as u64;
        assert(d@ == nanos) by (nonlinear_arith)
            requires
                d@ == ((nanos / per) as nat) * (NANOS_PER_SEC as nat) + ((nanos % per) as nat),
                per == 1_000_000_000,
                NANOS_PER_SEC == 1_000_000_000,
        ;
    }

    /// The span of `secs` seconds and `nanos` nanoseconds. Nanoseconds from
    /// one second on carry over into the seconds.
    pub fn new(secs: u64, nanos: u32) -> (d: Duration)
        requires
            Duration::fits(secs, nanos),
        ensures
            d == Duration::spec_new(secs, nanos),
            d@ == secs * NANOS_PER_SEC + nanos,
    {
        let carry: u64 = (nanos / NANOS_PER_SEC) as u64;
        let rest: u32 = nanos % NANOS_PER_SEC;
        proof {
            Duration::lemma_new_view(secs, nanos);
        }
        Duration { secs: secs + carry, nanos: rest }
    }

    /// As [`Duration::new`], or `None` when the seconds carried over from
    /// `nanos` do not fit beside `secs`.
    pub fn checked_new(secs: u64, nanos: u32) -> (r: Option<Duration>)
        ensures
            match r {
                Some(d) => {
                    &&& Duration::fits(secs, nanos)
                    &&& d == Duration::spec_new(secs, nanos)
                    &&& d@ == secs * NANOS_PER_SEC + nanos
                },
                None => !Duration::fits(secs, nanos),
            },
    {
        let carry: u64 = (nanos / NANOS_PER_SEC) as u64;
        if secs > u64::MAX - carry {
            None
        } else {
            Some(Duration::new(secs, nanos))
        }
    }

    /// The span of `secs` whole seconds.
    pub fn from_secs(secs: u64) -> (d: Duration)
        ensures
            d@ == secs * NANOS_PER_SEC,
    {
        Duration { secs, nanos: 0 }
    }

    /// The span of `nanos` nanoseconds.
    pub fn from_nanos(nanos: u64) -> (d: Duration)
        ensures
            d == Duration::spec_from_nanos(nanos),
            d@ == nanos,
    {
        let per: u64 = NANOS_PER_SEC as u64;
        proof {
            Duration::lemma_from_nanos_view(nanos);
        }
        Duration { secs: nanos / per, nanos: (nanos % per) as u32 }
    }

    /// The whole seconds in the span.
    pub fn as_secs(&self) -> (s: u64)
        ensures
            s == self@ / (NANOS_PER_SEC as nat),
    {
        proof {
            use_type_invariant(self);
            assert(self@ / (NANOS_PER_SEC as nat) == self.secs) by (nonlinear_arith)
                requires
                    self@ == (self.secs as nat) * (NANOS_PER_SEC as nat) + (self.nanos as nat),
                    self.nanos < NANOS_PER_SEC,
                    NANOS_PER_SEC == 1_000_000_000,
            ;
        }
        self.secs
    }

    /// The part of the span below one second, in nanoseconds.
    pub fn subsec_nanos(&self) -> (n: u32)
        ensures
            n == self@ % (NANOS_PER_SEC as nat),
            n < NANOS_PER_SEC,
    {
        proof {
            use_type_invariant(self);
            assert(self@ % (NANOS_PER_SEC as nat) == self.nanos) by (nonlinear_arith)
                requires
                    self@ == (self.secs as nat) * (NANOS_PER_SEC as nat) + (self.nanos as nat),
                    self.nanos < NANOS_PER_SEC,
                    NANOS_PER_SEC == 1_000_000_000,
            ;
        }
        self.nanos
    }

    /// The whole span in nanoseconds.
    pub fn as_nanos(&self) -> (n: u128)
        ensures
            n == self@,
    {
        proof {
            use_type_invariant(self);
            assert((self.secs as nat) * (NANOS_PER_SEC as nat) <= 0xffff_ffff_ffff_ffff
                * 1_000_000_000) by (nonlinear_arith)
                requires
                    self.secs <= 0xffff_ffff_ffff_ffff,
                    NANOS_PER_SEC == 1_000_000_000,
            ;
        }
        (self.secs as u128) * (NANOS_PER_SEC as u128) + (self.nanos as u128)
    }

    /// Whether the span is empty.
    pub fn is_zero(&self) -> (b: bool)
        ensures
            b == (self@ == 0),
    {
        proof {
            assert(self.secs > 0 ==> (self.secs as nat) * (NANOS_PER_SEC as nat) > 0)
                by (nonlinear_arith)
                requires
                    NANOS_PER_SEC == 1_000_000_000,
            ;
        }
        self.secs == 0 && self.nanos == 0
    }

    /// The length of the longest span that the type holds, in nanoseconds.
    pub open spec fn spec_longest() -> nat {
        (u64::MAX as nat) * (NANOS_PER_SEC as nat) + (NANOS_PER_SEC - 1) as nat
    }

    /// Whether this span is strictly longer than `other`. No span is longer
    /// than the longest.
    pub fn exceeds(&self, other: &Duration) -> (b: bool)
        ensures
            b == (self@ > other@),
            b ==> other@ < Duration::spec_longest(),
    {
        proof {
            use_type_invariant(self);
            use_type_invariant(other);
            assert(self@ <= Duration::spec_longest()) by (nonlinear_arith)
                requires
                    self@ == (self.secs as nat) * (NANOS_PER_SEC as nat) + (self.nanos as nat),
                    self.secs <= u64::MAX,
                    self.nanos < NANOS_PER_SEC,
                    NANOS_PER_SEC == 1_000_000_000,
                    Duration::spec_longest() == (u64::MAX as nat) * (NANOS_PER_SEC as nat) + (
                    NANOS_PER_SEC - 1) as nat,
            ;
            assert((self.secs > other.secs || (self.secs == other.secs && self.nanos
                > other.nanos)) == (self@ > other@)) by (nonlinear_arith)
                requires
                    self@ == (self.secs as nat) * (NANOS_PER_SEC as nat) + (self.nanos as nat),
                    other@ == (other.secs as nat) * (NANOS_PER_SEC as nat) + (other.nanos as nat),
                    self.nanos < NANOS_PER_SEC,
                    other.nanos < NANOS_PER_SEC,
                    NANOS_PER_SEC == 1_000_000_000,
            ;
        }
        self.secs > other.secs || (self.secs == other.secs && self.nanos > other.nanos)
    }
}

/// A generator of spans of time from a generator of seconds and a generator
/// of nanoseconds.
pub struct DurationGenerator<Seconds, Nanos> {
    seconds: Seconds,
    nanos: Nanos,
}

impl<Seconds, Nanos> DurationGenerator<Seconds, Nanos> {
    /// The generator of the seconds.
    pub closed spec fn seconds_generator(&self) -> Seconds {
        self.seconds
    }

    /// The generator of the nanoseconds.
    pub closed spec fn nanos_generator(&self) -> Nanos {
        self.nanos
    }
}

impl<Seconds, Nanos> DurationGenerator<Seconds, Nanos> where
    Seconds: ValueGenerator<Output = u64>,
    Nanos: ValueGenerator<Output = u32>,
 {
    /// This generator with `seconds` for the seconds.
    pub fn seconds<NewS: ValueGenerator<Output = u64>>(self, seconds: NewS) -> (generator:
        DurationGenerator<NewS, Nanos>)
        ensures
            generator.seconds_generator() == seconds,
            generator.nanos_generator() == self.nanos_generator(),
    {
        DurationGenerator { seconds, nanos: self.nanos }
    }

    /// This generator with what `map` makes of the generator of the seconds
    /// in its place.
    pub fn map_seconds<NewS: ValueGenerator<Output = u64>, F: Fn(Seconds) -> NewS>(
        self,
        map: F,
    ) -> (generator: DurationGenerator<NewS, Nanos>)
        requires
            call_requires(map, (self.seconds_generator(),)),
        ensures
            call_ensures(map, (self.seconds_generator(),), generator.seconds_generator()),
            generator.nanos_generator() == self.nanos_generator(),
    {
        DurationGenerator { seconds: map(self.seconds), nanos: self.nanos }
    }

    /// This generator with `nanos` for the nanoseconds.
    pub fn nanos<NewE: ValueGenerator<Output = u32>>(self, nanos: NewE) -> (generator:
        DurationGenerator<Seconds, NewE>)
        ensures
            generator.seconds_generator() == self.seconds_generator(),
            generator.nanos_generator() == nanos,
    {
        DurationGenerator { seconds: self.seconds, nanos }
    }

    /// This generator with what `map` makes of the generator of the
    /// nanoseconds in its place.
    pub fn map_nanos<NewE: ValueGenerator<Output = u32>, F: Fn(Nanos) -> NewE>(
        self,
        map: F,
    ) -> (generator: DurationGenerator<Seconds, NewE>)
        requires
            call_requires(map, (self.nanos_generator(),)),
        ensures
            generator.seconds_generator() == self.seconds_generator(),
            call_ensures(map, (self.nanos_generator(),), generator.nanos_generator()),
    {
        DurationGenerator { seconds: self.seconds, nanos: map(self.nanos) }
    }
}

impl<Seconds, Nanos> ValueGenerator for DurationGenerator<Seconds, Nanos> where
    Seconds: ValueGenerator<Output = u64>,
    Nanos: ValueGenerator<Output = u32>,
 {
    type Output = Duration;

    /// A span is decoded one level deeper: first the seconds, then the
    /// nanoseconds from what the seconds left. It is rejected where no
    /// level is left, where either part is rejected, and where the seconds
    /// carried over from the nanoseconds do not fit.
    open spec fn parse(&self, tape: Seq<u8>, room: nat) -> Option<(Duration, nat)> {
        if room == 0 {
            None
        } else {
            match self.seconds_generator().parse(tape, (room - 1) as nat) {
                Some((secs, first)) => match self.nanos_generator().parse(
                    tape.skip(first as int),
                    (room - 1) as nat,
                ) {
                    Some((nanos, second)) => if Duration::fits(secs, nanos) {
                        Some((Duration::spec_new(secs, nanos), first + second))
                    } else {
                        None
                    },
                    None => None,
                },
                None => None,
            }
        }
    }

    open spec fn produces(&self, value: Duration) -> bool {
        exists|secs: u64, nanos: u32|
            #![trigger Duration::spec_new(secs, nanos)]
            {
                &&& self.seconds_generator().produces(secs)
                &&& self.nanos_generator().produces(nanos)
                &&& Duration::fits(secs, nanos)
                &&& value == Duration::spec_new(secs, nanos)
            }
    }

    fn generate<D: Driver>(&self, driver: &mut D) -> (r: Option<Duration>) {
        if driver.enter_product().is_none() {
            return None;
        }
        let ghost inside = driver@;
        let seconds = self.seconds.generate(driver);
        let ghost between = driver@;
        let nanos = self.nanos.generate(driver);
        driver.leave();
        proof {
            match (inside.entropy, between.entropy) {
                (Entropy::Fixed(tape), Entropy::Fixed(rest)) => {
                    if seconds is Some && nanos is Some {
                        let first = self.seconds.parse(tape, inside.room())->Some_0.1;
                        let second = self.nanos.parse(rest, between.room())->Some_0.1;
                        assert(tape.skip(first as int).skip(second as int) == tape.skip(
                            (first + second) as int,
                        ));
                    }
                },
                _ => {},
            }
        }
        match (seconds, nanos) {
            (Some(secs), Some(nanos)) => Duration::checked_new(secs, nanos),
            _ => None,
        }
    }

    /// A mutation that is rejected leaves the span as it was: it is written
    /// only once both of its parts are decoded.
    fn mutate<D: Driver>(&self, driver: &mut D, value: &mut Duration) -> (r: Option<()>)
        ensures
            r is None ==> *final(value) == *old(value),
    {
        if driver.enter_product().is_none() {
            return None;
        }
        let ghost inside = driver@;
        let mut secs = value.as_secs();
        if self.seconds.mutate(driver, &mut secs).is_none() {
            driver.leave();
            return None;
        }
        let ghost between = driver@;
        let mut nanos = value.subsec_nanos();
        if self.nanos.mutate(driver, &mut nanos).is_none() {
            driver.leave();
            return None;
        }
        driver.leave();
        proof {
            match (inside.entropy, between.entropy) {
                (Entropy::Fixed(tape), Entropy::Fixed(rest)) => {
                    let first = self.seconds.parse(tape, inside.room())->Some_0.1;
                    let second = self.nanos.parse(rest, between.room())->Some_0.1;
                    assert(tape.skip(first as int).skip(second as int) == tape.skip(
                        (first + second) as int,
                    ));
                },
                _ => {},
            }
        }
        match Duration::checked_new(secs, nanos) {
            Some(next) => {
                *value = next;
                Some(())
            },
            None => None,
        }
    }
}

/// The nanoseconds that a span can hold below one second.
pub open spec fn spec_valid_nanos() -> Range<u32> {
    Range { start: 0, end: NANOS_PER_SEC }
}

impl TypeGeneratorWithParams for Duration {
    type Output = DurationGenerator<TypeValueGenerator<u64>, Range<u32>>;

    /// Any number of seconds, and nanoseconds below one second.
    fn gen_with() -> (generator: Self::Output)
        ensures
            forall|tape: Seq<u8>, room: nat| #[trigger]
                generator.seconds_generator().parse(tape, room) == u64::parse_type(tape, room),
            generator.nanos_generator() == spec_valid_nanos(),
    {
        DurationGenerator { seconds: produce::<u64>(), nanos: 0..NANOS_PER_SEC }
    }
}

impl TypeGenerator for Duration {
    /// A span is decoded one level deeper: eight bytes of seconds, then four
    /// bytes of nanoseconds, brought below one second.
    open spec fn parse_type(tape: Seq<u8>, room: nat) -> Option<(Duration, nat)> {
        if room == 0 {
            None
        } else {
            match u64::parse_type(tape, (room - 1) as nat) {
                Some((secs, first)) => match spec_valid_nanos().parse(
                    tape.skip(first as int),
                    (room - 1) as nat,
                ) {
                    Some((nanos, second)) => if Duration::fits(secs, nanos) {
                        Some((Duration::spec_new(secs, nanos), first + second))
                    } else {
                        None
                    },
                    None => None,
                },
                None => None,
            }
        }
    }

    fn generate<D: Driver>(driver: &mut D) -> (r: Option<Duration>) {
        Self::gen_with().generate(driver)
    }

    /// A mutation that is rejected leaves the span as it was.
    fn mutate<D: Driver>(&mut self, driver: &mut D) -> (r: Option<()>)
        ensures
            r is None ==> *final(self) == *old(self),
    {
        Self::gen_with().mutate(driver, self)
    }
}

/// `bound` with its span in nanoseconds.
pub open spec fn spec_in_nanos(bound: Bound<Duration>) -> Bound<u128> {
    match bound {
        Bound::Included(span) => Bound::Included(span@ as u128),
        Bound::Excluded(span) => Bound::Excluded(span@ as u128),
        Bound::Unbounded => Bound::Unbounded,
    }
}

/// `bound` with its span in nanoseconds.
pub fn in_nanos(bound: Bound<Duration>) -> (nanos: Bound<u128>)
    ensures
        nanos == spec_in_nanos(bound),
{
    match bound {
        Bound::Included(span) => Bound::Included(span.as_nanos()),
        Bound::Excluded(span) => Bound::Excluded(span.as_nanos()),
        Bound::Unbounded => Bound::Unbounded,
    }
}

impl BoundedValue for Duration {
    open spec fn within(value: Duration, min: Bound<Duration>, max: Bound<Duration>) -> bool {
        u128::within(value@ as u128, spec_in_nanos(min), spec_in_nanos(max))
    }

    /// A span in a range is decoded as its nanoseconds, a `u128` in the
    /// range. It is rejected where the nanoseconds pass what a `u64` holds.
    open spec fn parse_bounded(tape: Seq<u8>, min: Bound<Duration>, max: Bound<Duration>) -> Option<
        (Duration, nat),
    > {
        match u128::parse_bounded(tape, spec_in_nanos(min), spec_in_nanos(max)) {
            Some((nanos, taken)) => if nanos <= u64::MAX {
                Some((Duration::spec_from_nanos(nanos as u64), taken))
            } else {
                None
            },
            None => None,
        }
    }

    /// Whatever the driver, a span that is decoded holds no more
    /// nanoseconds than a `u64` does.
    fn gen_bounded<D: Driver>(driver: &mut D, min: Bound<Duration>, max: Bound<Duration>) -> (r:
        Option<Duration>)
        ensures
            r matches Some(span) ==> span@ <= u64::MAX,
    {
        let min = in_nanos(min);
        let max = in_nanos(max);
        let value = match u128::gen_bounded(driver, min, max) {
            Some(value) => value,
            None => {
                return None;
            },
        };
        if value > u64::MAX as u128 {
            return None;
        }
        Some(Duration::from_nanos(value as u64))
    }
}

} // verus!
