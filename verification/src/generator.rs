//! Generators: how values of a type are decoded from a driver, and how an
//! existing value is overwritten from one.

use crate::driver::bytes::capped;
use crate::driver::{Bound, ByteSliceDriver, Driver, Entropy};
use crate::options::Options;
use core::marker::PhantomData;
use vstd::prelude::*;

verus! {

/// A way of decoding values.
///
/// `parse` says what is decoded from fixed entropy, and `produces` which
/// values can come out of any entropy. `mutate` decodes as `generate` does,
/// into a value that exists: on the bytes that a value was generated from,
/// it leaves that value as it is.
pub trait ValueGenerator: Sized {
    /// The type of the values.
    type Output;

    /// What is decoded from the fixed entropy `tape` while generators may
    /// nest `room` levels deeper: the value and the number of bytes taken,
    /// or `None` where the generator rejects.
    spec fn parse(&self, tape: Seq<u8>, room: nat) -> Option<(Self::Output, nat)>;

    /// Whether `value` can come out of this generator.
    spec fn produces(&self, value: Self::Output) -> bool;

    /// Decodes a value from `driver`, or rejects with `None`.
    fn generate<D: Driver>(&self, driver: &mut D) -> (r: Option<Self::Output>)
        ensures
            final(driver)@.follows(old(driver)@),
            r matches Some(value) ==> self.produces(value),
            old(driver)@.entropy matches Entropy::Fixed(tape) ==> match self.parse(
                tape,
                old(driver)@.room(),
            ) {
                Some((value, taken)) => {
                    &&& r == Some(value)
                    &&& taken <= tape.len()
                    &&& final(driver)@.entropy == Entropy::Fixed(tape.skip(taken as int))
                },
                None => r is None,
            },
    ;

    /// Decodes a value from `driver` into `value`, or rejects with `None`;
    /// `value` may then be overwritten in part.
    fn mutate<D: Driver>(&self, driver: &mut D, value: &mut Self::Output) -> (r: Option<()>)
        ensures
            final(driver)@.follows(old(driver)@),
            r is Some ==> self.produces(*final(value)),
            old(driver)@.entropy matches Entropy::Fixed(tape) ==> match self.parse(
                tape,
                old(driver)@.room(),
            ) {
                Some((decoded, taken)) => {
                    &&& r is Some
                    &&& *final(value) == decoded
                    &&& taken <= tape.len()
                    &&& final(driver)@.entropy == Entropy::Fixed(tape.skip(taken as int))
                },
                None => r is None,
            },
    {
        match self.generate(driver) {
            Some(next) => {
                *value = next;
                Some(())
            },
            None => None,
        }
    }
}

/// A type with a way of decoding its values that needs no parameters.
pub trait TypeGenerator: Sized {
    /// What is decoded from the fixed entropy `tape` while generators may
    /// nest `room` levels deeper: the value and the number of bytes taken,
    /// or `None` where the bytes are rejected.
    spec fn parse_type(tape: Seq<u8>, room: nat) -> Option<(Self, nat)>;

    /// Decodes a value from `driver`, or rejects with `None`.
    fn generate<D: Driver>(driver: &mut D) -> (r: Option<Self>)
        ensures
            final(driver)@.follows(old(driver)@),
            old(driver)@.entropy matches Entropy::Fixed(tape) ==> match Self::parse_type(
                tape,
                old(driver)@.room(),
            ) {
                Some((value, taken)) => {
                    &&& r == Some(value)
                    &&& taken <= tape.len()
                    &&& final(driver)@.entropy == Entropy::Fixed(tape.skip(taken as int))
                },
                None => r is None,
            },
    ;

    /// Decodes a value from `driver` into `self`, or rejects with `None`;
    /// `self` may then be overwritten in part.
    fn mutate<D: Driver>(&mut self, driver: &mut D) -> (r: Option<()>)
        ensures
            final(driver)@.follows(old(driver)@),
            old(driver)@.entropy matches Entropy::Fixed(tape) ==> match Self::parse_type(
                tape,
                old(driver)@.room(),
            ) {
                Some((decoded, taken)) => {
                    &&& r is Some
                    &&& *final(self) == decoded
                    &&& taken <= tape.len()
                    &&& final(driver)@.entropy == Entropy::Fixed(tape.skip(taken as int))
                },
                None => r is None,
            },
    {
        match Self::generate(driver) {
            Some(next) => {
                *self = next;
                Some(())
            },
            None => None,
        }
    }
}

/// A type whose generator takes parameters.
pub trait TypeGeneratorWithParams {
    /// The generator, with the parameters at their defaults.
    type Output: ValueGenerator;

    /// The generator with its parameters at their defaults.
    fn gen_with() -> Self::Output;
}

/// A type whose values can be decoded within a range.
pub trait BoundedValue: Sized {
    /// Whether `value` lies in the range from `min` to `max`.
    spec fn within(value: Self, min: Bound<Self>, max: Bound<Self>) -> bool;

    /// What is decoded from the fixed entropy `tape` for the range from
    /// `min` to `max`: the value and the number of bytes taken, or `None`
    /// where the range is empty or the bytes do not suffice.
    spec fn parse_bounded(tape: Seq<u8>, min: Bound<Self>, max: Bound<Self>) -> Option<(Self, nat)>;

    /// Decodes a value in the range from `min` to `max` from `driver`, or
    /// rejects with `None`.
    fn gen_bounded<D: Driver>(driver: &mut D, min: Bound<Self>, max: Bound<Self>) -> (r: Option<
        Self,
    >)
        ensures
            final(driver)@.follows(old(driver)@),
            r matches Some(value) ==> Self::within(value, min, max),
            old(driver)@.entropy matches Entropy::Fixed(tape) ==> match Self::parse_bounded(
                tape,
                min,
                max,
            ) {
                Some((value, taken)) => {
                    &&& r == Some(value)
                    &&& taken <= tape.len()
                    &&& final(driver)@.entropy == Entropy::Fixed(tape.skip(taken as int))
                },
                None => r is None,
            },
    ;
}

/// The generator of a type that needs no parameters.
pub struct TypeValueGenerator<T>(PhantomData<T>);

impl<T: TypeGenerator> ValueGenerator for TypeValueGenerator<T> {
    type Output = T;

    open spec fn parse(&self, tape: Seq<u8>, room: nat) -> Option<(T, nat)> {
        T::parse_type(tape, room)
    }

    open spec fn produces(&self, value: T) -> bool {
        true
    }

    fn generate<D: Driver>(&self, driver: &mut D) -> (r: Option<T>) {
        T::generate(driver)
    }

    fn mutate<D: Driver>(&self, driver: &mut D, value: &mut T) -> (r: Option<()>) {
        value.mutate(driver)
    }
}

/// The generator of `T`.
pub fn produce<T: TypeGenerator>() -> (g: TypeValueGenerator<T>)
    ensures
        forall|tape: Seq<u8>, room: nat|
            #[trigger] g.parse(tape, room) == T::parse_type(tape, room),
{
    TypeValueGenerator(PhantomData)
}

/// What `generator` decodes from `input` under `options`: what it parses
/// from the bytes that the cap on the length admits, with all the levels of
/// nesting that the settings allow.
pub open spec fn spec_generate<G: ValueGenerator>(
    generator: &G,
    input: Seq<u8>,
    options: Options,
) -> Option<G::Output> {
    match generator.parse(capped(input, options), options.spec_max_depth() as nat) {
        Some((value, _)) => Some(value),
        None => None,
    }
}

/// Decodes a value from `input` under `options`, or rejects with `None`.
pub fn generate_from<G: ValueGenerator>(generator: &G, input: &[u8], options: &Options) -> (r:
    Option<G::Output>)
    ensures
        r == spec_generate(generator, input@, *options),
        r matches Some(value) ==> generator.produces(value),
{
    let mut driver = ByteSliceDriver::new(input, options);
    generator.generate(&mut driver)
}

/// What mutating a value on `input` under `options` came to: where
/// `generator` decodes a value from `input`, that value is what is left
/// (`after`); where it rejects, the mutation was rejected.
pub open spec fn mutated<G: ValueGenerator>(
    generator: &G,
    input: Seq<u8>,
    options: Options,
    r: Option<()>,
    after: G::Output,
) -> bool {
    match spec_generate(generator, input, options) {
        Some(decoded) => r is Some && after == decoded,
        None => r is None,
    }
}

/// Decodes a value from `input` under `options` into `value`, or rejects
/// with `None`; `value` may then be overwritten in part.
pub fn mutate_from<G: ValueGenerator>(
    generator: &G,
    input: &[u8],
    options: &Options,
    value: &mut G::Output,
) -> (r: Option<()>)
    ensures
        mutated(generator, input@, *options, r, *final(value)),
        r is Some ==> generator.produces(*final(value)),
{
    let mut driver = ByteSliceDriver::new(input, options);
    generator.mutate(&mut driver, value)
}

/// Decodes a value from `input` and mutates it on `input` again. What is
/// returned is the value as the mutation left it, which is the value as
/// it was generated.
pub fn replay<G: ValueGenerator>(generator: &G, input: &[u8], options: &Options) -> (r: Option<
    G::Output,
>)
    ensures
        r == spec_generate(generator, input@, *options),
{
    let mut value = match generate_from(generator, input, options) {
        Some(value) => value,
        None => {
            return None;
        },
    };
    match mutate_from(generator, input, options, &mut value) {
        Some(_) => Some(value),
        None => None,
    }
}

/// To mutate a value on the bytes that it was generated from leaves it as
/// it is: where `generator` decodes `value` from `input`, a mutation of
/// any value on `input` is not rejected and leaves `value`.
pub proof fn lemma_round_trip<G: ValueGenerator>(
    generator: &G,
    input: Seq<u8>,
    options: Options,
    value: G::Output,
    r: Option<()>,
    after: G::Output,
)
    requires
        spec_generate(generator, input, options) == Some(value),
        mutated(generator, input, options, r, after),
    ensures
        r is Some,
        after == value,
{
}

/// The generator rejects exactly where a mutation is rejected.
pub proof fn lemma_mutation_rejects_with_generation<G: ValueGenerator>(
    generator: &G,
    input: Seq<u8>,
    options: Options,
    r: Option<()>,
    after: G::Output,
)
    requires
        mutated(generator, input, options, r, after),
    ensures
        r is None <==> spec_generate(generator, input, options) is None,
{
}

} // verus!
