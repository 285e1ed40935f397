//! The test that a run executes, seen from the engine's side.

use crate::fault::{Faults, PanicError};
use crate::generator::{spec_generate, ValueGenerator};
use crate::input::ShrinkInput;
use crate::options::Options;
use vstd::prelude::*;
use vstd::slice::slice_to_vec;

verus! {

/// Identifies the random source of a generated input, for reports.
pub type Seed = u128;

/// The smallest failing case that a run found.
pub struct Failure<V> {
    /// The seed that the input came from, where it was drawn at random.
    pub seed: Option<Seed>,
    /// The fault that the test ended with.
    pub error: PanicError,
    /// The value that the test failed on.
    pub input: V,
}

/// A test over byte inputs.
///
/// The spec functions describe a test to the verifier. Each has a body that
/// claims nothing, so a test written without a proof is described
/// truthfully; a test that says more about itself has to prove it.
pub trait Test: Sized {
    /// What the test decodes from its input.
    type Value;

    /// Whether the test may be executed.
    open spec fn ready(&self) -> bool {
        true
    }

    /// Whether an execution on `bytes` under `options`, with faults treated
    /// as `faults` says, can return `result`.
    open spec fn answers(
        &self,
        bytes: Seq<u8>,
        options: Options,
        faults: Faults,
        result: Result<bool, PanicError>,
    ) -> bool {
        true
    }

    /// Whether an execution on `bytes` under `options`, with faults treated
    /// as `faults` says, can end failed (`failed`) or not failed
    /// (`!failed`): whether it can return a result of that kind.
    open spec fn admits(
        &self,
        bytes: Seq<u8>,
        options: Options,
        faults: Faults,
        failed: bool,
    ) -> bool {
        exists|result: Result<bool, PanicError>| #[trigger]
            self.answers(bytes, options, faults, result) && (result is Err) == failed
    }

    /// Whether `value` can be what the test decodes from `bytes` under
    /// `options`; `None` stands for bytes from which it decodes nothing.
    open spec fn yields(
        &self,
        bytes: Seq<u8>,
        options: Options,
        value: Option<Self::Value>,
    ) -> bool {
        true
    }

    /// Executes the test once. `Ok(true)` is a run that counts, `Ok(false)`
    /// an input that the test rejected, `Err` a failure.
    fn test(&mut self, input: &ShrinkInput<'_>, faults: &Faults) -> (r: Result<bool, PanicError>)
        requires
            old(self).ready(),
        ensures
            final(self).ready(),
            old(self).answers(input@, *input.options(), *faults, r),
            old(self).admits(input@, *input.options(), *faults, r is Err),
            forall|
                bytes: Seq<u8>,
                options: Options,
                faults: Faults,
                result: Result<bool, PanicError>,
            |
                #![trigger final(self).answers(bytes, options, faults, result)]
                #![trigger old(self).answers(bytes, options, faults, result)]
                final(self).answers(bytes, options, faults, result) == old(self).answers(
                    bytes,
                    options,
                    faults,
                    result,
                ),
            forall|bytes: Seq<u8>, options: Options, faults: Faults, failed: bool|
                #![trigger final(self).admits(bytes, options, faults, failed)]
                #![trigger old(self).admits(bytes, options, faults, failed)]
                final(self).admits(bytes, options, faults, failed) == old(self).admits(
                    bytes,
                    options,
                    faults,
                    failed,
                ),
            forall|bytes: Seq<u8>, options: Options, value: Option<Self::Value>|
                #![trigger final(self).yields(bytes, options, value)]
                #![trigger old(self).yields(bytes, options, value)]
                final(self).yields(bytes, options, value) == old(self).yields(
                    bytes,
                    options,
                    value,
                ),
    ;

    /// Decodes the value that the test would run on, without running it.
    /// `None` where nothing can be decoded from the input.
    fn generate_value(&self, input: &ShrinkInput<'_>) -> (v: Option<Self::Value>)
        requires
            self.ready(),
        ensures
            self.yields(input@, *input.options(), v),
    ;
}

/// What a check says of one case: `Ok(true)` for a case that counts,
/// `Ok(false)` for one that it rejects, `Err` for a failure.
pub type Verdict = Result<bool, PanicError>;

/// A test that decodes a value with a generator and hands it to a check.
pub struct GeneratorTest<G, F> {
    generator: G,
    check: F,
}

impl<G: ValueGenerator, F: Fn(&G::Output) -> Verdict> GeneratorTest<G, F> {
    /// The generator that the values are decoded with.
    pub closed spec fn generator(&self) -> G {
        self.generator
    }

    /// The check that the values are handed to.
    pub closed spec fn check(&self) -> F {
        self.check
    }

    /// The test that decodes with `generator` and hands the value to
    /// `check`.
    pub fn new(generator: G, check: F) -> (test: Self)
        ensures
            test.generator() == generator,
            test.check() == check,
    {
        GeneratorTest { generator, check }
    }
}

impl<G: ValueGenerator, F: Fn(&G::Output) -> Verdict> Test for GeneratorTest<G, F> {
    type Value = G::Output;

    /// The check takes every value.
    open spec fn ready(&self) -> bool {
        forall|value: &G::Output| call_requires(self.check(), (value,))
    }

    /// Bytes that the generator rejects are rejected; on the others the
    /// check decides.
    open spec fn answers(
        &self,
        bytes: Seq<u8>,
        options: Options,
        faults: Faults,
        result: Verdict,
    ) -> bool {
        match spec_generate(&self.generator(), bytes, options) {
            Some(value) => call_ensures(self.check(), (&value,), result),
            None => result == Ok::<bool, PanicError>(false),
        }
    }

    open spec fn yields(&self, bytes: Seq<u8>, options: Options, value: Option<G::Output>) -> bool {
        value == spec_generate(&self.generator(), bytes, options)
    }

    fn test(&mut self, input: &ShrinkInput<'_>, faults: &Faults) -> (r: Verdict) {
        let mut driver = input.driver();
        match self.generator.generate(&mut driver) {
            Some(value) => {
                assert(call_requires(self.check(), (&value,)));
                let verdict = (self.check)(&value);
                assert(call_ensures(self.check(), (&value,), verdict));
                verdict
            },
            None => Ok(false),
        }
    }

    fn generate_value(&self, input: &ShrinkInput<'_>) -> (v: Option<G::Output>) {
        let mut driver = input.driver();
        self.generator.generate(&mut driver)
    }
}

/// Bytes that the generator rejects are not a failure: the test rejects
/// them, it cannot fail on them, and nothing is decoded from them.
pub proof fn lemma_reject_is_no_failure<G: ValueGenerator, F: Fn(&G::Output) -> Verdict>(
    test: &GeneratorTest<G, F>,
    bytes: Seq<u8>,
    options: Options,
    faults: Faults,
)
    requires
        spec_generate(&test.generator(), bytes, options) is None,
    ensures
        forall|result: Verdict| #[trigger]
            test.answers(bytes, options, faults, result) <==> result == Ok::<bool, PanicError>(
                false,
            ),
        !test.admits(bytes, options, faults, true),
        test.admits(bytes, options, faults, false),
        test.yields(bytes, options, None),
{
    assert(test.answers(bytes, options, faults, Ok(false)));
}

/// A test that hands the bytes themselves to a check.
pub struct SliceTest<F> {
    check: F,
}

impl<F: Fn(&[u8]) -> Verdict> SliceTest<F> {
    /// The check that the bytes are handed to.
    pub closed spec fn check(&self) -> F {
        self.check
    }

    /// The test that hands the bytes to `check`.
    pub fn new(check: F) -> (test: Self)
        ensures
            test.check() == check,
    {
        SliceTest { check }
    }
}

impl<F: Fn(&[u8]) -> Verdict> Test for SliceTest<F> {
    type Value = Vec<u8>;

    /// The check takes every slice.
    open spec fn ready(&self) -> bool {
        forall|bytes: &[u8]| call_requires(self.check(), (bytes,))
    }

    /// The check decides.
    open spec fn answers(
        &self,
        bytes: Seq<u8>,
        options: Options,
        faults: Faults,
        result: Verdict,
    ) -> bool {
        exists|slice: &[u8]| #[trigger]
            call_ensures(self.check(), (slice,), result) && slice@ == bytes
    }

    open spec fn yields(&self, bytes: Seq<u8>, options: Options, value: Option<Vec<u8>>) -> bool {
        value matches Some(copy) && copy@ == bytes
    }

    fn test(&mut self, input: &ShrinkInput<'_>, faults: &Faults) -> (r: Verdict) {
        let bytes = input.slice();
        assert(call_requires(self.check(), (bytes,)));
        let verdict = (self.check)(bytes);
        assert(call_ensures(self.check(), (bytes,), verdict));
        verdict
    }

    fn generate_value(&self, input: &ShrinkInput<'_>) -> (v: Option<Vec<u8>>) {
        Some(slice_to_vec(input.slice()))
    }
}

} // verus!
