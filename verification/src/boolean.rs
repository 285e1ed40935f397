//! Generators of booleans.

use crate::driver::{parse_bool, Driver, Entropy, EVEN_ODDS};
use crate::generator::{TypeGenerator, TypeGeneratorWithParams, ValueGenerator};
use vstd::prelude::*;

verus! {

/// The share of 256 that stands for certainty.
pub const CERTAIN: u16 = 256;

/// A generator of booleans that are true with a given weight. The weight is
/// a share of 256: 0 gives `false` always, 256 gives `true` always.
#[derive(Debug)]
pub struct BooleanGenerator {
    weight: u16,
}

impl BooleanGenerator {
    #[verifier::type_invariant]
    spec fn in_range(self) -> bool {
        self.weight <= CERTAIN
    }

    /// The share of 256 in which the generated boolean is true.
    pub closed spec fn odds(&self) -> nat {
        self.weight as nat
    }

    /// This generator with the weight set to `weight`.
    pub fn weight(self, weight: u16) -> (generator: BooleanGenerator)
        requires
            weight <= CERTAIN,
        ensures
            generator.odds() == weight,
    {
        BooleanGenerator { weight }
    }
}

impl Default for BooleanGenerator {
    /// The generator with even odds.
    fn default() -> (generator: BooleanGenerator)
        ensures
            generator.odds() == EVEN_ODDS,
    {
        BooleanGenerator { weight: EVEN_ODDS }
    }
}

/// A boolean generates itself and takes no bytes.
impl ValueGenerator for bool {
    type Output = bool;

    open spec fn parse(&self, tape: Seq<u8>, room: nat) -> Option<(bool, nat)> {
        Some((*self, 0))
    }

    open spec fn produces(&self, value: bool) -> bool {
        value == *self
    }

    fn generate<D: Driver>(&self, driver: &mut D) -> (r: Option<bool>) {
        proof {
            match driver@.entropy {
                Entropy::Fixed(tape) => {
                    assert(tape.skip(0) == tape);
                },
                Entropy::Random(_) => {},
            }
        }
        Some(*self)
    }
}

impl TypeGeneratorWithParams for bool {
    type Output = BooleanGenerator;

    /// The generator with even odds.
    fn gen_with() -> (generator: BooleanGenerator)
        ensures
            generator.odds() == EVEN_ODDS,
    {
        BooleanGenerator::default()
    }
}

impl ValueGenerator for BooleanGenerator {
    type Output = bool;

    /// A boolean is decoded from one byte: it is true where the byte and
    /// the weight together pass 255.
    open spec fn parse(&self, tape: Seq<u8>, room: nat) -> Option<(bool, nat)> {
        parse_bool(tape, self.odds())
    }

    open spec fn produces(&self, value: bool) -> bool {
        &&& self.odds() == 0 ==> !value
        &&& self.odds() == 256 ==> value
    }

    fn generate<D: Driver>(&self, driver: &mut D) -> (r: Option<bool>) {
        proof {
            use_type_invariant(self);
        }
        driver.gen_bool(Some(self.weight))
    }
}

impl TypeGenerator for bool {
    /// A boolean is decoded from one byte: it is true where the byte is 128
    /// or more.
    open spec fn parse_type(tape: Seq<u8>, room: nat) -> Option<(bool, nat)> {
        parse_bool(tape, EVEN_ODDS as nat)
    }

    fn generate<D: Driver>(driver: &mut D) -> (r: Option<bool>) {
        driver.gen_bool(None)
    }
}

} // verus!
