//! The driver that draws its bytes from a random number generator.

use super::entropy::{DriverView, Entropy};
use super::Driver;
use crate::options::Options;
use rand::rngs::StdRng;
use rand::SeedableRng;
use vstd::prelude::*;

verus! {

/// `rand::rngs::StdRng`, the generator that the bytes are drawn from.
#[verifier::external_type_specification]
#[verifier::external_body]
pub struct ExStdRng(rand::rngs::StdRng);

/// `SeedableRng::seed_from_u64` on `StdRng`: a generator made from `seed`.
/// Nothing is claimed of what it will give.
#[verifier::external_body]
fn seeded_generator(seed: u64) -> StdRng {
    StdRng::seed_from_u64(seed)
}

/// `Rng::random` on `StdRng`, for one byte. Nothing is claimed of the byte.
#[verifier::external_body]
fn random_byte(rng: &mut StdRng) -> u8 {
    rand::Rng::random::<u8>(rng)
}

/// A driver over a random number generator. It hands out as many bytes as
/// the cap on the length admits, and nothing is known of them beforehand.
pub struct Rng {
    rng: StdRng,
    budget: usize,
    depth: usize,
    max_depth: usize,
}

impl View for Rng {
    type V = DriverView;

    closed spec fn view(&self) -> DriverView {
        DriverView {
            entropy: Entropy::Random(self.budget as nat),
            depth: self.depth as nat,
            max_depth: self.max_depth as nat,
        }
    }
}

/// The view of a random driver that has just been made under `options`.
pub open spec fn fresh_random(options: Options) -> DriverView {
    DriverView {
        entropy: Entropy::Random(options.spec_max_len() as nat),
        depth: 0,
        max_depth: options.spec_max_depth() as nat,
    }
}

impl Rng {
    /// A driver that draws from `rng`.
    pub fn new(rng: StdRng, options: &Options) -> (driver: Rng)
        ensures
            driver@ == fresh_random(*options),
    {
        Rng {
            rng,
            budget: options.max_len_or_default(),
            depth: 0,
            max_depth: options.max_depth_or_default(),
        }
    }

    /// A driver that draws from a generator made from `seed`.
    pub fn from_seed(seed: u64, options: &Options) -> (driver: Rng)
        ensures
            driver@ == fresh_random(*options),
    {
        Rng::new(seeded_generator(seed), options)
    }
}

impl Driver for Rng {
    fn remaining(&self) -> (count: usize) {
        self.budget
    }

    fn next_byte(&mut self) -> (byte: u8) {
        self.budget = self.budget - 1;
        random_byte(&mut self.rng)
    }

    fn depth(&self) -> (depth: usize) {
        self.depth
    }

    fn max_depth(&self) -> (max_depth: usize) {
        self.max_depth
    }

    fn set_depth(&mut self, depth: usize) {
        self.depth = depth;
    }
}

} // verus!
