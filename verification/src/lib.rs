//! Property testing core: byte-driven value generation and input shrinking.
//!
//! A test is run on inputs that are plain bytes. A [`driver::Driver`] hands
//! the bytes out, a [`generator::ValueGenerator`] decodes values from them,
//! and a [`test::Test`] says of each input whether it passes, is rejected or
//! fails. Once an input fails, the [`shrink::Shrinker`] looks for a simpler
//! input that still fails: it works on the bytes alone, keeps a change only
//! where the test was seen to fail on it, and stops when nothing is left to
//! gain or its budget of time is spent.
//!
//! What the library promises is stated in the contracts of its functions and
//! in the proof functions of [`shrink::laws`] and [`generator`].

pub mod boolean;
pub mod clock;
pub mod driver;
pub mod fault;
pub mod generator;
pub mod input;
pub mod libfuzzer;
pub mod num;
pub mod options;
pub mod report;
pub mod scaffold;
pub mod shrink;
pub mod test;
pub mod time;

pub use fault::{Faults, PanicError};
pub use input::{Input, ShrinkInput};
pub use options::Options;
pub use test::{Failure, GeneratorTest, Seed, SliceTest, Test};
pub use time::Duration;
