//! The driver that reads a byte slice.

use super::entropy::{DriverView, Entropy};
use super::Driver;
use crate::options::Options;
use vstd::prelude::*;
use vstd::slice::slice_subrange;

verus! {

/// A driver over a byte slice. What it decodes is fixed by the bytes and
/// the settings it was made with; where the bytes run out, it rejects.
#[derive(Debug)]
pub struct ByteSliceDriver<'a> {
    input: &'a [u8],
    depth: usize,
    max_depth: usize,
}

impl<'a> View for ByteSliceDriver<'a> {
    type V = DriverView;

    closed spec fn view(&self) -> DriverView {
        DriverView {
            entropy: Entropy::Fixed(self.input@),
            depth: self.depth as nat,
            max_depth: self.max_depth as nat,
        }
    }
}

/// The bytes of `input` that a driver reads under `options`: as many as the
/// cap on the length admits.
pub open spec fn capped(input: Seq<u8>, options: Options) -> Seq<u8> {
    if input.len() <= options.spec_max_len() {
        input
    } else {
        input.take(options.spec_max_len() as int)
    }
}

/// The view of a driver that has just been made over `input` under
/// `options`.
pub open spec fn fresh(input: Seq<u8>, options: Options) -> DriverView {
    DriverView {
        entropy: Entropy::Fixed(capped(input, options)),
        depth: 0,
        max_depth: options.spec_max_depth() as nat,
    }
}

impl<'a> ByteSliceDriver<'a> {
    /// A driver over `input`, as far as the cap on the length in `options`
    /// admits.
    pub fn new(input: &'a [u8], options: &Options) -> (driver: Self)
        ensures
            driver@ == fresh(input@, *options),
    {
        let max_len = options.max_len_or_default();
        let len = if input.len() <= max_len {
            input.len()
        } else {
            max_len
        };
        let ghost whole = input@;
        let input = slice_subrange(input, 0, len);
        assert(input@ == capped(whole, *options)) by {
            assert(whole.subrange(0, len as int) == whole.take(len as int));
            assert(whole.take(whole.len() as int) == whole);
        }
        ByteSliceDriver { input, depth: 0, max_depth: options.max_depth_or_default() }
    }

    /// The bytes that have not been read yet.
    pub fn as_slice(&self) -> (rest: &'a [u8])
        ensures
            self@.entropy == Entropy::Fixed(rest@),
    {
        self.input
    }
}

impl<'a> Driver for ByteSliceDriver<'a> {
    fn remaining(&self) -> (count: usize) {
        self.input.len()
    }

    fn next_byte(&mut self) -> (byte: u8) {
        let byte = self.input[0];
        self.input = slice_subrange(self.input, 1, self.input.len());
        byte
    }

    fn depth(&self) -> (depth: usize) {
        self.depth
    }

    fn max_depth(&self) -> (max_depth: usize) {
        self.max_depth
    }

    fn set_depth(&mut self, depth: usize) {
        self.depth = depth;
    }
}

} // verus!
