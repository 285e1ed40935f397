//! The byte buffer a run works on, and the window of it that a test sees.

use crate::driver::bytes::fresh;
use crate::driver::ByteSliceDriver;
use crate::options::Options;
use vstd::prelude::*;
use vstd::slice::slice_subrange;

verus! {

/// A growable byte buffer that the shrinker owns for the length of a run.
pub trait Input: Sized {
    /// The bytes held.
    spec fn contents(&self) -> Seq<u8>;

    /// The bytes held.
    fn bytes(&self) -> (v: &Vec<u8>)
        ensures
            v@ == self.contents(),
    ;

    /// The bytes held, to be changed in place.
    fn bytes_mut(&mut self) -> (v: &mut Vec<u8>)
        ensures
            v@ == old(self).contents(),
            final(self).contents() == final(v)@,
    ;

    /// A driver over the first `len` bytes.
    fn driver(&self, len: usize, options: &Options) -> (driver: ByteSliceDriver<'_>)
        requires
            len <= self.contents().len(),
        ensures
            driver@ == fresh(self.contents().take(len as int), *options),
    ;

    /// The number of bytes held.
    fn len(&self) -> (n: usize)
        ensures
            n == self.contents().len(),
    {
        self.bytes().len()
    }

    /// The window over the first `len` bytes that a test is run on.
    fn window<'a>(&'a self, len: usize, options: &'a Options) -> (w: ShrinkInput<'a>)
        requires
            len <= self.contents().len(),
        ensures
            w@ == self.contents().take(len as int),
            *w.options() == *options,
    {
        ShrinkInput::new(self.bytes().as_slice(), len, options)
    }
}

impl Input for Vec<u8> {
    open spec fn contents(&self) -> Seq<u8> {
        self@
    }

    fn bytes(&self) -> (v: &Vec<u8>) {
        self
    }

    fn bytes_mut(&mut self) -> (v: &mut Vec<u8>) {
        self
    }

    fn driver(&self, len: usize, options: &Options) -> (driver: ByteSliceDriver<'_>) {
        let prefix = slice_subrange(self.as_slice(), 0, len);
        assert(prefix@ == self@.take(len as int));
        ByteSliceDriver::new(prefix, options)
    }
}

/// The first `len` bytes of a buffer together with the run's settings: all
/// that a test execution gets to see. Its view is those bytes.
pub struct ShrinkInput<'a> {
    input: &'a [u8],
    options: &'a Options,
    len: usize,
}

impl<'a> View for ShrinkInput<'a> {
    type V = Seq<u8>;

    closed spec fn view(&self) -> Seq<u8> {
        self.input@.take(self.len as int)
    }
}

impl<'a> ShrinkInput<'a> {
    #[verifier::type_invariant]
    spec fn in_bounds(self) -> bool {
        self.len <= self.input@.len()
    }

    /// The settings of the run.
    pub closed spec fn options(&self) -> &'a Options {
        self.options
    }

    /// The window over the first `len` bytes of `input`.
    pub fn new(input: &'a [u8], len: usize, options: &'a Options) -> (w: ShrinkInput<'a>)
        requires
            len <= input@.len(),
        ensures
            w@ == input@.take(len as int),
            *w.options() == *options,
    {
        ShrinkInput { input, options, len }
    }

    /// The window over all of `input`.
    pub fn whole(input: &'a [u8], options: &'a Options) -> (w: ShrinkInput<'a>)
        ensures
            w@ == input@,
            *w.options() == *options,
    {
        let w = ShrinkInput { input, options, len: input.len() };
        assert(input@.take(input@.len() as int) == input@);
        w
    }

    /// The bytes in the window.
    pub fn slice(&self) -> (s: &'a [u8])
        ensures
            s@ == self@,
    {
        proof {
            use_type_invariant(self);
        }
        slice_subrange(self.input, 0, self.len)
    }

    /// A driver over the bytes in the window.
    pub fn driver(&self) -> (driver: ByteSliceDriver<'a>)
        ensures
            driver@ == fresh(self@, *self.options()),
    {
        ByteSliceDriver::new(self.slice(), self.options)
    }

    /// The settings of the run.
    pub fn settings(&self) -> (o: &'a Options)
        ensures
            *o == *self.options(),
    {
        self.options
    }
}

} // verus!
