//! The search for a smaller failing input.
//!
//! The search works on bytes alone. It changes the buffer in place, runs the
//! test on each candidate, and keeps a change only when the test fails on it.

pub mod laws;
pub mod model;

pub use model::{ShrinkState, TestModel, Transform};

use crate::fault::{report_faults, spec_quiet, spec_report_faults, Faults, PanicError};
use crate::input::Input;
use crate::options::Options;
use crate::test::{Failure, Seed, Test};
use crate::clock::Stopwatch;
use model::{
    advance, applied, byte_shrink, chunk_removal, index_step, lemma_advance_twice,
    lemma_index_step_advances, lemma_index_step_settles, lemma_progress_advances,
    lemma_truncation_advances, lemma_truncation_settles, progress, searched, settled, settled_at,
    sort_swap, swapped, truncation, without_chunk,
};
use vstd::prelude::*;
use vstd::slice::{slice_subrange, slice_to_vec};

verus! {

/// The state of one search: the test, the buffer and the length of the
/// prefix under consideration. Its view is the buffer with that length.
pub struct Shrinker<'a, T, I> {
    test: &'a mut T,
    input: I,
    temp_input: Vec<u8>,
    end: usize,
    seed: Option<Seed>,
    options: &'a Options,
}

impl<'a, T: Test, I: Input> View for Shrinker<'a, T, I> {
    type V = ShrinkState;

    closed spec fn view(&self) -> ShrinkState {
        ShrinkState { buffer: self.input.contents(), end: self.end as nat }
    }
}

impl<'a, T: Test, I: Input> Shrinker<'a, T, I> {
    /// The test may be executed.
    pub closed spec fn ready(&self) -> bool {
        self.test.ready()
    }

    /// The prefix under consideration lies inside the buffer, and the test
    /// may be executed.
    pub open spec fn wf(&self) -> bool {
        self@.wf() && self.ready()
    }

    /// What the test can return under this search's settings, for each way
    /// of treating faults.
    pub closed spec fn outcomes(&self) -> spec_fn(
        Seq<u8>,
        Faults,
        Result<bool, PanicError>,
    ) -> bool {
        |bytes: Seq<u8>, faults: Faults, result: Result<bool, PanicError>|
            self.test.answers(bytes, *self.options, faults, result)
    }

    /// The faults that the test can end with when it is run for the
    /// report.
    pub open spec fn report_errors(&self) -> ErrorModel {
        |bytes: Seq<u8>, error: PanicError|
            (self.outcomes())(
                bytes,
                spec_report_faults(self.options()),
                Err::<bool, PanicError>(error),
            )
    }

    /// What is known of the test under this search's settings, for each
    /// way of treating faults.
    pub closed spec fn behaviour(&self) -> spec_fn(Seq<u8>, Faults, bool) -> bool {
        |bytes: Seq<u8>, faults: Faults, failed: bool|
            self.test.admits(bytes, *self.options, faults, failed)
    }

    /// What is known of the test as the search runs it: with faults kept to
    /// the execution and no backtrace recorded.
    pub open spec fn model(&self) -> TestModel {
        |bytes: Seq<u8>, failed: bool| (self.behaviour())(bytes, spec_quiet(), failed)
    }

    /// What is known of the test as it is run for the report: with faults
    /// kept to the execution, and a backtrace recorded where the settings
    /// ask for one.
    pub open spec fn report_model(&self) -> TestModel {
        |bytes: Seq<u8>, failed: bool|
            (self.behaviour())(bytes, spec_report_faults(self.options()), failed)
    }

    /// Which values the test can decode from which bytes under this search's
    /// settings.
    pub closed spec fn decodes(&self) -> spec_fn(Seq<u8>, Option<T::Value>) -> bool {
        |bytes: Seq<u8>, value: Option<T::Value>| self.test.yields(bytes, *self.options, value)
    }

    /// The settings of this search.
    pub closed spec fn options(&self) -> Options {
        *self.options
    }

    /// The number of leading bytes that this search never removes.
    pub open spec fn fixed(&self) -> nat {
        self.options().spec_fixed()
    }

    /// The seed that the input came from.
    pub closed spec fn seed(&self) -> Option<Seed> {
        self.seed
    }

    /// This search is the search `other` at a later time: same test, same
    /// settings, same seed.
    pub open spec fn continues(&self, other: &Self) -> bool {
        &&& self.behaviour() == other.behaviour()
        &&& self.outcomes() == other.outcomes()
        &&& self.decodes() == other.decodes()
        &&& self.options() == other.options()
        &&& self.seed() == other.seed()
    }

    /// A search over the whole of `input`.
    pub fn new(test: &'a mut T, input: I, seed: Option<Seed>, options: &'a Options) -> (s: Self)
        requires
            old(test).ready(),
        ensures
            s.wf(),
            s@.buffer == input.contents(),
            s@.end == input.contents().len(),
            s.options() == *options,
            s.seed() == seed,
            s.behaviour() == (|bytes: Seq<u8>, faults: Faults, failed: bool|
                old(test).admits(bytes, *options, faults, failed)),
            s.outcomes() == (|bytes: Seq<u8>, faults: Faults, result: Result<bool, PanicError>|
                old(test).answers(bytes, *options, faults, result)),
            s.decodes() == (|bytes: Seq<u8>, value: Option<T::Value>|
                old(test).yields(bytes, *options, value)),
    {
        let len = input.len();
        let temp_input = input.bytes().clone();
        Shrinker { temp_input, input, end: len, test, seed, options }
    }

    /// The length of the prefix under consideration.
    pub fn end(&self) -> (end: usize)
        ensures
            end == self@.end,
    {
        self.end
    }

    /// The buffer.
    pub fn input(&self) -> (input: &I)
        ensures
            input.contents() == self@.buffer,
    {
        &self.input
    }

    /// Runs the test on the prefix under consideration, with faults treated
    /// as `faults` says, and hands on what the test returned.
    pub fn execute(&mut self, faults: &Faults) -> (r: Result<bool, PanicError>)
        requires
            old(self).wf(),
        ensures
            final(self).wf(),
            final(self)@ == old(self)@,
            final(self).continues(old(self)),
            (old(self).outcomes())(old(self)@.active(), *faults, r),
            (old(self).behaviour())(old(self)@.active(), *faults, r is Err),
    {
        let window = self.input.window(self.end, self.options);
        let r = self.test.test(&window, faults);
        assert(self.behaviour() =~= old(self).behaviour());
        assert(self.outcomes() =~= old(self).outcomes());
        assert(self.decodes() =~= old(self).decodes());
        r
    }

    /// Decodes the value that the test would run on from the prefix under
    /// consideration. `None` where nothing can be decoded from it.
    pub fn generate_value(&self) -> (value: Option<T::Value>)
        requires
            self.wf(),
        ensures
            (self.decodes())(self@.active(), value),
    {
        let window = self.input.window(self.end, self.options);
        self.test.generate_value(&window)
    }

    /// Exchanges the bytes at `index` and `index + 1` where the first is the
    /// larger, and keeps the exchange if the test fails on it.
    pub fn apply_sort(&mut self, index: usize) -> (r: Result<(), ()>)
        requires
            old(self).wf(),
        ensures
            final(self).wf(),
            final(self).continues(old(self)),
            sort_swap(old(self).model(), old(self)@, final(self)@, index as int, r is Ok),
    {
        if index >= self.end || index + 1 >= self.end {
            return Err(());
        }
        let first: u8 = self.input.bytes()[index];
        let second: u8 = self.input.bytes()[index + 1];
        if first <= second {
            return Err(());
        }
        let bytes = self.input.bytes_mut();
        bytes[index] = second;
        bytes[index + 1] = first;
        assert(self@.buffer == swapped(old(self)@.buffer, index as int));

        if self.execute(&Faults::quiet()).is_err() {
            return Ok(());
        }
        let bytes = self.input.bytes_mut();
        bytes[index] = first;
        bytes[index + 1] = second;
        assert(self@.buffer == old(self)@.buffer);
        Err(())
    }

    /// Lowers the byte at `index` to the smallest value with which the test
    /// fails, if there is one below its present value.
    pub fn apply_byte_shrink(&mut self, index: usize) -> (r: Result<(), ()>)
        requires
            old(self).wf(),
            index < old(self)@.buffer.len(),
        ensures
            final(self).wf(),
            final(self).continues(old(self)),
            byte_shrink(old(self).model(), old(self)@, final(self)@, index as int, r is Ok),
    {
        let prev_value: u8 = self.input.bytes()[index];
        let mut value: u8 = 0;
        while value < prev_value
            invariant
                self.wf(),
                self.continues(old(self)),
                index < self@.buffer.len(),
                self@.buffer.len() == old(self)@.buffer.len(),
                self@.end == old(self)@.end,
                value <= prev_value,
                prev_value == old(self)@.buffer[index as int],
                self@.buffer == old(self)@.buffer.update(index as int, self@.buffer[index as int]),
                forall|v: u8|
                    v < value ==> (old(self).model())(
                        #[trigger] old(self)@.buffer.update(index as int, v).take(
                            old(self)@.end as int,
                        ),
                        false,
                    ),
            decreases prev_value - value,
        {
            let bytes = self.input.bytes_mut();
            bytes[index] = value;
            assert(self@.buffer == old(self)@.buffer.update(index as int, value));
            if self.execute(&Faults::quiet()).is_err() {
                return Ok(());
            }
            value += 1;
        }
        let bytes = self.input.bytes_mut();
        bytes[index] = prev_value;
        assert(self@.buffer == old(self)@.buffer);
        Err(())
    }

    /// Shortens the prefix under consideration to the shortest on which the
    /// test fails, if there is one shorter than the present.
    pub fn apply_truncation_end(&mut self) -> (r: Result<(), ()>)
        requires
            old(self).wf(),
        ensures
            final(self).wf(),
            final(self).continues(old(self)),
            truncation(old(self).model(), old(self)@, final(self)@, r is Ok),
    {
        let prev_value = self.end;
        let mut end: usize = 0;
        while end < prev_value
            invariant
                self.wf(),
                self.continues(old(self)),
                self@.buffer == old(self)@.buffer,
                prev_value == old(self)@.end,
                prev_value <= self@.buffer.len(),
                end <= prev_value,
                forall|len: int|
                    0 <= len < end ==> (old(self).model())(
                        #[trigger] old(self)@.buffer.take(len),
                        false,
                    ),
            decreases prev_value - end,
        {
            self.end = end;
            if self.execute(&Faults::quiet()).is_err() {
                return Ok(());
            }
            end += 1;
        }
        self.end = prev_value;
        Err(())
    }

    /// Removes the longest chunk at `index` without which the test fails,
    /// if there is one. Byte 0 stays, and so does one byte behind the chunk.
    pub fn apply_remove_chunk(&mut self, index: usize) -> (r: Result<(), ()>)
        requires
            old(self).wf(),
            index <= old(self)@.end,
        ensures
            final(self).wf(),
            final(self).continues(old(self)),
            chunk_removal(
                old(self).model(),
                old(self).fixed(),
                old(self)@,
                final(self)@,
                index as int,
                r is Ok,
            ),
    {
        // most generators read the first byte, so it is not removed
        if index == 0 && self.options.keep_first_byte {
            return Err(());
        }
        // one byte to remove and one to move up in its place
        if self.end - index < 2 {
            return Err(());
        }
        // keep what stands from `index` on
        let mut temp_input: Vec<u8> = Vec::new();
        core::mem::swap(&mut temp_input, &mut self.temp_input);
        temp_input.clear();
        let kept = slice_subrange(self.input.bytes().as_slice(), index, self.end);
        temp_input.extend_from_slice(kept);
        let ghost active = old(self)@.active();
        assert(temp_input@ == active.skip(index as int));

        // one byte is left to move up
        let max_len = temp_input.len() - 1;
        let mut diff: usize = 0;
        while diff < max_len
            invariant
                self.wf(),
                self.continues(old(self)),
                old(self).fixed() <= index < old(self)@.end,
                active == old(self)@.active(),
                old(self)@.wf(),
                temp_input@ == active.skip(index as int),
                max_len == old(self)@.end - index - 1,
                diff <= max_len,
                index <= self@.buffer.len(),
                self@.buffer.take(index as int) == active.take(index as int),
                forall|count: int|
                    max_len - diff < count <= max_len ==> (old(self).model())(
                        #[trigger] without_chunk(active, index as int, count),
                        false,
                    ),
            decreases max_len - diff,
        {
            let offset = max_len - diff;
            let tail = slice_subrange(temp_input.as_slice(), offset, temp_input.len());
            let bytes = self.input.bytes_mut();
            bytes.truncate(index);
            bytes.extend_from_slice(tail);
            self.end = self.input.len();
            assert(self@.buffer == without_chunk(active, index as int, offset as int));
            assert(self@.active() == self@.buffer);
            if self.execute(&Faults::quiet()).is_err() {
                self.temp_input = temp_input;
                return Ok(());
            }
            diff += 1;
        }
        let bytes = self.input.bytes_mut();
        bytes.truncate(index);
        bytes.extend_from_slice(temp_input.as_slice());
        self.end = self.input.len();
        self.temp_input = temp_input;
        assert(self@.buffer == active);
        Err(())
    }

    /// Tries `transform` and says whether it changed the input.
    pub fn apply(&mut self, transform: Transform) -> (changed: bool)
        requires
            old(self).wf(),
            transform.fits(old(self)@),
        ensures
            final(self).wf(),
            final(self).continues(old(self)),
            applied(
                old(self).model(),
                old(self).fixed(),
                old(self)@,
                final(self)@,
                transform,
                changed,
            ),
    {
        let result = match transform {
            Transform::TruncationEnd => self.apply_truncation_end(),
            Transform::RemoveChunk(index) => self.apply_remove_chunk(index),
            Transform::Sort(index) => self.apply_sort(index),
            Transform::ByteShrink(index) => self.apply_byte_shrink(index),
        };
        result.is_ok()
    }

    /// Tries `transform` as [`Shrinker::apply`] does, and then runs the
    /// test once more on what is left. A search sets out from a failing
    /// input and keeps only what fails, so the test should fail again; where
    /// it does not, the transform is wrong or the test unsteady, and the
    /// input before and after the attempt is handed back.
    pub fn apply_checked(&mut self, transform: Transform) -> (r: Result<bool, Unsteady>)
        requires
            old(self).wf(),
            transform.fits(old(self)@),
        ensures
            final(self).wf(),
            final(self).continues(old(self)),
            match r {
                Ok(changed) => {
                    &&& applied(
                        old(self).model(),
                        old(self).fixed(),
                        old(self)@,
                        final(self)@,
                        transform,
                        changed,
                    )
                    &&& (old(self).model())(final(self)@.active(), true)
                },
                Err(unsteady) => {
                    &&& exists|changed: bool| #[trigger]
                        applied(
                            old(self).model(),
                            old(self).fixed(),
                            old(self)@,
                            final(self)@,
                            transform,
                            changed,
                        )
                    &&& (old(self).model())(final(self)@.active(), false)
                    &&& unsteady.transform == transform
                    &&& unsteady.before@ == old(self)@.active()
                    &&& unsteady.after@ == final(self)@.active()
                },
            },
    {
        let before = slice_to_vec(
            slice_subrange(self.input.bytes().as_slice(), 0, self.end),
        );
        let changed = self.apply(transform);
        if self.execute(&Faults::quiet()).is_err() {
            return Ok(changed);
        }
        let after = slice_to_vec(slice_subrange(self.input.bytes().as_slice(), 0, self.end));
        Err(Unsteady { transform, before, after })
    }

    /// Tries to shorten the prefix under consideration and says whether it
    /// did.
    pub fn apply_truncation(&mut self) -> (changed: bool)
        requires
            old(self).wf(),
        ensures
            final(self).wf(),
            final(self).continues(old(self)),
            truncation(old(self).model(), old(self)@, final(self)@, changed),
    {
        self.apply(Transform::TruncationEnd)
    }

    /// Visits `index`: tries to remove a chunk there, then to exchange the
    /// byte with the next, then to lower it, and stops at the first that
    /// changes the input. `was_changed` is set if one did.
    pub fn apply_transforms(&mut self, index: usize, was_changed: &mut bool)
        requires
            old(self).wf(),
            index < old(self)@.end,
        ensures
            final(self).wf(),
            final(self).continues(old(self)),
            exists|ok: bool| #[trigger]
                index_step(
                    old(self).model(),
                    old(self).fixed(),
                    old(self)@,
                    final(self)@,
                    index as int,
                    ok,
                ) && *final(was_changed) == (*old(was_changed) || ok),
    {
        let ghost m = self.model();
        let ghost fixed = self.fixed();
        if self.apply(Transform::RemoveChunk(index)) {
            *was_changed = true;
            assert(index_step(m, fixed, old(self)@, self@, index as int, true));
            return ;
        }
        let ghost mid = self@;
        proof {
            model::lemma_chunk_removal_advances(m, fixed, old(self)@, mid, index as int, false);
        }
        if self.apply(Transform::Sort(index)) {
            *was_changed = true;
            assert(index_step(m, fixed, old(self)@, self@, index as int, true));
            return ;
        }
        assert(self@ == mid);
        let ok = self.apply(Transform::ByteShrink(index));
        *was_changed = *was_changed || ok;
        assert(index_step(m, fixed, old(self)@, self@, index as int, ok));
    }

    /// Shrinks the input and reports the failure on what is left. With an
    /// empty budget nothing is tried and nothing reported.
    pub fn shrink(self) -> (report: Option<Failure<T::Value>>)
        requires
            self.wf(),
        ensures
            shrunk(
                self.model(),
                self.report_model(),
                self.report_errors(),
                self.decodes(),
                self.seed(),
                self.options().spec_shrink_nanos(),
                self@,
                report,
            ),
    {
        let mut this = self;
        this.run()
    }

    /// Shrinks the input in place and reports the failure on what is left.
    /// With an empty budget nothing is tried and nothing reported.
    pub fn run(&mut self) -> (report: Option<Failure<T::Value>>)
        requires
            old(self).wf(),
        ensures
            final(self).wf(),
            final(self).continues(old(self)),
            shrunk(
                old(self).model(),
                old(self).report_model(),
                old(self).report_errors(),
                old(self).decodes(),
                old(self).seed(),
                old(self).options().spec_shrink_nanos(),
                old(self)@,
                report,
            ),
            old(self).options().spec_shrink_nanos() == 0 ==> final(self)@ == old(self)@,
            old(self).options().spec_shrink_nanos() != 0 ==> searched(
                old(self).model(),
                old(self)@,
                final(self)@,
            ) && reported(
                old(self).report_model(),
                old(self).report_errors(),
                old(self).decodes(),
                old(self).seed(),
                final(self)@,
                report,
            ),
    {
        if self.options.shrink_time_or_default().is_zero() {
            return None;
        }
        self.search();

        // the report carries a backtrace where the run was set to record one
        let faults = report_faults(self.options);
        let error = match self.execute(&faults) {
            Err(error) => error,
            Ok(_) => {
                return None;
            },
        };
        match self.generate_value() {
            Some(input) => Some(Failure { seed: self.seed, error, input }),
            None => None,
        }
    }

    /// Makes the input simpler for as long as a pass over it changes
    /// something and the budget lasts. Returns whether the search ended
    /// because nothing was left to gain, rather than for want of time.
    pub fn search(&mut self) -> (done: bool)
        requires
            old(self).wf(),
        ensures
            final(self).wf(),
            final(self).continues(old(self)),
            searched(old(self).model(), old(self)@, final(self)@),
            done ==> settled(old(self).model(), old(self).fixed(), final(self)@),
    {
        self.search_while(true)
    }

    /// Makes the input simpler for as long as a pass over it changes
    /// something, however long that takes. Nothing is left to gain on what
    /// it leaves.
    pub fn settle(&mut self)
        requires
            old(self).wf(),
        ensures
            final(self).wf(),
            final(self).continues(old(self)),
            searched(old(self).model(), old(self)@, final(self)@),
            settled(old(self).model(), old(self).fixed(), final(self)@),
    {
        self.search_while(false);
    }

    /// The search, with the budget in force (`timed`) or without it. It
    /// ends in either case: each pass that goes on to another has made the
    /// prefix under consideration shorter or, at the same length, lighter.
    fn search_while(&mut self, timed: bool) -> (done: bool)
        requires
            old(self).wf(),
        ensures
            final(self).wf(),
            final(self).continues(old(self)),
            searched(old(self).model(), old(self)@, final(self)@),
            done ==> settled(old(self).model(), old(self).fixed(), final(self)@),
            !timed ==> done,
    {
        let shrink_time = self.options.shrink_time_or_default();
        let clock = Stopwatch::start();
        let ghost m = self.model();
        let ghost fixed = self.fixed();
        let ghost origin = self@;
        let ghost mut started = false;
        let mut done = false;
        assert(origin.active() == self@.active());

        loop
            invariant_except_break
                !done,
            invariant
                self.wf(),
                self.continues(old(self)),
                origin == old(self)@,
                origin.wf(),
                m == old(self).model(),
                fixed == old(self).fixed(),
                progress(m, origin, self@),
                !started ==> self@ == origin,
                started ==> forall|len: int|
                    0 <= len < self@.end ==> m(#[trigger] origin.buffer.take(len), false),
            ensures
                self.wf(),
                self.continues(old(self)),
                searched(m, origin, self@),
                done ==> settled(m, fixed, self@),
                !timed ==> done,
            decreases self@.end, weight_of(self@),
        {
            let ghost before = self@;
            let mut was_changed = self.apply_truncation();
            proof {
                lemma_truncation_advances(m, before, self@, was_changed);
                lemma_progress_advances(m, origin, before, self@, was_changed);
                started = true;
            }

            // nothing is simpler than the empty input
            if self.end == 0 {
                done = true;
                break ;
            }
            let ghost pass = self@;
            let mut complete = true;
            let upper = self.end;
            let mut index: usize = 0;
            while index < upper
                invariant_except_break
                    complete,
                invariant
                    !timed ==> complete,
                    self.wf(),
                    self.continues(old(self)),
                    origin.wf(),
                    before.wf(),
                    m == old(self).model(),
                    fixed == old(self).fixed(),
                    progress(m, origin, self@),
                    advance(m, before, self@, was_changed),
                    upper <= before.end,
                    index <= upper,
                    !was_changed ==> truncation(m, before, pass, false) && self@.end == upper
                        && forall|i: int|
                        0 <= i < index ==> #[trigger] settled_at(m, fixed, before.active(), i),
                    forall|len: int|
                        0 <= len < self@.end ==> m(#[trigger] origin.buffer.take(len), false),
                ensures
                    !timed ==> complete,
                    !was_changed && complete ==> forall|i: int|
                        0 <= i < upper ==> #[trigger] settled_at(m, fixed, before.active(), i),
                decreases upper - index,
            {
                if index >= self.end {
                    // the input got shorter: on to the next pass
                    break ;
                }
                let ghost here = self@;
                let ghost changed_before = was_changed;
                self.apply_transforms(index, &mut was_changed);
                proof {
                    let ok = choose|ok: bool|
                        #![trigger index_step(m, fixed, here, self@, index as int, ok)]
                        index_step(m, fixed, here, self@, index as int, ok) && was_changed == (
                        changed_before || ok);
                    lemma_index_step_advances(m, fixed, here, self@, index as int, ok);
                    lemma_advance_twice(m, before, here, self@, changed_before, ok);
                    lemma_progress_advances(m, origin, here, self@, ok);
                    if !was_changed {
                        lemma_index_step_settles(m, fixed, here, self@, index as int);
                    }
                }

                // the budget bounds the number of attempts
                if timed && clock.exceeds(&shrink_time) {
                    complete = false;
                    break ;
                }
                index += 1;
            }

            // a pass that changed nothing leaves nothing to gain
            if !was_changed {
                proof {
                    if complete {
                        lemma_truncation_settles(m, before, pass);
                        assert(self@.active() == before.active());
                    }
                }
                done = complete;
                break ;
            }
            // the budget bounds the number of passes
            if timed && clock.exceeds(&shrink_time) {
                break ;
            }
        }
        done
    }
}

/// A transform after which the test did not fail.
#[derive(Debug)]
pub struct Unsteady {
    /// The transform that was tried.
    pub transform: Transform,
    /// What the test saw before the attempt.
    pub before: Vec<u8>,
    /// What the test saw after the attempt, and did not fail on.
    pub after: Vec<u8>,
}

/// What is known of the faults of a test: `errors(bytes, error)` holds when
/// an execution on `bytes` can end with the fault `error`.
pub type ErrorModel = spec_fn(Seq<u8>, PanicError) -> bool;

/// What a search that ended on `last` reports, given what is known of the
/// test as it is run for the report (`r`), of the faults it ends with then
/// (`e`) and of what it decodes (`d`): a failure, if the test failed when
/// it was run on `last` once more, with the fault that it ended with and
/// the value decoded from `last`; nothing, if the test did not fail then,
/// or nothing was decoded.
pub open spec fn reported<V>(
    r: TestModel,
    e: ErrorModel,
    d: spec_fn(Seq<u8>, Option<V>) -> bool,
    seed: Option<Seed>,
    last: ShrinkState,
    report: Option<Failure<V>>,
) -> bool {
    match report {
        Some(failure) => {
            &&& r(last.active(), true)
            &&& e(last.active(), failure.error)
            &&& d(last.active(), Some(failure.input))
            &&& failure.seed == seed
        },
        None => r(last.active(), false) || d(last.active(), None),
    }
}

/// What `shrink` owes for a buffer `first`, given what is known of the test
/// as the search runs it (`m`) and as it is run for the report (`r`, `e`):
/// nothing on an empty budget; otherwise the report of a search that set
/// out from `first`.
pub open spec fn shrunk<V>(
    m: TestModel,
    r: TestModel,
    e: ErrorModel,
    d: spec_fn(Seq<u8>, Option<V>) -> bool,
    seed: Option<Seed>,
    budget: nat,
    first: ShrinkState,
    report: Option<Failure<V>>,
) -> bool {
    if budget == 0 {
        report is None
    } else {
        exists|last: ShrinkState| #[trigger]
            searched(m, first, last) && reported(r, e, d, seed, last, report)
    }
}

/// Shrinks `input`, on which `test` is taken to fail, to a simpler input on
/// which it fails, and reports the failure on that.
pub fn shrink<T: Test, I: Input>(
    test: &mut T,
    input: I,
    seed: Option<Seed>,
    options: &Options,
) -> (report: Option<Failure<T::Value>>)
    requires
        old(test).ready(),
    ensures
        shrunk(
            |bytes: Seq<u8>, failed: bool| old(test).admits(bytes, *options, spec_quiet(), failed),
            |bytes: Seq<u8>, failed: bool|
                old(test).admits(bytes, *options, spec_report_faults(*options), failed),
            |bytes: Seq<u8>, error: PanicError|
                old(test).answers(
                    bytes,
                    *options,
                    spec_report_faults(*options),
                    Err::<bool, PanicError>(error),
                ),
            |bytes: Seq<u8>, value: Option<T::Value>| old(test).yields(bytes, *options, value),
            seed,
            options.spec_shrink_nanos(),
            ShrinkState { buffer: input.contents(), end: input.contents().len() },
            report,
        ),
{
    let shrinker = Shrinker::new(test, input, seed, options);
    assert(shrinker.model() =~= (|bytes: Seq<u8>, failed: bool|
        old(test).admits(bytes, *options, spec_quiet(), failed)));
    assert(shrinker.report_model() =~= (|bytes: Seq<u8>, failed: bool|
        old(test).admits(bytes, *options, spec_report_faults(*options), failed)));
    assert(shrinker.report_errors() =~= (|bytes: Seq<u8>, error: PanicError|
        old(test).answers(
            bytes,
            *options,
            spec_report_faults(*options),
            Err::<bool, PanicError>(error),
        )));
    shrinker.shrink()
}

/// The weight of the prefix under consideration. A search is known to end
/// because each pass that goes on to another has lowered the length of that
/// prefix or, at the same length, its weight.
pub open spec fn weight_of(state: ShrinkState) -> nat {
    model::weight(state.active())
}

} // verus!
