//! What holds of every search, whatever the test and whatever the clock.

use super::model::{
    applied, lemma_applied_advances, searched, settled, settled_at, simpler, swapped, ShrinkState,
    TestModel, Transform,
};
use super::{reported, shrunk, ErrorModel};
use crate::test::{Failure, Seed};
use vstd::prelude::*;

verus! {

/// The test gives one answer on each input: it is never seen both to fail
/// and not to fail on the same bytes.
pub open spec fn decided(m: TestModel) -> bool {
    forall|bytes: Seq<u8>| !(#[trigger] m(bytes, true) && m(bytes, false))
}

/// The test fails on `bytes`, and only fails.
pub open spec fn fails(m: TestModel, bytes: Seq<u8>) -> bool {
    m(bytes, true) && !m(bytes, false)
}

/// The test reads `count` bytes and no more: on less it cannot fail, and
/// what stands behind them does not change what it does.
pub open spec fn reads_exactly(m: TestModel, count: nat) -> bool {
    &&& forall|bytes: Seq<u8>| bytes.len() < count ==> !#[trigger] m(bytes, true)
    &&& forall|bytes: Seq<u8>, failed: bool|
        bytes.len() >= count ==> (#[trigger] m(bytes, failed) <==> m(
            bytes.take(count as int),
            failed,
        ))
}

/// A search never leaves more bytes under consideration than it found.
pub proof fn lemma_search_never_grows(m: TestModel, pre: ShrinkState, post: ShrinkState)
    requires
        pre.wf(),
        searched(m, pre, post),
    ensures
        post.wf(),
        post.end <= pre.end,
        post.active().len() <= pre.active().len(),
{
}

/// A transform is kept only on a failure: where the test gives one answer
/// on each input, running it again on what a kept transform left fails
/// again.
pub proof fn lemma_kept_transform_fails_again(
    m: TestModel,
    fixed: nat,
    pre: ShrinkState,
    post: ShrinkState,
    transform: Transform,
    failed_again: bool,
)
    requires
        pre.wf(),
        transform.fits(pre),
        applied(m, fixed, pre, post, transform, true),
        decided(m),
        m(post.active(), failed_again),
    ensures
        failed_again,
{
    lemma_applied_advances(m, fixed, pre, post, transform, true);
}

/// Where the test gives one answer on each input and fails on what an
/// attempt at a transform set out from, it fails on what the attempt left,
/// whether the transform was kept or not.
pub proof fn lemma_attempt_fails_closed(
    m: TestModel,
    fixed: nat,
    pre: ShrinkState,
    post: ShrinkState,
    transform: Transform,
    ok: bool,
)
    requires
        pre.wf(),
        transform.fits(pre),
        applied(m, fixed, pre, post, transform, ok),
        decided(m),
        fails(m, pre.active()),
    ensures
        fails(m, post.active()),
{
    lemma_applied_advances(m, fixed, pre, post, transform, ok);
}

/// A transform that is not kept leaves what the test sees as it was.
pub proof fn lemma_dropped_transform_reverts(
    m: TestModel,
    fixed: nat,
    pre: ShrinkState,
    post: ShrinkState,
    transform: Transform,
)
    requires
        pre.wf(),
        transform.fits(pre),
        applied(m, fixed, pre, post, transform, false),
    ensures
        post.active() == pre.active(),
        post.end == pre.end,
{
    lemma_applied_advances(m, fixed, pre, post, transform, false);
}

/// A search that set out from a failing input ends on a failing input:
/// where the test gives one answer on each input, it fails on what the
/// search left.
pub proof fn lemma_search_fails_closed(m: TestModel, pre: ShrinkState, post: ShrinkState)
    requires
        pre.wf(),
        searched(m, pre, post),
        decided(m),
        fails(m, pre.active()),
    ensures
        fails(m, post.active()),
{
}

/// What a search changed is strictly simpler than what it found: shorter,
/// or as long and before it in the order of the dictionary.
pub proof fn lemma_search_simplifies(m: TestModel, pre: ShrinkState, post: ShrinkState)
    requires
        pre.wf(),
        searched(m, pre, post),
    ensures
        post.active() == pre.active() || simpler(post.active(), pre.active()),
{
}

/// With an empty budget nothing is reported, whether the input fails or
/// not.
pub proof fn lemma_empty_budget_reports_nothing<V>(
    m: TestModel,
    r: TestModel,
    e: ErrorModel,
    d: spec_fn(Seq<u8>, Option<V>) -> bool,
    seed: Option<Seed>,
    first: ShrinkState,
    report: Option<Failure<V>>,
)
    requires
        shrunk(m, r, e, d, seed, 0, first, report),
    ensures
        report is None,
{
}

/// The test decodes a value from every input on which it fails.
pub open spec fn decodes_failures<V>(m: TestModel, d: spec_fn(Seq<u8>, Option<V>) -> bool) -> bool {
    forall|bytes: Seq<u8>| #[trigger] m(bytes, true) ==> !d(bytes, None)
}

/// Where the test gives one answer on each input, the same whether or not
/// a backtrace is recorded, decodes a value from every input on which it
/// fails, and fails on the input that a search sets out from, a budget that
/// is not empty brings a report. The fault and the value in it stem from
/// the same bytes: the test fails on them and ends with that fault, the
/// value is decoded from them, and they are the input or simpler than it.
pub proof fn lemma_failing_input_is_reported<V>(
    m: TestModel,
    r: TestModel,
    e: ErrorModel,
    d: spec_fn(Seq<u8>, Option<V>) -> bool,
    seed: Option<Seed>,
    budget: nat,
    first: ShrinkState,
    report: Option<Failure<V>>,
)
    requires
        first.wf(),
        budget > 0,
        shrunk(m, r, e, d, seed, budget, first, report),
        r == m,
        decided(m),
        decodes_failures(m, d),
        fails(m, first.active()),
    ensures
        report matches Some(failure) && failure.seed == seed && exists|bytes: Seq<u8>|
            #![trigger d(bytes, Some(failure.input))]
            {
                &&& fails(m, bytes)
                &&& e(bytes, failure.error)
                &&& d(bytes, Some(failure.input))
                &&& bytes.len() <= first.end
                &&& bytes == first.active() || simpler(bytes, first.active())
            },
{
    let last = choose|last: ShrinkState| #[trigger]
        searched(m, first, last) && reported(r, e, d, seed, last, report);
    lemma_search_fails_closed(m, first, last);
    assert(d(last.active(), Some(report->Some_0.input)));
}

/// Where, besides, the test reads `count` bytes and no more, the fault and
/// the value in the report stem from exactly `count` bytes.
pub proof fn lemma_truncation_floor_is_reported<V>(
    m: TestModel,
    r: TestModel,
    e: ErrorModel,
    d: spec_fn(Seq<u8>, Option<V>) -> bool,
    seed: Option<Seed>,
    budget: nat,
    first: ShrinkState,
    report: Option<Failure<V>>,
    count: nat,
)
    requires
        first.wf(),
        budget > 0,
        shrunk(m, r, e, d, seed, budget, first, report),
        r == m,
        decided(m),
        decodes_failures(m, d),
        reads_exactly(m, count),
        fails(m, first.active()),
    ensures
        report matches Some(failure) && failure.seed == seed && exists|bytes: Seq<u8>|
            #![trigger d(bytes, Some(failure.input))]
            {
                &&& bytes.len() == count
                &&& fails(m, bytes)
                &&& e(bytes, failure.error)
                &&& d(bytes, Some(failure.input))
            },
{
    let last = choose|last: ShrinkState| #[trigger]
        searched(m, first, last) && reported(r, e, d, seed, last, report);
    lemma_search_fails_closed(m, first, last);
    lemma_truncation_floor(m, first, last, count);
    assert(d(last.active(), Some(report->Some_0.input)));
}

/// Where the test reads `count` bytes and no more, and fails on the input
/// that a search sets out from, the search leaves exactly `count` bytes
/// under consideration.
pub proof fn lemma_truncation_floor(m: TestModel, pre: ShrinkState, post: ShrinkState, count: nat)
    requires
        pre.wf(),
        searched(m, pre, post),
        reads_exactly(m, count),
        fails(m, pre.active()),
    ensures
        post.end == count,
{
    assert(pre.end >= count);
    if post.end > count {
        assert(pre.buffer.take(count as int) == pre.active().take(count as int));
        assert(m(pre.buffer.take(count as int), false));
        assert(m(pre.active(), false));
    }
    if post.end < count {
        assert(post.active().len() < count);
    }
}

/// Where a search ended because nothing was left to gain, no single
/// transform finds a failing input any more: if the test gives one answer
/// on each input, an attempt at any transform that fits is not kept and
/// leaves what the test sees as it was.
pub proof fn lemma_settled_is_fixed(
    m: TestModel,
    fixed: nat,
    state: ShrinkState,
    post: ShrinkState,
    transform: Transform,
    ok: bool,
)
    requires
        state.wf(),
        settled(m, fixed, state),
        decided(m),
        transform.fits(state),
        applied(m, fixed, state, post, transform, ok),
    ensures
        !ok,
        post.active() == state.active(),
        post.end == state.end,
{
    let bytes = state.active();
    lemma_applied_advances(m, fixed, state, post, transform, ok);
    if ok {
        match transform {
            Transform::TruncationEnd => {
                assert(post.active() == bytes.take(post.end as int));
            },
            Transform::RemoveChunk(index) => {
                assert(settled_at(m, fixed, bytes, index as int));
                assert(post.active() == post.buffer);
            },
            Transform::Sort(index) => {
                assert(settled_at(m, fixed, bytes, index as int));
                assert(post.active() == swapped(bytes, index as int));
            },
            Transform::ByteShrink(index) => {
                assert(settled_at(m, fixed, bytes, index as int));
                assert(post.active() == bytes.update(index as int, post.buffer[index as int]));
            },
        }
    }
}

} // verus!
