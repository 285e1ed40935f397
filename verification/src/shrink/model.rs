//! The vocabulary in which the shrinker's contracts are stated.

use vstd::prelude::*;

verus! {

/// What is known of a test: `model(bytes, failed)` holds when an execution on
/// `bytes` can end failed (`failed`) or not failed (`!failed`).
pub type TestModel = spec_fn(Seq<u8>, bool) -> bool;

/// A buffer with the length of its prefix that is under consideration.
pub struct ShrinkState {
    pub buffer: Seq<u8>,
    pub end: nat,
}

impl ShrinkState {
    /// The prefix under consideration lies inside the buffer.
    pub open spec fn wf(self) -> bool {
        self.end <= self.buffer.len()
    }

    /// The prefix under consideration: what a test execution sees.
    pub open spec fn active(self) -> Seq<u8> {
        self.buffer.take(self.end as int)
    }
}

/// `bytes` without the `count` bytes that start at `index`.
pub open spec fn without_chunk(bytes: Seq<u8>, index: int, count: int) -> Seq<u8> {
    bytes.take(index) + bytes.skip(index + count)
}

/// `bytes` with the bytes at `index` and `index + 1` exchanged.
pub open spec fn swapped(bytes: Seq<u8>, index: int) -> Seq<u8> {
    bytes.update(index, bytes[index + 1]).update(index + 1, bytes[index])
}

/// The sum of the bytes, each counted once for every position from its own
/// to the end. It falls when a byte falls, and when a larger byte changes
/// places with a smaller one behind it.
pub open spec fn weight(bytes: Seq<u8>) -> nat
    decreases bytes.len(),
{
    if bytes.len() == 0 {
        0
    } else {
        (bytes[0] as nat) * bytes.len() + weight(bytes.skip(1))
    }
}

/// `a` comes before `b` as words do in a dictionary: up to some index the
/// two agree, and there `a` holds the smaller byte.
pub open spec fn before(a: Seq<u8>, b: Seq<u8>) -> bool {
    exists|index: int|
        0 <= index < a.len() && index < b.len() && #[trigger] a.take(index) == b.take(index)
            && a[index] < b[index]
}

/// `a` is strictly simpler than `b`: shorter, or as long and before it in
/// the order of the dictionary.
pub open spec fn simpler(a: Seq<u8>, b: Seq<u8>) -> bool {
    a.len() < b.len() || (a.len() == b.len() && before(a, b))
}

/// `a` is strictly lighter than `b`: shorter, or as long and of less
/// weight. This is the measure by which a search is known to end.
pub open spec fn lighter(a: Seq<u8>, b: Seq<u8>) -> bool {
    a.len() < b.len() || (a.len() == b.len() && weight(a) < weight(b))
}

/// What comes before something that comes before a third comes before the
/// third.
pub proof fn lemma_before_is_transitive(a: Seq<u8>, b: Seq<u8>, c: Seq<u8>)
    requires
        before(a, b),
        before(b, c),
    ensures
        before(a, c),
{
    let i = choose|index: int|
        0 <= index < a.len() && index < b.len() && #[trigger] a.take(index) == b.take(index)
            && a[index] < b[index];
    let j = choose|index: int|
        0 <= index < b.len() && index < c.len() && #[trigger] b.take(index) == c.take(index)
            && b[index] < c[index];
    let k = if i <= j {
        i
    } else {
        j
    };
    assert(a.take(k) == c.take(k)) by {
        assert forall|at: int| 0 <= at < k implies a[at] == c[at] by {
            assert(a.take(i)[at] == b.take(i)[at]);
            assert(b.take(j)[at] == c.take(j)[at]);
        }
        assert(a.take(k) =~= c.take(k));
    }
    if i < j {
        assert(b.take(j)[i] == c.take(j)[i]);
    } else if j < i {
        assert(a.take(i)[j] == b.take(i)[j]);
    }
    assert(a[k] < c[k]);
}

/// What is simpler than something simpler than a third is simpler than the
/// third.
pub proof fn lemma_simpler_is_transitive(a: Seq<u8>, b: Seq<u8>, c: Seq<u8>)
    requires
        simpler(a, b),
        simpler(b, c),
    ensures
        simpler(a, c),
{
    if a.len() == b.len() && b.len() == c.len() {
        lemma_before_is_transitive(a, b, c);
    }
}

/// Nothing is simpler than itself, and of two sequences at most one is
/// simpler than the other.
pub proof fn lemma_simpler_is_strict(a: Seq<u8>, b: Seq<u8>)
    requires
        simpler(a, b),
    ensures
        a != b,
        !simpler(b, a),
{
    if a.len() == b.len() {
        let i = choose|index: int|
            0 <= index < a.len() && index < b.len() && #[trigger] a.take(index) == b.take(index)
                && a[index] < b[index];
        if before(b, a) {
            let j = choose|index: int|
                0 <= index < b.len() && index < a.len() && #[trigger] b.take(index) == a.take(
                    index,
                ) && b[index] < a[index];
            if i < j {
                assert(b.take(j)[i] == a.take(j)[i]);
            } else if j < i {
                assert(a.take(i)[j] == b.take(i)[j]);
            }
        }
    }
}

/// Lowering the byte at `index` to `value` lowers the weight.
pub proof fn lemma_weight_update(bytes: Seq<u8>, index: int, value: u8)
    requires
        0 <= index < bytes.len(),
    ensures
        weight(bytes.update(index, value)) + (bytes[index] as int) * (bytes.len() - index)
            == weight(bytes) + (value as int) * (bytes.len() - index),
    decreases bytes.len(),
{
    let after = bytes.update(index, value);
    if index == 0 {
        assert(after.skip(1) == bytes.skip(1));
    } else {
        assert(after.skip(1) == bytes.skip(1).update(index - 1, value));
        lemma_weight_update(bytes.skip(1), index - 1, value);
        assert(bytes.skip(1)[index - 1] == bytes[index]);
    }
}

/// Lowering one byte gives a simpler and lighter sequence.
pub proof fn lemma_lower_byte_is_simpler(bytes: Seq<u8>, index: int, value: u8)
    requires
        0 <= index < bytes.len(),
        value < bytes[index],
    ensures
        simpler(bytes.update(index, value), bytes),
        lighter(bytes.update(index, value), bytes),
{
    assert(bytes.update(index, value).take(index) == bytes.take(index));
    lemma_weight_update(bytes, index, value);
    let room = bytes.len() - index;
    assert((value as int) * room < (bytes[index] as int) * room) by (nonlinear_arith)
        requires
            value < bytes[index],
            room > 0,
    ;
}

/// Exchanging a byte with a smaller one right behind it gives a simpler
/// and lighter sequence.
pub proof fn lemma_swap_is_simpler(bytes: Seq<u8>, index: int)
    requires
        0 <= index,
        index + 1 < bytes.len(),
        bytes[index] > bytes[index + 1],
    ensures
        simpler(swapped(bytes, index), bytes),
        lighter(swapped(bytes, index), bytes),
{
    assert(swapped(bytes, index).take(index) == bytes.take(index));
    let a = bytes[index];
    let b = bytes[index + 1];
    let mid = bytes.update(index, b);
    lemma_weight_update(bytes, index, b);
    lemma_weight_update(mid, index + 1, a);
    let n = bytes.len() as int;
    assert((a as int) * (n - index) + (b as int) * (n - index - 1) > (b as int) * (n - index) + (
    a as int) * (n - index - 1)) by (nonlinear_arith)
        requires
            a > b,
    ;
}

/// The search for a shorter prefix went from `pre` to `post` and found one
/// (`ok`) or none. Lengths are tried from zero up, and the first on which
/// the test fails is kept.
pub open spec fn truncation(m: TestModel, pre: ShrinkState, post: ShrinkState, ok: bool) -> bool {
    &&& post.buffer == pre.buffer
    &&& forall|len: int| 0 <= len < post.end ==> m(#[trigger] pre.buffer.take(len), false)
    &&& if ok {
        post.end < pre.end && m(post.active(), true)
    } else {
        post.end == pre.end
    }
}

/// The search for a removable chunk at `index` went from `pre` to `post` and
/// removed one (`ok`) or none. The first `fixed` bytes are never removed,
/// and one byte behind the chunk always stays. Chunks are tried from the
/// longest down, and the first without which the test fails is removed.
/// Once the search has run, the buffer ends where the prefix under
/// consideration ends.
pub open spec fn chunk_removal(
    m: TestModel,
    fixed: nat,
    pre: ShrinkState,
    post: ShrinkState,
    index: int,
    ok: bool,
) -> bool {
    let room = pre.end - index;
    if index < fixed || room < 2 {
        !ok && post == pre
    } else {
        &&& post.end == post.buffer.len()
        &&& forall|count: int|
            pre.end - post.end < count < room ==> m(
                #[trigger] without_chunk(pre.active(), index, count),
                false,
            )
        &&& if ok {
            &&& index < post.end < pre.end
            &&& post.buffer == without_chunk(pre.active(), index, pre.end - post.end)
            &&& m(post.buffer, true)
        } else {
            post.end == pre.end && post.buffer == pre.active()
        }
    }
}

/// The attempt to exchange the bytes at `index` and `index + 1` went from
/// `pre` to `post` and kept the exchange (`ok`) or not. It is made only
/// where both bytes are under consideration and the first is the larger.
pub open spec fn sort_swap(
    m: TestModel,
    pre: ShrinkState,
    post: ShrinkState,
    index: int,
    ok: bool,
) -> bool {
    &&& post.end == pre.end
    &&& if index + 1 < pre.end && pre.buffer[index] > pre.buffer[index + 1] {
        if ok {
            post.buffer == swapped(pre.buffer, index) && m(post.active(), true)
        } else {
            post.buffer == pre.buffer && m(swapped(pre.buffer, index).take(pre.end as int), false)
        }
    } else {
        !ok && post.buffer == pre.buffer
    }
}

/// The search for a smaller byte at `index` went from `pre` to `post` and
/// found one (`ok`) or none. Values are tried from zero up, and the first
/// with which the test fails is kept.
pub open spec fn byte_shrink(
    m: TestModel,
    pre: ShrinkState,
    post: ShrinkState,
    index: int,
    ok: bool,
) -> bool {
    &&& post.end == pre.end
    &&& post.buffer == pre.buffer.update(index, post.buffer[index])
    &&& forall|value: u8|
        value < post.buffer[index] ==> m(
            #[trigger] pre.buffer.update(index, value).take(pre.end as int),
            false,
        )
    &&& if ok {
        post.buffer[index] < pre.buffer[index] && m(post.active(), true)
    } else {
        post.buffer == pre.buffer
    }
}

/// What one visit to `index` does: the three transforms are tried in the
/// order chunk removal, exchange, smaller byte, and the visit ends with the
/// first that is kept. `ok` says whether one was.
pub open spec fn index_step(
    m: TestModel,
    fixed: nat,
    pre: ShrinkState,
    post: ShrinkState,
    index: int,
    ok: bool,
) -> bool {
    ||| ok && chunk_removal(m, fixed, pre, post, index, true)
    ||| exists|mid: ShrinkState| #[trigger]
        chunk_removal(m, fixed, pre, mid, index, false) && {
            ||| ok && sort_swap(m, mid, post, index, true)
            ||| sort_swap(m, mid, mid, index, false) && byte_shrink(m, mid, post, index, ok)
        }
}

/// Where a search stands at `now` after it set out from `origin`: nothing
/// has grown, and what has changed was seen to fail and is simpler: shorter,
/// or as long and before it in the order of the dictionary.
pub open spec fn progress(m: TestModel, origin: ShrinkState, now: ShrinkState) -> bool {
    &&& now.wf()
    &&& now.end <= origin.end
    &&& now.active() == origin.active() || (m(now.active(), true) && simpler(
        now.active(),
        origin.active(),
    ))
}

/// One way of making the input simpler.
#[derive(Clone, Copy, Debug, PartialEq, Eq)]
pub enum Transform {
    /// Shorten the prefix under consideration.
    TruncationEnd,
    /// Remove a chunk that starts at the index.
    RemoveChunk(usize),
    /// Exchange the byte at the index with the next.
    Sort(usize),
    /// Lower the byte at the index.
    ByteShrink(usize),
}

impl Transform {
    /// Whether the transform can be tried on `state`: a chunk starts no
    /// later than the prefix under consideration ends, and a byte to lower
    /// lies in that prefix.
    pub open spec fn fits(self, state: ShrinkState) -> bool {
        match self {
            Transform::TruncationEnd => true,
            Transform::RemoveChunk(index) => index <= state.end,
            Transform::Sort(_) => true,
            Transform::ByteShrink(index) => index < state.end,
        }
    }
}

/// The attempt at `transform` went from `pre` to `post` and changed the
/// input (`ok`) or not.
pub open spec fn applied(
    m: TestModel,
    fixed: nat,
    pre: ShrinkState,
    post: ShrinkState,
    transform: Transform,
    ok: bool,
) -> bool {
    match transform {
        Transform::TruncationEnd => truncation(m, pre, post, ok),
        Transform::RemoveChunk(index) => chunk_removal(m, fixed, pre, post, index as int, ok),
        Transform::Sort(index) => sort_swap(m, pre, post, index as int, ok),
        Transform::ByteShrink(index) => byte_shrink(m, pre, post, index as int, ok),
    }
}

/// What every attempt comes to: nothing grows; a change is simpler and
/// lighter and was seen to fail; without a change the test sees what it
/// saw before.
pub open spec fn advance(m: TestModel, pre: ShrinkState, post: ShrinkState, ok: bool) -> bool {
    &&& post.wf()
    &&& post.end <= pre.end
    &&& if ok {
        &&& m(post.active(), true)
        &&& simpler(post.active(), pre.active())
        &&& lighter(post.active(), pre.active())
    } else {
        post.active() == pre.active()
    }
}

/// A search for a shorter prefix is an advance.
pub proof fn lemma_truncation_advances(m: TestModel, pre: ShrinkState, post: ShrinkState, ok: bool)
    requires
        pre.wf(),
        truncation(m, pre, post, ok),
    ensures
        advance(m, pre, post, ok),
{
    if !ok {
        assert(post == pre);
    }
}

/// A search for a removable chunk is an advance.
pub proof fn lemma_chunk_removal_advances(
    m: TestModel,
    fixed: nat,
    pre: ShrinkState,
    post: ShrinkState,
    index: int,
    ok: bool,
)
    requires
        pre.wf(),
        0 <= index <= pre.end,
        chunk_removal(m, fixed, pre, post, index, ok),
    ensures
        advance(m, pre, post, ok),
{
    if index >= fixed && pre.end - index >= 2 {
        assert(post.buffer.take(post.end as int) == post.buffer);
    }
}

/// An attempt at an exchange is an advance.
pub proof fn lemma_sort_swap_advances(
    m: TestModel,
    pre: ShrinkState,
    post: ShrinkState,
    index: int,
    ok: bool,
)
    requires
        pre.wf(),
        0 <= index,
        sort_swap(m, pre, post, index, ok),
    ensures
        advance(m, pre, post, ok),
{
    if ok {
        assert(post.active() == swapped(pre.active(), index));
        lemma_swap_is_simpler(pre.active(), index);
    } else {
        assert(post == pre);
    }
}

/// A search for a smaller byte in the prefix under consideration is an
/// advance.
pub proof fn lemma_byte_shrink_advances(
    m: TestModel,
    pre: ShrinkState,
    post: ShrinkState,
    index: int,
    ok: bool,
)
    requires
        pre.wf(),
        0 <= index < pre.end,
        byte_shrink(m, pre, post, index, ok),
    ensures
        advance(m, pre, post, ok),
{
    if ok {
        assert(post.active() == pre.active().update(index, post.buffer[index]));
        lemma_lower_byte_is_simpler(pre.active(), index, post.buffer[index]);
    } else {
        assert(post == pre);
    }
}

/// An attempt at a transform that fits is an advance.
pub proof fn lemma_applied_advances(
    m: TestModel,
    fixed: nat,
    pre: ShrinkState,
    post: ShrinkState,
    transform: Transform,
    ok: bool,
)
    requires
        pre.wf(),
        transform.fits(pre),
        applied(m, fixed, pre, post, transform, ok),
    ensures
        advance(m, pre, post, ok),
{
    match transform {
        Transform::TruncationEnd => lemma_truncation_advances(m, pre, post, ok),
        Transform::RemoveChunk(index) => lemma_chunk_removal_advances(m, fixed,
            pre,
            post,
            index as int,
            ok,
        ),
        Transform::Sort(index) => lemma_sort_swap_advances(m, pre, post, index as int, ok),
        Transform::ByteShrink(index) => lemma_byte_shrink_advances(m, pre, post, index as int, ok),
    }
}

/// Two advances in a row are one.
pub proof fn lemma_advance_twice(
    m: TestModel,
    a: ShrinkState,
    b: ShrinkState,
    c: ShrinkState,
    first: bool,
    second: bool,
)
    requires
        a.wf(),
        advance(m, a, b, first),
        advance(m, b, c, second),
    ensures
        advance(m, a, c, first || second),
{
    if first && second {
        lemma_simpler_is_transitive(c.active(), b.active(), a.active());
    }
}

/// An advance keeps the progress made.
pub proof fn lemma_progress_advances(
    m: TestModel,
    origin: ShrinkState,
    pre: ShrinkState,
    post: ShrinkState,
    ok: bool,
)
    requires
        origin.wf(),
        progress(m, origin, pre),
        advance(m, pre, post, ok),
    ensures
        progress(m, origin, post),
{
    if ok && pre.active() != origin.active() {
        lemma_simpler_is_transitive(post.active(), pre.active(), origin.active());
    }
}

/// A visit to an index of the prefix under consideration is an advance.
pub proof fn lemma_index_step_advances(
    m: TestModel,
    fixed: nat,
    pre: ShrinkState,
    post: ShrinkState,
    index: int,
    ok: bool,
)
    requires
        pre.wf(),
        0 <= index < pre.end,
        index_step(m, fixed, pre, post, index, ok),
    ensures
        advance(m, pre, post, ok),
{
    if ok && chunk_removal(m, fixed, pre, post, index, true) {
        lemma_chunk_removal_advances(m, fixed, pre, post, index, true);
    } else {
        let mid = choose|mid: ShrinkState| #[trigger]
            chunk_removal(m, fixed, pre, mid, index, false) && {
                ||| ok && sort_swap(m, mid, post, index, true)
                ||| sort_swap(m, mid, mid, index, false) && byte_shrink(m, mid, post, index, ok)
            };
        lemma_chunk_removal_advances(m, fixed, pre, mid, index, false);
        if ok && sort_swap(m, mid, post, index, true) {
            lemma_sort_swap_advances(m, mid, post, index, true);
            lemma_advance_twice(m, pre, mid, post, false, true);
        } else {
            lemma_byte_shrink_advances(m, mid, post, index, ok);
            lemma_advance_twice(m, pre, mid, post, false, ok);
        }
    }
}

/// Nothing is to be gained at `index` of `bytes`: the test was seen not to
/// fail without any chunk that may go there, with the byte exchanged with
/// a smaller one behind it, and with any smaller byte in its place.
pub open spec fn settled_at(m: TestModel, fixed: nat, bytes: Seq<u8>, index: int) -> bool {
    &&& forall|count: int|
        fixed <= index && 0 < count < bytes.len() - index ==> m(
            #[trigger] without_chunk(bytes, index, count),
            false,
        )
    &&& index + 1 < bytes.len() && bytes[index] > bytes[index + 1] ==> m(
        swapped(bytes, index),
        false,
    )
    &&& forall|value: u8| value < bytes[index] ==> m(#[trigger] bytes.update(index, value), false)
}

/// Nothing is to be gained on `state`: the test was seen not to fail on any
/// shorter prefix, and nothing is to be gained at any index.
pub open spec fn settled(m: TestModel, fixed: nat, state: ShrinkState) -> bool {
    &&& forall|len: int| 0 <= len < state.end ==> m(#[trigger] state.active().take(len), false)
    &&& forall|index: int|
        0 <= index < state.end ==> #[trigger] settled_at(m, fixed, state.active(), index)
}

/// A search for a shorter prefix that found none has seen the test not
/// fail on each of them.
pub proof fn lemma_truncation_settles(m: TestModel, pre: ShrinkState, post: ShrinkState)
    requires
        pre.wf(),
        truncation(m, pre, post, false),
    ensures
        forall|len: int| 0 <= len < pre.end ==> m(#[trigger] pre.active().take(len), false),
{
    assert forall|len: int| 0 <= len < pre.end implies m(
        #[trigger] pre.active().take(len),
        false,
    ) by {
        assert(pre.active().take(len) == pre.buffer.take(len));
    }
}

/// A visit to an index that kept nothing has seen that nothing is to be
/// gained there.
pub proof fn lemma_index_step_settles(
    m: TestModel,
    fixed: nat,
    pre: ShrinkState,
    post: ShrinkState,
    index: int,
)
    requires
        pre.wf(),
        0 <= index < pre.end,
        index_step(m, fixed, pre, post, index, false),
    ensures
        settled_at(m, fixed, pre.active(), index),
{
    let bytes = pre.active();
    let mid = choose|mid: ShrinkState| #[trigger]
        chunk_removal(m, fixed, pre, mid, index, false) && sort_swap(m, mid, mid, index, false)
            && byte_shrink(m, mid, post, index, false);
    lemma_chunk_removal_advances(m, fixed, pre, mid, index, false);
    assert(mid.active() == bytes);
    assert(mid.end == pre.end);
    if index + 1 < bytes.len() && bytes[index] > bytes[index + 1] {
        assert(swapped(mid.buffer, index).take(mid.end as int) == swapped(bytes, index));
    }
    assert forall|value: u8| value < bytes[index] implies m(
        #[trigger] bytes.update(index, value),
        false,
    ) by {
        assert(mid.buffer.update(index, value).take(mid.end as int) == bytes.update(index, value));
    }
}

/// What a search leaves at `post` after it set out from `pre`: the progress
/// made, and below the final length no prefix of the first buffer on which
/// the test was not seen not to fail.
pub open spec fn searched(m: TestModel, pre: ShrinkState, post: ShrinkState) -> bool {
    &&& progress(m, pre, post)
    &&& forall|len: int| 0 <= len < post.end ==> m(#[trigger] pre.buffer.take(len), false)
}

} // verus!
