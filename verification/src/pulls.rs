//! What a run of pulls leaves in the store.
//!
//! One pull appends what one read attempt obtained
//! ([`after_pull`](crate::buffer::after_pull)). The laws here speak of many
//! pulls in a row: however a stream is cut into chunks, pulling the chunks one
//! after the other rebuilds the stream behind what the store already held, byte
//! for byte and in order, and never moves the position.

use crate::buffer::after_pull;
use crate::cursor::CursorView;
use vstd::prelude::*;

verus! {

/// The view after pulling `chunks` one after the other, where each chunk is
/// what one read attempt obtained.
pub open spec fn after_pulls(before: CursorView, chunks: Seq<Seq<u8>>) -> CursorView
    decreases chunks.len(),
{
    if chunks.len() == 0 {
        before
    } else {
        after_pulls(before, chunks.drop_last()).extended(chunks.last())
    }
}

/// The number of bytes in all of `chunks` together.
pub open spec fn total_len(chunks: Seq<Seq<u8>>) -> nat
    decreases chunks.len(),
{
    if chunks.len() == 0 {
        0
    } else {
        total_len(chunks.drop_last()) + chunks.last().len()
    }
}

/// The sum of `sizes`.
pub open spec fn sum(sizes: Seq<nat>) -> nat
    decreases sizes.len(),
{
    if sizes.len() == 0 {
        0
    } else {
        sum(sizes.drop_last()) + sizes.last()
    }
}

/// The chunks in which a source hands out `data` when its successive read
/// attempts obtain `sizes[0]`, `sizes[1]`, ... bytes: chunk `i` starts where
/// chunk `i - 1` ended.
pub open spec fn cut(data: Seq<u8>, sizes: Seq<nat>) -> Seq<Seq<u8>>
    decreases sizes.len(),
{
    if sizes.len() == 0 {
        Seq::empty()
    } else {
        let start = sum(sizes.drop_last());
        let end = start + sizes.last();
        cut(data, sizes.drop_last()).push(data.subrange(start as int, end as int))
    }
}

/// A pull is a step of a run of pulls: the first `count` staged bytes are the
/// chunk that the step appends.
pub proof fn lemma_pull_is_step(
    before: CursorView,
    chunks: Seq<Seq<u8>>,
    staged: Seq<u8>,
    count: nat,
)
    ensures
        after_pull(after_pulls(before, chunks), staged, count) == after_pulls(
            before,
            chunks.push(staged.take(count as int)),
        ),
{
    let next = chunks.push(staged.take(count as int));
    assert(next.drop_last() == chunks);
}

/// A pull that obtained nothing changes nothing, whatever the staging chunk
/// holds. On an empty buffer it leaves the store empty and the position at 0.
pub proof fn lemma_pull_of_nothing(before: CursorView, staged: Seq<u8>)
    ensures
        after_pull(before, staged, 0) == before,
        after_pull(CursorView::empty(), staged, 0) == CursorView::empty(),
{
    assert(after_pull(before, staged, 0).bytes == before.bytes);
    assert(after_pull(CursorView::empty(), staged, 0).bytes == CursorView::empty().bytes);
}

/// A pull that obtained `count` bytes grows the store by exactly `count`: what
/// the store held stays in front, unchanged, the first `count` staged bytes
/// follow, and the position is where it was.
pub proof fn lemma_pull_grows_by_count(before: CursorView, staged: Seq<u8>, count: nat)
    requires
        count <= staged.len(),
    ensures
        after_pull(before, staged, count).bytes.len() == before.bytes.len() + count,
        after_pull(before, staged, count).bytes.take(before.bytes.len() as int) == before.bytes,
        after_pull(before, staged, count).bytes.skip(before.bytes.len() as int) == staged.take(
            count as int,
        ),
        after_pull(before, staged, count).position == before.position,
{
}

/// Pulls accumulate: after any run of pulls the store holds what it held
/// before, followed by every chunk in the order of the pulls, with nothing
/// dropped or doubled, and the position is where it was.
pub proof fn lemma_pulls_concatenate(before: CursorView, chunks: Seq<Seq<u8>>)
    ensures
        after_pulls(before, chunks).bytes == before.bytes + chunks.flatten(),
        after_pulls(before, chunks).bytes.len() == before.bytes.len() + total_len(chunks),
        after_pulls(before, chunks).position == before.position,
    decreases chunks.len(),
{
    if chunks.len() == 0 {
        assert(chunks.flatten() == Seq::<u8>::empty());
        assert(before.bytes + chunks.flatten() == before.bytes);
    } else {
        let init = chunks.drop_last();
        lemma_pulls_concatenate(before, init);
        init.lemma_flatten_push(chunks.last());
        assert(init.push(chunks.last()) == chunks);
        assert(before.bytes + init.flatten() + chunks.last() == before.bytes + (init.flatten()
            + chunks.last()));
    }
}

/// Cutting a stream into chunks loses nothing: where the sizes do not reach
/// past the end of `data`, there is one chunk for each size, and the chunks
/// put together are the first `sum(sizes)` bytes of `data`.
pub proof fn lemma_cut_flatten(data: Seq<u8>, sizes: Seq<nat>)
    requires
        sum(sizes) <= data.len(),
    ensures
        cut(data, sizes).len() == sizes.len(),
        cut(data, sizes).flatten() == data.take(sum(sizes) as int),
        total_len(cut(data, sizes)) == sum(sizes),
    decreases sizes.len(),
{
    if sizes.len() == 0 {
        assert(cut(data, sizes).flatten() == Seq::<u8>::empty());
        assert(data.take(0) == Seq::<u8>::empty());
    } else {
        let init = sizes.drop_last();
        let before = sum(init);
        let piece = data.subrange(before as int, (before + sizes.last()) as int);
        lemma_cut_flatten(data, init);
        cut(data, init).lemma_flatten_push(piece);
        assert(cut(data, sizes).drop_last() == cut(data, init));
        assert(cut(data, sizes).last() == piece);
        assert(data.take(before as int) + piece == data.take(sum(sizes) as int));
    }
}

/// Every chunk of a cut stream has the size asked for.
pub proof fn lemma_cut_sizes(data: Seq<u8>, sizes: Seq<nat>, i: int)
    requires
        sum(sizes) <= data.len(),
        0 <= i < sizes.len(),
    ensures
        cut(data, sizes).len() == sizes.len(),
        cut(data, sizes)[i].len() == sizes[i],
    decreases sizes.len(),
{
    lemma_cut_flatten(data, sizes);
    let init = sizes.drop_last();
    if i < init.len() {
        lemma_cut_sizes(data, init, i);
    }
}

/// Draining a source: whatever the sizes of the chunks in which a source hands
/// out `data`, pulling until it is exhausted, the closing pull that obtains
/// nothing included, leaves a store that holds what it held before followed by
/// `data`, grown by exactly the length of `data`, with the position unmoved.
pub proof fn lemma_drained_source(before: CursorView, data: Seq<u8>, sizes: Seq<nat>)
    requires
        sum(sizes) == data.len(),
    ensures
        after_pulls(before, cut(data, sizes)).bytes == before.bytes + data,
        after_pulls(before, cut(data, sizes).push(Seq::empty())) == after_pulls(
            before,
            cut(data, sizes),
        ),
        after_pulls(before, cut(data, sizes)).bytes.len() == before.bytes.len() + data.len(),
        after_pulls(before, cut(data, sizes)).position == before.position,
{
    let chunks = cut(data, sizes);
    lemma_cut_flatten(data, sizes);
    lemma_pulls_concatenate(before, chunks);
    assert(data.take(data.len() as int) == data);
    let closed = chunks.push(Seq::empty());
    assert(closed.drop_last() == chunks);
    assert(after_pulls(before, chunks).extended(Seq::empty()).bytes == after_pulls(
        before,
        chunks,
    ).bytes);
}

} // verus!
