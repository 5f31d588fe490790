//! The paginator: splits a caller's `(address, length)` request into an
//! ordered sequence of `(offset, length)` sub-requests, each lying
//! entirely within one 32-byte page of the device. The same chunk
//! boundaries serve the write path (where each chunk needs its own
//! busy-retry) and the read path (where they bound the scratch buffer).

use vstd::prelude::*;

verus! {

/// The chunks that a request of `length` bytes starting at `address`
/// is split into: each chunk runs from its offset to at most the next
/// page boundary, and the next chunk starts where it ended.
pub open spec fn chunks_of(address: int, length: int) -> Seq<(int, int)>
    decreases length,
{
    if length <= 0 {
        Seq::empty()
    } else {
        let space = 32 - address % 32;
        let chunk = if space < length {
            space
        } else {
            length
        };
        seq![(address, chunk)] + chunks_of(address + chunk, length - chunk)
    }
}

/// The length of the chunk that starts at `start` in a request ending
/// at `end`: up to the next page boundary, or to `end`, whichever
/// comes first — the step that [`chunks_of`] takes at `start`.
pub open spec fn chunk_span(start: int, end: int) -> int {
    let space = 32 - start % 32;
    if space < end - start {
        space
    } else {
        end - start
    }
}

/// Whether `s` starts the final chunk of a request covering
/// `[address, end)`: a chunk boundary of that request whose chunk runs
/// exactly to `end` without leaving its page.
pub open spec fn is_last_chunk_start(address: int, end: int, s: int) -> bool {
    &&& address <= s < end
    &&& (s == address || s % 32 == 0)
    &&& end - s <= 32 - s % 32
}

/// Pagination coverage: the chunks of a request, concatenated in order,
/// cover exactly `[address, address + length)` — each chunk starts where
/// the previous one ended, the first starts at `address`, the last ends
/// at `address + length` — every chunk is non-empty, and every chunk
/// stays within one page.
pub proof fn lemma_chunks_cover(address: int, length: int)
    requires
        0 <= address,
        0 <= length,
    ensures
        chunks_of(address, length).len() == 0 <==> length == 0,
        length > 0 ==> chunks_of(address, length)[0].0 == address,
        length > 0 ==> chunks_of(address, length).last().0 + chunks_of(address, length).last().1
            == address + length,
        forall|k: int|
            0 <= k < chunks_of(address, length).len() ==> 0 < (
            #[trigger] chunks_of(address, length)[k]).1,
        forall|k: int|
            0 <= k < chunks_of(address, length).len() ==> (#[trigger] chunks_of(address, length)[k]).0
                % 32 + chunks_of(address, length)[k].1 <= 32,
        forall|k: int|
            0 <= k < chunks_of(address, length).len() - 1 ==> (
            #[trigger] chunks_of(address, length)[k + 1]).0 == chunks_of(address, length)[k].0
                + chunks_of(address, length)[k].1,
    decreases length,
{
    if length > 0 {
        let space = 32 - address % 32;
        let chunk = if space < length {
            space
        } else {
            length
        };
        lemma_chunks_cover(address + chunk, length - chunk);
        let head = seq![(address, chunk)];
        let tail = chunks_of(address + chunk, length - chunk);
        assert(chunks_of(address, length) == head + tail);
        assert(forall|k: int| 0 <= k < tail.len() ==> (head + tail)[k + 1] == tail[k]);
        if length - chunk > 0 {
            assert(tail[0].0 == address + chunk);
            assert((head + tail).last() == tail.last());
        }
    }
}

/// Single-page no-op split: a non-empty request that already fits within
/// one page yields exactly one chunk, equal to the request itself.
pub proof fn lemma_single_page_chunk(address: int, length: int)
    requires
        0 <= address,
        1 <= length,
        address % 32 + length <= 32,
    ensures
        chunks_of(address, length) == seq![(address, length)],
{
    let space = 32 - address % 32;
    assert(length <= space);
    assert(chunks_of(address + length, 0) == Seq::<(int, int)>::empty());
    assert(chunks_of(address, length) == seq![(address, length)] + chunks_of(address + length, 0));
    assert(chunks_of(address, length) =~= seq![(address, length)]);
}

/// Compute the page-bounded chunks of a request: each returned pair is
/// an `(offset, length)` sub-request of the chunk sequence, in order.
pub fn page_chunks(address: usize, length: usize) -> (r: Vec<(usize, usize)>)
    requires
        address + length <= usize::MAX,
    ensures
        r@.len() == chunks_of(address as int, length as int).len(),
        forall|k: int|
            0 <= k < r@.len() ==> (#[trigger] r@[k]).0 == chunks_of(
                address as int,
                length as int,
            )[k].0 && r@[k].1 == chunks_of(address as int, length as int)[k].1,
{
    let mut r: Vec<(usize, usize)> = Vec::new();
    let end = address + length;
    let mut i: usize = address;
    while i < end
        invariant
            address <= i <= end,
            end == address + length,
            end <= usize::MAX,
            chunks_of(address as int, length as int) == r@.map_values(
                |c: (usize, usize)| (c.0 as int, c.1 as int),
            ) + chunks_of(i as int, end - i),
            r@.len() == chunks_of(address as int, length as int).len() - chunks_of(
                i as int,
                end - i,
            ).len(),
        decreases end - i,
    {
        let page_offset = i % 32;
        let space = 32 - page_offset;
        let remaining = end - i;
        let chunk = if space < remaining {
            space
        } else {
            remaining
        };
        let ghost prev = r@;
        r.push((i, chunk));
        proof {
            assert(r@.map_values(|c: (usize, usize)| (c.0 as int, c.1 as int)) =~= prev.map_values(
                |c: (usize, usize)| (c.0 as int, c.1 as int),
            ) + seq![(i as int, chunk as int)]);
            assert(chunks_of(i as int, end - i) == seq![(i as int, chunk as int)] + chunks_of(
                i + chunk,
                end - i - chunk,
            ));
            assert(chunks_of(address as int, length as int) =~= r@.map_values(
                |c: (usize, usize)| (c.0 as int, c.1 as int),
            ) + chunks_of(i as int + chunk, end - (i + chunk)));
        }
        i += chunk;
    }
    proof {
        assert(chunks_of(i as int, end - i) =~= Seq::<(int, int)>::empty());
        assert(chunks_of(address as int, length as int) =~= r@.map_values(
            |c: (usize, usize)| (c.0 as int, c.1 as int),
        ));
        assert forall|k: int| 0 <= k < r@.len() implies (#[trigger] r@[k]).0 == chunks_of(
            address as int,
            length as int,
        )[k].0 && r@[k].1 == chunks_of(address as int, length as int)[k].1 by {
            assert(chunks_of(address as int, length as int)[k] == r@.map_values(
                |c: (usize, usize)| (c.0 as int, c.1 as int),
            )[k]);
        }
    }
    r
}

} // verus!
