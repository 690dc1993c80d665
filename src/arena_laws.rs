//! Laws of the growable arena over any sequence of requests.

use vstd::prelude::*;

use crate::arena_allocator::{
    arena_can_release, arena_holds, arena_placement, arena_step, arena_value_of, arena_wf,
    arena_write, last_fits, new_chunk_size,
};
use crate::arena_box::Placement;
use crate::chunk_laws::{lemma_place_then_extract, valid_requests};
use crate::raw_block::{lemma_overwrite_elsewhere, lemma_overwrite_read_back};
use crate::single_chunk::{fresh_chunk, ChunkView};

verus! {

/// The arena's chunks after each request `(data, align)` in turn, as
/// `Arena::allocate` leaves them.
pub open spec fn arena_after_requests(chunks: Seq<ChunkView>, reqs: Seq<(Seq<u8>, nat)>) -> Seq<
    ChunkView,
>
    decreases reqs.len(),
{
    if reqs.len() == 0 {
        chunks
    } else {
        arena_step(arena_after_requests(chunks, reqs.drop_last()), reqs.last().0, reqs.last().1)
    }
}

/// The handle that `Arena::allocate` returns for request `i`.
pub open spec fn handle_of_request(chunks: Seq<ChunkView>, reqs: Seq<(Seq<u8>, nat)>, i: int) -> Placement {
    arena_placement(arena_after_requests(chunks, reqs.take(i)), reqs[i].0, reqs[i].1)
}

/// One allocation keeps the arena well formed, and adds at most one chunk.
pub proof fn lemma_step_wf(chunks: Seq<ChunkView>, data: Seq<u8>, align: nat)
    requires
        arena_wf(chunks),
        align > 0,
        data.len() <= usize::MAX,
    ensures
        arena_wf(arena_step(chunks, data, align)),
        chunks.len() <= arena_step(chunks, data, align).len() <= chunks.len() + 1,
{
    let next = arena_step(chunks, data, align);
    if data.len() > 0 && !last_fits(chunks, data.len(), align) {
        let f = fresh_chunk(0, new_chunk_size(data.len()));
        assert(f.padding_for(align) == 0) by {
            vstd::arithmetic::div_mod::lemma_small_mod(0, align);
        }
        assert(f.wf());
    }
    assert forall|i: int| 0 <= i < next.len() implies (#[trigger] next[i]).wf() by {
        if i < chunks.len() {
            assert(chunks[i].wf());
        }
    }
}

/// The handle just returned refers to the bytes just placed, and can be
/// released.
pub proof fn lemma_new_handle_holds_value(chunks: Seq<ChunkView>, data: Seq<u8>, align: nat)
    requires
        arena_wf(chunks),
        align > 0,
        data.len() <= usize::MAX,
    ensures
        ({
            let next = arena_step(chunks, data, align);
            let p = arena_placement(chunks, data, align);
            &&& arena_holds(next, p)
            &&& arena_can_release(next, p)
            &&& arena_value_of(next, p) == data
        }),
{
    if data.len() > 0 {
        if last_fits(chunks, data.len(), align) {
            assert(chunks.last() == chunks[chunks.len() - 1]);
            lemma_place_then_extract(chunks.last(), data, align);
        } else {
            let f = fresh_chunk(0, new_chunk_size(data.len()));
            assert(f.padding_for(align) == 0) by {
                vstd::arithmetic::div_mod::lemma_small_mod(0, align);
            }
            lemma_place_then_extract(f, data, align);
        }
    }
}

/// A handle that refers to an object keeps referring to the same bytes
/// after any later allocation, including one that makes the arena grow.
pub proof fn lemma_handle_survives_allocation(
    chunks: Seq<ChunkView>,
    p: Placement,
    data: Seq<u8>,
    align: nat,
)
    requires
        arena_wf(chunks),
        arena_holds(chunks, p),
        align > 0,
    ensures
        arena_holds(arena_step(chunks, data, align), p),
        arena_value_of(arena_step(chunks, data, align), p) == arena_value_of(chunks, p),
        arena_can_release(chunks, p) ==> arena_can_release(arena_step(chunks, data, align), p),
{
    if data.len() > 0 && p.len > 0 && last_fits(chunks, data.len(), align) {
        let last = (chunks.len() - 1) as int;
        let i = p.chunk->Some_0 as int;
        if i == last {
            let c = chunks[last];
            assert(c.wf());
            let offset = c.cursor + c.padding_for(align);
            lemma_overwrite_elsewhere(
                c.memory,
                offset as int,
                data,
                p.address - c.start,
                p.address - c.start + p.len,
            );
        }
    }
}

/// Whatever the requests, every handle the arena gave out still refers to
/// the bytes it was given for after all later requests: the arena never
/// refuses a request and never invalidates a handle as it grows.
pub proof fn lemma_every_handle_keeps_its_value(chunks: Seq<ChunkView>, reqs: Seq<(Seq<u8>, nat)>)
    requires
        arena_wf(chunks),
        valid_requests(reqs),
    ensures
        arena_wf(arena_after_requests(chunks, reqs)),
        arena_after_requests(chunks, reqs).len() <= chunks.len() + reqs.len(),
        forall|i: int|
            0 <= i < reqs.len() ==> {
                let p = #[trigger] handle_of_request(chunks, reqs, i);
                let end = arena_after_requests(chunks, reqs);
                &&& arena_holds(end, p)
                &&& arena_can_release(end, p)
                &&& arena_value_of(end, p) == reqs[i].0
            },
    decreases reqs.len(),
{
    if reqs.len() > 0 {
        let n = reqs.len() - 1;
        let prefix = reqs.drop_last();
        assert(valid_requests(prefix)) by {
            assert forall|i: int| 0 <= i < prefix.len() implies #[trigger] prefix[i].1 > 0 && prefix[i].0.len() <= usize::MAX by {
                assert(prefix[i] == reqs[i]);
            }
        }
        lemma_every_handle_keeps_its_value(chunks, prefix);
        let mid = arena_after_requests(chunks, prefix);
        let data = reqs.last().0;
        let align = reqs.last().1;
        assert(reqs.last() == reqs[n]);
        lemma_step_wf(mid, data, align);
        let end = arena_after_requests(chunks, reqs);
        assert forall|i: int| 0 <= i < reqs.len() implies {
            let p = #[trigger] handle_of_request(chunks, reqs, i);
            &&& arena_holds(end, p)
            &&& arena_can_release(end, p)
            &&& arena_value_of(end, p) == reqs[i].0
        } by {
            if i < n {
                assert(reqs.take(i) =~= prefix.take(i));
                assert(prefix[i] == reqs[i]);
                assert(handle_of_request(chunks, reqs, i) == handle_of_request(chunks, prefix, i));
                lemma_handle_survives_allocation(mid, handle_of_request(chunks, prefix, i), data, align);
            } else {
                assert(reqs.take(n) =~= prefix);
                lemma_new_handle_holds_value(mid, data, align);
            }
        }
    }
}

/// Two handles refer to byte ranges that do not overlap: they belong to
/// different chunks, or their ranges in one chunk are apart.
pub open spec fn disjoint(p: Placement, q: Placement) -> bool {
    p.len == 0 || q.len == 0 || p.chunk != q.chunk || p.address + p.len <= q.address || q.address
        + q.len <= p.address
}

/// Writing through one handle gives its new bytes back on the next read,
/// and leaves the bytes of every object that does not overlap it as they
/// were.
pub proof fn lemma_write_then_read(
    chunks: Seq<ChunkView>,
    p: Placement,
    data: Seq<u8>,
    q: Placement,
)
    requires
        arena_wf(chunks),
        arena_holds(chunks, p),
        arena_holds(chunks, q),
        data.len() == p.len,
        disjoint(p, q),
    ensures
        arena_holds(arena_write(chunks, p, data), p),
        arena_value_of(arena_write(chunks, p, data), p) == data,
        arena_holds(arena_write(chunks, p, data), q),
        arena_value_of(arena_write(chunks, p, data), q) == arena_value_of(chunks, q),
{
    if p.len > 0 {
        let i = p.chunk->Some_0 as int;
        let c = chunks[i];
        assert(c.wf());
        lemma_overwrite_read_back(c.memory, p.address - c.start, data);
        if q.len > 0 && q.chunk == p.chunk {
            lemma_overwrite_elsewhere(
                c.memory,
                p.address - c.start,
                data,
                q.address - c.start,
                q.address - c.start + q.len,
            );
        }
    }
}

} // verus!
