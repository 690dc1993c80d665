//! Laws that hold of every sequence of requests made to one chunk.

use vstd::prelude::*;

use crate::arena_box::Placement;
use crate::layout::lemma_padding;
use crate::raw_block::lemma_overwrite_read_back;
use crate::single_chunk::ChunkView;

verus! {

/// The state of a chunk after each request `(data, align)` in turn, as
/// `SingleArena::allocate` leaves it.
pub open spec fn after_requests(c: ChunkView, reqs: Seq<(Seq<u8>, nat)>) -> ChunkView
    decreases reqs.len(),
{
    if reqs.len() == 0 {
        c
    } else {
        after_requests(c, reqs.drop_last()).step(reqs.last().0, reqs.last().1)
    }
}

/// Every request asks for an alignment of at least 1, for an object whose
/// size fits in `usize`.
pub open spec fn valid_requests(reqs: Seq<(Seq<u8>, nat)>) -> bool {
    forall|i: int| 0 <= i < reqs.len() ==> #[trigger] reqs[i].1 > 0 && reqs[i].0.len() <= usize::MAX
}

/// Whatever the sequence of requests, the bytes consumed, padding included,
/// never exceed the chunk's size, and the cursor never moves back.
pub proof fn lemma_capacity_never_exceeded(c: ChunkView, reqs: Seq<(Seq<u8>, nat)>)
    requires
        c.wf(),
        valid_requests(reqs),
    ensures
        after_requests(c, reqs).wf(),
        c.cursor <= after_requests(c, reqs).cursor <= c.size,
        after_requests(c, reqs).size == c.size,
    decreases reqs.len(),
{
    if reqs.len() > 0 {
        let prefix = reqs.drop_last();
        assert(valid_requests(prefix)) by {
            assert forall|i: int| 0 <= i < prefix.len() implies #[trigger] prefix[i].1 > 0 && prefix[i].0.len() <= usize::MAX by {
                assert(prefix[i] == reqs[i]);
            }
        }
        lemma_capacity_never_exceeded(c, prefix);
    }
}

/// A request that does not fit leaves the chunk exactly as it was: its
/// cursor, its count and its bytes.
pub proof fn lemma_refused_request_changes_nothing(c: ChunkView, data: Seq<u8>, align: nat)
    requires
        c.wf(),
        align > 0,
        !c.fits(data.len(), align),
    ensures
        c.step(data, align) == c,
{
}

/// The address given to an object is a multiple of its alignment.
pub proof fn lemma_placement_aligned(c: ChunkView, align: nat)
    requires
        align > 0,
    ensures
        c.placed_at(align) % align == 0,
{
    lemma_padding(c.free_address(), align);
}

/// Any number of zero-size requests leaves capacity, count and bytes as they
/// were.
pub proof fn lemma_zero_sized_requests_change_nothing(c: ChunkView, reqs: Seq<(Seq<u8>, nat)>)
    requires
        forall|i: int| 0 <= i < reqs.len() ==> (#[trigger] reqs[i]).0.len() == 0,
    ensures
        after_requests(c, reqs) == c,
    decreases reqs.len(),
{
    if reqs.len() > 0 {
        let prefix = reqs.drop_last();
        assert forall|i: int| 0 <= i < prefix.len() implies (#[trigger] prefix[i]).0.len() == 0 by {
            assert(prefix[i] == reqs[i]);
        }
        lemma_zero_sized_requests_change_nothing(c, prefix);
        assert(reqs.last() == reqs[reqs.len() - 1]);
    }
}

/// Placing an object and then taking it out gives back the bytes placed,
/// and the live count goes up by one and down by exactly one.
pub proof fn lemma_place_then_extract(c: ChunkView, data: Seq<u8>, align: nat)
    requires
        c.wf(),
        align > 0,
        data.len() > 0,
        c.fits(data.len(), align),
    ensures
        ({
            let after = c.place(data, align);
            let p = Placement { address: c.placed_at(align), len: data.len(), chunk: Some(0) };
            &&& after.holds(p)
            &&& after.can_release(p)
            &&& after.value_of(p) == data
            &&& after.allocations == c.allocations + 1
            &&& after.release(p).allocations == c.allocations
            &&& after.release(p).cursor == after.cursor
            &&& after.release(p).memory == after.memory
        }),
{
    let offset = c.cursor + c.padding_for(align);
    lemma_overwrite_read_back(c.memory, offset as int, data);
}

/// `reqs` holds `n` requests, each for `s` bytes with alignment 1.
pub open spec fn uniform_requests(reqs: Seq<(Seq<u8>, nat)>, n: nat, s: nat) -> bool {
    &&& reqs.len() == n
    &&& forall|i: int| 0 <= i < reqs.len() ==> (#[trigger] reqs[i]).0.len() == s && reqs[i].1 == 1
}

proof fn lemma_uniform_prefix(c: ChunkView, reqs: Seq<(Seq<u8>, nat)>, n: nat, s: nat, k: nat)
    requires
        c.wf(),
        c.cursor == 0,
        s > 0,
        n * s == c.size,
        uniform_requests(reqs, n, s),
        k <= n,
    ensures
        ({
            let st = after_requests(c, reqs.take(k as int));
            &&& st.wf()
            &&& st.start == c.start
            &&& st.size == c.size
            &&& st.cursor == k * s
            &&& st.allocations == k
        }),
    decreases k,
{
    if k == 0 {
        assert(reqs.take(0) =~= Seq::<(Seq<u8>, nat)>::empty());
    } else {
        let k1 = (k - 1) as nat;
        lemma_uniform_prefix(c, reqs, n, s, k1);
        let prev = after_requests(c, reqs.take(k1 as int));
        assert(reqs.take(k as int).drop_last() =~= reqs.take(k1 as int));
        assert(reqs.take(k as int).last() == reqs[k1 as int]);
        assert(prev.free_address() % 1 == 0);
        assert(k1 * s + s == k * s) by (nonlinear_arith)
            requires
                k1 + 1 == k,
        ;
        assert(k * s <= n * s) by (nonlinear_arith)
            requires
                k <= n,
        ;
    }
}

/// Filling a chunk of `n * s` bytes with `n` objects of `s` bytes each,
/// alignment 1, from an empty cursor: every request is granted, request `i`
/// gets the bytes from `start + i * s` (so no two ranges overlap), exactly the
/// whole capacity is consumed, and every further request of a non-empty
/// object is refused. A concurrent chunk runs each allocation as one such
/// step under its lock, so this holds whichever thread makes each request.
pub proof fn lemma_uniform_fill(c: ChunkView, reqs: Seq<(Seq<u8>, nat)>, n: nat, s: nat)
    requires
        c.wf(),
        c.cursor == 0,
        s > 0,
        n * s == c.size,
        uniform_requests(reqs, n, s),
    ensures
        forall|i: nat|
            i < n ==> {
                let before = #[trigger] after_requests(c, reqs.take(i as int));
                &&& before.fits(s, 1)
                &&& before.placed_at(1) == c.start + i * s
            },
        after_requests(c, reqs).cursor == c.size,
        after_requests(c, reqs).allocations == n,
        forall|len: nat, align: nat|
            len > 0 && align > 0 ==> !#[trigger] after_requests(c, reqs).fits(len, align),
{
    assert forall|i: nat| i < n implies {
        let before = #[trigger] after_requests(c, reqs.take(i as int));
        &&& before.fits(s, 1)
        &&& before.placed_at(1) == c.start + i * s
    } by {
        lemma_uniform_prefix(c, reqs, n, s, i);
        let before = after_requests(c, reqs.take(i as int));
        assert(before.free_address() % 1 == 0);
        assert(i * s + s <= n * s) by (nonlinear_arith)
            requires
                i < n,
        ;
    }
    lemma_uniform_prefix(c, reqs, n, s, n);
    assert(reqs.take(n as int) =~= reqs);
}

} // verus!
