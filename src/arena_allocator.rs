//! The growable arena: an append-only sequence of chunks.

use vstd::prelude::*;

use crate::arena_box::{ArenaBox, Placement};
use crate::chunk_linked_list::UnshrinkableLinkedList;
use crate::layout::{align_offset, lemma_padding};
use crate::raw_block::overwrite;
use crate::single_chunk::{fresh_chunk, ChunkView, SingleArena};

verus! {

/// Size of a chunk made when the arena grows for an object no larger.
pub const CHUNK_SIZE: usize = 4096;

/// Every chunk of the arena is well formed.
pub open spec fn arena_wf(chunks: Seq<ChunkView>) -> bool {
    forall|i: int| 0 <= i < chunks.len() ==> (#[trigger] chunks[i]).wf()
}

/// Size of the chunk made for an object of `len` bytes.
pub open spec fn new_chunk_size(len: nat) -> nat {
    if len > CHUNK_SIZE {
        len
    } else {
        CHUNK_SIZE as nat
    }
}

/// The last chunk has room for `len` bytes with alignment `align`.
pub open spec fn last_fits(chunks: Seq<ChunkView>, len: nat, align: nat) -> bool {
    chunks.len() > 0 && chunks.last().fits(len, align)
}

/// The chunks after placing `data` with alignment `align`: in the last chunk
/// when it has room, else in a new chunk appended at the end.
pub open spec fn arena_step(chunks: Seq<ChunkView>, data: Seq<u8>, align: nat) -> Seq<ChunkView> {
    if data.len() == 0 {
        chunks
    } else if last_fits(chunks, data.len(), align) {
        chunks.update(chunks.len() - 1, chunks.last().place(data, align))
    } else {
        chunks.push(fresh_chunk(0, new_chunk_size(data.len())).place(data, align))
    }
}

/// The handle given for `data`.
pub open spec fn arena_placement(chunks: Seq<ChunkView>, data: Seq<u8>, align: nat) -> Placement {
    if data.len() == 0 {
        Placement { address: 0, len: 0, chunk: None }
    } else if last_fits(chunks, data.len(), align) {
        Placement {
            address: chunks.last().placed_at(align),
            len: data.len(),
            chunk: Some((chunks.len() - 1) as nat),
        }
    } else {
        Placement { address: 0, len: data.len(), chunk: Some(chunks.len()) }
    }
}

/// The handle refers to bytes that a chunk of the arena handed out.
pub open spec fn arena_holds(chunks: Seq<ChunkView>, p: Placement) -> bool {
    p.len == 0 || (p.chunk matches Some(i) && i < chunks.len() && chunks[i as int].holds(p))
}

/// A release of this handle does not take its chunk's count below zero.
pub open spec fn arena_can_release(chunks: Seq<ChunkView>, p: Placement) -> bool {
    p.chunk matches Some(i) ==> i < chunks.len() && chunks[i as int].allocations > 0
}

/// The chunks after a handle is released.
pub open spec fn arena_release(chunks: Seq<ChunkView>, p: Placement) -> Seq<ChunkView> {
    match p.chunk {
        Some(i) => chunks.update(i as int, chunks[i as int].release(p)),
        None => chunks,
    }
}

/// The chunks after the bytes of the object a handle refers to are
/// replaced by `data`; nothing changes for a zero-size object.
pub open spec fn arena_write(chunks: Seq<ChunkView>, p: Placement, data: Seq<u8>) -> Seq<ChunkView> {
    match p.chunk {
        Some(i) if p.len > 0 => chunks.update(
            i as int,
            ChunkView {
                memory: overwrite(chunks[i as int].memory, p.address - chunks[i as int].start, data),
                ..chunks[i as int]
            },
        ),
        _ => chunks,
    }
}

/// The bytes of the object a handle refers to.
pub open spec fn arena_value_of(chunks: Seq<ChunkView>, p: Placement) -> Seq<u8> {
    match p.chunk {
        Some(i) if p.len > 0 => chunks[i as int].value_of(p),
        _ => Seq::empty(),
    }
}

/// A growable arena of chunks.
///
/// Chunks are only ever appended, never removed, moved or resized, so a
/// handle into an earlier chunk stays valid while the arena grows. Each
/// chunk numbers its bytes from address 0; a handle names its chunk by
/// position.
pub struct Arena {
    chunks: UnshrinkableLinkedList<SingleArena>,
}

impl View for Arena {
    type V = Seq<ChunkView>;

    closed spec fn view(&self) -> Seq<ChunkView> {
        self.chunks@.map_values(|c: SingleArena| c@)
    }
}

impl Arena {
    pub open spec fn wf(&self) -> bool {
        arena_wf(self@)
    }

    /// An arena with no chunks.
    pub fn new() -> (r: Self)
        ensures
            r.wf(),
            r@ == Seq::<ChunkView>::empty(),
    {
        let r = Arena { chunks: UnshrinkableLinkedList::new() };
        assert(r@ =~= Seq::<ChunkView>::empty());
        r
    }

    /// The arena's chunks, in the order they were made.
    pub fn chunks(&self) -> (r: &UnshrinkableLinkedList<SingleArena>)
        ensures
            r@.map_values(|c: SingleArena| c@) == self@,
    {
        &self.chunks
    }

    /// Appends an empty chunk of `max(min_size, CHUNK_SIZE)` bytes.
    fn new_chunk(&mut self, min_size: usize)
        requires
            old(self).wf(),
        ensures
            final(self).wf(),
            final(self)@ == old(self)@.push(fresh_chunk(0, new_chunk_size(min_size as nat))),
    {
        let size = if min_size > CHUNK_SIZE {
            min_size
        } else {
            CHUNK_SIZE
        };
        let chunk = SingleArena::new_unchecked(size);
        self.chunks.push(chunk);
        assert(self@ =~= old(self)@.push(fresh_chunk(0, new_chunk_size(min_size as nat))));
    }

    /// Places the object whose bytes are `data` at a multiple of `align`.
    ///
    /// The object goes into the last chunk when it has room, padding
    /// included; otherwise into a new chunk of `max(len, CHUNK_SIZE)` bytes
    /// appended for it. It never fails for want of capacity. A zero-size
    /// object takes no memory and makes no chunk.
    pub fn allocate(&mut self, data: &[u8], align: usize) -> (r: ArenaBox)
        requires
            old(self).wf(),
            align > 0,
        ensures
            final(self).wf(),
            final(self)@ == arena_step(old(self)@, data@, align as nat),
            r@ == arena_placement(old(self)@, data@, align as nat),
            r@.address % (align as nat) == 0,
    {
        if data.len() == 0 {
            proof {
                vstd::arithmetic::div_mod::lemma_small_mod(0, align as nat);
            }
            return ArenaBox::new_zero_sized();
        }
        let n = self.chunks.len();
        if n > 0 {
            let last = self.chunks.last().unwrap();
            assert(self@.last() == last@);
            let offset = align_offset(last.get_free_pointer_mut(), align);
            let remaining = last.remaining_capacity();
            if data.len() <= remaining && offset <= remaining - data.len() {
                proof {
                    lemma_padding(self@.last().free_address(), align as nat);
                    assert(self@[n - 1] == self.chunks@[n - 1]@);
                }
                let chunk = self.chunks.last_mut();
                let h = chunk.allocate_unchecked(data, align);
                assert(self@ =~= arena_step(old(self)@, data@, align as nat));
                return h.in_chunk(n - 1);
            }
        }
        assert(!last_fits(old(self)@, data@.len(), align as nat));
        self.new_chunk(data.len());
        proof {
            vstd::arithmetic::div_mod::lemma_small_mod(0, align as nat);
            assert(self.chunks@.len() == self@.len());
            assert(self@[n as int] == self.chunks@[n as int]@);
        }
        let ghost mid = self@;
        let chunk = self.chunks.last_mut();
        let h = chunk.allocate_unchecked(data, align);
        let ghost grown = old(self)@.push(mid[n as int].place(data@, align as nat));
        assert(self@.len() == n + 1);
        assert forall|i: int| 0 <= i < grown.len() implies self@[i] == grown[i] by {
            if i < n {
                assert(self@[i] == mid[i]);
            }
        }
        assert(self@ =~= grown);
        h.in_chunk(n)
    }

    /// Releases a handle: the count of live allocations of its chunk drops
    /// by one. Memory is reclaimed only with the whole arena.
    pub fn release(&mut self, h: ArenaBox)
        requires
            old(self).wf(),
            arena_can_release(old(self)@, h@),
        ensures
            final(self).wf(),
            final(self)@ == arena_release(old(self)@, h@),
    {
        match h.chunk() {
            Some(i) => {
                assert(self@[i as int] == self.chunks@[i as int]@);
                let chunk = self.chunks.get_mut(i);
                chunk.release(h);
                assert(self@ =~= arena_release(old(self)@, h@));
            },
            None => {},
        }
    }

    /// Takes the object's bytes out of the arena, releasing its handle.
    pub fn into_inner(&mut self, h: ArenaBox) -> (r: Vec<u8>)
        requires
            old(self).wf(),
            arena_holds(old(self)@, h@),
            arena_can_release(old(self)@, h@),
        ensures
            final(self).wf(),
            final(self)@ == arena_release(old(self)@, h@),
            r@ == arena_value_of(old(self)@, h@),
    {
        match h.chunk() {
            Some(i) => {
                assert(self@[i as int] == self.chunks@[i as int]@);
                let chunk = self.chunks.get_mut(i);
                let v = chunk.into_inner(h);
                assert(self@ =~= arena_release(old(self)@, h@));
                v
            },
            None => Vec::new(),
        }
    }

    /// The bytes of the object a handle refers to.
    pub fn get(&self, h: &ArenaBox) -> (r: &[u8])
        requires
            self.wf(),
            arena_holds(self@, h@),
        ensures
            r@ == arena_value_of(self@, h@),
    {
        match h.chunk() {
            Some(i) if h.len() > 0 => {
                assert(self@[i as int] == self.chunks@[i as int]@);
                self.chunks.get(i).get(h)
            },
            _ => &[],
        }
    }

    /// Replaces the bytes of the object a handle refers to.
    pub fn set(&mut self, h: &ArenaBox, data: &[u8])
        requires
            old(self).wf(),
            arena_holds(old(self)@, h@),
            data@.len() == h@.len,
        ensures
            final(self).wf(),
            final(self)@ == arena_write(old(self)@, h@, data@),
            arena_holds(final(self)@, h@),
            arena_value_of(final(self)@, h@) == data@,
    {
        if h.len() > 0 {
            if let Some(i) = h.chunk() {
                assert(self@[i as int] == self.chunks@[i as int]@);
                let chunk = self.chunks.get_mut(i);
                chunk.set(h, data);
                assert(self@.len() == old(self)@.len());
                assert(self@[i as int] == self.chunks@[i as int]@);
                assert(self@ =~= arena_write(old(self)@, h@, data@));
            }
        }
    }
}

} // verus!
