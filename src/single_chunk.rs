//! The single-owner chunk: a raw block with a bump cursor and a count of
//! live allocations.

use vstd::prelude::*;

use crate::arena_box::{ArenaBox, Placement};
use crate::error::ArenaError;
use crate::layout::{align_offset, lemma_padding, padding};
use crate::raw_block::{lemma_overwrite_read_back, overwrite, RawBlock};

verus! {

/// The abstract state of a chunk.
pub struct ChunkView {
    /// Address of the chunk's first byte.
    pub start: nat,
    /// Capacity in bytes.
    pub size: nat,
    /// Offset of the next free byte.
    pub cursor: nat,
    /// Number of handles of this chunk not yet released.
    pub allocations: nat,
    /// The chunk's bytes.
    pub memory: Seq<u8>,
}

impl ChunkView {
    /// The cursor stays within the buffer, every live allocation took at
    /// least one byte, and the last address is representable.
    pub open spec fn wf(self) -> bool {
        &&& self.size > 0
        &&& self.memory.len() == self.size
        &&& self.cursor <= self.size
        &&& self.allocations <= self.cursor
        &&& self.start + self.size <= usize::MAX
    }

    pub open spec fn remaining(self) -> nat {
        (self.size - self.cursor) as nat
    }

    /// Address of the next free byte.
    pub open spec fn free_address(self) -> nat {
        self.start + self.cursor
    }

    /// Bytes skipped before an object that needs alignment `align`.
    pub open spec fn padding_for(self, align: nat) -> nat {
        padding(self.free_address(), align)
    }

    /// An object of `len` bytes with alignment `align` fits, padding included.
    pub open spec fn fits(self, len: nat, align: nat) -> bool {
        len + self.padding_for(align) <= self.remaining()
    }

    /// Address at which the next object with alignment `align` is placed.
    pub open spec fn placed_at(self, align: nat) -> nat {
        self.free_address() + self.padding_for(align)
    }

    /// The state after placing `data` with alignment `align`.
    pub open spec fn place(self, data: Seq<u8>, align: nat) -> ChunkView {
        let offset = self.cursor + self.padding_for(align);
        ChunkView {
            cursor: offset + data.len(),
            allocations: self.allocations + 1,
            memory: overwrite(self.memory, offset as int, data),
            ..self
        }
    }

    /// The state after a request to place `data` with alignment `align`:
    /// unchanged for a zero-size object or one that does not fit.
    pub open spec fn step(self, data: Seq<u8>, align: nat) -> ChunkView {
        if data.len() > 0 && self.fits(data.len(), align) {
            self.place(data, align)
        } else {
            self
        }
    }

    /// The state after one handle of this chunk is released.
    pub open spec fn release(self, p: Placement) -> ChunkView {
        if p.chunk is Some {
            ChunkView { allocations: (self.allocations - 1) as nat, ..self }
        } else {
            self
        }
    }

    /// A release of this handle does not take the count below zero.
    pub open spec fn can_release(self, p: Placement) -> bool {
        p.chunk is Some ==> self.allocations > 0
    }

    /// The handle refers to bytes of this chunk that were handed out.
    pub open spec fn holds(self, p: Placement) -> bool {
        p.len == 0 || (self.start <= p.address && p.address + p.len <= self.free_address())
    }

    /// The bytes of the object a handle refers to.
    pub open spec fn value_of(self, p: Placement) -> Seq<u8> {
        if p.len == 0 {
            Seq::empty()
        } else {
            self.memory.subrange(p.address - self.start, p.address - self.start + p.len)
        }
    }
}

/// A single chunk of memory of fixed size.
///
/// The memory is reserved once, when the chunk is created, so an allocation
/// fails when the chunk has no capacity left.
pub struct SingleArena {
    block: RawBlock,
    free: usize,
    allocations: usize,
}

impl View for SingleArena {
    type V = ChunkView;

    closed spec fn view(&self) -> ChunkView {
        ChunkView {
            start: self.block.start(),
            size: self.block.bytes().len(),
            cursor: self.free as nat,
            allocations: self.allocations as nat,
            memory: self.block.bytes(),
        }
    }
}

/// A fresh chunk: `size` zeroed bytes at `start`, nothing allocated.
pub open spec fn fresh_chunk(start: nat, size: nat) -> ChunkView {
    ChunkView { start, size, cursor: 0, allocations: 0, memory: Seq::new(size, |i: int| 0u8) }
}

impl SingleArena {
    pub open spec fn wf(&self) -> bool {
        self@.wf()
    }

    /// A chunk of `size` bytes at address 0; `None` when `size` is 0.
    pub fn new(size: usize) -> (r: Option<Self>)
        ensures
            size == 0 <==> r is None,
            r matches Some(c) ==> c.wf() && c@ == fresh_chunk(0, size as nat),
    {
        Self::new_at(0, size)
    }

    /// A chunk of `size` bytes whose first byte has address `start`; `None`
    /// when `size` is 0.
    pub fn new_at(start: usize, size: usize) -> (r: Option<Self>)
        requires
            start + size <= usize::MAX,
        ensures
            size == 0 <==> r is None,
            r matches Some(c) ==> c.wf() && c@ == fresh_chunk(start as nat, size as nat),
    {
        match RawBlock::create(start, size) {
            Some(block) => {
                let c = SingleArena { block, free: 0, allocations: 0 };
                assert(c@.memory =~= fresh_chunk(start as nat, size as nat).memory);
                Some(c)
            },
            None => None,
        }
    }

    /// A chunk of `size` bytes at address 0, for a size known to be valid.
    pub fn new_unchecked(size: usize) -> (r: Self)
        requires
            size > 0,
        ensures
            r.wf(),
            r@ == fresh_chunk(0, size as nat),
    {
        Self::new(size).unwrap()
    }

    /// Capacity in bytes.
    pub fn size(&self) -> (r: usize)
        requires
            self.wf(),
        ensures
            r == self@.size,
    {
        self.block.size()
    }

    /// Address of the chunk's first byte.
    pub fn get_start_pointer_mut(&self) -> (r: usize)
        ensures
            r == self@.start,
    {
        self.block.start_address()
    }

    /// Address of the next byte to write.
    pub fn get_free_pointer_mut(&self) -> (r: usize)
        requires
            self.wf(),
        ensures
            r == self@.free_address(),
    {
        self.block.start_address() + self.free
    }

    /// Bytes not yet handed out.
    pub fn remaining_capacity(&self) -> (r: usize)
        requires
            self.wf(),
        ensures
            r == self@.remaining(),
    {
        self.block.size() - self.free
    }

    /// Number of handles of this chunk not yet released.
    pub fn allocation_count(&self) -> (r: usize)
        ensures
            r == self@.allocations,
    {
        self.allocations
    }

    /// Applies `delta` to the live-allocation count.
    fn adjust_allocation_count(&mut self, delta: isize)
        requires
            old(self).wf(),
            0 <= old(self)@.allocations + delta <= old(self)@.cursor,
        ensures
            final(self).wf(),
            final(self)@ == (ChunkView {
                allocations: (old(self)@.allocations + delta) as nat,
                ..old(self)@
            }),
    {
        self.allocations = (self.allocations as i128 + delta as i128) as usize;
    }

    /// Writes `data` at `offset` bytes past the cursor, moves the cursor past
    /// it and counts one more allocation.
    fn write_to_memory(&mut self, data: &[u8], offset: usize) -> (r: ArenaBox)
        requires
            old(self).wf(),
            data@.len() > 0,
            old(self)@.cursor + offset + data@.len() <= old(self)@.size,
        ensures
            final(self).wf(),
            final(self)@ == (ChunkView {
                cursor: old(self)@.cursor + offset as nat + data@.len(),
                allocations: old(self)@.allocations + 1,
                memory: overwrite(old(self)@.memory, old(self)@.cursor + offset, data@),
                ..old(self)@
            }),
            r@ == (Placement {
                address: old(self)@.free_address() + offset as nat,
                len: data@.len(),
                chunk: Some(0),
            }),
    {
        let at: usize = self.free + offset;
        self.block.write(at, data);
        let address: usize = self.block.start_address() + at;
        self.free = at + data.len();
        self.adjust_allocation_count(1);
        ArenaBox::new(0, address, data.len())
    }

    /// Places `data` with alignment `align`, for an object known to fit.
    pub fn allocate_unchecked(&mut self, data: &[u8], align: usize) -> (r: ArenaBox)
        requires
            old(self).wf(),
            align > 0,
            data@.len() > 0,
            old(self)@.fits(data@.len(), align as nat),
        ensures
            final(self).wf(),
            final(self)@ == old(self)@.place(data@, align as nat),
            r@ == (Placement {
                address: old(self)@.placed_at(align as nat),
                len: data@.len(),
                chunk: Some(0),
            }),
    {
        let offset = align_offset(self.get_free_pointer_mut(), align);
        self.write_to_memory(data, offset)
    }

    /// Places the object whose bytes are `data` at the next address that is
    /// a multiple of `align`.
    ///
    /// A zero-size object takes no memory and gets a handle that belongs to
    /// no chunk. Otherwise the result is `None` when the object, with the
    /// padding before it, does not fit in the remaining capacity; the chunk
    /// is then left as it was. The handle of a chunk used on its own names
    /// position 0.
    pub fn allocate(&mut self, data: &[u8], align: usize) -> (r: Option<ArenaBox>)
        requires
            old(self).wf(),
            align > 0,
        ensures
            final(self).wf(),
            final(self)@ == old(self)@.step(data@, align as nat),
            r matches Some(h) ==> h@.address % (align as nat) == 0,
            data@.len() == 0 ==> {
                &&& r matches Some(h) && h@ == (Placement { address: 0, len: 0, chunk: None })
                &&& final(self)@ == old(self)@
            },
            data@.len() > 0 && old(self)@.fits(data@.len(), align as nat) ==> {
                &&& r matches Some(h) && h@ == (Placement {
                    address: old(self)@.placed_at(align as nat),
                    len: data@.len(),
                    chunk: Some(0),
                })
                &&& final(self)@ == old(self)@.place(data@, align as nat)
            },
            data@.len() > 0 && !old(self)@.fits(data@.len(), align as nat) ==> {
                &&& r is None
                &&& final(self)@ == old(self)@
            },
    {
        if data.len() == 0 {
            proof {
                vstd::arithmetic::div_mod::lemma_small_mod(0, align as nat);
            }
            return Some(ArenaBox::new_zero_sized());
        }
        let offset = align_offset(self.get_free_pointer_mut(), align);
        let remaining = self.remaining_capacity();
        if data.len() <= remaining && offset <= remaining - data.len() {
            proof {
                lemma_padding(self@.free_address(), align as nat);
            }
            Some(self.write_to_memory(data, offset))
        } else {
            None
        }
    }

    /// Releases a handle: the count of live allocations drops by one when
    /// the handle belongs to a chunk. The bytes stay where they are until the
    /// whole chunk goes away.
    pub fn release(&mut self, h: ArenaBox)
        requires
            old(self).wf(),
            old(self)@.can_release(h@),
        ensures
            final(self).wf(),
            final(self)@ == old(self)@.release(h@),
    {
        if h.chunk().is_some() {
            self.adjust_allocation_count(-1);
        }
    }

    /// Takes the object's bytes out of the chunk, releasing its handle.
    pub fn into_inner(&mut self, h: ArenaBox) -> (r: Vec<u8>)
        requires
            old(self).wf(),
            old(self)@.holds(h@),
            old(self)@.can_release(h@),
        ensures
            final(self).wf(),
            final(self)@ == old(self)@.release(h@),
            r@ == old(self)@.value_of(h@),
    {
        let v = vstd::slice::slice_to_vec(self.get(&h));
        self.release(h);
        v
    }

    /// The bytes of the object a handle refers to.
    pub fn get(&self, h: &ArenaBox) -> (r: &[u8])
        requires
            self.wf(),
            self@.holds(h@),
        ensures
            r@ == self@.value_of(h@),
    {
        if h.len() == 0 {
            self.block.read(0, 0)
        } else {
            self.block.read(h.address() - self.block.start_address(), h.len())
        }
    }

    /// Replaces the bytes of the object a handle refers to.
    pub fn set(&mut self, h: &ArenaBox, data: &[u8])
        requires
            old(self).wf(),
            old(self)@.holds(h@),
            data@.len() == h@.len,
        ensures
            final(self).wf(),
            final(self)@ == (ChunkView {
                memory: if h@.len == 0 {
                    old(self)@.memory
                } else {
                    overwrite(old(self)@.memory, h@.address - old(self)@.start, data@)
                },
                ..old(self)@
            }),
            final(self)@.value_of(h@) == data@,
    {
        if h.len() > 0 {
            let offset = h.address() - self.block.start_address();
            self.block.write(offset, data);
            proof {
                lemma_overwrite_read_back(old(self)@.memory, offset as int, data@);
            }
        }
    }

    /// The chunk's raw bytes, for inspection.
    pub fn memory(&self) -> (r: &[u8])
        ensures
            r@ == self@.memory,
    {
        self.block.as_slice()
    }

    /// Whether the handle lies within the bytes this chunk handed out.
    pub fn holds(&self, h: &ArenaBox) -> (r: bool)
        requires
            self.wf(),
        ensures
            r == self@.holds(h@),
    {
        if h.len() == 0 {
            return true;
        }
        let start = self.get_start_pointer_mut();
        let free = self.get_free_pointer_mut();
        start <= h.address() && h.len() <= free - start && h.address() - start <= free - start
            - h.len()
    }

    /// Releases a handle, or fails with `CounterCorruption`, changing
    /// nothing, when the count of live allocations is already zero.
    pub fn try_release(&mut self, h: ArenaBox) -> (r: Result<(), ArenaError>)
        requires
            old(self).wf(),
        ensures
            final(self).wf(),
            r is Ok <==> old(self)@.can_release(h@),
            r is Ok ==> final(self)@ == old(self)@.release(h@),
            r is Err ==> final(self)@ == old(self)@ && r == Err::<(), ArenaError>(
                ArenaError::CounterCorruption,
            ),
    {
        if h.chunk().is_some() && self.allocations == 0 {
            Err(ArenaError::CounterCorruption)
        } else {
            self.release(h);
            Ok(())
        }
    }

    /// Copies out the bytes of the object a handle refers to, or fails with
    /// `UnknownHandle` when the handle does not lie within the bytes handed
    /// out so far.
    pub fn try_get(&self, h: &ArenaBox) -> (r: Result<Vec<u8>, ArenaError>)
        requires
            self.wf(),
        ensures
            r is Ok <==> self@.holds(h@),
            r matches Ok(v) ==> v@ == self@.value_of(h@),
            r matches Err(e) ==> e == ArenaError::UnknownHandle,
    {
        if self.holds(h) {
            Ok(vstd::slice::slice_to_vec(self.get(h)))
        } else {
            Err(ArenaError::UnknownHandle)
        }
    }

    /// Takes the object's bytes out of the chunk, releasing its handle.
    /// Fails, changing nothing, with `UnknownHandle` when the handle does not
    /// lie within the bytes handed out so far, else with `CounterCorruption`
    /// when the count of live allocations is already zero.
    pub fn try_into_inner(&mut self, h: ArenaBox) -> (r: Result<Vec<u8>, ArenaError>)
        requires
            old(self).wf(),
        ensures
            final(self).wf(),
            r is Ok <==> old(self)@.holds(h@) && old(self)@.can_release(h@),
            r matches Ok(v) ==> v@ == old(self)@.value_of(h@) && final(self)@ == old(self)@.release(
                h@,
            ),
            r matches Err(e) ==> final(self)@ == old(self)@ && (e == ArenaError::UnknownHandle
                <==> !old(self)@.holds(h@)) && (e == ArenaError::UnknownHandle || e
                == ArenaError::CounterCorruption),
    {
        if !self.holds(&h) {
            Err(ArenaError::UnknownHandle)
        } else if h.chunk().is_some() && self.allocations == 0 {
            Err(ArenaError::CounterCorruption)
        } else {
            Ok(self.into_inner(h))
        }
    }
}

} // verus!
