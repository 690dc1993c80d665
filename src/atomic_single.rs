//! The concurrent chunk: a chunk behind one lock, shared by reference
//! counting between any number of owners.

use std::sync::Arc;

use vstd::prelude::*;
use vstd::rwlock::{RwLock, RwLockPredicate};

use crate::arena_box::{ArenaBox, Placement};
use crate::error::ArenaError;
use crate::single_chunk::SingleArena;

verus! {

/// Where a shared chunk's bytes lie; fixed when it is created.
pub struct ChunkBounds {
    pub start: nat,
    pub size: nat,
}

impl RwLockPredicate<SingleArena> for ChunkBounds {
    /// The chunk behind the lock is well formed and keeps its place.
    open spec fn inv(self, c: SingleArena) -> bool {
        &&& c.wf()
        &&& c@.start == self.start
        &&& c@.size == self.size
    }
}

/// A chunk that several owners, on several threads, allocate from.
///
/// The cursor, the count and the bytes sit behind one lock, so that the
/// check for room and the bump of the cursor happen as one step: two
/// allocations never receive overlapping bytes. A clone shares the same
/// chunk; the memory is released when the last owner is dropped.
pub struct AtomicSingleArena {
    lock: Arc<RwLock<SingleArena, ChunkBounds>>,
}

impl View for AtomicSingleArena {
    type V = ChunkBounds;

    closed spec fn view(&self) -> ChunkBounds {
        self.lock.pred()
    }
}

impl AtomicSingleArena {
    /// A shared chunk of `size` bytes at address 0; `None` when `size` is 0.
    pub fn new(size: usize) -> (r: Option<Self>)
        ensures
            size == 0 <==> r is None,
            r matches Some(c) ==> c@ == (ChunkBounds { start: 0, size: size as nat }),
    {
        match SingleArena::new(size) {
            Some(chunk) => {
                let bounds = Ghost(ChunkBounds { start: 0, size: size as nat });
                Some(AtomicSingleArena { lock: Arc::new(RwLock::new(chunk, bounds)) })
            },
            None => None,
        }
    }

    /// A shared chunk of `size` bytes at address 0, for a size known to be
    /// valid.
    pub fn new_unchecked(size: usize) -> (r: Self)
        requires
            size > 0,
        ensures
            r@ == (ChunkBounds { start: 0, size: size as nat }),
    {
        Self::new(size).unwrap()
    }

    /// Places the object whose bytes are `data` at the next address that is
    /// a multiple of `align`, as `SingleArena::allocate` does, with the
    /// whole step under the lock.
    ///
    /// Which of two racing calls goes first is not specified, so whether a
    /// non-empty object finds room depends on the other owners; a handle
    /// given out always lies within the chunk, aligned.
    pub fn allocate(&self, data: &[u8], align: usize) -> (r: Option<ArenaBox>)
        requires
            align > 0,
        ensures
            data@.len() == 0 ==> (r matches Some(h) && h@ == (Placement {
                address: 0,
                len: 0,
                chunk: None,
            })),
            data@.len() > 0 ==> (r matches Some(h) ==> {
                &&& h@.len == data@.len()
                &&& h@.chunk == Some(0nat)
                &&& h@.address % (align as nat) == 0
                &&& self@.start <= h@.address
                &&& h@.address + h@.len <= self@.start + self@.size
            }),
    {
        if data.len() == 0 {
            return Some(ArenaBox::new_zero_sized());
        }
        let (mut chunk, guard) = self.lock.acquire_write();
        let r = chunk.allocate(data, align);
        guard.release_write(chunk);
        r
    }

    /// Capacity in bytes.
    pub fn size(&self) -> (r: usize)
        ensures
            r == self@.size,
    {
        let guard = self.lock.acquire_read();
        let r = guard.borrow().size();
        guard.release_read();
        r
    }

    /// Address of the chunk's first byte.
    pub fn get_start_pointer_mut(&self) -> (r: usize)
        ensures
            r == self@.start,
    {
        let guard = self.lock.acquire_read();
        let r = guard.borrow().get_start_pointer_mut();
        guard.release_read();
        r
    }

    /// Address of the next byte to write, at the time of the call.
    pub fn get_free_pointer_mut(&self) -> (r: usize)
        ensures
            self@.start <= r <= self@.start + self@.size,
    {
        let guard = self.lock.acquire_read();
        let r = guard.borrow().get_free_pointer_mut();
        guard.release_read();
        r
    }

    /// Bytes not yet handed out, at the time of the call.
    pub fn remaining_capacity(&self) -> (r: usize)
        ensures
            r <= self@.size,
    {
        let guard = self.lock.acquire_read();
        let r = guard.borrow().remaining_capacity();
        guard.release_read();
        r
    }

    /// Number of handles of this chunk not yet released, at the time of the
    /// call.
    pub fn allocation_count(&self) -> (r: usize)
        ensures
            r <= self@.size,
    {
        let guard = self.lock.acquire_read();
        let r = guard.borrow().allocation_count();
        guard.release_read();
        r
    }

    /// A copy of the chunk's raw bytes, for inspection.
    pub fn memory(&self) -> (r: Vec<u8>)
        ensures
            r@.len() == self@.size,
    {
        let guard = self.lock.acquire_read();
        let r = vstd::slice::slice_to_vec(guard.borrow().memory());
        guard.release_read();
        r
    }

    /// Releases a handle under the lock, as `SingleArena::try_release`
    /// does: the count of live allocations drops by one, or the call fails
    /// with `CounterCorruption`, changing nothing, when the count is already
    /// zero. A handle of a zero-size object is released without the lock.
    pub fn release(&self, h: ArenaBox) -> (r: Result<(), ArenaError>)
        ensures
            h@.chunk is None ==> r is Ok,
            r matches Err(e) ==> e == ArenaError::CounterCorruption,
    {
        if h.is_detached() {
            return Ok(());
        }
        let (mut chunk, guard) = self.lock.acquire_write();
        let r = chunk.try_release(h);
        guard.release_write(chunk);
        r
    }

    /// Copies out the bytes of the object a handle refers to, under the
    /// lock, as `SingleArena::try_get` does: fails with `UnknownHandle` when
    /// the handle does not lie within the bytes handed out so far.
    pub fn get(&self, h: &ArenaBox) -> (r: Result<Vec<u8>, ArenaError>)
        ensures
            r matches Ok(v) ==> v@.len() == h@.len,
            r matches Err(e) ==> e == ArenaError::UnknownHandle,
            h@.len == 0 ==> (r matches Ok(v) && v@.len() == 0),
    {
        let guard = self.lock.acquire_read();
        let r = guard.borrow().try_get(h);
        guard.release_read();
        r
    }

    /// Takes the object's bytes out of the chunk under the lock, releasing
    /// its handle, as `SingleArena::try_into_inner` does: fails, changing
    /// nothing, with `UnknownHandle` when the handle does not lie within the
    /// bytes handed out so far, else with `CounterCorruption` when the count
    /// is already zero. A handle of a zero-size object gives no bytes,
    /// without the lock.
    pub fn into_inner(&self, h: ArenaBox) -> (r: Result<Vec<u8>, ArenaError>)
        ensures
            r matches Ok(v) ==> v@.len() == h@.len,
            r matches Err(e) ==> e == ArenaError::UnknownHandle || e == ArenaError::CounterCorruption,
            h@.chunk is None ==> (r matches Ok(v) && v@.len() == 0),
    {
        if h.is_detached() {
            return Ok(Vec::new());
        }
        let (mut chunk, guard) = self.lock.acquire_write();
        let r = chunk.try_into_inner(h);
        guard.release_write(chunk);
        r
    }
}

impl Clone for AtomicSingleArena {
    /// Another owner of the same chunk.
    fn clone(&self) -> (r: Self)
        ensures
            r@ == self@,
    {
        AtomicSingleArena { lock: self.lock.clone() }
    }
}

} // verus!
