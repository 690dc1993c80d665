//! The handle to one object placed in a chunk.

use vstd::prelude::*;

verus! {

/// What a handle records: where its object lies and which chunk owns it.
pub struct Placement {
    pub address: nat,
    pub len: nat,
    /// Position of the owning chunk in its arena; `None` for a zero-size
    /// object, which occupies no memory and belongs to no chunk.
    pub chunk: Option<nat>,
}

/// A handle to one object placed in a chunk.
///
/// A handle is neither `Clone` nor `Copy`: it is consumed exactly once, by a
/// release or by extracting its value, which is what keeps the owning chunk's
/// live-allocation count exact.
pub struct ArenaBox {
    address: usize,
    len: usize,
    chunk: Option<usize>,
}

impl View for ArenaBox {
    type V = Placement;

    closed spec fn view(&self) -> Placement {
        Placement {
            address: self.address as nat,
            len: self.len as nat,
            chunk: match self.chunk {
                Some(i) => Some(i as nat),
                None => None,
            },
        }
    }
}

impl ArenaBox {
    /// A handle that belongs to no chunk is that of a zero-size object.
    #[verifier::type_invariant]
    spec fn detached_is_empty(self) -> bool {
        self.chunk is None ==> self.len == 0 && self.address == 0
    }

    /// Whether the handle belongs to no chunk, which is so only for a
    /// zero-size object.
    pub fn is_detached(&self) -> (r: bool)
        ensures
            r == (self@.chunk is None),
            r ==> self@.len == 0 && self@.address == 0,
    {
        proof {
            use_type_invariant(self);
        }
        self.chunk.is_none()
    }

    /// A handle to the `len` bytes at `address` in the chunk at position
    /// `chunk` of its arena.
    pub fn new(chunk: usize, address: usize, len: usize) -> (r: Self)
        ensures
            r@ == (Placement { address: address as nat, len: len as nat, chunk: Some(chunk as nat) }),
    {
        ArenaBox { address, len, chunk: Some(chunk) }
    }

    /// The handle of a zero-size object: no bytes and no owning chunk.
    pub fn new_zero_sized() -> (r: Self)
        ensures
            r@ == (Placement { address: 0, len: 0, chunk: None }),
    {
        ArenaBox { address: 0, len: 0, chunk: None }
    }

    /// Address of the object.
    pub fn address(&self) -> (r: usize)
        ensures
            r == self@.address,
    {
        self.address
    }

    /// Size of the object in bytes.
    pub fn len(&self) -> (r: usize)
        ensures
            r == self@.len,
    {
        self.len
    }

    /// Position of the owning chunk, if any.
    pub fn chunk(&self) -> (r: Option<usize>)
        ensures
            r is None <==> self@.chunk is None,
            r matches Some(i) ==> self@.chunk == Some(i as nat),
    {
        self.chunk
    }

    /// The same handle, now naming the chunk at position `chunk`.
    pub fn in_chunk(self, chunk: usize) -> (r: Self)
        ensures
            r@ == (Placement { chunk: Some(chunk as nat), ..self@ }),
    {
        ArenaBox { chunk: Some(chunk), ..self }
    }
}

} // verus!
