//! One contiguous byte buffer of fixed size, reserved once and released once.

use vstd::prelude::*;

verus! {

/// `mem` with the bytes from `offset` on replaced by `data`.
pub open spec fn overwrite(mem: Seq<u8>, offset: int, data: Seq<u8>) -> Seq<u8> {
    Seq::new(
        mem.len(),
        |i: int|
            if offset <= i < offset + data.len() {
                data[i - offset]
            } else {
                mem[i]
            },
    )
}

/// Reading back a range that was just overwritten gives the data written.
pub proof fn lemma_overwrite_read_back(mem: Seq<u8>, offset: int, data: Seq<u8>)
    requires
        0 <= offset,
        offset + data.len() <= mem.len(),
    ensures
        overwrite(mem, offset, data).subrange(offset, offset + data.len()) == data,
{
    assert(overwrite(mem, offset, data).subrange(offset, offset + data.len()) =~= data);
}

/// Overwriting one range leaves every disjoint range as it was.
pub proof fn lemma_overwrite_elsewhere(mem: Seq<u8>, offset: int, data: Seq<u8>, lo: int, hi: int)
    requires
        0 <= lo <= hi <= mem.len(),
        hi <= offset || offset + data.len() <= lo,
    ensures
        overwrite(mem, offset, data).subrange(lo, hi) == mem.subrange(lo, hi),
{
    assert(overwrite(mem, offset, data).subrange(lo, hi) =~= mem.subrange(lo, hi));
}

/// A fixed-size byte buffer placed at a start address.
pub struct RawBlock {
    start: usize,
    bytes: Vec<u8>,
}

impl RawBlock {
    /// Address of the first byte.
    pub closed spec fn start(&self) -> nat {
        self.start as nat
    }

    /// Contents of the buffer.
    pub closed spec fn bytes(&self) -> Seq<u8> {
        self.bytes@
    }

    /// The buffer is not empty and its last address is representable.
    pub open spec fn wf(&self) -> bool {
        &&& self.bytes().len() > 0
        &&& self.start() + self.bytes().len() <= usize::MAX
    }

    /// Reserves `size` zeroed bytes at address `start`; refuses a size of 0.
    pub fn create(start: usize, size: usize) -> (r: Option<RawBlock>)
        requires
            start + size <= usize::MAX,
        ensures
            size == 0 <==> r is None,
            r matches Some(b) ==> {
                &&& b.wf()
                &&& b.start() == start
                &&& b.bytes() == Seq::new(size as nat, |i: int| 0u8)
            },
    {
        if size == 0 {
            return None;
        }
        let mut bytes: Vec<u8> = Vec::with_capacity(size);
        let mut i: usize = 0;
        while i < size
            invariant
                i <= size,
                bytes@ == Seq::new(i as nat, |k: int| 0u8),
            decreases size - i,
        {
            bytes.push(0u8);
            i = i + 1;
            assert(bytes@ =~= Seq::new(i as nat, |k: int| 0u8));
        }
        Some(RawBlock { start, bytes })
    }

    /// Address of the first byte.
    pub fn start_address(&self) -> (r: usize)
        ensures
            r == self.start(),
    {
        self.start
    }

    /// Number of bytes in the buffer.
    pub fn size(&self) -> (r: usize)
        ensures
            r == self.bytes().len(),
    {
        self.bytes.len()
    }

    /// The whole buffer, for inspection.
    pub fn as_slice(&self) -> (r: &[u8])
        ensures
            r@ == self.bytes(),
    {
        self.bytes.as_slice()
    }

    /// The `len` bytes that start at `offset` within the buffer.
    pub fn read(&self, offset: usize, len: usize) -> (r: &[u8])
        requires
            self.wf(),
            offset + len <= self.bytes().len(),
        ensures
            r@ == self.bytes().subrange(offset as int, offset + len),
    {
        vstd::slice::slice_subrange(self.bytes.as_slice(), offset, offset + len)
    }

    /// Copies `data` into the buffer from `offset` on.
    pub fn write(&mut self, offset: usize, data: &[u8])
        requires
            old(self).wf(),
            offset + data@.len() <= old(self).bytes().len(),
        ensures
            final(self).start() == old(self).start(),
            final(self).bytes() == overwrite(old(self).bytes(), offset as int, data@),
    {
        let ghost before = self.bytes@;
        let mut i: usize = 0;
        while i < data.len()
            invariant
                i <= data@.len(),
                offset + data@.len() <= before.len(),
                before.len() <= usize::MAX,
                self.start == old(self).start,
                self.bytes@ == overwrite(before, offset as int, data@.subrange(0, i as int)),
            decreases data@.len() - i,
        {
            self.bytes.set(offset + i, data[i]);
            i = i + 1;
            assert(self.bytes@ =~= overwrite(before, offset as int, data@.subrange(0, i as int)));
        }
        assert(data@.subrange(0, data@.len() as int) =~= data@);
    }
}

} // verus!
