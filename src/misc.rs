//! A baseline for measurements: one system allocation per object.

use vstd::prelude::*;

verus! {

/// Makes `alloc_count` separate heap allocations of one small integer each
/// and frees them all, for comparison with an arena.
pub fn stress_heap_memory(alloc_count: usize) {
    let mut v: Vec<Box<u32>> = Vec::new();
    let mut i: usize = 0;
    while i < alloc_count
        invariant
            i <= alloc_count,
            v@.len() == i,
        decreases alloc_count - i,
    {
        v.push(Box::new(5u32));
        i = i + 1;
    }
}

} // verus!
