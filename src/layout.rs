//! Alignment arithmetic shared by every chunk kind.

use vstd::prelude::*;

verus! {

/// Number of bytes needed to move `addr` up to the next multiple of `align`.
pub open spec fn padding(addr: nat, align: nat) -> nat
    recommends
        align > 0,
{
    if addr % align == 0 {
        0
    } else {
        (align - addr % align) as nat
    }
}

/// Proves that the padded address is a multiple of `align` and that the
/// padding is less than `align`.
pub proof fn lemma_padding(addr: nat, align: nat)
    requires
        align > 0,
    ensures
        padding(addr, align) < align,
        (addr + padding(addr, align)) % align == 0,
{
    let r = addr % align;
    assert(0 <= r < align) by (nonlinear_arith)
        requires
            align > 0,
            r == addr % align,
    ;
    if r != 0 {
        assert((addr + (align - r)) % (align as int) == 0) by (nonlinear_arith)
            requires
                align > 0,
                r == addr % align,
                0 < r < align,
        ;
    }
}

/// The offset to add to `addr` so that it becomes a multiple of `align`.
pub fn align_offset(addr: usize, align: usize) -> (r: usize)
    requires
        align > 0,
    ensures
        r as nat == padding(addr as nat, align as nat),
        r < align,
        (addr + r) % (align as int) == 0,
{
    proof {
        lemma_padding(addr as nat, align as nat);
    }
    let rem: usize = addr % align;
    if rem == 0 {
        0
    } else {
        align - rem
    }
}

} // verus!
