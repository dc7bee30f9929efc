//! Page size and alignment arithmetic.
use vstd::prelude::*;

verus! {

/// Size of a page.
pub const PAGE_SIZE: usize = 4096;

/// `x` rounded up to a multiple of `a`.
pub open spec fn spec_align_up(x: int, a: int) -> int {
    if x % a == 0 {
        x
    } else {
        x - x % a + a
    }
}

/// `x` rounded down to a multiple of `a`.
pub open spec fn spec_align_down(x: int, a: int) -> int {
    x - x % a
}

/// `x` rounded up to a multiple of the page size.
pub fn page_align_up(x: usize) -> (r: usize)
    requires
        x <= usize::MAX - PAGE_SIZE,
    ensures
        r == spec_align_up(x as int, PAGE_SIZE as int),
        r % PAGE_SIZE == 0,
        x <= r < x + PAGE_SIZE,
{
    if x % PAGE_SIZE == 0 {
        x
    } else {
        x - x % PAGE_SIZE + PAGE_SIZE
    }
}

/// `x` rounded down to a multiple of the page size.
pub fn page_align_down(x: usize) -> (r: usize)
    ensures
        r == spec_align_down(x as int, PAGE_SIZE as int),
        r % PAGE_SIZE == 0,
        r <= x < r + PAGE_SIZE,
{
    x - x % PAGE_SIZE
}

/// Whether `x` is a multiple of the page size.
pub fn is_page_aligned(x: usize) -> (r: bool)
    ensures
        r == (x % PAGE_SIZE == 0),
{
    x % PAGE_SIZE == 0
}

} // verus!
