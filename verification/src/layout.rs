//! Size and alignment of an allocation.

use vstd::arithmetic::power2::{is_pow2, is_pow2_equiv, is_pow2_exists, pow2};
use vstd::prelude::*;

verus! {

/// The reason a size and an alignment make no [`Layout`].
#[derive(Clone, Copy, Debug, PartialEq, Eq)]
pub struct LayoutError;

/// The size and the alignment of an allocation.
///
/// The alignment is a power of two, and the size rounded up to it does not
/// exceed `isize::MAX`.
#[derive(Clone, Copy, Debug, PartialEq, Eq)]
pub struct Layout {
    size: usize,
    align: usize,
}

/// Whether `size` and `align` describe an allocation.
pub open spec fn valid_layout(size: int, align: int) -> bool {
    &&& 0 <= size
    &&& is_pow2(align)
    &&& size + align - 1 <= isize::MAX
}

/// A positive number is a power of two exactly if it shares no bit with its predecessor.
proof fn lemma_pow2_shares_no_bit(n: usize)
    requires
        n > 0,
    ensures
        is_pow2(n as int) <==> n & (n - 1) as usize == 0,
    decreases n,
{
    reveal(is_pow2);
    if n == 1 {
        assert(1usize & (1 - 1) as usize == 0) by (bit_vector);
    } else if n % 2 == 1 {
        assert(n & (n - 1) as usize != 0) by (bit_vector)
            requires
                n % 2 == 1,
                n > 1,
        ;
    } else {
        let half: usize = n / 2;
        lemma_pow2_shares_no_bit(half);
        assert((n & (n - 1) as usize == 0) <==> (half & (half - 1) as usize == 0)) by (bit_vector)
            requires
                n % 2 == 0,
                n > 1,
                half == n / 2,
        ;
    }
}

impl Layout {
    /// What every layout satisfies.
    #[verifier::type_invariant]
    pub open spec fn wf(&self) -> bool {
        valid_layout(self.size() as int, self.align() as int)
    }

    /// The size in bytes.
    pub closed spec fn spec_size(&self) -> usize {
        self.size
    }

    /// The alignment in bytes.
    pub closed spec fn spec_align(&self) -> usize {
        self.align
    }

    /// Makes the layout of `size` bytes aligned to `align`.
    pub fn from_size_align(size: usize, align: usize) -> (r: Result<Layout, LayoutError>)
        ensures
            r is Ok <==> valid_layout(size as int, align as int),
            r matches Ok(l) ==> l.size() == size && l.align() == align,
    {
        proof {
            reveal(is_pow2);
        }
        if align == 0 {
            return Err(LayoutError);
        }
        proof {
            lemma_pow2_shares_no_bit(align);
        }
        if align & (align - 1) != 0 {
            return Err(LayoutError);
        }
        if align - 1 > isize::MAX as usize || size > isize::MAX as usize - (align - 1) {
            return Err(LayoutError);
        }
        Ok(Layout { size, align })
    }

    /// The size in bytes.
    #[verifier::when_used_as_spec(spec_size)]
    pub fn size(&self) -> (size: usize)
        ensures
            size == self.size(),
    {
        self.size
    }

    /// The alignment in bytes.
    #[verifier::when_used_as_spec(spec_align)]
    pub fn align(&self) -> (align: usize)
        ensures
            align == self.align(),
    {
        self.align
    }
}

/// A layout is made exactly of an alignment that is a power of two and a size that,
/// with all but one byte of the alignment added, an `isize` holds; it has that size
/// and that alignment.
pub proof fn law_layouts_are_powers_of_two_that_fit(
    size: usize,
    align: usize,
    r: Result<Layout, LayoutError>,
)
    requires
        call_ensures(Layout::from_size_align, (size, align), r),
    ensures
        r is Ok <==> (exists|k: nat| align == #[trigger] pow2(k)) && size + align - 1 <= isize::MAX,
        r matches Ok(layout) ==> layout.size() == size && layout.align() == align,
{
    reveal(pow2);
    is_pow2_equiv(align as int);
    if exists|k: nat| align == #[trigger] pow2(k) {
        let k = choose|k: nat| align == #[trigger] pow2(k);
        vstd::arithmetic::power::lemma_pow_positive(2, k);
        assert(is_pow2_exists(align as int));
    }
    if is_pow2_exists(align as int) {
        let k = choose|i: nat| vstd::arithmetic::power::pow(2, i) == align as int;
        assert(align == pow2(k));
    }
}

} // verus!
