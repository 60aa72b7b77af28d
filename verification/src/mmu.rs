//! Page geometry of the address space that the GPU and its firmware share
//! with the host.

use vstd::prelude::*;
use vstd::arithmetic::power2::is_pow2;

verus! {

/// Number of address bits inside one page.
pub const UAT_PGBIT: usize = 14;

/// Bytes in one page.
pub const UAT_PGSZ: usize = 0x4000;

/// Mask of the address bits inside one page.
pub const UAT_PGMSK: usize = 0x3fff;

/// Whether `n` lies on a page boundary.
pub open spec fn page_aligned(n: int) -> bool {
    n % (UAT_PGSZ as int) == 0
}

/// The largest page boundary at or below `n`.
pub open spec fn page_floor(n: int) -> int {
    n - n % (UAT_PGSZ as int)
}

/// The smallest page boundary at or above `n`.
pub open spec fn page_ceil(n: int) -> int {
    ((n + UAT_PGMSK) / (UAT_PGSZ as int)) * UAT_PGSZ
}

/// `page_ceil(n)` is the least multiple of the page size that is not below `n`.
pub proof fn lemma_page_ceil(n: int)
    requires
        n >= 0,
    ensures
        page_aligned(page_ceil(n)),
        n <= page_ceil(n) < n + UAT_PGSZ,
        page_aligned(n) ==> page_ceil(n) == n,
{
    let q = (n + 0x3fff) / 0x4000;
    assert(q * 0x4000 + (n + 0x3fff) % 0x4000 == n + 0x3fff);
    assert((q * 0x4000) % 0x4000 == 0) by (nonlinear_arith);
}

/// `page_floor(n)` is the greatest multiple of the page size that is not above `n`.
pub proof fn lemma_page_floor(n: int)
    requires
        n >= 0,
    ensures
        page_aligned(page_floor(n)),
        n - UAT_PGSZ < page_floor(n) <= n,
{
    let q = n / 0x4000;
    assert(q * 0x4000 + n % 0x4000 == n);
    assert((q * 0x4000) % 0x4000 == 0) by (nonlinear_arith);
}

/// Tells whether `n` lies on a page boundary.
pub fn is_page_aligned(n: usize) -> (r: bool)
    ensures
        r == page_aligned(n as int),
{
    assert(n & 0x3fff == n % 0x4000) by (bit_vector);
    n & UAT_PGMSK == 0
}

/// Rounds `n` down to a page boundary.
pub fn page_align_down(n: usize) -> (r: usize)
    ensures
        r == page_floor(n as int),
{
    assert(n & !0x3fffusize == n - n % 0x4000) by (bit_vector);
    n & !UAT_PGMSK
}

/// Rounds `n` up to a page boundary; `None` where that boundary is not a `usize`.
pub fn page_align_up(n: usize) -> (r: Option<usize>)
    ensures
        r == (if page_ceil(n as int) <= usize::MAX {
            Some(page_ceil(n as int) as usize)
        } else {
            None
        }),
{
    proof {
        lemma_page_ceil(n as int);
        assert(usize::MAX % 0x4000 == 0x3fff) by {
            assert(usize::MAX == 0xffff_ffff || usize::MAX == 0xffff_ffff_ffff_ffff);
        }
    }
    match n.checked_add(UAT_PGMSK) {
        Some(m) => {
            assert(m & !0x3fffusize == (m / 0x4000) * 0x4000) by (bit_vector);
            Some(m & !UAT_PGMSK)
        },
        None => {
            None
        },
    }
}

/// Whether `a` is an alignment: a power of two.
pub open spec fn valid_align(a: int) -> bool {
    is_pow2(a)
}

/// The bit test for a power of two agrees with the arithmetic definition.
pub proof fn lemma_pow2_bits(a: usize)
    ensures
        (a != 0 && a & ((a - 1) as usize) == 0) <==> is_pow2(a as int),
    decreases a,
{
    reveal(is_pow2);
    if a <= 1 {
        assert(a == 1 ==> a & ((a - 1) as usize) == 0) by (bit_vector);
    } else {
        let h = a / 2;
        lemma_pow2_bits(h);
        assert(a > 1 ==> ((a & ((a - 1) as usize) == 0) <==> (a % 2 == 0 && (a / 2) & (((a / 2) - 1) as usize)
            == 0))) by (bit_vector);
    }
}

/// Of two powers of two the smaller divides the larger.
pub proof fn lemma_pow2_divides(a: int, b: int)
    requires
        is_pow2(a),
        is_pow2(b),
        a <= b,
    ensures
        b % a == 0,
    decreases a,
{
    reveal(is_pow2);
    if a == 1 {
    } else {
        lemma_pow2_divides(a / 2, b / 2);
        let k = (b / 2) / (a / 2);
        assert(b / 2 == k * (a / 2) + (b / 2) % (a / 2)) by {
            vstd::arithmetic::div_mod::lemma_fundamental_div_mod(b / 2, a / 2);
            assert((a / 2) * k == k * (a / 2)) by (nonlinear_arith);
        }
        assert(b == k * a) by (nonlinear_arith)
            requires
                b == 2 * (b / 2),
                a == 2 * (a / 2),
                b / 2 == k * (a / 2),
        ;
        assert((k * a) % a == 0) by (nonlinear_arith)
            requires
                a > 0,
        ;
    }
}

/// The page size is a power of two.
pub proof fn lemma_page_size_pow2()
    ensures
        is_pow2(UAT_PGSZ as int),
{
    reveal_with_fuel(is_pow2, 16);
}

/// Tells whether `a` is a power of two.
pub fn is_valid_align(a: usize) -> (r: bool)
    ensures
        r == valid_align(a as int),
{
    proof {
        lemma_pow2_bits(a);
    }
    a != 0 && a & (a - 1) == 0
}

/// A range of GPU virtual addresses that memory has been mapped to.
#[derive(Clone, Copy, Debug, PartialEq, Eq, Structural)]
pub struct Mapping {
    /// The first address of the range.
    pub iova: usize,
    /// The number of bytes of the range.
    pub size: usize,
}

impl Mapping {
    /// Returns the first address of the range.
    pub fn iova(&self) -> (r: usize)
        ensures
            r == self.iova,
    {
        self.iova
    }

    /// Returns the number of bytes of the range.
    pub fn size(&self) -> (r: usize)
        ensures
            r == self.size,
    {
        self.size
    }
}

} // verus!
