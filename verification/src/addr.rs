//! Physical and virtual addresses and page numbers of the 64-bit targets.
use vstd::prelude::*;
use vstd::arithmetic::power2::{pow2, lemma2_to64};
use vstd::bits::{lemma_usize_shl_is_mul, lemma_u64_shr_is_div, lemma_u64_shl_is_mul, lemma_u64_pow2_no_overflow};

verus! {

/// Size of a base page in bytes.
pub const PAGE_SIZE: usize = 0x1000;

/// A physical byte address.
#[derive(Clone, Copy, Debug, PartialEq, Eq, Structural)]
pub struct PhysAddr(pub usize);

/// A physical page number.
#[derive(Clone, Copy, Debug, PartialEq, Eq, Structural)]
pub struct PhysPage(pub usize);

/// A virtual byte address.
#[derive(Clone, Copy, Debug, PartialEq, Eq, Structural)]
pub struct VirtAddr(pub usize);

/// A virtual page number.
#[derive(Clone, Copy, Debug, PartialEq, Eq, Structural)]
pub struct VirtPage(pub usize);

impl PhysPage {
    /// The address of the first byte of the page (page number shifted by 12;
    /// bits shifted out past the top are lost).
    pub fn to_addr(&self) -> (r: usize)
        ensures
            r == self.0 << 12usize,
            self.0 * PAGE_SIZE <= usize::MAX ==> r == self.0 * PAGE_SIZE,
    {
        proof {
            lemma_page_shift(self.0);
        }
        self.0 << 12usize
    }
}

/// Shifting a page number by 12 multiplies it by the page size when the
/// product fits.
pub proof fn lemma_page_shift(n: usize)
    ensures
        n * PAGE_SIZE <= usize::MAX ==> n << 12usize == n * PAGE_SIZE,
{
    if n * PAGE_SIZE <= usize::MAX {
        lemma2_to64();
        lemma_usize_shl_is_mul(n, 12);
    }
}

impl VirtPage {
    /// The virtual page with number `n`.
    pub fn new(n: usize) -> (r: VirtPage)
        ensures
            r.0 == n,
    {
        VirtPage(n)
    }

    /// The page number.
    pub fn value(&self) -> (r: usize)
        ensures
            r == self.0,
    {
        self.0
    }

    /// The address of the first byte of the page (page number shifted by 12;
    /// bits shifted out past the top are lost).
    pub fn to_addr(&self) -> (r: usize)
        ensures
            r == self.0 << 12usize,
            self.0 * PAGE_SIZE <= usize::MAX ==> r == self.0 * PAGE_SIZE,
    {
        proof {
            lemma_page_shift(self.0);
        }
        self.0 << 12usize
    }

    /// Index of this page in the page table of level `n` (nine bits per level).
    pub fn pn_index(&self, n: usize) -> (r: usize)
        requires
            n < 8,
        ensures
            r == (self.0 as nat / pow2((9 * n) as nat)) % 512,
            r < 512,
    {
        let s: u64 = 9 * (n as u64);
        let v: u64 = self.0 as u64;
        proof {
            lemma_u64_shr_is_div(v, s);
        }
        let q: u64 = v >> s;
        assert(q & 0x1ff == q % 512) by (bit_vector);
        (q & 0x1ff) as usize
    }
}

impl VirtAddr {
    /// The address with value `a`.
    pub fn new(a: usize) -> (r: VirtAddr)
        ensures
            r.0 == a,
    {
        VirtAddr(a)
    }

    /// The address as an integer.
    pub fn addr(&self) -> (r: usize)
        ensures
            r == self.0,
    {
        self.0
    }

    /// The page that holds this address.
    pub fn floor(&self) -> (r: VirtPage)
        ensures
            r.0 == self.0 / PAGE_SIZE,
    {
        VirtPage(self.0 / PAGE_SIZE)
    }

    /// The first page that starts at or above this address.
    pub fn ceil(&self) -> (r: VirtPage)
        ensures
            r.0 == (self.0 as int + PAGE_SIZE - 1) / PAGE_SIZE as int,
    {
        if self.0 % PAGE_SIZE == 0 {
            VirtPage(self.0 / PAGE_SIZE)
        } else {
            VirtPage(self.0 / PAGE_SIZE + 1)
        }
    }

    /// Offset of this address inside the region that one entry of the level-`n`
    /// page table covers (4 KiB at level 0, 2 MiB at level 1, 1 GiB at level 2).
    pub fn pn_offest(&self, n: usize) -> (r: usize)
        requires
            n < 6,
        ensures
            r == self.0 as nat % pow2((12 + 9 * n) as nat),
    {
        let s: u64 = 12 + 9 * (n as u64);
        proof {
            lemma_u64_pow2_no_overflow(s as nat);
            lemma_u64_shl_is_mul(1, s);
        }
        let m: u64 = 1u64 << s;
        let v: u64 = self.0 as u64;
        let r: u64 = v % m;
        assert(v % m <= v) by (nonlinear_arith)
            requires
                m > 0,
        ;
        r as usize
    }
}

} // verus!
