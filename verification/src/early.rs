//! The early-boot allocator: one contiguous region `[start, end)` served
//! from both ends. Byte allocations advance `byte_pos` forward from the
//! low end; page allocations move `page_pos` backward from the high end;
//! the gap `[byte_pos, page_pos)` is the memory still free.

use vstd::prelude::*;
use vstd::arithmetic::div_mod::{
    lemma_div_multiples_vanish, lemma_fundamental_div_mod, lemma_hoist_over_denominator,
    lemma_mod_multiples_basic, lemma_small_mod, lemma_sub_mod_noop,
};
use vstd::arithmetic::power2::{is_pow2, pow2};
use vstd::bits::{lemma_usize_pow2_no_overflow, lemma_usize_shl_is_mul};

use crate::arith::{
    is_power_of_two, lemma_divides_transitive, lemma_is_pow2_pos, lemma_pow2_divides,
    lemma_pow2_is_pow2, lemma_round_down_props, lemma_round_up_props, round_down, round_up,
};

verus! {

/// Why an allocation request was refused.
#[derive(Clone, Copy, Debug, PartialEq, Eq, Structural)]
pub enum AllocError {
    /// The free gap between the byte and page cursors is too small.
    NoMemory,
    /// The requested alignment is unusable for this discipline.
    InvalidParam,
}

/// Early memory allocator, for use before the real byte- and
/// page-granularity allocators exist.
///
/// The managed region is three zones at all times:
///
/// `[ bytes in use | free gap | pages in use ]`
/// `start        byte_pos   page_pos       end`
///
/// Byte allocations are never reclaimed individually; page allocations
/// are never reclaimed at all.
pub struct EarlyAllocator<const PAGE_SIZE: usize> {
    start: usize,
    end: usize,
    byte_pos: usize,
    page_pos: usize,
}

impl<const PAGE_SIZE: usize> EarlyAllocator<PAGE_SIZE> {
    /// Lowest managed address.
    pub closed spec fn spec_start(self) -> int {
        self.start as int
    }

    /// One past the highest managed address.
    pub closed spec fn spec_end(self) -> int {
        self.end as int
    }

    /// Next free byte-allocation address.
    pub closed spec fn spec_byte_pos(self) -> int {
        self.byte_pos as int
    }

    /// Next free page-allocation address (top of the free gap).
    pub closed spec fn spec_page_pos(self) -> int {
        self.page_pos as int
    }

    /// The cursors always sit inside the region, byte cursor below page
    /// cursor.
    pub open spec fn wf(self) -> bool {
        self.spec_start() <= self.spec_byte_pos() <= self.spec_page_pos() <= self.spec_end()
    }

    pub open spec fn total_bytes_spec(self) -> int {
        self.spec_end() - self.spec_start()
    }

    pub open spec fn used_bytes_spec(self) -> int {
        self.spec_byte_pos() - self.spec_start()
    }

    pub open spec fn available_bytes_spec(self) -> int {
        self.spec_page_pos() - self.spec_byte_pos()
    }

    pub open spec fn total_pages_spec(self) -> int
        recommends
            1 <= PAGE_SIZE,
    {
        self.total_bytes_spec() / (PAGE_SIZE as int)
    }

    pub open spec fn used_pages_spec(self) -> int
        recommends
            1 <= PAGE_SIZE,
    {
        (self.spec_end() - self.spec_page_pos()) / (PAGE_SIZE as int)
    }

    pub open spec fn available_pages_spec(self) -> int
        recommends
            1 <= PAGE_SIZE,
    {
        self.available_bytes_spec() / (PAGE_SIZE as int)
    }

    /// Address a byte allocation with this alignment would return.
    pub open spec fn byte_alloc_addr(self, align: int) -> int
        recommends
            1 <= align,
    {
        round_up(self.spec_byte_pos(), align)
    }

    /// Whether a byte allocation of `size` with `align` fits in the gap.
    pub open spec fn byte_alloc_fits(self, size: int, align: int) -> bool
        recommends
            1 <= align,
    {
        self.byte_alloc_addr(align) + size <= self.spec_page_pos()
    }

    /// A page-allocation alignment is usable when it is a multiple of the
    /// page size and that multiple is a power of two.
    pub open spec fn page_align_valid(align_pow2: int) -> bool
        recommends
            1 <= PAGE_SIZE,
    {
        &&& align_pow2 % (PAGE_SIZE as int) == 0
        &&& is_pow2(align_pow2 / (PAGE_SIZE as int))
    }

    /// The byte alignment a page allocation actually rounds down to: the
    /// page-count factor `align_pow2 / PAGE_SIZE` is used as a shift
    /// amount, so the result is two to the power of that factor.
    pub open spec fn page_alloc_align(align_pow2: int) -> int
        recommends
            1 <= PAGE_SIZE,
    {
        pow2((align_pow2 / (PAGE_SIZE as int)) as nat) as int
    }

    /// Address a page allocation would move the page cursor down to.
    pub open spec fn page_alloc_dest(self, num_pages: int, align_pow2: int) -> int
        recommends
            1 <= PAGE_SIZE,
            Self::page_align_valid(align_pow2),
    {
        round_down(
            self.spec_page_pos() - num_pages * (PAGE_SIZE as int),
            Self::page_alloc_align(align_pow2),
        )
    }

    /// Whether a page allocation leaves the page cursor at or above the
    /// byte cursor.
    pub open spec fn page_alloc_fits(self, num_pages: int, align_pow2: int) -> bool
        recommends
            1 <= PAGE_SIZE,
            Self::page_align_valid(align_pow2),
    {
        self.spec_byte_pos() <= self.page_alloc_dest(num_pages, align_pow2)
    }

    /// A fresh, uninitialized allocator: every field zero.
    pub fn new() -> (r: Self)
        ensures
            r.wf(),
            r.spec_start() == 0,
            r.spec_end() == 0,
            r.spec_byte_pos() == 0,
            r.spec_page_pos() == 0,
    {
        Self { start: 0, end: 0, byte_pos: 0, page_pos: 0 }
    }

    /// Hand the allocator the region `[start, start + size)` and reset
    /// both cursors to its ends. Calling this again resets the cursors,
    /// discarding all earlier allocations.
    pub fn init(&mut self, start: usize, size: usize)
        requires
            start + size <= usize::MAX,
        ensures
            final(self).wf(),
            final(self).spec_start() == start,
            final(self).spec_end() == start + size,
            final(self).spec_byte_pos() == start,
            final(self).spec_page_pos() == start + size,
    {
        self.start = start;
        self.end = start + size;
        self.byte_pos = start;
        self.page_pos = self.end;
    }

    /// Allocate `size` bytes aligned to `align`, growing the byte zone
    /// forward. `align` must be a power of two (not re-validated here).
    /// Succeeds exactly when the aligned request still fits below the
    /// page cursor; on success returns the aligned address.
    pub fn alloc_bytes(&mut self, size: usize, align: usize) -> (r: Result<usize, AllocError>)
        requires
            old(self).wf(),
            is_pow2(align as int),
        ensures
            final(self).wf(),
            final(self).spec_start() == old(self).spec_start(),
            final(self).spec_end() == old(self).spec_end(),
            final(self).spec_page_pos() == old(self).spec_page_pos(),
            r is Ok <==> old(self).byte_alloc_fits(size as int, align as int),
            r is Err ==> r == Err::<usize, AllocError>(AllocError::NoMemory) && *final(self)
                == *old(self),
            r is Ok ==> r->Ok_0 as int == old(self).byte_alloc_addr(align as int),
            r is Ok ==> r->Ok_0 as int % (align as int) == 0,
            r is Ok ==> old(self).spec_byte_pos() <= r->Ok_0 && final(self).spec_byte_pos()
                == r->Ok_0 + size,
    {
        proof {
            lemma_is_pow2_pos(align as int);
            lemma_round_up_props(self.byte_pos as int, align as int);
        }
        let avail: usize = self.page_pos - self.byte_pos;
        let rem: usize = self.byte_pos % align;
        let pad: usize = if rem == 0 {
            0
        } else {
            align - rem
        };
        if pad > avail || size > avail - pad {
            return Err(AllocError::NoMemory);
        }
        let addr: usize = self.byte_pos + pad;
        self.byte_pos = addr + size;
        Ok(addr)
    }

    /// Freeing byte allocations is unsupported: the call changes nothing.
    pub fn dealloc(&mut self, _pos: usize, _size: usize, _align: usize)
        ensures
            *final(self) == *old(self),
    {
    }

    pub fn total_bytes(&self) -> (r: usize)
        requires
            self.wf(),
        ensures
            r as int == self.total_bytes_spec(),
    {
        self.end - self.start
    }

    pub fn used_bytes(&self) -> (r: usize)
        requires
            self.wf(),
        ensures
            r as int == self.used_bytes_spec(),
    {
        self.byte_pos - self.start
    }

    pub fn available_bytes(&self) -> (r: usize)
        requires
            self.wf(),
        ensures
            r as int == self.available_bytes_spec(),
    {
        self.page_pos - self.byte_pos
    }

    /// Allocate `num_pages` pages, moving the page cursor down and
    /// rounding it to the alignment derived from `align_pow2`. The
    /// request is refused with `InvalidParam` unless `align_pow2` is a
    /// multiple of `PAGE_SIZE` whose page-count factor is a power of two,
    /// and with `NoMemory` when the moved cursor would cross the byte
    /// cursor.
    pub fn alloc_pages(&mut self, num_pages: usize, align_pow2: usize) -> (r: Result<
        usize,
        AllocError,
    >)
        requires
            old(self).wf(),
            is_pow2(PAGE_SIZE as int),
            Self::page_align_valid(align_pow2 as int) ==> align_pow2 / PAGE_SIZE < usize::BITS
                as usize && num_pages * PAGE_SIZE <= usize::MAX,
        ensures
            final(self).wf(),
            final(self).spec_start() == old(self).spec_start(),
            final(self).spec_end() == old(self).spec_end(),
            final(self).spec_byte_pos() == old(self).spec_byte_pos(),
            r == Err::<usize, AllocError>(AllocError::InvalidParam) <==> !Self::page_align_valid(
                align_pow2 as int,
            ),
            r == Err::<usize, AllocError>(AllocError::NoMemory) <==> Self::page_align_valid(
                align_pow2 as int,
            ) && !old(self).page_alloc_fits(num_pages as int, align_pow2 as int),
            r is Ok <==> Self::page_align_valid(align_pow2 as int) && old(self).page_alloc_fits(
                num_pages as int,
                align_pow2 as int,
            ),
            r is Err ==> *final(self) == *old(self),
            r is Ok ==> r->Ok_0 as int == old(self).page_alloc_dest(
                num_pages as int,
                align_pow2 as int,
            ),
            r is Ok ==> final(self).spec_page_pos() == r->Ok_0 && r->Ok_0 <= old(
                self,
            ).spec_page_pos(),
            r is Ok && old(self).spec_page_pos() % (PAGE_SIZE as int) == 0 ==> r->Ok_0 as int % (
            PAGE_SIZE as int) == 0,
    {
        proof {
            lemma_is_pow2_pos(PAGE_SIZE as int);
        }
        if align_pow2 % PAGE_SIZE != 0 {
            return Err(AllocError::InvalidParam);
        }
        let units: usize = align_pow2 / PAGE_SIZE;
        if !is_power_of_two(units) {
            return Err(AllocError::InvalidParam);
        }
        let size: usize = num_pages * PAGE_SIZE;
        let align: usize = 1usize << units;
        proof {
            lemma_usize_pow2_no_overflow(units as nat);
            lemma_usize_shl_is_mul(1usize, units);
            lemma_pow2_is_pow2(units as nat);
            lemma_is_pow2_pos(align as int);
        }
        if size > self.page_pos {
            proof {
                lemma_round_down_props(self.spec_page_pos() - size as int, align as int);
            }
            return Err(AllocError::NoMemory);
        }
        let t: usize = self.page_pos - size;
        proof {
            lemma_round_down_props(t as int, align as int);
        }
        let new_page_pos: usize = t / align * align;
        if new_page_pos < self.byte_pos {
            return Err(AllocError::NoMemory);
        }
        proof {
            if self.page_pos % PAGE_SIZE == 0 {
                let p = PAGE_SIZE as int;
                let a = align as int;
                lemma_pow2_is_pow2(units as nat);
                lemma_mod_multiples_basic(num_pages as int, p);
                assert(size as int % p == 0);
                lemma_sub_mod_noop(self.spec_page_pos(), size as int, p);
                lemma_small_mod(0, PAGE_SIZE as nat);
                assert(t as int % p == 0);
                if a <= p {
                    lemma_pow2_divides(a, p);
                    lemma_divides_transitive(a, p, t as int);
                } else {
                    lemma_pow2_divides(p, a);
                    lemma_divides_transitive(p, a, new_page_pos as int);
                }
            }
        }
        self.page_pos = new_page_pos;
        Ok(new_page_pos)
    }

    /// Freeing page allocations is unsupported: the call changes nothing.
    pub fn dealloc_pages(&mut self, _pos: usize, _num_pages: usize)
        ensures
            *final(self) == *old(self),
    {
    }

    pub fn total_pages(&self) -> (r: usize)
        requires
            self.wf(),
            1 <= PAGE_SIZE,
        ensures
            r as int == self.total_pages_spec(),
    {
        (self.end - self.start) / PAGE_SIZE
    }

    pub fn used_pages(&self) -> (r: usize)
        requires
            self.wf(),
            1 <= PAGE_SIZE,
        ensures
            r as int == self.used_pages_spec(),
    {
        (self.end - self.page_pos) / PAGE_SIZE
    }

    pub fn available_pages(&self) -> (r: usize)
        requires
            self.wf(),
            1 <= PAGE_SIZE,
        ensures
            r as int == self.available_pages_spec(),
    {
        (self.page_pos - self.byte_pos) / PAGE_SIZE
    }

    /// Decides the structural invariant, for callers outside verified
    /// code.
    pub fn is_well_formed(&self) -> (b: bool)
        ensures
            b == self.wf(),
    {
        self.start <= self.byte_pos && self.byte_pos <= self.page_pos && self.page_pos <= self.end
    }

    /// The three zones exactly cover the managed region: bytes in use,
    /// the free gap, and pages in use always sum to the whole.
    pub proof fn lemma_zone_accounting(self)
        requires
            self.wf(),
        ensures
            self.used_bytes_spec() + self.available_bytes_spec() + (self.spec_end()
                - self.spec_page_pos()) == self.total_bytes_spec(),
    {
    }

    /// While no page has been allocated, used and available bytes sum to
    /// the total.
    pub proof fn lemma_byte_accounting(self)
        requires
            self.wf(),
            self.spec_page_pos() == self.spec_end(),
        ensures
            self.used_bytes_spec() + self.available_bytes_spec() == self.total_bytes_spec(),
    {
    }

    /// While no byte has been allocated and the page cursor agrees with
    /// the region end modulo the page size, used and available pages sum
    /// to the total.
    pub proof fn lemma_page_accounting(self)
        requires
            self.wf(),
            1 <= PAGE_SIZE,
            self.spec_byte_pos() == self.spec_start(),
            self.spec_page_pos() % (PAGE_SIZE as int) == self.spec_end() % (PAGE_SIZE as int),
        ensures
            self.used_pages_spec() + self.available_pages_spec() == self.total_pages_spec(),
    {
        let p = PAGE_SIZE as int;
        let used = self.spec_end() - self.spec_page_pos();
        lemma_sub_mod_noop(self.spec_end(), self.spec_page_pos(), p);
        lemma_fundamental_div_mod(used, p);
        let u = used / p;
        assert(used == p * u);
        lemma_div_multiples_vanish(u, p);
        assert(used / p == u);
        lemma_hoist_over_denominator(self.spec_page_pos() - self.spec_start(), u, PAGE_SIZE as nat);
    }

    /// No two successful byte allocations overlap: when one allocation
    /// returns `a1` and the next succeeds from the state it left behind,
    /// the second address starts at or after `a1 + size1`.
    pub proof fn lemma_byte_allocs_disjoint(
        pre: Self,
        mid: Self,
        size1: usize,
        align1: usize,
        size2: usize,
        align2: usize,
    )
        requires
            pre.wf(),
            mid.wf(),
            is_pow2(align1 as int),
            is_pow2(align2 as int),
            pre.byte_alloc_fits(size1 as int, align1 as int),
            mid.spec_byte_pos() == pre.byte_alloc_addr(align1 as int) + size1,
            mid.byte_alloc_fits(size2 as int, align2 as int),
        ensures
            pre.byte_alloc_addr(align1 as int) + size1 <= mid.byte_alloc_addr(align2 as int),
    {
        lemma_is_pow2_pos(align2 as int);
        lemma_round_up_props(mid.spec_byte_pos(), align2 as int);
    }
}

} // verus!
