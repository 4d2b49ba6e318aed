//! The allocator itself.

use crate::align::{
    align_up_spec, lemma_align_down, lemma_align_up, lemma_align_up_overflow,
    lemma_mask_rounds_down, lemma_pow2_positive,
};
use crate::region::{AllocError, AllocResult, Region};
use vstd::arithmetic::power2::is_pow2;
use vstd::prelude::*;

verus! {

/// Early memory allocator, for use before the byte allocator and the page
/// allocator proper can work. It manages one range from both ends:
///
/// ```text
/// [ bytes-used | avail-area | pages-used ]
/// |            | -->    <-- |            |
/// start     byte_pos     page_pos       end
/// ```
///
/// The byte arena counts its allocations and is freed as a whole when the
/// count returns to zero. The page arena is never freed.
pub struct EarlyAllocator<const PAGE_SIZE: usize> {
    start: usize,
    end: usize,
    byte_pos: usize,
    page_pos: usize,
    byte_count: usize,
}

impl<const PAGE_SIZE: usize> View for EarlyAllocator<PAGE_SIZE> {
    type V = Region;

    closed spec fn view(&self) -> Region {
        Region {
            start: self.start as int,
            end: self.end as int,
            byte_pos: self.byte_pos as int,
            page_pos: self.page_pos as int,
            byte_count: self.byte_count as int,
        }
    }
}

impl<const PAGE_SIZE: usize> EarlyAllocator<PAGE_SIZE> {
    #[verifier::type_invariant]
    spec fn inv(self) -> bool {
        self@.wf()
    }

    /// An allocator with no range bound to it yet.
    pub fn new() -> (a: Self)
        ensures
            a@ == Region::unbound(),
            a@.wf(),
    {
        Self { start: 0, end: 0, byte_pos: 0, page_pos: 0, byte_count: 0 }
    }

    /// Rounds `addr` up to the next multiple of `align`.
    pub fn align_up(addr: usize, align: usize) -> (res: usize)
        requires
            is_pow2(align as int),
            addr + align - 1 <= usize::MAX,
        ensures
            res == align_up_spec(addr as int, align as int),
            res % align == 0,
            addr <= res < addr + align,
    {
        proof {
            lemma_pow2_positive(align as int);
            lemma_mask_rounds_down((addr + align - 1) as usize, align);
            lemma_align_up(addr as int, align as int);
        }
        let mask: usize = align - 1;
        (addr + mask) & !mask
    }

    /// Binds the range `[start, start + size)`: both arenas are empty and
    /// nothing is outstanding. Whatever was bound before is forgotten.
    pub fn init(&mut self, start: usize, size: usize)
        requires
            start + size <= usize::MAX,
        ensures
            final(self)@ == Region::bound(start as int, size as int),
            final(self)@.wf(),
    {
        *self = Self {
            start,
            end: start + size,
            byte_pos: start,
            page_pos: start + size,
            byte_count: 0,
        };
    }

    /// The range cannot grow: always refused, and nothing changes.
    pub fn add_memory(&mut self, _start: usize, _size: usize) -> (res: AllocResult)
        ensures
            res == Err::<(), AllocError>(AllocError::InvalidParam),
            final(self)@ == old(self)@,
            final(self)@.wf(),
    {
        proof {
            use_type_invariant(&*self);
        }
        Err(AllocError::InvalidParam)
    }

    /// Takes `size` bytes at the next multiple of `align` from the byte
    /// arena and returns their address, or refuses with `NoMemory` and
    /// changes nothing where they would reach into the page arena.
    pub fn alloc_bytes(&mut self, size: usize, align: usize) -> (res: AllocResult<usize>)
        requires
            is_pow2(align as int),
        ensures
            final(self)@.wf(),
            final(self)@ == old(self)@.after_alloc(size as int, align as int),
            old(self)@.byte_fits(size as int, align as int) ==> res == Ok::<usize, AllocError>(
                old(self)@.byte_base(align as int) as usize,
            ),
            !old(self)@.byte_fits(size as int, align as int) ==> {
                &&& res == Err::<usize, AllocError>(AllocError::NoMemory)
                &&& final(self)@ == old(self)@
            },
            res matches Ok(addr) ==> {
                &&& addr % align == 0
                &&& old(self)@.start <= old(self)@.byte_pos <= addr < old(self)@.byte_pos + align
                &&& addr + size == final(self)@.byte_pos
                &&& final(self)@.byte_pos <= final(self)@.page_pos
            },
    {
        proof {
            use_type_invariant(&*self);
            lemma_pow2_positive(align as int);
            lemma_align_up(self.byte_pos as int, align as int);
        }
        let current_pos: usize = self.byte_pos;
        if current_pos > usize::MAX - (align - 1) {
            proof {
                lemma_align_up_overflow(current_pos, align);
            }
            return Err(AllocError::NoMemory);
        }
        let aligned_pos: usize = Self::align_up(current_pos, align);
        let new_pos: usize = match aligned_pos.checked_add(size) {
            Some(new_pos) => new_pos,
            None => {
                return Err(AllocError::NoMemory);
            },
        };
        if new_pos > self.page_pos {
            return Err(AllocError::NoMemory);
        }
        self.byte_pos = new_pos;
        self.byte_count = self.byte_count.wrapping_add(1);
        Ok(aligned_pos)
    }

    /// Gives one byte allocation back. Which one is not looked at: the
    /// count of outstanding allocations goes down by one, and when it
    /// reaches zero the whole byte arena is free again.
    pub fn dealloc(&mut self, _pos: usize, _size: usize, _align: usize)
        ensures
            final(self)@ == old(self)@.after_dealloc(),
            final(self)@.wf(),
    {
        proof {
            use_type_invariant(&*self);
        }
        let count: usize = self.byte_count;
        self.byte_count = count.wrapping_sub(1);
        if count == 1 {
            self.byte_pos = self.start;
        }
    }

    /// Size of the whole range in bytes.
    pub fn total_bytes(&self) -> (n: usize)
        ensures
            n == self@.total_bytes(),
            self@.wf(),
    {
        proof {
            use_type_invariant(self);
        }
        self.end - self.start
    }

    /// Size of the byte arena.
    pub fn used_bytes(&self) -> (n: usize)
        ensures
            n == self@.used_bytes(),
            self@.wf(),
    {
        proof {
            use_type_invariant(self);
        }
        self.byte_pos - self.start
    }

    /// Size of the gap between the two arenas.
    pub fn available_bytes(&self) -> (n: usize)
        ensures
            n == self@.available_bytes(),
            n == self@.page_pos - self@.byte_pos,
            self@.wf(),
    {
        proof {
            use_type_invariant(self);
        }
        if self.page_pos > self.byte_pos {
            self.page_pos - self.byte_pos
        } else {
            0
        }
    }

    /// Takes `num_pages` pages from the page arena, rounded down to a
    /// multiple of `align_pow2`, and returns their address, or refuses with
    /// `NoMemory` and changes nothing where they would leave the range or
    /// reach the byte arena.
    pub fn alloc_pages(&mut self, num_pages: usize, align_pow2: usize) -> (res: AllocResult<usize>)
        requires
            is_pow2(align_pow2 as int),
        ensures
            final(self)@.wf(),
            final(self)@ == old(self)@.after_alloc_pages(num_pages * PAGE_SIZE, align_pow2 as int),
            old(self)@.page_fits(num_pages * PAGE_SIZE, align_pow2 as int) ==> res == Ok::<
                usize,
                AllocError,
            >(old(self)@.page_base(num_pages * PAGE_SIZE, align_pow2 as int) as usize),
            !old(self)@.page_fits(num_pages * PAGE_SIZE, align_pow2 as int) ==> {
                &&& res == Err::<usize, AllocError>(AllocError::NoMemory)
                &&& final(self)@ == old(self)@
            },
            final(self)@.page_pos <= old(self)@.page_pos,
            res matches Ok(addr) ==> {
                &&& addr % align_pow2 == 0
                &&& addr == final(self)@.page_pos
                &&& old(self)@.byte_pos < addr
                &&& addr + num_pages * PAGE_SIZE <= old(self)@.page_pos <= old(self)@.end
            },
    {
        proof {
            use_type_invariant(&*self);
            lemma_pow2_positive(align_pow2 as int);
        }
        let size: usize = match num_pages.checked_mul(PAGE_SIZE) {
            Some(size) => size,
            None => {
                return Err(AllocError::NoMemory);
            },
        };
        let align_mask: usize = align_pow2 - 1;
        let page_pos: usize = self.page_pos;
        let new_pos: usize = match page_pos.checked_sub(size) {
            Some(new_pos) => new_pos,
            None => {
                return Err(AllocError::NoMemory);
            },
        };
        let aligned_pos: usize = new_pos & !align_mask;
        proof {
            lemma_mask_rounds_down(new_pos, align_pow2);
            lemma_align_down(new_pos as int, align_pow2 as int);
        }
        if aligned_pos <= self.byte_pos {
            return Err(AllocError::NoMemory);
        }
        self.page_pos = aligned_pos;
        Ok(aligned_pos)
    }

    /// Pages are never given back: nothing changes.
    pub fn dealloc_pages(&mut self, _pos: usize, _num_pages: usize)
        ensures
            final(self)@ == old(self)@,
            final(self)@.wf(),
    {
        proof {
            use_type_invariant(&*self);
        }
    }

    /// Whole pages in the range.
    pub fn total_pages(&self) -> (n: usize)
        requires
            PAGE_SIZE > 0,
        ensures
            n == self@.total_pages(PAGE_SIZE as int),
            self@.wf(),
    {
        proof {
            use_type_invariant(self);
        }
        (self.end - self.start) / PAGE_SIZE
    }

    /// Whole pages in the page arena.
    pub fn used_pages(&self) -> (n: usize)
        requires
            PAGE_SIZE > 0,
        ensures
            n == self@.used_pages(PAGE_SIZE as int),
            self@.wf(),
    {
        proof {
            use_type_invariant(self);
        }
        (self.end - self.page_pos) / PAGE_SIZE
    }

    /// Whole pages in the gap between the two arenas.
    pub fn available_pages(&self) -> (n: usize)
        requires
            PAGE_SIZE > 0,
        ensures
            n == self@.available_pages(PAGE_SIZE as int),
            self@.wf(),
    {
        proof {
            use_type_invariant(self);
        }
        if self.page_pos > self.byte_pos {
            (self.page_pos - self.byte_pos) / PAGE_SIZE
        } else {
            0
        }
    }
}

} // verus!
