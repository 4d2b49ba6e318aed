//! The allocator's state as plain numbers, and what each operation makes
//! of it.

use crate::align::{align_down_spec, align_up_spec};
use vstd::prelude::*;

verus! {

/// Why an operation was refused.
#[derive(Clone, Copy, Debug, PartialEq, Eq, Structural)]
pub enum AllocError {
    /// The operation is not one this allocator offers.
    InvalidParam,
    /// The byte arena and the page arena would meet.
    NoMemory,
}

/// What an operation returns.
pub type AllocResult<T = ()> = Result<T, AllocError>;

/// One address range `[start, end)` with a byte arena growing up from
/// `start`, a page arena growing down from `end`, and the number of byte
/// allocations that have been granted and not yet given back.
pub struct Region {
    pub start: int,
    pub end: int,
    pub byte_pos: int,
    pub page_pos: int,
    pub byte_count: int,
}

/// The counter after one more allocation; it wraps like the machine word
/// that holds it.
pub open spec fn count_up(count: int) -> int {
    if count == usize::MAX {
        0
    } else {
        count + 1
    }
}

/// The counter after one more deallocation; it wraps like the machine word
/// that holds it.
pub open spec fn count_down(count: int) -> int {
    if count == 0 {
        usize::MAX as int
    } else {
        count - 1
    }
}

impl Region {
    /// The cursors are ordered inside the range, and everything fits a
    /// machine word.
    pub open spec fn wf(self) -> bool {
        &&& 0 <= self.start <= self.byte_pos
        &&& self.byte_pos <= self.page_pos
        &&& self.page_pos <= self.end <= usize::MAX
        &&& 0 <= self.byte_count <= usize::MAX
    }

    /// The state before any range is bound.
    pub open spec fn unbound() -> Region {
        Region { start: 0, end: 0, byte_pos: 0, page_pos: 0, byte_count: 0 }
    }

    /// The state right after binding `[start, start + size)`.
    pub open spec fn bound(start: int, size: int) -> Region {
        Region {
            start,
            end: start + size,
            byte_pos: start,
            page_pos: start + size,
            byte_count: 0,
        }
    }

    /// Where the next byte allocation with this alignment would begin.
    pub open spec fn byte_base(self, align: int) -> int {
        align_up_spec(self.byte_pos, align)
    }

    /// Whether a byte allocation stays clear of the page arena.
    pub open spec fn byte_fits(self, size: int, align: int) -> bool {
        self.byte_base(align) + size <= self.page_pos
    }

    /// The state after a byte allocation was asked for: unchanged where it
    /// does not fit.
    pub open spec fn after_alloc(self, size: int, align: int) -> Region {
        if self.byte_fits(size, align) {
            Region {
                byte_pos: self.byte_base(align) + size,
                byte_count: count_up(self.byte_count),
                ..self
            }
        } else {
            self
        }
    }

    /// The state after a byte deallocation: the whole byte arena is free
    /// again once the last outstanding allocation is given back.
    pub open spec fn after_dealloc(self) -> Region {
        if self.byte_count == 1 {
            Region { byte_pos: self.start, byte_count: 0, ..self }
        } else {
            Region { byte_count: count_down(self.byte_count), ..self }
        }
    }

    /// Where a page allocation of `bytes` bytes with this alignment would
    /// begin.
    pub open spec fn page_base(self, bytes: int, align: int) -> int {
        align_down_spec(self.page_pos - bytes, align)
    }

    /// Whether a page allocation stays inside the range and strictly above
    /// the byte arena.
    pub open spec fn page_fits(self, bytes: int, align: int) -> bool {
        &&& bytes <= self.page_pos
        &&& self.page_base(bytes, align) > self.byte_pos
    }

    /// The state after a page allocation was asked for: unchanged where it
    /// does not fit.
    pub open spec fn after_alloc_pages(self, bytes: int, align: int) -> Region {
        if self.page_fits(bytes, align) {
            Region { page_pos: self.page_base(bytes, align), ..self }
        } else {
            self
        }
    }

    /// Size of the whole range.
    pub open spec fn total_bytes(self) -> int {
        self.end - self.start
    }

    /// Size of the byte arena.
    pub open spec fn used_bytes(self) -> int {
        self.byte_pos - self.start
    }

    /// Size of the gap between the two arenas.
    pub open spec fn available_bytes(self) -> int {
        if self.page_pos > self.byte_pos {
            self.page_pos - self.byte_pos
        } else {
            0
        }
    }

    /// Whole pages in the range.
    pub open spec fn total_pages(self, page_size: int) -> int {
        self.total_bytes() / page_size
    }

    /// Whole pages in the page arena.
    pub open spec fn used_pages(self, page_size: int) -> int {
        (self.end - self.page_pos) / page_size
    }

    /// Whole pages in the gap between the two arenas.
    pub open spec fn available_pages(self, page_size: int) -> int {
        self.available_bytes() / page_size
    }
}

/// One call on a bound allocator, by its arguments.
pub enum Call {
    /// A byte allocation of `size` bytes at a multiple of `align`.
    AllocBytes { size: int, align: int },
    /// A byte deallocation. `which` says which of the outstanding
    /// allocations, oldest first, the caller gives back; the allocator
    /// itself does not look at it.
    Dealloc { which: int },
    /// A page allocation of `num_pages` pages at a multiple of `align`.
    AllocPages { num_pages: int, align: int },
    /// A page deallocation.
    DeallocPages,
    /// An attempt to add memory.
    AddMemory,
}

impl Call {
    /// Sizes are not negative and alignments are positive.
    pub open spec fn well_formed(self) -> bool {
        match self {
            Call::AllocBytes { size, align } => size >= 0 && align > 0,
            Call::AllocPages { num_pages, align } => num_pages >= 0 && align > 0,
            _ => true,
        }
    }
}

impl Region {
    /// The state after one call, with pages of `page_size` bytes: what the
    /// allocator's method for that call leaves behind.
    pub open spec fn step(self, page_size: int, call: Call) -> Region {
        match call {
            Call::AllocBytes { size, align } => self.after_alloc(size, align),
            Call::Dealloc { which } => self.after_dealloc(),
            Call::AllocPages { num_pages, align } => self.after_alloc_pages(
                num_pages * page_size,
                align,
            ),
            Call::DeallocPages => self,
            Call::AddMemory => self,
        }
    }

    /// The state after a sequence of calls, made in order.
    pub open spec fn run(self, page_size: int, calls: Seq<Call>) -> Region
        decreases calls.len(),
    {
        if calls.len() == 0 {
            self
        } else {
            self.run(page_size, calls.drop_last()).step(page_size, calls.last())
        }
    }

    /// Every call of the sequence is a byte allocation, and each one was
    /// granted in the state it met.
    pub open spec fn all_granted(self, page_size: int, calls: Seq<Call>) -> bool
        decreases calls.len(),
    {
        calls.len() == 0 || {
            &&& self.all_granted(page_size, calls.drop_last())
            &&& calls.last() matches Call::AllocBytes { size, align }
            &&& size >= 0
            &&& align > 0
            &&& self.run(page_size, calls.drop_last()).byte_fits(size, align)
        }
    }
}

} // verus!
