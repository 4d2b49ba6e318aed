//! The ranges an allocator has handed out, and why they never overlap.
//!
//! The allocator keeps no record of what it granted. This module keeps that
//! record beside the state, for a caller that gives back only what it was
//! granted, and shows that the ranges on record stay apart.

use crate::align::{lemma_align_down, lemma_align_up};
use crate::laws::lemma_step_keeps_bounds;
use crate::region::{Call, Region};
use vstd::arithmetic::mul::lemma_mul_nonnegative;
use vstd::prelude::*;

verus! {

/// The addresses `[base, base + len)`.
pub struct Span {
    pub base: int,
    pub len: int,
}

impl Span {
    /// One past the last address.
    pub open spec fn end(self) -> int {
        self.base + self.len
    }

    /// The two ranges share no address.
    pub open spec fn apart(self, other: Span) -> bool {
        self.end() <= other.base || other.end() <= self.base
    }
}

/// An allocator's state with the ranges it has handed out.
pub struct History {
    /// The state.
    pub region: Region,
    /// The byte allocations granted and not yet given back, oldest first.
    pub live: Seq<Span>,
    /// Every page allocation granted, oldest first.
    pub pages: Seq<Span>,
}

impl History {
    /// A bound allocator that has granted nothing.
    pub open spec fn fresh(start: int, size: int) -> History {
        History { region: Region::bound(start, size), live: Seq::empty(), pages: Seq::empty() }
    }

    /// Whether the caller may make this call: it gives back only what is
    /// outstanding, and does not hold more allocations than the counter can
    /// count.
    pub open spec fn admits(self, call: Call) -> bool {
        &&& call.well_formed()
        &&& call matches Call::Dealloc { which } ==> 0 <= which < self.live.len()
        &&& call is AllocBytes ==> self.live.len() < usize::MAX
    }

    /// The record after one call.
    pub open spec fn step(self, page_size: int, call: Call) -> History {
        let region = self.region.step(page_size, call);
        match call {
            Call::AllocBytes { size, align } => if self.region.byte_fits(size, align) {
                History {
                    region,
                    live: self.live.push(Span { base: self.region.byte_base(align), len: size }),
                    ..self
                }
            } else {
                self
            },
            Call::Dealloc { which } => History { region, live: self.live.remove(which), ..self },
            Call::AllocPages { num_pages, align } => if self.region.page_fits(
                num_pages * page_size,
                align,
            ) {
                History {
                    region,
                    pages: self.pages.push(
                        Span {
                            base: self.region.page_base(num_pages * page_size, align),
                            len: num_pages * page_size,
                        },
                    ),
                    ..self
                }
            } else {
                self
            },
            Call::DeallocPages => self,
            Call::AddMemory => self,
        }
    }

    /// The record after a sequence of calls, made in order.
    pub open spec fn run(self, page_size: int, calls: Seq<Call>) -> History
        decreases calls.len(),
    {
        if calls.len() == 0 {
            self
        } else {
            self.run(page_size, calls.drop_last()).step(page_size, calls.last())
        }
    }

    /// Whether the caller may make this sequence of calls, each in the
    /// state it meets.
    pub open spec fn admits_all(self, page_size: int, calls: Seq<Call>) -> bool
        decreases calls.len(),
    {
        calls.len() == 0 || {
            &&& self.admits_all(page_size, calls.drop_last())
            &&& self.run(page_size, calls.drop_last()).admits(calls.last())
        }
    }

    /// The record agrees with the state: the counter counts the outstanding
    /// byte allocations, these lie in the byte arena one after another in
    /// the order they were granted, and the page allocations lie in the
    /// page arena one below another in the order they were granted.
    pub open spec fn consistent(self) -> bool {
        &&& self.region.wf()
        &&& self.region.byte_count == self.live.len()
        &&& forall|i: int|
            0 <= i < self.live.len() ==> {
                &&& self.region.start <= (#[trigger] self.live[i]).base
                &&& self.live[i].len >= 0
                &&& self.live[i].end() <= self.region.byte_pos
            }
        &&& forall|i: int, j: int|
            0 <= i < j < self.live.len() ==> (#[trigger] self.live[i]).end() <= (
            #[trigger] self.live[j]).base
        &&& forall|i: int|
            0 <= i < self.pages.len() ==> {
                &&& self.region.page_pos <= (#[trigger] self.pages[i]).base
                &&& self.pages[i].len >= 0
                &&& self.pages[i].end() <= self.region.end
            }
        &&& forall|i: int, j: int|
            0 <= i < j < self.pages.len() ==> (#[trigger] self.pages[j]).end() <= (
            #[trigger] self.pages[i]).base
    }

    /// No two ranges on record share an address.
    pub open spec fn nothing_overlaps(self) -> bool {
        &&& forall|i: int, j: int|
            0 <= i < self.live.len() && 0 <= j < self.live.len() && i != j ==> (
            #[trigger] self.live[i]).apart(#[trigger] self.live[j])
        &&& forall|i: int, j: int|
            0 <= i < self.pages.len() && 0 <= j < self.pages.len() && i != j ==> (
            #[trigger] self.pages[i]).apart(#[trigger] self.pages[j])
        &&& forall|i: int, j: int|
            0 <= i < self.live.len() && 0 <= j < self.pages.len() ==> (
            #[trigger] self.live[i]).apart(#[trigger] self.pages[j])
    }
}

/// A freshly bound allocator has a consistent, empty record.
pub proof fn lemma_fresh_consistent(start: int, size: int)
    requires
        0 <= start,
        0 <= size,
        start + size <= usize::MAX,
    ensures
        History::fresh(start, size).consistent(),
{
}

/// One admitted call keeps the record consistent, and the state it holds
/// is the state the allocator is in.
pub proof fn lemma_step_consistent(h: History, page_size: int, call: Call)
    requires
        h.consistent(),
        page_size >= 0,
        h.admits(call),
    ensures
        h.step(page_size, call).consistent(),
        h.step(page_size, call).region == h.region.step(page_size, call),
{
    let next = h.step(page_size, call);
    lemma_step_keeps_bounds(h.region, page_size, call);
    match call {
        Call::AllocBytes { size, align } => {
            lemma_align_up(h.region.byte_pos, align);
        },
        Call::Dealloc { which } => {
            assert forall|i: int| 0 <= i < next.live.len() implies {
                &&& next.region.start <= (#[trigger] next.live[i]).base
                &&& next.live[i].len >= 0
                &&& next.live[i].end() <= next.region.byte_pos
            } by {
                let k = if i < which {
                    i
                } else {
                    i + 1
                };
                assert(next.live[i] == h.live[k]);
            }
            assert forall|i: int, j: int| 0 <= i < j < next.live.len() implies (
            #[trigger] next.live[i]).end() <= (#[trigger] next.live[j]).base by {
                let ki = if i < which {
                    i
                } else {
                    i + 1
                };
                let kj = if j < which {
                    j
                } else {
                    j + 1
                };
                assert(next.live[i] == h.live[ki]);
                assert(next.live[j] == h.live[kj]);
            }
        },
        Call::AllocPages { num_pages, align } => {
            lemma_mul_nonnegative(num_pages, page_size);
            lemma_align_down(h.region.page_pos - num_pages * page_size, align);
        },
        _ => {},
    }
}

/// Every admitted run keeps the record consistent, and the state it holds
/// is the state the allocator is in.
pub proof fn lemma_run_consistent(h: History, page_size: int, calls: Seq<Call>)
    requires
        h.consistent(),
        page_size >= 0,
        h.admits_all(page_size, calls),
    ensures
        h.run(page_size, calls).consistent(),
        h.run(page_size, calls).region == h.region.run(page_size, calls),
    decreases calls.len(),
{
    if calls.len() > 0 {
        lemma_run_consistent(h, page_size, calls.drop_last());
        lemma_step_consistent(h.run(page_size, calls.drop_last()), page_size, calls.last());
    }
}

/// In a consistent record no two ranges overlap: not two outstanding byte
/// allocations, not two page allocations, and not a byte allocation and a
/// page allocation.
pub proof fn lemma_consistent_apart(h: History)
    requires
        h.consistent(),
    ensures
        h.nothing_overlaps(),
{
    assert forall|i: int, j: int|
        0 <= i < h.live.len() && 0 <= j < h.live.len() && i != j implies (
    #[trigger] h.live[i]).apart(#[trigger] h.live[j]) by {
        if i < j {
            assert(h.live[i].end() <= h.live[j].base);
        } else {
            assert(h.live[j].end() <= h.live[i].base);
        }
    }
    assert forall|i: int, j: int|
        0 <= i < h.pages.len() && 0 <= j < h.pages.len() && i != j implies (
    #[trigger] h.pages[i]).apart(#[trigger] h.pages[j]) by {
        if i < j {
            assert(h.pages[j].end() <= h.pages[i].base);
        } else {
            assert(h.pages[i].end() <= h.pages[j].base);
        }
    }
}

/// Disjointness: whatever calls a caller makes on a freshly bound
/// allocator, as long as it gives back only what is outstanding, no two
/// ranges that are outstanding afterwards overlap.
pub proof fn lemma_disjoint(start: int, size: int, page_size: int, calls: Seq<Call>)
    requires
        0 <= start,
        0 <= size,
        start + size <= usize::MAX,
        page_size >= 0,
        History::fresh(start, size).admits_all(page_size, calls),
    ensures
        History::fresh(start, size).run(page_size, calls).nothing_overlaps(),
        History::fresh(start, size).run(page_size, calls).region == Region::bound(start, size).run(
            page_size,
            calls,
        ),
{
    lemma_fresh_consistent(start, size);
    lemma_run_consistent(History::fresh(start, size), page_size, calls);
    lemma_consistent_apart(History::fresh(start, size).run(page_size, calls));
}

} // verus!
