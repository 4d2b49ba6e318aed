//! What holds of the cursors over every run of calls.

use crate::align::{lemma_align_down, lemma_align_up};
use crate::region::{Call, Region};
use vstd::arithmetic::div_mod::lemma_div_is_ordered;
use vstd::arithmetic::mul::lemma_mul_nonnegative;
use vstd::prelude::*;

verus! {

/// No call moves the range or lets the cursors leave their order inside it,
/// and the page cursor only ever moves down, so the number of used pages
/// never falls.
pub proof fn lemma_step_keeps_bounds(r: Region, page_size: int, call: Call)
    requires
        r.wf(),
        page_size >= 0,
        call.well_formed(),
    ensures
        r.step(page_size, call).wf(),
        r.step(page_size, call).start == r.start,
        r.step(page_size, call).end == r.end,
        r.step(page_size, call).page_pos <= r.page_pos,
        page_size > 0 ==> r.step(page_size, call).used_pages(page_size) >= r.used_pages(page_size),
{
    match call {
        Call::AllocBytes { size, align } => {
            lemma_align_up(r.byte_pos, align);
        },
        Call::AllocPages { num_pages, align } => {
            lemma_mul_nonnegative(num_pages, page_size);
            lemma_align_down(r.page_pos - num_pages * page_size, align);
        },
        _ => {},
    }
    if page_size > 0 {
        lemma_div_is_ordered(
            r.end - r.page_pos,
            r.end - r.step(page_size, call).page_pos,
            page_size,
        );
    }
}

/// After every call of every run from a state within bounds, the state is
/// within bounds, the range is where it was, the page cursor is no higher
/// and the number of used pages no lower than at the start.
pub proof fn lemma_run_keeps_bounds(r: Region, page_size: int, calls: Seq<Call>)
    requires
        r.wf(),
        page_size >= 0,
        forall|i: int| 0 <= i < calls.len() ==> (#[trigger] calls[i]).well_formed(),
    ensures
        r.run(page_size, calls).wf(),
        r.run(page_size, calls).start == r.start,
        r.run(page_size, calls).end == r.end,
        r.run(page_size, calls).page_pos <= r.page_pos,
        page_size > 0 ==> r.run(page_size, calls).used_pages(page_size) >= r.used_pages(page_size),
    decreases calls.len(),
{
    if calls.len() > 0 {
        lemma_run_keeps_bounds(r, page_size, calls.drop_last());
        lemma_step_keeps_bounds(r.run(page_size, calls.drop_last()), page_size, calls.last());
    }
}

/// Granted byte allocations count up, as long as the counter has room.
pub proof fn lemma_granted_count(r: Region, page_size: int, calls: Seq<Call>)
    requires
        r.wf(),
        page_size >= 0,
        r.all_granted(page_size, calls),
        r.byte_count + calls.len() <= usize::MAX,
    ensures
        r.run(page_size, calls).byte_count == r.byte_count + calls.len(),
        r.run(page_size, calls).byte_pos >= r.byte_pos,
        forall|i: int| 0 <= i < calls.len() ==> (#[trigger] calls[i]).well_formed(),
    decreases calls.len(),
{
    if calls.len() > 0 {
        let before = calls.drop_last();
        lemma_granted_count(r, page_size, before);
        lemma_run_keeps_bounds(r, page_size, before);
        let last = calls.last();
        assert(last matches Call::AllocBytes { size, align } && align > 0);
        if let Call::AllocBytes { size, align } = last {
            lemma_align_up(r.run(page_size, before).byte_pos, align);
        }
        assert forall|i: int| 0 <= i < calls.len() implies (#[trigger] calls[i]).well_formed() by {
            if i < before.len() {
                assert(calls[i] == before[i]);
            }
        }
    }
}

/// Deallocations that leave at least one allocation outstanding do not
/// move the byte cursor; the one that gives the last allocation back
/// returns it to the start of the range.
pub proof fn lemma_deallocs(r: Region, page_size: int, frees: Seq<Call>)
    requires
        r.wf(),
        forall|i: int| 0 <= i < frees.len() ==> #[trigger] frees[i] is Dealloc,
        frees.len() <= r.byte_count,
    ensures
        r.run(page_size, frees).byte_count == r.byte_count - frees.len(),
        r.run(page_size, frees).page_pos == r.page_pos,
        r.run(page_size, frees).start == r.start,
        frees.len() < r.byte_count ==> r.run(page_size, frees).byte_pos == r.byte_pos,
        0 < frees.len() == r.byte_count ==> r.run(page_size, frees).byte_pos == r.start,
    decreases frees.len(),
{
    if frees.len() > 0 {
        let before = frees.drop_last();
        assert forall|i: int| 0 <= i < before.len() implies #[trigger] before[i] is Dealloc by {
            assert(before[i] == frees[i]);
        }
        lemma_deallocs(r, page_size, before);
        assert(frees.last() is Dealloc);
    }
}

/// Bulk reclaim: after any number of granted byte allocations on an empty
/// byte arena, giving back fewer than were granted leaves the byte cursor
/// where the allocations put it, and giving back the last one returns it to
/// the start of the range, so that all the room below the page arena is
/// available again. The order of the deallocations plays no part.
pub proof fn lemma_bulk_reclaim(r: Region, page_size: int, allocs: Seq<Call>, frees: Seq<Call>)
    requires
        r.wf(),
        page_size >= 0,
        r.byte_count == 0,
        r.all_granted(page_size, allocs),
        allocs.len() <= usize::MAX,
        forall|i: int| 0 <= i < frees.len() ==> #[trigger] frees[i] is Dealloc,
        frees.len() <= allocs.len(),
    ensures
        ({
            let full = r.run(page_size, allocs);
            let rest = full.run(page_size, frees);
            &&& frees.len() < allocs.len() ==> rest.byte_pos == full.byte_pos
            &&& 0 < frees.len() == allocs.len() ==> {
                &&& rest.byte_pos == r.start
                &&& rest.byte_count == 0
                &&& rest.available_bytes() == rest.page_pos - r.start
            }
        }),
{
    lemma_granted_count(r, page_size, allocs);
    lemma_run_keeps_bounds(r, page_size, allocs);
    let full = r.run(page_size, allocs);
    lemma_deallocs(full, page_size, frees);
    lemma_run_keeps_bounds(full, page_size, frees);
}

} // verus!
