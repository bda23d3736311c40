use vstd::prelude::*;
use crate::address::PhysPageNum;
use crate::frame_allocator::{FrameTracker, GlobalFrameAllocator, tracker_ppn};
use crate::linked_list_allocator::{LinkedListFrameAllocator, ascending};
use crate::strategy::{FrameAllocator, alloc_step, dealloc_step};

verus! {
/// `states` and `got` record successive allocations of a strategy.
pub open spec fn alloc_run<A: FrameAllocator>(states: Seq<A>, got: Seq<Option<PhysPageNum>>) -> bool {
    &&& states.len() == got.len() + 1
    &&& forall|i: int| 0 <= i < got.len() ==> alloc_step(states[i], states[i + 1], #[trigger] got[i])
}

/// `states` and `freed` record successive releases of a strategy.
pub open spec fn dealloc_run<A: FrameAllocator>(states: Seq<A>, freed: Seq<PhysPageNum>) -> bool {
    &&& states.len() == freed.len() + 1
    &&& forall|i: int|
        0 <= i < freed.len() ==> dealloc_step(states[i], states[i + 1], #[trigger] freed[i])
}

/// The pages handed out by the first `n` allocations of a run.
pub open spec fn handed_out(got: Seq<Option<PhysPageNum>>, n: int) -> Set<usize> {
    Set::new(|p: usize| exists|i: int| 0 <= i < n && #[trigger] got[i] == Some(PhysPageNum(p)))
}

proof fn lemma_fresh_prefix<A: FrameAllocator>(
    states: Seq<A>,
    got: Seq<Option<PhysPageNum>>,
    low: int,
    high: int,
    n: int,
)
    requires
        alloc_run(states, got),
        states[0].free_set() == Set::new(|p: usize| low <= p < high),
        states[0].free_count() == high - low,
        0 <= n <= got.len(),
        n <= high - low,
    ensures
        states[n].free_count() == high - low - n,
        forall|p: usize| #[trigger] states[n].free_set().contains(p) ==> low <= p < high,
        forall|i: int|
            0 <= i < n ==> (#[trigger] got[i]).is_some() && low <= got[i].unwrap().0 < high
                && !states[n].free_set().contains(got[i].unwrap().0),
        forall|i: int, j: int| 0 <= i < j < n ==> got[i] != got[j],
    decreases n,
{
    if n > 0 {
        let m = n - 1;
        lemma_fresh_prefix(states, got, low, high, m);
        assert(alloc_step(states[m], states[n], got[m]));
        let p = got[m].unwrap().0;
        assert forall|i: int| 0 <= i < n implies (#[trigger] got[i]).is_some() && low <= got[i].unwrap().0
            < high && !states[n].free_set().contains(got[i].unwrap().0) by {
            if i < m {
                assert(!states[m].free_set().contains(got[i].unwrap().0));
            }
        }
        assert forall|i: int, j: int| 0 <= i < j < n implies got[i] != got[j] by {
            if j == m {
                assert(!states[m].free_set().contains(got[i].unwrap().0));
            }
        }
    }
}

/// A strategy that has just taken over `[low, high)` hands out `high - low`
/// distinct pages of that range, and the allocation after them finds
/// nothing.
pub proof fn lemma_fresh_run_yields_range<A: FrameAllocator>(
    states: Seq<A>,
    got: Seq<Option<PhysPageNum>>,
    low: int,
    high: int,
)
    requires
        alloc_run(states, got),
        states[0].free_set() == Set::new(|p: usize| low <= p < high),
        states[0].free_count() == high - low,
    ensures
        forall|i: int|
            0 <= i < got.len() && i < high - low ==> (#[trigger] got[i]).is_some() && low
                <= got[i].unwrap().0 < high,
        forall|i: int, j: int| 0 <= i < j < got.len() && j < high - low ==> got[i] != got[j],
        got.len() > high - low ==> got[high - low].is_none(),
{
    let n = if got.len() < high - low {
        got.len() as int
    } else {
        high - low
    };
    lemma_fresh_prefix(states, got, low, high, n);
    if got.len() > high - low {
        assert(alloc_step(states[n], states[n + 1], got[n]));
    }
}

proof fn lemma_count_prefix<A: FrameAllocator>(states: Seq<A>, got: Seq<Option<PhysPageNum>>, n: int)
    requires
        alloc_run(states, got),
        0 <= n <= got.len(),
        n <= states[0].free_count(),
    ensures
        states[n].free_count() == states[0].free_count() - n,
        forall|i: int| 0 <= i < n ==> (#[trigger] got[i]).is_some(),
    decreases n,
{
    if n > 0 {
        lemma_count_prefix(states, got, n - 1);
        assert(alloc_step(states[n - 1], states[n], got[n - 1]));
    }
}

proof fn lemma_release_prefix<A: FrameAllocator>(released: Seq<A>, freed: Seq<PhysPageNum>, n: int)
    requires
        dealloc_run(released, freed),
        0 <= n <= freed.len(),
    ensures
        released[n].free_count() == released[0].free_count() + n,
    decreases n,
{
    if n > 0 {
        lemma_release_prefix(released, freed, n - 1);
        assert(dealloc_step(released[n - 1], released[n], freed[n - 1]));
    }
}

/// The page numbers of the pages in `freed`.
pub open spec fn released_pages(freed: Seq<PhysPageNum>) -> Set<usize> {
    freed.map_values(|p: PhysPageNum| p.0).to_set()
}

proof fn lemma_release_set_prefix<A: FrameAllocator>(
    released: Seq<A>,
    freed: Seq<PhysPageNum>,
    n: int,
)
    requires
        dealloc_run(released, freed),
        released[0].free_set() == Set::<usize>::empty(),
        0 <= n <= freed.len(),
    ensures
        released[n].free_set() == freed.map_values(|p: PhysPageNum| p.0).take(n).to_set(),
    decreases n,
{
    let fs = freed.map_values(|p: PhysPageNum| p.0);
    if n == 0 {
        assert(fs.take(0).to_set() =~= Set::<usize>::empty());
    } else {
        lemma_release_set_prefix(released, freed, n - 1);
        assert(dealloc_step(released[n - 1], released[n], freed[n - 1]));
        assert(fs.take(n) =~= fs.take(n - 1).push(fs[n - 1]));
        fs.take(n - 1).lemma_push_to_set_commute(fs[n - 1]);
    }
}

proof fn lemma_drawn_from_pool<A: FrameAllocator>(
    states: Seq<A>,
    got: Seq<Option<PhysPageNum>>,
    pool: Set<usize>,
    n: int,
)
    requires
        alloc_run(states, got),
        states[0].free_set().subset_of(pool),
        0 <= n <= got.len(),
        forall|i: int| 0 <= i < n ==> (#[trigger] got[i]).is_some(),
    ensures
        states[n].free_set().subset_of(pool),
        forall|i: int|
            0 <= i < n ==> pool.contains((#[trigger] got[i]).unwrap().0)
                && !states[n].free_set().contains(got[i].unwrap().0),
        forall|i: int, j: int| 0 <= i < j < n ==> got[i] != got[j],
    decreases n,
{
    if n > 0 {
        let m = n - 1;
        lemma_drawn_from_pool(states, got, pool, m);
        assert(alloc_step(states[m], states[n], got[m]));
        assert forall|i: int| 0 <= i < n implies pool.contains((#[trigger] got[i]).unwrap().0)
            && !states[n].free_set().contains(got[i].unwrap().0) by {
            if i < m {
                assert(!states[m].free_set().contains(got[i].unwrap().0));
            }
        }
        assert forall|i: int, j: int| 0 <= i < j < n implies got[i] != got[j] by {
            if j == m {
                assert(!states[m].free_set().contains(got[i].unwrap().0));
            }
        }
    }
}

/// With every page in use, returning `k` pages makes exactly the next `k`
/// allocations succeed, handing out exactly the returned pages, and the one
/// after them fail.
pub proof fn lemma_release_then_refill<A: FrameAllocator>(
    released: Seq<A>,
    freed: Seq<PhysPageNum>,
    states: Seq<A>,
    got: Seq<Option<PhysPageNum>>,
)
    requires
        dealloc_run(released, freed),
        released[0].free_count() == 0,
        released[0].free_set() == Set::<usize>::empty(),
        states[0] == released[freed.len() as int],
        alloc_run(states, got),
    ensures
        forall|i: int| 0 <= i < got.len() && i < freed.len() ==> (#[trigger] got[i]).is_some(),
        got.len() >= freed.len() ==> handed_out(got, freed.len() as int) == released_pages(freed),
        got.len() > freed.len() ==> got[freed.len() as int].is_none(),
{
    let k = freed.len() as int;
    lemma_release_prefix(released, freed, k);
    let n = if got.len() < k {
        got.len() as int
    } else {
        k
    };
    lemma_count_prefix(states, got, n);
    if got.len() >= k {
        let fs = freed.map_values(|p: PhysPageNum| p.0);
        let pool = fs.to_set();
        lemma_release_set_prefix(released, freed, k);
        assert(fs.take(k) =~= fs);
        lemma_drawn_from_pool(states, got, pool, k);
        let outs = Seq::new(k as nat, |i: int| got[i].unwrap().0);
        assert(outs.no_duplicates()) by {
            assert forall|i: int, j: int| 0 <= i < outs.len() && 0 <= j < outs.len() && i != j
                implies outs[i] != outs[j] by {
                if i < j {
                    assert(got[i] != got[j]);
                } else {
                    assert(got[j] != got[i]);
                }
            }
        }
        outs.unique_seq_to_set();
        fs.lemma_cardinality_of_set();
        assert(outs.to_set().subset_of(pool)) by {
            assert forall|p: usize| outs.to_set().contains(p) implies pool.contains(p) by {
                let i = choose|i: int| 0 <= i < outs.len() && outs[i] == p;
                assert(pool.contains(got[i].unwrap().0));
            }
        }
        vstd::set_lib::lemma_len_subset(outs.to_set(), pool);
        vstd::set_lib::lemma_subset_equality(outs.to_set(), pool);
        assert forall|p: usize| #[trigger] handed_out(got, k).contains(p) <==> outs.to_set().contains(p) by {
            if handed_out(got, k).contains(p) {
                let i = choose|i: int| 0 <= i < k && #[trigger] got[i] == Some(PhysPageNum(p));
                assert(outs[i] == p);
            }
            if outs.to_set().contains(p) {
                let i = choose|i: int| 0 <= i < outs.len() && outs[i] == p;
                assert(got[i] == Some(PhysPageNum(p)));
            }
        }
        assert(handed_out(got, k) =~= released_pages(freed));
    }
    if got.len() > k {
        assert(alloc_step(states[k], states[k + 1], got[k]));
    }
}

/// `states` and `got` record successive allocations of a free-list allocator.
pub open spec fn list_alloc_run(
    states: Seq<LinkedListFrameAllocator>,
    got: Seq<Option<PhysPageNum>>,
) -> bool {
    &&& states.len() == got.len() + 1
    &&& forall|i: int|
        0 <= i < got.len() ==> LinkedListFrameAllocator::alloc_post(
            states[i],
            states[i + 1],
            #[trigger] got[i],
        )
}

proof fn lemma_list_fresh_prefix(
    states: Seq<LinkedListFrameAllocator>,
    got: Seq<Option<PhysPageNum>>,
    low: int,
    high: int,
    n: int,
)
    requires
        list_alloc_run(states, got),
        states[0].free_list() == ascending(low, high),
        low <= high,
        0 <= n <= got.len(),
        n <= high - low,
    ensures
        states[n].free_list() == ascending(low + n, high),
        forall|i: int| 0 <= i < n ==> #[trigger] got[i] == Some(PhysPageNum((low + i) as usize)),
    decreases n,
{
    if n > 0 {
        lemma_list_fresh_prefix(states, got, low, high, n - 1);
        assert(LinkedListFrameAllocator::alloc_post(states[n - 1], states[n], got[n - 1]));
        assert(states[n].free_list() =~= ascending(low + n, high));
    }
}

/// Right after `init` over `[low, high)`, a free-list allocator's first
/// `high - low` allocations hand out every page of `[low, high)` exactly once,
/// in ascending order, and the next one finds nothing.
pub proof fn lemma_list_fresh_yields_range(
    states: Seq<LinkedListFrameAllocator>,
    got: Seq<Option<PhysPageNum>>,
    low: int,
    high: int,
)
    requires
        list_alloc_run(states, got),
        states[0].free_list() == ascending(low, high),
        0 < low < high,
        high <= usize::MAX,
    ensures
        forall|i: int|
            0 <= i < got.len() && i < high - low ==> #[trigger] got[i] == Some(
                PhysPageNum((low + i) as usize),
            ),
        forall|i: int, j: int| 0 <= i < j < got.len() && j < high - low ==> got[i] != got[j],
        got.len() >= high - low ==> handed_out(got, high - low) == Set::new(
            |p: usize| low <= p < high,
        ),
        got.len() > high - low ==> got[high - low].is_none(),
{
    let n = if got.len() < high - low {
        got.len() as int
    } else {
        high - low
    };
    lemma_list_fresh_prefix(states, got, low, high, n);
    assert forall|i: int, j: int| 0 <= i < j < got.len() && j < high - low implies got[i] != got[j] by {
        assert(got[i] == Some(PhysPageNum((low + i) as usize)));
        assert(got[j] == Some(PhysPageNum((low + j) as usize)));
    }
    if got.len() >= high - low {
        assert forall|p: usize| #[trigger] handed_out(got, high - low).contains(p) <==> low <= p < high by {
            if low <= p < high {
                assert(got[p - low] == Some(PhysPageNum((low + (p - low)) as usize)));
            }
        }
        assert(handed_out(got, high - low) =~= Set::new(|p: usize| low <= p < high));
    }
    if got.len() > high - low {
        assert(LinkedListFrameAllocator::alloc_post(states[n], states[n + 1], got[n]));
    }
}

/// The guards in `live` hold pages that are in use, and no two of them hold
/// the same page.
pub open spec fn live_guards_ok(global: GlobalFrameAllocator, live: Seq<FrameTracker>) -> bool {
    &&& forall|i: int| 0 <= i < live.len() ==> global.is_allocated(#[trigger] live[i].ppn.0)
    &&& forall|i: int, j: int| 0 <= i < j < live.len() ==> live[i].ppn != live[j].ppn
}

/// An allocation never hands out a page that a live guard holds: the new
/// guard joins the live ones and they still hold distinct pages.
pub proof fn lemma_frame_alloc_unique(
    pre: GlobalFrameAllocator,
    post: GlobalFrameAllocator,
    r: Option<FrameTracker>,
    live: Seq<FrameTracker>,
)
    requires
        GlobalFrameAllocator::alloc_post(pre, post, r),
        live_guards_ok(pre, live),
    ensures
        r.is_none() ==> live_guards_ok(post, live),
        r.is_some() ==> live_guards_ok(post, live.push(r.unwrap())),
{
    assert(alloc_step(pre.allocator(), post.allocator(), tracker_ppn(r)));
    if let Some(t) = r {
        let nl = live.push(t);
        assert forall|i: int| 0 <= i < nl.len() implies post.is_allocated(#[trigger] nl[i].ppn.0) by {
            if i < live.len() {
                assert(nl[i] == live[i]);
                assert(pre.is_allocated(live[i].ppn.0));
            }
        }
        assert forall|i: int, j: int| 0 <= i < j < nl.len() implies nl[i].ppn != nl[j].ppn by {
            assert(nl[i] == live[i]);
            assert(pre.is_allocated(live[i].ppn.0));
            if j < live.len() {
                assert(nl[j] == live[j]);
            }
        }
    } else {
        assert forall|i: int| 0 <= i < live.len() implies post.is_allocated(#[trigger] live[i].ppn.0) by {
            assert(pre.is_allocated(live[i].ppn.0));
        }
    }
}

/// Returning the page of the live guard at position `k` leaves every other
/// live guard's page in use.
pub proof fn lemma_frame_dealloc_unique(
    pre: GlobalFrameAllocator,
    post: GlobalFrameAllocator,
    live: Seq<FrameTracker>,
    k: int,
)
    requires
        0 <= k < live.len(),
        GlobalFrameAllocator::dealloc_post(pre, post, live[k].ppn),
        live_guards_ok(pre, live),
    ensures
        live_guards_ok(post, live.remove(k)),
        !post.is_allocated(live[k].ppn.0),
{
    assert(dealloc_step(pre.allocator(), post.allocator(), live[k].ppn));
    let nl = live.remove(k);
    assert forall|i: int| 0 <= i < nl.len() implies post.is_allocated(#[trigger] nl[i].ppn.0) by {
        let o = if i < k {
            i
        } else {
            i + 1
        };
        assert(nl[i] == live[o]);
        assert(pre.is_allocated(live[o].ppn.0));
        if o < k {
            assert(live[o].ppn != live[k].ppn);
        } else {
            assert(live[k].ppn != live[o].ppn);
        }
    }
    assert forall|i: int, j: int| 0 <= i < j < nl.len() implies nl[i].ppn != nl[j].ppn by {
        let oi = if i < k {
            i
        } else {
            i + 1
        };
        let oj = if j < k {
            j
        } else {
            j + 1
        };
        assert(nl[i] == live[oi] && nl[j] == live[oj]);
    }
}

} // verus!
