use vstd::prelude::*;
use crate::address::PhysPageNum;
use crate::memory::PhysMemory;

verus! {
/// What every frame allocation strategy offers: it manages a range of pages
/// of a memory arena, hands out free pages and takes back handed-out ones.
pub trait FrameAllocator: Sized {
    /// The bookkeeping is sound with respect to the arena `mem`.
    spec fn inv(&self, mem: &PhysMemory) -> bool;

    /// The pages that coming allocations can hand out.
    spec fn free_set(&self) -> Set<usize>;

    /// How many allocations succeed from here on when no page is returned.
    spec fn free_count(&self) -> nat;

    /// Whether the strategy can manage the pages `[low, high)`.
    spec fn accepts_range(low: int, high: int) -> bool;

    /// Whether returning `ppn` is sound; returning any other page is a
    /// kernel bug.
    spec fn can_release(&self, mem: &PhysMemory, ppn: usize) -> bool;

    /// The exact state right after taking over `[low, high)`.
    spec fn is_fresh(&self, low: int, high: int) -> bool;

    /// The exact effect of one allocation step from `pre` to `post` with
    /// result `r`.
    spec fn alloc_post(pre: Self, post: Self, r: Option<PhysPageNum>) -> bool;

    /// The exact effect of one release step from `pre` to `post` that returns
    /// `ppn`.
    spec fn dealloc_post(pre: Self, post: Self, ppn: PhysPageNum) -> bool;

    /// A page that may be returned lies in the arena and is not free.
    proof fn lemma_release_is_held(&self, mem: &PhysMemory, ppn: usize)
        requires
            self.inv(mem),
            self.can_release(mem, ppn),
        ensures
            mem.holds(ppn as int),
            !self.free_set().contains(ppn),
    ;

    /// Writing into a page that is not free keeps the bookkeeping sound.
    proof fn lemma_write_keeps_inv(&self, pre: &PhysMemory, post: &PhysMemory, ppn: usize)
        requires
            self.inv(pre),
            post.wf(),
            post.first() == pre.first(),
            post.end() == pre.end(),
            pre.holds(ppn as int),
            !self.free_set().contains(ppn),
            forall|p: int| pre.holds(p) && p != ppn ==> #[trigger] post.page(p) == pre.page(p),
        ensures
            self.inv(post),
    ;

    /// An allocator that manages no page yet.
    fn empty() -> (r: Self)
        ensures
            r.free_count() == 0,
            r.free_set() == Set::<usize>::empty(),
            forall|mem: PhysMemory| mem.wf() && mem.first() == 0 && mem.end() == 0 ==> r.inv(&mem),
    ;

    /// Manages all the pages of `mem`, which are `[l, r)`.
    fn init_range(&mut self, mem: &mut PhysMemory, l: PhysPageNum, r: PhysPageNum)
        requires
            old(mem).wf(),
            Self::accepts_range(l.0 as int, r.0 as int),
            old(mem).first() == l.0,
            old(mem).end() == r.0,
        ensures
            final(self).inv(final(mem)),
            final(self).is_fresh(l.0 as int, r.0 as int),
            final(mem).wf(),
            final(mem).first() == old(mem).first(),
            final(mem).end() == old(mem).end(),
            final(self).free_set() == Set::new(|p: usize| l.0 <= p < r.0),
            final(self).free_count() == r.0 - l.0,
    ;

    /// Hands out a free page, or `None` when no page is free. No other page
    /// changes in memory.
    fn alloc_frame(&mut self, mem: &mut PhysMemory) -> (r: Option<PhysPageNum>)
        requires
            old(self).inv(old(mem)),
        ensures
            final(self).inv(final(mem)),
            final(mem).wf(),
            Self::alloc_post(*old(self), *final(self), r),
            r.is_some() <==> old(self).free_count() > 0,
            r.is_some() ==> old(self).free_set().contains(r.unwrap().0),
            r.is_some() ==> final(self).free_set() == old(self).free_set().remove(r.unwrap().0),
            r.is_some() ==> final(self).free_count() + 1 == old(self).free_count(),
            r.is_none() ==> final(self).free_set() == old(self).free_set(),
            r.is_none() ==> final(self).free_count() == old(self).free_count(),
            final(mem).first() == old(mem).first(),
            final(mem).end() == old(mem).end(),
            r.is_some() ==> final(mem).holds(r.unwrap().0 as int),
            r.is_none() ==> *final(mem) == *old(mem),
            forall|p: int|
                old(mem).holds(p) && (r.is_none() || p != r.unwrap().0) ==> #[trigger] final(mem).page(p)
                    == old(mem).page(p),
    ;

    /// Takes back a page that may be returned. No other page changes in memory.
    fn dealloc_frame(&mut self, mem: &mut PhysMemory, ppn: PhysPageNum)
        requires
            old(self).inv(old(mem)),
            old(self).can_release(old(mem), ppn.0),
        ensures
            final(self).inv(final(mem)),
            final(mem).wf(),
            Self::dealloc_post(*old(self), *final(self), ppn),
            final(self).free_set() == old(self).free_set().insert(ppn.0),
            final(self).free_count() == old(self).free_count() + 1,
            final(mem).first() == old(mem).first(),
            final(mem).end() == old(mem).end(),
            forall|p: int|
                old(mem).holds(p) && p != ppn.0 ==> #[trigger] final(mem).page(p) == old(mem).page(p),
    ;

    /// Whether returning `ppn` is sound.
    fn releasable(&self, mem: &PhysMemory, ppn: PhysPageNum) -> (r: bool)
        requires
            self.inv(mem),
        ensures
            r == self.can_release(mem, ppn.0),
    ;
}

/// One allocation step from `pre` to `post` with result `r`, as every
/// `alloc_frame` makes it: a page comes
/// out exactly when one is free, and it leaves the free set.
pub open spec fn alloc_step<A: FrameAllocator>(pre: A, post: A, r: Option<PhysPageNum>) -> bool {
    &&& (r.is_some() <==> pre.free_count() > 0)
    &&& match r {
        Some(p) => {
            &&& pre.free_set().contains(p.0)
            &&& post.free_set() == pre.free_set().remove(p.0)
            &&& post.free_count() + 1 == pre.free_count()
        },
        None => {
            &&& post.free_set() == pre.free_set()
            &&& post.free_count() == pre.free_count()
        },
    }
}

/// One release step from `pre` to `post` that returns `ppn` to the free set,
/// as every `dealloc_frame` makes it.
pub open spec fn dealloc_step<A: FrameAllocator>(pre: A, post: A, ppn: PhysPageNum) -> bool {
    &&& post.free_set() == pre.free_set().insert(ppn.0)
    &&& post.free_count() == pre.free_count() + 1
}

} // verus!
