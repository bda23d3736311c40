use vstd::prelude::*;
use crate::address::PhysPageNum;
use crate::memory::PhysMemory;
use crate::strategy::FrameAllocator;

verus! {
/// Frame allocator that hands out pages from a cursor and keeps returned
/// pages on a recycle list, which it serves first.
pub struct StackFrameAllocator {
    start: usize,
    current: usize,
    end: usize,
    recycled: Vec<usize>,
}

impl StackFrameAllocator {
    /// The first page number under management.
    pub closed spec fn low(&self) -> usize {
        self.start
    }

    /// The next never-used page number.
    pub closed spec fn cursor(&self) -> usize {
        self.current
    }

    /// One past the last page number under management.
    pub closed spec fn boundary(&self) -> usize {
        self.end
    }

    /// Returned pages that wait for reuse, the most recently returned last.
    pub closed spec fn recycled(&self) -> Seq<usize> {
        self.recycled@
    }

    /// The cursor stays within `[low, boundary]`, and the recycle list holds
    /// distinct pages of `[low, cursor)`, all handed out before.
    pub open spec fn wf(&self) -> bool {
        &&& self.low() <= self.cursor() <= self.boundary()
        &&& self.recycled().no_duplicates()
        &&& forall|i: int|
            0 <= i < self.recycled().len() ==> self.low() <= #[trigger] self.recycled()[i]
                < self.cursor()
    }

    /// Whether `ppn` can be handed out by a coming allocation.
    pub open spec fn is_free(&self, ppn: usize) -> bool {
        (self.cursor() <= ppn < self.boundary()) || self.recycled().contains(ppn)
    }

    /// Whether `ppn` was handed out and has not been returned since.
    pub open spec fn is_allocated(&self, ppn: usize) -> bool {
        self.low() <= ppn < self.cursor() && !self.recycled().contains(ppn)
    }

    /// An allocator that manages no page yet.
    pub fn new() -> (r: Self)
        ensures
            r.wf(),
            r.is_fresh(0, 0),
    {
        StackFrameAllocator { start: 0, current: 0, end: 0, recycled: Vec::new() }
    }

    /// Manages the pages `[l, r)` from scratch. Page 0 is never managed.
    pub fn init(&mut self, l: PhysPageNum, r: PhysPageNum)
        requires
            0 < l.0 <= r.0,
        ensures
            final(self).wf(),
            final(self).is_fresh(l.0 as int, r.0 as int),
            final(self).free_set() == Set::new(|p: usize| l.0 <= p < r.0),
            final(self).free_count() == r.0 - l.0,
    {
        self.start = l.0;
        self.current = l.0;
        self.end = r.0;
        self.recycled = Vec::new();
        assert(self.free_set() =~= Set::new(|p: usize| l.0 <= p < r.0));
    }

    /// Hands out a page: the most recently returned one, else the next
    /// never-used one; `None` when every page is in use.
    pub fn allocate(&mut self) -> (r: Option<PhysPageNum>)
        requires
            old(self).wf(),
        ensures
            final(self).wf(),
            Self::alloc_post(*old(self), *final(self), r),
            r.is_some() <==> old(self).free_count() > 0,
            r.is_none() ==> final(self).free_set() == old(self).free_set(),
            r.is_some() ==> old(self).free_set().contains(r.unwrap().0),
            r.is_some() ==> final(self).free_set() == old(self).free_set().remove(r.unwrap().0),
            r.is_some() ==> final(self).is_allocated(r.unwrap().0),
            final(self).free_count() == if r.is_some() {
                old(self).free_count() - 1
            } else {
                old(self).free_count() as int
            },
    {
        if let Some(ppn) = self.recycled.pop() {
            proof {
                let pre = old(self).recycled();
                assert(pre == self.recycled@.push(ppn));
                assert(pre[pre.len() - 1] == ppn);
                assert(!self.recycled@.contains(ppn)) by {
                    if self.recycled@.contains(ppn) {
                        let j = choose|j: int| 0 <= j < self.recycled@.len() && self.recycled@[j] == ppn;
                        assert(pre[j] == pre[pre.len() - 1]);
                    }
                }
                assert(ppn < self.current);
                assert(self.free_set() =~= old(self).free_set().remove(ppn));
            }
            Some(PhysPageNum::from(ppn))
        } else {
            if self.current == self.end {
                None
            } else {
                self.current = self.current + 1;
                let r = PhysPageNum::from(self.current - 1);
                assert(self.free_set() =~= old(self).free_set().remove(r.0));
                Some(r)
            }
        }
    }

    /// Whether `ppn` is handed out at present, so that returning it is sound.
    pub fn is_allocated_ppn(&self, ppn: PhysPageNum) -> (r: bool)
        ensures
            r == self.is_allocated(ppn.0),
    {
        if ppn.0 < self.start || ppn.0 >= self.current {
            return false;
        }
        let mut i: usize = 0;
        while i < self.recycled.len()
            invariant
                i <= self.recycled@.len(),
                forall|j: int| 0 <= j < i ==> self.recycled@[j] != ppn.0,
            decreases self.recycled@.len() - i,
        {
            if self.recycled[i] == ppn.0 {
                return false;
            }
            i = i + 1;
        }
        true
    }

    /// Takes back a page that is handed out at present. Returning a page that
    /// was never handed out, or returning one twice, is a kernel bug.
    pub fn deallocate(&mut self, ppn: PhysPageNum)
        requires
            old(self).wf(),
            old(self).is_allocated(ppn.0),
        ensures
            final(self).wf(),
            Self::dealloc_post(*old(self), *final(self), ppn),
            final(self).free_set() == old(self).free_set().insert(ppn.0),
            final(self).free_count() == old(self).free_count() + 1,
    {
        let p = ppn.0;
        self.recycled.push(p);
        proof {
            let pre = old(self).recycled();
            assert forall|i: int, j: int|
                0 <= i < self.recycled@.len() && 0 <= j < self.recycled@.len() && i != j
                implies self.recycled@[i] != self.recycled@[j] by {
                if i == pre.len() as int {
                    assert(!pre.contains(p));
                    assert(self.recycled@[j] == pre[j]);
                } else if j == pre.len() as int {
                    assert(!pre.contains(p));
                    assert(self.recycled@[i] == pre[i]);
                }
            }
            assert forall|q: usize| self.recycled@.contains(q) <==> (pre.contains(q) || q == p) by {
                if self.recycled@.contains(q) {
                    let j = choose|j: int| 0 <= j < self.recycled@.len() && self.recycled@[j] == q;
                    if j < pre.len() {
                        assert(pre[j] == q);
                    }
                }
                if pre.contains(q) {
                    let j = choose|j: int| 0 <= j < pre.len() && pre[j] == q;
                    assert(self.recycled@[j] == q);
                }
                if q == p {
                    assert(self.recycled@[pre.len() as int] == q);
                }
            }
            assert(self.free_set() =~= old(self).free_set().insert(p));
        }
    }
}

impl FrameAllocator for StackFrameAllocator {
    /// Sound bookkeeping, and the arena holds exactly the managed pages.
    open spec fn inv(&self, mem: &PhysMemory) -> bool {
        &&& self.wf()
        &&& mem.wf()
        &&& mem.first() == self.low()
        &&& self.boundary() == mem.end()
    }

    open spec fn free_set(&self) -> Set<usize> {
        Set::new(|p: usize| self.is_free(p))
    }

    open spec fn free_count(&self) -> nat {
        (self.recycled().len() + (self.boundary() - self.cursor())) as nat
    }

    /// The state right after managing `[low, high)` from scratch.
    open spec fn is_fresh(&self, low: int, high: int) -> bool {
        &&& self.low() == low
        &&& self.cursor() == low
        &&& self.boundary() == high
        &&& self.recycled().len() == 0
    }

    /// One allocation step from `pre` to `post` with result `r`: the last
    /// recycled page if there is one, else the cursor's page unless the
    /// cursor has reached the boundary.
    open spec fn alloc_post(pre: Self, post: Self, r: Option<PhysPageNum>) -> bool {
        &&& post.low() == pre.low()
        &&& post.boundary() == pre.boundary()
        &&& if pre.recycled().len() > 0 {
            &&& r == Some(PhysPageNum(pre.recycled().last()))
            &&& post.recycled() == pre.recycled().drop_last()
            &&& post.cursor() == pre.cursor()
        } else if pre.cursor() == pre.boundary() {
            &&& r.is_none()
            &&& post.recycled() == pre.recycled()
            &&& post.cursor() == pre.cursor()
        } else {
            &&& r == Some(PhysPageNum(pre.cursor()))
            &&& post.recycled() == pre.recycled()
            &&& post.cursor() == pre.cursor() + 1
        }
    }

    /// One release step from `pre` to `post` that returns `ppn`.
    open spec fn dealloc_post(pre: Self, post: Self, ppn: PhysPageNum) -> bool {
        &&& post.low() == pre.low()
        &&& post.cursor() == pre.cursor()
        &&& post.boundary() == pre.boundary()
        &&& post.recycled() == pre.recycled().push(ppn.0)
    }

    open spec fn accepts_range(low: int, high: int) -> bool {
        0 < low <= high
    }

    open spec fn can_release(&self, mem: &PhysMemory, ppn: usize) -> bool {
        self.is_allocated(ppn)
    }

    proof fn lemma_release_is_held(&self, mem: &PhysMemory, ppn: usize) {
    }

    proof fn lemma_write_keeps_inv(&self, pre: &PhysMemory, post: &PhysMemory, ppn: usize) {
    }

    fn empty() -> (r: Self) {
        let r = StackFrameAllocator::new();
        assert(r.free_set() =~= Set::<usize>::empty());
        r
    }

    fn init_range(&mut self, mem: &mut PhysMemory, l: PhysPageNum, r: PhysPageNum) {
        self.init(l, r);
    }

    fn alloc_frame(&mut self, mem: &mut PhysMemory) -> (r: Option<PhysPageNum>) {
        self.allocate()
    }

    fn dealloc_frame(&mut self, mem: &mut PhysMemory, ppn: PhysPageNum) {
        self.deallocate(ppn);
    }

    fn releasable(&self, mem: &PhysMemory, ppn: PhysPageNum) -> (r: bool) {
        self.is_allocated_ppn(ppn)
    }
}

} // verus!
