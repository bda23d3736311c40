use vstd::prelude::*;
use crate::address::{PhysAddr, PhysPageNum, PAGE_SIZE};
use crate::memory::{PhysMemory, PAGE_WORDS, zero_page};
use crate::stack_allocator::StackFrameAllocator;
use crate::strategy::{FrameAllocator, alloc_step, dealloc_step};

verus! {
/// The strategy behind the kernel's frame allocator; `LinkedListFrameAllocator`
/// can stand here as well.
pub type FrameAllocatorImpl = StackFrameAllocator;

/// Owns one allocated page. It is not `Clone`: the page goes back to the
/// allocator only through `frame_dealloc`, which consumes the guard.
#[derive(Debug)]
pub struct FrameTracker {
    pub ppn: PhysPageNum,
}

/// The page number that an allocation result carries, if any.
pub open spec fn tracker_ppn(r: Option<FrameTracker>) -> Option<PhysPageNum> {
    match r {
        Some(t) => Some(t.ppn),
        None => None,
    }
}

/// First page at or after the byte address `a`.
pub open spec fn page_ceil(a: PhysAddr) -> int {
    (a.0 as int + PAGE_SIZE as int - 1) / PAGE_SIZE as int
}

/// Page that holds the byte address `a`.
pub open spec fn page_floor(a: PhysAddr) -> int {
    a.0 as int / PAGE_SIZE as int
}

impl FrameTracker {
    /// Takes ownership of the page `ppn`, cleaning it first; no other page
    /// changes.
    pub fn new(mem: &mut PhysMemory, ppn: PhysPageNum) -> (r: Self)
        requires
            old(mem).wf(),
            old(mem).holds(ppn.0 as int),
        ensures
            r.ppn == ppn,
            final(mem).wf(),
            final(mem).first() == old(mem).first(),
            final(mem).end() == old(mem).end(),
            final(mem).page(ppn.0 as int) == zero_page(),
            forall|p: int|
                old(mem).holds(p) && p != ppn.0 ==> #[trigger] final(mem).page(p) == old(mem).page(p),
    {
        mem.clear(ppn.0);
        FrameTracker { ppn }
    }
}

/// The kernel's one frame allocator together with the physical pages that
/// it manages. Every operation takes it by exclusive reference.
pub struct GlobalFrameAllocator {
    allocator: FrameAllocatorImpl,
    memory: PhysMemory,
    initialized: bool,
}

impl GlobalFrameAllocator {
    pub closed spec fn allocator(&self) -> FrameAllocatorImpl {
        self.allocator
    }

    pub closed spec fn memory(&self) -> PhysMemory {
        self.memory
    }

    pub closed spec fn initialized(&self) -> bool {
        self.initialized
    }

    /// The strategy's bookkeeping is sound with respect to the memory arena.
    pub open spec fn wf(&self) -> bool {
        &&& self.memory().wf()
        &&& self.allocator().inv(&self.memory())
    }

    /// The pages that coming allocations can hand out.
    pub open spec fn free_set(&self) -> Set<usize> {
        self.allocator().free_set()
    }

    /// How many allocations succeed from here on when no page is returned.
    pub open spec fn free_count(&self) -> nat {
        self.allocator().free_count()
    }

    /// Whether `ppn` is a page of the arena that is not free, that is, held
    /// by a guard.
    pub open spec fn is_allocated(&self, ppn: usize) -> bool {
        self.memory().holds(ppn as int) && !self.free_set().contains(ppn)
    }

    /// Whether returning `ppn` is sound.
    pub open spec fn can_release(&self, ppn: usize) -> bool {
        self.allocator().can_release(&self.memory(), ppn)
    }

    /// The words of page `ppn`.
    pub open spec fn page(&self, ppn: int) -> Seq<usize> {
        self.memory().page(ppn)
    }

    /// One allocation step of the strategy, exact and as a set, handing out a page of the arena,
    /// with the arena's extent kept.
    pub open spec fn alloc_post(pre: Self, post: Self, r: Option<FrameTracker>) -> bool {
        &&& FrameAllocatorImpl::alloc_post(pre.allocator(), post.allocator(), tracker_ppn(r))
        &&& alloc_step(pre.allocator(), post.allocator(), tracker_ppn(r))
        &&& r.is_some() ==> post.memory().holds(r.unwrap().ppn.0 as int)
        &&& post.memory().first() == pre.memory().first()
        &&& post.memory().end() == pre.memory().end()
        &&& post.initialized() == pre.initialized()
    }

    /// One release step of the strategy, exact and as a set, with the arena's extent kept.
    pub open spec fn dealloc_post(pre: Self, post: Self, ppn: PhysPageNum) -> bool {
        &&& FrameAllocatorImpl::dealloc_post(pre.allocator(), post.allocator(), ppn)
        &&& dealloc_step(pre.allocator(), post.allocator(), ppn)
        &&& post.memory().first() == pre.memory().first()
        &&& post.memory().end() == pre.memory().end()
        &&& post.initialized() == pre.initialized()
    }

    /// The allocator before `init_frame_allocator`: it manages no page.
    pub fn new() -> (r: Self)
        ensures
            r.wf(),
            !r.initialized(),
            r.free_count() == 0,
            r.free_set() == Set::<usize>::empty(),
    {
        let memory = PhysMemory::new(0, 0);
        let allocator = FrameAllocatorImpl::empty();
        GlobalFrameAllocator { allocator, memory, initialized: false }
    }

    /// Whether `init_frame_allocator` has run.
    pub fn is_initialized(&self) -> (r: bool)
        ensures
            r == self.initialized(),
    {
        self.initialized
    }

    /// Whether returning `ppn` is sound.
    pub fn is_frame_allocated(&self, ppn: PhysPageNum) -> (r: bool)
        requires
            self.wf(),
        ensures
            r == self.can_release(ppn.0),
    {
        self.allocator.releasable(&self.memory, ppn)
    }

    /// Reads word `i` of the page that `frame` owns.
    pub fn read_frame(&self, frame: &FrameTracker, i: usize) -> (r: usize)
        requires
            self.wf(),
            self.is_allocated(frame.ppn.0),
            i < PAGE_WORDS,
        ensures
            r == self.page(frame.ppn.0 as int)[i as int],
    {
        self.memory.read(frame.ppn.0, i)
    }

    /// Writes `v` into word `i` of the page that `frame` owns; nothing else
    /// changes.
    pub fn write_frame(&mut self, frame: &FrameTracker, i: usize, v: usize)
        requires
            old(self).wf(),
            old(self).is_allocated(frame.ppn.0),
            i < PAGE_WORDS,
        ensures
            final(self).wf(),
            final(self).allocator() == old(self).allocator(),
            final(self).initialized() == old(self).initialized(),
            final(self).memory().first() == old(self).memory().first(),
            final(self).memory().end() == old(self).memory().end(),
            final(self).page(frame.ppn.0 as int) == old(self).page(frame.ppn.0 as int).update(
                i as int,
                v,
            ),
            forall|p: int|
                old(self).memory().holds(p) && p != frame.ppn.0 ==> #[trigger] final(self).page(p)
                    == old(self).page(p),
    {
        self.memory.write(frame.ppn.0, i, v);
        proof {
            self.allocator.lemma_write_keeps_inv(&old(self).memory, &self.memory, frame.ppn.0);
        }
    }
}

/// Brings up the frame allocator over the pages from the first one after the
/// kernel image up to the one that holds the end of physical memory. Returns
/// `false`, changing nothing, when it has run before.
pub fn init_frame_allocator(
    global: &mut GlobalFrameAllocator,
    kernel_end: PhysAddr,
    memory_end: PhysAddr,
) -> (r: bool)
    requires
        old(global).wf(),
        FrameAllocatorImpl::accepts_range(page_ceil(kernel_end), page_floor(memory_end)),
    ensures
        final(global).wf(),
        r == !old(global).initialized(),
        !r ==> *final(global) == *old(global),
        r ==> final(global).initialized(),
        r ==> final(global).allocator().is_fresh(page_ceil(kernel_end), page_floor(memory_end)),
        r ==> final(global).free_set() == Set::new(
            |p: usize| page_ceil(kernel_end) <= p < page_floor(memory_end),
        ),
        r ==> final(global).free_count() == page_floor(memory_end) - page_ceil(kernel_end),
        r ==> final(global).memory().first() == page_ceil(kernel_end),
        r ==> final(global).memory().end() == page_floor(memory_end),
{
    if global.initialized {
        return false;
    }
    let low = kernel_end.ceil();
    let high = memory_end.floor();
    let mut memory = PhysMemory::new(low.0, high.0 - low.0);
    global.allocator.init_range(&mut memory, low, high);
    global.memory = memory;
    global.initialized = true;
    true
}

/// Allocates a frame and hands it out zero-filled under a guard; `None` when
/// every frame is in use. Only the handed-out page changes in memory.
pub fn frame_alloc(global: &mut GlobalFrameAllocator) -> (r: Option<FrameTracker>)
    requires
        old(global).wf(),
    ensures
        final(global).wf(),
        GlobalFrameAllocator::alloc_post(*old(global), *final(global), r),
        r.is_some() <==> old(global).free_count() > 0,
        r.is_none() ==> final(global).memory() == old(global).memory(),
        r.is_some() ==> !old(global).is_allocated(r.unwrap().ppn.0),
        r.is_some() ==> final(global).is_allocated(r.unwrap().ppn.0),
        r.is_some() ==> final(global).page(r.unwrap().ppn.0 as int) == zero_page(),
        forall|p: int|
            old(global).memory().holds(p) && (r.is_none() || p != r.unwrap().ppn.0) ==> #[trigger] final(global).page(p)
                == old(global).page(p),
{
    match global.allocator.alloc_frame(&mut global.memory) {
        Some(ppn) => {
            let ghost handed = global.memory;
            let frame = FrameTracker::new(&mut global.memory, ppn);
            proof {
                global.allocator.lemma_write_keeps_inv(&handed, &global.memory, ppn.0);
            }
            Some(frame)
        },
        None => None,
    }
}

/// Returns the page that `frame` owns to the allocator, consuming the guard.
pub fn frame_dealloc(global: &mut GlobalFrameAllocator, frame: FrameTracker)
    requires
        old(global).wf(),
        old(global).can_release(frame.ppn.0),
    ensures
        final(global).wf(),
        GlobalFrameAllocator::dealloc_post(*old(global), *final(global), frame.ppn),
        old(global).is_allocated(frame.ppn.0),
        !final(global).is_allocated(frame.ppn.0),
        forall|p: int|
            old(global).memory().holds(p) && p != frame.ppn.0 ==> #[trigger] final(global).page(p)
                == old(global).page(p),
{
    proof {
        global.allocator.lemma_release_is_held(&global.memory, frame.ppn.0);
    }
    global.allocator.dealloc_frame(&mut global.memory, frame.ppn);
}

} // verus!
