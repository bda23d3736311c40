use vstd::prelude::*;
use crate::address::PhysPageNum;
use crate::memory::{PhysMemory, PAGE_WORDS, zero_page};
use crate::strategy::FrameAllocator;

verus! {
/// Tag in word 1 of a page that marks the page as free.
pub const VANITY_MAGIC_NUMBER: usize = 0xdeadbeef;

/// The link that the page at position `i` of a free chain must hold in word 0:
/// the next page of the chain, or 0 at the end.
pub open spec fn next_of(chain: Seq<usize>, i: int) -> usize {
    if i + 1 < chain.len() {
        chain[i + 1]
    } else {
        0
    }
}

/// The pages `[low, high)` in ascending order.
pub open spec fn ascending(low: int, high: int) -> Seq<usize> {
    Seq::new((high - low) as nat, |i: int| (low + i) as usize)
}

/// The header that marks a free page whose successor in the chain is `next`.
pub open spec fn free_header(page: Seq<usize>, next: usize) -> Seq<usize> {
    page.update(0, next).update(1, VANITY_MAGIC_NUMBER)
}

/// Frame allocator whose free list lives inside the free pages: word 0 of a
/// free page links to the next free page (0 ends the chain) and word 1 holds
/// `VANITY_MAGIC_NUMBER`.
pub struct LinkedListFrameAllocator {
    range: (PhysPageNum, PhysPageNum),
    head: usize,
    chain: Ghost<Seq<usize>>,
}

impl LinkedListFrameAllocator {
    /// First page number under management.
    pub closed spec fn low(&self) -> int {
        self.range.0.0 as int
    }

    /// One past the last page number under management.
    pub closed spec fn high(&self) -> int {
        self.range.1.0 as int
    }

    /// The first page of the chain, or 0 when the chain is empty.
    pub closed spec fn head(&self) -> usize {
        self.head
    }

    /// The free pages in chain order: the next allocation takes the first.
    pub closed spec fn free_list(&self) -> Seq<usize> {
        self.chain@
    }

    /// Whether `ppn` is managed here.
    pub open spec fn in_range(&self, ppn: int) -> bool {
        self.low() <= ppn < self.high()
    }

    /// The chain starts at the head, visits distinct managed pages, and each
    /// of them carries the free tag and the link to its successor.
    pub open spec fn wf(&self, mem: &PhysMemory) -> bool {
        &&& mem.wf()
        &&& self.low() <= self.high()
        &&& self.low() < self.high() ==> {
            &&& 0 < self.low()
            &&& mem.first() <= self.low()
            &&& self.high() <= mem.end()
        }
        &&& self.head() == if self.free_list().len() == 0 {
            0
        } else {
            self.free_list()[0]
        }
        &&& self.free_list().no_duplicates()
        &&& forall|i: int|
            0 <= i < self.free_list().len() ==> self.in_range(#[trigger] self.free_list()[i] as int)
        &&& forall|i: int|
            0 <= i < self.free_list().len() ==> {
                &&& (#[trigger] mem.page(self.free_list()[i] as int))[1] == VANITY_MAGIC_NUMBER
                &&& mem.page(self.free_list()[i] as int)[0] == next_of(self.free_list(), i)
            }
    }

    /// An allocator that manages no page yet.
    pub fn new() -> (r: Self)
        ensures
            r.low() == 0,
            r.high() == 0,
            r.free_list().len() == 0,
            forall|mem: PhysMemory| mem.wf() ==> r.wf(&mem),
    {
        LinkedListFrameAllocator {
            range: (PhysPageNum(0), PhysPageNum(0)),
            head: 0,
            chain: Ghost(Seq::empty()),
        }
    }

    /// Manages the pages `[l, r)`: writes a free header into each of them,
    /// from the last down to the first, so that the chain runs in ascending
    /// order. No page outside `[l, r)` changes.
    pub fn init(&mut self, mem: &mut PhysMemory, l: PhysPageNum, r: PhysPageNum)
        requires
            old(mem).wf(),
            0 < l.0 < r.0,
            old(mem).first() <= l.0,
            r.0 <= old(mem).end(),
        ensures
            final(self).wf(final(mem)),
            final(self).low() == l.0,
            final(self).high() == r.0,
            final(self).free_list() == ascending(l.0 as int, r.0 as int),
            final(mem).first() == old(mem).first(),
            final(mem).end() == old(mem).end(),
            forall|p: int|
                old(mem).holds(p) && !(l.0 <= p < r.0) ==> #[trigger] final(mem).page(p)
                    == old(mem).page(p),
            forall|p: int|
                l.0 <= p < r.0 ==> #[trigger] final(mem).page(p) == free_header(
                    old(mem).page(p),
                    if p + 1 < r.0 {
                        (p + 1) as usize
                    } else {
                        0usize
                    },
                ),
    {
        self.range = (l, r);
        self.head = 0;
        self.chain = Ghost(Seq::empty());
        let mut current = r.0;
        assert(self.chain@ =~= ascending(r.0 as int, r.0 as int));
        while current > l.0
            invariant
                l.0 <= current <= r.0,
                0 < l.0,
                self.range == (l, r),
                mem.wf(),
                mem.first() == old(mem).first(),
                mem.end() == old(mem).end(),
                old(mem).first() <= l.0,
                r.0 <= old(mem).end(),
                self.chain@ == ascending(current as int, r.0 as int),
                self.head == if current == r.0 {
                    0
                } else {
                    current
                },
                forall|p: int|
                    old(mem).holds(p) && !(current <= p < r.0) ==> #[trigger] mem.page(p)
                        == old(mem).page(p),
                forall|p: int|
                    current <= p < r.0 ==> #[trigger] mem.page(p) == free_header(
                        old(mem).page(p),
                        if p + 1 < r.0 {
                            (p + 1) as usize
                        } else {
                            0usize
                        },
                    ),
            decreases current,
        {
            current = current - 1;
            assert(mem.holds(current as int));
            mem.write(current, 0, self.head);
            mem.write(current, 1, VANITY_MAGIC_NUMBER);
            self.head = current;
            self.chain = Ghost(seq![current].add(self.chain@));
            assert(self.chain@ =~= ascending(current as int, r.0 as int));
            assert(mem.page(current as int) =~= free_header(
                old(mem).page(current as int),
                if current + 1 < r.0 {
                    (current + 1) as usize
                } else {
                    0usize
                },
            ));
        }
        proof {
            let chain = self.chain@;
            assert forall|i: int| 0 <= i < chain.len() implies {
                &&& (#[trigger] mem.page(chain[i] as int))[1] == VANITY_MAGIC_NUMBER
                &&& mem.page(chain[i] as int)[0] == next_of(chain, i)
            } by {
                let p = chain[i] as int;
                assert(p == l.0 + i);
                assert(old(mem).holds(p));
                assert(old(mem).page(p).len() == PAGE_WORDS);
            }
        }
    }

    /// Whether `ppn` is managed here.
    pub fn is_valid_ppn(&self, ppn: PhysPageNum) -> (r: bool)
        ensures
            r == self.in_range(ppn.0 as int),
    {
        ppn.0 >= self.range.0.0 && ppn.0 < self.range.1.0
    }

    /// Whether returning `ppn` is sound: it is a managed page and does not
    /// carry the free tag. Returning any other page is a kernel bug.
    pub fn can_dealloc(&self, mem: &PhysMemory, ppn: PhysPageNum) -> (r: bool)
        requires
            self.wf(mem),
        ensures
            r == (ppn.0 > 0 && self.in_range(ppn.0 as int) && mem.page(ppn.0 as int)[1]
                != VANITY_MAGIC_NUMBER),
    {
        if ppn.0 == 0 || !self.is_valid_ppn(ppn) {
            false
        } else {
            mem.read(ppn.0, 1) != VANITY_MAGIC_NUMBER
        }
    }

    /// Hands out the first page of the chain, zero-filled; `None` when the
    /// chain is empty. Only the handed-out page changes in memory.
    pub fn allocate(&mut self, mem: &mut PhysMemory) -> (r: Option<PhysPageNum>)
        requires
            old(self).wf(old(mem)),
        ensures
            final(self).wf(final(mem)),
            Self::alloc_post(*old(self), *final(self), r),
            r.is_some() <==> old(self).free_list().len() > 0,
            final(mem).first() == old(mem).first(),
            final(mem).end() == old(mem).end(),
            r.is_none() ==> *final(mem) == *old(mem),
            r.is_some() ==> final(mem).page(r.unwrap().0 as int) == zero_page(),
            forall|p: int|
                old(mem).holds(p) && (r.is_none() || p != r.unwrap().0) ==> #[trigger] final(mem).page(p) == old(mem).page(p),
    {
        if self.head == 0 {
            return None;
        }
        let ppn = self.head;
        let ghost pre = self.chain@;
        assert(self.in_range(pre[0] as int));
        // A page at the head of the chain always carries the free tag.
        assert(mem.page(ppn as int)[1] == VANITY_MAGIC_NUMBER);
        self.head = mem.read(ppn, 0);
        self.chain = Ghost(pre.drop_first());
        mem.clear(ppn);
        proof {
            let post = self.chain@;
            assert forall|i: int| 0 <= i < post.len() implies {
                &&& (#[trigger] mem.page(post[i] as int))[1] == VANITY_MAGIC_NUMBER
                &&& mem.page(post[i] as int)[0] == next_of(post, i)
            } by {
                assert(post[i] == pre[i + 1]);
                assert(pre[i + 1] != pre[0]);
                assert(old(mem).page(pre[i + 1] as int)[1] == VANITY_MAGIC_NUMBER);
            }
            assert forall|i: int| 0 <= i < post.len() implies self.in_range(
                #[trigger] post[i] as int,
            ) by {
                assert(post[i] == pre[i + 1]);
            }
        }
        Some(PhysPageNum(ppn))
    }

    /// Takes back a managed page that does not carry the free tag: writes a
    /// free header linking to the old head and makes it the head. Only that
    /// page changes in memory.
    pub fn deallocate(&mut self, mem: &mut PhysMemory, ppn: PhysPageNum)
        requires
            old(self).wf(old(mem)),
            ppn.0 > 0,
            old(self).in_range(ppn.0 as int),
            old(mem).page(ppn.0 as int)[1] != VANITY_MAGIC_NUMBER,
        ensures
            final(self).wf(final(mem)),
            Self::dealloc_post(*old(self), *final(self), ppn),
            final(mem).first() == old(mem).first(),
            final(mem).end() == old(mem).end(),
            final(mem).page(ppn.0 as int) == free_header(old(mem).page(ppn.0 as int), old(self).head()),
            forall|p: int|
                old(mem).holds(p) && p != ppn.0 ==> #[trigger] final(mem).page(p) == old(mem).page(p),
    {
        let ghost pre = self.chain@;
        assert(!pre.contains(ppn.0)) by {
            if pre.contains(ppn.0) {
                let j = choose|j: int| 0 <= j < pre.len() && pre[j] == ppn.0;
                assert(mem.page(pre[j] as int)[1] == VANITY_MAGIC_NUMBER);
            }
        }
        mem.write(ppn.0, 0, self.head);
        mem.write(ppn.0, 1, VANITY_MAGIC_NUMBER);
        self.head = ppn.0;
        self.chain = Ghost(seq![ppn.0].add(pre));
        proof {
            let post = self.chain@;
            assert(old(mem).holds(ppn.0 as int));
            assert(old(mem).page(ppn.0 as int).len() == PAGE_WORDS);
            assert forall|i: int| 0 <= i < post.len() implies {
                &&& (#[trigger] mem.page(post[i] as int))[1] == VANITY_MAGIC_NUMBER
                &&& mem.page(post[i] as int)[0] == next_of(post, i)
            } by {
                if i > 0 {
                    assert(post[i] == pre[i - 1]);
                    assert(old(mem).page(pre[i - 1] as int)[1] == VANITY_MAGIC_NUMBER);
                }
            }
            assert forall|i: int| 0 <= i < post.len() implies self.in_range(
                #[trigger] post[i] as int,
            ) by {
                if i > 0 {
                    assert(post[i] == pre[i - 1]);
                }
            }
            assert forall|i: int, j: int|
                0 <= i < post.len() && 0 <= j < post.len() && i != j implies post[i]
                != post[j] by {
                if i == 0 {
                    assert(post[j] == pre[j - 1]);
                } else if j == 0 {
                    assert(post[i] == pre[i - 1]);
                }
            }
        }
    }

    /// Writes `v` into word `i` of a page that is handed out at present.
    pub fn write_page(&self, mem: &mut PhysMemory, ppn: PhysPageNum, i: usize, v: usize)
        requires
            self.wf(old(mem)),
            self.in_range(ppn.0 as int),
            !self.free_list().contains(ppn.0),
            i < PAGE_WORDS,
        ensures
            self.wf(final(mem)),
            final(mem).first() == old(mem).first(),
            final(mem).end() == old(mem).end(),
            final(mem).page(ppn.0 as int) == old(mem).page(ppn.0 as int).update(i as int, v),
            forall|p: int|
                old(mem).holds(p) && p != ppn.0 ==> #[trigger] final(mem).page(p) == old(mem).page(p),
    {
        mem.write(ppn.0, i, v);
        proof {
            let fl = self.free_list();
            assert forall|k: int| 0 <= k < fl.len() implies {
                &&& (#[trigger] mem.page(fl[k] as int))[1] == VANITY_MAGIC_NUMBER
                &&& mem.page(fl[k] as int)[0] == next_of(fl, k)
            } by {
                assert(fl[k] != ppn.0);
                assert(old(mem).page(fl[k] as int)[1] == VANITY_MAGIC_NUMBER);
            }
        }
    }
}

proof fn lemma_seq_to_set_contains(s: Seq<usize>, x: usize)
    ensures
        s.to_set().contains(x) == s.contains(x),
{
}

impl FrameAllocator for LinkedListFrameAllocator {
    open spec fn inv(&self, mem: &PhysMemory) -> bool {
        self.wf(mem)
    }

    open spec fn free_set(&self) -> Set<usize> {
        self.free_list().to_set()
    }

    open spec fn free_count(&self) -> nat {
        self.free_list().len()
    }

    /// The chain runs through `[low, high)` in ascending order.
    open spec fn is_fresh(&self, low: int, high: int) -> bool {
        &&& self.low() == low
        &&& self.high() == high
        &&& self.free_list() == ascending(low, high)
    }

    /// One allocation step: the first page of the chain leaves it.
    open spec fn alloc_post(pre: Self, post: Self, r: Option<PhysPageNum>) -> bool {
        &&& post.low() == pre.low()
        &&& post.high() == pre.high()
        &&& if pre.free_list().len() == 0 {
            r.is_none() && post.free_list() == pre.free_list()
        } else {
            r == Some(PhysPageNum(pre.free_list()[0])) && post.free_list()
                == pre.free_list().drop_first()
        }
    }

    /// One release step: `ppn` becomes the first page of the chain.
    open spec fn dealloc_post(pre: Self, post: Self, ppn: PhysPageNum) -> bool {
        &&& post.low() == pre.low()
        &&& post.high() == pre.high()
        &&& post.free_list() == seq![ppn.0].add(pre.free_list())
    }

    open spec fn accepts_range(low: int, high: int) -> bool {
        0 < low < high
    }

    open spec fn can_release(&self, mem: &PhysMemory, ppn: usize) -> bool {
        ppn > 0 && self.in_range(ppn as int) && mem.page(ppn as int)[1] != VANITY_MAGIC_NUMBER
    }

    proof fn lemma_release_is_held(&self, mem: &PhysMemory, ppn: usize) {
        let fl = self.free_list();
        if fl.contains(ppn) {
            let j = choose|j: int| 0 <= j < fl.len() && fl[j] == ppn;
            assert(mem.page(fl[j] as int)[1] == VANITY_MAGIC_NUMBER);
        }
        lemma_seq_to_set_contains(fl, ppn);
    }

    proof fn lemma_write_keeps_inv(&self, pre: &PhysMemory, post: &PhysMemory, ppn: usize) {
        let fl = self.free_list();
        lemma_seq_to_set_contains(fl, ppn);
        assert forall|k: int| 0 <= k < fl.len() implies {
            &&& (#[trigger] post.page(fl[k] as int))[1] == VANITY_MAGIC_NUMBER
            &&& post.page(fl[k] as int)[0] == next_of(fl, k)
        } by {
            assert(fl[k] != ppn);
            assert(pre.holds(fl[k] as int));
            assert(pre.page(fl[k] as int)[1] == VANITY_MAGIC_NUMBER);
        }
    }

    fn empty() -> (r: Self) {
        let r = LinkedListFrameAllocator::new();
        assert(r.free_list().to_set() =~= Set::<usize>::empty());
        r
    }

    fn init_range(&mut self, mem: &mut PhysMemory, l: PhysPageNum, r: PhysPageNum) {
        self.init(mem, l, r);
        proof {
            let fl = self.free_list();
            assert forall|p: usize| #[trigger] fl.to_set().contains(p) <==> l.0 <= p < r.0 by {
                lemma_seq_to_set_contains(fl, p);
                if l.0 <= p < r.0 {
                    assert(fl[p - l.0] == p);
                }
            }
            assert(fl.to_set() =~= Set::new(|p: usize| l.0 <= p < r.0));
        }
    }

    fn alloc_frame(&mut self, mem: &mut PhysMemory) -> (r: Option<PhysPageNum>) {
        let r = self.allocate(mem);
        proof {
            let pre = old(self).free_list();
            if r.is_some() {
                let p = pre[0];
                assert(self.in_range(p as int));
                let post = self.free_list();
                assert forall|q: usize| #[trigger] post.to_set().contains(q) <==> pre.to_set().remove(p).contains(q) by {
                    lemma_seq_to_set_contains(post, q);
                    lemma_seq_to_set_contains(pre, q);
                    if post.contains(q) {
                        let j = choose|j: int| 0 <= j < post.len() && post[j] == q;
                        assert(pre[j + 1] == q);
                        assert(pre[j + 1] != pre[0]);
                    }
                    if pre.contains(q) && q != p {
                        let j = choose|j: int| 0 <= j < pre.len() && pre[j] == q;
                        assert(post[j - 1] == q);
                    }
                }
                assert(post.to_set() =~= pre.to_set().remove(p));
                lemma_seq_to_set_contains(pre, p);
                assert(pre[0] == p);
            }
        }
        r
    }

    fn dealloc_frame(&mut self, mem: &mut PhysMemory, ppn: PhysPageNum) {
        self.deallocate(mem, ppn);
        proof {
            let pre = old(self).free_list();
            let post = self.free_list();
            assert forall|q: usize| #[trigger] post.to_set().contains(q) <==> pre.to_set().insert(ppn.0).contains(q) by {
                lemma_seq_to_set_contains(post, q);
                lemma_seq_to_set_contains(pre, q);
                if post.contains(q) {
                    let j = choose|j: int| 0 <= j < post.len() && post[j] == q;
                    if j > 0 {
                        assert(pre[j - 1] == q);
                    }
                }
                if pre.contains(q) {
                    let j = choose|j: int| 0 <= j < pre.len() && pre[j] == q;
                    assert(post[j + 1] == q);
                }
                if q == ppn.0 {
                    assert(post[0] == q);
                }
            }
            assert(post.to_set() =~= pre.to_set().insert(ppn.0));
        }
    }

    fn releasable(&self, mem: &PhysMemory, ppn: PhysPageNum) -> (r: bool) {
        self.can_dealloc(mem, ppn)
    }
}

} // verus!
