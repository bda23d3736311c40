use vstd::prelude::*;

verus! {
/// Number of machine words in one page (4096 bytes of 8-byte words).
pub const PAGE_WORDS: usize = 512;

/// The content of a freshly cleaned page.
pub open spec fn zero_page() -> Seq<usize> {
    Seq::new(PAGE_WORDS as nat, |i: int| 0usize)
}

/// Physical memory as an arena of pages addressed by page number: the page
/// numbered `ppn` is held at index `ppn - base`.
pub struct PhysMemory {
    base: usize,
    frames: Vec<Vec<usize>>,
}

impl PhysMemory {
    /// Page number of the first page in the arena.
    pub closed spec fn first(&self) -> int {
        self.base as int
    }

    /// The pages of the arena, in order of page number.
    pub closed spec fn frames(&self) -> Seq<Seq<usize>> {
        self.frames@.map_values(|f: Vec<usize>| f@)
    }

    /// One past the page number of the last page in the arena.
    pub open spec fn end(&self) -> int {
        self.first() + self.frames().len()
    }

    /// Whether the arena holds the page numbered `ppn`.
    pub open spec fn holds(&self, ppn: int) -> bool {
        self.first() <= ppn < self.end()
    }

    /// The words of the page numbered `ppn`.
    pub open spec fn page(&self, ppn: int) -> Seq<usize> {
        self.frames()[ppn - self.first()]
    }

    /// Every page has its full size, and every page number fits in a `usize`.
    pub open spec fn wf(&self) -> bool {
        &&& self.end() <= usize::MAX
        &&& forall|p: int| #[trigger] self.holds(p) ==> self.page(p).len() == PAGE_WORDS
    }

    /// An arena of `count` zero-filled pages numbered from `base` on.
    pub fn new(base: usize, count: usize) -> (r: PhysMemory)
        requires
            base as int + count as int <= usize::MAX,
        ensures
            r.wf(),
            r.first() == base as int,
            r.end() == base as int + count as int,
            forall|p: int| #[trigger] r.holds(p) ==> r.page(p) == zero_page(),
    {
        let mut frames: Vec<Vec<usize>> = Vec::new();
        let mut k: usize = 0;
        while k < count
            invariant
                k <= count,
                frames@.len() == k,
                forall|j: int| 0 <= j < k ==> (#[trigger] frames@[j])@ == zero_page(),
            decreases count - k,
        {
            frames.push(zeroed_page());
            k = k + 1;
        }
        let r = PhysMemory { base, frames };
        assert forall|p: int| #[trigger] r.holds(p) implies r.page(p) == zero_page() by {
            assert(r.frames()[p - base] == frames@[p - base]@);
        }
        r
    }

    /// Page number of the first page in the arena.
    pub fn base(&self) -> (r: usize)
        ensures
            r == self.first(),
    {
        self.base
    }

    /// Reads word `i` of the page numbered `ppn`.
    pub fn read(&self, ppn: usize, i: usize) -> (r: usize)
        requires
            self.wf(),
            self.holds(ppn as int),
            i < PAGE_WORDS,
        ensures
            r == self.page(ppn as int)[i as int],
    {
        let k = ppn - self.base;
        self.frames[k][i]
    }

    /// Writes `v` into word `i` of the page numbered `ppn`; no other word changes.
    pub fn write(&mut self, ppn: usize, i: usize, v: usize)
        requires
            old(self).wf(),
            old(self).holds(ppn as int),
            i < PAGE_WORDS,
        ensures
            final(self).wf(),
            final(self).first() == old(self).first(),
            final(self).end() == old(self).end(),
            final(self).page(ppn as int) == old(self).page(ppn as int).update(i as int, v),
            forall|p: int|
                old(self).holds(p) && p != ppn ==> #[trigger] final(self).page(p) == old(self).page(p),
    {
        let k = ppn - self.base;
        assert(self.page(ppn as int).len() == PAGE_WORDS);
        self.frames[k].set(i, v);
        assert(self.frames() =~= old(self).frames().update(
            k as int,
            old(self).page(ppn as int).update(i as int, v),
        ));
        assert forall|p: int| #[trigger] self.holds(p) implies self.page(p).len() == PAGE_WORDS by {
            assert(old(self).holds(p));
        }
    }

    /// Fills the page numbered `ppn` with zeros; no other page changes.
    pub fn clear(&mut self, ppn: usize)
        requires
            old(self).wf(),
            old(self).holds(ppn as int),
        ensures
            final(self).wf(),
            final(self).first() == old(self).first(),
            final(self).end() == old(self).end(),
            final(self).page(ppn as int) == zero_page(),
            forall|p: int|
                old(self).holds(p) && p != ppn ==> #[trigger] final(self).page(p) == old(self).page(p),
    {
        let k = ppn - self.base;
        self.frames.set(k, zeroed_page());
        assert(self.frames() =~= old(self).frames().update(k as int, zero_page()));
        assert forall|p: int| #[trigger] self.holds(p) implies self.page(p).len() == PAGE_WORDS by {
            assert(old(self).holds(p));
        }
    }
}

/// A page of zero words.
fn zeroed_page() -> (r: Vec<usize>)
    ensures
        r@ == zero_page(),
{
    let mut v: Vec<usize> = Vec::new();
    let mut i: usize = 0;
    while i < PAGE_WORDS
        invariant
            i <= PAGE_WORDS,
            v@ == Seq::new(i as nat, |j: int| 0usize),
        decreases PAGE_WORDS - i,
    {
        v.push(0);
        i = i + 1;
    }
    assert(v@ =~= zero_page());
    v
}

} // verus!
