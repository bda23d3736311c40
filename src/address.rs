use vstd::prelude::*;

verus! {
/// Size of one physical page in bytes.
pub const PAGE_SIZE: usize = 4096;

/// Number of low address bits that select a byte within a page.
pub const PAGE_SIZE_BITS: usize = 12;

/// A byte address in physical memory.
#[derive(Clone, Copy, Debug, PartialEq, Eq, Structural, PartialOrd, Ord)]
pub struct PhysAddr(pub usize);

/// A physical page number: the address of the page divided by the page size.
/// Page number 0 never names an allocatable frame.
#[derive(Clone, Copy, Debug, PartialEq, Eq, Structural, PartialOrd, Ord)]
pub struct PhysPageNum(pub usize);

impl PhysAddr {
    /// Offset of the address within its page.
    pub fn page_offset(&self) -> (r: usize)
        ensures
            r as int == self.0 as int % PAGE_SIZE as int,
    {
        self.0 % PAGE_SIZE
    }

    /// Whether the address lies on a page boundary.
    pub fn aligned(&self) -> (r: bool)
        ensures
            r == (self.0 as int % PAGE_SIZE as int == 0),
    {
        self.page_offset() == 0
    }

    /// The page that holds this address (rounding down).
    pub fn floor(&self) -> (r: PhysPageNum)
        ensures
            r.0 as int == self.0 as int / PAGE_SIZE as int,
    {
        PhysPageNum(self.0 / PAGE_SIZE)
    }

    /// The first page that starts at or after this address (rounding up).
    pub fn ceil(&self) -> (r: PhysPageNum)
        ensures
            r.0 as int == (self.0 as int + PAGE_SIZE as int - 1) / PAGE_SIZE as int,
    {
        let q = self.0 / PAGE_SIZE;
        if self.0 % PAGE_SIZE == 0 {
            PhysPageNum(q)
        } else {
            PhysPageNum(q + 1)
        }
    }
}

impl PhysPageNum {
    /// The address of the first byte of the page, when it fits in a `usize`.
    pub fn addr(&self) -> (r: Option<PhysAddr>)
        ensures
            self.0 as int * PAGE_SIZE as int <= usize::MAX ==> r == Some(
                PhysAddr((self.0 as int * PAGE_SIZE as int) as usize),
            ),
            self.0 as int * PAGE_SIZE as int > usize::MAX ==> r.is_none(),
    {
        if self.0 <= usize::MAX / PAGE_SIZE {
            assert(self.0 * PAGE_SIZE <= usize::MAX) by (nonlinear_arith)
                requires
                    self.0 <= usize::MAX / PAGE_SIZE,
                    PAGE_SIZE == 4096,
            ;
            Some(PhysAddr(self.0 * PAGE_SIZE))
        } else {
            assert(self.0 * PAGE_SIZE > usize::MAX) by (nonlinear_arith)
                requires
                    self.0 > usize::MAX / PAGE_SIZE,
                    PAGE_SIZE == 4096,
            ;
            None
        }
    }
}

impl From<usize> for PhysAddr {
    fn from(v: usize) -> (r: PhysAddr)
        ensures
            r == PhysAddr(v),
    {
        PhysAddr(v)
    }
}

impl vstd::std_specs::convert::FromSpecImpl<usize> for PhysAddr {
    open spec fn obeys_from_spec() -> bool {
        true
    }

    open spec fn from_spec(v: usize) -> PhysAddr {
        PhysAddr(v)
    }
}

impl From<usize> for PhysPageNum {
    fn from(v: usize) -> (r: PhysPageNum)
        ensures
            r == PhysPageNum(v),
    {
        PhysPageNum(v)
    }
}

impl vstd::std_specs::convert::FromSpecImpl<usize> for PhysPageNum {
    open spec fn obeys_from_spec() -> bool {
        true
    }

    open spec fn from_spec(v: usize) -> PhysPageNum {
        PhysPageNum(v)
    }
}

} // verus!
