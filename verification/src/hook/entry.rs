//! The table that the trampoline's second phase consults: for each call site
//! in the game's DLL, the detour it was patched to reach.
//!
//! A call site is keyed by its offset from the DLL's base (the address the
//! patched `CALL` returns to). The table is split into pages of 0x10000
//! entries, allocated on first use; an entry of zero is empty.

use vstd::prelude::*;

verus! {

/// Number of pages: enough to cover the DLL's code segment.
pub const PAGE_COUNT: usize = 0x60;

/// Entries in one page.
pub const PAGE_LEN: usize = 0x10000;

/// Largest offset (exclusive) the table can hold.
pub open spec fn table_span() -> int {
    PAGE_COUNT * PAGE_LEN
}

pub struct HookTable {
    base: usize,
    pages: Vec<Vec<u64>>,
}

/// A second registration for a call site that already has a detour.
#[derive(Debug, Copy, Clone, PartialEq, Eq)]
pub struct DuplicateHook {
    /// The call site's offset from the DLL's base.
    pub offset: usize,
}

impl HookTable {
    /// Every page is either unallocated (empty) or complete.
    pub closed spec fn well_formed(self) -> bool {
        &&& self.pages@.len() == PAGE_COUNT
        &&& forall|p: int|
            0 <= p < PAGE_COUNT ==> #[trigger] self.pages@[p]@.len() == 0
                || self.pages@[p]@.len() == PAGE_LEN
    }

    /// The DLL's base address.
    pub closed spec fn spec_base(self) -> usize {
        self.base
    }

    /// The detour stored for offset `off`, zero when there is none.
    pub closed spec fn entry(self, off: int) -> u64 {
        let page = self.pages@[off / PAGE_LEN as int]@;
        if page.len() == PAGE_LEN {
            page[off % PAGE_LEN as int]
        } else {
            0
        }
    }

    /// The registered detours, by call-site offset.
    pub open spec fn targets(self) -> Map<int, u64> {
        Map::new(
            |off: int| 0 <= off < table_span() && self.entry(off) != 0,
            |off: int| self.entry(off),
        )
    }

    /// The detour for the call site returning to `origin`.
    pub open spec fn lookup(self, origin: usize) -> Option<u64> {
        if self.spec_base() <= origin && self.targets().contains_key(origin - self.spec_base()) {
            Some(self.targets()[origin - self.spec_base()])
        } else {
            None
        }
    }

    /// An empty table for a DLL loaded at `base`.
    pub fn new(base: usize) -> (t: Self)
        ensures
            t.well_formed(),
            t.spec_base() == base,
            t.targets() == Map::<int, u64>::empty(),
            forall|o: usize| #[trigger] t.lookup(o) == None::<u64>,
    {
        let mut pages: Vec<Vec<u64>> = Vec::new();
        let mut k: usize = 0;
        while k < PAGE_COUNT
            invariant
                k <= PAGE_COUNT,
                pages@.len() == k,
                forall|p: int| 0 <= p < k ==> #[trigger] pages@[p]@.len() == 0,
            decreases PAGE_COUNT - k,
        {
            pages.push(Vec::new());
            k = k + 1;
        }
        let t = HookTable { base, pages };
        assert(t.targets() =~= Map::<int, u64>::empty());
        t
    }

    /// The DLL's base address.
    pub fn base(&self) -> (r: usize)
        ensures
            r == self.spec_base(),
    {
        self.base
    }

    /// Records that the call site returning to `origin` leads to `target`.
    /// A call site that already has a detour keeps it, and the duplicate is
    /// reported with its offset.
    pub fn register(&mut self, origin: usize, target: u64) -> (r: Result<(), DuplicateHook>)
        requires
            old(self).well_formed(),
            old(self).spec_base() <= origin,
            origin - old(self).spec_base() < table_span(),
        ensures
            final(self).well_formed(),
            final(self).spec_base() == old(self).spec_base(),
            ({
                let off = origin - old(self).spec_base();
                if old(self).targets().contains_key(off) {
                    &&& r == Err::<(), DuplicateHook>(DuplicateHook { offset: off as usize })
                    &&& final(self).targets() == old(self).targets()
                } else {
                    &&& r is Ok
                    &&& final(self).targets() == if target != 0 {
                        old(self).targets().insert(off, target)
                    } else {
                        old(self).targets()
                    }
                }
            }),
            r is Ok && target != 0 ==> final(self).lookup(origin) == Some(target),
            r is Err ==> final(self).lookup(origin) == old(self).lookup(origin),
            forall|o: usize| o != origin ==> #[trigger] final(self).lookup(o) == old(self).lookup(o),
    {
        let offset = origin - self.base;
        let outer = offset >> 16;
        let inner = offset & 0xFFFF;
        assert(outer == offset / 0x10000 && inner == offset % 0x10000) by (bit_vector)
            requires
                outer == offset >> 16,
                inner == offset & 0xFFFF,
        ;
        if self.pages[outer].len() == 0 {
            let mut page: Vec<u64> = Vec::new();
            let mut k: usize = 0;
            while k < PAGE_LEN
                invariant
                    k <= PAGE_LEN,
                    page@.len() == k,
                    forall|m: int| 0 <= m < k ==> page@[m] == 0,
                decreases PAGE_LEN - k,
            {
                page.push(0);
                k = k + 1;
            }
            let ghost before = *self;
            self.set_page(outer, page);
            assert(self.targets() =~= before.targets()) by {
                assert forall|off: int| 0 <= off < table_span() implies self.entry(off) == before.entry(
                    off,
                ) by {
                    if off / PAGE_LEN as int != outer as int {
                    }
                }
            }
        }
        let existing = self.pages[outer][inner];
        if existing != 0 {
            return Err(DuplicateHook { offset });
        }
        let ghost before = *self;
        self.pages[outer][inner] = target;
        assert(self.targets() =~= if target != 0 {
            before.targets().insert(offset as int, target)
        } else {
            before.targets()
        }) by {
            assert(self.entry(offset as int) == target);
            assert forall|off: int| 0 <= off < table_span() && off != offset implies self.entry(off)
                == before.entry(off) by {
                if off / PAGE_LEN as int == outer as int {
                    assert(off % PAGE_LEN as int != inner as int);
                }
            }
        }
        Ok(())
    }

    fn set_page(&mut self, p: usize, page: Vec<u64>)
        requires
            old(self).well_formed(),
            p < PAGE_COUNT,
            page@.len() == PAGE_LEN,
        ensures
            final(self).well_formed(),
            final(self).base == old(self).base,
            final(self).pages@ == old(self).pages@.update(p as int, page),
    {
        self.pages.set(p, page);
    }

    /// The detour registered for the call site returning to `origin`.
    pub fn target_for(&self, origin: usize) -> (r: Option<u64>)
        requires
            self.well_formed(),
        ensures
            r == self.lookup(origin),
    {
        if origin < self.base {
            return None;
        }
        let offset = origin - self.base;
        if offset >= PAGE_COUNT * PAGE_LEN {
            return None;
        }
        let outer = offset >> 16;
        let inner = offset & 0xFFFF;
        assert(outer == offset / 0x10000 && inner == offset % 0x10000) by (bit_vector)
            requires
                outer == offset >> 16,
                inner == offset & 0xFFFF,
        ;
        if self.pages[outer].len() == 0 {
            return None;
        }
        let t = self.pages[outer][inner];
        if t == 0 {
            None
        } else {
            Some(t)
        }
    }
}

} // verus!
