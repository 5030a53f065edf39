//! A scratch region of page tables, the walk that the hardware makes through it,
//! and the building of one mapping window.
use vstd::prelude::*;
use vstd::arithmetic::div_mod::{lemma_div_multiples_vanish_fancy, lemma_fundamental_div_mod};
use crate::sv39::{
    level_size, make_pte, pte_is_leaf, pte_is_valid, pte_target, spec_pte, spec_pte_leaf, spec_pte_target,
    spec_pte_valid, spec_vpn, spec_vpn1, spec_vpn2, vpn0, vpn1, vpn2, ENTRIES, GIGA_SIZE,
    MEGA_SIZE, PAGE_SIZE, PA_LIMIT, PTE_V, PTE_VRWX,
};

verus! {

/// The leaf size of a mapping window.
#[derive(Clone, Copy, Debug, PartialEq, Eq, Structural)]
pub enum Granularity {
    /// 2 MiB leaves in a middle-level table.
    Large,
    /// 4 KiB leaves in a last-level table.
    Small,
}

/// Bytes mapped by one leaf of granularity `g`.
pub open spec fn leaf_size(g: Granularity) -> int {
    match g {
        Granularity::Large => MEGA_SIZE as int,
        Granularity::Small => PAGE_SIZE as int,
    }
}

/// The table level that holds the leaves of granularity `g`.
pub open spec fn leaf_level(g: Granularity) -> int {
    match g {
        Granularity::Large => 1,
        Granularity::Small => 0,
    }
}

/// The leaf-level index at which a window starting at `vaddr` begins.
pub open spec fn first_index(vaddr: int, g: Granularity) -> int {
    spec_vpn(vaddr, leaf_level(g))
}

/// Leaves written for a window of `size` bytes at `vaddr`: as many as cover `size`,
/// but no more than the leaf table has left from the window's first index.
pub open spec fn leaf_count(vaddr: int, size: int, g: Granularity) -> int {
    let wanted = (size + leaf_size(g) - 1) / leaf_size(g);
    let room = ENTRIES as int - first_index(vaddr, g);
    if wanted < room {
        wanted
    } else {
        room
    }
}

/// The physical address of page `page` of a region based at `base`.
pub open spec fn page_addr(base: int, page: int) -> int {
    base + page * PAGE_SIZE as int
}

/// What building a window writes at entry `k` of the region (page `k / 512`,
/// index `k % 512`), or `None` where it writes nothing. The root table is page 0;
/// `l1` holds the window's middle table and, for 4 KiB leaves, `l0` its last-level one.
pub open spec fn window_entry(
    base: int,
    vaddr: int,
    paddr: int,
    size: int,
    g: Granularity,
    l1: int,
    l0: int,
    k: int,
) -> Option<int> {
    let leaf_page = if g == Granularity::Large {
        l1
    } else {
        l0
    };
    let i = k - (leaf_page * 512 + first_index(vaddr, g));
    if k == spec_vpn2(vaddr) {
        Some(spec_pte(page_addr(base, l1), PTE_V as int))
    } else if g == Granularity::Small && k == l1 * 512 + spec_vpn1(vaddr) {
        Some(spec_pte(page_addr(base, l0), PTE_V as int))
    } else if 0 <= i < leaf_count(vaddr, size, g) {
        Some(spec_pte(paddr + i * leaf_size(g), PTE_VRWX as int))
    } else {
        None
    }
}

/// Rounding a division up adds one exactly where it leaves a remainder.
proof fn lemma_ceil_div(size: int, d: int)
    requires
        0 <= size,
        0 < d,
    ensures
        (size + d - 1) / d == size / d + if size % d != 0 {
            1int
        } else {
            0int
        },
{
    let q = size / d;
    let r = size % d;
    lemma_fundamental_div_mod(size, d);
    if r == 0 {
        lemma_div_multiples_vanish_fancy(q, d - 1, d);
    } else {
        assert(d * (q + 1) == d * q + d) by (nonlinear_arith);
        lemma_div_multiples_vanish_fancy(q + 1, r - 1, d);
    }
}

/// The mathematical content of a region of page tables: the physical address of
/// its first page and its entries, 512 to a page. Page 0 is the root table.
pub struct TablesView {
    pub base: int,
    pub entries: Seq<u64>,
}

impl TablesView {
    pub open spec fn pages(self) -> int {
        self.entries.len() as int / 512
    }

    pub open spec fn entry(self, page: int, idx: int) -> u64 {
        self.entries[page * 512 + idx]
    }

    /// The page of the region that starts at physical address `paddr`, if any.
    pub open spec fn page_at(self, paddr: int) -> Option<int> {
        let off = paddr - self.base;
        if self.base <= paddr && off % PAGE_SIZE as int == 0 && off / (PAGE_SIZE as int) < self.pages() {
            Some(off / PAGE_SIZE as int)
        } else {
            None
        }
    }

    /// The walk from table `page` at `level` for `addr`: the leaf entry that ends it
    /// and the level where it stands, or `None` where it meets an invalid entry,
    /// a pointer below the last level, or a pointer out of the region.
    pub open spec fn leaf_from(self, page: int, addr: int, level: nat) -> Option<(u64, int)>
        decreases level,
    {
        let e = self.entry(page, spec_vpn(addr, level as int));
        if !spec_pte_valid(e) {
            None
        } else if spec_pte_leaf(e) {
            Some((e, level as int))
        } else if level == 0 {
            None
        } else {
            match self.page_at(spec_pte_target(e)) {
                Some(next) => self.leaf_from(next, addr, (level - 1) as nat),
                None => None,
            }
        }
    }

    /// The walk from the root for `addr`.
    pub open spec fn lookup(self, addr: int) -> Option<(u64, int)> {
        if self.pages() >= 1 {
            self.leaf_from(0, addr, 2)
        } else {
            None
        }
    }

    /// The physical address that `addr` translates to.
    pub open spec fn translate(self, addr: int) -> Option<int> {
        match self.lookup(addr) {
            Some((e, level)) => Some(spec_pte_target(e) + addr % level_size(level)),
            None => None,
        }
    }
}

/// A region of physical memory holding page tables, seen as an array of entries.
pub struct PageTables {
    /// Physical address of the region's first page (the root table).
    pub base: u64,
    pub entries: Vec<u64>,
}

impl View for PageTables {
    type V = TablesView;

    open spec fn view(&self) -> TablesView {
        TablesView { base: self.base as int, entries: self.entries@ }
    }
}

/// Bytes mapped by one leaf of granularity `g`.
pub fn leaf_size_bytes(g: Granularity) -> (r: u64)
    ensures
        r as int == leaf_size(g),
{
    match g {
        Granularity::Large => MEGA_SIZE,
        Granularity::Small => PAGE_SIZE,
    }
}

/// `vpn2`, `vpn1` or `vpn0` of `addr`, by level.
pub fn vpn(addr: u64, level: u64) -> (r: u64)
    requires
        level <= 2,
    ensures
        r as int == spec_vpn(addr as int, level as int),
        r < ENTRIES,
{
    if level == 2 {
        vpn2(addr)
    } else if level == 1 {
        vpn1(addr)
    } else {
        vpn0(addr)
    }
}

/// Bytes mapped by a leaf at `level`.
pub fn level_bytes(level: u64) -> (r: u64)
    ensures
        r as int == level_size(level as int),
{
    if level == 2 {
        GIGA_SIZE
    } else if level == 1 {
        MEGA_SIZE
    } else {
        PAGE_SIZE
    }
}

impl PageTables {
    /// A page-aligned region of at least one page that lies in physical memory.
    pub open spec fn wf(&self) -> bool {
        &&& self.base % PAGE_SIZE == 0
        &&& self.entries@.len() % 512 == 0
        &&& self.entries@.len() >= 512
        &&& self.base + self.entries@.len() * 8 <= PA_LIMIT
    }

    /// `pages` zeroed tables at physical address `base`.
    pub fn new(base: u64, pages: u64) -> (r: PageTables)
        requires
            base % PAGE_SIZE == 0,
            1 <= pages,
            base + pages * PAGE_SIZE <= PA_LIMIT,
            pages * 512 <= usize::MAX,
        ensures
            r.wf(),
            r@.base == base,
            r@.entries == Seq::new((pages * 512) as nat, |k: int| 0u64),
    {
        let n: usize = (pages * 512) as usize;
        let mut entries: Vec<u64> = Vec::new();
        while entries.len() < n
            invariant
                entries@.len() <= n,
                forall|k: int| 0 <= k < entries@.len() ==> entries@[k] == 0u64,
            decreases n - entries@.len(),
        {
            entries.push(0);
        }
        let r = PageTables { base, entries };
        assert(r.entries@ == Seq::new((pages * 512) as nat, |k: int| 0u64));
        r
    }

    /// Number of pages in the region.
    pub fn page_count(&self) -> (r: u64)
        requires
            self.wf(),
        ensures
            r as int == self@.pages(),
    {
        (self.entries.len() / 512) as u64
    }

    /// The entry at index `idx` of table `page`.
    pub fn entry(&self, page: u64, idx: u64) -> (r: u64)
        requires
            self.wf(),
            page < self@.pages(),
            idx < ENTRIES,
        ensures
            r == self@.entry(page as int, idx as int),
    {
        let k = page * 512 + idx;
        let n: usize = self.entries.len();
        assert(k < n);
        self.entries[k as usize]
    }

    /// The page of the region that starts at physical address `paddr`, if any.
    pub fn page_at(&self, paddr: u64) -> (r: Option<u64>)
        requires
            self.wf(),
        ensures
            r matches Some(p) ==> self@.page_at(paddr as int) == Some(p as int),
            r is None ==> self@.page_at(paddr as int) is None,
    {
        let pages = self.page_count();
        if self.base <= paddr && (paddr - self.base) % PAGE_SIZE == 0 && (paddr - self.base)
            / PAGE_SIZE < pages {
            Some((paddr - self.base) / PAGE_SIZE)
        } else {
            None
        }
    }

    /// Walks the tables from the root for `addr`, as the hardware does, and returns
    /// the leaf entry that ends the walk with its level.
    pub fn lookup(&self, addr: u64) -> (r: Option<(u64, u64)>)
        requires
            self.wf(),
        ensures
            r matches Some((e, l)) ==> self@.lookup(addr as int) == Some((e, l as int)),
            r is None ==> self@.lookup(addr as int) is None,
    {
        let mut page: u64 = 0;
        let mut level: u64 = 2;
        loop
            invariant
                self.wf(),
                page < self@.pages(),
                level <= 2,
                self@.lookup(addr as int) == self@.leaf_from(page as int, addr as int, level as nat),
            decreases level,
        {
            let e = self.entry(page, vpn(addr, level));
            if !pte_is_valid(e) {
                return None;
            }
            if pte_is_leaf(e) {
                return Some((e, level));
            }
            if level == 0 {
                return None;
            }
            match self.page_at(pte_target(e)) {
                Some(next) => {
                    page = next;
                    level = level - 1;
                },
                None => {
                    return None;
                },
            }
        }
    }

    /// The physical address that `addr` translates to through these tables.
    pub fn translate(&self, addr: u64) -> (r: Option<u64>)
        requires
            self.wf(),
        ensures
            r matches Some(p) ==> self@.translate(addr as int) == Some(p as int),
            r is None ==> self@.translate(addr as int) is None,
    {
        match self.lookup(addr) {
            Some((e, level)) => {
                let size = level_bytes(level);
                let t = pte_target(e);
                Some(t + addr % size)
            },
            None => None,
        }
    }

    /// The physical address of page `page` of the region.
    fn page_paddr(&self, page: u64) -> (r: u64)
        requires
            self.wf(),
            page < self@.pages(),
        ensures
            r as int == page_addr(self@.base, page as int),
            r % PAGE_SIZE == 0,
            r < PA_LIMIT,
    {
        let ghost len = self.entries@.len() as int;
        assert(page * 4096 < len * 8) by (nonlinear_arith)
            requires
                page < len / 512,
                len % 512 == 0,
                0 <= page,
        ;
        assert((self.base + page * 4096) % 4096 == 0) by (nonlinear_arith)
            requires
                self.base % 4096 == 0,
                0 <= page,
        ;
        self.base + page * PAGE_SIZE
    }

    /// Builds one mapping window: from table `l1` (and, for 4 KiB leaves, table `l0`)
    /// down, the leaves that map `vaddr` onward to `paddr` onward in one increasing
    /// sweep, then the pointers above them, each at the index that the window's own
    /// address selects. The root table is page 0. An entry that another window wrote
    /// at the same index is overwritten.
    pub fn build_window(
        &mut self,
        vaddr: u64,
        paddr: u64,
        size: u64,
        g: Granularity,
        l1: u64,
        l0: u64,
    )
        requires
            old(self).wf(),
            1 <= l1 < old(self)@.pages(),
            g == Granularity::Small ==> 1 <= l0 < old(self)@.pages() && l0 != l1,
            paddr as int % leaf_size(g) == 0,
            paddr + leaf_count(vaddr as int, size as int, g) * leaf_size(g) <= PA_LIMIT,
        ensures
            final(self).wf(),
            final(self)@.base == old(self)@.base,
            final(self)@.entries.len() == old(self)@.entries.len(),
            forall|k: int|
                0 <= k < old(self)@.entries.len() ==> #[trigger] final(self)@.entries[k] as int
                    == match window_entry(
                    old(self)@.base,
                    vaddr as int,
                    paddr as int,
                    size as int,
                    g,
                    l1 as int,
                    l0 as int,
                    k,
                ) {
                    Some(x) => x,
                    None => old(self)@.entries[k] as int,
                },
    {
        let ghost old_entries = self@.entries;
        let lf = leaf_size_bytes(g);
        let first: u64 = match g {
            Granularity::Large => vpn1(vaddr),
            Granularity::Small => vpn0(vaddr),
        };
        let wanted: u64 = if size % lf != 0 {
            size / lf + 1
        } else {
            size / lf
        };
        let room: u64 = ENTRIES - first;
        let n: u64 = if wanted < room {
            wanted
        } else {
            room
        };
        proof {
            lemma_ceil_div(size as int, lf as int);
        }
        assert(n == leaf_count(vaddr as int, size as int, g));
        let leaf_page: u64 = match g {
            Granularity::Large => l1,
            Granularity::Small => l0,
        };
        let start: u64 = leaf_page * 512 + first;
        let len: usize = self.entries.len();
        assert(start + n <= len) by (nonlinear_arith)
            requires
                start == leaf_page * 512 + first,
                first + n <= 512,
                leaf_page < len / 512,
                len % 512 == 0,
        ;
        let mut i: u64 = 0;
        while i < n
            invariant
                self.wf(),
                self@.base == old(self)@.base,
                self@.entries.len() == old_entries.len(),
                old_entries == old(self)@.entries,
                len == old_entries.len(),
                start + n <= len,
                i <= n,
                lf as int == leaf_size(g),
                paddr as int % leaf_size(g) == 0,
                paddr + n * leaf_size(g) <= PA_LIMIT,
                forall|k: int|
                    0 <= k < len ==> #[trigger] self@.entries[k] as int == if start <= k < start
                        + i {
                        spec_pte(paddr + (k - start) * leaf_size(g), PTE_VRWX as int)
                    } else {
                        old_entries[k] as int
                    },
            decreases n - i,
        {
            assert(paddr + i * lf < PA_LIMIT && (paddr + i * lf) % 4096 == 0) by (nonlinear_arith)
                requires
                    i < n,
                    paddr + n * lf <= PA_LIMIT,
                    lf == 4096 || lf == 0x20_0000,
                    paddr % lf == 0,
            ;
            let pte = make_pte(paddr + i * lf, PTE_VRWX);
            self.entries.set((start + i) as usize, pte);
            i = i + 1;
        }
        if g == Granularity::Small {
            let target = self.page_paddr(l0);
            let k1 = l1 * 512 + vpn1(vaddr);
            assert(k1 < len) by (nonlinear_arith)
                requires
                    k1 < l1 * 512 + 512,
                    l1 < len / 512,
                    len % 512 == 0,
            ;
            self.entries.set(k1 as usize, make_pte(target, PTE_V));
        }
        let target = self.page_paddr(l1);
        let k2 = vpn2(vaddr);
        self.entries.set(k2 as usize, make_pte(target, PTE_V));
        assert forall|k: int| 0 <= k < len implies #[trigger] self@.entries[k] as int == match window_entry(
            old(self)@.base,
            vaddr as int,
            paddr as int,
            size as int,
            g,
            l1 as int,
            l0 as int,
            k,
        ) {
            Some(x) => x,
            None => old(self)@.entries[k] as int,
        } by {
            assert(leaf_page * 512 <= start);
            assert(start + n <= leaf_page * 512 + 512);
        }
    }
}

} // verus!
