//! What a walk through built tables finds: every address of a window translates
//! to the window's physical base plus its offset.
use vstd::prelude::*;
use vstd::arithmetic::div_mod::{
    lemma_div_denominator, lemma_fundamental_div_mod, lemma_fundamental_div_mod_converse,
};
use crate::sv39::{
    lemma_pte_fields, spec_pte, spec_pte_flags, spec_pte_leaf, spec_pte_target, spec_pte_valid,
    spec_vpn0, spec_vpn1, spec_vpn2, PA_LIMIT, PTE_V, PTE_VRWX,
};
use crate::boot::{
    boot_layout, identity_entry, identity_l0, identity_l1, in_physical_memory, relocation_entry,
    relocation_l0, relocation_l1, relocation_leaves, relocation_size, spec_boot_pages, spec_choose_path,
    spec_select_path, PathSupport,
};
use crate::tables::{
    first_index, leaf_count, leaf_level, leaf_size, page_addr, window_entry, Granularity,
    TablesView,
};

verus! {

/// An offset `d` from a `u`-aligned `v` that stays inside `v`'s table of 512
/// `u`-sized slots moves the slot index by `d / u` and nothing above it.
proof fn lemma_in_table(v: int, d: int, u: int)
    requires
        0 <= v,
        0 < u,
        v % u == 0,
        0 <= d,
        (v / u) % 512 + d / u < 512,
    ensures
        ((v + d) / u) % 512 == (v / u) % 512 + d / u,
        ((v + d) / u) / 512 == (v / u) / 512,
        (v + d) % u == d % u,
        d == (d / u) * u + d % u,
{
    let m = v / u;
    let q = d / u;
    let r = d % u;
    lemma_fundamental_div_mod(v, u);
    lemma_fundamental_div_mod(d, u);
    assert(v + d == (m + q) * u + r) by (nonlinear_arith)
        requires
            v == u * m + 0,
            d == u * q + r,
    ;
    lemma_fundamental_div_mod_converse(v + d, u, m + q, r);
    lemma_fundamental_div_mod(m, 512);
    lemma_fundamental_div_mod_converse(m + q, 512, m / 512, m % 512 + q);
    assert(d == q * u + r) by (nonlinear_arith)
        requires
            d == u * q + r,
    ;
}

/// Page `page` of a region lies inside it and in physical memory.
proof fn lemma_page(t: TablesView, page: int)
    requires
        0 <= t.base,
        t.base % 4096 == 0,
        t.base + t.pages() * 4096 <= PA_LIMIT,
        0 <= page < t.pages(),
    ensures
        page_addr(t.base, page) % 4096 == 0,
        page_addr(t.base, page) < PA_LIMIT,
        t.page_at(page_addr(t.base, page)) == Some(page),
{
    assert((page * 4096) % 4096 == 0 && (page * 4096) / 4096 == page) by (nonlinear_arith)
        requires
            0 <= page,
    ;
    assert(page * 4096 + 4096 <= t.pages() * 4096) by (nonlinear_arith)
        requires
            page < t.pages(),
    ;
}

/// The walk for `a` inside a window finds the window's leaf for `a`, and `a`
/// translates to the window's physical base plus `a`'s offset in the window.
#[verifier::rlimit(30)]
pub proof fn lemma_walk_in_window(
    t: TablesView,
    vaddr: int,
    paddr: int,
    size: int,
    g: Granularity,
    l1: int,
    l0: int,
    a: int,
)
    requires
        0 <= t.base,
        t.base % 4096 == 0,
        t.entries.len() % 512 == 0,
        t.base + t.pages() * 4096 <= PA_LIMIT,
        1 <= l1 < t.pages(),
        g == Granularity::Small ==> 1 <= l0 < t.pages() && l0 != l1,
        0 <= vaddr,
        vaddr % leaf_size(g) == 0,
        0 <= paddr,
        paddr % leaf_size(g) == 0,
        paddr + leaf_count(vaddr, size, g) * leaf_size(g) <= PA_LIMIT,
        forall|k: int|
            0 <= k < t.entries.len() ==> (window_entry(t.base, vaddr, paddr, size, g, l1, l0, k) matches Some(x)
                ==> #[trigger] t.entries[k] as int == x),
        vaddr <= a < vaddr + leaf_count(vaddr, size, g) * leaf_size(g),
    ensures
        t.lookup(a) == Some(
            (
                spec_pte(paddr + ((a - vaddr) / leaf_size(g)) * leaf_size(g), PTE_VRWX as int) as u64,
                leaf_level(g),
            ),
        ),
        t.translate(a) == Some(paddr + (a - vaddr)),
{
    let lf = leaf_size(g);
    let n = leaf_count(vaddr, size, g);
    let first = first_index(vaddr, g);
    let d = a - vaddr;
    let i = d / lf;
    let leaf_page = if g == Granularity::Large {
        l1
    } else {
        l0
    };
    lemma_fundamental_div_mod(d, lf);
    assert(0 <= i < n) by (nonlinear_arith)
        requires
            0 <= d < n * lf,
            d == lf * i + d % lf,
            0 <= d % lf,
            0 < lf,
    ;
    assert(paddr + i * lf < PA_LIMIT && (paddr + i * lf) % 4096 == 0) by (nonlinear_arith)
        requires
            0 <= i < n,
            paddr + n * lf <= PA_LIMIT,
            lf == 4096 || lf == 0x20_0000,
            paddr % lf == 0,
    ;
    let leaf = paddr + i * lf;
    lemma_fundamental_div_mod(t.entries.len() as int, 512);
    assert(t.entries.len() == t.pages() * 512);
    lemma_pte_fields(leaf, PTE_VRWX as int);
    lemma_in_table(vaddr, d, lf);
    assert(0 <= first);
    // The root entry.
    let p1 = page_addr(t.base, l1);
    lemma_page(t, l1);
    lemma_pte_fields(p1, PTE_V as int);
    let k2 = spec_vpn2(vaddr);
    assert(window_entry(t.base, vaddr, paddr, size, g, l1, l0, k2) == Some(spec_pte(p1, PTE_V as int)));
    assert(t.entries[k2] as int == spec_pte(p1, PTE_V as int));
    // The leaf entry.
    let kl = leaf_page * 512 + first + i;
    let pages = t.pages();
    assert(leaf_page * 512 + 512 <= pages * 512) by (nonlinear_arith)
        requires
            leaf_page < pages,
    ;
    assert(512 <= kl < t.entries.len());
    assert(window_entry(t.base, vaddr, paddr, size, g, l1, l0, kl) == Some(spec_pte(leaf, PTE_VRWX as int)));
    assert(t.entries[kl] as int == spec_pte(leaf, PTE_VRWX as int));
    let e = t.entries[kl];
    assert(spec_pte_valid(e) && spec_pte_leaf(e) && spec_pte_target(e) == leaf);
    if g == Granularity::Large {
        lemma_div_denominator(a, 0x20_0000, 512);
        lemma_div_denominator(vaddr, 0x20_0000, 512);
        assert(spec_vpn2(a) == k2);
        assert(spec_vpn1(a) == first + i);
        assert(t.entry(0, spec_vpn2(a)) == t.entries[k2]);
        assert(t.entry(l1, spec_vpn1(a)) == e);
        assert(t.leaf_from(l1, a, 1) == Some((e, 1int)));
        assert(t.leaf_from(0, a, 2) == Some((e, 1int)));
    } else {
        lemma_div_denominator(a, 0x1000, 512);
        lemma_div_denominator(vaddr, 0x1000, 512);
        lemma_div_denominator(a, 0x20_0000, 512);
        lemma_div_denominator(vaddr, 0x20_0000, 512);
        assert(spec_vpn2(a) == k2);
        assert(spec_vpn1(a) == spec_vpn1(vaddr));
        assert(spec_vpn0(a) == first + i);
        let p0 = page_addr(t.base, l0);
        lemma_page(t, l0);
        lemma_pte_fields(p0, PTE_V as int);
        let k1 = l1 * 512 + spec_vpn1(vaddr);
        assert(l1 * 512 + 512 <= pages * 512) by (nonlinear_arith)
            requires
                l1 < pages,
        ;
        assert(512 <= k1 < t.entries.len());
        assert(window_entry(t.base, vaddr, paddr, size, g, l1, l0, k1) == Some(spec_pte(p0, PTE_V as int)));
        assert(t.entries[k1] as int == spec_pte(p0, PTE_V as int));
        assert(t.entry(0, spec_vpn2(a)) == t.entries[k2]);
        assert(t.entry(l1, spec_vpn1(a)) == t.entries[k1]);
        assert(t.entry(l0, spec_vpn0(a)) == e);
        assert(t.leaf_from(l0, a, 0) == Some((e, 0int)));
        assert(t.leaf_from(l1, a, 1) == Some((e, 0int)));
        assert(t.leaf_from(0, a, 2) == Some((e, 0int)));
    }
    assert(spec_pte_flags(e) == PTE_VRWX);
}

/// A window writes only its root entry, its middle table and, for 4 KiB leaves,
/// its last-level table, and each value it writes fits in an entry.
proof fn lemma_window_entry_bounds(
    base: int,
    vaddr: int,
    paddr: int,
    size: int,
    g: Granularity,
    l1: int,
    l0: int,
    k: int,
)
    requires
        0 <= base,
        base % 4096 == 0,
        0 <= vaddr,
        0 <= paddr,
        paddr % leaf_size(g) == 0,
        1 <= l1,
        page_addr(base, l1) < PA_LIMIT,
        g == Granularity::Small ==> 1 <= l0 && page_addr(base, l0) < PA_LIMIT,
        paddr + leaf_count(vaddr, size, g) * leaf_size(g) <= PA_LIMIT,
    ensures
        window_entry(base, vaddr, paddr, size, g, l1, l0, k) matches Some(x) ==> {
            &&& 0 <= x < 0x1_0000_0000_0000_0000
            &&& k == spec_vpn2(vaddr) || l1 * 512 <= k < l1 * 512 + 512 || (g == Granularity::Small
                && l0 * 512 <= k < l0 * 512 + 512)
        },
{
    let lf = leaf_size(g);
    let n = leaf_count(vaddr, size, g);
    let first = first_index(vaddr, g);
    let leaf_page = if g == Granularity::Large {
        l1
    } else {
        l0
    };
    let i = k - (leaf_page * 512 + first);
    assert((page_addr(base, l1)) % 4096 == 0) by (nonlinear_arith)
        requires
            base % 4096 == 0,
            page_addr(base, l1) == base + l1 * 4096,
    ;
    lemma_pte_fields(page_addr(base, l1), PTE_V as int);
    if g == Granularity::Small {
        assert((page_addr(base, l0)) % 4096 == 0) by (nonlinear_arith)
            requires
                base % 4096 == 0,
                page_addr(base, l0) == base + l0 * 4096,
        ;
        lemma_pte_fields(page_addr(base, l0), PTE_V as int);
    }
    if 0 <= i < n {
        assert(paddr + i * lf < PA_LIMIT && (paddr + i * lf) % 4096 == 0) by (nonlinear_arith)
            requires
                0 <= i < n,
                paddr + n * lf <= PA_LIMIT,
                lf == 4096 || lf == 0x20_0000,
                paddr % lf == 0,
        ;
        lemma_pte_fields(paddr + i * lf, PTE_VRWX as int);
    }
}

/// The relocation and identity windows of the boot tables each read, where they
/// write, exactly what they wrote: neither overwrote the other.
proof fn lemma_boot_windows_kept(base: u64, paddr: u64, vaddr: u64, g: Granularity, k: int)
    requires
        base % 4096 == 0,
        base + spec_boot_pages(g) * 4096 <= PA_LIMIT,
        paddr as int % leaf_size(g) == 0,
        paddr + relocation_size(g) <= PA_LIMIT,
        spec_vpn2(paddr as int) != spec_vpn2(vaddr as int),
        0 <= k < spec_boot_pages(g) * 512,
    ensures
        relocation_entry(base as int, paddr as int, vaddr as int, g, k) matches Some(x)
            ==> boot_layout(base as int, paddr as int, vaddr as int, g)[k] as int == x,
        identity_entry(base as int, paddr as int, g, k) matches Some(x)
            ==> boot_layout(base as int, paddr as int, vaddr as int, g)[k] as int == x,
{
    let lf = leaf_size(g);
    let nr = leaf_count(vaddr as int, relocation_size(g), g);
    let ni = leaf_count(paddr as int, lf, g);
    assert(nr <= 512 && ni <= 512);
    assert(paddr + nr * lf <= PA_LIMIT && paddr + ni * lf <= PA_LIMIT) by (nonlinear_arith)
        requires
            nr <= 512,
            ni <= 512,
            0 < lf,
            paddr + 512 * lf <= PA_LIMIT,
    ;
    lemma_window_entry_bounds(
        base as int,
        vaddr as int,
        paddr as int,
        relocation_size(g),
        g,
        relocation_l1(),
        relocation_l0(),
        k,
    );
    lemma_window_entry_bounds(
        base as int,
        paddr as int,
        paddr as int,
        lf,
        g,
        identity_l1(),
        identity_l0(),
        k,
    );
}

/// The number of leaves of each boot window: the rest of its leaf table for the
/// relocation window, one for the identity window; and the leaf size divides both
/// addresses.
proof fn lemma_boot_leaf_counts(paddr: u64, vaddr: u64, support: PathSupport, g: Granularity)
    requires
        spec_select_path(paddr as int, vaddr as int, support) == Some(g),
    ensures
        leaf_count(vaddr as int, relocation_size(g), g) == 512 - first_index(vaddr as int, g),
        1 <= relocation_leaves(vaddr as int, g) <= 512,
        leaf_count(paddr as int, leaf_size(g), g) == 1,
        vaddr as int % leaf_size(g) == 0,
        paddr as int % leaf_size(g) == 0,
{
    let v = vaddr as int;
    let p = paddr as int;
    let lf = leaf_size(g);
    lemma_fundamental_div_mod_converse(512 * lf + lf - 1, lf, 512, lf - 1);
    lemma_fundamental_div_mod_converse(lf + lf - 1, lf, 1, lf - 1);
    assert(0 <= first_index(v, g) < 512);
    assert(0 <= first_index(p, g) < 512);
}

/// For a pair of load addresses that the trampoline accepts, the tables it builds
/// meet both windows' walks: the walk for the virtual load address and the walk for
/// the physical load address each end at a leaf whose physical field is the
/// physical load address and whose flags are Valid, Read, Write and Execute.
#[verifier::rlimit(30)]
pub proof fn lemma_boot_leaves(base: u64, paddr: u64, vaddr: u64, support: PathSupport)
    requires
        in_physical_memory(base as int, paddr as int, vaddr as int, support),
        spec_choose_path(paddr as int, vaddr as int, support) is Ok,
    ensures
        ({
            let g = spec_choose_path(paddr as int, vaddr as int, support)->Ok_0;
            let t = TablesView {
                base: base as int,
                entries: boot_layout(base as int, paddr as int, vaddr as int, g),
            };
            let leaf = spec_pte(paddr as int, PTE_VRWX as int) as u64;
            &&& t.lookup(vaddr as int) == Some((leaf, leaf_level(g)))
            &&& t.lookup(paddr as int) == Some((leaf, leaf_level(g)))
            &&& spec_pte_target(leaf) == paddr as int
            &&& spec_pte_flags(leaf) == PTE_VRWX as int
        }),
{
    let g = spec_choose_path(paddr as int, vaddr as int, support)->Ok_0;
    let t = TablesView {
        base: base as int,
        entries: boot_layout(base as int, paddr as int, vaddr as int, g),
    };
    let lf = leaf_size(g);
    assert(0 < lf);
    assert(0int / lf == 0 && (0int / lf) * lf == 0);
    lemma_boot_leaf_counts(paddr, vaddr, support, g);
    let nr = relocation_leaves(vaddr as int, g);
    assert(nr * lf > 0) by (nonlinear_arith)
        requires
            1 <= nr,
            0 < lf,
    ;
    let leaf = spec_pte(paddr as int, PTE_VRWX as int) as u64;
    lemma_boot_walks(base, paddr, vaddr, support, vaddr as int);
    assert(t.lookup(vaddr as int) == Some((leaf, leaf_level(g))));
    lemma_boot_walks(base, paddr, vaddr, support, paddr as int);
    assert(t.lookup(paddr as int) == Some((leaf, leaf_level(g))));
    lemma_pte_fields(paddr as int, PTE_VRWX as int);
}

/// Every address of the relocation window (`vaddr` onward, to the end of its leaf
/// table) translates to `paddr` plus its offset from `vaddr`, and every address of the
/// identity window (the leaf at `paddr`) translates to itself: at every byte, not
/// only at the windows' ends.
#[verifier::rlimit(30)]
pub proof fn lemma_boot_round_trip(base: u64, paddr: u64, vaddr: u64, support: PathSupport)
    requires
        in_physical_memory(base as int, paddr as int, vaddr as int, support),
        spec_choose_path(paddr as int, vaddr as int, support) is Ok,
    ensures
        ({
            let g = spec_choose_path(paddr as int, vaddr as int, support)->Ok_0;
            let t = TablesView {
                base: base as int,
                entries: boot_layout(base as int, paddr as int, vaddr as int, g),
            };
            &&& forall|a: int|
                vaddr <= a < vaddr + relocation_leaves(vaddr as int, g) * leaf_size(g) ==> #[trigger] t.translate(a) == Some(
                    paddr + (a - vaddr),
                )
            &&& forall|a: int|
                paddr <= a < paddr + leaf_size(g) ==> #[trigger] t.translate(a) == Some(a)
        }),
{
    let g = spec_choose_path(paddr as int, vaddr as int, support)->Ok_0;
    let t = TablesView {
        base: base as int,
        entries: boot_layout(base as int, paddr as int, vaddr as int, g),
    };
    assert forall|a: int| vaddr <= a < vaddr + relocation_leaves(vaddr as int, g) * leaf_size(g) implies #[trigger] t.translate(a)
        == Some(paddr + (a - vaddr)) by {
        lemma_boot_walks(base, paddr, vaddr, support, a);
    }
    assert forall|a: int| paddr <= a < paddr + leaf_size(g) implies #[trigger] t.translate(a)
        == Some(a) by {
        lemma_boot_walks(base, paddr, vaddr, support, a);
    }
}

/// The walk through the boot tables for an address of either window.
#[verifier::rlimit(30)]
proof fn lemma_boot_walks(base: u64, paddr: u64, vaddr: u64, support: PathSupport, a: int)
    requires
        in_physical_memory(base as int, paddr as int, vaddr as int, support),
        spec_choose_path(paddr as int, vaddr as int, support) is Ok,
    ensures
        ({
            let g = spec_choose_path(paddr as int, vaddr as int, support)->Ok_0;
            let t = TablesView {
                base: base as int,
                entries: boot_layout(base as int, paddr as int, vaddr as int, g),
            };
            let lf = leaf_size(g);
            &&& vaddr <= a < vaddr + relocation_leaves(vaddr as int, g) * leaf_size(g) ==> t.translate(a) == Some(
                paddr + (a - vaddr),
            ) && t.lookup(a) == Some(
                (
                    spec_pte(paddr + ((a - vaddr) / lf) * lf, PTE_VRWX as int) as u64,
                    leaf_level(g),
                ),
            )
            &&& paddr <= a < paddr + lf ==> t.translate(a) == Some(a) && t.lookup(a) == Some(
                (spec_pte(paddr + ((a - paddr) / lf) * lf, PTE_VRWX as int) as u64, leaf_level(g)),
            )
        }),
{
    let g = spec_choose_path(paddr as int, vaddr as int, support)->Ok_0;
    let t = TablesView {
        base: base as int,
        entries: boot_layout(base as int, paddr as int, vaddr as int, g),
    };
    let lf = leaf_size(g);
    lemma_boot_leaf_counts(paddr, vaddr, support, g);
    let nr = relocation_leaves(vaddr as int, g);
    assert(paddr + nr * lf <= PA_LIMIT && paddr + 1 * lf <= PA_LIMIT) by (nonlinear_arith)
        requires
            1 <= nr <= 512,
            0 < lf,
            paddr + 512 * lf <= PA_LIMIT,
    ;
    assert(t.entries.len() == spec_boot_pages(g) * 512);
    assert(t.pages() == spec_boot_pages(g));
    assert forall|k: int| 0 <= k < t.entries.len() implies (relocation_entry(
        base as int,
        paddr as int,
        vaddr as int,
        g,
        k,
    ) matches Some(x) ==> #[trigger] t.entries[k] as int == x) && (identity_entry(
        base as int,
        paddr as int,
        g,
        k,
    ) matches Some(x) ==> t.entries[k] as int == x) by {
        lemma_boot_windows_kept(base, paddr, vaddr, g, k);
    }
    if vaddr <= a < vaddr + relocation_leaves(vaddr as int, g) * leaf_size(g) {
        lemma_walk_in_window(
            t,
            vaddr as int,
            paddr as int,
            relocation_size(g),
            g,
            relocation_l1(),
            relocation_l0(),
            a,
        );
    }
    if paddr <= a < paddr + lf {
        lemma_walk_in_window(t, paddr as int, paddr as int, lf, g, identity_l1(), identity_l0(), a);
    }
}

} // verus!
