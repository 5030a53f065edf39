//! The boot trampoline's decisions: which leaf size the load addresses allow, the
//! two windows built from it, the value committed to `satp`, and the stages the
//! sequence passes through.
use vstd::prelude::*;
use vstd::arithmetic::div_mod::{lemma_fundamental_div_mod, lemma_fundamental_div_mod_converse};
use core::alloc::Layout;
use crate::sv39::{spec_vpn2, vpn2, MEGA_SIZE, PAGE_SIZE, PA_LIMIT};
use crate::tables::{leaf_count, leaf_size, leaf_size_bytes, window_entry, Granularity, PageTables};

verus! {

/// Which leaf sizes a build of the trampoline supports.
#[derive(Clone, Copy, Debug, PartialEq, Eq, Structural)]
pub enum PathSupport {
    /// Only 2 MiB leaves: both load addresses must be 2 MiB aligned.
    LargeOnly,
    /// 2 MiB leaves where both load addresses allow them, else 4 KiB leaves, which
    /// need both addresses 4 KiB aligned.
    LargeAndSmall,
}

/// Why the trampoline halts instead of switching to virtual addressing.
#[derive(Clone, Copy, Debug, PartialEq, Eq, Structural)]
pub enum BootError {
    /// No supported leaf size fits the physical and virtual load addresses.
    UnsupportedAlignment,
    /// The identity and relocation windows select the same root-table entry, so one
    /// would overwrite the other. This library refuses such a pair rather than
    /// build tables that lose one of the windows.
    WindowCollision,
}

/// The coarsest leaf size that both load addresses are aligned to, if `support`
/// has one. A leaf maps a leaf-aligned virtual range onto a leaf-aligned physical
/// one, so both addresses must be aligned to it.
pub open spec fn spec_select_path(paddr: int, vaddr: int, support: PathSupport) -> Option<
    Granularity,
> {
    if paddr % MEGA_SIZE as int == 0 && vaddr % MEGA_SIZE as int == 0 {
        Some(Granularity::Large)
    } else if support == PathSupport::LargeAndSmall && paddr % PAGE_SIZE as int == 0 && vaddr
        % PAGE_SIZE as int == 0 {
        Some(Granularity::Small)
    } else {
        None
    }
}

/// The path the trampoline takes, or why it halts.
pub open spec fn spec_choose_path(paddr: int, vaddr: int, support: PathSupport) -> Result<
    Granularity,
    BootError,
> {
    match spec_select_path(paddr, vaddr, support) {
        None => Err(BootError::UnsupportedAlignment),
        Some(g) => if spec_vpn2(paddr) == spec_vpn2(vaddr) {
            Err(BootError::WindowCollision)
        } else {
            Ok(g)
        },
    }
}

/// Pages of tables each path uses: the root, one middle table per window and, for
/// 4 KiB leaves, one last-level table per window.
pub open spec fn spec_boot_pages(g: Granularity) -> int {
    match g {
        Granularity::Large => 3,
        Granularity::Small => 5,
    }
}

/// Bytes the relocation window asks for: one full leaf table. The sweep stops
/// earlier where the virtual load address does not start its leaf table.
pub open spec fn relocation_size(g: Granularity) -> int {
    512 * leaf_size(g)
}

/// Leaves of the relocation window: from the virtual load address's own index to
/// the end of its leaf table.
pub open spec fn relocation_leaves(vaddr: int, g: Granularity) -> int {
    leaf_count(vaddr, relocation_size(g), g)
}

/// Table pages of each window: the relocation window uses pages 1 (and 3), the
/// identity window pages 2 (and 4).
pub open spec fn relocation_l1() -> int {
    1
}

pub open spec fn relocation_l0() -> int {
    3
}

pub open spec fn identity_l1() -> int {
    2
}

pub open spec fn identity_l0() -> int {
    4
}

/// The entry the relocation window writes at `k`, if any.
pub open spec fn relocation_entry(base: int, paddr: int, vaddr: int, g: Granularity, k: int) -> Option<int> {
    window_entry(base, vaddr, paddr, relocation_size(g), g, relocation_l1(), relocation_l0(), k)
}

/// The entry the identity window (one leaf) writes at `k`, if any.
pub open spec fn identity_entry(base: int, paddr: int, g: Granularity, k: int) -> Option<int> {
    window_entry(base, paddr, paddr, leaf_size(g), g, identity_l1(), identity_l0(), k)
}

/// The boot tables: zeroed pages holding the relocation window, then the identity window.
pub open spec fn boot_layout(base: int, paddr: int, vaddr: int, g: Granularity) -> Seq<u64> {
    Seq::new(
        (spec_boot_pages(g) * 512) as nat,
        |k: int|
            match identity_entry(base, paddr, g, k) {
                Some(x) => x as u64,
                None => match relocation_entry(base, paddr, vaddr, g, k) {
                    Some(x) => x as u64,
                    None => 0u64,
                },
            },
    )
}

/// The `satp` value that selects Sv39 with the root table at `root`.
pub open spec fn spec_satp(root: int) -> int {
    0x8000_0000_0000_0000 + root / PAGE_SIZE as int
}

/// Tests the load addresses against the alignment masks, coarsest leaf first.
pub fn select_path(paddr: u64, vaddr: u64, support: PathSupport) -> (r: Option<Granularity>)
    ensures
        r == spec_select_path(paddr as int, vaddr as int, support),
{
    assert(((paddr & 0x1F_FFFF) | (vaddr & 0x1F_FFFF) == 0) == (paddr % 0x20_0000 == 0 && vaddr
        % 0x20_0000 == 0)) by (bit_vector);
    assert(((paddr & 0xFFF) | (vaddr & 0xFFF) == 0) == (paddr % 0x1000 == 0 && vaddr % 0x1000
        == 0)) by (bit_vector);
    if (paddr & (MEGA_SIZE - 1)) | (vaddr & (MEGA_SIZE - 1)) == 0 {
        Some(Granularity::Large)
    } else if support == PathSupport::LargeAndSmall && (paddr & (PAGE_SIZE - 1)) | (vaddr & (
    PAGE_SIZE - 1)) == 0 {
        Some(Granularity::Small)
    } else {
        None
    }
}

/// At the 2 MiB boundary: a physical address on it (with a 2 MiB aligned virtual
/// address) takes 2 MiB leaves under either support; one byte below it no leaf size
/// fits, since 4 KiB leaves need a 4 KiB aligned physical address, and the
/// trampoline halts; one page below it takes 4 KiB leaves where they are supported
/// and halts where they are not.
pub proof fn lemma_alignment_boundary(paddr: u64, vaddr: u64)
    requires
        paddr % MEGA_SIZE == 0,
        paddr > 0,
        vaddr % MEGA_SIZE == 0,
    ensures
        spec_select_path(paddr as int, vaddr as int, PathSupport::LargeOnly) == Some(Granularity::Large),
        spec_select_path(paddr as int, vaddr as int, PathSupport::LargeAndSmall) == Some(
            Granularity::Large,
        ),
        spec_select_path(paddr - 1, vaddr as int, PathSupport::LargeOnly) is None,
        spec_select_path(paddr - 1, vaddr as int, PathSupport::LargeAndSmall) is None,
        spec_select_path(paddr - PAGE_SIZE, vaddr as int, PathSupport::LargeOnly) is None,
        spec_select_path(paddr - PAGE_SIZE, vaddr as int, PathSupport::LargeAndSmall) == Some(
            Granularity::Small,
        ),
{
    let p = paddr as int;
    let v = vaddr as int;
    lemma_fundamental_div_mod(p, 0x20_0000);
    let m = p / 0x20_0000;
    assert(m >= 1);
    assert(p - 1 == (m * 512 - 1) * 0x1000 + 0xFFF && p - 0x1000 == (m - 1) * 0x20_0000 + 0x1F_F000
        && p - 0x1000 == (m * 512 - 1) * 0x1000 + 0) by (nonlinear_arith)
        requires
            p == 0x20_0000 * m + 0,
    ;
    lemma_fundamental_div_mod_converse(p - 1, 0x1000, m * 512 - 1, 0xFFF);
    lemma_fundamental_div_mod_converse(p - 0x1000, 0x20_0000, m - 1, 0x1F_F000);
    lemma_fundamental_div_mod_converse(p - 0x1000, 0x1000, m * 512 - 1, 0);
    lemma_fundamental_div_mod(v, 0x20_0000);
    let w = v / 0x20_0000;
    assert(v == (w * 512) * 0x1000 + 0) by (nonlinear_arith)
        requires
            v == 0x20_0000 * w + 0,
    ;
    lemma_fundamental_div_mod_converse(v, 0x1000, w * 512, 0);
}

/// Selects the path, and refuses a pair of windows that share a root-table entry.
pub fn choose_path(paddr: u64, vaddr: u64, support: PathSupport) -> (r: Result<Granularity, BootError>)
    ensures
        r == spec_choose_path(paddr as int, vaddr as int, support),
{
    match select_path(paddr, vaddr, support) {
        None => Err(BootError::UnsupportedAlignment),
        Some(g) => if vpn2(paddr) == vpn2(vaddr) {
            Err(BootError::WindowCollision)
        } else {
            Ok(g)
        },
    }
}

/// Pages of tables the path `g` uses.
pub fn boot_pages(g: Granularity) -> (r: u64)
    ensures
        r as int == spec_boot_pages(g),
{
    match g {
        Granularity::Large => 3,
        Granularity::Small => 5,
    }
}

/// Builds the boot tables in the scratch region at `base`: the relocation window
/// maps `vaddr` onward to `paddr` onward up to the end of `vaddr`'s leaf table, the
/// identity window maps the leaf at `paddr` to itself. Each window's indices come from its own address,
/// the root index of the relocation window included.
pub fn build_boot_tables(base: u64, paddr: u64, vaddr: u64, g: Granularity) -> (r: PageTables)
    requires
        base % PAGE_SIZE == 0,
        base + spec_boot_pages(g) * PAGE_SIZE <= PA_LIMIT,
        paddr as int % leaf_size(g) == 0,
        paddr + relocation_size(g) <= PA_LIMIT,
        spec_vpn2(paddr as int) != spec_vpn2(vaddr as int),
    ensures
        r.wf(),
        r@.base == base,
        r@.entries == boot_layout(base as int, paddr as int, vaddr as int, g),
{
    let lf = leaf_size_bytes(g);
    let mut t = PageTables::new(base, boot_pages(g));
    let ghost zeroed = t@.entries;
    t.build_window(vaddr, paddr, 512 * lf, g, 1, 3);
    let ghost after_relocation = t@.entries;
    t.build_window(paddr, paddr, lf, g, 2, 4);
    assert(t@.entries =~= boot_layout(base as int, paddr as int, vaddr as int, g)) by {
        assert forall|k: int| 0 <= k < t@.entries.len() implies t@.entries[k] == boot_layout(
            base as int,
            paddr as int,
            vaddr as int,
            g,
        )[k] by {
            assert(zeroed[k] == 0u64);
            assert(after_relocation[k] as int == match relocation_entry(
                base as int,
                paddr as int,
                vaddr as int,
                g,
                k,
            ) {
                Some(x) => x,
                None => zeroed[k] as int,
            });
        }
    }
    t
}

/// The `satp` value for Sv39 with the root table at `root`: its page number with
/// the mode selector 8 in bits 63..60.
pub fn satp_value(root: u64) -> (r: u64)
    requires
        root < PA_LIMIT,
    ensures
        r as int == spec_satp(root as int),
{
    assert((root >> 12u64) | 0x8000_0000_0000_0000 == 0x8000_0000_0000_0000 + root / 0x1000)
        by (bit_vector)
        requires
            root < 0x100_0000_0000_0000,
    ;
    (root >> 12) | 0x8000_0000_0000_0000
}

/// The scratch region is page aligned, and it and the relocation window's physical
/// range lie in the 56-bit physical address space, for the path the addresses select.
pub open spec fn in_physical_memory(base: int, paddr: int, vaddr: int, support: PathSupport) -> bool {
    &&& 0 <= base
    &&& base % PAGE_SIZE as int == 0
    &&& spec_select_path(paddr, vaddr, support) matches Some(g) ==> base + spec_boot_pages(g)
        * PAGE_SIZE as int <= PA_LIMIT && paddr + relocation_size(g) <= PA_LIMIT
}

/// What the trampoline hands to the next stage: the tables it built (ownership
/// moves with them), the `satp` value it commits, and the offset past the table
/// pages at which free scratch memory begins.
pub struct Handoff {
    pub tables: PageTables,
    pub satp: u64,
    pub free_offset: u64,
}

/// Everything the trampoline decides and builds from its load addresses and the
/// scratch region at `base`: the path, the tables, `satp`, and the free offset; or
/// the reason it halts.
pub fn boot(base: u64, paddr: u64, vaddr: u64, support: PathSupport) -> (r: Result<Handoff, BootError>)
    requires
        in_physical_memory(base as int, paddr as int, vaddr as int, support),
    ensures
        match spec_choose_path(paddr as int, vaddr as int, support) {
            Err(e) => r == Err::<Handoff, BootError>(e),
            Ok(g) => r matches Ok(h) && h.tables.wf() && h.tables@.base == base
                && h.tables@.entries == boot_layout(base as int, paddr as int, vaddr as int, g)
                && h.satp as int == spec_satp(base as int) && h.free_offset as int
                == spec_boot_pages(g) * PAGE_SIZE,
        },
{
    match choose_path(paddr, vaddr, support) {
        Err(e) => Err(e),
        Ok(g) => {
            assert(paddr as int % leaf_size(g) == 0);
            let tables = build_boot_tables(base, paddr, vaddr, g);
            let satp = satp_value(base);
            let free_offset = boot_pages(g) * PAGE_SIZE;
            Ok(Handoff { tables, satp, free_offset })
        },
    }
}

/// The stages of the boot sequence. Each is entered once; `Entered` (the next boot
/// stage has control) and `Halted` are never left.
#[derive(Clone, Copy, Debug, PartialEq, Eq, Structural)]
pub enum Stage {
    ComputeAddresses,
    SelectAlignmentPath,
    BuildLargeLeaf,
    BuildSmallLeaf,
    CommitAndFlush,
    JumpToVirtual,
    Entered,
    Halted,
}

/// The stage after `s`. `path` is what the selection decided: the leaf size, or
/// `None` where the trampoline halts; only `SelectAlignmentPath` reads it.
pub open spec fn spec_next_stage(s: Stage, path: Option<Granularity>) -> Stage {
    match s {
        Stage::ComputeAddresses => Stage::SelectAlignmentPath,
        Stage::SelectAlignmentPath => match path {
            Some(Granularity::Large) => Stage::BuildLargeLeaf,
            Some(Granularity::Small) => Stage::BuildSmallLeaf,
            None => Stage::Halted,
        },
        Stage::BuildLargeLeaf => Stage::CommitAndFlush,
        Stage::BuildSmallLeaf => Stage::CommitAndFlush,
        Stage::CommitAndFlush => Stage::JumpToVirtual,
        Stage::JumpToVirtual => Stage::Entered,
        Stage::Entered => Stage::Entered,
        Stage::Halted => Stage::Halted,
    }
}

/// One step of the boot sequence.
pub fn next_stage(s: Stage, path: Option<Granularity>) -> (r: Stage)
    ensures
        r == spec_next_stage(s, path),
        s == Stage::Halted ==> r == Stage::Halted,
        s == Stage::Entered ==> r == Stage::Entered,
{
    match s {
        Stage::ComputeAddresses => Stage::SelectAlignmentPath,
        Stage::SelectAlignmentPath => match path {
            Some(Granularity::Large) => Stage::BuildLargeLeaf,
            Some(Granularity::Small) => Stage::BuildSmallLeaf,
            None => Stage::Halted,
        },
        Stage::BuildLargeLeaf => Stage::CommitAndFlush,
        Stage::BuildSmallLeaf => Stage::CommitAndFlush,
        Stage::CommitAndFlush => Stage::JumpToVirtual,
        Stage::JumpToVirtual => Stage::Entered,
        Stage::Entered => Stage::Entered,
        Stage::Halted => Stage::Halted,
    }
}

/// The virtual entry point of the next boot stage. Nothing of that stage is part of
/// this library: control parks there, and the sequence is in its `Entered` stage.
pub fn abs_start() -> (r: Stage)
    ensures
        r == Stage::Entered,
{
    next_stage(Stage::JumpToVirtual, None)
}

/// The heap allocator's out-of-memory handler: the machine halts.
pub fn oom(_layout: Layout) -> (r: Stage)
    ensures
        r == Stage::Halted,
{
    Stage::Halted
}

/// Declares `core::alloc::Layout` so that `oom` can take the layout of the failed
/// allocation. It is carried through unread: nothing of its contents is assumed.
#[verifier::external_type_specification]
#[verifier::external_body]
pub struct ExLayout(Layout);

} // verus!
