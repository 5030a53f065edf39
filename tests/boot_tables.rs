use sv39_boot::boot::{
    abs_start, boot, boot_pages, build_boot_tables, choose_path, next_stage, oom, satp_value,
    select_path, BootError, PathSupport, Stage,
};
use sv39_boot::sv39::{
    make_pte, pte_flags, pte_is_leaf, pte_is_valid, pte_target, vpn0, vpn1, vpn2, GIGA_SIZE,
    MEGA_SIZE, PAGE_SIZE, PTE_R, PTE_V, PTE_VRWX, PTE_W, PTE_X,
};
use sv39_boot::tables::{level_bytes, vpn, Granularity, PageTables};

const SCRATCH: u64 = 0x8040_0000;

#[test]
fn index_derivation_uses_own_bits_only() {
    let a: u64 = 0xFFFF_FFFF_8020_3000;
    assert_eq!(vpn2(a), 510);
    assert_eq!(vpn1(a), 1);
    assert_eq!(vpn0(a), 3);
    // Changing bits outside 38..12 leaves every index unchanged.
    let b = (a & 0x7F_FFFF_F000) | 0xFFF;
    assert_eq!(vpn2(b), vpn2(a));
    assert_eq!(vpn1(b), vpn1(a));
    assert_eq!(vpn0(b), vpn0(a));
    // Changing one bit of a field changes that index alone.
    let c = a ^ (1 << 30);
    assert_ne!(vpn2(c), vpn2(a));
    assert_eq!(vpn1(c), vpn1(a));
    assert_eq!(vpn0(c), vpn0(a));
    let d = a ^ (1 << 21);
    assert_eq!(vpn2(d), vpn2(a));
    assert_ne!(vpn1(d), vpn1(a));
    let e = a ^ (1 << 12);
    assert_eq!(vpn1(e), vpn1(a));
    assert_ne!(vpn0(e), vpn0(a));
    assert_eq!(vpn(a, 2), 510);
    assert_eq!(vpn(a, 1), 1);
    assert_eq!(vpn(a, 0), 3);
    assert_eq!(vpn2(0x8020_0000), 2);
}

#[test]
fn pte_encoding_round_trips() {
    let e = make_pte(0x8020_0000, PTE_VRWX);
    assert_eq!(e, 0x2008_000F);
    assert_eq!(e, ((0x8020_0000u64 >> 12) << 10) | 0xF);
    assert_eq!(pte_target(e), 0x8020_0000);
    assert_eq!(pte_flags(e), 0xF);
    assert!(pte_is_valid(e));
    assert!(pte_is_leaf(e));
    let p = make_pte(SCRATCH + PAGE_SIZE, PTE_V);
    assert!(pte_is_valid(p));
    assert!(!pte_is_leaf(p));
    assert_eq!(pte_target(p), SCRATCH + PAGE_SIZE);
    assert!(!pte_is_valid(0));
    assert_eq!(level_bytes(2), GIGA_SIZE);
    assert_eq!(level_bytes(1), MEGA_SIZE);
    assert_eq!(level_bytes(0), PAGE_SIZE);
    assert_eq!(PTE_VRWX, PTE_V | PTE_R | PTE_W | PTE_X);
}

#[test]
fn satp_selects_sv39_and_root_page() {
    assert_eq!(satp_value(SCRATCH), 0x8000_0000_0008_0400);
    assert_eq!(satp_value(0), 8u64 << 60);
}

#[test]
fn scenario_large_leaf_high_half() {
    let paddr: u64 = 0x8020_0000;
    let vaddr: u64 = 0xFFFF_FFFF_8020_0000;
    assert_eq!(select_path(paddr, vaddr, PathSupport::LargeOnly), Some(Granularity::Large));
    let h = match boot(SCRATCH, paddr, vaddr, PathSupport::LargeOnly) {
        Ok(h) => h,
        Err(e) => panic!("boot failed: {:?}", e),
    };
    let t = &h.tables;
    assert_eq!(t.page_count(), 3);
    assert_eq!(h.free_offset, 3 * PAGE_SIZE);
    assert_eq!(h.satp, (8u64 << 60) | (SCRATCH >> 12));
    // Root entry 510 points at the relocation window's middle table.
    let root = t.entry(0, 510);
    assert!(pte_is_valid(root) && !pte_is_leaf(root));
    assert_eq!(pte_target(root), SCRATCH + PAGE_SIZE);
    // Which holds a 2 MiB leaf for the physical base at the vaddr's index.
    let leaf = t.entry(1, 1);
    assert_eq!(pte_target(leaf), paddr);
    assert_eq!(pte_flags(leaf), PTE_VRWX);
    assert_eq!(t.lookup(vaddr), Some((leaf, 1)));
    // A second, independent root chain maps the identity window.
    let ident_root = t.entry(0, 2);
    assert_eq!(pte_target(ident_root), SCRATCH + 2 * PAGE_SIZE);
    assert_eq!(t.entry(2, 1), make_pte(paddr, PTE_VRWX));
    assert_eq!(t.lookup(paddr), Some((make_pte(paddr, PTE_VRWX), 1)));
    assert_eq!(t.translate(vaddr), Some(paddr));
    assert_eq!(t.translate(paddr), Some(paddr));
    // Every other root entry stays empty.
    for i in 0..512u64 {
        if i != 510 && i != 2 {
            assert_eq!(t.entry(0, i), 0);
        }
    }
}

#[test]
fn scenario_unsupported_alignment_halts() {
    let paddr: u64 = 0x8020_1000;
    let vaddr: u64 = 0xFFFF_FFFF_8020_0000;
    let path = select_path(paddr, vaddr, PathSupport::LargeOnly);
    assert_eq!(path, None);
    assert_eq!(choose_path(paddr, vaddr, PathSupport::LargeOnly), Err(BootError::UnsupportedAlignment));
    assert!(matches!(
        boot(SCRATCH, paddr, vaddr, PathSupport::LargeOnly),
        Err(BootError::UnsupportedAlignment)
    ));
    // The execution trace enters the halt state and never leaves it.
    let mut s = next_stage(Stage::ComputeAddresses, path);
    assert_eq!(s, Stage::SelectAlignmentPath);
    s = next_stage(s, path);
    assert_eq!(s, Stage::Halted);
    for _ in 0..100 {
        s = next_stage(s, Some(Granularity::Large));
        assert_eq!(s, Stage::Halted);
    }
}

#[test]
fn alignment_boundary() {
    let vaddr: u64 = 0xFFFF_FFFF_8000_0000;
    let edge: u64 = 0x8020_0000;
    for support in [PathSupport::LargeOnly, PathSupport::LargeAndSmall] {
        assert_eq!(select_path(edge, vaddr, support), Some(Granularity::Large));
        assert_eq!(select_path(edge - 1, vaddr, support), None);
    }
    assert_eq!(select_path(edge - PAGE_SIZE, vaddr, PathSupport::LargeAndSmall), Some(Granularity::Small));
    assert_eq!(select_path(edge - PAGE_SIZE, vaddr, PathSupport::LargeOnly), None);
    // The virtual address must be aligned too.
    assert_eq!(select_path(edge, vaddr + PAGE_SIZE, PathSupport::LargeOnly), None);
    assert_eq!(select_path(edge, vaddr + PAGE_SIZE, PathSupport::LargeAndSmall), Some(Granularity::Small));
    assert_eq!(select_path(edge, vaddr + 1, PathSupport::LargeAndSmall), None);
}

#[test]
fn small_leaf_path_walks() {
    let paddr: u64 = 0x8020_1000;
    let vaddr: u64 = 0xFFFF_FFFF_8000_0000;
    let h = match boot(SCRATCH, paddr, vaddr, PathSupport::LargeAndSmall) {
        Ok(h) => h,
        Err(e) => panic!("boot failed: {:?}", e),
    };
    let t = &h.tables;
    assert_eq!(t.page_count(), 5);
    assert_eq!(h.free_offset, 5 * PAGE_SIZE);
    assert_eq!(boot_pages(Granularity::Small), 5);
    let leaf = make_pte(paddr, PTE_VRWX);
    assert_eq!(t.lookup(vaddr), Some((leaf, 0)));
    assert_eq!(t.lookup(paddr), Some((leaf, 0)));
    assert_eq!(pte_target(leaf), paddr);
    assert_eq!(pte_flags(leaf), PTE_VRWX);
    // The relocation window is one full 4 KiB leaf table: 2 MiB.
    assert_eq!(t.translate(vaddr + 0x1F_FFFF), Some(paddr + 0x1F_FFFF));
    assert_eq!(t.translate(vaddr + 0x20_0000), None);
    // The identity window is the one page at paddr.
    assert_eq!(t.translate(paddr + 0xFFF), Some(paddr + 0xFFF));
    assert_eq!(t.translate(paddr + 0x1000), None);
    assert_eq!(t.translate(paddr - 1), None);
}

#[test]
fn round_trip_every_byte_offset_sampled() {
    let paddr: u64 = 0x8020_0000;
    let vaddr: u64 = 0xFFFF_FFFF_8020_0000;
    let h = match boot(SCRATCH, paddr, vaddr, PathSupport::LargeAndSmall) {
        Ok(h) => h,
        Err(e) => panic!("boot failed: {:?}", e),
    };
    let t = &h.tables;
    // The window runs from vaddr to the end of its middle table: 511 leaves.
    let size = 511 * MEGA_SIZE;
    let mut off: u64 = 0;
    while off < size {
        assert_eq!(t.translate(vaddr + off), Some(paddr + off));
        off += 0x1_2345;
    }
    for off in [0, 1, 0xFFF, 0x1000, MEGA_SIZE - 1, MEGA_SIZE, size - 1] {
        assert_eq!(t.translate(vaddr + off), Some(paddr + off));
    }
    assert_eq!(t.translate(vaddr + size), None);
    assert_eq!(t.translate(vaddr - 1), None);
    for off in [0, 1, MEGA_SIZE - 1] {
        assert_eq!(t.translate(paddr + off), Some(paddr + off));
    }
}

#[test]
fn one_gib_aligned_relocation_fills_the_table() {
    let paddr: u64 = 0x8000_0000;
    let vaddr: u64 = 0xFFFF_FFFF_C000_0000;
    let t = build_boot_tables(SCRATCH, paddr, vaddr, Granularity::Large);
    for i in 0..512u64 {
        assert_eq!(t.entry(1, i), make_pte(paddr + i * MEGA_SIZE, PTE_VRWX));
    }
    assert_eq!(t.translate(vaddr + (GIGA_SIZE - 1)), Some(paddr + GIGA_SIZE - 1));
    assert_eq!(t.entry(0, 511), make_pte(SCRATCH + PAGE_SIZE, PTE_V));
}

#[test]
fn windows_sharing_a_root_entry_are_refused() {
    // Both addresses lie in the second GiB: one root entry would serve both windows.
    let paddr: u64 = 0x4020_0000;
    let vaddr: u64 = 0x4000_0000;
    assert_eq!(choose_path(paddr, vaddr, PathSupport::LargeAndSmall), Err(BootError::WindowCollision));
    assert!(matches!(
        boot(SCRATCH, paddr, vaddr, PathSupport::LargeAndSmall),
        Err(BootError::WindowCollision)
    ));
    // An identity-linked image collides too.
    assert_eq!(choose_path(paddr, paddr, PathSupport::LargeOnly), Err(BootError::WindowCollision));
    let mut s = next_stage(Stage::SelectAlignmentPath, None);
    assert_eq!(s, Stage::Halted);
    s = next_stage(s, None);
    assert_eq!(s, Stage::Halted);
}

#[test]
fn build_window_stops_at_required_size() {
    let mut t = PageTables::new(SCRATCH, 3);
    // Three and a half 2 MiB leaves' worth: four leaves.
    t.build_window(0xFFFF_FFFF_8000_0000, 0x8000_0000, 3 * MEGA_SIZE + 1, Granularity::Large, 1, 0);
    for i in 0..4u64 {
        assert_eq!(t.entry(1, i), make_pte(0x8000_0000 + i * MEGA_SIZE, PTE_VRWX));
    }
    assert_eq!(t.entry(1, 4), 0);
    assert_eq!(t.entry(0, 510), make_pte(SCRATCH + PAGE_SIZE, PTE_V));
    assert_eq!(t.translate(0xFFFF_FFFF_8000_0000 + 4 * MEGA_SIZE - 1), Some(0x8000_0000 + 4 * MEGA_SIZE - 1));
    assert_eq!(t.translate(0xFFFF_FFFF_8000_0000 + 4 * MEGA_SIZE), None);
}

#[test]
fn build_window_stops_at_table_capacity() {
    let mut t = PageTables::new(SCRATCH, 3);
    // Starting at index 510, only two entries are left in the middle table.
    let vaddr: u64 = 0xFFFF_FFFF_8000_0000 + 510 * MEGA_SIZE;
    t.build_window(vaddr, 0x8000_0000, GIGA_SIZE, Granularity::Large, 1, 0);
    assert_eq!(t.entry(1, 510), make_pte(0x8000_0000, PTE_VRWX));
    assert_eq!(t.entry(1, 511), make_pte(0x8000_0000 + MEGA_SIZE, PTE_VRWX));
    assert_eq!(t.entry(1, 0), 0);
    assert_eq!(t.entry(2, 0), 0);
}

#[test]
fn later_window_overwrites_shared_entry() {
    let mut t = PageTables::new(SCRATCH, 3);
    t.build_window(0x4000_0000, 0x4000_0000, MEGA_SIZE, Granularity::Large, 1, 0);
    t.build_window(0x4020_0000, 0x8000_0000, MEGA_SIZE, Granularity::Large, 2, 0);
    assert_eq!(t.entry(0, 1), make_pte(SCRATCH + 2 * PAGE_SIZE, PTE_V));
    // The first window's chain is lost from the root.
    assert_eq!(t.translate(0x4000_0000), None);
    assert_eq!(t.translate(0x4020_0000), Some(0x8000_0000));
}

#[test]
fn page_at_and_walk_edges() {
    let t = PageTables::new(SCRATCH, 2);
    assert_eq!(t.page_at(SCRATCH), Some(0));
    assert_eq!(t.page_at(SCRATCH + PAGE_SIZE), Some(1));
    assert_eq!(t.page_at(SCRATCH + 2 * PAGE_SIZE), None);
    assert_eq!(t.page_at(SCRATCH + 8), None);
    assert_eq!(t.page_at(SCRATCH - PAGE_SIZE), None);
    assert_eq!(t.lookup(0), None);
    assert_eq!(t.translate(0xFFFF_FFFF_8000_0000), None);
}

#[test]
fn stages_run_in_order() {
    let mut s = Stage::ComputeAddresses;
    let path = Some(Granularity::Small);
    let expected = [
        Stage::SelectAlignmentPath,
        Stage::BuildSmallLeaf,
        Stage::CommitAndFlush,
        Stage::JumpToVirtual,
        Stage::Entered,
        Stage::Entered,
    ];
    for e in expected {
        s = next_stage(s, path);
        assert_eq!(s, e);
    }
    assert_eq!(next_stage(Stage::SelectAlignmentPath, Some(Granularity::Large)), Stage::BuildLargeLeaf);
    assert_eq!(abs_start(), Stage::Entered);
    assert_eq!(oom(std::alloc::Layout::new::<u64>()), Stage::Halted);
}

#[test]
fn leaf_sizes() {
    assert_eq!(sv39_boot::tables::leaf_size_bytes(Granularity::Large), 0x20_0000);
    assert_eq!(sv39_boot::tables::leaf_size_bytes(Granularity::Small), 0x1000);
    assert_eq!(boot_pages(Granularity::Large), 3);
}
