//! Sv39 address and page-table-entry arithmetic.
use vstd::prelude::*;

verus! {

/// Bytes in a 4 KiB page, the leaf size of the lowest table level.
pub const PAGE_SIZE: u64 = 0x1000;

/// Bytes covered by one entry of a middle-level table (2 MiB).
pub const MEGA_SIZE: u64 = 0x20_0000;

/// Bytes covered by one entry of the root table (1 GiB).
pub const GIGA_SIZE: u64 = 0x4000_0000;

/// Entries in one page table.
pub const ENTRIES: u64 = 512;

/// Sv39 physical addresses have 56 bits.
pub const PA_LIMIT: u64 = 0x100_0000_0000_0000;

/// The valid bit of an entry.
pub const PTE_V: u64 = 0x1;

/// Readable.
pub const PTE_R: u64 = 0x2;

/// Writable.
pub const PTE_W: u64 = 0x4;

/// Executable.
pub const PTE_X: u64 = 0x8;

/// The permissions of every leaf this boot stage writes: valid, read, write, execute.
pub const PTE_VRWX: u64 = 0xF;

/// Mask of the nine index bits of one level.
pub const INDEX_MASK: u64 = 0x1FF;

/// Mask of the 44-bit physical page number once shifted down to bit 0.
pub const PPN_MASK: u64 = 0xFFF_FFFF_FFFF;

/// Index into the root table: bits 38..30 of the address.
pub open spec fn spec_vpn2(addr: int) -> int {
    (addr / GIGA_SIZE as int) % 512
}

/// Index into a middle table: bits 29..21 of the address.
pub open spec fn spec_vpn1(addr: int) -> int {
    (addr / MEGA_SIZE as int) % 512
}

/// Index into a last-level table: bits 20..12 of the address.
pub open spec fn spec_vpn0(addr: int) -> int {
    (addr / PAGE_SIZE as int) % 512
}

/// The table index that `addr` selects at `level` (2 is the root).
pub open spec fn spec_vpn(addr: int, level: int) -> int {
    if level == 2 {
        spec_vpn2(addr)
    } else if level == 1 {
        spec_vpn1(addr)
    } else {
        spec_vpn0(addr)
    }
}

/// Bytes mapped by a leaf at `level`.
pub open spec fn level_size(level: int) -> int {
    if level == 2 {
        GIGA_SIZE as int
    } else if level == 1 {
        MEGA_SIZE as int
    } else {
        PAGE_SIZE as int
    }
}

/// The entry that points at page-aligned `target` with `flags` in its low ten bits:
/// the page number sits in bits 10..53.
pub open spec fn spec_pte(target: int, flags: int) -> int {
    (target / PAGE_SIZE as int) * 1024 + flags
}

/// The physical address an entry refers to.
pub open spec fn spec_pte_target(pte: u64) -> int {
    ((pte as int / 1024) % 0x1000_0000_0000) * PAGE_SIZE as int
}

/// The low ten bits of an entry: validity, permissions and the bits kept for software.
pub open spec fn spec_pte_flags(pte: u64) -> int {
    pte as int % 1024
}

pub open spec fn spec_pte_valid(pte: u64) -> bool {
    pte as int % 2 == 1
}

/// A valid entry with one of Read, Write, Execute set ends the walk.
pub open spec fn spec_pte_leaf(pte: u64) -> bool {
    spec_pte_valid(pte) && (pte as int % 16) / 2 != 0
}

/// `vpn2`: the root-table index of `addr`, from bits 38..30 alone.
pub fn vpn2(addr: u64) -> (r: u64)
    ensures
        r as int == spec_vpn2(addr as int),
{
    assert((addr >> 30u64) & 0x1FF == (addr / 0x4000_0000) % 512) by (bit_vector);
    (addr >> 30) & INDEX_MASK
}

/// `vpn1`: the middle-table index of `addr`, from bits 29..21 alone.
pub fn vpn1(addr: u64) -> (r: u64)
    ensures
        r as int == spec_vpn1(addr as int),
{
    assert((addr >> 21u64) & 0x1FF == (addr / 0x20_0000) % 512) by (bit_vector);
    (addr >> 21) & INDEX_MASK
}

/// `vpn0`: the last-level index of `addr`, from bits 20..12 alone.
pub fn vpn0(addr: u64) -> (r: u64)
    ensures
        r as int == spec_vpn0(addr as int),
{
    assert((addr >> 12u64) & 0x1FF == (addr / 0x1000) % 512) by (bit_vector);
    (addr >> 12) & INDEX_MASK
}

/// Encodes an entry as `(target >> 2) | flags`; for a page-aligned target this is
/// the page number shifted to bit 10, with the flags below it.
pub fn make_pte(target: u64, flags: u64) -> (r: u64)
    requires
        target % PAGE_SIZE == 0,
        target < PA_LIMIT,
        flags < 1024,
    ensures
        r as int == spec_pte(target as int, flags as int),
        spec_pte_target(r) == target as int,
        spec_pte_flags(r) == flags as int,
{
    assert((target >> 2u64) | flags == (target / 0x1000) * 1024 + flags) by (bit_vector)
        requires
            target % 0x1000 == 0,
            target < 0x100_0000_0000_0000,
            flags < 1024,
    ;
    let r = (target >> 2) | flags;
    proof {
        lemma_pte_fields(target as int, flags as int);
    }
    r
}

/// The physical address an entry refers to: its page number times the page size.
pub fn pte_target(pte: u64) -> (r: u64)
    ensures
        r as int == spec_pte_target(pte),
        r % PAGE_SIZE == 0,
        r < PA_LIMIT,
{
    assert(((pte >> 10u64) & 0xFFF_FFFF_FFFF) << 12u64 == ((pte / 1024) % 0x1000_0000_0000) * 0x1000)
        by (bit_vector);
    assert(((pte / 1024) % 0x1000_0000_0000) * 0x1000 < 0x100_0000_0000_0000) by (bit_vector);
    assert((((pte / 1024) % 0x1000_0000_0000) * 0x1000) % 0x1000 == 0) by (bit_vector);
    ((pte >> 10) & PPN_MASK) << 12
}

/// The low ten bits of an entry.
pub fn pte_flags(pte: u64) -> (r: u64)
    ensures
        r as int == spec_pte_flags(pte),
{
    assert(pte & 0x3FF == pte % 1024) by (bit_vector);
    pte & 0x3FF
}

pub fn pte_is_valid(pte: u64) -> (r: bool)
    ensures
        r == spec_pte_valid(pte),
{
    assert((pte & 1 == 1) == (pte % 2 == 1)) by (bit_vector);
    pte & PTE_V == 1
}

pub fn pte_is_leaf(pte: u64) -> (r: bool)
    ensures
        r == spec_pte_leaf(pte),
{
    assert((pte & 0xE != 0) == ((pte % 16) / 2 != 0)) by (bit_vector);
    assert((pte & 1 == 1) == (pte % 2 == 1)) by (bit_vector);
    pte & 1 == 1 && pte & 0xE != 0
}

/// An entry encoded from an aligned in-range target gives back that target and those flags.
pub proof fn lemma_pte_fields(target: int, flags: int)
    requires
        0 <= target < PA_LIMIT,
        target % PAGE_SIZE as int == 0,
        0 <= flags < 1024,
    ensures
        0 <= spec_pte(target, flags) < 0x4000_0000_0000_0000,
        spec_pte(target, flags) / 1024 == target / PAGE_SIZE as int,
        spec_pte(target, flags) % 1024 == flags,
        ((spec_pte(target, flags) / 1024) % 0x1000_0000_0000) * PAGE_SIZE as int == target,
        spec_pte(target, flags) % 16 == flags % 16,
        spec_pte(target, flags) % 2 == flags % 2,
{
    let q = target / 4096;
    assert(target == q * 4096) by (nonlinear_arith)
        requires
            target % 4096 == 0,
            q == target / 4096,
    ;
    assert(0 <= q < 0x1000_0000_0000) by (nonlinear_arith)
        requires
            0 <= target < 0x100_0000_0000_0000,
            q == target / 4096,
    ;
    assert((q * 1024 + flags) / 1024 == q && (q * 1024 + flags) % 1024 == flags) by (nonlinear_arith)
        requires
            0 <= flags < 1024,
            0 <= q,
    ;
    assert((q * 1024 + flags) % 16 == flags % 16 && (q * 1024 + flags) % 2 == flags % 2)
        by (nonlinear_arith)
        requires
            0 <= flags < 1024,
            0 <= q,
    ;
    assert(0 <= q * 1024 + flags < 0x4000_0000_0000_0000) by (nonlinear_arith)
        requires
            0 <= flags < 1024,
            0 <= q < 0x1000_0000_0000,
    ;
}

/// Each index depends on its own nine address bits and on nothing else: two
/// addresses give the same `vpn2`, `vpn1` or `vpn0` exactly when they agree on bits
/// 38..30, 29..21 or 20..12, whatever their other bits.
pub proof fn lemma_index_bits(a: u64, b: u64)
    ensures
        (spec_vpn2(a as int) == spec_vpn2(b as int)) == (a & 0x7F_C000_0000 == b & 0x7F_C000_0000),
        (spec_vpn1(a as int) == spec_vpn1(b as int)) == (a & 0x3FE0_0000 == b & 0x3FE0_0000),
        (spec_vpn0(a as int) == spec_vpn0(b as int)) == (a & 0x1F_F000 == b & 0x1F_F000),
        0 <= spec_vpn2(a as int) < 512,
        0 <= spec_vpn1(a as int) < 512,
        0 <= spec_vpn0(a as int) < 512,
{
    assert(((a / 0x4000_0000) % 512 == (b / 0x4000_0000) % 512) == (a & 0x7F_C000_0000 == b
        & 0x7F_C000_0000)) by (bit_vector);
    assert(((a / 0x20_0000) % 512 == (b / 0x20_0000) % 512) == (a & 0x3FE0_0000 == b
        & 0x3FE0_0000)) by (bit_vector);
    assert(((a / 0x1000) % 512 == (b / 0x1000) % 512) == (a & 0x1F_F000 == b & 0x1F_F000))
        by (bit_vector);
}

} // verus!
