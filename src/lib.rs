//! Page-table construction for an Sv39 boot trampoline: address index
//! derivation, entry encoding, alignment-path selection, the building of the
//! identity and relocation windows, and the value committed to `satp`.
//!
//! Two policies are fixed here. Every table index, the relocation window's root
//! index included, is derived from the window's own address bits; no root index
//! is hardwired (a kernel linked at `0xFFFF_FFFF_8000_0000` gets root index 510
//! that way). And a pair of load addresses whose two windows would share a root
//! entry is refused (`BootError::WindowCollision`) rather than letting the second
//! window overwrite the first.

pub mod boot;
pub mod sv39;
pub mod tables;
pub mod walk;
