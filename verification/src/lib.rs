//! A verified ELF-image loading and control-handoff pipeline for a
//! firmware-resident bootloader.
//!
//! The library analyses an executable image's program headers, plans a
//! page-granular physical allocation, materialises loadable segments into a
//! bounds-checked byte region, applies addend-based absolute relocations,
//! resolves the entry point, gates the irreversible hand-off on a self-test,
//! and drives the boot-service-exit negotiation as a state machine.  All
//! firmware calls (file reads, page allocation, the exit call itself, the
//! final jump) live outside the library and exchange plain values with it.

use vstd::prelude::*;

pub mod elf;
pub mod handoff;
pub mod loader;
pub mod pipeline;
pub mod region;
pub mod reloc;

verus! {

/// Size in bytes of one firmware memory page.
pub const PAGE_SIZE: u64 = 4096;

/// Number of whole pages needed to hold `len` bytes: `ceil(len / PAGE_SIZE)`.
pub open spec fn spec_pages_for(len: u64) -> int {
    (len + PAGE_SIZE - 1) / (PAGE_SIZE as int)
}

/// Page count for an image of `len` bytes, rounding any partial page up.
pub fn pages_for(len: u64) -> (r: u64)
    ensures
        r == spec_pages_for(len),
{
    let whole: u64 = len / PAGE_SIZE;
    let rem: u64 = len % PAGE_SIZE;
    if rem == 0 {
        assert(whole == spec_pages_for(len)) by (nonlinear_arith)
            requires
                whole == len / PAGE_SIZE,
                len % PAGE_SIZE == 0,
                PAGE_SIZE == 4096,
        ;
        whole
    } else {
        assert(whole + 1 == spec_pages_for(len) && whole < u64::MAX) by (nonlinear_arith)
            requires
                whole == len / PAGE_SIZE,
                rem == len % PAGE_SIZE,
                rem != 0,
                PAGE_SIZE == 4096,
        ;
        whole + 1
    }
}

} // verus!
