//! Tests of the analysis and loading pipeline on hand-built images.

use lotus_loader::elf::{elf_size, ElfError, ImageLayout, RelocationEntry, SegmentDescriptor};
use lotus_loader::elf::compute_layout;
use lotus_loader::loader::{apply_relocations, materialize_segments};
use lotus_loader::pipeline::{carve_allocation, elf_load, prepare_image, resolve_entry};
use lotus_loader::region::Region;
use lotus_loader::reloc::parse_relocations;
use lotus_loader::pages_for;

fn put_u16(b: &mut Vec<u8>, off: usize, v: u16) {
    b[off..off + 2].copy_from_slice(&v.to_le_bytes());
}

fn put_u32(b: &mut Vec<u8>, off: usize, v: u32) {
    b[off..off + 4].copy_from_slice(&v.to_le_bytes());
}

fn put_u64(b: &mut Vec<u8>, off: usize, v: u64) {
    b[off..off + 8].copy_from_slice(&v.to_le_bytes());
}

#[derive(Clone, Copy)]
struct Ph {
    ptype: u32,
    offset: u64,
    vaddr: u64,
    filesz: u64,
    memsz: u64,
}

/// Builds a 64-bit little-endian image: header, program headers at offset
/// 64, and a body of `total_len` bytes in all.
fn build_image(entry: u64, phs: &[Ph], total_len: usize) -> Vec<u8> {
    let mut b = vec![0u8; total_len];
    b[0] = 0x7f;
    b[1] = 0x45;
    b[2] = 0x4c;
    b[3] = 0x46;
    b[4] = 2;
    b[5] = 1;
    put_u64(&mut b, 24, entry);
    put_u64(&mut b, 32, 64);
    put_u16(&mut b, 54, 56);
    put_u16(&mut b, 56, phs.len() as u16);
    for (i, ph) in phs.iter().enumerate() {
        let o = 64 + 56 * i;
        put_u32(&mut b, o, ph.ptype);
        put_u64(&mut b, o + 8, ph.offset);
        put_u64(&mut b, o + 16, ph.vaddr);
        put_u64(&mut b, o + 32, ph.filesz);
        put_u64(&mut b, o + 40, ph.memsz);
    }
    b
}

fn load_ph(offset: u64, vaddr: u64, filesz: u64, memsz: u64) -> Ph {
    Ph { ptype: 1, offset, vaddr, filesz, memsz }
}

#[test]
fn analyzer_accepts_single_segment() {
    let img = build_image(0x1040, &[load_ph(0x78, 0x1000, 0x500, 0x2000)], 0x600);
    let a = elf_size(&img).expect("well-formed image");
    assert_eq!(a.layout.base, 0x1000);
    assert_eq!(a.layout.total_size, 0x2000);
    assert_eq!(a.entry_vaddr, 0x1040);
    assert_eq!(a.segments.len(), 1);
    assert_eq!(a.segments[0].file_offset, 0x78);
}

#[test]
fn layout_ignores_table_order() {
    let phs_fwd = [
        load_ph(0x100, 0x2000, 0x10, 0x1000),
        load_ph(0x120, 0x1000, 0x10, 0x800),
    ];
    let phs_rev = [phs_fwd[1], phs_fwd[0]];
    let img1 = build_image(0x1000, &phs_fwd, 0x200);
    let img2 = build_image(0x1000, &phs_rev, 0x200);
    let a1 = elf_size(&img1).expect("forward order");
    let a2 = elf_size(&img2).expect("reverse order");
    assert_eq!(a1.layout, a2.layout);
    assert_eq!(a1.layout.base, 0x1000);
    assert_eq!(a1.layout.total_size, 0x2000);
}

#[test]
fn analyzer_rejects_short_buffer() {
    let img = vec![0u8; 10];
    assert_eq!(elf_size(&img).unwrap_err(), ElfError::MalformedHeader);
}

#[test]
fn analyzer_rejects_bad_magic() {
    let mut img = build_image(0, &[load_ph(0x78, 0x1000, 0x10, 0x10)], 0x100);
    img[1] = 0x00;
    assert_eq!(elf_size(&img).unwrap_err(), ElfError::MalformedHeader);
}

#[test]
fn analyzer_rejects_table_out_of_bounds() {
    let mut img = build_image(0, &[load_ph(0x78, 0x1000, 0x10, 0x10)], 0x100);
    put_u64(&mut img, 32, 0x1000);
    assert_eq!(elf_size(&img).unwrap_err(), ElfError::ProgramTableOutOfBounds);
}

#[test]
fn analyzer_rejects_no_loadable_segment() {
    let img = build_image(0, &[Ph { ptype: 2, offset: 0x78, vaddr: 0, filesz: 0x10, memsz: 0x10 }], 0x100);
    assert_eq!(elf_size(&img).unwrap_err(), ElfError::NoLoadableSegment);
}

#[test]
fn analyzer_rejects_empty_table() {
    let img = build_image(0, &[], 0x100);
    assert_eq!(elf_size(&img).unwrap_err(), ElfError::NoLoadableSegment);
}

#[test]
fn analyzer_rejects_segment_past_file_end() {
    let img = build_image(0, &[load_ph(0x78, 0x1000, 0x1000, 0x1000)], 0x100);
    assert_eq!(elf_size(&img).unwrap_err(), ElfError::MalformedSegment);
}

#[test]
fn analyzer_rejects_file_size_above_memory_size() {
    let img = build_image(0, &[load_ph(0x78, 0x1000, 0x20, 0x10)], 0x100);
    assert_eq!(elf_size(&img).unwrap_err(), ElfError::MalformedSegment);
}

#[test]
fn compute_layout_rejects_empty() {
    let segs: Vec<SegmentDescriptor> = Vec::new();
    assert_eq!(compute_layout(&segs).unwrap_err(), ElfError::NoLoadableSegment);
}

#[test]
fn pages_for_rounds_up() {
    assert_eq!(pages_for(0), 0);
    assert_eq!(pages_for(1), 1);
    assert_eq!(pages_for(4096), 1);
    assert_eq!(pages_for(4097), 2);
    assert_eq!(pages_for(0x2000), 2);
}

#[test]
fn materialization_is_idempotent() {
    let mut img = build_image(0x1000, &[load_ph(0x78, 0x1000, 0x20, 0x100)], 0x100);
    for i in 0..0x20usize {
        img[0x78 + i] = (i as u8) ^ 0x5a;
    }
    let a = elf_size(&img).expect("image");
    let mut region = Region::new_zeroed(a.layout.total_size as usize);
    materialize_segments(&img, &mut region, &a.segments, a.layout);
    let once = region.bytes().clone();
    materialize_segments(&img, &mut region, &a.segments, a.layout);
    assert_eq!(&once, region.bytes());
    assert_eq!(once[0], 0x5a);
    assert_eq!(once[0x1f], 0x1f ^ 0x5a);
    assert_eq!(once[0x20], 0);
}

#[test]
fn relocation_round_trip_reads_back_base_plus_addend() {
    let mut region = Region::new_zeroed(0x40);
    let relocs = vec![
        RelocationEntry { target_offset: 0x08, addend: 0x123 },
        RelocationEntry { target_offset: 0x20, addend: -0x10 },
    ];
    apply_relocations(&mut region, &relocs, 0x10000).expect("in range");
    assert_eq!(region.read_u64_le(0x08), 0x10123);
    assert_eq!(region.read_u64_le(0x20), 0xFFF0);
    assert_eq!(region.read_u64_le(0x10), 0);
}

#[test]
fn relocation_overflow_leaves_region_untouched() {
    let mut region = Region::new_zeroed(0x10);
    let relocs = vec![RelocationEntry { target_offset: 0, addend: -0x100 }];
    let e = apply_relocations(&mut region, &relocs, 0x10).unwrap_err();
    assert_eq!(e, ElfError::RelocationOverflow);
    for i in 0..0x10usize {
        assert_eq!(region.byte_at(i), 0);
    }
}

/// An image with one loadable segment hosting a dynamic-relocation table of
/// two records: one addend-based, one of an unsupported kind.
fn build_dynamic_image() -> Vec<u8> {
    let phs = [
        load_ph(0x200, 0x1000, 0x100, 0x2000),
        Ph { ptype: 2, offset: 0x100, vaddr: 0, filesz: 0x40, memsz: 0x40 },
    ];
    let mut img = build_image(0x1000, &phs, 0x300);
    // Dynamic table at file offset 0x100: address, size, record size, null.
    put_u64(&mut img, 0x100, 7); // table address tag
    put_u64(&mut img, 0x108, 0x1010);
    put_u64(&mut img, 0x110, 8); // table size tag
    put_u64(&mut img, 0x118, 48);
    put_u64(&mut img, 0x120, 9); // record size tag
    put_u64(&mut img, 0x128, 24);
    put_u64(&mut img, 0x130, 0); // null tag
    // The table itself lives at virtual address 0x1010 inside the loadable
    // segment, hence at file offset 0x210.
    put_u64(&mut img, 0x210, 0x1100); // patch site virtual address
    put_u64(&mut img, 0x218, 8); // addend-based relative kind
    put_u64(&mut img, 0x220, 0x123); // addend
    put_u64(&mut img, 0x228, 0x1200); // second record: unsupported kind
    put_u64(&mut img, 0x230, 1);
    put_u64(&mut img, 0x238, 0x77);
    img
}

#[test]
fn parser_collects_relative_records_and_skips_others() {
    let img = build_dynamic_image();
    let a = elf_size(&img).expect("image");
    let t = parse_relocations(&img, &a.segments, a.layout).expect("table");
    assert_eq!(t.entries.len(), 1);
    assert_eq!(t.entries[0].target_offset, 0x100);
    assert_eq!(t.entries[0].addend, 0x123);
    assert_eq!(t.skipped, 1);
}

#[test]
fn parser_accepts_image_without_dynamic_segment() {
    let img = build_image(0x1000, &[load_ph(0x78, 0x1000, 0x10, 0x10)], 0x100);
    let a = elf_size(&img).expect("image");
    let t = parse_relocations(&img, &a.segments, a.layout).expect("empty table");
    assert_eq!(t.entries.len(), 0);
    assert_eq!(t.skipped, 0);
}

#[test]
fn parser_rejects_missing_table_size() {
    let mut img = build_dynamic_image();
    put_u64(&mut img, 0x110, 0x99); // overwrite the size tag with a stranger
    let a = elf_size(&img).expect("image");
    let e = parse_relocations(&img, &a.segments, a.layout).unwrap_err();
    assert_eq!(e, ElfError::MalformedRelocationTable);
}

#[test]
fn parser_rejects_patch_site_below_base() {
    let mut img = build_dynamic_image();
    put_u64(&mut img, 0x210, 0x10); // patch site far below the image base
    let a = elf_size(&img).expect("image");
    let e = parse_relocations(&img, &a.segments, a.layout).unwrap_err();
    assert_eq!(e, ElfError::RelocationOutOfRange);
}

#[test]
fn resolve_entry_checks_span() {
    let layout = ImageLayout { base: 0x1000, total_size: 0x2000 };
    assert_eq!(resolve_entry(layout, 0x1040, 0x100000).unwrap(), 0x100040);
    assert_eq!(resolve_entry(layout, 0x900, 0x100000).unwrap_err(), ElfError::EntryOutOfRange);
    assert_eq!(resolve_entry(layout, 0x3000, 0x100000).unwrap_err(), ElfError::EntryOutOfRange);
    assert_eq!(resolve_entry(layout, 0x1040, u64::MAX).unwrap_err(), ElfError::SizeOverflow);
}

#[test]
fn carve_allocation_reserves_stack_pages() {
    let c = carve_allocation(0x100000, 4).unwrap();
    assert_eq!(c.image_base, 0x104000);
    assert_eq!(c.stack_top, 0x103FFF);
    let c0 = carve_allocation(0x100000, 0).unwrap();
    assert_eq!(c0.image_base, 0x100000);
    assert_eq!(c0.stack_top, 0xFFFFF);
    assert_eq!(carve_allocation(0, 0).unwrap_err(), ElfError::SizeOverflow);
    assert_eq!(carve_allocation(u64::MAX, 1).unwrap_err(), ElfError::SizeOverflow);
}

#[test]
fn end_to_end_single_segment() {
    let mut img = build_image(0x1040, &[load_ph(0x78, 0x1000, 0x500, 0x2000)], 0x600);
    for i in 0..0x500usize {
        img[0x78 + i] = (i % 251) as u8;
    }
    let plan = prepare_image(&img, 4).expect("plan");
    assert_eq!(plan.layout.total_size, 0x2000);
    assert_eq!(plan.total_pages, 2 + 4);
    let li = elf_load(&img, &plan, 0x100000).expect("load");
    assert_eq!(li.image_base, 0x104000);
    assert_eq!(li.stack_top, 0x103FFF);
    assert_eq!(li.entry, li.image_base + 0x40);
    assert_eq!(li.region.bytes().len(), 0x2000);
    for i in 0..0x500usize {
        assert_eq!(li.region.byte_at(i), (i % 251) as u8);
    }
    for i in 0x500..0x2000usize {
        assert_eq!(li.region.byte_at(i), 0);
    }
}

#[test]
fn end_to_end_applies_relocations() {
    let img = build_dynamic_image();
    let plan = prepare_image(&img, 0).expect("plan");
    assert_eq!(plan.skipped_relocations, 1);
    let li = elf_load(&img, &plan, 0x10000).expect("load");
    assert_eq!(li.image_base, 0x10000);
    assert_eq!(li.region.read_u64_le(0x100), 0x10000 + 0x123);
    assert_eq!(li.entry, 0x10000);
}

#[test]
fn prepare_image_fails_before_allocation_without_loadable_segment() {
    let img = build_image(0, &[Ph { ptype: 2, offset: 0x78, vaddr: 0, filesz: 0x10, memsz: 0x10 }], 0x100);
    assert_eq!(prepare_image(&img, 4).unwrap_err(), ElfError::NoLoadableSegment);
}

#[test]
fn prepare_image_rejects_page_count_overflow() {
    let img = build_image(0x1000, &[load_ph(0x78, 0x1000, 0x10, 0x10)], 0x100);
    assert_eq!(prepare_image(&img, u64::MAX).unwrap_err(), ElfError::SizeOverflow);
}

#[test]
fn elf_load_rejects_entry_outside_span() {
    let img = build_image(0x9000, &[load_ph(0x78, 0x1000, 0x10, 0x10)], 0x100);
    let plan = prepare_image(&img, 0).expect("plan");
    let e = match elf_load(&img, &plan, 0x10000) {
        Ok(_) => panic!("entry outside the span must be rejected"),
        Err(e) => e,
    };
    assert_eq!(e, ElfError::EntryOutOfRange);
}

#[test]
fn parser_rejects_odd_record_size() {
    let mut img = build_dynamic_image();
    put_u64(&mut img, 0x128, 16); // record size contradicts the format
    let a = elf_size(&img).expect("image");
    let e = parse_relocations(&img, &a.segments, a.layout).unwrap_err();
    assert_eq!(e, ElfError::MalformedRelocationTable);
}
