//! The load pipeline: one parameterised path from raw image bytes to a
//! realised region, a stack-top pointer and an absolute entry pointer,
//! invoked once for the primary image and once for the self-test image.

use vstd::prelude::*;

use crate::PAGE_SIZE;
use crate::pages_for;
use crate::spec_pages_for;
use crate::elf::ElfError;
use crate::elf::ImageLayout;
use crate::elf::RelocationEntry;
use crate::elf::SegmentDescriptor;
use crate::elf::elf_size;
use crate::elf::spec_analysis_error;
use crate::elf::spec_entry_vaddr;
use crate::elf::spec_image_ok;
use crate::elf::spec_layout_of;
use crate::elf::spec_loadable_segments;
use crate::elf::spec_segs_wf;
use crate::loader::apply_relocations;
use crate::loader::lemma_apply_upto_len;
use crate::loader::lemma_layout_of_covers;
use crate::loader::lemma_place_upto_len;
use crate::loader::materialize_segments;
use crate::loader::spec_apply_relocations;
use crate::loader::spec_place_segments;
use crate::loader::spec_relocs_in_range;
use crate::region::Region;
use crate::reloc::parse_relocations;
use crate::reloc::spec_has_bad_site;
use crate::reloc::spec_rela_source;
use crate::reloc::RelaSource;
use crate::reloc::spec_relocs_upto;
use crate::reloc::spec_skipped_upto;

verus! {

/// Translates the stated entry virtual address into an absolute pointer
/// inside the realised region.
///
/// Fails with `EntryOutOfRange` exactly when the entry address leaves the
/// image span, and with `SizeOverflow` exactly when the resulting pointer
/// would leave the address space.
pub fn resolve_entry(layout: ImageLayout, entry_vaddr: u64, image_base: u64) -> (r: Result<
    u64,
    ElfError,
>)
    ensures
        match r {
            Ok(p) => {
                &&& layout.base <= entry_vaddr
                &&& entry_vaddr - layout.base < layout.total_size
                &&& p == image_base + (entry_vaddr - layout.base)
            },
            Err(e) => {
                &&& (e == ElfError::EntryOutOfRange || e == ElfError::SizeOverflow)
                &&& (e == ElfError::EntryOutOfRange <==> !(layout.base <= entry_vaddr
                    && entry_vaddr - layout.base < layout.total_size))
                &&& e == ElfError::SizeOverflow ==> image_base + (entry_vaddr - layout.base)
                    > u64::MAX
            },
        },
{
    if entry_vaddr < layout.base {
        return Err(ElfError::EntryOutOfRange);
    }
    let entry_offset: u64 = entry_vaddr - layout.base;
    if entry_offset >= layout.total_size {
        return Err(ElfError::EntryOutOfRange);
    }
    match image_base.checked_add(entry_offset) {
        Some(p) => Ok(p),
        None => Err(ElfError::SizeOverflow),
    }
}

/// The pointers carved out of one physical allocation: where the image's
/// bytes go, and the top of the stack pages reserved just below them.
#[derive(Clone, Copy, PartialEq, Eq, Structural, Debug)]
pub struct CarvedRegion {
    /// First byte of the image region, after the reserved stack pages.
    pub image_base: u64,
    /// The byte immediately preceding the image region: the initial stack
    /// pointer handed to the loaded image.
    pub stack_top: u64,
}

/// Splits an allocation that starts at `alloc_base` and reserves
/// `stack_pages` pages: the image region begins after them, and the stack
/// top is the address immediately preceding it.
///
/// Fails with `SizeOverflow` exactly when the image region's start would
/// leave the address space or would be address zero (which has no preceding
/// byte).
pub fn carve_allocation(alloc_base: u64, stack_pages: u64) -> (r: Result<CarvedRegion, ElfError>)
    ensures
        match r {
            Ok(c) => {
                &&& alloc_base + stack_pages * PAGE_SIZE <= u64::MAX
                &&& c.image_base == alloc_base + stack_pages * PAGE_SIZE
                &&& c.image_base >= 1
                &&& c.stack_top == c.image_base - 1
            },
            Err(e) => e == ElfError::SizeOverflow && (alloc_base + stack_pages * PAGE_SIZE
                > u64::MAX || alloc_base + stack_pages * PAGE_SIZE == 0),
        },
{
    let stack_bytes: u64 = match stack_pages.checked_mul(PAGE_SIZE) {
        Some(v) => v,
        None => {
            return Err(ElfError::SizeOverflow);
        },
    };
    let image_base: u64 = match alloc_base.checked_add(stack_bytes) {
        Some(v) => v,
        None => {
            return Err(ElfError::SizeOverflow);
        },
    };
    if image_base == 0 {
        return Err(ElfError::SizeOverflow);
    }
    Ok(CarvedRegion { image_base, stack_top: image_base - 1 })
}

/// Everything decided before any memory is allocated: the analysis, the
/// relocation table, and how many pages to request.
#[derive(Debug)]
pub struct LoadPlan {
    /// The loadable segments, in table order.
    pub segments: Vec<SegmentDescriptor>,
    /// Base virtual address and total span of the image.
    pub layout: ImageLayout,
    /// The header's stated entry virtual address.
    pub entry_vaddr: u64,
    /// The addend-based relocations, patch sites as region offsets.
    pub relocations: Vec<RelocationEntry>,
    /// Relocation records of unsupported kinds, counted and ignored.
    pub skipped_relocations: u64,
    /// Pages reserved for the stack, in front of the image region.
    pub stack_pages: u64,
    /// Pages to request: the image's pages plus the stack pages.
    pub total_pages: u64,
}

/// A load plan faithfully describes the image bytes `b`.
pub open spec fn spec_plan_ok(plan: LoadPlan, b: Seq<u8>, stack_pages: u64) -> bool {
    &&& spec_image_ok(b)
    &&& plan.segments@ == spec_loadable_segments(b)
    &&& plan.segments@.len() >= 1
    &&& spec_segs_wf(plan.segments@, b.len() as int)
    &&& spec_layout_of(plan.layout, plan.segments@)
    &&& 1 <= plan.layout.total_size
    &&& plan.entry_vaddr == spec_entry_vaddr(b)
    &&& match spec_rela_source(b, spec_loadable_segments(b)) {
        RelaSource::Absent => plan.relocations@ == Seq::<RelocationEntry>::empty()
            && plan.skipped_relocations == 0,
        RelaSource::Table { tab, count } => plan.relocations@ == spec_relocs_upto(
            b,
            tab,
            plan.layout.base,
            count,
        ) && plan.skipped_relocations == spec_skipped_upto(b, tab, count),
        RelaSource::Bad => false,
    }
    &&& spec_relocs_in_range(plan.relocations@, plan.layout.total_size as int)
    &&& plan.stack_pages == stack_pages
    &&& plan.total_pages == spec_pages_for(plan.layout.total_size) + stack_pages
}

/// The layout an acceptable image determines: base is the least loadable
/// virtual address, and the span reaches the greatest segment end.
pub open spec fn spec_layout_from(b: Seq<u8>) -> ImageLayout {
    ImageLayout {
        base: crate::elf::spec_min_vaddr(spec_loadable_segments(b)),
        total_size: (crate::elf::spec_max_end(spec_loadable_segments(b))
            - crate::elf::spec_min_vaddr(spec_loadable_segments(b))) as u64,
    }
}

/// Analyses the image and plans its load: header and program-header
/// analysis, relocation parsing, and the page count to request from the
/// physical allocator (`ceil(total_size / PAGE_SIZE) + stack_pages`).
///
/// Succeeds exactly on acceptable images whose relocation table is well
/// formed, whose patch sites stay inside the image span, and whose page
/// count fits the address space; the error otherwise names the first stage
/// that failed.
pub fn prepare_image(image: &[u8], stack_pages: u64) -> (r: Result<LoadPlan, ElfError>)
    ensures
        r is Ok <==> {
            &&& spec_image_ok(image@)
            &&& !(spec_rela_source(image@, spec_loadable_segments(image@)) is Bad)
            &&& !spec_has_bad_site(image@, spec_loadable_segments(image@), spec_layout_from(image@))
            &&& spec_pages_for(spec_layout_from(image@).total_size) + stack_pages <= u64::MAX
        },
        match r {
            Ok(plan) => plan.layout == spec_layout_from(image@) && spec_plan_ok(
                plan,
                image@,
                stack_pages,
            ),
            Err(e) => {
                ||| Some(e) == spec_analysis_error(image@)
                ||| (spec_image_ok(image@) && e == ElfError::MalformedRelocationTable
                    && spec_rela_source(image@, spec_loadable_segments(image@)) is Bad)
                ||| (spec_image_ok(image@) && e == ElfError::RelocationOutOfRange
                    && spec_has_bad_site(
                    image@,
                    spec_loadable_segments(image@),
                    spec_layout_from(image@),
                ))
                ||| (spec_image_ok(image@) && e == ElfError::SizeOverflow && spec_pages_for(
                    spec_layout_from(image@).total_size,
                ) + stack_pages > u64::MAX)
            },
        },
{
    let analysis = match elf_size(image) {
        Ok(a) => a,
        Err(e) => {
            return Err(e);
        },
    };
    proof {
        crate::elf::lemma_min_vaddr_properties(analysis.segments@);
        crate::elf::lemma_max_end_properties(analysis.segments@);
    }
    assert(analysis.layout == spec_layout_from(image@));
    let table = match parse_relocations(image, &analysis.segments, analysis.layout) {
        Ok(t) => t,
        Err(e) => {
            return Err(e);
        },
    };

    // Every collected patch site was checked against the image span.
    let ghost b = image@;
    proof {
        match spec_rela_source(b, analysis.segments@) {
            RelaSource::Absent => {
                assert(table.entries@.len() == 0);
            },
            RelaSource::Table { tab, count } => {
                lemma_collected_relocs_in_range(b, tab, analysis.layout, count);
            },
            RelaSource::Bad => {
                assert(false);
            },
        }
    }
    assert(spec_relocs_in_range(table.entries@, analysis.layout.total_size as int));

    let image_pages: u64 = pages_for(analysis.layout.total_size);
    let total_pages: u64 = match image_pages.checked_add(stack_pages) {
        Some(v) => v,
        None => {
            return Err(ElfError::SizeOverflow);
        },
    };
    Ok(
        LoadPlan {
            segments: analysis.segments,
            layout: analysis.layout,
            entry_vaddr: analysis.entry_vaddr,
            relocations: table.entries,
            skipped_relocations: table.skipped,
            stack_pages,
            total_pages,
        },
    )
}

/// Every relative record's patch site among the first `count` lies inside
/// the image span.
pub open spec fn spec_relocs_sites_in_range(
    b: Seq<u8>,
    tab: int,
    layout: ImageLayout,
    count: int,
) -> bool {
    forall|j: int|
        0 <= j < count && crate::reloc::spec_rela_kind(b, tab, j)
            == crate::reloc::R_KIND_RELATIVE ==> crate::reloc::spec_rela_site_ok(
            b,
            tab,
            layout,
            j,
        )
}

/// The collected entries of a table whose sites were all checked stay
/// inside a region of the image's span.
proof fn lemma_collected_relocs_in_range(b: Seq<u8>, tab: int, layout: ImageLayout, count: int)
    requires
        spec_relocs_sites_in_range(b, tab, layout, count),
    ensures
        spec_relocs_in_range(
            spec_relocs_upto(b, tab, layout.base, count),
            layout.total_size as int,
        ),
    decreases count,
{
    if count > 0 {
        lemma_collected_relocs_in_range(b, tab, layout, count - 1);
        let prev = spec_relocs_upto(b, tab, layout.base, count - 1);
        let cur = spec_relocs_upto(b, tab, layout.base, count);
        assert forall|i: int|
            0 <= i < cur.len() implies (#[trigger] cur[i]).target_offset + 8
            <= layout.total_size by {
            if i < prev.len() {
                assert(cur[i] == prev[i]);
            }
        }
    }
}

/// The realised image: the materialised bytes, where they must be copied,
/// and the two pointers the control transfer needs.
pub struct LoadedImage {
    /// The image's bytes, materialised and relocated, ready to be copied to
    /// `image_base`.
    pub region: Region,
    /// Physical address the region's bytes belong at.
    pub image_base: u64,
    /// Initial stack pointer: the byte immediately preceding the region.
    pub stack_top: u64,
    /// Absolute entry pointer inside the realised region.
    pub entry: u64,
}

/// Realises a planned image against the physical allocation that starts at
/// `alloc_base`: carves the allocation, materialises every segment into a
/// zeroed region, applies the relocations against the realised base, and
/// resolves the entry pointer.
///
/// On success the region's bytes are exactly the zero-filled span with every
/// segment copied in and every relocation applied, and
/// `entry == image_base + (entry_vaddr - base)`.
pub fn elf_load(image: &[u8], plan: &LoadPlan, alloc_base: u64) -> (r: Result<
    LoadedImage,
    ElfError,
>)
    requires
        spec_plan_ok(*plan, image@, plan.stack_pages),
        plan.layout.total_size <= usize::MAX,
    ensures
        match r {
            Ok(li) => {
                &&& li.image_base == alloc_base + plan.stack_pages * PAGE_SIZE
                &&& li.image_base >= 1
                &&& li.stack_top == li.image_base - 1
                &&& li.region@.len() == plan.layout.total_size
                &&& li.region@ == spec_apply_relocations(
                    spec_place_segments(
                        Seq::new(plan.layout.total_size as nat, |i: int| 0u8),
                        image@,
                        plan.segments@,
                        plan.layout.base as int,
                    ),
                    plan.relocations@,
                    li.image_base,
                )
                &&& plan.layout.base <= plan.entry_vaddr
                &&& plan.entry_vaddr - plan.layout.base < plan.layout.total_size
                &&& li.entry == li.image_base + (plan.entry_vaddr - plan.layout.base)
            },
            Err(e) => {
                let ib = (alloc_base + plan.stack_pages * PAGE_SIZE) as u64;
                if alloc_base + plan.stack_pages * PAGE_SIZE > u64::MAX || alloc_base
                    + plan.stack_pages * PAGE_SIZE == 0 {
                    e == ElfError::SizeOverflow
                } else if !crate::loader::spec_relocs_ok(plan.relocations@, ib) {
                    e == ElfError::RelocationOverflow
                } else if !(plan.layout.base <= plan.entry_vaddr && plan.entry_vaddr
                    - plan.layout.base < plan.layout.total_size) {
                    e == ElfError::EntryOutOfRange
                } else {
                    e == ElfError::SizeOverflow && ib + (plan.entry_vaddr - plan.layout.base)
                        > u64::MAX
                }
            },
        },
        r is Ok <==> {
            let ib = (alloc_base + plan.stack_pages * PAGE_SIZE) as u64;
            &&& 1 <= alloc_base + plan.stack_pages * PAGE_SIZE <= u64::MAX
            &&& crate::loader::spec_relocs_ok(plan.relocations@, ib)
            &&& plan.layout.base <= plan.entry_vaddr
            &&& plan.entry_vaddr - plan.layout.base < plan.layout.total_size
            &&& ib + (plan.entry_vaddr - plan.layout.base) <= u64::MAX
        },
{
    let carved = match carve_allocation(alloc_base, plan.stack_pages) {
        Ok(c) => c,
        Err(e) => {
            return Err(e);
        },
    };
    let total: usize = plan.layout.total_size as usize;
    assert(total == plan.layout.total_size);
    let mut region = Region::new_zeroed(total);
    proof {
        lemma_layout_of_covers(plan.layout, plan.segments@);
    }
    materialize_segments(image, &mut region, &plan.segments, plan.layout);
    proof {
        lemma_place_upto_len(
            Seq::new(plan.layout.total_size as nat, |i: int| 0u8),
            image@,
            plan.segments@,
            plan.layout.base as int,
            plan.segments@.len() as int,
        );
    }
    match apply_relocations(&mut region, &plan.relocations, carved.image_base) {
        Ok(_) => {},
        Err(e) => {
            return Err(e);
        },
    };
    proof {
        lemma_apply_upto_len(
            spec_place_segments(
                Seq::new(plan.layout.total_size as nat, |i: int| 0u8),
                image@,
                plan.segments@,
                plan.layout.base as int,
            ),
            plan.relocations@,
            carved.image_base,
            plan.relocations@.len() as int,
        );
    }
    let entry = match resolve_entry(plan.layout, plan.entry_vaddr, carved.image_base) {
        Ok(p) => p,
        Err(e) => {
            return Err(e);
        },
    };
    Ok(
        LoadedImage {
            region,
            image_base: carved.image_base,
            stack_top: carved.stack_top,
            entry,
        },
    )
}

} // verus!
