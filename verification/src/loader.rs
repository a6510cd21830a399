//! Segment materialization, relocation application, entry resolution, and
//! the page-granular allocation plan.  Every address computation is checked:
//! a wrong offset cannot reach outside the region, and overflowing a pointer
//! is reported instead of wrapping.

use vstd::prelude::*;
use vstd::bytes::*;

use crate::elf::ElfError;
use crate::elf::ImageLayout;
use crate::elf::RelocationEntry;
use crate::elf::SegmentDescriptor;
use crate::elf::spec_seg_end;
use crate::elf::spec_segs_wf;
use crate::elf::spec_layout_of;
use crate::elf::lemma_min_vaddr_properties;
use crate::elf::lemma_max_end_properties;
use crate::region::Region;
use crate::region::spec_splice;

verus! {

// ---------------------------------------------------------------------------
// Materialization
// ---------------------------------------------------------------------------

/// The file-backed bytes of segment `s`.
pub open spec fn spec_seg_data(img: Seq<u8>, s: SegmentDescriptor) -> Seq<u8> {
    img.subrange(s.file_offset as int, s.file_offset + s.file_size)
}

/// The region after the first `n` segments have been copied in, each at
/// `vaddr - base`; bytes beyond a segment's file size stay as they were
/// (zero on a freshly zeroed region, realising the zero-fill tail).
pub open spec fn spec_place_upto(
    r0: Seq<u8>,
    img: Seq<u8>,
    segs: Seq<SegmentDescriptor>,
    base: int,
    n: int,
) -> Seq<u8>
    decreases n,
{
    if n <= 0 {
        r0
    } else {
        spec_splice(
            spec_place_upto(r0, img, segs, base, n - 1),
            segs[n - 1].vaddr - base,
            spec_seg_data(img, segs[n - 1]),
        )
    }
}

/// The region after all segments have been copied in.
pub open spec fn spec_place_segments(
    r0: Seq<u8>,
    img: Seq<u8>,
    segs: Seq<SegmentDescriptor>,
    base: int,
) -> Seq<u8> {
    spec_place_upto(r0, img, segs, base, segs.len() as int)
}

/// Every segment's memory span lies inside the layout's span.
pub open spec fn spec_layout_covers(layout: ImageLayout, segs: Seq<SegmentDescriptor>) -> bool {
    forall|i: int|
        0 <= i < segs.len() ==> layout.base <= (#[trigger] segs[i]).vaddr && spec_seg_end(segs[i])
            <= layout.base + layout.total_size
}

/// A layout that records exactly the segments' span covers them all.
pub proof fn lemma_layout_of_covers(layout: ImageLayout, segs: Seq<SegmentDescriptor>)
    requires
        segs.len() >= 1,
        spec_layout_of(layout, segs),
    ensures
        spec_layout_covers(layout, segs),
{
    lemma_min_vaddr_properties(segs);
    lemma_max_end_properties(segs);
}

/// Copies every segment's file-backed bytes into the region at
/// `vaddr - base`.  The region keeps its length; bytes of a segment's
/// zero-fill tail and bytes outside every segment are untouched.
pub fn materialize_segments(
    image: &[u8],
    region: &mut Region,
    segments: &Vec<SegmentDescriptor>,
    layout: ImageLayout,
)
    requires
        old(region)@.len() == layout.total_size,
        spec_segs_wf(segments@, image@.len() as int),
        spec_layout_covers(layout, segments@),
    ensures
        final(region)@ == spec_place_segments(
            old(region)@,
            image@,
            segments@,
            layout.base as int,
        ),
{
    let ghost r0 = region@;
    let ghost img = image@;
    let ghost segs = segments@;
    let ghost base = layout.base as int;
    let mut i: usize = 0;
    while i < segments.len()
        invariant
            0 <= i <= segs.len(),
            segments@ == segs,
            image@ == img,
            spec_segs_wf(segs, img.len() as int),
            spec_layout_covers(layout, segs),
            region@.len() == layout.total_size,
            region@ == spec_place_upto(r0, img, segs, base, i as int),
            base == layout.base,
        decreases segs.len() - i,
    {
        let s = segments[i];
        let img_len: usize = image.len();
        let reg_len: usize = region.len();
        assert(s == segs[i as int]);
        assert(layout.base <= s.vaddr && spec_seg_end(s) <= layout.base + layout.total_size);
        let offset64: u64 = s.vaddr - layout.base;
        assert(offset64 + s.file_size <= layout.total_size);
        let offset: usize = offset64 as usize;
        let file_offset: usize = s.file_offset as usize;
        let count: usize = s.file_size as usize;
        assert(offset == offset64 && file_offset == s.file_offset && count == s.file_size);
        region.write_bytes(offset, image, file_offset, count);
        assert(region@ == spec_place_upto(r0, img, segs, base, i as int + 1));
        i = i + 1;
    }
}

// ---------------------------------------------------------------------------
// Materialization is idempotent
// ---------------------------------------------------------------------------

/// Position `i` of the region is written by one of the first `n` segments'
/// file-backed bytes.
pub open spec fn spec_covered_by(
    segs: Seq<SegmentDescriptor>,
    base: int,
    i: int,
    n: int,
) -> bool {
    exists|j: int|
        0 <= j < n && (#[trigger] segs[j]).vaddr - base <= i < segs[j].vaddr - base
            + segs[j].file_size
}

/// Placing segments never changes the region's length.
pub proof fn lemma_place_upto_len(
    r0: Seq<u8>,
    img: Seq<u8>,
    segs: Seq<SegmentDescriptor>,
    base: int,
    n: int,
)
    ensures
        spec_place_upto(r0, img, segs, base, n).len() == r0.len(),
    decreases n,
{
    if n > 0 {
        lemma_place_upto_len(r0, img, segs, base, n - 1);
    }
}

/// Positions written by the first `n` segments get the same bytes whatever
/// the region held before; positions not written keep what they held.
pub proof fn lemma_place_agree(
    r1: Seq<u8>,
    r2: Seq<u8>,
    img: Seq<u8>,
    segs: Seq<SegmentDescriptor>,
    base: int,
    n: int,
)
    requires
        r1.len() == r2.len(),
        0 <= n <= segs.len(),
        spec_segs_wf(segs, img.len() as int),
    ensures
        forall|i: int|
            0 <= i < r1.len() && spec_covered_by(segs, base, i, n) ==> spec_place_upto(
                r1,
                img,
                segs,
                base,
                n,
            )[i] == spec_place_upto(r2, img, segs, base, n)[i],
        forall|i: int|
            0 <= i < r1.len() && !spec_covered_by(segs, base, i, n) ==> spec_place_upto(
                r1,
                img,
                segs,
                base,
                n,
            )[i] == r1[i] && spec_place_upto(r2, img, segs, base, n)[i] == r2[i],
    decreases n,
{
    if n > 0 {
        lemma_place_agree(r1, r2, img, segs, base, n - 1);
        lemma_place_upto_len(r1, img, segs, base, n - 1);
        lemma_place_upto_len(r2, img, segs, base, n - 1);
        let p1 = spec_place_upto(r1, img, segs, base, n - 1);
        let p2 = spec_place_upto(r2, img, segs, base, n - 1);
        let s = segs[n - 1];
        let off = s.vaddr - base;
        let data = spec_seg_data(img, s);
        assert(data.len() == s.file_size) by {
            assert(s.file_offset + s.file_size <= img.len());
        }
        assert forall|i: int|
            0 <= i < r1.len() && spec_covered_by(segs, base, i, n) implies spec_place_upto(
            r1,
            img,
            segs,
            base,
            n,
        )[i] == spec_place_upto(r2, img, segs, base, n)[i] by {
            if !(off <= i < off + data.len()) {
                assert(spec_covered_by(segs, base, i, n - 1)) by {
                    let j = choose|j: int|
                        0 <= j < n && (#[trigger] segs[j]).vaddr - base <= i < segs[j].vaddr - base
                            + segs[j].file_size;
                    assert(j < n - 1);
                }
            }
        }
        assert forall|i: int|
            0 <= i < r1.len() && !spec_covered_by(segs, base, i, n) implies spec_place_upto(
            r1,
            img,
            segs,
            base,
            n,
        )[i] == r1[i] && spec_place_upto(r2, img, segs, base, n)[i] == r2[i] by {
            assert(!spec_covered_by(segs, base, i, n - 1));
            assert(!(off <= i < off + data.len()));
        }
    }
}

/// Law: materialization is idempotent.  Running the segment materializer a
/// second time over an already-materialised region reproduces exactly the
/// same bytes.
pub proof fn lemma_materialize_idempotent(
    r0: Seq<u8>,
    img: Seq<u8>,
    segs: Seq<SegmentDescriptor>,
    base: int,
)
    requires
        spec_segs_wf(segs, img.len() as int),
    ensures
        spec_place_segments(spec_place_segments(r0, img, segs, base), img, segs, base)
            == spec_place_segments(r0, img, segs, base),
{
    let p = spec_place_segments(r0, img, segs, base);
    let n = segs.len() as int;
    lemma_place_upto_len(r0, img, segs, base, n);
    lemma_place_upto_len(p, img, segs, base, n);
    lemma_place_agree(p, r0, img, segs, base, n);
    assert forall|i: int| 0 <= i < p.len() implies spec_place_segments(p, img, segs, base)[i]
        == p[i] by {
        if spec_covered_by(segs, base, i, n) {
            assert(spec_place_upto(p, img, segs, base, n)[i] == spec_place_upto(
                r0,
                img,
                segs,
                base,
                n,
            )[i]);
        } else {
            assert(spec_place_upto(p, img, segs, base, n)[i] == p[i]);
        }
    }
    assert(spec_place_segments(p, img, segs, base) =~= p);
}

// ---------------------------------------------------------------------------
// Relocation application
// ---------------------------------------------------------------------------

/// `image_base + addend` stays inside the address space.
pub open spec fn spec_reloc_value_ok(image_base: u64, addend: i64) -> bool {
    0 <= image_base + addend <= u64::MAX
}

/// The absolute pointer a relocation realises: `image_base + addend`.
pub open spec fn spec_reloc_value(image_base: u64, addend: i64) -> u64
    recommends
        spec_reloc_value_ok(image_base, addend),
{
    (image_base + addend) as u64
}

/// Every relocation's realised value stays inside the address space.
pub open spec fn spec_relocs_ok(relocs: Seq<RelocationEntry>, image_base: u64) -> bool {
    forall|i: int|
        0 <= i < relocs.len() ==> spec_reloc_value_ok(image_base, (#[trigger] relocs[i]).addend)
}

/// Every relocation's eight-byte patch site lies inside a region of `size`
/// bytes.
pub open spec fn spec_relocs_in_range(relocs: Seq<RelocationEntry>, size: int) -> bool {
    forall|i: int| 0 <= i < relocs.len() ==> (#[trigger] relocs[i]).target_offset + 8 <= size
}

/// The region after the first `n` relocations have been applied, each
/// overwriting eight bytes with the little-endian realised value.
pub open spec fn spec_apply_upto(
    r0: Seq<u8>,
    relocs: Seq<RelocationEntry>,
    image_base: u64,
    n: int,
) -> Seq<u8>
    decreases n,
{
    if n <= 0 {
        r0
    } else {
        spec_splice(
            spec_apply_upto(r0, relocs, image_base, n - 1),
            relocs[n - 1].target_offset as int,
            spec_u64_to_le_bytes(spec_reloc_value(image_base, relocs[n - 1].addend)),
        )
    }
}

/// The region after all relocations have been applied.
pub open spec fn spec_apply_relocations(
    r0: Seq<u8>,
    relocs: Seq<RelocationEntry>,
    image_base: u64,
) -> Seq<u8> {
    spec_apply_upto(r0, relocs, image_base, relocs.len() as int)
}

/// Applies every relocation: the eight bytes at each patch site receive the
/// little-endian value `image_base + addend`.
///
/// Fails with `RelocationOverflow`, leaving the region untouched, exactly
/// when some realised value would leave the address space.
pub fn apply_relocations(
    region: &mut Region,
    relocs: &Vec<RelocationEntry>,
    image_base: u64,
) -> (r: Result<(), ElfError>)
    requires
        spec_relocs_in_range(relocs@, old(region)@.len() as int),
    ensures
        r is Ok <==> spec_relocs_ok(relocs@, image_base),
        match r {
            Ok(_) => final(region)@ == spec_apply_relocations(old(region)@, relocs@, image_base),
            Err(e) => e == ElfError::RelocationOverflow && final(region)@ == old(region)@,
        },
{
    // Check every realised value first, so a failure leaves the region as it
    // was.
    let mut k: usize = 0;
    while k < relocs.len()
        invariant
            0 <= k <= relocs@.len(),
            forall|i: int|
                0 <= i < k ==> spec_reloc_value_ok(image_base, (#[trigger] relocs@[i]).addend),
        decreases relocs@.len() - k,
    {
        if image_base.checked_add_signed(relocs[k].addend).is_none() {
            assert(!spec_reloc_value_ok(image_base, relocs@[k as int].addend));
            return Err(ElfError::RelocationOverflow);
        }
        k = k + 1;
    }
    assert(spec_relocs_ok(relocs@, image_base));

    let ghost r0 = region@;
    let mut i: usize = 0;
    while i < relocs.len()
        invariant
            0 <= i <= relocs@.len(),
            spec_relocs_in_range(relocs@, region@.len() as int),
            spec_relocs_ok(relocs@, image_base),
            region@.len() == r0.len(),
            region@ == spec_apply_upto(r0, relocs@, image_base, i as int),
        decreases relocs@.len() - i,
    {
        let e = relocs[i];
        assert(spec_reloc_value_ok(image_base, e.addend));
        let value: u64 = match image_base.checked_add_signed(e.addend) {
            Some(v) => v,
            None => {
                assert(false);
                return Err(ElfError::RelocationOverflow);
            },
        };
        assert(value == spec_reloc_value(image_base, e.addend));
        let bytes = u64_to_le_bytes(value);
        proof {
            lemma_auto_spec_u64_to_from_le_bytes();
        }
        let reg_len: usize = region.len();
        assert(e.target_offset + 8 <= reg_len);
        let off: usize = e.target_offset as usize;
        assert(off == e.target_offset);
        region.write_bytes(off, bytes.as_slice(), 0, 8);
        assert(bytes@.subrange(0, 8) =~= bytes@);
        assert(region@ == spec_apply_upto(r0, relocs@, image_base, i as int + 1));
        i = i + 1;
    }
    Ok(())
}

// ---------------------------------------------------------------------------
// Relocation round trip
// ---------------------------------------------------------------------------

/// Applying relocations never changes the region's length.
pub proof fn lemma_apply_upto_len(
    r0: Seq<u8>,
    relocs: Seq<RelocationEntry>,
    image_base: u64,
    n: int,
)
    ensures
        spec_apply_upto(r0, relocs, image_base, n).len() == r0.len(),
    decreases n,
{
    if n > 0 {
        lemma_apply_upto_len(r0, relocs, image_base, n - 1);
    }
}

/// After the first `n > k` relocations, the eight bytes at relocation `k`'s
/// patch site hold its realised value, provided no later relocation among
/// them overlaps that site.
proof fn lemma_apply_window(
    r0: Seq<u8>,
    relocs: Seq<RelocationEntry>,
    image_base: u64,
    k: int,
    n: int,
)
    requires
        spec_relocs_in_range(relocs, r0.len() as int),
        spec_relocs_ok(relocs, image_base),
        0 <= k < n <= relocs.len(),
        forall|j: int|
            k < j < n ==> (#[trigger] relocs[j]).target_offset + 8 <= relocs[k].target_offset
                || relocs[k].target_offset + 8 <= relocs[j].target_offset,
    ensures
        spec_apply_upto(r0, relocs, image_base, n).subrange(
            relocs[k].target_offset as int,
            relocs[k].target_offset + 8,
        ) == spec_u64_to_le_bytes(spec_reloc_value(image_base, relocs[k].addend)),
    decreases n,
{
    lemma_auto_spec_u64_to_from_le_bytes();
    let off = relocs[k].target_offset as int;
    let data = spec_u64_to_le_bytes(spec_reloc_value(image_base, relocs[k].addend));
    lemma_apply_upto_len(r0, relocs, image_base, n - 1);
    lemma_apply_upto_len(r0, relocs, image_base, n);
    if n == k + 1 {
        let prev = spec_apply_upto(r0, relocs, image_base, n - 1);
        assert(spec_apply_upto(r0, relocs, image_base, n) == spec_splice(prev, off, data));
        assert(spec_apply_upto(r0, relocs, image_base, n).subrange(off, off + 8) =~= data);
    } else {
        lemma_apply_window(r0, relocs, image_base, k, n - 1);
        let prev = spec_apply_upto(r0, relocs, image_base, n - 1);
        let last_off = relocs[n - 1].target_offset as int;
        let last_data = spec_u64_to_le_bytes(spec_reloc_value(image_base, relocs[n - 1].addend));
        assert(spec_apply_upto(r0, relocs, image_base, n) == spec_splice(
            prev,
            last_off,
            last_data,
        ));
        assert(last_off + 8 <= off || off + 8 <= last_off);
        assert(spec_apply_upto(r0, relocs, image_base, n).subrange(off, off + 8) =~= prev.subrange(
            off,
            off + 8,
        ));
    }
}

/// Law: the relocation round trip.  After applying the relocations, reading
/// the eight bytes at entry `k`'s patch site as a little-endian value yields
/// exactly `image_base + addend`, provided no later relocation overwrites
/// that site.
pub proof fn lemma_relocation_round_trip(
    r0: Seq<u8>,
    relocs: Seq<RelocationEntry>,
    image_base: u64,
    k: int,
)
    requires
        spec_relocs_in_range(relocs, r0.len() as int),
        spec_relocs_ok(relocs, image_base),
        0 <= k < relocs.len(),
        forall|j: int|
            k < j < relocs.len() ==> (#[trigger] relocs[j]).target_offset + 8
                <= relocs[k].target_offset || relocs[k].target_offset + 8
                <= relocs[j].target_offset,
    ensures
        spec_u64_from_le_bytes(
            spec_apply_relocations(r0, relocs, image_base).subrange(
                relocs[k].target_offset as int,
                relocs[k].target_offset + 8,
            ),
        ) == image_base + relocs[k].addend,
{
    lemma_apply_window(r0, relocs, image_base, k, relocs.len() as int);
    lemma_auto_spec_u64_to_from_le_bytes();
}

} // verus!
