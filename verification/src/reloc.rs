//! Parsing the dynamic-relocation-with-addend table: locating the dynamic
//! segment, reading its tag/value entries, translating the table's virtual
//! address into a file offset through the loadable segments, and collecting
//! the addend-based absolute relocations.  Relocation records of any other
//! kind are counted and ignored, never applied.

use vstd::prelude::*;

use crate::elf::ElfError;
use crate::elf::ImageLayout;
use crate::elf::PH_TYPE_DYNAMIC;
use crate::elf::RelocationEntry;
use crate::elf::SegmentDescriptor;
use crate::elf::read_le64;
use crate::elf::read_ph_segment;
use crate::elf::read_ph_type;
use crate::elf::spec_header_ok;
use crate::elf::spec_le16;
use crate::elf::spec_le64;
use crate::elf::spec_ph_segment;
use crate::elf::spec_ph_table_ok;
use crate::elf::spec_ph_type;
use crate::elf::spec_phnum;
use crate::elf::spec_segs_wf;

verus! {

/// Dynamic-table tag of the relocation-with-addend table's address.
pub const DT_RELA: u64 = 7;

/// Dynamic-table tag of the relocation-with-addend table's byte size.
pub const DT_RELASZ: u64 = 8;

/// Dynamic-table tag of one relocation-with-addend record's byte size.
pub const DT_RELAENT: u64 = 9;

/// Size in bytes of one dynamic-table entry.
pub const DYN_ENTRY_SIZE: u64 = 16;

/// Size in bytes of one relocation-with-addend record.
pub const RELA_ENTRY_SIZE: u64 = 24;

/// Relocation kind whose realised value is the region base plus the addend.
pub const R_KIND_RELATIVE: u64 = 8;

// ---------------------------------------------------------------------------
// Locating the table
// ---------------------------------------------------------------------------

/// Index of the first dynamic program header among the first `n`, if any.
pub open spec fn spec_first_dynamic_upto(b: Seq<u8>, n: int) -> Option<int>
    decreases n,
{
    if n <= 0 {
        None
    } else if spec_first_dynamic_upto(b, n - 1) is Some {
        spec_first_dynamic_upto(b, n - 1)
    } else if spec_ph_type(b, n - 1) == PH_TYPE_DYNAMIC {
        Some(n - 1)
    } else {
        None
    }
}

/// Index of the first dynamic program header of the image, if any.
pub open spec fn spec_first_dynamic(b: Seq<u8>) -> Option<int> {
    spec_first_dynamic_upto(b, spec_phnum(b) as int)
}

/// Value of the first entry tagged `tag` among entries `k..n` of the dynamic
/// table at `off`, scanning in order and stopping at a null tag.
pub open spec fn spec_dyn_lookup(b: Seq<u8>, off: int, n: int, tag: u64, k: int) -> Option<u64>
    decreases n - k,
{
    if k < 0 || k >= n {
        None
    } else if spec_le64(b, off + 16 * k) == 0 {
        None
    } else if spec_le64(b, off + 16 * k) == tag {
        Some(spec_le64(b, off + 16 * k + 8))
    } else {
        spec_dyn_lookup(b, off, n, tag, k + 1)
    }
}

/// Index of the first loadable segment whose file-backed bytes contain the
/// whole virtual range `[va, va + size)`, scanning from `k`.
pub open spec fn spec_seg_hosting(
    segs: Seq<SegmentDescriptor>,
    va: int,
    size: int,
    k: int,
) -> Option<int>
    decreases segs.len() - k,
{
    if k < 0 || k >= segs.len() {
        None
    } else if segs[k].vaddr <= va && va + size <= segs[k].vaddr + segs[k].file_size {
        Some(k)
    } else {
        spec_seg_hosting(segs, va, size, k + 1)
    }
}

/// A range past the address space fits in no well-formed segment.
proof fn lemma_hosting_none_when_overflow(
    segs: Seq<SegmentDescriptor>,
    va: int,
    size: int,
    k: int,
    img_len: int,
)
    requires
        va + size > u64::MAX,
        spec_segs_wf(segs, img_len),
        0 <= k,
    ensures
        spec_seg_hosting(segs, va, size, k) is None,
    decreases segs.len() - k,
{
    if k < segs.len() {
        assert(segs[k].vaddr + segs[k].file_size <= segs[k].vaddr + segs[k].mem_size);
        lemma_hosting_none_when_overflow(segs, va, size, k + 1, img_len);
    }
}

/// Where the relocation table lives, or that the image has none, or that its
/// description is inconsistent.
pub enum RelaSource {
    /// No dynamic segment, or a dynamic table without a relocation table.
    Absent,
    /// A relocation table of `count` records at file offset `tab`.
    Table { tab: int, count: int },
    /// The dynamic segment or the table's description is malformed.
    Bad,
}

/// The image's relocation-table source, decided exactly as the parser does:
/// find the first dynamic header; check its file range; look up the table's
/// address, size and record size; and translate the address through the
/// loadable segments.
pub open spec fn spec_rela_source(b: Seq<u8>, segs: Seq<SegmentDescriptor>) -> RelaSource {
    match spec_first_dynamic(b) {
        None => RelaSource::Absent,
        Some(d) => {
            let doff = spec_ph_segment(b, d).file_offset;
            let dsz = spec_ph_segment(b, d).file_size;
            if doff + dsz > b.len() {
                RelaSource::Bad
            } else {
                let n = dsz as int / 16;
                match spec_dyn_lookup(b, doff as int, n, DT_RELA, 0) {
                    None => RelaSource::Absent,
                    Some(va) => match spec_dyn_lookup(b, doff as int, n, DT_RELASZ, 0) {
                        None => RelaSource::Bad,
                        Some(sz) => {
                            let ent_ok = match spec_dyn_lookup(b, doff as int, n, DT_RELAENT, 0) {
                                None => true,
                                Some(e) => e == RELA_ENTRY_SIZE,
                            };
                            if !ent_ok || sz % RELA_ENTRY_SIZE != 0 {
                                RelaSource::Bad
                            } else {
                                match spec_seg_hosting(segs, va as int, sz as int, 0) {
                                    None => RelaSource::Bad,
                                    Some(k) => RelaSource::Table {
                                        tab: va - segs[k].vaddr + segs[k].file_offset,
                                        count: sz as int / 24,
                                    },
                                }
                            }
                        },
                    },
                }
            }
        },
    }
}

// ---------------------------------------------------------------------------
// The records
// ---------------------------------------------------------------------------

/// Patch-site virtual address of record `j` of the table at `tab`.
pub open spec fn spec_rela_offset(b: Seq<u8>, tab: int, j: int) -> u64 {
    spec_le64(b, tab + 24 * j)
}

/// Kind-and-symbol word of record `j`.
pub open spec fn spec_rela_info(b: Seq<u8>, tab: int, j: int) -> u64 {
    spec_le64(b, tab + 24 * j + 8)
}

/// Raw addend bits of record `j`.
pub open spec fn spec_rela_addend_raw(b: Seq<u8>, tab: int, j: int) -> u64 {
    spec_le64(b, tab + 24 * j + 16)
}

/// Relocation kind of record `j` (the low half of its info word).
pub open spec fn spec_rela_kind(b: Seq<u8>, tab: int, j: int) -> u64 {
    spec_rela_info(b, tab, j) & 0xFFFFFFFF
}

/// The two's-complement reading of a 64-bit word.
pub open spec fn spec_as_signed(x: u64) -> int {
    if x < 0x8000000000000000 {
        x as int
    } else {
        x - 0x10000000000000000
    }
}

/// Record `j`'s patch site lies fully inside the image span.
pub open spec fn spec_rela_site_ok(b: Seq<u8>, tab: int, layout: ImageLayout, j: int) -> bool {
    &&& layout.base <= spec_rela_offset(b, tab, j)
    &&& spec_rela_offset(b, tab, j) - layout.base + 8 <= layout.total_size
}

/// Some addend-based record's patch site leaves the image span.
pub open spec fn spec_has_bad_site(b: Seq<u8>, segs: Seq<SegmentDescriptor>, layout: ImageLayout) -> bool {
    match spec_rela_source(b, segs) {
        RelaSource::Table { tab, count } => exists|j: int|
            0 <= j < count && spec_rela_kind(b, tab, j) == R_KIND_RELATIVE && !spec_rela_site_ok(
                b,
                tab,
                layout,
                j,
            ),
        _ => false,
    }
}

/// The addend-based relocations among the first `j` records, in table order,
/// each with its patch site translated to a region offset.
pub open spec fn spec_relocs_upto(b: Seq<u8>, tab: int, base: u64, j: int) -> Seq<RelocationEntry>
    decreases j,
{
    if j <= 0 {
        Seq::empty()
    } else {
        let prev = spec_relocs_upto(b, tab, base, j - 1);
        if spec_rela_kind(b, tab, j - 1) == R_KIND_RELATIVE {
            prev.push(
                RelocationEntry {
                    target_offset: (spec_rela_offset(b, tab, j - 1) - base) as u64,
                    addend: spec_as_signed(spec_rela_addend_raw(b, tab, j - 1)) as i64,
                },
            )
        } else {
            prev
        }
    }
}

/// How many of the first `j` records hold a kind the loader does not apply.
pub open spec fn spec_skipped_upto(b: Seq<u8>, tab: int, j: int) -> int
    decreases j,
{
    if j <= 0 {
        0
    } else {
        spec_skipped_upto(b, tab, j - 1) + if spec_rela_kind(b, tab, j - 1) != R_KIND_RELATIVE {
            1int
        } else {
            0int
        }
    }
}

/// Converts a raw 64-bit word to its two's-complement signed reading.
pub fn u64_as_signed(x: u64) -> (r: i64)
    ensures
        r as int == spec_as_signed(x),
{
    if x < 0x8000000000000000 {
        x as i64
    } else {
        let y: u64 = u64::MAX - x;
        assert(y <= 0x7FFFFFFFFFFFFFFF);
        -(y as i64) - 1
    }
}

/// The parsed relocation table: the addend-based records, and how many
/// records of other kinds were deliberately ignored.
#[derive(Debug)]
pub struct RelocationTable {
    /// Addend-based relocations, in table order.
    pub entries: Vec<RelocationEntry>,
    /// Records of unsupported kinds, counted as a diagnostic and skipped.
    pub skipped: u64,
}

// ---------------------------------------------------------------------------
// Executable parsing
// ---------------------------------------------------------------------------

/// An out-of-range addend-based record at index `j` shows the table has a
/// bad patch site.
proof fn lemma_bad_site_witness(
    b: Seq<u8>,
    segs: Seq<SegmentDescriptor>,
    layout: ImageLayout,
    tab: int,
    count: int,
    j: int,
)
    requires
        spec_rela_source(b, segs) == (RelaSource::Table { tab, count }),
        0 <= j < count,
        spec_rela_kind(b, tab, j) == R_KIND_RELATIVE,
        !spec_rela_site_ok(b, tab, layout, j),
    ensures
        spec_has_bad_site(b, segs, layout),
{
    assert(spec_rela_source(b, segs)->Table_tab == tab);
    assert(spec_rela_source(b, segs)->Table_count == count);
}

/// Looks up the first entry tagged `tag` of the dynamic table, stopping at a
/// null tag.
fn dyn_lookup(image: &[u8], doff: u64, n: u64, tag: u64) -> (r: Option<u64>)
    requires
        doff + 16 * n <= image@.len(),
    ensures
        r == spec_dyn_lookup(image@, doff as int, n as int, tag, 0),
{
    let img_len: usize = image.len();
    let mut k: u64 = 0;
    while k < n
        invariant
            0 <= k <= n,
            doff + 16 * n <= image@.len(),
            img_len == image@.len(),
            spec_dyn_lookup(image@, doff as int, n as int, tag, 0) == spec_dyn_lookup(
                image@,
                doff as int,
                n as int,
                tag,
                k as int,
            ),
        decreases n - k,
    {
        let off64: u64 = doff + 16 * k;
        assert(off64 + 16 <= img_len);
        let off: usize = off64 as usize;
        let t = read_le64(image, off);
        if t == 0 {
            return None;
        }
        if t == tag {
            let v = read_le64(image, off + 8);
            return Some(v);
        }
        k = k + 1;
    }
    None
}

/// Parses the image's dynamic-relocation-with-addend table.
///
/// Succeeds with an empty table when the image has no dynamic segment or no
/// relocation table; with the collected addend-based records otherwise.
/// Fails with `MalformedRelocationTable` exactly when the table's
/// description is inconsistent, and with `RelocationOutOfRange` exactly when
/// an addend-based record's patch site leaves the image span.
#[verifier::rlimit(60)]
pub fn parse_relocations(
    image: &[u8],
    segments: &Vec<SegmentDescriptor>,
    layout: ImageLayout,
) -> (r: Result<RelocationTable, ElfError>)
    requires
        spec_header_ok(image@),
        spec_ph_table_ok(image@),
        spec_segs_wf(segments@, image@.len() as int),
    ensures
        r is Ok ==> !(spec_rela_source(image@, segments@) is Bad),
        r matches Ok(t) ==> (spec_rela_source(image@, segments@) is Absent ==> t.entries@
            == Seq::<RelocationEntry>::empty() && t.skipped == 0),
        r matches Ok(t) ==> (spec_rela_source(image@, segments@) matches RelaSource::Table {
            tab,
            count,
        } ==> {
            &&& t.entries@ == spec_relocs_upto(image@, tab, layout.base, count)
            &&& t.skipped == spec_skipped_upto(image@, tab, count)
            &&& forall|j: int|
                0 <= j < count && spec_rela_kind(image@, tab, j) == R_KIND_RELATIVE
                    ==> spec_rela_site_ok(image@, tab, layout, j)
        }),
        r matches Err(e) ==> (e == ElfError::MalformedRelocationTable && spec_rela_source(
            image@,
            segments@,
        ) is Bad) || (e == ElfError::RelocationOutOfRange && spec_has_bad_site(
            image@,
            segments@,
            layout,
        )),
{
    let ghost b = image@;
    let img_len: usize = image.len();
    let phnum = crate::elf::read_le16(image, 56);

    // Find the first dynamic program header.
    let mut dyn_found: bool = false;
    let mut dyn_idx: usize = 0;
    let mut i: usize = 0;
    while i < phnum as usize
        invariant
            0 <= i <= phnum as int,
            image@ == b,
            spec_header_ok(b),
            spec_ph_table_ok(b),
            phnum == spec_phnum(b),
            !dyn_found ==> spec_first_dynamic_upto(b, i as int) is None,
            dyn_found ==> spec_first_dynamic_upto(b, i as int) == Some(dyn_idx as int),
            dyn_found ==> dyn_idx < phnum,
        decreases phnum as int - i,
    {
        if !dyn_found {
            let t = read_ph_type(image, i);
            if t == PH_TYPE_DYNAMIC {
                dyn_found = true;
                dyn_idx = i;
            }
        }
        i = i + 1;
    }
    assert(dyn_found ==> spec_first_dynamic(b) == Some(dyn_idx as int));
    assert(!dyn_found ==> spec_first_dynamic(b) is None);

    if !dyn_found {
        return Ok(RelocationTable { entries: Vec::new(), skipped: 0 });
    }

    let dseg = read_ph_segment(image, dyn_idx);
    let doff: u64 = dseg.file_offset;
    let dsz: u64 = dseg.file_size;
    let dend: u64 = match doff.checked_add(dsz) {
        Some(e) => e,
        None => {
            return Err(ElfError::MalformedRelocationTable);
        },
    };
    if dend > img_len as u64 {
        return Err(ElfError::MalformedRelocationTable);
    }
    let n_dyn: u64 = dsz / 16;
    assert(doff + 16 * n_dyn <= b.len());

    let rela_va: u64 = match dyn_lookup(image, doff, n_dyn, DT_RELA) {
        Some(v) => v,
        None => {
            return Ok(RelocationTable { entries: Vec::new(), skipped: 0 });
        },
    };
    let relasz: u64 = match dyn_lookup(image, doff, n_dyn, DT_RELASZ) {
        Some(v) => v,
        None => {
            return Err(ElfError::MalformedRelocationTable);
        },
    };
    match dyn_lookup(image, doff, n_dyn, DT_RELAENT) {
        Some(e) => {
            if e != RELA_ENTRY_SIZE {
                return Err(ElfError::MalformedRelocationTable);
            }
        },
        None => {},
    }
    if relasz % RELA_ENTRY_SIZE != 0 {
        return Err(ElfError::MalformedRelocationTable);
    }

    // Translate the table's virtual address into a file offset through the
    // first loadable segment hosting its whole range.
    let rela_end: u64 = match rela_va.checked_add(relasz) {
        Some(e) => e,
        None => {
            proof {
                lemma_hosting_none_when_overflow(
                    segments@,
                    rela_va as int,
                    relasz as int,
                    0,
                    b.len() as int,
                );
            }
            return Err(ElfError::MalformedRelocationTable);
        },
    };
    let mut host_found: bool = false;
    let mut host_idx: usize = 0;
    let mut k: usize = 0;
    while k < segments.len() && !host_found
        invariant
            0 <= k <= segments@.len(),
            image@ == b,
            rela_end == rela_va + relasz,
            spec_segs_wf(segments@, b.len() as int),
            !host_found ==> spec_seg_hosting(segments@, rela_va as int, relasz as int, 0)
                == spec_seg_hosting(segments@, rela_va as int, relasz as int, k as int),
            host_found ==> {
                &&& spec_seg_hosting(segments@, rela_va as int, relasz as int, 0) == Some(
                    host_idx as int,
                )
                &&& host_idx < segments@.len()
                &&& segments@[host_idx as int].vaddr <= rela_va
                &&& rela_va + relasz <= segments@[host_idx as int].vaddr + segments@[
                    host_idx as int
                ].file_size
            },
        decreases segments@.len() - k,
    {
        let s = segments[k];
        assert(s.vaddr + s.file_size <= s.vaddr + s.mem_size);
        let seg_file_end: u64 = s.vaddr + s.file_size;
        if s.vaddr <= rela_va && rela_end <= seg_file_end {
            host_found = true;
            host_idx = k;
        }
        k = k + 1;
    }
    if !host_found {
        assert(spec_seg_hosting(segments@, rela_va as int, relasz as int, 0) is None);
        return Err(ElfError::MalformedRelocationTable);
    }
    let host = segments[host_idx];
    assert(host.file_offset + host.file_size <= b.len());
    assert(rela_va - host.vaddr + relasz <= host.file_size);
    let tab: u64 = rela_va - host.vaddr + host.file_offset;
    assert(tab + relasz <= host.file_offset + host.file_size <= b.len());
    let count: u64 = relasz / RELA_ENTRY_SIZE;
    assert(24 * count == relasz);
    let ghost gtab = tab as int;
    let ghost gcount = count as int;
    assert(spec_rela_source(b, segments@) == (RelaSource::Table { tab: gtab, count: gcount }));

    // Collect the addend-based records; count and skip the others.
    let mut entries: Vec<RelocationEntry> = Vec::new();
    let mut skipped: u64 = 0;
    let mut j: u64 = 0;
    while j < count
        invariant
            0 <= j <= count,
            image@ == b,
            img_len == b.len(),
            tab + 24 * count <= b.len(),
            entries@ == spec_relocs_upto(b, gtab, layout.base, j as int),
            skipped == spec_skipped_upto(b, gtab, j as int),
            skipped <= j,
            gtab == tab,
            gcount == count,
            spec_rela_source(b, segments@) == (RelaSource::Table { tab: gtab, count: gcount }),
            forall|jj: int|
                0 <= jj < j && spec_rela_kind(b, gtab, jj) == R_KIND_RELATIVE
                    ==> spec_rela_site_ok(b, gtab, layout, jj),
        decreases count - j,
    {
        let off64: u64 = tab + 24 * j;
        assert(off64 + 24 <= img_len);
        let off: usize = off64 as usize;
        let r_offset = read_le64(image, off);
        let r_info = read_le64(image, off + 8);
        let r_addend_raw = read_le64(image, off + 16);
        let kind: u64 = r_info & 0xFFFFFFFF;
        assert(kind == spec_rela_kind(b, gtab, j as int));
        if kind == R_KIND_RELATIVE {
            if r_offset < layout.base {
                proof {
                    lemma_bad_site_witness(b, segments@, layout, gtab, gcount, j as int);
                }
                return Err(ElfError::RelocationOutOfRange);
            }
            let t_off: u64 = r_offset - layout.base;
            let site_end = match t_off.checked_add(8) {
                Some(e) => e,
                None => {
                    proof {
                        lemma_bad_site_witness(b, segments@, layout, gtab, gcount, j as int);
                    }
                    return Err(ElfError::RelocationOutOfRange);
                },
            };
            if site_end > layout.total_size {
                proof {
                    lemma_bad_site_witness(b, segments@, layout, gtab, gcount, j as int);
                }
                return Err(ElfError::RelocationOutOfRange);
            }
            let addend = u64_as_signed(r_addend_raw);
            entries.push(RelocationEntry { target_offset: t_off, addend });
            assert(entries@ == spec_relocs_upto(b, gtab, layout.base, j as int + 1));
        } else {
            skipped = skipped + 1;
        }
        j = j + 1;
    }
    Ok(RelocationTable { entries, skipped })
}

} // verus!
