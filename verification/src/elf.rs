//! Image analysis: parsing the executable header and program-header table,
//! selecting loadable segments, and computing the image layout (base virtual
//! address and total span).

use vstd::prelude::*;
use vstd::bytes::*;
use vstd::slice::*;

verus! {

broadcast use vstd::seq_lib::group_seq_properties;

/// Everything that can go wrong while analysing or loading an image.
#[derive(Clone, Copy, PartialEq, Eq, Structural, Debug)]
pub enum ElfError {
    /// The byte buffer is too short for a header, or the magic, class or
    /// data-encoding bytes are wrong.
    MalformedHeader,
    /// The program-header table (as described by the header) does not fit in
    /// the byte buffer, or its entries are too small.
    ProgramTableOutOfBounds,
    /// No program header is marked loadable.
    NoLoadableSegment,
    /// A loadable segment is empty, claims more file bytes than memory bytes,
    /// reaches past the end of the file, or overflows the address space.
    MalformedSegment,
    /// The dynamic-relocation table is malformed: its descriptor values are
    /// inconsistent or it lies outside every loadable segment's file bytes.
    MalformedRelocationTable,
    /// A relocation patch site does not lie fully inside the image span.
    RelocationOutOfRange,
    /// Realising a relocation value overflowed the address space.
    RelocationOverflow,
    /// The stated entry point does not lie inside the image span.
    EntryOutOfRange,
    /// A computed size or address does not fit in the address space.
    SizeOverflow,
}

/// One loadable segment: where its bytes sit in the file and where they must
/// be realised in memory.
#[derive(Clone, Copy, PartialEq, Eq, Structural, Debug)]
pub struct SegmentDescriptor {
    /// Virtual address at which the segment must be realised.
    pub vaddr: u64,
    /// Offset of the segment's backing bytes within the file.
    pub file_offset: u64,
    /// Number of bytes backed by the file.
    pub file_size: u64,
    /// Number of bytes the segment occupies in memory (the tail beyond
    /// `file_size` is zero-filled).
    pub mem_size: u64,
}

/// One relocation patch site: the eight bytes at `target_offset` within the
/// realised region receive the little-endian value `image base + addend`.
#[derive(Clone, Copy, PartialEq, Eq, Structural, Debug)]
pub struct RelocationEntry {
    /// Offset of the patch site within the realised region.
    pub target_offset: u64,
    /// Signed value added to the region's realised base address.
    pub addend: i64,
}

/// The image's span in virtual-address terms: the lowest loadable virtual
/// address and the distance to one past the highest loadable byte.
#[derive(Clone, Copy, PartialEq, Eq, Structural, Debug)]
pub struct ImageLayout {
    /// Lowest virtual address among loadable segments.
    pub base: u64,
    /// `(highest vaddr + mem_size) - base`; always at least 1.
    pub total_size: u64,
}

// ---------------------------------------------------------------------------
// Little-endian field readers
// ---------------------------------------------------------------------------

/// The 16-bit little-endian value at byte offset `off` of `b`.
pub open spec fn spec_le16(b: Seq<u8>, off: int) -> u16 {
    spec_u16_from_le_bytes(b.subrange(off, off + 2))
}

/// The 32-bit little-endian value at byte offset `off` of `b`.
pub open spec fn spec_le32(b: Seq<u8>, off: int) -> u32 {
    spec_u32_from_le_bytes(b.subrange(off, off + 4))
}

/// The 64-bit little-endian value at byte offset `off` of `b`.
pub open spec fn spec_le64(b: Seq<u8>, off: int) -> u64 {
    spec_u64_from_le_bytes(b.subrange(off, off + 8))
}

/// Reads the 16-bit little-endian value at `off`.
pub fn read_le16(b: &[u8], off: usize) -> (r: u16)
    requires
        off + 2 <= b@.len(),
    ensures
        r == spec_le16(b@, off as int),
{
    let n: usize = b.len();
    u16_from_le_bytes(slice_subrange(b, off, off + 2))
}

/// Reads the 32-bit little-endian value at `off`.
pub fn read_le32(b: &[u8], off: usize) -> (r: u32)
    requires
        off + 4 <= b@.len(),
    ensures
        r == spec_le32(b@, off as int),
{
    let n: usize = b.len();
    u32_from_le_bytes(slice_subrange(b, off, off + 4))
}

/// Reads the 64-bit little-endian value at `off`.
pub fn read_le64(b: &[u8], off: usize) -> (r: u64)
    requires
        off + 8 <= b@.len(),
    ensures
        r == spec_le64(b@, off as int),
{
    let n: usize = b.len();
    u64_from_le_bytes(slice_subrange(b, off, off + 8))
}

// ---------------------------------------------------------------------------
// Header and program-header table
// ---------------------------------------------------------------------------

/// Length in bytes of the fixed executable header.
pub const HEADER_LEN: u64 = 64;

/// Least acceptable size of one program-header table entry.
pub const PH_ENTRY_MIN: u64 = 56;

/// Program-header type tag of a loadable segment.
pub const PH_TYPE_LOAD: u32 = 1;

/// Program-header type tag of the dynamic section.
pub const PH_TYPE_DYNAMIC: u32 = 2;

/// The buffer holds a well-formed header: long enough, the four magic bytes,
/// the 64-bit class byte and the little-endian data-encoding byte.
pub open spec fn spec_header_ok(b: Seq<u8>) -> bool {
    &&& b.len() >= HEADER_LEN
    &&& b[0] == 0x7f
    &&& b[1] == 0x45
    &&& b[2] == 0x4c
    &&& b[3] == 0x46
    &&& b[4] == 2
    &&& b[5] == 1
}

/// The stated entry virtual address.
pub open spec fn spec_entry_vaddr(b: Seq<u8>) -> u64 {
    spec_le64(b, 24)
}

/// File offset of the program-header table.
pub open spec fn spec_phoff(b: Seq<u8>) -> u64 {
    spec_le64(b, 32)
}

/// Size in bytes of one program-header table entry.
pub open spec fn spec_phentsize(b: Seq<u8>) -> u16 {
    spec_le16(b, 54)
}

/// Number of program-header table entries.
pub open spec fn spec_phnum(b: Seq<u8>) -> u16 {
    spec_le16(b, 56)
}

/// The program-header table's entries are large enough and the whole table
/// lies inside the buffer.
pub open spec fn spec_ph_table_ok(b: Seq<u8>) -> bool {
    &&& spec_phentsize(b) >= PH_ENTRY_MIN
    &&& spec_phoff(b) + spec_phnum(b) * spec_phentsize(b) <= b.len()
}

/// Byte offset of program header `i` within the buffer.
pub open spec fn spec_ph_off(b: Seq<u8>, i: int) -> int {
    spec_phoff(b) + i * spec_phentsize(b)
}

/// Type tag of program header `i`.
pub open spec fn spec_ph_type(b: Seq<u8>, i: int) -> u32 {
    spec_le32(b, spec_ph_off(b, i))
}

/// The segment described by program header `i`.
pub open spec fn spec_ph_segment(b: Seq<u8>, i: int) -> SegmentDescriptor {
    SegmentDescriptor {
        file_offset: spec_le64(b, spec_ph_off(b, i) + 8),
        vaddr: spec_le64(b, spec_ph_off(b, i) + 16),
        file_size: spec_le64(b, spec_ph_off(b, i) + 32),
        mem_size: spec_le64(b, spec_ph_off(b, i) + 40),
    }
}

/// The loadable segments among the first `n` program headers, in table order.
pub open spec fn spec_loadable_upto(b: Seq<u8>, n: int) -> Seq<SegmentDescriptor>
    decreases n,
{
    if n <= 0 {
        Seq::empty()
    } else if spec_ph_type(b, n - 1) == PH_TYPE_LOAD {
        spec_loadable_upto(b, n - 1).push(spec_ph_segment(b, n - 1))
    } else {
        spec_loadable_upto(b, n - 1)
    }
}

/// All loadable segments of the image, in table order.
pub open spec fn spec_loadable_segments(b: Seq<u8>) -> Seq<SegmentDescriptor> {
    spec_loadable_upto(b, spec_phnum(b) as int)
}

// ---------------------------------------------------------------------------
// Segment well-formedness
// ---------------------------------------------------------------------------

/// One past the highest virtual address the segment occupies.
pub open spec fn spec_seg_end(s: SegmentDescriptor) -> int {
    s.vaddr + s.mem_size
}

/// A segment is well formed for a file of `img_len` bytes: non-empty, its
/// file-backed bytes fit in both the file and its memory span, and its end
/// address does not overflow.
pub open spec fn spec_seg_wf(s: SegmentDescriptor, img_len: int) -> bool {
    &&& s.mem_size >= 1
    &&& s.file_size <= s.mem_size
    &&& s.file_offset + s.file_size <= img_len
    &&& spec_seg_end(s) <= u64::MAX
}

/// Every segment of `segs` is well formed.
pub open spec fn spec_segs_wf(segs: Seq<SegmentDescriptor>, img_len: int) -> bool {
    forall|i: int| 0 <= i < segs.len() ==> spec_seg_wf(#[trigger] segs[i], img_len)
}

// ---------------------------------------------------------------------------
// Layout: minimum virtual address and maximum end address
// ---------------------------------------------------------------------------

/// The least virtual address among the segments (0 for an empty sequence).
pub open spec fn spec_min_vaddr(s: Seq<SegmentDescriptor>) -> u64
    decreases s.len(),
{
    if s.len() == 0 {
        0
    } else if s.len() == 1 {
        s[0].vaddr
    } else {
        let m = spec_min_vaddr(s.drop_last());
        if s.last().vaddr < m {
            s.last().vaddr
        } else {
            m
        }
    }
}

/// The greatest `vaddr + mem_size` among the segments (0 for an empty
/// sequence).
pub open spec fn spec_max_end(s: Seq<SegmentDescriptor>) -> int
    decreases s.len(),
{
    if s.len() == 0 {
        0
    } else if s.len() == 1 {
        spec_seg_end(s[0])
    } else {
        let m = spec_max_end(s.drop_last());
        if spec_seg_end(s.last()) > m {
            spec_seg_end(s.last())
        } else {
            m
        }
    }
}

/// The layout describes exactly the span of `segs`: its base is the least
/// virtual address and its end is the greatest segment end.
pub open spec fn spec_layout_of(layout: ImageLayout, segs: Seq<SegmentDescriptor>) -> bool {
    &&& layout.base == spec_min_vaddr(segs)
    &&& layout.base + layout.total_size == spec_max_end(segs)
}

/// The minimum is attained by some segment and bounds every segment's
/// virtual address from below.
pub proof fn lemma_min_vaddr_properties(s: Seq<SegmentDescriptor>)
    requires
        s.len() >= 1,
    ensures
        exists|i: int| 0 <= i < s.len() && (#[trigger] s[i]).vaddr == spec_min_vaddr(s),
        forall|i: int| 0 <= i < s.len() ==> spec_min_vaddr(s) <= (#[trigger] s[i]).vaddr,
    decreases s.len(),
{
    if s.len() == 1 {
        assert(s[0].vaddr == spec_min_vaddr(s));
    } else if s.len() > 1 {
        let d = s.drop_last();
        lemma_min_vaddr_properties(d);
        assert(forall|i: int| 0 <= i < d.len() ==> #[trigger] d[i] == s[i]);
        if s.last().vaddr < spec_min_vaddr(d) {
            assert(s[s.len() - 1].vaddr == spec_min_vaddr(s));
        } else {
            let i = choose|i: int| 0 <= i < d.len() && (#[trigger] d[i]).vaddr == spec_min_vaddr(d);
            assert(s[i].vaddr == spec_min_vaddr(s));
        }
        assert(forall|i: int|
            0 <= i < s.len() ==> spec_min_vaddr(s) <= (#[trigger] s[i]).vaddr) by {
            assert(forall|i: int|
                0 <= i < d.len() ==> spec_min_vaddr(d) <= (#[trigger] d[i]).vaddr);
            assert(forall|i: int| 0 <= i < s.len() - 1 ==> (#[trigger] s[i]).vaddr == d[i].vaddr);
        }
    }
}

/// The maximum end is attained by some segment and bounds every segment's
/// end from above.
pub proof fn lemma_max_end_properties(s: Seq<SegmentDescriptor>)
    requires
        s.len() >= 1,
    ensures
        exists|i: int| 0 <= i < s.len() && spec_seg_end(#[trigger] s[i]) == spec_max_end(s),
        forall|i: int| 0 <= i < s.len() ==> spec_seg_end(#[trigger] s[i]) <= spec_max_end(s),
    decreases s.len(),
{
    if s.len() == 1 {
        assert(spec_seg_end(s[0]) == spec_max_end(s));
    } else if s.len() > 1 {
        let d = s.drop_last();
        lemma_max_end_properties(d);
        assert(forall|i: int| 0 <= i < d.len() ==> #[trigger] d[i] == s[i]);
        if spec_seg_end(s.last()) > spec_max_end(d) {
            assert(spec_seg_end(s[s.len() - 1]) == spec_max_end(s));
        } else {
            let i = choose|i: int|
                0 <= i < d.len() && spec_seg_end(#[trigger] d[i]) == spec_max_end(d);
            assert(spec_seg_end(s[i]) == spec_max_end(s));
        }
        assert(forall|i: int|
            0 <= i < s.len() ==> spec_seg_end(#[trigger] s[i]) <= spec_max_end(s)) by {
            assert(forall|i: int|
                0 <= i < d.len() ==> spec_seg_end(#[trigger] d[i]) <= spec_max_end(d));
            assert(forall|i: int| 0 <= i < s.len() - 1 ==> #[trigger] s[i] == d[i]);
        }
    }
}

/// Law: the computed layout depends only on which loadable segments exist,
/// never on their order in the program-header table.  Two tables holding the
/// same segments (as a multiset) yield the same base and the same span.
pub proof fn lemma_layout_order_independent(s1: Seq<SegmentDescriptor>, s2: Seq<SegmentDescriptor>)
    requires
        s1.to_multiset() == s2.to_multiset(),
        s1.len() >= 1,
    ensures
        spec_min_vaddr(s1) == spec_min_vaddr(s2),
        spec_max_end(s1) == spec_max_end(s2),
{
    broadcast use vstd::seq_lib::group_to_multiset_ensures;

    assert(s2.len() == s2.to_multiset().len());
    lemma_min_vaddr_properties(s1);
    lemma_min_vaddr_properties(s2);
    lemma_max_end_properties(s1);
    lemma_max_end_properties(s2);
    let i1 = choose|i: int| 0 <= i < s1.len() && (#[trigger] s1[i]).vaddr == spec_min_vaddr(s1);
    assert(s1.to_multiset().count(s1[i1]) > 0);
    assert(s2.contains(s1[i1]));
    let i2 = choose|i: int| 0 <= i < s2.len() && (#[trigger] s2[i]).vaddr == spec_min_vaddr(s2);
    assert(s2.to_multiset().count(s2[i2]) > 0);
    assert(s1.contains(s2[i2]));
    let j1 = choose|i: int| 0 <= i < s1.len() && spec_seg_end(#[trigger] s1[i]) == spec_max_end(s1);
    assert(s1.to_multiset().count(s1[j1]) > 0);
    assert(s2.contains(s1[j1]));
    let j2 = choose|i: int| 0 <= i < s2.len() && spec_seg_end(#[trigger] s2[i]) == spec_max_end(s2);
    assert(s2.to_multiset().count(s2[j2]) > 0);
    assert(s1.contains(s2[j2]));
}

// ---------------------------------------------------------------------------
// Executable analysis
// ---------------------------------------------------------------------------

/// Computes the layout of a non-empty segment sequence.
///
/// Fails with `NoLoadableSegment` exactly when `segs` is empty, and with
/// `SizeOverflow` exactly when some segment's end address overflows.
pub fn compute_layout(segs: &Vec<SegmentDescriptor>) -> (r: Result<ImageLayout, ElfError>)
    ensures
        match r {
            Ok(layout) => {
                &&& segs@.len() >= 1
                &&& forall|i: int|
                    0 <= i < segs@.len() ==> spec_seg_end(#[trigger] segs@[i]) <= u64::MAX
                &&& spec_layout_of(layout, segs@)
            },
            Err(e) => {
                &&& (e == ElfError::NoLoadableSegment || e == ElfError::SizeOverflow)
                &&& (e == ElfError::NoLoadableSegment <==> segs@.len() == 0)
                &&& e == ElfError::SizeOverflow ==> exists|i: int|
                    0 <= i < segs@.len() && spec_seg_end(#[trigger] segs@[i]) > u64::MAX
            },
        },
{
    if segs.len() == 0 {
        return Err(ElfError::NoLoadableSegment);
    }
    let ghost gsegs = segs@;
    let mut low: u64 = segs[0].vaddr;
    let mut high: u64 = match segs[0].vaddr.checked_add(segs[0].mem_size) {
        Some(e) => e,
        None => {
            assert(spec_seg_end(gsegs[0]) > u64::MAX);
            return Err(ElfError::SizeOverflow);
        },
    };
    assert(gsegs.subrange(0, 1).len() == 1);
    assert(gsegs.subrange(0, 1)[0] == gsegs[0]);
    let mut i: usize = 1;
    while i < segs.len()
        invariant
            1 <= i <= gsegs.len(),
            gsegs == segs@,
            low == spec_min_vaddr(gsegs.subrange(0, i as int)),
            high == spec_max_end(gsegs.subrange(0, i as int)),
            forall|j: int| 0 <= j < i ==> spec_seg_end(#[trigger] gsegs[j]) <= u64::MAX,
        decreases gsegs.len() - i,
    {
        let ghost prefix = gsegs.subrange(0, i as int);
        let ghost next = gsegs.subrange(0, i + 1 as int);
        assert(next.drop_last() == prefix);
        assert(next.last() == gsegs[i as int]);
        let s = segs[i];
        let end = match s.vaddr.checked_add(s.mem_size) {
            Some(e) => e,
            None => {
                assert(spec_seg_end(gsegs[i as int]) > u64::MAX);
                return Err(ElfError::SizeOverflow);
            },
        };
        if s.vaddr < low {
            low = s.vaddr;
        }
        if end > high {
            high = end;
        }
        i = i + 1;
    }
    assert(gsegs.subrange(0, gsegs.len() as int) == gsegs);
    proof {
        lemma_min_vaddr_properties(gsegs);
        lemma_max_end_properties(gsegs);
    }
    Ok(ImageLayout { base: low, total_size: high - low })
}

/// Byte offset of program header `i`, as a checked machine value.
pub fn ph_offset(image: &[u8], i: usize) -> (r: usize)
    requires
        spec_header_ok(image@),
        spec_ph_table_ok(image@),
        i < spec_phnum(image@),
    ensures
        r == spec_ph_off(image@, i as int),
        r + spec_phentsize(image@) <= image@.len(),
{
    let n: usize = image.len();
    let phoff = read_le64(image, 32);
    let phentsize = read_le16(image, 54);
    let phnum = read_le16(image, 56);
    proof {
        assert((i as u64) * (phentsize as u64) + phentsize <= (phnum as u64) * (phentsize as u64))
            by (nonlinear_arith)
            requires
                0 <= (i as u64) < (phnum as u64),
        ;
    }
    let off64: u64 = phoff + (i as u64) * (phentsize as u64);
    assert(off64 + phentsize <= n);
    assert(off64 == spec_ph_off(image@, i as int));
    off64 as usize
}

/// Reads the type tag of program header `i`.
pub fn read_ph_type(image: &[u8], i: usize) -> (r: u32)
    requires
        spec_header_ok(image@),
        spec_ph_table_ok(image@),
        i < spec_phnum(image@),
    ensures
        r == spec_ph_type(image@, i as int),
{
    let off = ph_offset(image, i);
    read_le32(image, off)
}

/// Reads the segment fields of program header `i`.
pub fn read_ph_segment(image: &[u8], i: usize) -> (r: SegmentDescriptor)
    requires
        spec_header_ok(image@),
        spec_ph_table_ok(image@),
        i < spec_phnum(image@),
    ensures
        r == spec_ph_segment(image@, i as int),
{
    let off = ph_offset(image, i);
    let n: usize = image.len();
    assert(off + 56 <= n);
    SegmentDescriptor {
        file_offset: read_le64(image, off + 8),
        vaddr: read_le64(image, off + 16),
        file_size: read_le64(image, off + 32),
        mem_size: read_le64(image, off + 40),
    }
}

/// The outcome the analyzer owes for a given byte buffer: `None` when the
/// image is acceptable, otherwise exactly which error is reported.
pub open spec fn spec_analysis_error(b: Seq<u8>) -> Option<ElfError> {
    if !spec_header_ok(b) {
        Some(ElfError::MalformedHeader)
    } else if !spec_ph_table_ok(b) {
        Some(ElfError::ProgramTableOutOfBounds)
    } else if spec_loadable_segments(b).len() == 0 {
        Some(ElfError::NoLoadableSegment)
    } else if !spec_segs_wf(spec_loadable_segments(b), b.len() as int) {
        Some(ElfError::MalformedSegment)
    } else {
        None
    }
}

/// The analyzer accepts the buffer.
pub open spec fn spec_image_ok(b: Seq<u8>) -> bool {
    spec_analysis_error(b) is None
}

/// Everything the analyzer learns about an acceptable image.
#[derive(Debug)]
pub struct ElfAnalysis {
    /// The loadable segments, in program-header table order.
    pub segments: Vec<SegmentDescriptor>,
    /// Base virtual address and total span of the image.
    pub layout: ImageLayout,
    /// The header's stated entry virtual address.
    pub entry_vaddr: u64,
}

/// Analyses an executable image: parses the header and program-header table,
/// selects the loadable segments, checks them, and computes the layout.
///
/// Succeeds exactly on acceptable images (well-formed header, in-bounds
/// program-header table, at least one loadable segment, every loadable
/// segment well formed), and otherwise reports exactly the error that
/// `spec_analysis_error` assigns to the buffer.
pub fn elf_size(image: &[u8]) -> (r: Result<ElfAnalysis, ElfError>)
    ensures
        r is Ok <==> spec_image_ok(image@),
        match r {
            Ok(a) => {
                &&& a.segments@ == spec_loadable_segments(image@)
                &&& a.segments@.len() >= 1
                &&& spec_segs_wf(a.segments@, image@.len() as int)
                &&& spec_layout_of(a.layout, a.segments@)
                &&& a.layout.total_size >= 1
                &&& a.entry_vaddr == spec_entry_vaddr(image@)
            },
            Err(e) => Some(e) == spec_analysis_error(image@),
        },
{
    let n: usize = image.len();
    if n < 64 {
        return Err(ElfError::MalformedHeader);
    }
    let ok_magic = *slice_index_get(image, 0) == 0x7fu8 && *slice_index_get(image, 1) == 0x45u8
        && *slice_index_get(image, 2) == 0x4cu8 && *slice_index_get(image, 3) == 0x46u8
        && *slice_index_get(image, 4) == 2u8 && *slice_index_get(image, 5) == 1u8;
    if !ok_magic {
        return Err(ElfError::MalformedHeader);
    }
    let entry_vaddr = read_le64(image, 24);
    let phoff = read_le64(image, 32);
    let phentsize = read_le16(image, 54);
    let phnum = read_le16(image, 56);

    if phentsize < 56 {
        return Err(ElfError::ProgramTableOutOfBounds);
    }
    proof {
        assert((phnum as u64) * (phentsize as u64) <= 0xFFFFu64 * 0xFFFFu64)
            by (nonlinear_arith)
            requires
                phnum as u64 <= 0xFFFF,
                phentsize as u64 <= 0xFFFF,
        ;
    }
    let table_span: u64 = (phnum as u64) * (phentsize as u64);
    let table_end: u64 = match phoff.checked_add(table_span) {
        Some(e) => e,
        None => {
            return Err(ElfError::ProgramTableOutOfBounds);
        },
    };
    if table_end > n as u64 {
        return Err(ElfError::ProgramTableOutOfBounds);
    }
    assert(spec_ph_table_ok(image@));

    // Collect the loadable segments in table order.
    let mut segments: Vec<SegmentDescriptor> = Vec::new();
    let mut i: usize = 0;
    while i < phnum as usize
        invariant
            0 <= i <= phnum as int,
            segments@ == spec_loadable_upto(image@, i as int),
            image@.len() == n,
            n >= 64,
            spec_header_ok(image@),
            spec_ph_table_ok(image@),
            phoff == spec_phoff(image@),
            phentsize == spec_phentsize(image@),
            phnum == spec_phnum(image@),
            phoff + phnum * phentsize <= n,
            phentsize >= 56,
            table_span == phnum * phentsize,
        decreases phnum as int - i,
    {
        proof {
            assert((i as u64) * (phentsize as u64) + phentsize <= table_span)
                by (nonlinear_arith)
                requires
                    0 <= (i as u64) < (phnum as u64),
                    table_span == (phnum as u64) * (phentsize as u64),
            ;
        }
        let off64: u64 = phoff + (i as u64) * (phentsize as u64);
        assert(off64 + phentsize <= n);
        assert(off64 == spec_ph_off(image@, i as int));
        assert(off64 <= n as u64);
        let off: usize = off64 as usize;
        assert(off == off64);
        let p_type = read_le32(image, off);
        if p_type == PH_TYPE_LOAD {
            let seg = SegmentDescriptor {
                file_offset: read_le64(image, off + 8),
                vaddr: read_le64(image, off + 16),
                file_size: read_le64(image, off + 32),
                mem_size: read_le64(image, off + 40),
            };
            assert(seg == spec_ph_segment(image@, i as int));
            segments.push(seg);
        }
        i = i + 1;
    }
    assert(segments@ == spec_loadable_segments(image@));

    if segments.len() == 0 {
        return Err(ElfError::NoLoadableSegment);
    }

    // Check each loadable segment.
    let mut k: usize = 0;
    while k < segments.len()
        invariant
            0 <= k <= segments@.len(),
            segments@ == spec_loadable_segments(image@),
            segments@.len() >= 1,
            image@.len() == n,
            spec_header_ok(image@),
            spec_ph_table_ok(image@),
            forall|j: int| 0 <= j < k ==> spec_seg_wf(#[trigger] segments@[j], n as int),
        decreases segments@.len() - k,
    {
        let s = segments[k];
        let file_ok = match s.file_offset.checked_add(s.file_size) {
            Some(e) => e <= n as u64,
            None => false,
        };
        let mem_ok = s.vaddr.checked_add(s.mem_size).is_some();
        if !(s.mem_size >= 1 && s.file_size <= s.mem_size && file_ok && mem_ok) {
            assert(!spec_seg_wf(segments@[k as int], n as int));
            return Err(ElfError::MalformedSegment);
        }
        k = k + 1;
    }
    assert(spec_segs_wf(segments@, n as int));

    let layout = match compute_layout(&segments) {
        Ok(l) => l,
        Err(_) => {
            proof {
                lemma_max_end_properties(segments@);
            }
            assert(false);
            return Err(ElfError::SizeOverflow);
        },
    };
    proof {
        lemma_min_vaddr_properties(segments@);
        lemma_max_end_properties(segments@);
        let i0 = choose|i: int|
            0 <= i < segments@.len() && (#[trigger] segments@[i]).vaddr == spec_min_vaddr(
                segments@,
            );
        assert(spec_seg_end(segments@[i0]) <= spec_max_end(segments@));
        assert(segments@[i0].mem_size >= 1);
    }
    Ok(ElfAnalysis { segments, layout, entry_vaddr })
}

} // verus!
