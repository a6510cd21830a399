//! The last decisions before the point of no return: the self-test check,
//! the boot-service-exit negotiation driven as a state machine, and the
//! memory map handed to the loaded image.  The surrounding program performs each
//! firmware call and feeds the outcome back as an event; every decision is
//! made here.

use vstd::prelude::*;

verus! {

/// Sentinel the self-test image must echo back unchanged.
pub const SELF_TEST_SENTINEL: u64 = 0xFFFFFFFFFFFFFFFF;

/// The self-test outcome: the loaded echo image returned the sentinel
/// exactly.  Any other value forbids every later step.
pub fn self_test_passed(returned: u64) -> (r: bool)
    ensures
        r <==> returned == SELF_TEST_SENTINEL,
{
    returned == SELF_TEST_SENTINEL
}

/// Size in bytes of one firmware memory-descriptor slot.
pub const MEMORY_DESCRIPTOR_SIZE: u64 = 48;

/// Headroom added to every memory-map buffer: two extra descriptor slots,
/// since the map can grow between the size query and the exit call.
pub const BUFFER_HEADROOM: u64 = 2 * MEMORY_DESCRIPTOR_SIZE;

/// Where the exit negotiation stands.
#[derive(Clone, Copy, PartialEq, Eq, Structural, Debug)]
pub enum NegotiatorState {
    /// Asking the firmware how large the memory map currently is.
    Querying,
    /// A buffer of `required` bytes must be allocated.
    Allocating { required: u64 },
    /// An exit attempt with a buffer of `buffer_len` bytes is due.
    Exiting { buffer_len: u64 },
    /// Boot services are exited and the final map may be collected.
    Captured,
    /// The negotiation is over without success; the boot halts.
    Failed,
}

/// What the firmware answered to the last action.
#[derive(Clone, Copy, PartialEq, Eq, Structural, Debug)]
pub enum ExitEvent {
    /// The memory map currently needs `size` bytes.
    SizeReported { size: u64 },
    /// The requested buffer is allocated.
    BufferAllocated,
    /// The exit call succeeded; the firmware is gone.
    ExitSucceeded,
    /// The exit call failed: the map grew and now needs `required` bytes.
    ExitBufferTooSmall { required: u64 },
}

/// What the surrounding program must do next.
#[derive(Clone, Copy, PartialEq, Eq, Structural, Debug)]
pub enum NegotiatorAction {
    /// Ask the firmware for the memory map's current byte size.
    QueryMapSize,
    /// Allocate a buffer of `len` bytes.
    AllocateBuffer { len: u64 },
    /// Call the firmware's exit operation with the allocated buffer.
    AttemptExit,
    /// Collect the final memory map; no firmware service remains.
    CollectMap,
    /// Stop: the negotiation failed while the console still works.
    Halt,
}

/// The boot-service-exit negotiator: a bounded query/resize/retry protocol.
pub struct Negotiator {
    /// Where the negotiation stands.
    pub state: NegotiatorState,
    /// How many buffer-too-small retries remain before failing.
    pub attempts_left: u32,
}

impl Negotiator {
    /// Opens the negotiation — only after the self-test echoed the sentinel.
    /// A failed self-test yields no negotiator at all, so no exit attempt
    /// can ever be reached.
    pub fn begin(self_test_result: u64, max_attempts: u32) -> (r: Option<Negotiator>)
        ensures
            r is Some <==> self_test_result == SELF_TEST_SENTINEL,
            r matches Some(n) ==> n.state is Querying && n.attempts_left == max_attempts,
    {
        if self_test_passed(self_test_result) {
            Some(Negotiator { state: NegotiatorState::Querying, attempts_left: max_attempts })
        } else {
            None
        }
    }

    /// Advances the negotiation by one event and says what to do next.
    ///
    /// The size handed to every allocation is the reported requirement plus
    /// `BUFFER_HEADROOM`; after a buffer-too-small failure the next buffer
    /// is at least as large as the newly reported requirement, one retry is
    /// consumed, and no image analysis is repeated.  An event that does not
    /// fit the state, an exhausted retry budget, or a requirement past the
    /// address space all end in `Failed` with a `Halt`.
    pub fn step(&mut self, event: ExitEvent) -> (a: NegotiatorAction)
        ensures
            match (old(self).state, event) {
                (NegotiatorState::Querying, ExitEvent::SizeReported { size }) => {
                    if size + BUFFER_HEADROOM <= u64::MAX {
                        &&& final(self).state == (NegotiatorState::Allocating {
                            required: (size + BUFFER_HEADROOM) as u64,
                        })
                        &&& a == (NegotiatorAction::AllocateBuffer {
                            len: (size + BUFFER_HEADROOM) as u64,
                        })
                        &&& final(self).attempts_left == old(self).attempts_left
                    } else {
                        final(self).state is Failed && a is Halt
                    }
                },
                (NegotiatorState::Allocating { required }, ExitEvent::BufferAllocated) => {
                    &&& final(self).state == (NegotiatorState::Exiting { buffer_len: required })
                    &&& a is AttemptExit
                    &&& final(self).attempts_left == old(self).attempts_left
                },
                (NegotiatorState::Exiting { buffer_len }, ExitEvent::ExitSucceeded) => {
                    &&& final(self).state is Captured
                    &&& a is CollectMap
                },
                (
                    NegotiatorState::Exiting { buffer_len },
                    ExitEvent::ExitBufferTooSmall { required },
                ) => {
                    if old(self).attempts_left >= 1 && required + BUFFER_HEADROOM <= u64::MAX {
                        &&& final(self).state == (NegotiatorState::Allocating {
                            required: (required + BUFFER_HEADROOM) as u64,
                        })
                        &&& (required + BUFFER_HEADROOM) as u64 >= required
                        &&& a == (NegotiatorAction::AllocateBuffer {
                            len: (required + BUFFER_HEADROOM) as u64,
                        })
                        &&& final(self).attempts_left == old(self).attempts_left - 1
                    } else {
                        final(self).state is Failed && a is Halt
                    }
                },
                _ => final(self).state is Failed && a is Halt,
            },
    {
        match (self.state, event) {
            (NegotiatorState::Querying, ExitEvent::SizeReported { size }) => {
                match size.checked_add(BUFFER_HEADROOM) {
                    Some(required) => {
                        self.state = NegotiatorState::Allocating { required };
                        NegotiatorAction::AllocateBuffer { len: required }
                    },
                    None => {
                        self.state = NegotiatorState::Failed;
                        NegotiatorAction::Halt
                    },
                }
            },
            (NegotiatorState::Allocating { required }, ExitEvent::BufferAllocated) => {
                self.state = NegotiatorState::Exiting { buffer_len: required };
                NegotiatorAction::AttemptExit
            },
            (NegotiatorState::Exiting { buffer_len: _ }, ExitEvent::ExitSucceeded) => {
                self.state = NegotiatorState::Captured;
                NegotiatorAction::CollectMap
            },
            (
                NegotiatorState::Exiting { buffer_len: _ },
                ExitEvent::ExitBufferTooSmall { required },
            ) => {
                if self.attempts_left >= 1 {
                    match required.checked_add(BUFFER_HEADROOM) {
                        Some(new_required) => {
                            self.attempts_left = self.attempts_left - 1;
                            self.state = NegotiatorState::Allocating { required: new_required };
                            NegotiatorAction::AllocateBuffer { len: new_required }
                        },
                        None => {
                            self.state = NegotiatorState::Failed;
                            NegotiatorAction::Halt
                        },
                    }
                } else {
                    self.state = NegotiatorState::Failed;
                    NegotiatorAction::Halt
                }
            },
            _ => {
                self.state = NegotiatorState::Failed;
                NegotiatorAction::Halt
            },
        }
    }
}

// ---------------------------------------------------------------------------
// The memory map handed to the loaded image
// ---------------------------------------------------------------------------

/// Classification of one firmware-reported memory range.
#[derive(Clone, Copy, PartialEq, Eq, Structural, Debug)]
pub enum MemoryKind {
    /// Code used by boot services; reclaimable after exit.
    BootServicesCode,
    /// Data used by boot services; reclaimable after exit.
    BootServicesData,
    /// Ordinary usable memory.
    Conventional,
    /// Memory holding reclaimable firmware tables.
    AcpiReclaim,
    /// Firmware-reserved non-volatile memory.
    AcpiNonVolatile,
    /// Any classification the loaded image has no use for.
    Other,
}

/// One memory range surviving boot-service exit.
#[derive(Clone, Copy, PartialEq, Eq, Structural, Debug)]
pub struct MemoryMapEntry {
    /// First byte of the range.
    pub physical_start: u64,
    /// One past the last byte of the range (page aligned).
    pub physical_end: u64,
    /// The range's classification.
    pub kind: MemoryKind,
}

/// The classification a firmware type code stands for.
pub open spec fn spec_kind_from_code(code: u32) -> MemoryKind {
    if code == 3 {
        MemoryKind::BootServicesCode
    } else if code == 4 {
        MemoryKind::BootServicesData
    } else if code == 7 {
        MemoryKind::Conventional
    } else if code == 9 {
        MemoryKind::AcpiReclaim
    } else if code == 10 {
        MemoryKind::AcpiNonVolatile
    } else {
        MemoryKind::Other
    }
}

/// Maps a firmware type code to the library's classification.
pub fn kind_from_code(code: u32) -> (k: MemoryKind)
    ensures
        k == spec_kind_from_code(code),
{
    if code == 3 {
        MemoryKind::BootServicesCode
    } else if code == 4 {
        MemoryKind::BootServicesData
    } else if code == 7 {
        MemoryKind::Conventional
    } else if code == 9 {
        MemoryKind::AcpiReclaim
    } else if code == 10 {
        MemoryKind::AcpiNonVolatile
    } else {
        MemoryKind::Other
    }
}

/// The loaded image keeps every range but the ones it has no use for.
pub open spec fn spec_interesting(e: MemoryMapEntry) -> bool {
    !(e.kind is Other)
}

/// The ranges of interest, in their reported order.
pub open spec fn spec_interesting_entries(s: Seq<MemoryMapEntry>) -> Seq<MemoryMapEntry> {
    s.filter(|e: MemoryMapEntry| spec_interesting(e))
}

/// Builds one entry from a firmware descriptor's fields: the end address is
/// `physical_start + page_count` pages.
///
/// Yields nothing exactly when the range's end would leave the address
/// space.
pub fn entry_from_descriptor(physical_start: u64, page_count: u64, type_code: u32) -> (r: Option<
    MemoryMapEntry,
>)
    ensures
        r is Some <==> physical_start + page_count * crate::PAGE_SIZE <= u64::MAX,
        r matches Some(e) ==> {
            &&& e.physical_start == physical_start
            &&& e.physical_end == physical_start + page_count * crate::PAGE_SIZE
            &&& e.kind == spec_kind_from_code(type_code)
        },
{
    let bytes: u64 = match page_count.checked_mul(crate::PAGE_SIZE) {
        Some(v) => v,
        None => {
            return None;
        },
    };
    let physical_end: u64 = match physical_start.checked_add(bytes) {
        Some(v) => v,
        None => {
            return None;
        },
    };
    Some(MemoryMapEntry { physical_start, physical_end, kind: kind_from_code(type_code) })
}

/// Keeps exactly the ranges of interest (boot-services code and data,
/// conventional memory, and the two firmware-table kinds), in order.
pub fn filter_memory_map(entries: &Vec<MemoryMapEntry>) -> (r: Vec<MemoryMapEntry>)
    ensures
        r@ == spec_interesting_entries(entries@),
{
    let mut out: Vec<MemoryMapEntry> = Vec::new();
    let mut i: usize = 0;
    while i < entries.len()
        invariant
            0 <= i <= entries@.len(),
            out@ == spec_interesting_entries(entries@.subrange(0, i as int)),
        decreases entries@.len() - i,
    {
        let e = entries[i];
        proof {
            reveal(Seq::filter);
            assert(entries@.subrange(0, i as int + 1).drop_last() =~= entries@.subrange(
                0,
                i as int,
            ));
            assert(entries@.subrange(0, i as int + 1).last() == entries@[i as int]);
        }
        let keep = match e.kind {
            MemoryKind::Other => false,
            _ => true,
        };
        if keep {
            out.push(e);
        }
        i = i + 1;
    }
    assert(entries@.subrange(0, entries@.len() as int) =~= entries@);
    out
}

/// The sanity conditions the boot path demands of the filtered map before
/// handing it on: it is non-empty, its first range starts at address zero,
/// and that range is not empty.
pub fn memory_map_plausible(entries: &Vec<MemoryMapEntry>) -> (r: bool)
    ensures
        r <==> (entries@.len() > 0 && entries@[0].physical_start == 0 && entries@[0].physical_end
            != 0),
{
    if entries.len() == 0 {
        return false;
    }
    let first = entries[0];
    first.physical_start == 0 && first.physical_end != 0
}

} // verus!
