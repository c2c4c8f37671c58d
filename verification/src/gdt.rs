//! The segment descriptor table (GDT) and its 64-bit descriptor encodings.
//!
//! The table is a fixed-capacity sequence of eight 64-bit words with a
//! cursor marking the next free slot.  A descriptor occupies one word (a
//! code or data segment) or two words (a system segment such as the task
//! state segment, which carries a 64-bit base address).  Adding a
//! descriptor yields a selector: the word index of the descriptor joined
//! with the privilege level implied by its flags.  Installing the table on
//! the processor is a privileged instruction and lives outside this
//! library; everything encoded here is stated bit-exactly.

use vstd::prelude::*;
use crate::bits::{
    get_bits64, set_bits64, spec_get_bits64, spec_set_bits64, spec_mask64,
    lemma_get_bits64_bounded,
};
use vstd::array::array_as_slice;
use vstd::slice::slice_subrange;

verus! {

/// Flag bits of a 64-bit segment descriptor word.  Not every flag is
/// meaningful for every descriptor kind; the composed constants below give
/// the four segment kinds the kernel installs.
pub struct DescriptorFlags;

impl DescriptorFlags {
    /// Set by the processor when the segment is first used.
    pub const ACCESSED: u64 = 1u64 << 40;
    /// Writable data segment (readable code segment in 32-bit mode).
    pub const WRITABLE: u64 = 1u64 << 41;
    /// Conforming code segment.
    pub const CONFORMING: u64 = 1u64 << 42;
    /// Set for code segments, clear for data segments.
    pub const EXECUTABLE: u64 = 1u64 << 43;
    /// Set for user (code/data) segments, clear for system segments.
    pub const USER_SEGMENT: u64 = 1u64 << 44;
    /// Both privilege-level bits set: the descriptor is ring 3.
    pub const DPL_RING_3: u64 = 3u64 << 45;
    /// Must be set for any usable segment.
    pub const PRESENT: u64 = 1u64 << 47;
    /// Free for use by the operating system.
    pub const AVAILABLE: u64 = 1u64 << 52;
    /// Set for 64-bit code segments, clear otherwise.
    pub const LONG_MODE: u64 = 1u64 << 53;
    /// 32-bit operand size; must be clear when LONG_MODE is set.
    pub const DEFAULT_SIZE: u64 = 1u64 << 54;
    /// Limit is scaled by 4096 bytes.
    pub const GRANULARITY: u64 = 1u64 << 55;
    /// Bits 0..=15 of the limit field.
    pub const LIMIT_0_15: u64 = 0xFFFF;
    /// Bits 16..=19 of the limit field.
    pub const LIMIT_16_19: u64 = 0xFu64 << 48;
    /// Bits 0..=23 of the base field.
    pub const BASE_0_23: u64 = 0xFF_FFFFu64 << 16;
    /// Bits 24..=31 of the base field.
    pub const BASE_24_31: u64 = 0xFFu64 << 56;

    /// Bits common to the four required segment kinds.
    pub const COMMON: u64 = DescriptorFlags::USER_SEGMENT | DescriptorFlags::PRESENT
        | DescriptorFlags::WRITABLE | DescriptorFlags::ACCESSED | DescriptorFlags::LIMIT_0_15
        | DescriptorFlags::LIMIT_16_19 | DescriptorFlags::GRANULARITY;
    /// Kernel data segment.
    pub const KERNEL_DATA: u64 = DescriptorFlags::COMMON | DescriptorFlags::DEFAULT_SIZE;
    /// 32-bit kernel code segment.
    pub const KERNEL_CODE32: u64 = DescriptorFlags::COMMON | DescriptorFlags::EXECUTABLE
        | DescriptorFlags::DEFAULT_SIZE;
    /// 64-bit kernel code segment.
    pub const KERNEL_CODE64: u64 = DescriptorFlags::COMMON | DescriptorFlags::EXECUTABLE
        | DescriptorFlags::LONG_MODE;
    /// User data segment.
    pub const USER_DATA: u64 = DescriptorFlags::KERNEL_DATA | DescriptorFlags::DPL_RING_3;
    /// 32-bit user code segment.
    pub const USER_CODE32: u64 = DescriptorFlags::KERNEL_CODE32 | DescriptorFlags::DPL_RING_3;
    /// 64-bit user code segment.
    pub const USER_CODE64: u64 = DescriptorFlags::KERNEL_CODE64 | DescriptorFlags::DPL_RING_3;
}

/// Hardware-enforced execution privilege; ring 0 is the most trusted.
#[derive(Clone, Copy, Debug, PartialEq, Eq, Structural)]
pub enum PrivilegeLevel {
    Ring0,
    Ring1,
    Ring2,
    Ring3,
}

impl PrivilegeLevel {
    /// The two-bit hardware encoding of this ring.
    pub open spec fn spec_as_u16(self) -> u16 {
        match self {
            PrivilegeLevel::Ring0 => 0,
            PrivilegeLevel::Ring1 => 1,
            PrivilegeLevel::Ring2 => 2,
            PrivilegeLevel::Ring3 => 3,
        }
    }

    /// Returns the two-bit hardware encoding of this ring.
    pub fn as_u16(self) -> (r: u16)
        ensures
            r == self.spec_as_u16(),
    {
        match self {
            PrivilegeLevel::Ring0 => 0,
            PrivilegeLevel::Ring1 => 1,
            PrivilegeLevel::Ring2 => 2,
            PrivilegeLevel::Ring3 => 3,
        }
    }

    /// Decodes a two-bit hardware encoding.
    pub fn from_u16(v: u16) -> (r: PrivilegeLevel)
        requires
            v < 4,
        ensures
            r.spec_as_u16() == v,
    {
        if v == 0 {
            PrivilegeLevel::Ring0
        } else if v == 1 {
            PrivilegeLevel::Ring1
        } else if v == 2 {
            PrivilegeLevel::Ring2
        } else {
            PrivilegeLevel::Ring3
        }
    }
}

/// An index into the segment descriptor table joined with a requested
/// privilege level: bits 3.. hold the word index, bits 0..2 the ring.
#[derive(Clone, Copy, Debug, PartialEq, Eq, Structural)]
pub struct SegmentSelector(pub u16);

impl SegmentSelector {
    /// Packs a table index and a privilege level into a selector.
    pub fn new(index: u16, rpl: PrivilegeLevel) -> (r: SegmentSelector)
        requires
            index < 0x2000,
        ensures
            r.0 == index * 8 + rpl.spec_as_u16(),
    {
        let rv: u16 = rpl.as_u16();
        let bits: u16 = (index << 3u16) | rv;
        proof {
            assert((index << 3u16) | rv == index * 8 + rv) by (bit_vector)
                requires
                    index < 0x2000 && rv < 4,
            ;
        }
        SegmentSelector(bits)
    }

    /// The word index this selector points at.
    pub fn index(&self) -> (r: u16)
        ensures
            r == self.0 / 8,
    {
        let x: u16 = self.0;
        proof {
            assert(x >> 3u16 == x / 8) by (bit_vector);
        }
        x >> 3u16
    }

    /// The requested privilege level carried in the low two bits.
    pub fn rpl(&self) -> (r: PrivilegeLevel)
        ensures
            r.spec_as_u16() == self.0 % 4,
    {
        let x: u16 = self.0;
        proof {
            assert(x & 3 == x % 4) by (bit_vector);
        }
        PrivilegeLevel::from_u16(x & 3)
    }
}

/// A segment descriptor: one word for a code or data segment, two words
/// for a system segment (the second word carries the upper base address).
#[derive(Clone, Copy, Debug, PartialEq, Eq, Structural)]
pub enum Descriptor {
    UserSegment(u64),
    SystemSegment(u64, u64),
}

impl Descriptor {
    /// How many table words this descriptor occupies.
    pub open spec fn spec_word_count(self) -> int {
        match self {
            Descriptor::UserSegment(_) => 1,
            Descriptor::SystemSegment(_, _) => 2,
        }
    }

    /// The table words of this descriptor, low word first.
    pub open spec fn spec_words(self) -> Seq<u64> {
        match self {
            Descriptor::UserSegment(v) => seq![v],
            Descriptor::SystemSegment(lo, hi) => seq![lo, hi],
        }
    }

    /// The ring encoded into a selector for this descriptor: ring 3 for a
    /// user segment whose descriptor carries both ring-3 bits, ring 0
    /// otherwise (system segments always resolve to ring 0).
    pub open spec fn spec_rpl(self) -> u16 {
        match self {
            Descriptor::UserSegment(v) => {
                if v & DescriptorFlags::DPL_RING_3 == DescriptorFlags::DPL_RING_3 {
                    3
                } else {
                    0
                }
            },
            Descriptor::SystemSegment(_, _) => 0,
        }
    }

    /// A 64-bit kernel code segment.
    pub fn kernel_code_segment() -> (r: Descriptor)
        ensures
            r == Descriptor::UserSegment(DescriptorFlags::KERNEL_CODE64),
    {
        Descriptor::UserSegment(DescriptorFlags::KERNEL_CODE64)
    }

    /// A kernel data segment.
    pub fn kernel_data_segment() -> (r: Descriptor)
        ensures
            r == Descriptor::UserSegment(DescriptorFlags::KERNEL_DATA),
    {
        Descriptor::UserSegment(DescriptorFlags::KERNEL_DATA)
    }

    /// A user data segment.
    pub fn user_data_segment() -> (r: Descriptor)
        ensures
            r == Descriptor::UserSegment(DescriptorFlags::USER_DATA),
    {
        Descriptor::UserSegment(DescriptorFlags::USER_DATA)
    }

    /// A 64-bit user code segment.
    pub fn user_code_segment() -> (r: Descriptor)
        ensures
            r == Descriptor::UserSegment(DescriptorFlags::USER_CODE64),
    {
        Descriptor::UserSegment(DescriptorFlags::USER_CODE64)
    }

    /// A system-segment descriptor for an available 64-bit task state
    /// segment whose storage starts at `tss_base`.
    ///
    /// The caller must pass the address of storage that lives for the rest
    /// of the program (the processor keeps reading it); that obligation
    /// sits with the code that installs the table.
    pub fn tss_segment(tss_base: u64) -> (r: Descriptor)
        ensures
            r == Descriptor::SystemSegment(spec_tss_low(tss_base), spec_tss_high(tss_base)),
    {
        proof {
            lemma_get_bits64_bounded(tss_base, 0, 24);
            lemma_get_bits64_bounded(tss_base, 24, 32);
            lemma_get_bits64_bounded(tss_base, 32, 64);
            assert(spec_mask64(0, 16) == 0xFFFF) by (bit_vector);
            assert(spec_mask64(40, 44) == 0xF) by (bit_vector);
        }
        let mut low: u64 = DescriptorFlags::PRESENT;
        // base address, bits 0..24 and 24..32
        low = set_bits64(low, 16, 40, get_bits64(tss_base, 0, 24));
        low = set_bits64(low, 56, 64, get_bits64(tss_base, 24, 32));
        // limit: the byte size of the task state segment, inclusive bound
        low = set_bits64(low, 0, 16, TSS_SIZE_BYTES - 1);
        // type tag: available 64-bit task state segment
        low = set_bits64(low, 40, 44, 9);

        let mut high: u64 = 0;
        high = set_bits64(high, 0, 32, get_bits64(tss_base, 32, 64));

        Descriptor::SystemSegment(low, high)
    }
}

/// Byte size of the hardware task state segment structure.
pub const TSS_SIZE_BYTES: u64 = 104;

/// Low descriptor word of a task state segment descriptor with the given base.
pub open spec fn spec_tss_low(base: u64) -> u64 {
    spec_set_bits64(
        spec_set_bits64(
            spec_set_bits64(
                spec_set_bits64(
                    DescriptorFlags::PRESENT,
                    16,
                    40,
                    spec_get_bits64(base, 0, 24),
                ),
                56,
                64,
                spec_get_bits64(base, 24, 32),
            ),
            0,
            16,
            (TSS_SIZE_BYTES - 1) as u64,
        ),
        40,
        44,
        9,
    )
}

/// High descriptor word of a task state segment descriptor with the given base.
pub open spec fn spec_tss_high(base: u64) -> u64 {
    spec_set_bits64(0, 0, 32, spec_get_bits64(base, 32, 64))
}

/// The long-mode segment descriptor table: eight 64-bit words and a cursor
/// marking the next free word.  Word 0 is the null descriptor and is never
/// handed out by `empty`.
#[derive(Clone, Copy, Debug)]
pub struct GlobalDescriptorTable {
    table: [u64; 8],
    next_free: usize,
}

impl View for GlobalDescriptorTable {
    type V = Seq<u64>;

    /// The words in use, in table order.
    closed spec fn view(&self) -> Seq<u64> {
        self.table@.subrange(0, self.next_free as int)
    }
}

impl GlobalDescriptorTable {
    /// The cursor never runs past the table's capacity.
    pub closed spec fn wf(self) -> bool {
        self.next_free <= 8
    }

    /// A table holding only the null descriptor.
    pub fn empty() -> (r: GlobalDescriptorTable)
        ensures
            r.wf(),
            r@ == seq![0u64],
    {
        let r = GlobalDescriptorTable { table: [0u64; 8], next_free: 1 };
        proof {
            assert(r@ =~= seq![0u64]);
        }
        r
    }

    /// Rebuilds a table from words captured earlier with `as_raw_slice`.
    ///
    /// Whether the words are valid descriptors is the caller's concern;
    /// the table records them as given.
    pub fn from_raw_slice(slice: &[u64]) -> (r: GlobalDescriptorTable)
        requires
            slice@.len() <= 8,
        ensures
            r.wf(),
            r@ == slice@,
    {
        let next_free: usize = slice.len();
        let mut table: [u64; 8] = [0u64; 8];
        let mut idx: usize = 0;

        while idx != next_free
            invariant
                idx <= next_free <= 8,
                slice@.len() == next_free,
                table@.len() == 8,
                forall|j: int| 0 <= j < idx ==> table@[j] == slice@[j],
            decreases next_free - idx,
        {
            table[idx] = *vstd::slice::slice_index_get(slice, idx);
            idx += 1;
        }

        let r = GlobalDescriptorTable { table, next_free };
        proof {
            assert(r@ =~= slice@);
        }
        r
    }

    /// The words in use, as a borrowed prefix of the table's storage.
    pub fn as_raw_slice(&self) -> (r: &[u64])
        requires
            self.wf(),
        ensures
            r@ == self@,
    {
        slice_subrange(array_as_slice(&self.table), 0, self.next_free)
    }

    /// Appends a descriptor and returns its selector.
    ///
    /// The caller must leave enough room: one word for a user segment, two
    /// for a system segment.  `try_add_entry` reports a full table as a
    /// value instead of demanding room up front.
    pub fn add_entry(&mut self, entry: Descriptor) -> (r: SegmentSelector)
        requires
            old(self).wf(),
            old(self)@.len() + entry.spec_word_count() <= 8,
        ensures
            final(self).wf(),
            final(self)@ == old(self)@ + entry.spec_words(),
            r.0 == old(self)@.len() * 8 + entry.spec_rpl(),
    {
        let index: usize = match entry {
            Descriptor::UserSegment(value) => self.push(value),
            Descriptor::SystemSegment(value_low, value_high) => {
                let index = self.push(value_low);
                self.push(value_high);
                index
            },
        };

        let rpl = match entry {
            Descriptor::UserSegment(value) => {
                if value & DescriptorFlags::DPL_RING_3 == DescriptorFlags::DPL_RING_3 {
                    PrivilegeLevel::Ring3
                } else {
                    PrivilegeLevel::Ring0
                }
            },
            Descriptor::SystemSegment(_, _) => PrivilegeLevel::Ring0,
        };

        SegmentSelector::new(index as u16, rpl)
    }

    /// Appends a descriptor if the table has room for it; returns `None`
    /// and leaves the table unchanged when it does not.  Running out of
    /// room is a fatal configuration error for a boot-time caller.
    pub fn try_add_entry(&mut self, entry: Descriptor) -> (r: Option<SegmentSelector>)
        requires
            old(self).wf(),
        ensures
            final(self).wf(),
            old(self)@.len() + entry.spec_word_count() <= 8 ==> (
                final(self)@ == old(self)@ + entry.spec_words()
                && (r matches Some(sel) && sel.0 == old(self)@.len() * 8 + entry.spec_rpl())
            ),
            old(self)@.len() + entry.spec_word_count() > 8 ==> (
                r is None && *final(self) == *old(self)
            ),
    {
        let words: usize = match entry {
            Descriptor::UserSegment(_) => 1,
            Descriptor::SystemSegment(_, _) => 2,
        };
        if self.next_free <= 8 - words {
            Some(self.add_entry(entry))
        } else {
            None
        }
    }

    /// Appends one raw word and returns its index.
    fn push(&mut self, value: u64) -> (index: usize)
        requires
            old(self).wf(),
            old(self)@.len() < 8,
        ensures
            final(self).wf(),
            final(self)@ == old(self)@.push(value),
            index == old(self)@.len(),
    {
        let index = self.next_free;
        self.table[index] = value;
        self.next_free += 1;
        proof {
            assert(self@ =~= old(self)@.push(value));
        }
        index
    }
}

} // verus!
