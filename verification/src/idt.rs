//! The interrupt descriptor table (IDT) and its 16-byte entry encoding.
//!
//! The table has 256 slots, one per interrupt or exception vector.  Each
//! entry packs a 64-bit handler address (split into three fields), a code
//! segment selector and a 16-bit options word into the exact byte layout
//! the processor reads.  Entries are parameterized by a marker type naming
//! the handler shape the vector demands, so a handler of the wrong shape
//! cannot be stored in a typed slot.  Installing the table on the
//! processor is a privileged instruction and lives outside this library.

use vstd::prelude::*;
use core::marker::PhantomData;
use crate::bits::{
    get_bit16, set_bit16, set_bits16, spec_get_bit16, spec_get_bits16, spec_set_bit16,
    spec_set_bits16, spec_mask16,
};
use crate::gdt::PrivilegeLevel;
use x86_64::instructions::segmentation::{Segment, CS};

verus! {

/// Marker for a vector whose handler takes only the stack frame.
#[derive(Clone, Copy, Debug)]
pub struct Handler;

/// Marker for a vector whose handler also receives an error code.
#[derive(Clone, Copy, Debug)]
pub struct HandlerWithErrCode;

/// Marker for the page-fault vector, whose handler receives a decoded
/// page-fault error code.
#[derive(Clone, Copy, Debug)]
pub struct PageFaultHandler;

/// Marker for a vector whose handler must never return.
#[derive(Clone, Copy, Debug)]
pub struct DivergingHandler;

/// Marker for a vector whose handler receives an error code and must
/// never return.
#[derive(Clone, Copy, Debug)]
pub struct DivergingHandlerWithErrCode;

/// The 16-bit options word of an entry: bit 15 is "present", bits 13..15
/// the privilege level required to invoke the vector from software, bit 8
/// the inverted interrupt-disable flag, and bits 0..3 the 1-based index
/// of an alternate stack (0 meaning none).
#[derive(Clone, Copy, Debug)]
pub struct EntryOptions(u16);

impl View for EntryOptions {
    type V = u16;

    closed spec fn view(&self) -> u16 {
        self.0
    }
}

impl EntryOptions {
    /// The minimal valid options word: gate-type bits set, interrupts
    /// disabled during the handler, not present.
    pub fn minimal() -> (r: EntryOptions)
        ensures
            r@ == 0xE00,
    {
        EntryOptions(0b1110_0000_0000)
    }

    /// Marks the vector present (or absent).
    pub fn set_present(&mut self, present: bool)
        ensures
            final(self)@ == spec_set_bit16(old(self)@, 15, present),
    {
        self.0 = set_bit16(self.0, 15, present);
    }

    /// Whether the vector is marked present.
    pub fn present(&self) -> (r: bool)
        ensures
            r == spec_get_bit16(self@, 15),
    {
        get_bit16(self.0, 15)
    }

    /// Chooses whether interrupts stay masked while the handler runs.
    /// The hardware stores the flag inverted: bit 8 set means interrupts
    /// stay enabled.
    pub fn disable_interrupts(&mut self, disable: bool)
        ensures
            final(self)@ == spec_set_bit16(old(self)@, 8, !disable),
    {
        self.0 = set_bit16(self.0, 8, !disable);
    }

    /// Sets the privilege level required to invoke this vector from
    /// software.
    pub fn set_privilege_level(&mut self, dpl: PrivilegeLevel)
        ensures
            final(self)@ == spec_set_bits16(old(self)@, 13, 15, dpl.spec_as_u16()),
    {
        proof {
            assert(spec_mask16(13, 15) == 3) by (bit_vector);
        }
        self.0 = set_bits16(self.0, 13, 15, dpl.as_u16());
    }

    /// Selects an alternate stack for the handler.  The software index is
    /// 0-based while the hardware field is 1-based, so `index + 1` is
    /// stored.  Whether the chosen stack slot actually holds a valid
    /// stack is the caller's concern.
    pub fn set_stack_index(&mut self, index: u16)
        requires
            index < 7,
        ensures
            final(self)@ == spec_set_bits16(old(self)@, 0, 3, (index + 1) as u16),
    {
        proof {
            assert(spec_mask16(0, 3) == 7) by (bit_vector);
        }
        self.0 = set_bits16(self.0, 0, 3, index + 1);
    }

    /// The raw options word.
    pub fn bits(&self) -> (r: u16)
        ensures
            r == self@,
    {
        self.0
    }
}

/// The alternate-stack field stores the 1-based hardware value: after
/// `set_stack_index(index)`, bits 0..3 of the options word read back as
/// `index + 1`, whatever the word held before.
pub proof fn lemma_stack_index_stored(options: u16, index: u16)
    requires
        index < 7,
    ensures
        spec_get_bits16(spec_set_bits16(options, 0, 3, (index + 1) as u16), 0, 3) == index + 1,
{
    assert(spec_mask16(0, 3) == 7) by (bit_vector);
    crate::bits::lemma_set_then_get_bits16(options, 0, 3, (index + 1) as u16);
}

/// The interrupt-disable choice is stored inverted: after
/// `disable_interrupts(disable)`, bit 8 of the options word reads back
/// as `!disable`, whatever the word held before.
pub proof fn lemma_interrupt_flag_stored(options: u16, disable: bool)
    ensures
        spec_get_bit16(spec_set_bit16(options, 8, !disable), 8) == !disable,
{
    crate::bits::lemma_set_then_get_bit16(options, 8, !disable);
}

/// The spec-level contents of one table entry.
pub ghost struct EntryModel {
    pub ptr_lo: u16,
    pub gdt_selector: u16,
    pub options: u16,
    pub ptr_md: u16,
    pub ptr_hi: u32,
    pub reserved: u32,
}

impl EntryModel {
    /// The handler address reassembled from its three fields.
    pub open spec fn handler_addr(self) -> u64 {
        (self.ptr_lo as u64) | ((self.ptr_md as u64) << 16) | ((self.ptr_hi as u64) << 32)
    }

    /// The contents of a freshly built, not-present entry.
    pub open spec fn empty() -> EntryModel {
        EntryModel {
            ptr_lo: 0,
            gdt_selector: 0,
            options: 0xE00,
            ptr_md: 0,
            ptr_hi: 0,
            reserved: 0,
        }
    }

    /// Whether the entry is marked present.
    pub open spec fn present(self) -> bool {
        spec_get_bit16(self.options, 15)
    }
}

/// An address is canonical when its upper 17 bits are a sign extension of
/// bit 47; only such addresses are valid handler addresses.
pub open spec fn spec_is_canonical(addr: u64) -> bool {
    addr < 0x8000_0000_0000 || addr >= 0xFFFF_8000_0000_0000
}

/// Decides whether `addr` is a canonical virtual address.
pub fn is_canonical(addr: u64) -> (r: bool)
    ensures
        r == spec_is_canonical(addr),
{
    addr < 0x8000_0000_0000 || addr >= 0xFFFF_8000_0000_0000
}

/// One slot of the table: the packed 16-byte entry the processor reads.
/// `F` is the marker type of the handler shape this slot demands.
#[derive(Debug)]
pub struct Entry<F> {
    ptr_lo: u16,
    gdt_selector: u16,
    options: EntryOptions,
    ptr_md: u16,
    ptr_hi: u32,
    reserved: u32,
    phantom: PhantomData<F>,
}

impl<F> View for Entry<F> {
    type V = EntryModel;

    closed spec fn view(&self) -> EntryModel {
        EntryModel {
            ptr_lo: self.ptr_lo,
            gdt_selector: self.gdt_selector,
            options: self.options.0,
            ptr_md: self.ptr_md,
            ptr_hi: self.ptr_hi,
            reserved: self.reserved,
        }
    }
}

impl<F> Clone for Entry<F> {
    fn clone(&self) -> (r: Self)
        ensures
            r@ == self@,
    {
        Entry {
            ptr_lo: self.ptr_lo,
            gdt_selector: self.gdt_selector,
            options: self.options,
            ptr_md: self.ptr_md,
            ptr_hi: self.ptr_hi,
            reserved: self.reserved,
            phantom: PhantomData,
        }
    }
}

impl<F> Copy for Entry<F> {

}

impl<F> PartialEq for Entry<F> {
    fn eq(&self, other: &Self) -> (r: bool) {
        self.ptr_lo == other.ptr_lo && self.gdt_selector == other.gdt_selector
            && self.options.0 == other.options.0 && self.ptr_md == other.ptr_md
            && self.ptr_hi == other.ptr_hi && self.reserved == other.reserved
    }
}

impl<F> vstd::std_specs::cmp::PartialEqSpecImpl for Entry<F> {
    open spec fn obeys_eq_spec() -> bool {
        true
    }

    open spec fn eq_spec(&self, other: &Self) -> bool {
        self@ == other@
    }
}

/// Splitting an address into 16/16/32-bit fields and reassembling them
/// gives the address back.
proof fn lemma_addr_split_round_trip(addr: u64)
    by (bit_vector)
    ensures
        ((addr as u16) as u64) | ((((addr >> 16) as u16) as u64) << 16) | ((((addr
            >> 32) as u32) as u64) << 32) == addr,
{
}

/// Relies on `x86_64`'s `CS::get_reg`: reads the processor's current code
/// segment selector register.  The result is machine state, so nothing is
/// promised of it; callers state what holds whatever value comes back.
#[verifier::external_body]
fn read_cs() -> u16 {
    CS::get_reg().0
}

impl<F> Entry<F> {
    /// A not-present entry with the minimal valid options word.
    pub fn empty() -> (r: Self)
        ensures
            r@ == EntryModel::empty(),
    {
        Entry {
            ptr_lo: 0,
            gdt_selector: 0,
            options: EntryOptions::minimal(),
            ptr_md: 0,
            ptr_hi: 0,
            reserved: 0,
            phantom: PhantomData,
        }
    }

    /// Stores a handler address and segment selector and marks the entry
    /// present.  The stored address reassembles to exactly `addr`.
    pub fn set_handler_with_selector(&mut self, addr: u64, selector: u16)
        requires
            spec_is_canonical(addr),
        ensures
            final(self)@ == (EntryModel {
                ptr_lo: addr as u16,
                gdt_selector: selector,
                options: spec_set_bit16(old(self)@.options, 15, true),
                ptr_md: (addr >> 16) as u16,
                ptr_hi: (addr >> 32) as u32,
                reserved: old(self)@.reserved,
            }),
            final(self)@.handler_addr() == addr,
    {
        self.ptr_lo = #[verifier::truncate] (addr as u16);
        self.ptr_md = #[verifier::truncate] ((addr >> 16) as u16);
        self.ptr_hi = #[verifier::truncate] ((addr >> 32) as u32);
        self.gdt_selector = selector;
        self.options.set_present(true);
        proof {
            lemma_addr_split_round_trip(addr);
        }
    }

    /// Stores a handler address, marks the entry present and records the
    /// code segment selector the processor is currently running with, as
    /// an entry installed at boot must name the kernel's own code
    /// segment.  Which selector that is depends on machine state, so the
    /// contract leaves the selector field open.
    pub fn set_handler_addr(&mut self, addr: u64)
        requires
            spec_is_canonical(addr),
        ensures
            final(self)@.ptr_lo == addr as u16,
            final(self)@.ptr_md == (addr >> 16) as u16,
            final(self)@.ptr_hi == (addr >> 32) as u32,
            final(self)@.options == spec_set_bit16(old(self)@.options, 15, true),
            final(self)@.reserved == old(self)@.reserved,
            final(self)@.handler_addr() == addr,
    {
        let selector = read_cs();
        self.set_handler_with_selector(addr, selector);
    }

    /// The handler address stored in this entry.
    pub fn handler_addr(&self) -> (r: u64)
        ensures
            r == self@.handler_addr(),
    {
        self.ptr_lo as u64 | (self.ptr_md as u64) << 16 | (self.ptr_hi as u64) << 32
    }

    /// A copy of the options word.
    pub fn options(&self) -> (r: EntryOptions)
        ensures
            r@ == self@.options,
    {
        self.options
    }

    /// Replaces the options word.
    pub fn set_options(&mut self, options: EntryOptions)
        ensures
            final(self)@ == (EntryModel { options: options@, ..old(self)@ }),
    {
        self.options = options;
    }

    /// The stored code segment selector.
    pub fn gdt_selector(&self) -> (r: u16)
        ensures
            r == self@.gdt_selector,
    {
        self.gdt_selector
    }
}

/// How a vector number may be accessed.
#[derive(Clone, Copy, Debug, PartialEq, Eq, Structural)]
pub enum VectorKind {
    /// A plain-handler vector, reachable through the generic accessors.
    Plain,
    /// An exception that pushes an error code; its typed field must be
    /// used instead.
    WithErrorCode,
    /// An exception whose handler must never return; its typed field
    /// must be used instead.
    Diverging,
    /// Reserved by the hardware; never usable.
    Reserved,
    /// Beyond the table's 256 slots.
    OutOfRange,
}

/// The access class of vector `i`.
pub open spec fn spec_vector_kind(i: int) -> VectorKind {
    if (0 <= i <= 7) || i == 9 || i == 16 || i == 19 || i == 20 || (32 <= i <= 255) {
        VectorKind::Plain
    } else if i == 15 || (21 <= i <= 29) || i == 31 {
        VectorKind::Reserved
    } else if i == 8 || (10 <= i <= 14) || i == 17 || i == 30 {
        VectorKind::WithErrorCode
    } else if i == 18 {
        VectorKind::Diverging
    } else {
        VectorKind::OutOfRange
    }
}

/// Classifies a vector number.
pub fn vector_kind(index: usize) -> (r: VectorKind)
    ensures
        r == spec_vector_kind(index as int),
{
    if index <= 7 || index == 9 || index == 16 || index == 19 || index == 20 || (32 <= index
        && index <= 255) {
        VectorKind::Plain
    } else if index == 15 || (21 <= index && index <= 29) || index == 31 {
        VectorKind::Reserved
    } else if index == 8 || (10 <= index && index <= 14) || index == 17 || index == 30 {
        VectorKind::WithErrorCode
    } else if index == 18 {
        VectorKind::Diverging
    } else {
        VectorKind::OutOfRange
    }
}

/// Why a generic access to a vector was refused.  Each variant carries
/// the offending vector, mirroring the diagnostic a fatal configuration
/// error must give.
#[derive(Clone, Copy, Debug, PartialEq, Eq, Structural)]
pub enum VectorAccessError {
    /// The vector is reserved by the hardware.
    Reserved(usize),
    /// The vector's exception pushes an error code; use its typed field.
    WithErrorCode(usize),
    /// The vector's handler must never return; use its typed field.
    Diverging(usize),
    /// The vector number is past the end of the table.
    OutOfRange(usize),
}

/// The 256-slot interrupt descriptor table.  Vectors 0..32 are the
/// processor's exceptions, each with the handler shape the hardware
/// demands; vectors 32..256 are free for software-defined interrupts.
#[derive(Clone, Copy, Debug)]
pub struct InterruptDescriptorTable {
    pub divide_by_zero: Entry<Handler>,
    pub debug: Entry<Handler>,
    pub non_maskable_interrupt: Entry<Handler>,
    pub breakpoint: Entry<Handler>,
    pub overflow: Entry<Handler>,
    pub bound_range_exceeded: Entry<Handler>,
    pub invalid_opcode: Entry<Handler>,
    pub device_not_available: Entry<Handler>,
    pub double_fault: Entry<DivergingHandlerWithErrCode>,
    coprocessor_segment_overrun: Entry<Handler>,
    pub invalid_tss: Entry<HandlerWithErrCode>,
    pub segment_not_present: Entry<HandlerWithErrCode>,
    pub stack_segment_fault: Entry<HandlerWithErrCode>,
    pub general_protection_fault: Entry<HandlerWithErrCode>,
    pub page_fault: Entry<PageFaultHandler>,
    reserved_1: Entry<Handler>,
    pub x87_floating_point: Entry<Handler>,
    pub alignment_check: Entry<HandlerWithErrCode>,
    pub machine_check: Entry<DivergingHandler>,
    pub simd_floating_point: Entry<Handler>,
    pub virtualization: Entry<Handler>,
    reserved_2: [Entry<Handler>; 9],
    pub security_exception: Entry<HandlerWithErrCode>,
    reserved_3: Entry<Handler>,
    user_interrupts: [Entry<Handler>; 224],
}

impl InterruptDescriptorTable {
    /// The contents of the slot for vector `i`.
    pub closed spec fn entry_model(self, i: int) -> EntryModel {
        if i == 0 {
            self.divide_by_zero@
        } else if i == 1 {
            self.debug@
        } else if i == 2 {
            self.non_maskable_interrupt@
        } else if i == 3 {
            self.breakpoint@
        } else if i == 4 {
            self.overflow@
        } else if i == 5 {
            self.bound_range_exceeded@
        } else if i == 6 {
            self.invalid_opcode@
        } else if i == 7 {
            self.device_not_available@
        } else if i == 8 {
            self.double_fault@
        } else if i == 9 {
            self.coprocessor_segment_overrun@
        } else if i == 10 {
            self.invalid_tss@
        } else if i == 11 {
            self.segment_not_present@
        } else if i == 12 {
            self.stack_segment_fault@
        } else if i == 13 {
            self.general_protection_fault@
        } else if i == 14 {
            self.page_fault@
        } else if i == 15 {
            self.reserved_1@
        } else if i == 16 {
            self.x87_floating_point@
        } else if i == 17 {
            self.alignment_check@
        } else if i == 18 {
            self.machine_check@
        } else if i == 19 {
            self.simd_floating_point@
        } else if i == 20 {
            self.virtualization@
        } else if 21 <= i <= 29 {
            self.reserved_2@[i - 21].view()
        } else if i == 30 {
            self.security_exception@
        } else if i == 31 {
            self.reserved_3@
        } else if 32 <= i <= 255 {
            self.user_interrupts@[i - 32].view()
        } else {
            EntryModel::empty()
        }
    }

    /// A table whose 256 slots are all the not-present empty entry.
    pub fn new() -> (r: InterruptDescriptorTable)
        ensures
            forall|i: int| 0 <= i < 256 ==> r.entry_model(i) == EntryModel::empty(),
            forall|i: int| 0 <= i < 256 ==> !r.entry_model(i).present(),
    {
        let eh: Entry<Handler> = Entry::empty();
        let r = InterruptDescriptorTable {
            divide_by_zero: eh,
            debug: eh,
            non_maskable_interrupt: eh,
            breakpoint: eh,
            overflow: eh,
            bound_range_exceeded: eh,
            invalid_opcode: eh,
            device_not_available: eh,
            double_fault: Entry::empty(),
            coprocessor_segment_overrun: eh,
            invalid_tss: Entry::empty(),
            segment_not_present: Entry::empty(),
            stack_segment_fault: Entry::empty(),
            general_protection_fault: Entry::empty(),
            page_fault: Entry::empty(),
            reserved_1: eh,
            x87_floating_point: eh,
            alignment_check: Entry::empty(),
            machine_check: Entry::empty(),
            simd_floating_point: eh,
            virtualization: eh,
            reserved_2: [eh; 9],
            security_exception: Entry::empty(),
            reserved_3: eh,
            user_interrupts: [eh; 224],
        };
        proof {
            assert(!spec_get_bit16(0xE00, 15)) by (bit_vector);
        }
        r
    }

    /// Resets every slot to the not-present empty entry.
    pub fn clear(&mut self)
        ensures
            forall|i: int| 0 <= i < 256 ==> final(self).entry_model(i) == EntryModel::empty(),
    {
        *self = Self::new();
    }

    /// The entry for a plain-handler vector.
    pub fn entry(&self, index: usize) -> (r: Entry<Handler>)
        requires
            spec_vector_kind(index as int) is Plain,
        ensures
            r@ == self.entry_model(index as int),
    {
        if index == 0 {
            self.divide_by_zero
        } else if index == 1 {
            self.debug
        } else if index == 2 {
            self.non_maskable_interrupt
        } else if index == 3 {
            self.breakpoint
        } else if index == 4 {
            self.overflow
        } else if index == 5 {
            self.bound_range_exceeded
        } else if index == 6 {
            self.invalid_opcode
        } else if index == 7 {
            self.device_not_available
        } else if index == 9 {
            self.coprocessor_segment_overrun
        } else if index == 16 {
            self.x87_floating_point
        } else if index == 19 {
            self.simd_floating_point
        } else if index == 20 {
            self.virtualization
        } else {
            *vstd::array::array_index_get(&self.user_interrupts, index - 32)
        }
    }

    /// Replaces the entry of a plain-handler vector, leaving every other
    /// slot as it was.
    pub fn set_entry(&mut self, index: usize, entry: Entry<Handler>)
        requires
            spec_vector_kind(index as int) is Plain,
        ensures
            final(self).entry_model(index as int) == entry@,
            forall|j: int|
                0 <= j < 256 && j != index ==> final(self).entry_model(j) == old(
                    self,
                ).entry_model(j),
    {
        if index == 0 {
            self.divide_by_zero = entry;
        } else if index == 1 {
            self.debug = entry;
        } else if index == 2 {
            self.non_maskable_interrupt = entry;
        } else if index == 3 {
            self.breakpoint = entry;
        } else if index == 4 {
            self.overflow = entry;
        } else if index == 5 {
            self.bound_range_exceeded = entry;
        } else if index == 6 {
            self.invalid_opcode = entry;
        } else if index == 7 {
            self.device_not_available = entry;
        } else if index == 9 {
            self.coprocessor_segment_overrun = entry;
        } else if index == 16 {
            self.x87_floating_point = entry;
        } else if index == 19 {
            self.simd_floating_point = entry;
        } else if index == 20 {
            self.virtualization = entry;
        } else {
            self.user_interrupts[index - 32] = entry;
        }
    }

    /// The entry for a plain-handler vector, or the exact reason the
    /// vector cannot be accessed generically.  A boot-time caller treats
    /// every error here as a fatal configuration mistake.
    pub fn try_entry(&self, index: usize) -> (r: Result<Entry<Handler>, VectorAccessError>)
        ensures
            spec_vector_kind(index as int) is Plain ==> (r matches Ok(e) && e@ == self.entry_model(
                index as int,
            )),
            spec_vector_kind(index as int) is Reserved ==> r == Err::<
                Entry<Handler>,
                VectorAccessError,
            >(VectorAccessError::Reserved(index)),
            spec_vector_kind(index as int) is WithErrorCode ==> r == Err::<
                Entry<Handler>,
                VectorAccessError,
            >(VectorAccessError::WithErrorCode(index)),
            spec_vector_kind(index as int) is Diverging ==> r == Err::<
                Entry<Handler>,
                VectorAccessError,
            >(VectorAccessError::Diverging(index)),
            spec_vector_kind(index as int) is OutOfRange ==> r == Err::<
                Entry<Handler>,
                VectorAccessError,
            >(VectorAccessError::OutOfRange(index)),
    {
        match vector_kind(index) {
            VectorKind::Plain => Ok(self.entry(index)),
            VectorKind::Reserved => Err(VectorAccessError::Reserved(index)),
            VectorKind::WithErrorCode => Err(VectorAccessError::WithErrorCode(index)),
            VectorKind::Diverging => Err(VectorAccessError::Diverging(index)),
            VectorKind::OutOfRange => Err(VectorAccessError::OutOfRange(index)),
        }
    }

    /// Replaces the entry of a plain-handler vector, or reports the exact
    /// reason the vector cannot be accessed generically, leaving the
    /// table unchanged.
    pub fn try_set_entry(&mut self, index: usize, entry: Entry<Handler>) -> (r: Result<
        (),
        VectorAccessError,
    >)
        ensures
            spec_vector_kind(index as int) is Plain ==> (r is Ok && final(self).entry_model(
                index as int,
            ) == entry@ && (forall|j: int|
                0 <= j < 256 && j != index ==> final(self).entry_model(j) == old(
                    self,
                ).entry_model(j))),
            !(spec_vector_kind(index as int) is Plain) ==> (*final(self) == *old(self)
                && r is Err),
            spec_vector_kind(index as int) is Reserved ==> r == Err::<(), VectorAccessError>(
                VectorAccessError::Reserved(index),
            ),
            spec_vector_kind(index as int) is WithErrorCode ==> r == Err::<(), VectorAccessError>(
                VectorAccessError::WithErrorCode(index),
            ),
            spec_vector_kind(index as int) is Diverging ==> r == Err::<(), VectorAccessError>(
                VectorAccessError::Diverging(index),
            ),
            spec_vector_kind(index as int) is OutOfRange ==> r == Err::<(), VectorAccessError>(
                VectorAccessError::OutOfRange(index),
            ),
    {
        match vector_kind(index) {
            VectorKind::Plain => {
                self.set_entry(index, entry);
                Ok(())
            },
            VectorKind::Reserved => Err(VectorAccessError::Reserved(index)),
            VectorKind::WithErrorCode => Err(VectorAccessError::WithErrorCode(index)),
            VectorKind::Diverging => Err(VectorAccessError::Diverging(index)),
            VectorKind::OutOfRange => Err(VectorAccessError::OutOfRange(index)),
        }
    }

    /// Installs a handler address into a plain-handler vector: stores the
    /// address, records the current code segment selector and marks the
    /// slot present.  Every other slot keeps its contents.
    pub fn set_handler(&mut self, index: usize, addr: u64)
        requires
            spec_vector_kind(index as int) is Plain,
            spec_is_canonical(addr),
        ensures
            final(self).entry_model(index as int).handler_addr() == addr,
            final(self).entry_model(index as int).present(),
            forall|j: int|
                0 <= j < 256 && j != index ==> final(self).entry_model(j) == old(
                    self,
                ).entry_model(j),
    {
        let mut e = self.entry(index);
        e.set_handler_addr(addr);
        proof {
            crate::bits::lemma_set_then_get_bit16(old(self).entry_model(index as int).options, 15, true);
        }
        self.set_entry(index, e);
    }
}

impl vstd::std_specs::cmp::PartialEqSpecImpl for InterruptDescriptorTable {
    open spec fn obeys_eq_spec() -> bool {
        true
    }

    open spec fn eq_spec(&self, other: &Self) -> bool {
        forall|i: int| 0 <= i < 256 ==> self.entry_model(i) == other.entry_model(i)
    }
}

impl PartialEq for InterruptDescriptorTable {
    /// Two tables are equal when all 256 slots hold the same contents.
    #[verifier::rlimit(60)]
    fn eq(&self, other: &Self) -> (r: bool) {
        let named = self.divide_by_zero == other.divide_by_zero && self.debug == other.debug
            && self.non_maskable_interrupt == other.non_maskable_interrupt
            && self.breakpoint == other.breakpoint && self.overflow == other.overflow
            && self.bound_range_exceeded == other.bound_range_exceeded
            && self.invalid_opcode == other.invalid_opcode
            && self.device_not_available == other.device_not_available
            && self.double_fault == other.double_fault
            && self.coprocessor_segment_overrun == other.coprocessor_segment_overrun
            && self.invalid_tss == other.invalid_tss
            && self.segment_not_present == other.segment_not_present
            && self.stack_segment_fault == other.stack_segment_fault
            && self.general_protection_fault == other.general_protection_fault
            && self.page_fault == other.page_fault && self.reserved_1 == other.reserved_1
            && self.x87_floating_point == other.x87_floating_point
            && self.alignment_check == other.alignment_check
            && self.machine_check == other.machine_check
            && self.simd_floating_point == other.simd_floating_point
            && self.virtualization == other.virtualization
            && self.security_exception == other.security_exception
            && self.reserved_3 == other.reserved_3;
        if !named {
            proof {
                if self.divide_by_zero@ != other.divide_by_zero@ {
                    assert(self.entry_model(0) != other.entry_model(0));
                } else if self.debug@ != other.debug@ {
                    assert(self.entry_model(1) != other.entry_model(1));
                } else if self.non_maskable_interrupt@ != other.non_maskable_interrupt@ {
                    assert(self.entry_model(2) != other.entry_model(2));
                } else if self.breakpoint@ != other.breakpoint@ {
                    assert(self.entry_model(3) != other.entry_model(3));
                } else if self.overflow@ != other.overflow@ {
                    assert(self.entry_model(4) != other.entry_model(4));
                } else if self.bound_range_exceeded@ != other.bound_range_exceeded@ {
                    assert(self.entry_model(5) != other.entry_model(5));
                } else if self.invalid_opcode@ != other.invalid_opcode@ {
                    assert(self.entry_model(6) != other.entry_model(6));
                } else if self.device_not_available@ != other.device_not_available@ {
                    assert(self.entry_model(7) != other.entry_model(7));
                } else if self.double_fault@ != other.double_fault@ {
                    assert(self.entry_model(8) != other.entry_model(8));
                } else if self.coprocessor_segment_overrun@ != other.coprocessor_segment_overrun@ {
                    assert(self.entry_model(9) != other.entry_model(9));
                } else if self.invalid_tss@ != other.invalid_tss@ {
                    assert(self.entry_model(10) != other.entry_model(10));
                } else if self.segment_not_present@ != other.segment_not_present@ {
                    assert(self.entry_model(11) != other.entry_model(11));
                } else if self.stack_segment_fault@ != other.stack_segment_fault@ {
                    assert(self.entry_model(12) != other.entry_model(12));
                } else if self.general_protection_fault@ != other.general_protection_fault@ {
                    assert(self.entry_model(13) != other.entry_model(13));
                } else if self.page_fault@ != other.page_fault@ {
                    assert(self.entry_model(14) != other.entry_model(14));
                } else if self.reserved_1@ != other.reserved_1@ {
                    assert(self.entry_model(15) != other.entry_model(15));
                } else if self.x87_floating_point@ != other.x87_floating_point@ {
                    assert(self.entry_model(16) != other.entry_model(16));
                } else if self.alignment_check@ != other.alignment_check@ {
                    assert(self.entry_model(17) != other.entry_model(17));
                } else if self.machine_check@ != other.machine_check@ {
                    assert(self.entry_model(18) != other.entry_model(18));
                } else if self.simd_floating_point@ != other.simd_floating_point@ {
                    assert(self.entry_model(19) != other.entry_model(19));
                } else if self.virtualization@ != other.virtualization@ {
                    assert(self.entry_model(20) != other.entry_model(20));
                } else if self.security_exception@ != other.security_exception@ {
                    assert(self.entry_model(30) != other.entry_model(30));
                } else {
                    assert(self.reserved_3@ != other.reserved_3@);
                    assert(self.entry_model(31) != other.entry_model(31));
                }
            }
            return false;
        }
        let mut i: usize = 0;
        while i < 9
            invariant
                i <= 9,
                forall|j: int|
                    0 <= j < i ==> self.reserved_2@[j].view() == other.reserved_2@[j].view(),
            decreases 9 - i,
        {
            let a = *vstd::array::array_index_get(&self.reserved_2, i);
            let b = *vstd::array::array_index_get(&other.reserved_2, i);
            if !(a == b) {
                proof {
                    assert(self.entry_model(21 + i as int) != other.entry_model(21 + i as int));
                }
                return false;
            }
            i += 1;
        }
        let mut k: usize = 0;
        while k < 224
            invariant
                k <= 224,
                forall|j: int|
                    0 <= j < k ==> self.user_interrupts@[j].view()
                        == other.user_interrupts@[j].view(),
            decreases 224 - k,
        {
            let a = *vstd::array::array_index_get(&self.user_interrupts, k);
            let b = *vstd::array::array_index_get(&other.user_interrupts, k);
            if !(a == b) {
                proof {
                    assert(self.entry_model(32 + k as int) != other.entry_model(32 + k as int));
                }
                return false;
            }
            k += 1;
        }
        true
    }
}

/// A table with every slot empty equals a freshly built table, slot by
/// slot: clearing a table and rebuilding one from scratch give the same
/// contents.
pub proof fn lemma_cleared_table_is_fresh(a: InterruptDescriptorTable, b: InterruptDescriptorTable)
    requires
        forall|i: int| 0 <= i < 256 ==> a.entry_model(i) == EntryModel::empty(),
        forall|i: int| 0 <= i < 256 ==> b.entry_model(i) == EntryModel::empty(),
    ensures
        forall|i: int| 0 <= i < 256 ==> a.entry_model(i) == b.entry_model(i),
{
}

} // verus!
