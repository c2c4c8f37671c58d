use rust_os::idt::{
    Entry, EntryOptions, Handler, InterruptDescriptorTable, VectorAccessError, VectorKind,
    is_canonical, vector_kind,
};
use rust_os::gdt::PrivilegeLevel;

fn is_reserved_vector(i: usize) -> bool {
    i == 15 || (21..=29).contains(&i) || i == 31
}

fn is_err_code_vector(i: usize) -> bool {
    i == 8 || (10..=14).contains(&i) || i == 17 || i == 30
}

#[test]
fn fresh_table_has_no_present_entry() {
    let idt = InterruptDescriptorTable::new();
    for i in 0..256usize {
        if let Ok(entry) = idt.try_entry(i) {
            assert!(!entry.options().present(), "vector {} fresh but present", i);
            assert_eq!(entry.handler_addr(), 0);
        }
    }
    assert!(!idt.double_fault.options().present());
    assert!(!idt.page_fault.options().present());
    assert!(!idt.machine_check.options().present());
    assert!(!idt.general_protection_fault.options().present());
}

#[test]
fn generic_access_rejects_special_vectors() {
    let idt = InterruptDescriptorTable::new();
    for i in 0..256usize {
        let r = idt.try_entry(i);
        if is_reserved_vector(i) {
            assert_eq!(r, Err(VectorAccessError::Reserved(i)), "vector {}", i);
        } else if is_err_code_vector(i) {
            assert_eq!(r, Err(VectorAccessError::WithErrorCode(i)), "vector {}", i);
        } else if i == 18 {
            assert_eq!(r, Err(VectorAccessError::Diverging(i)));
        } else {
            assert!(r.is_ok(), "vector {} should be generic", i);
        }
    }
    assert_eq!(
        idt.try_entry(256),
        Err(VectorAccessError::OutOfRange(256))
    );
    assert_eq!(vector_kind(9), VectorKind::Plain);
    assert_eq!(vector_kind(18), VectorKind::Diverging);
    assert_eq!(vector_kind(1000), VectorKind::OutOfRange);
}

#[test]
fn handler_addr_round_trips_across_canonical_range() {
    let addrs: [u64; 6] = [
        0x0,
        0x1234,
        0xdead_beef,
        0x0000_7fff_ffff_f000,
        0xffff_8000_0000_0000,
        0xffff_ffff_8000_1000,
    ];
    for &addr in addrs.iter() {
        assert!(is_canonical(addr));
        let mut e: Entry<Handler> = Entry::empty();
        e.set_handler_addr(addr);
        assert_eq!(e.handler_addr(), addr, "address {:#x}", addr);
        assert!(e.options().present());
    }
    assert!(!is_canonical(0x8000_0000_0000));
    assert!(!is_canonical(0xffff_7fff_ffff_ffff));
}

#[test]
fn set_handler_with_selector_stores_selector() {
    let mut e: Entry<Handler> = Entry::empty();
    e.set_handler_with_selector(0xffff_ffff_8000_1000, 0x08);
    assert_eq!(e.gdt_selector(), 0x08);
    assert_eq!(e.handler_addr(), 0xffff_ffff_8000_1000);
    assert!(e.options().present());
}

#[test]
fn set_handler_on_software_vector() {
    let mut idt = InterruptDescriptorTable::new();
    idt.set_handler(33, 0x1_0000);
    let e = idt.try_entry(33).unwrap();
    assert_eq!(e.handler_addr(), 0x1_0000);
    assert!(e.options().present());
    // neighbours untouched
    assert!(!idt.try_entry(32).unwrap().options().present());
    assert!(!idt.try_entry(34).unwrap().options().present());
}

#[test]
fn try_set_entry_respects_vector_classes() {
    let mut idt = InterruptDescriptorTable::new();
    let mut e: Entry<Handler> = Entry::empty();
    e.set_handler_with_selector(0x2000, 0x08);
    assert!(idt.try_set_entry(42, e).is_ok());
    assert_eq!(idt.try_entry(42).unwrap().handler_addr(), 0x2000);
    assert_eq!(idt.try_set_entry(18, e), Err(VectorAccessError::Diverging(18)));
    assert_eq!(idt.try_set_entry(25, e), Err(VectorAccessError::Reserved(25)));
    assert_eq!(idt.try_set_entry(13, e), Err(VectorAccessError::WithErrorCode(13)));
    assert_eq!(idt.try_set_entry(999, e), Err(VectorAccessError::OutOfRange(999)));
}

#[test]
fn minimal_options_word() {
    let o = EntryOptions::minimal();
    assert_eq!(o.bits(), 0xE00);
    assert!(!o.present());
}

#[test]
fn stack_index_is_stored_one_based() {
    let mut o = EntryOptions::minimal();
    o.set_stack_index(0);
    assert_eq!(o.bits() & 0x7, 1);
    let mut o2 = EntryOptions::minimal();
    o2.set_stack_index(2);
    assert_eq!(o2.bits() & 0x7, 3);
    let mut o3 = EntryOptions::minimal();
    o3.set_stack_index(6);
    assert_eq!(o3.bits() & 0x7, 7);
}

#[test]
fn interrupt_flag_is_stored_inverted() {
    let mut o = EntryOptions::minimal();
    o.disable_interrupts(false);
    assert_eq!(o.bits() & 0x100, 0x100);
    o.disable_interrupts(true);
    assert_eq!(o.bits() & 0x100, 0);
}

#[test]
fn present_and_privilege_bits() {
    let mut o = EntryOptions::minimal();
    o.set_present(true);
    assert_eq!(o.bits() & 0x8000, 0x8000);
    assert!(o.present());
    o.set_present(false);
    assert!(!o.present());
    o.set_privilege_level(PrivilegeLevel::Ring3);
    assert_eq!((o.bits() >> 13) & 0x3, 3);
    o.set_privilege_level(PrivilegeLevel::Ring0);
    assert_eq!((o.bits() >> 13) & 0x3, 0);
}

#[test]
fn cleared_table_equals_fresh_table() {
    let mut idt = InterruptDescriptorTable::new();
    idt.set_handler(40, 0x7000);
    idt.double_fault.set_handler_with_selector(0x9000, 0x08);
    assert!(idt != InterruptDescriptorTable::new());
    idt.clear();
    assert!(idt == InterruptDescriptorTable::new());
}

#[test]
fn entry_equality_is_field_wise() {
    let mut a: Entry<Handler> = Entry::empty();
    let b: Entry<Handler> = Entry::empty();
    assert!(a == b);
    a.set_handler_with_selector(0x3000, 0x08);
    assert!(a != b);
    let mut c: Entry<Handler> = Entry::empty();
    c.set_handler_with_selector(0x3000, 0x08);
    assert!(a == c);
}
