use rust_os::gdt::{
    Descriptor, DescriptorFlags, GlobalDescriptorTable, PrivilegeLevel, SegmentSelector,
    TSS_SIZE_BYTES,
};
use rust_os::bits::{get_bits64, set_bits64};
use rust_os::QemuExitCode;

#[test]
fn empty_table_holds_only_null_descriptor() {
    let gdt = GlobalDescriptorTable::empty();
    assert_eq!(gdt.as_raw_slice(), &[0u64]);
}

#[test]
fn composed_flag_constants_match_hardware_values() {
    assert_eq!(DescriptorFlags::KERNEL_CODE64, 0x00af_9b00_0000_ffff);
    assert_eq!(DescriptorFlags::KERNEL_DATA, 0x00cf_9300_0000_ffff);
    assert_eq!(DescriptorFlags::USER_CODE64, 0x00af_fb00_0000_ffff);
    assert_eq!(DescriptorFlags::USER_DATA, 0x00cf_f300_0000_ffff);
}

#[test]
fn adding_fills_capacity_and_ninth_word_is_refused() {
    let mut gdt = GlobalDescriptorTable::empty();
    // the null descriptor occupies one word; seven more fit
    for n in 0..7 {
        let sel = gdt.try_add_entry(Descriptor::kernel_data_segment());
        assert!(sel.is_some(), "entry {} should fit", n);
    }
    assert_eq!(gdt.as_raw_slice().len(), 8);
    // the table is full: one more word cannot be added
    assert_eq!(gdt.try_add_entry(Descriptor::kernel_data_segment()), None);
    assert_eq!(gdt.as_raw_slice().len(), 8);
}

#[test]
fn system_segment_needs_two_free_words() {
    let mut gdt = GlobalDescriptorTable::empty();
    for _ in 0..6 {
        gdt.add_entry(Descriptor::kernel_data_segment());
    }
    // seven words used; a two-word descriptor no longer fits
    assert_eq!(gdt.try_add_entry(Descriptor::tss_segment(0x1000)), None);
    // but a one-word descriptor still does
    assert!(gdt.try_add_entry(Descriptor::kernel_code_segment()).is_some());
}

#[test]
fn ring3_flag_sets_selector_privilege() {
    let mut gdt = GlobalDescriptorTable::empty();
    let kernel = gdt.add_entry(Descriptor::kernel_code_segment());
    let user = gdt.add_entry(Descriptor::user_code_segment());
    assert_eq!(kernel.rpl(), PrivilegeLevel::Ring0);
    assert_eq!(kernel.0 & 3, 0);
    assert_eq!(kernel.index(), 1);
    assert_eq!(user.rpl(), PrivilegeLevel::Ring3);
    assert_eq!(user.0 & 3, 3);
    assert_eq!(user.index(), 2);
}

#[test]
fn tss_descriptor_resolves_to_ring0_and_two_words() {
    let mut gdt = GlobalDescriptorTable::empty();
    let before = gdt.as_raw_slice().len();
    let sel = gdt.add_entry(Descriptor::tss_segment(0xdead_0000));
    assert_eq!(gdt.as_raw_slice().len(), before + 2);
    assert_eq!(sel.rpl(), PrivilegeLevel::Ring0);
    assert_eq!(sel.index() as usize, before);
}

#[test]
fn tss_descriptor_encoding_is_bit_exact() {
    let base: u64 = 0x1234_5678_9abc_def0;
    let d = Descriptor::tss_segment(base);
    match d {
        Descriptor::SystemSegment(low, high) => {
            let expected_low: u64 = (1u64 << 47)  // present
                | (0xbc_def0u64 << 16)            // base bits 0..24
                | (0x9au64 << 56)                 // base bits 24..32
                | (TSS_SIZE_BYTES - 1)            // limit
                | (9u64 << 40);                   // available 64-bit tss
            assert_eq!(low, expected_low);
            assert_eq!(high, 0x1234_5678);
        },
        Descriptor::UserSegment(_) => panic!("tss descriptor must be a system segment"),
    }
}

#[test]
fn raw_slice_round_trip() {
    let mut gdt = GlobalDescriptorTable::empty();
    gdt.add_entry(Descriptor::kernel_code_segment());
    gdt.add_entry(Descriptor::user_data_segment());
    let copy = GlobalDescriptorTable::from_raw_slice(gdt.as_raw_slice());
    assert_eq!(copy.as_raw_slice(), gdt.as_raw_slice());
}

#[test]
fn selector_packs_index_and_ring() {
    let sel = SegmentSelector::new(3, PrivilegeLevel::Ring3);
    assert_eq!(sel.0, 3 * 8 + 3);
    assert_eq!(sel.index(), 3);
    assert_eq!(sel.rpl(), PrivilegeLevel::Ring3);
}

#[test]
fn bit_field_helpers_read_and_write_ranges() {
    let x = set_bits64(0, 16, 40, 0xaa_bbcc);
    assert_eq!(x, 0xaa_bbcc << 16);
    assert_eq!(get_bits64(x, 16, 40), 0xaa_bbcc);
    assert_eq!(get_bits64(0xffff_ffff_ffff_ffff, 32, 64), 0xffff_ffff);
    let y = set_bits64(0xffff_ffff_ffff_ffff, 0, 16, 0);
    assert_eq!(y, 0xffff_ffff_ffff_0000);
}

#[test]
fn emulator_exit_codes() {
    assert_eq!(QemuExitCode::Success.code(), 0x10);
    assert_eq!(QemuExitCode::Failed.code(), 0x11);
}
