use oscons::boot::{prepare_handoff, BootInfo, HandoffError};
use oscons::kernel_image::LoadError;
use oscons::paging::{
    gib_page_entry, kernel_pml4_slot, map_kernel_slot, map_low_gib, table_entry, upper_half_base,
};
use oscons::{PageTable, PAGE_PRESENT, PAGE_PS, PAGE_RW};

#[test]
fn kernel_slot_is_in_the_upper_half() {
    assert_eq!(kernel_pml4_slot(0), 256);
    assert_eq!(kernel_pml4_slot(0xFF), 511);
    assert_eq!(kernel_pml4_slot(0x1234_5678_9ABC_DE01), 257);
    assert_eq!(kernel_pml4_slot(u64::MAX), 511);
}

#[test]
fn upper_half_bases_are_canonical() {
    assert_eq!(upper_half_base(256), 0xFFFF_8000_0000_0000);
    assert_eq!(upper_half_base(257), 0xFFFF_8080_0000_0000);
    assert_eq!(upper_half_base(511), 0xFFFF_FF80_0000_0000);
}

#[test]
fn entries_carry_the_right_flags() {
    assert_eq!(PAGE_PRESENT, 1);
    assert_eq!(PAGE_RW, 2);
    assert_eq!(PAGE_PS, 0x80);
    assert_eq!(table_entry(0x1000), 0x1003);
    assert_eq!(gib_page_entry(0), 0x83);
    assert_eq!(gib_page_entry(0x4000_0000), 0x4000_0083);
}

#[test]
fn boot_tables_map_low_gib_and_kernel_slot() {
    let mut pml4 = PageTable::new();
    let mut pdpt = PageTable::new();
    map_low_gib(&mut pml4, &mut pdpt, 0x2000);
    map_kernel_slot(&mut pml4, 300, 0x2000);
    assert_eq!(pml4.entry(0), 0x2003);
    assert_eq!(pml4.entry(300), 0x2003);
    assert_eq!(pml4.entry(1), 0);
    assert_eq!(pdpt.entry(0), 0x83);
    assert_eq!(pdpt.entry(1), 0);
}

fn tiny_elf(entry: u64) -> Vec<u8> {
    let mut f = vec![0x7F, b'E', b'L', b'F', 2, 1, 1, 0, 0, 0, 0, 0, 0, 0, 0, 0];
    f.extend_from_slice(&2u16.to_le_bytes());
    f.extend_from_slice(&0x3Eu16.to_le_bytes());
    f.extend_from_slice(&1u32.to_le_bytes());
    f.extend_from_slice(&entry.to_le_bytes());
    f.extend_from_slice(&64u64.to_le_bytes());
    f.extend_from_slice(&0u64.to_le_bytes());
    f.extend_from_slice(&0u32.to_le_bytes());
    f.extend_from_slice(&64u16.to_le_bytes());
    f.extend_from_slice(&56u16.to_le_bytes());
    f.extend_from_slice(&1u16.to_le_bytes());
    f.extend_from_slice(&64u16.to_le_bytes());
    f.extend_from_slice(&0u16.to_le_bytes());
    f.extend_from_slice(&0u16.to_le_bytes());
    f.extend_from_slice(&1u32.to_le_bytes()); // PT_LOAD
    f.extend_from_slice(&5u32.to_le_bytes());
    f.extend_from_slice(&120u64.to_le_bytes()); // p_offset
    f.extend_from_slice(&0u64.to_le_bytes()); // p_vaddr
    f.extend_from_slice(&0u64.to_le_bytes());
    f.extend_from_slice(&2u64.to_le_bytes()); // p_filesz
    f.extend_from_slice(&4u64.to_le_bytes()); // p_memsz
    f.extend_from_slice(&0x1000u64.to_le_bytes());
    f.extend_from_slice(&[0xC3, 0x90]);
    f
}

#[test]
fn handoff_maps_the_slot_loads_and_places_the_kernel() {
    let mut pml4 = PageTable::new();
    let mut image = vec![0xEEu8; 8];
    let r = prepare_handoff(0x101, &mut pml4, 0x3000, &tiny_elf(0x1), &mut image, 0x20_0000, 0x9000, 0x1000);
    let h = r.unwrap();
    assert_eq!(pml4.entry(257), 0x3003);
    assert_eq!(image, vec![0xC3, 0x90, 0, 0, 0xEE, 0xEE, 0xEE, 0xEE]);
    assert_eq!(h.placement.pml4_slot, 257);
    assert_eq!(h.placement.kernel_virt_base, 0xFFFF_8080_0020_0000);
    assert_eq!(h.placement.entry_virt, 0xFFFF_8080_0020_0001);
    assert_eq!(
        h.info,
        BootInfo { kernel_virt_base: 0xFFFF_8080_0020_0000, memory_map: 0x9000, pml4: 0x1000 }
    );
}

#[test]
fn handoff_reports_a_malformed_kernel() {
    let mut pml4 = PageTable::new();
    let mut image = vec![0u8; 8];
    let r = prepare_handoff(0, &mut pml4, 0x3000, &[1, 2, 3], &mut image, 0x20_0000, 0, 0);
    assert_eq!(r, Err(HandoffError::Load(LoadError::MalformedElf)));
    assert_eq!(pml4.entry(256), 0x3003);
}

#[test]
fn handoff_reports_a_load_base_past_the_address_space() {
    let mut pml4 = PageTable::new();
    let mut image = vec![0u8; 8];
    let r = prepare_handoff(0xFF, &mut pml4, 0x3000, &tiny_elf(0), &mut image, 0x80_0000_0000, 0, 0);
    assert_eq!(r, Err(HandoffError::AddressOverflow));
    assert_eq!(image, vec![0u8; 8]);
}

#[test]
fn handoff_reports_an_entry_point_past_the_address_space() {
    let mut pml4 = PageTable::new();
    let mut image = vec![0u8; 8];
    let r = prepare_handoff(0xFF, &mut pml4, 0x3000, &tiny_elf(u64::MAX), &mut image, 0x20_0000, 0, 0);
    assert_eq!(r, Err(HandoffError::AddressOverflow));
}
