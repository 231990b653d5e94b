use oscons::gdt::{boot_gdt, far_pointer, gdt_pointer, segment_selector, CODE32_SELECTOR, CODE64_SELECTOR, DATA_SELECTOR};
use oscons::{GdtEntry, TablePointer, GDT_ENTRIES};

#[test]
fn boot_gdt_has_flat_code_and_data_segments() {
    let gdt = boot_gdt();
    assert_eq!(gdt[0], GdtEntry::zero());
    for e in &gdt[1..] {
        assert_eq!((e.base_low, e.base_mid, e.base_high), (0, 0, 0));
        assert_eq!((e.limit_low, e.limit_flags & 0x0F), (0xFFFF, 0x0F));
        assert_eq!(e.access & 0x90, 0x90); // present, code or data
    }
    assert_eq!((gdt[1].access, gdt[1].limit_flags >> 4), (0x9A, 0b1100)); // G, DB
    assert_eq!((gdt[2].access, gdt[2].limit_flags >> 4), (0x92, 0b1100));
    assert_eq!((gdt[3].access, gdt[3].limit_flags >> 4), (0x9A, 0b1010)); // G, L
}

#[test]
fn pointers_and_selectors() {
    assert_eq!(gdt_pointer(GDT_ENTRIES, 0x7E00), TablePointer { limit: 31, base: 0x7E00 });
    assert_eq!(TablePointer::empty(), TablePointer { limit: 0, base: 0 });
    assert_eq!(segment_selector(1), CODE32_SELECTOR);
    assert_eq!(segment_selector(2), DATA_SELECTOR);
    assert_eq!(segment_selector(3), CODE64_SELECTOR);
    let p = far_pointer(0x8000, 3);
    assert_eq!(p.offset, 0x8000);
    assert_eq!(p.selector, 0x18);
}
