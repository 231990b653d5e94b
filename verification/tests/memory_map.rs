use oscons::e820::{e820_reply, SMAP};
use oscons::{E820Entry, EntryType, MemoryMap, MAX_E820_ENTRIES};

fn entry(base: u64, len: u64, t: u32, acpi: u32) -> E820Entry {
    E820Entry { base, len, entry_type: EntryType(t), acpi }
}

fn text(v: Vec<u8>) -> String {
    String::from_utf8(v).unwrap()
}

#[test]
fn entry_types_have_names() {
    assert_eq!(text(EntryType(1).to_text()), "Usable");
    assert_eq!(text(EntryType(2).to_text()), "Reserved");
    assert_eq!(text(EntryType(3).to_text()), "ACPI Reclaimable");
    assert_eq!(text(EntryType(4).to_text()), "ACPI NVS");
    assert_eq!(text(EntryType(5).to_text()), "Bad Memory");
    assert_eq!(text(EntryType(0).to_text()), "Unknown(0)");
    assert_eq!(text(EntryType(4096).to_text()), "Unknown(4096)");
}

#[test]
fn entries_show_hex_fields_and_acpi_state() {
    assert_eq!(
        text(entry(0, 0x9fc00, 1, 1).to_text()),
        "base: 0  len: 9fc00  type: Usable  acpi: 0x1 (valid)"
    );
    assert_eq!(
        text(entry(0x100000, 0x7ee0000, 2, 3).to_text()),
        "base: 100000  len: 7ee0000  type: Reserved  acpi: 0x3 (valid, non-volatile)"
    );
    assert_eq!(
        text(entry(0xfffc0000, 0x40000, 9, 0).to_text()),
        "base: fffc0000  len: 40000  type: Unknown(9)  acpi: 0x0 (invalid)"
    );
}

#[test]
fn acpi_bits() {
    let e = entry(0, 0, 1, 2);
    assert!(!e.is_valid());
    assert!(e.is_non_volatile());
    let mut f = entry(5, 6, 1, 0);
    f.prepare_for_query();
    assert_eq!(f, entry(5, 6, 1, 1));
    assert_eq!(E820Entry::zero(), entry(0, 0, 0, 0));
}

#[test]
fn reply_is_accepted_only_with_signature_and_clear_carry() {
    assert_eq!(SMAP, 0x534D4150);
    assert_eq!(e820_reply(true, SMAP, 7), Some(7));
    assert_eq!(e820_reply(true, SMAP, 0), Some(0));
    assert_eq!(e820_reply(false, SMAP, 7), None);
    assert_eq!(e820_reply(true, 0x1234, 7), None);
}

#[test]
fn map_collects_replies_until_the_last_entry() {
    let mut map = MemoryMap::new();
    assert_eq!(map.record_reply(entry(0, 0x9fc00, 1, 1), Some(20)), Some(20));
    assert_eq!(map.record_reply(entry(0x9fc00, 0x400, 2, 1), Some(0)), None);
    assert_eq!(map.count, 2);
    assert_eq!(map.entries[1], entry(0x9fc00, 0x400, 2, 1));
    assert_eq!(
        text(map.to_text()),
        "base: 0  len: 9fc00  type: Usable  acpi: 0x1 (valid)\r\nbase: 9fc00  len: 400  type: Reserved  acpi: 0x1 (valid)\r\n"
    );
}

#[test]
fn failed_query_ends_the_scan_without_an_entry() {
    let mut map = MemoryMap::new();
    assert_eq!(map.record_reply(entry(0, 0, 0, 1), None), None);
    assert_eq!(map.count, 0);
    assert_eq!(map.entries[0], entry(0, 0, 0, 1)); // the slot keeps what the query wrote
    assert_eq!(map.to_text(), Vec::<u8>::new());
}

#[test]
fn map_stops_when_full() {
    let mut map = MemoryMap::new();
    for i in 0..MAX_E820_ENTRIES - 1 {
        assert!(map.has_room());
        assert_eq!(map.record_reply(entry(i as u64, 1, 1, 1), Some(5)), Some(5));
    }
    assert_eq!(map.record_reply(entry(99, 1, 1, 1), Some(5)), None);
    assert_eq!(map.count, MAX_E820_ENTRIES);
    assert!(!map.has_room());
}
