use oscons::vga::{cell_offset, VgaWrite};
use oscons::{vga_cell, Vga, VGA_COLS, VGA_ROWS, WHITE_ON_BLACK};

#[test]
fn cell_packs_attribute_over_character() {
    assert_eq!(vga_cell(0x0F, b'A'), 0x0F41);
    assert_eq!(vga_cell(0x1E, 0xFF), 0x1EFF);
    assert_eq!(cell_offset(2, 5), 165);
}

#[test]
fn text_advances_the_cursor() {
    let mut vga = Vga { row: 0, col: 0 };
    let writes = vga.write_str("Hi\nX");
    assert_eq!(
        writes,
        vec![
            VgaWrite { row: 0, col: 0, cell: 0x0F48 },
            VgaWrite { row: 0, col: 1, cell: 0x0F69 },
            VgaWrite { row: 1, col: 0, cell: 0x0F58 },
        ]
    );
    assert_eq!(vga, Vga { row: 1, col: 1 });
}

#[test]
fn carriage_return_goes_back_to_column_zero() {
    let mut vga = Vga { row: 3, col: 7 };
    let writes = vga.write_str("ab\rc\r\n");
    assert_eq!(writes.len(), 3);
    assert_eq!(writes[2], VgaWrite { row: 3, col: 0, cell: vga_cell(WHITE_ON_BLACK, b'c') });
    assert_eq!(vga, Vga { row: 4, col: 0 });
}

#[test]
fn a_full_row_wraps_before_the_next_character() {
    let mut vga = Vga { row: 0, col: 79 };
    let writes = vga.write_bytes(b"yz");
    assert_eq!(writes[0], VgaWrite { row: 0, col: 79, cell: vga_cell(WHITE_ON_BLACK, b'y') });
    assert_eq!(writes[1], VgaWrite { row: 1, col: 0, cell: vga_cell(WHITE_ON_BLACK, b'z') });
    assert_eq!(vga, Vga { row: 1, col: 1 });
}

#[test]
fn writing_in_two_parts_equals_writing_the_whole() {
    let mut a = Vga { row: 0, col: 75 };
    let mut whole = a.write_str("hello\nworld").clone();
    let mut b = Vga { row: 0, col: 75 };
    let mut parts = b.write_str("hello\nwo");
    parts.extend(b.write_str("rld"));
    assert_eq!(a, b);
    assert_eq!(whole.len(), parts.len());
    whole.retain(|_| true);
    assert_eq!(whole, parts);
}

#[test]
fn clear_blanks_every_cell_and_homes_the_cursor() {
    let mut vga = Vga { row: 12, col: 40 };
    let writes = vga.clear();
    assert_eq!(writes.len(), (VGA_ROWS * VGA_COLS) as usize);
    assert_eq!(writes[0], VgaWrite { row: 0, col: 0, cell: 0x0F20 });
    assert_eq!(writes[81], VgaWrite { row: 1, col: 1, cell: 0x0F20 });
    assert_eq!(writes[1999], VgaWrite { row: 24, col: 79, cell: 0x0F20 });
    assert_eq!(vga, Vga { row: 0, col: 0 });
}

#[test]
fn rows_advance_by_newlines_and_wraps() {
    let mut vga = Vga { row: 5, col: 79 };
    let writes = vga.write_str("ab\ncd");
    assert_eq!(writes.len(), 4);
    assert_eq!(writes[1], VgaWrite { row: 6, col: 0, cell: vga_cell(WHITE_ON_BLACK, b'b') });
    // one newline and one wrap
    assert_eq!(vga, Vga { row: 7, col: 2 });
    let mut same = Vga { row: 7, col: 2 };
    assert!(same.write_str("").is_empty());
    assert_eq!(same, Vga { row: 7, col: 2 });
}
