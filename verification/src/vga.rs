//! The VGA text console: 80 columns by 25 rows of 16-bit cells, each an
//! attribute byte over a character byte.  The console object tracks the
//! cursor and decides which cells to write; storing them into the buffer at
//! 0xB8000 is left to the caller.
use vstd::prelude::*;
use vstd::string::StringSliceAdditionalSpecFns;

verus! {

/// Columns of the text screen.
pub const VGA_COLS: u32 = 80;

/// Rows of the text screen.
pub const VGA_ROWS: u32 = 25;

/// White text on a black background.
pub const WHITE_ON_BLACK: u8 = 0x0F;

/// The cell that shows `ch` with attribute `attr`.
pub open spec fn vga_cell_spec(attr: u8, ch: u8) -> u16 {
    (attr as int * 256 + ch as int) as u16
}

/// Packs an attribute and a character into one text-mode cell: the attribute
/// in the high byte, the character in the low byte.
pub fn vga_cell(attr: u8, ch: u8) -> (cell: u16)
    ensures
        cell == attr as int * 256 + ch as int,
        cell == vga_cell_spec(attr, ch),
        cell >> 8u16 == attr as u16,
        cell & 0xFFu16 == ch as u16,
{
    proof {
        assert(((attr as u16) << 8u16 | ch as u16) == attr as int * 256 + ch as int) by (bit_vector);
        assert((((attr as u16) << 8u16 | ch as u16) >> 8u16) == attr as u16) by (bit_vector);
        assert((((attr as u16) << 8u16 | ch as u16) & 0xFFu16) == ch as u16) by (bit_vector);
    }
    (attr as u16) << 8 | ch as u16
}

/// The index of the cell at (`row`, `col`) in the text buffer.
pub fn cell_offset(row: u32, col: u32) -> (offset: usize)
    requires
        row as int * 80 + col as int <= usize::MAX,
    ensures
        offset == row as int * 80 + col as int,
{
    row as usize * 80 + col as usize
}

/// One cell to store into the text buffer.
#[derive(Clone, Copy, Debug, PartialEq, Eq, Structural)]
pub struct VgaWrite {
    pub row: u32,
    pub col: u32,
    pub cell: u16,
}

impl View for VgaWrite {
    type V = (int, int, u16);

    open spec fn view(&self) -> (int, int, u16) {
        (self.row as int, self.col as int, self.cell)
    }
}

/// The console cursor.  Row and column are 32-bit so that the layout is the
/// same for the 32-bit and the 64-bit stage.
#[derive(Clone, Copy, Debug, PartialEq, Eq, Structural)]
pub struct Vga {
    pub row: u32,
    pub col: u32,
}

/// Where a printable byte goes: at the cursor, or at the start of the next
/// row once the cursor has run past the last column.
pub open spec fn cell_position(cursor: (int, int)) -> (int, int) {
    if cursor.1 >= 80 {
        (cursor.0 + 1, 0)
    } else {
        cursor
    }
}

/// Whether the byte moves the cursor without writing: newline or carriage return.
pub open spec fn is_control(b: u8) -> bool {
    b == 10 || b == 13
}

/// The cursor after one byte: a newline starts the next row, a carriage
/// return goes back to column 0, any other byte is written and advances.
pub open spec fn byte_step(cursor: (int, int), b: u8) -> (int, int) {
    if b == 10 {
        (cursor.0 + 1, 0)
    } else if b == 13 {
        (cursor.0, 0)
    } else {
        let p = cell_position(cursor);
        (p.0, p.1 + 1)
    }
}

/// The cursor after the bytes.
pub open spec fn cursor_after(cursor: (int, int), bytes: Seq<u8>) -> (int, int)
    decreases bytes.len(),
{
    if bytes.len() == 0 {
        cursor
    } else {
        byte_step(cursor_after(cursor, bytes.drop_last()), bytes.last())
    }
}

/// The cells written for the bytes, in order, as (row, column, cell).
pub open spec fn cells_written(cursor: (int, int), bytes: Seq<u8>) -> Seq<(int, int, u16)>
    decreases bytes.len(),
{
    if bytes.len() == 0 {
        Seq::empty()
    } else {
        let before = cells_written(cursor, bytes.drop_last());
        let b = bytes.last();
        if is_control(b) {
            before
        } else {
            let p = cell_position(cursor_after(cursor, bytes.drop_last()));
            before.push((p.0, p.1, vga_cell_spec(WHITE_ON_BLACK, b)))
        }
    }
}

/// The number of newline bytes.
pub open spec fn newline_count(bytes: Seq<u8>) -> nat
    decreases bytes.len(),
{
    if bytes.len() == 0 {
        0
    } else {
        newline_count(bytes.drop_last()) + if bytes.last() == 10 { 1nat } else { 0nat }
    }
}

/// The number of printable bytes met with the cursor at column 80 or
/// beyond, each of which first moves the cursor to the next row.
pub open spec fn wrap_count(cursor: (int, int), bytes: Seq<u8>) -> nat
    decreases bytes.len(),
{
    if bytes.len() == 0 {
        0
    } else {
        wrap_count(cursor, bytes.drop_last()) + if !is_control(bytes.last())
            && cursor_after(cursor, bytes.drop_last()).1 >= 80 {
            1nat
        } else {
            0nat
        }
    }
}

impl Vga {
    pub open spec fn cursor(self) -> (int, int) {
        (self.row as int, self.col as int)
    }

    /// Handles one byte: returns the cell to write, if any, and moves the cursor.
    pub fn put_byte(&mut self, byte: u8) -> (w: Option<VgaWrite>)
        requires
            byte_step(old(self).cursor(), byte).0 <= u32::MAX,
        ensures
            final(self).cursor() == byte_step(old(self).cursor(), byte),
            is_control(byte) ==> w is None,
            !is_control(byte) ==> (w matches Some(x) && x@ == (
                cell_position(old(self).cursor()).0,
                cell_position(old(self).cursor()).1,
                vga_cell_spec(WHITE_ON_BLACK, byte),
            )),
    {
        if byte == 10 {
            self.row = self.row + 1;
            self.col = 0;
            None
        } else if byte == 13 {
            self.col = 0;
            None
        } else {
            if self.col >= 80 {
                self.row = self.row + 1;
                self.col = 0;
            }
            let w = VgaWrite { row: self.row, col: self.col, cell: vga_cell(WHITE_ON_BLACK, byte) };
            self.col = self.col + 1;
            Some(w)
        }
    }

    /// Writes the bytes from the cursor on, the way a terminal does, and
    /// returns the cells to store, in order.
    pub fn write_bytes(&mut self, bytes: &[u8]) -> (writes: Vec<VgaWrite>)
        requires
            cursor_after(old(self).cursor(), bytes@).0 <= u32::MAX,
        ensures
            final(self).cursor() == cursor_after(old(self).cursor(), bytes@),
            writes@.map_values(|w: VgaWrite| w@) == cells_written(old(self).cursor(), bytes@),
            final(self).row == old(self).row + newline_count(bytes@) + wrap_count(old(self).cursor(), bytes@),
            old(self).col <= 80 ==> final(self).col <= 80,
    {
        let ghost start = self.cursor();
        let mut writes: Vec<VgaWrite> = Vec::new();
        let mut i: usize = 0;
        while i < bytes.len()
            invariant
                i <= bytes@.len(),
                cursor_after(start, bytes@).0 <= u32::MAX,
                self.cursor() == cursor_after(start, bytes@.take(i as int)),
                writes@.map_values(|w: VgaWrite| w@) == cells_written(start, bytes@.take(i as int)),
            decreases bytes.len() - i,
        {
            let b = bytes[i];
            let ghost prefix = bytes@.take(i as int + 1);
            assert(prefix.drop_last() == bytes@.take(i as int));
            assert(prefix.last() == b);
            proof {
                lemma_rows_grow_along_prefix(start, bytes@, i as int + 1);
            }
            let w = self.put_byte(b);
            match w {
                Some(x) => {
                    writes.push(x);
                },
                None => {},
            }
            assert(writes@.map_values(|w: VgaWrite| w@) =~= cells_written(start, prefix));
            i = i + 1;
        }
        assert(bytes@.take(i as int) == bytes@);
        proof {
            lemma_row_advance(start, bytes@);
        }
        writes
    }

    /// Writes the bytes of `s`; see [`Vga::write_bytes`].
    pub fn write_str(&mut self, s: &str) -> (writes: Vec<VgaWrite>)
        requires
            cursor_after(old(self).cursor(), s.spec_bytes()).0 <= u32::MAX,
        ensures
            final(self).cursor() == cursor_after(old(self).cursor(), s.spec_bytes()),
            writes@.map_values(|w: VgaWrite| w@) == cells_written(old(self).cursor(), s.spec_bytes()),
            final(self).row == old(self).row + newline_count(s.spec_bytes())
                + wrap_count(old(self).cursor(), s.spec_bytes()),
            old(self).col <= 80 ==> final(self).col <= 80,
    {
        self.write_bytes(s.as_bytes())
    }

    /// Blanks the whole screen and puts the cursor back at the top left.  The
    /// cells come row by row: the `i`-th is (i / 80, i % 80).
    pub fn clear(&mut self) -> (writes: Vec<VgaWrite>)
        ensures
            final(self).row == 0,
            final(self).col == 0,
            writes@.len() == 2000,
            forall|i: int| 0 <= i < 2000 ==> #[trigger] writes@[i]@ == (i / 80, i % 80, vga_cell_spec(WHITE_ON_BLACK, 32)),
    {
        let mut writes: Vec<VgaWrite> = Vec::new();
        let blank = vga_cell(WHITE_ON_BLACK, 32);
        let mut i: u32 = 0;
        while i < VGA_ROWS * VGA_COLS
            invariant
                i <= 2000,
                blank == vga_cell_spec(WHITE_ON_BLACK, 32),
                writes@.len() == i,
                forall|j: int| 0 <= j < i ==> #[trigger] writes@[j]@ == (j / 80, j % 80, vga_cell_spec(WHITE_ON_BLACK, 32)),
            decreases 2000 - i,
        {
            writes.push(VgaWrite { row: i / VGA_COLS, col: i % VGA_COLS, cell: blank });
            i = i + 1;
        }
        self.row = 0;
        self.col = 0;
        writes
    }
}

/// A byte never moves the cursor to an earlier row.
proof fn lemma_byte_step_row(cursor: (int, int), b: u8)
    ensures
        byte_step(cursor, b).0 >= cursor.0,
{
}

/// Rows only grow as more bytes are written.
proof fn lemma_rows_grow_along_prefix(cursor: (int, int), bytes: Seq<u8>, n: int)
    requires
        0 <= n <= bytes.len(),
    ensures
        cursor_after(cursor, bytes.take(n)).0 <= cursor_after(cursor, bytes).0,
    decreases bytes.len() - n,
{
    if n < bytes.len() {
        lemma_rows_grow_along_prefix(cursor, bytes, n + 1);
        assert(bytes.take(n + 1).drop_last() == bytes.take(n));
        lemma_byte_step_row(cursor_after(cursor, bytes.take(n)), bytes[n]);
    } else {
        assert(bytes.take(n) == bytes);
    }
}

/// Writing two strings one after the other moves the cursor and writes the
/// cells exactly as writing their concatenation does.
pub proof fn lemma_write_concat(cursor: (int, int), a: Seq<u8>, b: Seq<u8>)
    ensures
        cursor_after(cursor, a + b) == cursor_after(cursor_after(cursor, a), b),
        cells_written(cursor, a + b) == cells_written(cursor, a) + cells_written(cursor_after(cursor, a), b),
    decreases b.len(),
{
    if b.len() == 0 {
        assert(a + b == a);
    } else {
        assert((a + b).drop_last() == a + b.drop_last());
        assert((a + b).last() == b.last());
        lemma_write_concat(cursor, a, b.drop_last());
        assert(cells_written(cursor, a + b) =~= cells_written(cursor, a) + cells_written(cursor_after(cursor, a), b));
    }
}

/// Every cell written lies within the 80 columns of a row, never above the
/// starting row; after any byte the cursor's column is at most 80.
pub proof fn lemma_cells_within_columns(cursor: (int, int), bytes: Seq<u8>)
    requires
        cursor.0 >= 0,
        cursor.1 >= 0,
    ensures
        forall|k: int| 0 <= k < cells_written(cursor, bytes).len() ==> {
            &&& 0 <= (#[trigger] cells_written(cursor, bytes)[k]).1 < 80
            &&& cells_written(cursor, bytes)[k].0 >= cursor.0
        },
        cursor_after(cursor, bytes).0 >= cursor.0,
        bytes.len() > 0 ==> 0 <= cursor_after(cursor, bytes).1 <= 80,
    decreases bytes.len(),
{
    if bytes.len() > 0 {
        lemma_cells_within_columns(cursor, bytes.drop_last());
        let c = cursor_after(cursor, bytes.drop_last());
        if bytes.drop_last().len() == 0 {
            assert(bytes.drop_last() == Seq::<u8>::empty());
            assert(c == cursor);
        }
        let cells = cells_written(cursor, bytes);
        let before = cells_written(cursor, bytes.drop_last());
        assert forall|k: int| 0 <= k < cells.len() implies {
            &&& 0 <= (#[trigger] cells[k]).1 < 80
            &&& cells[k].0 >= cursor.0
        } by {
            if k < before.len() {
                assert(cells[k] == before[k]);
            }
        }
    }
}

/// A newline moves the cursor to the start of the next row and writes nothing.
pub proof fn lemma_newline(cursor: (int, int))
    ensures
        cursor_after(cursor, seq![10u8]) == (cursor.0 + 1, 0int),
        cells_written(cursor, seq![10u8]) == Seq::<(int, int, u16)>::empty(),
{
    let s = seq![10u8];
    assert(s.drop_last() == Seq::<u8>::empty());
    assert(s.last() == 10u8);
    assert(cursor_after(cursor, Seq::<u8>::empty()) == cursor);
    assert(cells_written(cursor, Seq::<u8>::empty()) == Seq::<(int, int, u16)>::empty());
}

/// Clearing reaches every cell of the 80 x 25 screen: cell (`row`, `col`)
/// is the one written at position `row * 80 + col`.
pub proof fn lemma_clear_covers_screen(row: int, col: int)
    requires
        0 <= row < 25,
        0 <= col < 80,
    ensures
        0 <= row * 80 + col < 2000,
        (row * 80 + col) / 80 == row,
        (row * 80 + col) % 80 == col,
{
    assert(0 <= row * 80 + col < 2000) by (nonlinear_arith)
        requires
            0 <= row < 25,
            0 <= col < 80,
    ;
    vstd::arithmetic::div_mod::lemma_fundamental_div_mod_converse(row * 80 + col, 80, row, col);
}

/// The cursor's row grows by exactly the newlines plus the wraps: the
/// printable bytes met at column 80 or beyond.  The row never decreases; a
/// column of at most 80 stays at most 80, and no bytes leave the cursor as it was.
pub proof fn lemma_row_advance(cursor: (int, int), bytes: Seq<u8>)
    ensures
        cursor_after(cursor, bytes).0 == cursor.0 + newline_count(bytes) + wrap_count(cursor, bytes),
        cursor_after(cursor, bytes).0 >= cursor.0,
        0 <= cursor.1 <= 80 ==> 0 <= cursor_after(cursor, bytes).1 <= 80,
        bytes.len() == 0 ==> cursor_after(cursor, bytes) == cursor,
    decreases bytes.len(),
{
    if bytes.len() > 0 {
        lemma_row_advance(cursor, bytes.drop_last());
    }
}

/// What one byte does to the cursor (`row`, `col`), for any column from 0
/// on: a newline moves to column 0 of the next row; a carriage return moves
/// to column 0 of the same row; any other byte is written with white-on-black
/// attribute 0x0F at (`row`, `col`) and the cursor moves one column right,
/// except that at column 80 or beyond the byte first goes to column 0 of the
/// next row.  So the row grows only on a newline or on a byte met at column 80
/// or beyond, and a byte met in columns 0..79 stays on its row.
pub proof fn lemma_one_byte(row: int, col: int, b: u8)
    requires
        col >= 0,
    ensures
        b == 10 ==> cursor_after((row, col), seq![b]) == (row + 1, 0int)
            && cells_written((row, col), seq![b]).len() == 0,
        b == 13 ==> cursor_after((row, col), seq![b]) == (row, 0int)
            && cells_written((row, col), seq![b]).len() == 0,
        b != 10 && b != 13 && col < 80 ==> cursor_after((row, col), seq![b]) == (row, col + 1)
            && cells_written((row, col), seq![b]) == seq![(row, col, (0x0F00 + b as int) as u16)],
        b != 10 && b != 13 && col >= 80 ==> cursor_after((row, col), seq![b]) == (row + 1, 1int)
            && cells_written((row, col), seq![b]) == seq![(row + 1, 0int, (0x0F00 + b as int) as u16)],
        cursor_after((row, col), seq![b]).0 == row + (if b == 10 || (b != 13 && col >= 80) { 1int } else { 0int }),
{
    let s = seq![b];
    assert(s.drop_last() == Seq::<u8>::empty());
    assert(s.last() == b);
    assert(cursor_after((row, col), Seq::<u8>::empty()) == (row, col));
    assert(cells_written((row, col), Seq::<u8>::empty()) == Seq::<(int, int, u16)>::empty());
    assert(cells_written((row, col), s) =~= cells_written((row, col), Seq::<u8>::empty()).push(
        (cell_position((row, col)).0, cell_position((row, col)).1, vga_cell_spec(WHITE_ON_BLACK, b)),
    ) || is_control(b));
}

} // verus!
