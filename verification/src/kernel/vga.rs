use vstd::prelude::*;
use vstd::utf8::{encode_utf8, is_ascii_chars, is_ascii_chars_encode_utf8};

verus! {

/// The sixteen colours of the VGA text mode palette.
#[derive(Debug, Clone, Copy, PartialEq, Eq, Structural)]
pub enum Color {
    Black,
    Blue,
    Green,
    Cyan,
    Red,
    Magenta,
    Brown,
    LightGray,
    DarkGray,
    LightBlue,
    LightGreen,
    LightCyan,
    LightRed,
    Pink,
    Yellow,
    White,
}

impl Color {
    /// The palette number of the colour.
    pub open spec fn spec_value(self) -> u8 {
        match self {
            Color::Black => 0,
            Color::Blue => 1,
            Color::Green => 2,
            Color::Cyan => 3,
            Color::Red => 4,
            Color::Magenta => 5,
            Color::Brown => 6,
            Color::LightGray => 7,
            Color::DarkGray => 8,
            Color::LightBlue => 9,
            Color::LightGreen => 10,
            Color::LightCyan => 11,
            Color::LightRed => 12,
            Color::Pink => 13,
            Color::Yellow => 14,
            Color::White => 15,
        }
    }

    /// The palette number of the colour (0 to 15).
    #[verifier::when_used_as_spec(spec_value)]
    pub fn value(self) -> (v: u8)
        ensures
            v == self.spec_value(),
            v < 16,
    {
        match self {
            Color::Black => 0,
            Color::Blue => 1,
            Color::Green => 2,
            Color::Cyan => 3,
            Color::Red => 4,
            Color::Magenta => 5,
            Color::Brown => 6,
            Color::LightGray => 7,
            Color::DarkGray => 8,
            Color::LightBlue => 9,
            Color::LightGreen => 10,
            Color::LightCyan => 11,
            Color::LightRed => 12,
            Color::Pink => 13,
            Color::Yellow => 14,
            Color::White => 15,
        }
    }
}


/// The attribute byte of a screen cell: background in the high nibble,
/// foreground in the low nibble.
#[derive(Debug, Clone, Copy, PartialEq, Eq, Structural)]
pub struct ColorCode(pub u8);

impl ColorCode {
    /// Packs a foreground and a background colour into one attribute byte.
    pub fn new(foreground: Color, background: Color) -> (code: ColorCode)
        ensures
            code.0 == background.spec_value() * 16 + foreground.spec_value(),
    {
        let fg = foreground.value();
        let bg = background.value();
        let packed: u8 = (bg << 4) | fg;
        assert(packed == bg * 16 + fg) by (bit_vector)
            requires
                fg < 16,
                bg < 16,
                packed == (bg << 4) | fg,
        ;
        ColorCode(packed)
    }
}

/// One cell of the text buffer: a code page 437 byte and its attribute.
#[derive(Debug, Clone, Copy, PartialEq, Eq, Structural)]
pub struct ScreenChar {
    pub ascii_character: u8,
    pub color_code: ColorCode,
}

pub const BUFFER_HEIGHT: usize = 25;

pub const BUFFER_WIDTH: usize = 80;

/// Number of cells of the text buffer.
pub const BUFFER_CELLS: usize = 2000;

/// Index of the first cell of the bottom row, where all text is written.
pub const LAST_ROW_START: usize = 1920;

/// The cell that blanks a position in the given colour.
pub open spec fn blank_char(color: ColorCode) -> ScreenChar {
    ScreenChar { ascii_character: 0x20, color_code: color }
}

/// The cursor cell: a space drawn yellow on yellow.
pub open spec fn cursor_char() -> ScreenChar {
    ScreenChar { ascii_character: 0x20, color_code: ColorCode(0xee) }
}

/// The byte that the writer puts on screen for a byte of text: printable
/// ASCII and newline pass, every other byte shows as the block 0xfe.
pub open spec fn screen_byte(b: u8) -> u8 {
    if (0x20 <= b && b <= 0x7e) || b == 0x0a {
        b
    } else {
        0xfe
    }
}

/// The abstract state of a writer: cursor column, attribute used for new
/// text and the 25 x 80 cells in row-major order.
pub struct WriterView {
    pub column: int,
    pub color: ColorCode,
    pub cells: Seq<ScreenChar>,
}

impl WriterView {
    pub open spec fn wf(self) -> bool {
        &&& self.cells.len() == BUFFER_CELLS
        &&& 0 <= self.column < BUFFER_WIDTH
    }

    /// The cell at a row and a column.
    pub open spec fn cell(self, row: int, col: int) -> ScreenChar {
        self.cells[row * 80 + col]
    }
}

/// Writes a blank over the cursor.
pub open spec fn erase_cursor_spec(v: WriterView) -> WriterView {
    WriterView { cells: v.cells.update(LAST_ROW_START + v.column, blank_char(v.color)), ..v }
}

/// Draws the cursor at the current column.
pub open spec fn show_cursor_spec(v: WriterView) -> WriterView {
    WriterView { cells: v.cells.update(LAST_ROW_START + v.column, cursor_char()), ..v }
}

/// Every row moves up by one, the top row is lost, the bottom row becomes
/// blank and the cursor column returns to 0.
pub open spec fn new_line_spec(v: WriterView) -> WriterView {
    WriterView {
        column: 0,
        color: v.color,
        cells: Seq::new(
            BUFFER_CELLS as nat,
            |i: int|
                if i < LAST_ROW_START {
                    v.cells[i + BUFFER_WIDTH]
                } else {
                    blank_char(v.color)
                },
        ),
    }
}

/// Blanks one row.
pub open spec fn clear_row_spec(v: WriterView, row: int) -> WriterView {
    WriterView {
        cells: Seq::new(
            v.cells.len(),
            |i: int|
                if row * 80 <= i < row * 80 + 80 {
                    blank_char(v.color)
                } else {
                    v.cells[i]
                },
        ),
        ..v
    }
}

/// What writing one (already mapped) byte does.
pub open spec fn write_byte_spec(v: WriterView, byte: u8) -> WriterView {
    if byte == 0x0a {
        new_line_spec(erase_cursor_spec(v))
    } else {
        let v1 = if v.column >= BUFFER_WIDTH {
            new_line_spec(v)
        } else {
            v
        };
        let v2 = WriterView {
            column: v1.column + 1,
            cells: v1.cells.update(
                LAST_ROW_START + v1.column,
                ScreenChar { ascii_character: byte, color_code: v1.color },
            ),
            ..v1
        };
        show_cursor_spec(v2)
    }
}

/// The column that follows writing a byte at a column.
pub open spec fn column_step(col: int, byte: u8) -> int {
    if byte == 0x0a {
        0
    } else if col >= BUFFER_WIDTH {
        1
    } else {
        col + 1
    }
}

/// Writing the byte at this column stays inside the row: the cursor drawn
/// after a character needs a cell of its own.
pub open spec fn byte_fits(col: int, byte: u8) -> bool {
    byte == 0x0a || col >= BUFFER_WIDTH || col + 1 < BUFFER_WIDTH
}

/// The state after writing the bytes of a text in order.
pub open spec fn write_bytes_spec(v: WriterView, bytes: Seq<u8>) -> WriterView
    decreases bytes.len(),
{
    if bytes.len() == 0 {
        v
    } else {
        write_byte_spec(write_bytes_spec(v, bytes.drop_last()), screen_byte(bytes.last()))
    }
}

/// The column after writing the bytes of a text in order.
pub open spec fn column_after(col: int, bytes: Seq<u8>) -> int
    decreases bytes.len(),
{
    if bytes.len() == 0 {
        col
    } else {
        column_step(column_after(col, bytes.drop_last()), screen_byte(bytes.last()))
    }
}

/// Every byte of the text fits where it is written.
pub open spec fn bytes_fit(col: int, bytes: Seq<u8>) -> bool
    decreases bytes.len(),
{
    bytes.len() == 0 || (bytes_fit(col, bytes.drop_last()) && byte_fits(
        column_after(col, bytes.drop_last()),
        screen_byte(bytes.last()),
    ))
}

/// The state after printing a text (its UTF-8 bytes).
pub open spec fn print_spec(v: WriterView, text: Seq<char>) -> WriterView {
    write_bytes_spec(v, encode_utf8(text))
}

/// Printing the text from this state never writes past the last column.
pub open spec fn can_print(v: WriterView, text: Seq<char>) -> bool {
    bytes_fit(v.column, encode_utf8(text))
}

/// Erasing `size` characters: blank the cursor, move back at most to column
/// 0 and draw the cursor there.
pub open spec fn erase_last_char_spec(v: WriterView, size: int) -> WriterView {
    let n = if size > v.column {
        v.column
    } else {
        size
    };
    let v1 = erase_cursor_spec(v);
    show_cursor_spec(WriterView { column: v.column - n, ..v1 })
}


/// The text buffer: 25 rows of 80 cells, row-major.
pub struct Buffer {
    chars: Vec<ScreenChar>,
}

impl View for Buffer {
    type V = Seq<ScreenChar>;

    closed spec fn view(&self) -> Seq<ScreenChar> {
        self.chars@
    }
}

impl Buffer {
    /// A buffer holding the given cells, row after row.
    pub fn new(chars: Vec<ScreenChar>) -> (buffer: Buffer)
        requires
            chars.len() == BUFFER_CELLS,
        ensures
            buffer@ == chars@,
    {
        Buffer { chars }
    }

    /// A buffer whose every cell is `ch`.
    pub fn filled(ch: ScreenChar) -> (buffer: Buffer)
        ensures
            buffer@ == Seq::new(BUFFER_CELLS as nat, |i: int| ch),
    {
        let mut chars: Vec<ScreenChar> = Vec::new();
        let mut i: usize = 0;
        while i < BUFFER_CELLS
            invariant
                i <= BUFFER_CELLS,
                chars@ == Seq::new(i as nat, |j: int| ch),
            decreases BUFFER_CELLS - i,
        {
            chars.push(ch);
            i = i + 1;
        }
        Buffer { chars }
    }
}

/// Writes text on the bottom row of the buffer, scrolling up on newline.
pub struct Writer {
    column_position: usize,
    color_code: ColorCode,
    buffer: Buffer,
}

impl View for Writer {
    type V = WriterView;

    closed spec fn view(&self) -> WriterView {
        WriterView {
            column: self.column_position as int,
            color: self.color_code,
            cells: self.buffer@,
        }
    }
}

impl Writer {
    /// A writer on the given buffer, at column 0, writing yellow on black.
    pub fn new(buffer: Buffer) -> (writer: Writer)
        requires
            buffer@.len() == BUFFER_CELLS,
        ensures
            writer@ == (WriterView { column: 0, color: ColorCode(0x0e), cells: buffer@ }),
            writer@.wf(),
    {
        let color_code = ColorCode::new(Color::Yellow, Color::Black);
        Writer { column_position: 0, color_code, buffer }
    }

    /// The cursor column.
    pub fn column_position(&self) -> (col: usize)
        ensures
            col == self@.column,
    {
        self.column_position
    }

    /// The attribute used for new text.
    pub fn color_code(&self) -> (code: ColorCode)
        ensures
            code == self@.color,
    {
        self.color_code
    }

    /// The cell at a row and a column.
    pub fn char_at(&self, row: usize, col: usize) -> (ch: ScreenChar)
        requires
            self@.wf(),
            row < BUFFER_HEIGHT,
            col < BUFFER_WIDTH,
        ensures
            ch == self@.cell(row as int, col as int),
    {
        self.buffer.chars[row * BUFFER_WIDTH + col]
    }

    /// Writes one byte: a newline scrolls, any other byte is put at the
    /// cursor, which then moves right and is drawn again.
    pub fn write_byte(&mut self, byte: u8)
        requires
            old(self)@.wf(),
            byte_fits(old(self)@.column, byte),
        ensures
            final(self)@ == write_byte_spec(old(self)@, byte),
            final(self)@.wf(),
    {
        if byte == 0x0a {
            // Clear cursor before going to next line
            self.erase_cursor();
            self.new_line();
        } else {
            if self.column_position >= BUFFER_WIDTH {
                self.new_line();
            }
            let row = BUFFER_HEIGHT - 1;
            let col = self.column_position;
            let color_code = self.color_code;
            self.buffer.chars.set(
                row * BUFFER_WIDTH + col,
                ScreenChar { ascii_character: byte, color_code },
            );
            self.column_position = self.column_position + 1;
            // Print cursor
            self.show_cursor();
        }
    }

    fn erase_cursor(&mut self)
        requires
            old(self)@.wf(),
        ensures
            final(self)@ == erase_cursor_spec(old(self)@),
            final(self)@.wf(),
    {
        let blank = ScreenChar { ascii_character: 0x20, color_code: self.color_code };
        let row = BUFFER_HEIGHT - 1;
        self.buffer.chars.set(row * BUFFER_WIDTH + self.column_position, blank);
    }

    fn show_cursor(&mut self)
        requires
            old(self)@.cells.len() == BUFFER_CELLS,
            0 <= old(self)@.column < BUFFER_WIDTH,
        ensures
            final(self)@ == show_cursor_spec(old(self)@),
    {
        let cursor = ScreenChar {
            ascii_character: 0x20,
            color_code: ColorCode::new(Color::Yellow, Color::Yellow),
        };
        let row = BUFFER_HEIGHT - 1;
        self.buffer.chars.set(row * BUFFER_WIDTH + self.column_position, cursor);
    }

    fn new_line(&mut self)
        requires
            old(self)@.cells.len() == BUFFER_CELLS,
        ensures
            final(self)@ == new_line_spec(old(self)@),
            final(self)@.wf(),
    {
        let ghost old_cells = self.buffer.chars@;
        for row in 1..BUFFER_HEIGHT
            invariant
                self.buffer.chars@.len() == BUFFER_CELLS,
                self.color_code == old(self).color_code,
                forall|i: int|
                    0 <= i < (row - 1) * 80 ==> #[trigger] self.buffer.chars@[i] == old_cells[i + 80],
                forall|i: int|
                    (row - 1) * 80 <= i < BUFFER_CELLS ==> #[trigger] self.buffer.chars@[i] == old_cells[i],
        {
            for col in 0..BUFFER_WIDTH
                invariant
                    1 <= row < BUFFER_HEIGHT,
                    self.buffer.chars@.len() == BUFFER_CELLS,
                    self.color_code == old(self).color_code,
                    forall|i: int|
                        0 <= i < (row - 1) * 80 + col ==> #[trigger] self.buffer.chars@[i]
                            == old_cells[i + 80],
                    forall|i: int|
                        (row - 1) * 80 + col <= i < BUFFER_CELLS ==> #[trigger] self.buffer.chars@[i]
                            == old_cells[i],
            {
                let character = self.buffer.chars[row * BUFFER_WIDTH + col];
                self.buffer.chars.set((row - 1) * BUFFER_WIDTH + col, character);
            }
        }
        self.clear_row(BUFFER_HEIGHT - 1);
        self.column_position = 0;
        assert(self.buffer.chars@ =~= new_line_spec(old(self)@).cells);
    }

    fn clear_row(&mut self, row: usize)
        requires
            old(self)@.cells.len() == BUFFER_CELLS,
            row < BUFFER_HEIGHT,
        ensures
            final(self)@ == clear_row_spec(old(self)@, row as int),
    {
        let blank = ScreenChar { ascii_character: 0x20, color_code: self.color_code };
        let ghost old_cells = self.buffer.chars@;
        for col in 0..BUFFER_WIDTH
            invariant
                row < BUFFER_HEIGHT,
                self.buffer.chars@.len() == BUFFER_CELLS,
                self.color_code == old(self).color_code,
                self.column_position == old(self).column_position,
                blank == blank_char(self.color_code),
                forall|i: int|
                    0 <= i < BUFFER_CELLS ==> #[trigger] self.buffer.chars@[i] == if row * 80 <= i
                        < row * 80 + col {
                        blank
                    } else {
                        old_cells[i]
                    },
        {
            self.buffer.chars.set(row * BUFFER_WIDTH + col, blank);
        }
        assert(self.buffer.chars@ =~= clear_row_spec(old(self)@, row as int).cells);
    }

    /// Moves the cursor back over at most `size` columns (never past column
    /// 0): the old cursor cell is blanked and the cursor is drawn at the new
    /// column.
    pub fn erase_last_char(&mut self, size: usize)
        requires
            old(self)@.wf(),
        ensures
            final(self)@ == erase_last_char_spec(old(self)@, size as int),
            final(self)@.wf(),
    {
        let blank = ScreenChar { ascii_character: 0x20, color_code: self.color_code };
        let row = BUFFER_HEIGHT - 1;
        let mut columns_to_erase = size.clone();
        if columns_to_erase > self.column_position {
            columns_to_erase = self.column_position
        }
        let pos_erased_cur_column = self.column_position - columns_to_erase;
        self.erase_cursor();
        let ghost erased = self@;
        let mut pos = self.column_position;
        while pos < pos_erased_cur_column
            invariant
                self@ == erased,
                pos_erased_cur_column <= self.column_position,
                self.column_position <= pos,
            decreases pos_erased_cur_column - pos,
        {
            self.buffer.chars.set(row * BUFFER_WIDTH + pos, blank);
            pos = pos + 1;
        }
        self.column_position = self.column_position - columns_to_erase;
        self.show_cursor();
    }

    /// Writes the bytes of a string in order; a byte that is neither
    /// printable ASCII nor a newline is shown as the block 0xfe.
    pub fn write_string(&mut self, s: &str)
        requires
            old(self)@.wf(),
            can_print(old(self)@, s@),
        ensures
            final(self)@ == print_spec(old(self)@, s@),
            final(self)@.wf(),
    {
        let bytes = s.as_bytes();
        let ghost all = bytes@;
        let mut i: usize = 0;
        while i < bytes.len()
            invariant
                bytes@ == all,
                all == encode_utf8(s@),
                i <= all.len(),
                self@.wf(),
                bytes_fit(old(self)@.column, all),
                self@ == write_bytes_spec(old(self)@, all.take(i as int)),
            decreases all.len() - i,
        {
            let byte = bytes[i];
            proof {
                lemma_bytes_fit_prefix(old(self)@.column, all, i as int + 1);
                let pre = all.take(i as int + 1);
                assert(pre.drop_last() =~= all.take(i as int));
                assert(pre.last() == byte);
                lemma_write_bytes_column(old(self)@, all.take(i as int));
            }
            if (0x20 <= byte && byte <= 0x7e) || byte == 0x0a {
                self.write_byte(byte);
            } else {
                self.write_byte(0xfe);
            }
            i = i + 1;
        }
        assert(all.take(all.len() as int) =~= all);
    }

    /// Whether printing `s` from the current state stays inside the row.
    pub fn fits(&self, s: &str) -> (r: bool)
        requires
            self@.wf(),
        ensures
            r == can_print(self@, s@),
    {
        text_end_column(self.column_position, s).is_some()
    }
}

/// The column reached by printing `s` from column `col`, or `None` when
/// some byte of it would not fit.
pub fn text_end_column(col: usize, s: &str) -> (r: Option<usize>)
    requires
        col < BUFFER_WIDTH,
    ensures
        r.is_some() == bytes_fit(col as int, encode_utf8(s@)),
        r.is_some() ==> r.unwrap() == column_after(col as int, encode_utf8(s@)) && r.unwrap()
            < BUFFER_WIDTH,
{
    let bytes = s.as_bytes();
    let ghost all = bytes@;
    let mut cur: usize = col;
    let mut i: usize = 0;
    while i < bytes.len()
        invariant
            bytes@ == all,
            all == encode_utf8(s@),
            i <= all.len(),
            cur < BUFFER_WIDTH,
            col < BUFFER_WIDTH,
            cur == column_after(col as int, all.take(i as int)),
            bytes_fit(col as int, all.take(i as int)),
        decreases all.len() - i,
    {
        let byte = bytes[i];
        let ghost pre = all.take(i as int + 1);
        assert(pre.drop_last() =~= all.take(i as int));
        let shown: u8 = if (0x20 <= byte && byte <= 0x7e) || byte == 0x0a {
            byte
        } else {
            0xfe
        };
        if shown == 0x0a {
            cur = 0;
        } else {
            if cur + 1 >= BUFFER_WIDTH {
                proof {
                    lemma_bytes_fit_prefix_fails(col as int, all, i as int + 1);
                }
                return None;
            }
            cur = cur + 1;
        }
        i = i + 1;
    }
    assert(all.take(all.len() as int) =~= all);
    Some(cur)
}

/// Erases the last `size` characters typed on the bottom row.
pub fn erase_last_character(writer: &mut Writer, size: usize)
    requires
        old(writer)@.wf(),
    ensures
        final(writer)@ == erase_last_char_spec(old(writer)@, size as int),
        final(writer)@.wf(),
{
    writer.erase_last_char(size);
}

/// The column reached by writing bytes is where the writer's state says.
pub proof fn lemma_write_bytes_column(v: WriterView, bytes: Seq<u8>)
    ensures
        write_bytes_spec(v, bytes).column == column_after(v.column, bytes),
        write_bytes_spec(v, bytes).color == v.color,
        write_bytes_spec(v, bytes).cells.len() == v.cells.len() || bytes.len() > 0,
    decreases bytes.len(),
{
    if bytes.len() > 0 {
        lemma_write_bytes_column(v, bytes.drop_last());
    }
}

/// A text that fits has every prefix fitting.
pub proof fn lemma_bytes_fit_prefix(col: int, bytes: Seq<u8>, k: int)
    requires
        bytes_fit(col, bytes),
        0 <= k <= bytes.len(),
    ensures
        bytes_fit(col, bytes.take(k)),
    decreases bytes.len() - k,
{
    if k == bytes.len() {
        assert(bytes.take(k) =~= bytes);
    } else {
        assert(bytes.drop_last().take(k) =~= bytes.take(k));
        lemma_bytes_fit_prefix(col, bytes.drop_last(), k);
    }
}

/// When a prefix does not fit, the whole text does not fit.
pub proof fn lemma_bytes_fit_prefix_fails(col: int, bytes: Seq<u8>, k: int)
    requires
        0 <= k <= bytes.len(),
        !bytes_fit(col, bytes.take(k)),
    ensures
        !bytes_fit(col, bytes),
{
    if bytes_fit(col, bytes) {
        lemma_bytes_fit_prefix(col, bytes, k);
    }
}

/// UTF-8 encoding distributes over concatenation.
pub proof fn lemma_encode_utf8_concat(a: Seq<char>, b: Seq<char>)
    ensures
        encode_utf8(a + b) == encode_utf8(a) + encode_utf8(b),
    decreases a.len(),
{
    if a.len() == 0 {
        assert(a + b =~= b);
        assert(encode_utf8(a) + encode_utf8(b) =~= encode_utf8(b));
    } else {
        assert((a + b).drop_first() =~= a.drop_first() + b);
        assert((a + b)[0] == a[0]);
        lemma_encode_utf8_concat(a.drop_first(), b);
        assert(encode_utf8(a + b) =~= encode_utf8(a) + encode_utf8(b));
    }
}

/// Writing two byte strings one after the other is writing their
/// concatenation.
pub proof fn lemma_write_bytes_concat(v: WriterView, a: Seq<u8>, b: Seq<u8>)
    ensures
        write_bytes_spec(v, a + b) == write_bytes_spec(write_bytes_spec(v, a), b),
        column_after(v.column, a + b) == column_after(column_after(v.column, a), b),
        bytes_fit(v.column, a + b) == (bytes_fit(v.column, a) && bytes_fit(
            column_after(v.column, a),
            b,
        )),
    decreases b.len(),
{
    if b.len() == 0 {
        assert(a + b =~= a);
    } else {
        assert((a + b).drop_last() =~= a + b.drop_last());
        assert((a + b).last() == b.last());
        lemma_write_bytes_concat(v, a, b.drop_last());
    }
}

/// Printing two texts one after the other is printing their concatenation;
/// the concatenation fits exactly when the first fits and the second fits
/// where the first ends.
pub proof fn lemma_print_concat(v: WriterView, a: Seq<char>, b: Seq<char>)
    ensures
        print_spec(v, a + b) == print_spec(print_spec(v, a), b),
        can_print(v, a + b) == (can_print(v, a) && can_print(print_spec(v, a), b)),
{
    lemma_encode_utf8_concat(a, b);
    lemma_write_bytes_concat(v, encode_utf8(a), encode_utf8(b));
    lemma_write_bytes_column(v, encode_utf8(a));
}

/// The text fits when printed from this column.
pub open spec fn text_fits(col: int, text: Seq<char>) -> bool {
    bytes_fit(col, encode_utf8(text))
}

/// The column reached by printing the text from this column.
pub open spec fn text_column(col: int, text: Seq<char>) -> int {
    column_after(col, encode_utf8(text))
}

/// The column reached by printing the text, or `None` when it does not
/// fit or no column is given.
pub open spec fn fits_then(col: Option<int>, text: Seq<char>) -> Option<int> {
    match col {
        Some(c) => if text_fits(c, text) {
            Some(text_column(c, text))
        } else {
            None
        },
        None => None,
    }
}

/// Checking two texts one after the other checks their concatenation.
pub proof fn lemma_fits_then_concat(col: Option<int>, a: Seq<char>, b: Seq<char>)
    ensures
        fits_then(fits_then(col, a), b) == fits_then(col, a + b),
{
    if let Some(c) = col {
        lemma_encode_utf8_concat(a, b);
        lemma_write_bytes_concat(WriterView { column: c, color: ColorCode(0), cells: Seq::empty() }, encode_utf8(a), encode_utf8(b));
    }
}

/// An optional column as a mathematical integer.
pub open spec fn opt_col(col: Option<usize>) -> Option<int> {
    match col {
        Some(c) => Some(c as int),
        None => None,
    }
}

/// `text_end_column` lifted to a column that may be missing.
pub fn fits_then_exec(col: Option<usize>, s: &str) -> (r: Option<usize>)
    requires
        col.is_some() ==> col.unwrap() < BUFFER_WIDTH,
    ensures
        r.is_some() ==> r.unwrap() < BUFFER_WIDTH,
        opt_col(r) == fits_then(opt_col(col), s@),
{
    match col {
        Some(c) => text_end_column(c, s),
        None => None,
    }
}

/// Every character is printable ASCII (space to tilde).
pub open spec fn printable_ascii(text: Seq<char>) -> bool {
    forall|i: int| 0 <= i < text.len() ==> ' ' <= #[trigger] text[i] <= '~'
}

/// Bytes that are all printable ASCII.
pub open spec fn printable_bytes(bytes: Seq<u8>) -> bool {
    forall|i: int| 0 <= i < bytes.len() ==> 0x20 <= #[trigger] bytes[i] <= 0x7e
}

proof fn lemma_write_printable_bytes(v: WriterView, bytes: Seq<u8>)
    requires
        v.wf(),
        printable_bytes(bytes),
        v.column + bytes.len() < BUFFER_WIDTH,
    ensures
        bytes_fit(v.column, bytes),
        write_bytes_spec(v, bytes).column == v.column + bytes.len(),
        write_bytes_spec(v, bytes).color == v.color,
        write_bytes_spec(v, bytes).cells.len() == BUFFER_CELLS,
        forall|i: int|
            0 <= i < bytes.len() ==> #[trigger] write_bytes_spec(v, bytes).cells[LAST_ROW_START
                + v.column + i] == (ScreenChar { ascii_character: bytes[i], color_code: v.color }),
        bytes.len() > 0 ==> write_bytes_spec(v, bytes).cells[LAST_ROW_START + v.column
            + bytes.len()] == cursor_char(),
        forall|j: int|
            0 <= j < BUFFER_CELLS && !(LAST_ROW_START + v.column <= j <= LAST_ROW_START + v.column
                + bytes.len()) ==> #[trigger] write_bytes_spec(v, bytes).cells[j] == v.cells[j],
    decreases bytes.len(),
{
    lemma_write_bytes_column(v, bytes);
    if bytes.len() > 0 {
        let pre = bytes.drop_last();
        assert forall|i: int| 0 <= i < pre.len() implies 0x20 <= #[trigger] pre[i] <= 0x7e by {
            assert(pre[i] == bytes[i]);
        }
        lemma_write_printable_bytes(v, pre);
        let b = bytes.last();
        assert(0x20 <= bytes[bytes.len() - 1] <= 0x7e);
        assert(screen_byte(b) == b);
        let w = write_bytes_spec(v, pre);
        assert(w.column == v.column + pre.len());
        let after = write_bytes_spec(v, bytes);
        assert(after == write_byte_spec(w, b));
        assert forall|i: int| 0 <= i < bytes.len() implies #[trigger] after.cells[LAST_ROW_START
            + v.column + i] == (ScreenChar { ascii_character: bytes[i], color_code: v.color }) by {
            if i < pre.len() {
                assert(pre[i] == bytes[i]);
                assert(w.cells[LAST_ROW_START + v.column + i] == (ScreenChar {
                    ascii_character: pre[i],
                    color_code: v.color,
                }));
            }
        }
    }
}

/// Printing a short line of printable ASCII puts its characters on the
/// bottom row from the cursor on, in the writer's colour, draws the cursor
/// right after them and changes no other cell.
pub proof fn lemma_print_printable(v: WriterView, text: Seq<char>)
    requires
        v.wf(),
        printable_ascii(text),
        v.column + text.len() < BUFFER_WIDTH,
    ensures
        can_print(v, text),
        print_spec(v, text).wf(),
        print_spec(v, text).column == v.column + text.len(),
        print_spec(v, text).color == v.color,
        forall|i: int|
            0 <= i < text.len() ==> #[trigger] print_spec(v, text).cells[LAST_ROW_START + v.column
                + i] == (ScreenChar { ascii_character: text[i] as u8, color_code: v.color }),
        text.len() > 0 ==> print_spec(v, text).cells[LAST_ROW_START + v.column + text.len()]
            == cursor_char(),
        forall|j: int|
            0 <= j < BUFFER_CELLS && !(LAST_ROW_START + v.column <= j <= LAST_ROW_START + v.column
                + text.len()) ==> #[trigger] print_spec(v, text).cells[j] == v.cells[j],
{
    assert forall|i: int| 0 <= i < text.len() implies '\0' <= #[trigger] text[i] <= '\u{7f}' by {
        assert(' ' <= text[i] <= '~');
    }
    assert(is_ascii_chars(text));
    is_ascii_chars_encode_utf8(text);
    let bytes = encode_utf8(text);
    assert(bytes.len() == text.len());
    assert forall|i: int| 0 <= i < bytes.len() implies 0x20 <= #[trigger] bytes[i] <= 0x7e by {
        assert(bytes[i] == text[i] as u8);
        assert(' ' <= text[i] <= '~');
    }
    lemma_write_printable_bytes(v, bytes);
}

/// The attribute byte gives back both colours: the foreground is the low
/// nibble, the background the high nibble, so different pairs of colours
/// give different attribute bytes.
pub proof fn lemma_color_code_decodes(foreground: Color, background: Color)
    ensures
        (background.spec_value() * 16 + foreground.spec_value()) % 16 == foreground.spec_value(),
        (background.spec_value() * 16 + foreground.spec_value()) / 16 == background.spec_value(),
{
}

/// Different colours have different palette numbers.
pub proof fn lemma_color_values_distinct(a: Color, b: Color)
    ensures
        a.spec_value() == b.spec_value() ==> a == b,
        a.spec_value() < 16,
{
}


/// The palette numbers are those of the VGA text mode: bit 0 is blue, bit
/// 1 green, bit 2 red and bit 3 brightness, so Black is 0, Blue 1, Green 2,
/// Cyan 3, Red 4, Magenta 5, Brown 6, LightGray 7, and the bright versions
/// of each follow at 8 to 15 in the same order.
pub proof fn lemma_palette_numbers()
    ensures
        Color::Black.spec_value() == 0,
        Color::Blue.spec_value() == 1,
        Color::Green.spec_value() == 2,
        Color::Cyan.spec_value() == 3,
        Color::Red.spec_value() == 4,
        Color::Magenta.spec_value() == 5,
        Color::Brown.spec_value() == 6,
        Color::LightGray.spec_value() == 7,
        Color::DarkGray.spec_value() == 8,
        Color::LightBlue.spec_value() == 9,
        Color::LightGreen.spec_value() == 10,
        Color::LightCyan.spec_value() == 11,
        Color::LightRed.spec_value() == 12,
        Color::Pink.spec_value() == 13,
        Color::Yellow.spec_value() == 14,
        Color::White.spec_value() == 15,
        Color::Green.spec_value() * 16 + Color::Black.spec_value() == 0x20,
        Color::Black.spec_value() * 16 + Color::Green.spec_value() == 0x02,
{
}

/// A newline scrolls the screen up by exactly one row: every row but the
/// bottom one takes what the row below it held (the top row gets the old
/// second row), the bottom row is blank in the writer's colour, and the
/// cursor returns to column 0.
pub proof fn lemma_new_line_scrolls(v: WriterView)
    requires
        v.wf(),
    ensures
        new_line_spec(v).wf(),
        new_line_spec(v).column == 0,
        new_line_spec(v).color == v.color,
        forall|r: int, c: int|
            0 <= r < BUFFER_HEIGHT - 1 && 0 <= c < BUFFER_WIDTH ==> #[trigger] new_line_spec(v).cell(
                r,
                c,
            ) == v.cell(r + 1, c),
        forall|c: int|
            0 <= c < BUFFER_WIDTH ==> #[trigger] new_line_spec(v).cell(BUFFER_HEIGHT - 1, c)
                == blank_char(v.color),
{
    assert forall|r: int, c: int|
        0 <= r < BUFFER_HEIGHT - 1 && 0 <= c < BUFFER_WIDTH implies #[trigger] new_line_spec(v).cell(
        r,
        c,
    ) == v.cell(r + 1, c) by {
        assert(r * 80 + c < LAST_ROW_START) by (nonlinear_arith)
            requires
                0 <= r < 24,
                0 <= c < 80,
        ;
        assert(0 <= r * 80 + c) by (nonlinear_arith)
            requires
                0 <= r,
                0 <= c,
        ;
        assert((r + 1) * 80 + c == r * 80 + c + 80) by (nonlinear_arith);
    }
}

/// Writing a newline byte scrolls the screen up by one row: the rows above
/// the bottom take the rows below them, except that the cursor cell left
/// behind is blanked; the bottom row is blank and the cursor column is 0.
pub proof fn lemma_newline_byte_scrolls(v: WriterView)
    requires
        v.wf(),
    ensures
        write_byte_spec(v, 0x0a).wf(),
        write_byte_spec(v, 0x0a).column == 0,
        forall|r: int, c: int|
            0 <= r < BUFFER_HEIGHT - 1 && 0 <= c < BUFFER_WIDTH ==> #[trigger] write_byte_spec(
                v,
                0x0a,
            ).cell(r, c) == if r == BUFFER_HEIGHT - 2 && c == v.column {
                blank_char(v.color)
            } else {
                v.cell(r + 1, c)
            },
        forall|c: int|
            0 <= c < BUFFER_WIDTH ==> #[trigger] write_byte_spec(v, 0x0a).cell(BUFFER_HEIGHT - 1, c)
                == blank_char(v.color),
{
    let e = erase_cursor_spec(v);
    lemma_new_line_scrolls(e);
    assert forall|r: int, c: int|
        0 <= r < BUFFER_HEIGHT - 1 && 0 <= c < BUFFER_WIDTH implies #[trigger] write_byte_spec(
        v,
        0x0a,
    ).cell(r, c) == if r == BUFFER_HEIGHT - 2 && c == v.column {
        blank_char(v.color)
    } else {
        v.cell(r + 1, c)
    } by {
        assert(new_line_spec(e).cell(r, c) == e.cell(r + 1, c));
        assert((r + 1) * 80 + c == r * 80 + c + 80) by (nonlinear_arith);
        assert(r * 80 + c + 80 == LAST_ROW_START + v.column <==> (r == 23 && c == v.column))
            by (nonlinear_arith)
            requires
                0 <= r < 24,
                0 <= c < 80,
                0 <= v.column < 80,
        ;
    }
}

} // verus!
