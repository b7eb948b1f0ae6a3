//! The 80x25 text-mode screen: colours, cells, the backing grid and the writer
//! that places text on its bottom row and scrolls.
use vstd::prelude::*;
use vstd::string::StringSliceAdditionalSpecFns;
use volatile::Volatile;

verus! {

/// Declares the `volatile` crate's cell type so that the grid can hold it.
#[verifier::external_type_specification]
#[verifier::external_body]
#[verifier::reject_recursive_types(T)]
pub struct ExVolatile<T: Copy>(Volatile<T>);

/// The 16 colours of the text-mode palette.
#[derive(Debug, Clone, Copy, PartialEq, Eq, Structural)]
pub enum Color {
    Black,
    Blue,
    Green,
    Cyan,
    Red,
    Magenta,
    Brown,
    LightGray,
    DarkGray,
    LightBlue,
    LightGreen,
    LightCyan,
    LightRed,
    Pink,
    Yellow,
    White,
}

impl Color {
    /// The palette index of the colour, 0 to 15.
    pub open spec fn index(self) -> u8 {
        match self {
            Color::Black => 0,
            Color::Blue => 1,
            Color::Green => 2,
            Color::Cyan => 3,
            Color::Red => 4,
            Color::Magenta => 5,
            Color::Brown => 6,
            Color::LightGray => 7,
            Color::DarkGray => 8,
            Color::LightBlue => 9,
            Color::LightGreen => 10,
            Color::LightCyan => 11,
            Color::LightRed => 12,
            Color::Pink => 13,
            Color::Yellow => 14,
            Color::White => 15,
        }
    }

    /// The palette index of the colour.
    pub fn value(self) -> (r: u8)
        ensures
            r == self.index(),
            r < 16,
    {
        match self {
            Color::Black => 0,
            Color::Blue => 1,
            Color::Green => 2,
            Color::Cyan => 3,
            Color::Red => 4,
            Color::Magenta => 5,
            Color::Brown => 6,
            Color::LightGray => 7,
            Color::DarkGray => 8,
            Color::LightBlue => 9,
            Color::LightGreen => 10,
            Color::LightCyan => 11,
            Color::LightRed => 12,
            Color::Pink => 13,
            Color::Yellow => 14,
            Color::White => 15,
        }
    }
}

/// A colour attribute: background in the high nibble, foreground in the low one.
#[derive(Debug, Clone, Copy, PartialEq, Eq, Structural)]
pub struct ColorCode(pub u8);

impl ColorCode {
    /// The attribute byte for `foreground` on `background`.
    pub open spec fn new_spec(foreground: Color, background: Color) -> ColorCode {
        ColorCode((background.index() * 16 + foreground.index()) as u8)
    }

    /// Packs a foreground and a background colour into one attribute byte.
    pub fn new(foreground: Color, background: Color) -> (r: ColorCode)
        ensures
            r.0 == background.index() * 16 + foreground.index(),
            r == Self::new_spec(foreground, background),
    {
        let f = foreground.value();
        let b = background.value();
        assert((b << 4u8) | f == b * 16 + f) by (bit_vector)
            requires
                f < 16,
                b < 16,
        ;
        ColorCode((b << 4u8) | f)
    }
}

/// One cell of the screen: a character code and its colour attribute.
#[derive(Debug, Clone, Copy, PartialEq, Eq, Structural)]
pub struct ScreenChar {
    pub ascii_character: u8,
    pub color_code: ColorCode,
}

/// What a volatile cell currently holds.
pub uninterp spec fn cell_of(v: Volatile<ScreenChar>) -> ScreenChar;

/// Relies on `volatile::Volatile::new`: the new cell holds `c`.
#[verifier::external_body]
fn volatile_new(c: ScreenChar) -> (r: Volatile<ScreenChar>)
    ensures
        cell_of(r) == c,
{
    Volatile::new(c)
}

/// Relies on `volatile::Volatile::read`: returns what the cell holds.
#[verifier::external_body]
fn volatile_read(v: &Volatile<ScreenChar>) -> (r: ScreenChar)
    ensures
        r == cell_of(*v),
{
    v.read()
}

/// Relies on `volatile::Volatile::write`: afterwards the cell holds `c`.
#[verifier::external_body]
fn volatile_write(v: &mut Volatile<ScreenChar>, c: ScreenChar)
    ensures
        cell_of(*final(v)) == c,
{
    v.write(c)
}


/// Number of rows of the text screen.
pub const BUFFER_HEIGHT: usize = 25;

/// Number of columns of the text screen.
pub const BUFFER_WIDTH: usize = 80;

/// Number of cells of the text screen.
pub const BUFFER_CELLS: usize = BUFFER_HEIGHT * BUFFER_WIDTH;

/// The row that text is written to.
pub const LAST_ROW: usize = BUFFER_HEIGHT - 1;

/// The line feed byte.
pub const NEWLINE: u8 = 0x0a;

/// The space that cleared cells hold.
pub const SPACE: u8 = 0x20;

/// The glyph stored in place of a byte that cannot be shown.
pub const SUBSTITUTE: u8 = 0xfe;

/// Position of cell `(row, col)` in the row-major grid.
pub open spec fn cell_index(row: int, col: int) -> int {
    row * BUFFER_WIDTH + col
}

/// A cleared cell in the given colour.
pub open spec fn blank(color: ColorCode) -> ScreenChar {
    ScreenChar { ascii_character: SPACE, color_code: color }
}

/// A grid whose every cell is blank in the given colour.
pub open spec fn blank_grid(color: ColorCode) -> Seq<ScreenChar> {
    Seq::new(BUFFER_CELLS as nat, |i: int| blank(color))
}

/// `cells` with every cell of `row` blank in `color`.
pub open spec fn cleared_row(cells: Seq<ScreenChar>, row: int, color: ColorCode) -> Seq<ScreenChar> {
    Seq::new(
        cells.len(),
        |i: int|
            if cell_index(row, 0) <= i < cell_index(row + 1, 0) {
                blank(color)
            } else {
                cells[i]
            },
    )
}

/// `cells` with every row moved up by one and the last row blank in `color`.
pub open spec fn scroll_cells(cells: Seq<ScreenChar>, color: ColorCode) -> Seq<ScreenChar> {
    Seq::new(
        BUFFER_CELLS as nat,
        |i: int|
            if i < cell_index(LAST_ROW as int, 0) {
                cells[i + BUFFER_WIDTH]
            } else {
                blank(color)
            },
    )
}

/// Column and grid after one byte reaches the writer unchanged.
pub open spec fn put_byte(st: (nat, Seq<ScreenChar>), color: ColorCode, b: u8) -> (nat, Seq<ScreenChar>) {
    if b == NEWLINE {
        (0, scroll_cells(st.1, color))
    } else {
        let before = if st.0 >= BUFFER_WIDTH {
            (0nat, scroll_cells(st.1, color))
        } else {
            st
        };
        (
            before.0 + 1,
            before.1.update(
                cell_index(LAST_ROW as int, before.0 as int),
                ScreenChar { ascii_character: b, color_code: color },
            ),
        )
    }
}

/// Printable ASCII and newline pass; every other byte becomes the substitute glyph.
pub open spec fn shown(b: u8) -> u8 {
    if (0x20 <= b && b <= 0x7e) || b == NEWLINE {
        b
    } else {
        SUBSTITUTE
    }
}

/// Column and grid after the bytes `s` are written as text.
pub open spec fn put_text(st: (nat, Seq<ScreenChar>), color: ColorCode, s: Seq<u8>) -> (nat, Seq<ScreenChar>)
    decreases s.len(),
{
    if s.len() == 0 {
        st
    } else {
        put_byte(put_text(st, color, s.drop_last()), color, shown(s.last()))
    }
}

/// The grid of cells, held in volatile cells, row-major.
pub struct Buffer {
    chars: Vec<Volatile<ScreenChar>>,
}

impl View for Buffer {
    type V = Seq<ScreenChar>;

    closed spec fn view(&self) -> Seq<ScreenChar> {
        self.chars@.map_values(|v: Volatile<ScreenChar>| cell_of(v))
    }
}

impl Buffer {
    /// The grid has exactly one cell per screen position.
    pub closed spec fn wf(&self) -> bool {
        self.chars@.len() == BUFFER_CELLS
    }

    /// A grid whose every cell holds `fill`.
    pub fn new(fill: ScreenChar) -> (r: Buffer)
        ensures
            r.wf(),
            r@ == Seq::new(BUFFER_CELLS as nat, |i: int| fill),
    {
        let mut chars: Vec<Volatile<ScreenChar>> = Vec::new();
        while chars.len() < BUFFER_CELLS
            invariant
                chars@.len() <= BUFFER_CELLS,
                forall|j: int| 0 <= j < chars@.len() ==> cell_of(#[trigger] chars@[j]) == fill,
            decreases BUFFER_CELLS - chars@.len(),
        {
            chars.push(volatile_new(fill));
        }
        let r = Buffer { chars };
        assert(r@ =~= Seq::new(BUFFER_CELLS as nat, |i: int| fill));
        r
    }

    /// Reads cell `(row, col)`.
    pub fn read(&self, row: usize, col: usize) -> (r: ScreenChar)
        requires
            self.wf(),
            row < BUFFER_HEIGHT,
            col < BUFFER_WIDTH,
        ensures
            r == self@[cell_index(row as int, col as int)],
    {
        volatile_read(&self.chars[row * BUFFER_WIDTH + col])
    }

    /// Writes `c` to cell `(row, col)`.
    pub fn write(&mut self, row: usize, col: usize, c: ScreenChar)
        requires
            old(self).wf(),
            row < BUFFER_HEIGHT,
            col < BUFFER_WIDTH,
        ensures
            final(self).wf(),
            final(self)@ == old(self)@.update(cell_index(row as int, col as int), c),
    {
        let i = row * BUFFER_WIDTH + col;
        volatile_write(&mut self.chars[i], c);
        assert(self@ =~= old(self)@.update(cell_index(row as int, col as int), c));
    }
}


/// The display writer: cursor column, colour and the grid it owns.
pub struct Writer {
    column_position: usize,
    color_code: ColorCode,
    buffer: Buffer,
}

impl View for Writer {
    type V = (nat, Seq<ScreenChar>);

    /// The cursor column and the grid's cells.
    closed spec fn view(&self) -> (nat, Seq<ScreenChar>) {
        (self.column_position as nat, self.buffer@)
    }
}

impl Writer {
    /// The column is within the row and the grid is whole.
    pub closed spec fn wf(&self) -> bool {
        self.buffer.wf() && self.column_position <= BUFFER_WIDTH
    }

    /// The colour that the next cell is written in.
    pub closed spec fn color(&self) -> ColorCode {
        self.color_code
    }

    /// A writer at column 0 over a blank grid, writing `foreground` on `background`.
    pub fn new(foreground: Color, background: Color) -> (r: Writer)
        ensures
            r.wf(),
            r.color() == ColorCode::new_spec(foreground, background),
            r@ == (0nat, blank_grid(r.color())),
    {
        let color_code = ColorCode::new(foreground, background);
        let buffer = Buffer::new(ScreenChar { ascii_character: SPACE, color_code });
        let r = Writer { column_position: 0, color_code, buffer };
        assert(r@.1 =~= blank_grid(r.color()));
        r
    }

    /// The cursor column.
    pub fn column_position(&self) -> (r: usize)
        ensures
            r == self@.0,
    {
        self.column_position
    }

    /// The colour that the next cell is written in.
    pub fn color_code(&self) -> (r: ColorCode)
        ensures
            r == self.color(),
    {
        self.color_code
    }

    /// Sets the colour of the cells written from now on.
    pub fn set_color(&mut self, foreground: Color, background: Color)
        requires
            old(self).wf(),
        ensures
            final(self).wf(),
            final(self)@ == old(self)@,
            final(self).color() == ColorCode::new_spec(foreground, background),
    {
        self.color_code = ColorCode::new(foreground, background);
    }

    /// Reads cell `(row, col)` of the grid.
    pub fn read_cell(&self, row: usize, col: usize) -> (r: ScreenChar)
        requires
            self.wf(),
            row < BUFFER_HEIGHT,
            col < BUFFER_WIDTH,
        ensures
            r == self@.1[cell_index(row as int, col as int)],
    {
        self.buffer.read(row, col)
    }

    /// Places one byte: a newline scrolls; any other byte goes to the cursor
    /// on the last row, after a scroll when the row is full.
    pub fn write_byte(&mut self, byte: u8)
        requires
            old(self).wf(),
        ensures
            final(self).wf(),
            final(self).color() == old(self).color(),
            final(self)@ == put_byte(old(self)@, old(self).color(), byte),
    {
        if byte == NEWLINE {
            self.new_line();
        } else {
            if self.column_position >= BUFFER_WIDTH {
                self.new_line();
            }
            let row = LAST_ROW;
            let col = self.column_position;
            let color_code = self.color_code;
            self.buffer.write(row, col, ScreenChar { ascii_character: byte, color_code });
            self.column_position = self.column_position + 1;
        }
    }

    /// Writes the bytes of `s`, each unprintable one as the substitute glyph.
    pub fn write_string(&mut self, s: &str)
        requires
            old(self).wf(),
        ensures
            final(self).wf(),
            final(self).color() == old(self).color(),
            final(self)@ == put_text(old(self)@, old(self).color(), s.spec_bytes()),
    {
        let bytes = s.as_bytes();
        let ghost start = self@;
        let mut i: usize = 0;
        while i < bytes.len()
            invariant
                i <= bytes@.len(),
                bytes@ == s.spec_bytes(),
                self.wf(),
                self.color() == old(self).color(),
                start == old(self)@,
                self@ == put_text(start, self.color(), bytes@.subrange(0, i as int)),
            decreases bytes@.len() - i,
        {
            let byte = bytes[i];
            if (0x20 <= byte && byte <= 0x7e) || byte == NEWLINE {
                self.write_byte(byte);
            } else {
                self.write_byte(SUBSTITUTE);
            }
            assert(bytes@.subrange(0, i + 1).drop_last() =~= bytes@.subrange(0, i as int));
            i = i + 1;
        }
        assert(bytes@.subrange(0, bytes@.len() as int) =~= bytes@);
    }

    /// Moves every row up by one, clears the last row and returns the cursor to column 0.
    fn new_line(&mut self)
        requires
            old(self).wf(),
        ensures
            final(self).wf(),
            final(self).color() == old(self).color(),
            final(self)@ == (0nat, scroll_cells(old(self)@.1, old(self).color())),
    {
        let ghost cells = self.buffer@;
        let mut row: usize = 1;
        while row < BUFFER_HEIGHT
            invariant
                1 <= row <= BUFFER_HEIGHT,
                self.wf(),
                self.color() == old(self).color(),
                cells == old(self)@.1,
                forall|i: int| 0 <= i < cell_index(row - 1, 0) ==> self.buffer@[i] == cells[i + BUFFER_WIDTH],
                forall|i: int| cell_index(row - 1, 0) <= i < BUFFER_CELLS ==> self.buffer@[i] == cells[i],
            decreases BUFFER_HEIGHT - row,
        {
            let mut col: usize = 0;
            while col < BUFFER_WIDTH
                invariant
                    1 <= row < BUFFER_HEIGHT,
                    col <= BUFFER_WIDTH,
                    self.wf(),
                    self.color() == old(self).color(),
                    cells == old(self)@.1,
                    forall|i: int| 0 <= i < cell_index(row - 1, col as int) ==> self.buffer@[i] == cells[i + BUFFER_WIDTH],
                    forall|i: int| cell_index(row - 1, col as int) <= i < BUFFER_CELLS ==> self.buffer@[i] == cells[i],
                decreases BUFFER_WIDTH - col,
            {
                let character = self.buffer.read(row, col);
                self.buffer.write(row - 1, col, character);
                col = col + 1;
            }
            row = row + 1;
        }
        self.clear_row(LAST_ROW);
        self.column_position = 0;
        assert(self.buffer@ =~= scroll_cells(cells, self.color()));
    }

    /// Sets every cell of `row` to a blank in the current colour.
    fn clear_row(&mut self, row: usize)
        requires
            old(self).wf(),
            row < BUFFER_HEIGHT,
        ensures
            final(self).wf(),
            final(self).color() == old(self).color(),
            final(self)@ == (old(self)@.0, cleared_row(old(self)@.1, row as int, old(self).color())),
    {
        let fill = ScreenChar { ascii_character: SPACE, color_code: self.color_code };
        let ghost cells = self.buffer@;
        let mut col: usize = 0;
        while col < BUFFER_WIDTH
            invariant
                row < BUFFER_HEIGHT,
                col <= BUFFER_WIDTH,
                self.wf(),
                self.color() == old(self).color(),
                self.column_position == old(self).column_position,
                cells == old(self)@.1,
                fill == blank(self.color()),
                self.buffer@ =~= Seq::new(
                    cells.len(),
                    |i: int|
                        if cell_index(row as int, 0) <= i < cell_index(row as int, col as int) {
                            fill
                        } else {
                            cells[i]
                        },
                ),
            decreases BUFFER_WIDTH - col,
        {
            self.buffer.write(row, col, fill);
            col = col + 1;
        }
        assert(self.buffer@ =~= cleared_row(cells, row as int, self.color()));
    }
}


/// The cell that a byte `b` becomes in colour `color`.
pub open spec fn cell_for(b: u8, color: ColorCode) -> ScreenChar {
    ScreenChar { ascii_character: b, color_code: color }
}

/// Every byte of `s` is printable ASCII, 0x20 to 0x7e.
pub open spec fn all_printable(s: Seq<u8>) -> bool {
    forall|i: int| 0 <= i < s.len() ==> 0x20 <= #[trigger] s[i] <= 0x7e
}

/// Printable text that fits in a row, written from column 0, lands cell by cell
/// on the last row starting at its first column; nothing else changes.
pub proof fn lemma_text_fits_on_row(st: (nat, Seq<ScreenChar>), color: ColorCode, s: Seq<u8>)
    requires
        st.0 == 0,
        st.1.len() == BUFFER_CELLS,
        s.len() <= BUFFER_WIDTH,
        all_printable(s),
    ensures
        put_text(st, color, s).0 == s.len(),
        put_text(st, color, s).1.len() == BUFFER_CELLS,
        forall|i: int|
            0 <= i < s.len() ==> #[trigger] put_text(st, color, s).1[cell_index(LAST_ROW as int, i)]
                == cell_for(s[i], color),
        forall|j: int|
            0 <= j < BUFFER_CELLS && !(cell_index(LAST_ROW as int, 0) <= j < cell_index(LAST_ROW as int, s.len() as int))
                ==> #[trigger] put_text(st, color, s).1[j] == st.1[j],
    decreases s.len(),
{
    if s.len() > 0 {
        let p = s.drop_last();
        assert forall|i: int| 0 <= i < p.len() implies 0x20 <= #[trigger] p[i] <= 0x7e by {
            assert(p[i] == s[i]);
        }
        lemma_text_fits_on_row(st, color, p);
        assert(0x20 <= s[s.len() - 1] <= 0x7e);
        let r = put_text(st, color, s);
        let q = put_text(st, color, p);
        assert(r == put_byte(q, color, s.last()));
        assert forall|i: int| 0 <= i < s.len() implies #[trigger] r.1[cell_index(LAST_ROW as int, i)] == cell_for(s[i], color) by {
            if i < p.len() {
                assert(p[i] == s[i]);
            }
        }
    }
}

/// A byte that is neither printable ASCII, nor a newline, nor the substitute
/// glyph itself is stored as the substitute glyph, never as itself.
pub proof fn lemma_unprintable_substituted(st: (nat, Seq<ScreenChar>), color: ColorCode, b: u8)
    requires
        st.0 <= BUFFER_WIDTH,
        st.1.len() == BUFFER_CELLS,
        !(0x20 <= b <= 0x7e),
        b != NEWLINE,
        b != SUBSTITUTE,
    ensures
        put_text(st, color, seq![b]).0 >= 1,
        put_text(st, color, seq![b]).1[cell_index(LAST_ROW as int, put_text(st, color, seq![b]).0 - 1)]
            == cell_for(SUBSTITUTE, color),
        put_text(st, color, seq![b]).1[cell_index(LAST_ROW as int, put_text(st, color, seq![b]).0 - 1)].ascii_character
            != b,
{
    let s = seq![b];
    assert(s.drop_last() =~= Seq::<u8>::empty());
    assert(s.last() == b);
    assert(put_text(st, color, s.drop_last()) == st);
    assert(shown(b) == SUBSTITUTE);
    assert(put_text(st, color, s) == put_byte(st, color, SUBSTITUTE));
    let before = if st.0 >= BUFFER_WIDTH {
        (0nat, scroll_cells(st.1, color))
    } else {
        st
    };
    assert(before.1.len() == BUFFER_CELLS);
    assert(put_byte(st, color, SUBSTITUTE).1[cell_index(LAST_ROW as int, before.0 as int)]
        == cell_for(SUBSTITUTE, color));
}

/// One printable character more than a row holds, written from column 0,
/// scrolls exactly once: the first row's worth moves up to the row above the
/// last, the extra character opens the fresh last row, and the rest of that
/// row is blank.
pub proof fn lemma_one_past_row(st: (nat, Seq<ScreenChar>), color: ColorCode, s: Seq<u8>)
    requires
        st.0 == 0,
        st.1.len() == BUFFER_CELLS,
        s.len() == BUFFER_WIDTH + 1,
        all_printable(s),
    ensures
        put_text(st, color, s).0 == 1,
        forall|i: int|
            0 <= i < BUFFER_WIDTH ==> #[trigger] put_text(st, color, s).1[cell_index(LAST_ROW - 1, i)]
                == cell_for(s[i], color),
        put_text(st, color, s).1[cell_index(LAST_ROW as int, 0)] == cell_for(s[BUFFER_WIDTH as int], color),
        forall|i: int|
            1 <= i < BUFFER_WIDTH ==> #[trigger] put_text(st, color, s).1[cell_index(LAST_ROW as int, i)]
                == blank(color),
        forall|j: int|
            0 <= j < cell_index(LAST_ROW - 1, 0) ==> #[trigger] put_text(st, color, s).1[j]
                == st.1[j + BUFFER_WIDTH],
{
    let p = s.drop_last();
    assert forall|i: int| 0 <= i < p.len() implies 0x20 <= #[trigger] p[i] <= 0x7e by {
        assert(p[i] == s[i]);
    }
    lemma_text_fits_on_row(st, color, p);
    let q = put_text(st, color, p);
    assert(0x20 <= s[BUFFER_WIDTH as int] <= 0x7e);
    assert(put_text(st, color, s) == put_byte(q, color, s.last()));
    let r = put_text(st, color, s);
    assert forall|i: int| 0 <= i < BUFFER_WIDTH implies #[trigger] r.1[cell_index(LAST_ROW - 1, i)]
        == cell_for(s[i], color) by {
        assert(q.1[cell_index(LAST_ROW as int, i)] == cell_for(p[i], color));
        assert(p[i] == s[i]);
    }
    assert forall|j: int| 0 <= j < cell_index(LAST_ROW - 1, 0) implies #[trigger] r.1[j]
        == st.1[j + BUFFER_WIDTH] by {
        assert(q.1[j + BUFFER_WIDTH] == st.1[j + BUFFER_WIDTH]);
    }
}

/// Scrolling a grid that is blank in the current colour leaves it blank.
pub proof fn lemma_scroll_blank(color: ColorCode)
    ensures
        scroll_cells(blank_grid(color), color) == blank_grid(color),
{
    assert(scroll_cells(blank_grid(color), color) =~= blank_grid(color));
}

/// Writing `s` and then `t` leaves the column and grid that writing `s + t`
/// in one call leaves: calls serialised by one lock produce the concatenation
/// of their texts, never a mixture.
pub proof fn lemma_text_concat(st: (nat, Seq<ScreenChar>), color: ColorCode, s: Seq<u8>, t: Seq<u8>)
    ensures
        put_text(st, color, s + t) == put_text(put_text(st, color, s), color, t),
    decreases t.len(),
{
    if t.len() == 0 {
        assert(s + t =~= s);
    } else {
        lemma_text_concat(st, color, s, t.drop_last());
        assert((s + t).drop_last() =~= s + t.drop_last());
        assert((s + t).last() == t.last());
    }
}

} // verus!
