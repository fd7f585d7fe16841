//! Text-mode display: 80x25 character cells with attributes.
use vstd::prelude::*;
use crate::error::VosError;
use crate::traits::Device;
use crate::types::{Address, Byte};
use crate::text::chars_to_string;

verus! {

/// Display width in characters.
pub const DISPLAY_WIDTH: usize = 80;
/// Display height in lines.
pub const DISPLAY_HEIGHT: usize = 25;
/// Number of character cells.
pub const DISPLAY_SIZE: usize = 2000;
/// Base address of the display in the memory map.
pub const DISPLAY_BASE: Address = 0x8000_0000;
/// Device size: two bytes (character, attribute) per cell.
pub const DISPLAY_DEVICE_SIZE: usize = 4000;

/// A character with its attribute byte.
#[derive(Debug, Clone, Copy, PartialEq, Eq)]
pub struct CharCell {
    /// ASCII character
    pub character: u8,
    /// Attribute byte (foreground and background colour)
    pub attribute: u8,
}

/// A blank cell: space, light gray on black.
pub open spec fn blank_cell() -> CharCell {
    CharCell { character: 32, attribute: 0x07 }
}

impl CharCell {
    /// A cell with the given character and attribute.
    pub fn new(character: u8, attribute: u8) -> (c: Self)
        ensures
            c == (CharCell { character, attribute }),
    {
        Self { character, attribute }
    }

    /// A cell with the default attribute (light gray on black).
    pub fn with_char(character: u8) -> (c: Self)
        ensures
            c == (CharCell { character, attribute: 0x07 }),
    {
        Self { character, attribute: 0x07 }
    }

    /// A blank cell.
    pub fn blank() -> (c: Self)
        ensures
            c == blank_cell(),
    {
        Self { character: 32, attribute: 0x07 }
    }
}

/// Abstract display state: the cells and the cursor position.
pub struct DisplayModel {
    /// The 2000 cells, row by row
    pub cells: Seq<CharCell>,
    /// Cursor position (cell index)
    pub cursor: nat,
}

/// Character shown for a byte: printable ASCII as itself, anything else as a space.
pub open spec fn shown(b: u8) -> char {
    if 32 <= b <= 126 { b as char } else { ' ' }
}

/// The text of one row of cells.
pub open spec fn row_text(cells: Seq<CharCell>, row: int) -> Seq<char> {
    Seq::new(80, |c: int| shown(cells[row * 80 + c].character))
}

/// The text of the first `n` rows, each followed by a newline.
pub open spec fn rows_text(cells: Seq<CharCell>, n: nat) -> Seq<char>
    decreases n,
{
    if n == 0 { Seq::empty() } else { rows_text(cells, (n - 1) as nat) + row_text(cells, n - 1) + seq!['\n'] }
}

/// The cells after scrolling up one line.
pub open spec fn scrolled(cells: Seq<CharCell>) -> Seq<CharCell> {
    Seq::new(2000, |i: int| if i < 1920 { cells[i + 80] } else { blank_cell() })
}

/// Display state after writing one character at the cursor.
pub open spec fn put_char_spec(m: DisplayModel, ch: u8) -> DisplayModel {
    let (cells, cursor) = if ch == 10 {
        (m.cells, (m.cursor / 80 + 1) * 80)
    } else {
        (m.cells.update(m.cursor as int, CharCell { character: ch, attribute: 0x07 }), m.cursor + 1)
    };
    if cursor >= 2000 {
        DisplayModel { cells: scrolled(cells), cursor: 1920 }
    } else {
        DisplayModel { cells, cursor: cursor as nat }
    }
}

/// A blank display with the cursor at the top left.
pub open spec fn blank_display() -> DisplayModel {
    DisplayModel { cells: Seq::new(2000, |i: int| blank_cell()), cursor: 0 }
}

/// Byte at a device offset: even offsets hold characters, odd offsets attributes; 0 past the end.
pub open spec fn display_read(m: DisplayModel, offset: u32) -> u8 {
    if offset >= 4000 || m.cells.len() != 2000 {
        0
    } else if offset % 2 == 0 {
        m.cells[(offset / 2) as int].character
    } else {
        m.cells[(offset / 2) as int].attribute
    }
}

/// Display state after writing a byte at a device offset.
pub open spec fn display_write(m: DisplayModel, offset: u32, value: u8) -> DisplayModel {
    if offset >= 4000 || m.cells.len() != 2000 {
        m
    } else if offset % 2 == 0 {
        DisplayModel { cells: m.cells.update((offset / 2) as int, CharCell { character: value, ..m.cells[(offset / 2) as int] }), ..m }
    } else {
        DisplayModel { cells: m.cells.update((offset / 2) as int, CharCell { attribute: value, ..m.cells[(offset / 2) as int] }), ..m }
    }
}

/// A well-formed display model: 2000 cells and the cursor on one of them.
pub open spec fn display_ok(m: DisplayModel) -> bool {
    m.cells.len() == 2000 && m.cursor < 2000
}

/// Text-mode display device.
#[derive(Debug, Clone)]
pub struct Display {
    /// Character buffer (80x25)
    buffer: Vec<CharCell>,
    /// Cursor position (0-1999)
    cursor: usize,
}

impl Display {
    /// Abstract state.
    pub closed spec fn model(&self) -> DisplayModel {
        DisplayModel { cells: self.buffer@, cursor: self.cursor as nat }
    }

    /// The buffer holds 2000 cells and the cursor is on one of them.
    pub open spec fn wf(&self) -> bool {
        display_ok(self.model())
    }

    /// A blank display.
    pub fn new() -> (d: Self)
        ensures
            d.model() == blank_display(),
            d.wf(),
    {
        let mut buffer: Vec<CharCell> = Vec::new();
        let mut i: usize = 0;
        while i < DISPLAY_SIZE
            invariant
                i <= 2000,
                buffer@ == Seq::new(i as nat, |j: int| blank_cell()),
            decreases 2000 - i,
        {
            buffer.push(CharCell::blank());
            i += 1;
            assert(buffer@ =~= Seq::new(i as nat, |j: int| blank_cell()));
        }
        let d = Self { buffer, cursor: 0 };
        assert(d.model().cells =~= blank_display().cells);
        d
    }

    /// The character cells, row after row.
    pub fn buffer(&self) -> (b: &[CharCell])
        ensures
            b@ == self.model().cells,
    {
        self.buffer.as_slice()
    }

    /// Cursor position.
    pub fn cursor(&self) -> (c: usize)
        ensures
            c == self.model().cursor,
    {
        self.cursor
    }

    /// Moves the cursor, clamped to the last cell.
    pub fn set_cursor(&mut self, position: usize)
        requires
            old(self).wf(),
        ensures
            final(self).wf(),
            final(self).model() == (DisplayModel { cursor: if position < 1999 { position as nat } else { 1999 }, ..old(self).model() }),
    {
        self.cursor = if position < DISPLAY_SIZE - 1 { position } else { DISPLAY_SIZE - 1 };
    }

    /// The cell at `index`, if it exists.
    pub fn get_cell(&self, index: usize) -> (c: Option<CharCell>)
        ensures
            c == (if index < self.model().cells.len() { Some(self.model().cells[index as int]) } else { None }),
    {
        if index < self.buffer.len() { Some(self.buffer[index]) } else { None }
    }

    /// Sets the cell at `index`; an index past the screen is ignored.
    pub fn set_cell(&mut self, index: usize, cell: CharCell)
        requires
            old(self).wf(),
        ensures
            final(self).wf(),
            final(self).model() == (if index < 2000 {
                DisplayModel { cells: old(self).model().cells.update(index as int, cell), ..old(self).model() }
            } else {
                old(self).model()
            }),
    {
        if index < DISPLAY_SIZE {
            self.buffer.set(index, cell);
        }
    }

    /// Blanks every cell and moves the cursor home.
    pub fn clear(&mut self)
        requires
            old(self).wf(),
        ensures
            final(self).wf(),
            final(self).model() == blank_display(),
    {
        let mut i: usize = 0;
        while i < DISPLAY_SIZE
            invariant
                i <= 2000,
                self.buffer@.len() == 2000,
                forall|j: int| 0 <= j < i ==> self.buffer@[j] == blank_cell(),
            decreases 2000 - i,
        {
            self.buffer.set(i, CharCell::blank());
            i += 1;
        }
        self.cursor = 0;
        assert(self.model().cells =~= blank_display().cells);
    }

    /// Writes a character at the cursor and advances it; a newline moves to the next line.
    /// Past the last line the screen scrolls up one line.
    pub fn put_char(&mut self, character: u8)
        requires
            old(self).wf(),
        ensures
            final(self).wf(),
            final(self).model() == put_char_spec(old(self).model(), character),
    {
        if character == 10 {
            self.cursor = ((self.cursor / DISPLAY_WIDTH) + 1) * DISPLAY_WIDTH;
        } else {
            self.buffer.set(self.cursor, CharCell::with_char(character));
            self.cursor += 1;
        }
        if self.cursor >= DISPLAY_SIZE {
            self.scroll();
            self.cursor = DISPLAY_SIZE - DISPLAY_WIDTH;
        }
    }

    fn scroll(&mut self)
        requires
            old(self).buffer@.len() == 2000,
        ensures
            final(self).buffer@ == scrolled(old(self).buffer@),
            final(self).cursor == old(self).cursor,
    {
        let mut i: usize = 0;
        while i < 1920
            invariant
                i <= 1920,
                self.buffer@.len() == 2000,
                self.cursor == old(self).cursor,
                forall|j: int| 0 <= j < i ==> self.buffer@[j] == old(self).buffer@[j + 80],
                forall|j: int| i <= j < 2000 ==> self.buffer@[j] == old(self).buffer@[j],
            decreases 1920 - i,
        {
            let c = self.buffer[i + 80];
            self.buffer.set(i, c);
            i += 1;
        }
        while i < 2000
            invariant
                1920 <= i <= 2000,
                self.buffer@.len() == 2000,
                self.cursor == old(self).cursor,
                forall|j: int| 0 <= j < 1920 ==> self.buffer@[j] == old(self).buffer@[j + 80],
                forall|j: int| 1920 <= j < i ==> self.buffer@[j] == blank_cell(),
            decreases 2000 - i,
        {
            self.buffer.set(i, CharCell::blank());
            i += 1;
        }
        assert(self.buffer@ =~= scrolled(old(self).buffer@));
    }

    fn push_row(&self, out: &mut Vec<char>, row: usize)
        requires
            self.wf(),
            row < 25,
        ensures
            final(out)@ == old(out)@ + row_text(self.model().cells, row as int),
    {
        let mut col: usize = 0;
        while col < DISPLAY_WIDTH
            invariant
                self.wf(),
                row < 25,
                col <= 80,
                out@ == old(out)@ + row_text(self.model().cells, row as int).subrange(0, col as int),
            decreases 80 - col,
        {
            let ch = self.buffer[row * DISPLAY_WIDTH + col].character;
            out.push(if 32 <= ch && ch <= 126 { ch as char } else { ' ' });
            col += 1;
            assert(out@ =~= old(out)@ + row_text(self.model().cells, row as int).subrange(0, col as int));
        }
        assert(row_text(self.model().cells, row as int).subrange(0, 80) =~= row_text(self.model().cells, row as int));
    }

    /// The whole screen as text, one line per row; unprintable bytes show as spaces.
    pub fn display_to_string(&self) -> (s: String)
        requires
            self.wf(),
        ensures
            s@ == rows_text(self.model().cells, 25),
    {
        let mut out: Vec<char> = Vec::new();
        let mut row: usize = 0;
        while row < DISPLAY_HEIGHT
            invariant
                self.wf(),
                row <= 25,
                out@ == rows_text(self.model().cells, row as nat),
            decreases 25 - row,
        {
            self.push_row(&mut out, row);
            out.push('\n');
            row += 1;
        }
        chars_to_string(&out)
    }

    /// One row as text; empty for a row past the screen.
    pub fn line(&self, row: usize) -> (s: String)
        requires
            self.wf(),
        ensures
            s@ == (if row < 25 { row_text(self.model().cells, row as int) } else { Seq::empty() }),
    {
        let mut out: Vec<char> = Vec::new();
        if row < DISPLAY_HEIGHT {
            self.push_row(&mut out, row);
        }
        assert(out@ =~= (if row < 25 { row_text(self.model().cells, row as int) } else { Seq::<char>::empty() }));
        chars_to_string(&out)
    }
}

impl Device for Display {
    type DeviceState = DisplayModel;

    open spec fn device_state(&self) -> DisplayModel {
        self.model()
    }

    open spec fn byte_read(s: DisplayModel, offset: u32) -> (DisplayModel, Result<Byte, VosError>) {
        (s, Ok::<u8, VosError>(display_read(s, offset)))
    }

    open spec fn byte_written(s: DisplayModel, offset: u32, value: Byte) -> (DisplayModel, Result<(), VosError>) {
        (display_write(s, offset, value), Ok::<(), VosError>(()))
    }

    fn read_byte(&mut self, offset: u32) -> (r: Result<Byte, VosError>)
        ensures
            final(self).model() == old(self).model(),
            r == Ok::<u8, VosError>(display_read(old(self).model(), offset)),
    {
        if offset >= 4000 || self.buffer.len() != DISPLAY_SIZE {
            return Ok(0);
        }
        let cell = self.buffer[(offset / 2) as usize];
        Ok(if offset % 2 == 0 { cell.character } else { cell.attribute })
    }

    fn write_byte(&mut self, offset: u32, value: Byte) -> (r: Result<(), VosError>)
        ensures
            r == Ok::<(), VosError>(()),
            final(self).model() == display_write(old(self).model(), offset, value),
    {
        if offset >= 4000 || self.buffer.len() != DISPLAY_SIZE {
            return Ok(());
        }
        let i = (offset / 2) as usize;
        let mut cell = self.buffer[i];
        if offset % 2 == 0 {
            cell.character = value;
        } else {
            cell.attribute = value;
        }
        self.buffer.set(i, cell);
        Ok(())
    }

    fn base_address(&self) -> (a: Address)
        ensures
            a == 0x8000_0000,
    {
        DISPLAY_BASE
    }

    fn size(&self) -> (n: usize)
        ensures
            n == 4000,
    {
        DISPLAY_DEVICE_SIZE
    }

    fn name(&self) -> (s: &str)
        ensures
            s@ == "Display"@,
    {
        "Display"
    }

    fn reset(&mut self)
        ensures
            old(self).wf() ==> final(self).model() == blank_display(),
            old(self).wf() ==> final(self).wf(),
    {
        if self.buffer.len() == DISPLAY_SIZE && self.cursor < DISPLAY_SIZE {
            self.clear();
        }
    }
}

} // verus!
