//! The GPU: an interpreter of the command stream that the CPU writes into
//! the GPU command buffer, drawing into a text framebuffer.
//!
//! The GPU is either idle, where a word is a command, or in draw mode,
//! where a word is a character with its colour. What a word does is
//! defined once, on the mathematical state [`GpuState`], by
//! [`GpuState::step`]; the executable GPU is proved to follow it.

use vstd::prelude::*;
use crate::memory::{high_byte, low_byte, Memory, GPU_BUFFER_END, GPU_BUFFER_START};
use crate::opcodes::{
    GPU_DRAW_LETT, GPU_MV_C_DOWN, GPU_MV_C_LEFT, GPU_MV_C_RIGH, GPU_MV_C_UP, GPU_NEW_LINE,
    GPU_RESET_PTR, GPU_RES_F_BUF, GPU_UPDATE,
};

verus! {

/// Number of columns of the framebuffer.
pub const COLUMNS: usize = 92;

/// Number of rows of the framebuffer.
pub const ROWS: usize = 48;

/// Number of cells of the framebuffer.
pub const CELLS: usize = 4416;

/// Ticks between two redraws that the GPU asks for by itself.
pub const REDRAW_TICKS: usize = 99;

/// Redraws between two changes of the cursor's visibility.
pub const BLINK_REDRAWS: usize = 10;

/// The colours of the palette, and black for cleared cells.
#[derive(Clone, Copy, Debug, PartialEq, Eq)]
pub enum CharColors {
    White,
    Red,
    Green,
    Blue,
    Cyan,
    Magenta,
    Black,
}

/// The colour that a colour byte stands for. Bytes without a colour of
/// their own stand for white.
pub open spec fn palette(value: u8) -> CharColors {
    if value == 0x0B {
        CharColors::Red
    } else if value == 0x0C {
        CharColors::Green
    } else if value == 0x0D {
        CharColors::Blue
    } else if value == 0x0E {
        CharColors::Cyan
    } else if value == 0x0F {
        CharColors::Magenta
    } else {
        CharColors::White
    }
}

impl CharColors {
    /// The colour that a colour byte stands for.
    pub fn from_u8(value: u8) -> (color: Option<CharColors>)
        ensures
            color == Some(palette(value)),
    {
        match value {
            0x00 => Some(CharColors::White),
            0x0A => Some(CharColors::White),
            0x0B => Some(CharColors::Red),
            0x0C => Some(CharColors::Green),
            0x0D => Some(CharColors::Blue),
            0x0E => Some(CharColors::Cyan),
            0x0F => Some(CharColors::Magenta),
            _ => Some(CharColors::White),
        }
    }
}

/// One cell of the framebuffer.
#[derive(Clone, Copy, Debug, PartialEq, Eq)]
pub struct Character {
    pub literal: char,
    pub color: CharColors,
}

impl Character {
    /// A white character.
    pub open spec fn new_spec(literal: char) -> Character {
        Character { literal, color: CharColors::White }
    }

    /// A white character.
    pub fn new(char: char) -> (character: Character)
        ensures
            character == Character::new_spec(char),
    {
        Character { literal: char, color: CharColors::White }
    }
}

/// The shapes a cursor can have.
#[derive(Clone, Copy, Debug, PartialEq, Eq)]
pub enum CursorShapes {
    Block,
    Underline,
    VertiBar,
}

impl CursorShapes {
    /// The character that shows a cursor of this shape.
    pub open spec fn glyph_spec(self) -> char {
        match self {
            CursorShapes::Block => '\u{2588}',
            CursorShapes::VertiBar => '|',
            CursorShapes::Underline => '_',
        }
    }

    /// The character that shows a cursor of this shape.
    pub fn glyph(&self) -> (c: char)
        ensures
            c == self.glyph_spec(),
    {
        match self {
            CursorShapes::Block => '\u{2588}',
            CursorShapes::VertiBar => '|',
            CursorShapes::Underline => '_',
        }
    }
}

/// The place where the next character goes, as column and row.
#[derive(Clone, Copy, Debug, PartialEq, Eq)]
pub struct Cursor {
    pub position: (usize, usize),
    pub shape: CursorShapes,
}

impl Cursor {
    /// A cursor in the top left corner.
    pub fn new(shape: CursorShapes) -> (cursor: Cursor)
        ensures
            cursor == (Cursor { position: (0usize, 0usize), shape }),
    {
        Cursor { position: (0, 0), shape }
    }
}

/// The buffer pointer that follows `ptr`: one further, and from the end of
/// the command buffer back to its start.
pub open spec fn next_buf_ptr(ptr: u16) -> u16 {
    if ptr >= GPU_BUFFER_END {
        GPU_BUFFER_START
    } else {
        (ptr + 1) as u16
    }
}

/// Index of the cell in column `x`, row `y`.
pub open spec fn cell_index(x: int, y: int) -> int {
    x * ROWS as int + y
}

/// The cursor position behind a character that was placed at `position`:
/// one column on, from the last column to the first of the next row, and
/// from the last row to the first.
pub open spec fn after_character(position: (usize, usize)) -> (usize, usize) {
    if position.0 + 1 < COLUMNS {
        ((position.0 + 1) as usize, position.1)
    } else if position.1 + 1 < ROWS {
        (0, (position.1 + 1) as usize)
    } else {
        (0, 0)
    }
}

/// One row up; from the first row to the last.
pub open spec fn moved_up(position: (usize, usize)) -> (usize, usize) {
    if position.1 == 0 {
        (position.0, (ROWS - 1) as usize)
    } else {
        (position.0, (position.1 - 1) as usize)
    }
}

/// One row down; from the last row to the first.
pub open spec fn moved_down(position: (usize, usize)) -> (usize, usize) {
    if position.1 + 1 < ROWS {
        (position.0, (position.1 + 1) as usize)
    } else {
        (position.0, 0)
    }
}

/// One column left; from the first column to the last.
pub open spec fn moved_left(position: (usize, usize)) -> (usize, usize) {
    if position.0 == 0 {
        ((COLUMNS - 1) as usize, position.1)
    } else {
        ((position.0 - 1) as usize, position.1)
    }
}

/// One column right; from the last column to the first.
pub open spec fn moved_right(position: (usize, usize)) -> (usize, usize) {
    if position.0 + 1 < COLUMNS {
        ((position.0 + 1) as usize, position.1)
    } else {
        (0, position.1)
    }
}

/// The cell that a word stands for in draw mode: the character of its low
/// byte in the colour of its high byte.
pub open spec fn drawn_cell(word: u16) -> Character {
    Character { literal: low_byte(word) as char, color: palette(high_byte(word)) }
}

/// Whether a word ends draw mode: its low byte is a backtick.
pub open spec fn is_escape(word: u16) -> bool {
    low_byte(word) == 0x60
}

/// A cleared cell: a black space.
pub open spec fn cleared_cell() -> Character {
    Character { literal: ' ', color: CharColors::Black }
}

/// The state of the GPU as a mathematical value.
pub struct GpuState {
    pub buf_ptr: u16,
    /// The cells of the framebuffer, column by column.
    pub cells: Seq<Character>,
    pub position: (usize, usize),
    pub draw_mode: bool,
}

impl GpuState {
    /// The framebuffer is complete and the cursor is inside it.
    pub open spec fn wf(self) -> bool {
        &&& self.cells.len() == CELLS
        &&& self.position.0 < COLUMNS
        &&& self.position.1 < ROWS
    }

    /// The cell in column `x`, row `y`.
    pub open spec fn cell(self, x: int, y: int) -> Character {
        self.cells[cell_index(x, y)]
    }

    /// The state with the buffer pointer moved on.
    pub open spec fn advance(self) -> GpuState {
        GpuState { buf_ptr: next_buf_ptr(self.buf_ptr), ..self }
    }

    /// The state with the cursor at `position`.
    pub open spec fn with_cursor(self, position: (usize, usize)) -> GpuState {
        GpuState { position, ..self }
    }

    /// The state after `word` was read in draw mode.
    pub open spec fn draw(self, word: u16) -> GpuState {
        if is_escape(word) {
            GpuState { draw_mode: false, ..self.advance() }
        } else {
            GpuState {
                cells: self.cells.update(
                    cell_index(self.position.0 as int, self.position.1 as int),
                    drawn_cell(word),
                ),
                position: after_character(self.position),
                ..self.advance()
            }
        }
    }

    /// The state after `word` was read as a command.
    pub open spec fn command(self, word: u16) -> GpuState {
        if word == GPU_DRAW_LETT {
            GpuState { draw_mode: true, ..self.advance() }
        } else if word == GPU_RESET_PTR {
            GpuState { buf_ptr: GPU_BUFFER_START, ..self }
        } else if word == GPU_RES_F_BUF {
            GpuState {
                cells: Seq::new(CELLS as nat, |i: int| cleared_cell()),
                position: (0, 0),
                ..self.advance()
            }
        } else if word == GPU_MV_C_UP {
            self.advance().with_cursor(moved_up(self.position))
        } else if word == GPU_MV_C_DOWN {
            self.advance().with_cursor(moved_down(self.position))
        } else if word == GPU_MV_C_LEFT {
            self.advance().with_cursor(moved_left(self.position))
        } else if word == GPU_MV_C_RIGH {
            self.advance().with_cursor(moved_right(self.position))
        } else if word == GPU_NEW_LINE {
            self.advance().with_cursor((0, moved_down(self.position).1))
        } else {
            self.advance()
        }
    }

    /// The state after the GPU has read `word` at its buffer pointer.
    pub open spec fn step(self, word: u16) -> GpuState {
        if self.draw_mode {
            self.draw(word)
        } else {
            self.command(word)
        }
    }

    /// Whether reading `word` asks for the framebuffer to be rendered.
    pub open spec fn asks_redraw(self, word: u16) -> bool {
        !self.draw_mode && word == GPU_UPDATE
    }
}

/// One character to be painted, with the pixel at which it goes.
#[derive(Clone, Copy, Debug, PartialEq, Eq)]
pub struct Glyph {
    pub literal: char,
    /// Pixels from the left edge of the window.
    pub x: u32,
    /// Pixels from the top edge of the window.
    pub y: u32,
    pub color: CharColors,
}

/// The glyph that paints `character` in column `x`, row `y`: cells are 7
/// pixels wide and 12 high, behind a margin of 2 and 10 pixels.
pub open spec fn glyph_at(character: Character, x: int, y: int) -> Glyph {
    Glyph {
        literal: character.literal,
        x: (x * 7 + 2) as u32,
        y: (y * 12 + 10) as u32,
        color: character.color,
    }
}

/// The graphics processor with its framebuffer.
#[derive(Debug)]
pub struct GPU {
    /// Address in the ROM of the next word to read.
    pub buf_ptr: u16,
    /// The cells of the framebuffer, column by column.
    pub frame_buffer: Vec<Character>,
    pub cursor: Cursor,
    pub cursor_visible: bool,
    pub draw_mode: bool,
    /// Colour of the cursor.
    pub draw_color: CharColors,
    /// Words per second that the driver paces the GPU to.
    pub clock_speed: usize,
    /// Ticks since the last redraw that the GPU asked for by itself.
    pub pri_counter: usize,
    /// Such redraws since the cursor last changed its visibility.
    pub sec_counter: usize,
}

impl View for GPU {
    type V = GpuState;

    open spec fn view(&self) -> GpuState {
        GpuState {
            buf_ptr: self.buf_ptr,
            cells: self.frame_buffer@,
            position: self.cursor.position,
            draw_mode: self.draw_mode,
        }
    }
}

impl GPU {
    /// The framebuffer is complete, the cursor is inside it, and the
    /// counters are within their periods.
    pub open spec fn wf(&self) -> bool {
        &&& self@.wf()
        &&& self.pri_counter < REDRAW_TICKS
        &&& self.sec_counter < BLINK_REDRAWS
    }

    /// What a word read from the command buffer leaves as it was.
    pub open spec fn same_settings(&self, other: &GPU) -> bool {
        &&& self.cursor.shape == other.cursor.shape
        &&& self.cursor_visible == other.cursor_visible
        &&& self.draw_color == other.draw_color
        &&& self.clock_speed == other.clock_speed
        &&& self.pri_counter == other.pri_counter
        &&& self.sec_counter == other.sec_counter
    }

    /// Tells at run time whether the GPU is well formed.
    pub fn is_wf(&self) -> (ok: bool)
        ensures
            ok == self.wf(),
    {
        self.frame_buffer.len() == CELLS && self.cursor.position.0 < COLUMNS
            && self.cursor.position.1 < ROWS && self.pri_counter < REDRAW_TICKS
            && self.sec_counter < BLINK_REDRAWS
    }

    /// A GPU at reset: the buffer pointer at the start of the command
    /// buffer, every cell a white space, a block cursor in the top left
    /// corner, not yet visible.
    pub fn init() -> (gpu: GPU)
        ensures
            gpu.wf(),
            gpu.buf_ptr == 0x0300,
            forall|i: int| 0 <= i < CELLS ==> gpu.frame_buffer@[i] == Character::new_spec(' '),
            gpu.cursor == (Cursor { position: (0usize, 0usize), shape: CursorShapes::Block }),
            !gpu.cursor_visible,
            !gpu.draw_mode,
            gpu.draw_color == CharColors::White,
            gpu.clock_speed == 10_000,
            gpu.pri_counter == 0,
            gpu.sec_counter == 0,
    {
        let mut frame_buffer: Vec<Character> = Vec::with_capacity(CELLS);
        let mut i: usize = 0;
        while i < CELLS
            invariant
                i <= CELLS,
                frame_buffer@.len() == i,
                forall|k: int| 0 <= k < i ==> frame_buffer@[k] == Character::new_spec(' '),
            decreases CELLS - i,
        {
            frame_buffer.push(Character::new(' '));
            i += 1;
        }
        GPU {
            buf_ptr: GPU_BUFFER_START,
            frame_buffer,
            cursor: Cursor::new(CursorShapes::Block),
            cursor_visible: false,
            draw_mode: false,
            draw_color: CharColors::White,
            clock_speed: 10_000,
            pri_counter: 0,
            sec_counter: 0,
        }
    }

    /// Moves the buffer pointer on by one word.
    pub fn increase_buf_ptr(&mut self)
        ensures
            *final(self) == (GPU { buf_ptr: next_buf_ptr(old(self).buf_ptr), ..*old(self) }),
    {
        if self.buf_ptr >= GPU_BUFFER_END {
            self.buf_ptr = GPU_BUFFER_START;
        } else {
            self.buf_ptr += 1;
        }
    }

    /// The glyphs of the framebuffer: one for every cell, row by row.
    pub open spec fn cell_glyphs(&self) -> Seq<Glyph> {
        Seq::new(
            CELLS as nat,
            |k: int|
                glyph_at(
                    self@.cell(k % COLUMNS as int, k / COLUMNS as int),
                    k % COLUMNS as int,
                    k / COLUMNS as int,
                ),
        )
    }

    /// The glyph that paints the cursor.
    pub open spec fn cursor_glyph(&self) -> Glyph {
        glyph_at(
            Character { literal: self.cursor.shape.glyph_spec(), color: self.draw_color },
            self.cursor.position.0 as int,
            self.cursor.position.1 as int,
        )
    }

    /// Everything that a redraw paints, in the order of painting: the
    /// cursor if it is visible, then every cell of the framebuffer.
    pub open spec fn display_list(&self) -> Seq<Glyph> {
        if self.cursor_visible {
            seq![self.cursor_glyph()] + self.cell_glyphs()
        } else {
            self.cell_glyphs()
        }
    }

    /// The cell in column `x`, row `y`.
    pub fn cell(&self, x: usize, y: usize) -> (character: Character)
        requires
            self.wf(),
            x < COLUMNS,
            y < ROWS,
        ensures
            character == self@.cell(x as int, y as int),
    {
        self.frame_buffer[x * ROWS + y]
    }

    /// Lists what a redraw paints.
    pub fn draw_framebuffer(&self) -> (glyphs: Vec<Glyph>)
        requires
            self.wf(),
        ensures
            glyphs@ == self.display_list(),
    {
        let mut glyphs: Vec<Glyph> = Vec::new();
        if self.cursor_visible {
            glyphs.push(
                Glyph {
                    literal: self.cursor.shape.glyph(),
                    x: (self.cursor.position.0 * 7 + 2) as u32,
                    y: (self.cursor.position.1 * 12 + 10) as u32,
                    color: self.draw_color,
                },
            );
        }
        let ghost head = glyphs@;
        let ghost all = self.cell_glyphs();
        assert(glyphs@ =~= head + all.take(0));
        let mut y: usize = 0;
        while y < ROWS
            invariant
                self.wf(),
                y <= ROWS,
                all == self.cell_glyphs(),
                glyphs@ == head + all.take(y * COLUMNS as int),
            decreases ROWS - y,
        {
            let mut x: usize = 0;
            while x < COLUMNS
                invariant
                    self.wf(),
                    y < ROWS,
                    x <= COLUMNS,
                    all == self.cell_glyphs(),
                    glyphs@ == head + all.take(y * COLUMNS as int + x),
                decreases COLUMNS - x,
            {
                let character: Character = self.frame_buffer[x * ROWS + y];
                let glyph = Glyph {
                    literal: character.literal,
                    x: (x * 7 + 2) as u32,
                    y: (y * 12 + 10) as u32,
                    color: character.color,
                };
                proof {
                    let k = y * COLUMNS as int + x;
                    assert(k % COLUMNS as int == x && k / COLUMNS as int == y);
                    assert(all[k] == glyph);
                    assert(all.take(k + 1) =~= all.take(k).push(glyph));
                    assert(head + all.take(k).push(glyph) =~= (head + all.take(k)).push(glyph));
                }
                glyphs.push(glyph);
                x += 1;
            }
            y += 1;
        }
        assert(all.take(ROWS * COLUMNS as int) =~= all);
        glyphs
    }

    /// Fills the framebuffer with black spaces.
    fn clear(&mut self)
        requires
            old(self).wf(),
        ensures
            *final(self) == (GPU { frame_buffer: final(self).frame_buffer, ..*old(self) }),
            final(self).frame_buffer@ == Seq::new(CELLS as nat, |i: int| cleared_cell()),
    {
        let mut i: usize = 0;
        while i < CELLS
            invariant
                i <= CELLS,
                *self == (GPU { frame_buffer: self.frame_buffer, ..*old(self) }),
                self.frame_buffer@.len() == CELLS,
                forall|k: int| 0 <= k < i ==> self.frame_buffer@[k] == cleared_cell(),
            decreases CELLS - i,
        {
            self.frame_buffer.set(i, Character { literal: ' ', color: CharColors::Black });
            i += 1;
        }
        assert(self.frame_buffer@ =~= Seq::new(CELLS as nat, |i: int| cleared_cell()));
    }

    /// Reads the word at the buffer pointer in draw mode.
    fn draw(&mut self, word: u16)
        requires
            old(self).wf(),
            old(self).draw_mode,
        ensures
            final(self)@ == old(self)@.draw(word),
            final(self).wf(),
            final(self).same_settings(old(self)),
    {
        let char_byte: u8 = (word % 256) as u8;
        if char_byte == 0x60 {
            self.draw_mode = false;
        } else {
            let color_byte: u8 = (word / 256) as u8;
            let color: CharColors = match CharColors::from_u8(color_byte) {
                Some(color) => color,
                None => CharColors::White,
            };
            let x: usize = self.cursor.position.0;
            let y: usize = self.cursor.position.1;
            self.frame_buffer.set(x * ROWS + y, Character { literal: char_byte as char, color });
            if x + 1 < COLUMNS {
                self.cursor.position = (x + 1, y);
            } else if y + 1 < ROWS {
                self.cursor.position = (0, y + 1);
            } else {
                self.cursor.position = (0, 0);
            }
        }
        self.increase_buf_ptr();
    }

    /// Reads the word at the buffer pointer as a command.
    fn command(&mut self, word: u16)
        requires
            old(self).wf(),
            !old(self).draw_mode,
        ensures
            final(self)@ == old(self)@.command(word),
            final(self).wf(),
            final(self).same_settings(old(self)),
    {
        let x: usize = self.cursor.position.0;
        let y: usize = self.cursor.position.1;
        match word {
            GPU_DRAW_LETT => {
                self.draw_mode = true;
                self.increase_buf_ptr();
            },
            GPU_RESET_PTR => {
                self.buf_ptr = GPU_BUFFER_START;
            },
            GPU_RES_F_BUF => {
                self.clear();
                self.cursor.position = (0, 0);
                self.increase_buf_ptr();
            },
            GPU_MV_C_UP => {
                self.cursor.position = if y == 0 {
                    (x, ROWS - 1)
                } else {
                    (x, y - 1)
                };
                self.increase_buf_ptr();
            },
            GPU_MV_C_DOWN => {
                self.cursor.position = if y + 1 < ROWS {
                    (x, y + 1)
                } else {
                    (x, 0)
                };
                self.increase_buf_ptr();
            },
            GPU_MV_C_LEFT => {
                self.cursor.position = if x == 0 {
                    (COLUMNS - 1, y)
                } else {
                    (x - 1, y)
                };
                self.increase_buf_ptr();
            },
            GPU_MV_C_RIGH => {
                self.cursor.position = if x + 1 < COLUMNS {
                    (x + 1, y)
                } else {
                    (0, y)
                };
                self.increase_buf_ptr();
            },
            GPU_NEW_LINE => {
                self.cursor.position = if y + 1 < ROWS {
                    (0, y + 1)
                } else {
                    (0, 0)
                };
                self.increase_buf_ptr();
            },
            _ => {
                self.increase_buf_ptr();
            },
        }
    }

    /// Reads the word at the buffer pointer and does what it says.
    ///
    /// Outside draw mode a word that is no command moves the pointer on
    /// and does nothing else. The result says whether the framebuffer is
    /// to be rendered now.
    pub fn update(&mut self, memory: &Memory) -> (redraw: bool)
        requires
            old(self).wf(),
            memory.wf(),
        ensures
            final(self)@ == old(self)@.step(memory.rom@[old(self).buf_ptr as int]),
            redraw == old(self)@.asks_redraw(memory.rom@[old(self).buf_ptr as int]),
            final(self).wf(),
            final(self).same_settings(old(self)),
    {
        let word: u16 = memory.rom[self.buf_ptr as usize];
        if self.draw_mode {
            self.draw(word);
            false
        } else {
            self.command(word);
            word == GPU_UPDATE
        }
    }

    /// Counts one tick of the GPU's clock and tells whether the GPU asks
    /// for a redraw by itself, which it does on every 99th tick.
    pub fn tick(&mut self) -> (redraw: bool)
        requires
            old(self).wf(),
        ensures
            redraw == (old(self).pri_counter + 1 == REDRAW_TICKS),
            *final(self) == (GPU {
                pri_counter: if redraw {
                    0
                } else {
                    (old(self).pri_counter + 1) as usize
                },
                ..*old(self)
            }),
            final(self).wf(),
    {
        self.pri_counter += 1;
        if self.pri_counter == REDRAW_TICKS {
            self.pri_counter = 0;
            true
        } else {
            false
        }
    }

    /// Counts one redraw that the GPU asked for by itself; on every tenth
    /// the cursor changes between visible and hidden.
    pub fn blink(&mut self)
        requires
            old(self).wf(),
        ensures
            *final(self) == if old(self).sec_counter + 1 == BLINK_REDRAWS {
                GPU { sec_counter: 0, cursor_visible: !old(self).cursor_visible, ..*old(self) }
            } else {
                GPU { sec_counter: (old(self).sec_counter + 1) as usize, ..*old(self) }
            },
            final(self).wf(),
    {
        self.sec_counter += 1;
        if self.sec_counter == BLINK_REDRAWS {
            self.cursor_visible = !self.cursor_visible;
            self.sec_counter = 0;
        }
    }

    /// Microseconds that the driver sleeps after each tick to hold the
    /// clock speed.
    pub fn pause_micros(&self) -> (micros: u64)
        requires
            self.clock_speed > 0,
        ensures
            micros == 1_000_000int / (self.clock_speed as int),
    {
        1_000_000u64 / (self.clock_speed as u64)
    }
}

/// Moving on keeps the buffer pointer inside the command buffer, and
/// takes it from the end of the buffer to its start.
pub proof fn lemma_buf_ptr_stays_in_buffer(ptr: u16)
    requires
        0x0300 <= ptr <= 0x0FFF,
    ensures
        0x0300 <= next_buf_ptr(ptr) <= 0x0FFF,
        ptr == 0x0FFF ==> next_buf_ptr(ptr) == 0x0300,
        ptr != 0x0FFF ==> next_buf_ptr(ptr) == ptr + 1,
{
}

/// Whatever word the GPU reads, its buffer pointer stays inside the
/// command buffer, the framebuffer stays complete and the cursor stays
/// inside it.
pub proof fn lemma_step_stays_in_bounds(s: GpuState, word: u16)
    requires
        s.wf(),
        0x0300 <= s.buf_ptr <= 0x0FFF,
    ensures
        s.step(word).wf(),
        0x0300 <= s.step(word).buf_ptr <= 0x0FFF,
{
}

/// The buffer pointer only ever moves forward by one word, wrapping at
/// the end of the command buffer, except that the reset command takes it
/// back to the start.
pub proof fn lemma_buf_ptr_moves_forward(s: GpuState, word: u16)
    ensures
        !s.draw_mode && word == GPU_RESET_PTR ==> s.step(word).buf_ptr == GPU_BUFFER_START,
        s.draw_mode || word != GPU_RESET_PTR ==> s.step(word).buf_ptr == next_buf_ptr(s.buf_ptr),
{
}

/// The column of the cell whose glyph is number `k` in the list of cell
/// glyphs.
pub open spec fn glyph_column(k: int) -> int {
    k % (COLUMNS as int)
}

/// The row of the cell whose glyph is number `k` in the list of cell
/// glyphs.
pub open spec fn glyph_row(k: int) -> int {
    k / (COLUMNS as int)
}

/// Where in the list of cell glyphs the cell in column `x`, row `y` comes.
pub open spec fn glyph_index(x: int, y: int) -> int {
    y * COLUMNS + x
}

/// A redraw paints the whole framebuffer. Every cell is listed exactly
/// once, with its own character and colour, at the pixel that its column
/// and row give: each cell has a place of its own in the list, and each
/// place of the list belongs to a cell. The cursor comes before the cells
/// if and only if it is visible.
pub proof fn lemma_display_list_covers_framebuffer(gpu: GPU)
    requires
        gpu.wf(),
    ensures
        gpu.cell_glyphs().len() == CELLS,
        gpu.display_list() == if gpu.cursor_visible {
            seq![gpu.cursor_glyph()] + gpu.cell_glyphs()
        } else {
            gpu.cell_glyphs()
        },
        forall|x: int, y: int|
            0 <= x < COLUMNS && 0 <= y < ROWS ==> 0 <= #[trigger] glyph_index(x, y) < CELLS
                && gpu.cell_glyphs()[glyph_index(x, y)] == glyph_at(gpu@.cell(x, y), x, y),
        forall|k: int|
            #![trigger glyph_row(k)]
            0 <= k < CELLS ==> 0 <= glyph_column(k) < COLUMNS && 0 <= glyph_row(k) < ROWS
                && glyph_index(glyph_column(k), glyph_row(k)) == k,
{
    assert forall|x: int, y: int| 0 <= x < COLUMNS && 0 <= y < ROWS implies 0
        <= #[trigger] glyph_index(x, y) < CELLS && gpu.cell_glyphs()[glyph_index(x, y)]
        == glyph_at(gpu@.cell(x, y), x, y) by {
        let k = y * COLUMNS + x;
        assert(k % COLUMNS as int == x && k / COLUMNS as int == y);
    }
}

/// The draw-mode escape. In draw mode a word whose low byte is `0x60`
/// ends draw mode and moves the buffer pointer on; it places no character
/// and leaves the cursor where it is.
pub proof fn lemma_escape_leaves_draw_mode(s: GpuState, word: u16)
    requires
        s.draw_mode,
        low_byte(word) == 0x60,
    ensures
        !s.step(word).draw_mode,
        s.step(word).cells == s.cells,
        s.step(word).position == s.position,
        s.step(word).buf_ptr == next_buf_ptr(s.buf_ptr),
        !s.asks_redraw(word),
{
}

/// Draw mode lasts until the escape: any other word keeps the GPU in draw
/// mode.
pub proof fn lemma_draw_mode_lasts(s: GpuState, word: u16)
    requires
        s.draw_mode,
        low_byte(word) != 0x60,
    ensures
        s.step(word).draw_mode,
{
}

/// Colour decoding. In draw mode a word that is not the escape puts the
/// character of its low byte at the cursor, in the colour of its high
/// byte, changes no other cell, and moves cursor and buffer pointer on.
pub proof fn lemma_draw_places_character(s: GpuState, word: u16)
    requires
        s.wf(),
        s.draw_mode,
        low_byte(word) != 0x60,
    ensures
        s.step(word).cell(s.position.0 as int, s.position.1 as int) == (Character {
            literal: low_byte(word) as char,
            color: palette(high_byte(word)),
        }),
        forall|x: int, y: int|
            0 <= x < COLUMNS && 0 <= y < ROWS && (x, y) != (
                s.position.0 as int,
                s.position.1 as int,
            ) ==> s.step(word).cell(x, y) == s.cell(x, y),
        s.step(word).position == after_character(s.position),
        s.step(word).buf_ptr == next_buf_ptr(s.buf_ptr),
{
    assert forall|x: int, y: int|
        0 <= x < COLUMNS && 0 <= y < ROWS && (x, y) != (
            s.position.0 as int,
            s.position.1 as int,
        ) implies s.step(word).cell(x, y) == s.cell(x, y) by {
        assert(cell_index(x, y) != cell_index(s.position.0 as int, s.position.1 as int));
    }
}

/// The palette: each colour byte stands for its colour, and every byte
/// without a colour of its own stands for white.
pub proof fn lemma_palette(value: u8)
    ensures
        value == 0x00 || value == 0x0A ==> palette(value) == CharColors::White,
        value == 0x0B ==> palette(value) == CharColors::Red,
        value == 0x0C ==> palette(value) == CharColors::Green,
        value == 0x0D ==> palette(value) == CharColors::Blue,
        value == 0x0E ==> palette(value) == CharColors::Cyan,
        value == 0x0F ==> palette(value) == CharColors::Magenta,
        !(0x0B <= value <= 0x0F) ==> palette(value) == CharColors::White,
        palette(value) != CharColors::Black,
{
}

/// Clearing the framebuffer makes every cell a black space and puts the
/// cursor in the top left corner, whatever was drawn before.
pub proof fn lemma_clear_resets_framebuffer(s: GpuState)
    requires
        s.wf(),
        !s.draw_mode,
    ensures
        s.step(GPU_RES_F_BUF).wf(),
        forall|x: int, y: int|
            0 <= x < COLUMNS && 0 <= y < ROWS ==> s.step(GPU_RES_F_BUF).cell(x, y) == (Character {
                literal: ' ',
                color: CharColors::Black,
            }),
        s.step(GPU_RES_F_BUF).position == (0usize, 0usize),
        s.step(GPU_RES_F_BUF).buf_ptr == next_buf_ptr(s.buf_ptr),
{
}

/// The cursor behind a character: within a row it moves one column on,
/// from the last column it goes to the first of the next row, and from the
/// last cell to the first.
pub proof fn lemma_cursor_advance(position: (usize, usize))
    requires
        position.0 < COLUMNS,
        position.1 < ROWS,
    ensures
        after_character(position).0 < COLUMNS,
        after_character(position).1 < ROWS,
        position.0 < COLUMNS - 1 ==> after_character(position) == (
            (position.0 + 1) as usize,
            position.1,
        ),
        position.0 == COLUMNS - 1 && position.1 < ROWS - 1 ==> after_character(position) == (
            0usize,
            (position.1 + 1) as usize,
        ),
        position.0 == COLUMNS - 1 && position.1 == ROWS - 1 ==> after_character(position) == (
            0usize,
            0usize,
        ),
{
}

} // verus!
