//! The vocabulary of a terminal: positions, cell widths, damage and selections.

use vstd::prelude::*;

verus! {

/// A position in terminal coordinates: rows above the screen are negative.
#[derive(Clone, Copy, Debug, PartialEq, Eq, Structural)]
pub struct Pos {
    pub row: i32,
    pub col: usize,
}

impl Pos {
    pub fn new(row: i32, col: usize) -> (r: Self)
        ensures
            r == (Pos { row, col }),
    {
        Pos { row, col }
    }

    /// Reading order: by row, then by column.
    pub open spec fn precedes(self, other: Pos) -> bool {
        self.row < other.row || (self.row == other.row && self.col < other.col)
    }

    pub fn is_before(&self, other: &Pos) -> (r: bool)
        ensures
            r == self.precedes(*other),
    {
        self.row < other.row || (self.row == other.row && self.col < other.col)
    }
}

/// How many columns a cell's glyph takes, and which half of it a cell is.
#[derive(Clone, Copy, Debug, PartialEq, Eq, Structural)]
pub enum Wide {
    Narrow,
    Wide,
    Spacer,
    LeadingSpacer,
}

/// How a cursor is drawn.
#[derive(Clone, Copy, Debug, PartialEq, Eq, Structural)]
pub enum CursorShape {
    Block,
    Underline,
    Beam,
    Hidden,
}

/// How much of a terminal has to be drawn again.
#[derive(Clone, Copy, Debug, PartialEq, Eq, Structural)]
pub enum TerminalDamage {
    Noop,
    CursorOnly,
    Partial,
    Full,
}

impl TerminalDamage {
    /// The extent of the damage: each kind covers the ones before it.
    pub open spec fn extent(self) -> int {
        match self {
            TerminalDamage::Noop => 0,
            TerminalDamage::CursorOnly => 1,
            TerminalDamage::Partial => 2,
            TerminalDamage::Full => 3,
        }
    }

    /// The damage that covers both.
    pub open spec fn merged(self, other: TerminalDamage) -> TerminalDamage {
        if self.extent() >= other.extent() {
            self
        } else {
            other
        }
    }

    pub fn merge(self, other: TerminalDamage) -> (r: TerminalDamage)
        ensures
            r == self.merged(other),
    {
        match (self, other) {
            (TerminalDamage::Full, _) => self,
            (_, TerminalDamage::Full) => other,
            (TerminalDamage::Partial, _) => self,
            (_, TerminalDamage::Partial) => other,
            (TerminalDamage::CursorOnly, _) => self,
            (_, TerminalDamage::CursorOnly) => other,
            _ => self,
        }
    }
}

/// Merging damage never forgets any of it, in whatever order it came.
pub proof fn law_damage_merges_as_maximum(a: TerminalDamage, b: TerminalDamage, c: TerminalDamage)
    ensures
        a.merged(b) == b.merged(a),
        a.merged(b).merged(c) == a.merged(b.merged(c)),
        a.merged(b).extent() >= a.extent(),
        a.merged(b).extent() >= b.extent(),
        a.merged(a) == a,
{
}

/// A selected range of cells.
#[derive(Clone, Copy, Debug, PartialEq, Eq, Structural)]
pub struct SelectionRange {
    pub start: Pos,
    pub end: Pos,
    pub is_block: bool,
}

impl SelectionRange {
    pub fn new(start: Pos, end: Pos, is_block: bool) -> (r: Self)
        ensures
            r == (SelectionRange { start, end, is_block }),
    {
        SelectionRange { start, end, is_block }
    }
}

/// Whether two optional selections are the same.
pub fn same_selection(a: &Option<SelectionRange>, b: &Option<SelectionRange>) -> (r: bool)
    ensures
        r == (a == b),
{
    match (a, b) {
        (Some(x), Some(y)) => *x == *y,
        (None, None) => true,
        _ => false,
    }
}

/// The two clipboards of a window system.
#[derive(Clone, Copy, Debug, PartialEq, Eq, Structural)]
pub enum ClipboardType {
    Clipboard,
    Selection,
}

/// A colour given by its components.
#[derive(Clone, Copy, Debug, PartialEq, Eq, Structural)]
pub struct ColorRgb {
    pub r: u8,
    pub g: u8,
    pub b: u8,
}

/// A colour with its four components as the bits of single-precision numbers.
#[derive(Clone, Copy, Debug, PartialEq, Eq, Structural)]
pub struct ColorBits {
    pub r: u32,
    pub g: u32,
    pub b: u32,
    pub a: u32,
}

/// Two single-precision numbers are equal, by their bits: no number equals one
/// that is none, and the two zeros are equal.
pub open spec fn equal_singles(a: u32, b: u32) -> bool {
    let (x, y) = (a % 0x8000_0000, b % 0x8000_0000);
    a == b && x <= 0x7f80_0000 || x == 0 && y == 0
}

pub fn singles_equal(a: u32, b: u32) -> (r: bool)
    ensures
        r == equal_singles(a, b),
{
    let x: u32 = a % 0x8000_0000;
    let y: u32 = b % 0x8000_0000;
    a == b && x <= 0x7f80_0000 || x == 0 && y == 0
}

/// Two double-precision numbers are equal, by their bits.
pub open spec fn equal_doubles(a: u64, b: u64) -> bool {
    let (x, y) = (a % 0x8000_0000_0000_0000, b % 0x8000_0000_0000_0000);
    a == b && x <= 0x7ff0_0000_0000_0000 || x == 0 && y == 0
}

pub fn doubles_equal(a: u64, b: u64) -> (r: bool)
    ensures
        r == equal_doubles(a, b),
{
    let x: u64 = a % 0x8000_0000_0000_0000;
    let y: u64 = b % 0x8000_0000_0000_0000;
    a == b && x <= 0x7ff0_0000_0000_0000 || x == 0 && y == 0
}

/// The colours that have a name.
#[derive(Clone, Copy, Debug, PartialEq, Eq, Structural)]
pub enum NamedColor {
    Black,
    Red,
    Green,
    Yellow,
    Blue,
    Magenta,
    Cyan,
    White,
    LightBlack,
    LightRed,
    LightGreen,
    LightYellow,
    LightBlue,
    LightMagenta,
    LightCyan,
    LightWhite,
    Foreground,
    Background,
    Cursor,
    DimBlack,
    DimRed,
    DimGreen,
    DimYellow,
    DimBlue,
    DimMagenta,
    DimCyan,
    DimWhite,
    LightForeground,
    DimForeground,
}

impl NamedColor {
    /// The slot of the colour in a terminal's colour table.
    pub open spec fn slot(self) -> int {
        match self {
            NamedColor::Black => 0,
            NamedColor::Red => 1,
            NamedColor::Green => 2,
            NamedColor::Yellow => 3,
            NamedColor::Blue => 4,
            NamedColor::Magenta => 5,
            NamedColor::Cyan => 6,
            NamedColor::White => 7,
            NamedColor::LightBlack => 8,
            NamedColor::LightRed => 9,
            NamedColor::LightGreen => 10,
            NamedColor::LightYellow => 11,
            NamedColor::LightBlue => 12,
            NamedColor::LightMagenta => 13,
            NamedColor::LightCyan => 14,
            NamedColor::LightWhite => 15,
            NamedColor::Foreground => 256,
            NamedColor::Background => 257,
            NamedColor::Cursor => 258,
            NamedColor::DimBlack => 259,
            NamedColor::DimRed => 260,
            NamedColor::DimGreen => 261,
            NamedColor::DimYellow => 262,
            NamedColor::DimBlue => 263,
            NamedColor::DimMagenta => 264,
            NamedColor::DimCyan => 265,
            NamedColor::DimWhite => 266,
            NamedColor::LightForeground => 267,
            NamedColor::DimForeground => 268,
        }
    }

    pub fn index(self) -> (r: usize)
        ensures
            r == self.slot(),
    {
        match self {
            NamedColor::Black => 0,
            NamedColor::Red => 1,
            NamedColor::Green => 2,
            NamedColor::Yellow => 3,
            NamedColor::Blue => 4,
            NamedColor::Magenta => 5,
            NamedColor::Cyan => 6,
            NamedColor::White => 7,
            NamedColor::LightBlack => 8,
            NamedColor::LightRed => 9,
            NamedColor::LightGreen => 10,
            NamedColor::LightYellow => 11,
            NamedColor::LightBlue => 12,
            NamedColor::LightMagenta => 13,
            NamedColor::LightCyan => 14,
            NamedColor::LightWhite => 15,
            NamedColor::Foreground => 256,
            NamedColor::Background => 257,
            NamedColor::Cursor => 258,
            NamedColor::DimBlack => 259,
            NamedColor::DimRed => 260,
            NamedColor::DimGreen => 261,
            NamedColor::DimYellow => 262,
            NamedColor::DimBlue => 263,
            NamedColor::DimMagenta => 264,
            NamedColor::DimCyan => 265,
            NamedColor::DimWhite => 266,
            NamedColor::LightForeground => 267,
            NamedColor::DimForeground => 268,
        }
    }
}

/// The number of slots in a terminal's colour table.
pub const COLOR_COUNT: usize = 269;

/// The named colour in a slot; slots without a name count as the foreground.
pub open spec fn color_in_slot(value: u16) -> NamedColor {
    if value == 0 {
        NamedColor::Black
    } else if value == 1 {
        NamedColor::Red
    } else if value == 2 {
        NamedColor::Green
    } else if value == 3 {
        NamedColor::Yellow
    } else if value == 4 {
        NamedColor::Blue
    } else if value == 5 {
        NamedColor::Magenta
    } else if value == 6 {
        NamedColor::Cyan
    } else if value == 7 {
        NamedColor::White
    } else if value == 8 {
        NamedColor::LightBlack
    } else if value == 9 {
        NamedColor::LightRed
    } else if value == 10 {
        NamedColor::LightGreen
    } else if value == 11 {
        NamedColor::LightYellow
    } else if value == 12 {
        NamedColor::LightBlue
    } else if value == 13 {
        NamedColor::LightMagenta
    } else if value == 14 {
        NamedColor::LightCyan
    } else if value == 15 {
        NamedColor::LightWhite
    } else if value == 256 {
        NamedColor::Foreground
    } else if value == 257 {
        NamedColor::Background
    } else if value == 258 {
        NamedColor::Cursor
    } else if value == 259 {
        NamedColor::DimBlack
    } else if value == 260 {
        NamedColor::DimRed
    } else if value == 261 {
        NamedColor::DimGreen
    } else if value == 262 {
        NamedColor::DimYellow
    } else if value == 263 {
        NamedColor::DimBlue
    } else if value == 264 {
        NamedColor::DimMagenta
    } else if value == 265 {
        NamedColor::DimCyan
    } else if value == 266 {
        NamedColor::DimWhite
    } else if value == 267 {
        NamedColor::LightForeground
    } else if value == 268 {
        NamedColor::DimForeground
    } else {
        NamedColor::Foreground
    }
}

pub fn named_color(value: u16) -> (r: NamedColor)
    ensures
        r == color_in_slot(value),
{
    if value == 0 {
        NamedColor::Black
    } else if value == 1 {
        NamedColor::Red
    } else if value == 2 {
        NamedColor::Green
    } else if value == 3 {
        NamedColor::Yellow
    } else if value == 4 {
        NamedColor::Blue
    } else if value == 5 {
        NamedColor::Magenta
    } else if value == 6 {
        NamedColor::Cyan
    } else if value == 7 {
        NamedColor::White
    } else if value == 8 {
        NamedColor::LightBlack
    } else if value == 9 {
        NamedColor::LightRed
    } else if value == 10 {
        NamedColor::LightGreen
    } else if value == 11 {
        NamedColor::LightYellow
    } else if value == 12 {
        NamedColor::LightBlue
    } else if value == 13 {
        NamedColor::LightMagenta
    } else if value == 14 {
        NamedColor::LightCyan
    } else if value == 15 {
        NamedColor::LightWhite
    } else if value == 256 {
        NamedColor::Foreground
    } else if value == 257 {
        NamedColor::Background
    } else if value == 258 {
        NamedColor::Cursor
    } else if value == 259 {
        NamedColor::DimBlack
    } else if value == 260 {
        NamedColor::DimRed
    } else if value == 261 {
        NamedColor::DimGreen
    } else if value == 262 {
        NamedColor::DimYellow
    } else if value == 263 {
        NamedColor::DimBlue
    } else if value == 264 {
        NamedColor::DimMagenta
    } else if value == 265 {
        NamedColor::DimCyan
    } else if value == 266 {
        NamedColor::DimWhite
    } else if value == 267 {
        NamedColor::LightForeground
    } else if value == 268 {
        NamedColor::DimForeground
    } else {
        NamedColor::Foreground
    }
}

/// Every named colour is found in its own slot.
pub proof fn law_named_color_round_trip(color: NamedColor)
    ensures
        color_in_slot(color.slot() as u16) == color,
        0 <= color.slot() < COLOR_COUNT,
{
}

/// A colour as a cell names it.
#[derive(Clone, Copy, Debug, PartialEq, Eq, Structural)]
pub enum AnsiColor {
    Named(NamedColor),
    Spec(ColorRgb),
    Indexed(u8),
}

/// An owned copy of a slice of plain values.
pub fn copy_slice<T: Copy>(s: &[T]) -> (r: Vec<T>)
    ensures
        r@ == s@,
{
    let mut out: Vec<T> = Vec::new();
    let mut i: usize = 0;
    while i < s.len()
        invariant
            i <= s.len(),
            out@ == s@.take(i as int),
        decreases s.len() - i,
    {
        proof {
            assert(s@.take(i + 1) =~= s@.take(i as int).push(s@[i as int]));
        }
        out.push(s[i]);
        i += 1;
    }
    proof {
        assert(s@.take(s@.len() as int) =~= s@);
    }
    out
}

} // verus!
