//! Which colour a cell is painted in.

use crate::terminal::{AnsiColor, ColorBits, ColorRgb, NamedColor, COLOR_COUNT};
use vstd::prelude::*;

verus! {

impl NamedColor {
    /// The bright variant of the colour, if it has one.
    pub open spec fn light(self) -> NamedColor {
        match self {
            NamedColor::Foreground => NamedColor::LightForeground,
            NamedColor::Black => NamedColor::LightBlack,
            NamedColor::Red => NamedColor::LightRed,
            NamedColor::Green => NamedColor::LightGreen,
            NamedColor::Yellow => NamedColor::LightYellow,
            NamedColor::Blue => NamedColor::LightBlue,
            NamedColor::Magenta => NamedColor::LightMagenta,
            NamedColor::Cyan => NamedColor::LightCyan,
            NamedColor::White => NamedColor::LightWhite,
            NamedColor::DimForeground => NamedColor::Foreground,
            NamedColor::DimBlack => NamedColor::Black,
            NamedColor::DimRed => NamedColor::Red,
            NamedColor::DimGreen => NamedColor::Green,
            NamedColor::DimYellow => NamedColor::Yellow,
            NamedColor::DimBlue => NamedColor::Blue,
            NamedColor::DimMagenta => NamedColor::Magenta,
            NamedColor::DimCyan => NamedColor::Cyan,
            NamedColor::DimWhite => NamedColor::White,
            other => other,
        }
    }

    pub fn to_light(self) -> (r: NamedColor)
        ensures
            r == self.light(),
    {
        match self {
            NamedColor::Foreground => NamedColor::LightForeground,
            NamedColor::Black => NamedColor::LightBlack,
            NamedColor::Red => NamedColor::LightRed,
            NamedColor::Green => NamedColor::LightGreen,
            NamedColor::Yellow => NamedColor::LightYellow,
            NamedColor::Blue => NamedColor::LightBlue,
            NamedColor::Magenta => NamedColor::LightMagenta,
            NamedColor::Cyan => NamedColor::LightCyan,
            NamedColor::White => NamedColor::LightWhite,
            NamedColor::DimForeground => NamedColor::Foreground,
            NamedColor::DimBlack => NamedColor::Black,
            NamedColor::DimRed => NamedColor::Red,
            NamedColor::DimGreen => NamedColor::Green,
            NamedColor::DimYellow => NamedColor::Yellow,
            NamedColor::DimBlue => NamedColor::Blue,
            NamedColor::DimMagenta => NamedColor::Magenta,
            NamedColor::DimCyan => NamedColor::Cyan,
            NamedColor::DimWhite => NamedColor::White,
            other => other,
        }
    }

    /// The dim variant of the colour, if it has one.
    pub open spec fn dim(self) -> NamedColor {
        match self {
            NamedColor::Black => NamedColor::DimBlack,
            NamedColor::Red => NamedColor::DimRed,
            NamedColor::Green => NamedColor::DimGreen,
            NamedColor::Yellow => NamedColor::DimYellow,
            NamedColor::Blue => NamedColor::DimBlue,
            NamedColor::Magenta => NamedColor::DimMagenta,
            NamedColor::Cyan => NamedColor::DimCyan,
            NamedColor::White => NamedColor::DimWhite,
            NamedColor::Foreground => NamedColor::DimForeground,
            NamedColor::LightBlack => NamedColor::Black,
            NamedColor::LightRed => NamedColor::Red,
            NamedColor::LightGreen => NamedColor::Green,
            NamedColor::LightYellow => NamedColor::Yellow,
            NamedColor::LightBlue => NamedColor::Blue,
            NamedColor::LightMagenta => NamedColor::Magenta,
            NamedColor::LightCyan => NamedColor::Cyan,
            NamedColor::LightWhite => NamedColor::White,
            NamedColor::LightForeground => NamedColor::Foreground,
            other => other,
        }
    }

    pub fn to_dim(self) -> (r: NamedColor)
        ensures
            r == self.dim(),
    {
        match self {
            NamedColor::Black => NamedColor::DimBlack,
            NamedColor::Red => NamedColor::DimRed,
            NamedColor::Green => NamedColor::DimGreen,
            NamedColor::Yellow => NamedColor::DimYellow,
            NamedColor::Blue => NamedColor::DimBlue,
            NamedColor::Magenta => NamedColor::DimMagenta,
            NamedColor::Cyan => NamedColor::DimCyan,
            NamedColor::White => NamedColor::DimWhite,
            NamedColor::Foreground => NamedColor::DimForeground,
            NamedColor::LightBlack => NamedColor::Black,
            NamedColor::LightRed => NamedColor::Red,
            NamedColor::LightGreen => NamedColor::Green,
            NamedColor::LightYellow => NamedColor::Yellow,
            NamedColor::LightBlue => NamedColor::Blue,
            NamedColor::LightMagenta => NamedColor::Magenta,
            NamedColor::LightCyan => NamedColor::Cyan,
            NamedColor::LightWhite => NamedColor::White,
            NamedColor::LightForeground => NamedColor::Foreground,
            other => other,
        }
    }
}

/// The attributes of a cell that change its colours.
#[derive(Clone, Copy, Debug, PartialEq, Eq, Structural)]
pub struct StyleFlags {
    pub dim: bool,
    pub bold: bool,
    pub inverse: bool,
}

/// A background with the attributes of its cell.
#[derive(Clone, Copy, Debug, PartialEq, Eq, Structural)]
pub struct CellStyle {
    pub bg: AnsiColor,
    pub flags: StyleFlags,
}

/// What a cell is painted with.
#[derive(Clone, Copy, Debug, PartialEq, Eq, Structural)]
pub enum Paint {
    /// A colour of a table.
    Table(ColorBits),
    Rgb(ColorRgb),
    /// The colour of faint text, darkened as it is painted.
    FaintRgb(ColorRgb),
    /// The colour with its components darkened beforehand.
    DimRgb(ColorRgb),
}

/// The colours of a renderer, and the rules for using them.
pub struct Palette {
    pub colors: Vec<ColorBits>,
    pub draw_bold_text_with_light_colors: bool,
    /// A colour for bright foreground text is configured.
    pub has_light_foreground: bool,
}

/// The slot of a named colour for text with the given attributes. Without a
/// bright foreground, bold does not count against dim.
pub open spec fn named_slot(
    name: NamedColor,
    dim: bool,
    bold: bool,
    light_bold: bool,
    has_light_foreground: bool,
) -> int {
    if dim && bold && name == NamedColor::Foreground && !has_light_foreground {
        NamedColor::DimForeground.slot()
    } else if light_bold && !dim && bold {
        name.light().slot()
    } else if dim && (!bold || !light_bold) {
        name.dim().slot()
    } else {
        name.slot()
    }
}

/// The slot of a numbered colour for text.
pub open spec fn indexed_slot(index: u8, dim: bool) -> int {
    if dim && 8 <= index <= 15 {
        index - 8
    } else if dim && index <= 7 {
        NamedColor::DimBlack.slot() + index
    } else {
        index as int
    }
}

/// The slot of a numbered colour for a background that stands for text.
pub open spec fn indexed_bg_slot(index: u8, dim: bool, bold: bool, light_bold: bool) -> int {
    if light_bold && !dim && bold && index <= 7 {
        index + 8
    } else if !light_bold && dim && !bold && 8 <= index <= 15 {
        index - 8
    } else if !light_bold && dim && !bold && index <= 7 {
        NamedColor::DimBlack.slot() + index
    } else {
        index as int
    }
}

impl Palette {
    /// There is a colour for every slot.
    pub open spec fn well_formed(&self) -> bool {
        self.colors@.len() == COLOR_COUNT
    }

    /// The colour in a slot: the terminal's own, if it has set one.
    pub open spec fn in_slot(&self, slot: int, term_colors: Seq<Option<ColorBits>>) -> ColorBits {
        match term_colors[slot] {
            Some(color) => color,
            None => self.colors@[slot],
        }
    }

    /// What text is painted with.
    pub open spec fn text_paint(
        &self,
        color: AnsiColor,
        flags: StyleFlags,
        term_colors: Seq<Option<ColorBits>>,
    ) -> Paint {
        match color {
            AnsiColor::Named(name) => Paint::Table(
                self.in_slot(
                    named_slot(
                        name,
                        flags.dim,
                        flags.bold,
                        self.draw_bold_text_with_light_colors,
                        self.has_light_foreground,
                    ),
                    term_colors,
                ),
            ),
            AnsiColor::Spec(rgb) => if flags.dim {
                Paint::FaintRgb(rgb)
            } else {
                Paint::Rgb(rgb)
            },
            AnsiColor::Indexed(index) => Paint::Table(
                self.in_slot(indexed_slot(index, flags.dim), term_colors),
            ),
        }
    }

    /// What a background is painted with. Intensity belongs to the glyph, so it
    /// counts only where the cell is inverse and the background is really the
    /// text's colour.
    pub open spec fn background_paint(
        &self,
        style: CellStyle,
        term_colors: Seq<Option<ColorBits>>,
    ) -> Paint {
        let dim = style.flags.inverse && style.flags.dim;
        let bold = style.flags.inverse && style.flags.bold;
        match style.bg {
            AnsiColor::Named(name) => Paint::Table(
                self.in_slot(
                    named_slot(
                        name,
                        dim,
                        bold,
                        self.draw_bold_text_with_light_colors,
                        self.has_light_foreground,
                    ),
                    term_colors,
                ),
            ),
            AnsiColor::Spec(rgb) => if dim {
                Paint::DimRgb(rgb)
            } else {
                Paint::Rgb(rgb)
            },
            AnsiColor::Indexed(index) => Paint::Table(
                self.in_slot(
                    indexed_bg_slot(index, dim, bold, self.draw_bold_text_with_light_colors),
                    term_colors,
                ),
            ),
        }
    }

    /// The colour in a slot.
    pub fn color(&self, slot: usize, term_colors: &Vec<Option<ColorBits>>) -> (r: ColorBits)
        requires
            self.well_formed(),
            slot < COLOR_COUNT,
            term_colors@.len() == COLOR_COUNT,
        ensures
            r == self.in_slot(slot as int, term_colors@),
    {
        match term_colors[slot] {
            Some(color) => color,
            None => self.colors[slot],
        }
    }

    fn slot_for(&self, name: NamedColor, dim: bool, bold: bool) -> (r: usize)
        ensures
            r == named_slot(
                name,
                dim,
                bold,
                self.draw_bold_text_with_light_colors,
                self.has_light_foreground,
            ),
            r < COLOR_COUNT,
    {
        let light_bold: bool = self.draw_bold_text_with_light_colors;
        if dim && bold && name == NamedColor::Foreground && !self.has_light_foreground {
            NamedColor::DimForeground.index()
        } else if light_bold && !dim && bold {
            name.to_light().index()
        } else if dim && (!bold || !light_bold) {
            name.to_dim().index()
        } else {
            name.index()
        }
    }

    pub fn compute_color(
        &self,
        color: &AnsiColor,
        flags: StyleFlags,
        term_colors: &Vec<Option<ColorBits>>,
    ) -> (r: Paint)
        requires
            self.well_formed(),
            term_colors@.len() == COLOR_COUNT,
        ensures
            r == self.text_paint(*color, flags, term_colors@),
    {
        match *color {
            AnsiColor::Named(name) => {
                let slot: usize = self.slot_for(name, flags.dim, flags.bold);
                Paint::Table(self.color(slot, term_colors))
            },
            AnsiColor::Spec(rgb) => {
                if flags.dim {
                    Paint::FaintRgb(rgb)
                } else {
                    Paint::Rgb(rgb)
                }
            },
            AnsiColor::Indexed(index) => {
                let slot: usize = if flags.dim && 8 <= index && index <= 15 {
                    index as usize - 8
                } else if flags.dim && index <= 7 {
                    NamedColor::DimBlack.index() + index as usize
                } else {
                    index as usize
                };
                Paint::Table(self.color(slot, term_colors))
            },
        }
    }

    pub fn compute_bg_color(&self, style: &CellStyle, term_colors: &Vec<Option<ColorBits>>) -> (r:
        Paint)
        requires
            self.well_formed(),
            term_colors@.len() == COLOR_COUNT,
        ensures
            r == self.background_paint(*style, term_colors@),
    {
        let dim: bool = style.flags.inverse && style.flags.dim;
        let bold: bool = style.flags.inverse && style.flags.bold;
        let light_bold: bool = self.draw_bold_text_with_light_colors;
        match style.bg {
            AnsiColor::Named(name) => {
                let slot: usize = self.slot_for(name, dim, bold);
                Paint::Table(self.color(slot, term_colors))
            },
            AnsiColor::Spec(rgb) => {
                if dim {
                    Paint::DimRgb(rgb)
                } else {
                    Paint::Rgb(rgb)
                }
            },
            AnsiColor::Indexed(index) => {
                let slot: usize = if light_bold && !dim && bold && index <= 7 {
                    index as usize + 8
                } else if !light_bold && dim && !bold && 8 <= index && index <= 15 {
                    index as usize - 8
                } else if !light_bold && dim && !bold && index <= 7 {
                    NamedColor::DimBlack.index() + index as usize
                } else {
                    index as usize
                };
                Paint::Table(self.color(slot, term_colors))
            },
        }
    }
}

/// Dim and bold leave the background of a cell alone that is not inverse.
pub proof fn law_intensity_leaves_backgrounds_alone(
    palette: &Palette,
    bg: AnsiColor,
    dim: bool,
    bold: bool,
    term_colors: Seq<Option<ColorBits>>,
)
    ensures
        palette.background_paint(
            CellStyle { bg, flags: StyleFlags { dim, bold, inverse: false } },
            term_colors,
        ) == palette.background_paint(
            CellStyle { bg, flags: StyleFlags { dim: false, bold: false, inverse: false } },
            term_colors,
        ),
{
}

/// The block behind inverse text is painted as the text would have been, in a
/// named colour; in an explicit colour it is that colour, and darkened just where
/// the text would have been.
pub proof fn law_inverse_paints_as_text(
    palette: &Palette,
    color: AnsiColor,
    dim: bool,
    bold: bool,
    term_colors: Seq<Option<ColorBits>>,
)
    ensures
        ({
            let flags = StyleFlags { dim, bold, inverse: true };
            let block = palette.background_paint(CellStyle { bg: color, flags }, term_colors);
            let text = palette.text_paint(color, flags, term_colors);
            match color {
                AnsiColor::Named(_) => block == text,
                AnsiColor::Spec(rgb) => if dim {
                    block == Paint::DimRgb(rgb) && text == Paint::FaintRgb(rgb)
                } else {
                    block == Paint::Rgb(rgb) && text == Paint::Rgb(rgb)
                },
                AnsiColor::Indexed(_) => true,
            }
        }),
{
}

} // verus!
