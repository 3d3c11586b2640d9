//! The cached rows of a terminal, decoded from what its worker publishes.

use crate::context::intern::{table_with, Interned, Interner};
use crate::context::protocol::{
    extra_view, CellContentFrame, CellFrame, ColorFrame, ExtrasFrame, ExtrasFrameModel, RowFrame,
    RowFrameModel, StyleFrame,
};
use crate::terminal::{color_in_slot, named_color, AnsiColor, ColorRgb, NamedColor, Pos, Wide};
use crate::text::{decimal_text, same_text, to_chars};
use vstd::prelude::*;

verus! {

/// A number that is a character.
pub open spec fn is_scalar(value: u32) -> bool {
    value <= 0xD7FF || (0xE000 <= value && value <= 0x10FFFF)
}

/// `char::from_u32`: the character with the given number, where there is one.
pub assume_specification[ char::from_u32 ](value: u32) -> (r: Option<char>)
    ensures
        r == (if is_scalar(value) {
            Some(value as char)
        } else {
            None
        }),
;

/// The characters among some numbers, in order.
pub open spec fn scalars(values: Seq<u32>) -> Seq<char>
    decreases values.len(),
{
    if values.len() == 0 {
        Seq::empty()
    } else if is_scalar(values.last()) {
        scalars(values.drop_last()).push(values.last() as char)
    } else {
        scalars(values.drop_last())
    }
}

/// A decoded hyperlink.
pub struct Hyperlink {
    pub id: String,
    pub uri: String,
}

impl Hyperlink {
    pub fn id(&self) -> (r: &str)
        ensures
            r@ == self.id@,
    {
        self.id.as_str()
    }

    pub fn uri(&self) -> (r: &str)
        ensures
            r@ == self.uri@,
    {
        self.uri.as_str()
    }

    pub fn duplicate(&self) -> (r: Self)
        ensures
            r == *self,
    {
        Hyperlink { id: self.id.clone(), uri: self.uri.clone() }
    }
}

/// What a cell shows besides its character.
pub struct Extras {
    pub zerowidth: Vec<char>,
    pub hyperlink: Option<Hyperlink>,
}

/// The contents of a cell's extras.
#[verifier::ext_equal]
pub struct ExtrasModel {
    pub zerowidth: Seq<char>,
    pub hyperlink: Option<(Seq<char>, Seq<char>)>,
}

/// A modulus for digests.
pub const DIGEST_MODULUS: u64 = 0xffff_ffff_ffff_ffc5;

/// One number more worked into a digest.
pub open spec fn digest_step(seed: u64, value: u64) -> u64 {
    ((seed * 1000003 + value) % (DIGEST_MODULUS as int)) as u64
}

fn step_digest(seed: u64, value: u64) -> (r: u64)
    ensures
        r == digest_step(seed, value),
{
    ((seed as u128 * 1000003 + value as u128) % (DIGEST_MODULUS as u128)) as u64
}

/// A text worked into a digest.
pub open spec fn digest_chars(seed: u64, s: Seq<char>) -> u64
    decreases s.len(),
{
    if s.len() == 0 {
        seed
    } else {
        digest_step(digest_chars(seed, s.drop_last()), s.last() as u64)
    }
}

fn chars_digest(seed: u64, s: &[char]) -> (r: u64)
    ensures
        r == digest_chars(seed, s@),
{
    let mut d: u64 = seed;
    let mut i: usize = 0;
    while i < s.len()
        invariant
            i <= s.len(),
            d == digest_chars(seed, s@.take(i as int)),
        decreases s.len() - i,
    {
        proof {
            assert(s@.take(i + 1).drop_last() =~= s@.take(i as int));
        }
        d = step_digest(d, s[i] as u64);
        i += 1;
    }
    proof {
        assert(s@.take(s@.len() as int) =~= s@);
    }
    d
}

impl Interned for Extras {
    type Model = ExtrasModel;

    open spec fn model(&self) -> ExtrasModel {
        ExtrasModel {
            zerowidth: self.zerowidth@,
            hyperlink: match self.hyperlink {
                Some(link) => Some((link.id@, link.uri@)),
                None => None,
            },
        }
    }

    open spec fn digest_of(model: ExtrasModel) -> u64 {
        let d = digest_chars(7, model.zerowidth);
        match model.hyperlink {
            Some((id, uri)) => digest_chars(digest_chars(digest_step(d, 1), id), uri),
            None => d,
        }
    }

    fn digest(&self) -> (r: u64) {
        let d: u64 = chars_digest(7, self.zerowidth.as_slice());
        match &self.hyperlink {
            Some(link) => {
                let id: Vec<char> = to_chars(link.id.as_str());
                let uri: Vec<char> = to_chars(link.uri.as_str());
                chars_digest(chars_digest(step_digest(d, 1), id.as_slice()), uri.as_slice())
            },
            None => d,
        }
    }

    fn same(&self, other: &Self) -> (r: bool) {
        if !crate::text::same_chars(self.zerowidth.as_slice(), other.zerowidth.as_slice()) {
            return false;
        }
        let r: bool = match (&self.hyperlink, &other.hyperlink) {
            (Some(a), Some(b)) => same_text(a.id.as_str(), b.id.as_str()) && same_text(
                a.uri.as_str(),
                b.uri.as_str(),
            ),
            (None, None) => true,
            _ => false,
        };
        r
    }
}

/// The extras that published ones decode to.
pub open spec fn extras_of(extra: ExtrasFrameModel) -> ExtrasModel {
    ExtrasModel { zerowidth: scalars(extra.zero_width), hyperlink: extra.hyperlink }
}

pub fn decode_extras(extra: &ExtrasFrame) -> (r: Extras)
    ensures
        r.model() == extras_of(extra@),
{
    let mut zerowidth: Vec<char> = Vec::new();
    let mut i: usize = 0;
    while i < extra.zero_width.len()
        invariant
            i <= extra.zero_width@.len(),
            zerowidth@ == scalars(extra.zero_width@.take(i as int)),
        decreases extra.zero_width@.len() - i,
    {
        proof {
            assert(extra.zero_width@.take(i + 1).drop_last() =~= extra.zero_width@.take(i as int));
        }
        if let Some(c) = char::from_u32(extra.zero_width[i]) {
            zerowidth.push(c);
        }
        i += 1;
    }
    proof {
        assert(extra.zero_width@.take(extra.zero_width@.len() as int) =~= extra.zero_width@);
    }
    Extras {
        zerowidth,
        hyperlink: match &extra.hyperlink {
            Some(link) => Some(Hyperlink { id: link.id.clone(), uri: link.uri.clone() }),
            None => None,
        },
    }
}

/// A decoded style.
#[derive(Clone, Copy, Debug, PartialEq, Eq)]
pub struct Style {
    pub fg: AnsiColor,
    pub bg: AnsiColor,
    pub underline_color: Option<AnsiColor>,
    /// Bit by bit as they were sent.
    pub flags: u16,
}

/// Bold text.
pub const STYLE_BOLD: u16 = 1;

/// The style of plain text.
pub open spec fn plain_style() -> Style {
    Style {
        fg: AnsiColor::Named(NamedColor::Foreground),
        bg: AnsiColor::Named(NamedColor::Background),
        underline_color: None,
        flags: 0,
    }
}

impl Default for Style {
    fn default() -> (r: Self)
        ensures
            r == plain_style(),
    {
        Style {
            fg: AnsiColor::Named(NamedColor::Foreground),
            bg: AnsiColor::Named(NamedColor::Background),
            underline_color: None,
            flags: 0,
        }
    }
}

/// A number for a colour.
pub open spec fn color_code(color: AnsiColor) -> u64 {
    match color {
        AnsiColor::Named(name) => name.slot() as u64,
        AnsiColor::Indexed(index) => (1000 + index) as u64,
        AnsiColor::Spec(rgb) => (2000 + rgb.r * 65536 + rgb.g * 256 + rgb.b) as u64,
    }
}

fn code_of(color: &AnsiColor) -> (r: u64)
    ensures
        r == color_code(*color),
{
    match color {
        AnsiColor::Named(name) => {
            proof {
                crate::terminal::law_named_color_round_trip(*name);
            }
            name.index() as u64
        },
        AnsiColor::Indexed(index) => 1000 + *index as u64,
        AnsiColor::Spec(rgb) => 2000 + rgb.r as u64 * 65536 + rgb.g as u64 * 256 + rgb.b as u64,
    }
}

fn same_optional_color(a: &Option<AnsiColor>, b: &Option<AnsiColor>) -> (r: bool)
    ensures
        r == (a == b),
{
    match (a, b) {
        (Some(x), Some(y)) => *x == *y,
        (None, None) => true,
        _ => false,
    }
}

impl Interned for Style {
    type Model = Style;

    open spec fn model(&self) -> Style {
        *self
    }

    open spec fn digest_of(model: Style) -> u64 {
        let d = digest_step(
            digest_step(digest_step(11, color_code(model.fg)), color_code(model.bg)),
            model.flags as u64,
        );
        match model.underline_color {
            Some(color) => digest_step(d, color_code(color)),
            None => d,
        }
    }

    fn digest(&self) -> (r: u64) {
        let d: u64 = step_digest(
            step_digest(step_digest(11, code_of(&self.fg)), code_of(&self.bg)),
            self.flags as u64,
        );
        match &self.underline_color {
            Some(color) => step_digest(d, code_of(color)),
            None => d,
        }
    }

    fn same(&self, other: &Self) -> (r: bool) {
        self.fg == other.fg && self.bg == other.bg && self.flags == other.flags
            && same_optional_color(&self.underline_color, &other.underline_color)
    }
}

/// The colour that a published one decodes to.
pub open spec fn color_of(color: ColorFrame) -> AnsiColor {
    match color {
        ColorFrame::Indexed(index) => AnsiColor::Indexed(index),
        ColorFrame::Rgb { r, g, b } => AnsiColor::Spec(ColorRgb { r, g, b }),
        ColorFrame::Named(name) => AnsiColor::Named(color_in_slot(name)),
    }
}

pub fn decode_color(color: &ColorFrame) -> (r: AnsiColor)
    ensures
        r == color_of(*color),
        *color matches ColorFrame::Rgb { r: red, g: green, b: blue } ==> (r matches AnsiColor::Spec(
            rgb,
        ) && rgb.r == red && rgb.g == green && rgb.b == blue),
        *color matches ColorFrame::Indexed(index) ==> r == AnsiColor::Indexed(index),
        *color is Named ==> r is Named,
{
    match color {
        ColorFrame::Indexed(index) => AnsiColor::Indexed(*index),
        ColorFrame::Rgb { r, g, b } => AnsiColor::Spec(ColorRgb { r: *r, g: *g, b: *b }),
        ColorFrame::Named(name) => AnsiColor::Named(named_color(*name)),
    }
}

/// The style that a published one decodes to.
pub open spec fn style_of(style: StyleFrame) -> Style {
    Style {
        fg: color_of(style.foreground),
        bg: color_of(style.background),
        underline_color: match style.underline {
            Some(color) => Some(color_of(color)),
            None => None,
        },
        flags: style.flags,
    }
}

pub fn decode_style(style: &StyleFrame) -> (r: Style)
    ensures
        r == style_of(*style),
{
    Style {
        fg: decode_color(&style.foreground),
        bg: decode_color(&style.background),
        underline_color: match &style.underline {
            Some(color) => Some(decode_color(color)),
            None => None,
        },
        flags: style.flags,
    }
}

/// What a cell of the cache holds.
#[derive(Clone, Copy, Debug, PartialEq, Eq, Structural)]
pub enum SquareContent {
    Char(char),
    BgPalette(u8),
    BgRgb(u8, u8, u8),
}

/// Which kind of content a cell has.
#[derive(Clone, Copy, Debug, PartialEq, Eq, Structural)]
pub enum ContentTag {
    Codepoint,
    BgPalette,
    BgRgb,
}

/// A cell of the cache.
#[derive(Clone, Copy, Debug, PartialEq, Eq)]
pub struct Square {
    pub content: SquareContent,
    pub wide: Wide,
    /// Bit by bit as they were sent.
    pub flags: u8,
    pub style_id: u16,
    pub extras_id: Option<u16>,
}

/// A cell of the cache without content.
pub open spec fn blank_square() -> Square {
    Square {
        content: SquareContent::Char('\0'),
        wide: Wide::Narrow,
        flags: 0,
        style_id: 0,
        extras_id: None,
    }
}

impl Square {
    fn blank() -> (r: Self)
        ensures
            r == blank_square(),
    {
        Square {
            content: SquareContent::Char('\0'),
            wide: Wide::Narrow,
            flags: 0,
            style_id: 0,
            extras_id: None,
        }
    }

    /// The character that the cell shows; a cell that is only background shows none.
    pub open spec fn character(&self) -> char {
        match self.content {
            SquareContent::Char(c) => c,
            _ => '\0',
        }
    }

    pub fn c(&self) -> (r: char)
        ensures
            r == self.character(),
    {
        match self.content {
            SquareContent::Char(c) => c,
            _ => '\0',
        }
    }

    pub fn content_tag(&self) -> (r: ContentTag)
        ensures
            r == (match self.content {
                SquareContent::Char(_) => ContentTag::Codepoint,
                SquareContent::BgPalette(_) => ContentTag::BgPalette,
                SquareContent::BgRgb(_, _, _) => ContentTag::BgRgb,
            }),
    {
        match self.content {
            SquareContent::Char(_) => ContentTag::Codepoint,
            SquareContent::BgPalette(_) => ContentTag::BgPalette,
            SquareContent::BgRgb(_, _, _) => ContentTag::BgRgb,
        }
    }
}

/// The width that a published code stands for.
pub open spec fn width_of(wide: u8) -> Wide {
    if wide == 1 {
        Wide::Wide
    } else if wide == 2 {
        Wide::Spacer
    } else if wide == 3 {
        Wide::LeadingSpacer
    } else {
        Wide::Narrow
    }
}

/// The cell that a published one decodes to, before styles and extras.
pub open spec fn square_of(cell: CellFrame) -> Square {
    Square {
        content: match cell.content {
            CellContentFrame::Codepoint(value) => SquareContent::Char(
                if is_scalar(value) {
                    value as char
                } else {
                    ' '
                },
            ),
            CellContentFrame::Palette(index) => SquareContent::BgPalette(index),
            CellContentFrame::Rgb { r, g, b } => SquareContent::BgRgb(r, g, b),
        },
        wide: width_of(cell.wide),
        flags: cell.flags,
        style_id: 0,
        extras_id: None,
    }
}

pub fn decode_cell(cell: &CellFrame) -> (r: Square)
    ensures
        r == square_of(*cell),
{
    let content: SquareContent = match cell.content {
        CellContentFrame::Codepoint(value) => match char::from_u32(value) {
            Some(c) => SquareContent::Char(c),
            None => SquareContent::Char(' '),
        },
        CellContentFrame::Palette(index) => SquareContent::BgPalette(index),
        CellContentFrame::Rgb { r, g, b } => SquareContent::BgRgb(r, g, b),
    };
    let wide: Wide = if cell.wide == 1 {
        Wide::Wide
    } else if cell.wide == 2 {
        Wide::Spacer
    } else if cell.wide == 3 {
        Wide::LeadingSpacer
    } else {
        Wide::Narrow
    };
    Square { content, wide, flags: cell.flags, style_id: 0, extras_id: None }
}

/// A row of the cache.
pub struct Row {
    pub inner: Vec<Square>,
    pub dirty: bool,
    pub has_extras: bool,
    pub has_styles: bool,
    pub kitty_virtual_placeholder: bool,
}

/// The contents of a row of the cache.
#[verifier::ext_equal]
pub struct RowModel {
    pub inner: Seq<Square>,
    pub dirty: bool,
    pub has_extras: bool,
    pub has_styles: bool,
    pub kitty_virtual_placeholder: bool,
}

impl View for Row {
    type V = RowModel;

    open spec fn view(&self) -> RowModel {
        RowModel {
            inner: self.inner@,
            dirty: self.dirty,
            has_extras: self.has_extras,
            has_styles: self.has_styles,
            kitty_virtual_placeholder: self.kitty_virtual_placeholder,
        }
    }
}

/// A row without content.
pub open spec fn blank_row(columns: nat) -> RowModel {
    RowModel {
        inner: Seq::new(columns, |i: int| blank_square()),
        dirty: true,
        has_extras: false,
        has_styles: false,
        kitty_virtual_placeholder: false,
    }
}

impl Row {
    pub fn new(columns: usize) -> (r: Self)
        ensures
            r@ == blank_row(columns as nat),
    {
        let mut inner: Vec<Square> = Vec::new();
        while inner.len() < columns
            invariant
                inner@.len() <= columns,
                inner@ == Seq::new(inner@.len(), |i: int| blank_square()),
            decreases columns - inner@.len(),
        {
            let ghost before = inner@;
            inner.push(Square::blank());
            proof {
                assert(inner@ =~= Seq::new(inner@.len(), |i: int| blank_square()));
            }
        }
        Row {
            inner,
            dirty: true,
            has_extras: false,
            has_styles: false,
            kitty_virtual_placeholder: false,
        }
    }
}

/// Why a published frame cannot be shown.
#[derive(Clone, Copy, Debug, PartialEq, Eq, Structural)]
pub enum FrameError {
    ZeroDimensions,
    RowCount,
    RowDimensions,
    ExtrasFull,
    StylesFull,
    NoCachedFrame,
    BaseMismatch { base: u64, cached: u64 },
    Dimensions,
    RowOutside,
}

impl FrameError {
    /// The words for the error.
    pub open spec fn words(self) -> Seq<char> {
        match self {
            FrameError::ZeroDimensions => "passive frame dimensions must be non-zero"@,
            FrameError::RowCount => "passive frame row count does not match its dimensions"@,
            FrameError::RowDimensions => "passive frame row dimensions do not match"@,
            FrameError::ExtrasFull => "passive frame extras table exceeds u16 capacity"@,
            FrameError::StylesFull => "passive frame style ID overflow"@,
            FrameError::NoCachedFrame => "received a frame delta without a cached frame"@,
            FrameError::BaseMismatch { base, cached } => "frame delta base "@ + crate::text::decimal(
                base as nat,
            ) + " does not match cached "@ + crate::text::decimal(cached as nat),
            FrameError::Dimensions => "frame delta dimensions require a full snapshot"@,
            FrameError::RowOutside => "frame delta row is outside the cached grid"@,
        }
    }

    /// The error in words.
    pub fn message(&self) -> (r: String)
        ensures
            r@ == self.words(),
    {
        match self {
            FrameError::ZeroDimensions => "passive frame dimensions must be non-zero".to_owned(),
            FrameError::RowCount =>
            "passive frame row count does not match its dimensions".to_owned(),
            FrameError::RowDimensions => "passive frame row dimensions do not match".to_owned(),
            FrameError::ExtrasFull =>
            "passive frame extras table exceeds u16 capacity".to_owned(),
            FrameError::StylesFull => "passive frame style ID overflow".to_owned(),
            FrameError::NoCachedFrame =>
            "received a frame delta without a cached frame".to_owned(),
            FrameError::BaseMismatch { base, cached } => {
                let mut out: String = "frame delta base ".to_owned();
                out.append(decimal_text(*base).as_str());
                out.append(" does not match cached ");
                out.append(decimal_text(*cached).as_str());
                out
            },
            FrameError::Dimensions => "frame delta dimensions require a full snapshot".to_owned(),
            FrameError::RowOutside => "frame delta row is outside the cached grid".to_owned(),
        }
    }
}

/// The largest number that a cell can hold for its style or its extras.
pub const MAX_ID: usize = 65535;

/// The tables that cells refer to: the extras are numbered from one, the
/// styles from zero.
#[verifier::ext_equal]
pub struct Tables {
    pub extras: Seq<ExtrasModel>,
    pub styles: Seq<Style>,
}

/// The decoding of the first cells of a row.
#[verifier::ext_equal]
pub struct Decoded {
    pub tables: Tables,
    pub squares: Seq<Square>,
    pub has_extras: bool,
    pub has_styles: bool,
}

/// The extras of a cell: only a cell with a character has any.
pub open spec fn cell_extras(row: RowFrameModel, column: int) -> Option<ExtrasModel> {
    match (row.cells[column].content, row.extras[column]) {
        (CellContentFrame::Codepoint(_), Some(extra)) => Some(extras_of(extra)),
        _ => None,
    }
}

/// One cell more decoded, or why it cannot be: a table has no number left for
/// what the cell adds to it.
pub open spec fn cell_decoded(d: Decoded, row: RowFrameModel, column: int) -> Result<
    Decoded,
    FrameError,
> {
    let extra = cell_extras(row, column);
    let style = style_of(row.styles[column]);
    let extras = match extra {
        Some(value) => table_with(d.tables.extras, value),
        None => d.tables.extras,
    };
    let styles = table_with(d.tables.styles, style);
    let square = square_of(row.cells[column]);
    if extra is Some && extras.len() > MAX_ID {
        Err(FrameError::ExtrasFull)
    } else if styles.len() > MAX_ID + 1 {
        Err(FrameError::StylesFull)
    } else {
        Ok(
            Decoded {
                tables: Tables { extras, styles },
                squares: d.squares.push(
                    Square {
                        extras_id: match extra {
                            Some(value) => Some((extras.index_of(value) + 1) as u16),
                            None => None,
                        },
                        style_id: if row.cells[column].content is Codepoint {
                            styles.index_of(style) as u16
                        } else {
                            0
                        },
                        ..square
                    },
                ),
                has_extras: d.has_extras || extra is Some,
                has_styles: d.has_styles || style != plain_style(),
            },
        )
    }
}

/// The first `n` cells of a row decoded, starting from some tables.
pub open spec fn cells_decoded(tables: Tables, row: RowFrameModel, n: int) -> Result<
    Decoded,
    FrameError,
>
    decreases n,
{
    if n <= 0 {
        Ok(Decoded { tables, squares: Seq::empty(), has_extras: false, has_styles: false })
    } else {
        match cells_decoded(tables, row, n - 1) {
            Ok(d) => cell_decoded(d, row, n - 1),
            Err(error) => Err(error),
        }
    }
}

/// A decoded row, its styles, and the tables behind it.
#[verifier::ext_equal]
pub struct DecodedRow {
    pub tables: Tables,
    pub row: RowModel,
    pub styles: Seq<Style>,
}

/// The styles of a published row.
pub open spec fn row_styles(row: RowFrameModel) -> Seq<Style> {
    row.styles.map_values(|s: StyleFrame| style_of(s))
}

/// A published row decoded for a grid of the given width.
pub open spec fn row_decoded(tables: Tables, columns: int, row: RowFrameModel) -> Result<
    DecodedRow,
    FrameError,
> {
    if row.cells.len() != columns || row.styles.len() != columns || row.extras.len() != columns {
        Err(FrameError::RowDimensions)
    } else {
        match cells_decoded(tables, row, columns) {
            Ok(d) => Ok(
                DecodedRow {
                    tables: d.tables,
                    row: RowModel {
                        inner: d.squares,
                        dirty: true,
                        has_extras: d.has_extras,
                        has_styles: d.has_styles,
                        kitty_virtual_placeholder: row.kitty_virtual_placeholder,
                    },
                    styles: row_styles(row),
                },
            ),
            Err(error) => Err(error),
        }
    }
}

proof fn lemma_table_with<M>(table: Seq<M>, value: M)
    requires
        table.no_duplicates(),
    ensures
        table_with(table, value).no_duplicates(),
        table_with(table, value).contains(value),
{
    if !table.contains(value) {
        let all = table.push(value);
        assert(all[table.len() as int] == value);
        assert forall|i: int, j: int|
            0 <= i < all.len() && 0 <= j < all.len() && i != j implies all[i] != all[j] by {
            if i == table.len() {
                assert(table.contains(table[j]));
            } else if j == table.len() {
                assert(table.contains(table[i]));
            }
        }
    }
}

proof fn lemma_index_of<M>(table: Seq<M>, i: int)
    requires
        table.no_duplicates(),
        0 <= i < table.len(),
    ensures
        table.index_of(table[i]) == i,
{
    assert(table.contains(table[i]));
    let k = table.index_of(table[i]);
    assert(table[k] == table[i]);
}

/// The number of a value in a table, the value added if it is new.
fn intern<T: Interned>(table: &mut Interner<T>, value: T) -> (r: usize)
    requires
        old(table).well_formed(),
    ensures
        final(table).well_formed(),
        final(table)@ == table_with(old(table)@, value.model()),
        r == final(table)@.index_of(value.model()),
        r < final(table)@.len(),
{
    let ghost before = table@;
    proof {
        table.lemma_distinct();
        lemma_table_with(before, value.model());
    }
    match table.find(&value) {
        Some(id) => {
            proof {
                lemma_index_of(before, id as int);
            }
            id
        },
        None => {
            let id: usize = table.len();
            let ghost m = value.model();
            table.add(value);
            proof {
                assert(table@ == before.push(m));
                assert(table@[id as int] == m);
                lemma_index_of(table@, id as int);
            }
            id
        },
    }
}

/// `now` begins with everything that was in `then`.
pub open spec fn table_extends<M>(then: Seq<M>, now: Seq<M>) -> bool {
    then.len() <= now.len() && now.take(then.len() as int) == then
}

proof fn lemma_table_extends<M>(base: Seq<M>, then: Seq<M>, value: M)
    requires
        table_extends(base, then),
    ensures
        table_extends(base, table_with(then, value)),
{
    assert(then.push(value).take(base.len() as int) =~= then.take(base.len() as int));
}

/// The tables of a pair of interners.
pub open spec fn tables_of(extras: &Interner<Extras>, styles: &Interner<Style>) -> Tables {
    Tables { extras: extras@, styles: styles@ }
}

/// Decodes a row, numbering its styles and extras. Where that fails, the
/// tables may have grown, but keep what they had.
pub fn decode_row(
    extras: &mut Interner<Extras>,
    styles: &mut Interner<Style>,
    columns: usize,
    source: &RowFrame,
) -> (r: Result<(Row, Vec<Style>), FrameError>)
    requires
        old(extras).well_formed(),
        old(styles).well_formed(),
    ensures
        final(extras).well_formed(),
        final(styles).well_formed(),
        table_extends(old(extras)@, final(extras)@),
        table_extends(old(styles)@, final(styles)@),
        match row_decoded(tables_of(old(extras), old(styles)), columns as int, source@) {
            Ok(d) => r is Ok && r->Ok_0.0@ == d.row && r->Ok_0.1@ == d.styles && tables_of(
                final(extras),
                final(styles),
            ) == d.tables,
            Err(error) => r == Err::<(Row, Vec<Style>), FrameError>(error),
        },
{
    let ghost tables = tables_of(extras, styles);
    let ghost extras0 = extras@;
    let ghost styles0 = styles@;
    proof {
        assert(extras0.take(extras0.len() as int) =~= extras0);
        assert(styles0.take(styles0.len() as int) =~= styles0);
    }
    if source.cells.len() != columns || source.styles.len() != columns || source.extras.len()
        != columns {
        return Err(FrameError::RowDimensions);
    }
    let ghost row = source@;
    let mut inner: Vec<Square> = Vec::new();
    let mut list: Vec<Style> = Vec::new();
    let mut has_extras: bool = false;
    let mut has_styles: bool = false;
    let mut column: usize = 0;
    proof {
        assert(inner@ =~= Seq::<Square>::empty());
        assert(tables_of(extras, styles) =~= tables);
    }
    while column < columns
        invariant
            column <= columns,
            row == source@,
            source.cells@.len() == columns,
            source.styles@.len() == columns,
            source.extras@.len() == columns,
            extras.well_formed(),
            styles.well_formed(),
            table_extends(extras0, extras@),
            table_extends(styles0, styles@),
            list@ == row_styles(row).take(column as int),
            cells_decoded(tables, row, column as int) == Ok::<Decoded, FrameError>(
                Decoded {
                    tables: tables_of(extras, styles),
                    squares: inner@,
                    has_extras,
                    has_styles,
                },
            ),
            tables == (Tables { extras: extras0, styles: styles0 }),
            extras0 == old(extras)@,
            styles0 == old(styles)@,
        decreases columns - column,
    {
        let ghost d0 = Decoded {
            tables: tables_of(extras, styles),
            squares: inner@,
            has_extras,
            has_styles,
        };
        let cell: &CellFrame = &source.cells[column];
        let mut square: Square = decode_cell(cell);
        let is_codepoint: bool = match cell.content {
            CellContentFrame::Codepoint(_) => true,
            _ => false,
        };
        proof {
            assert(row.extras[column as int] == extra_view(source.extras@[column as int]));
        }
        let ghost extra = cell_extras(row, column as int);
        if is_codepoint {
            if let Some(published) = &source.extras[column] {
                let value: Extras = decode_extras(published);
                proof {
                    lemma_table_extends(extras0, extras@, value.model());
                }
                let ghost m = value.model();
                let id: usize = intern(extras, value);
                if extras.len() > MAX_ID {
                    proof {
                        assert(extra == Some(m));
                        assert(cell_decoded(d0, row, column as int) == Err::<Decoded, FrameError>(
                            FrameError::ExtrasFull,
                        ));
                        assert(cells_decoded(tables, row, column + 1) is Err);
                        lemma_cells_failed(tables, row, column + 1, columns as int);
                    }
                    return Err(FrameError::ExtrasFull);
                }
                square.extras_id = Some((id + 1) as u16);
                has_extras = true;
            }
        }
        let style: Style = decode_style(&source.styles[column]);
        proof {
            lemma_table_extends(styles0, styles@, style);
            assert(row_styles(row).take(column + 1) =~= row_styles(row).take(column as int).push(
                style,
            ));
            assert(style == style_of(row.styles[column as int]));
        }
        list.push(style);
        let style_id: usize = intern(styles, style);
        if styles.len() > MAX_ID + 1 {
            proof {
                assert(cell_decoded(d0, row, column as int) == Err::<Decoded, FrameError>(
                    FrameError::StylesFull,
                ));
                assert(cells_decoded(tables, row, column + 1) is Err);
                lemma_cells_failed(tables, row, column + 1, columns as int);
            }
            return Err(FrameError::StylesFull);
        }
        if is_codepoint {
            square.style_id = style_id as u16;
        }
        if !style.same(&Style::default()) {
            has_styles = true;
        }
        inner.push(square);
        proof {
            let d1 = Decoded {
                tables: tables_of(extras, styles),
                squares: inner@,
                has_extras,
                has_styles,
            };
            assert(cell_decoded(d0, row, column as int) == Ok::<Decoded, FrameError>(d1)) by {
                let got = cell_decoded(d0, row, column as int)->Ok_0;
                assert(got.squares =~= d1.squares);
                assert(got.tables =~= d1.tables);
            }
            assert(cells_decoded(tables, row, column + 1) == Ok::<Decoded, FrameError>(d1));
        }
        column += 1;
    }
    proof {
        assert(row_styles(row).take(columns as int) =~= row_styles(row));
    }
    Ok(
        (
            Row {
                inner,
                dirty: true,
                has_extras,
                has_styles,
                kitty_virtual_placeholder: source.kitty_virtual_placeholder,
            },
            list,
        ),
    )
}

/// What the tables held stays where it was while a row is decoded.
pub proof fn lemma_row_extends(base: Tables, tables: Tables, columns: int, row: RowFrameModel)
    requires
        table_extends(base.extras, tables.extras),
        table_extends(base.styles, tables.styles),
        row_decoded(tables, columns, row) is Ok,
    ensures
        table_extends(base.extras, row_decoded(tables, columns, row)->Ok_0.tables.extras),
        table_extends(base.styles, row_decoded(tables, columns, row)->Ok_0.tables.styles),
{
    lemma_cells_extend(base, tables, row, columns);
}

proof fn lemma_cells_extend(base: Tables, tables: Tables, row: RowFrameModel, n: int)
    requires
        table_extends(base.extras, tables.extras),
        table_extends(base.styles, tables.styles),
        cells_decoded(tables, row, n) is Ok,
    ensures
        table_extends(base.extras, cells_decoded(tables, row, n)->Ok_0.tables.extras),
        table_extends(base.styles, cells_decoded(tables, row, n)->Ok_0.tables.styles),
    decreases n,
{
    if n > 0 {
        lemma_cells_extend(base, tables, row, n - 1);
        let d = cells_decoded(tables, row, n - 1)->Ok_0;
        if let Some(value) = cell_extras(row, n - 1) {
            lemma_table_extends(base.extras, d.tables.extras, value);
        }
        lemma_table_extends(base.styles, d.tables.styles, style_of(row.styles[n - 1]));
    }
}

proof fn lemma_cells_failed(tables: Tables, row: RowFrameModel, n: int, m: int)
    requires
        0 < n <= m,
        cells_decoded(tables, row, n) is Err,
    ensures
        cells_decoded(tables, row, m) == cells_decoded(tables, row, n),
    decreases m - n,
{
    if n < m {
        lemma_cells_failed(tables, row, n, m - 1);
    }
}

/// The position of a terminal's cursor.
#[derive(Clone, Copy, Debug, PartialEq, Eq, Structural)]
pub struct PassiveCursor {
    pub pos: Pos,
}

/// A renderer-facing row cache. Only viewport rows are available; indexing
/// history lines clamps to the nearest cached row.
pub struct PassiveGrid {
    pub rows: Vec<Row>,
    pub row_styles: Vec<Vec<Style>>,
    pub cursor: PassiveCursor,
    pub columns: usize,
    pub lines: usize,
    pub history: usize,
    pub display_offset: usize,
    pub extras: Interner<Extras>,
    pub styles: Interner<Style>,
}

/// The rows, styles and extras that a renderer works on.
pub struct RenderBuffers {
    pub rows: Vec<Row>,
    pub row_styles: Vec<Vec<Style>>,
    pub extras: Interner<Extras>,
}

/// The contents of a row cache.
#[verifier::ext_equal]
pub struct GridModel {
    pub rows: Seq<RowModel>,
    pub row_styles: Seq<Seq<Style>>,
    pub cursor: Pos,
    pub columns: int,
    pub lines: int,
    pub history: int,
    pub display_offset: int,
    pub tables: Tables,
}

/// The contents of a list of rows.
pub open spec fn row_models(rows: Seq<Row>) -> Seq<RowModel> {
    rows.map_values(|r: Row| r@)
}

/// The contents of a list of lists of styles.
pub open spec fn style_lists(lists: Seq<Vec<Style>>) -> Seq<Seq<Style>> {
    lists.map_values(|l: Vec<Style>| l@)
}

impl View for PassiveGrid {
    type V = GridModel;

    open spec fn view(&self) -> GridModel {
        GridModel {
            rows: row_models(self.rows@),
            row_styles: style_lists(self.row_styles@),
            cursor: self.cursor.pos,
            columns: self.columns as int,
            lines: self.lines as int,
            history: self.history as int,
            display_offset: self.display_offset as int,
            tables: tables_of(&self.extras, &self.styles),
        }
    }
}

impl GridModel {
    /// The cached row that stands for a terminal line: the line's own row where
    /// it is cached, and otherwise the nearest one.
    pub open spec fn row_for(self, line: int) -> int {
        let index = line + self.display_offset;
        if index < 0 {
            0
        } else if index >= self.rows.len() {
            self.rows.len() - 1
        } else {
            index
        }
    }

    /// The cell at a position, if it is cached.
    pub open spec fn square_at(self, pos: Pos) -> Option<Square> {
        let row = self.rows[self.row_for(pos.row as int)].inner;
        if pos.col < row.len() {
            Some(row[pos.col as int])
        } else {
            None
        }
    }

    /// The extras that a cell refers to.
    pub open spec fn extras_for(self, square: Square) -> Option<ExtrasModel> {
        match square.extras_id {
            Some(id) if 0 < id <= self.tables.extras.len() => Some(self.tables.extras[id - 1]),
            _ => None,
        }
    }

    /// The characters of a cell, zero-width ones included.
    pub open spec fn text_at(self, pos: Pos) -> Seq<char> {
        match self.square_at(pos) {
            None => Seq::empty(),
            Some(square) => seq![square.character()] + (match self.extras_for(square) {
                Some(extras) => extras.zerowidth,
                None => Seq::empty(),
            }),
        }
    }

    /// The hyperlink of a cell.
    pub open spec fn link_at(self, pos: Pos) -> Option<(Seq<char>, Seq<char>)> {
        match self.square_at(pos) {
            None => None,
            Some(square) => match self.extras_for(square) {
                Some(extras) => extras.hyperlink,
                None => None,
            },
        }
    }
}

/// A cache of blank rows.
pub open spec fn blank_grid(columns: nat, lines: nat) -> GridModel {
    let c = if columns == 0 { 1 } else { columns };
    let l = if lines == 0 { 1 } else { lines };
    GridModel {
        rows: Seq::new(l, |i: int| blank_row(c)),
        row_styles: Seq::new(l, |i: int| Seq::new(c, |j: int| plain_style())),
        cursor: Pos { row: 0, col: 0 },
        columns: c as int,
        lines: l as int,
        history: 0,
        display_offset: 0,
        tables: Tables { extras: Seq::empty(), styles: seq![plain_style()] },
    }
}

fn plain_styles(columns: usize) -> (r: Vec<Style>)
    ensures
        r@ == Seq::new(columns as nat, |j: int| plain_style()),
{
    let mut out: Vec<Style> = Vec::new();
    while out.len() < columns
        invariant
            out@.len() <= columns,
            out@ == Seq::new(out@.len(), |j: int| plain_style()),
        decreases columns - out@.len(),
    {
        out.push(Style::default());
        proof {
            assert(out@ =~= Seq::new(out@.len(), |j: int| plain_style()));
        }
    }
    out
}

impl PassiveGrid {
    /// There is a row for each line, offsets fit a line number, and the tables
    /// are sound.
    pub open spec fn well_formed(&self) -> bool {
        &&& self.extras.well_formed()
        &&& self.styles.well_formed()
        &&& self.rows@.len() == self.lines
        &&& self.row_styles@.len() == self.lines
        &&& 1 <= self.lines <= i32::MAX
        &&& 1 <= self.columns
        &&& self.display_offset <= i32::MAX
        &&& self.history <= i32::MAX
    }

    pub fn new(columns: usize, lines: usize) -> (r: Self)
        requires
            lines <= i32::MAX,
        ensures
            r.well_formed(),
            r@ == blank_grid(columns as nat, lines as nat),
    {
        let columns: usize = if columns == 0 {
            1
        } else {
            columns
        };
        let lines: usize = if lines == 0 {
            1
        } else {
            lines
        };
        let mut rows: Vec<Row> = Vec::new();
        let mut row_styles: Vec<Vec<Style>> = Vec::new();
        while rows.len() < lines
            invariant
                rows@.len() <= lines,
                rows@.len() == row_styles@.len(),
                forall|i: int| 0 <= i < rows@.len() ==> (#[trigger] rows@[i])@ == blank_row(columns as nat),
                forall|i: int|
                    0 <= i < row_styles@.len() ==> (#[trigger] row_styles@[i])@ == Seq::new(
                        columns as nat,
                        |j: int| plain_style(),
                    ),
            decreases lines - rows@.len(),
        {
            rows.push(Row::new(columns));
            row_styles.push(plain_styles(columns));
        }
        let extras: Interner<Extras> = Interner::new();
        let mut styles: Interner<Style> = Interner::new();
        styles.add(Style::default());
        let r: PassiveGrid = PassiveGrid {
            rows,
            row_styles,
            cursor: PassiveCursor { pos: Pos::new(0, 0) },
            columns,
            lines,
            history: 0,
            display_offset: 0,
            extras,
            styles,
        };
        proof {
            let goal = blank_grid(columns as nat, lines as nat);
            assert(r@.rows =~= goal.rows);
            assert(r@.row_styles =~= goal.row_styles);
            assert(r@.tables.styles =~= seq![plain_style()]);
        }
        r
    }

    pub fn row_index(&self, line: i32) -> (r: usize)
        requires
            self.well_formed(),
        ensures
            r == self@.row_for(line as int),
            r < self.rows@.len(),
    {
        let index: i64 = line as i64 + self.display_offset as i64;
        if index < 0 {
            0
        } else if index >= self.rows.len() as i64 {
            self.rows.len() - 1
        } else {
            index as usize
        }
    }

    /// The row for a terminal line.
    pub fn index(&self, line: i32) -> (r: &Row)
        requires
            self.well_formed(),
        ensures
            r@ == self@.rows[self@.row_for(line as int)],
    {
        let i: usize = self.row_index(line);
        &self.rows[i]
    }

    fn square(&self, pos: Pos) -> (r: Option<Square>)
        requires
            self.well_formed(),
        ensures
            r == self@.square_at(pos),
    {
        let i: usize = self.row_index(pos.row);
        proof {
            assert(self@.rows[i as int] == self.rows@[i as int]@);
        }
        let row: &Row = &self.rows[i];
        if pos.col < row.inner.len() {
            Some(row.inner[pos.col])
        } else {
            None
        }
    }

    fn extras_of_square(&self, square: &Square) -> (r: Option<&Extras>)
        requires
            self.well_formed(),
        ensures
            r is Some <==> self@.extras_for(*square) is Some,
            r matches Some(extras) ==> Some(extras.model()) == self@.extras_for(*square),
    {
        match square.extras_id {
            Some(id) => {
                if id > 0 {
                    self.extras.get((id - 1) as usize)
                } else {
                    None
                }
            },
            None => None,
        }
    }

    /// The characters of the cell at a position.
    pub fn cell_text(&self, pos: Pos) -> (r: Vec<char>)
        requires
            self.well_formed(),
        ensures
            r@ == self@.text_at(pos),
    {
        match self.square(pos) {
            None => Vec::new(),
            Some(square) => {
                let mut text: Vec<char> = Vec::new();
                text.push(square.c());
                if let Some(extras) = self.extras_of_square(&square) {
                    let mut more: Vec<char> = crate::text::copy_chars(extras.zerowidth.as_slice());
                    text.append(&mut more);
                }
                proof {
                    assert(text@ =~= self@.text_at(pos));
                }
                text
            },
        }
    }

    /// The hyperlink of the cell at a position.
    pub fn hyperlink(&self, pos: Pos) -> (r: Option<Hyperlink>)
        requires
            self.well_formed(),
        ensures
            r is Some <==> self@.link_at(pos) is Some,
            r matches Some(link) ==> self@.link_at(pos) == Some((link.id@, link.uri@)),
    {
        match self.square(pos) {
            None => None,
            Some(square) => match self.extras_of_square(&square) {
                Some(extras) => match &extras.hyperlink {
                    Some(link) => Some(link.duplicate()),
                    None => None,
                },
                None => None,
            },
        }
    }

    /// Hands the rows, their styles and the extras to a renderer.
    pub fn take_render_buffers(&mut self) -> (r: RenderBuffers)
        requires
            old(self).extras.well_formed(),
        ensures
            r.rows == old(self).rows,
            r.row_styles == old(self).row_styles,
            r.extras == old(self).extras,
            final(self).rows@.len() == 0,
            final(self).row_styles@.len() == 0,
            final(self).extras@.len() == 0,
            final(self).cursor == old(self).cursor,
            final(self).columns == old(self).columns,
            final(self).lines == old(self).lines,
            final(self).history == old(self).history,
            final(self).display_offset == old(self).display_offset,
            final(self).styles == old(self).styles,
    {
        let mut rows: Vec<Row> = Vec::new();
        core::mem::swap(&mut rows, &mut self.rows);
        let mut row_styles: Vec<Vec<Style>> = Vec::new();
        core::mem::swap(&mut row_styles, &mut self.row_styles);
        let mut extras: Interner<Extras> = Interner::new();
        core::mem::swap(&mut extras, &mut self.extras);
        RenderBuffers { rows, row_styles, extras }
    }

    /// Takes the rows, their styles and the extras back from a renderer.
    pub fn restore_render_buffers(&mut self, buffers: RenderBuffers)
        ensures
            *final(self) == (PassiveGrid {
                rows: buffers.rows,
                row_styles: buffers.row_styles,
                extras: buffers.extras,
                ..*old(self)
            }),
    {
        self.rows = buffers.rows;
        self.row_styles = buffers.row_styles;
        self.extras = buffers.extras;
    }

    pub fn total_lines(&self) -> (r: usize)
        requires
            self.well_formed(),
        ensures
            r == self.history + self.lines,
    {
        self.history + self.lines
    }

    pub fn screen_lines(&self) -> (r: usize)
        ensures
            r == self.lines,
    {
        self.lines
    }

    pub fn columns(&self) -> (r: usize)
        ensures
            r == self.columns,
    {
        self.columns
    }

    pub fn history_size(&self) -> (r: usize)
        ensures
            r == self.history,
    {
        self.history
    }

    pub fn topmost_line(&self) -> (r: i32)
        requires
            self.well_formed(),
        ensures
            r == -self.history,
    {
        -(self.history as i32)
    }

    pub fn bottommost_line(&self) -> (r: i32)
        requires
            self.well_formed(),
        ensures
            r == self.lines - 1,
    {
        self.lines as i32 - 1
    }

    pub fn last_column(&self) -> (r: usize)
        requires
            self.well_formed(),
        ensures
            r == self.columns - 1,
    {
        self.columns - 1
    }
}

/// What a renderer takes, it can put back: the cache is as it was.
pub proof fn law_render_buffers_round_trip(before: PassiveGrid, between: PassiveGrid, after: PassiveGrid)
    requires
        between.cursor == before.cursor,
        between.columns == before.columns,
        between.lines == before.lines,
        between.history == before.history,
        between.display_offset == before.display_offset,
        between.styles == before.styles,
        after == (PassiveGrid {
            rows: before.rows,
            row_styles: before.row_styles,
            extras: before.extras,
            ..between
        }),
    ensures
        after == before,
{
}

} // verus!
