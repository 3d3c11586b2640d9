//! What a terminal publishes, and what is shown of it.

use crate::context::intern::table_with;
use crate::context::passive::{
    cell_decoded, cells_decoded, color_of, row_decoded, scalars, style_of, Decoded, DecodedRow,
    ExtrasModel, FrameError, GridModel, RowModel, Square, SquareContent, Style, Tables, MAX_ID,
};
use crate::context::protocol::{
    rows_updated, CellContentFrame, CellFrame, ColorFrame, ExtrasFrameModel, FrameDelta,
    FrameModel, FrameUpdate, RowFrameModel, RowUpdate, SelectionFrame, SessionCommand, StyleFrame,
};
use crate::context::remote::{
    cell_of, equal_colors, equal_tables, placed, rows_decoded, updates_decoded, RemoteModel,
};
use crate::context::session::PumpCommand;
use crate::terminal::{
    color_in_slot, equal_doubles, equal_singles, AnsiColor, ColorBits, CursorShape, NamedColor,
    Pos, SelectionRange, TerminalDamage, Wide, COLOR_COUNT,
};
use vstd::prelude::*;

verus! {

/// A shown colour is the one that was sent: by its number in the palette, by its
/// red, green and blue, or by its name.
pub open spec fn is_color(shown: AnsiColor, sent: ColorFrame) -> bool {
    match sent {
        ColorFrame::Indexed(index) => shown == AnsiColor::Indexed(index),
        ColorFrame::Rgb { r, g, b } => shown matches AnsiColor::Spec(rgb) && rgb.r == r && rgb.g
            == g && rgb.b == b,
        ColorFrame::Named(slot) => shown matches AnsiColor::Named(name) && (name.slot() == slot || (
        name == NamedColor::Foreground && (15 < slot < 256 || slot > 268))),
    }
}

/// A published colour keeps each of its components.
pub proof fn law_colors_keep_their_components(sent: ColorFrame)
    ensures
        is_color(color_of(sent), sent),
        sent matches ColorFrame::Rgb { r, g, b } ==> (color_of(sent) matches AnsiColor::Spec(rgb)
            && rgb.r == r && rgb.g == g && rgb.b == b),
{
}

/// The named colours stand in the slots of a terminal's colour table: the eight
/// colours, their bright forms, and behind the palette those for text, background
/// and cursor, and the dim forms.
pub proof fn law_named_colors_have_their_slots()
    ensures
        NamedColor::Black.slot() == 0,
        NamedColor::Red.slot() == 1,
        NamedColor::Green.slot() == 2,
        NamedColor::Yellow.slot() == 3,
        NamedColor::Blue.slot() == 4,
        NamedColor::Magenta.slot() == 5,
        NamedColor::Cyan.slot() == 6,
        NamedColor::White.slot() == 7,
        NamedColor::LightBlack.slot() == NamedColor::Black.slot() + 8,
        NamedColor::LightRed.slot() == NamedColor::Red.slot() + 8,
        NamedColor::LightGreen.slot() == NamedColor::Green.slot() + 8,
        NamedColor::LightYellow.slot() == NamedColor::Yellow.slot() + 8,
        NamedColor::LightBlue.slot() == NamedColor::Blue.slot() + 8,
        NamedColor::LightMagenta.slot() == NamedColor::Magenta.slot() + 8,
        NamedColor::LightCyan.slot() == NamedColor::Cyan.slot() + 8,
        NamedColor::LightWhite.slot() == NamedColor::White.slot() + 8,
        NamedColor::Foreground.slot() == 256,
        NamedColor::Background.slot() == 257,
        NamedColor::Cursor.slot() == 258,
        NamedColor::DimBlack.slot() == NamedColor::Black.slot() + 259,
        NamedColor::DimRed.slot() == NamedColor::Red.slot() + 259,
        NamedColor::DimGreen.slot() == NamedColor::Green.slot() + 259,
        NamedColor::DimYellow.slot() == NamedColor::Yellow.slot() + 259,
        NamedColor::DimBlue.slot() == NamedColor::Blue.slot() + 259,
        NamedColor::DimMagenta.slot() == NamedColor::Magenta.slot() + 259,
        NamedColor::DimCyan.slot() == NamedColor::Cyan.slot() + 259,
        NamedColor::DimWhite.slot() == NamedColor::White.slot() + 259,
        NamedColor::LightForeground.slot() == 267,
        NamedColor::DimForeground.slot() == 268,
{
}

/// The colour of a slot is the one that stands there; slots without a name hold the
/// colour for text.
pub proof fn law_slots_hold_their_colors(slot: u16)
    ensures
        slot < 16 || 256 <= slot <= 268 ==> color_in_slot(slot).slot() == slot,
        16 <= slot < 256 || slot > 268 ==> color_in_slot(slot) == NamedColor::Foreground,
{
}

/// A shown style is the one that was sent: text, background and underline in their
/// own colours, and the flags as they were.
pub open spec fn is_style(shown: Style, sent: StyleFrame) -> bool {
    &&& is_color(shown.fg, sent.foreground)
    &&& is_color(shown.bg, sent.background)
    &&& shown.underline_color is Some == sent.underline is Some
    &&& sent.underline matches Some(color) ==> is_color(shown.underline_color->0, color)
    &&& shown.flags == sent.flags
}

/// A number that stands for a character.
pub open spec fn is_character(value: u32) -> bool {
    value < 0xD800 || 0xDFFF < value < 0x110000
}

/// Shown extras are those that were sent: the zero-width characters in their order,
/// without what is no character, and the link with its name and its target.
pub open spec fn is_extra(shown: ExtrasModel, sent: ExtrasFrameModel) -> bool {
    &&& shown.zerowidth == sent.zero_width.filter(|v: u32| is_character(v)).map_values(
        |v: u32| v as char,
    )
    &&& shown.hyperlink is Some == sent.hyperlink is Some
    &&& sent.hyperlink matches Some(link) ==> (shown.hyperlink->0).0 == link.0
        && (shown.hyperlink->0).1 == link.1
}

/// A shown cell is the one that was sent, with its style and extras found in the
/// tables.
pub open spec fn is_cell(
    shown: Square,
    tables: Tables,
    cell: CellFrame,
    style: StyleFrame,
    extra: Option<ExtrasFrameModel>,
) -> bool {
    &&& shown.flags == cell.flags
    &&& cell.wide == 1 ==> shown.wide == Wide::Wide
    &&& cell.wide == 2 ==> shown.wide == Wide::Spacer
    &&& cell.wide == 3 ==> shown.wide == Wide::LeadingSpacer
    &&& cell.wide == 0 || cell.wide > 3 ==> shown.wide == Wide::Narrow
    &&& match cell.content {
        CellContentFrame::Palette(index) => shown.content == SquareContent::BgPalette(index)
            && shown.extras_id is None && shown.style_id == 0,
        CellContentFrame::Rgb { r, g, b } => shown.content == SquareContent::BgRgb(r, g, b)
            && shown.extras_id is None && shown.style_id == 0,
        CellContentFrame::Codepoint(value) => {
            &&& shown.content == SquareContent::Char(
                if is_character(value) {
                    value as char
                } else {
                    ' '
                },
            )
            &&& shown.style_id < tables.styles.len()
            &&& is_style(tables.styles[shown.style_id as int], style)
            &&& shown.extras_id is Some == extra is Some
            &&& extra matches Some(extra) ==> {
                &&& 0 < shown.extras_id->0 <= tables.extras.len()
                &&& is_extra(tables.extras[shown.extras_id->0 - 1], extra)
            }
        },
    }
}

/// A shown row is the one that was sent, cell by cell.
pub open spec fn is_row(shown: RowModel, tables: Tables, sent: RowFrameModel) -> bool {
    &&& shown.inner.len() == sent.cells.len()
    &&& forall|c: int|
        0 <= c < sent.cells.len() ==> is_cell(
            #[trigger] shown.inner[c],
            tables,
            sent.cells[c],
            sent.styles[c],
            sent.extras[c],
        )
    &&& shown.kitty_virtual_placeholder == sent.kitty_virtual_placeholder
    &&& shown.has_extras <==> exists|c: int|
        0 <= c < sent.cells.len() && (#[trigger] sent.cells[c]).content is Codepoint
            && sent.extras[c] is Some
}

/// Shown styles are those that were sent, one for each cell.
pub open spec fn are_styles(shown: Seq<Style>, sent: RowFrameModel) -> bool {
    &&& shown.len() == sent.styles.len()
    &&& forall|c: int| 0 <= c < sent.styles.len() ==> is_style(#[trigger] shown[c], sent.styles[c])
}

/// A style of plain text: the colours for text and background, no underline of its
/// own colour, and no flags.
pub open spec fn is_plain(style: Style) -> bool {
    &&& style.fg == AnsiColor::Named(NamedColor::Foreground)
    &&& style.bg == AnsiColor::Named(NamedColor::Background)
    &&& style.underline_color is None
    &&& style.flags == 0
}

/// Tables with all that they held, under the numbers that it had.
pub open spec fn tables_extend(then: Tables, now: Tables) -> bool {
    &&& then.styles.len() <= now.styles.len()
    &&& then.extras.len() <= now.extras.len()
    &&& forall|i: int| 0 <= i < then.styles.len() ==> #[trigger] now.styles[i] == then.styles[i]
    &&& forall|i: int| 0 <= i < then.extras.len() ==> #[trigger] now.extras[i] == then.extras[i]
}

proof fn lemma_scalars(values: Seq<u32>)
    ensures
        scalars(values) == values.filter(|v: u32| is_character(v)).map_values(|v: u32| v as char),
    decreases values.len(),
{
    reveal(Seq::filter);
    if values.len() > 0 {
        lemma_scalars(values.drop_last());
        let rest = values.drop_last().filter(|v: u32| is_character(v));
        assert(rest.push(values.last()).map_values(|v: u32| v as char) =~= rest.map_values(
            |v: u32| v as char,
        ).push(values.last() as char));
    }
    assert(scalars(values) =~= values.filter(|v: u32| is_character(v)).map_values(
        |v: u32| v as char,
    ));
}

proof fn lemma_added<M>(table: Seq<M>, value: M)
    ensures
        ({
            let all = table_with(table, value);
            &&& table.len() <= all.len() <= table.len() + 1
            &&& forall|i: int| 0 <= i < table.len() ==> #[trigger] all[i] == table[i]
            &&& 0 <= all.index_of(value) < all.len()
            &&& all[all.index_of(value)] == value
        }),
{
    let all = table_with(table, value);
    if !table.contains(value) {
        assert(all[table.len() as int] == value);
    }
    assert(all.contains(value));
}

proof fn lemma_cell(d: Decoded, row: RowFrameModel, c: int)
    requires
        cell_decoded(d, row, c) is Ok,
    ensures
        ({
            let now = cell_decoded(d, row, c)->Ok_0;
            &&& tables_extend(d.tables, now.tables)
            &&& now.squares.len() == d.squares.len() + 1
            &&& forall|i: int|
                0 <= i < d.squares.len() ==> #[trigger] now.squares[i] == d.squares[i]
            &&& is_cell(
                now.squares.last(),
                now.tables,
                row.cells[c],
                row.styles[c],
                row.extras[c],
            )
            &&& now.has_extras <==> d.has_extras || (row.cells[c].content is Codepoint
                && row.extras[c] is Some)
            &&& now.has_styles <==> d.has_styles || !is_plain(style_of(row.styles[c]))
        }),
{
    let style = style_of(row.styles[c]);
    lemma_added(d.tables.styles, style);
    if row.cells[c].content is Codepoint && row.extras[c] is Some {
        let extra = crate::context::passive::extras_of(row.extras[c]->0);
        lemma_added(d.tables.extras, extra);
        lemma_scalars((row.extras[c]->0).zero_width);
    }
    law_colors_keep_their_components(row.styles[c].foreground);
    law_colors_keep_their_components(row.styles[c].background);
    if row.styles[c].underline is Some {
        law_colors_keep_their_components(row.styles[c].underline->0);
    }
}

proof fn lemma_cell_stays(
    shown: Square,
    then: Tables,
    now: Tables,
    cell: CellFrame,
    style: StyleFrame,
    extra: Option<ExtrasFrameModel>,
)
    requires
        is_cell(shown, then, cell, style, extra),
        tables_extend(then, now),
    ensures
        is_cell(shown, now, cell, style, extra),
{
}

proof fn lemma_row_stays(shown: RowModel, then: Tables, now: Tables, sent: RowFrameModel)
    requires
        is_row(shown, then, sent),
        tables_extend(then, now),
    ensures
        is_row(shown, now, sent),
{
    assert forall|c: int| 0 <= c < sent.cells.len() implies is_cell(
        #[trigger] shown.inner[c],
        now,
        sent.cells[c],
        sent.styles[c],
        sent.extras[c],
    ) by {
        lemma_cell_stays(
            shown.inner[c],
            then,
            now,
            sent.cells[c],
            sent.styles[c],
            sent.extras[c],
        );
    }
}

proof fn lemma_cells(tables: Tables, row: RowFrameModel, n: int)
    requires
        0 <= n <= row.cells.len(),
        cells_decoded(tables, row, n) is Ok,
    ensures
        ({
            let d = cells_decoded(tables, row, n)->Ok_0;
            &&& tables_extend(tables, d.tables)
            &&& d.squares.len() == n
            &&& forall|c: int|
                0 <= c < n ==> is_cell(
                    #[trigger] d.squares[c],
                    d.tables,
                    row.cells[c],
                    row.styles[c],
                    row.extras[c],
                )
            &&& d.has_extras <==> exists|c: int|
                0 <= c < n && (#[trigger] row.cells[c]).content is Codepoint
                    && row.extras[c] is Some
            &&& d.has_styles <==> exists|c: int|
                0 <= c < n && !is_plain(style_of(#[trigger] row.styles[c]))
        }),
    decreases n,
{
    if n > 0 {
        lemma_cells(tables, row, n - 1);
        let before = cells_decoded(tables, row, n - 1)->Ok_0;
        let d = cells_decoded(tables, row, n)->Ok_0;
        lemma_cell(before, row, n - 1);
        assert forall|c: int| 0 <= c < n implies is_cell(
            #[trigger] d.squares[c],
            d.tables,
            row.cells[c],
            row.styles[c],
            row.extras[c],
        ) by {
            if c < n - 1 {
                assert(d.squares[c] == before.squares[c]);
                lemma_cell_stays(
                    before.squares[c],
                    before.tables,
                    d.tables,
                    row.cells[c],
                    row.styles[c],
                    row.extras[c],
                );
            }
        }
        let last = row.cells[n - 1];
        let style = row.styles[n - 1];
    }
}

/// A row that was sent is shown cell by cell, with the styles and extras that were
/// sent; all of it has to be drawn. What the tables held keeps its number.
pub proof fn law_row_is_shown_as_sent(tables: Tables, columns: int, sent: RowFrameModel)
    requires
        0 <= columns,
        row_decoded(tables, columns, sent) is Ok,
    ensures
        ({
            let d = row_decoded(tables, columns, sent)->Ok_0;
            &&& sent.cells.len() == columns
            &&& is_row(d.row, d.tables, sent)
            &&& are_styles(d.styles, sent)
            &&& d.row.dirty
            &&& d.row.has_styles <==> exists|c: int|
                0 <= c < d.styles.len() && !is_plain(#[trigger] d.styles[c])
            &&& tables_extend(tables, d.tables)
        }),
{
    lemma_cells(tables, sent, columns);
    let d = row_decoded(tables, columns, sent)->Ok_0;
    assert forall|c: int| 0 <= c < sent.styles.len() implies is_style(
        #[trigger] d.styles[c],
        sent.styles[c],
    ) by {
        law_colors_keep_their_components(sent.styles[c].foreground);
        law_colors_keep_their_components(sent.styles[c].background);
        if sent.styles[c].underline is Some {
            law_colors_keep_their_components(sent.styles[c].underline->0);
        }
    }
    if d.row.has_styles {
        let c = choose|c: int| 0 <= c < columns && !is_plain(style_of(#[trigger] sent.styles[c]));
        assert(!is_plain(d.styles[c]));
    }
    if exists|c: int| 0 <= c < d.styles.len() && !is_plain(#[trigger] d.styles[c]) {
        let c = choose|c: int| 0 <= c < d.styles.len() && !is_plain(#[trigger] d.styles[c]);
        assert(!is_plain(style_of(sent.styles[c])));
    }
}

proof fn lemma_room(tables: Tables, row: RowFrameModel, n: int)
    requires
        0 <= n,
        tables.extras.len() + n <= MAX_ID,
        tables.styles.len() + n <= MAX_ID + 1,
    ensures
        cells_decoded(tables, row, n) is Ok,
        cells_decoded(tables, row, n)->Ok_0.tables.extras.len() <= tables.extras.len() + n,
        cells_decoded(tables, row, n)->Ok_0.tables.styles.len() <= tables.styles.len() + n,
    decreases n,
{
    if n > 0 {
        lemma_room(tables, row, n - 1);
    }
}

/// A row of the wrong width is refused; one of the right width is taken wherever the
/// tables have room for what its cells may add.
pub proof fn law_rows_of_the_right_width_are_taken(
    tables: Tables,
    columns: int,
    sent: RowFrameModel,
)
    requires
        0 <= columns,
    ensures
        row_decoded(tables, columns, sent) == Err::<DecodedRow, FrameError>(
            FrameError::RowDimensions,
        )
            <== sent.cells.len() != columns || sent.styles.len() != columns || sent.extras.len()
            != columns,
        sent.cells.len() == columns && sent.styles.len() == columns && sent.extras.len() == columns
            && tables.extras.len() + columns <= MAX_ID && tables.styles.len() + columns <= MAX_ID
            + 1 ==> row_decoded(tables, columns, sent) is Ok,
{
    if tables.extras.len() + columns <= MAX_ID && tables.styles.len() + columns <= MAX_ID + 1 {
        lemma_room(tables, sent, columns);
    }
}

/// What is shown besides the rows is what the frame says: cursor, scroll offset and
/// history, selection, title, directory, colours and modes.
pub open spec fn describes(now: RemoteModel, frame: FrameModel) -> bool {
    &&& now.grid.cursor.row == frame.cursor.line
    &&& now.grid.cursor.col == frame.cursor.column
    &&& now.grid.history == frame.history_size
    &&& now.grid.display_offset == frame.display_offset
    &&& frame.cursor.shape == 1 ==> now.cursor_shape == CursorShape::Underline
    &&& frame.cursor.shape == 2 ==> now.cursor_shape == CursorShape::Beam
    &&& frame.cursor.shape == 3 ==> now.cursor_shape == CursorShape::Hidden
    &&& frame.cursor.shape == 0 || frame.cursor.shape > 3 ==> now.cursor_shape
        == CursorShape::Block
    &&& now.default_cursor_shape == now.cursor_shape
    &&& now.blinking_cursor == frame.cursor.blinking
    &&& is_selection(now.selection_range, frame.selection, frame.display_offset as int)
    &&& now.vi_cursor.row == frame.cursor.line - frame.display_offset
    &&& now.vi_cursor.col == frame.cursor.column
    &&& now.title == frame.title
    &&& now.current_directory == frame.working_dir
    &&& now.colors.len() == COLOR_COUNT
    &&& forall|i: int|
        0 <= i < COLOR_COUNT ==> #[trigger] now.colors[i] == (if i < frame.colors.len() {
            frame.colors[i]
        } else {
            None
        })
    &&& now.mode_bits == frame.modes
}

/// A shown selection goes from the cell to the cell that were sent, counted in lines
/// of the terminal.
pub open spec fn is_selection(
    shown: Option<SelectionRange>,
    sent: Option<SelectionFrame>,
    offset: int,
) -> bool {
    &&& shown is Some == sent is Some
    &&& sent matches Some(s) ==> {
        &&& shown->0.start.row == s.start_line - offset
        &&& shown->0.start.col == s.start_column
        &&& shown->0.end.row == s.end_line - offset
        &&& shown->0.end.col == s.end_column
        &&& shown->0.is_block == s.block
    }
}

proof fn lemma_rows(tables: Tables, columns: int, rows: Seq<RowFrameModel>, n: int)
    requires
        0 <= columns,
        0 <= n <= rows.len(),
        rows_decoded(tables, columns, rows, n) is Ok,
    ensures
        ({
            let d = rows_decoded(tables, columns, rows, n)->Ok_0;
            &&& tables_extend(tables, d.tables)
            &&& d.rows.len() == n
            &&& d.styles.len() == n
            &&& forall|i: int|
                0 <= i < n ==> is_row(#[trigger] d.rows[i], d.tables, rows[i]) && d.rows[i].dirty
            &&& forall|i: int| 0 <= i < n ==> are_styles(#[trigger] d.styles[i], rows[i])
        }),
    decreases n,
{
    if n > 0 {
        lemma_rows(tables, columns, rows, n - 1);
        let before = rows_decoded(tables, columns, rows, n - 1)->Ok_0;
        let d = rows_decoded(tables, columns, rows, n)->Ok_0;
        law_row_is_shown_as_sent(before.tables, columns, rows[n - 1]);
        assert forall|i: int| 0 <= i < n implies is_row(#[trigger] d.rows[i], d.tables, rows[i])
            && d.rows[i].dirty by {
            if i < n - 1 {
                lemma_row_stays(before.rows[i], before.tables, d.tables, rows[i]);
            }
        }
        assert forall|i: int| 0 <= i < n implies are_styles(#[trigger] d.styles[i], rows[i]) by {
            if i < n - 1 {
                assert(d.styles[i] == before.styles[i]);
            }
        }
    }
}

/// A frame without lines or columns, or with another number of rows than it says, is
/// refused. Any other that can be decoded is shown whole: row by row, with all that
/// it says besides, and drawn anew.
pub proof fn law_full_frame_is_shown_whole(before: RemoteModel, frame: FrameModel)
    requires
        frame.display_offset <= i32::MAX,
        frame.history_size <= i32::MAX,
    ensures
        frame.columns == 0 || frame.lines == 0 ==> before.with_frame(frame) == Err::<
            RemoteModel,
            FrameError,
        >(FrameError::ZeroDimensions),
        frame.columns > 0 && frame.lines > 0 && frame.rows.len() != frame.lines
            ==> before.with_frame(frame) == Err::<RemoteModel, FrameError>(FrameError::RowCount),
        before.with_frame(frame) matches Ok(now) ==> {
            &&& now.frame == Some(frame)
            &&& describes(now, frame)
            &&& now.grid.columns == frame.columns
            &&& now.grid.lines == frame.lines
            &&& now.grid.rows.len() == frame.lines
            &&& now.grid.row_styles.len() == frame.lines
            &&& forall|i: int|
                0 <= i < frame.rows.len() ==> is_row(
                    #[trigger] now.grid.rows[i],
                    now.grid.tables,
                    frame.rows[i],
                )
            &&& forall|i: int|
                0 <= i < frame.rows.len() ==> are_styles(
                    #[trigger] now.grid.row_styles[i],
                    frame.rows[i],
                )
            &&& now.damage == TerminalDamage::Full
            &&& now.graphics_dirty <==> before.graphics_dirty || before.frame is None || (
            before.frame->0).graphics != frame.graphics
            &&& now.session == before.session
            &&& now.window_id == before.window_id
            &&& now.search_active == before.search_active
            &&& now.search_matches == before.search_matches
            &&& now.search_navigation == before.search_navigation
        },
{
    if before.with_frame(frame) is Ok {
        lemma_rows(
            crate::context::remote::first_tables(),
            frame.columns as int,
            frame.rows,
            frame.rows.len() as int,
        );
    }
}

/// No update behind the given one goes to the same line.
pub open spec fn is_last_for(updates: Seq<RowUpdate>, k: int, n: int) -> bool {
    &&& 0 <= k < n
    &&& forall|j: int| k < j < n ==> (#[trigger] updates[j]).line != updates[k].line
}

proof fn lemma_placed<T>(
    list: Seq<T>,
    updates: Seq<RowUpdate>,
    values: Seq<T>,
    n: int,
    line: int,
)
    requires
        0 <= n <= updates.len(),
        0 <= line < list.len(),
        forall|i: int| 0 <= i < n ==> (#[trigger] updates[i]).line < list.len(),
    ensures
        placed(list, updates, values, n).len() == list.len(),
        forall|k: int|
            #[trigger] is_last_for(updates, k, n) && updates[k].line == line ==> placed(
                list,
                updates,
                values,
                n,
            )[line] == values[k],
        (forall|i: int| 0 <= i < n ==> (#[trigger] updates[i]).line != line) ==> placed(
            list,
            updates,
            values,
            n,
        )[line] == list[line],
    decreases n,
{
    if n > 0 {
        lemma_placed(list, updates, values, n - 1, line);
        assert forall|k: int| #[trigger]
            is_last_for(updates, k, n) && updates[k].line == line implies placed(
            list,
            updates,
            values,
            n,
        )[line] == values[k] by {
            if k < n - 1 {
                assert(is_last_for(updates, k, n - 1));
                assert(updates[n - 1].line != line);
            }
        }
        if forall|i: int| 0 <= i < n ==> (#[trigger] updates[i]).line != line {
            assert(updates[n - 1].line != line);
        }
    }
}

/// The last update of a line decides what the line holds; a line without update
/// holds what it held.
pub proof fn law_last_update_of_a_line_counts(
    rows: Seq<RowFrameModel>,
    updates: Seq<RowUpdate>,
    n: int,
    line: int,
)
    requires
        0 <= n <= updates.len(),
        0 <= line < rows.len(),
        forall|i: int| 0 <= i < n ==> (#[trigger] updates[i]).line < rows.len(),
    ensures
        rows_updated(rows, updates, n).len() == rows.len(),
        forall|k: int|
            #[trigger] is_last_for(updates, k, n) && updates[k].line == line ==> rows_updated(
                rows,
                updates,
                n,
            )[line] == updates[k].row@,
        (forall|i: int| 0 <= i < n ==> (#[trigger] updates[i]).line != line) ==> rows_updated(
            rows,
            updates,
            n,
        )[line] == rows[line],
    decreases n,
{
    if n > 0 {
        law_last_update_of_a_line_counts(rows, updates, n - 1, line);
        assert forall|k: int| #[trigger]
            is_last_for(updates, k, n) && updates[k].line == line implies rows_updated(
            rows,
            updates,
            n,
        )[line] == updates[k].row@ by {
            if k < n - 1 {
                assert(is_last_for(updates, k, n - 1));
                assert(updates[n - 1].line != line);
            }
        }
        if forall|i: int| 0 <= i < n ==> (#[trigger] updates[i]).line != line {
            assert(updates[n - 1].line != line);
        }
    }
}

proof fn lemma_updates(
    tables: Tables,
    columns: int,
    cached: int,
    updates: Seq<RowUpdate>,
    n: int,
)
    requires
        0 <= columns,
        0 <= n <= updates.len(),
        updates_decoded(tables, columns, cached, updates, n) is Ok,
    ensures
        ({
            let d = updates_decoded(tables, columns, cached, updates, n)->Ok_0;
            &&& tables_extend(tables, d.tables)
            &&& d.rows.len() == n
            &&& d.styles.len() == n
            &&& forall|i: int| 0 <= i < n ==> (#[trigger] updates[i]).line < cached
            &&& forall|i: int|
                0 <= i < n ==> is_row(#[trigger] d.rows[i], d.tables, updates[i].row@)
                    && d.rows[i].dirty
            &&& forall|i: int| 0 <= i < n ==> are_styles(#[trigger] d.styles[i], updates[i].row@)
        }),
    decreases n,
{
    if n > 0 {
        lemma_updates(tables, columns, cached, updates, n - 1);
        let before = updates_decoded(tables, columns, cached, updates, n - 1)->Ok_0;
        let d = updates_decoded(tables, columns, cached, updates, n)->Ok_0;
        law_row_is_shown_as_sent(before.tables, columns, updates[n - 1].row@);
        assert forall|i: int| 0 <= i < n implies is_row(
            #[trigger] d.rows[i],
            d.tables,
            updates[i].row@,
        ) && d.rows[i].dirty by {
            if i < n - 1 {
                lemma_row_stays(before.rows[i], before.tables, d.tables, updates[i].row@);
            }
        }
        assert forall|i: int| 0 <= i < n implies are_styles(
            #[trigger] d.styles[i],
            updates[i].row@,
        ) by {
            if i < n - 1 {
                assert(d.styles[i] == before.styles[i]);
            }
        }
    }
}

/// A delta fits only the frame that it was made for: the cached one has its number
/// and its size. Else it is refused, and says why.
pub proof fn law_delta_fits_only_its_base(before: RemoteModel, delta: FrameDelta)
    ensures
        before.frame is None ==> before.with_delta(delta) == Err::<RemoteModel, FrameError>(
            FrameError::NoCachedFrame,
        ),
        before.frame matches Some(frame) ==> {
            &&& frame.sequence != delta.base_sequence ==> before.with_delta(delta) == Err::<
                RemoteModel,
                FrameError,
            >(
                FrameError::BaseMismatch { base: delta.base_sequence, cached: frame.sequence },
            )
            &&& frame.sequence == delta.base_sequence && (frame.columns != delta.columns
                || frame.lines != delta.lines) ==> before.with_delta(delta) == Err::<
                RemoteModel,
                FrameError,
            >(FrameError::Dimensions)
        },
{
}

/// A delta that fits shows in each line the last row that it has for it, and leaves
/// the others; the frame is then the one that the delta leads to, and what it says
/// besides the rows is shown.
#[verifier::rlimit(40)]
pub proof fn law_delta_shows_its_rows(before: RemoteModel, delta: FrameDelta)
    requires
        before.with_delta(delta) is Ok,
        before.frame matches Some(frame) && frame.rows.len() == before.grid.rows.len(),
        before.grid.row_styles.len() == before.grid.rows.len(),
        0 <= before.grid.columns,
        delta.display_offset <= i32::MAX,
        delta.history_size <= i32::MAX,
    ensures
        ({
            let now = before.with_delta(delta)->Ok_0;
            let n = delta.rows@.len() as int;
            &&& now.frame is Some
            &&& describes(now, now.frame->0)
            &&& is_led_to(now.frame->0, before.frame->0, delta)
            &&& now.grid.columns == before.grid.columns
            &&& now.grid.lines == before.grid.lines
            &&& now.grid.rows.len() == before.grid.rows.len()
            &&& forall|k: int|
                #[trigger] is_last_for(delta.rows@, k, n) ==> {
                    let line = delta.rows@[k].line as int;
                    &&& line < now.grid.rows.len()
                    &&& is_row(now.grid.rows[line], now.grid.tables, delta.rows@[k].row@)
                    &&& are_styles(now.grid.row_styles[line], delta.rows@[k].row@)
                    &&& now.grid.rows[line].dirty
                }
            &&& forall|line: int|
                0 <= line < now.grid.rows.len() && (forall|i: int|
                    0 <= i < n ==> (#[trigger] delta.rows@[i]).line != line) ==> {
                    let row = #[trigger] now.grid.rows[line];
                    let was = before.grid.rows[line];
                    &&& row.inner == was.inner
                    &&& row.has_extras == was.has_extras
                    &&& row.has_styles == was.has_styles
                    &&& row.kitty_virtual_placeholder == was.kitty_virtual_placeholder
                    &&& was.dirty ==> row.dirty
                    &&& now.grid.row_styles[line] == before.grid.row_styles[line]
                }
            &&& tables_extend(before.grid.tables, now.grid.tables)
            &&& now.session == before.session
            &&& now.window_id == before.window_id
            &&& now.graphics_dirty == before.graphics_dirty
            &&& now.search_active == before.search_active
            &&& now.search_matches == before.search_matches
            &&& now.search_navigation == before.search_navigation
        }),
{
    let now = before.with_delta(delta)->Ok_0;
    let n = delta.rows@.len() as int;
    let cached = before.grid.rows.len() as int;
    let d = updates_decoded(
        before.grid.tables,
        before.grid.columns,
        cached,
        delta.rows@,
        n,
    )->Ok_0;
    lemma_updates(before.grid.tables, before.grid.columns, cached, delta.rows@, n);
    let rows = placed(before.grid.rows, delta.rows@, d.rows, n);
    if cached > 0 {
        lemma_placed(before.grid.rows, delta.rows@, d.rows, n, 0);
        law_last_update_of_a_line_counts((before.frame->0).rows, delta.rows@, n, 0);
    } else if n > 0 {
        assert(delta.rows@[0].line < cached);
    }
    assert(rows.len() == cached);
    assert forall|k: int| #[trigger] is_last_for(delta.rows@, k, n) implies {
        let line = delta.rows@[k].line as int;
        &&& line < now.grid.rows.len()
        &&& is_row(now.grid.rows[line], now.grid.tables, delta.rows@[k].row@)
        &&& are_styles(now.grid.row_styles[line], delta.rows@[k].row@)
        &&& now.grid.rows[line].dirty
    } by {
        let line = delta.rows@[k].line as int;
        assert(delta.rows@[k].line < cached);
        lemma_placed(before.grid.rows, delta.rows@, d.rows, n, line);
        lemma_placed(before.grid.row_styles, delta.rows@, d.styles, n, line);
        assert(rows[line] == d.rows[k]);
        assert(now.grid.rows[line] == RowModel { dirty: true, ..d.rows[k] });
    }
    assert forall|line: int|
        0 <= line < now.grid.rows.len() && (forall|i: int|
            0 <= i < n ==> (#[trigger] delta.rows@[i]).line != line) implies {
        let row = #[trigger] now.grid.rows[line];
        let was = before.grid.rows[line];
        &&& row.inner == was.inner
        &&& row.has_extras == was.has_extras
        &&& row.has_styles == was.has_styles
        &&& row.kitty_virtual_placeholder == was.kitty_virtual_placeholder
        &&& was.dirty ==> row.dirty
        &&& now.grid.row_styles[line] == before.grid.row_styles[line]
    } by {
        lemma_placed(before.grid.rows, delta.rows@, d.rows, n, line);
        lemma_placed(before.grid.row_styles, delta.rows@, d.styles, n, line);
    }
    let next = now.frame->0;
    assert forall|k: int| #[trigger] is_last_for(delta.rows@, k, n) implies next.rows[
        delta.rows@[k].line as int
    ] == delta.rows@[k].row@ by {
        assert(delta.rows@[k].line < cached);
        law_last_update_of_a_line_counts(
            (before.frame->0).rows,
            delta.rows@,
            n,
            delta.rows@[k].line as int,
        );
    }
    assert forall|line: int|
        0 <= line < next.rows.len() && (forall|i: int|
            0 <= i < n ==> (#[trigger] delta.rows@[i]).line != line) implies #[trigger] next.rows[line]
        == (before.frame->0).rows[line] by {
        law_last_update_of_a_line_counts((before.frame->0).rows, delta.rows@, n, line);
    }
}

/// A frame is the one that a delta leads to: its rows are the last ones of the delta
/// or those that were there, the size and the graphics stay, and all else is what the
/// delta says.
pub open spec fn is_led_to(next: FrameModel, frame: FrameModel, delta: FrameDelta) -> bool {
    let n = delta.rows@.len() as int;
    &&& next.sequence == delta.sequence
    &&& next.columns == frame.columns
    &&& next.lines == frame.lines
    &&& next.graphics == frame.graphics
    &&& next.display_offset == delta.display_offset
    &&& next.history_size == delta.history_size
    &&& next.lines_evicted == delta.lines_evicted
    &&& next.alternate_screen == delta.alternate_screen
    &&& next.modes == delta.modes
    &&& next.cursor == delta.cursor
    &&& next.selection == delta.selection
    &&& next.colors == delta.colors@
    &&& next.title == delta.title@
    &&& next.working_dir is Some == delta.working_dir is Some
    &&& delta.working_dir matches Some(dir) ==> next.working_dir->0 == dir@
    &&& next.rows.len() == frame.rows.len()
    &&& forall|k: int|
        #[trigger] is_last_for(delta.rows@, k, n) ==> next.rows[delta.rows@[k].line as int]
            == delta.rows@[k].row@
    &&& forall|line: int|
        0 <= line < next.rows.len() && (forall|i: int|
            0 <= i < n ==> (#[trigger] delta.rows@[i]).line != line)
            ==> #[trigger] next.rows[line] == frame.rows[line]
}

/// All rows are drawn anew where the selection, the scroll offset, the history, the
/// colours or the screen changed; damage grows with what a delta changes, and never
/// shrinks.
pub proof fn law_delta_damages_what_it_changes(before: RemoteModel, delta: FrameDelta)
    requires
        before.with_delta(delta) is Ok,
    ensures
        ({
            let now = before.with_delta(delta)->Ok_0;
            let whole = now.selection_range != before.selection_range || now.grid.display_offset
                != before.grid.display_offset || now.grid.history != before.grid.history
                || !equal_tables(before.colors, now.colors) || (now.frame->0).alternate_screen != (
            before.frame->0).alternate_screen;
            &&& whole ==> forall|line: int|
                0 <= line < now.grid.rows.len() ==> (#[trigger] now.grid.rows[line]).dirty
            &&& whole || delta.rows@.len() > 0 ==> now.damage == TerminalDamage::Partial
                || now.damage == TerminalDamage::Full
            &&& !whole && delta.rows@.len() == 0 ==> now.damage == (if before.damage
                == TerminalDamage::Noop {
                TerminalDamage::CursorOnly
            } else {
                before.damage
            })
            &&& now.damage == TerminalDamage::Full <==> before.damage == TerminalDamage::Full
        }),
{
}

/// Damage covers more in the order nothing, the cursor, some rows, everything; what
/// is merged covers both.
pub proof fn law_damage_covers_both(a: TerminalDamage, b: TerminalDamage)
    ensures
        a.merged(b) == a || a.merged(b) == b,
        a == TerminalDamage::Full || b == TerminalDamage::Full ==> a.merged(b)
            == TerminalDamage::Full,
        a.merged(b) == TerminalDamage::Noop ==> a == TerminalDamage::Noop && b
            == TerminalDamage::Noop,
        a.merged(b) == TerminalDamage::CursorOnly ==> a != TerminalDamage::Partial && b
            != TerminalDamage::Partial,
{
}

/// Updates are put in one after the other. The first that does not fit stops them:
/// what was put in before stays, the error is shown, and a full frame is asked for
/// unless one has been.
pub proof fn law_updates_are_put_in_up_to_the_first_misfit(
    before: RemoteModel,
    updates: Seq<FrameUpdate>,
)
    ensures
        updates.len() == 0 ==> before.with_updates(updates) == before,
        updates.len() > 0 ==> match before.with_update(updates[0]) {
            Ok(next) => before.with_updates(updates) == (RemoteModel {
                decode_error: None,
                delta_resync_logged: false,
                ..next
            }).with_updates(updates.skip(1)),
            Err(error) => {
                let now = before.with_updates(updates);
                &&& now.grid == before.grid
                &&& now.frame == before.frame
                &&& now.title == before.title
                &&& now.decode_error == Some(error.words())
                &&& before.delta_resync_logged ==> now.session == before.session
                    && now.delta_resync_logged
                &&& !before.delta_resync_logged ==> (before.session matches Some(session)
                    ==> now.session == Some(
                    session.sent(PumpCommand::Terminal(SessionCommand::Snapshot)),
                ) && now.delta_resync_logged == session.admission() is Admitted)
                &&& before.session is None ==> now.session is None && (now.delta_resync_logged
                    == before.delta_resync_logged)
            },
        },
        updates.len() > 0 ==> (updates[0] matches FrameUpdate::Full(frame) ==> before.with_update(
            updates[0],
        ) == before.with_frame(frame@)),
        updates.len() > 0 ==> (updates[0] matches FrameUpdate::Delta(delta) ==> before.with_update(
            updates[0],
        ) == before.with_delta(delta)),
{
}

/// The cell under the pointer is sent with its column and row where both fit.
pub proof fn law_cell_is_the_one_under_the_pointer(point: Pos)
    ensures
        cell_of(point) is Some <==> 0 <= point.row <= u16::MAX && point.col <= u16::MAX,
        cell_of(point) matches Some(cell) ==> cell.0 == point.col && cell.1 == point.row,
{
}

/// A line of the terminal is shown by its own row, counted from the scroll offset;
/// lines above and below what is cached by the nearest row.
pub proof fn law_lines_are_shown_by_their_rows(grid: GridModel, line: int)
    requires
        grid.rows.len() > 0,
    ensures
        0 <= grid.row_for(line) < grid.rows.len(),
        0 <= line + grid.display_offset < grid.rows.len() ==> grid.row_for(line) == line
            + grid.display_offset,
        line + grid.display_offset < 0 ==> grid.row_for(line) == 0,
        line + grid.display_offset >= grid.rows.len() ==> grid.row_for(line) == grid.rows.len() - 1,
{
}

/// The text of a cell is its character and the zero-width ones of its extras, and its
/// link is that of its extras; beyond the end of a row there is neither.
pub proof fn law_cell_text_is_what_it_shows(grid: GridModel, pos: Pos)
    ensures
        ({
            let row = grid.rows[grid.row_for(pos.row as int)].inner;
            let text = grid.text_at(pos);
            &&& pos.col >= row.len() ==> text.len() == 0 && grid.link_at(pos) is None
                && grid.square_at(pos) is None
            &&& pos.col < row.len() ==> {
                let square = row[pos.col as int];
                &&& grid.square_at(pos) == Some(square)
                &&& text.len() >= 1
                &&& square.content matches SquareContent::Char(c) ==> text[0] == c
                &&& !(square.content is Char) ==> text[0] == '\0'
                &&& match square.extras_id {
                    Some(id) if 0 < id <= grid.tables.extras.len() => text.skip(1)
                        == grid.tables.extras[id - 1].zerowidth && grid.link_at(pos)
                        == grid.tables.extras[id - 1].hyperlink,
                    _ => text.len() == 1 && grid.link_at(pos) is None,
                }
            }
        }),
{
    let text = grid.text_at(pos);
    if grid.square_at(pos) is Some {
        let square = grid.square_at(pos)->0;
        if grid.extras_for(square) is Some {
            assert(text.skip(1) =~= (grid.extras_for(square)->0).zerowidth);
        }
    }
}

/// Numbers are equal to themselves unless they are none, in both directions, and the
/// two zeros are equal; no two other numbers are.
pub proof fn law_numbers_are_equal_by_value(a: u32, b: u32, x: u64, y: u64)
    ensures
        equal_singles(a, b) == equal_singles(b, a),
        equal_singles(a, a) <==> (a <= 0x7f80_0000 || 0x8000_0000 <= a <= 0xff80_0000),
        equal_singles(a, b) && a != b ==> (a == 0 || a == 0x8000_0000) && (b == 0 || b
            == 0x8000_0000),
        equal_singles(0, 0x8000_0000),
        equal_doubles(x, y) == equal_doubles(y, x),
        equal_doubles(x, x) <==> (x <= 0x7ff0_0000_0000_0000 || 0x8000_0000_0000_0000 <= x
            <= 0xfff0_0000_0000_0000),
        equal_doubles(x, y) && x != y ==> (x == 0 || x == 0x8000_0000_0000_0000) && (y == 0 || y
            == 0x8000_0000_0000_0000),
        equal_doubles(0, 0x8000_0000_0000_0000),
{
}

/// Colours are equal where each of red, green, blue and opacity is.
pub proof fn law_colors_are_equal_by_components(a: Option<ColorBits>, b: Option<ColorBits>)
    ensures
        equal_colors(a, b) ==> a is Some == b is Some,
        a is None && b is None ==> equal_colors(a, b),
        a is Some && b is Some ==> (equal_colors(a, b) <==> {
            let (x, y) = (a->0, b->0);
            equal_singles(x.r, y.r) && equal_singles(x.g, y.g) && equal_singles(x.b, y.b)
                && equal_singles(x.a, y.a)
        }),
{
}

/// A published full frame is put in unless it is the cached one, before the updates
/// behind it; what it cannot be put in for is told to the session, and what was shown
/// stays.
pub proof fn law_pending_frame_is_put_in(
    before: RemoteModel,
    frame: crate::context::protocol::FullFrame,
)
    ensures
        before.with_pending(None) == before,
        before.frame matches Some(current) && current.sequence == frame.sequence
            ==> before.with_pending(Some(frame)) == before,
        before.frame is Some && (before.frame->0).sequence != frame.sequence ==> {
            let now = before.with_pending(Some(frame));
            match before.with_frame(frame@) {
                Ok(next) => now == (RemoteModel {
                    decode_error: None,
                    delta_resync_logged: false,
                    ..next
                }),
                Err(error) => {
                    &&& now.grid == before.grid
                    &&& now.frame == before.frame
                    &&& now.decode_error == Some(error.words())
                    &&& now.session is Some == before.session is Some
                },
            }
        },
{
}

/// What a session published is taken from it once; search results that came replace
/// those that were kept.
pub proof fn law_published_is_taken_once(before: RemoteModel)
    ensures
        before.session is None ==> before.refreshed() == before,
        before.session matches Some(session) ==> {
            let taken = before.taken();
            &&& taken.session == Some(session.emptied())
            &&& taken.grid == before.grid
            &&& taken.frame == before.frame
            &&& session.state.search_matches is Some ==> taken.search_matches
                == session.state.search_matches
            &&& session.state.search_matches is None ==> taken.search_matches
                == before.search_matches
            &&& session.state.search_navigation is Some ==> taken.search_navigation
                == session.state.search_navigation
            &&& session.state.search_navigation is None ==> taken.search_navigation
                == before.search_navigation
            &&& before.refreshed() == taken.with_pending(
                session.state.pending_full,
            ).with_updates(session.state.updates)
        },
{
    reveal(RemoteModel::refreshed);
}

} // verus!
