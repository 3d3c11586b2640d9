//! The passive view of a terminal.
//!
//! Every method that looks like a terminal operation queues a command for the
//! worker; the fields are only the most recently published frame.

use crate::context::passive::{
    blank_grid, decode_row, lemma_row_extends, row_decoded, row_models, style_lists, table_extends,
    tables_of, FrameError, GridModel, PassiveCursor, PassiveGrid, Row, RowModel, Style, Tables,
};
use crate::context::protocol::{
    row_views, rows_updated, string_view, FrameDelta, FrameModel, FrameUpdate, FullFrame,
    RowFrameModel, RowUpdate, SearchMatch, SearchNavigation, SelectionFrame, SessionCommand,
    SessionError,
};
use crate::context::session::{
    message_view, rewrapped, HandleModel, Published, PumpCommand, SessionHandle,
};
use crate::terminal::{
    copy_slice, equal_singles, same_selection, singles_equal, ColorBits, CursorShape, Pos, SelectionRange, TerminalDamage,
    COLOR_COUNT,
};
use std::collections::VecDeque;
use vstd::prelude::*;

verus! {

/// The shape that a published code stands for.
pub open spec fn shape_of(value: u8) -> CursorShape {
    if value == 1 {
        CursorShape::Underline
    } else if value == 2 {
        CursorShape::Beam
    } else if value == 3 {
        CursorShape::Hidden
    } else {
        CursorShape::Block
    }
}

pub fn cursor_shape(value: u8) -> (r: CursorShape)
    ensures
        r == shape_of(value),
{
    if value == 1 {
        CursorShape::Underline
    } else if value == 2 {
        CursorShape::Beam
    } else if value == 3 {
        CursorShape::Hidden
    } else {
        CursorShape::Block
    }
}

/// The code of a shape.
pub open spec fn code_of_shape(shape: CursorShape) -> u8 {
    match shape {
        CursorShape::Block => 0,
        CursorShape::Underline => 1,
        CursorShape::Beam => 2,
        CursorShape::Hidden => 3,
    }
}

/// A shape survives being sent and read back.
pub proof fn law_cursor_shape_round_trip(shape: CursorShape)
    ensures
        shape_of(code_of_shape(shape)) == shape,
{
}

/// A published selection in terminal coordinates: the viewport row less the
/// scroll offset.
pub open spec fn selection_of(selection: Option<SelectionFrame>, display_offset: u32) -> Option<
    SelectionRange,
> {
    match selection {
        Some(s) => Some(
            SelectionRange {
                start: Pos {
                    row: (s.start_line - display_offset) as i32,
                    col: s.start_column as usize,
                },
                end: Pos { row: (s.end_line - display_offset) as i32, col: s.end_column as usize },
                is_block: s.block,
            },
        ),
        None => None,
    }
}

pub fn selection_range(selection: Option<SelectionFrame>, display_offset: u32) -> (r: Option<
    SelectionRange,
>)
    requires
        display_offset <= i32::MAX,
    ensures
        r == selection_of(selection, display_offset),
{
    match selection {
        Some(s) => Some(
            SelectionRange {
                start: Pos::new(
                    s.start_line as i32 - display_offset as i32,
                    s.start_column as usize,
                ),
                end: Pos::new(s.end_line as i32 - display_offset as i32, s.end_column as usize),
                is_block: s.block,
            },
        ),
        None => None,
    }
}

/// A published colour table, cut or filled up to the number of slots.
pub open spec fn color_table(colors: Seq<Option<ColorBits>>) -> Seq<Option<ColorBits>> {
    Seq::new(
        COLOR_COUNT as nat,
        |i: int|
            if i < colors.len() {
                colors[i]
            } else {
                None
            },
    )
}

pub fn decode_colors(colors: &[Option<ColorBits>]) -> (r: Vec<Option<ColorBits>>)
    ensures
        r@ == color_table(colors@),
{
    let mut out: Vec<Option<ColorBits>> = Vec::new();
    while out.len() < COLOR_COUNT
        invariant
            out@.len() <= COLOR_COUNT,
            out@ == color_table(colors@).take(out@.len() as int),
        decreases COLOR_COUNT - out@.len(),
    {
        let i: usize = out.len();
        let color: Option<ColorBits> = if i < colors.len() {
            colors[i]
        } else {
            None
        };
        proof {
            assert(color_table(colors@).take(i + 1) =~= color_table(colors@).take(i as int).push(
                color,
            ));
        }
        out.push(color);
    }
    proof {
        assert(color_table(colors@).take(COLOR_COUNT as int) =~= color_table(colors@));
    }
    out
}

/// Two colours are equal, by their components as numbers.
pub open spec fn equal_colors(a: Option<ColorBits>, b: Option<ColorBits>) -> bool {
    match (a, b) {
        (Some(x), Some(y)) => equal_singles(x.r, y.r) && equal_singles(x.g, y.g) && equal_singles(
            x.b,
            y.b,
        ) && equal_singles(x.a, y.a),
        (None, None) => true,
        _ => false,
    }
}

/// Two tables hold equal colours.
pub open spec fn equal_tables(a: Seq<Option<ColorBits>>, b: Seq<Option<ColorBits>>) -> bool {
    a.len() == b.len() && forall|k: int|
        0 <= k < a.len() ==> equal_colors(#[trigger] a[k], b[k])
}

fn same_color(a: &Option<ColorBits>, b: &Option<ColorBits>) -> (r: bool)
    ensures
        r == equal_colors(*a, *b),
{
    match (a, b) {
        (Some(x), Some(y)) => singles_equal(x.r, y.r) && singles_equal(x.g, y.g) && singles_equal(
            x.b,
            y.b,
        ) && singles_equal(x.a, y.a),
        (None, None) => true,
        _ => false,
    }
}

fn same_colors(a: &[Option<ColorBits>], b: &[Option<ColorBits>]) -> (r: bool)
    ensures
        r == equal_tables(a@, b@),
{
    if a.len() != b.len() {
        return false;
    }
    let mut i: usize = 0;
    while i < a.len()
        invariant
            i <= a.len(),
            a.len() == b.len(),
            forall|k: int| 0 <= k < i ==> equal_colors(#[trigger] a@[k], b@[k]),
        decreases a.len() - i,
    {
        if !same_color(&a[i], &b[i]) {
            return false;
        }
        i += 1;
    }
    true
}

/// Passive terminal view used by renderer and interaction code.
pub struct RemoteView {
    pub grid: PassiveGrid,
    pub cursor_shape: CursorShape,
    pub default_cursor_shape: CursorShape,
    pub blinking_cursor: bool,
    pub selection_range: Option<SelectionRange>,
    pub vi_mode_cursor: PassiveCursor,
    pub window_id: u64,
    pub title: String,
    pub current_directory: Option<String>,
    pub colors: Vec<Option<ColorBits>>,
    /// The modes of the terminal, bit by bit as they were sent: a bit that
    /// stands for no mode is not looked at.
    pub mode_bits: u32,
    pub session: Option<SessionHandle>,
    pub frame: Option<FullFrame>,
    pub graphics_dirty: bool,
    pub pending_frame_damage: TerminalDamage,
    pub delta_resync_logged: bool,
    pub search_active: bool,
    pub search_navigation: Option<SearchNavigation>,
    pub search_matches: Option<Vec<SearchMatch>>,
    pub decode_error: Option<String>,
}

/// The contents of a passive view.
#[verifier::ext_equal]
pub struct RemoteModel {
    pub grid: GridModel,
    pub cursor_shape: CursorShape,
    pub default_cursor_shape: CursorShape,
    pub blinking_cursor: bool,
    pub selection_range: Option<SelectionRange>,
    pub vi_cursor: Pos,
    pub window_id: u64,
    pub title: Seq<char>,
    pub current_directory: Option<Seq<char>>,
    pub colors: Seq<Option<ColorBits>>,
    pub mode_bits: u32,
    pub session: Option<HandleModel>,
    pub frame: Option<FrameModel>,
    pub graphics_dirty: bool,
    pub damage: TerminalDamage,
    pub delta_resync_logged: bool,
    pub search_active: bool,
    pub search_navigation: Option<SearchNavigation>,
    pub search_matches: Option<Vec<SearchMatch>>,
    pub decode_error: Option<Seq<char>>,
}

/// The contents of an optional handle.
pub open spec fn handle_view(session: Option<SessionHandle>) -> Option<HandleModel> {
    match session {
        Some(session) => Some(session@),
        None => None,
    }
}

/// The contents of an optional frame.
pub open spec fn frame_view(frame: Option<FullFrame>) -> Option<FrameModel> {
    match frame {
        Some(frame) => Some(frame@),
        None => None,
    }
}

impl View for RemoteView {
    type V = RemoteModel;

    open spec fn view(&self) -> RemoteModel {
        RemoteModel {
            grid: self.grid@,
            cursor_shape: self.cursor_shape,
            default_cursor_shape: self.default_cursor_shape,
            blinking_cursor: self.blinking_cursor,
            selection_range: self.selection_range,
            vi_cursor: self.vi_mode_cursor.pos,
            window_id: self.window_id,
            title: self.title@,
            current_directory: string_view(self.current_directory),
            colors: self.colors@,
            mode_bits: self.mode_bits,
            session: handle_view(self.session),
            frame: frame_view(self.frame),
            graphics_dirty: self.graphics_dirty,
            damage: self.pending_frame_damage,
            delta_resync_logged: self.delta_resync_logged,
            search_active: self.search_active,
            search_navigation: self.search_navigation,
            search_matches: self.search_matches,
            decode_error: message_view(self.decode_error),
        }
    }
}

/// Some rows decoded, with the tables behind them.
#[verifier::ext_equal]
pub struct DecodedRows {
    pub tables: Tables,
    pub rows: Seq<RowModel>,
    pub styles: Seq<Seq<Style>>,
}

/// The first `n` rows of a frame decoded one after the other.
pub open spec fn rows_decoded(
    tables: Tables,
    columns: int,
    rows: Seq<RowFrameModel>,
    n: int,
) -> Result<DecodedRows, FrameError>
    decreases n,
{
    if n <= 0 {
        Ok(DecodedRows { tables, rows: Seq::empty(), styles: Seq::empty() })
    } else {
        match rows_decoded(tables, columns, rows, n - 1) {
            Err(error) => Err(error),
            Ok(d) => match row_decoded(d.tables, columns, rows[n - 1]) {
                Err(error) => Err(error),
                Ok(row) => Ok(
                    DecodedRows {
                        tables: row.tables,
                        rows: d.rows.push(row.row),
                        styles: d.styles.push(row.styles),
                    },
                ),
            },
        }
    }
}

proof fn lemma_rows_failed(tables: Tables, columns: int, rows: Seq<RowFrameModel>, n: int, m: int)
    requires
        0 < n <= m,
        rows_decoded(tables, columns, rows, n) is Err,
    ensures
        rows_decoded(tables, columns, rows, m) == rows_decoded(tables, columns, rows, n),
    decreases m - n,
{
    if n < m {
        lemma_rows_failed(tables, columns, rows, n, m - 1);
    }
}

/// Why the first `n` changed rows of a delta cannot be taken over, or what
/// they decode to.
pub open spec fn updates_decoded(
    tables: Tables,
    columns: int,
    cached: int,
    updates: Seq<RowUpdate>,
    n: int,
) -> Result<DecodedRows, FrameError>
    decreases n,
{
    if n <= 0 {
        Ok(DecodedRows { tables, rows: Seq::empty(), styles: Seq::empty() })
    } else {
        match updates_decoded(tables, columns, cached, updates, n - 1) {
            Err(error) => Err(error),
            Ok(d) => if updates[n - 1].line >= cached {
                Err(FrameError::RowOutside)
            } else {
                match row_decoded(d.tables, columns, updates[n - 1].row@) {
                    Err(error) => Err(error),
                    Ok(row) => Ok(
                        DecodedRows {
                            tables: row.tables,
                            rows: d.rows.push(row.row),
                            styles: d.styles.push(row.styles),
                        },
                    ),
                }
            },
        }
    }
}

proof fn lemma_updates_failed(
    tables: Tables,
    columns: int,
    cached: int,
    updates: Seq<RowUpdate>,
    n: int,
    m: int,
)
    requires
        0 < n <= m,
        updates_decoded(tables, columns, cached, updates, n) is Err,
    ensures
        updates_decoded(tables, columns, cached, updates, m) == updates_decoded(
            tables,
            columns,
            cached,
            updates,
            n,
        ),
    decreases m - n,
{
    if n < m {
        lemma_updates_failed(tables, columns, cached, updates, n, m - 1);
    }
}

proof fn lemma_updates_decoded(
    tables: Tables,
    columns: int,
    cached: int,
    updates: Seq<RowUpdate>,
    n: int,
)
    requires
        0 <= n <= updates.len(),
        updates_decoded(tables, columns, cached, updates, n) is Ok,
    ensures
        updates_decoded(tables, columns, cached, updates, n)->Ok_0.rows.len() == n,
        updates_decoded(tables, columns, cached, updates, n)->Ok_0.styles.len() == n,
        forall|i: int| 0 <= i < n ==> (#[trigger] updates[i]).line < cached,
    decreases n,
{
    if n > 0 {
        lemma_updates_decoded(tables, columns, cached, updates, n - 1);
    }
}

/// A list with the first `n` decoded rows put where the updates say.
pub open spec fn placed<T>(list: Seq<T>, updates: Seq<RowUpdate>, values: Seq<T>, n: int) -> Seq<T>
    decreases n,
{
    if n <= 0 {
        list
    } else {
        placed(list, updates, values, n - 1).update(updates[n - 1].line as int, values[n - 1])
    }
}

proof fn lemma_placed_rows(list: Seq<Row>, updates: Seq<RowUpdate>, values: Seq<Row>, n: int)
    requires
        0 <= n <= updates.len(),
        n <= values.len(),
        forall|i: int| 0 <= i < updates.len() ==> (#[trigger] updates[i]).line < list.len(),
    ensures
        placed(list, updates, values, n).len() == list.len(),
        row_models(placed(list, updates, values, n)) == placed(
            row_models(list),
            updates,
            row_models(values),
            n,
        ),
    decreases n,
{
    if n > 0 {
        lemma_placed_rows(list, updates, values, n - 1);
        assert(row_models(placed(list, updates, values, n)) =~= placed(
            row_models(list),
            updates,
            row_models(values),
            n,
        ));
    }
}

proof fn lemma_placed_styles(
    list: Seq<Vec<Style>>,
    updates: Seq<RowUpdate>,
    values: Seq<Vec<Style>>,
    n: int,
)
    requires
        0 <= n <= updates.len(),
        n <= values.len(),
        forall|i: int| 0 <= i < updates.len() ==> (#[trigger] updates[i]).line < list.len(),
    ensures
        placed(list, updates, values, n).len() == list.len(),
        style_lists(placed(list, updates, values, n)) == placed(
            style_lists(list),
            updates,
            style_lists(values),
            n,
        ),
    decreases n,
{
    if n > 0 {
        lemma_placed_styles(list, updates, values, n - 1);
        assert(style_lists(placed(list, updates, values, n)) =~= placed(
            style_lists(list),
            updates,
            style_lists(values),
            n,
        ));
    }
}

/// Puts decoded rows where the updates say.
fn place<T>(list: &mut Vec<T>, updates: &[RowUpdate], values: Vec<T>)
    requires
        values@.len() == updates@.len(),
        forall|i: int| 0 <= i < updates@.len() ==> (#[trigger] updates@[i]).line < old(list)@.len(),
    ensures
        final(list)@ == placed(old(list)@, updates@, values@, updates@.len() as int),
        final(list)@.len() == old(list)@.len(),
{
    let ghost before = list@;
    let ghost given = values@;
    let mut values: Vec<T> = values;
    let mut i: usize = 0;
    while i < updates.len()
        invariant
            i <= updates@.len(),
            values@.len() == updates@.len(),
            given.len() == updates@.len(),
            list@.len() == before.len(),
            forall|k: int| 0 <= k < updates@.len() ==> (#[trigger] updates@[k]).line < before.len(),
            forall|k: int| i <= k < values@.len() ==> #[trigger] values@[k] == given[k],
            list@ == placed(before, updates@, given, i as int),
        decreases updates@.len() - i,
    {
        let line: usize = updates[i].line as usize;
        core::mem::swap(&mut values[i], &mut list[line]);
        i += 1;
    }
}

/// Marks every row as changed.
fn mark_dirty(rows: &mut Vec<Row>)
    ensures
        row_models(final(rows)@) == all_dirty(row_models(old(rows)@)),
        final(rows)@.len() == old(rows)@.len(),
{
    let ghost before = rows@;
    let mut i: usize = 0;
    while i < rows.len()
        invariant
            i <= rows@.len(),
            rows@.len() == before.len(),
            forall|k: int|
                0 <= k < i ==> (#[trigger] rows@[k])@ == (RowModel { dirty: true, ..before[k]@ }),
            forall|k: int| i <= k < rows@.len() ==> #[trigger] rows@[k] == before[k],
        decreases rows@.len() - i,
    {
        rows[i].dirty = true;
        i += 1;
    }
    proof {
        assert(row_models(rows@) =~= all_dirty(row_models(before)));
    }
}

/// Rows that all have to be drawn again.
pub open spec fn all_dirty(rows: Seq<RowModel>) -> Seq<RowModel> {
    rows.map_values(|r: RowModel| RowModel { dirty: true, ..r })
}

/// The tables of an empty cache.
pub open spec fn first_tables() -> Tables {
    Tables { extras: Seq::empty(), styles: seq![crate::context::passive::plain_style()] }
}

/// The cell under a pointer, if it has a number that can be sent.
pub open spec fn cell_of(point: Pos) -> Option<(u16, u16)> {
    if point.col <= u16::MAX && 0 <= point.row <= u16::MAX {
        Some((point.col as u16, point.row as u16))
    } else {
        None
    }
}

/// A cursor as it is shown.
#[derive(Clone, Copy, Debug, PartialEq, Eq, Structural)]
pub struct ShownCursor {
    pub pos: Pos,
    pub shape: CursorShape,
}

/// The size of a terminal in cells and pixels.
#[derive(Clone, Copy, Debug, PartialEq, Eq, Structural)]
pub struct WindowSize {
    pub cols: u16,
    pub rows: u16,
    pub width: u16,
    pub height: u16,
}

impl RemoteModel {
    /// The view of a session that has published nothing.
    pub open spec fn fresh(
        session: Option<HandleModel>,
        window_id: u64,
        columns: nat,
        lines: nat,
    ) -> RemoteModel {
        RemoteModel {
            grid: blank_grid(columns, lines),
            cursor_shape: CursorShape::Block,
            default_cursor_shape: CursorShape::Block,
            blinking_cursor: false,
            selection_range: None,
            vi_cursor: Pos { row: 0, col: 0 },
            window_id,
            title: Seq::empty(),
            current_directory: None,
            colors: color_table(Seq::empty()),
            mode_bits: 0,
            session,
            frame: None,
            graphics_dirty: false,
            damage: TerminalDamage::Noop,
            delta_resync_logged: false,
            search_active: false,
            search_navigation: None,
            search_matches: None,
            decode_error: None,
        }
    }

    /// The view with the metadata of a frame.
    pub open spec fn with_metadata(self, frame: FrameModel) -> RemoteModel {
        RemoteModel {
            grid: GridModel {
                cursor: Pos { row: frame.cursor.line as i32, col: frame.cursor.column as usize },
                history: frame.history_size as int,
                display_offset: frame.display_offset as int,
                ..self.grid
            },
            cursor_shape: shape_of(frame.cursor.shape),
            default_cursor_shape: shape_of(frame.cursor.shape),
            blinking_cursor: frame.cursor.blinking,
            selection_range: selection_of(frame.selection, frame.display_offset),
            vi_cursor: Pos {
                row: (frame.cursor.line - frame.display_offset) as i32,
                col: frame.cursor.column as usize,
            },
            title: frame.title,
            current_directory: frame.working_dir,
            colors: color_table(frame.colors),
            mode_bits: frame.modes,
            ..self
        }
    }

    /// The view with a full frame put in, or why it cannot be.
    pub open spec fn with_frame(self, frame: FrameModel) -> Result<RemoteModel, FrameError> {
        if frame.columns == 0 || frame.lines == 0 {
            Err(FrameError::ZeroDimensions)
        } else if frame.rows.len() != frame.lines {
            Err(FrameError::RowCount)
        } else {
            match rows_decoded(
                first_tables(),
                frame.columns as int,
                frame.rows,
                frame.rows.len() as int,
            ) {
                Err(error) => Err(error),
                Ok(d) => Ok(
                    RemoteModel {
                        frame: Some(frame),
                        graphics_dirty: self.graphics_dirty || !(self.frame matches Some(current)
                            && current.graphics == frame.graphics),
                        damage: self.damage.merged(TerminalDamage::Full),
                        ..(RemoteModel {
                            grid: GridModel {
                                rows: d.rows,
                                row_styles: d.styles,
                                columns: frame.columns as int,
                                lines: frame.lines as int,
                                tables: d.tables,
                                ..self.grid
                            },
                            ..self
                        }).with_metadata(frame)
                    },
                ),
            }
        }
    }

    /// The view with a delta put in, or why it cannot be.
    pub open spec fn with_delta(self, delta: FrameDelta) -> Result<RemoteModel, FrameError> {
        match self.frame {
            None => Err(FrameError::NoCachedFrame),
            Some(current) => if current.sequence != delta.base_sequence {
                Err(
                    FrameError::BaseMismatch {
                        base: delta.base_sequence,
                        cached: current.sequence,
                    },
                )
            } else if current.columns != delta.columns || current.lines != delta.lines {
                Err(FrameError::Dimensions)
            } else {
                let n = delta.rows@.len() as int;
                match updates_decoded(
                    self.grid.tables,
                    self.grid.columns,
                    self.grid.rows.len() as int,
                    delta.rows@,
                    n,
                ) {
                    Err(error) => Err(error),
                    Ok(d) => {
                        let next = delta.applied(current);
                        let placed_rows = placed(self.grid.rows, delta.rows@, d.rows, n);
                        let shown = (RemoteModel {
                            grid: GridModel {
                                row_styles: placed(self.grid.row_styles, delta.rows@, d.styles, n),
                                tables: d.tables,
                                ..self.grid
                            },
                            frame: Some(next),
                            ..self
                        }).with_metadata(next);
                        let rebuild = shown.selection_range != self.selection_range
                            || shown.grid.display_offset != self.grid.display_offset
                            || shown.grid.history != self.grid.history || !equal_tables(
                            self.colors,
                            shown.colors,
                        ) || next.alternate_screen != current.alternate_screen;
                        Ok(
                            RemoteModel {
                                grid: GridModel {
                                    rows: if rebuild {
                                        all_dirty(placed_rows)
                                    } else {
                                        placed_rows
                                    },
                                    ..shown.grid
                                },
                                damage: self.damage.merged(
                                    if rebuild || n != 0 {
                                        TerminalDamage::Partial
                                    } else {
                                        TerminalDamage::CursorOnly
                                    },
                                ),
                                ..shown
                            },
                        )
                    },
                }
            },
        }
    }

    /// The view with a published update put in, or why it cannot be.
    pub open spec fn with_update(self, update: FrameUpdate) -> Result<RemoteModel, FrameError> {
        match update {
            FrameUpdate::Full(frame) => self.with_frame(frame@),
            FrameUpdate::Delta(delta) => self.with_delta(delta),
        }
    }

    /// The view behind an update that went well.
    pub open spec fn recovered(self) -> RemoteModel {
        RemoteModel { decode_error: None, delta_resync_logged: false, ..self }
    }

    /// The view behind an update that did not fit: the error is shown, and a
    /// full snapshot is asked for until such a request is admitted.
    pub open spec fn resyncing(self, error: FrameError) -> RemoteModel {
        let shown = RemoteModel { decode_error: Some(error.words()), ..self };
        if self.delta_resync_logged {
            shown
        } else {
            match self.session {
                Some(session) => RemoteModel {
                    session: Some(session.sent(PumpCommand::Terminal(SessionCommand::Snapshot))),
                    delta_resync_logged: session.admission() is Admitted,
                    ..shown
                },
                None => RemoteModel { delta_resync_logged: false, ..shown },
            }
        }
    }

    /// Updates put in one after the other, up to the first that does not fit.
    pub open spec fn with_updates(self, updates: Seq<FrameUpdate>) -> RemoteModel
        decreases updates.len(),
    {
        if updates.len() == 0 {
            self
        } else {
            match self.with_update(updates[0]) {
                Ok(next) => next.recovered().with_updates(updates.skip(1)),
                Err(error) => self.resyncing(error),
            }
        }
    }

    /// A full frame put in, unless it is the cached one.
    pub open spec fn with_pending(self, pending: Option<FullFrame>) -> RemoteModel {
        match pending {
            Some(frame) if frame.sequence != (match self.frame {
                Some(current) => current.sequence,
                None => 0,
            }) => match self.with_frame(frame@) {
                Ok(next) => next.recovered(),
                Err(error) => RemoteModel {
                    decode_error: Some(error.words()),
                    session: match self.session {
                        Some(session) => Some(
                            HandleModel {
                                state: session.state.noted(rewrapped(error.words())),
                                ..session
                            },
                        ),
                        None => None,
                    },
                    ..self
                },
            },
            _ => self,
        }
    }

    /// What the session has published, taken from it. Search results are kept
    /// at once.
    pub open spec fn taken(self) -> RemoteModel {
        match self.session {
            None => self,
            Some(session) => RemoteModel {
                session: Some(session.emptied()),
                search_navigation: match session.state.search_navigation {
                    Some(navigation) => Some(navigation),
                    None => self.search_navigation,
                },
                search_matches: match session.state.search_matches {
                    Some(matches) => Some(matches),
                    None => self.search_matches,
                },
                ..self
            },
        }
    }

    /// Everything that the session has published taken over.
    #[verifier::opaque]
    pub open spec fn refreshed(self) -> RemoteModel {
        match self.session {
            None => self,
            Some(session) => self.taken().with_pending(session.state.pending_full).with_updates(
                session.state.updates,
            ),
        }
    }

    /// A command issued to the session, if there is one.
    pub open spec fn issuing(self, command: SessionCommand) -> RemoteModel {
        RemoteModel {
            session: match self.session {
                Some(session) => Some(session.issued(command)),
                None => None,
            },
            ..self
        }
    }
}

impl RemoteView {
    /// The cache is sound, the cached frame has the grid's size, and the
    /// session's books are in order.
    pub open spec fn well_formed(&self) -> bool {
        &&& self.grid.well_formed()
        &&& self.session matches Some(session) ==> session@.well_formed()
        &&& self.frame matches Some(frame) ==> frame.rows@.len() == self.grid.rows@.len()
        &&& self.search_matches matches Some(matches) ==> forall|i: int|
            0 <= i < matches@.len() ==> (#[trigger] matches@[i]).fits()
    }

    /// The view of a session that has published nothing.
    pub fn new(session: Option<SessionHandle>, window_id: u64, columns: usize, lines: usize) -> (r:
        Self)
        requires
            lines <= i32::MAX,
            session matches Some(session) ==> session@.well_formed(),
        ensures
            r.well_formed(),
            r@ == RemoteModel::fresh(
                handle_view(session),
                window_id,
                columns as nat,
                lines as nat,
            ),
    {
        let no_colors: Vec<Option<ColorBits>> = Vec::new();
        RemoteView {
            grid: PassiveGrid::new(columns, lines),
            cursor_shape: CursorShape::Block,
            default_cursor_shape: CursorShape::Block,
            blinking_cursor: false,
            selection_range: None,
            vi_mode_cursor: PassiveCursor { pos: Pos::new(0, 0) },
            window_id,
            title: String::new(),
            current_directory: None,
            colors: decode_colors(no_colors.as_slice()),
            mode_bits: 0,
            session,
            frame: None,
            graphics_dirty: false,
            pending_frame_damage: TerminalDamage::Noop,
            delta_resync_logged: false,
            search_active: false,
            search_navigation: None,
            search_matches: None,
            decode_error: None,
        }
    }

    fn update_frame_metadata(&mut self, frame: &FullFrame)
        requires
            frame.fits(),
            old(self).grid.lines <= i32::MAX,
        ensures
            final(self)@ == old(self)@.with_metadata(frame@),
            final(self).grid.rows == old(self).grid.rows,
            final(self).grid.row_styles == old(self).grid.row_styles,
            final(self).grid.extras == old(self).grid.extras,
            final(self).grid.styles == old(self).grid.styles,
            final(self).grid.lines == old(self).grid.lines,
            final(self).grid.columns == old(self).grid.columns,
            final(self).session == old(self).session,
            final(self).frame == old(self).frame,
            final(self).search_matches == old(self).search_matches,
    {
        self.grid.cursor = PassiveCursor {
            pos: Pos::new(frame.cursor.line as i32, frame.cursor.column as usize),
        };
        self.vi_mode_cursor = PassiveCursor {
            pos: Pos::new(
                frame.cursor.line as i32 - frame.display_offset as i32,
                frame.cursor.column as usize,
            ),
        };
        self.blinking_cursor = frame.cursor.blinking;
        self.cursor_shape = cursor_shape(frame.cursor.shape);
        self.default_cursor_shape = self.cursor_shape;
        self.mode_bits = frame.modes;
        self.title = frame.title.clone();
        self.current_directory = frame.working_dir.clone();
        self.colors = decode_colors(frame.colors.as_slice());
        self.selection_range = selection_range(frame.selection, frame.display_offset);
        self.grid.history = frame.history_size as usize;
        self.grid.display_offset = frame.display_offset as usize;
        proof {
            assert(self@ =~= old(self)@.with_metadata(frame@));
        }
    }

    /// Takes a full frame over. A frame that cannot be shown changes nothing.
    pub fn apply_frame(&mut self, frame: FullFrame) -> (r: Result<(), FrameError>)
        requires
            old(self).well_formed(),
            frame.fits(),
        ensures
            final(self).well_formed(),
            match old(self)@.with_frame(frame@) {
                Ok(next) => r is Ok && final(self)@ == next,
                Err(error) => r == Err::<(), FrameError>(error) && final(self)@ == old(self)@,
            },
    {
        let ghost before = self@;
        if frame.columns == 0 || frame.lines == 0 {
            return Err(FrameError::ZeroDimensions);
        }
        if frame.rows.len() != frame.lines as usize {
            return Err(FrameError::RowCount);
        }
        let graphics_changed: bool = match &self.frame {
            Some(current) => !current.graphics.same(&frame.graphics),
            None => true,
        };
        let columns: usize = frame.columns as usize;
        let lines: usize = frame.lines as usize;
        let mut grid: PassiveGrid = PassiveGrid::new(columns, lines);
        let ghost rows = frame@.rows;
        let mut new_rows: Vec<Row> = Vec::new();
        let mut new_styles: Vec<Vec<Style>> = Vec::new();
        let mut i: usize = 0;
        proof {
            assert(row_models(new_rows@) =~= Seq::<RowModel>::empty());
            assert(style_lists(new_styles@) =~= Seq::<Seq<Style>>::empty());
            assert(tables_of(&grid.extras, &grid.styles) =~= first_tables());
        }
        while i < frame.rows.len()
            invariant
                i <= frame.rows@.len(),
                rows == row_views(frame.rows@),
                grid.extras.well_formed(),
                grid.styles.well_formed(),
                grid.lines == lines,
                grid.columns == columns,
                new_rows@.len() == i,
                new_styles@.len() == i,
                rows_decoded(first_tables(), columns as int, rows, i as int) == Ok::<
                    DecodedRows,
                    FrameError,
                >(
                    DecodedRows {
                        tables: tables_of(&grid.extras, &grid.styles),
                        rows: row_models(new_rows@),
                        styles: style_lists(new_styles@),
                    },
                ),
                self@ == before,
                self.well_formed(),
                frame@.rows == rows,
                columns == frame.columns,
                lines == frame.lines,
                frame.columns != 0,
                frame.lines != 0,
                frame.rows@.len() == frame.lines,
                before == old(self)@,
            decreases frame.rows@.len() - i,
        {
            proof {
                assert(rows[i as int] == frame.rows@[i as int]@);
            }
            let decoded: Result<(Row, Vec<Style>), FrameError> = decode_row(
                &mut grid.extras,
                &mut grid.styles,
                columns,
                &frame.rows[i],
            );
            match decoded {
                Ok((row, styles)) => {
                    proof {
                        assert(row_models(new_rows@.push(row)) =~= row_models(new_rows@).push(row@));
                        assert(style_lists(new_styles@.push(styles)) =~= style_lists(
                            new_styles@,
                        ).push(styles@));
                    }
                    new_rows.push(row);
                    new_styles.push(styles);
                },
                Err(error) => {
                    proof {
                        lemma_rows_failed(
                            first_tables(),
                            columns as int,
                            rows,
                            i + 1,
                            rows.len() as int,
                        );
                    }
                    return Err(error);
                },
            }
            i += 1;
        }
        grid.rows = new_rows;
        grid.row_styles = new_styles;
        self.grid = grid;
        self.update_frame_metadata(&frame);
        self.frame = Some(frame);
        self.graphics_dirty = self.graphics_dirty || graphics_changed;
        self.pending_frame_damage = self.pending_frame_damage.merge(TerminalDamage::Full);
        proof {
            assert(self@ =~= before.with_frame(frame@)->Ok_0);
        }
        Ok(())
    }

    /// Decodes the changed rows of a delta. Where that fails, the tables keep
    /// what they had.
    fn decode_updates(&mut self, delta: &FrameDelta) -> (r: Result<
        (Vec<Row>, Vec<Vec<Style>>),
        FrameError,
    >)
        requires
            old(self).well_formed(),
        ensures
            final(self).well_formed(),
            match updates_decoded(
                old(self)@.grid.tables,
                old(self)@.grid.columns,
                old(self)@.grid.rows.len() as int,
                delta.rows@,
                delta.rows@.len() as int,
            ) {
                Ok(d) => {
                    &&& r is Ok && row_models(r->Ok_0.0@) == d.rows && style_lists(r->Ok_0.1@)
                        == d.styles
                    &&& final(self)@ == (RemoteModel {
                        grid: GridModel { tables: d.tables, ..old(self)@.grid },
                        ..old(self)@
                    })
                },
                Err(error) => {
                    &&& r == Err::<(Vec<Row>, Vec<Vec<Style>>), FrameError>(error)
                    &&& final(self)@ == old(self)@
                },
            },
    {
        let ghost before = self@;
        let ghost tables = self@.grid.tables;
        let extras_len: usize = self.grid.extras.len();
        let styles_len: usize = self.grid.styles.len();
        let columns: usize = self.grid.columns;
        let ghost cached = self@.grid.rows.len() as int;
        let ghost updates = delta.rows@;
        let mut rows: Vec<Row> = Vec::new();
        let mut styles: Vec<Vec<Style>> = Vec::new();
        let mut i: usize = 0;
        proof {
            assert(row_models(rows@) =~= Seq::<RowModel>::empty());
            assert(style_lists(styles@) =~= Seq::<Seq<Style>>::empty());
            assert(tables.extras.take(tables.extras.len() as int) =~= tables.extras);
            assert(tables.styles.take(tables.styles.len() as int) =~= tables.styles);
        }
        while i < delta.rows.len()
            invariant
                i <= delta.rows@.len(),
                updates == delta.rows@,
                before == old(self)@,
                tables == before.grid.tables,
                cached == before.grid.rows.len(),
                columns == before.grid.columns,
                extras_len == tables.extras.len(),
                styles_len == tables.styles.len(),
                self.well_formed(),
                table_extends(tables.extras, self.grid.extras@),
                table_extends(tables.styles, self.grid.styles@),
                self@ == (RemoteModel {
                    grid: GridModel { tables: self@.grid.tables, ..before.grid },
                    ..before
                }),
                updates_decoded(tables, columns as int, cached, updates, i as int) == Ok::<
                    DecodedRows,
                    FrameError,
                >(
                    DecodedRows {
                        tables: self@.grid.tables,
                        rows: row_models(rows@),
                        styles: style_lists(styles@),
                    },
                ),
            decreases delta.rows@.len() - i,
        {
            let update: &RowUpdate = &delta.rows[i];
            proof {
                assert(self@.grid.rows.len() == self.grid.rows@.len());
            }
            if update.line as usize >= self.grid.rows.len() {
                proof {
                    assert(updates_decoded(tables, columns as int, cached, updates, i + 1)
                        == Err::<DecodedRows, FrameError>(FrameError::RowOutside));
                    lemma_updates_failed(
                        tables,
                        columns as int,
                        cached,
                        updates,
                        i + 1,
                        updates.len() as int,
                    );
                }
                self.grid.extras.truncate(extras_len);
                self.grid.styles.truncate(styles_len);
                proof {
                    assert(self@ =~= before);
                }
                return Err(FrameError::RowOutside);
            }
            let ghost extras_then = self.grid.extras@;
            let ghost styles_then = self.grid.styles@;
            let decoded: Result<(Row, Vec<Style>), FrameError> = decode_row(
                &mut self.grid.extras,
                &mut self.grid.styles,
                columns,
                &update.row,
            );
            proof {
                assert(self.grid.extras@.take(tables.extras.len() as int) =~= extras_then.take(
                    tables.extras.len() as int,
                )) by {
                    assert(self.grid.extras@.take(extras_then.len() as int) == extras_then);
                    assert(self.grid.extras@.take(extras_then.len() as int).take(
                        tables.extras.len() as int,
                    ) =~= self.grid.extras@.take(tables.extras.len() as int));
                }
                assert(self.grid.styles@.take(tables.styles.len() as int) =~= styles_then.take(
                    tables.styles.len() as int,
                )) by {
                    assert(self.grid.styles@.take(styles_then.len() as int) == styles_then);
                    assert(self.grid.styles@.take(styles_then.len() as int).take(
                        tables.styles.len() as int,
                    ) =~= self.grid.styles@.take(tables.styles.len() as int));
                }
            }
            match decoded {
                Ok((row, list)) => {
                    proof {
                        assert(row_models(rows@.push(row)) =~= row_models(rows@).push(row@));
                        assert(style_lists(styles@.push(list)) =~= style_lists(styles@).push(list@));
                    }
                    rows.push(row);
                    styles.push(list);
                    proof {
                        assert(self@ =~= (RemoteModel {
                            grid: GridModel { tables: self@.grid.tables, ..before.grid },
                            ..before
                        }));
                    }
                },
                Err(error) => {
                    proof {
                        assert(updates_decoded(tables, columns as int, cached, updates, i + 1)
                            == Err::<DecodedRows, FrameError>(error));
                        lemma_updates_failed(
                            tables,
                            columns as int,
                            cached,
                            updates,
                            i + 1,
                            updates.len() as int,
                        );
                    }
                    self.grid.extras.truncate(extras_len);
                    self.grid.styles.truncate(styles_len);
                    proof {
                        assert(self@ =~= before);
                    }
                    return Err(error);
                },
            }
            i += 1;
        }
        Ok((rows, styles))
    }

    /// Takes a published update over. One that does not fit the cached frame
    /// changes nothing.
    pub fn apply_frame_update(&mut self, update: FrameUpdate) -> (r: Result<(), FrameError>)
        requires
            old(self).well_formed(),
            update.fits(),
        ensures
            final(self).well_formed(),
            final(self)@.session == old(self)@.session,
            match old(self)@.with_update(update) {
                Ok(next) => r is Ok && final(self)@ == next,
                Err(error) => r == Err::<(), FrameError>(error) && final(self)@ == old(self)@,
            },
    {
        match update {
            FrameUpdate::Full(frame) => self.apply_frame(frame),
            FrameUpdate::Delta(delta) => self.apply_delta(delta),
        }
    }

    fn apply_delta(&mut self, delta: FrameDelta) -> (r: Result<(), FrameError>)
        requires
            old(self).well_formed(),
            delta.fits(),
        ensures
            final(self).well_formed(),
            match old(self)@.with_delta(delta) {
                Ok(next) => r is Ok && final(self)@ == next,
                Err(error) => r == Err::<(), FrameError>(error) && final(self)@ == old(self)@,
            },
    {
        let ghost before = self@;
        match &self.frame {
            None => {
                return Err(FrameError::NoCachedFrame);
            },
            Some(current) => {
                if current.sequence != delta.base_sequence {
                    return Err(
                        FrameError::BaseMismatch {
                            base: delta.base_sequence,
                            cached: current.sequence,
                        },
                    );
                }
                if current.columns != delta.columns || current.lines != delta.lines {
                    return Err(FrameError::Dimensions);
                }
            },
        }
        let ghost n = delta.rows@.len() as int;
        let ghost cached = self@.grid.rows.len() as int;
        let decoded: Result<(Vec<Row>, Vec<Vec<Style>>), FrameError> = self.decode_updates(&delta);
        let (rows, styles): (Vec<Row>, Vec<Vec<Style>>) = match decoded {
            Ok(decoded) => decoded,
            Err(error) => {
                return Err(error);
            },
        };
        proof {
            lemma_updates_decoded(before.grid.tables, before.grid.columns, cached, delta.rows@, n);
            assert(row_models(rows@).len() == rows@.len());
            assert(style_lists(styles@).len() == styles@.len());
            assert(row_models(self.grid.rows@).len() == self.grid.rows@.len());
            lemma_placed_rows(self.grid.rows@, delta.rows@, rows@, n);
            lemma_placed_styles(self.grid.row_styles@, delta.rows@, styles@, n);
        }
        let old_selection: Option<SelectionRange> = self.selection_range;
        let old_display_offset: usize = self.grid.display_offset;
        let old_history: usize = self.grid.history;
        let old_colors: Vec<Option<ColorBits>> = copy_slice(self.colors.as_slice());
        let changed: bool = delta.rows.len() != 0;
        place(&mut self.grid.rows, delta.rows.as_slice(), rows);
        place(&mut self.grid.row_styles, delta.rows.as_slice(), styles);
        let mut taken: Option<FullFrame> = None;
        core::mem::swap(&mut taken, &mut self.frame);
        if let Some(current) = taken {
            let mut next: FullFrame = current;
            let old_alternate: bool = next.alternate_screen;
            let ghost placed_then = self@;
            proof {
                lemma_rows_updated_len(next@.rows, delta.rows@, n);
            }
            delta.apply_to(&mut next);
            let alternate_changed: bool = old_alternate != next.alternate_screen;
            self.update_frame_metadata(&next);
            self.frame = Some(next);
            let rebuild: bool = !same_selection(&old_selection, &self.selection_range)
                || old_display_offset != self.grid.display_offset || old_history
                != self.grid.history || !same_colors(
                old_colors.as_slice(),
                self.colors.as_slice(),
            ) || alternate_changed;
            if rebuild {
                mark_dirty(&mut self.grid.rows);
            }
            let damage: TerminalDamage = if rebuild || changed {
                TerminalDamage::Partial
            } else {
                TerminalDamage::CursorOnly
            };
            self.pending_frame_damage = self.pending_frame_damage.merge(damage);
            proof {
                assert(row_views(next.rows@).len() == next.rows@.len());
                assert(self@ =~= before.with_delta(delta)->Ok_0);
            }
        }
        Ok(())
    }

    /// Takes over what the session has published.
    pub fn refresh(&mut self)
        requires
            old(self).well_formed(),
        ensures
            final(self).well_formed(),
            final(self)@ == old(self)@.refreshed(),
    {
        proof {
            reveal(RemoteModel::refreshed);
        }
        match self.take_published() {
            Some((pending, updates)) => {
                self.apply_pending(pending);
                self.apply_updates(updates);
            },
            None => {},
        }
    }

    fn take_published(&mut self) -> (r: Option<(Option<FullFrame>, VecDeque<FrameUpdate>)>)
        requires
            old(self).well_formed(),
        ensures
            final(self).well_formed(),
            final(self)@ == old(self)@.taken(),
            match (old(self)@.session, r) {
                (Some(session), Some((pending, updates))) => {
                    &&& pending == session.state.pending_full
                    &&& updates@ == session.state.updates
                    &&& pending matches Some(frame) ==> frame.fits()
                    &&& forall|i: int|
                        0 <= i < updates@.len() ==> (#[trigger] updates@[i]).fits()
                },
                (None, None) => true,
                _ => false,
            },
    {
        let ghost before = self@;
        let mut taken: Option<SessionHandle> = None;
        core::mem::swap(&mut taken, &mut self.session);
        match taken {
            Some(handle) => {
                let mut session: SessionHandle = handle;
                let published: Published = session.take_published();
                self.session = Some(session);
                if published.navigation.is_some() {
                    self.search_navigation = published.navigation;
                }
                if published.matches.is_some() {
                    self.search_matches = published.matches;
                }
                proof {
                    assert(self@ =~= before.taken());
                }
                Some((published.pending, published.updates))
            },
            None => {
                proof {
                    assert(self@ =~= before);
                }
                None
            },
        }
    }

    fn apply_updates(&mut self, updates: VecDeque<FrameUpdate>)
        requires
            old(self).well_formed(),
            forall|i: int| 0 <= i < updates@.len() ==> (#[trigger] updates@[i]).fits(),
        ensures
            final(self).well_formed(),
            final(self)@ == old(self)@.with_updates(updates@),
    {
        let ghost goal = self@.with_updates(updates@);
        let mut queue: VecDeque<FrameUpdate> = updates;
        while queue.len() > 0
            invariant
                self.well_formed(),
                forall|i: int| 0 <= i < queue@.len() ==> (#[trigger] queue@[i]).fits(),
                self@.with_updates(queue@) == goal,
                goal == old(self)@.with_updates(updates@),
            decreases queue@.len(),
        {
            let ghost left = queue@;
            match queue.pop_front() {
                Some(update) => {
                    proof {
                        assert(queue@ =~= left.skip(1));
                        assert(left[0] == update);
                        assert(left[0].fits());
                        assert(forall|i: int|
                            0 <= i < queue@.len() ==> #[trigger] queue@[i] == left[i + 1]);
                    }
                    match self.apply_frame_update(update) {
                        Ok(()) => {
                            let ghost next = self@;
                            self.decode_error = None;
                            self.delta_resync_logged = false;
                            proof {
                                assert(self@ =~= next.recovered());
                            }
                        },
                        Err(error) => {
                            self.start_resync(error);
                            return;
                        },
                    }
                },
                None => {},
            }
        }
    }

    fn apply_pending(&mut self, pending: Option<FullFrame>)
        requires
            old(self).well_formed(),
            pending matches Some(frame) ==> frame.fits(),
        ensures
            final(self).well_formed(),
            final(self)@ == old(self)@.with_pending(pending),
    {
        let ghost before = self@;
        if let Some(frame) = pending {
            let current: u64 = match &self.frame {
                Some(frame) => frame.sequence,
                None => 0,
            };
            if frame.sequence != current {
                match self.apply_frame(frame) {
                    Ok(()) => {
                        let ghost next = self@;
                        self.decode_error = None;
                        self.delta_resync_logged = false;
                        proof {
                            assert(self@ =~= next.recovered());
                        }
                    },
                    Err(error) => {
                        self.decode_error = Some(error.message());
                        let mut taken: Option<SessionHandle> = None;
                        core::mem::swap(&mut taken, &mut self.session);
                        if let Some(handle) = taken {
                            let mut session: SessionHandle = handle;
                            session.record_command_error(&SessionError::Invalid(error.message()));
                            self.session = Some(session);
                        }
                        proof {
                            assert(self@ =~= before.with_pending(pending));
                        }
                    },
                }
            }
        }
    }

    fn start_resync(&mut self, error: FrameError)
        requires
            old(self).well_formed(),
        ensures
            final(self).well_formed(),
            final(self)@ == old(self)@.resyncing(error),
    {
        let ghost before = self@;
        self.decode_error = Some(error.message());
        if !self.delta_resync_logged {
            let mut taken: Option<SessionHandle> = None;
            core::mem::swap(&mut taken, &mut self.session);
            if let Some(handle) = taken {
                let mut session: SessionHandle = handle;
                self.delta_resync_logged = session.enqueue(SessionCommand::Snapshot).is_ok();
                self.session = Some(session);
            }
        }
        proof {
            assert(self@ =~= before.resyncing(error));
        }
    }
}

/// Rows that a delta does not change keep their cells and styles, and what the
/// tables held keeps its number.
pub proof fn law_delta_leaves_other_rows(view: RemoteModel, delta: FrameDelta, line: int)
    requires
        view.with_delta(delta) is Ok,
        0 <= line < view.grid.rows.len(),
        view.grid.row_styles.len() == view.grid.rows.len(),
        forall|i: int| 0 <= i < delta.rows@.len() ==> (#[trigger] delta.rows@[i]).line != line,
    ensures
        view.with_delta(delta)->Ok_0.grid.rows.len() == view.grid.rows.len(),
        view.with_delta(delta)->Ok_0.grid.rows[line].inner == view.grid.rows[line].inner,
        view.with_delta(delta)->Ok_0.grid.row_styles[line] == view.grid.row_styles[line],
        table_extends(view.grid.tables.extras, view.with_delta(delta)->Ok_0.grid.tables.extras),
        table_extends(view.grid.tables.styles, view.with_delta(delta)->Ok_0.grid.tables.styles),
{
    let n = delta.rows@.len() as int;
    let cached = view.grid.rows.len() as int;
    let d = updates_decoded(view.grid.tables, view.grid.columns, cached, delta.rows@, n)->Ok_0;
    lemma_updates_decoded(view.grid.tables, view.grid.columns, cached, delta.rows@, n);
    lemma_placed_elsewhere(view.grid.rows, delta.rows@, d.rows, n, line);
    lemma_placed_elsewhere(view.grid.row_styles, delta.rows@, d.styles, n, line);
    lemma_updates_extend(view.grid.tables, view.grid.columns, cached, delta.rows@, n);
}

proof fn lemma_placed_elsewhere<T>(
    list: Seq<T>,
    updates: Seq<RowUpdate>,
    values: Seq<T>,
    n: int,
    line: int,
)
    requires
        0 <= n <= updates.len(),
        0 <= line < list.len(),
        forall|i: int| 0 <= i < updates.len() ==> (#[trigger] updates[i]).line < list.len(),
        forall|i: int| 0 <= i < updates.len() ==> (#[trigger] updates[i]).line != line,
    ensures
        placed(list, updates, values, n).len() == list.len(),
        placed(list, updates, values, n)[line] == list[line],
    decreases n,
{
    if n > 0 {
        lemma_placed_elsewhere(list, updates, values, n - 1, line);
        assert(updates[n - 1].line != line);
    }
}

proof fn lemma_updates_extend(
    tables: Tables,
    columns: int,
    cached: int,
    updates: Seq<RowUpdate>,
    n: int,
)
    requires
        updates_decoded(tables, columns, cached, updates, n) is Ok,
    ensures
        table_extends(
            tables.extras,
            updates_decoded(tables, columns, cached, updates, n)->Ok_0.tables.extras,
        ),
        table_extends(
            tables.styles,
            updates_decoded(tables, columns, cached, updates, n)->Ok_0.tables.styles,
        ),
    decreases n,
{
    if n > 0 {
        lemma_updates_extend(tables, columns, cached, updates, n - 1);
        let d = updates_decoded(tables, columns, cached, updates, n - 1)->Ok_0;
        lemma_row_extends(tables, d.tables, columns, updates[n - 1].row@);
    } else {
        assert(tables.extras.take(tables.extras.len() as int) =~= tables.extras);
        assert(tables.styles.take(tables.styles.len() as int) =~= tables.styles);
    }
}

proof fn lemma_rows_updated_len(rows: Seq<RowFrameModel>, updates: Seq<RowUpdate>, n: int)
    requires
        0 <= n <= updates.len(),
        forall|i: int| 0 <= i < updates.len() ==> (#[trigger] updates[i]).line < rows.len(),
    ensures
        rows_updated(rows, updates, n).len() == rows.len(),
    decreases n,
{
    if n > 0 {
        lemma_rows_updated_len(rows, updates, n - 1);
    }
}

} // verus!
