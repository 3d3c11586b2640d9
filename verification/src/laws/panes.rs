//! Panes: how they begin, what they are told, and what they report.

use crate::context::interact::{kind_of, match_ranges, scroll_command, Scroll, SelectionType};
use crate::context::lifecycle::{
    is_created, is_titled, new_working_dir, start_errors, titles_due,
};
use crate::context::manager::{ManagerModel, RioEvent, Spawned};
use crate::context::pane::{
    after, at_least_one, fresh_cursor, is_view_of, Context, ContextDimension,
};
use crate::context::passive::{blank_grid, SquareContent};
use crate::context::protocol::{
    FullFrame, SearchMatch, SessionCommand, SessionError,
};
use crate::context::remote::{RemoteModel, RemoteView};
use crate::context::renderable::{Cursor, PendingUpdate};
use crate::context::session::{HandleModel, SessionHandle};
use crate::context::tab::TabModel;
use crate::context::title::is_title;
use crate::laws::frames::describes;
use crate::terminal::{ClipboardType, CursorShape, NamedColor, AnsiColor, TerminalDamage, Wide};
use vstd::prelude::*;

verus! {

/// Each number has the next one behind it; behind the greatest they start over.
pub proof fn law_numbers_follow_each_other(id: usize)
    ensures
        id < usize::MAX ==> after(id) == id + 1,
        id == usize::MAX ==> after(id) == 0,
        at_least_one(id) >= 1,
        id >= 1 ==> at_least_one(id) == id,
{
}

/// A cache without content has the given size, at least one cell, and nothing but
/// blank narrow cells in plain style.
pub proof fn law_blank_grid_is_blank(columns: nat, lines: nat, line: int, column: int)
    requires
        0 <= line < blank_grid(columns, lines).rows.len(),
        0 <= column < blank_grid(columns, lines).columns,
    ensures
        ({
            let grid = blank_grid(columns, lines);
            let row = grid.rows[line];
            let square = row.inner[column];
            let style = grid.row_styles[line][column];
            &&& grid.columns == if columns == 0 { 1 } else { columns as int }
            &&& grid.lines == if lines == 0 { 1 } else { lines as int }
            &&& grid.rows.len() == grid.lines
            &&& grid.row_styles.len() == grid.lines
            &&& row.inner.len() == grid.columns
            &&& row.dirty
            &&& !row.has_extras
            &&& !row.has_styles
            &&& square.content == SquareContent::Char('\0')
            &&& square.wide == Wide::Narrow
            &&& square.flags == 0
            &&& square.extras_id is None
            &&& square.style_id < grid.tables.styles.len()
            &&& grid.tables.styles[square.style_id as int] == style
            &&& grid.row_styles[line].len() == grid.columns
            &&& style.fg == AnsiColor::Named(NamedColor::Foreground)
            &&& style.bg == AnsiColor::Named(NamedColor::Background)
            &&& style.underline_color is None
            &&& style.flags == 0
            &&& grid.cursor.row == 0
            &&& grid.cursor.col == 0
            &&& grid.history == 0
            &&& grid.display_offset == 0
            &&& grid.tables.extras.len() == 0
        }),
{
}

/// A view of a session that has published nothing shows nothing, and belongs to its
/// window.
pub proof fn law_fresh_view_shows_nothing(
    session: Option<HandleModel>,
    window: u64,
    columns: nat,
    lines: nat,
)
    ensures
        ({
            let view = RemoteModel::fresh(session, window, columns, lines);
            &&& view.session == session
            &&& view.window_id == window
            &&& view.grid == blank_grid(columns, lines)
            &&& view.frame is None
            &&& view.title.len() == 0
            &&& view.current_directory is None
            &&& view.selection_range is None
            &&& view.cursor_shape == CursorShape::Block
            &&& view.default_cursor_shape == CursorShape::Block
            &&& !view.blinking_cursor
            &&& view.mode_bits == 0
            &&& !view.graphics_dirty
            &&& view.damage == TerminalDamage::Noop
            &&& !view.search_active
            &&& view.search_matches is None
            &&& view.search_navigation is None
            &&& view.decode_error is None
            &&& !view.delta_resync_logged
            &&& view.vi_cursor.row == 0
            &&& view.vi_cursor.col == 0
            &&& forall|i: int| 0 <= i < view.colors.len() ==> #[trigger] view.colors[i] is None
        }),
{
}

/// What a new pane has whatever it is made for: its numbers and size, an untouched
/// surface, and the title of the home directory.
pub open spec fn begins(
    pane: &Context,
    window: u64,
    route: usize,
    text: usize,
    dimension: ContextDimension,
) -> bool {
    &&& pane.window_id == window
    &&& pane.route_id == route
    &&& pane.rich_text_id == text
    &&& pane.dimension == dimension
    &&& pane.pending_session is None
    &&& pane.title.content@ == "~"@
    &&& pane.title.extra is None
    &&& pane.layout_rect.x == 0
    &&& pane.layout_rect.y == 0
    &&& pane.layout_rect.width == 0
    &&& pane.layout_rect.height == 0
    &&& pane.renderable_content.selection_range is None
    &&& pane.renderable_content.session_error is None
    &&& !pane.renderable_content.pending_update.dirty
    &&& pane.renderable_content.pending_update.terminal_damage is None
    &&& pane.renderable_content.frame_damage == TerminalDamage::Noop
    &&& pane.renderable_content.highlighted_hint is None
    &&& pane.renderable_content.background is None
    &&& pane.renderable_content.display_offset == 0
}

/// A pane for a session that was started has the session, which is told the shape of
/// the cursor, and a blank screen of the pane's size.
pub proof fn law_pane_begins_with_its_session(
    pane: &Context,
    session: SessionHandle,
    window: u64,
    route: usize,
    text: usize,
    dimension: ContextDimension,
    cursor: Cursor,
    blinking: bool,
)
    requires
        is_created(
            pane,
            Spawned::Session(session),
            window,
            route,
            text,
            dimension,
            cursor,
            blinking,
        ),
    ensures
        begins(pane, window, route, text, dimension),
        pane.renderable_content.cursor == cursor,
        pane.terminal@.window_id == window,
        pane.terminal@.grid == blank_grid(dimension.columns as nat, dimension.lines as nat),
        pane.terminal@.frame is None,
        pane.terminal@.session is Some,
        pane.terminal@.session == Some(
            session@.issued(
                SessionCommand::SetCursorStyle {
                    shape: match cursor.shape {
                        CursorShape::Block => 0,
                        CursorShape::Underline => 1,
                        CursorShape::Beam => 2,
                        CursorShape::Hidden => 3,
                    },
                    blinking,
                },
            ),
        ),
{
}

/// A pane without a session is as blank, with a block for a cursor and at least one
/// cell.
pub proof fn law_pane_begins_without_a_session(
    pane: &Context,
    spawned: Spawned,
    window: u64,
    route: usize,
    text: usize,
    dimension: ContextDimension,
    cursor: Cursor,
    blinking: bool,
)
    requires
        !(spawned is Session),
        is_created(pane, spawned, window, route, text, dimension, cursor, blinking),
    ensures
        begins(pane, window, route, text, dimension),
        pane.renderable_content.cursor.shape == CursorShape::Block,
        pane.renderable_content.cursor.content == '▇',
        pane.renderable_content.cursor.content_ref == '▇',
        !pane.renderable_content.cursor.is_ime_enabled,
        pane.renderable_content.cursor.pos.row == 0,
        pane.renderable_content.cursor.pos.col == 0,
        pane.terminal@.window_id == window,
        pane.terminal@.session is None,
        pane.terminal@.frame is None,
        pane.terminal@.grid == blank_grid(dimension.columns as nat, dimension.lines as nat),
{
}

/// A view of a frame shows that frame, or why it cannot.
pub proof fn law_view_of_a_frame_shows_it(view: &RemoteView, frame: &FullFrame, window: u64)
    requires
        is_view_of(view, frame, window),
        frame.display_offset <= i32::MAX,
        frame.history_size <= i32::MAX,
    ensures
        view@.window_id == window,
        view@.session is None,
        view@.decode_error is None ==> view@.frame == Some(frame@) && describes(view@, frame@)
            && view@.grid.columns == frame.columns && view@.grid.lines == frame.lines,
        view@.decode_error is Some ==> view@.frame is None && view@.grid == blank_grid(
            frame.columns as nat,
            frame.lines as nat,
        ),
{
    let fresh = RemoteModel::fresh(None, window, frame.columns as nat, frame.lines as nat);
    crate::laws::frames::law_full_frame_is_shown_whole(fresh, frame@);
}

/// A new pane takes over the shape of the cursor that was configured, at the start of
/// the screen, drawn with the configured character.
pub proof fn law_new_cursor_has_the_configured_shape(cursor: Cursor)
    ensures
        fresh_cursor(cursor).shape == cursor.shape,
        fresh_cursor(cursor).content == cursor.content_ref,
        fresh_cursor(cursor).content_ref == cursor.content_ref,
        fresh_cursor(cursor).pos.row == 0,
        fresh_cursor(cursor).pos.col == 0,
        !fresh_cursor(cursor).is_ime_enabled,
{
}

/// A new pane starts in the directory of the focused one where that is wanted and
/// known, and else in the configured one.
pub proof fn law_new_pane_starts_where_the_focused_one_is(manager: ManagerModel)
    ensures
        ({
            let tab = manager.tabs[manager.current_index];
            let here = tab.panes[tab.current].terminal.current_directory;
            &&& manager.config.cwd && here is Some ==> new_working_dir(manager) == here
            &&& !manager.config.cwd || here is None ==> new_working_dir(manager)
                == manager.config.working_dir
        }),
{
}

/// A session that failed to start is reported in its own words, except where the
/// window still waits for the one that it is to take over; nothing else is reported.
pub proof fn law_failed_start_is_reported(reason: String, session: SessionHandle, id: u128)
    ensures
        start_errors(Spawned::Failed(reason), None).len() == 1,
        start_errors(Spawned::Failed(reason), None)[0] == RioEvent::InitializationError(reason),
        start_errors(Spawned::Failed(reason), Some(id)).len() == 0,
        start_errors(Spawned::Session(session), None).len() == 0,
        start_errors(Spawned::Dead, None).len() == 0,
{
}

/// Titles are renewed at first, and then when they are more than two seconds old.
pub proof fn law_titles_are_kept_for_a_while(last: u64, now: u64)
    ensures
        titles_due(None, now),
        titles_due(Some(last), now) <==> now > last + 2000,
{
}

/// New titles change the title of the focused pane alone: it is what the template
/// makes of that pane.
pub proof fn law_titles_are_renewed_for_the_focused_pane(
    now: TabModel,
    before: TabModel,
    template: Seq<char>,
)
    requires
        is_titled(now, before, template),
        0 <= before.current < before.panes.len(),
    ensures
        now.id == before.id,
        now.current == before.current,
        now.custom_title == before.custom_title,
        now.custom_color == before.custom_color,
        now.panes.len() == before.panes.len(),
        forall|p: int|
            0 <= p < now.panes.len() && p != before.current ==> #[trigger] now.panes[p]
                == before.panes[p],
        ({
            let pane = now.panes[before.current];
            let was = before.panes[before.current];
            &&& pane == (Context { title: pane.title, ..was })
            &&& exists|home: Option<Seq<char>>|
                #[trigger] is_title(pane.title.content@, template, was.title_source(), home)
        }),
{
}

/// A pane whose session was taken over has that session, which is told the pane's
/// size; where that failed, the pane goes on as it was. Either way it waits no more.
pub proof fn law_settled_pane_has_its_session(
    now: &Context,
    before: &Context,
    committed: Result<SessionHandle, SessionError>,
)
    requires
        now.has_settled(before, committed),
    ensures
        now.pending_session is None,
        now.route_id == before.route_id,
        now.window_id == before.window_id,
        now.rich_text_id == before.rich_text_id,
        now.dimension == before.dimension,
        now.title == before.title,
        before.pending_session is Some ==> (committed matches Ok(session) ==> now.terminal@.session
            == Some(
            session@.issued(
                SessionCommand::Resize {
                    columns: before.dimension.size.cols,
                    lines: before.dimension.size.rows,
                    pixel_width: before.dimension.size.width,
                    pixel_height: before.dimension.size.height,
                },
            ),
        ) && now.terminal@.grid == before.terminal@.grid && now.terminal@.frame
            == before.terminal@.frame),
        before.pending_session is None || committed is Err ==> now.terminal == before.terminal,
{
}

/// A pane without its session shows what it showed.
pub proof fn law_disarmed_pane_keeps_what_it_shows(pane: Context)
    ensures
        pane.disarmed().terminal@.session is None,
        pane.disarmed().terminal@.grid == pane.terminal@.grid,
        pane.disarmed().terminal@.title == pane.terminal@.title,
        pane.disarmed().route_id == pane.route_id,
        pane.disarmed().window_id == pane.window_id,
        pane.disarmed().title == pane.title,
        pane.disarmed().dimension == pane.dimension,
        pane.disarmed().rich_text_id == pane.rich_text_id,
        pane.disarmed().pending_session == pane.pending_session,
        pane.disarmed().renderable_content == pane.renderable_content,
{
}

/// Damage waits until it is drawn, and adds up.
pub proof fn law_damage_waits_and_adds_up(before: PendingUpdate, damage: TerminalDamage)
    ensures
        before.with_damage(damage).dirty,
        before.with_damage(damage).terminal_damage is Some,
        before.terminal_damage is None ==> before.with_damage(damage).terminal_damage == Some(
            damage,
        ),
        before.terminal_damage matches Some(was) ==> before.with_damage(damage).terminal_damage
            == Some(was.merged(damage)),
        before.with_damage(TerminalDamage::Full).terminal_damage == Some(TerminalDamage::Full),
{
}

/// Scrolling goes up for positive numbers: by lines, by a page of the screen, or all
/// the way.
pub proof fn law_scrolling_goes_by_lines_or_pages(delta: i32, lines: int)
    requires
        0 <= lines <= i32::MAX,
    ensures
        scroll_command(Scroll::Delta(delta), lines) == (SessionCommand::Scroll {
            delta_lines: delta,
        }),
        scroll_command(Scroll::PageUp, lines) matches SessionCommand::Scroll { delta_lines }
            && delta_lines == lines,
        scroll_command(Scroll::PageDown, lines) matches SessionCommand::Scroll { delta_lines }
            && delta_lines == -lines,
        scroll_command(Scroll::Top, lines) is ScrollTop,
        scroll_command(Scroll::Bottom, lines) is ScrollBottom,
{
}

/// Each kind of selection has its own name at the worker: by cells, by block, by word
/// or by line.
pub proof fn law_selection_kinds_keep_apart(kind: SelectionType)
    ensures
        kind_of(kind) is Simple <==> kind is Simple,
        kind_of(kind) is Block <==> kind is Block,
        kind_of(kind) is Word <==> kind is Semantic,
        kind_of(kind) is Line <==> kind is Lines,
{
}

/// Each match of a search is shown from its start to its end, in its place among the
/// others; lines are counted from the top of the screen, those above it below zero.
pub proof fn law_matches_are_shown_where_they_were_found(
    found: Seq<SearchMatch>,
    history: int,
    i: int,
)
    requires
        0 <= i < found.len(),
        0 <= history <= i32::MAX,
        found[i].fits(),
    ensures
        match_ranges(found, history).len() == found.len(),
        ({
            let (start, end) = match_ranges(found, history)[i];
            &&& start.row == found[i].start_line - history
            &&& start.col == found[i].start_column
            &&& end.row == found[i].end_line - history
            &&& end.col == found[i].end_column
        }),
{
}

/// Commands of a view go to its session, and change nothing that is shown; the error
/// that is shown is the view's own before the session's.
pub proof fn law_view_talks_to_its_session(
    view: RemoteModel,
    command: SessionCommand,
    target: ClipboardType,
    copy: bool,
)
    ensures
        view.session is None ==> view.issuing(command) == view && view.asking_selection(target, copy)
            == view,
        view.session matches Some(session) ==> view.issuing(command).session == Some(
            session.issued(command),
        ) && view.asking_selection(target, copy).session == Some(session.asked(target, copy)),
        view.issuing(command) == (RemoteModel { session: view.issuing(command).session, ..view }),
        view.asking_selection(target, copy) == (RemoteModel {
            session: view.asking_selection(target, copy).session,
            ..view
        }),
        view.without_matches().search_matches is None,
        view.without_matches() == (RemoteModel { search_matches: None, ..view }),
        view.decode_error is Some ==> view.shown_error() == view.decode_error,
        view.decode_error is None ==> view.shown_error() == match view.session {
            Some(session) => session.state.status.error,
            None => None,
        },
{
}

} // verus!
