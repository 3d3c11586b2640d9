//! What a frame shows.

use crate::context::manager::{ContextManager, ManagerModel};
use crate::context::pane::{Context, LayoutRect};
use crate::context::remote::RemoteModel;
use crate::context::renderable::{
    BackgroundState, Cursor, PendingUpdate, RenderableContent, WindowColor,
};
use crate::context::row::{row_get, row_get_mut, row_len, tab_models, tabs_in};
use crate::context::session::message_view;
use crate::context::tab::{ContextGrid, TabModel};
use crate::renderer::assistant::AssistantOverlay;
use crate::renderer::palette::Palette;
use crate::terminal::{doubles_equal, equal_doubles, TerminalDamage};
use vstd::prelude::*;

verus! {

/// How long the cursor stays visible behind a typed key, in milliseconds.
pub const TYPING_PAUSE: u64 = 1000;

/// The limits of the blinking interval, in milliseconds.
pub const MIN_BLINKING_INTERVAL: u64 = 350;

pub const MAX_BLINKING_INTERVAL: u64 = 1200;

/// What covers a window while windows are merged.
#[derive(Clone, Copy, Debug, PartialEq, Eq, Structural)]
pub enum WindowOverlay {
    MergeSource,
    MergeTarget,
}

fn same_overlay(a: &Option<WindowOverlay>, b: &Option<WindowOverlay>) -> (r: bool)
    ensures
        r == (a == b),
{
    match (a, b) {
        (Some(x), Some(y)) => *x == *y,
        (None, None) => true,
        _ => false,
    }
}

/// A window shows a colour already, by its components as numbers.
pub open spec fn shows_color(shown: Option<WindowColor>, color: WindowColor) -> bool {
    match shown {
        Some(x) => equal_doubles(x.r, color.r) && equal_doubles(x.g, color.g) && equal_doubles(
            x.b,
            color.b,
        ) && equal_doubles(x.a, color.a),
        None => false,
    }
}

fn same_color(shown: &Option<WindowColor>, color: &WindowColor) -> (r: bool)
    ensures
        r == shows_color(*shown, *color),
{
    match shown {
        Some(x) => doubles_equal(x.r, color.r) && doubles_equal(x.g, color.g) && doubles_equal(
            x.b,
            color.b,
        ) && doubles_equal(x.a, color.a),
        None => false,
    }
}

/// What a renderer is configured with.
pub struct RendererConfig {
    pub palette: Palette,
    pub background: WindowColor,
    /// What shows through the window's background, by the bits of the number.
    pub background_alpha: u64,
    pub is_translucent: bool,
    pub has_background_image: bool,
    pub is_game_mode: bool,
    pub has_blinking_enabled: bool,
    pub blinking_interval: u64,
    pub dims_unfocused_splits: bool,
    pub has_scrollbar: bool,
    pub use_drawable_chars: bool,
    pub ignore_selection_fg_color: bool,
    pub opacity_cells: bool,
    pub cell_bg_alpha: u8,
    pub trail_cursor_enabled: bool,
}

/// The state of a renderer between frames.
pub struct Renderer {
    pub palette: Palette,
    pub is_vi_mode_enabled: bool,
    pub is_game_mode_enabled: bool,
    pub is_window_focused: bool,
    /// The pane that had the focus in the last frame.
    pub last_active: Option<usize>,
    pub last_window_bg: Option<WindowColor>,
    pub dynamic_background: WindowColor,
    pub has_dynamic_background: bool,
    pub window_bg_alpha: u64,
    pub config_has_blinking_enabled: bool,
    pub config_blinking_interval: u64,
    pub dims_unfocused_splits: bool,
    pub has_scrollbar: bool,
    pub use_drawable_chars: bool,
    pub ignore_selection_fg_color: bool,
    pub opacity_cells: bool,
    pub cell_bg_alpha: u8,
    pub trail_cursor_enabled: bool,
    pub window_overlay: Option<WindowOverlay>,
    pub assistant: AssistantOverlay,
}

/// The overlays that take a click before the terminal does.
#[derive(Clone, Copy, Debug, PartialEq, Eq, Structural)]
pub struct OverlayState {
    pub command_palette: bool,
    pub search: bool,
    pub confirm_quit: bool,
}

/// What moves on its own.
#[derive(Clone, Copy, Debug, PartialEq, Eq, Structural)]
pub struct Animations {
    pub trail_cursor: bool,
    pub scrollbar: bool,
    pub island: bool,
}

/// The scrollbar of a pane.
#[derive(Clone, Copy, Debug, PartialEq, Eq, Structural)]
pub struct PanelScrollState {
    pub rich_text_id: usize,
    pub panel_rect: LayoutRect,
    pub display_offset: usize,
    pub history_size: usize,
    pub screen_lines: usize,
}

/// What a frame shows besides the terminals.
pub struct FramePlan {
    /// The window has to take this colour.
    pub window_update: Option<WindowColor>,
    /// Something changed in a pane.
    pub any_panel_dirty: bool,
    /// The panes of the focused tab that are dimmed.
    pub dimmed: Vec<usize>,
    pub scrollbars: Vec<PanelScrollState>,
    /// The target of the hint under the pointer.
    pub tooltip: Option<String>,
    pub overlay: Option<WindowOverlay>,
}

/// A pane has something to show, or has to.
pub open spec fn is_due(pane: Context, force: bool) -> bool {
    force || pane.renderable_content.pending_update.dirty
}

/// The damage of a frame.
pub open spec fn frame_damage(before: Context, force: bool) -> TerminalDamage {
    if force {
        TerminalDamage::Full
    } else {
        let taken = before.renderable_content.frame_damage.merged(
            before.terminal@.refreshed().damage,
        );
        match before.renderable_content.pending_update.terminal_damage {
            Some(damage) => taken.merged(damage),
            None => taken,
        }
    }
}

/// A pane with what its session has published taken over for drawing.
pub open spec fn is_refreshed(after: Context, before: Context, force: bool) -> bool {
    let shown = before.terminal@.refreshed();
    let content = after.renderable_content;
    let old_content = before.renderable_content;
    &&& after.well_formed()
    &&& after.terminal@ == (RemoteModel { damage: TerminalDamage::Noop, ..shown })
    &&& content.term_colors@ == shown.colors
    &&& content.display_offset == shown.grid.display_offset
    &&& content.columns == shown.grid.columns
    &&& content.screen_lines == shown.grid.lines
    &&& content.history_size == shown.grid.history
    &&& content.blinking_cursor == shown.blinking_cursor
    &&& content.has_blinking_enabled == shown.blinking_cursor
    &&& content.cursor == (Cursor {
        pos: shown.grid.cursor,
        shape: shown.cursor_shape,
        ..old_content.cursor
    })
    &&& content.selection_range == shown.selection_range
    &&& message_view(content.session_error) == shown.shown_error()
    &&& content.frame_damage == frame_damage(before, force)
    &&& content.pending_update == (PendingUpdate { dirty: false, terminal_damage: None })
    &&& content.background == old_content.background
    &&& content.highlighted_hint == old_content.highlighted_hint
    &&& content.last_typing == old_content.last_typing
    &&& content.is_blinking_cursor_visible == old_content.is_blinking_cursor_visible
    &&& content.last_blink_toggle == old_content.last_blink_toggle
    &&& after.route_id == before.route_id
    &&& after.window_id == before.window_id
    &&& after.pending_session == before.pending_session
    &&& after.rich_text_id == before.rich_text_id
    &&& after.dimension == before.dimension
    &&& after.layout_rect == before.layout_rect
    &&& after.title == before.title
}

/// Takes over what a pane has to show. The result says whether there was
/// anything.
#[verifier::rlimit(50)]
pub fn refresh_context(context: &mut Context, force_full_damage: bool) -> (r: bool)
    requires
        old(context).well_formed(),
    ensures
        final(context).well_formed(),
        r == is_due(*old(context), force_full_damage),
        !r ==> *final(context) == *old(context),
        r ==> is_refreshed(*final(context), *old(context), force_full_damage),
{
    let is_dirty: bool = context.renderable_content.pending_update.is_dirty();
    if !is_dirty && !force_full_damage {
        return false;
    }
    let ghost before = *context;
    let ui_damage: Option<TerminalDamage> =
        context.renderable_content.pending_update.take_terminal_damage();
    context.renderable_content.pending_update.reset();
    let mut content: RenderableContent = RenderableContent::new(Cursor::default());
    core::mem::swap(&mut content, &mut context.renderable_content);
    context.terminal.refresh_renderable(&mut content);
    let damage: TerminalDamage = content.frame_damage;
    content.frame_damage = if force_full_damage {
        TerminalDamage::Full
    } else {
        match ui_damage {
            Some(more) => damage.merge(more),
            None => damage,
        }
    };
    content.has_blinking_enabled = content.blinking_cursor;
    context.renderable_content = content;
    true
}

/// The cursor blinks: the window has the focus, and no key was typed just now.
pub open spec fn is_blinking(content: RenderableContent, focused: bool, now: u64) -> bool {
    focused && match content.last_typing {
        Some(typed) => now >= typed && now - typed >= TYPING_PAUSE,
        None => true,
    }
}

/// How much time has passed.
pub open spec fn passed(last: u64, now: u64) -> int {
    if now >= last {
        now - last
    } else {
        0
    }
}

/// A blinking cursor moved on in time: visible at first and then by turns, and
/// always visible while there is a selection or a key was typed just now.
pub open spec fn blinked(
    content: RenderableContent,
    focused: bool,
    interval: u64,
    now: u64,
) -> RenderableContent {
    if !content.blinking_cursor {
        content
    } else if content.selection_range is None && is_blinking(content, focused, now) {
        match content.last_blink_toggle {
            None => RenderableContent {
                is_blinking_cursor_visible: true,
                last_blink_toggle: Some(now),
                ..content
            },
            Some(last) => if passed(last, now) >= interval {
                RenderableContent {
                    is_blinking_cursor_visible: !content.is_blinking_cursor_visible,
                    last_blink_toggle: Some(now),
                    ..content
                }
            } else {
                content
            },
        }
    } else {
        RenderableContent {
            is_blinking_cursor_visible: true,
            last_blink_toggle: None,
            ..content
        }
    }
}

/// Moves a blinking cursor on in time.
pub fn advance_blink(content: &mut RenderableContent, focused: bool, interval: u64, now: u64)
    ensures
        *final(content) == blinked(*old(content), focused, interval, now),
{
    if !content.blinking_cursor {
        return;
    }
    let typed_just_now: bool = match content.last_typing {
        Some(typed) => now < typed || now - typed < TYPING_PAUSE,
        None => false,
    };
    if content.selection_range.is_some() || !focused || typed_just_now {
        content.is_blinking_cursor_visible = true;
        content.last_blink_toggle = None;
        return;
    }
    match content.last_blink_toggle {
        None => {
            content.is_blinking_cursor_visible = true;
            content.last_blink_toggle = Some(now);
        },
        Some(last) => {
            if now.saturating_sub(last) >= interval {
                content.is_blinking_cursor_visible = !content.is_blinking_cursor_visible;
                content.last_blink_toggle = Some(now);
            }
        },
    }
}

/// Typing keeps the cursor visible, and so does a selection.
pub proof fn law_typing_keeps_the_cursor_visible(
    content: RenderableContent,
    focused: bool,
    interval: u64,
    now: u64,
)
    requires
        content.blinking_cursor,
        content.selection_range is Some || (content.last_typing matches Some(typed) && typed <= now
            && now - typed < TYPING_PAUSE),
    ensures
        blinked(content, focused, interval, now).is_blinking_cursor_visible,
        blinked(content, focused, interval, now).last_blink_toggle is None,
{
}

/// A pane drawn.
pub open spec fn is_drawn(
    after: Context,
    before: Context,
    force: bool,
    shown: bool,
    focused: bool,
    interval: u64,
    now: u64,
) -> bool {
    if is_due(before, force) {
        exists|mid: Context|
            #[trigger] is_refreshed(mid, before, force) && after == if shown {
                Context {
                    renderable_content: blinked(mid.renderable_content, focused, interval, now),
                    ..mid
                }
            } else {
                mid
            }
    } else {
        after == before
    }
}

/// A tab drawn.
pub open spec fn tab_drawn(
    after: TabModel,
    before: TabModel,
    force: bool,
    shown: bool,
    focused: bool,
    interval: u64,
    now: u64,
) -> bool {
    &&& after == (TabModel { panes: after.panes, ..before })
    &&& after.panes.len() == before.panes.len()
    &&& forall|p: int|
        0 <= p < after.panes.len() ==> is_drawn(
            #[trigger] after.panes[p],
            before.panes[p],
            force,
            shown,
            focused,
            interval,
            now,
        )
}

/// One of the first `n` panes of a tab is due.
pub open spec fn any_due(tab: TabModel, force: bool, n: int) -> bool {
    exists|p: int| 0 <= p < n && #[trigger] is_due(tab.panes[p], force)
}

/// A tab takes part in a frame: the focused one, and all that do not hold the
/// focused pane as well.
pub open spec fn takes_part(manager: ManagerModel, t: int) -> bool {
    t == manager.current_index || !manager.tabs[t].has_route(manager.current_route())
}

/// A pane of the tab is due, and the tab takes part.
pub open spec fn tab_due(manager: ManagerModel, t: int, force: bool) -> bool {
    takes_part(manager, t) && any_due(manager.tabs[t], force, manager.tabs[t].panes.len() as int)
}

/// A pane of one of the first `n` tabs is due.
pub open spec fn any_tab_due(manager: ManagerModel, force: bool, n: int) -> bool {
    exists|t: int| 0 <= t < n && #[trigger] tab_due(manager, t, force)
}

/// The window's colour: the focused terminal's, or the configured one, always
/// with the configured transparency.
pub open spec fn window_color(
    background: Option<BackgroundState>,
    configured: WindowColor,
    alpha: u64,
) -> WindowColor {
    match background {
        Some(BackgroundState::Custom(color)) => WindowColor { a: alpha, ..color },
        _ => WindowColor { a: alpha, ..configured },
    }
}

/// The numbers of the panes of a tab but the focused one.
pub open spec fn unfocused_routes(tab: TabModel, n: int) -> Seq<usize>
    decreases n,
{
    if n <= 0 {
        Seq::empty()
    } else if n - 1 != tab.current {
        unfocused_routes(tab, n - 1).push(tab.panes[n - 1].route_id)
    } else {
        unfocused_routes(tab, n - 1)
    }
}

/// The scrollbar of a pane.
pub open spec fn scroll_state(pane: Context) -> PanelScrollState {
    PanelScrollState {
        rich_text_id: pane.rich_text_id,
        panel_rect: pane.layout_rect,
        display_offset: pane.renderable_content.display_offset,
        history_size: pane.renderable_content.history_size,
        screen_lines: pane.renderable_content.screen_lines,
    }
}

/// The scrollbars of a tab.
pub open spec fn scroll_states(tab: TabModel) -> Seq<PanelScrollState> {
    tab.panes.map_values(|c: Context| scroll_state(c))
}

/// The configured interval, within its limits.
pub open spec fn clamped_interval(interval: u64) -> u64 {
    if interval < MIN_BLINKING_INTERVAL {
        MIN_BLINKING_INTERVAL
    } else if interval > MAX_BLINKING_INTERVAL {
        MAX_BLINKING_INTERVAL
    } else {
        interval
    }
}

fn draw_tab(
    grid: &mut ContextGrid,
    force: bool,
    shown: bool,
    focused: bool,
    interval: u64,
    now: u64,
) -> (r: bool)
    requires
        old(grid)@.well_formed(),
    ensures
        final(grid)@.well_formed(),
        tab_drawn(final(grid)@, old(grid)@, force, shown, focused, interval, now),
        r == any_due(old(grid)@, force, old(grid)@.panes.len() as int),
{
    let ghost before = grid@;
    let mut dirty: bool = false;
    let mut i: usize = 0;
    while i < grid.panes.len()
        invariant
            i <= grid.panes@.len(),
            grid.panes@.len() == before.panes.len(),
            before.well_formed(),
            grid@ == (TabModel { panes: grid.panes@, ..before }),
            dirty == any_due(before, force, i as int),
            forall|k: int|
                0 <= k < i ==> is_drawn(
                    #[trigger] grid.panes@[k],
                    before.panes[k],
                    force,
                    shown,
                    focused,
                    interval,
                    now,
                ) && grid.panes@[k].well_formed(),
            forall|k: int|
                i <= k < grid.panes@.len() ==> #[trigger] grid.panes@[k] == before.panes[k],
        decreases grid.panes@.len() - i,
    {
        proof {
            assert(grid.panes@[i as int] == before.panes[i as int]);
            assert(before.panes[i as int].well_formed());
        }
        let pane: &mut Context = &mut grid.panes[i];
        let due: bool = refresh_context(pane, force);
        let ghost mid = *pane;
        if due {
            proof {
                assert(is_refreshed(mid, before.panes[i as int], force));
                assert(is_due(before.panes[i as int], force));
            }
            dirty = true;
            if shown {
                advance_blink(&mut pane.renderable_content, focused, interval, now);
            }
        }
        proof {
            assert(is_drawn(
                *pane,
                before.panes[i as int],
                force,
                shown,
                focused,
                interval,
                now,
            ));
            if any_due(before, force, i + 1) && !any_due(before, force, i as int) {
                let p = choose|p: int| 0 <= p < i + 1 && #[trigger] is_due(before.panes[p], force);
                assert(p == i);
            }
        }
        i += 1;
    }
    dirty
}

impl Renderer {
    pub fn new(config: RendererConfig) -> (r: Self)
        ensures
            r.palette == config.palette,
            !r.is_vi_mode_enabled,
            r.is_game_mode_enabled == config.is_game_mode,
            r.is_window_focused,
            r.last_active is None,
            r.last_window_bg is None,
            r.dynamic_background == if config.is_translucent {
                WindowColor { a: config.background_alpha, ..config.background }
            } else if config.has_background_image {
                WindowColor { r: 0, g: 0, b: 0, a: 0 }
            } else {
                config.background
            },
            r.has_dynamic_background == (config.is_translucent || config.has_background_image),
            r.window_bg_alpha == config.background_alpha,
            r.config_has_blinking_enabled == config.has_blinking_enabled,
            r.config_blinking_interval == clamped_interval(config.blinking_interval),
            r.dims_unfocused_splits == config.dims_unfocused_splits,
            r.has_scrollbar == config.has_scrollbar,
            r.use_drawable_chars == config.use_drawable_chars,
            r.ignore_selection_fg_color == config.ignore_selection_fg_color,
            r.opacity_cells == config.opacity_cells,
            r.cell_bg_alpha == config.cell_bg_alpha,
            r.trail_cursor_enabled == config.trail_cursor_enabled,
            r.window_overlay is None,
            r.assistant.error is None,
    {
        let mut dynamic_background: WindowColor = config.background;
        let mut has_dynamic_background: bool = false;
        if config.is_translucent {
            dynamic_background.a = config.background_alpha;
            has_dynamic_background = true;
        } else if config.has_background_image {
            dynamic_background = WindowColor { r: 0, g: 0, b: 0, a: 0 };
            has_dynamic_background = true;
        }
        let config_blinking_interval: u64 = if config.blinking_interval < MIN_BLINKING_INTERVAL {
            MIN_BLINKING_INTERVAL
        } else if config.blinking_interval > MAX_BLINKING_INTERVAL {
            MAX_BLINKING_INTERVAL
        } else {
            config.blinking_interval
        };
        Renderer {
            palette: config.palette,
            is_vi_mode_enabled: false,
            is_game_mode_enabled: config.is_game_mode,
            is_window_focused: true,
            last_active: None,
            last_window_bg: None,
            dynamic_background,
            has_dynamic_background,
            window_bg_alpha: config.background_alpha,
            config_has_blinking_enabled: config.has_blinking_enabled,
            config_blinking_interval,
            dims_unfocused_splits: config.dims_unfocused_splits,
            has_scrollbar: config.has_scrollbar,
            use_drawable_chars: config.use_drawable_chars,
            ignore_selection_fg_color: config.ignore_selection_fg_color,
            opacity_cells: config.opacity_cells,
            cell_bg_alpha: config.cell_bg_alpha,
            trail_cursor_enabled: config.trail_cursor_enabled,
            window_overlay: None,
            assistant: AssistantOverlay::default(),
        }
    }

    pub fn use_drawable_chars(&self) -> (r: bool)
        ensures
            r == self.use_drawable_chars,
    {
        self.use_drawable_chars
    }

    pub fn set_vi_mode(&mut self, is_vi_mode_enabled: bool)
        ensures
            *final(self) == (Renderer { is_vi_mode_enabled, ..*old(self) }),
    {
        self.is_vi_mode_enabled = is_vi_mode_enabled;
    }

    /// Covers the window, or uncovers it. The result says whether that changes
    /// anything.
    pub fn set_window_overlay(&mut self, overlay: Option<WindowOverlay>) -> (r: bool)
        ensures
            r == (old(self).window_overlay != overlay),
            *final(self) == (Renderer { window_overlay: overlay, ..*old(self) }),
    {
        if same_overlay(&self.window_overlay, &overlay) {
            return false;
        }
        self.window_overlay = overlay;
        true
    }

    /// Whether a click would reach the hint under the pointer: no overlay is
    /// there to take it.
    pub fn hint_click_would_land(&self, overlays: OverlayState) -> (r: bool)
        ensures
            r == (self.assistant.error is None && !overlays.command_palette && !overlays.search
                && !overlays.confirm_quit),
    {
        !self.assistant.is_active() && !overlays.command_palette && !overlays.search
            && !overlays.confirm_quit
    }

    /// Whether the next frame is due without anything having changed.
    pub fn needs_redraw(&self, animations: Animations) -> (r: bool)
        ensures
            r == ((self.trail_cursor_enabled && animations.trail_cursor) || animations.scrollbar
                || animations.island),
    {
        if self.trail_cursor_enabled && animations.trail_cursor {
            return true;
        }
        if animations.scrollbar {
            return true;
        }
        animations.island
    }

    /// The frame has to be drawn in full.
    pub open spec fn draws_all(&self, route: usize) -> bool {
        self.last_active != Some(route) || self.is_game_mode_enabled
    }

    /// Takes over what all panes have to show, and decides what the frame shows
    /// besides.
    #[verifier::rlimit(40)]
    pub fn run(&mut self, manager: &mut ContextManager, overlays: OverlayState, now: u64) -> (r:
        FramePlan)
        requires
            old(manager)@.well_formed(),
            old(manager)@.tabs.len() > 0,
        ensures
            final(manager)@.well_formed(),
            ({
                let before = old(manager)@;
                let behind = final(manager)@;
                let force = old(self).draws_all(before.current_route());
                let tab = behind.current_tab();
                let color = window_color(
                    tab.current_pane().renderable_content.background,
                    old(self).dynamic_background,
                    old(self).window_bg_alpha,
                );
                &&& behind == (ManagerModel { tabs: behind.tabs, ..before })
                &&& behind.tabs.len() == before.tabs.len()
                &&& forall|t: int|
                    0 <= t < before.tabs.len() ==> if takes_part(before, t) {
                        tab_drawn(
                            #[trigger] behind.tabs[t],
                            before.tabs[t],
                            force,
                            t == before.current_index,
                            old(self).is_window_focused,
                            old(self).config_blinking_interval,
                            now,
                        )
                    } else {
                        behind.tabs[t] == before.tabs[t]
                    }
                &&& r.any_panel_dirty == any_tab_due(before, force, before.tabs.len() as int)
                &&& r.window_update == if shows_color(old(self).last_window_bg, color) {
                    None
                } else {
                    Some(color)
                }
                &&& r.dimmed@ == if old(self).dims_unfocused_splits {
                    unfocused_routes(tab, tab.panes.len() as int)
                } else {
                    Seq::empty()
                }
                &&& r.scrollbars@ == if old(self).has_scrollbar {
                    scroll_states(tab)
                } else {
                    Seq::empty()
                }
                &&& r.tooltip == if old(self).assistant.error is None && !overlays.command_palette
                    && !overlays.search && !overlays.confirm_quit {
                    tab.current_pane().renderable_content.highlighted_hint
                } else {
                    None
                }
                &&& r.overlay == old(self).window_overlay
                &&& *final(self) == (Renderer {
                    last_active: Some(before.current_route()),
                    last_window_bg: if shows_color(old(self).last_window_bg, color) {
                        old(self).last_window_bg
                    } else {
                        Some(color)
                    },
                    ..*old(self)
                })
            }),
    {
        let ghost before = manager@;
        let route: usize = manager.current_route();
        let changed: bool = match self.last_active {
            Some(last) => last != route,
            None => true,
        };
        self.last_active = Some(route);
        let force: bool = changed || self.is_game_mode_enabled;
        let any_panel_dirty: bool = draw_tabs(
            manager,
            route,
            force,
            self.is_window_focused,
            self.config_blinking_interval,
            now,
        );
        proof {
            assert(manager@.tabs[manager@.current_index].well_formed());
        }
        let grid: &ContextGrid = manager.current_grid();
        let scrollbars: Vec<PanelScrollState> = if self.has_scrollbar {
            list_scrollbars(grid)
        } else {
            Vec::new()
        };
        let dimmed: Vec<usize> = if self.dims_unfocused_splits {
            list_unfocused(grid)
        } else {
            Vec::new()
        };
        proof {
            assert(self.has_scrollbar || scrollbars@ =~= Seq::<PanelScrollState>::empty());
            assert(self.dims_unfocused_splits || dimmed@ =~= Seq::<usize>::empty());
        }
        let current: &Context = grid.current();
        let tooltip: Option<String> = if self.hint_click_would_land(overlays) {
            match &current.renderable_content.highlighted_hint {
                Some(text) => Some(text.clone()),
                None => None,
            }
        } else {
            None
        };
        let mut color: WindowColor = match current.renderable_content.background {
            Some(BackgroundState::Custom(color)) => color,
            _ => self.dynamic_background,
        };
        color.a = self.window_bg_alpha;
        let window_update: Option<WindowColor> = if same_color(&self.last_window_bg, &color) {
            None
        } else {
            self.last_window_bg = Some(color);
            Some(color)
        };
        FramePlan {
            window_update,
            any_panel_dirty,
            dimmed,
            scrollbars,
            tooltip,
            overlay: self.window_overlay,
        }
    }
}

fn list_scrollbars(grid: &ContextGrid) -> (r: Vec<PanelScrollState>)
    ensures
        r@ == scroll_states(grid@),
{
    let mut out: Vec<PanelScrollState> = Vec::new();
    let mut i: usize = 0;
    while i < grid.panes.len()
        invariant
            i <= grid.panes@.len(),
            out@.len() == i,
            forall|k: int| 0 <= k < i ==> #[trigger] out@[k] == scroll_state(grid.panes@[k]),
        decreases grid.panes@.len() - i,
    {
        let pane: &Context = &grid.panes[i];
        out.push(
            PanelScrollState {
                rich_text_id: pane.rich_text_id,
                panel_rect: pane.layout_rect,
                display_offset: pane.renderable_content.display_offset,
                history_size: pane.renderable_content.history_size,
                screen_lines: pane.renderable_content.screen_lines,
            },
        );
        i += 1;
    }
    proof {
        assert(out@ =~= scroll_states(grid@));
    }
    out
}

fn list_unfocused(grid: &ContextGrid) -> (r: Vec<usize>)
    ensures
        r@ == unfocused_routes(grid@, grid@.panes.len() as int),
{
    let mut out: Vec<usize> = Vec::new();
    let mut i: usize = 0;
    while i < grid.panes.len()
        invariant
            i <= grid.panes@.len(),
            out@ == unfocused_routes(grid@, i as int),
        decreases grid.panes@.len() - i,
    {
        if i != grid.current {
            out.push(grid.panes[i].route_id);
        }
        i += 1;
    }
    out
}

fn draw_tabs(
    manager: &mut ContextManager,
    route: usize,
    force: bool,
    focused: bool,
    interval: u64,
    now: u64,
) -> (r: bool)
    requires
        old(manager)@.well_formed(),
        old(manager)@.tabs.len() > 0,
        route == old(manager)@.current_route(),
    ensures
        final(manager)@.well_formed(),
        final(manager)@ == (ManagerModel { tabs: final(manager)@.tabs, ..old(manager)@ }),
        final(manager)@.tabs.len() == old(manager)@.tabs.len(),
        forall|t: int|
            0 <= t < old(manager)@.tabs.len() ==> if takes_part(old(manager)@, t) {
                tab_drawn(
                    #[trigger] final(manager)@.tabs[t],
                    old(manager)@.tabs[t],
                    force,
                    t == old(manager)@.current_index,
                    focused,
                    interval,
                    now,
                )
            } else {
                final(manager)@.tabs[t] == old(manager)@.tabs[t]
            },
        r == any_tab_due(old(manager)@, force, old(manager)@.tabs.len() as int),
{
    let ghost before = manager@;
    let mut dirty: bool = false;
    let mut t: usize = 0;
    while t < row_len(&manager.contexts)
        invariant
            t <= before.tabs.len(),
            before.well_formed(),
            before == old(manager)@,
            route == before.current_route(),
            manager@.tabs.len() == before.tabs.len(),
            manager@ == (ManagerModel { tabs: manager@.tabs, ..before }),
            dirty == any_tab_due(before, force, t as int),
            forall|k: int|
                0 <= k < t ==> (#[trigger] manager@.tabs[k]).well_formed() && if takes_part(
                    before,
                    k,
                ) {
                    tab_drawn(
                        manager@.tabs[k],
                        before.tabs[k],
                        force,
                        k == before.current_index,
                        focused,
                        interval,
                        now,
                    )
                } else {
                    manager@.tabs[k] == before.tabs[k]
                },
            forall|k: int|
                t <= k < before.tabs.len() ==> #[trigger] manager@.tabs[k] == before.tabs[k],
        decreases before.tabs.len() - t,
    {
        let ghost then = manager@;
        let ghost tabs = tabs_in(manager.contexts);
        proof {
            assert(manager@.tabs[t as int] == before.tabs[t as int]);
            assert(before.tabs[t as int].well_formed());
        }
        let shown: bool = t == manager.current_index;
        let takes: bool = shown || !row_get(&manager.contexts, t).contains_route_id(route);
        let mut due: bool = false;
        if takes {
            let grid: &mut ContextGrid = row_get_mut(manager.contexts_mut(), t);
            due = draw_tab(grid, force, shown, focused, interval, now);
            proof {
                let tab = tabs_in(manager.contexts)[t as int]@;
                assert(tab_models(tabs_in(manager.contexts)) =~= then.tabs.update(t as int, tab));
                assert(manager@ =~= (ManagerModel { tabs: manager@.tabs, ..before }));
            }
        }
        proof {
            assert(takes == takes_part(before, t as int));
            assert(due == tab_due(before, t as int, force));
            if any_tab_due(before, force, t + 1) && !any_tab_due(before, force, t as int) {
                let k = choose|k: int| 0 <= k < t + 1 && #[trigger] tab_due(before, k, force);
                assert(k == t);
            }
            if any_tab_due(before, force, t as int) {
                let k = choose|k: int| 0 <= k < t && #[trigger] tab_due(before, k, force);
                assert(tab_due(before, k, force));
            }
        }
        dirty = dirty || due;
        t += 1;
    }
    dirty
}

} // verus!
