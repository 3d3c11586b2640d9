//! What the renderer keeps of a pane between frames.

use crate::terminal::{ColorBits, CursorShape, Pos, SelectionRange, TerminalDamage};
use vstd::prelude::*;

verus! {

/// The damage that waits for the next frame.
#[derive(Clone, Copy, Debug, PartialEq, Eq)]
pub struct PendingUpdate {
    pub dirty: bool,
    pub terminal_damage: Option<TerminalDamage>,
}

impl PendingUpdate {
    pub fn new() -> (r: Self)
        ensures
            r == (PendingUpdate { dirty: false, terminal_damage: None }),
    {
        PendingUpdate { dirty: false, terminal_damage: None }
    }

    /// Damage added to what waits already.
    pub open spec fn with_damage(self, damage: TerminalDamage) -> PendingUpdate {
        PendingUpdate {
            dirty: true,
            terminal_damage: match self.terminal_damage {
                Some(before) => Some(before.merged(damage)),
                None => Some(damage),
            },
        }
    }

    pub fn set_terminal_damage(&mut self, damage: TerminalDamage)
        ensures
            *final(self) == old(self).with_damage(damage),
    {
        self.terminal_damage = match self.terminal_damage {
            Some(before) => Some(before.merge(damage)),
            None => Some(damage),
        };
        self.dirty = true;
    }

    /// Takes the damage of the terminal that waits.
    pub fn take_terminal_damage(&mut self) -> (r: Option<TerminalDamage>)
        ensures
            r == old(self).terminal_damage,
            *final(self) == (PendingUpdate { terminal_damage: None, ..*old(self) }),
    {
        self.terminal_damage.take()
    }

    pub fn set_dirty(&mut self)
        ensures
            *final(self) == (PendingUpdate { dirty: true, ..*old(self) }),
    {
        self.dirty = true;
    }

    /// Nothing waits any more.
    pub fn reset(&mut self)
        ensures
            *final(self) == (PendingUpdate { dirty: false, terminal_damage: None }),
    {
        self.dirty = false;
        self.terminal_damage = None;
    }

    pub fn is_dirty(&self) -> (r: bool)
        ensures
            r == self.dirty,
    {
        self.dirty
    }
}

/// A colour of a window, by the bits of its floating-point components.
#[derive(Clone, Copy, Debug, PartialEq, Eq, Structural)]
pub struct WindowColor {
    pub r: u64,
    pub g: u64,
    pub b: u64,
    pub a: u64,
}

/// A background colour that a terminal asked for.
#[derive(Clone, Copy, Debug, PartialEq, Eq, Structural)]
pub enum BackgroundState {
    Custom(WindowColor),
    Reset,
}

/// A cursor as the renderer draws it.
#[derive(Clone, Copy, Debug, PartialEq, Eq, Structural)]
pub struct Cursor {
    pub pos: Pos,
    pub shape: CursorShape,
    /// The character that the cursor is drawn with.
    pub content: char,
    /// The character that was configured for it.
    pub content_ref: char,
    pub is_ime_enabled: bool,
}

impl Default for Cursor {
    fn default() -> (r: Self)
        ensures
            r == plain_cursor(),
    {
        Cursor {
            pos: Pos::new(0, 0),
            shape: CursorShape::Block,
            content: '▇',
            content_ref: '▇',
            is_ime_enabled: false,
        }
    }
}

/// The cursor of a pane that configures none.
pub open spec fn plain_cursor() -> Cursor {
    Cursor {
        pos: Pos { row: 0, col: 0 },
        shape: CursorShape::Block,
        content: '▇',
        content_ref: '▇',
        is_ime_enabled: false,
    }
}

/// What the renderer keeps of a pane.
pub struct RenderableContent {
    pub term_colors: Vec<Option<ColorBits>>,
    pub display_offset: usize,
    pub columns: usize,
    pub screen_lines: usize,
    pub history_size: usize,
    pub blinking_cursor: bool,
    pub cursor: Cursor,
    pub selection_range: Option<SelectionRange>,
    pub session_error: Option<String>,
    pub frame_damage: TerminalDamage,
    pub pending_update: PendingUpdate,
    pub background: Option<BackgroundState>,
    /// The text of the hint under the pointer.
    pub highlighted_hint: Option<String>,
    /// When a key was typed last, in milliseconds.
    pub last_typing: Option<u64>,
    pub has_blinking_enabled: bool,
    pub is_blinking_cursor_visible: bool,
    /// When the cursor changed its visibility last, in milliseconds.
    pub last_blink_toggle: Option<u64>,
}

impl RenderableContent {
    /// Nothing was taken over for drawing yet, and nothing waits to be drawn.
    pub open spec fn is_new(self, cursor: Cursor) -> bool {
        &&& self.term_colors@ == Seq::<Option<ColorBits>>::empty()
        &&& self.cursor == cursor
        &&& self.display_offset == 0
        &&& self.columns == 0
        &&& self.screen_lines == 0
        &&& self.history_size == 0
        &&& !self.blinking_cursor
        &&& self.selection_range is None
        &&& self.session_error is None
        &&& self.frame_damage == TerminalDamage::Noop
        &&& self.pending_update == (PendingUpdate { dirty: false, terminal_damage: None })
        &&& self.background is None
        &&& self.highlighted_hint is None
        &&& self.last_typing is None
        &&& !self.has_blinking_enabled
        &&& !self.is_blinking_cursor_visible
        &&& self.last_blink_toggle is None
    }

    pub fn new(cursor: Cursor) -> (r: Self)
        ensures
            r.is_new(cursor),
    {
        RenderableContent {
            term_colors: Vec::new(),
            display_offset: 0,
            columns: 0,
            screen_lines: 0,
            history_size: 0,
            blinking_cursor: false,
            cursor,
            selection_range: None,
            session_error: None,
            frame_damage: TerminalDamage::Noop,
            pending_update: PendingUpdate::new(),
            background: None,
            highlighted_hint: None,
            last_typing: None,
            has_blinking_enabled: false,
            is_blinking_cursor_visible: false,
            last_blink_toggle: None,
        }
    }
}

} // verus!
