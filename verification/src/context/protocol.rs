//! What a session worker publishes, and what can be asked of it.

use crate::terminal::{copy_slice, ClipboardType, ColorBits};
use vstd::prelude::*;

verus! {

/// What a cell holds: a character, or a background without one.
#[derive(Clone, Copy, Debug, PartialEq, Eq, Structural)]
pub enum CellContentFrame {
    Codepoint(u32),
    Palette(u8),
    Rgb { r: u8, g: u8, b: u8 },
}

/// A published cell.
#[derive(Clone, Copy, Debug, PartialEq, Eq, Structural)]
pub struct CellFrame {
    pub content: CellContentFrame,
    pub wide: u8,
    pub flags: u8,
}

/// A published colour.
#[derive(Clone, Copy, Debug, PartialEq, Eq, Structural)]
pub enum ColorFrame {
    Indexed(u8),
    Rgb { r: u8, g: u8, b: u8 },
    Named(u16),
}

/// A published style.
#[derive(Clone, Copy, Debug, PartialEq, Eq)]
pub struct StyleFrame {
    pub foreground: ColorFrame,
    pub background: ColorFrame,
    pub underline: Option<ColorFrame>,
    pub flags: u16,
}

/// A published hyperlink.
pub struct HyperlinkFrame {
    pub id: String,
    pub uri: String,
}

/// What a cell has besides its character: zero-width characters and a link.
pub struct ExtrasFrame {
    pub zero_width: Vec<u32>,
    pub hyperlink: Option<HyperlinkFrame>,
}

/// The contents of a published extra.
#[verifier::ext_equal]
pub struct ExtrasFrameModel {
    pub zero_width: Seq<u32>,
    pub hyperlink: Option<(Seq<char>, Seq<char>)>,
}

impl View for ExtrasFrame {
    type V = ExtrasFrameModel;

    open spec fn view(&self) -> ExtrasFrameModel {
        ExtrasFrameModel {
            zero_width: self.zero_width@,
            hyperlink: match self.hyperlink {
                Some(link) => Some((link.id@, link.uri@)),
                None => None,
            },
        }
    }
}

impl ExtrasFrame {
    pub fn duplicate(&self) -> (r: Self)
        ensures
            r@ == self@,
    {
        ExtrasFrame {
            zero_width: copy_slice(self.zero_width.as_slice()),
            hyperlink: match &self.hyperlink {
                Some(link) => Some(
                    HyperlinkFrame { id: link.id.clone(), uri: link.uri.clone() },
                ),
                None => None,
            },
        }
    }
}

/// A published row.
pub struct RowFrame {
    pub cells: Vec<CellFrame>,
    pub styles: Vec<StyleFrame>,
    pub extras: Vec<Option<ExtrasFrame>>,
    pub kitty_virtual_placeholder: bool,
    pub text: String,
}

/// The contents of a published row.
#[verifier::ext_equal]
pub struct RowFrameModel {
    pub cells: Seq<CellFrame>,
    pub styles: Seq<StyleFrame>,
    pub extras: Seq<Option<ExtrasFrameModel>>,
    pub kitty_virtual_placeholder: bool,
    pub text: Seq<char>,
}

/// The contents of an optional extra.
pub open spec fn extra_view(extra: Option<ExtrasFrame>) -> Option<ExtrasFrameModel> {
    match extra {
        Some(extra) => Some(extra@),
        None => None,
    }
}

impl View for RowFrame {
    type V = RowFrameModel;

    open spec fn view(&self) -> RowFrameModel {
        RowFrameModel {
            cells: self.cells@,
            styles: self.styles@,
            extras: self.extras@.map_values(|e: Option<ExtrasFrame>| extra_view(e)),
            kitty_virtual_placeholder: self.kitty_virtual_placeholder,
            text: self.text@,
        }
    }
}

impl RowFrame {
    pub fn duplicate(&self) -> (r: Self)
        ensures
            r@ == self@,
    {
        let mut extras: Vec<Option<ExtrasFrame>> = Vec::new();
        let mut i: usize = 0;
        while i < self.extras.len()
            invariant
                i <= self.extras@.len(),
                extras@.len() == i,
                forall|k: int|
                    0 <= k < i ==> extra_view(#[trigger] extras@[k]) == extra_view(self.extras@[k]),
            decreases self.extras@.len() - i,
        {
            let copy: Option<ExtrasFrame> = match &self.extras[i] {
                Some(extra) => Some(extra.duplicate()),
                None => None,
            };
            extras.push(copy);
            i += 1;
        }
        let r: RowFrame = RowFrame {
            cells: copy_slice(self.cells.as_slice()),
            styles: copy_slice(self.styles.as_slice()),
            extras,
            kitty_virtual_placeholder: self.kitty_virtual_placeholder,
            text: self.text.clone(),
        };
        proof {
            assert(r@ =~= self@);
        }
        r
    }
}

/// The views of a list of rows.
pub open spec fn row_views(rows: Seq<RowFrame>) -> Seq<RowFrameModel> {
    rows.map_values(|r: RowFrame| r@)
}

/// A published cursor.
#[derive(Clone, Copy, Debug, PartialEq, Eq, Structural)]
pub struct CursorFrame {
    pub line: u16,
    pub column: u16,
    pub visible: bool,
    pub blinking: bool,
    pub shape: u8,
}

/// A published selection, clipped to the viewport.
#[derive(Clone, Copy, Debug, PartialEq, Eq, Structural)]
pub struct SelectionFrame {
    pub start_line: u16,
    pub start_column: u16,
    pub end_line: u16,
    pub end_column: u16,
    pub block: bool,
}

/// Published graphics, in their encoded form.
pub struct GraphicsFrame {
    pub data: Vec<u8>,
}

impl GraphicsFrame {
    pub fn empty() -> (r: Self)
        ensures
            r.data@ == Seq::<u8>::empty(),
    {
        GraphicsFrame { data: Vec::new() }
    }

    pub fn same(&self, other: &GraphicsFrame) -> (r: bool)
        ensures
            r == (self.data@ == other.data@),
    {
        if self.data.len() != other.data.len() {
            return false;
        }
        let mut i: usize = 0;
        while i < self.data.len()
            invariant
                i <= self.data@.len(),
                self.data@.len() == other.data@.len(),
                forall|k: int| 0 <= k < i ==> self.data@[k] == other.data@[k],
            decreases self.data@.len() - i,
        {
            if self.data[i] != other.data[i] {
                return false;
            }
            i += 1;
        }
        proof {
            assert(self.data@ =~= other.data@);
        }
        true
    }
}

/// A complete snapshot of a terminal's viewport.
pub struct FullFrame {
    pub sequence: u64,
    pub columns: u16,
    pub lines: u16,
    pub rows: Vec<RowFrame>,
    pub display_offset: u32,
    pub history_size: u32,
    pub lines_evicted: u64,
    pub alternate_screen: bool,
    pub modes: u32,
    pub cursor: CursorFrame,
    pub selection: Option<SelectionFrame>,
    pub colors: Vec<Option<ColorBits>>,
    pub graphics: GraphicsFrame,
    pub title: String,
    pub working_dir: Option<String>,
}

/// The contents of a snapshot.
#[verifier::ext_equal]
pub struct FrameModel {
    pub sequence: u64,
    pub columns: u16,
    pub lines: u16,
    pub rows: Seq<RowFrameModel>,
    pub display_offset: u32,
    pub history_size: u32,
    pub lines_evicted: u64,
    pub alternate_screen: bool,
    pub modes: u32,
    pub cursor: CursorFrame,
    pub selection: Option<SelectionFrame>,
    pub colors: Seq<Option<ColorBits>>,
    pub graphics: Seq<u8>,
    pub title: Seq<char>,
    pub working_dir: Option<Seq<char>>,
}

/// The contents of an optional string.
pub open spec fn string_view(s: Option<String>) -> Option<Seq<char>> {
    match s {
        Some(s) => Some(s@),
        None => None,
    }
}

impl View for FullFrame {
    type V = FrameModel;

    open spec fn view(&self) -> FrameModel {
        FrameModel {
            sequence: self.sequence,
            columns: self.columns,
            lines: self.lines,
            rows: row_views(self.rows@),
            display_offset: self.display_offset,
            history_size: self.history_size,
            lines_evicted: self.lines_evicted,
            alternate_screen: self.alternate_screen,
            modes: self.modes,
            cursor: self.cursor,
            selection: self.selection,
            colors: self.colors@,
            graphics: self.graphics.data@,
            title: self.title@,
            working_dir: string_view(self.working_dir),
        }
    }
}

/// Scroll offsets fit a line number.
pub open spec fn offsets_fit(display_offset: u32, history_size: u32) -> bool {
    display_offset <= i32::MAX && history_size <= i32::MAX
}

impl FullFrame {
    /// The scroll offsets of the frame fit a line number.
    pub open spec fn fits(&self) -> bool {
        offsets_fit(self.display_offset, self.history_size)
    }

    pub fn is_in_range(&self) -> (r: bool)
        ensures
            r == self.fits(),
    {
        self.display_offset <= i32::MAX as u32 && self.history_size <= i32::MAX as u32
    }

    pub fn duplicate(&self) -> (r: Self)
        ensures
            r@ == self@,
    {
        let mut rows: Vec<RowFrame> = Vec::new();
        let mut i: usize = 0;
        while i < self.rows.len()
            invariant
                i <= self.rows@.len(),
                rows@.len() == i,
                forall|k: int| 0 <= k < i ==> (#[trigger] rows@[k])@ == self.rows@[k]@,
            decreases self.rows@.len() - i,
        {
            rows.push(self.rows[i].duplicate());
            i += 1;
        }
        let r: FullFrame = FullFrame {
            sequence: self.sequence,
            columns: self.columns,
            lines: self.lines,
            rows,
            display_offset: self.display_offset,
            history_size: self.history_size,
            lines_evicted: self.lines_evicted,
            alternate_screen: self.alternate_screen,
            modes: self.modes,
            cursor: self.cursor,
            selection: self.selection,
            colors: copy_slice(self.colors.as_slice()),
            graphics: GraphicsFrame { data: copy_slice(self.graphics.data.as_slice()) },
            title: self.title.clone(),
            working_dir: self.working_dir.clone(),
        };
        proof {
            assert(row_views(r.rows@) =~= row_views(self.rows@));
            assert(r@ =~= self@);
        }
        r
    }
}

/// A row that changed.
pub struct RowUpdate {
    pub line: u16,
    pub row: RowFrame,
}

/// What changed since an earlier snapshot.
pub struct FrameDelta {
    pub base_sequence: u64,
    pub sequence: u64,
    pub columns: u16,
    pub lines: u16,
    pub rows: Vec<RowUpdate>,
    pub display_offset: u32,
    pub history_size: u32,
    pub lines_evicted: u64,
    pub alternate_screen: bool,
    pub modes: u32,
    pub cursor: CursorFrame,
    pub selection: Option<SelectionFrame>,
    pub colors: Vec<Option<ColorBits>>,
    pub title: String,
    pub working_dir: Option<String>,
}

/// Rows with the first `n` updates put in.
pub open spec fn rows_updated(rows: Seq<RowFrameModel>, updates: Seq<RowUpdate>, n: int) -> Seq<
    RowFrameModel,
>
    decreases n,
{
    if n <= 0 {
        rows
    } else {
        rows_updated(rows, updates, n - 1).update(updates[n - 1].line as int, updates[n - 1].row@)
    }
}

impl FrameDelta {
    /// The scroll offsets of the delta fit a line number.
    pub open spec fn fits(&self) -> bool {
        offsets_fit(self.display_offset, self.history_size)
    }

    pub fn is_in_range(&self) -> (r: bool)
        ensures
            r == self.fits(),
    {
        self.display_offset <= i32::MAX as u32 && self.history_size <= i32::MAX as u32
    }

    /// The snapshot that the delta makes of an earlier one.
    pub open spec fn applied(&self, frame: FrameModel) -> FrameModel {
        FrameModel {
            sequence: self.sequence,
            columns: frame.columns,
            lines: frame.lines,
            rows: rows_updated(frame.rows, self.rows@, self.rows@.len() as int),
            display_offset: self.display_offset,
            history_size: self.history_size,
            lines_evicted: self.lines_evicted,
            alternate_screen: self.alternate_screen,
            modes: self.modes,
            cursor: self.cursor,
            selection: self.selection,
            colors: self.colors@,
            graphics: frame.graphics,
            title: self.title@,
            working_dir: string_view(self.working_dir),
        }
    }

    /// Puts the delta into the snapshot that it is based on.
    pub fn apply_to(self, frame: &mut FullFrame)
        requires
            self.base_sequence == old(frame).sequence,
            self.columns == old(frame).columns,
            self.lines == old(frame).lines,
            forall|i: int|
                0 <= i < self.rows@.len() ==> (#[trigger] self.rows@[i]).line
                    < old(frame).rows@.len(),
        ensures
            final(frame)@ == self.applied(old(frame)@),
    {
        let ghost before = frame@;
        let ghost updates = self.rows@;
        let mut rows: Vec<RowUpdate> = self.rows;
        let ghost len = frame.rows@.len();
        let mut done: usize = 0;
        let total: usize = rows.len();
        // Taken from the back and put aside, so that updates apply in order.
        let mut pending: Vec<RowUpdate> = Vec::new();
        while rows.len() > 0
            invariant
                rows@.len() + pending@.len() == updates.len(),
                rows@ == updates.take(rows@.len() as int),
                forall|k: int|
                    0 <= k < pending@.len() ==> #[trigger] pending@[k] == updates[updates.len() - 1
                        - k],
            decreases rows@.len(),
        {
            let ghost n = rows@.len() as int;
            match rows.pop() {
                Some(update) => {
                    proof {
                        assert(update == updates[n - 1]);
                        assert(rows@ =~= updates.take(n - 1));
                    }
                    pending.push(update);
                },
                None => {},
            }
        }
        while pending.len() > 0
            invariant
                done + pending@.len() == total,
                total == updates.len(),
                len == before.rows.len(),
                frame.rows@.len() == len,
                forall|k: int|
                    0 <= k < pending@.len() ==> #[trigger] pending@[k] == updates[updates.len() - 1
                        - k],
                forall|i: int| 0 <= i < updates.len() ==> (#[trigger] updates[i]).line < len,
                row_views(frame.rows@) == rows_updated(before.rows, updates, done as int),
                frame@ == (FrameModel {
                    rows: rows_updated(before.rows, updates, done as int),
                    ..before
                }),
            decreases pending@.len(),
        {
            let ghost n = pending@.len() as int;
            match pending.pop() {
                Some(update) => {
                    proof {
                        assert(update == updates[updates.len() - 1 - (n - 1)]);
                        assert(updates.len() - n == done);
                        assert(row_views(frame.rows@.update(update.line as int, update.row))
                            =~= rows_updated(before.rows, updates, done + 1));
                    }
                    let line: usize = update.line as usize;
                    frame.rows.set(line, update.row);
                    done += 1;
                    proof {
                        assert(frame@ =~= (FrameModel {
                            rows: rows_updated(before.rows, updates, done as int),
                            ..before
                        }));
                    }
                },
                None => {},
            }
        }
        frame.sequence = self.sequence;
        frame.display_offset = self.display_offset;
        frame.history_size = self.history_size;
        frame.lines_evicted = self.lines_evicted;
        frame.alternate_screen = self.alternate_screen;
        frame.modes = self.modes;
        frame.cursor = self.cursor;
        frame.selection = self.selection;
        frame.colors = self.colors;
        frame.title = self.title;
        frame.working_dir = self.working_dir;
    }
}

/// A published change of a terminal.
pub enum FrameUpdate {
    Full(FullFrame),
    Delta(FrameDelta),
}

impl FrameUpdate {
    /// The scroll offsets of the update fit a line number.
    pub open spec fn fits(&self) -> bool {
        match self {
            FrameUpdate::Full(frame) => frame.fits(),
            FrameUpdate::Delta(delta) => delta.fits(),
        }
    }

    /// The sequence number that the terminal is at behind the update.
    pub open spec fn reaches(&self) -> u64 {
        match self {
            FrameUpdate::Full(frame) => frame.sequence,
            FrameUpdate::Delta(delta) => delta.sequence,
        }
    }

    pub fn sequence(&self) -> (r: u64)
        ensures
            r == self.reaches(),
    {
        match self {
            FrameUpdate::Full(frame) => frame.sequence,
            FrameUpdate::Delta(delta) => delta.sequence,
        }
    }
}

/// Why a session cannot do what was asked of it.
pub enum SessionError {
    Invalid(String),
    Unsupported(String),
    Protocol(String),
    Codec(String),
    Io(String),
    Detached,
    WorkerExited,
}

impl SessionError {
    /// The words for the error.
    pub open spec fn words(&self) -> Seq<char> {
        match self {
            SessionError::Invalid(text) => "invalid session request: "@ + text@,
            SessionError::Unsupported(text) => "unsupported session request: "@ + text@,
            SessionError::Protocol(text) => "session protocol error: "@ + text@,
            SessionError::Codec(text) => "session codec error: "@ + text@,
            SessionError::Io(text) => "session i/o error: "@ + text@,
            SessionError::Detached => "session is detached"@,
            SessionError::WorkerExited => "session worker exited"@,
        }
    }

    /// The error in words.
    pub fn message(&self) -> (r: String)
        ensures
            r@ == self.words(),
    {
        match self {
            SessionError::Invalid(text) => crate::text::joined(
                "invalid session request: ",
                text.as_str(),
            ),
            SessionError::Unsupported(text) => crate::text::joined(
                "unsupported session request: ",
                text.as_str(),
            ),
            SessionError::Protocol(text) => crate::text::joined(
                "session protocol error: ",
                text.as_str(),
            ),
            SessionError::Codec(text) => crate::text::joined("session codec error: ", text.as_str()),
            SessionError::Io(text) => crate::text::joined("session i/o error: ", text.as_str()),
            SessionError::Detached => "session is detached".to_owned(),
            SessionError::WorkerExited => "session worker exited".to_owned(),
        }
    }
}

/// What kind of selection a drag makes.
#[derive(Clone, Copy, Debug, PartialEq, Eq, Structural)]
pub enum SelectionKind {
    Simple,
    Block,
    Word,
    Line,
}

/// Which half of a cell.
#[derive(Clone, Copy, Debug, PartialEq, Eq, Structural)]
pub enum Side {
    Left,
    Right,
}

/// Which way to search.
#[derive(Clone, Copy, Debug, PartialEq, Eq, Structural)]
pub enum SearchDirection {
    Forward,
    Backward,
}

/// A cursor motion of vi mode.
#[derive(Clone, Copy, Debug, PartialEq, Eq, Structural)]
pub enum ViMotion {
    Up,
    Down,
    Left,
    Right,
    First,
    Last,
    FirstOccupied,
    High,
    Middle,
    Low,
    SemanticLeft,
    SemanticRight,
    SemanticLeftEnd,
    SemanticRightEnd,
    WordLeft,
    WordRight,
    WordLeftEnd,
    WordRightEnd,
    Bracket,
    ParagraphUp,
    ParagraphDown,
}

/// Whether a glyph is known, and to whom.
#[derive(Clone, Copy, Debug, PartialEq, Eq, Structural)]
pub enum GlyphStatus {
    Free,
    Glossary,
    System,
    Both,
}

/// What can be asked of a session worker.
#[allow(inconsistent_fields)]
pub enum SessionCommand {
    Write(Vec<u8>),
    Paste(String),
    Resize { columns: u16, lines: u16, pixel_width: u16, pixel_height: u16 },
    SetCursorStyle { shape: u8, blinking: bool },
    Scroll { delta_lines: i32 },
    ScrollTop,
    ScrollBottom,
    Focus { focused: bool },
    MouseWheel { lines: i32, column: u16, line: u16, modifiers: u8 },
    MouseButton { column: u16, line: u16, button: u8, pressed: bool, modifiers: u8 },
    MouseMotion { column: u16, line: u16, button: u8, modifiers: u8 },
    SelectionBegin { line: i32, column: usize, kind: SelectionKind, side: Side },
    SelectionUpdate { line: i32, column: usize, side: Side },
    SelectionAutoScroll { delta_lines: i32, line: i32, column: usize, side: Side },
    SelectionClear,
    SelectionText,
    SelectAll,
    ViScroll { delta_lines: i32 },
    ViMotion(ViMotion),
    ViGoto { line: i32, column: u16 },
    SetViMode(bool),
    ScrollToPrompt { forward: bool },
    ClearSavedHistory,
    SearchBegin {
        pattern: String,
        origin_line: i32,
        origin_column: u16,
        origin_display_offset: u32,
        direction: SearchDirection,
        side: Side,
        max_lines: Option<u32>,
    },
    SearchNext,
    SearchCancel,
    Search { pattern: String, max_matches: usize },
    Snapshot,
    ClipboardResponse { request_id: u64, route_id: usize, text: String },
    ColorResponse { request_id: u64, route_id: usize, color: Option<(u8, u8, u8)> },
    TextAreaSizeResponse {
        request_id: u64,
        route_id: usize,
        rows: u16,
        columns: u16,
        pixel_width: u16,
        pixel_height: u16,
    },
    GlyphProtocolResponse { request_id: u64, route_id: usize, status: GlyphStatus },
    Close,
}

/// What a session worker reports on its own account.
#[allow(inconsistent_fields)]
pub enum SessionEvent {
    FrameReady,
    Title { title: String },
    Bell,
    CursorBlinkingChanged,
    Progress { state: u8, value: u8 },
    ClipboardStore { kind: u8, text: String },
    ClipboardLoad { request_id: u64, route_id: usize, kind: u8 },
    ColorRequest { request_id: u64, route_id: usize, index: u16 },
    TextAreaSizeRequest { request_id: u64, route_id: usize },
    GlyphProtocolQuery { request_id: u64, route_id: usize, codepoint: u32 },
    DesktopNotification { title: String, body: String },
    ColorChange { route_id: usize, index: u16, color: Option<(u8, u8, u8)> },
    ChildExited { code: i32 },
    ClipboardOverflow,
    RequestRefused { request_id: u64, kind: RequestKind, reason: RefusalReason },
    RequestExpired { request_id: u64, kind: RequestKind },
    Closed,
}

/// What a terminal asked for.
#[derive(Clone, Copy, Debug, PartialEq, Eq, Structural)]
pub enum RequestKind {
    Clipboard,
    Color,
    TextAreaSize,
    Glyph,
}

/// Why a request of a terminal is refused.
#[derive(Clone, Copy, Debug, PartialEq, Eq, Structural)]
pub enum RefusalReason {
    Denied,
    TooMany,
    Unsupported,
}

/// Where the next match of a search is.
#[derive(Clone, Copy, Debug, PartialEq, Eq, Structural)]
pub struct SearchNavigation {
    pub line: i32,
    pub column: u16,
    pub found: bool,
}

/// A match of a search, in lines counted from the top of the history.
#[derive(Clone, Copy, Debug, PartialEq, Eq, Structural)]
pub struct SearchMatch {
    pub start_line: u32,
    pub start_column: u16,
    pub end_line: u32,
    pub end_column: u16,
}

impl SearchMatch {
    /// The lines of the match fit a line number.
    pub open spec fn fits(&self) -> bool {
        self.start_line <= i32::MAX && self.end_line <= i32::MAX
    }
}

/// What a session worker answers to a command.
pub enum SessionReply {
    Frame(FullFrame),
    FrameUpdate(FrameUpdate),
    SelectionText(Option<String>),
    SearchNavigation(SearchNavigation),
    SearchMatches(Vec<SearchMatch>),
    Closed,
    Accepted,
    NoChange,
    ChildPid(u32),
}

/// What identifies a session to other windows.
#[derive(Clone, Copy, Debug, PartialEq, Eq, Structural)]
pub struct SessionDescriptor {
    pub session_id: u128,
    pub endpoint: u64,
}

/// A selected text, the clipboard that it goes to, and whether it is also
/// copied to the main clipboard.
pub struct SelectionReply {
    pub target: ClipboardType,
    pub text: Option<String>,
    pub copy_to_clipboard: bool,
}

} // verus!
