//! The pointer over a window: its buttons, clicks and motion.

use crate::context::protocol::Side;
use crate::hints::HintMatch;
use crate::terminal::Pos;
use crate::text::same_text;
use vstd::prelude::*;

verus! {

/// A button of the pointer.
#[derive(Clone, Copy, Debug, PartialEq, Eq, Structural)]
pub enum MouseButton {
    Left,
    Middle,
    Right,
    Other(u16),
}

/// How often a button was clicked in a row.
#[derive(Clone, Copy, Debug, PartialEq, Eq, Structural)]
pub enum ClickState {
    /// The clicks do not count: the terminal's program gets them.
    Unclicked,
    Click,
    DoubleClick,
    TripleClick,
}

/// What is kept of the pointer over a window.
pub struct Pointer {
    pub left_pressed: bool,
    pub middle_pressed: bool,
    pub right_pressed: bool,
    pub click_state: ClickState,
    pub last_click_button: MouseButton,
    /// In milliseconds.
    pub last_click_time: u64,
    /// The hint that the left button was pressed on.
    pub hint_click_latched: Option<HintMatch>,
    pub last_cell: Option<Pos>,
    pub square_side: Side,
    pub inside_text_area: bool,
    /// The pointer is over a border between panes.
    pub on_border: bool,
}

/// The click that follows: another button starts over, and so does a pause.
pub open spec fn next_click(
    state: ClickState,
    button: MouseButton,
    last_button: MouseButton,
    elapsed: int,
    threshold: u64,
) -> ClickState {
    if button != last_button {
        ClickState::Click
    } else if state == ClickState::Click && elapsed < threshold {
        ClickState::DoubleClick
    } else if state == ClickState::DoubleClick && elapsed < threshold {
        ClickState::TripleClick
    } else {
        ClickState::Click
    }
}

impl Pointer {
    /// A button was pressed or let go of.
    pub open spec fn with_button(self, button: MouseButton, pressed: bool) -> Pointer {
        match button {
            MouseButton::Left => Pointer { left_pressed: pressed, ..self },
            MouseButton::Middle => Pointer { middle_pressed: pressed, ..self },
            MouseButton::Right => Pointer { right_pressed: pressed, ..self },
            MouseButton::Other(_) => self,
        }
    }

    pub fn set_button(&mut self, button: MouseButton, pressed: bool)
        ensures
            *final(self) == old(self).with_button(button, pressed),
    {
        match button {
            MouseButton::Left => {
                self.left_pressed = pressed;
            },
            MouseButton::Middle => {
                self.middle_pressed = pressed;
            },
            MouseButton::Right => {
                self.right_pressed = pressed;
            },
            MouseButton::Other(_) => {},
        }
    }

    /// A press in a window that shows its terminal.
    pub open spec fn pressed(self, button: MouseButton, now: u64, threshold: u64) -> Pointer {
        Pointer {
            click_state: next_click(
                self.click_state,
                button,
                self.last_click_button,
                now - self.last_click_time,
                threshold,
            ),
            last_click_button: button,
            last_click_time: now,
            ..self.with_button(button, true)
        }
    }

    /// Counts a press in a window that shows its terminal.
    pub fn press(
        &mut self,
        button: MouseButton,
        now: u64,
        threshold: u64,
        hide_cursor_when_typing: bool,
    ) -> (r: Vec<PointerAction>)
        requires
            old(self).last_click_time <= now,
        ensures
            *final(self) == old(self).pressed(button, now, threshold),
            r@ == shown_again(hide_cursor_when_typing).push(PointerAction::TakeChromePress),
    {
        let mut list: Vec<PointerAction> = Vec::new();
        if hide_cursor_when_typing {
            list.push(PointerAction::ShowCursor);
        }
        list.push(PointerAction::TakeChromePress);
        proof {
            assert(list@ =~= shown_again(hide_cursor_when_typing).push(
                PointerAction::TakeChromePress,
            ));
        }
        self.set_button(button, true);
        let elapsed: u64 = now - self.last_click_time;
        self.last_click_time = now;
        self.click_state = if button != self.last_click_button {
            self.last_click_button = button;
            ClickState::Click
        } else {
            match self.click_state {
                ClickState::Click if elapsed < threshold => ClickState::DoubleClick,
                ClickState::DoubleClick if elapsed < threshold => ClickState::TripleClick,
                _ => ClickState::Click,
            }
        };
        list
    }
}

/// A cursor that typing hides is shown again.
pub open spec fn shown_again(hide_cursor_when_typing: bool) -> Seq<PointerAction> {
    if hide_cursor_when_typing {
        seq![PointerAction::ShowCursor]
    } else {
        Seq::empty()
    }
}

/// What a press is offered to, one after the other.
#[derive(Clone, Copy, Debug, PartialEq, Eq, Structural)]
pub enum PressStage {
    /// The message over the window.
    Assistant,
    /// A border between panes, which is then moved.
    Border,
    Palette,
    Search,
    /// The row of tabs.
    Island,
    Scrollbar,
    /// The pane under the pointer, where it is not the focused one.
    Pane,
}

/// What comes next for a press.
#[derive(Clone, Copy, Debug, PartialEq, Eq, Structural)]
pub enum PressStep {
    Offer(PressStage),
    /// The press was taken; the window is drawn again or not.
    Taken(bool),
}

/// What follows where a stage has taken a press, or has not.
pub open spec fn after_stage(stage: PressStage, button: MouseButton, taken: bool) -> PressStep {
    if taken {
        PressStep::Taken(stage != PressStage::Border)
    } else {
        match stage {
            PressStage::Assistant => match button {
                MouseButton::Left => PressStep::Offer(PressStage::Border),
                MouseButton::Right => PressStep::Offer(PressStage::Island),
                _ => PressStep::Offer(PressStage::Pane),
            },
            PressStage::Border => PressStep::Offer(PressStage::Palette),
            PressStage::Palette => PressStep::Offer(PressStage::Search),
            PressStage::Search => PressStep::Offer(PressStage::Island),
            PressStage::Island => if button == MouseButton::Left {
                PressStep::Offer(PressStage::Scrollbar)
            } else {
                PressStep::Offer(PressStage::Pane)
            },
            PressStage::Scrollbar => PressStep::Offer(PressStage::Pane),
            PressStage::Pane => PressStep::Taken(false),
        }
    }
}

/// What a press is offered to next.
pub fn next_stage(stage: PressStage, button: MouseButton, taken: bool) -> (r: PressStep)
    requires
        stage != PressStage::Pane,
    ensures
        r == after_stage(stage, button, taken),
{
    if taken {
        return PressStep::Taken(stage != PressStage::Border);
    }
    match stage {
        PressStage::Assistant => match button {
            MouseButton::Left => PressStep::Offer(PressStage::Border),
            MouseButton::Right => PressStep::Offer(PressStage::Island),
            _ => PressStep::Offer(PressStage::Pane),
        },
        PressStage::Border => PressStep::Offer(PressStage::Palette),
        PressStage::Palette => PressStep::Offer(PressStage::Search),
        PressStage::Search => PressStep::Offer(PressStage::Island),
        PressStage::Island => if button == MouseButton::Left {
            PressStep::Offer(PressStage::Scrollbar)
        } else {
            PressStep::Offer(PressStage::Pane)
        },
        PressStage::Scrollbar => PressStep::Offer(PressStage::Pane),
        PressStage::Pane => PressStep::Taken(false),
    }
}

/// What is done about the pointer.
#[derive(Clone, Copy, Debug, PartialEq, Eq, Structural)]
pub enum PointerAction {
    Redraw,
    RequestRender,
    /// Tells the terminal's program of a button.
    Report(u8, bool),
    Bindings,
    LeftClick,
    StopSelectionScroll,
    ReleaseScrollbar,
    EndResize,
    /// What was pressed of the row of tabs is looked up, and forgotten.
    TakeChromePress,
    CancelIslandDrag,
    EndScrollbarDrag,
    /// Opens the hint that the press landed on.
    OpenHint,
    CopySelection,
    StartExternalDrag,
    ShowCursor,
    StorePosition,
    DefaultCursor,
    /// The cursor of a border that is moved sideways, or up and down.
    BorderCursor(bool),
    /// Draws the list again where another line is under the pointer.
    HoverPalette,
    HoverSearch,
    DragTab,
    HoverCloseButton,
    DragScrollbar,
    ResizeBorder,
    /// Starts the timer that scrolls a selection.
    ScheduleScroll,
    /// Looks which hint is under the pointer, and draws it.
    UpdateHints,
    UpdateSelection,
}

/// The number that a button is reported under.
pub open spec fn report_code(button: MouseButton) -> Option<u8> {
    match button {
        MouseButton::Left => Some(0),
        MouseButton::Middle => Some(1),
        MouseButton::Right => Some(2),
        MouseButton::Other(_) => None,
    }
}

pub fn code_of_button(button: MouseButton) -> (r: Option<u8>)
    ensures
        r == report_code(button),
{
    match button {
        MouseButton::Left => Some(0),
        MouseButton::Middle => Some(1),
        MouseButton::Right => Some(2),
        MouseButton::Other(_) => None,
    }
}

/// What is done about a press that only the panes are left for. `switched` says
/// that another pane got the focus; `hint` is the hint under the pointer.
pub open spec fn press_actions(
    button: MouseButton,
    switched: bool,
    shift: bool,
    mouse_mode: bool,
    on_hint: bool,
) -> Seq<PointerAction> {
    if switched {
        seq![PointerAction::Redraw, PointerAction::Bindings]
    } else if !shift && !on_hint && mouse_mode {
        match report_code(button) {
            Some(code) => seq![
                PointerAction::Report(code, true),
                PointerAction::Bindings,
                PointerAction::Bindings,
            ],
            None => Seq::empty(),
        }
    } else if button == MouseButton::Left {
        seq![PointerAction::LeftClick, PointerAction::Redraw, PointerAction::Bindings]
    } else {
        seq![PointerAction::Redraw, PointerAction::Bindings]
    }
}

impl Pointer {
    /// A left press remembers the hint that it lands on.
    pub open spec fn latching(
        self,
        button: MouseButton,
        switched: bool,
        shift: bool,
        mouse_mode: bool,
        hint: Option<HintMatch>,
    ) -> Pointer {
        let on_hint = button == MouseButton::Left && hint is Some;
        Pointer {
            hint_click_latched: if button == MouseButton::Left {
                hint
            } else {
                self.hint_click_latched
            },
            click_state: if !switched && !shift && !on_hint && mouse_mode {
                ClickState::Unclicked
            } else {
                self.click_state
            },
            ..self
        }
    }

    /// A press that only the panes are left for. A left press on a hint follows
    /// it: the terminal's program sees nothing of it, as under a held shift key.
    pub fn finish_press(
        &mut self,
        button: MouseButton,
        switched: bool,
        shift: bool,
        mouse_mode: bool,
        hint: Option<HintMatch>,
    ) -> (r: Vec<PointerAction>)
        ensures
            *final(self) == old(self).latching(button, switched, shift, mouse_mode, hint),
            r@ == press_actions(
                button,
                switched,
                shift,
                mouse_mode,
                button == MouseButton::Left && hint is Some,
            ),
    {
        let on_hint: bool = button == MouseButton::Left && hint.is_some();
        if button == MouseButton::Left {
            self.hint_click_latched = hint;
        }
        let mut list: Vec<PointerAction> = Vec::new();
        if switched {
            list.push(PointerAction::Redraw);
            list.push(PointerAction::Bindings);
        } else if !shift && !on_hint && mouse_mode {
            self.click_state = ClickState::Unclicked;
            if let Some(code) = code_of_button(button) {
                list.push(PointerAction::Report(code, true));
                list.push(PointerAction::Bindings);
                list.push(PointerAction::Bindings);
            }
        } else {
            if button == MouseButton::Left {
                list.push(PointerAction::LeftClick);
            }
            list.push(PointerAction::Redraw);
            list.push(PointerAction::Bindings);
        }
        proof {
            assert(list@ =~= press_actions(
                button,
                switched,
                shift,
                mouse_mode,
                button == MouseButton::Left && hint is Some,
            ));
        }
        list
    }
}

/// What is read of a window when a button is let go of.
pub struct ReleaseFacts {
    pub hide_cursor_when_typing: bool,
    /// A tab was dragged, and its drag ended with this release.
    pub tab_drag_ended: bool,
    pub scrollbar_dragging: bool,
    pub resizing: bool,
    pub shift: bool,
    pub mouse_mode: bool,
    pub selection_empty: bool,
}

/// Both hints are the same text at the same place.
pub open spec fn same_span(a: Option<HintMatch>, b: Option<HintMatch>) -> bool {
    match (a, b) {
        (Some(x), Some(y)) => x.text@ == y.text@ && x.start == y.start && x.end == y.end,
        _ => false,
    }
}

fn spans_agree(a: &Option<HintMatch>, b: &Option<HintMatch>) -> (r: bool)
    ensures
        r == same_span(*a, *b),
{
    match (a, b) {
        (Some(x), Some(y)) => same_text(x.text.as_str(), y.text.as_str()) && x.start == y.start
            && x.end == y.end,
        _ => false,
    }
}

/// What is done about a button that is let go of. `latched` is the hint that the
/// press landed on, and `hint` the one under the pointer now.
pub open spec fn release_actions(
    button: MouseButton,
    facts: ReleaseFacts,
    latched: Option<HintMatch>,
    hint: Option<HintMatch>,
) -> Seq<PointerAction> {
    let side = button == MouseButton::Left || button == MouseButton::Right;
    let shown = shown_again(facts.hide_cursor_when_typing);
    let stop = if side {
        shown.push(PointerAction::StopSelectionScroll)
    } else {
        shown
    };
    let on_hint = button == MouseButton::Left && latched is Some;
    if button == MouseButton::Left && facts.tab_drag_ended {
        stop.push(PointerAction::Redraw)
    } else if facts.scrollbar_dragging {
        stop.push(PointerAction::ReleaseScrollbar).push(PointerAction::Redraw)
    } else if facts.resizing {
        stop.push(PointerAction::EndResize).push(PointerAction::DefaultCursor)
    } else if !facts.shift && !on_hint && facts.mouse_mode {
        match report_code(button) {
            Some(code) => stop.push(PointerAction::Report(code, false)),
            None => stop,
        }
    } else if facts.selection_empty {
        if button == MouseButton::Left && same_span(hint, latched) {
            stop.push(PointerAction::OpenHint).push(PointerAction::RequestRender)
        } else {
            stop
        }
    } else if side {
        stop.push(PointerAction::CopySelection)
    } else {
        stop
    }
}

impl Pointer {
    /// The press of a hint ends with its release; what ends a drag or a resize
    /// leaves it for the next release.
    pub open spec fn unlatched(self, button: MouseButton, facts: ReleaseFacts) -> Pointer {
        if button == MouseButton::Left && !facts.tab_drag_ended && !facts.scrollbar_dragging
            && !facts.resizing {
            Pointer { hint_click_latched: None, ..self }
        } else {
            self
        }
    }

    /// A button is let go of in a window that shows its terminal. A hint is
    /// opened only where press and release are on the same one. The result also
    /// has the hint that is opened.
    pub fn release(
        &mut self,
        button: MouseButton,
        facts: &ReleaseFacts,
        hint: &Option<HintMatch>,
    ) -> (r: (Vec<PointerAction>, Option<HintMatch>))
        ensures
            *final(self) == old(self).with_button(button, false).unlatched(button, *facts),
            r.0@ == release_actions(button, *facts, old(self).hint_click_latched, *hint),
            r.0@.contains(PointerAction::OpenHint) ==> r.1 == old(self).hint_click_latched,
            !r.0@.contains(PointerAction::OpenHint) ==> r.1 is None,
    {
        self.set_button(button, false);
        let left: bool = button == MouseButton::Left;
        let side: bool = left || button == MouseButton::Right;
        let mut list: Vec<PointerAction> = Vec::new();
        let mut opened: Option<HintMatch> = None;
        if facts.hide_cursor_when_typing {
            list.push(PointerAction::ShowCursor);
        }
        if side {
            list.push(PointerAction::StopSelectionScroll);
        }
        if left && facts.tab_drag_ended {
            list.push(PointerAction::Redraw);
        } else if facts.scrollbar_dragging {
            list.push(PointerAction::ReleaseScrollbar);
            list.push(PointerAction::Redraw);
        } else if facts.resizing {
            list.push(PointerAction::EndResize);
            list.push(PointerAction::DefaultCursor);
        } else {
            let mut latched: Option<HintMatch> = None;
            if left {
                core::mem::swap(&mut latched, &mut self.hint_click_latched);
            }
            if !facts.shift && latched.is_none() && facts.mouse_mode {
                if let Some(code) = code_of_button(button) {
                    list.push(PointerAction::Report(code, false));
                }
            } else if facts.selection_empty {
                if left && spans_agree(hint, &latched) {
                    list.push(PointerAction::OpenHint);
                    list.push(PointerAction::RequestRender);
                    opened = latched;
                }
            } else if side {
                list.push(PointerAction::CopySelection);
            }
        }
        proof {
            let want = release_actions(button, *facts, old(self).hint_click_latched, *hint);
            assert(list@ =~= want);
            if opened is Some {
                assert(list@[list@.len() - 2] == PointerAction::OpenHint);
            }
        }
        (list, opened)
    }

    /// A button over a window that shows a question, or no terminal.
    pub open spec fn blocked(self, button: MouseButton, down: bool) -> Pointer {
        if !down && button == MouseButton::Left {
            Pointer { left_pressed: false, hint_click_latched: None, ..self }
        } else {
            self
        }
    }

    /// A button over a window that shows a question, or no terminal: what a left
    /// press began is undone, and the hint that it landed on is forgotten.
    pub fn block_button(&mut self, button: MouseButton, down: bool) -> (r: Vec<PointerAction>)
        ensures
            *final(self) == old(self).blocked(button, down),
            r@ == if down {
                seq![PointerAction::TakeChromePress]
            } else if button == MouseButton::Left {
                undone()
            } else {
                Seq::empty()
            },
    {
        let mut list: Vec<PointerAction> = Vec::new();
        if down {
            list.push(PointerAction::TakeChromePress);
        } else if button == MouseButton::Left {
            self.left_pressed = false;
            self.hint_click_latched = None;
            list.push(PointerAction::CancelIslandDrag);
            list.push(PointerAction::EndScrollbarDrag);
            list.push(PointerAction::EndResize);
        }
        list
    }

    /// A button over a window whose tabs are all gone: only a release counts.
    pub fn orphan_button(&mut self, button: MouseButton, down: bool) -> (r: Vec<PointerAction>)
        ensures
            *final(self) == if down {
                *old(self)
            } else {
                old(self).with_button(button, false)
            },
            r@ == if down {
                Seq::empty()
            } else {
                undone()
            },
    {
        let mut list: Vec<PointerAction> = Vec::new();
        if !down {
            self.set_button(button, false);
            list.push(PointerAction::CancelIslandDrag);
            list.push(PointerAction::EndScrollbarDrag);
            list.push(PointerAction::EndResize);
        }
        list
    }
}

/// What a press may have begun is undone.
pub open spec fn undone() -> Seq<PointerAction> {
    seq![
        PointerAction::CancelIslandDrag,
        PointerAction::EndScrollbarDrag,
        PointerAction::EndResize,
    ]
}

/// What is read of a window when the pointer moves.
#[derive(Clone, Copy, Debug, PartialEq, Eq, Structural)]
pub struct MoveFacts {
    pub terminal: bool,
    pub confirm_quit: bool,
    pub island_dragging: bool,
    pub outside_surface: bool,
    pub hide_cursor_when_typing: bool,
    pub palette_open: bool,
    pub search_active: bool,
    pub over_tab_bar: bool,
    pub scrollbar_dragging: bool,
    /// The border that is moved: whether sideways.
    pub resizing: Option<bool>,
    /// The border under the pointer: whether it is moved sideways.
    pub border: Option<bool>,
    pub over_scrollbar: bool,
    pub selection_empty: bool,
    /// The pointer is where a selection scrolls.
    pub scrolls_selection: bool,
    pub scroll_timer_running: bool,
    pub cell: Pos,
    pub inside_text_area: bool,
    pub side: Side,
    pub shift: bool,
    pub mouse_mode: bool,
    /// The terminal's program wants motion, at least under a pressed button.
    pub motion_and_drag: bool,
    pub motion: bool,
}

/// What is done about motion, up to the cells of the pane, and whether the
/// motion is for them.
pub open spec fn chrome_actions(pointer: Pointer, facts: MoveFacts) -> (Seq<PointerAction>, bool) {
    let dragging = pointer.left_pressed && facts.island_dragging;
    if facts.terminal && dragging && facts.outside_surface {
        (seq![PointerAction::StartExternalDrag], false)
    } else {
        let shown = if facts.hide_cursor_when_typing {
            seq![PointerAction::ShowCursor, PointerAction::StorePosition]
        } else {
            seq![PointerAction::StorePosition]
        };
        if !facts.terminal || facts.confirm_quit {
            (shown.push(PointerAction::DefaultCursor), false)
        } else if facts.palette_open {
            (shown.push(PointerAction::HoverPalette).push(PointerAction::DefaultCursor), false)
        } else {
            let searched = if facts.search_active {
                shown.push(PointerAction::HoverSearch)
            } else {
                shown
            };
            if dragging {
                (
                    searched.push(PointerAction::DragTab).push(PointerAction::DefaultCursor).push(
                        PointerAction::Redraw,
                    ),
                    false,
                )
            } else {
                let hovered = searched.push(PointerAction::HoverCloseButton);
                if facts.over_tab_bar {
                    (hovered.push(PointerAction::DefaultCursor), false)
                } else if facts.scrollbar_dragging {
                    (
                        hovered.push(PointerAction::DragScrollbar).push(
                            PointerAction::DefaultCursor,
                        ).push(PointerAction::Redraw),
                        false,
                    )
                } else if facts.resizing is Some {
                    (
                        hovered.push(PointerAction::ResizeBorder).push(
                            PointerAction::BorderCursor(facts.resizing->0),
                        ).push(PointerAction::RequestRender).push(PointerAction::Redraw),
                        false,
                    )
                } else if facts.border is Some {
                    (hovered.push(PointerAction::BorderCursor(facts.border->0)), false)
                } else if facts.over_scrollbar {
                    (hovered.push(PointerAction::DefaultCursor), false)
                } else {
                    (hovered, true)
                }
            }
        }
    }
}

/// The pointer has come over a border.
pub open spec fn meets_border(pointer: Pointer, facts: MoveFacts) -> bool {
    let dragging = pointer.left_pressed && facts.island_dragging;
    facts.terminal && !facts.confirm_quit && !facts.palette_open && !dragging
        && !facts.over_tab_bar && !facts.scrollbar_dragging && facts.resizing is None
        && facts.border is Some
}

/// A pressed button selects.
pub open spec fn selects(pointer: Pointer, facts: MoveFacts) -> bool {
    (pointer.left_pressed || pointer.right_pressed) && (facts.shift || !facts.mouse_mode)
}

/// Nothing has changed for the cells.
pub open spec fn stays_put(pointer: Pointer, facts: MoveFacts) -> bool {
    pointer.last_cell == Some(facts.cell) && !pointer.on_border && pointer.square_side
        == facts.side && pointer.inside_text_area == facts.inside_text_area
}

/// What the terminal's program is told of motion.
pub open spec fn motion_report(pointer: Pointer, facts: MoveFacts) -> Seq<PointerAction> {
    if pointer.last_cell == Some(facts.cell) || !facts.motion_and_drag {
        Seq::empty()
    } else if pointer.left_pressed {
        if pointer.hint_click_latched is None {
            seq![PointerAction::Report(32, true)]
        } else {
            Seq::empty()
        }
    } else if pointer.middle_pressed {
        seq![PointerAction::Report(33, true)]
    } else if pointer.right_pressed {
        seq![PointerAction::Report(34, true)]
    } else if facts.motion {
        seq![PointerAction::Report(35, true)]
    } else {
        Seq::empty()
    }
}

/// What is done about motion over the cells of the pane.
pub open spec fn cell_actions(pointer: Pointer, facts: MoveFacts) -> Seq<PointerAction> {
    let scroll = if !facts.selection_empty && (pointer.left_pressed || pointer.right_pressed)
        && facts.scrolls_selection && !facts.scroll_timer_running {
        seq![PointerAction::ScheduleScroll]
    } else {
        Seq::empty()
    };
    if stays_put(pointer, facts) {
        scroll
    } else if selects(pointer, facts) {
        scroll.push(PointerAction::UpdateSelection).push(PointerAction::RequestRender)
    } else {
        scroll.push(PointerAction::UpdateHints) + motion_report(pointer, facts)
    }
}

impl Pointer {
    /// The pointer has moved.
    pub open spec fn moved(self, facts: MoveFacts) -> Pointer {
        if !chrome_actions(self, facts).1 {
            Pointer { on_border: self.on_border || meets_border(self, facts), ..self }
        } else if stays_put(self, facts) {
            Pointer { on_border: false, last_cell: Some(facts.cell), ..self }
        } else {
            Pointer {
                on_border: false,
                last_cell: Some(facts.cell),
                square_side: facts.side,
                inside_text_area: facts.inside_text_area,
                ..self
            }
        }
    }

    fn move_over_chrome(&mut self, facts: &MoveFacts, list: &mut Vec<PointerAction>) -> (r: bool)
        requires
            old(list)@.len() == 0,
        ensures
            (final(list)@, r) == chrome_actions(*old(self), *facts),
            *final(self) == (Pointer {
                on_border: old(self).on_border || meets_border(*old(self), *facts),
                ..*old(self)
            }),
    {
        let dragging: bool = self.left_pressed && facts.island_dragging;
        let through: bool = if facts.terminal && dragging && facts.outside_surface {
            list.push(PointerAction::StartExternalDrag);
            false
        } else {
            if facts.hide_cursor_when_typing {
                list.push(PointerAction::ShowCursor);
            }
            list.push(PointerAction::StorePosition);
            if !facts.terminal || facts.confirm_quit {
                list.push(PointerAction::DefaultCursor);
                false
            } else if facts.palette_open {
                list.push(PointerAction::HoverPalette);
                list.push(PointerAction::DefaultCursor);
                false
            } else {
                if facts.search_active {
                    list.push(PointerAction::HoverSearch);
                }
                if dragging {
                    list.push(PointerAction::DragTab);
                    list.push(PointerAction::DefaultCursor);
                    list.push(PointerAction::Redraw);
                    false
                } else {
                    list.push(PointerAction::HoverCloseButton);
                    if facts.over_tab_bar {
                        list.push(PointerAction::DefaultCursor);
                        false
                    } else if facts.scrollbar_dragging {
                        list.push(PointerAction::DragScrollbar);
                        list.push(PointerAction::DefaultCursor);
                        list.push(PointerAction::Redraw);
                        false
                    } else {
                        match (facts.resizing, facts.border) {
                            (Some(sideways), _) => {
                                list.push(PointerAction::ResizeBorder);
                                list.push(PointerAction::BorderCursor(sideways));
                                list.push(PointerAction::RequestRender);
                                list.push(PointerAction::Redraw);
                                false
                            },
                            (None, Some(sideways)) => {
                                list.push(PointerAction::BorderCursor(sideways));
                                self.on_border = true;
                                false
                            },
                            (None, None) => if facts.over_scrollbar {
                                list.push(PointerAction::DefaultCursor);
                                false
                            } else {
                                true
                            },
                        }
                    }
                }
            }
        };
        proof {
            assert(list@ =~= chrome_actions(*old(self), *facts).0);
        }
        through
    }

    fn move_over_cells(&mut self, facts: &MoveFacts, list: &mut Vec<PointerAction>)
        ensures
            final(list)@ == old(list)@ + cell_actions(*old(self), *facts),
            *final(self) == if stays_put(*old(self), *facts) {
                Pointer { on_border: false, last_cell: Some(facts.cell), ..*old(self) }
            } else {
                Pointer {
                    on_border: false,
                    last_cell: Some(facts.cell),
                    square_side: facts.side,
                    inside_text_area: facts.inside_text_area,
                    ..*old(self)
                }
            },
    {
        let ghost before = list@;
        let was_on_border: bool = self.on_border;
        self.on_border = false;
        if !facts.selection_empty && (self.left_pressed || self.right_pressed)
            && facts.scrolls_selection && !facts.scroll_timer_running {
            list.push(PointerAction::ScheduleScroll);
        }
        let cell_changed: bool = match self.last_cell {
            Some(cell) => cell != facts.cell,
            None => true,
        };
        self.last_cell = Some(facts.cell);
        if !cell_changed && !was_on_border && self.square_side == facts.side
            && self.inside_text_area == facts.inside_text_area {
            proof {
                assert(list@ =~= before + cell_actions(*old(self), *facts));
            }
            return;
        }
        let selecting: bool = (self.left_pressed || self.right_pressed) && (facts.shift
            || !facts.mouse_mode);
        self.inside_text_area = facts.inside_text_area;
        self.square_side = facts.side;
        if selecting {
            list.push(PointerAction::UpdateSelection);
            list.push(PointerAction::RequestRender);
        } else {
            list.push(PointerAction::UpdateHints);
            if cell_changed && facts.motion_and_drag {
                if self.left_pressed {
                    if self.hint_click_latched.is_none() {
                        list.push(PointerAction::Report(32, true));
                    }
                } else if self.middle_pressed {
                    list.push(PointerAction::Report(33, true));
                } else if self.right_pressed {
                    list.push(PointerAction::Report(34, true));
                } else if facts.motion {
                    list.push(PointerAction::Report(35, true));
                }
            }
        }
        proof {
            assert(list@ =~= before + cell_actions(*old(self), *facts));
        }
    }

    /// The pointer moves over a window.
    pub fn move_to(&mut self, facts: &MoveFacts) -> (r: Vec<PointerAction>)
        ensures
            *final(self) == old(self).moved(*facts),
            r@ == if chrome_actions(*old(self), *facts).1 {
                chrome_actions(*old(self), *facts).0 + cell_actions(*old(self), *facts)
            } else {
                chrome_actions(*old(self), *facts).0
            },
    {
        let mut list: Vec<PointerAction> = Vec::new();
        if self.move_over_chrome(facts, &mut list) {
            proof {
                assert(!meets_border(*old(self), *facts));
                assert(*self == *old(self));
            }
            self.move_over_cells(facts, &mut list);
        }
        list
    }
}

/// A press is offered to each place at most once, and goes no further where it
/// is taken: what is left comes behind what was.
pub proof fn law_presses_go_one_way(stage: PressStage, button: MouseButton)
    ensures
        after_stage(stage, button, true) is Taken,
        after_stage(stage, button, false) matches PressStep::Offer(next) ==> rank_of(next)
            > rank_of(stage),
{
}

/// Where a stage stands among the others.
pub open spec fn rank_of(stage: PressStage) -> int {
    match stage {
        PressStage::Assistant => 0,
        PressStage::Border => 1,
        PressStage::Palette => 2,
        PressStage::Search => 3,
        PressStage::Island => 4,
        PressStage::Scrollbar => 5,
        PressStage::Pane => 6,
    }
}

/// A terminal's program never sees the release of a press that it did not see,
/// nor motion in between: a press on a hint is neither reported nor is what
/// follows it.
pub proof fn law_hint_clicks_are_not_reported(
    pointer: Pointer,
    hint: HintMatch,
    switched: bool,
    shift: bool,
    mouse_mode: bool,
    facts: ReleaseFacts,
    under: Option<HintMatch>,
    motion: MoveFacts,
    code: u8,
    down: bool,
)
    requires
        pointer.left_pressed,
    ensures
        ({
            let pressed = pointer.latching(
                MouseButton::Left,
                switched,
                shift,
                mouse_mode,
                Some(hint),
            );
            &&& !press_actions(MouseButton::Left, switched, shift, mouse_mode, true).contains(
                PointerAction::Report(code, down),
            )
            &&& !cell_actions(pressed, motion).contains(PointerAction::Report(code, down))
            &&& !release_actions(
                MouseButton::Left,
                facts,
                pressed.hint_click_latched,
                under,
            ).contains(PointerAction::Report(code, down))
        }),
{
}

} // verus!
