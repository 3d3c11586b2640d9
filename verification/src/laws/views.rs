//! What a value holds and what is said of it are the same, part by part.

use crate::application::closing::ExitGate;
use crate::application::outbox::{words_of, Effect, EffectModel, Response, ResponseModel};
use crate::application::state::{
    Application, PendingMergeSelection, PendingOutgoing, PendingPrepared, RecoveryCandidate,
    RecoveryProbeState,
};
use crate::context::manager::ContextManager;
use crate::context::passive::{PassiveGrid, Row};
use crate::context::protocol::{ExtrasFrame, FullFrame, RowFrame};
use crate::context::pump::{Notice, NoticeModel};
use crate::context::remote::RemoteView;
use crate::context::row::{tab_models, tabs_in};
use crate::context::session::{SessionHandle, SessionState, SessionStatus};
use crate::context::tab::ContextGrid;
use crate::hints::{HintMatch, HintState};
use vstd::prelude::*;

verus! {

/// What is asked for is said as it is: the same request, of the same window or pane,
/// with the same values in their order.
pub proof fn law_requests_are_said_as_they_are(effect: Effect)
    ensures
        match effect {
            Effect::Overlay(a, b) => effect@ == EffectModel::Overlay(a, b),
            Effect::DropMarker(a, b) => effect@ == EffectModel::DropMarker(a, b),
            Effect::ClearDropMarker(a) => effect@ == EffectModel::ClearDropMarker(a),
            Effect::SourceMarker(a, b) => effect@ == EffectModel::SourceMarker(a, b),
            Effect::ClearSourceMarker(a) => effect@ == EffectModel::ClearSourceMarker(a),
            Effect::ClearMergeUi(a) => effect@ == EffectModel::ClearMergeUi(a),
            Effect::Redraw(a) => effect@ == EffectModel::Redraw(a),
            Effect::Refresh(a) => effect@ == EffectModel::Refresh(a),
            Effect::DiscardRoutes(a, b) => effect@ == EffectModel::DiscardRoutes(a, b@),
            Effect::Focus(a) => effect@ == EffectModel::Focus(a),
            Effect::RemoveWindow(a) => effect@ == EffectModel::RemoveWindow(a),
            Effect::RecoveryTargets(a, b) => effect@ == EffectModel::RecoveryTargets(a, words_of(b@)),
            Effect::ShowError(a, b, c) => effect@ == EffectModel::ShowError(a, b, c@),
            Effect::DiscoverPeers(a) => effect@ == EffectModel::DiscoverPeers(a),
            Effect::ArmSelection(a, b) => effect@ == EffectModel::ArmSelection(a, b),
            Effect::CancelSelection(a, b) => effect@ == EffectModel::CancelSelection(a, b),
            Effect::SendSelection(a, b, c, d) => effect@ == EffectModel::SendSelection(a, b, c, d),
            Effect::Probe(a, b, c) => effect@ == EffectModel::Probe(a, b, c),
            Effect::Recover(a, b) => effect@ == EffectModel::Recover(a, b),
            Effect::DrainProbes => effect@ == EffectModel::DrainProbes,
            Effect::MergeForeign(a, b, c) => effect@ == EffectModel::MergeForeign(a, b, c),
            Effect::Reply(a, b) => effect@ == EffectModel::Reply(a, b@),
            Effect::Wake(a) => effect@ == EffectModel::Wake(a),
            Effect::Unschedule(a) => effect@ == EffectModel::Unschedule(a),
            Effect::WithdrawOffer(a) => effect@ == EffectModel::WithdrawOffer(a),
            Effect::RejectDrag(a, b) => effect@ == EffectModel::RejectDrag(a, b),
            Effect::CancelDrag(a, b) => effect@ == EffectModel::CancelDrag(a, b),
            Effect::FinishDrag(a, b) => effect@ == EffectModel::FinishDrag(a, b),
            Effect::ResetDragInput(a) => effect@ == EffectModel::ResetDragInput(a),
            Effect::Detach(a, b) => effect@ == EffectModel::Detach(a, b),
            Effect::ResumeWindowDrag(a, b) => effect@ == EffectModel::ResumeWindowDrag(a, b),
            Effect::ForgetFrameDrag(a, b, c) => effect@ == EffectModel::ForgetFrameDrag(a, b, c),
            Effect::Reinstall(a) => effect@ == EffectModel::Reinstall(a),
            Effect::CloseTerminal(a) => effect@ == EffectModel::CloseTerminal(a),
            Effect::CloseWindow(a) => effect@ == EffectModel::CloseWindow(a),
            Effect::ConfirmQuit(a) => effect@ == EffectModel::ConfirmQuit(a),
            Effect::Retain(a) => effect@ == EffectModel::Retain(a),
            Effect::CancelIslandDrag(a) => effect@ == EffectModel::CancelIslandDrag(a),
            Effect::CancelDragSource(a, b) => effect@ == EffectModel::CancelDragSource(a, b),
        },
{
}

/// The requests of the program are said in their order.
pub proof fn law_requests_are_said_in_order(state: Application, i: int)
    requires
        0 <= i < state.effects@.len(),
    ensures
        state@.effects.len() == state.effects@.len(),
        state@.effects[i] == state.effects@[i]@,
{
}

/// Answers are said as they are.
pub proof fn law_answers_are_said_as_they_are(response: Response)
    ensures
        response is Hello <==> response@ is Hello,
        response is SelectionArmed <==> response@ is SelectionArmed,
        response matches Response::Committed(routes) ==> response@ == ResponseModel::Committed(
            routes@,
        ),
        response matches Response::Rejected(text) ==> response@ == ResponseModel::Rejected(text@),
{
}

/// The state of the program is said part by part.
pub proof fn law_state_is_said_part_by_part(state: Application)
    ensures
        state@.control == state.control,
        state@.source == state.merge_window_source,
        state@.target == state.merge_target,
        state@.armed == state.armed_merge_selection,
        state@.pending is Some == state.pending_merge_selection is Some,
        state.pending_merge_selection matches Some(pending) ==> state@.pending == Some(pending@),
        state@.recovery_targets is Some == state.recovery_targets is Some,
        state.recovery_targets matches Some(targets) ==> {
            &&& (state@.recovery_targets->0).0 == targets.0
            &&& (state@.recovery_targets->0).1.len() == targets.1@.len()
            &&& forall|i: int|
                0 <= i < targets.1@.len() ==> #[trigger] (state@.recovery_targets->0).1[i]
                    == targets.1@[i]@
        },
        state@.probe is Some == state.recovery_probe_state is Some,
        state.recovery_probe_state matches Some(probe) ==> state@.probe == Some(probe@),
        state@.next_probe_id == state.next_recovery_probe_id,
        state@.drop_marker == state.drop_marker_window,
        state@.prepared.len() == state.pending_prepared@.len(),
        forall|i: int|
            0 <= i < state.pending_prepared@.len() ==> #[trigger] state@.prepared[i]
                == state.pending_prepared@[i]@,
        state@.outgoing.len() == state.pending_outgoing@.len(),
        forall|i: int|
            0 <= i < state.pending_outgoing@.len() ==> #[trigger] state@.outgoing[i]
                == state.pending_outgoing@[i]@,
        state@.exit_after_transfer == state.exit_after_transfer,
        state@.drag == state.tab_drag,
        state@.foreign == state.foreign_drag,
        state@.retained == state.retained_tab_drag_owner,
        state@.deferred == state.deferred_tab_drag_closes@,
        state@.detach_deadline == state.tab_drag_detach_deadline,
{
}

/// What waits is said part by part: a question to other programs, panes that were taken
/// in, panes that were offered, and sessions that can be recovered.
pub proof fn law_waiting_is_said_part_by_part(
    pending: PendingMergeSelection,
    prepared: PendingPrepared,
    outgoing: PendingOutgoing,
    candidate: RecoveryCandidate,
    probe: RecoveryProbeState,
)
    ensures
        pending@.selection_id == pending.selection_id,
        pending@.source_window == pending.source_window,
        pending@.targets == pending.targets@,
        pending@.armed == pending.armed,
        pending@.resolved == pending.resolved@,
        pending@.deadline == pending.deadline,
        prepared@.routes == prepared.routes@,
        prepared@.ready == prepared.ready@,
        prepared@.window_id == prepared.window_id,
        prepared@.deadline == prepared.deadline,
        prepared@.completion == prepared.completion,
        outgoing@.transfer_id == outgoing.transfer_id,
        outgoing@.source_window == outgoing.source_window,
        outgoing@.source_routes == outgoing.source_routes@,
        candidate@.descriptor == candidate.descriptor,
        candidate@.label == candidate.label@,
        probe@.id == probe.id,
        probe@.source_window == probe.source_window,
        probe@.remaining == probe.remaining,
        probe@.candidates.len() == probe.candidates@.len(),
        forall|i: int|
            0 <= i < probe.candidates@.len() ==> #[trigger] probe@.candidates[i]
                == probe.candidates@[i]@,
{
}

/// A program that ends waits for the sessions that it was given.
pub proof fn law_gate_is_said_part_by_part(gate: ExitGate)
    ensures
        gate@.pending.len() == gate.pending@.len(),
        forall|i: int|
            0 <= i < gate.pending@.len() ==> #[trigger] gate@.pending[i] == gate.pending@[i]@,
        gate@.exiting == gate.exiting,
        gate@.deadline == gate.deadline,
{
}

/// A window is said tab by tab, and each tab part by part.
pub proof fn law_windows_are_said_tab_by_tab(manager: ContextManager, tab: ContextGrid)
    ensures
        manager@.tabs.len() == tabs_in(manager.contexts).len(),
        forall|t: int|
            0 <= t < manager@.tabs.len() ==> #[trigger] manager@.tabs[t] == tabs_in(
                manager.contexts,
            )[t]@,
        manager@.current_index == manager.current_index,
        manager@.capacity == manager.capacity,
        manager@.window_id == manager.window_id,
        manager@.config == manager.config,
        manager@.last_title_update == manager.last_title_update,
        manager@.bootstrap_transfer == manager.bootstrap_transfer,
        manager@.events == manager.events@,
        manager@.draws == manager.draws@,
        manager@.retired.len() == manager.retired@.len(),
        forall|i: int|
            0 <= i < manager.retired@.len() ==> #[trigger] manager@.retired[i]
                == manager.retired@[i]@,
        tab@.id == tab.id,
        tab@.panes == tab.panes@,
        tab@.current == tab.current,
        tab@.custom_title == tab.custom_title,
        tab@.custom_color == tab.custom_color,
{
}

/// A session is said part by part: its queue, its state and its marks.
pub proof fn law_sessions_are_said_part_by_part(handle: SessionHandle, state: SessionState)
    ensures
        handle@.commands == handle.commands.queue@,
        handle@.capacity == handle.commands.capacity,
        handle@.receiving == handle.commands.receiving,
        handle@.owners == handle.commands.owners,
        handle@.signalled == handle.commands.signalled,
        handle@.state == handle.state@,
        handle@.window_id == handle.window_id,
        handle@.closed == handle.closed,
        handle@.selection_in_flight == handle.selection_in_flight,
        state@.pending_full == state.pending_full,
        state@.updates == state.updates@,
        state@.events == state.events@,
        state@.descriptor == state.descriptor,
        state@.outstanding == state.outstanding,
        state@.replies == state.replies@,
        state@.search_navigation == state.search_navigation,
        state@.search_matches == state.search_matches,
        state@.pump_done == state.pump_done,
        state@.frame_resync_logged == state.frame_resync_logged,
        state@.had_frame == state.had_frame,
        state@.status.running <==> state.status is Running,
        state.status matches SessionStatus::Running(error) ==> (error is Some
            == state@.status.error is Some) && (error matches Some(text)
            ==> state@.status.error->0 == text@),
        state.status matches SessionStatus::Closed(error) ==> (error is Some
            == state@.status.error is Some) && (error matches Some(text)
            ==> state@.status.error->0 == text@),
{
}

/// What a view shows is said part by part.
pub proof fn law_views_are_said_part_by_part(view: RemoteView)
    ensures
        view@.grid == view.grid@,
        view@.cursor_shape == view.cursor_shape,
        view@.default_cursor_shape == view.default_cursor_shape,
        view@.blinking_cursor == view.blinking_cursor,
        view@.selection_range == view.selection_range,
        view@.vi_cursor == view.vi_mode_cursor.pos,
        view@.window_id == view.window_id,
        view@.title == view.title@,
        view@.current_directory is Some == view.current_directory is Some,
        view.current_directory matches Some(dir) ==> view@.current_directory->0 == dir@,
        view@.colors == view.colors@,
        view@.mode_bits == view.mode_bits,
        view@.session is Some == view.session is Some,
        view.session matches Some(session) ==> view@.session->0 == session@,
        view@.frame is Some == view.frame is Some,
        view.frame matches Some(frame) ==> view@.frame->0 == frame@,
        view@.graphics_dirty == view.graphics_dirty,
        view@.damage == view.pending_frame_damage,
        view@.delta_resync_logged == view.delta_resync_logged,
        view@.search_active == view.search_active,
        view@.search_navigation == view.search_navigation,
        view@.search_matches == view.search_matches,
        view@.decode_error is Some == view.decode_error is Some,
        view.decode_error matches Some(text) ==> view@.decode_error->0 == text@,
{
}

/// Rows and caches are said part by part.
pub proof fn law_caches_are_said_part_by_part(grid: PassiveGrid, row: Row)
    ensures
        grid@.rows.len() == grid.rows@.len(),
        forall|i: int| 0 <= i < grid.rows@.len() ==> #[trigger] grid@.rows[i] == grid.rows@[i]@,
        grid@.row_styles.len() == grid.row_styles@.len(),
        forall|i: int|
            0 <= i < grid.row_styles@.len() ==> #[trigger] grid@.row_styles[i]
                == grid.row_styles@[i]@,
        grid@.cursor == grid.cursor.pos,
        grid@.columns == grid.columns,
        grid@.lines == grid.lines,
        grid@.history == grid.history,
        grid@.display_offset == grid.display_offset,
        grid@.tables.extras == grid.extras@,
        grid@.tables.styles == grid.styles@,
        row@.inner == row.inner@,
        row@.dirty == row.dirty,
        row@.has_extras == row.has_extras,
        row@.has_styles == row.has_styles,
        row@.kitty_virtual_placeholder == row.kitty_virtual_placeholder,
{
}

/// A published frame is said part by part, and its rows cell by cell.
pub proof fn law_frames_are_said_part_by_part(
    frame: FullFrame,
    row: RowFrame,
    extras: ExtrasFrame,
)
    ensures
        frame@.sequence == frame.sequence,
        frame@.columns == frame.columns,
        frame@.lines == frame.lines,
        frame@.rows.len() == frame.rows@.len(),
        forall|i: int| 0 <= i < frame.rows@.len() ==> #[trigger] frame@.rows[i] == frame.rows@[i]@,
        frame@.display_offset == frame.display_offset,
        frame@.history_size == frame.history_size,
        frame@.lines_evicted == frame.lines_evicted,
        frame@.alternate_screen == frame.alternate_screen,
        frame@.modes == frame.modes,
        frame@.cursor == frame.cursor,
        frame@.selection == frame.selection,
        frame@.colors == frame.colors@,
        frame@.graphics == frame.graphics.data@,
        frame@.title == frame.title@,
        frame@.working_dir is Some == frame.working_dir is Some,
        frame.working_dir matches Some(dir) ==> frame@.working_dir->0 == dir@,
        row@.cells == row.cells@,
        row@.styles == row.styles@,
        row@.extras.len() == row.extras@.len(),
        forall|i: int|
            0 <= i < row.extras@.len() ==> (#[trigger] row@.extras[i]) is Some
                == row.extras@[i] is Some && (row.extras@[i] matches Some(extra)
                ==> row@.extras[i]->0 == extra@),
        row@.kitty_virtual_placeholder == row.kitty_virtual_placeholder,
        row@.text == row.text@,
        extras@.zero_width == extras.zero_width@,
        extras@.hyperlink is Some == extras.hyperlink is Some,
        extras.hyperlink matches Some(link) ==> (extras@.hyperlink->0).0 == link.id@ && (
        extras@.hyperlink->0).1 == link.uri@,
{
}

/// Notices are said as they are.
pub proof fn law_notices_are_said_as_they_are(notice: Notice)
    ensures
        notice is Render ==> notice@ == NoticeModel::Render,
        notice matches Notice::StartupFailure(text) ==> notice@ == NoticeModel::StartupFailure(
            text@,
        ),
{
}

/// Hints are said match by match, each with its text, place and hint.
pub proof fn law_hints_are_said_match_by_match(state: HintState, found: HintMatch)
    ensures
        state@.active == state.active_hint,
        state@.matches.len() == state.matches@.len(),
        forall|i: int|
            0 <= i < state.matches@.len() ==> #[trigger] state@.matches[i] == state.matches@[i]@,
        state@.labels.len() == state.labels@.len(),
        forall|i: int|
            0 <= i < state.labels@.len() ==> #[trigger] state@.labels[i] == state.labels@[i]@,
        state@.keys == state.keys@,
        state@.alphabet == state.alphabet@,
        found@.text == found.text@,
        found@.start == found.start,
        found@.end == found.end,
        found@.hint == found.hint,
{
}

/// Lists of texts, tabs and sessions are said one by one.
pub proof fn law_lists_are_said_one_by_one(texts: Seq<String>, tabs: Seq<ContextGrid>, i: int)
    ensures
        words_of(texts).len() == texts.len(),
        0 <= i < texts.len() ==> words_of(texts)[i] == texts[i]@,
        tab_models(tabs).len() == tabs.len(),
        0 <= i < tabs.len() ==> tab_models(tabs)[i] == tabs[i]@,
{
}

} // verus!
