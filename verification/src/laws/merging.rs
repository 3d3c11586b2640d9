//! Merging tabs into other windows: where a tab lands, what is shown meanwhile,
//! and what is given up.

use crate::application::carry::is_put_back;
use crate::application::outbox::{
    window_from, window_of, EffectModel, ResponseModel, WindowEndpoint, WindowFacts,
};
use crate::application::merge::{
    endpoint_from, takes_tab_at, target_index, with_window, ArmedInput,
};
use crate::application::state::{ApplicationModel, PreparedModel};
use crate::application::transfer::{
    all_noted, are_rebound, commit_error, complete_of, expired_of, has_target, in_time_of,
    is_received, is_received_whole, merge_index, remaining_route, route_error, waiting_of,
};
use crate::context::manager::ManagerModel;
use crate::context::tab::TabModel;
use crate::renderer::frame::WindowOverlay;
use vstd::prelude::*;

verus! {

/// A window is found by its number: the first that has it, and none only where
/// none has it.
pub proof fn law_windows_are_found_by_number(windows: Seq<WindowFacts>, id: u64, from: int)
    requires
        0 <= from <= windows.len(),
    ensures
        match window_from(windows, id, from) {
            Some(facts) => exists|i: int|
                {
                    &&& from <= i < windows.len()
                    &&& #[trigger] windows[i] == facts
                    &&& facts.id == id
                    &&& forall|j: int| from <= j < i ==> (#[trigger] windows[j]).id != id
                },
            None => forall|j: int| from <= j < windows.len() ==> (#[trigger] windows[j]).id != id,
        },
        from == 0 ==> window_of(windows, id) == window_from(windows, id, 0),
    decreases windows.len() - from,
{
    if from < windows.len() && windows[from].id != id {
        law_windows_are_found_by_number(windows, id, from + 1);
        if window_from(windows, id, from) is Some {
            let facts = window_from(windows, id, from)->0;
            let i = choose|i: int|
                {
                    &&& from + 1 <= i < windows.len()
                    &&& #[trigger] windows[i] == facts
                    &&& facts.id == id
                    &&& forall|j: int| from + 1 <= j < i ==> (#[trigger] windows[j]).id != id
                };
            assert(windows[i] == facts);
        }
    } else if from < windows.len() {
        assert(windows[from].id == id);
    }
}

/// Two tabs are the same tab: the same identity, name, colour and focus, and the
/// same panes in the same order with what they show.
pub open spec fn is_same_tab(now: TabModel, before: TabModel) -> bool {
    &&& now.id == before.id
    &&& now.current == before.current
    &&& now.custom_title == before.custom_title
    &&& now.custom_color == before.custom_color
    &&& now.panes.len() == before.panes.len()
    &&& forall|p: int|
        0 <= p < now.panes.len() ==> {
            &&& (#[trigger] now.panes[p]).route_id == before.panes[p].route_id
            &&& now.panes[p].rich_text_id == before.panes[p].rich_text_id
            &&& now.panes[p].title == before.panes[p].title
            &&& now.panes[p].dimension == before.panes[p].dimension
            &&& now.panes[p].terminal@.grid == before.panes[p].terminal@.grid
            &&& (now.panes[p].terminal@.session is Some) == (
            before.panes[p].terminal@.session is Some)
            &&& now.panes[p].terminal@.session matches Some(session) ==> session.commands
                == before.panes[p].terminal@.session->0.commands && session.state
                == before.panes[p].terminal@.session->0.state && session.closed
                == before.panes[p].terminal@.session->0.closed
        }
}

proof fn lemma_same_tab(now: TabModel, tab: TabModel, before: TabModel, window: u64)
    requires
        now == tab.damaged(),
        tab.is_rebound(before, window),
    ensures
        is_same_tab(now, before),
        forall|p: int| 0 <= p < now.panes.len() ==> (#[trigger] now.panes[p]).window_id == window,
{
    assert forall|p: int| 0 <= p < now.panes.len() implies (#[trigger] now.panes[p]).window_id
        == window && now.panes[p].route_id == before.panes[p].route_id by {
        assert(tab.panes[p].is_rebound(&before.panes[p], window));
    }
    assert forall|p: int| 0 <= p < now.panes.len() implies {
        &&& (#[trigger] now.panes[p]).rich_text_id == before.panes[p].rich_text_id
        &&& now.panes[p].title == before.panes[p].title
        &&& now.panes[p].dimension == before.panes[p].dimension
        &&& now.panes[p].terminal@.grid == before.panes[p].terminal@.grid
        &&& (now.panes[p].terminal@.session is Some) == (
        before.panes[p].terminal@.session is Some)
        &&& now.panes[p].terminal@.session matches Some(session) ==> session.commands
            == before.panes[p].terminal@.session->0.commands && session.state
            == before.panes[p].terminal@.session->0.state && session.closed
            == before.panes[p].terminal@.session->0.closed
    } by {
        assert(tab.panes[p].is_rebound(&before.panes[p], window));
    }
}

/// A tab that was put into a window stands at the position, belongs to the window
/// and has the focus; the tabs before the position stay where they were, and those
/// from it on are one further.
pub proof fn law_received_tab_stands_at_its_position(
    now: ManagerModel,
    before: ManagerModel,
    moved: TabModel,
    index: int,
)
    requires
        0 <= index <= before.tabs.len(),
        is_received(now, before, moved, index),
    ensures
        now.tabs.len() == before.tabs.len() + 1,
        now.current_index == index,
        is_same_tab(now.tabs[index], moved),
        forall|p: int|
            0 <= p < now.tabs[index].panes.len() ==> (#[trigger] now.tabs[index].panes[p]).window_id
                == before.window_id,
        forall|i: int| 0 <= i < index ==> is_same_tab(#[trigger] now.tabs[i], before.tabs[i]),
        forall|i: int|
            index < i < now.tabs.len() ==> is_same_tab(#[trigger] now.tabs[i], before.tabs[i - 1]),
        now.window_id == before.window_id,
        now.capacity == before.capacity,
        now.retired == before.retired,
{
    let tab = choose|tab: TabModel|
        #[trigger] tab.is_rebound(moved, before.window_id) && now == (ManagerModel {
            tabs: before.tabs.insert(index, tab),
            current_index: index,
            ..before
        }).damaged();
    lemma_same_tab(now.tabs[index], tab, moved, before.window_id);
    assert forall|i: int| 0 <= i < index implies is_same_tab(
        #[trigger] now.tabs[i],
        before.tabs[i],
    ) by {
        assert(now.tabs[i] == before.tabs[i].damaged());
    }
    assert forall|i: int| index < i < now.tabs.len() implies is_same_tab(
        #[trigger] now.tabs[i],
        before.tabs[i - 1],
    ) by {
        assert(now.tabs[i] == before.tabs[i - 1].damaged());
    }
}

/// A tab that is dropped at a position of another window lands at that very
/// position; one that is dropped over none lands behind all tabs.
pub proof fn law_merged_tab_lands_where_it_was_dropped(
    windows: Seq<WindowFacts>,
    target: u64,
    index: Option<usize>,
    now: ManagerModel,
    before: ManagerModel,
    source: ManagerModel,
)
    requires
        source.well_formed(),
        source.tabs.len() > 0,
        merge_index(windows, target, index) is Some,
        merge_index(windows, target, index)->0 <= before.tabs.len(),
        is_received(
            now,
            before,
            source.current_tab(),
            merge_index(windows, target, index)->0 as int,
        ),
    ensures
        ({
            let tab = source.tabs[source.current_index];
            let at = now.current_index;
            &&& index matches Some(index) ==> at == index
            &&& index is None ==> exists|i: int|
                0 <= i < windows.len() && (#[trigger] windows[i]).id == target
                    && windows[i].terminal && at == windows[i].tabs
            &&& now.tabs.len() == before.tabs.len() + 1
            &&& 0 <= at < now.tabs.len()
            &&& is_same_tab(now.tabs[at], tab)
            &&& forall|i: int| 0 <= i < at ==> is_same_tab(#[trigger] now.tabs[i], before.tabs[i])
            &&& forall|i: int|
                at < i < now.tabs.len() ==> is_same_tab(#[trigger] now.tabs[i], before.tabs[i - 1])
        }),
{
    law_windows_are_found_by_number(windows, target, 0);
    law_received_tab_stands_at_its_position(
        now,
        before,
        source.tabs[source.current_index],
        merge_index(windows, target, index)->0 as int,
    );
}

/// A merge goes where the position says, whatever the windows are; without one it
/// goes behind the tabs of a window that shows its terminal, and nowhere where
/// there is none.
pub proof fn law_merge_position_is_the_given_one(
    windows: Seq<WindowFacts>,
    target: u64,
    index: usize,
)
    ensures
        merge_index(windows, target, Some(index)) == Some(index),
        merge_index(windows, target, None) is Some <==> (window_of(windows, target) matches Some(
            facts,
        ) && facts.terminal),
        merge_index(windows, target, None) matches Some(at) ==> at == window_of(
            windows,
            target,
        )->0.tabs,
{
}

/// All tabs of a window that is put into another one stand there in their order
/// from the position on, and the one that had the focus has it.
pub proof fn law_received_window_keeps_its_order(
    now: ManagerModel,
    before: ManagerModel,
    moved: ManagerModel,
    index: int,
)
    requires
        0 <= index <= before.tabs.len(),
        is_received_whole(now, before, moved, index),
    ensures
        now.tabs.len() == before.tabs.len() + moved.tabs.len(),
        now.current_index == index + moved.current_index,
        forall|i: int| 0 <= i < index ==> is_same_tab(#[trigger] now.tabs[i], before.tabs[i]),
        forall|i: int|
            index <= i < index + moved.tabs.len() ==> is_same_tab(
                #[trigger] now.tabs[i],
                moved.tabs[i - index],
            ),
        forall|i: int|
            index + moved.tabs.len() <= i < now.tabs.len() ==> is_same_tab(
                #[trigger] now.tabs[i],
                before.tabs[i - moved.tabs.len()],
            ),
{
    let tabs = choose|tabs: Seq<TabModel>|
        #[trigger] are_rebound(tabs, moved.tabs, before.window_id)
            && now == (ManagerModel {
            tabs: before.tabs.take(index) + tabs + before.tabs.skip(index),
            current_index: index + moved.current_index,
            ..before
        }).damaged();
    assert forall|i: int| index <= i < index + moved.tabs.len() implies is_same_tab(
        #[trigger] now.tabs[i],
        moved.tabs[i - index],
    ) by {
        assert(tabs[i - index].is_rebound(moved.tabs[i - index], before.window_id));
        lemma_same_tab(now.tabs[i], tabs[i - index], moved.tabs[i - index], before.window_id);
    }
    assert forall|i: int| 0 <= i < index implies is_same_tab(
        #[trigger] now.tabs[i],
        before.tabs[i],
    ) by {
        assert(now.tabs[i] == before.tabs[i].damaged());
    }
    assert forall|i: int| index + moved.tabs.len() <= i < now.tabs.len() implies is_same_tab(
        #[trigger] now.tabs[i],
        before.tabs[i - moved.tabs.len()],
    ) by {
        assert(now.tabs[i] == before.tabs[i - moved.tabs.len()].damaged());
    }
}

/// What was asked for stays asked for, and what follows is asked for behind it.
pub open spec fn asks_more(now: ApplicationModel, before: ApplicationModel) -> bool {
    &&& now.effects.len() >= before.effects.len()
    &&& now.effects.take(before.effects.len() as int) == before.effects
}

proof fn lemma_asks_more(a: ApplicationModel, b: ApplicationModel, c: ApplicationModel)
    requires
        asks_more(b, a),
        asks_more(c, b),
    ensures
        asks_more(c, a),
{
    let n = a.effects.len() as int;
    assert(c.effects.take(b.effects.len() as int).take(n) =~= c.effects.take(n));
}

/// What is asked for one after the other stands in that order at the end.
pub proof fn law_effects_are_asked_for_in_order(
    before: ApplicationModel,
    effect: EffectModel,
    more: Seq<EffectModel>,
)
    ensures
        before.emitting(effect).effects.len() == before.effects.len() + 1,
        before.emitting(effect).effects.last() == effect,
        asks_more(before.emitting(effect), before),
        before.emitting_all(more).effects.len() == before.effects.len() + more.len(),
        before.emitting_all(more).effects.skip(before.effects.len() as int) == more,
        asks_more(before.emitting_all(more), before),
        before.emitting(effect) == (ApplicationModel {
            effects: before.emitting(effect).effects,
            ..before
        }),
        before.emitting_all(more) == (ApplicationModel {
            effects: before.emitting_all(more).effects,
            ..before
        }),
{
    let n = before.effects.len() as int;
    assert(before.emitting(effect).effects.take(n) =~= before.effects);
    assert(before.emitting_all(more).effects.take(n) =~= before.effects);
    assert(before.emitting_all(more).effects.skip(n) =~= more);
}

/// A window whose last tab was merged goes, any other is drawn again; either way
/// the window that took the tab gets the focus last.
pub proof fn law_merge_focuses_the_target(
    before: ApplicationModel,
    source: u64,
    target: u64,
    emptied: bool,
)
    requires
        !before.merge_uses(source),
    ensures
        before.merged(source, target, emptied).effects == before.effects + if emptied {
            seq![EffectModel::RemoveWindow(source), EffectModel::Focus(target)]
        } else {
            seq![
                EffectModel::Refresh(source),
                EffectModel::Redraw(source),
                EffectModel::Focus(target),
            ]
        },
        before.merged(source, target, emptied) == (ApplicationModel {
            effects: before.merged(source, target, emptied).effects,
            ..before
        }),
{
    let now = before.merged(source, target, emptied);
    assert(now.effects =~= before.effects + if emptied {
        seq![EffectModel::RemoveWindow(source), EffectModel::Focus(target)]
    } else {
        seq![
            EffectModel::Refresh(source),
            EffectModel::Redraw(source),
            EffectModel::Focus(target),
        ]
    });
}

/// A merge uses a window as its source, as its target, as the window that is
/// armed for another program, or for what it lists; and no other.
pub proof fn law_merge_uses_its_own_windows(state: ApplicationModel, window: u64)
    ensures
        state.merge_uses(window) <==> {
            ||| state.source == Some(window)
            ||| (state.target matches Some(target) && target.0 == window)
            ||| (state.pending matches Some(pending) && pending.source_window == window)
            ||| (state.armed matches Some(armed) && armed.target_window == window)
            ||| (state.recovery_targets matches Some(targets) && targets.0 == window)
            ||| (state.probe matches Some(probe) && probe.source_window == window)
        },
{
}

/// A merge that is given up leaves nothing under way: no source, no target, no
/// question to other programs, no recovery and no marker. What has nothing to do
/// with it stays, and each program that was asked is told.
#[verifier::rlimit(40)]
pub proof fn law_given_up_merge_leaves_nothing(before: ApplicationModel)
    ensures
        ({
            let now = before.merge_cleared();
            &&& now.source is None
            &&& now.target is None
            &&& now.pending is None
            &&& now.armed is None
            &&& now.recovery_targets is None
            &&& now.probe is None
            &&& now.drop_marker is None
            &&& now.control == before.control
            &&& now.prepared == before.prepared
            &&& now.outgoing == before.outgoing
            &&& now.drag == before.drag
            &&& now.foreign == before.foreign
            &&& now.deferred == before.deferred
            &&& now.retained == before.retained
            &&& before.control is Some ==> (before.pending matches Some(pending) ==> forall|i: int|
                0 <= i < pending.targets.len() ==> now.effects.contains(
                    EffectModel::CancelSelection(
                        #[trigger] pending.targets[i],
                        pending.selection_id,
                    ),
                ))
            &&& before.control is Some ==> (before.armed matches Some(armed)
                ==> now.effects.contains(
                EffectModel::CancelSelection(armed.source, armed.selection_id),
            ))
            &&& before.source matches Some(source) ==> now.effects.contains(
                EffectModel::ClearSourceMarker(source),
            ) && now.effects.contains(EffectModel::Overlay(source, None))
            &&& before.target matches Some(target) ==> now.effects.contains(
                EffectModel::Overlay(target.0, None),
            )
        }),
{
    let a = before.pending_cancelled();
    let b = a.armed_cleared_and_told();
    let c = b.recovery_cleared();
    let d = c.source_cleared();
    let e = d.target_cleared();
    let now = before.merge_cleared();
    assert(asks_more(b, a)) by {
        assert(b.effects.take(a.effects.len() as int) =~= a.effects);
    }
    assert(asks_more(c, b)) by {
        assert(c.effects.take(b.effects.len() as int) =~= b.effects);
    }
    assert(asks_more(d, c)) by {
        assert(d.effects.take(c.effects.len() as int) =~= c.effects);
    }
    assert(asks_more(e, d)) by {
        assert(e.effects.take(d.effects.len() as int) =~= d.effects);
    }
    assert(asks_more(now, e)) by {
        assert(now.effects.take(e.effects.len() as int) =~= e.effects);
    }
    lemma_asks_more(d, e, now);
    lemma_asks_more(c, d, now);
    lemma_asks_more(b, c, now);
    lemma_asks_more(a, b, now);
    if before.control is Some && before.pending is Some {
        let pending = before.pending->0;
        assert forall|i: int| 0 <= i < pending.targets.len() implies now.effects.contains(
            EffectModel::CancelSelection(#[trigger] pending.targets[i], pending.selection_id),
        ) by {
            let k = before.effects.len() + i;
            assert(a.effects[k] == EffectModel::CancelSelection(
                pending.targets[i],
                pending.selection_id,
            ));
            assert(now.effects.take(a.effects.len() as int)[k] == now.effects[k]);
        }
    }
    if before.control is Some && before.armed is Some {
        let k = b.effects.len() - 1;
        assert(b.effects[k] == EffectModel::CancelSelection(
            before.armed->0.source,
            before.armed->0.selection_id,
        ));
        assert(now.effects.take(b.effects.len() as int)[k] == now.effects[k]);
    }
    if before.source is Some {
        let k = d.effects.len() - 2;
        assert(c.source == before.source);
        assert(d.effects[k] == EffectModel::ClearSourceMarker(before.source->0));
        assert(d.effects[k + 1] == EffectModel::Overlay(before.source->0, None));
        assert(now.effects.take(d.effects.len() as int)[k] == now.effects[k]);
        assert(now.effects.take(d.effects.len() as int)[k + 1] == now.effects[k + 1]);
    }
    if before.target is Some {
        assert(d.target == before.target);
        let k = d.effects.len() as int;
        assert(e.effects[k] == EffectModel::Overlay((before.target->0).0, None));
        assert(now.effects.take(e.effects.len() as int)[k] == now.effects[k]);
    }
}

/// A merge starts with a window that shows tabs: it becomes the source, and its
/// current tab is marked.
pub proof fn law_merge_starts_with_a_window_that_shows_tabs(
    before: ApplicationModel,
    windows: Seq<WindowFacts>,
    window: u64,
)
    ensures
        ({
            let now = before.merge_started(windows, window);
            match window_of(windows, window) {
                Some(facts) if facts.terminal && facts.tabs > 0 => {
                    &&& now.source == Some(window)
                    &&& now.effects == before.effects.push(
                        EffectModel::SourceMarker(window, facts.current_index),
                    ).push(EffectModel::Overlay(window, Some(WindowOverlay::MergeSource)))
                    &&& now.target == before.target
                    &&& now.pending == before.pending
                    &&& now.armed == before.armed
                },
                _ => now == before,
            }
        }),
{
}

/// The window under the pointer of a merge is its target where it shows its
/// terminal, is not the source, and has room at the position: that of the tab under
/// the pointer, or behind all tabs. Else there is no target.
pub proof fn law_pointed_window_is_the_target(
    before: ApplicationModel,
    windows: Seq<WindowFacts>,
    window: u64,
    drop_index: Option<usize>,
)
    requires
        before.source is Some,
    ensures
        ({
            let now = before.pointed(windows, window, drop_index);
            let source = before.source->0;
            match (window_of(windows, source), window_of(windows, window)) {
                (Some(from), Some(facts)) => {
                    let index = match drop_index {
                        Some(index) => index,
                        None => facts.tabs,
                    };
                    if source != window && from.terminal && from.tabs > 0 && facts.terminal && index
                        <= facts.tabs && facts.tabs + 1 <= facts.capacity {
                        &&& now.target == Some((window, index))
                        &&& now.drop_marker == Some(window)
                        &&& now.effects.len() >= before.effects.len() + 2
                        &&& now.effects.last() == EffectModel::Overlay(
                            window,
                            Some(WindowOverlay::MergeTarget),
                        )
                        &&& now.effects[now.effects.len() - 2] == EffectModel::DropMarker(
                            window,
                            index,
                        )
                    } else {
                        now.target is None && now.drop_marker is None
                    }
                },
                _ => now.target is None && now.drop_marker is None,
            }
        }),
        before.pointed(windows, window, drop_index).source == before.source,
        before.pointed(windows, window, drop_index).pending == before.pending,
{
}

/// A tab that is dropped over a window goes to the tab under the pointer, or behind
/// all tabs, where the window shows tabs and has room there.
pub proof fn law_drop_position_is_under_the_pointer(
    windows: Seq<WindowFacts>,
    window: u64,
    drop_index: Option<usize>,
    index: usize,
)
    ensures
        target_index(windows, window, drop_index) == match window_of(windows, window) {
            Some(facts) => {
                let at = match drop_index {
                    Some(at) => at,
                    None => facts.tabs,
                };
                if facts.terminal && 0 < facts.tabs < facts.capacity && at <= facts.tabs {
                    Some(at)
                } else {
                    None
                }
            },
            None => None,
        },
        takes_tab_at(windows, window, index) <==> (window_of(windows, window) matches Some(facts)
            && facts.terminal && 0 < facts.tabs < facts.capacity && index <= facts.tabs),
{
}

/// Only the window that shows where a tab goes has a marker: the one before loses
/// it.
pub proof fn law_one_window_has_the_marker(
    before: ApplicationModel,
    windows: Seq<WindowFacts>,
    window: u64,
    index: usize,
)
    ensures
        ({
            let now = before.marked(windows, window, index);
            &&& window_of(windows, window) is Some ==> {
                &&& now.drop_marker == Some(window)
                &&& now.effects.last() == EffectModel::DropMarker(window, index)
                &&& before.drop_marker is Some && before.drop_marker != Some(window)
                    ==> now.effects[now.effects.len() - 2] == EffectModel::ClearDropMarker(
                    before.drop_marker->0,
                )
            }
            &&& window_of(windows, window) is None ==> (now.drop_marker == before.drop_marker
                || now.drop_marker is None)
            &&& before.marker_cleared().drop_marker is None
            &&& before.drop_marker matches Some(other)
                ==> before.marker_cleared().effects == before.effects.push(
                EffectModel::ClearDropMarker(other),
            )
        }),
{
}

/// Each program that is asked to offer its windows is asked once, for a limited
/// time, and none has answered yet.
pub proof fn law_every_target_is_asked(
    before: ApplicationModel,
    windows: Seq<WindowFacts>,
    window: u64,
    targets: Seq<WindowEndpoint>,
    selection: u128,
    time: u64,
)
    requires
        time + 20_000 <= u64::MAX,
    ensures
        ({
            let now = before.selection_pending(windows, window, targets, selection, time);
            let n = now.effects.len() - targets.len();
            &&& now.source == Some(window)
            &&& now.pending is Some
            &&& now.pending->0.selection_id == selection
            &&& now.pending->0.source_window == window
            &&& now.pending->0.targets == targets
            &&& now.pending->0.armed == 0
            &&& now.pending->0.resolved.len() == 0
            &&& now.pending->0.deadline == time + 20_000
            &&& n >= before.effects.len()
            &&& forall|i: int|
                0 <= i < targets.len() ==> now.effects[n + i] == EffectModel::ArmSelection(
                    #[trigger] targets[i],
                    selection,
                )
        }),
{
}

/// A click in an armed window is told once, with the position that was pointed at,
/// and disarms the window; without a valid position nothing is told.
pub proof fn law_armed_click_is_told_with_its_position(
    before: ApplicationModel,
    windows: Seq<WindowFacts>,
)
    requires
        before.armed is Some,
        before.control is Some,
    ensures
        ({
            let armed = before.armed->0;
            let now = before.armed_input(armed, windows, ArmedInput::LeftPress);
            match armed.hover.index {
                Some(index) if takes_tab_at(windows, armed.target_window, index) => {
                    &&& now.armed is None
                    &&& now.effects.len() > before.effects.len()
                    &&& now.effects[before.effects.len() as int] == EffectModel::SendSelection(
                        armed.source,
                        armed.selection_id,
                        index,
                        true,
                    )
                },
                Some(index) => now.armed is Some && now.armed->0.hover.index is None,
                None => now == before,
            }
        }),
        before.armed_input(before.armed->0, windows, ArmedInput::OtherButton) == before,
        before.armed_input(before.armed->0, windows, ArmedInput::Other) == before,
{
}

/// The pointer over an armed window is told where it is, without a click, and told
/// again only where the position changed; outside of the tabs it points nowhere.
pub proof fn law_armed_pointer_is_told_its_position(
    before: ApplicationModel,
    windows: Seq<WindowFacts>,
    drop_index: Option<usize>,
)
    requires
        before.armed is Some,
        before.control is Some,
    ensures
        ({
            let armed = before.armed->0;
            let now = before.armed_input(armed, windows, ArmedInput::Moved(drop_index));
            match target_index(windows, armed.target_window, drop_index) {
                Some(index) => {
                    &&& now.armed is Some
                    &&& now.armed->0.hover.index == Some(index)
                    &&& now.armed->0.selection_id == armed.selection_id
                    &&& now.armed->0.source == armed.source
                    &&& armed.hover.index != Some(index) ==> now.effects.last()
                        == EffectModel::SendSelection(
                        armed.source,
                        armed.selection_id,
                        index,
                        false,
                    )
                    &&& armed.hover.index == Some(index) ==> !(now.effects.last() is SendSelection)
                },
                None => now.armed is Some && now.armed->0.hover.index is None,
            }
        }),
        ({
            let armed = before.armed->0;
            let now = before.armed_input(armed, windows, ArmedInput::Left);
            now.armed is Some && now.armed->0.hover.index is None
        }),
{
}

/// Another program may arm a window that shows tabs, has room for one more and is
/// not armed for someone else. Every request is answered.
pub proof fn law_arming_is_always_answered(
    before: ApplicationModel,
    windows: Seq<WindowFacts>,
    window: u64,
    selection: u128,
    source: WindowEndpoint,
    reply: u64,
    time: u64,
)
    ensures
        ({
            let now = before.arming(windows, window, selection, source, reply, time);
            let foreign = before.control matches Some(own) && own.instance != source.instance;
            let room = window_of(windows, window) matches Some(facts) && facts.terminal && 0
                < facts.tabs < facts.capacity;
            let taken = before.armed matches Some(armed) && armed.selection_id != selection;
            &&& now.effects.len() > before.effects.len()
            &&& now.effects.last() matches EffectModel::Reply(to, response) && to == reply && (
            response is SelectionArmed <==> foreign && room && !taken)
            &&& !foreign || !room ==> now.armed == before.armed && now.effects.last()
                == EffectModel::Reply(
                reply,
                ResponseModel::Rejected("target window is unavailable"@),
            )
            &&& foreign && room && taken ==> now.armed == before.armed && now.effects.last()
                == EffectModel::Reply(
                reply,
                ResponseModel::Rejected("target already has a merge selection"@),
            )
            &&& foreign && room && !taken ==> {
                &&& now.armed is Some
                &&& now.armed->0.selection_id == selection
                &&& now.armed->0.source == source
                &&& now.armed->0.target_window == window
                &&& now.armed->0.hover.index is None
            }
        }),
{
}

/// The answers of programs that were asked are counted once each; where all have
/// answered and none has a window, the merge is given up. An answer to nothing that
/// is asked disarms the window again.
pub proof fn law_answers_count_once(
    before: ApplicationModel,
    selection: u128,
    target: WindowEndpoint,
    armed: bool,
)
    ensures
        ({
            let now = before.arm_answered(selection, target, armed);
            match before.pending {
                Some(pending) if pending.selection_id == selection => {
                    if pending.resolved.contains(target.instance) {
                        now == before
                    } else {
                        let count = if armed {
                            (pending.armed + 1) as usize
                        } else {
                            pending.armed
                        };
                        let resolved = pending.resolved.insert(target.instance);
                        if resolved.len() == pending.targets.len() && count == 0 {
                            now.pending is None && now.source is None
                        } else {
                            &&& now.pending is Some
                            &&& now.pending->0.armed == count
                            &&& now.pending->0.resolved == resolved
                            &&& now.pending->0.targets == pending.targets
                            &&& now.source == before.source
                            &&& now.effects == before.effects
                        }
                    }
                },
                _ => {
                    &&& now.pending == before.pending
                    &&& now.effects == if armed && before.control is Some {
                        before.effects.push(EffectModel::CancelSelection(target, selection))
                    } else {
                        before.effects
                    }
                },
            }
        }),
{
}

/// A click in a window of another program that was asked merges the source into it,
/// at the position that was clicked; mere motion changes nothing.
pub proof fn law_clicked_window_takes_the_tab(
    before: ApplicationModel,
    selection: u128,
    window: u64,
    index: u32,
    clicked: bool,
)
    ensures
        ({
            let now = before.selection_told(selection, window, index, clicked);
            let asked = before.pending is Some && before.pending->0.selection_id == selection
                && endpoint_from(before.pending->0.targets, window, 0) is Some;
            &&& asked && clicked ==> {
                &&& now.effects.last() == EffectModel::MergeForeign(
                    before.pending->0.source_window,
                    endpoint_from(before.pending->0.targets, window, 0)->0,
                    index as usize,
                )
                &&& now.pending is None
                &&& now.source is None
            }
            &&& !(asked && clicked) ==> now == before
        }),
{
}

/// A window of another program is found by its number among those that were asked.
pub proof fn law_endpoints_are_found_by_window(
    targets: Seq<WindowEndpoint>,
    window: u64,
    from: int,
)
    requires
        0 <= from <= targets.len(),
    ensures
        match endpoint_from(targets, window, from) {
            Some(target) => target.native_window_id == window && exists|i: int|
                from <= i < targets.len() && #[trigger] targets[i] == target,
            None => forall|i: int|
                from <= i < targets.len() ==> (#[trigger] targets[i]).native_window_id != window,
        },
    decreases targets.len() - from,
{
    if from < targets.len() && targets[from].native_window_id != window {
        law_endpoints_are_found_by_window(targets, window, from + 1);
    } else if from < targets.len() {
        assert(targets[from].native_window_id == window);
    }
}

/// What another program says it took is right where it took only what was offered,
/// each pane once, with numbers that fit.
pub proof fn law_commits_are_checked_one_by_one(source: Seq<u64>, committed: Seq<u64>, n: int)
    requires
        0 <= n <= committed.len(),
    ensures
        commit_error(source, committed, n) is None <==> forall|i: int|
            0 <= i < n ==> source.contains(#[trigger] committed[i]) && committed[i] <= usize::MAX
                && forall|j: int| 0 <= j < i ==> committed[j] != committed[i],
    decreases n,
{
    if n > 0 {
        law_commits_are_checked_one_by_one(source, committed, n - 1);
        let id = committed[n - 1];
        let earlier = committed.take(n - 1);
        if earlier.contains(id) {
            let j = choose|j: int| 0 <= j < earlier.len() && earlier[j] == id;
            assert(committed[j] == id);
        } else {
            assert forall|j: int| 0 <= j < n - 1 implies committed[j] != id by {
                assert(earlier[j] == committed[j]);
            }
        }
        assert(route_error(source, committed, n - 1) is None <==> source.contains(id) && id
            <= usize::MAX && forall|j: int| 0 <= j < n - 1 ==> committed[j] != id);
    }
}

/// What has waited too long, and what has time, are told apart by their deadlines,
/// each in its order.
pub proof fn law_deadlines_part_what_waits(list: Seq<PreparedModel>, now: u64, n: int)
    requires
        0 <= n <= list.len(),
    ensures
        expired_of(list, now, n) == list.take(n).filter(|p: PreparedModel| p.deadline <= now),
        in_time_of(list, now, n) == list.take(n).filter(|p: PreparedModel| p.deadline > now),
    decreases n,
{
    reveal(Seq::filter);
    if n > 0 {
        law_deadlines_part_what_waits(list, now, n - 1);
        assert(list.take(n).drop_last() =~= list.take(n - 1));
        assert(list.take(n).last() == list[n - 1]);
    } else {
        assert(list.take(n) =~= Seq::<PreparedModel>::empty());
    }
}

/// What is complete, and what still waits, are told apart by whether as many panes
/// are shown as were taken over.
pub proof fn law_complete_imports_have_all_panes_shown(list: Seq<PreparedModel>, n: int)
    requires
        0 <= n <= list.len(),
    ensures
        complete_of(list, n) == list.take(n).filter(
            |p: PreparedModel| p.ready.len() == p.routes.len(),
        ),
        waiting_of(list, n) == list.take(n).filter(
            |p: PreparedModel| p.ready.len() != p.routes.len(),
        ),
    decreases n,
{
    reveal(Seq::filter);
    if n > 0 {
        law_complete_imports_have_all_panes_shown(list, n - 1);
        assert(list.take(n).drop_last() =~= list.take(n - 1));
        assert(list.take(n).last() == list[n - 1]);
    } else {
        assert(list.take(n) =~= Seq::<PreparedModel>::empty());
    }
}

/// A pane that is shown counts for what was taken over into its window with that
/// pane, and for nothing else.
pub proof fn law_shown_panes_count_where_they_belong(
    before: PreparedModel,
    window: u64,
    ready: Seq<usize>,
    n: int,
    route: usize,
)
    requires
        0 <= n <= ready.len(),
    ensures
        ({
            let now = before.noting(window, ready, n);
            &&& now.ready.contains(route) <==> before.ready.contains(route) || (
            before.window_id == window && has_target(before.routes, route) && exists|i: int|
                0 <= i < n && #[trigger] ready[i] == route)
            &&& now.routes == before.routes
            &&& now.window_id == before.window_id
            &&& now.deadline == before.deadline
            &&& now.completion == before.completion
        }),
        has_target(before.routes, route) <==> exists|i: int|
            0 <= i < before.routes.len() && (#[trigger] before.routes[i]).target_route == route,
    decreases n,
{
    if n > 0 {
        law_shown_panes_count_where_they_belong(before, window, ready, n - 1, route);
        law_shown_panes_count_where_they_belong(before, window, ready, n - 1, ready[n - 1]);
    }
}

/// The pane that has the focus in what is left of a window, if anything is.
pub proof fn law_remaining_pane_has_the_focus(manager: ManagerModel)
    ensures
        manager.tabs.len() == 0 ==> remaining_route(manager) is None,
        manager.tabs.len() > 0 ==> {
            let tab = manager.tabs[manager.current_index];
            remaining_route(manager) == Some(tab.panes[tab.current].route_id)
        },
{
}

/// Panes that were taken over in vain are forgotten; their window is drawn again
/// where it has others, and else it goes.
pub proof fn law_vain_imports_are_forgotten(
    before: ApplicationModel,
    window: u64,
    routes: Seq<usize>,
    remaining: Option<usize>,
)
    ensures
        ({
            let now = before.unprepared(window, routes, remaining);
            let n = before.effects.len() as int;
            &&& now.effects.len() > n
            &&& now.effects[n] == EffectModel::DiscardRoutes(window, routes)
            &&& remaining is Some ==> now.effects == before.effects + seq![
                EffectModel::DiscardRoutes(window, routes),
                EffectModel::Refresh(window),
                EffectModel::Redraw(window),
            ]
            &&& remaining is None ==> now.effects.last() == EffectModel::RemoveWindow(window)
        }),
{
    let now = before.unprepared(window, routes, remaining);
    let first = before.emitting(EffectModel::DiscardRoutes(window, routes));
    if remaining is Some {
        assert(now.effects =~= before.effects + seq![
            EffectModel::DiscardRoutes(window, routes),
            EffectModel::Refresh(window),
            EffectModel::Redraw(window),
        ]);
    } else {
        lemma_clearing_asks_more(first, window);
        let cleared = first.merge_cleared_if(window);
        let n = before.effects.len() as int;
        assert(cleared.effects.take(n + 1)[n] == cleared.effects[n]);
    }
}

proof fn lemma_clearing_asks_more(before: ApplicationModel, window: u64)
    ensures
        asks_more(before.merge_cleared_if(window), before),
{
    let a = before.pending_cancelled();
    let b = a.armed_cleared_and_told();
    let c = b.recovery_cleared();
    let d = c.source_cleared();
    let e = d.target_cleared();
    let now = before.merge_cleared();
    assert(a.effects.take(before.effects.len() as int) =~= before.effects);
    assert(b.effects.take(a.effects.len() as int) =~= a.effects);
    assert(c.effects.take(b.effects.len() as int) =~= b.effects);
    assert(d.effects.take(c.effects.len() as int) =~= c.effects);
    assert(e.effects.take(d.effects.len() as int) =~= d.effects);
    assert(now.effects.take(e.effects.len() as int) =~= e.effects);
    lemma_asks_more(d, e, now);
    lemma_asks_more(c, d, now);
    lemma_asks_more(b, c, now);
    lemma_asks_more(a, b, now);
    lemma_asks_more(before, a, now);
    assert(before.effects.take(before.effects.len() as int) =~= before.effects);
}

/// The windows that list targets or sessions are those of the merge or recovery that
/// is under way, each once.
pub proof fn law_listing_windows_are_those_of_the_merge(state: ApplicationModel, window: u64)
    ensures
        state.palette_windows().contains(window) <==> {
            ||| state.source == Some(window)
            ||| (state.pending matches Some(pending) && pending.source_window == window)
            ||| (state.recovery_targets matches Some(targets) && targets.0 == window)
            ||| (state.probe matches Some(probe) && probe.source_window == window)
        },
        state.palette_windows().no_duplicates(),
        state.source_uses(window) <==> state.palette_windows().contains(window),
{
    let a = match state.source {
        Some(window) => with_window(Seq::empty(), window),
        None => Seq::empty(),
    };
    let b = match state.pending {
        Some(pending) => with_window(a, pending.source_window),
        None => a,
    };
    let c = match state.recovery_targets {
        Some(targets) => with_window(b, targets.0),
        None => b,
    };
    if state.source is Some {
        lemma_with_window(Seq::empty(), state.source->0, window);
    }
    if state.pending is Some {
        lemma_with_window(a, state.pending->0.source_window, window);
    }
    if state.recovery_targets is Some {
        lemma_with_window(b, (state.recovery_targets->0).0, window);
    }
    if state.probe is Some {
        lemma_with_window(c, state.probe->0.source_window, window);
    }
}

proof fn lemma_with_window(list: Seq<u64>, added: u64, window: u64)
    requires
        list.no_duplicates(),
    ensures
        with_window(list, added).contains(window) <==> list.contains(window) || window == added,
        with_window(list, added).no_duplicates(),
{
    let all = list.push(added);
    assert(all[list.len() as int] == added);
    if list.contains(window) {
        let i = choose|i: int| 0 <= i < list.len() && list[i] == window;
        assert(all[i] == window);
    }
    if !list.contains(added) {
        assert forall|i: int, j: int|
            0 <= i < all.len() && 0 <= j < all.len() && i != j implies all[i] != all[j] by {
            if i == list.len() {
                assert(list.contains(list[j]));
            } else if j == list.len() {
                assert(list.contains(list[i]));
            }
        }
    }
}

/// A merge that is given up takes its lists off all windows that show them, last.
pub proof fn law_given_up_merge_clears_its_lists(before: ApplicationModel)
    ensures
        ({
            let now = before.merge_cleared();
            let listing = before.palette_windows();
            let n = now.effects.len() - listing.len();
            &&& n >= before.effects.len()
            &&& forall|i: int|
                0 <= i < listing.len() ==> now.effects[n + i] == EffectModel::ClearMergeUi(
                    #[trigger] listing[i],
                )
            &&& now.effects[n - 1] != EffectModel::DrainProbes ==> now.effects.take(n).contains(
                EffectModel::DrainProbes,
            )
        }),
{
    let a = before.pending_cancelled();
    let b = a.armed_cleared_and_told();
    let c = b.recovery_cleared();
    let d = c.source_cleared();
    let e = d.target_cleared();
    let now = before.merge_cleared();
    let k = c.effects.len() - 1;
    assert(c.effects[k] == EffectModel::DrainProbes);
    let n = e.effects.len() as int;
    assert(now.effects.take(n)[k] == EffectModel::DrainProbes);
}

/// A window that is no longer armed shows no sign of it; one that the pointer left
/// stays armed and points nowhere.
pub proof fn law_unarmed_window_shows_nothing(before: ApplicationModel, window: u64)
    requires
        before.armed is Some,
    ensures
        ({
            let target = before.armed->0.target_window;
            let now = before.armed_cleared();
            let n = before.effects.len() as int;
            &&& now.armed is None
            &&& now.effects.len() > n
            &&& now.effects[n] == EffectModel::Overlay(target, None)
            &&& before.drop_marker == Some(target) ==> now.drop_marker is None
            &&& before.drop_marker != Some(target) ==> now.drop_marker == before.drop_marker
        }),
        ({
            let now = before.hover_cleared(window);
            let n = before.effects.len() as int;
            &&& now.armed is Some
            &&& now.armed->0.selection_id == before.armed->0.selection_id
            &&& now.armed->0.source == before.armed->0.source
            &&& now.armed->0.target_window == before.armed->0.target_window
            &&& before.armed->0.target_window == window ==> now.armed->0.hover.index is None
            &&& before.armed->0.target_window != window ==> now.armed == before.armed
            &&& now.effects.len() > n
            &&& now.effects[n] == EffectModel::Overlay(window, None)
            &&& before.drop_marker == Some(window) ==> now.drop_marker is None
        }),
{
}

/// A tab that came back is where it was, with the tabs before and behind it in their
/// order.
pub proof fn law_tab_that_came_back_is_where_it_was(
    now: ManagerModel,
    before: ManagerModel,
    at: int,
)
    requires
        0 <= at < before.tabs.len(),
        is_put_back(now, before, at),
    ensures
        now.tabs.len() == before.tabs.len(),
        now.current_index == at,
        forall|i: int|
            0 <= i < now.tabs.len() ==> is_same_tab(#[trigger] now.tabs[i], before.tabs[i]),
{
    let rest = before.without_tab(at).damaged();
    law_received_tab_stands_at_its_position(now, rest, before.tabs[at], at);
    assert forall|i: int| 0 <= i < now.tabs.len() implies is_same_tab(
        #[trigger] now.tabs[i],
        before.tabs[i],
    ) by {
        if i < at {
            assert(is_same_tab(now.tabs[i], rest.tabs[i]));
            assert(rest.tabs[i] == before.tabs[i].damaged());
            lemma_same_as_damaged(now.tabs[i], before.tabs[i]);
        } else if i > at {
            assert(is_same_tab(now.tabs[i], rest.tabs[i - 1]));
            assert(rest.tabs[i - 1] == before.tabs[i].damaged());
            lemma_same_as_damaged(now.tabs[i], before.tabs[i]);
        }
    }
}

proof fn lemma_same_as_damaged(now: TabModel, before: TabModel)
    requires
        is_same_tab(now, before.damaged()),
    ensures
        is_same_tab(now, before),
{
    assert forall|p: int| 0 <= p < now.panes.len() implies {
        &&& (#[trigger] now.panes[p]).route_id == before.panes[p].route_id
        &&& now.panes[p].rich_text_id == before.panes[p].rich_text_id
        &&& now.panes[p].title == before.panes[p].title
        &&& now.panes[p].dimension == before.panes[p].dimension
        &&& now.panes[p].terminal@.grid == before.panes[p].terminal@.grid
        &&& (now.panes[p].terminal@.session is Some) == (
        before.panes[p].terminal@.session is Some)
        &&& now.panes[p].terminal@.session matches Some(session) ==> session.commands
            == before.panes[p].terminal@.session->0.commands && session.state
            == before.panes[p].terminal@.session->0.state && session.closed
            == before.panes[p].terminal@.session->0.closed
    } by {
        assert(before.damaged().panes[p] == before.panes[p].damaged());
    }
}

/// Panes that are shown are noted wherever they are waited for, in the order of what
/// waits.
pub proof fn law_shown_panes_are_noted_everywhere(
    list: Seq<PreparedModel>,
    window: u64,
    ready: Seq<usize>,
    i: int,
)
    requires
        0 <= i < list.len(),
    ensures
        all_noted(list, window, ready).len() == list.len(),
        all_noted(list, window, ready)[i] == list[i].noting(window, ready, ready.len() as int),
{
}

/// A window that is no longer the target of a merge is unmarked first.
pub proof fn law_left_target_is_unmarked(
    before: ApplicationModel,
    windows: Seq<WindowFacts>,
    window: u64,
    drop_index: Option<usize>,
)
    requires
        before.source is Some,
        before.target is Some,
    ensures
        ({
            let now = before.pointed(windows, window, drop_index);
            let old = (before.target->0).0;
            let n = before.effects.len() as int;
            &&& now.target is None || (now.target->0).0 != old ==> now.effects.len() > n
                && now.effects[n] == EffectModel::Overlay(old, None)
            &&& asks_more(now, before)
            &&& now.armed == before.armed
            &&& now.recovery_targets == before.recovery_targets
            &&& now.probe == before.probe
            &&& now.drag == before.drag
        }),
{
    let now = before.pointed(windows, window, drop_index);
    assert(now.effects.take(before.effects.len() as int) =~= before.effects);
}

/// The window whose tab is to be merged is marked at its current tab before others are
/// asked, and what was under way besides stays.
pub proof fn law_asking_marks_the_source(
    before: ApplicationModel,
    windows: Seq<WindowFacts>,
    window: u64,
    targets: Seq<WindowEndpoint>,
    selection: u128,
    time: u64,
)
    ensures
        ({
            let now = before.selection_pending(windows, window, targets, selection, time);
            let n = before.effects.len() as int;
            let m = now.effects.len() - targets.len();
            &&& window_of(windows, window) matches Some(facts) ==> m == n + 2 && now.effects[n]
                == EffectModel::SourceMarker(window, facts.current_index)
            &&& window_of(windows, window) is None ==> m == n + 1
            &&& now.effects[m - 1] == EffectModel::Overlay(
                window,
                Some(WindowOverlay::MergeSource),
            )
            &&& now.target == before.target
            &&& now.armed == before.armed
            &&& now.drop_marker == before.drop_marker
            &&& now.recovery_targets == before.recovery_targets
        }),
{
}

/// A pointer that comes into an armed window points behind all its tabs at first, and
/// the other program is told; the place is shown, and shown again with each motion.
pub proof fn law_armed_window_shows_where_a_tab_goes(
    before: ApplicationModel,
    windows: Seq<WindowFacts>,
    drop_index: Option<usize>,
)
    requires
        before.armed is Some,
        before.control is Some,
    ensures
        ({
            let armed = before.armed->0;
            let window = armed.target_window;
            let now = before.armed_input(armed, windows, ArmedInput::Entered);
            let n = before.effects.len() as int;
            match target_index(windows, window, None) {
                Some(index) => {
                    &&& now.armed is Some
                    &&& now.armed->0.hover.index == Some(index)
                    &&& now.armed->0.source == armed.source
                    &&& now.armed->0.selection_id == armed.selection_id
                    &&& now.effects[n] == EffectModel::Overlay(
                        window,
                        Some(WindowOverlay::MergeTarget),
                    )
                    &&& now.effects.last() == EffectModel::SendSelection(
                        armed.source,
                        armed.selection_id,
                        index,
                        false,
                    )
                    &&& now.effects[now.effects.len() - 2] == EffectModel::DropMarker(
                        window,
                        index,
                    )
                    &&& now.drop_marker == Some(window)
                },
                None => now == before.hover_cleared(window),
            }
        }),
        ({
            let armed = before.armed->0;
            let window = armed.target_window;
            let now = before.armed_input(armed, windows, ArmedInput::Moved(drop_index));
            let n = before.effects.len() as int;
            match target_index(windows, window, drop_index) {
                Some(index) => {
                    &&& now.effects.len() > n
                    &&& now.effects[n] == EffectModel::Overlay(
                        window,
                        Some(WindowOverlay::MergeTarget),
                    )
                    &&& now.drop_marker == Some(window)
                    &&& armed.hover.index == Some(index) ==> now.effects.last()
                        == EffectModel::DropMarker(window, index)
                    &&& armed.hover.index != Some(index) ==> now.effects[now.effects.len() - 2]
                        == EffectModel::DropMarker(window, index)
                },
                None => now == before.hover_cleared(window),
            }
        }),
        before.armed_input(before.armed->0, windows, ArmedInput::Left) == before.hover_cleared(
            before.armed->0.target_window,
        ),
{
}

/// An armed window waits for some time; what was armed before is unmarked first.
pub proof fn law_armed_window_waits_for_a_while(
    before: ApplicationModel,
    windows: Seq<WindowFacts>,
    window: u64,
    selection: u128,
    source: WindowEndpoint,
    reply: u64,
    time: u64,
)
    requires
        time + 20_000 <= u64::MAX,
    ensures
        ({
            let now = before.arming(windows, window, selection, source, reply, time);
            let n = before.effects.len() as int;
            let armed = now.effects.last() == EffectModel::Reply(
                reply,
                ResponseModel::SelectionArmed,
            );
            &&& armed ==> now.armed is Some && now.armed->0.deadline == time + 20_000
            &&& armed ==> (before.armed matches Some(old) ==> now.effects[n]
                == EffectModel::Overlay(old.target_window, None))
            &&& now.source == before.source
            &&& now.target == before.target
            &&& now.pending == before.pending
            &&& asks_more(now, before)
        }),
{
    let now = before.arming(windows, window, selection, source, reply, time);
    assert(now.effects.take(before.effects.len() as int) =~= before.effects);
}

} // verus!
