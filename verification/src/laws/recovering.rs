//! Panes of other programs and sessions left behind: how they are taken in, listed
//! and committed.

use crate::application::import::{
    incoming_window, outgoing_result, paired, prepared_error, renamed,
    uncommitted_of, without_placeholder, IncomingCommit,
};
use crate::application::outbox::{window_of, EffectModel, ResponseModel, WindowFacts};
use crate::application::recovery::{
    label_of, line_of, next_probe, recovery_line, tried, unowned, without_controls,
};
use crate::application::state::{
    ApplicationModel, CandidateModel, PendingPreparedCompletion, PendingPreparedRoute,
};
use crate::application::transfer::{commit_error, transferred_away};
use crate::context::manager::{tab_with_route, ManagerModel};
use crate::context::protocol::SessionDescriptor;
use crate::context::pump::PreparedSession;
use crate::context::tab::{pane_with_route, PaneOffer};

use crate::text::{char_is_control, trimmed};
use vstd::prelude::*;

verus! {

/// A prepared pane can take its session over where it is still there and could show
/// its frame; else the reason names what the pane was for.
pub proof fn law_prepared_panes_can_take_over(manager: ManagerModel, route: usize, kind: Seq<char>)
    ensures
        prepared_error(manager, route, kind) is None <==> (tab_with_route(manager.tabs, route, 0)
            matches Some(t) && ({
            let panes = manager.tabs[t].panes;
            panes[pane_with_route(panes, route, 0)->0].terminal@.decode_error is None
        })),
        tab_with_route(manager.tabs, route, 0) is None ==> (prepared_error(manager, route, kind)
            matches Some(words) && words.take(kind.len() as int) == kind),
{
    let words = kind + " target route disappeared"@;
    assert(words.take(kind.len() as int) =~= kind);
}

/// The panes that were not committed are all but those with the number of a committed
/// one, in their order.
pub proof fn law_uncommitted_panes_are_the_others(
    routes: Seq<PendingPreparedRoute>,
    done: int,
    n: int,
)
    requires
        0 <= done <= routes.len(),
        0 <= n <= routes.len(),
    ensures
        uncommitted_of(routes, done, n) == routes.take(n).map_values(
            |r: PendingPreparedRoute| r.target_route,
        ).filter(
            |r: usize|
                !routes.take(done).map_values(|c: PendingPreparedRoute| c.target_route).contains(r),
        ),
    decreases n,
{
    reveal(Seq::filter);
    let targets = |k: int| routes.take(k).map_values(|r: PendingPreparedRoute| r.target_route);
    let committed = routes.take(done).map_values(|c: PendingPreparedRoute| c.target_route);
    if n > 0 {
        law_uncommitted_panes_are_the_others(routes, done, n - 1);
        let all = routes.take(n).map_values(|r: PendingPreparedRoute| r.target_route);
        assert(all.drop_last() =~= routes.take(n - 1).map_values(
            |r: PendingPreparedRoute| r.target_route,
        ));
        let last = routes[n - 1].target_route;
        assert(all.last() == last);
        if committed.contains(last) {
            let i = choose|i: int| 0 <= i < committed.len() && committed[i] == last;
            assert(routes[i].target_route == last);
        }
        if exists|i: int| 0 <= i < done && (#[trigger] routes[i]).target_route == last {
            let i = choose|i: int| 0 <= i < done && (#[trigger] routes[i]).target_route == last;
            assert(committed[i] == last);
        }
    } else {
        assert(routes.take(0).map_values(|r: PendingPreparedRoute| r.target_route)
            =~= Seq::<usize>::empty());
    }
}

/// Panes are committed one after the other, up to the first that fails; the other
/// program is told the numbers of those that were, or the error where none was.
pub proof fn law_commits_are_told(commit: IncomingCommit)
    requires
        commit.well_formed(),
    ensures
        commit.error is Some ==> commit.next() is None,
        commit.error is None && commit.committed < commit.routes@.len() ==> commit.next() == Some(
            commit.routes@[commit.committed as int].target_route,
        ),
        commit.committed >= commit.routes@.len() ==> commit.next() is None,
        commit.error is Some && commit.committed == 0 ==> commit.answer()
            == ResponseModel::Rejected((commit.error->0)@),
        commit.error is None || commit.committed > 0 ==> (commit.answer()
            matches ResponseModel::Committed(routes) && routes.len() == commit.committed
            && forall|i: int|
            0 <= i < commit.committed ==> Some(#[trigger] routes[i])
                == commit.routes@[i].source_route),
{
}

/// Panes and sessions belong together by their order, as far as there are both; so do
/// the numbers of panes there and here.
pub proof fn law_panes_and_sessions_are_paired(
    panes: Seq<PaneOffer>,
    sessions: Seq<PreparedSession>,
    targets: Seq<usize>,
    i: int,
)
    ensures
        ({
            let pairs = paired(panes, sessions);
            let names = renamed(panes, targets);
            &&& pairs.len() <= panes.len()
            &&& pairs.len() <= sessions.len()
            &&& pairs.len() == panes.len() || pairs.len() == sessions.len()
            &&& 0 <= i < pairs.len() ==> pairs[i].offer == panes[i] && pairs[i].session
                == sessions[i]
            &&& names.len() <= panes.len()
            &&& names.len() <= targets.len()
            &&& names.len() == panes.len() || names.len() == targets.len()
            &&& 0 <= i < names.len() ==> names[i].source_route == Some(panes[i].route_id)
                && names[i].target_route == targets[i]
        }),
{
}

/// An offer for a window goes to that window, where it shows its terminal; one for
/// none goes to the focused window, or else to the first.
pub proof fn law_offers_go_to_their_window(
    windows: Seq<WindowFacts>,
    window: u64,
    focused: Option<u64>,
)
    ensures
        incoming_window(windows, Some(window), focused) == (if window_of(windows, window) is Some
            && (window_of(windows, window)->0).terminal {
            Some(window)
        } else {
            None
        }),
        focused is Some ==> incoming_window(windows, None, focused) == focused,
        focused is None && windows.len() > 0 ==> incoming_window(windows, None, focused) == Some(
            windows[0].id,
        ),
        focused is None && windows.len() == 0 ==> incoming_window(windows, None, focused) is None,
{
}

/// The pane that kept a place goes once what it was kept for is there.
pub proof fn law_placeholder_goes(manager: ManagerModel)
    ensures
        manager.bootstrap_transfer is None ==> without_placeholder(manager) == manager,
        manager.bootstrap_transfer matches Some(kept) ==> without_placeholder(manager)
            == transferred_away(
            ManagerModel { bootstrap_transfer: None, ..manager },
            seq![kept.1],
        ),
{
}

/// Panes that were taken in wait for some time until all of them are shown, behind
/// what waits already; their window is drawn and woken, and what kept their place is
/// forgotten first.
pub proof fn law_installed_panes_wait_to_be_shown(
    before: ApplicationModel,
    window: u64,
    reply: u64,
    routes: Seq<PendingPreparedRoute>,
    placeholder: Option<(u128, usize)>,
    time: u64,
)
    requires
        time + 25_000 <= u64::MAX,
    ensures
        ({
            let now = before.installed(window, reply, routes, placeholder, time);
            let n = before.effects.len() as int;
            let m = now.effects.len() as int;
            &&& now.prepared.len() == before.prepared.len() + 1
            &&& now.prepared.drop_last() == before.prepared
            &&& now.prepared.last().routes == routes
            &&& now.prepared.last().ready.len() == 0
            &&& now.prepared.last().window_id == window
            &&& now.prepared.last().deadline == time + 25_000
            &&& now.prepared.last().completion == PendingPreparedCompletion::Incoming(reply)
            &&& placeholder is None ==> m == n + 3
            &&& placeholder matches Some(kept) ==> m == n + 4 && now.effects[n]
                == EffectModel::DiscardRoutes(window, seq![kept.1])
            &&& now.effects[m - 3] == EffectModel::Refresh(window)
            &&& now.effects[m - 2] == EffectModel::Redraw(window)
            &&& now.effects[m - 1] == EffectModel::Wake(window)
            &&& now.drag == before.drag
            &&& now.outgoing == before.outgoing
            &&& now.source == before.source
        }),
{
    let now = before.installed(window, reply, routes, placeholder, time);
    assert(now.prepared.drop_last() =~= before.prepared);
}

/// What was offered is found by its number: the first that has it.
pub proof fn law_offers_are_found_by_number(state: ApplicationModel, transfer: u128, from: int)
    requires
        0 <= from <= state.outgoing.len(),
    ensures
        match state.outgoing_at(transfer, from) {
            Some(i) => from <= i < state.outgoing.len() && state.outgoing[i].transfer_id
                == transfer && forall|j: int|
                from <= j < i ==> (#[trigger] state.outgoing[j]).transfer_id != transfer,
            None => forall|j: int|
                from <= j < state.outgoing.len() ==> (#[trigger] state.outgoing[j]).transfer_id
                    != transfer,
        },
    decreases state.outgoing.len() - from,
{
    if from < state.outgoing.len() && state.outgoing[from].transfer_id != transfer {
        law_offers_are_found_by_number(state, transfer, from + 1);
    }
}

/// Panes that went to another program are forgotten here: their window is drawn again,
/// or goes with the last of them.
pub proof fn law_gone_panes_are_forgotten(
    before: ApplicationModel,
    window: u64,
    routes: Seq<usize>,
    emptied: bool,
)
    requires
        !before.merge_uses(window),
    ensures
        ({
            let now = before.gone(window, routes, emptied);
            let forgotten = before.effects.push(EffectModel::DiscardRoutes(window, routes));
            &&& emptied ==> now.effects == forgotten.push(EffectModel::RemoveWindow(window))
                && now.exit_after_transfer
            &&& !emptied ==> now.effects == forgotten.push(EffectModel::Refresh(window)).push(
                EffectModel::Redraw(window),
            ) && now.exit_after_transfer == before.exit_after_transfer
            &&& now.drag == before.drag
            &&& now.prepared == before.prepared
        }),
{
}

/// What came of an offer is right where something was taken and only what was offered:
/// those panes are gone. Else the error is told, and that of the other program as it
/// is.
pub proof fn law_outcome_names_what_was_taken(
    offered: Seq<u64>,
    taken: Vec<u64>,
    error: String,
)
    ensures
        outgoing_result(offered, Err(error)) == Err::<Seq<usize>, Seq<char>>(error@),
        outgoing_result(offered, Ok(taken)) is Ok <==> taken@.len() > 0 && commit_error(
            offered,
            taken@,
            taken@.len() as int,
        ) is None,
        outgoing_result(offered, Ok(taken)) matches Ok(gone) ==> gone.len() == taken@.len()
            && forall|i: int| 0 <= i < gone.len() ==> #[trigger] gone[i] == taken@[i] as usize,
        taken@.len() > 0 ==> (commit_error(offered, taken@, taken@.len() as int) matches Some(
            words,
        ) ==> outgoing_result(offered, Ok(taken)) == Err::<Seq<usize>, Seq<char>>(words)),
{
}

/// A listed name has no control codes, in the order of the rest.
pub proof fn law_names_have_no_controls(s: Seq<char>)
    ensures
        without_controls(s) == s.filter(|c: char| !char_is_control(c)),
    decreases s.len(),
{
    reveal(Seq::filter);
    if s.len() > 0 {
        law_names_have_no_controls(s.drop_last());
    }
}

/// A session is listed by its title, or where that is blank by its directory, without
/// control codes and cut to so many characters; where nothing is left it is unnamed.
pub proof fn law_sessions_are_listed_by_title_or_directory(
    title: Seq<char>,
    dir: Option<Seq<char>>,
)
    ensures
        ({
            let label = label_of(title, dir);
            let plain = |s: Seq<char>| s.filter(|c: char| !char_is_control(c));
            let blank = trimmed(title).len() == 0;
            let source = if !blank { title } else { dir->0 };
            &&& 0 < label.len() || "unnamed session"@.len() == 0
            &&& (!blank || dir is Some) && 0 < plain(source).len() <= 64 ==> label == plain(source)
            &&& (!blank || dir is Some) && plain(source).len() > 64 ==> label.len() == 64 && label
                == plain(source).take(64)
            &&& (!blank || dir is Some) && plain(source).len() == 0 ==> label
                == "unnamed session"@
        }),
{
    law_names_have_no_controls(title);
    if dir is Some {
        law_names_have_no_controls(dir->0);
    }
    law_names_have_no_controls("unnamed session"@);
    reveal_strlit("unnamed session");
}

/// The line that offers a session has its name behind the first nine characters, and
/// says more where the session has an owner.
pub proof fn law_recovery_lines_name_the_session(
    title: Seq<char>,
    dir: Option<Seq<char>>,
    owned: bool,
)
    ensures
        ({
            let line = recovery_line(title, dir, owned);
            let label = label_of(title, dir);
            &&& line.len() > 9 + label.len()
            &&& line.take(9) == "Recover \""@
            &&& line.subrange(9, 9 + label.len() as int) == label
            &&& line[9 + label.len() as int] == '"'
            &&& line.len() == 10 + label.len() <==> !owned
        }),
{
    reveal_strlit("Recover \"");
    reveal_strlit("\"");
    reveal_strlit("\" (active owner; takeover)");
    let line = recovery_line(title, dir, owned);
    let label = label_of(title, dir);
    let start = "Recover \""@;
    let end = if owned {
        "\" (active owner; takeover)"@
    } else {
        "\""@
    };
    assert(start.len() == 9);
    assert(line =~= start + label + end);
    assert(line.take(9) =~= start);
    assert(line.subrange(9, 9 + label.len() as int) =~= label);
    assert(line[9 + label.len() as int] == end[0]);
}

/// Sessions that a window here owns are not listed; the others are in their order.
pub proof fn law_unowned_sessions_keep_their_order(
    descriptors: Seq<SessionDescriptor>,
    owned: Seq<u128>,
    n: int,
)
    requires
        0 <= n <= descriptors.len(),
    ensures
        unowned(descriptors, owned, n) == descriptors.take(n).filter(
            |d: SessionDescriptor| !owned.contains(d.session_id),
        ),
    decreases n,
{
    reveal(Seq::filter);
    if n > 0 {
        law_unowned_sessions_keep_their_order(descriptors, owned, n - 1);
        assert(descriptors.take(n).drop_last() =~= descriptors.take(n - 1));
        assert(descriptors.take(n).last() == descriptors[n - 1]);
    } else {
        assert(descriptors.take(0) =~= Seq::<SessionDescriptor>::empty());
    }
}

/// Probes are numbered one after the other, and none has the number zero.
pub proof fn law_probe_numbers_go_on(id: u64)
    ensures
        next_probe(id) != 0,
        next_probe(id) != id,
        id < u64::MAX ==> next_probe(id) == id + 1,
{
}

/// The first sessions are tried, up to eight, each once and under the number of the
/// probe; nothing is tried where there are none.
pub proof fn law_first_sessions_are_tried(
    before: ApplicationModel,
    window: u64,
    descriptors: Seq<SessionDescriptor>,
)
    ensures
        ({
            let count = if descriptors.len() < 8 { descriptors.len() as int } else { 8 };
            let now = before.probing(window, descriptors);
            let n = before.effects.len() as int;
            &&& tried(descriptors).len() == count
            &&& forall|i: int|
                0 <= i < count ==> #[trigger] tried(descriptors)[i] == descriptors[i]
            &&& count == 0 ==> now == before
            &&& count > 0 ==> {
                &&& now.probe matches Some(probe) && probe.id == before.next_probe_id
                    && probe.source_window == window && probe.remaining == count
                    && probe.candidates.len() == 0
                &&& now.next_probe_id != before.next_probe_id
                &&& now.effects.len() == n + 1 + count
                &&& now.effects[n] == EffectModel::DrainProbes
                &&& forall|i: int|
                    0 <= i < count ==> now.effects[n + 1 + i] == EffectModel::Probe(
                        before.next_probe_id,
                        window,
                        #[trigger] descriptors[i],
                    )
            }
        }),
{
    let now = before.probing(window, descriptors);
    let n = before.effects.len() as int;
    let list = tried(descriptors);
    if list.len() > 0 {
        assert forall|i: int| 0 <= i < list.len() implies now.effects[n + 1 + i]
            == EffectModel::Probe(before.next_probe_id, window, #[trigger] descriptors[i]) by {
            assert(list[i] == descriptors[i]);
        }
    }
}

/// Answers of probes count for the probe that is under way, each once. When all have
/// answered and the list is still open, those that can be recovered are listed in the
/// order of their answers, or an error is shown where none can.
pub proof fn law_probes_are_listed_when_all_answered(
    before: ApplicationModel,
    windows: Seq<WindowFacts>,
    id: u64,
    window: u64,
    candidate: Option<CandidateModel>,
)
    ensures
        ({
            let now = before.probed(windows, id, window, candidate);
            let probe = before.probe->0;
            let ours = before.probe is Some && probe.id == id && probe.source_window == window;
            let found = match candidate {
                Some(candidate) => probe.candidates.push(candidate),
                None => probe.candidates,
            };
            let open = window_of(windows, window) is Some && (window_of(
                windows,
                window,
            )->0).palette_open;
            &&& !ours ==> now == before
            &&& ours && probe.remaining > 1 ==> {
                &&& now.probe matches Some(next) && next.id == id && next.source_window == window
                    && next.remaining == probe.remaining - 1 && next.candidates == found
                &&& now.effects == before.effects
                &&& now.recovery_targets == before.recovery_targets
            }
            &&& ours && probe.remaining <= 1 ==> now.probe is None
            &&& ours && probe.remaining <= 1 && !open ==> now.effects == before.effects
                && now.recovery_targets == before.recovery_targets
            &&& ours && probe.remaining <= 1 && open && found.len() == 0 ==> now.recovery_targets
                == before.recovery_targets && now.effects.last() == EffectModel::ClearMergeUi(
                window,
            )
            &&& ours && probe.remaining <= 1 && open && found.len() > 0 ==> {
                &&& now.recovery_targets == Some((window, found))
                &&& now.effects.len() == before.effects.len() + 1
                &&& now.effects.last() matches EffectModel::RecoveryTargets(at, labels) && at
                    == window && labels.len() == found.len() && forall|i: int|
                    0 <= i < found.len() ==> #[trigger] labels[i] == found[i].label
            }
        }),
{
}

/// An error is shown in the focused pane of its window, where that is open.
pub proof fn law_errors_are_shown_in_the_focused_pane(
    before: ApplicationModel,
    windows: Seq<WindowFacts>,
    window: u64,
    error: Seq<char>,
)
    ensures
        window_of(windows, window) is None ==> before.failed(windows, window, error) == before,
        window_of(windows, window) matches Some(facts) ==> before.failed(windows, window, error)
            == (ApplicationModel {
            effects: before.effects.push(
                EffectModel::ShowError(window, facts.current_route, error),
            ),
            ..before
        }),
        before.probe matches Some(probe) ==> before.recovering_window() == Some(
            probe.source_window,
        ),
        before.probe is None ==> (before.recovery_targets matches Some(targets)
            ==> before.recovering_window() == Some(targets.0)),
        before.probe is None && before.recovery_targets is None ==> before.recovering_window()
            is None,
{
}

/// The line of a prepared session is made of what its frame says: its title, its
/// directory, and whether it has an owner.
pub proof fn law_prepared_sessions_are_listed_by_their_frame(prepared: PreparedSession)
    requires
        prepared.initial_frame is Some,
    ensures
        ({
            let frame = prepared.initial_frame->0;
            &&& frame.working_dir is None ==> line_of(prepared) == recovery_line(
                frame.title@,
                None,
                prepared.had_active_owner,
            )
            &&& frame.working_dir matches Some(dir) ==> line_of(prepared) == recovery_line(
                frame.title@,
                Some(dir@),
                prepared.had_active_owner,
            )
        }),
{
}

} // verus!
