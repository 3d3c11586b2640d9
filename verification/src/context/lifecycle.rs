//! Opening tabs and panes, and keeping their titles.

use crate::context::manager::{
    ContextManager, ContextManagerConfig, DrawCommand, ManagerModel, RioEvent, Shell, Spawned,
};
use crate::context::numbers::{
    is_numbered, lemma_still_numbered, lemma_with_new_pane, lemma_with_new_tab,
};
use crate::context::pane::{
    after, at_least_one, create_dead_context, create_error_context, fresh_cursor, is_new_pane,
    no_dimension, Context, ContextDimension, IdSource,
};
use crate::context::protocol::SessionCommand;
use crate::context::remote::{code_of_shape, RemoteModel, RemoteView};
use crate::context::renderable::{plain_cursor, Cursor, RenderableContent};
use crate::context::row::{
    row_get, row_get_mut, row_len, row_new, row_push, tab_models, tabs_in, TabRow,
    DEFAULT_CONTEXT_CAPACITY,
};
use crate::context::session::{rewrapped, HandleModel};
use crate::context::tab::{ContextGrid, TabModel};
use crate::context::title::{
    create_title_extra_from_context, is_title, update_title, ContextTitle, ContextTitleExtra,
    TitleSource,
};
use vstd::prelude::*;

verus! {

/// How long titles are kept, in milliseconds.
pub const TITLE_INTERVAL: u64 = 2000;

/// What a session worker is started with.
pub struct SessionSpec {
    pub shell: Option<String>,
    pub args: Vec<String>,
    pub working_dir: Option<String>,
    pub columns: u16,
    pub lines: u16,
    pub pixel_width: u16,
    pub pixel_height: u16,
    pub scrollback: usize,
    pub grapheme_clustering: bool,
}

/// Why a session cannot be started for a pane.
#[derive(Clone, Copy, Debug, PartialEq, Eq, Structural)]
pub enum SpecError {
    Columns,
    Lines,
}

impl SpecError {
    pub open spec fn words(self) -> Seq<char> {
        match self {
            SpecError::Columns => "terminal columns exceed session limit"@,
            SpecError::Lines => "terminal lines exceed session limit"@,
        }
    }

    pub fn message(&self) -> (r: String)
        ensures
            r@ == self.words(),
    {
        match self {
            SpecError::Columns => "terminal columns exceed session limit".to_owned(),
            SpecError::Lines => "terminal lines exceed session limit".to_owned(),
        }
    }
}

fn copy_texts(list: &Vec<String>) -> (r: Vec<String>)
    ensures
        r@ == list@,
{
    let mut out: Vec<String> = Vec::new();
    let mut i: usize = 0;
    while i < list.len()
        invariant
            i <= list@.len(),
            out@ == list@.take(i as int),
        decreases list@.len() - i,
    {
        proof {
            assert(list@.take(i + 1) =~= list@.take(i as int).push(list@[i as int]));
        }
        out.push(list[i].clone());
        i += 1;
    }
    proof {
        assert(list@.take(list@.len() as int) =~= list@);
    }
    out
}

/// What to start a session with. A pane that is too large has none.
pub fn session_spec(
    config: &ContextManagerConfig,
    working_dir: Option<String>,
    dimension: ContextDimension,
) -> (r: Result<SessionSpec, SpecError>)
    ensures
        match r {
            Err(SpecError::Columns) => dimension.columns > u16::MAX,
            Err(SpecError::Lines) => dimension.columns <= u16::MAX && dimension.lines > u16::MAX,
            Ok(spec) => {
                &&& dimension.columns <= u16::MAX
                &&& dimension.lines <= u16::MAX
                &&& spec.shell == config.shell.program
                &&& spec.args@ == config.shell.args@
                &&& spec.working_dir == working_dir
                &&& spec.columns == dimension.columns
                &&& spec.lines == dimension.lines
                &&& spec.pixel_width == dimension.size.width
                &&& spec.pixel_height == dimension.size.height
                &&& spec.scrollback == config.scrollback_history_limit
                &&& spec.grapheme_clustering == config.grapheme_clustering
            },
        },
{
    if dimension.columns > u16::MAX as usize {
        return Err(SpecError::Columns);
    }
    if dimension.lines > u16::MAX as usize {
        return Err(SpecError::Lines);
    }
    let shell: Option<String> = match &config.shell.program {
        Some(program) => Some(program.clone()),
        None => None,
    };
    Ok(
        SessionSpec {
            shell,
            args: copy_texts(&config.shell.args),
            working_dir,
            columns: dimension.columns as u16,
            lines: dimension.lines as u16,
            pixel_width: dimension.size.width,
            pixel_height: dimension.size.height,
            scrollback: config.scrollback_history_limit,
            grapheme_clustering: config.grapheme_clustering,
        },
    )
}

/// The pane that a started session, or none, makes.
pub open spec fn is_created(
    context: &Context,
    spawned: Spawned,
    window_id: u64,
    route_id: usize,
    rich_text_id: usize,
    dimension: ContextDimension,
    cursor: Cursor,
    blinking: bool,
) -> bool {
    &&& context.pending_session is None
    &&& match spawned {
        Spawned::Session(session) => {
            &&& is_new_pane(context, window_id, route_id, rich_text_id, dimension, cursor)
            &&& context.terminal@ == RemoteModel::fresh(
                Some(session@),
                window_id,
                dimension.columns as nat,
                dimension.lines as nat,
            ).issuing(
                SessionCommand::SetCursorStyle { shape: code_of_shape(cursor.shape), blinking },
            )
        },
        _ => {
            &&& is_new_pane(context, window_id, route_id, rich_text_id, dimension, plain_cursor())
            &&& context.terminal@ == RemoteModel::fresh(
                None,
                window_id,
                at_least_one(dimension.columns),
                at_least_one(dimension.lines),
            )
        },
    }
}

/// Makes a pane of a started session. The session is told the cursor's shape.
pub fn create_context(
    cursor: Cursor,
    blinking: bool,
    window_id: u64,
    route_id: usize,
    rich_text_id: usize,
    dimension: ContextDimension,
    spawned: Spawned,
) -> (r: Result<Context, String>)
    requires
        dimension.lines <= i32::MAX,
        spawned matches Spawned::Session(session) ==> session@.well_formed(),
    ensures
        match (r, spawned) {
            (Err(error), Spawned::Failed(reason)) => error == reason,
            (Ok(context), Spawned::Failed(_)) => false,
            (Ok(context), _) => context.well_formed() && is_created(
                &context,
                spawned,
                window_id,
                route_id,
                rich_text_id,
                dimension,
                cursor,
                blinking,
            ),
            (Err(_), _) => false,
        },
{
    match spawned {
        Spawned::Failed(reason) => Err(reason),
        Spawned::Dead => Ok(create_dead_context(window_id, route_id, rich_text_id, dimension)),
        Spawned::Session(session) => {
            let mut context: Context = create_dead_context(
                window_id,
                route_id,
                rich_text_id,
                dimension,
            );
            context.renderable_content = RenderableContent::new(cursor);
            context.terminal = RemoteView::new(
                Some(session),
                window_id,
                dimension.columns,
                dimension.lines,
            );
            context.terminal.set_cursor_style(cursor.shape, blinking);
            Ok(context)
        },
    }
}

/// What a new pane is opened with.
pub struct ContextPlan {
    pub working_dir: Option<String>,
    pub dimension: ContextDimension,
    pub cursor: Cursor,
    pub blinking: bool,
}

/// Where a new pane starts: where the focused one is, if that is wanted and
/// known, and else where it is configured to.
pub open spec fn new_working_dir(manager: ManagerModel) -> Option<String> {
    let here = manager.current_tab().current_pane().terminal.current_directory;
    if manager.config.cwd && here is Some {
        here
    } else {
        manager.config.working_dir
    }
}

/// The tab has new titles for its focused pane.
pub open spec fn is_titled(now: TabModel, before: TabModel, template: Seq<char>) -> bool {
    &&& now == (TabModel {
        panes: before.panes.update(
            before.current,
            Context { title: now.current_pane().title, ..before.current_pane() },
        ),
        ..before
    })
    &&& exists|home: Option<Seq<char>>|
        #[trigger] is_title(
            now.current_pane().title.content@,
            template,
            before.current_pane().title_source(),
            home,
        )
    &&& now.current_pane().title.extra is None
}

/// What a window reports of a session that could not be started.
pub open spec fn start_errors(spawned: Spawned, bootstrap: Option<u128>) -> Seq<RioEvent> {
    match spawned {
        Spawned::Failed(reason) if bootstrap is None => seq![
            RioEvent::InitializationError(reason),
        ],
        _ => Seq::empty(),
    }
}

/// The titles are due for renewal.
pub open spec fn titles_due(last: Option<u64>, now: u64) -> bool {
    match last {
        Some(last) => now > last && now - last > TITLE_INTERVAL,
        None => true,
    }
}

impl ContextManager {
    /// A window with one pane. One that waits for tabs of another window starts
    /// with a pane that stands in for them; one whose session could not be
    /// started shows why.
    pub fn start(
        cursor: Cursor,
        blinking: bool,
        window_id: u64,
        rich_text_id: usize,
        config: ContextManagerConfig,
        dimension: ContextDimension,
        bootstrap: Option<u128>,
        spawned: Spawned,
        fonts_not_found: Vec<String>,
        ids: &mut IdSource,
    ) -> (r: Self)
        requires
            dimension.lines <= i32::MAX,
            spawned matches Spawned::Session(session) ==> session@.well_formed(),
        ensures
            r@.well_formed(),
            *final(ids) == (IdSource {
                next_route: after(old(ids).next_route),
                next_tab: old(ids).next_tab.wrapping_add(1),
                ..*old(ids)
            }),
            old(ids).next_route < usize::MAX ==> is_numbered(r@, final(ids).next_route),
            r@.tabs.len() == 1,
            r@.current_index == 0,
            r@.current_route() == old(ids).next_route,
            r@.tabs[0].panes.len() == 1,
            r@.tabs[0] == (TabModel {
                id: old(ids).next_tab,
                panes: seq![r@.tabs[0].panes[0]],
                current: 0,
                custom_title: None,
                custom_color: None,
            }),
            r@.capacity == DEFAULT_CONTEXT_CAPACITY,
            r@.window_id == window_id,
            r@.config == config,
            r@.last_title_update is None,
            r@.retired == Seq::<HandleModel>::empty(),
            r@.draws == Seq::<DrawCommand>::empty(),
            r@.bootstrap_transfer == match bootstrap {
                Some(id) => Some((id, old(ids).next_route)),
                None => None,
            },
            ({
                let pane = r@.tabs[0].panes[0];
                let route = old(ids).next_route;
                let errors = start_errors(spawned, bootstrap);
                &&& match spawned {
                    Spawned::Failed(reason) if bootstrap is None => {
                        &&& is_new_pane(
                            &pane,
                            window_id,
                            route,
                            rich_text_id,
                            no_dimension(),
                            plain_cursor(),
                        )
                        &&& pane.pending_session is None
                        &&& pane.terminal@ == RemoteModel::fresh(
                            Some(HandleModel::disconnected(rewrapped(reason@))),
                            window_id,
                            1,
                            1,
                        )
                    },
                    _ => is_created(
                        &pane,
                        if bootstrap is Some {
                            Spawned::Dead
                        } else {
                            spawned
                        },
                        window_id,
                        route,
                        rich_text_id,
                        dimension,
                        cursor,
                        blinking,
                    ),
                }
                &&& r@.events == if fonts_not_found@.len() > 0 {
                    errors.push(RioEvent::FontsNotFound(fonts_not_found))
                } else {
                    errors
                }
            }),
    {
        let ghost given = spawned;
        let route_id: usize = ids.next_route_id();
        let mut events: Vec<RioEvent> = Vec::new();
        let bootstrap_transfer: Option<(u128, usize)> = match bootstrap {
            Some(id) => Some((id, route_id)),
            None => None,
        };
        let context: Context = if bootstrap.is_some() {
            create_dead_context(window_id, route_id, rich_text_id, dimension)
        } else {
            match create_context(
                cursor,
                blinking,
                window_id,
                route_id,
                rich_text_id,
                dimension,
                spawned,
            ) {
                Ok(context) => context,
                Err(error) => {
                    events.push(RioEvent::InitializationError(error.clone()));
                    create_error_context(
                        window_id,
                        route_id,
                        rich_text_id,
                        ContextDimension::default(),
                        error,
                    )
                },
            }
        };
        if fonts_not_found.len() > 0 {
            events.push(RioEvent::FontsNotFound(fonts_not_found));
        }
        let id: u64 = ids.next_tab_id();
        let mut manager: ContextManager = ContextManager::with_pane(
            context,
            id,
            DEFAULT_CONTEXT_CAPACITY,
            window_id,
            config,
        );
        manager.events = events;
        manager.bootstrap_transfer = bootstrap_transfer;
        proof {
            let errors = start_errors(given, bootstrap);
            assert(manager@.events =~= if fonts_not_found@.len() > 0 {
                errors.push(RioEvent::FontsNotFound(fonts_not_found))
            } else {
                errors
            });
            assert(manager@.tabs =~= seq![manager@.tabs[0]]);
        }
        manager
    }

    fn with_pane(
        context: Context,
        id: u64,
        capacity: usize,
        window_id: u64,
        config: ContextManagerConfig,
    ) -> (r: Self)
        requires
            context.well_formed(),
        ensures
            r@.well_formed(),
            r@ == (ManagerModel {
                tabs: seq![
                    TabModel {
                        id,
                        panes: seq![context],
                        current: 0,
                        custom_title: None,
                        custom_color: None,
                    },
                ],
                current_index: 0,
                capacity: capacity as int,
                window_id,
                config,
                last_title_update: None,
                bootstrap_transfer: None,
                events: Seq::empty(),
                draws: Seq::empty(),
                retired: Seq::empty(),
            }),
    {
        let mut contexts: TabRow = row_new();
        let grid: ContextGrid = ContextGrid::new(context, id);
        row_push(&mut contexts, grid);
        let r: ContextManager = ContextManager {
            contexts,
            current_index: 0,
            capacity,
            window_id,
            config,
            last_title_update: None,
            bootstrap_transfer: None,
            events: Vec::new(),
            draws: Vec::new(),
            retired: Vec::new(),
        };
        proof {
            assert(r@.tabs =~= seq![grid@]);
            assert(r@.retired =~= Seq::<HandleModel>::empty());
        }
        r
    }

    /// A window with one pane without a session, and room for so many tabs.
    pub fn start_with_capacity(
        capacity: usize,
        window_id: u64,
        config: ContextManagerConfig,
        ids: &mut IdSource,
    ) -> (r: Self)
        ensures
            r@.well_formed(),
            r@.tabs.len() == 1,
            r@.tabs[0].panes.len() == 1,
            is_created(
                &r@.tabs[0].panes[0],
                Spawned::Dead,
                window_id,
                old(ids).next_route,
                0,
                no_dimension(),
                plain_cursor(),
                false,
            ),
            r@ == (ManagerModel {
                tabs: seq![
                    TabModel {
                        id: old(ids).next_tab,
                        panes: seq![r@.tabs[0].panes[0]],
                        current: 0,
                        custom_title: None,
                        custom_color: None,
                    },
                ],
                current_index: 0,
                capacity: capacity as int,
                window_id,
                config,
                last_title_update: None,
                bootstrap_transfer: None,
                events: Seq::empty(),
                draws: Seq::empty(),
                retired: Seq::empty(),
            }),
            *final(ids) == (IdSource {
                next_route: after(old(ids).next_route),
                next_tab: old(ids).next_tab.wrapping_add(1),
                ..*old(ids)
            }),
            old(ids).next_route < usize::MAX ==> is_numbered(r@, final(ids).next_route),
    {
        let route_id: usize = ids.next_route_id();
        let id: u64 = ids.next_tab_id();
        let context: Context = create_dead_context(
            window_id,
            route_id,
            0,
            ContextDimension::default(),
        );
        ContextManager::with_pane(context, id, capacity, window_id, config)
    }

    /// Where a new pane starts.
    pub fn working_dir_for_new_context(&self) -> (r: Option<String>)
        requires
            self@.well_formed(),
            self@.tabs.len() > 0,
        ensures
            r == new_working_dir(self@),
    {
        if self.config.cwd {
            let here: Option<String> = self.current().foreground_process_path();
            if here.is_some() {
                return here;
            }
        }
        match &self.config.working_dir {
            Some(dir) => Some(dir.clone()),
            None => None,
        }
    }

    /// What a pane beside the focused one is opened with.
    pub fn plan_split(&self) -> (r: ContextPlan)
        requires
            self@.well_formed(),
            self@.tabs.len() > 0,
        ensures
            r.working_dir == new_working_dir(self@),
            r.dimension == self@.current_tab().current_pane().dimension,
            r.cursor == fresh_cursor(self@.current_tab().current_pane().renderable_content.cursor),
            r.blinking
                == self@.current_tab().current_pane().renderable_content.has_blinking_enabled,
    {
        let working_dir: Option<String> = self.working_dir_for_new_context();
        let current: &Context = self.current();
        ContextPlan {
            working_dir,
            dimension: current.dimension,
            cursor: current.cursor_from_ref(),
            blinking: current.renderable_content.has_blinking_enabled,
        }
    }

    /// What a pane beside the focused one is opened with by another
    /// configuration: it runs the shell that this names, and where this says.
    pub fn split_from_config(
        &self,
        shell: Shell,
        working_dir: Option<String>,
        editor: Shell,
    ) -> (r: (Shell, ContextPlan))
        requires
            self@.well_formed(),
            self@.tabs.len() > 0,
        ensures
            r.0 == shell,
            r.1.working_dir == working_dir,
            r.1.dimension == self@.current_tab().current_pane().dimension,
            r.1.cursor == fresh_cursor(
                self@.current_tab().current_pane().renderable_content.cursor,
            ),
            r.1.blinking
                == self@.current_tab().current_pane().renderable_content.has_blinking_enabled,
    {
        let (shell, working_dir): (Shell, Option<String>) = process_open_url(
            shell,
            working_dir,
            editor,
            OpenTarget::Nothing,
        );
        let current: &Context = self.current();
        let plan: ContextPlan = ContextPlan {
            working_dir,
            dimension: current.dimension,
            cursor: current.cursor_from_ref(),
            blinking: current.renderable_content.has_blinking_enabled,
        };
        (shell, plan)
    }

    /// What a new tab is opened with, if this window opens one: where tabs are
    /// windows of the desktop, one is asked for, and a full window opens none.
    /// A tab with splits takes up the given size of the whole tab.
    pub fn plan_context(&mut self, tab_dimension: ContextDimension) -> (r: Option<ContextPlan>)
        requires
            old(self)@.well_formed(),
            old(self)@.tabs.len() > 0,
        ensures
            final(self)@.well_formed(),
            old(self)@.config.is_native ==> r is None && final(self)@ == old(self)@.sending(
                RioEvent::CreateNativeTab(new_working_dir(old(self)@)),
            ),
            !old(self)@.config.is_native ==> final(self)@ == old(self)@,
            !old(self)@.config.is_native && old(self)@.tabs.len() >= old(self)@.capacity
                ==> r is None,
            !old(self)@.config.is_native && old(self)@.tabs.len() < old(self)@.capacity ==> (match r {
                Some(plan) => {
                    &&& plan.working_dir == new_working_dir(old(self)@)
                    &&& plan.dimension == if old(self)@.current_tab().panes.len() > 1 {
                        tab_dimension
                    } else {
                        old(self)@.current_tab().current_pane().dimension
                    }
                    &&& plan.cursor == fresh_cursor(
                        old(self)@.current_tab().current_pane().renderable_content.cursor,
                    )
                    &&& plan.blinking == old(
                        self,
                    )@.current_tab().current_pane().renderable_content.has_blinking_enabled
                },
                None => false,
            }),
    {
        if self.config.is_native {
            let working_dir: Option<String> = self.working_dir_for_new_context();
            self.events.push(RioEvent::CreateNativeTab(working_dir));
            proof {
                assert(self@ =~= old(self)@.sending(
                    RioEvent::CreateNativeTab(new_working_dir(old(self)@)),
                ));
            }
            return None;
        }
        if row_len(&self.contexts) >= self.capacity {
            return None;
        }
        let mut plan: ContextPlan = self.plan_split();
        if self.current_grid().len() > 1 {
            plan.dimension = tab_dimension;
        }
        Some(plan)
    }

    /// Opens a tab at the end, and selects it if that is asked for. A session
    /// that could not be started opens none, and a full window opens none.
    pub fn add_context(
        &mut self,
        redirect: bool,
        rich_text_id: usize,
        plan: &ContextPlan,
        spawned: Spawned,
        ids: &mut IdSource,
    )
        requires
            old(self)@.well_formed(),
            old(self)@.tabs.len() > 0,
            plan.dimension.lines <= i32::MAX,
            spawned matches Spawned::Session(session) ==> session@.well_formed(),
        ensures
            final(self)@.well_formed(),
            old(self)@.config.is_native || old(self)@.tabs.len() >= old(self)@.capacity
                || spawned is Failed ==> final(self)@ == old(self)@,
            !old(self)@.config.is_native && old(self)@.tabs.len() < old(self)@.capacity && !(
            spawned is Failed) ==> ({
                let tab = final(self)@.tabs.last();
                &&& final(self)@ == (ManagerModel {
                    tabs: old(self)@.tabs.push(tab),
                    current_index: if redirect {
                        old(self)@.tabs.len() as int
                    } else {
                        old(self)@.current_index
                    },
                    ..old(self)@
                })
                &&& tab == (TabModel {
                    id: old(ids).next_tab,
                    panes: seq![tab.panes[0]],
                    current: 0,
                    custom_title: None,
                    custom_color: None,
                })
                &&& is_created(
                    &tab.panes[0],
                    spawned,
                    old(self)@.window_id,
                    old(ids).next_route,
                    rich_text_id,
                    plan.dimension,
                    plan.cursor,
                    plan.blinking,
                )
            }),
            *final(ids) == if old(self)@.config.is_native || old(self)@.tabs.len() >= old(self)@.capacity {
                *old(ids)
            } else {
                IdSource {
                    next_route: after(old(ids).next_route),
                    next_tab: if spawned is Failed {
                        old(ids).next_tab
                    } else {
                        old(ids).next_tab.wrapping_add(1)
                    },
                    ..*old(ids)
                }
            },
            is_numbered(old(self)@, old(ids).next_route) && old(ids).next_route < usize::MAX
                ==> is_numbered(final(self)@, final(ids).next_route),
    {
        let ghost before = self@;
        let len: usize = row_len(&self.contexts);
        if self.config.is_native || len >= self.capacity {
            return;
        }
        let route_id: usize = ids.next_route_id();
        match create_context(
            plan.cursor,
            plan.blinking,
            self.window_id,
            route_id,
            rich_text_id,
            plan.dimension,
            spawned,
        ) {
            Ok(context) => {
                let id: u64 = ids.next_tab_id();
                let grid: ContextGrid = ContextGrid::new(context, id);
                let ghost tabs = tabs_in(self.contexts);
                row_push(&mut self.contexts, grid);
                if redirect {
                    self.current_index = len;
                }
                proof {
                    assert(self@.tabs =~= before.tabs.push(grid@));
                    assert(grid@.panes =~= seq![context]);
                    assert(self@ =~= (ManagerModel {
                        tabs: before.tabs.push(grid@),
                        current_index: if redirect {
                            before.tabs.len() as int
                        } else {
                            before.current_index
                        },
                        ..before
                    }));
                    assert forall|i: int| 0 <= i < self@.tabs.len() implies (
                    #[trigger] self@.tabs[i]).well_formed() by {
                        if i < before.tabs.len() {
                            assert(before.tabs[i].well_formed());
                        }
                    }
                    if is_numbered(before, route_id) && route_id < usize::MAX {
                        lemma_with_new_tab(before, self@, route_id);
                    }
                }
            },
            Err(_) => {
                proof {
                    if is_numbered(before, route_id) && route_id < usize::MAX {
                        lemma_still_numbered(before, route_id, ids.next_route);
                    }
                }
            },
        }
    }

    /// Opens a pane beside or below the focused one. A session that could not
    /// be started opens none.
    pub fn split(
        &mut self,
        rich_text_id: usize,
        split_down: bool,
        plan: &ContextPlan,
        spawned: Spawned,
        ids: &mut IdSource,
    )
        requires
            old(self)@.well_formed(),
            old(self)@.tabs.len() > 0,
            plan.dimension.lines <= i32::MAX,
            spawned matches Spawned::Session(session) ==> session@.well_formed(),
        ensures
            final(self)@.well_formed(),
            *final(ids) == (IdSource { next_route: after(old(ids).next_route), ..*old(ids) }),
            is_numbered(old(self)@, old(ids).next_route) && old(ids).next_route < usize::MAX
                ==> is_numbered(final(self)@, final(ids).next_route),
            spawned is Failed ==> final(self)@ == old(self)@,
            !(spawned is Failed) ==> ({
                let pane = final(self)@.current_tab().current_pane();
                &&& final(self)@ == (ManagerModel {
                    tabs: old(self)@.tabs.update(
                        old(self)@.current_index,
                        old(self)@.current_tab().with_split(pane),
                    ),
                    ..old(self)@
                }).drawing(
                    DrawCommand::SplitPane { route_id: old(ids).next_route, down: split_down },
                )
                &&& is_created(
                    &pane,
                    spawned,
                    old(self)@.window_id,
                    old(ids).next_route,
                    rich_text_id,
                    plan.dimension,
                    plan.cursor,
                    plan.blinking,
                )
            }),
    {
        let ghost before = self@;
        let route_id: usize = ids.next_route_id();
        match create_context(
            plan.cursor,
            plan.blinking,
            self.window_id,
            route_id,
            rich_text_id,
            plan.dimension,
            spawned,
        ) {
            Ok(context) => {
                proof {
                    assert(self@.tabs[self@.current_index].well_formed());
                }
                let grid: &mut ContextGrid = self.current_grid_mut();
                grid.add_split(context);
                self.draws.push(DrawCommand::SplitPane { route_id, down: split_down });
                proof {
                    let tab = before.current_tab();
                    assert(tab.with_split(context).current_pane() == context);
                    assert(self@ =~= (ManagerModel {
                        tabs: before.tabs.update(before.current_index, tab.with_split(context)),
                        ..before
                    }).drawing(DrawCommand::SplitPane { route_id, down: split_down }));
                    if is_numbered(before, route_id) && route_id < usize::MAX {
                        lemma_with_new_pane(
                            before,
                            self@,
                            before.current_index,
                            context,
                            route_id,
                        );
                    }
                }
            },
            Err(_) => {
                proof {
                    if is_numbered(before, route_id) && route_id < usize::MAX {
                        lemma_still_numbered(before, route_id, ids.next_route);
                    }
                }
            },
        }
    }

    /// Makes the titles of all tabs anew, at most every two seconds, and
    /// announces that of the focused one.
    pub fn update_titles(&mut self, now: u64)
        requires
            old(self)@.well_formed(),
        ensures
            final(self)@.well_formed(),
            old(self)@.tabs.len() == 0 || !titles_due(old(self)@.last_title_update, now)
                ==> final(self)@ == old(self)@,
            old(self)@.tabs.len() > 0 && titles_due(old(self)@.last_title_update, now) ==> ({
                &&& final(self)@.tabs.len() == old(self)@.tabs.len()
                &&& forall|i: int|
                    0 <= i < old(self)@.tabs.len() ==> is_titled(
                        #[trigger] final(self)@.tabs[i],
                        old(self)@.tabs[i],
                        old(self)@.config.title_template@,
                    )
                &&& final(self)@ == (ManagerModel {
                    tabs: final(self)@.tabs,
                    last_title_update: Some(now),
                    events: old(self)@.events.push(
                        RioEvent::Title(
                            final(self)@.current_tab().current_pane().route_id,
                            final(self)@.current_tab().current_pane().title.content,
                        ),
                    ),
                    ..old(self)@
                })
            }),
    {
        let ghost before = self@;
        if self.is_empty() {
            return;
        }
        let due: bool = match self.last_title_update {
            Some(last) => now > last && now - last > TITLE_INTERVAL,
            None => true,
        };
        if !due {
            return;
        }
        self.last_title_update = Some(now);
        let mut i: usize = 0;
        while i < row_len(&self.contexts)
            invariant
                i <= before.tabs.len(),
                before.well_formed(),
                self@.tabs.len() == before.tabs.len(),
                self@ == (ManagerModel {
                    tabs: self@.tabs,
                    last_title_update: Some(now),
                    ..before
                }),
                forall|k: int|
                    0 <= k < i ==> is_titled(
                        #[trigger] self@.tabs[k],
                        before.tabs[k],
                        before.config.title_template@,
                    ) && self@.tabs[k].well_formed(),
                forall|k: int|
                    i <= k < before.tabs.len() ==> #[trigger] self@.tabs[k] == before.tabs[k],
            decreases before.tabs.len() - i,
        {
            let ghost then = self@;
            let ghost tabs = tabs_in(self.contexts);
            proof {
                assert(self@.tabs[i as int] == before.tabs[i as int]);
                assert(before.tabs[i as int].well_formed());
                assert(before.tabs[i as int].current_pane().well_formed());
            }
            let source: TitleSource = row_get(&self.contexts, i).current().to_title_source();
            let content: String = update_title(self.config.title_template.as_str(), &source);
            let extra: Option<ContextTitleExtra> = if self.config.should_update_title_extra {
                create_title_extra_from_context(&source)
            } else {
                None
            };
            let title: ContextTitle = ContextTitle { content, extra };
            let grid: &mut ContextGrid = row_get_mut(&mut self.contexts, i);
            let pane: &mut Context = grid.current_mut();
            pane.title = title;
            proof {
                let tab = tabs_in(self.contexts)[i as int]@;
                let old_tab = before.tabs[i as int];
                assert(tab_models(tabs_in(self.contexts)) =~= then.tabs.update(i as int, tab));
                assert(tab.current_pane() == (Context { title, ..old_tab.current_pane() }));
                assert(tab =~= (TabModel {
                    panes: old_tab.panes.update(
                        old_tab.current,
                        Context { title, ..old_tab.current_pane() },
                    ),
                    ..old_tab
                }));
                assert(source == old_tab.current_pane().title_source());
                let home = choose|home: Option<Seq<char>>| #[trigger]
                    is_title(content@, before.config.title_template@, source, home);
                assert(is_title(
                    tab.current_pane().title.content@,
                    before.config.title_template@,
                    old_tab.current_pane().title_source(),
                    home,
                ));
                assert(extra is None);
                assert(is_titled(tab, old_tab, before.config.title_template@));
                assert(self@ =~= (ManagerModel { tabs: self@.tabs, ..then }));
            }
            i += 1;
        }
        proof {
            assert(is_titled(
                self@.tabs[self@.current_index],
                before.tabs[self@.current_index],
                before.config.title_template@,
            ));
        }
        let (route, title): (usize, String) = {
            let current: &Context = self.current();
            (current.route_id, current.title.content.clone())
        };
        let ghost titled = self@;
        self.events.push(RioEvent::Title(route, title));
        proof {
            assert(self@ =~= titled.sending(RioEvent::Title(route, title)));
            assert forall|k: int| 0 <= k < self@.tabs.len() implies (
            #[trigger] self@.tabs[k]).well_formed() by {
                assert(titled.tabs[k].well_formed());
            }
        }
    }
}

/// What an address to open stands for.
pub enum OpenTarget {
    Nothing,
    File(String),
    Directory(String),
}

/// The path that an address stands for, if it is one of a file: the text that
/// shows it, and the bytes that it is made of.
pub uninterp spec fn path_of_url(url: Seq<char>) -> Option<(Seq<char>, Seq<u8>)>;

/// `url::Url::parse` and `url::Url::to_file_path`: on one platform the result
/// depends on the address alone. Which addresses are valid, and how their paths
/// are decoded, is left to the address library. A path need not be valid text:
/// what is not shows as a replacement character, and is found by the bytes.
#[verifier::external_body]
fn url_to_path(url: &str) -> (r: Option<(String, Vec<u8>)>)
    ensures
        match r {
            Some((text, bytes)) => path_of_url(url@) == Some((text@, bytes@)),
            None => path_of_url(url@) is None,
        },
{
    let path = url::Url::parse(url).ok()?.to_file_path().ok()?;
    Some((path.display().to_string(), path.into_os_string().into_encoded_bytes()))
}

/// The path that an address to open stands for, as a text to show and as the
/// bytes to look it up by.
pub fn open_url_path(open_url: Option<&str>) -> (r: Option<(String, Vec<u8>)>)
    ensures
        match (open_url, r) {
            (None, path) => path is None,
            (Some(url), Some((text, bytes))) => path_of_url(url@) == Some((text@, bytes@)),
            (Some(url), None) => path_of_url(url@) is None,
        },
{
    match open_url {
        Some(url) => url_to_path(url),
        None => None,
    }
}

/// What to start for an address to open: the editor on a file, and the shell in
/// a directory.
pub fn process_open_url(
    shell: Shell,
    working_dir: Option<String>,
    editor: Shell,
    target: OpenTarget,
) -> (r: (Shell, Option<String>))
    ensures
        match target {
            OpenTarget::Nothing => r == (shell, working_dir),
            OpenTarget::File(path) => {
                &&& r.0.program == editor.program
                &&& r.0.args@ == editor.args@.push(path)
                &&& r.1 == working_dir
            },
            OpenTarget::Directory(path) => r == (shell, Some(path)),
        },
{
    match target {
        OpenTarget::Nothing => (shell, working_dir),
        OpenTarget::File(path) => {
            let mut args: Vec<String> = editor.args;
            args.push(path);
            (Shell { program: editor.program, args }, working_dir)
        },
        OpenTarget::Directory(path) => (shell, Some(path)),
    }
}

} // verus!
