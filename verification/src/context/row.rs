//! The row of tabs of a window.

use crate::context::tab::{ContextGrid, TabModel};
use smallvec::SmallVec;
use vstd::prelude::*;

verus! {

/// How many tabs a window has room for without allocating.
pub const DEFAULT_CONTEXT_CAPACITY: usize = 28;

/// The tabs of a window, in a `SmallVec`.
#[verifier::external_body]
pub struct TabRow {
    tabs: SmallVec<[ContextGrid; DEFAULT_CONTEXT_CAPACITY]>,
}

/// The tabs that a row holds, in their order.
pub uninterp spec fn tabs_in(row: TabRow) -> Seq<ContextGrid>;

/// The contents of the tabs that a row holds.
pub open spec fn tab_models(tabs: Seq<ContextGrid>) -> Seq<TabModel> {
    tabs.map_values(|t: ContextGrid| t@)
}

/// `SmallVec::new`: no tabs.
#[verifier::external_body]
pub(crate) fn row_new() -> (r: TabRow)
    ensures
        tabs_in(r) == Seq::<ContextGrid>::empty(),
{
    TabRow { tabs: SmallVec::new() }
}

/// `SmallVec::len`: the number of tabs.
#[verifier::external_body]
pub(crate) fn row_len(row: &TabRow) -> (r: usize)
    ensures
        r == tabs_in(*row).len(),
{
    row.tabs.len()
}

/// `SmallVec::index`: the tab at a position.
#[verifier::external_body]
pub(crate) fn row_get(row: &TabRow, index: usize) -> (r: &ContextGrid)
    requires
        index < tabs_in(*row).len(),
    ensures
        *r == tabs_in(*row)[index as int],
{
    &row.tabs[index]
}

/// `SmallVec::index_mut`: the tab at a position; no other tab changes with it.
#[verifier::external_body]
pub(crate) fn row_get_mut(row: &mut TabRow, index: usize) -> (r: &mut ContextGrid)
    requires
        index < tabs_in(*old(row)).len(),
    ensures
        *r == tabs_in(*old(row))[index as int],
        tabs_in(*final(row)) == tabs_in(*old(row)).update(index as int, *final(r)),
{
    &mut row.tabs[index]
}

/// `SmallVec::push`: the tab comes last.
#[verifier::external_body]
pub(crate) fn row_push(row: &mut TabRow, tab: ContextGrid)
    ensures
        tabs_in(*final(row)) == tabs_in(*old(row)).push(tab),
{
    row.tabs.push(tab);
}

/// `SmallVec::insert`: the tab stands at the position, and those from there on
/// move up. A position behind the end panics.
#[verifier::external_body]
pub(crate) fn row_insert(row: &mut TabRow, index: usize, tab: ContextGrid)
    requires
        index <= tabs_in(*old(row)).len(),
    ensures
        tabs_in(*final(row)) == tabs_in(*old(row)).insert(index as int, tab),
{
    row.tabs.insert(index, tab);
}

/// `SmallVec::remove`: the tab at the position is handed out, and those behind
/// it move down. A position that is not there panics.
#[verifier::external_body]
pub(crate) fn row_remove(row: &mut TabRow, index: usize) -> (r: ContextGrid)
    requires
        index < tabs_in(*old(row)).len(),
    ensures
        r == tabs_in(*old(row))[index as int],
        tabs_in(*final(row)) == tabs_in(*old(row)).remove(index as int),
{
    row.tabs.remove(index)
}

} // verus!
