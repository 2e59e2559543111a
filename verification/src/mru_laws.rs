//! What holds of every walk over the recently used windows.

use vstd::prelude::*;

use crate::ids::{AnimationId, MappedId, OutputId};
use crate::layout::{
    law_every_window_listed, thumbnails_of, windows_before, LayoutSnapshot, WorkspaceSnapshot,
};
use crate::mru::WindowMru;
use crate::mru_model::{
    cyclic_next, distinct_ids, first_window, has_id, index_of_id, lemma_shown_below, shown_below,
    shows, LaidOut, MruModel,
};
use crate::recency::{at_least_as_recent, in_mru_order, is_mru_sort, law_sort_keeps_windows};
use crate::scope::{MruDirection, MruFilter, MruScope};
use crate::thumbnail::{ThumbnailModel, TitleModel};

verus! {

/// What can be done to a walk.
pub enum Operation {
    Forward,
    Backward,
    First,
    Last,
    SetCurrent(MappedId),
    SetScope(MruScope),
    SetFilter(MruFilter),
    SetScopeAndFilter(MruScope, Option<MruFilter>),
    Remove(MappedId),
}

impl Operation {
    pub open spec fn apply(self, mru: MruModel) -> MruModel {
        match self {
            Operation::Forward => mru.forward(),
            Operation::Backward => mru.backward(),
            Operation::First => mru.select(mru.first_id()),
            Operation::Last => mru.select(mru.last_id()),
            Operation::SetCurrent(id) => mru.set_current(id),
            Operation::SetScope(scope) => mru.set_scope_and_filter(scope, None),
            Operation::SetFilter(filter) => mru.set_scope_and_filter(mru.scope, Some(filter)),
            Operation::SetScopeAndFilter(scope, filter) => mru.set_scope_and_filter(scope, filter),
            Operation::Remove(id) => mru.remove(id),
        }
    }
}

/// The walk after operations, one after the other.
pub open spec fn after_all(mru: MruModel, operations: Seq<Operation>) -> MruModel
    decreases operations.len(),
{
    if operations.len() == 0 {
        mru
    } else {
        operations.last().apply(after_all(mru, operations.drop_last()))
    }
}

/// Whatever is done to a walk, in whatever order, the selected window is a shown one, none is
/// selected only where none is shown, and no window is there twice.
pub proof fn law_operations_keep_invariant(mru: MruModel, operations: Seq<Operation>)
    requires
        mru.wf(),
    ensures
        after_all(mru, operations).wf(),
    decreases operations.len(),
{
    if operations.len() > 0 {
        law_operations_keep_invariant(mru, operations.drop_last());
        let before = after_all(mru, operations.drop_last());
        match operations.last() {
            Operation::Forward => before.lemma_forward_wf(),
            Operation::Backward => before.lemma_backward_wf(),
            Operation::First => {
                assert(before.select(before.first_id()).visible_ids() =~= before.visible_ids());
            },
            Operation::Last => {
                assert(before.select(before.last_id()).visible_ids() =~= before.visible_ids());
            },
            Operation::SetCurrent(id) => before.lemma_set_current_wf(id),
            Operation::SetScope(scope) => before.lemma_set_scope_and_filter_wf(scope, None),
            Operation::SetFilter(filter) => before.lemma_set_scope_and_filter_wf(
                before.scope,
                Some(filter),
            ),
            Operation::SetScopeAndFilter(scope, filter) => before.lemma_set_scope_and_filter_wf(
                scope,
                filter,
            ),
            Operation::Remove(id) => before.lemma_remove_wf(id),
        }
    }
}

/// A step back undoes a step forward.
pub proof fn law_backward_undoes_forward(mru: MruModel)
    requires
        mru.wf(),
    ensures
        mru.forward().backward() == mru,
{
    mru.lemma_visible();
    mru.lemma_forward_wf();
    if let Some(id) = mru.current_id {
        let ids = mru.visible_ids();
        let p = ids.index_of(id);
        assert(mru.forward().visible_ids() =~= ids);
        let q = if p + 1 < ids.len() { p + 1 } else { 0 };
        assert(ids.index_of(ids[q]) == q);
    }
}

/// A step forward undoes a step back.
pub proof fn law_forward_undoes_backward(mru: MruModel)
    requires
        mru.wf(),
    ensures
        mru.backward().forward() == mru,
{
    mru.lemma_visible();
    mru.lemma_backward_wf();
    if let Some(id) = mru.current_id {
        let ids = mru.visible_ids();
        let p = ids.index_of(id);
        assert(mru.backward().visible_ids() =~= ids);
        let q = if p > 0 { p - 1 } else { ids.len() - 1 };
        assert(ids.index_of(ids[q]) == q);
    }
}

/// The walk after `k` steps forward.
pub open spec fn walked(mru: MruModel, k: nat) -> MruModel
    decreases k,
{
    if k == 0 {
        mru
    } else {
        walked(mru, (k - 1) as nat).forward()
    }
}

/// Steps forward go through the shown windows in order, and around the end.
pub proof fn law_walk_in_order(mru: MruModel, k: nat)
    requires
        mru.wf(),
        mru.current_id is Some,
        k <= mru.visible_ids().len(),
    ensures
        ({
            let ids = mru.visible_ids();
            let p = ids.index_of(mru.current_id->0);
            walked(mru, k) == mru.select(
                Some(
                    ids[if p + k < ids.len() {
                        p + k
                    } else {
                        p + k - ids.len()
                    }],
                ),
            )
        }),
    decreases k,
{
    let ids = mru.visible_ids();
    let p = ids.index_of(mru.current_id->0);
    assert(ids.contains(mru.current_id->0));
    mru.lemma_visible();
    if k > 0 {
        law_walk_in_order(mru, (k - 1) as nat);
        let before = walked(mru, (k - 1) as nat);
        assert(before.visible_ids() =~= ids);
        let q = if p + k - 1 < ids.len() { p + k - 1 } else { p + k - 1 - ids.len() };
        assert(ids.index_of(ids[q]) == q);
    } else {
        assert(mru.select(mru.current_id) =~= mru);
    }
}

/// As many steps as there are shown windows lead back to where they began.
pub proof fn law_walk_closes(mru: MruModel)
    requires
        mru.wf(),
        mru.current_id is Some,
    ensures
        walked(mru, mru.visible_ids().len()) == mru,
{
    let ids = mru.visible_ids();
    assert(ids.contains(mru.current_id->0));
    law_walk_in_order(mru, ids.len());
    assert(mru.select(mru.current_id) =~= mru);
}

/// Every shown window is reached by steps forward, fewer than there are shown windows.
pub proof fn law_walk_reaches_all(mru: MruModel, id: MappedId)
    requires
        mru.wf(),
        mru.visible_ids().contains(id),
    ensures
        exists|k: nat|
            k < mru.visible_ids().len() && (#[trigger] walked(mru, k)).current_id == Some(id),
{
    let ids = mru.visible_ids();
    assert(mru.current_id is Some);
    assert(ids.contains(mru.current_id->0));
    mru.lemma_visible();
    let p = ids.index_of(mru.current_id->0);
    let q = ids.index_of(id);
    let k = (if q >= p {
        q - p
    } else {
        q - p + ids.len()
    }) as nat;
    law_walk_in_order(mru, k);
    assert(walked(mru, k).current_id == Some(id));
}

/// A change of scope and filter keeps a selected window that is still shown.
pub proof fn law_selection_kept(mru: MruModel, scope: MruScope, filter: Option<MruFilter>)
    requires
        mru.wf(),
        mru.current_id matches Some(id) && shows(
            scope,
            mru.changed_filter(filter),
            mru.thumbnails[index_of_id(mru.thumbnails, id)],
        ),
    ensures
        mru.set_scope_and_filter(scope, filter).current_id == mru.current_id,
{
    mru.lemma_visible();
    let id = mru.current_id->0;
    let k = mru.visible_ids().index_of(id);
    assert(mru.visible_ids()[k] == id);
}

/// Otherwise the nearest shown window to the left is selected, and failing that the nearest one to
/// the right: the selected window is shown, and none is shown between it and the one that was
/// selected, nor to the left where it is to the right.
pub proof fn law_nearest_selected(mru: MruModel, scope: MruScope, filter: Option<MruFilter>)
    requires
        mru.wf(),
    ensures
        ({
            let after = mru.set_scope_and_filter(scope, filter);
            match (mru.current_id, after.current_id) {
                (Some(was), Some(id)) => {
                    let i = index_of_id(mru.thumbnails, was);
                    let j = index_of_id(mru.thumbnails, id);
                    &&& shows(scope, after.app_id_filter, mru.thumbnails[j])
                    &&& j <= i ==> forall|k: int|
                        j < k <= i ==> !#[trigger] shows(
                            scope,
                            after.app_id_filter,
                            mru.thumbnails[k],
                        )
                    &&& j > i ==> forall|k: int|
                        0 <= k < j ==> !#[trigger] shows(
                            scope,
                            after.app_id_filter,
                            mru.thumbnails[k],
                        )
                },
                (_, None) => forall|k: int|
                    0 <= k < mru.thumbnails.len() ==> !#[trigger] shows(
                        scope,
                        after.app_id_filter,
                        mru.thumbnails[k],
                    ),
                (None, Some(id)) => id == after.visible_ids()[0],
            }
        }),
{
    let after = mru.set_scope_and_filter(scope, filter);
    let app_id_filter = after.app_id_filter;
    let n = mru.thumbnails.len();
    mru.lemma_visible();
    mru.lemma_set_scope_and_filter_wf(scope, filter);
    after.lemma_visible();
    lemma_shown_below(mru.thumbnails, scope, app_id_filter, n);
    let restricted = MruModel { scope, app_id_filter, ..mru };
    assert(restricted.visible_ids() =~= after.visible_ids());
    if let Some(was) = mru.current_id {
        let p = mru.visible_ids().index_of(was);
        assert(mru.visible_ids()[p] == was);
        let i = index_of_id(mru.thumbnails, was);
        let up_to = shown_below(mru.thumbnails, scope, app_id_filter, (i + 1) as nat);
        lemma_shown_below(mru.thumbnails, scope, app_id_filter, (i + 1) as nat);
        if let Some(id) = after.current_id {
            let j = index_of_id(mru.thumbnails, id);
            if up_to.len() > 0 {
                assert(j == up_to[up_to.len() - 1]);
                assert forall|k: int| j < k <= i implies !#[trigger] shows(
                    scope,
                    app_id_filter,
                    mru.thumbnails[k],
                ) by {
                    if shows(scope, app_id_filter, mru.thumbnails[k]) {
                        let m = up_to.index_of(k);
                        assert(up_to.contains(k));
                        assert(up_to[m] == k);
                    }
                }
            } else {
                assert(j == after.shown()[0]);
                assert forall|k: int| 0 <= k < j implies !#[trigger] shows(
                    scope,
                    app_id_filter,
                    mru.thumbnails[k],
                ) by {
                    if shows(scope, app_id_filter, mru.thumbnails[k]) {
                        let m = after.shown().index_of(k);
                        assert(after.shown().contains(k));
                        assert(after.shown()[m] == k);
                    }
                }
                if j <= i {
                    assert(up_to.contains(j));
                }
            }
        }
    }
    if after.current_id is None {
        assert forall|k: int| 0 <= k < n implies !#[trigger] shows(
            scope,
            app_id_filter,
            mru.thumbnails[k],
        ) by {
            if shows(scope, app_id_filter, mru.thumbnails[k]) {
                assert(after.visible_ids().contains(after.thumbnails[k].id));
            }
        }
    }
}

/// Setting the scope that is set already, without a filter, changes nothing.
pub proof fn law_same_scope_changes_nothing(mru: MruModel)
    requires
        mru.wf(),
    ensures
        mru.set_scope_and_filter(mru.scope, None) == mru,
        !mru.scope_or_filter_changes(mru.scope, None),
{
    mru.lemma_visible();
    if let Some(id) = mru.current_id {
        let k = mru.visible_ids().index_of(id);
        assert(mru.visible_ids()[k] == id);
        law_selection_kept(mru, mru.scope, None);
    } else {
        assert(mru.first_id() is None);
    }
    assert(mru.set_scope_and_filter(mru.scope, None) =~= mru);
}

/// With the filter by application all shown windows belong to the application of the selected one,
/// which stays selected, provided that it belongs to one.
pub proof fn law_app_id_filter(mru: MruModel, k: int)
    requires
        mru.wf(),
        mru.current_id matches Some(id) && mru.thumbnails[index_of_id(
            mru.thumbnails,
            id,
        )].app_id is Some,
        0 <= k < mru.set_scope_and_filter(mru.scope, Some(MruFilter::AppId)).shown().len(),
    ensures
        ({
            let after = mru.set_scope_and_filter(mru.scope, Some(MruFilter::AppId));
            &&& after.current_id == mru.current_id
            &&& after.thumbnails[after.shown()[k]].app_id == mru.thumbnails[index_of_id(
                mru.thumbnails,
                mru.current_id->0,
            )].app_id
        }),
{
    let after = mru.set_scope_and_filter(mru.scope, Some(MruFilter::AppId));
    let id = mru.current_id->0;
    mru.lemma_visible();
    let p = mru.visible_ids().index_of(id);
    assert(mru.visible_ids()[p] == id);
    law_selection_kept(mru, mru.scope, Some(MruFilter::AppId));
    after.lemma_visible();
}

/// In the scope of all windows, without a filter, every window is shown.
pub proof fn law_everything_shown(mru: MruModel)
    ensures
        mru.set_scope_and_filter(MruScope::All, Some(MruFilter::Any)).visible_ids()
            == mru.thumbnails.map_values(|t: ThumbnailModel| t.id),
{
    mru.set_scope_and_filter(MruScope::All, Some(MruFilter::Any)).lemma_all_shown();
}

/// Taking a window out takes its id out, and leaves the other shown windows in their order.
pub proof fn law_removed(mru: MruModel, id: MappedId)
    requires
        mru.wf(),
    ensures
        !has_id(mru.remove(id).thumbnails, id),
        mru.remove(id).visible_ids() == mru.visible_ids().filter(
            |other: MappedId| other != id,
        ),
{
    mru.lemma_remove_visible(id);
    mru.lemma_visible();
    if has_id(mru.thumbnails, id) {
        let after = mru.remove(id).thumbnails;
        let idx = index_of_id(mru.thumbnails, id);
        assert forall|i: int| 0 <= i < after.len() implies (#[trigger] after[i]).id != id by {
            assert(after[i] == mru.thumbnails[if i < idx { i } else { i + 1 }]);
        }
    }
}

/// Taking out a window that is not selected keeps the selection. Taking out the selected one selects
/// the next shown one, around the end, or none where no other is shown.
pub proof fn law_selection_after_removal(mru: MruModel, id: MappedId)
    requires
        mru.wf(),
    ensures
        mru.current_id != Some(id) ==> mru.remove(id).current_id == mru.current_id,
        mru.current_id == Some(id) && mru.visible_ids().len() > 1 ==> mru.remove(id).current_id
            == Some(cyclic_next(mru.visible_ids(), id)),
        mru.current_id == Some(id) && mru.visible_ids().len() == 1 ==> mru.remove(id).current_id
            is None,
{
    mru.lemma_visible();
    if mru.current_id == Some(id) {
        let ids = mru.visible_ids();
        let p = ids.index_of(id);
        assert(ids[p] == id);
        let i = mru.shown()[p];
        assert(mru.thumbnails[i].id == id);
        assert(has_id(mru.thumbnails, id));
    }
}

/// Taking a window out keeps the most-recently-used order.
pub proof fn law_removal_keeps_order(mru: MruModel, id: MappedId)
    requires
        in_mru_order(mru.thumbnails),
    ensures
        in_mru_order(mru.remove(id).thumbnails),
{
    if has_id(mru.thumbnails, id) {
        let after = mru.remove(id).thumbnails;
        let idx = index_of_id(mru.thumbnails, id);
        assert forall|i: int, j: int|
            0 <= i <= j < after.len() implies at_least_as_recent(
            (#[trigger] after[i]).timestamp,
            (#[trigger] after[j]).timestamp,
        ) by {
            assert(after[i] == mru.thumbnails[if i < idx { i } else { i + 1 }]);
            assert(after[j] == mru.thumbnails[if j < idx { j } else { j + 1 }]);
        }
    }
}

/// Whatever the layout has, each item that is laid out is a shown thumbnail with the first window
/// of its id. The thumbnails stand in order, and a shown one is there if and only if the layout has
/// its window.
pub proof fn law_laid_out(mru: MruModel, windows: Seq<MappedId>)
    requires
        windows.len() <= usize::MAX,
        mru.thumbnails.len() <= usize::MAX,
    ensures
        ({
            let items = mru.laid_out(windows, mru.visible_ids().len());
            &&& forall|m: int|
                0 <= m < items.len() ==> {
                    let item: LaidOut = #[trigger] items[m];
                    &&& item.thumbnail < mru.thumbnails.len()
                    &&& shows(
                        mru.scope,
                        mru.app_id_filter,
                        mru.thumbnails[item.thumbnail as int],
                    )
                    &&& item.window < windows.len()
                    &&& windows[item.window as int] == mru.thumbnails[item.thumbnail as int].id
                    &&& !windows.take(item.window as int).contains(windows[item.window as int])
                }
            &&& forall|l: int, m: int|
                0 <= l < m < items.len() ==> (#[trigger] items[l]).thumbnail < (
                #[trigger] items[m]).thumbnail
            &&& forall|i: int|
                0 <= i < mru.thumbnails.len() && #[trigger] shows(
                    mru.scope,
                    mru.app_id_filter,
                    mru.thumbnails[i],
                ) ==> (windows.contains(mru.thumbnails[i].id) <==> exists|m: int|
                    0 <= m < items.len() && (#[trigger] items[m]).thumbnail == i)
        }),
{
    let n = mru.visible_ids().len();
    let items = mru.laid_out(windows, n);
    let shown = mru.shown();
    lemma_laid_out(mru, windows, n);
    lemma_shown_below(mru.thumbnails, mru.scope, mru.app_id_filter, mru.thumbnails.len());
    assert forall|i: int|
        0 <= i < mru.thumbnails.len() && #[trigger] shows(
            mru.scope,
            mru.app_id_filter,
            mru.thumbnails[i],
        ) implies (windows.contains(mru.thumbnails[i].id) <==> exists|m: int|
        0 <= m < items.len() && (#[trigger] items[m]).thumbnail == i) by {
        assert(shown.contains(i));
        let k = shown.index_of(i);
        assert(shown[k] == i && mru.visible_ids()[k] == mru.thumbnails[i].id);
        if windows.contains(mru.thumbnails[i].id) {
            let m = choose|m: int|
                0 <= m < items.len() && (#[trigger] items[m]).thumbnail == shown[k];
            assert(items[m].thumbnail == i);
        }
    }
}

/// The same of the first `n` shown thumbnails.
proof fn lemma_laid_out(mru: MruModel, windows: Seq<MappedId>, n: nat)
    requires
        n <= mru.visible_ids().len(),
        windows.len() <= usize::MAX,
        mru.thumbnails.len() <= usize::MAX,
    ensures
        ({
            let items = mru.laid_out(windows, n);
            &&& forall|m: int|
                0 <= m < items.len() ==> {
                    let item: LaidOut = #[trigger] items[m];
                    &&& n > 0 && item.thumbnail <= mru.shown()[n - 1]
                    &&& item.thumbnail < mru.thumbnails.len()
                    &&& shows(
                        mru.scope,
                        mru.app_id_filter,
                        mru.thumbnails[item.thumbnail as int],
                    )
                    &&& item.window < windows.len()
                    &&& windows[item.window as int] == mru.thumbnails[item.thumbnail as int].id
                    &&& !windows.take(item.window as int).contains(windows[item.window as int])
                }
            &&& forall|l: int, m: int|
                0 <= l < m < items.len() ==> (#[trigger] items[l]).thumbnail < (
                #[trigger] items[m]).thumbnail
            &&& forall|k: int|
                0 <= k < n && windows.contains(#[trigger] mru.visible_ids()[k]) ==> exists|m: int|
                    0 <= m < items.len() && (#[trigger] items[m]).thumbnail == mru.shown()[k]
        }),
    decreases n,
{
    if n > 0 {
        let before = mru.laid_out(windows, (n - 1) as nat);
        let items = mru.laid_out(windows, n);
        let shown = mru.shown();
        let id = mru.visible_ids()[n - 1];
        lemma_laid_out(mru, windows, (n - 1) as nat);
        lemma_shown_below(mru.thumbnails, mru.scope, mru.app_id_filter, mru.thumbnails.len());
        assert(0 <= shown[n - 1] < mru.thumbnails.len());
        if n > 1 {
            assert(shown[n - 2] < shown[n - 1]);
        }
        lemma_found_window(windows, id, 0);
        if windows.contains(id) {
            lemma_first_window(windows, id, 0, windows.index_of(id));
            assert(items[before.len() as int].thumbnail == shown[n - 1]);
        }
        assert forall|k: int|
            0 <= k < n && windows.contains(#[trigger] mru.visible_ids()[k]) implies exists|m: int|
            0 <= m < items.len() && (#[trigger] items[m]).thumbnail == shown[k] by {
            if k < n - 1 {
                let m = choose|m: int|
                    0 <= m < before.len() && (#[trigger] before[m]).thumbnail == shown[k];
                assert(items[m] == before[m]);
            }
        }
    }
}

/// A window that is found has the id, and none from where the search began does before it.
proof fn lemma_found_window(windows: Seq<MappedId>, id: MappedId, w: int)
    requires
        0 <= w <= windows.len(),
    ensures
        first_window(windows, id, w) matches Some(v) ==> {
            &&& w <= v < windows.len()
            &&& windows[v] == id
            &&& forall|u: int| w <= u < v ==> #[trigger] windows[u] != id
        },
    decreases windows.len() - w,
{
    if w < windows.len() && windows[w] != id {
        lemma_found_window(windows, id, w + 1);
    }
}

/// Where the layout has all shown windows, all of them are laid out, in order, each with its own
/// window.
pub proof fn law_all_laid_out(mru: MruModel, windows: Seq<MappedId>, n: nat)
    requires
        n <= mru.visible_ids().len(),
        forall|k: int| 0 <= k < n ==> windows.contains(#[trigger] mru.visible_ids()[k]),
        windows.len() <= usize::MAX,
        mru.thumbnails.len() <= usize::MAX,
    ensures
        mru.laid_out(windows, n).len() == n,
        forall|k: int|
            0 <= k < n ==> {
                let item: LaidOut = #[trigger] mru.laid_out(windows, n)[k];
                &&& item.thumbnail == mru.shown()[k]
                &&& windows[item.window as int] == mru.visible_ids()[k]
            },
    decreases n,
{
    if n > 0 {
        law_all_laid_out(mru, windows, (n - 1) as nat);
        lemma_shown_below(mru.thumbnails, mru.scope, mru.app_id_filter, mru.thumbnails.len());
        let id = mru.visible_ids()[n - 1];
        assert(0 <= mru.shown()[n - 1] < mru.thumbnails.len());
        lemma_first_window(windows, id, 0, windows.index_of(id));
    }
}

proof fn lemma_first_window(windows: Seq<MappedId>, id: MappedId, w: int, found: int)
    requires
        0 <= w <= found < windows.len(),
        windows[found] == id,
    ensures
        first_window(windows, id, w) matches Some(v) && w <= v <= found && windows[v] == id,
    decreases windows.len() - w,
{
    if windows[w] != id {
        lemma_first_window(windows, id, w + 1, found);
    }
}

/// A window on the active workspace is on the active output: what the scope of the workspace shows,
/// that of the output shows too.
pub proof fn law_scopes_nest(layout: LayoutSnapshot, i: int)
    requires
        0 <= i < layout.thumbnails().len(),
    ensures
        layout.thumbnails()[i].on_current_workspace ==> layout.thumbnails()[i].on_current_output,
{
    if let Some(output) = layout.active_output {
        lemma_scopes_nest(layout.workspaces@, output, layout.workspaces@.len(), i);
    }
}

proof fn lemma_scopes_nest(workspaces: Seq<WorkspaceSnapshot>, output: OutputId, n: nat, i: int)
    requires
        0 <= i < thumbnails_of(workspaces, output, n).len(),
    ensures
        thumbnails_of(workspaces, output, n)[i].on_current_workspace ==> thumbnails_of(
            workspaces,
            output,
            n,
        )[i].on_current_output,
    decreases n,
{
    if n > 0 {
        let before = thumbnails_of(workspaces, output, (n - 1) as nat);
        if i < before.len() {
            lemma_scopes_nest(workspaces, output, (n - 1) as nat, i);
        }
    }
}

/// A new walk has every window of every workspace, with its own id, timestamp and application,
/// whichever output its workspace is on.
pub proof fn law_new_walk_has_every_window(layout: LayoutSnapshot, mru: MruModel, w: int, i: int)
    requires
        is_mru_sort(layout.thumbnails(), mru.thumbnails),
        layout.active_output is Some,
        0 <= w < layout.workspaces@.len(),
        0 <= i < layout.workspaces@[w].windows@.len(),
    ensures
        ({
            let workspace = layout.workspaces@[w];
            let window = workspace.windows@[i];
            exists|p: int|
                0 <= p < mru.thumbnails.len() && {
                    let t = #[trigger] mru.thumbnails[p];
                    &&& t.id == window.id
                    &&& t.timestamp == window.focus_timestamp
                    &&& t.app_id is Some <==> window.app_id is Some
                    &&& window.app_id matches Some(app_id) ==> t.app_id == Some(app_id@)
                    &&& workspace.monitor matches Some(monitor) ==> {
                        &&& t.on_current_output <==> layout.active_output == Some(monitor.output)
                        &&& t.on_current_workspace <==> layout.active_output == Some(
                            monitor.output,
                        ) && monitor.active_workspace_idx == workspace.idx
                    }
                }
        }),
{
    law_every_window_listed(layout, w, i);
    law_sort_keeps_windows(layout.thumbnails(), mru.thumbnails);
    let k = windows_before(layout.workspaces@, w as nat) + i;
    assert(layout.thumbnails().contains(layout.thumbnails()[k]));
    let p = mru.thumbnails.index_of(layout.thumbnails()[k]);
    assert(mru.thumbnails[p] == layout.thumbnails()[k]);
}

/// A window is shown if it is in the scope and, where there is a filter, belongs to the application
/// that the filter is for.
pub proof fn law_shows(t: ThumbnailModel, scope: MruScope, filter: Option<Seq<char>>)
    ensures
        scope == MruScope::Output && !t.on_current_output ==> !shows(scope, filter, t),
        scope == MruScope::Workspace && !t.on_current_workspace ==> !shows(scope, filter, t),
        filter matches Some(app_id) ==> (t.app_id != Some(app_id) ==> !shows(scope, filter, t)),
        t.on_current_output && scope == MruScope::Output && (filter is None || t.app_id == filter)
            ==> shows(scope, filter, t),
        t.on_current_workspace && scope == MruScope::Workspace && (filter is None || t.app_id
            == filter) ==> shows(scope, filter, t),
        scope == MruScope::All && (filter is None || t.app_id == filter) ==> shows(
            scope,
            filter,
            t,
        ),
{
}

/// The shown windows are exactly those that the scope and the filter show, in the order of the list.
pub proof fn law_shown_in_order(mru: MruModel)
    ensures
        forall|k: int, l: int|
            0 <= k < l < mru.shown().len() ==> #[trigger] mru.shown()[k] < #[trigger] mru.shown()[l],
        forall|i: int|
            0 <= i < mru.thumbnails.len() ==> (mru.shown().contains(i) <==> #[trigger] shows(
                mru.scope,
                mru.app_id_filter,
                mru.thumbnails[i],
            )),
        forall|k: int|
            0 <= k < mru.shown().len() ==> 0 <= #[trigger] mru.shown()[k] < mru.thumbnails.len(),
        mru.visible_ids().len() == mru.shown().len(),
        forall|k: int|
            0 <= k < mru.shown().len() ==> #[trigger] mru.visible_ids()[k]
                == mru.thumbnails[mru.shown()[k]].id,
{
    lemma_shown_below(mru.thumbnails, mru.scope, mru.app_id_filter, mru.thumbnails.len());
}

/// A walk is in order if no two windows have the same id, a selected window is shown, and one is
/// selected if any is shown.
pub proof fn law_well_formed(mru: MruModel)
    ensures
        mru.wf() <==> {
            &&& forall|i: int, j: int|
                0 <= i < j < mru.thumbnails.len() ==> (#[trigger] mru.thumbnails[i]).id != (
                #[trigger] mru.thumbnails[j]).id
            &&& mru.selection_valid()
        },
        mru.selection_valid() <==> {
            ||| mru.current_id matches Some(id) && mru.visible_ids().contains(id)
            ||| mru.current_id is None && mru.visible_ids().len() == 0
        },
{
    if forall|i: int, j: int|
        0 <= i < j < mru.thumbnails.len() ==> (#[trigger] mru.thumbnails[i]).id != (
        #[trigger] mru.thumbnails[j]).id {
        assert forall|i: int, j: int|
            0 <= i < mru.thumbnails.len() && 0 <= j < mru.thumbnails.len() && mru.thumbnails[i].id
                == mru.thumbnails[j].id implies i == j by {
            if i < j {
                assert(mru.thumbnails[i].id != mru.thumbnails[j].id);
            } else if j < i {
                assert(mru.thumbnails[j].id != mru.thumbnails[i].id);
            }
        }
    }
}

/// A window is found by its id.
pub proof fn law_found_by_id(mru: MruModel, id: MappedId, i: int)
    requires
        distinct_ids(mru.thumbnails),
    ensures
        has_id(mru.thumbnails, id) <==> mru.thumbnails.map_values(
            |t: ThumbnailModel| t.id,
        ).contains(id),
        0 <= i < mru.thumbnails.len() && mru.thumbnails[i].id == id ==> has_id(mru.thumbnails, id)
            && index_of_id(mru.thumbnails, id) == i,
{
    let ids = mru.thumbnails.map_values(|t: ThumbnailModel| t.id);
    mru.lemma_visible();
    if has_id(mru.thumbnails, id) {
        let j = choose|j: int| 0 <= j < mru.thumbnails.len() && mru.thumbnails[j].id == id;
        assert(ids[j] == id);
    }
    if ids.contains(id) {
        let j = ids.index_of(id);
        assert(mru.thumbnails[j].id == id);
    }
}

/// Selecting changes the selection alone. The first and the last window are the ends of the shown
/// ones, and there is none if and only if none is shown.
pub proof fn law_ends(mru: MruModel, current_id: Option<MappedId>)
    ensures
        mru.select(current_id).current_id == current_id,
        mru.select(current_id).thumbnails == mru.thumbnails,
        mru.select(current_id).scope == mru.scope,
        mru.select(current_id).app_id_filter == mru.app_id_filter,
        mru.visible_ids().len() == 0 ==> mru.first_id() is None && mru.last_id() is None,
        mru.visible_ids().len() > 0 ==> mru.first_id() == Some(mru.visible_ids()[0])
            && mru.last_id() == Some(mru.visible_ids()[mru.visible_ids().len() - 1]),
{
}

/// From the shown window at place `p`, a step forward selects the one at the next place and a step
/// back the one at the previous place, around the ends. Nothing but the selection changes, and
/// nothing at all where none is selected.
pub proof fn law_steps(mru: MruModel, p: int)
    requires
        mru.wf(),
    ensures
        mru.current_id is None ==> mru.forward() == mru && mru.backward() == mru,
        0 <= p < mru.visible_ids().len() && mru.current_id == Some(mru.visible_ids()[p]) ==> {
            let ids = mru.visible_ids();
            &&& p + 1 < ids.len() ==> mru.forward().current_id == Some(ids[p + 1])
            &&& p + 1 == ids.len() ==> mru.forward().current_id == Some(ids[0])
            &&& p > 0 ==> mru.backward().current_id == Some(ids[p - 1])
            &&& p == 0 ==> mru.backward().current_id == Some(ids[ids.len() - 1])
        },
        mru.forward().thumbnails == mru.thumbnails,
        mru.forward().scope == mru.scope,
        mru.forward().app_id_filter == mru.app_id_filter,
        mru.backward().thumbnails == mru.thumbnails,
        mru.backward().scope == mru.scope,
        mru.backward().app_id_filter == mru.app_id_filter,
        mru.step(MruDirection::Forward) == mru.forward(),
        mru.step(MruDirection::Backward) == mru.backward(),
{
    mru.lemma_visible();
    if 0 <= p < mru.visible_ids().len() {
        assert(mru.visible_ids().index_of(mru.visible_ids()[p]) == p);
    }
}

/// A window that is shown can be selected, and asking for another leaves everything as it is.
pub proof fn law_set_current(mru: MruModel, id: MappedId)
    ensures
        mru.visible_ids().contains(id) ==> mru.set_current(id) == mru.select(Some(id)),
        !mru.visible_ids().contains(id) ==> mru.set_current(id) == mru,
{
}

/// A change of scope and filter sets the scope that is given. Without a filter given the filter
/// stays. The filter that restricts nothing takes it off, in whatever scope, and the one by
/// application sets it to the application of the selected window, at place `i`, or takes it off
/// where no window is selected. All windows stay, and a change is one of the scope or the filter.
pub proof fn law_scope_and_filter_set(
    mru: MruModel,
    scope: MruScope,
    filter: Option<MruFilter>,
    i: int,
)
    requires
        mru.wf(),
    ensures
        ({
            let after = mru.set_scope_and_filter(scope, filter);
            &&& after.thumbnails == mru.thumbnails
            &&& after.scope == scope
            &&& filter is None ==> after.app_id_filter == mru.app_id_filter
            &&& filter == Some(MruFilter::Any) ==> after.app_id_filter is None
            &&& filter == Some(MruFilter::AppId) && mru.current_id is None
                ==> after.app_id_filter is None
            &&& filter == Some(MruFilter::AppId) && 0 <= i < mru.thumbnails.len()
                && mru.current_id == Some(mru.thumbnails[i].id) ==> after.app_id_filter
                == mru.thumbnails[i].app_id
            &&& mru.scope_or_filter_changes(scope, filter) <==> !(after.scope == mru.scope
                && after.app_id_filter == mru.app_id_filter)
        }),
{
    mru.lemma_visible();
}

/// After a change to the filter that restricts nothing, in whatever scope, exactly the windows in
/// that scope are shown.
pub proof fn law_filter_taken_off(mru: MruModel, scope: MruScope, i: int)
    requires
        mru.wf(),
        0 <= i < mru.thumbnails.len(),
    ensures
        ({
            let after = mru.set_scope_and_filter(scope, Some(MruFilter::Any));
            let t = mru.thumbnails[i];
            &&& after.app_id_filter is None
            &&& scope == MruScope::All ==> after.visible_ids().contains(t.id)
            &&& scope == MruScope::Output ==> (after.visible_ids().contains(t.id)
                <==> t.on_current_output)
            &&& scope == MruScope::Workspace ==> (after.visible_ids().contains(t.id)
                <==> t.on_current_workspace)
        }),
{
    law_in_filter_shown(mru, scope, Some(MruFilter::Any), i);
}

/// After a change of scope and filter exactly the windows that these show are shown.
pub proof fn law_in_filter_shown(
    mru: MruModel,
    scope: MruScope,
    filter: Option<MruFilter>,
    i: int,
)
    requires
        mru.wf(),
        0 <= i < mru.thumbnails.len(),
    ensures
        ({
            let after = mru.set_scope_and_filter(scope, filter);
            after.visible_ids().contains(mru.thumbnails[i].id) <==> shows(
                scope,
                after.app_id_filter,
                mru.thumbnails[i],
            )
        }),
{
    let after = mru.set_scope_and_filter(scope, filter);
    after.lemma_visible();
    let id = mru.thumbnails[i].id;
    if after.visible_ids().contains(id) {
        let k = after.visible_ids().index_of(id);
        assert(after.visible_ids()[k] == id);
        assert(after.thumbnails[i].id == id);
        assert(after.shown()[k] == i);
    }
}

/// The filter by application shows every window of the selected window's application that is in
/// the scope, and no other. The selected window stands at place `s`.
pub proof fn law_filter_by_application(mru: MruModel, scope: MruScope, s: int, i: int)
    requires
        mru.wf(),
        0 <= s < mru.thumbnails.len(),
        mru.current_id == Some(mru.thumbnails[s].id),
        mru.thumbnails[s].app_id is Some,
        0 <= i < mru.thumbnails.len(),
    ensures
        mru.set_scope_and_filter(scope, Some(MruFilter::AppId)).visible_ids().contains(
            mru.thumbnails[i].id,
        ) <==> mru.thumbnails[i].app_id == mru.thumbnails[s].app_id && match scope {
            MruScope::All => true,
            MruScope::Output => mru.thumbnails[i].on_current_output,
            MruScope::Workspace => mru.thumbnails[i].on_current_workspace,
        },
{
    law_scope_and_filter_set(mru, scope, Some(MruFilter::AppId), s);
    law_in_filter_shown(mru, scope, Some(MruFilter::AppId), i);
}

/// Without a scope given, advancing is the change of the filter followed by one step in the given
/// direction, whatever the filter is.
pub proof fn law_advance_steps(mru: MruModel, filter: Option<MruFilter>)
    ensures
        ({
            let restricted = mru.set_scope_and_filter(mru.scope, filter);
            &&& mru.advance(Some(MruDirection::Forward), None, filter) == restricted.forward()
            &&& mru.advance(Some(MruDirection::Backward), None, filter) == restricted.backward()
            &&& mru.advance(None, None, filter) == restricted
        }),
{
}

/// With a scope given, advancing changes to it and to the filter, and takes a step in the given
/// direction only where neither was a change.
pub proof fn law_advance_with_scope(mru: MruModel, scope: MruScope, filter: Option<MruFilter>)
    ensures
        ({
            let after = mru.set_scope_and_filter(scope, filter);
            let forward = mru.advance(Some(MruDirection::Forward), Some(scope), filter);
            let backward = mru.advance(Some(MruDirection::Backward), Some(scope), filter);
            &&& after.scope == mru.scope && after.app_id_filter == mru.app_id_filter ==> forward
                == after.forward() && backward == after.backward()
            &&& after.scope != mru.scope || after.app_id_filter != mru.app_id_filter ==> forward
                == after && backward == after
            &&& mru.advance(None, Some(scope), filter) == after
        }),
{
}

/// Advancing moves the selection to the next window that the filter shows, or to the previous one:
/// after a step, a step in the other direction leads to where the change of the filter led.
pub proof fn law_advance_undone(mru: MruModel, filter: Option<MruFilter>)
    requires
        mru.wf(),
    ensures
        mru.advance(Some(MruDirection::Forward), None, filter).backward()
            == mru.set_scope_and_filter(mru.scope, filter),
        mru.advance(Some(MruDirection::Backward), None, filter).forward()
            == mru.set_scope_and_filter(mru.scope, filter),
{
    mru.lemma_set_scope_and_filter_wf(mru.scope, filter);
    law_backward_undoes_forward(mru.set_scope_and_filter(mru.scope, filter));
    law_forward_undoes_backward(mru.set_scope_and_filter(mru.scope, filter));
}

/// Taking out the window at place `idx` leaves the others as they are and in order, and neither
/// scope nor filter changes. Taking out a window that is not there changes nothing.
pub proof fn law_others_stay(mru: MruModel, id: MappedId, idx: int)
    requires
        mru.wf(),
    ensures
        mru.remove(id).scope == mru.scope,
        mru.remove(id).app_id_filter == mru.app_id_filter,
        !has_id(mru.thumbnails, id) ==> mru.remove(id) == mru,
        0 <= idx < mru.thumbnails.len() && mru.thumbnails[idx].id == id ==> {
            let after = mru.remove(id).thumbnails;
            &&& after.len() == mru.thumbnails.len() - 1
            &&& forall|j: int| 0 <= j < idx ==> #[trigger] after[j] == mru.thumbnails[j]
            &&& forall|j: int|
                idx <= j < after.len() ==> #[trigger] after[j] == mru.thumbnails[j + 1]
        },
{
    law_found_by_id(mru, id, idx);
}

/// How thumbnails are drawn is set without touching anything else: opening gives each the same
/// animation, a title goes to the one window, and finished animations end on each for itself.
pub proof fn law_drawing_set(
    mru: MruModel,
    animation: AnimationId,
    finished: Seq<AnimationId>,
    title_texture: TitleModel,
    idx: int,
    i: int,
)
    requires
        0 <= idx < mru.thumbnails.len(),
        0 <= i < mru.thumbnails.len(),
    ensures
        ({
            let opening = mru.opening(animation);
            &&& opening.thumbnails.len() == mru.thumbnails.len()
            &&& opening.thumbnails[i].open_animation == Some(animation)
            &&& opening.thumbnails[i] == ThumbnailModel {
                open_animation: opening.thumbnails[i].open_animation,
                ..mru.thumbnails[i]
            }
            &&& opening.current_id == mru.current_id
            &&& opening.scope == mru.scope
            &&& opening.app_id_filter == mru.app_id_filter
        }),
        ({
            let advanced = mru.advanced(finished);
            &&& advanced.thumbnails.len() == mru.thumbnails.len()
            &&& advanced.thumbnails[i] == mru.thumbnails[i].advanced(finished)
            &&& advanced.current_id == mru.current_id
            &&& advanced.scope == mru.scope
            &&& advanced.app_id_filter == mru.app_id_filter
        }),
        ({
            let titled = mru.with_title(idx, title_texture);
            &&& titled.thumbnails.len() == mru.thumbnails.len()
            &&& titled.thumbnails[idx].title_texture == title_texture
            &&& titled.thumbnails[idx] == ThumbnailModel {
                title_texture: titled.thumbnails[idx].title_texture,
                ..mru.thumbnails[idx]
            }
            &&& i != idx ==> titled.thumbnails[i] == mru.thumbnails[i]
            &&& titled.current_id == mru.current_id
            &&& titled.scope == mru.scope
            &&& titled.app_id_filter == mru.app_id_filter
        }),
{
}

/// The model of a walk tells all that it holds.
pub proof fn law_walk_faithful(wmru: WindowMru, i: int)
    ensures
        wmru@.thumbnails.len() == wmru.thumbnails@.len(),
        0 <= i < wmru.thumbnails@.len() ==> wmru@.thumbnails[i] == wmru.thumbnails@[i]@,
        wmru@.current_id == wmru.current_id,
        wmru@.scope == wmru.scope,
        wmru@.app_id_filter is Some <==> wmru.app_id_filter is Some,
        wmru.app_id_filter matches Some(app_id) ==> wmru@.app_id_filter == Some(app_id@),
{
}

} // verus!
