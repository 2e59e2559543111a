//! What a walk over the recently used windows is, and what holds of it.

use vstd::prelude::*;

use crate::ids::{AnimationId, MappedId};
use crate::scope::{MruDirection, MruFilter, MruScope};
use crate::thumbnail::{ThumbnailModel, TitleModel};

verus! {

/// Whether a window is shown under the given scope and application filter.
pub open spec fn shows(scope: MruScope, app_id_filter: Option<Seq<char>>, t: ThumbnailModel) -> bool {
    &&& match scope {
        MruScope::All => true,
        MruScope::Output => t.on_current_output,
        MruScope::Workspace => t.on_current_workspace,
    }
    &&& app_id_filter matches Some(app_id) ==> t.app_id == Some(app_id)
}

/// The indices below `n` of the windows that are shown, in ascending order.
pub open spec fn shown_below(
    thumbnails: Seq<ThumbnailModel>,
    scope: MruScope,
    app_id_filter: Option<Seq<char>>,
    n: nat,
) -> Seq<int>
    decreases n,
{
    if n == 0 {
        Seq::empty()
    } else {
        let below = shown_below(thumbnails, scope, app_id_filter, (n - 1) as nat);
        if shows(scope, app_id_filter, thumbnails[n - 1]) {
            below.push(n - 1)
        } else {
            below
        }
    }
}

/// No two windows have the same id.
pub open spec fn distinct_ids(thumbnails: Seq<ThumbnailModel>) -> bool {
    forall|i: int, j: int|
        0 <= i < thumbnails.len() && 0 <= j < thumbnails.len() && thumbnails[i].id
            == thumbnails[j].id ==> i == j
}

/// Whether a window has the given id.
pub open spec fn has_id(thumbnails: Seq<ThumbnailModel>, id: MappedId) -> bool {
    exists|i: int| 0 <= i < thumbnails.len() && thumbnails[i].id == id
}

/// The index of the window with the given id.
pub open spec fn index_of_id(thumbnails: Seq<ThumbnailModel>, id: MappedId) -> int {
    choose|i: int| 0 <= i < thumbnails.len() && thumbnails[i].id == id
}

/// The element after `id`, and the first one after the last.
pub open spec fn cyclic_next(ids: Seq<MappedId>, id: MappedId) -> MappedId {
    let p = ids.index_of(id);
    if p + 1 < ids.len() {
        ids[p + 1]
    } else {
        ids[0]
    }
}

/// The element before `id`, and the last one before the first.
pub open spec fn cyclic_prev(ids: Seq<MappedId>, id: MappedId) -> MappedId {
    let p = ids.index_of(id);
    if p > 0 {
        ids[p - 1]
    } else {
        ids[ids.len() - 1]
    }
}

/// A walk over the recently used windows.
#[verifier::ext_equal]
pub struct MruModel {
    /// All windows, hidden ones too.
    pub thumbnails: Seq<ThumbnailModel>,
    /// The selected window.
    pub current_id: Option<MappedId>,
    pub scope: MruScope,
    pub app_id_filter: Option<Seq<char>>,
}

impl MruModel {
    /// The indices of the shown windows.
    pub open spec fn shown(self) -> Seq<int> {
        shown_below(self.thumbnails, self.scope, self.app_id_filter, self.thumbnails.len())
    }

    /// The ids of the shown windows, in order.
    pub open spec fn visible_ids(self) -> Seq<MappedId> {
        Seq::new(self.shown().len(), |k: int| self.thumbnails[self.shown()[k]].id)
    }

    /// The selected window is shown, and none is selected only where none is shown.
    pub open spec fn selection_valid(self) -> bool {
        match self.current_id {
            Some(id) => self.visible_ids().contains(id),
            None => self.visible_ids().len() == 0,
        }
    }

    pub open spec fn wf(self) -> bool {
        &&& distinct_ids(self.thumbnails)
        &&& self.selection_valid()
    }

    pub open spec fn first_id(self) -> Option<MappedId> {
        if self.visible_ids().len() == 0 {
            None
        } else {
            Some(self.visible_ids()[0])
        }
    }

    pub open spec fn last_id(self) -> Option<MappedId> {
        if self.visible_ids().len() == 0 {
            None
        } else {
            Some(self.visible_ids().last())
        }
    }

    /// The same windows with another selection.
    pub open spec fn select(self, current_id: Option<MappedId>) -> MruModel {
        MruModel { current_id, ..self }
    }

    pub open spec fn forward(self) -> MruModel {
        match self.current_id {
            Some(id) => self.select(Some(cyclic_next(self.visible_ids(), id))),
            None => self,
        }
    }

    pub open spec fn backward(self) -> MruModel {
        match self.current_id {
            Some(id) => self.select(Some(cyclic_prev(self.visible_ids(), id))),
            None => self,
        }
    }

    /// One step in the given direction.
    pub open spec fn step(self, direction: MruDirection) -> MruModel {
        match direction {
            MruDirection::Forward => self.forward(),
            MruDirection::Backward => self.backward(),
        }
    }

    /// Selects the given window if it is shown.
    pub open spec fn set_current(self, id: MappedId) -> MruModel {
        if self.visible_ids().contains(id) {
            self.select(Some(id))
        } else {
            self
        }
    }

    /// The shown window at `idx`, or else the nearest one before it, or else the first one after.
    pub open spec fn nearest(self, idx: int) -> Option<MappedId> {
        let up_to = shown_below(self.thumbnails, self.scope, self.app_id_filter, (idx + 1) as nat);
        if up_to.len() > 0 {
            Some(self.thumbnails[up_to.last()].id)
        } else {
            self.first_id()
        }
    }

    /// The application filter after a change to `filter`. Without a selected window there is no
    /// application to keep to.
    pub open spec fn changed_filter(self, filter: Option<MruFilter>) -> Option<Seq<char>> {
        match filter {
            None => self.app_id_filter,
            Some(MruFilter::Any) => None,
            Some(MruFilter::AppId) => match self.current_id {
                Some(id) => self.thumbnails[index_of_id(self.thumbnails, id)].app_id,
                None => None,
            },
        }
    }

    /// Another scope and, where given, another filter, with the selection kept as near as it can.
    pub open spec fn set_scope_and_filter(
        self,
        scope: MruScope,
        filter: Option<MruFilter>,
    ) -> MruModel {
        let restricted = MruModel { scope, app_id_filter: self.changed_filter(filter), ..self };
        match self.current_id {
            Some(id) => restricted.select(
                restricted.nearest(index_of_id(self.thumbnails, id)),
            ),
            None => restricted.select(restricted.first_id()),
        }
    }

    /// Whether that changes the scope or the filter.
    pub open spec fn scope_or_filter_changes(
        self,
        scope: MruScope,
        filter: Option<MruFilter>,
    ) -> bool {
        self.scope != scope || self.app_id_filter != self.changed_filter(filter)
    }

    /// Takes a window out. Where it was selected the next shown window is selected, if there is
    /// another.
    pub open spec fn remove(self, id: MappedId) -> MruModel {
        if has_id(self.thumbnails, id) {
            let current_id = if self.current_id != Some(id) {
                self.current_id
            } else if self.forward().current_id != Some(id) {
                self.forward().current_id
            } else {
                None
            };
            MruModel {
                thumbnails: self.thumbnails.remove(index_of_id(self.thumbnails, id)),
                current_id,
                ..self
            }
        } else {
            self
        }
    }
}

/// A thumbnail with its window, by their places among the thumbnails and the layout's windows.
#[derive(Clone, Copy, Debug, PartialEq, Eq, Structural)]
pub struct LaidOut {
    pub thumbnail: usize,
    pub window: usize,
}

/// The first window from `w` on with the given id.
pub open spec fn first_window(windows: Seq<MappedId>, id: MappedId, w: int) -> Option<int>
    decreases windows.len() - w,
{
    if w < 0 || w >= windows.len() {
        None
    } else if windows[w] == id {
        Some(w)
    } else {
        first_window(windows, id, w + 1)
    }
}

impl MruModel {
    /// A change of scope and filter with a step in a direction. Where a scope is given, a change
    /// takes the place of the step.
    pub open spec fn advance(
        self,
        direction: Option<MruDirection>,
        scope: Option<MruScope>,
        filter: Option<MruFilter>,
    ) -> MruModel {
        let new_scope = match scope {
            Some(scope) => scope,
            None => self.scope,
        };
        let restricted = self.set_scope_and_filter(new_scope, filter);
        if self.scope_or_filter_changes(new_scope, filter) && scope is Some {
            restricted
        } else {
            match direction {
                Some(direction) => restricted.step(direction),
                None => restricted,
            }
        }
    }

    /// All thumbnails opening with the given animation.
    pub open spec fn opening(self, animation: AnimationId) -> MruModel {
        MruModel {
            thumbnails: Seq::new(
                self.thumbnails.len(),
                |i: int|
                    ThumbnailModel { open_animation: Some(animation), ..self.thumbnails[i] },
            ),
            ..self
        }
    }

    /// The first `n` shown thumbnails that have a window in the layout, each with the first such
    /// window.
    pub open spec fn laid_out(self, windows: Seq<MappedId>, n: nat) -> Seq<LaidOut>
        decreases n,
    {
        if n == 0 {
            Seq::empty()
        } else {
            let before = self.laid_out(windows, (n - 1) as nat);
            match first_window(windows, self.visible_ids()[n - 1], 0) {
                Some(w) => before.push(
                    LaidOut { thumbnail: self.shown()[n - 1] as usize, window: w as usize },
                ),
                None => before,
            }
        }
    }

    /// The walk with another title cached for the window at `idx`.
    pub open spec fn with_title(self, idx: int, title_texture: TitleModel) -> MruModel {
        MruModel {
            thumbnails: self.thumbnails.update(
                idx,
                ThumbnailModel { title_texture, ..self.thumbnails[idx] },
            ),
            ..self
        }
    }

    /// All thumbnails once the `finished` animations are over.
    pub open spec fn advanced(self, finished: Seq<AnimationId>) -> MruModel {
        MruModel {
            thumbnails: Seq::new(
                self.thumbnails.len(),
                |i: int| self.thumbnails[i].advanced(finished),
            ),
            ..self
        }
    }
}

/// The indices in `shown_below` are exactly those of shown windows, in ascending order.
pub proof fn lemma_shown_below(
    thumbnails: Seq<ThumbnailModel>,
    scope: MruScope,
    filter: Option<Seq<char>>,
    n: nat,
)
    requires
        n <= thumbnails.len(),
    ensures
        forall|k: int|
            #![trigger shown_below(thumbnails, scope, filter, n)[k]]
            0 <= k < shown_below(thumbnails, scope, filter, n).len() ==> {
                let i = shown_below(thumbnails, scope, filter, n)[k];
                0 <= i < n && shows(scope, filter, thumbnails[i])
            },
        forall|k: int, l: int|
            0 <= k < l < shown_below(thumbnails, scope, filter, n).len() ==> shown_below(
                thumbnails,
                scope,
                filter,
                n,
            )[k] < shown_below(thumbnails, scope, filter, n)[l],
        forall|i: int|
            0 <= i < n && #[trigger] shows(scope, filter, thumbnails[i]) ==> shown_below(
                thumbnails,
                scope,
                filter,
                n,
            ).contains(i),
        shown_below(thumbnails, scope, filter, n).len() <= n,
    decreases n,
{
    if n > 0 {
        let below = shown_below(thumbnails, scope, filter, (n - 1) as nat);
        let all = shown_below(thumbnails, scope, filter, n);
        lemma_shown_below(thumbnails, scope, filter, (n - 1) as nat);
        assert forall|i: int|
            0 <= i < n && #[trigger] shows(scope, filter, thumbnails[i]) implies all.contains(i) by {
            if i == n - 1 {
                assert(all[all.len() - 1] == i);
            } else {
                let k = choose|k: int| 0 <= k < below.len() && below[k] == i;
                assert(all[k] == i);
            }
        }
    }
}

/// The shown windows below `m` begin with those below `n`.
pub proof fn lemma_shown_below_prefix(
    thumbnails: Seq<ThumbnailModel>,
    scope: MruScope,
    filter: Option<Seq<char>>,
    n: nat,
    m: nat,
)
    requires
        n <= m <= thumbnails.len(),
    ensures
        ({
            let front = shown_below(thumbnails, scope, filter, n);
            let all = shown_below(thumbnails, scope, filter, m);
            &&& front.len() <= all.len()
            &&& forall|k: int| 0 <= k < front.len() ==> front[k] == #[trigger] all[k]
            &&& forall|k: int| front.len() <= k < all.len() ==> n <= #[trigger] all[k]
        }),
    decreases m,
{
    if n < m {
        lemma_shown_below_prefix(thumbnails, scope, filter, n, (m - 1) as nat);
    } else {
        lemma_shown_below(thumbnails, scope, filter, n);
    }
}

impl MruModel {
    /// The selected id stands at one place among the shown ones, and belongs to one window.
    pub proof fn lemma_visible(self)
        requires
            distinct_ids(self.thumbnails),
        ensures
            self.visible_ids().no_duplicates(),
            forall|k: int|
                #![trigger self.shown()[k]]
                #![trigger self.visible_ids()[k]]
                0 <= k < self.shown().len() ==> {
                    &&& 0 <= self.shown()[k] < self.thumbnails.len()
                    &&& shows(self.scope, self.app_id_filter, self.thumbnails[self.shown()[k]])
                    &&& self.visible_ids()[k] == self.thumbnails[self.shown()[k]].id
                    &&& index_of_id(self.thumbnails, self.visible_ids()[k]) == self.shown()[k]
                    &&& self.visible_ids().index_of(self.visible_ids()[k]) == k
                },
            forall|i: int|
                0 <= i < self.thumbnails.len() && #[trigger] shows(
                    self.scope,
                    self.app_id_filter,
                    self.thumbnails[i],
                ) ==> self.visible_ids().contains(self.thumbnails[i].id),
            forall|i: int|
                0 <= i < self.thumbnails.len() ==> index_of_id(
                    self.thumbnails,
                    #[trigger] self.thumbnails[i].id,
                ) == i,
    {
        lemma_shown_below(self.thumbnails, self.scope, self.app_id_filter, self.thumbnails.len());
        let ids = self.visible_ids();
        assert(ids.no_duplicates());
        assert forall|k: int| 0 <= k < ids.len() implies ids.index_of(#[trigger] ids[k]) == k by {
            let p = ids.index_of(ids[k]);
            assert(0 <= p < ids.len() && ids[p] == ids[k]);
        }
        assert forall|i: int| 0 <= i < self.thumbnails.len() implies index_of_id(
            self.thumbnails,
            #[trigger] self.thumbnails[i].id,
        ) == i by {
            let j = index_of_id(self.thumbnails, self.thumbnails[i].id);
            assert(0 <= j < self.thumbnails.len() && self.thumbnails[j].id
                == self.thumbnails[i].id);
        }
        assert forall|i: int|
            0 <= i < self.thumbnails.len() && #[trigger] shows(
                self.scope,
                self.app_id_filter,
                self.thumbnails[i],
            ) implies ids.contains(self.thumbnails[i].id) by {
            let k = choose|k: int| 0 <= k < self.shown().len() && self.shown()[k] == i;
            assert(ids[k] == self.thumbnails[i].id);
        }
    }
}

/// The ids of the windows in `shown_below`.
pub open spec fn ids_below(
    thumbnails: Seq<ThumbnailModel>,
    scope: MruScope,
    filter: Option<Seq<char>>,
    n: nat,
) -> Seq<MappedId> {
    let shown = shown_below(thumbnails, scope, filter, n);
    Seq::new(shown.len(), |k: int| thumbnails[shown[k]].id)
}

/// Taking out the window at `idx` takes out its id.
proof fn lemma_ids_below_remove(
    thumbnails: Seq<ThumbnailModel>,
    scope: MruScope,
    filter: Option<Seq<char>>,
    idx: int,
    n: nat,
)
    requires
        distinct_ids(thumbnails),
        0 <= idx < thumbnails.len(),
        n <= thumbnails.len(),
    ensures
        ids_below(
            thumbnails.remove(idx),
            scope,
            filter,
            if n <= idx {
                n
            } else {
                (n - 1) as nat
            },
        ) == ids_below(thumbnails, scope, filter, n).filter(
            |id: MappedId| id != thumbnails[idx].id,
        ),
    decreases n,
{
    let kept = |id: MappedId| id != thumbnails[idx].id;
    let rest = thumbnails.remove(idx);
    let ids = ids_below(thumbnails, scope, filter, n);
    if n == 0 {
        reveal(Seq::filter);
        assert(ids_below(rest, scope, filter, 0) =~= ids.filter(kept));
    } else {
        let below = (n - 1) as nat;
        let front = ids_below(thumbnails, scope, filter, below);
        lemma_ids_below_remove(thumbnails, scope, filter, idx, below);
        lemma_ids_below_step(thumbnails, scope, filter, n);
        front.lemma_filter_push(thumbnails[n - 1].id, kept);
        if n <= idx {
            assert(rest[n - 1] == thumbnails[n - 1]);
            lemma_ids_below_step(rest, scope, filter, n);
        } else if n - 1 > idx {
            assert(rest[n - 2] == thumbnails[n - 1]);
            lemma_ids_below_step(rest, scope, filter, below);
        }
    }
}

proof fn lemma_ids_below_step(
    thumbnails: Seq<ThumbnailModel>,
    scope: MruScope,
    filter: Option<Seq<char>>,
    n: nat,
)
    requires
        0 < n <= thumbnails.len(),
    ensures
        ids_below(thumbnails, scope, filter, n) == if shows(scope, filter, thumbnails[n - 1]) {
            ids_below(thumbnails, scope, filter, (n - 1) as nat).push(thumbnails[n - 1].id)
        } else {
            ids_below(thumbnails, scope, filter, (n - 1) as nat)
        },
{
    let below = ids_below(thumbnails, scope, filter, (n - 1) as nat);
    if shows(scope, filter, thumbnails[n - 1]) {
        assert(ids_below(thumbnails, scope, filter, n) =~= below.push(thumbnails[n - 1].id));
    } else {
        assert(ids_below(thumbnails, scope, filter, n) =~= below);
    }
}

proof fn lemma_all_shown_below(thumbnails: Seq<ThumbnailModel>, n: nat)
    requires
        n <= thumbnails.len(),
    ensures
        shown_below(thumbnails, MruScope::All, None, n) == Seq::new(n, |i: int| i),
    decreases n,
{
    if n > 0 {
        lemma_all_shown_below(thumbnails, (n - 1) as nat);
    }
    assert(shown_below(thumbnails, MruScope::All, None, n) =~= Seq::new(n, |i: int| i));
}

/// Two lists hold the same windows, apart from how they are drawn.
pub open spec fn same_windows(a: Seq<ThumbnailModel>, b: Seq<ThumbnailModel>) -> bool {
    &&& a.len() == b.len()
    &&& forall|i: int|
        0 <= i < a.len() ==> {
            &&& (#[trigger] a[i]).id == b[i].id
            &&& a[i].timestamp == b[i].timestamp
            &&& a[i].on_current_workspace == b[i].on_current_workspace
            &&& a[i].on_current_output == b[i].on_current_output
            &&& a[i].app_id == b[i].app_id
        }
}

/// How windows are drawn does not decide which are shown.
proof fn lemma_same_shown(
    a: Seq<ThumbnailModel>,
    b: Seq<ThumbnailModel>,
    scope: MruScope,
    filter: Option<Seq<char>>,
    n: nat,
)
    requires
        same_windows(a, b),
        n <= a.len(),
    ensures
        shown_below(a, scope, filter, n) == shown_below(b, scope, filter, n),
    decreases n,
{
    if n > 0 {
        lemma_same_shown(a, b, scope, filter, (n - 1) as nat);
        assert(a[n - 1].id == b[n - 1].id);
    }
}

/// Another order of the same windows has no id twice either.
pub proof fn lemma_permuted_distinct(a: Seq<ThumbnailModel>, b: Seq<ThumbnailModel>)
    requires
        distinct_ids(a),
        a.to_multiset() == b.to_multiset(),
    ensures
        distinct_ids(b),
{
    broadcast use vstd::seq_lib::group_to_multiset_ensures;

    assert(a.no_duplicates());
    a.lemma_multiset_has_no_duplicates();
    b.lemma_multiset_has_no_duplicates_conv();
    assert forall|i: int, j: int|
        0 <= i < b.len() && 0 <= j < b.len() && b[i].id == b[j].id implies i == j by {
        assert(b.to_multiset().count(b[i]) > 0 && b.to_multiset().count(b[j]) > 0);
        assert(a.contains(b[i]) && a.contains(b[j]));
        let k = a.index_of(b[i]);
        let l = a.index_of(b[j]);
        assert(a[k].id == a[l].id);
        assert(b[i] == b[j]);
    }
}

impl MruModel {
    /// How windows are drawn does not decide what is shown and selected.
    pub proof fn lemma_same_windows(self, thumbnails: Seq<ThumbnailModel>)
        requires
            same_windows(self.thumbnails, thumbnails),
        ensures
            (MruModel { thumbnails, ..self }).visible_ids() == self.visible_ids(),
            self.wf() ==> (MruModel { thumbnails, ..self }).wf(),
    {
        let other = MruModel { thumbnails, ..self };
        lemma_same_shown(
            self.thumbnails,
            thumbnails,
            self.scope,
            self.app_id_filter,
            thumbnails.len(),
        );
        lemma_shown_below(self.thumbnails, self.scope, self.app_id_filter, thumbnails.len());
        assert forall|k: int| 0 <= k < self.shown().len() implies self.visible_ids()[k]
            == other.visible_ids()[k] by {
            let i = self.shown()[k];
            assert(self.thumbnails[i].id == thumbnails[i].id);
        }
        assert(other.visible_ids() =~= self.visible_ids());
        if self.wf() {
            assert forall|i: int, j: int|
                0 <= i < thumbnails.len() && 0 <= j < thumbnails.len() && thumbnails[i].id
                    == thumbnails[j].id implies i == j by {
                assert(self.thumbnails[i].id == self.thumbnails[j].id);
            }
        }
    }

    /// Without a filter all windows are in scope.
    pub proof fn lemma_all_shown(self)
        requires
            self.scope == MruScope::All,
            self.app_id_filter is None,
        ensures
            self.shown() == Seq::new(self.thumbnails.len(), |i: int| i),
            self.visible_ids() == self.thumbnails.map_values(|t: ThumbnailModel| t.id),
    {
        lemma_all_shown_below(self.thumbnails, self.thumbnails.len());
        assert(self.visible_ids() =~= self.thumbnails.map_values(|t: ThumbnailModel| t.id));
    }

    /// The selection does not decide what is shown.
    proof fn lemma_select(self, current_id: Option<MappedId>)
        ensures
            self.select(current_id).visible_ids() == self.visible_ids(),
    {
        assert(self.select(current_id).visible_ids() =~= self.visible_ids());
    }

    pub proof fn lemma_forward_wf(self)
        requires
            self.wf(),
        ensures
            self.forward().wf(),
    {
        self.lemma_visible();
        self.lemma_select(self.forward().current_id);
    }

    pub proof fn lemma_backward_wf(self)
        requires
            self.wf(),
        ensures
            self.backward().wf(),
    {
        self.lemma_visible();
        self.lemma_select(self.backward().current_id);
    }

    pub proof fn lemma_set_current_wf(self, id: MappedId)
        requires
            self.wf(),
        ensures
            self.set_current(id).wf(),
    {
        self.lemma_select(Some(id));
    }

    pub proof fn lemma_set_scope_and_filter_wf(self, scope: MruScope, filter: Option<MruFilter>)
        requires
            self.wf(),
        ensures
            self.set_scope_and_filter(scope, filter).wf(),
    {
        let app_id_filter = self.changed_filter(filter);
        let restricted = MruModel { scope, app_id_filter, ..self };
        let selected = self.set_scope_and_filter(scope, filter);
        self.lemma_visible();
        restricted.lemma_visible();
        restricted.lemma_select(selected.current_id);
        if let Some(id) = self.current_id {
            let idx = index_of_id(self.thumbnails, id);
            let k = self.visible_ids().index_of(id);
            assert(idx == self.shown()[k]);
            lemma_shown_below(self.thumbnails, scope, app_id_filter, (idx + 1) as nat);
            let up_to = shown_below(self.thumbnails, scope, app_id_filter, (idx + 1) as nat);
            if up_to.len() > 0 {
                let i = up_to[up_to.len() - 1];
                assert(shows(scope, app_id_filter, restricted.thumbnails[i]));
            }
        }
    }

    /// Taking out a window takes its id out of the shown ones and leaves the others as they are.
    pub proof fn lemma_remove_visible(self, id: MappedId)
        requires
            distinct_ids(self.thumbnails),
        ensures
            self.remove(id).visible_ids() == self.visible_ids().filter(
                |other: MappedId| other != id,
            ),
    {
        let kept = |other: MappedId| other != id;
        let n = self.thumbnails.len();
        assert(self.visible_ids() =~= ids_below(
            self.thumbnails,
            self.scope,
            self.app_id_filter,
            n,
        ));
        if has_id(self.thumbnails, id) {
            let idx = index_of_id(self.thumbnails, id);
            lemma_ids_below_remove(self.thumbnails, self.scope, self.app_id_filter, idx, n);
            assert(self.remove(id).visible_ids() =~= ids_below(
                self.thumbnails.remove(idx),
                self.scope,
                self.app_id_filter,
                (n - 1) as nat,
            ));
        } else {
            self.lemma_visible();
            lemma_filter_all(self.visible_ids(), kept);
        }
    }

    pub proof fn lemma_remove_wf(self, id: MappedId)
        requires
            self.wf(),
        ensures
            self.remove(id).wf(),
    {
        let kept = |other: MappedId| other != id;
        let ids = self.visible_ids();
        let after = self.remove(id);
        self.lemma_remove_visible(id);
        self.lemma_visible();
        broadcast use Seq::lemma_filter_contains, Seq::lemma_filter_pred;

        if has_id(self.thumbnails, id) {
            let idx = index_of_id(self.thumbnails, id);
            assert forall|i: int, j: int|
                0 <= i < after.thumbnails.len() && 0 <= j < after.thumbnails.len()
                    && after.thumbnails[i].id == after.thumbnails[j].id implies i == j by {
                let a = if i < idx { i } else { i + 1 };
                let b = if j < idx { j } else { j + 1 };
                assert(after.thumbnails[i] == self.thumbnails[a]);
                assert(after.thumbnails[j] == self.thumbnails[b]);
            }
            if let Some(current) = after.current_id {
                assert(ids.contains(current) && current != id);
                let k = ids.index_of(current);
                assert(kept(ids[k]));
                assert(ids.filter(kept).contains(ids[k]));
            } else {
                if after.visible_ids().len() > 0 {
                    let other = ids.filter(kept)[0];
                    assert(kept(other));
                    lemma_filter_source(ids, kept, 0);
                    assert(ids.contains(other));
                    if self.current_id == Some(id) {
                        let p = ids.index_of(id);
                        let q = ids.index_of(other);
                        assert(ids[p] == id && ids[q] == other);
                        assert(cyclic_next(ids, id) == id);
                    }
                }
            }
        } else {
            self.lemma_forward_wf();
        }
    }
}

/// A filter that drops nothing.
proof fn lemma_filter_all<A>(s: Seq<A>, kept: spec_fn(A) -> bool)
    requires
        forall|i: int| 0 <= i < s.len() ==> kept(#[trigger] s[i]),
    ensures
        s.filter(kept) == s,
    decreases s.len(),
{
    reveal(Seq::filter);
    if s.len() > 0 {
        lemma_filter_all(s.drop_last(), kept);
        assert(s.drop_last().push(s.last()) =~= s);
    }
}

/// What a filter keeps stems from the sequence.
pub proof fn lemma_filter_source<A>(s: Seq<A>, kept: spec_fn(A) -> bool, k: int)
    requires
        0 <= k < s.filter(kept).len(),
    ensures
        s.contains(s.filter(kept)[k]),
    decreases s.len(),
{
    reveal(Seq::filter);
    if s.len() > 0 {
        let front = s.drop_last();
        if k < front.filter(kept).len() {
            lemma_filter_source(front, kept, k);
            let i = front.index_of(front.filter(kept)[k]);
            assert(s[i] == s.filter(kept)[k]);
        } else {
            assert(s[s.len() - 1] == s.filter(kept)[k]);
        }
    }
}

} // verus!
