//! The walk over the recently used windows.

use vstd::prelude::*;

use crate::coord::Coord;
use crate::ids::{AnimationId, MappedId, TextureId};
use crate::layout::{thumbnails_of, LayoutSnapshot};
use crate::mru_model::{
    distinct_ids, first_window, has_id, index_of_id, lemma_permuted_distinct, lemma_shown_below,
    lemma_shown_below_prefix, shown_below, shows, LaidOut, MruModel,
};
use crate::recency::{is_mru_sort, sort_by_recency};
use crate::scope::{MruFilter, MruScope};
use crate::thumbnail::{models, text, Thumbnail, ThumbnailModel, TitleModel};

verus! {

/// Window MRU traversal context.
#[derive(Debug)]
pub struct WindowMru {
    /// Windows in MRU order.
    pub thumbnails: Vec<Thumbnail>,
    /// Id of the currently selected window.
    pub current_id: Option<MappedId>,
    pub scope: MruScope,
    pub app_id_filter: Option<String>,
}

impl View for WindowMru {
    type V = MruModel;

    open spec fn view(&self) -> MruModel {
        MruModel {
            thumbnails: models(self.thumbnails@),
            current_id: self.current_id,
            scope: self.scope,
            app_id_filter: text(self.app_id_filter),
        }
    }
}

/// Whether a thumbnail is shown under the given scope and application filter.
pub fn matches(scope: MruScope, app_id_filter: Option<&String>, thumbnail: &Thumbnail) -> (r: bool)
    ensures
        r == shows(
            scope,
            match app_id_filter {
                Some(app_id) => Some(app_id@),
                None => None,
            },
            thumbnail@,
        ),
{
    let in_scope: bool = match scope {
        MruScope::All => true,
        MruScope::Output => thumbnail.on_current_output,
        MruScope::Workspace => thumbnail.on_current_workspace,
    };
    if !in_scope {
        return false;
    }
    match app_id_filter {
        Some(wanted) => match &thumbnail.app_id {
            Some(app_id) => *app_id == *wanted,
            None => false,
        },
        None => true,
    }
}

/// The list holds the thumbnails at the given indices, with their indices.
pub open spec fn lists(
    shown: Seq<(usize, &Thumbnail)>,
    thumbnails: Seq<Thumbnail>,
    indices: Seq<int>,
) -> bool {
    &&& shown.len() == indices.len()
    &&& forall|k: int|
        #![trigger shown[k]]
        0 <= k < shown.len() ==> {
            &&& shown[k].0 == indices[k]
            &&& shown[k].0 < thumbnails.len()
            &&& *shown[k].1 == thumbnails[shown[k].0 as int]
        }
}

impl WindowMru {
    /// All windows of the layout in most-recently-used order, with the most recent one selected.
    pub fn new(layout: &LayoutSnapshot) -> (mru: WindowMru)
        requires
            layout.has_monitors(),
        ensures
            is_mru_sort(layout.thumbnails(), mru@.thumbnails),
            mru@.current_id == if mru@.thumbnails.len() == 0 {
                None
            } else {
                Some(mru@.thumbnails[0].id)
            },
            mru@.scope == MruScope::All,
            mru@.app_id_filter is None,
            mru@.selection_valid(),
            distinct_ids(layout.thumbnails()) ==> mru@.wf(),
    {
        let mut thumbnails: Vec<Thumbnail> = Vec::new();
        match layout.active_output {
            Some(output) => {
                let mut i: usize = 0;
                assert(models(thumbnails@) =~= thumbnails_of(layout.workspaces@, output, 0));
                while i < layout.workspaces.len()
                    invariant
                        i <= layout.workspaces.len(),
                        layout.has_monitors(),
                        layout.active_output is Some,
                        models(thumbnails@) == thumbnails_of(layout.workspaces@, output, i as nat),
                    decreases layout.workspaces.len() - i,
                {
                    layout.workspaces[i].collect_thumbnails(output, &mut thumbnails);
                    i += 1;
                }
            },
            None => {
                assert(models(thumbnails@) =~= Seq::empty());
            },
        }
        let thumbnails: Vec<Thumbnail> = sort_by_recency(thumbnails);
        let current_id: Option<MappedId> = if thumbnails.len() == 0 {
            None
        } else {
            Some(thumbnails[0].id)
        };
        let mru = WindowMru { thumbnails, current_id, scope: MruScope::All, app_id_filter: None };
        proof {
            if distinct_ids(layout.thumbnails()) {
                lemma_permuted_distinct(layout.thumbnails(), mru@.thumbnails);
            }
            mru@.lemma_all_shown();
            if mru@.thumbnails.len() > 0 {
                assert(mru@.visible_ids()[0] == mru@.thumbnails[0].id);
            }
        }
        mru
    }

    /// The shown thumbnails with their indices, in order.
    pub fn thumbnails_with_idx(&self) -> (shown: Vec<(usize, &Thumbnail)>)
        ensures
            lists(shown@, self.thumbnails@, self@.shown()),
    {
        let mut shown: Vec<(usize, &Thumbnail)> = Vec::new();
        let mut i: usize = 0;
        while i < self.thumbnails.len()
            invariant
                i <= self.thumbnails.len(),
                lists(
                    shown@,
                    self.thumbnails@,
                    shown_below(self@.thumbnails, self@.scope, self@.app_id_filter, i as nat),
                ),
            decreases self.thumbnails.len() - i,
        {
            let thumbnail: &Thumbnail = &self.thumbnails[i];
            if matches(self.scope, self.app_id_filter.as_ref(), thumbnail) {
                shown.push((i, thumbnail));
            }
            i += 1;
        }
        shown
    }

    /// The ids of the shown thumbnails, in order.
    pub fn shown_ids(&self) -> (ids: Vec<MappedId>)
        ensures
            ids@ == self@.visible_ids(),
    {
        let shown = self.thumbnails_with_idx();
        let mut ids: Vec<MappedId> = Vec::new();
        let mut k: usize = 0;
        while k < shown.len()
            invariant
                k <= shown.len(),
                k == ids.len(),
                forall|j: int| 0 <= j < k ==> ids@[j] == (#[trigger] shown@[j]).1.id,
            decreases shown.len() - k,
        {
            ids.push(shown[k].1.id);
            k += 1;
        }
        assert forall|j: int| 0 <= j < ids@.len() implies ids@[j] == self@.visible_ids()[j] by {
            assert(ids@[j] == shown@[j].1.id);
        }
        assert(ids@ =~= self@.visible_ids());
        ids
    }

    /// Selects the next shown window, and the first one after the last.
    pub fn forward(&mut self)
        requires
            old(self)@.wf(),
        ensures
            final(self)@ == old(self)@.forward(),
            final(self)@.wf(),
    {
        let id: MappedId = match self.current_id {
            Some(id) => id,
            None => {
                return;
            },
        };
        proof {
            self@.lemma_visible();
            self@.lemma_forward_wf();
        }
        let ids: Vec<MappedId> = self.shown_ids();
        let next: MappedId = match position(&ids, id) {
            Some(p) if p < ids.len() - 1 => ids[p + 1],
            _ => ids[0],
        };
        self.current_id = Some(next);
        assert(self@ =~= old(self)@.forward());
    }

    /// Selects the previous shown window, and the last one before the first.
    pub fn backward(&mut self)
        requires
            old(self)@.wf(),
        ensures
            final(self)@ == old(self)@.backward(),
            final(self)@.wf(),
    {
        let id: MappedId = match self.current_id {
            Some(id) => id,
            None => {
                return;
            },
        };
        proof {
            self@.lemma_visible();
            self@.lemma_backward_wf();
        }
        let ids: Vec<MappedId> = self.shown_ids();
        let previous: MappedId = match position(&ids, id) {
            Some(p) if p > 0 => ids[p - 1],
            _ => ids[ids.len() - 1],
        };
        self.current_id = Some(previous);
        assert(self@ =~= old(self)@.backward());
    }

    /// Selects the given window if it is shown.
    pub fn set_current(&mut self, id: MappedId)
        requires
            old(self)@.wf(),
        ensures
            final(self)@ == old(self)@.set_current(id),
            final(self)@.wf(),
    {
        proof {
            self@.lemma_set_current_wf(id);
        }
        let ids: Vec<MappedId> = self.shown_ids();
        if position(&ids, id).is_some() {
            self.current_id = Some(id);
        }
        assert(self@ =~= old(self)@.set_current(id));
    }

    /// The first shown window.
    pub fn first_id(&self) -> (id: Option<MappedId>)
        ensures
            id == self@.first_id(),
    {
        let ids: Vec<MappedId> = self.shown_ids();
        if ids.len() == 0 {
            None
        } else {
            Some(ids[0])
        }
    }

    /// Selects the first shown window.
    pub fn first(&mut self)
        requires
            old(self)@.wf(),
        ensures
            final(self)@ == old(self)@.select(old(self)@.first_id()),
            final(self)@.wf(),
    {
        self.current_id = self.first_id();
        assert(self@.visible_ids() =~= old(self)@.visible_ids());
    }

    /// Selects the last shown window.
    pub fn last(&mut self)
        requires
            old(self)@.wf(),
        ensures
            final(self)@ == old(self)@.select(old(self)@.last_id()),
            final(self)@.wf(),
    {
        let ids: Vec<MappedId> = self.shown_ids();
        self.current_id = if ids.len() == 0 {
            None
        } else {
            Some(ids[ids.len() - 1])
        };
        assert(self@.visible_ids() =~= old(self)@.visible_ids());
    }

    /// Changes the scope and, where `filter` is given, the filter; tells whether either changed.
    ///
    /// The selected window stays selected if it is still shown. Otherwise the nearest shown window
    /// before it is selected, and failing that the first one after it.
    pub fn set_scope_and_filter(&mut self, scope: MruScope, filter: Option<MruFilter>) -> (changed:
        bool)
        requires
            old(self)@.wf(),
        ensures
            final(self)@ == old(self)@.set_scope_and_filter(scope, filter),
            final(self)@.wf(),
            changed == old(self)@.scope_or_filter_changes(scope, filter),
    {
        proof {
            self@.lemma_visible();
            self@.lemma_set_scope_and_filter_wf(scope, filter);
        }
        let mut changed: bool = self.scope != scope;
        match self.current_id {
            Some(id) => {
                let current_idx: usize = self.index_of(id).unwrap();
                match filter {
                    Some(filter) => {
                        let app_id_filter: Option<String> = match filter {
                            MruFilter::Any => None,
                            MruFilter::AppId => self.thumbnails[current_idx].app_id.clone(),
                        };
                        changed = changed || !same_text(&self.app_id_filter, &app_id_filter);
                        self.app_id_filter = app_id_filter;
                    },
                    None => {},
                }
                self.scope = scope;

                self.current_id = self.nearest(current_idx);
            },
            None => {
                if filter.is_some() {
                    changed = changed || self.app_id_filter.is_some();
                    self.app_id_filter = None;
                }
                self.scope = scope;
                self.current_id = self.first_id();
            },
        }
        changed
    }

    /// Changes the scope.
    pub fn set_scope(&mut self, scope: MruScope)
        requires
            old(self)@.wf(),
        ensures
            final(self)@ == old(self)@.set_scope_and_filter(scope, None),
            final(self)@.wf(),
    {
        self.set_scope_and_filter(scope, None);
    }

    /// Changes the filter.
    pub fn set_filter(&mut self, filter: MruFilter)
        requires
            old(self)@.wf(),
        ensures
            final(self)@ == old(self)@.set_scope_and_filter(old(self)@.scope, Some(filter)),
            final(self)@.wf(),
    {
        self.set_scope_and_filter(self.scope, Some(filter));
    }

    /// Takes a window out and gives it back, if it is there.
    ///
    /// Where it was the selected one, the next shown window is selected, or none if it was the
    /// last visible one.
    pub fn remove(&mut self, id: MappedId) -> (removed: Option<Thumbnail>)
        requires
            old(self)@.wf(),
        ensures
            final(self)@ == old(self)@.remove(id),
            final(self)@.wf(),
            match removed {
                Some(t) => has_id(old(self)@.thumbnails, id) && t@ == old(self)@.thumbnails[
                    index_of_id(old(self)@.thumbnails, id)],
                None => !has_id(old(self)@.thumbnails, id),
            },
    {
        proof {
            self@.lemma_remove_wf(id);
        }
        let idx: usize = match self.index_of(id) {
            Some(idx) => idx,
            None => {
                return None;
            },
        };
        if self.current_id == Some(id) {
            self.forward();
        }
        if self.current_id == Some(id) {
            self.current_id = None;
        }
        let removed: Thumbnail = self.thumbnails.remove(idx);
        assert(self@ =~= old(self)@.remove(id));
        Some(removed)
    }

    /// Lets all thumbnails open with the given animation.
    pub fn start_opening(&mut self, animation: AnimationId)
        ensures
            final(self)@ == old(self)@.opening(animation),
            old(self)@.wf() ==> final(self)@.wf(),
    {
        let mut i: usize = 0;
        while i < self.thumbnails.len()
            invariant
                i <= self.thumbnails@.len() == old(self).thumbnails@.len(),
                self.current_id == old(self).current_id,
                self.scope == old(self).scope,
                self.app_id_filter == old(self).app_id_filter,
                forall|j: int|
                    0 <= j < self.thumbnails@.len() ==> (#[trigger] self.thumbnails@[j])@ == if j
                        < i {
                        ThumbnailModel {
                            open_animation: Some(animation),
                            ..old(self).thumbnails@[j]@
                        }
                    } else {
                        old(self).thumbnails@[j]@
                    },
            decreases self.thumbnails.len() - i,
        {
            self.thumbnails[i].open_animation = Some(animation);
            i += 1;
        }
        assert(self@ =~= old(self)@.opening(animation));
        proof {
            old(self)@.lemma_same_windows(self@.thumbnails);
        }
    }

    /// Lets all thumbnails go of finished animations.
    pub fn advance_animations(&mut self, finished: &Vec<AnimationId>)
        ensures
            final(self)@ == old(self)@.advanced(finished@),
            old(self)@.wf() ==> final(self)@.wf(),
    {
        let mut i: usize = 0;
        while i < self.thumbnails.len()
            invariant
                i <= self.thumbnails@.len() == old(self).thumbnails@.len(),
                self.current_id == old(self).current_id,
                self.scope == old(self).scope,
                self.app_id_filter == old(self).app_id_filter,
                forall|j: int|
                    0 <= j < self.thumbnails@.len() ==> (#[trigger] self.thumbnails@[j])@ == if j
                        < i {
                        old(self).thumbnails@[j]@.advanced(finished@)
                    } else {
                        old(self).thumbnails@[j]@
                    },
            decreases self.thumbnails.len() - i,
        {
            self.thumbnails[i].advance_animations(finished);
            i += 1;
        }
        assert(self@ =~= old(self)@.advanced(finished@));
        proof {
            old(self)@.lemma_same_windows(self@.thumbnails);
        }
    }

    /// The shown thumbnails that have a window in the layout, in order, each with its window.
    pub fn laid_out(&self, windows: &Vec<MappedId>) -> (items: Vec<LaidOut>)
        ensures
            items@ == self@.laid_out(windows@, self@.visible_ids().len()),
    {
        let shown = self.thumbnails_with_idx();
        let mut items: Vec<LaidOut> = Vec::new();
        let mut k: usize = 0;
        while k < shown.len()
            invariant
                k <= shown@.len(),
                lists(shown@, self.thumbnails@, self@.shown()),
                items@ == self@.laid_out(windows@, k as nat),
            decreases shown.len() - k,
        {
            let (thumbnail, shown_thumbnail) = shown[k];
            assert(shown@[k as int].1.id == self@.visible_ids()[k as int]);
            if let Some(window) = find_window(windows, shown_thumbnail.id) {
                items.push(LaidOut { thumbnail, window });
            }
            k += 1;
        }
        items
    }

    /// The texture of the title of the window at `idx`, where rendering it gives `rendered`.
    pub fn title_texture(
        &mut self,
        idx: usize,
        title: Option<&String>,
        scale: Coord,
        rendered: Option<TextureId>,
    ) -> (texture: Option<TextureId>)
        requires
            idx < old(self).thumbnails@.len(),
        ensures
            match title {
                Some(title) => {
                    &&& texture == old(self)@.thumbnails[idx as int].title_texture.lookup(
                        title@,
                        scale,
                        rendered,
                    )
                    &&& final(self)@ == old(self)@.with_title(
                        idx as int,
                        TitleModel { title: title@, scale, texture: Some(texture) },
                    )
                },
                None => texture is None && final(self)@ == old(self)@,
            },
            old(self)@.wf() ==> final(self)@.wf(),
    {
        let texture: Option<TextureId> = self.thumbnails[idx].title_texture(title, scale, rendered);
        proof {
            old(self)@.lemma_same_windows(self@.thumbnails);
            match title {
                Some(title) => {
                    let model = TitleModel { title: title@, scale, texture: Some(texture) };
                    assert(self@ =~= old(self)@.with_title(idx as int, model));
                },
                None => {
                    assert(self@ =~= old(self)@);
                },
            }
        }
        texture
    }

    /// Whether there are no windows at all.
    pub fn is_empty(&self) -> (empty: bool)
        ensures
            empty == (self@.thumbnails.len() == 0),
    {
        self.thumbnails.is_empty()
    }

    /// Whether the selected window is shown, or none is selected and none is shown.
    pub fn verify_invariants(&self) -> (valid: bool)
        ensures
            valid == self@.selection_valid(),
    {
        let ids: Vec<MappedId> = self.shown_ids();
        match self.current_id {
            Some(id) => position(&ids, id).is_some(),
            None => ids.len() == 0,
        }
    }

    /// The shown window at `idx`, or else the first one to the left, or else the first one to the
    /// right.
    fn nearest(&self, idx: usize) -> (id: Option<MappedId>)
        requires
            idx < self.thumbnails@.len(),
        ensures
            id == self@.nearest(idx as int),
    {
        let ghost up_to = shown_below(
            self@.thumbnails,
            self@.scope,
            self@.app_id_filter,
            (idx + 1) as nat,
        );
        proof {
            lemma_shown_below_prefix(
                self@.thumbnails,
                self@.scope,
                self@.app_id_filter,
                (idx + 1) as nat,
                self.thumbnails@.len(),
            );
            lemma_shown_below(
                self@.thumbnails,
                self@.scope,
                self@.app_id_filter,
                (idx + 1) as nat,
            );
        }
        let shown = self.thumbnails_with_idx();
        let mut id: Option<MappedId> = self.first_id();
        let mut k: usize = 0;
        while k < shown.len() && shown[k].0 <= idx
            invariant
                k <= shown.len(),
                lists(shown@, self.thumbnails@, self@.shown()),
                k <= up_to.len() <= shown@.len(),
                forall|j: int| 0 <= j < up_to.len() ==> up_to[j] == self@.shown()[j],
                forall|j: int| up_to.len() <= j < shown@.len() ==> self@.shown()[j] > idx,
                id == if k == 0 {
                    self@.first_id()
                } else {
                    Some(self@.thumbnails[up_to[k - 1]].id)
                },
            decreases shown.len() - k,
        {
            id = Some(shown[k].1.id);
            k += 1;
        }
        proof {
            if k < up_to.len() {
                assert(shown@[k as int].0 == up_to[k as int]);
            }
        }
        id
    }

    /// The index of the window with the given id.
    pub fn index_of(&self, id: MappedId) -> (idx: Option<usize>)
        requires
            distinct_ids(self@.thumbnails),
        ensures
            match idx {
                Some(idx) => has_id(self@.thumbnails, id) && idx == index_of_id(
                    self@.thumbnails,
                    id,
                ) && idx < self.thumbnails@.len() && self.thumbnails@[idx as int].id == id,
                None => !has_id(self@.thumbnails, id),
            },
    {
        let mut i: usize = 0;
        while i < self.thumbnails.len()
            invariant
                i <= self.thumbnails.len(),
                distinct_ids(self@.thumbnails),
                forall|j: int| 0 <= j < i ==> (#[trigger] self.thumbnails@[j]).id != id,
            decreases self.thumbnails.len() - i,
        {
            if self.thumbnails[i].id == id {
                proof {
                    self@.lemma_visible();
                    assert(self@.thumbnails[i as int].id == id);
                }
                return Some(i);
            }
            i += 1;
        }
        None
    }
}

/// The first window with the given id.
fn find_window(windows: &Vec<MappedId>, id: MappedId) -> (w: Option<usize>)
    ensures
        match (w, first_window(windows@, id, 0)) {
            (Some(w), Some(v)) => w == v,
            (None, None) => true,
            _ => false,
        },
{
    let mut w: usize = 0;
    while w < windows.len()
        invariant
            w <= windows@.len(),
            first_window(windows@, id, 0) == first_window(windows@, id, w as int),
        decreases windows.len() - w,
    {
        if windows[w] == id {
            return Some(w);
        }
        w += 1;
    }
    None
}

/// The position of an id in a list.
fn position(ids: &Vec<MappedId>, id: MappedId) -> (p: Option<usize>)
    ensures
        match p {
            Some(p) => p < ids@.len() && ids@[p as int] == id && ids@.contains(id),
            None => !ids@.contains(id),
        },
{
    let mut k: usize = 0;
    while k < ids.len()
        invariant
            k <= ids.len(),
            forall|j: int| 0 <= j < k ==> ids@[j] != id,
        decreases ids.len() - k,
    {
        if ids[k] == id {
            return Some(k);
        }
        k += 1;
    }
    None
}

/// Whether two optional strings hold the same text.
fn same_text(a: &Option<String>, b: &Option<String>) -> (same: bool)
    ensures
        same == (text(*a) == text(*b)),
{
    match (a, b) {
        (Some(a), Some(b)) => *a == *b,
        (None, None) => true,
        _ => false,
    }
}

/// A list holds at each place the thumbnail at the index that it gives for it, and gives the indices
/// in order.
pub proof fn law_listed_at_index(
    shown: Seq<(usize, &Thumbnail)>,
    thumbnails: Seq<Thumbnail>,
    indices: Seq<int>,
    k: int,
)
    requires
        lists(shown, thumbnails, indices),
    ensures
        shown.len() == indices.len(),
        0 <= k < indices.len() ==> {
            let (index, thumbnail) = shown[k];
            &&& index == indices[k]
            &&& 0 <= index < thumbnails.len()
            &&& *thumbnail == thumbnails[indices[k]]
        },
{
}

} // verus!
