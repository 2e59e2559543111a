//! The switcher.

use vstd::prelude::*;

use crate::bindings::{
    all_held, available, common_bindings, mru_ui_bindings, mru_ui_opened_bindings, opened_bindings,
    Bind, ModKey,
};
use crate::coord::Coord;
use crate::ids::{is_done, AnimationId, MappedId, OutputId, TextureId};
use crate::mru::WindowMru;
use crate::mru_model::{has_id, index_of_id};
use crate::scope::{MruDirection, MruFilter, MruScope};
use crate::thumbnail::{take_if_done, Thumbnail, TitleModel};
use crate::ui_model::{
    all_rendered, closing_elements, first_item_of, first_under, still_closing, thumbnail_elements,
    ClosingThumbnail, FocusRingUpdate, InnerModel, MruCloseRequest, Progress, RenderElement,
    UiModel,
};
use crate::view::{
    items_in_view, plan_view, planned_view, thumbnails_in_view, StripItem, ViewOffset, ViewPlan,
};

verus! {

/// How long the switcher stays hidden after it was opened, in milliseconds.
pub const OPEN_DELAY_MS: u32 = 150;

/// The window switcher.
pub struct WindowMruUi {
    state: WindowMruUiState,
    cached_mod_key: ModKey,
    cached_bindings: Option<Vec<Bind>>,
    cached_opened_bindings: Option<Vec<Bind>>,
}

pub enum WindowMruUiState {
    Closed {
        /// The closing animation while it is in progress.
        close_animation: Option<AnimationId>,
        /// Thumbnails to animate while the switcher closes.
        closing_thumbnails: Vec<ClosingThumbnail>,
        /// Output on which to display the closing thumbnails.
        output: Option<OutputId>,
        /// Scope used when the switcher was last opened.
        previous_scope: MruScope,
    },
    Open(Box<Inner>),
}

/// State of the open switcher.
pub struct Inner {
    /// The windows to display.
    pub wmru: WindowMru,
    /// Where the view stands along the strip.
    pub view_offset: ViewOffset,
    /// Opening animation of the switcher itself.
    pub open_animation: AnimationId,
    /// The switcher appears when this one is over.
    pub open_delay: AnimationId,
    /// Thumbnails of windows that were just closed, or are no longer shown.
    pub closing_thumbnails: Vec<ClosingThumbnail>,
    /// Output the switcher was opened on.
    pub output: OutputId,
    /// The panel textures for all scopes.
    pub scope_panel: Option<Vec<TextureId>>,
}

impl View for Inner {
    type V = InnerModel;

    open spec fn view(&self) -> InnerModel {
        InnerModel {
            wmru: self.wmru@,
            view_offset: self.view_offset,
            open_animation: self.open_animation,
            open_delay: self.open_delay,
            closing_thumbnails: self.closing_thumbnails@,
            output: self.output,
            scope_panel: match self.scope_panel {
                Some(panels) => Some(panels@),
                None => None,
            },
        }
    }
}

impl View for WindowMruUiState {
    type V = UiModel;

    open spec fn view(&self) -> UiModel {
        match *self {
            WindowMruUiState::Closed {
                close_animation,
                closing_thumbnails,
                output,
                previous_scope,
            } => UiModel::Closed {
                close_animation,
                closing_thumbnails: closing_thumbnails@,
                output,
                previous_scope,
            },
            WindowMruUiState::Open(inner) => UiModel::Open(inner@),
        }
    }
}

impl View for WindowMruUi {
    type V = UiModel;

    closed spec fn view(&self) -> UiModel {
        self.state@
    }
}

impl WindowMruUi {
    /// What is cached is what would be computed.
    pub closed spec fn caches_valid(self) -> bool {
        let modifiers = self.cached_mod_key.modifiers();
        &&& self.cached_bindings matches Some(binds) ==> binds@ == all_held(
            mru_ui_bindings(),
            modifiers,
        )
        &&& self.cached_opened_bindings matches Some(binds) ==> binds@ == all_held(
            mru_ui_opened_bindings(),
            modifiers,
        )
    }

    pub open spec fn wf(self) -> bool {
        self@.wf() && self.caches_valid()
    }

    /// A closed switcher.
    pub fn new() -> (ui: WindowMruUi)
        ensures
            ui.wf(),
            ui@ == (UiModel::Closed {
                close_animation: None,
                closing_thumbnails: Seq::empty(),
                output: None,
                previous_scope: MruScope::All,
            }),
    {
        WindowMruUi {
            cached_mod_key: ModKey::Alt,
            cached_bindings: None,
            cached_opened_bindings: None,
            state: WindowMruUiState::Closed {
                close_animation: None,
                closing_thumbnails: Vec::new(),
                output: None,
                previous_scope: MruScope::default(),
            },
        }
    }

    pub fn is_open(&self) -> (open: bool)
        ensures
            open == (self@ is Open),
    {
        match &self.state {
            WindowMruUiState::Open(_) => true,
            WindowMruUiState::Closed { .. } => false,
        }
    }

    /// Selects the given window if it is shown.
    pub fn set_current(&mut self, id: MappedId)
        requires
            old(self).wf(),
        ensures
            final(self).wf(),
            final(self)@ == old(self)@.walk(old(self)@.wmru().set_current(id)),
    {
        match &mut self.state {
            WindowMruUiState::Open(inner) => {
                inner.wmru.set_current(id);
            },
            WindowMruUiState::Closed { .. } => {},
        }
    }

    /// Opens the switcher on an output and takes the first step of the walk. A switcher that is
    /// open already stays as it is.
    pub fn open(
        &mut self,
        wmru: WindowMru,
        dir: MruDirection,
        output: OutputId,
        view_offset: Coord,
        animations: OpenAnimations,
    )
        requires
            old(self).wf(),
            wmru@.wf(),
        ensures
            final(self).wf(),
            final(self)@ == match old(self)@ {
                UiModel::Open(_) => old(self)@,
                UiModel::Closed { .. } => UiModel::Open(
                    InnerModel {
                        wmru: wmru@.opening(animations.thumbnail).advance(Some(dir), None, None),
                        view_offset: ViewOffset::Static(view_offset),
                        open_animation: animations.open,
                        open_delay: animations.delay,
                        closing_thumbnails: Seq::empty(),
                        output,
                        scope_panel: None,
                    },
                ),
            },
    {
        if self.is_open() {
            return;
        }
        let mut wmru: WindowMru = wmru;
        wmru.start_opening(animations.thumbnail);
        let inner = Inner {
            wmru,
            view_offset: ViewOffset::Static(view_offset),
            closing_thumbnails: Vec::new(),
            open_animation: animations.open,
            open_delay: animations.delay,
            output,
            scope_panel: None,
        };
        self.state = WindowMruUiState::Open(Box::new(inner));
        self.advance(Some(dir), None, None);
    }

    /// Closes the switcher and tells which window, if any, gets the focus.
    pub fn close(&mut self, close_request: MruCloseRequest, close_animation: AnimationId) -> (focus:
        Option<MappedId>)
        requires
            old(self).wf(),
        ensures
            final(self).wf(),
            final(self)@ == old(self)@.close(close_animation),
            focus == old(self)@.respond(close_request),
    {
        let mut closed = WindowMruUiState::Closed {
            close_animation: None,
            closing_thumbnails: Vec::new(),
            output: None,
            previous_scope: MruScope::default(),
        };
        std::mem::swap(&mut self.state, &mut closed);
        match closed {
            WindowMruUiState::Open(inner) => {
                let inner: Inner = *inner;
                let response: Option<MappedId> = inner.build_close_response(close_request);
                self.state = WindowMruUiState::Closed {
                    close_animation: Some(close_animation),
                    closing_thumbnails: inner.closing_thumbnails,
                    output: Some(inner.output),
                    previous_scope: inner.wmru.scope,
                };
                response
            },
            WindowMruUiState::Closed { .. } => {
                self.state = closed;
                None
            },
        }
    }

    /// Changes the scope and the filter, and takes a step in a direction. Where a scope is given,
    /// a change takes the place of the step.
    pub fn advance(
        &mut self,
        dir: Option<MruDirection>,
        scope: Option<MruScope>,
        filter: Option<MruFilter>,
    )
        requires
            old(self).wf(),
        ensures
            final(self).wf(),
            final(self)@ == old(self)@.walk(old(self)@.wmru().advance(dir, scope, filter)),
    {
        match &mut self.state {
            WindowMruUiState::Open(inner) => {
                let new_scope: MruScope = scope.unwrap_or(inner.wmru.scope);
                let changed: bool = inner.wmru.set_scope_and_filter(new_scope, filter);
                if !(changed && scope.is_some()) {
                    match dir {
                        Some(MruDirection::Forward) => inner.wmru.forward(),
                        Some(MruDirection::Backward) => inner.wmru.backward(),
                        None => {},
                    }
                }
            },
            WindowMruUiState::Closed { .. } => {},
        }
    }

    /// Selects the first shown window.
    pub fn first(&mut self)
        requires
            old(self).wf(),
        ensures
            final(self).wf(),
            final(self)@ == old(self)@.walk(
                old(self)@.wmru().select(old(self)@.wmru().first_id()),
            ),
    {
        match &mut self.state {
            WindowMruUiState::Open(inner) => {
                inner.wmru.first();
            },
            WindowMruUiState::Closed { .. } => {},
        }
    }

    /// Selects the last shown window.
    pub fn last(&mut self)
        requires
            old(self).wf(),
        ensures
            final(self).wf(),
            final(self)@ == old(self)@.walk(old(self)@.wmru().select(old(self)@.wmru().last_id())),
    {
        match &mut self.state {
            WindowMruUiState::Open(inner) => {
                inner.wmru.last();
            },
            WindowMruUiState::Closed { .. } => {},
        }
    }

    /// The scope of the walk, or of the last one.
    pub fn scope(&self) -> (scope: MruScope)
        ensures
            scope == self@.scope(),
    {
        match &self.state {
            WindowMruUiState::Closed { previous_scope, .. } => *previous_scope,
            WindowMruUiState::Open(inner) => inner.wmru.scope,
        }
    }

    /// The selected window.
    pub fn current_window_id(&self) -> (id: Option<MappedId>)
        ensures
            id == self@.current_window_id(),
    {
        match &self.state {
            WindowMruUiState::Closed { .. } => None,
            WindowMruUiState::Open(inner) => inner.wmru.current_id,
        }
    }

    /// Takes a window out of an open switcher, and closes the switcher when none is left.
    pub fn remove_window(&mut self, id: MappedId, close_animation: AnimationId)
        requires
            old(self).wf(),
        ensures
            final(self).wf(),
            final(self)@ == old(self)@.remove_window(id, close_animation),
    {
        let emptied: bool = match &mut self.state {
            WindowMruUiState::Open(inner) => {
                let removed: Option<Thumbnail> = inner.wmru.remove(id);
                removed.is_some() && inner.wmru.is_empty()
            },
            WindowMruUiState::Closed { .. } => {
                return;
            },
        };
        if emptied {
            self.close(MruCloseRequest::Cancelled, close_animation);
        }
    }

    /// Whether taking the given window out closes the switcher.
    pub fn closes_without(&self, id: MappedId) -> (closes: bool)
        ensures
            closes == self@.closes_without(id),
    {
        match &self.state {
            WindowMruUiState::Open(inner) => {
                if inner.wmru.thumbnails.len() != 1 {
                    return false;
                }
                assert(self@.wmru().thumbnails[0].id == inner.wmru.thumbnails@[0].id);
                inner.wmru.thumbnails[0].id == id
            },
            WindowMruUiState::Closed { .. } => false,
        }
    }

    /// Whether the thumbnails appear on the given output.
    pub fn draws_thumbnails(&self, output: OutputId, finished: &Vec<AnimationId>) -> (draws: bool)
        ensures
            draws == self@.draws_thumbnails(output, finished@),
    {
        match &self.state {
            WindowMruUiState::Open(inner) => {
                inner.output == output && is_done(inner.open_delay, finished)
            },
            WindowMruUiState::Closed { .. } => false,
        }
    }

    /// The output that the switcher is open on.
    pub fn output(&self) -> (output: Option<OutputId>)
        ensures
            output == match self@ {
                UiModel::Open(inner) => Some(inner.output),
                UiModel::Closed { .. } => None,
            },
    {
        match &self.state {
            WindowMruUiState::Open(inner) => Some(inner.output),
            WindowMruUiState::Closed { .. } => None,
        }
    }
}

impl Inner {
    /// The window that gets the focus on a close request.
    pub fn build_close_response(&self, close_request: MruCloseRequest) -> (focus: Option<MappedId>)
        ensures
            focus == self@.respond(close_request),
    {
        match close_request {
            MruCloseRequest::Cancelled => None,
            MruCloseRequest::Current => self.wmru.current_id,
            MruCloseRequest::Selection(id) => Some(id),
        }
    }
}

/// Keeps the closing thumbnails that are still visible.
fn retain_closing(closing: &mut Vec<ClosingThumbnail>, finished: &Vec<AnimationId>)
    ensures
        final(closing)@ == still_closing(old(closing)@, finished@),
{
    let ghost all = closing@;
    let ghost visible = |c: ClosingThumbnail| !finished@.contains(c.anim);
    let mut kept: Vec<ClosingThumbnail> = Vec::new();
    let mut i: usize = 0;
    assert(kept@ =~= all.take(0).filter(visible)) by {
        reveal(Seq::filter);
    }
    while i < closing.len()
        invariant
            i <= closing@.len(),
            closing@ == all,
            visible == (|c: ClosingThumbnail| !finished@.contains(c.anim)),
            kept@ == all.take(i as int).filter(visible),
        decreases closing.len() - i,
    {
        let thumbnail: ClosingThumbnail = closing[i];
        proof {
            all.take(i as int).lemma_filter_push(thumbnail, visible);
            assert(all.take(i + 1) =~= all.take(i as int).push(thumbnail));
        }
        if thumbnail.are_animations_ongoing(finished) {
            kept.push(thumbnail);
        }
        i += 1;
    }
    assert(all.take(i as int) =~= all);
    *closing = kept;
}

/// Closing thumbnails on the output: the last one on top.
fn push_closing(elements: &mut Vec<RenderElement>, closing: &Vec<ClosingThumbnail>)
    ensures
        final(elements)@ == old(elements)@ + closing_elements(closing@),
{
    let mut i: usize = closing.len();
    while i > 0
        invariant
            i <= closing@.len(),
            elements@ == old(elements)@ + closing_elements(closing@).take(closing@.len() - i),
        decreases i,
    {
        i -= 1;
        let ghost before = elements@;
        elements.push(closing[i].render());
        let ghost k = closing@.len() - i;
        assert(closing_elements(closing@).take(k) =~= closing_elements(closing@).take(
            k - 1,
        ).push(RenderElement::Closing(closing@[i as int])));
        assert(elements@ =~= old(elements)@ + closing_elements(closing@).take(k));
    }
    assert(closing_elements(closing@).take(closing@.len() as int) =~= closing_elements(closing@));
}

impl Inner {
    /// Whether something is in motion.
    pub fn are_animations_ongoing(&self, finished: &Vec<AnimationId>) -> (ongoing: bool)
        ensures
            ongoing == self@.is_animated(finished@),
    {
        if !is_done(self.open_animation, finished) {
            return true;
        }
        let mut i: usize = 0;
        while i < self.wmru.thumbnails.len()
            invariant
                i <= self.wmru.thumbnails@.len(),
                forall|j: int|
                    0 <= j < i ==> !(#[trigger] self.wmru@.thumbnails[j]).is_animated(),
            decreases self.wmru.thumbnails.len() - i,
        {
            if self.wmru.thumbnails[i].are_animations_ongoing() {
                assert(self@.wmru.thumbnails[i as int].is_animated());
                return true;
            }
            i += 1;
        }
        self.view_offset.are_animations_ongoing() || !self.closing_thumbnails.is_empty()
    }

    /// Lets go of finished animations, where `view_to` is what the view offset's animation, if any,
    /// led to.
    pub fn advance_animations(&mut self, finished: &Vec<AnimationId>, view_to: Coord)
        ensures
            final(self)@ == old(self)@.advanced(finished@, view_to),
            old(self)@.wmru.wf() ==> final(self)@.wmru.wf(),
    {
        self.view_offset.advance_animations(finished, view_to);
        retain_closing(&mut self.closing_thumbnails, finished);
        self.wmru.advance_animations(finished);
    }

    /// Decides where the view goes so that the selected thumbnail is in it.
    pub fn plan_view(&self, strip: &Vec<StripItem>, working_width: Coord) -> (plan: ViewPlan)
        ensures
            plan == planned_view(strip@, self@.wmru.current_id, working_width),
    {
        plan_view(strip, self.wmru.current_id, working_width)
    }

    /// What becomes of the focus ring on the given strip.
    pub fn focus_ring(&self, strip: &Vec<StripItem>) -> (update: FocusRingUpdate)
        requires
            self@.wmru.wf(),
        ensures
            update == self@.focus_ring(strip@),
    {
        let id: MappedId = match self.wmru.current_id {
            Some(id) => id,
            None => {
                return FocusRingUpdate::Unchanged;
            },
        };
        proof {
            self@.wmru.lemma_visible();
        }
        let idx: usize = self.wmru.index_of(id).unwrap();
        let mut i: usize = 0;
        while i < strip.len()
            invariant
                i <= strip@.len(),
                first_item_of(strip@, id, 0) == first_item_of(strip@, id, i as int),
                self.wmru.current_id == Some(id),
                idx == index_of_id(self@.wmru.thumbnails, id),
                idx < self.wmru.thumbnails@.len(),
            decreases strip.len() - i,
        {
            if strip[i].id == id {
                return FocusRingUpdate::Around {
                    item: i,
                    fade: self.wmru.thumbnails[idx].open_animation,
                };
            }
            i += 1;
        }
        FocusRingUpdate::Missing
    }

    /// The thumbnail under the pointer, where `under` tells which items of the strip are.
    pub fn thumbnail_under(
        &self,
        strip: &Vec<StripItem>,
        leftmost: Coord,
        rightmost: Coord,
        under: &Vec<bool>,
    ) -> (id: Option<MappedId>)
        requires
            under@.len() == strip@.len(),
        ensures
            id == self@.thumbnail_under(strip@, leftmost, rightmost, under@),
    {
        let (start, end) = thumbnails_in_view(strip, leftmost, rightmost);
        let mut i: usize = start;
        while i < end
            invariant
                start <= i <= end <= strip@.len() == under@.len(),
                (start as int, end as int) == items_in_view(strip@, leftmost, rightmost),
                first_under(under@, start as int, end as int) == first_under(
                    under@,
                    i as int,
                    end as int,
                ),
            decreases end - i,
        {
            if under[i] {
                return Some(strip[i].id);
            }
            i += 1;
        }
        None
    }

    /// Takes the panels for all scopes, by their numbers, if each could be rendered and there are
    /// none yet.
    pub fn set_scope_panels(&mut self, textures: &Vec<Option<TextureId>>)
        ensures
            final(self)@ == old(self)@.with_scope_panels(textures@),
    {
        if self.scope_panel.is_some() {
            return;
        }
        let mut panels: Vec<TextureId> = Vec::new();
        let mut i: usize = 0;
        while i < textures.len()
            invariant
                i <= textures@.len(),
                panels@.len() == i,
                *self == *old(self),
                self.scope_panel is None,
                forall|j: int|
                    0 <= j < i ==> #[trigger] textures@[j] is Some && panels@[j] == textures@[j]->0,
            decreases textures.len() - i,
        {
            match textures[i] {
                Some(texture) => panels.push(texture),
                None => {
                    assert(all_rendered(textures@) is None) by {
                        assert(textures@[i as int] is None);
                    }
                    return;
                },
            }
            i += 1;
        }
        self.scope_panel = Some(panels);
        assert(Some(panels@) =~= all_rendered(textures@)) by {
            assert(panels@ =~= Seq::new(textures@.len(), |j: int| textures@[j]->0));
        }
    }

    /// The open switcher on the output, topmost first. Closing thumbnails come on top of others.
    pub fn render(&self, strip: &Vec<StripItem>, leftmost: Coord, rightmost: Coord) -> (elements:
        Vec<RenderElement>)
        ensures
            elements@ == self@.elements(strip@, leftmost, rightmost),
    {
        let mut elements: Vec<RenderElement> = Vec::new();
        if let Some(panels) = &self.scope_panel {
            let idx: usize = self.wmru.scope.index();
            if idx < panels.len() {
                elements.push(RenderElement::ScopePanel(panels[idx]));
            }
        }
        push_closing(&mut elements, &self.closing_thumbnails);
        let ghost front = elements@;
        let current_id: MappedId = match self.wmru.current_id {
            Some(id) => id,
            None => {
                assert(elements@ =~= self@.elements(strip@, leftmost, rightmost));
                return elements;
            },
        };
        let (start, end) = thumbnails_in_view(strip, leftmost, rightmost);
        let ghost all = thumbnail_elements(strip@, current_id, start as int, end as int);
        let mut i: usize = start;
        assert(elements@ =~= front + all.take(0));
        while i < end
            invariant
                start <= i <= end <= strip@.len(),
                all == thumbnail_elements(strip@, current_id, start as int, end as int),
                elements@ == front + all.take(i - start),
            decreases end - i,
        {
            let id: MappedId = strip[i].id;
            elements.push(
                RenderElement::Thumbnail { id, item: i, focus_ring: id == current_id },
            );
            assert(all.take(i - start + 1) =~= all.take(i - start).push(all[i - start]));
            i += 1;
            assert(elements@ =~= front + all.take(i - start));
        }
        assert(all.take(end - start) =~= all);
        assert(elements@ =~= self@.elements(strip@, leftmost, rightmost));
        elements
    }
}

impl WindowMruUi {
    /// Whether something is in motion.
    pub fn are_animations_ongoing(&self, finished: &Vec<AnimationId>) -> (ongoing: bool)
        ensures
            ongoing == self@.is_animated(finished@),
    {
        match &self.state {
            WindowMruUiState::Open(inner) => inner.are_animations_ongoing(finished),
            WindowMruUiState::Closed { close_animation, closing_thumbnails, .. } => {
                if close_animation.is_some() {
                    return true;
                }
                let mut i: usize = 0;
                while i < closing_thumbnails.len()
                    invariant
                        i <= closing_thumbnails@.len(),
                        self@ is Closed,
                        self@->closing_thumbnails == closing_thumbnails@,
                        forall|j: int|
                            0 <= j < i ==> finished@.contains(
                                (#[trigger] closing_thumbnails@[j]).anim,
                            ),
                    decreases closing_thumbnails.len() - i,
                {
                    if closing_thumbnails[i].are_animations_ongoing(finished) {
                        assert(!finished@.contains(self@->closing_thumbnails[i as int].anim));
                        return true;
                    }
                    i += 1;
                }
                false
            },
        }
    }

    /// Lets go of finished animations, where `view_to` is what the view offset's animation, if any,
    /// led to.
    pub fn advance_animations(&mut self, finished: &Vec<AnimationId>, view_to: Coord)
        requires
            old(self).wf(),
        ensures
            final(self).wf(),
            final(self)@ == old(self)@.advanced(finished@, view_to),
    {
        match &mut self.state {
            WindowMruUiState::Open(inner) => inner.advance_animations(finished, view_to),
            WindowMruUiState::Closed { close_animation, closing_thumbnails, .. } => {
                take_if_done(close_animation, finished);
                retain_closing(closing_thumbnails, finished);
            },
        }
    }

    /// What becomes of the focus ring on the given strip.
    pub fn update_render_elements(&self, strip: &Vec<StripItem>) -> (update: FocusRingUpdate)
        requires
            self.wf(),
        ensures
            update == match self@ {
                UiModel::Open(inner) => inner.focus_ring(strip@),
                UiModel::Closed { .. } => FocusRingUpdate::Unchanged,
            },
    {
        match &self.state {
            WindowMruUiState::Open(inner) => inner.focus_ring(strip),
            WindowMruUiState::Closed { .. } => FocusRingUpdate::Unchanged,
        }
    }

    /// The switcher on an output, topmost first.
    pub fn render_output(
        &self,
        output: OutputId,
        finished: &Vec<AnimationId>,
        strip: &Vec<StripItem>,
        leftmost: Coord,
        rightmost: Coord,
    ) -> (elements: Vec<RenderElement>)
        ensures
            elements@ == self@.elements(output, finished@, strip@, leftmost, rightmost),
    {
        let mut elements: Vec<RenderElement> = Vec::new();
        let progress: Progress = match &self.state {
            WindowMruUiState::Closed { close_animation: None, .. } => {
                return elements;
            },
            WindowMruUiState::Closed {
                close_animation: Some(close_animation),
                closing_thumbnails,
                output: closing_output,
                ..
            } => {
                if *closing_output == Some(output) {
                    push_closing(&mut elements, closing_thumbnails);
                }
                Progress::Animation(*close_animation)
            },
            WindowMruUiState::Open(inner) => {
                if !is_done(inner.open_delay, finished) {
                    return elements;
                }
                if inner.output == output {
                    elements = inner.render(strip, leftmost, rightmost);
                }
                Progress::Full
            },
        };
        elements.push(RenderElement::Background(progress));
        assert(elements@ =~= self@.elements(output, finished@, strip@, leftmost, rightmost));
        elements
    }

    /// The thumbnail under the pointer, where `under` tells which items of the strip are.
    pub fn thumbnail_under(
        &self,
        strip: &Vec<StripItem>,
        leftmost: Coord,
        rightmost: Coord,
        under: &Vec<bool>,
    ) -> (id: Option<MappedId>)
        requires
            under@.len() == strip@.len(),
        ensures
            id == match self@ {
                UiModel::Open(inner) => inner.thumbnail_under(strip@, leftmost, rightmost, under@),
                UiModel::Closed { .. } => None,
            },
    {
        match &self.state {
            WindowMruUiState::Open(inner) => inner.thumbnail_under(
                strip,
                leftmost,
                rightmost,
                under,
            ),
            WindowMruUiState::Closed { .. } => None,
        }
    }

    /// The bindings that are available with the given mod key.
    pub fn bindings(&mut self, mod_key: ModKey) -> (binds: Vec<Bind>)
        requires
            old(self).wf(),
        ensures
            final(self).wf(),
            final(self)@ == old(self)@,
            binds@ == available(mod_key, old(self)@ is Open),
    {
        if self.cached_mod_key != mod_key {
            self.cached_mod_key = mod_key;
            self.cached_bindings = None;
            self.cached_opened_bindings = None;
        }
        if self.cached_bindings.is_none() {
            self.cached_bindings = Some(common_bindings(mod_key));
        }
        if self.cached_opened_bindings.is_none() {
            self.cached_opened_bindings = Some(opened_bindings(mod_key));
        }
        let mut binds: Vec<Bind> = Vec::new();
        if let Some(common) = &self.cached_bindings {
            push_binds(&mut binds, common);
        }
        if self.is_open() {
            if let Some(opened) = &self.cached_opened_bindings {
                push_binds(&mut binds, opened);
            }
        }
        assert(binds@ =~= available(mod_key, self@ is Open));
        binds
    }
}

impl WindowMruUi {
    /// What is open.
    pub fn inner(&self) -> (inner: Option<&Inner>)
        ensures
            match self@ {
                UiModel::Open(model) => inner matches Some(inner) && inner@ == model,
                UiModel::Closed { .. } => inner is None,
            },
    {
        match &self.state {
            WindowMruUiState::Open(inner) => Some(&**inner),
            WindowMruUiState::Closed { .. } => None,
        }
    }

    /// How far the background has come up when an open switcher closes: fully, if the opening delay
    /// is over, and else not at all.
    pub fn close_progress(&self, finished: &Vec<AnimationId>) -> (progress: Option<u32>)
        ensures
            progress == match self@ {
                UiModel::Open(inner) => Some(
                    if finished@.contains(inner.open_delay) {
                        1u32
                    } else {
                        0u32
                    },
                ),
                UiModel::Closed { .. } => None,
            },
    {
        match &self.state {
            WindowMruUiState::Open(inner) => {
                let progress: u32 = if is_done(inner.open_delay, finished) {
                    1
                } else {
                    0
                };
                Some(progress)
            },
            WindowMruUiState::Closed { .. } => None,
        }
    }

    /// Follows a change of the view offset that is `distance` large. One by more than a pixel is
    /// animated: by `animation`, which starts where the view stands. Otherwise a static offset goes
    /// to `shifted`. An animation that is to end elsewhere by the change is returned.
    pub fn follow_view(
        &mut self,
        distance: Coord,
        pixel: Coord,
        animation: AnimationId,
        shifted: Coord,
    ) -> (to_shift: Option<AnimationId>)
        requires
            old(self).wf(),
        ensures
            final(self).wf(),
            match old(self)@ {
                UiModel::Open(inner) => {
                    let (view_offset, shift) = inner.view_offset.followed(
                        distance,
                        pixel,
                        animation,
                        shifted,
                    );
                    final(self)@ == UiModel::Open(InnerModel { view_offset, ..inner }) && to_shift
                        == shift
                },
                UiModel::Closed { .. } => final(self)@ == old(self)@ && to_shift is None,
            },
    {
        match &mut self.state {
            WindowMruUiState::Open(inner) => inner.view_offset.follow(
                distance,
                pixel,
                animation,
                shifted,
            ),
            WindowMruUiState::Closed { .. } => None,
        }
    }

    /// Takes the panels for all scopes, by their numbers, if each could be rendered and there are
    /// none yet.
    pub fn set_scope_panels(&mut self, textures: &Vec<Option<TextureId>>)
        requires
            old(self).wf(),
        ensures
            final(self).wf(),
            final(self)@ == match old(self)@ {
                UiModel::Open(inner) => UiModel::Open(inner.with_scope_panels(textures@)),
                UiModel::Closed { .. } => old(self)@,
            },
    {
        match &mut self.state {
            WindowMruUiState::Open(inner) => inner.set_scope_panels(textures),
            WindowMruUiState::Closed { .. } => {},
        }
    }

    /// The texture of the title of a window, where rendering it gives `rendered`; none for a window
    /// that the switcher does not have.
    pub fn title_texture(
        &mut self,
        id: MappedId,
        title: Option<&String>,
        scale: Coord,
        rendered: Option<TextureId>,
    ) -> (texture: Option<TextureId>)
        requires
            old(self).wf(),
        ensures
            final(self).wf(),
            match (old(self)@, title) {
                (UiModel::Open(inner), Some(title)) if has_id(inner.wmru.thumbnails, id) => {
                    let idx = index_of_id(inner.wmru.thumbnails, id);
                    &&& texture == inner.wmru.thumbnails[idx].title_texture.lookup(
                        title@,
                        scale,
                        rendered,
                    )
                    &&& final(self)@ == old(self)@.walk(
                        inner.wmru.with_title(
                            idx,
                            TitleModel { title: title@, scale, texture: Some(texture) },
                        ),
                    )
                },
                _ => texture is None && final(self)@ == old(self)@,
            },
    {
        match &mut self.state {
            WindowMruUiState::Open(inner) => match inner.wmru.index_of(id) {
                Some(idx) => inner.wmru.title_texture(idx, title, scale, rendered),
                None => None,
            },
            WindowMruUiState::Closed { .. } => None,
        }
    }
}

/// Appends bindings.
fn push_binds(binds: &mut Vec<Bind>, more: &Vec<Bind>)
    ensures
        final(binds)@ == old(binds)@ + more@,
{
    let mut i: usize = 0;
    while i < more.len()
        invariant
            i <= more@.len(),
            binds@ == old(binds)@ + more@.take(i as int),
        decreases more.len() - i,
    {
        binds.push(more[i]);
        i += 1;
        assert(more@.take(i as int) =~= more@.take(i - 1).push(more@[i - 1]));
        assert(binds@ =~= old(binds)@ + more@.take(i as int));
    }
    assert(more@.take(i as int) =~= more@);
}

/// The animations that the switcher opens with.
#[derive(Clone, Copy, Debug, PartialEq, Eq, Structural)]
pub struct OpenAnimations {
    /// That of each thumbnail.
    pub thumbnail: AnimationId,
    /// That of the switcher itself.
    pub open: AnimationId,
    /// The time for which the switcher stays hidden.
    pub delay: AnimationId,
}

} // verus!
