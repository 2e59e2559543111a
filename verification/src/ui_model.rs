//! What the switcher is, and how its state changes.

use vstd::prelude::*;

use crate::coord::Coord;
use crate::ids::{is_done, AnimationId, MappedId, OutputId, TextureId};
use crate::mru_model::{has_id, index_of_id, MruModel};
use crate::scope::MruScope;
use crate::thumbnail::still_running;
use crate::view::{items_in_view, StripItem, ViewOffset};

verus! {

/// A visible thumbnail that is in the process of being dismissed, because its window was closed or
/// ceased to be shown.
#[derive(Clone, Copy, Debug, PartialEq, Eq, Structural)]
pub struct ClosingThumbnail {
    pub texture: TextureId,
    /// Position relative to the output.
    pub x: Coord,
    pub y: Coord,
    pub anim: AnimationId,
}

/// How the switcher is to be closed.
#[derive(Clone, Copy, Debug, PartialEq, Eq, Structural)]
pub enum MruCloseRequest {
    /// The focus stays where it is.
    Cancelled,
    /// The selected window gets the focus.
    Current,
    /// The given window gets the focus.
    Selection(MappedId),
}

/// How far the background has come up.
#[derive(Clone, Copy, Debug, PartialEq, Eq, Structural)]
pub enum Progress {
    Full,
    /// As far as the animation stands, between nothing and full.
    Animation(AnimationId),
}

/// An element of the switcher on the output.
#[derive(Clone, Copy, Debug, PartialEq, Eq, Structural)]
pub enum RenderElement {
    /// The panel that shows the scope.
    ScopePanel(TextureId),
    /// A thumbnail that fades out.
    Closing(ClosingThumbnail),
    /// The thumbnail of a window, which stands at the given place on the strip.
    Thumbnail { id: MappedId, item: usize, focus_ring: bool },
    /// What sets the thumbnails off from the desktop.
    Background(Progress),
}

/// What becomes of the focus ring.
#[derive(Clone, Copy, Debug, PartialEq, Eq, Structural)]
pub enum FocusRingUpdate {
    /// There is no selected window to draw it around.
    Unchanged,
    /// It goes around the given item of the strip, and fades in with its thumbnail.
    Around { item: usize, fade: Option<AnimationId> },
    /// The selected window is missing from the layout.
    Missing,
}

/// The open switcher.
#[verifier::ext_equal]
pub struct InnerModel {
    pub wmru: MruModel,
    pub view_offset: ViewOffset,
    pub open_animation: AnimationId,
    pub open_delay: AnimationId,
    pub closing_thumbnails: Seq<ClosingThumbnail>,
    pub output: OutputId,
    pub scope_panel: Option<Seq<TextureId>>,
}

/// The switcher.
#[verifier::ext_equal]
pub enum UiModel {
    Closed {
        close_animation: Option<AnimationId>,
        closing_thumbnails: Seq<ClosingThumbnail>,
        output: Option<OutputId>,
        previous_scope: MruScope,
    },
    Open(InnerModel),
}

impl ClosingThumbnail {
    /// The closing counterpart of a thumbnail that stands at the given place on the strip, and at
    /// `x` and `y` on the output, if it is visible: if some of it lies between `leftmost` and
    /// `rightmost`, which are the edges of the view.
    pub fn new(
        item: StripItem,
        texture: TextureId,
        x: Coord,
        y: Coord,
        leftmost: Coord,
        rightmost: Coord,
        anim: AnimationId,
    ) -> (closing: Option<ClosingThumbnail>)
        ensures
            closing == if item.is_between(leftmost, rightmost) {
                Some(ClosingThumbnail { texture, x, y, anim })
            } else {
                None
            },
    {
        if leftmost.lt(item.right) && item.left.lt(rightmost) {
            Some(ClosingThumbnail { texture, x, y, anim })
        } else {
            None
        }
    }

    /// Whether the thumbnail still fades out.
    pub fn are_animations_ongoing(&self, finished: &Vec<AnimationId>) -> (ongoing: bool)
        ensures
            ongoing == !finished@.contains(self.anim),
    {
        !is_done(self.anim, finished)
    }

    /// The thumbnail on the output.
    pub fn render(&self) -> (element: RenderElement)
        ensures
            element == RenderElement::Closing(*self),
    {
        RenderElement::Closing(*self)
    }
}

/// The first item from `i` on of the given window.
pub open spec fn first_item_of(strip: Seq<StripItem>, id: MappedId, i: int) -> Option<int>
    decreases strip.len() - i,
{
    if i < 0 || i >= strip.len() {
        None
    } else if strip[i].id == id {
        Some(i)
    } else {
        first_item_of(strip, id, i + 1)
    }
}

/// The first of the items from `i` up to `end` that is under the pointer.
pub open spec fn first_under(under: Seq<bool>, i: int, end: int) -> Option<int>
    decreases end - i,
{
    if i >= end {
        None
    } else if under[i] {
        Some(i)
    } else {
        first_under(under, i + 1, end)
    }
}

/// All of the textures, if each could be rendered.
pub open spec fn all_rendered(textures: Seq<Option<TextureId>>) -> Option<Seq<TextureId>> {
    if forall|i: int| 0 <= i < textures.len() ==> #[trigger] textures[i] is Some {
        Some(Seq::new(textures.len(), |i: int| textures[i]->0))
    } else {
        None
    }
}

/// The closing thumbnails that are still visible once the `finished` animations are over.
pub open spec fn still_closing(closing: Seq<ClosingThumbnail>, finished: Seq<AnimationId>) -> Seq<
    ClosingThumbnail,
> {
    closing.filter(|c: ClosingThumbnail| !finished.contains(c.anim))
}

/// Closing thumbnails on the output: the last one on top.
pub open spec fn closing_elements(closing: Seq<ClosingThumbnail>) -> Seq<RenderElement> {
    Seq::new(closing.len(), |i: int| RenderElement::Closing(closing[closing.len() - 1 - i]))
}

/// The thumbnails between two places on the strip, on the output.
pub open spec fn thumbnail_elements(
    strip: Seq<StripItem>,
    current_id: MappedId,
    start: int,
    end: int,
) -> Seq<RenderElement> {
    Seq::new(
        (end - start) as nat,
        |k: int|
            RenderElement::Thumbnail {
                id: strip[start + k].id,
                item: (start + k) as usize,
                focus_ring: strip[start + k].id == current_id,
            },
    )
}

impl InnerModel {
    pub open spec fn respond(self, request: MruCloseRequest) -> Option<MappedId> {
        match request {
            MruCloseRequest::Cancelled => None,
            MruCloseRequest::Current => self.wmru.current_id,
            MruCloseRequest::Selection(id) => Some(id),
        }
    }

    /// Whether something is in motion.
    pub open spec fn is_animated(self, finished: Seq<AnimationId>) -> bool {
        ||| !finished.contains(self.open_animation)
        ||| exists|i: int|
            0 <= i < self.wmru.thumbnails.len() && (
            #[trigger] self.wmru.thumbnails[i]).is_animated()
        ||| self.view_offset is Animation
        ||| self.closing_thumbnails.len() > 0
    }

    /// The switcher once the `finished` animations are over, where `view_to` is what the view
    /// offset's animation, if any, led to.
    pub open spec fn advanced(self, finished: Seq<AnimationId>, view_to: Coord) -> InnerModel {
        InnerModel {
            view_offset: self.view_offset.advanced(finished, view_to),
            closing_thumbnails: still_closing(self.closing_thumbnails, finished),
            wmru: self.wmru.advanced(finished),
            ..self
        }
    }

    /// The focus ring on the given strip.
    pub open spec fn focus_ring(self, strip: Seq<StripItem>) -> FocusRingUpdate {
        match self.wmru.current_id {
            None => FocusRingUpdate::Unchanged,
            Some(id) => match first_item_of(strip, id, 0) {
                Some(i) => FocusRingUpdate::Around {
                    item: i as usize,
                    fade: self.wmru.thumbnails[index_of_id(
                        self.wmru.thumbnails,
                        id,
                    )].open_animation,
                },
                None => FocusRingUpdate::Missing,
            },
        }
    }

    /// The thumbnail under the pointer, where `under` tells which items of the strip are.
    pub open spec fn thumbnail_under(
        self,
        strip: Seq<StripItem>,
        leftmost: Coord,
        rightmost: Coord,
        under: Seq<bool>,
    ) -> Option<MappedId> {
        let (start, end) = items_in_view(strip, leftmost, rightmost);
        match first_under(under, start, end) {
            Some(i) => Some(strip[i].id),
            None => None,
        }
    }

    /// The switcher with the panels that could be rendered, if it has none yet.
    pub open spec fn with_scope_panels(self, textures: Seq<Option<TextureId>>) -> InnerModel {
        if self.scope_panel is Some {
            self
        } else {
            InnerModel { scope_panel: all_rendered(textures), ..self }
        }
    }

    /// The panel for the scope.
    pub open spec fn scope_texture(self) -> Option<TextureId> {
        match self.scope_panel {
            Some(panels) if self.wmru.scope.spec_index() < panels.len() => {
                Some(panels[self.wmru.scope.spec_index() as int])
            },
            _ => None,
        }
    }

    /// The open switcher on the output, topmost first.
    pub open spec fn elements(
        self,
        strip: Seq<StripItem>,
        leftmost: Coord,
        rightmost: Coord,
    ) -> Seq<RenderElement> {
        let (start, end) = items_in_view(strip, leftmost, rightmost);
        let panel = match self.scope_texture() {
            Some(texture) => seq![RenderElement::ScopePanel(texture)],
            None => Seq::empty(),
        };
        let thumbnails = match self.wmru.current_id {
            Some(id) => thumbnail_elements(strip, id, start, end),
            None => Seq::empty(),
        };
        panel + closing_elements(self.closing_thumbnails) + thumbnails
    }
}

impl UiModel {
    /// What is walked is well-formed.
    pub open spec fn wf(self) -> bool {
        self matches UiModel::Open(inner) ==> inner.wmru.wf()
    }

    /// The scope of the walk, or of the last one.
    pub open spec fn scope(self) -> MruScope {
        match self {
            UiModel::Closed { previous_scope, .. } => previous_scope,
            UiModel::Open(inner) => inner.wmru.scope,
        }
    }

    pub open spec fn current_window_id(self) -> Option<MappedId> {
        match self {
            UiModel::Closed { .. } => None,
            UiModel::Open(inner) => inner.wmru.current_id,
        }
    }

    /// Another walk, if the switcher is open.
    pub open spec fn walk(self, wmru: MruModel) -> UiModel {
        match self {
            UiModel::Closed { .. } => self,
            UiModel::Open(inner) => UiModel::Open(InnerModel { wmru, ..inner }),
        }
    }

    /// The walk, if the switcher is open.
    pub open spec fn wmru(self) -> MruModel
        recommends
            self is Open,
    {
        self->Open_0.wmru
    }

    pub open spec fn close(self, close_animation: AnimationId) -> UiModel {
        match self {
            UiModel::Closed { .. } => self,
            UiModel::Open(inner) => UiModel::Closed {
                close_animation: Some(close_animation),
                closing_thumbnails: inner.closing_thumbnails,
                output: Some(inner.output),
                previous_scope: inner.wmru.scope,
            },
        }
    }

    pub open spec fn respond(self, request: MruCloseRequest) -> Option<MappedId> {
        match self {
            UiModel::Closed { .. } => None,
            UiModel::Open(inner) => inner.respond(request),
        }
    }

    /// Takes a window out, and closes the switcher when none is left.
    pub open spec fn remove_window(self, id: MappedId, close_animation: AnimationId) -> UiModel {
        let removed = self.walk(self.wmru().remove(id));
        if self is Open && has_id(self.wmru().thumbnails, id)
            && removed.wmru().thumbnails.len() == 0 {
            removed.close(close_animation)
        } else {
            removed
        }
    }

    /// The given window is the only one that the open switcher has.
    pub open spec fn closes_without(self, id: MappedId) -> bool {
        &&& self is Open
        &&& self.wmru().thumbnails.len() == 1
        &&& has_id(self.wmru().thumbnails, id)
    }

    /// The thumbnails appear on the given output: the switcher was opened on it, and the opening
    /// delay is over.
    pub open spec fn draws_thumbnails(self, output: OutputId, finished: Seq<AnimationId>) -> bool {
        self matches UiModel::Open(inner) && inner.output == output && finished.contains(
            inner.open_delay,
        )
    }

    pub open spec fn is_animated(self, finished: Seq<AnimationId>) -> bool {
        match self {
            UiModel::Open(inner) => inner.is_animated(finished),
            UiModel::Closed { close_animation, closing_thumbnails, .. } => {
                ||| close_animation is Some
                ||| exists|i: int|
                    0 <= i < closing_thumbnails.len() && !finished.contains(
                        (#[trigger] closing_thumbnails[i]).anim,
                    )
            },
        }
    }

    pub open spec fn advanced(self, finished: Seq<AnimationId>, view_to: Coord) -> UiModel {
        match self {
            UiModel::Open(inner) => UiModel::Open(inner.advanced(finished, view_to)),
            UiModel::Closed { close_animation, closing_thumbnails, output, previous_scope } => {
                UiModel::Closed {
                    close_animation: still_running(close_animation, finished),
                    closing_thumbnails: still_closing(closing_thumbnails, finished),
                    output,
                    previous_scope,
                }
            },
        }
    }

    /// The switcher on an output, topmost first.
    ///
    /// The thumbnails are on one output only, the background on all. Nothing appears before the
    /// opening delay is over.
    pub open spec fn elements(
        self,
        output: OutputId,
        finished: Seq<AnimationId>,
        strip: Seq<StripItem>,
        leftmost: Coord,
        rightmost: Coord,
    ) -> Seq<RenderElement> {
        match self {
            UiModel::Closed {
                close_animation: Some(anim),
                closing_thumbnails,
                output: closing_output,
                ..
            } => {
                let closing = if closing_output == Some(output) {
                    closing_elements(closing_thumbnails)
                } else {
                    Seq::empty()
                };
                closing.push(RenderElement::Background(Progress::Animation(anim)))
            },
            UiModel::Closed { close_animation: None, .. } => Seq::empty(),
            UiModel::Open(inner) => if finished.contains(inner.open_delay) {
                let walk = if inner.output == output {
                    inner.elements(strip, leftmost, rightmost)
                } else {
                    Seq::empty()
                };
                walk.push(RenderElement::Background(Progress::Full))
            } else {
                Seq::empty()
            },
        }
    }
}

} // verus!
