//! The windows that the switcher shows.

use vstd::prelude::*;

use crate::coord::Coord;
use crate::ids::{is_done, AnimationId, MappedId, TextureId};

verus! {

/// The text of an optional string.
pub open spec fn text(s: Option<String>) -> Option<Seq<char>> {
    match s {
        Some(s) => Some(s@),
        None => None,
    }
}

/// A window in the switcher.
#[derive(Debug)]
pub struct Thumbnail {
    pub id: MappedId,
    /// When the window last got the focus, in nanoseconds of the compositor's clock.
    pub timestamp: Option<u128>,
    pub on_current_workspace: bool,
    pub on_current_output: bool,
    pub app_id: Option<String>,
    pub open_animation: Option<AnimationId>,
    pub move_animation: Option<MoveAnimation>,
    pub title_texture: TitleTexture,
}

/// A motion to the place where the thumbnail belongs.
#[derive(Clone, Copy, Debug, PartialEq, Eq, Structural)]
pub struct MoveAnimation {
    pub anim: AnimationId,
    /// How far away the motion starts.
    pub from: Coord,
}

/// A cached title texture.
#[derive(Debug)]
pub struct TitleTexture {
    pub title: String,
    pub scale: Coord,
    /// `Some(None)` remembers that the title could not be rendered.
    pub texture: Option<Option<TextureId>>,
}

/// What a [`TitleTexture`] holds.
pub struct TitleModel {
    pub title: Seq<char>,
    pub scale: Coord,
    pub texture: Option<Option<TextureId>>,
}

/// What a [`Thumbnail`] holds.
pub struct ThumbnailModel {
    pub id: MappedId,
    pub timestamp: Option<u128>,
    pub on_current_workspace: bool,
    pub on_current_output: bool,
    pub app_id: Option<Seq<char>>,
    pub open_animation: Option<AnimationId>,
    pub move_animation: Option<MoveAnimation>,
    pub title_texture: TitleModel,
}

impl View for TitleTexture {
    type V = TitleModel;

    open spec fn view(&self) -> TitleModel {
        TitleModel { title: self.title@, scale: self.scale, texture: self.texture }
    }
}

impl View for Thumbnail {
    type V = ThumbnailModel;

    open spec fn view(&self) -> ThumbnailModel {
        ThumbnailModel {
            id: self.id,
            timestamp: self.timestamp,
            on_current_workspace: self.on_current_workspace,
            on_current_output: self.on_current_output,
            app_id: text(self.app_id),
            open_animation: self.open_animation,
            move_animation: self.move_animation,
            title_texture: self.title_texture@,
        }
    }
}

/// The models of a list of thumbnails.
pub open spec fn models(thumbnails: Seq<Thumbnail>) -> Seq<ThumbnailModel> {
    Seq::new(thumbnails.len(), |i: int| thumbnails[i]@)
}

impl Default for TitleTexture {
    /// An empty cache.
    fn default() -> (cache: TitleTexture)
        ensures
            cache@ == (TitleModel {
                title: Seq::empty(),
                scale: Coord::spec_zero(),
                texture: None,
            }),
    {
        TitleTexture { title: String::new(), scale: Coord::zero(), texture: None }
    }
}

impl TitleModel {
    /// The cache is for the given title at the given scale.
    pub open spec fn is_for(self, title: Seq<char>, scale: Coord) -> bool {
        self.title == title && self.scale.spec_same(scale)
    }

    /// What the cache gives for a title, where rendering it gives `rendered`.
    pub open spec fn lookup(
        self,
        title: Seq<char>,
        scale: Coord,
        rendered: Option<TextureId>,
    ) -> Option<TextureId> {
        if self.is_for(title, scale) && self.texture is Some {
            self.texture->0
        } else {
            rendered
        }
    }
}

impl TitleTexture {
    /// Whether [`get`](TitleTexture::get) answers from the cache, and the title need not be
    /// rendered.
    pub fn is_cached(&self, title: &String, scale: Coord) -> (cached: bool)
        ensures
            cached == (self@.is_for(title@, scale) && self@.texture is Some),
    {
        self.title == *title && self.scale.same(scale) && self.texture.is_some()
    }

    /// The texture for a title, where rendering it gives `rendered`. That it could not be rendered
    /// is remembered too.
    pub fn get(&mut self, title: &String, scale: Coord, rendered: Option<TextureId>) -> (texture:
        Option<TextureId>)
        ensures
            texture == old(self)@.lookup(title@, scale, rendered),
            final(self)@ == (TitleModel { title: title@, scale, texture: Some(texture) }),
    {
        if !(self.title == *title && self.scale.same(scale)) {
            self.texture = None;
            self.title = title.clone();
            self.scale = scale;
        }
        match self.texture {
            Some(texture) => texture,
            None => {
                self.texture = Some(rendered);
                rendered
            },
        }
    }
}

/// A title that takes up no space.
#[derive(Clone, Copy, Debug, PartialEq, Eq, Structural)]
pub struct EmptyTitle;

/// The size of the surface for a title that is `width` by `height` pixels large.
pub fn title_size(width: i32, height: i32) -> (size: Result<(i32, i32), EmptyTitle>)
    ensures
        size == if width > 0 && height > 0 {
            Ok((width, height))
        } else {
            Err(EmptyTitle)
        },
{
    if width > 0 && height > 0 {
        Ok((width, height))
    } else {
        Err(EmptyTitle)
    }
}

/// An animation, unless it is finished.
pub open spec fn still_running(animation: Option<AnimationId>, finished: Seq<AnimationId>) -> Option<
    AnimationId,
> {
    match animation {
        Some(anim) if !finished.contains(anim) => Some(anim),
        _ => None,
    }
}

/// A motion, unless it is finished.
pub open spec fn still_moving(motion: Option<MoveAnimation>, finished: Seq<AnimationId>) -> Option<
    MoveAnimation,
> {
    match motion {
        Some(motion) if !finished.contains(motion.anim) => Some(motion),
        _ => None,
    }
}

/// Lets go of an animation that is finished.
pub fn take_if_done(animation: &mut Option<AnimationId>, finished: &Vec<AnimationId>)
    ensures
        *final(animation) == still_running(*old(animation), finished@),
{
    if let Some(anim) = *animation {
        if is_done(anim, finished) {
            *animation = None;
        }
    }
}

impl ThumbnailModel {
    /// The thumbnail once the `finished` animations are over.
    pub open spec fn advanced(self, finished: Seq<AnimationId>) -> ThumbnailModel {
        ThumbnailModel {
            open_animation: still_running(self.open_animation, finished),
            move_animation: still_moving(self.move_animation, finished),
            ..self
        }
    }

    pub open spec fn is_animated(self) -> bool {
        self.open_animation is Some || self.move_animation is Some
    }
}

/// An element of a window's contents.
#[derive(Clone, Copy, Debug, PartialEq, Eq, Structural)]
pub enum WindowElement {
    /// A client surface, which may or may not reach beyond the window's geometry.
    Surface { sticks_out: bool },
    /// A solid color.
    SolidColor,
}

/// An element of a thumbnail on the output.
#[derive(Clone, Copy, Debug, PartialEq, Eq, Structural)]
pub enum ThumbnailElement {
    /// The element of the window with the given number.
    Window { element: usize },
    /// The same, clipped to the window's geometry.
    ClippedWindow { element: usize },
    Title(TextureId),
    FocusRing,
}

/// How a thumbnail appears.
#[derive(Debug)]
pub struct ThumbnailDrawing {
    /// The animation that the thumbnail fades in with; it is opaque without one.
    pub fade: Option<AnimationId>,
    /// What it consists of, topmost first.
    pub elements: Vec<ThumbnailElement>,
}

/// How an element of the window appears. Without a shader it cannot be clipped.
pub open spec fn drawn(element: WindowElement, number: usize, has_shader: bool) -> ThumbnailElement {
    match element {
        WindowElement::Surface { sticks_out: true } if has_shader => {
            ThumbnailElement::ClippedWindow { element: number }
        },
        _ => ThumbnailElement::Window { element: number },
    }
}

/// The elements of a thumbnail, topmost first: the window's contents, the title, the focus ring.
pub open spec fn drawn_thumbnail(
    elements: Seq<WindowElement>,
    has_shader: bool,
    title: Option<TextureId>,
    focus_ring: bool,
) -> Seq<ThumbnailElement> {
    Seq::new(elements.len(), |i: int| drawn(elements[i], i as usize, has_shader)) + match title {
        Some(title) => seq![ThumbnailElement::Title(title)],
        None => Seq::empty(),
    } + if focus_ring {
        seq![ThumbnailElement::FocusRing]
    } else {
        Seq::empty()
    }
}

impl Thumbnail {
    /// Whether the thumbnail is opening or moving.
    pub fn are_animations_ongoing(&self) -> (ongoing: bool)
        ensures
            ongoing == self@.is_animated(),
    {
        self.open_animation.is_some() || self.move_animation.is_some()
    }

    /// Lets go of finished animations.
    pub fn advance_animations(&mut self, finished: &Vec<AnimationId>)
        ensures
            final(self)@ == old(self)@.advanced(finished@),
    {
        take_if_done(&mut self.open_animation, finished);
        if let Some(motion) = self.move_animation {
            if is_done(motion.anim, finished) {
                self.move_animation = None;
            }
        }
    }

    /// Lets the thumbnail move in from the given distance. A motion that is under way is restarted,
    /// which the result tells; otherwise `animation` drives it.
    pub fn animate_move_from(&mut self, from: Coord, animation: AnimationId) -> (restarted: bool)
        ensures
            restarted == (old(self)@.move_animation is Some),
            final(self)@ == (ThumbnailModel {
                move_animation: Some(
                    MoveAnimation {
                        anim: match old(self)@.move_animation {
                            Some(motion) => motion.anim,
                            None => animation,
                        },
                        from,
                    },
                ),
                ..old(self)@
            }),
    {
        match self.move_animation {
            Some(motion) => {
                self.move_animation = Some(MoveAnimation { anim: motion.anim, from });
                true
            },
            None => {
                self.move_animation = Some(MoveAnimation { anim: animation, from });
                false
            },
        }
    }

    /// The texture of the window's title, where rendering it gives `rendered`; none for a window
    /// without a title.
    pub fn title_texture(
        &mut self,
        title: Option<&String>,
        scale: Coord,
        rendered: Option<TextureId>,
    ) -> (texture: Option<TextureId>)
        ensures
            match title {
                Some(title) => {
                    &&& texture == old(self)@.title_texture.lookup(title@, scale, rendered)
                    &&& final(self)@ == ThumbnailModel {
                        title_texture: TitleModel { title: title@, scale, texture: Some(texture) },
                        ..old(self)@
                    }
                },
                None => texture is None && *final(self) == *old(self),
            },
    {
        match title {
            Some(title) => self.title_texture.get(title, scale, rendered),
            None => None,
        }
    }

    /// The elements of the thumbnail, topmost first, with the animation that it fades in with; it
    /// is opaque without one.
    pub fn render(
        &self,
        elements: &Vec<WindowElement>,
        has_shader: bool,
        title: Option<TextureId>,
        focus_ring: bool,
    ) -> (drawing: ThumbnailDrawing)
        ensures
            drawing.fade == self@.open_animation,
            drawing.elements@ == drawn_thumbnail(elements@, has_shader, title, focus_ring),
    {
        let mut drawing: Vec<ThumbnailElement> = Vec::new();
        let mut i: usize = 0;
        while i < elements.len()
            invariant
                i <= elements.len(),
                drawing@.len() == i,
                forall|j: int|
                    0 <= j < i ==> drawing@[j] == drawn(elements@[j], j as usize, has_shader),
            decreases elements.len() - i,
        {
            let element: ThumbnailElement = match elements[i] {
                WindowElement::Surface { sticks_out } => {
                    if has_shader && sticks_out {
                        ThumbnailElement::ClippedWindow { element: i }
                    } else {
                        ThumbnailElement::Window { element: i }
                    }
                },
                WindowElement::SolidColor => ThumbnailElement::Window { element: i },
            };
            drawing.push(element);
            i += 1;
        }
        if let Some(title) = title {
            drawing.push(ThumbnailElement::Title(title));
        }
        if focus_ring {
            drawing.push(ThumbnailElement::FocusRing);
        }
        assert(drawing@ =~= drawn_thumbnail(elements@, has_shader, title, focus_ring));
        ThumbnailDrawing { fade: self.open_animation, elements: drawing }
    }
}

/// Once a title was looked up, the same title at the same scale gives the same texture, whatever
/// rendering it again would give. The scale is a number.
pub proof fn law_title_cached(
    cache: TitleModel,
    title: Seq<char>,
    scale: Coord,
    first: Option<TextureId>,
    again: Option<TextureId>,
)
    requires
        scale.key is Some,
    ensures
        ({
            let texture = cache.lookup(title, scale, first);
            let after = TitleModel { title, scale, texture: Some(texture) };
            after.lookup(title, scale, again) == texture
        }),
{
}

/// A title or a scale other than the cached one is rendered anew.
pub proof fn law_title_renewed(
    cache: TitleModel,
    title: Seq<char>,
    scale: Coord,
    rendered: Option<TextureId>,
)
    requires
        cache.title != title || !cache.scale.spec_same(scale),
    ensures
        cache.lookup(title, scale, rendered) == rendered,
{
}

/// A cache answers for the title and the scale that it holds a texture for, and for no other: then
/// the title is rendered. That the title could not be rendered is an answer too.
pub proof fn law_title_lookup(
    cache: TitleModel,
    title: Seq<char>,
    scale: Coord,
    rendered: Option<TextureId>,
    texture: Option<TextureId>,
)
    ensures
        cache.is_for(title, scale) <==> cache.title == title && cache.scale.spec_same(scale),
        cache.texture == Some(texture) && cache.title == title && cache.scale.spec_same(scale)
            ==> cache.lookup(title, scale, rendered) == texture,
        cache.texture is None || cache.title != title || !cache.scale.spec_same(scale)
            ==> cache.lookup(title, scale, rendered) == rendered,
{
}

/// An animation is let go of if and only if it is finished, and is otherwise the same one.
pub proof fn law_only_finished_end(
    animation: AnimationId,
    motion: MoveAnimation,
    finished: Seq<AnimationId>,
)
    ensures
        finished.contains(animation) ==> still_running(Some(animation), finished) is None,
        !finished.contains(animation) ==> still_running(Some(animation), finished) == Some(
            animation,
        ),
        still_running(None, finished) is None,
        finished.contains(motion.anim) ==> still_moving(Some(motion), finished) is None,
        !finished.contains(motion.anim) ==> still_moving(Some(motion), finished) == Some(motion),
        still_moving(None, finished) is None,
{
}

/// Finished animations change nothing of a thumbnail but its animations, and each of those for
/// itself. A thumbnail is at rest if and only if it has none.
pub proof fn law_thumbnail_advanced(t: ThumbnailModel, finished: Seq<AnimationId>)
    ensures
        t.advanced(finished).id == t.id,
        t.advanced(finished).timestamp == t.timestamp,
        t.advanced(finished).on_current_workspace == t.on_current_workspace,
        t.advanced(finished).on_current_output == t.on_current_output,
        t.advanced(finished).app_id == t.app_id,
        t.advanced(finished).title_texture == t.title_texture,
        t.advanced(finished).open_animation == still_running(t.open_animation, finished),
        t.advanced(finished).move_animation == still_moving(t.move_animation, finished),
        !t.is_animated() <==> t.open_animation is None && t.move_animation is None,
{
}

/// A thumbnail consists of all elements of the window, in order, then the title, then the focus
/// ring. Of the window's elements exactly the surfaces that stick out are clipped, if there is a
/// shader.
pub proof fn law_drawn_thumbnail(
    elements: Seq<WindowElement>,
    has_shader: bool,
    title: Option<TextureId>,
    focus_ring: bool,
)
    requires
        elements.len() <= usize::MAX,
    ensures
        ({
            let drawing = drawn_thumbnail(elements, has_shader, title, focus_ring);
            let n = elements.len() as int;
            &&& drawing.len() == n + (if title is Some { 1int } else { 0 }) + (if focus_ring {
                1int
            } else {
                0
            })
            &&& forall|i: int|
                0 <= i < n ==> match #[trigger] drawing[i] {
                    ThumbnailElement::ClippedWindow { element } => element == i && has_shader
                        && elements[i] == (WindowElement::Surface { sticks_out: true }),
                    ThumbnailElement::Window { element } => element == i && !(has_shader
                        && elements[i] == (WindowElement::Surface { sticks_out: true })),
                    _ => false,
                }
            &&& title matches Some(texture) ==> drawing[n] == ThumbnailElement::Title(texture)
            &&& focus_ring ==> drawing.last() == ThumbnailElement::FocusRing
        }),
{
}

/// The models tell all that thumbnails hold, one for one.
pub proof fn law_models_faithful(thumbnails: Seq<Thumbnail>, i: int)
    requires
        0 <= i < thumbnails.len(),
    ensures
        models(thumbnails).len() == thumbnails.len(),
        ({
            let model = models(thumbnails)[i];
            let t = thumbnails[i];
            &&& model == t@
            &&& model.id == t.id
            &&& model.timestamp == t.timestamp
            &&& model.on_current_workspace == t.on_current_workspace
            &&& model.on_current_output == t.on_current_output
            &&& model.app_id is Some <==> t.app_id is Some
            &&& t.app_id matches Some(app_id) ==> model.app_id == Some(app_id@)
            &&& model.open_animation == t.open_animation
            &&& model.move_animation == t.move_animation
            &&& model.title_texture.title == t.title_texture.title@
            &&& model.title_texture.scale == t.title_texture.scale
            &&& model.title_texture.texture == t.title_texture.texture
        }),
{
}

} // verus!
