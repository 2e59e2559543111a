//! Where the strip of thumbnails stands on the output.

use vstd::prelude::*;

use crate::coord::Coord;
use crate::ids::{is_done, AnimationId, MappedId};

verus! {

/// The offset of the view along the strip of thumbnails.
#[derive(Clone, Copy, Debug, PartialEq, Eq, Structural)]
pub enum ViewOffset {
    /// The view offset is static.
    Static(Coord),
    /// The view offset is animating.
    Animation(AnimationId),
}

impl ViewOffset {
    /// The offset now, where `value` is what the animation, if any, stands at.
    pub fn current(&self, value: Coord) -> (offset: Coord)
        ensures
            offset == match *self {
                ViewOffset::Static(offset) => offset,
                ViewOffset::Animation(_) => value,
            },
    {
        match self {
            ViewOffset::Static(offset) => *offset,
            ViewOffset::Animation(_) => value,
        }
    }

    /// The offset to come, where `to` is what the animation, if any, leads to.
    pub fn target(&self, to: Coord) -> (offset: Coord)
        ensures
            offset == match *self {
                ViewOffset::Static(offset) => offset,
                ViewOffset::Animation(_) => to,
            },
    {
        match self {
            ViewOffset::Static(offset) => *offset,
            ViewOffset::Animation(_) => to,
        }
    }

    /// Whether the offset is animating.
    pub fn are_animations_ongoing(&self) -> (ongoing: bool)
        ensures
            ongoing == (*self is Animation),
    {
        match self {
            ViewOffset::Static(_) => false,
            ViewOffset::Animation(_) => true,
        }
    }

    /// The offset once the `finished` animations are over, where `to` is what the animation, if
    /// any, led to.
    pub open spec fn advanced(self, finished: Seq<AnimationId>, to: Coord) -> ViewOffset {
        match self {
            ViewOffset::Animation(anim) if finished.contains(anim) => ViewOffset::Static(to),
            _ => self,
        }
    }

    /// Settles the offset where a finished animation led to.
    pub fn advance_animations(&mut self, finished: &Vec<AnimationId>, to: Coord)
        ensures
            *final(self) == old(self).advanced(finished@, to),
    {
        match *self {
            ViewOffset::Animation(anim) => {
                if is_done(anim, finished) {
                    *self = ViewOffset::Static(to);
                }
            },
            ViewOffset::Static(_) => {},
        }
    }

    /// Lets the offset follow an animation.
    pub fn animate(&mut self, animation: AnimationId)
        ensures
            *final(self) == ViewOffset::Animation(animation),
    {
        *self = ViewOffset::Animation(animation);
    }

    /// The offset after a change that is `distance` large, and the animation that is to end
    /// elsewhere by it.
    pub open spec fn followed(
        self,
        distance: Coord,
        pixel: Coord,
        animation: AnimationId,
        shifted: Coord,
    ) -> (ViewOffset, Option<AnimationId>) {
        if pixel.spec_lt(distance) {
            (ViewOffset::Animation(animation), Some(animation))
        } else {
            match self {
                ViewOffset::Static(_) => (ViewOffset::Static(shifted), None),
                ViewOffset::Animation(anim) => (self, Some(anim)),
            }
        }
    }

    /// Follows a change of the offset that is `distance` large. One by more than a pixel is
    /// animated: by `animation`, which starts where the view stands. Otherwise a static offset goes
    /// to `shifted`. An animation that is to end elsewhere by the change is returned.
    pub fn follow(
        &mut self,
        distance: Coord,
        pixel: Coord,
        animation: AnimationId,
        shifted: Coord,
    ) -> (to_shift: Option<AnimationId>)
        ensures
            (*final(self), to_shift) == old(self).followed(distance, pixel, animation, shifted),
    {
        if is_visible_change(distance, pixel) {
            self.animate(animation);
        }
        self.offset(shifted)
    }

    /// Moves the offset: a static one to `shifted`. An animation is to be moved by its owner, and
    /// is returned for that.
    pub fn offset(&mut self, shifted: Coord) -> (animation: Option<AnimationId>)
        ensures
            match *old(self) {
                ViewOffset::Static(_) => *final(self) == ViewOffset::Static(shifted) && animation
                    is None,
                ViewOffset::Animation(anim) => *final(self) == *old(self) && animation == Some(
                    anim,
                ),
            },
    {
        match *self {
            ViewOffset::Static(_) => {
                *self = ViewOffset::Static(shifted);
                None
            },
            ViewOffset::Animation(anim) => Some(anim),
        }
    }
}

/// How the view takes in a thumbnail.
#[derive(Clone, Copy, Debug, PartialEq, Eq, Structural)]
pub enum ViewAlignment {
    /// The view stays where it is.
    Keep,
    /// The thumbnail goes to the left edge of the working area.
    Left,
    /// The thumbnail goes to the right edge of the working area.
    Right,
}

impl ViewAlignment {
    /// How far the working area starts from the thumbnail once the view has moved, in exact
    /// numbers: it starts at `area` before and is `area_width` wide, and the thumbnail starts at
    /// `x` and is `width` wide.
    pub open spec fn offset(self, area: int, area_width: int, x: int, width: int) -> int {
        match self {
            ViewAlignment::Keep => area - x,
            ViewAlignment::Left => 0,
            ViewAlignment::Right => width - area_width,
        }
    }
}

/// How far apart two places are.
pub open spec fn distance(a: int, b: int) -> int {
    if a <= b {
        b - a
    } else {
        a - b
    }
}

/// The edges that decide on a [`ViewAlignment`].
#[derive(Clone, Copy, Debug, PartialEq, Eq, Structural)]
pub struct ViewEdges {
    /// The working area as it stands.
    pub area_left: Coord,
    pub area_right: Coord,
    /// The thumbnail.
    pub left: Coord,
    pub right: Coord,
    /// How far the view moves for the left edges to meet, and for the right ones.
    pub to_left: Coord,
    pub to_right: Coord,
}

impl ViewEdges {
    /// The thumbnail lies within the working area.
    pub open spec fn fully_visible(self) -> bool {
        self.area_left.spec_le(self.left) && self.right.spec_le(self.area_right)
    }

    /// The view stays for a thumbnail that is fully visible, and otherwise goes where it takes less
    /// motion.
    pub open spec fn alignment(self) -> ViewAlignment {
        if self.fully_visible() {
            ViewAlignment::Keep
        } else if self.to_left.spec_le(self.to_right) {
            ViewAlignment::Left
        } else {
            ViewAlignment::Right
        }
    }

    /// The edges compare as exact numbers do: those of a working area that starts at `area` and is
    /// `area_width` wide, and of a thumbnail that starts at `x` and is `width` wide.
    pub open spec fn stand_for(self, area: int, area_width: int, x: int, width: int) -> bool {
        &&& self.area_left.spec_le(self.left) <==> area <= x
        &&& self.right.spec_le(self.area_right) <==> x + width <= area + area_width
        &&& self.to_left.spec_le(self.to_right) <==> distance(area, x) <= distance(
            area + area_width,
            x + width,
        )
    }

    /// Leaves the view as it is for a thumbnail that is fully visible, and otherwise prefers the
    /// alignment that results in less motion.
    pub fn align(self) -> (alignment: ViewAlignment)
        ensures
            alignment == self.alignment(),
    {
        if self.area_left.le(self.left) && self.right.le(self.area_right) {
            return ViewAlignment::Keep;
        }
        if self.to_left.le(self.to_right) {
            ViewAlignment::Left
        } else {
            ViewAlignment::Right
        }
    }
}

/// Once the view has moved as decided, it is not moved again: in exact numbers, the working area
/// stays at the same offset from the thumbnail, however wide either is. It stands where it was, or
/// the left edges or the right ones meet, and the thumbnail is fully visible unless it is wider than
/// the working area.
pub proof fn law_view_settles(
    edges: ViewEdges,
    moved: ViewEdges,
    area: int,
    area_width: int,
    x: int,
    width: int,
)
    requires
        area_width >= 0,
        width >= 0,
        edges.stand_for(area, area_width, x, width),
        moved.stand_for(
            x + edges.alignment().offset(area, area_width, x, width),
            area_width,
            x,
            width,
        ),
    ensures
        ({
            let offset = edges.alignment().offset(area, area_width, x, width);
            &&& moved.alignment().offset(x + offset, area_width, x, width) == offset
            &&& offset == area - x || offset == 0 || offset == width - area_width
            &&& width <= area_width ==> moved.fully_visible()
        }),
{
}

/// The same of the edges as they are compared: where the view has moved so that the edges meet that
/// were to meet, it stays or is to go where it is.
pub proof fn law_alignment_settles(edges: ViewEdges, moved: ViewEdges)
    requires
        moved.left == edges.left,
        moved.right == edges.right,
        match edges.alignment() {
            ViewAlignment::Keep => moved == edges,
            ViewAlignment::Left => {
                &&& moved.area_left.spec_same(moved.left)
                &&& moved.to_left.spec_le(moved.to_right)
            },
            ViewAlignment::Right => {
                &&& moved.area_right.spec_same(moved.right)
                &&& moved.area_left.spec_le(moved.left) || !moved.to_left.spec_le(moved.to_right)
            },
        },
    ensures
        moved.alignment() == ViewAlignment::Keep || moved.alignment() == edges.alignment(),
{
}

/// A thumbnail on the strip.
#[derive(Clone, Copy, Debug, PartialEq, Eq, Structural)]
pub struct StripItem {
    pub id: MappedId,
    pub left: Coord,
    pub right: Coord,
    pub width: Coord,
}

impl StripItem {
    /// Some of the item lies between two places.
    pub open spec fn is_between(self, leftmost: Coord, rightmost: Coord) -> bool {
        leftmost.spec_lt(self.right) && self.left.spec_lt(rightmost)
    }
}

/// Where the view goes.
#[derive(Clone, Copy, Debug, PartialEq, Eq, Structural)]
pub enum ViewPlan {
    /// To the start of the strip.
    Start,
    /// The whole strip fits and is centered. It ends with the given item, if it has any.
    Center { end: Option<usize> },
    /// The item of the selected window is taken in; without one, an empty place at the start.
    TakeIn { item: Option<usize> },
}

/// The last of the first `n` items that belongs to the given window.
pub open spec fn item_of(strip: Seq<StripItem>, id: MappedId, n: nat) -> Option<int>
    decreases n,
{
    if n == 0 {
        None
    } else if strip[n - 1].id == id {
        Some(n - 1)
    } else {
        item_of(strip, id, (n - 1) as nat)
    }
}

/// The first `n` items hold that of the given window, and go beyond the working width.
pub open spec fn overflows(
    strip: Seq<StripItem>,
    id: MappedId,
    working_width: Coord,
    n: nat,
) -> bool {
    &&& n > 0
    &&& item_of(strip, id, n) matches Some(i) && !strip[i].width.spec_same(Coord::spec_zero())
    &&& working_width.spec_lt(strip[n - 1].right)
}

/// The end of the strip is within the working width.
pub open spec fn fits(strip: Seq<StripItem>, working_width: Coord) -> bool {
    if strip.len() == 0 {
        Coord::spec_zero().spec_le(working_width)
    } else {
        strip.last().right.spec_le(working_width)
    }
}

/// How many items it takes to decide where the view goes, from `n` on: as many as overflow, or all.
pub open spec fn deciding_from(
    strip: Seq<StripItem>,
    id: MappedId,
    working_width: Coord,
    n: nat,
) -> nat
    decreases strip.len() - n,
{
    if n >= strip.len() || overflows(strip, id, working_width, n) {
        n
    } else {
        deciding_from(strip, id, working_width, n + 1)
    }
}

/// Where the view goes, as the first `n` items tell.
pub open spec fn plan_from(
    strip: Seq<StripItem>,
    id: MappedId,
    working_width: Coord,
    n: nat,
) -> ViewPlan {
    if fits(strip.take(n as int), working_width) {
        ViewPlan::Center {
            end: if n == 0 {
                None
            } else {
                Some((n - 1) as usize)
            },
        }
    } else {
        ViewPlan::TakeIn {
            item: match item_of(strip, id, n) {
                Some(i) => Some(i as usize),
                None => None,
            },
        }
    }
}

/// Where the view goes.
pub open spec fn planned_view(
    strip: Seq<StripItem>,
    current_id: Option<MappedId>,
    working_width: Coord,
) -> ViewPlan {
    match current_id {
        None => ViewPlan::Start,
        Some(id) => plan_from(
            strip,
            id,
            working_width,
            deciding_from(strip, id, working_width, 0),
        ),
    }
}

/// Decides where the view goes so that the selected thumbnail is in it. A strip that fits on the
/// output is centered.
pub fn plan_view(
    strip: &Vec<StripItem>,
    current_id: Option<MappedId>,
    working_width: Coord,
) -> (plan: ViewPlan)
    ensures
        plan == planned_view(strip@, current_id, working_width),
{
    let id: MappedId = match current_id {
        Some(id) => id,
        None => {
            return ViewPlan::Start;
        },
    };
    let mut item: Option<usize> = None;
    let mut width: Coord = Coord::zero();
    let mut strip_width: Coord = Coord::zero();
    let mut n: usize = 0;
    let mut enough: bool = false;
    while n < strip.len() && !enough
        invariant
            n <= strip.len(),
            match (item, item_of(strip@, id, n as nat)) {
                (Some(i), Some(j)) => i == j && i < n && width == strip@[j].width,
                (None, None) => width == Coord::spec_zero(),
                _ => false,
            },
            strip_width == if n == 0 {
                Coord::spec_zero()
            } else {
                strip@[n - 1].right
            },
            enough == overflows(strip@, id, working_width, n as nat),
            deciding_from(strip@, id, working_width, 0) == deciding_from(
                strip@,
                id,
                working_width,
                n as nat,
            ),
        decreases strip.len() - n,
    {
        if strip[n].id == id {
            item = Some(n);
            width = strip[n].width;
        }
        strip_width = strip[n].right;
        n += 1;
        enough = !width.same(Coord::zero()) && working_width.lt(strip_width);
    }
    assert(strip@.take(n as int).len() == n);
    if strip_width.le(working_width) {
        ViewPlan::Center {
            end: if n == 0 {
                None
            } else {
                Some(n - 1)
            },
        }
    } else {
        ViewPlan::TakeIn { item }
    }
}

/// The part of the strip that is in view: from the first thumbnail that does not end at or before
/// `leftmost`, up to the first one from there that starts at or after `rightmost`.
pub open spec fn is_in_view(
    strip: Seq<StripItem>,
    leftmost: Coord,
    rightmost: Coord,
    start: int,
    end: int,
) -> bool {
    &&& 0 <= start <= end <= strip.len()
    &&& forall|i: int| 0 <= i < start ==> (#[trigger] strip[i]).right.spec_le(leftmost)
    &&& start < strip.len() ==> !strip[start].right.spec_le(leftmost)
    &&& forall|i: int| start <= i < end ==> !rightmost.spec_le((#[trigger] strip[i]).left)
    &&& end < strip.len() ==> rightmost.spec_le(strip[end].left)
}

/// The first item from `i` on that does not end at or before `leftmost`.
pub open spec fn view_start(strip: Seq<StripItem>, leftmost: Coord, i: int) -> int
    decreases strip.len() - i,
{
    if 0 <= i < strip.len() && strip[i].right.spec_le(leftmost) {
        view_start(strip, leftmost, i + 1)
    } else {
        i
    }
}

/// The first item from `i` on that starts at or after `rightmost`.
pub open spec fn view_end(strip: Seq<StripItem>, rightmost: Coord, i: int) -> int
    decreases strip.len() - i,
{
    if 0 <= i < strip.len() && !rightmost.spec_le(strip[i].left) {
        view_end(strip, rightmost, i + 1)
    } else {
        i
    }
}

/// The part of the strip that is in view.
pub open spec fn items_in_view(strip: Seq<StripItem>, leftmost: Coord, rightmost: Coord) -> (
    int,
    int,
) {
    let start = view_start(strip, leftmost, 0);
    (start, view_end(strip, rightmost, start))
}

/// The part of the strip that is in view.
pub fn thumbnails_in_view(strip: &Vec<StripItem>, leftmost: Coord, rightmost: Coord) -> (range: (
    usize,
    usize,
))
    ensures
        (range.0 as int, range.1 as int) == items_in_view(strip@, leftmost, rightmost),
        is_in_view(strip@, leftmost, rightmost, range.0 as int, range.1 as int),
{
    let mut start: usize = 0;
    while start < strip.len() && strip[start].right.le(leftmost)
        invariant
            start <= strip.len(),
            forall|i: int| 0 <= i < start ==> (#[trigger] strip@[i]).right.spec_le(leftmost),
            view_start(strip@, leftmost, 0) == view_start(strip@, leftmost, start as int),
        decreases strip.len() - start,
    {
        start += 1;
    }
    let mut end: usize = start;
    while end < strip.len() && !rightmost.le(strip[end].left)
        invariant
            start <= end <= strip.len(),
            forall|i: int| start <= i < end ==> !rightmost.spec_le((#[trigger] strip@[i]).left),
            view_end(strip@, rightmost, start as int) == view_end(strip@, rightmost, end as int),
        decreases strip.len() - end,
    {
        end += 1;
    }
    (start, end)
}

/// The strip runs from left to right: no item ends before an earlier one does.
pub open spec fn left_to_right(strip: Seq<StripItem>) -> bool {
    forall|i: int, j: int|
        0 <= i <= j < strip.len() ==> (#[trigger] strip[i]).right.spec_le(
            (#[trigger] strip[j]).right,
        ) && strip[i].left.spec_le(strip[j].left)
}

/// Not looking at the items beyond those that decide makes no difference: on a strip that runs from
/// left to right, and on which each window stands once, the view goes where all items together tell.
pub proof fn law_first_items_decide(strip: Seq<StripItem>, id: MappedId, working_width: Coord)
    requires
        left_to_right(strip),
        forall|i: int, j: int|
            0 <= i < strip.len() && 0 <= j < strip.len() && (#[trigger] strip[i]).id == (
            #[trigger] strip[j]).id ==> i == j,
    ensures
        planned_view(strip, Some(id), working_width) == plan_from(
            strip,
            id,
            working_width,
            strip.len(),
        ),
{
    let n = deciding_from(strip, id, working_width, 0);
    lemma_deciding(strip, id, working_width, 0);
    if n < strip.len() {
        assert(strip.take(n as int).last() == strip[n - 1]);
        assert(strip.take(strip.len() as int) =~= strip);
        assert(strip[n - 1].right.spec_le(strip[strip.len() - 1].right));
        lemma_item_of(strip, id, n, strip.len());
    }
}

proof fn lemma_deciding(strip: Seq<StripItem>, id: MappedId, working_width: Coord, n: nat)
    requires
        n <= strip.len(),
    ensures
        ({
            let m = deciding_from(strip, id, working_width, n);
            n <= m <= strip.len() && (m == strip.len() || overflows(strip, id, working_width, m))
        }),
    decreases strip.len() - n,
{
    if n < strip.len() && !overflows(strip, id, working_width, n) {
        lemma_deciding(strip, id, working_width, n + 1);
    }
}

proof fn lemma_item_of(strip: Seq<StripItem>, id: MappedId, n: nat, m: nat)
    requires
        n <= m <= strip.len(),
        item_of(strip, id, n) is Some,
        forall|i: int, j: int|
            0 <= i < strip.len() && 0 <= j < strip.len() && (#[trigger] strip[i]).id == (
            #[trigger] strip[j]).id ==> i == j,
    ensures
        item_of(strip, id, m) == item_of(strip, id, n),
        0 <= item_of(strip, id, n)->0 < n,
        strip[item_of(strip, id, n)->0].id == id,
    decreases m,
{
    if n < m {
        lemma_item_of(strip, id, n, (m - 1) as nat);
    } else if n > 0 && strip[n - 1].id != id {
        lemma_item_of(strip, id, (n - 1) as nat, (n - 1) as nat);
    }
}

/// On a strip that runs from left to right, what is in view is what overlaps the view.
pub proof fn law_in_view_overlaps(
    strip: Seq<StripItem>,
    leftmost: Coord,
    rightmost: Coord,
    start: int,
    end: int,
    i: int,
)
    requires
        left_to_right(strip),
        is_in_view(strip, leftmost, rightmost, start, end),
        0 <= i < strip.len(),
    ensures
        start <= i < end <==> !strip[i].right.spec_le(leftmost) && !rightmost.spec_le(
            strip[i].left,
        ),
{
    if i >= start {
        assert(strip[start].right.spec_le(strip[i].right));
        if i >= end {
            assert(strip[end].left.spec_le(strip[i].left));
        }
    }
}

/// The thumbnails that are in view are those of which some lies between the edges of the view,
/// which are numbers: exactly these have a closing counterpart.
pub proof fn law_visible_is_in_view(
    strip: Seq<StripItem>,
    leftmost: Coord,
    rightmost: Coord,
    start: int,
    end: int,
    i: int,
)
    requires
        left_to_right(strip),
        leftmost.key is Some,
        rightmost.key is Some,
        is_in_view(strip, leftmost, rightmost, start, end),
        0 <= i < strip.len(),
    ensures
        strip[i].is_between(leftmost, rightmost) <==> start <= i < end,
{
    law_in_view_overlaps(strip, leftmost, rightmost, start, end, i);
    assert(strip[i].right.spec_le(strip[i].right) && strip[i].left.spec_le(strip[i].left));
}

/// Whether a change of the view offset is large enough to be animated: by more than a pixel.
pub fn is_visible_change(distance: Coord, pixel: Coord) -> (visible: bool)
    ensures
        visible == pixel.spec_lt(distance),
{
    pixel.lt(distance)
}

/// The view never moves further than it must. In exact numbers: it stays where the thumbnail lies
/// within the working area. Otherwise it moves as far as the left edges are apart, or the right
/// ones, whichever is less, and the left edges meet where both are equally far.
pub proof fn law_least_motion(
    edges: ViewEdges,
    area: int,
    area_width: int,
    x: int,
    width: int,
)
    requires
        area_width >= 0,
        width >= 0,
        edges.stand_for(area, area_width, x, width),
    ensures
        ({
            let after = x + edges.alignment().offset(area, area_width, x, width);
            let motion = if after >= area { after - area } else { area - after };
            let to_left = if x >= area { x - area } else { area - x };
            let to_right = if x + width >= area + area_width {
                x + width - (area + area_width)
            } else {
                area + area_width - (x + width)
            };
            &&& area <= x && x + width <= area + area_width ==> after == area
            &&& !(area <= x && x + width <= area + area_width) ==> {
                &&& motion <= to_left
                &&& motion <= to_right
                &&& after == x || after + area_width == x + width
                &&& to_left == to_right ==> after == x
            }
        }),
{
}

/// The alignment as the edges compare: the thumbnail is kept where it lies within the working area,
/// goes to the left where that is no farther, and to the right otherwise. A distance that is not a
/// number is no reason to go left.
pub proof fn law_alignment_decided(edges: ViewEdges)
    ensures
        edges.alignment() == ViewAlignment::Keep <==> edges.area_left.spec_le(edges.left)
            && edges.right.spec_le(edges.area_right),
        edges.alignment() == ViewAlignment::Left ==> edges.to_left.spec_le(edges.to_right),
        edges.alignment() == ViewAlignment::Right ==> !edges.to_left.spec_le(edges.to_right),
        edges.fully_visible() <==> edges.alignment() == ViewAlignment::Keep,
{
}

/// A finished animation of the view offset leaves it where the animation led to. One that is not
/// finished goes on, and a static offset stays.
pub proof fn law_view_offset_advanced(
    animation: AnimationId,
    offset: Coord,
    finished: Seq<AnimationId>,
    to: Coord,
)
    ensures
        finished.contains(animation) ==> ViewOffset::Animation(animation).advanced(finished, to)
            == ViewOffset::Static(to),
        !finished.contains(animation) ==> ViewOffset::Animation(animation).advanced(finished, to)
            == ViewOffset::Animation(animation),
        ViewOffset::Static(offset).advanced(finished, to) == ViewOffset::Static(offset),
{
}

/// A change by more than a pixel is animated by the new animation, whatever was under way. A smaller
/// one moves a static offset at once, and the animation that is under way otherwise.
pub proof fn law_view_followed(
    view_offset: ViewOffset,
    distance: Coord,
    pixel: Coord,
    animation: AnimationId,
    shifted: Coord,
    under_way: AnimationId,
)
    ensures
        ({
            let (after, to_shift) = view_offset.followed(distance, pixel, animation, shifted);
            &&& pixel.spec_lt(distance) ==> after == ViewOffset::Animation(animation) && to_shift
                == Some(animation)
            &&& !pixel.spec_lt(distance) && view_offset is Static ==> after == ViewOffset::Static(
                shifted,
            ) && to_shift is None
            &&& !pixel.spec_lt(distance) && view_offset == ViewOffset::Animation(under_way)
                ==> after == view_offset && to_shift == Some(under_way)
        }),
{
}

/// What is in view begins with the first item that does not end at or before the left edge of the
/// view, and ends before the first one from there that starts at or after the right edge.
pub proof fn law_items_in_view(strip: Seq<StripItem>, leftmost: Coord, rightmost: Coord)
    ensures
        ({
            let (start, end) = items_in_view(strip, leftmost, rightmost);
            &&& 0 <= start <= end <= strip.len()
            &&& forall|i: int| 0 <= i < start ==> (#[trigger] strip[i]).right.spec_le(leftmost)
            &&& start < strip.len() ==> !strip[start].right.spec_le(leftmost)
            &&& forall|i: int|
                start <= i < end ==> !rightmost.spec_le((#[trigger] strip[i]).left)
            &&& end < strip.len() ==> rightmost.spec_le(strip[end].left)
        }),
{
    lemma_view_start(strip, leftmost, 0);
    lemma_view_end(strip, rightmost, view_start(strip, leftmost, 0));
}

proof fn lemma_view_start(strip: Seq<StripItem>, leftmost: Coord, i: int)
    requires
        0 <= i <= strip.len(),
    ensures
        ({
            let start = view_start(strip, leftmost, i);
            &&& i <= start <= strip.len()
            &&& forall|j: int| i <= j < start ==> (#[trigger] strip[j]).right.spec_le(leftmost)
            &&& start < strip.len() ==> !strip[start].right.spec_le(leftmost)
        }),
    decreases strip.len() - i,
{
    if i < strip.len() && strip[i].right.spec_le(leftmost) {
        lemma_view_start(strip, leftmost, i + 1);
    }
}

proof fn lemma_view_end(strip: Seq<StripItem>, rightmost: Coord, i: int)
    requires
        0 <= i <= strip.len(),
    ensures
        ({
            let end = view_end(strip, rightmost, i);
            &&& i <= end <= strip.len()
            &&& forall|j: int| i <= j < end ==> !rightmost.spec_le((#[trigger] strip[j]).left)
            &&& end < strip.len() ==> rightmost.spec_le(strip[end].left)
        }),
    decreases strip.len() - i,
{
    if i < strip.len() && !rightmost.spec_le(strip[i].left) {
        lemma_view_end(strip, rightmost, i + 1);
    }
}

/// A thumbnail is between two places if it ends after the first and starts before the second.
pub proof fn law_between(item: StripItem, leftmost: Coord, rightmost: Coord)
    ensures
        !leftmost.spec_lt(item.right) ==> !item.is_between(leftmost, rightmost),
        !item.left.spec_lt(rightmost) ==> !item.is_between(leftmost, rightmost),
        leftmost.spec_lt(item.right) && item.left.spec_lt(rightmost) ==> item.is_between(
            leftmost,
            rightmost,
        ),
{
}

/// On a strip that runs from left to right, and on which each window stands once, the view is
/// centered if and only if the strip ends within the working width, and otherwise takes in the
/// thumbnail of the selected window.
pub proof fn law_view_planned(
    strip: Seq<StripItem>,
    id: MappedId,
    working_width: Coord,
    i: int,
)
    requires
        left_to_right(strip),
        strip.len() <= usize::MAX,
        forall|i: int, j: int|
            0 <= i < strip.len() && 0 <= j < strip.len() && (#[trigger] strip[i]).id == (
            #[trigger] strip[j]).id ==> i == j,
        0 <= i < strip.len(),
    ensures
        strip[strip.len() - 1].right.spec_le(working_width) ==> planned_view(
            strip,
            Some(id),
            working_width,
        ) == (ViewPlan::Center { end: Some((strip.len() - 1) as usize) }),
        !strip[strip.len() - 1].right.spec_le(working_width) && strip[i].id == id ==> planned_view(
            strip,
            Some(id),
            working_width,
        ) == (ViewPlan::TakeIn { item: Some(i as usize) }),
        !strip[strip.len() - 1].right.spec_le(working_width) && (forall|j: int|
            0 <= j < strip.len() ==> (#[trigger] strip[j]).id != id) ==> planned_view(
            strip,
            Some(id),
            working_width,
        ) == (ViewPlan::TakeIn { item: None }),
{
    law_first_items_decide(strip, id, working_width);
    assert(strip.take(strip.len() as int) =~= strip);
    lemma_last_item_of(strip, id, strip.len());
}

/// Without a selected window the view goes to the start.
pub proof fn law_no_selection_planned(strip: Seq<StripItem>, working_width: Coord)
    ensures
        planned_view(strip, None, working_width) == ViewPlan::Start,
{
}

/// Without thumbnails the view is centered on nothing, if the working width is a number that is not
/// negative.
pub proof fn law_empty_strip_planned(id: MappedId, working_width: Coord)
    ensures
        ({
            let plan = planned_view(Seq::<StripItem>::empty(), Some(id), working_width);
            &&& Coord::spec_zero().spec_le(working_width) ==> plan == ViewPlan::Center { end: None }
            &&& !Coord::spec_zero().spec_le(working_width) ==> plan == ViewPlan::TakeIn {
                item: None,
            }
        }),
{
    assert(Seq::<StripItem>::empty().take(0) =~= Seq::<StripItem>::empty());
}

/// On any strip the items are looked at one by one, until the selected window's has been found, with
/// a width, and the strip goes beyond the working width, or there are no more. Those that were
/// looked at decide: the last of them whether the strip fits, and the last of the selected window
/// what is taken in.
pub proof fn law_view_planned_by_first_items(
    strip: Seq<StripItem>,
    id: MappedId,
    working_width: Coord,
)
    requires
        0 < strip.len() <= usize::MAX,
    ensures
        exists|n: int|
            0 < n <= strip.len() && #[trigger] looks_at(strip, id, working_width, n) && {
                let plan = planned_view(strip, Some(id), working_width);
                &&& strip[n - 1].right.spec_le(working_width) ==> plan == ViewPlan::Center {
                    end: Some((n - 1) as usize),
                }
                &&& !strip[n - 1].right.spec_le(working_width) ==> {
                    &&& forall|i: int|
                        is_last_of(strip, id, n, i) ==> plan == (ViewPlan::TakeIn {
                            item: Some(i as usize),
                        })
                    &&& (forall|i: int| 0 <= i < n ==> (#[trigger] strip[i]).id != id) ==> plan
                        == ViewPlan::TakeIn { item: None }
                }
            },
{
    let n = deciding_from(strip, id, working_width, 0);
    lemma_deciding(strip, id, working_width, 0);
    lemma_none_decides_before(strip, id, working_width, 0);
    assert(!overflows(strip, id, working_width, 0));
    assert(n > 0);
    assert(strip.take(n as int).last() == strip[n - 1]);
    lemma_last_item_of(strip, id, n);
    assert forall|m: int| 0 < m < n implies !#[trigger] is_beyond(
        strip,
        id,
        working_width,
        m,
    ) by {
        lemma_last_item_of(strip, id, m as nat);
        assert(!overflows(strip, id, working_width, m as nat));
    }
    assert(looks_at(strip, id, working_width, n as int));
    assert forall|i: int| is_last_of(strip, id, n as int, i) implies planned_view(
        strip,
        Some(id),
        working_width,
    ) == (ViewPlan::TakeIn { item: Some(i as usize) }) || strip[n - 1].right.spec_le(
        working_width,
    ) by {}
}

/// The item at `i` is the last of the first `n` that belongs to the given window.
pub open spec fn is_last_of(strip: Seq<StripItem>, id: MappedId, n: int, i: int) -> bool {
    &&& 0 <= i < n
    &&& strip[i].id == id
    &&& forall|j: int| i < j < n ==> (#[trigger] strip[j]).id != id
}

/// The first `n` items have one of the given window, with a width, and go beyond the working width.
pub open spec fn is_beyond(
    strip: Seq<StripItem>,
    id: MappedId,
    working_width: Coord,
    n: int,
) -> bool {
    &&& working_width.spec_lt(strip[n - 1].right)
    &&& exists|i: int|
        #[trigger] is_last_of(strip, id, n, i) && !strip[i].width.spec_same(
            Coord { key: Some(0) },
        )
}

/// The first `n` items are looked at: no fewer are enough, and these are or there are no more.
pub open spec fn looks_at(
    strip: Seq<StripItem>,
    id: MappedId,
    working_width: Coord,
    n: int,
) -> bool {
    &&& n == strip.len() || is_beyond(strip, id, working_width, n)
    &&& forall|m: int| 0 < m < n ==> !#[trigger] is_beyond(strip, id, working_width, m)
}

proof fn lemma_last_item_of(strip: Seq<StripItem>, id: MappedId, n: nat)
    requires
        n <= strip.len(),
    ensures
        match item_of(strip, id, n) {
            Some(i) => is_last_of(strip, id, n as int, i),
            None => forall|i: int| 0 <= i < n ==> (#[trigger] strip[i]).id != id,
        },
        forall|i: int| is_last_of(strip, id, n as int, i) ==> item_of(strip, id, n) == Some(i),
    decreases n,
{
    if n > 0 {
        lemma_last_item_of(strip, id, (n - 1) as nat);
        if strip[n - 1].id != id {
            assert forall|i: int| is_last_of(strip, id, n as int, i) implies item_of(strip, id, n)
                == Some(i) by {
                assert(is_last_of(strip, id, n - 1, i));
            }
        }
    }
}

proof fn lemma_none_decides_before(
    strip: Seq<StripItem>,
    id: MappedId,
    working_width: Coord,
    n: nat,
)
    requires
        n <= strip.len(),
    ensures
        forall|m: nat|
            n <= m < deciding_from(strip, id, working_width, n) ==> !#[trigger] overflows(
                strip,
                id,
                working_width,
                m,
            ),
    decreases strip.len() - n,
{
    if n < strip.len() && !overflows(strip, id, working_width, n) {
        lemma_none_decides_before(strip, id, working_width, n + 1);
    }
}

} // verus!
