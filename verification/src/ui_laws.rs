//! What holds of the switcher in every state.

use vstd::prelude::*;

use crate::coord::Coord;
use crate::ids::{AnimationId, MappedId, OutputId, TextureId};
use crate::mru_laws::law_same_scope_changes_nothing;
use crate::mru_model::{has_id, index_of_id, MruModel};
use crate::scope::{MruDirection, MruFilter, MruScope};
use crate::thumbnail::{still_running, ThumbnailModel};
use crate::ui::{Inner, WindowMruUiState};
use crate::ui_model::{
    closing_elements, first_item_of, first_under, still_closing, ClosingThumbnail, FocusRingUpdate,
    InnerModel, MruCloseRequest, Progress, RenderElement, UiModel,
};
use crate::view::{
    items_in_view, law_in_view_overlaps, law_items_in_view, left_to_right, StripItem, ViewOffset,
};

verus! {

/// A closed switcher selects nothing, answers nothing and stays closed, whatever it is asked but to
/// open.
pub proof fn law_closed_is_inert(
    ui: UiModel,
    wmru: MruModel,
    id: MappedId,
    request: MruCloseRequest,
    animation: AnimationId,
)
    requires
        ui is Closed,
    ensures
        ui.walk(wmru) == ui,
        ui.remove_window(id, animation) == ui,
        ui.close(animation) == ui,
        ui.respond(request) is None,
        ui.current_window_id() is None,
{
}

/// Stepping left and right does not change the mode: without a scope and a filter, advancing is a
/// step in the scope and with the filter that are set.
pub proof fn law_step_keeps_mode(wmru: MruModel, dir: MruDirection)
    requires
        wmru.wf(),
    ensures
        wmru.advance(Some(dir), None, None) == wmru.step(dir),
        wmru.step(dir).scope == wmru.scope,
        wmru.step(dir).app_id_filter == wmru.app_id_filter,
        wmru.step(dir).visible_ids() == wmru.visible_ids(),
{
    law_same_scope_changes_nothing(wmru);
    assert(wmru.step(dir).visible_ids() =~= wmru.visible_ids());
}

/// The walk that the switcher opens with takes one step from where the given one stands, and is
/// otherwise the same: the same windows in the same scope.
pub proof fn law_opens_with_a_step(wmru: MruModel, animation: AnimationId, dir: MruDirection)
    requires
        wmru.wf(),
    ensures
        wmru.opening(animation).advance(Some(dir), None, None) == wmru.opening(animation).step(dir),
        wmru.opening(animation).visible_ids() == wmru.visible_ids(),
        wmru.opening(animation).step(dir).visible_ids() == wmru.visible_ids(),
        wmru.opening(animation).step(dir).current_id == wmru.step(dir).current_id,
{
    let opening = wmru.opening(animation);
    wmru.lemma_same_windows(opening.thumbnails);
    assert(opening =~= MruModel { thumbnails: opening.thumbnails, ..wmru });
    law_same_scope_changes_nothing(opening);
    assert(opening.step(dir).visible_ids() =~= opening.visible_ids());
}

/// Opening the switcher forward on a walk that stands at its first window selects the second one,
/// which had the focus before; opening it backward selects the last one.
pub proof fn law_opens_on_previous_window(wmru: MruModel, animation: AnimationId)
    requires
        wmru.wf(),
        wmru.current_id == wmru.first_id(),
        wmru.visible_ids().len() >= 2,
    ensures
        wmru.opening(animation).advance(
            Some(MruDirection::Forward),
            None,
            None,
        ).current_id == Some(wmru.visible_ids()[1]),
        wmru.opening(animation).advance(
            Some(MruDirection::Backward),
            None,
            None,
        ).current_id == Some(wmru.visible_ids().last()),
{
    law_opens_with_a_step(wmru, animation, MruDirection::Forward);
    law_opens_with_a_step(wmru, animation, MruDirection::Backward);
    wmru.lemma_visible();
    assert(wmru.visible_ids().index_of(wmru.visible_ids()[0]) == 0);
}

/// A change of the scope takes the place of a step: the direction makes no difference.
pub proof fn law_scope_change_takes_no_step(
    wmru: MruModel,
    dir: Option<MruDirection>,
    scope: MruScope,
    filter: Option<MruFilter>,
)
    requires
        scope != wmru.scope,
    ensures
        wmru.advance(dir, Some(scope), filter) == wmru.set_scope_and_filter(scope, filter),
{
}

/// Every way to advance keeps the walk well-formed.
pub proof fn law_advance_keeps_wf(
    wmru: MruModel,
    dir: Option<MruDirection>,
    scope: Option<MruScope>,
    filter: Option<MruFilter>,
)
    requires
        wmru.wf(),
    ensures
        wmru.advance(dir, scope, filter).wf(),
{
    let new_scope = match scope {
        Some(scope) => scope,
        None => wmru.scope,
    };
    wmru.lemma_set_scope_and_filter_wf(new_scope, filter);
    wmru.set_scope_and_filter(new_scope, filter).lemma_forward_wf();
    wmru.set_scope_and_filter(new_scope, filter).lemma_backward_wf();
}

/// Closing keeps the scope in mind.
pub proof fn law_scope_remembered(ui: UiModel, animation: AnimationId)
    ensures
        ui.close(animation).scope() == ui.scope(),
        ui.close(animation) is Closed,
{
}

/// A cancelled switcher leaves the focus alone; an accepted one gives it to the selected window,
/// which is a shown one.
pub proof fn law_close_response(ui: UiModel)
    requires
        ui.wf(),
    ensures
        ui.respond(MruCloseRequest::Cancelled) is None,
        ui.respond(MruCloseRequest::Current) == ui.current_window_id(),
        ui is Open && ui.wmru().visible_ids().len() > 0 ==> (ui.respond(
            MruCloseRequest::Current,
        ) matches Some(id) && ui.wmru().visible_ids().contains(id)),
{
}

/// A removed window is gone. The switcher closes when it was the only window, and keeps open with
/// the other windows when it was not.
pub proof fn law_closes_when_emptied(ui: UiModel, id: MappedId, animation: AnimationId)
    requires
        ui is Open,
        ui.wf(),
        has_id(ui.wmru().thumbnails, id),
    ensures
        ui.wmru().thumbnails.len() == 1 ==> ui.remove_window(id, animation) == ui.walk(
            ui.wmru().remove(id),
        ).close(animation),
        ui.wmru().thumbnails.len() > 1 ==> ui.remove_window(id, animation) == ui.walk(
            ui.wmru().remove(id),
        ) && ui.remove_window(id, animation) is Open,
{
    let idx = index_of_id(ui.wmru().thumbnails, id);
    assert(ui.wmru().remove(id).thumbnails.len() == ui.wmru().thumbnails.len() - 1);
}

/// Taking a window out closes an open switcher if and only if it is the only window.
pub proof fn law_closes_without(ui: UiModel, id: MappedId, animation: AnimationId)
    requires
        ui is Open,
        ui.wf(),
    ensures
        ui.remove_window(id, animation) is Closed <==> ui.closes_without(id),
{
    if has_id(ui.wmru().thumbnails, id) {
        law_closes_when_emptied(ui, id, animation);
    }
}

/// Where no thumbnails appear on an output, the strip makes no difference to what does.
pub proof fn law_strip_not_needed(
    ui: UiModel,
    output: OutputId,
    finished: Seq<AnimationId>,
    strip: Seq<StripItem>,
    leftmost: Coord,
    rightmost: Coord,
    other: Seq<StripItem>,
    other_leftmost: Coord,
    other_rightmost: Coord,
)
    requires
        !ui.draws_thumbnails(output, finished),
    ensures
        ui.elements(output, finished, strip, leftmost, rightmost) == ui.elements(
            output,
            finished,
            other,
            other_leftmost,
            other_rightmost,
        ),
{
}

/// Animations do not decide which windows are shown, nor which one is selected.
pub proof fn law_animations_keep_walk(ui: UiModel, finished: Seq<AnimationId>, view_to: Coord)
    requires
        ui is Open,
        ui.wf(),
    ensures
        ui.advanced(finished, view_to) is Open,
        ui.advanced(finished, view_to).wf(),
        ui.advanced(finished, view_to).wmru().visible_ids() == ui.wmru().visible_ids(),
        ui.advanced(finished, view_to).wmru().current_id == ui.wmru().current_id,
{
    let after = ui.advanced(finished, view_to).wmru();
    ui.wmru().lemma_same_windows(after.thumbnails);
    assert(after =~= MruModel { thumbnails: after.thumbnails, ..ui.wmru() });
}

/// All animations of the switcher are among the `finished` ones.
pub open spec fn all_finished(ui: UiModel, finished: Seq<AnimationId>) -> bool {
    match ui {
        UiModel::Open(inner) => {
            &&& finished.contains(inner.open_animation)
            &&& forall|i: int|
                0 <= i < inner.wmru.thumbnails.len() ==> {
                    &&& (#[trigger] inner.wmru.thumbnails[i]).open_animation matches Some(anim)
                        ==> finished.contains(anim)
                    &&& inner.wmru.thumbnails[i].move_animation matches Some(motion)
                        ==> finished.contains(motion.anim)
                }
            &&& inner.view_offset matches ViewOffset::Animation(anim) ==> finished.contains(anim)
            &&& forall|i: int|
                0 <= i < inner.closing_thumbnails.len() ==> finished.contains(
                    (#[trigger] inner.closing_thumbnails[i]).anim,
                )
        },
        UiModel::Closed { close_animation, closing_thumbnails, .. } => {
            &&& close_animation matches Some(anim) ==> finished.contains(anim)
            &&& forall|i: int|
                0 <= i < closing_thumbnails.len() ==> finished.contains(
                    (#[trigger] closing_thumbnails[i]).anim,
                )
        },
    }
}

/// Once all animations are finished the switcher comes to rest.
pub proof fn law_comes_to_rest(ui: UiModel, finished: Seq<AnimationId>, view_to: Coord)
    requires
        all_finished(ui, finished),
    ensures
        !ui.advanced(finished, view_to).is_animated(finished),
{
    match ui {
        UiModel::Open(inner) => {
            lemma_none_closing(inner.closing_thumbnails, finished);
            let after = inner.advanced(finished, view_to);
            assert forall|i: int| 0 <= i < after.wmru.thumbnails.len() implies !(
            #[trigger] after.wmru.thumbnails[i]).is_animated() by {
                assert(after.wmru.thumbnails[i] == inner.wmru.thumbnails[i].advanced(finished));
            }
        },
        UiModel::Closed { closing_thumbnails, .. } => {
            lemma_none_closing(closing_thumbnails, finished);
        },
    }
}

proof fn lemma_none_closing(closing: Seq<ClosingThumbnail>, finished: Seq<AnimationId>)
    requires
        forall|i: int|
            0 <= i < closing.len() ==> finished.contains((#[trigger] closing[i]).anim),
    ensures
        still_closing(closing, finished).len() == 0,
    decreases closing.len(),
{
    reveal(Seq::filter);
    if closing.len() > 0 {
        lemma_none_closing(closing.drop_last(), finished);
    }
}

/// Outputs other than the one that the switcher was opened on show at most the background.
pub proof fn law_thumbnails_on_one_output(
    inner: InnerModel,
    output: OutputId,
    finished: Seq<AnimationId>,
    strip: Seq<StripItem>,
    leftmost: Coord,
    rightmost: Coord,
)
    requires
        output != inner.output,
    ensures
        UiModel::Open(inner).elements(output, finished, strip, leftmost, rightmost)
            == if finished.contains(inner.open_delay) {
            seq![RenderElement::Background(Progress::Full)]
        } else {
            Seq::empty()
        },
{
    assert(Seq::<RenderElement>::empty().push(RenderElement::Background(Progress::Full))
        =~= seq![RenderElement::Background(Progress::Full)]);
}

/// The focus ring is around the thumbnail of the selected window, and around no other.
pub proof fn law_focus_ring_on_selection(
    inner: InnerModel,
    strip: Seq<StripItem>,
    leftmost: Coord,
    rightmost: Coord,
    k: int,
)
    requires
        0 <= k < inner.elements(strip, leftmost, rightmost).len(),
    ensures
        inner.elements(strip, leftmost, rightmost)[k] matches RenderElement::Thumbnail {
            id,
            focus_ring,
            ..
        } ==> focus_ring == (inner.wmru.current_id == Some(id)),
{
}

/// The thumbnail under the pointer is the first one in view that is: where the item at `i` is in
/// view and under the pointer, and no earlier one in view is, its window is found. None is found
/// only where no item in view is under the pointer.
pub proof fn law_first_under_pointer(
    inner: InnerModel,
    strip: Seq<StripItem>,
    leftmost: Coord,
    rightmost: Coord,
    under: Seq<bool>,
    i: int,
)
    requires
        under.len() == strip.len(),
    ensures
        ({
            let (start, end) = items_in_view(strip, leftmost, rightmost);
            let found = inner.thumbnail_under(strip, leftmost, rightmost, under);
            &&& start <= i < end && under[i] && (forall|j: int|
                start <= j < i ==> !#[trigger] under[j]) ==> found == Some(strip[i].id)
            &&& found is None <==> forall|j: int| start <= j < end ==> !#[trigger] under[j]
        }),
{
    let (start, end) = items_in_view(strip, leftmost, rightmost);
    law_items_in_view(strip, leftmost, rightmost);
    lemma_first_under(under, start, end);
}

proof fn lemma_first_under(under: Seq<bool>, start: int, end: int)
    ensures
        match first_under(under, start, end) {
            Some(i) => {
                &&& start <= i < end
                &&& under[i]
                &&& forall|j: int| start <= j < i ==> !#[trigger] under[j]
            },
            None => forall|j: int| start <= j < end ==> !#[trigger] under[j],
        },
    decreases end - start,
{
    if start < end && !under[start] {
        lemma_first_under(under, start + 1, end);
    }
}

/// Where the pointer is on a thumbnail that overlaps the view, some thumbnail is found, and it is
/// under the pointer.
pub proof fn law_pointer_hits(
    inner: InnerModel,
    strip: Seq<StripItem>,
    leftmost: Coord,
    rightmost: Coord,
    under: Seq<bool>,
    i: int,
)
    requires
        under.len() == strip.len(),
        left_to_right(strip),
        0 <= i < strip.len(),
        under[i],
        !strip[i].right.spec_le(leftmost),
        !rightmost.spec_le(strip[i].left),
    ensures
        exists|j: int|
            0 <= j <= i && #[trigger] under[j] && inner.thumbnail_under(
                strip,
                leftmost,
                rightmost,
                under,
            ) == Some(strip[j].id),
{
    let (start, end) = items_in_view(strip, leftmost, rightmost);
    law_items_in_view(strip, leftmost, rightmost);
    law_in_view_overlaps(strip, leftmost, rightmost, start, end, i);
    lemma_first_under(under, start, end);
    let j = first_under(under, start, end)->0;
    assert(under[j]);
}

/// The focus ring goes around the first item of the selected window, at `i`, and fades in with its
/// thumbnail, which stands at place `k` of the walk. It is missing if and only if the selected window
/// has no item, and stays as it is where no window is selected.
pub proof fn law_focus_ring_placed(
    inner: InnerModel,
    strip: Seq<StripItem>,
    id: MappedId,
    i: int,
    k: int,
)
    requires
        inner.wmru.wf(),
        strip.len() <= usize::MAX,
    ensures
        inner.wmru.current_id is None ==> inner.focus_ring(strip) == FocusRingUpdate::Unchanged,
        inner.wmru.current_id == Some(id) && 0 <= i < strip.len() && strip[i].id == id && (forall|
            j: int,
        |
            0 <= j < i ==> (#[trigger] strip[j]).id != id) && 0 <= k < inner.wmru.thumbnails.len()
            && inner.wmru.thumbnails[k].id == id ==> inner.focus_ring(strip)
            == (FocusRingUpdate::Around {
            item: i as usize,
            fade: inner.wmru.thumbnails[k].open_animation,
        }),
        inner.wmru.current_id == Some(id) ==> (inner.focus_ring(strip) == FocusRingUpdate::Missing
            <==> forall|j: int| 0 <= j < strip.len() ==> (#[trigger] strip[j]).id != id),
{
    lemma_first_item_of(strip, id, 0);
    inner.wmru.lemma_visible();
}

proof fn lemma_first_item_of(strip: Seq<StripItem>, id: MappedId, start: int)
    requires
        0 <= start,
    ensures
        match first_item_of(strip, id, start) {
            Some(i) => {
                &&& start <= i < strip.len()
                &&& strip[i].id == id
                &&& forall|j: int| start <= j < i ==> (#[trigger] strip[j]).id != id
            },
            None => forall|j: int| start <= j < strip.len() ==> (#[trigger] strip[j]).id != id,
        },
    decreases strip.len() - start,
{
    if start < strip.len() && strip[start].id != id {
        lemma_first_item_of(strip, id, start + 1);
    }
}

/// A closing thumbnail is kept, in its place, until its own animation is finished.
pub proof fn law_closing_kept(
    closing: Seq<ClosingThumbnail>,
    last: ClosingThumbnail,
    finished: Seq<AnimationId>,
)
    ensures
        still_closing(Seq::empty(), finished).len() == 0,
        finished.contains(last.anim) ==> still_closing(closing.push(last), finished)
            == still_closing(closing, finished),
        !finished.contains(last.anim) ==> still_closing(closing.push(last), finished)
            == still_closing(closing, finished).push(last),
{
    reveal(Seq::filter);
    assert(closing.push(last).drop_last() =~= closing);
}

/// The last of the closing thumbnails is on top, and each appears once.
pub proof fn law_closing_stacked(closing: Seq<ClosingThumbnail>, i: int)
    requires
        0 <= i < closing.len(),
    ensures
        closing_elements(closing).len() == closing.len(),
        closing_elements(closing)[closing.len() - 1 - i] == RenderElement::Closing(closing[i]),
{
}

/// The panels are taken if and only if there are none yet and each could be rendered, in the order
/// in which they come, and nothing else changes.
pub proof fn law_panels_taken(inner: InnerModel, textures: Seq<Option<TextureId>>, i: int)
    ensures
        ({
            let after = inner.with_scope_panels(textures);
            &&& after == InnerModel { scope_panel: after.scope_panel, ..inner }
            &&& inner.scope_panel is Some ==> after.scope_panel == inner.scope_panel
            &&& inner.scope_panel is None && 0 <= i < textures.len() && textures[i] is None
                ==> after.scope_panel is None
            &&& inner.scope_panel is None && (forall|j: int|
                0 <= j < textures.len() ==> #[trigger] textures[j] is Some) ==> {
                &&& after.scope_panel matches Some(panels) && {
                    &&& panels.len() == textures.len()
                    &&& 0 <= i < textures.len() ==> textures[i] == Some(panels[i])
                }
            }
        }),
{
}

/// The panel that is shown is the first for all windows, the second for the active output and the
/// third for the active workspace, as far as there are panels.
pub proof fn law_panel_of_scope(inner: InnerModel, panels: Seq<TextureId>, i: int)
    requires
        i == match inner.wmru.scope {
            MruScope::All => 0int,
            MruScope::Output => 1,
            MruScope::Workspace => 2,
        },
    ensures
        inner.scope_panel is None ==> inner.scope_texture() is None,
        inner.scope_panel == Some(panels) && i < panels.len() ==> inner.scope_texture() == Some(
            panels[i],
        ),
        inner.scope_panel == Some(panels) && i >= panels.len() ==> inner.scope_texture() is None,
{
}

/// The open switcher is the panel, then the closing thumbnails, then all thumbnails in view from
/// left to right, the selected one with the focus ring. Without a selected window there are no
/// thumbnails.
pub proof fn law_elements_in_order(
    inner: InnerModel,
    strip: Seq<StripItem>,
    leftmost: Coord,
    rightmost: Coord,
    k: int,
)
    requires
        strip.len() <= usize::MAX,
    ensures
        ({
            let elements = inner.elements(strip, leftmost, rightmost);
            let (start, end) = items_in_view(strip, leftmost, rightmost);
            let panels: int = if inner.scope_texture() is Some { 1 } else { 0 };
            let closing = inner.closing_thumbnails;
            let front = panels + closing.len();
            &&& inner.wmru.current_id is Some ==> elements.len() == front + (end - start)
            &&& inner.wmru.current_id is None ==> elements.len() == front
            &&& inner.scope_texture() matches Some(texture) ==> elements[0]
                == RenderElement::ScopePanel(texture)
            &&& 0 <= k < closing.len() ==> elements[panels + k] == RenderElement::Closing(
                closing[closing.len() - 1 - k],
            )
            &&& start <= k < end ==> (inner.wmru.current_id matches Some(id) ==> elements[front + (k
                - start)] == (RenderElement::Thumbnail {
                id: strip[k].id,
                item: k as usize,
                focus_ring: strip[k].id == id,
            }))
        }),
{
    law_items_in_view(strip, leftmost, rightmost);
}

/// The open switcher is in motion if and only if it is opening, one of its thumbnails or the view
/// is in motion, or a thumbnail is closing.
pub proof fn law_open_in_motion(inner: InnerModel, finished: Seq<AnimationId>, i: int)
    ensures
        !finished.contains(inner.open_animation) ==> inner.is_animated(finished),
        0 <= i < inner.wmru.thumbnails.len() && inner.wmru.thumbnails[i].is_animated()
            ==> inner.is_animated(finished),
        inner.view_offset is Animation ==> inner.is_animated(finished),
        inner.closing_thumbnails.len() > 0 ==> inner.is_animated(finished),
        finished.contains(inner.open_animation) && inner.view_offset is Static
            && inner.closing_thumbnails.len() == 0 && (forall|j: int|
            0 <= j < inner.wmru.thumbnails.len() ==> !(
            #[trigger] inner.wmru.thumbnails[j]).is_animated()) ==> !inner.is_animated(finished),
        UiModel::Open(inner).is_animated(finished) <==> inner.is_animated(finished),
{
}

/// A closed switcher is in motion if and only if it fades out, or a thumbnail is closing whose
/// animation is not finished.
pub proof fn law_closed_in_motion(
    close_animation: Option<AnimationId>,
    closing_thumbnails: Seq<ClosingThumbnail>,
    output: Option<OutputId>,
    previous_scope: MruScope,
    finished: Seq<AnimationId>,
    i: int,
)
    ensures
        ({
            let ui = UiModel::Closed { close_animation, closing_thumbnails, output, previous_scope };
            &&& close_animation is Some ==> ui.is_animated(finished)
            &&& 0 <= i < closing_thumbnails.len() && !finished.contains(closing_thumbnails[i].anim)
                ==> ui.is_animated(finished)
            &&& close_animation is None && (forall|j: int|
                0 <= j < closing_thumbnails.len() ==> finished.contains(
                    (#[trigger] closing_thumbnails[j]).anim,
                )) ==> !ui.is_animated(finished)
        }),
{
}

/// Finished animations end each where it is, and change nothing else.
pub proof fn law_animations_end(
    inner: InnerModel,
    close_animation: Option<AnimationId>,
    closing_thumbnails: Seq<ClosingThumbnail>,
    output: Option<OutputId>,
    previous_scope: MruScope,
    finished: Seq<AnimationId>,
    view_to: Coord,
)
    ensures
        UiModel::Open(inner).advanced(finished, view_to) == UiModel::Open(
            inner.advanced(finished, view_to),
        ),
        ({
            let after = inner.advanced(finished, view_to);
            &&& after.view_offset == inner.view_offset.advanced(finished, view_to)
            &&& after.wmru == inner.wmru.advanced(finished)
            &&& after.closing_thumbnails == still_closing(inner.closing_thumbnails, finished)
            &&& after.open_animation == inner.open_animation
            &&& after.open_delay == inner.open_delay
            &&& after.output == inner.output
            &&& after.scope_panel == inner.scope_panel
        }),
        ({
            let ui = UiModel::Closed { close_animation, closing_thumbnails, output, previous_scope };
            ui.advanced(finished, view_to) matches UiModel::Closed {
                close_animation: animation,
                closing_thumbnails: closing,
                output: shown_on,
                previous_scope: scope,
            } && {
                &&& animation == still_running(close_animation, finished)
                &&& closing == still_closing(closing_thumbnails, finished)
                &&& shown_on == output
                &&& scope == previous_scope
            }
        }),
{
}

/// Closing an open switcher starts the closing animation, keeps the closing thumbnails on the output
/// that the switcher was open on, and keeps the scope in mind. The focus goes to the given window,
/// or to the selected one, or stays.
pub proof fn law_closing(inner: InnerModel, animation: AnimationId, id: MappedId)
    ensures
        UiModel::Open(inner).close(animation) matches UiModel::Closed {
            close_animation,
            closing_thumbnails,
            output,
            previous_scope,
        } && {
            &&& close_animation == Some(animation)
            &&& closing_thumbnails == inner.closing_thumbnails
            &&& output == Some(inner.output)
            &&& previous_scope == inner.wmru.scope
        },
        UiModel::Open(inner).respond(MruCloseRequest::Selection(id)) == Some(id),
        UiModel::Open(inner).respond(MruCloseRequest::Current) == inner.wmru.current_id,
        UiModel::Open(inner).respond(MruCloseRequest::Cancelled) is None,
        inner.respond(MruCloseRequest::Selection(id)) == Some(id),
        inner.respond(MruCloseRequest::Current) == inner.wmru.current_id,
        inner.respond(MruCloseRequest::Cancelled) is None,
{
}

/// An open switcher tells the scope and the selected window of its walk, and another walk takes the
/// place of the walk alone. A closed one tells the scope that it has in mind.
pub proof fn law_switcher_tells(
    inner: InnerModel,
    wmru: MruModel,
    close_animation: Option<AnimationId>,
    closing_thumbnails: Seq<ClosingThumbnail>,
    output: Option<OutputId>,
    previous_scope: MruScope,
)
    ensures
        UiModel::Open(inner).scope() == inner.wmru.scope,
        UiModel::Open(inner).current_window_id() == inner.wmru.current_id,
        UiModel::Open(inner).wmru() == inner.wmru,
        UiModel::Open(inner).wf() <==> inner.wmru.wf(),
        UiModel::Open(inner).walk(wmru) matches UiModel::Open(after) && {
            &&& after.wmru == wmru
            &&& after.view_offset == inner.view_offset
            &&& after.open_animation == inner.open_animation
            &&& after.open_delay == inner.open_delay
            &&& after.closing_thumbnails == inner.closing_thumbnails
            &&& after.output == inner.output
            &&& after.scope_panel == inner.scope_panel
        },
        ({
            let ui = UiModel::Closed { close_animation, closing_thumbnails, output, previous_scope };
            &&& ui.scope() == previous_scope
            &&& ui.wf()
        }),
{
}

/// Taking a window out of an open switcher takes it out of the walk. Only where that leaves no
/// window, and there was one to take out, does the switcher close as well.
pub proof fn law_window_removed(inner: InnerModel, id: MappedId, animation: AnimationId)
    ensures
        ({
            let ui = UiModel::Open(inner);
            let left = inner.wmru.remove(id);
            let emptied = left.thumbnails.len() == 0 && inner.wmru.thumbnails.len() > 0;
            &&& !emptied ==> ui.remove_window(id, animation) == ui.walk(left)
            &&& emptied ==> ui.remove_window(id, animation) == ui.walk(left).close(animation)
        }),
{
}

/// The switcher closes without a window if and only if that is its only one, and it draws thumbnails
/// on the output that it was opened on, once the opening delay is over.
pub proof fn law_asked_ahead(
    inner: InnerModel,
    closed: UiModel,
    id: MappedId,
    output: OutputId,
    finished: Seq<AnimationId>,
)
    requires
        closed is Closed,
    ensures
        UiModel::Open(inner).closes_without(id) <==> inner.wmru.thumbnails.map_values(
            |t: ThumbnailModel| t.id,
        ) == seq![id],
        !closed.closes_without(id),
        UiModel::Open(inner).draws_thumbnails(output, finished) ==> inner.output == output
            && finished.contains(inner.open_delay),
        UiModel::Open(inner).draws_thumbnails(inner.output, finished) <==> finished.contains(
            inner.open_delay,
        ),
        !closed.draws_thumbnails(output, finished),
{
    let ids = inner.wmru.thumbnails.map_values(|t: ThumbnailModel| t.id);
    if UiModel::Open(inner).closes_without(id) {
        assert(ids =~= seq![id]);
    }
    if ids == seq![id] {
        assert(ids.len() == 1 && ids[0] == id);
        assert(inner.wmru.thumbnails[0].id == id);
    }
}

/// On an output the open switcher is nothing before the opening delay is over. Then it is a full
/// background, below everything else that there is on the output it was opened on.
pub proof fn law_open_on_output(
    inner: InnerModel,
    output: OutputId,
    finished: Seq<AnimationId>,
    strip: Seq<StripItem>,
    leftmost: Coord,
    rightmost: Coord,
)
    ensures
        ({
            let elements = UiModel::Open(inner).elements(
                output,
                finished,
                strip,
                leftmost,
                rightmost,
            );
            &&& !finished.contains(inner.open_delay) ==> elements.len() == 0
            &&& finished.contains(inner.open_delay) ==> {
                &&& elements.len() > 0
                &&& elements.last() == RenderElement::Background(Progress::Full)
                &&& output == inner.output ==> elements.drop_last() == inner.elements(
                    strip,
                    leftmost,
                    rightmost,
                )
                &&& output != inner.output ==> elements.len() == 1
            }
        }),
{
    let elements = UiModel::Open(inner).elements(output, finished, strip, leftmost, rightmost);
    if finished.contains(inner.open_delay) && output == inner.output {
        assert(elements.drop_last() =~= inner.elements(strip, leftmost, rightmost));
    }
}

/// A closed switcher fades out with its closing animation: a background on every output, and above
/// it the closing thumbnails on the output that it was open on. Without the animation it is nothing.
pub proof fn law_closed_on_output(
    close_animation: Option<AnimationId>,
    closing_thumbnails: Seq<ClosingThumbnail>,
    closing_output: Option<OutputId>,
    previous_scope: MruScope,
    output: OutputId,
    finished: Seq<AnimationId>,
    strip: Seq<StripItem>,
    leftmost: Coord,
    rightmost: Coord,
)
    ensures
        ({
            let ui = UiModel::Closed {
                close_animation,
                closing_thumbnails,
                output: closing_output,
                previous_scope,
            };
            let elements = ui.elements(output, finished, strip, leftmost, rightmost);
            &&& close_animation is None ==> elements.len() == 0
            &&& close_animation matches Some(animation) ==> {
                &&& elements.len() > 0
                &&& elements.last() == RenderElement::Background(Progress::Animation(animation))
                &&& closing_output == Some(output) ==> elements.drop_last() == closing_elements(
                    closing_thumbnails,
                )
                &&& closing_output != Some(output) ==> elements.len() == 1
            }
        }),
{
    let ui = UiModel::Closed {
        close_animation,
        closing_thumbnails,
        output: closing_output,
        previous_scope,
    };
    let elements = ui.elements(output, finished, strip, leftmost, rightmost);
    if close_animation is Some && closing_output == Some(output) {
        assert(elements.drop_last() =~= closing_elements(closing_thumbnails));
    }
}

/// The models of the switcher tell all that it holds.
pub proof fn law_switcher_faithful(inner: Inner, state: WindowMruUiState)
    ensures
        inner@.wmru == inner.wmru@,
        inner@.view_offset == inner.view_offset,
        inner@.open_animation == inner.open_animation,
        inner@.open_delay == inner.open_delay,
        inner@.closing_thumbnails == inner.closing_thumbnails@,
        inner@.output == inner.output,
        inner@.scope_panel is Some <==> inner.scope_panel is Some,
        inner.scope_panel matches Some(panels) ==> inner@.scope_panel == Some(panels@),
        state matches WindowMruUiState::Open(open) ==> state@ == UiModel::Open(open@),
        state matches WindowMruUiState::Closed {
            close_animation,
            closing_thumbnails,
            output,
            previous_scope,
        } ==> state@ == (UiModel::Closed {
            close_animation,
            closing_thumbnails: closing_thumbnails@,
            output,
            previous_scope,
        }),
{
}

} // verus!
