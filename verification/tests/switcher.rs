use window_mru::bindings::{Action, Key, ModKey, Modifiers, Trigger};
use window_mru::coord::Coord;
use window_mru::ids::{AnimationId, MappedId, OutputId, TextureId};
use window_mru::mru::WindowMru;
use window_mru::scope::{MruDirection, MruFilter, MruScope};
use window_mru::thumbnail::{Thumbnail, TitleTexture};
use window_mru::ui::{OpenAnimations, WindowMruUi};
use window_mru::ui_model::{FocusRingUpdate, MruCloseRequest, Progress, RenderElement};
use window_mru::view::{StripItem, ViewOffset, ViewPlan};

const THUMBNAIL: AnimationId = AnimationId(1);
const OPEN: AnimationId = AnimationId(2);
const DELAY: AnimationId = AnimationId(3);
const CLOSE: AnimationId = AnimationId(4);
const OUTPUT: OutputId = OutputId(1);

fn coord(x: f64) -> Coord {
    Coord::from_bits(x.to_bits())
}

fn thumbnail(id: u64, app_id: Option<&str>, on_current_output: bool) -> Thumbnail {
    Thumbnail {
        id: MappedId(id),
        timestamp: None,
        on_current_workspace: false,
        on_current_output,
        app_id: app_id.map(|s| s.to_string()),
        open_animation: None,
        move_animation: None,
        title_texture: TitleTexture::default(),
    }
}

fn walk(thumbnails: Vec<Thumbnail>) -> WindowMru {
    let current_id = thumbnails.first().map(|t| t.id);
    WindowMru {
        thumbnails,
        current_id,
        scope: MruScope::All,
        app_id_filter: None,
    }
}

fn three() -> WindowMru {
    walk(vec![
        thumbnail(1, Some("a"), true),
        thumbnail(2, Some("b"), false),
        thumbnail(3, Some("a"), true),
    ])
}

fn opened(wmru: WindowMru, dir: MruDirection) -> WindowMruUi {
    let mut ui = WindowMruUi::new();
    ui.open(
        wmru,
        dir,
        OUTPUT,
        coord(-25.),
        OpenAnimations {
            thumbnail: THUMBNAIL,
            open: OPEN,
            delay: DELAY,
        },
    );
    ui
}

fn current(ui: &WindowMruUi) -> Option<u64> {
    ui.current_window_id().map(|id| id.0)
}

fn strip() -> Vec<StripItem> {
    (0..3u32)
        .map(|i| StripItem {
            id: MappedId(u64::from(i) + 1),
            left: coord(f64::from(i) * 100.),
            right: coord(f64::from(i) * 100. + 80.),
            width: coord(80.),
        })
        .collect()
}

#[test]
fn a_new_switcher_is_closed() {
    let ui = WindowMruUi::new();
    assert!(!ui.is_open());
    assert!(ui.inner().is_none());
    assert_eq!(ui.scope(), MruScope::All);
    assert_eq!(current(&ui), None);
    assert_eq!(ui.output(), None);
    assert!(!ui.are_animations_ongoing(&vec![]));
}

#[test]
fn a_closed_switcher_is_inert() {
    let mut ui = WindowMruUi::new();
    ui.advance(Some(MruDirection::Forward), Some(MruScope::Output), None);
    ui.set_current(MappedId(1));
    ui.first();
    ui.last();
    ui.remove_window(MappedId(1), CLOSE);
    ui.set_scope_panels(&vec![]);
    assert_eq!(ui.close(MruCloseRequest::Selection(MappedId(1)), CLOSE), None);
    assert_eq!(ui.follow_view(coord(9.), coord(1.), CLOSE, coord(3.)), None);
    assert_eq!(ui.close_progress(&vec![]), None);
    assert_eq!(ui.update_render_elements(&strip()), FocusRingUpdate::Unchanged);
    assert_eq!(
        ui.thumbnail_under(&strip(), coord(0.), coord(500.), &vec![true; 3]),
        None
    );
    assert_eq!(ui.title_texture(MappedId(1), None, coord(1.), None), None);
    assert!(!ui.is_open());
    assert_eq!(ui.scope(), MruScope::All);
    assert!(!ui.are_animations_ongoing(&vec![]));
    assert!(ui
        .render_output(OUTPUT, &vec![DELAY], &strip(), coord(0.), coord(500.))
        .is_empty());
}

#[test]
fn opening_forward_selects_the_previous_window() {
    let ui = opened(three(), MruDirection::Forward);
    assert!(ui.is_open());
    assert_eq!(current(&ui), Some(2));
    assert_eq!(ui.output(), Some(OUTPUT));
    let inner = ui.inner().unwrap();
    assert_eq!(inner.view_offset, ViewOffset::Static(coord(-25.)));
    assert!(inner
        .wmru
        .thumbnails
        .iter()
        .all(|t| t.open_animation == Some(THUMBNAIL)));
}

#[test]
fn opening_backward_selects_the_last_window() {
    let ui = opened(three(), MruDirection::Backward);
    assert_eq!(current(&ui), Some(3));
}

#[test]
fn opening_an_open_switcher_changes_nothing() {
    let mut ui = opened(three(), MruDirection::Forward);
    ui.open(
        walk(vec![thumbnail(9, None, false)]),
        MruDirection::Forward,
        OutputId(2),
        coord(0.),
        OpenAnimations {
            thumbnail: AnimationId(10),
            open: AnimationId(11),
            delay: AnimationId(12),
        },
    );
    assert_eq!(current(&ui), Some(2));
    assert_eq!(ui.output(), Some(OUTPUT));
}

#[test]
fn closing_answers_the_request() {
    let mut ui = opened(three(), MruDirection::Forward);
    assert_eq!(ui.close(MruCloseRequest::Cancelled, CLOSE), None);
    assert!(!ui.is_open());

    let mut ui = opened(three(), MruDirection::Forward);
    assert_eq!(
        ui.close(MruCloseRequest::Current, CLOSE),
        Some(MappedId(2))
    );
    assert_eq!(ui.close(MruCloseRequest::Current, CLOSE), None);

    let mut ui = opened(three(), MruDirection::Forward);
    assert_eq!(
        ui.close(MruCloseRequest::Selection(MappedId(3)), CLOSE),
        Some(MappedId(3))
    );
    assert_eq!(current(&ui), None);
    assert_eq!(ui.output(), None);
}

#[test]
fn the_scope_is_remembered() {
    let mut ui = opened(three(), MruDirection::Forward);
    ui.advance(None, Some(MruScope::Output), None);
    assert_eq!(ui.scope(), MruScope::Output);
    ui.close(MruCloseRequest::Cancelled, CLOSE);
    assert_eq!(ui.scope(), MruScope::Output);
}

#[test]
fn a_change_of_scope_takes_no_step() {
    let mut ui = opened(three(), MruDirection::Forward);
    ui.last();
    assert_eq!(current(&ui), Some(3));
    ui.advance(Some(MruDirection::Forward), Some(MruScope::Output), None);
    assert_eq!(current(&ui), Some(3));
    ui.advance(Some(MruDirection::Forward), Some(MruScope::Output), None);
    assert_eq!(current(&ui), Some(1));
}

#[test]
fn a_change_of_filter_takes_a_step() {
    let mut ui = opened(three(), MruDirection::Forward);
    ui.first();
    ui.advance(
        Some(MruDirection::Forward),
        None,
        Some(MruFilter::AppId),
    );
    assert_eq!(current(&ui), Some(3));
    assert_eq!(
        ui.inner().unwrap().wmru.app_id_filter,
        Some("a".to_string())
    );
    ui.advance(Some(MruDirection::Backward), None, Some(MruFilter::Any));
    assert_eq!(current(&ui), Some(2));
}

#[test]
fn a_change_of_filter_with_a_scope_given_takes_no_step() {
    let mut ui = opened(three(), MruDirection::Forward);
    ui.first();
    ui.advance(
        Some(MruDirection::Forward),
        Some(MruScope::All),
        Some(MruFilter::AppId),
    );
    assert_eq!(current(&ui), Some(1));
}

#[test]
fn steps_keep_the_mode() {
    let mut ui = opened(three(), MruDirection::Forward);
    ui.first();
    ui.advance(None, Some(MruScope::Output), Some(MruFilter::AppId));
    ui.advance(Some(MruDirection::Forward), None, None);
    assert_eq!(ui.scope(), MruScope::Output);
    assert_eq!(
        ui.inner().unwrap().wmru.app_id_filter,
        Some("a".to_string())
    );
    assert_eq!(current(&ui), Some(3));
}

#[test]
fn the_pointer_selects_shown_windows() {
    let mut ui = opened(three(), MruDirection::Forward);
    ui.set_current(MappedId(3));
    assert_eq!(current(&ui), Some(3));
    ui.set_current(MappedId(7));
    assert_eq!(current(&ui), Some(3));
}

#[test]
fn removing_the_last_window_closes_the_switcher() {
    let mut ui = opened(three(), MruDirection::Forward);
    ui.remove_window(MappedId(2), CLOSE);
    assert_eq!(current(&ui), Some(3));
    ui.remove_window(MappedId(8), CLOSE);
    ui.remove_window(MappedId(1), CLOSE);
    assert!(ui.is_open());
    ui.remove_window(MappedId(3), CLOSE);
    assert!(!ui.is_open());
    assert!(ui.are_animations_ongoing(&vec![]));
    ui.advance_animations(&vec![CLOSE], coord(0.));
    assert!(!ui.are_animations_ongoing(&vec![]));
}

#[test]
fn only_the_last_window_closes_the_switcher() {
    let mut ui = WindowMruUi::new();
    assert!(!ui.closes_without(MappedId(1)));
    ui = opened(three(), MruDirection::Forward);
    assert!(!ui.closes_without(MappedId(1)));
    ui.remove_window(MappedId(2), CLOSE);
    ui.remove_window(MappedId(3), CLOSE);
    assert!(!ui.closes_without(MappedId(3)));
    assert!(ui.closes_without(MappedId(1)));
    ui.remove_window(MappedId(3), CLOSE);
    assert!(ui.is_open());
    ui.remove_window(MappedId(1), CLOSE);
    assert!(!ui.is_open());
    assert!(!ui.closes_without(MappedId(1)));
}

#[test]
fn the_strip_is_needed_where_thumbnails_appear() {
    let mut ui = opened(three(), MruDirection::Forward);
    assert!(ui.draws_thumbnails(OUTPUT, &vec![OPEN, DELAY]));
    assert!(!ui.draws_thumbnails(OUTPUT, &vec![OPEN]));
    assert!(!ui.draws_thumbnails(OutputId(2), &vec![DELAY]));
    assert_eq!(
        ui.render_output(OutputId(2), &vec![DELAY], &strip(), coord(0.), coord(500.)),
        ui.render_output(OutputId(2), &vec![DELAY], &vec![], coord(7.), coord(9.)),
    );
    ui.close(MruCloseRequest::Cancelled, CLOSE);
    assert!(!ui.draws_thumbnails(OUTPUT, &vec![DELAY]));
}

#[test]
fn a_missing_window_does_not_close_an_empty_switcher() {
    let mut ui = opened(walk(vec![]), MruDirection::Forward);
    ui.remove_window(MappedId(1), CLOSE);
    assert!(ui.is_open());
}

#[test]
fn the_background_closes_from_where_it_stands() {
    let ui = opened(three(), MruDirection::Forward);
    assert_eq!(ui.close_progress(&vec![OPEN]), Some(0));
    assert_eq!(ui.close_progress(&vec![OPEN, DELAY]), Some(1));
}

#[test]
fn the_open_switcher_comes_to_rest() {
    let mut ui = opened(three(), MruDirection::Forward);
    let finished = vec![OPEN, THUMBNAIL];
    assert!(ui.are_animations_ongoing(&vec![OPEN]));
    assert!(ui.are_animations_ongoing(&finished));
    ui.advance_animations(&finished, coord(0.));
    assert!(!ui.are_animations_ongoing(&finished));
    assert!(ui.are_animations_ongoing(&vec![]));
    assert_eq!(current(&ui), Some(2));
}

#[test]
fn a_visible_change_of_the_view_is_animated() {
    let mut ui = opened(three(), MruDirection::Forward);
    let moving = AnimationId(9);
    assert_eq!(ui.follow_view(coord(1.), coord(1.), moving, coord(-24.)), None);
    assert_eq!(
        ui.inner().unwrap().view_offset,
        ViewOffset::Static(coord(-24.))
    );
    assert_eq!(
        ui.follow_view(coord(1.5), coord(1.), moving, coord(0.)),
        Some(moving)
    );
    assert_eq!(
        ui.inner().unwrap().view_offset,
        ViewOffset::Animation(moving)
    );
    assert_eq!(
        ui.follow_view(coord(0.5), coord(1.), AnimationId(10), coord(0.)),
        Some(moving)
    );
    ui.advance_animations(&vec![moving], coord(17.));
    assert_eq!(
        ui.inner().unwrap().view_offset,
        ViewOffset::Static(coord(17.))
    );
}

#[test]
fn nothing_appears_before_the_delay_is_over() {
    let ui = opened(three(), MruDirection::Forward);
    assert!(ui
        .render_output(OUTPUT, &vec![], &strip(), coord(0.), coord(500.))
        .is_empty());
}

#[test]
fn thumbnails_appear_on_one_output() {
    let ui = opened(three(), MruDirection::Forward);
    assert_eq!(
        ui.render_output(OUTPUT, &vec![DELAY], &strip(), coord(80.), coord(200.)),
        vec![
            RenderElement::Thumbnail {
                id: MappedId(2),
                item: 1,
                focus_ring: true
            },
            RenderElement::Background(Progress::Full),
        ]
    );
    assert_eq!(
        ui.render_output(OUTPUT, &vec![DELAY], &strip(), coord(79.), coord(201.)),
        vec![
            RenderElement::Thumbnail {
                id: MappedId(1),
                item: 0,
                focus_ring: false
            },
            RenderElement::Thumbnail {
                id: MappedId(2),
                item: 1,
                focus_ring: true
            },
            RenderElement::Thumbnail {
                id: MappedId(3),
                item: 2,
                focus_ring: false
            },
            RenderElement::Background(Progress::Full),
        ]
    );
    assert_eq!(
        ui.render_output(OutputId(2), &vec![DELAY], &strip(), coord(0.), coord(500.)),
        vec![RenderElement::Background(Progress::Full)]
    );
}

#[test]
fn the_panel_shows_the_scope() {
    let mut ui = opened(three(), MruDirection::Forward);
    let none: Vec<Option<TextureId>> = vec![Some(TextureId(1)), None, Some(TextureId(3))];
    ui.set_scope_panels(&none);
    assert!(ui.inner().unwrap().scope_panel.is_none());
    ui.set_scope_panels(&vec![
        Some(TextureId(1)),
        Some(TextureId(2)),
        Some(TextureId(3)),
    ]);
    ui.set_scope_panels(&vec![
        Some(TextureId(4)),
        Some(TextureId(5)),
        Some(TextureId(6)),
    ]);
    for (scope, texture) in [
        (MruScope::All, 1),
        (MruScope::Output, 2),
        (MruScope::Workspace, 3),
    ] {
        ui.advance(None, Some(scope), None);
        let elements = ui.render_output(OUTPUT, &vec![DELAY], &strip(), coord(0.), coord(1.));
        assert_eq!(elements[0], RenderElement::ScopePanel(TextureId(texture)));
    }
    // No window is on the active workspace: nothing is selected and no thumbnail appears.
    assert_eq!(current(&ui), None);
    assert_eq!(
        ui.render_output(OUTPUT, &vec![DELAY], &strip(), coord(0.), coord(500.))
            .len(),
        2
    );
    assert_eq!(ui.update_render_elements(&strip()), FocusRingUpdate::Unchanged);
}

#[test]
fn the_background_fades_on_all_outputs() {
    let mut ui = opened(three(), MruDirection::Forward);
    ui.close(MruCloseRequest::Cancelled, CLOSE);
    for output in [OUTPUT, OutputId(2)] {
        assert_eq!(
            ui.render_output(output, &vec![DELAY], &strip(), coord(0.), coord(500.)),
            vec![RenderElement::Background(Progress::Animation(CLOSE))]
        );
    }
    ui.advance_animations(&vec![CLOSE], coord(0.));
    assert!(ui
        .render_output(OUTPUT, &vec![DELAY], &strip(), coord(0.), coord(500.))
        .is_empty());
}

#[test]
fn the_focus_ring_goes_around_the_selected_window() {
    let mut ui = opened(three(), MruDirection::Forward);
    assert_eq!(
        ui.update_render_elements(&strip()),
        FocusRingUpdate::Around {
            item: 1,
            fade: Some(THUMBNAIL)
        }
    );
    ui.advance_animations(&vec![THUMBNAIL], coord(0.));
    assert_eq!(
        ui.update_render_elements(&strip()),
        FocusRingUpdate::Around {
            item: 1,
            fade: None
        }
    );
    assert_eq!(ui.update_render_elements(&vec![]), FocusRingUpdate::Missing);
}

#[test]
fn the_first_thumbnail_under_the_pointer_counts() {
    let ui = opened(three(), MruDirection::Forward);
    let under = |under: [bool; 3]| {
        ui.thumbnail_under(&strip(), coord(80.), coord(500.), &under.to_vec())
            .map(|id| id.0)
    };
    assert_eq!(under([false, false, false]), None);
    assert_eq!(under([true, false, false]), None);
    assert_eq!(under([true, false, true]), Some(3));
    assert_eq!(under([true, true, true]), Some(2));
}

#[test]
fn titles_are_rendered_once() {
    let mut ui = opened(three(), MruDirection::Forward);
    let title = "a title".to_string();
    let other = "another".to_string();
    let id = MappedId(1);
    assert_eq!(
        ui.title_texture(id, Some(&title), coord(1.), Some(TextureId(1))),
        Some(TextureId(1))
    );
    assert_eq!(
        ui.title_texture(id, Some(&title), coord(1.), Some(TextureId(2))),
        Some(TextureId(1))
    );
    assert_eq!(
        ui.title_texture(id, Some(&title), coord(2.), None),
        None
    );
    assert_eq!(
        ui.title_texture(id, Some(&title), coord(2.), Some(TextureId(3))),
        None
    );
    assert_eq!(
        ui.title_texture(id, Some(&other), coord(2.), Some(TextureId(4))),
        Some(TextureId(4))
    );
    assert_eq!(ui.title_texture(id, None, coord(2.), Some(TextureId(5))), None);
    assert_eq!(
        ui.title_texture(MappedId(9), Some(&other), coord(2.), Some(TextureId(5))),
        None
    );
}

#[test]
fn the_view_plan_goes_by_the_selected_window() {
    let ui = opened(three(), MruDirection::Forward);
    let inner = ui.inner().unwrap();
    assert_eq!(
        inner.plan_view(&strip(), coord(280.)),
        ViewPlan::Center { end: Some(2) }
    );
    assert_eq!(
        inner.plan_view(&strip(), coord(279.)),
        ViewPlan::TakeIn { item: Some(1) }
    );
}

fn key(code: u32, shift: bool, alt: bool) -> Key {
    Key {
        trigger: Trigger::Keysym(code),
        modifiers: Modifiers {
            shift,
            alt,
            ..Modifiers::empty()
        },
    }
}

#[test]
fn bindings_of_a_closed_switcher() {
    let mut ui = WindowMruUi::new();
    let binds = ui.bindings(ModKey::Alt);
    let found: Vec<(Key, Action)> = binds.iter().map(|b| (b.key, b.action)).collect();
    let advance = |dir, filter| Action::MruAdvance(dir, None, Some(filter));
    assert_eq!(
        found,
        vec![
            (
                key(xkeysym::Keysym::Tab.raw(), false, true),
                advance(MruDirection::Forward, MruFilter::Any)
            ),
            (
                key(xkeysym::Keysym::Tab.raw(), true, true),
                advance(MruDirection::Backward, MruFilter::Any)
            ),
            (
                key(xkeysym::Keysym::grave.raw(), false, true),
                advance(MruDirection::Forward, MruFilter::AppId)
            ),
            (
                key(xkeysym::Keysym::grave.raw(), true, true),
                advance(MruDirection::Backward, MruFilter::AppId)
            ),
        ]
    );
    for bind in binds {
        assert!(bind.repeat);
        assert_eq!(bind.cooldown, None);
        assert!(!bind.allow_when_locked);
        assert!(bind.allow_inhibiting);
        assert_eq!(bind.hotkey_overlay_title, None);
    }
}

#[test]
fn bindings_of_an_open_switcher() {
    let mut ui = opened(three(), MruDirection::Forward);
    let found: Vec<(Key, Action)> = ui
        .bindings(ModKey::Alt)
        .iter()
        .skip(4)
        .map(|b| (b.key, b.action))
        .collect();
    let plain = |keysym: xkeysym::Keysym| key(keysym.raw(), false, true);
    let forward = Action::MruAdvance(MruDirection::Forward, None, None);
    let backward = Action::MruAdvance(MruDirection::Backward, None, None);
    assert_eq!(
        found,
        vec![
            (plain(xkeysym::Keysym::Escape), Action::MruCancel),
            (plain(xkeysym::Keysym::Right), forward),
            (plain(xkeysym::Keysym::Left), backward),
            (plain(xkeysym::Keysym::j), forward),
            (plain(xkeysym::Keysym::k), backward),
            (plain(xkeysym::Keysym::l), forward),
            (plain(xkeysym::Keysym::h), backward),
            (plain(xkeysym::Keysym::q), Action::MruCloseCurrent),
            (plain(xkeysym::Keysym::Return), Action::MruClose),
            (plain(xkeysym::Keysym::Home), Action::MruFirst),
            (plain(xkeysym::Keysym::End), Action::MruLast),
            (
                plain(xkeysym::Keysym::a),
                Action::MruChangeScope(MruScope::All)
            ),
            (
                plain(xkeysym::Keysym::w),
                Action::MruChangeScope(MruScope::Workspace)
            ),
            (
                plain(xkeysym::Keysym::o),
                Action::MruChangeScope(MruScope::Output)
            ),
            (
                plain(xkeysym::Keysym::s),
                Action::MruCycleScope(MruDirection::Forward)
            ),
            (
                key(xkeysym::Keysym::s.raw(), true, true),
                Action::MruCycleScope(MruDirection::Backward)
            ),
        ]
    );
}

#[test]
fn bindings_follow_the_mod_key() {
    let mut ui = opened(three(), MruDirection::Forward);
    for mod_key in [
        ModKey::Alt,
        ModKey::Super,
        ModKey::Ctrl,
        ModKey::Shift,
        ModKey::IsoLevel3Shift,
        ModKey::IsoLevel5Shift,
        ModKey::Alt,
    ] {
        let modifiers = mod_key.to_modifiers();
        for _ in 0..2 {
            let binds = ui.bindings(mod_key);
            assert_eq!(binds.len(), 20);
            assert_eq!(binds[0].key.modifiers, modifiers);
            assert!(binds
                .iter()
                .all(|b| b.key.modifiers.union(modifiers) == b.key.modifiers));
        }
    }
    ui.close(MruCloseRequest::Cancelled, CLOSE);
    assert_eq!(ui.bindings(ModKey::Alt).len(), 4);
}

#[test]
fn keys_are_distinct() {
    let mut ui = opened(three(), MruDirection::Forward);
    let binds = ui.bindings(ModKey::Super);
    for i in 0..binds.len() {
        for j in 0..i {
            assert_ne!(binds[i].key, binds[j].key);
        }
    }
}
