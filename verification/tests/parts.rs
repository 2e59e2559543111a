use window_mru::bindings::ModKey;
use window_mru::coord::Coord;
use window_mru::ids::{is_done, AnimationId, MappedId, TextureId};
use window_mru::panel::{line_spacing, panel_size, PanelSize};
use window_mru::recent_windows::{
    MergeWith, RecentWindows, RecentWindowsPart, DEFAULT_MRU_COMMIT_MS,
};
use window_mru::scope::{
    make_panel_text, scope_cycle, scope_panel_texts, MruCycle, MruDirection, MruScope,
};
use window_mru::thumbnail::{
    title_size, EmptyTitle, MoveAnimation, Thumbnail, ThumbnailElement, TitleTexture,
    WindowElement,
};
use window_mru::ui_model::{ClosingThumbnail, RenderElement};
use window_mru::view::{
    is_visible_change, plan_view, thumbnails_in_view, StripItem, ViewAlignment, ViewEdges,
    ViewOffset, ViewPlan,
};
use window_mru::x11_interop::{
    request, MutterX11InteropHandler, MutterX11InteropManagerState, Request,
};

fn coord(x: f64) -> Coord {
    Coord::from_bits(x.to_bits())
}

const NUMBERS: [f64; 15] = [
    f64::NEG_INFINITY,
    f64::MIN,
    -1.5,
    -1.,
    -f64::MIN_POSITIVE,
    -5e-324,
    -0.,
    0.,
    5e-324,
    f64::MIN_POSITIVE,
    1.,
    1.5,
    f64::MAX,
    f64::INFINITY,
    f64::NAN,
];

#[test]
fn coordinates_compare_as_numbers_do() {
    for a in NUMBERS {
        for b in NUMBERS {
            assert_eq!(coord(a).le(coord(b)), a <= b, "{a} <= {b}");
            assert_eq!(coord(a).lt(coord(b)), a < b, "{a} < {b}");
            assert_eq!(coord(a).same(coord(b)), a == b, "{a} == {b}");
        }
    }
    assert_eq!(coord(0.), Coord::zero());
    assert_eq!(coord(-0.), Coord::zero());
    assert_eq!(coord(-f64::NAN).key, None);
}

#[test]
fn coordinates_give_numbers_back() {
    for a in NUMBERS {
        match coord(a).to_bits() {
            Some(bits) => assert_eq!(f64::from_bits(bits), a),
            None => assert!(a.is_nan()),
        }
    }
    assert_eq!(
        Coord {
            key: Some(i64::MAX)
        }
        .to_bits(),
        None
    );
    assert_eq!(
        Coord {
            key: Some(i64::MIN)
        }
        .to_bits(),
        None
    );
}

#[test]
fn finished_animations_are_found() {
    let finished = vec![AnimationId(1), AnimationId(2)];
    assert!(is_done(AnimationId(2), &finished));
    assert!(!is_done(AnimationId(3), &finished));
    assert!(!is_done(AnimationId(3), &vec![]));
}

#[test]
fn scopes_are_cycled_through() {
    assert_eq!(
        scope_cycle(),
        vec![MruScope::All, MruScope::Workspace, MruScope::Output]
    );
    for (scope, next) in [
        (MruScope::All, MruScope::Workspace),
        (MruScope::Workspace, MruScope::Output),
        (MruScope::Output, MruScope::All),
    ] {
        assert_eq!(scope.cycle(MruDirection::Forward), next);
        assert_eq!(next.cycle(MruDirection::Backward), scope);
    }
    assert_eq!(MruScope::default(), MruScope::All);
}

#[test]
fn the_panel_marks_its_scope() {
    assert_eq!(
        make_panel_text(0),
        " <span fgcolor='#555555'><span face='mono' bgcolor='#2C2C2C' letter_spacing='5000'>S</span>cope:</span>  \
         <span face='mono' bgcolor='#2C2C2C' letter_spacing='5000'>A</span>ll  \
         <span fgcolor='#555555'><span face='mono' bgcolor='#2C2C2C' letter_spacing='5000'>W</span>orkspace</span>  \
         <span fgcolor='#555555'><span face='mono' bgcolor='#2C2C2C' letter_spacing='5000'>O</span>utput</span>"
    );
    assert_eq!(
        make_panel_text(MruScope::Workspace.index()),
        " <span fgcolor='#555555'><span face='mono' bgcolor='#2C2C2C' letter_spacing='5000'>S</span>cope:</span>  \
         <span fgcolor='#555555'><span face='mono' bgcolor='#2C2C2C' letter_spacing='5000'>A</span>ll</span>  \
         <span face='mono' bgcolor='#2C2C2C' letter_spacing='5000'>W</span>orkspace  \
         <span fgcolor='#555555'><span face='mono' bgcolor='#2C2C2C' letter_spacing='5000'>O</span>utput</span>"
    );
    let texts = scope_panel_texts();
    assert_eq!(texts.len(), 3);
    for (i, text) in texts.iter().enumerate() {
        assert_eq!(*text, make_panel_text(i));
    }
    assert_eq!(make_panel_text(9).matches("#555555").count(), 4);
}

#[test]
fn panels_have_padding_and_a_border() {
    assert_eq!(
        panel_size(100, 20, 8, 2),
        PanelSize {
            width: 118,
            height: 36
        }
    );
    assert_eq!(line_spacing(2), 2048);
}

#[test]
fn the_switcher_is_on_by_default() {
    let config = RecentWindows::default();
    assert!(config.on);
    assert_eq!(config.mod_key, ModKey::Alt);
    assert_eq!(DEFAULT_MRU_COMMIT_MS, 750);
}

#[test]
fn parts_are_merged_in_order() {
    let mut config = RecentWindows::default();
    config.merge_with(&RecentWindowsPart::default());
    assert_eq!(config, RecentWindows::default());
    config.merge_with(&RecentWindowsPart {
        off: true,
        mod_key: Some(ModKey::Super),
        ..RecentWindowsPart::default()
    });
    assert_eq!(
        config,
        RecentWindows {
            on: false,
            mod_key: ModKey::Super
        }
    );
    let before = config;
    config.merge_with(&RecentWindowsPart {
        on: true,
        off: true,
        mod_key: None,
    });
    assert_eq!(config, before);
    config.merge_with(&RecentWindowsPart {
        on: true,
        ..RecentWindowsPart::default()
    });
    assert!(config.on);
    assert_eq!(config.mod_key, ModKey::Super);
}

fn thumbnail() -> Thumbnail {
    Thumbnail {
        id: MappedId(1),
        timestamp: None,
        on_current_workspace: false,
        on_current_output: false,
        app_id: None,
        open_animation: None,
        move_animation: None,
        title_texture: TitleTexture::default(),
    }
}

#[test]
fn finished_animations_of_a_thumbnail_end() {
    let mut t = thumbnail();
    assert!(!t.are_animations_ongoing());
    t.open_animation = Some(AnimationId(1));
    assert!(!t.animate_move_from(coord(10.), AnimationId(2)));
    assert!(t.animate_move_from(coord(20.), AnimationId(3)));
    assert_eq!(
        t.move_animation,
        Some(MoveAnimation {
            anim: AnimationId(2),
            from: coord(20.)
        })
    );
    t.advance_animations(&vec![AnimationId(1), AnimationId(3)]);
    assert_eq!(t.open_animation, None);
    assert!(t.are_animations_ongoing());
    t.advance_animations(&vec![AnimationId(2)]);
    assert!(!t.are_animations_ongoing());
}

#[test]
fn a_failed_title_is_remembered() {
    let mut cache = TitleTexture::default();
    let empty = String::new();
    let title = "title".to_string();
    assert!(!cache.is_cached(&empty, coord(0.)));
    assert!(!cache.is_cached(&title, coord(1.)));
    assert_eq!(cache.get(&title, coord(1.), None), None);
    assert!(cache.is_cached(&title, coord(1.)));
    assert_eq!(cache.get(&title, coord(1.), Some(TextureId(1))), None);
    assert!(!cache.is_cached(&title, coord(2.)));
    assert!(!cache.is_cached(&empty, coord(1.)));
    let nan = coord(f64::NAN);
    assert_eq!(cache.get(&title, nan, Some(TextureId(1))), Some(TextureId(1)));
    assert_eq!(cache.get(&title, nan, Some(TextureId(2))), Some(TextureId(2)));
}

#[test]
fn empty_titles_have_no_size() {
    assert_eq!(title_size(10, 4), Ok((10, 4)));
    assert_eq!(title_size(0, 4), Err(EmptyTitle));
    assert_eq!(title_size(10, 0), Err(EmptyTitle));
    assert_eq!(title_size(-1, 4), Err(EmptyTitle));
}

#[test]
fn thumbnails_are_drawn_from_top_to_bottom() {
    let elements = vec![
        WindowElement::Surface { sticks_out: true },
        WindowElement::SolidColor,
        WindowElement::Surface { sticks_out: false },
    ];
    let mut t = thumbnail();
    t.open_animation = Some(AnimationId(5));
    let drawing = t.render(&elements, true, Some(TextureId(7)), true);
    assert_eq!(drawing.fade, Some(AnimationId(5)));
    assert_eq!(
        drawing.elements,
        vec![
            ThumbnailElement::ClippedWindow { element: 0 },
            ThumbnailElement::Window { element: 1 },
            ThumbnailElement::Window { element: 2 },
            ThumbnailElement::Title(TextureId(7)),
            ThumbnailElement::FocusRing,
        ]
    );
    let drawing = thumbnail().render(&elements, false, None, false);
    assert_eq!(drawing.fade, None);
    assert_eq!(
        drawing.elements,
        vec![
            ThumbnailElement::Window { element: 0 },
            ThumbnailElement::Window { element: 1 },
            ThumbnailElement::Window { element: 2 },
        ]
    );
}

#[test]
fn a_view_offset_settles_where_it_led_to() {
    let mut offset = ViewOffset::Static(coord(1.));
    assert!(!offset.are_animations_ongoing());
    assert_eq!(offset.current(coord(5.)), coord(1.));
    assert_eq!(offset.target(coord(6.)), coord(1.));
    assert_eq!(offset.offset(coord(2.)), None);
    assert_eq!(offset, ViewOffset::Static(coord(2.)));
    offset.animate(AnimationId(1));
    assert!(offset.are_animations_ongoing());
    assert_eq!(offset.current(coord(5.)), coord(5.));
    assert_eq!(offset.target(coord(6.)), coord(6.));
    assert_eq!(offset.offset(coord(2.)), Some(AnimationId(1)));
    offset.advance_animations(&vec![AnimationId(2)], coord(6.));
    assert_eq!(offset, ViewOffset::Animation(AnimationId(1)));
    offset.advance_animations(&vec![AnimationId(1)], coord(6.));
    assert_eq!(offset, ViewOffset::Static(coord(6.)));
}

fn edges(left: f64, right: f64) -> ViewEdges {
    let (area_left, area_right) = (100., 500.);
    ViewEdges {
        area_left: coord(area_left),
        area_right: coord(area_right),
        left: coord(left),
        right: coord(right),
        to_left: coord((area_left - left).abs()),
        to_right: coord((area_right - right).abs()),
    }
}

#[test]
fn the_view_moves_as_little_as_it_can() {
    assert_eq!(edges(100., 500.).align(), ViewAlignment::Keep);
    assert_eq!(edges(150., 200.).align(), ViewAlignment::Keep);
    assert_eq!(edges(50., 150.).align(), ViewAlignment::Left);
    assert_eq!(edges(450., 550.).align(), ViewAlignment::Right);
    assert_eq!(edges(50., 550.).align(), ViewAlignment::Left);
    assert_eq!(edges(f64::NAN, 200.).align(), ViewAlignment::Right);
}

#[test]
fn a_view_that_has_moved_stays() {
    let offset = |area: f64, area_width: f64, x: f64, width: f64| {
        let edges = ViewEdges {
            area_left: coord(area),
            area_right: coord(area + area_width),
            left: coord(x),
            right: coord(x + width),
            to_left: coord((area - x).abs()),
            to_right: coord((area + area_width - (x + width)).abs()),
        };
        match edges.align() {
            ViewAlignment::Keep => area - x,
            ViewAlignment::Left => 0.,
            ViewAlignment::Right => width - area_width,
        }
    };
    assert_eq!(offset(0., 400., 50., 100.), -50.);
    assert_eq!(offset(100., 400., 50., 100.), 0.);
    assert_eq!(offset(0., 400., 350., 100.), -300.);
    assert_eq!(offset(-900., 400., 0., 1000.), 0.);
    assert_eq!(offset(900., 400., 0., 1000.), 600.);
    for area in -20..20 {
        for area_width in 0..6 {
            for width in 0..12 {
                let (area, area_width) = (f64::from(area), f64::from(area_width));
                let (x, width) = (3., f64::from(width));
                let moved = offset(area, area_width, x, width);
                assert_eq!(offset(x + moved, area_width, x, width), moved);
            }
        }
    }
}

fn item(id: u64, left: f64, width: f64) -> StripItem {
    StripItem {
        id: MappedId(id),
        left: coord(left),
        right: coord(left + width),
        width: coord(width),
    }
}

#[test]
fn a_strip_that_fits_is_centered() {
    let strip = vec![item(1, 0., 80.), item(2, 100., 80.), item(3, 200., 80.)];
    let plan = |id: u64, width: f64| plan_view(&strip, Some(MappedId(id)), coord(width));
    assert_eq!(plan(1, 300.), ViewPlan::Center { end: Some(2) });
    assert_eq!(plan(1, 280.), ViewPlan::Center { end: Some(2) });
    assert_eq!(plan(1, 100.), ViewPlan::TakeIn { item: Some(0) });
    assert_eq!(plan(3, 100.), ViewPlan::TakeIn { item: Some(2) });
    assert_eq!(plan(9, 100.), ViewPlan::TakeIn { item: None });
    assert_eq!(plan(9, 280.), ViewPlan::Center { end: Some(2) });
    assert_eq!(plan_view(&strip, None, coord(100.)), ViewPlan::Start);
    assert_eq!(
        plan_view(&vec![], Some(MappedId(1)), coord(0.)),
        ViewPlan::Center { end: None }
    );
}

#[test]
fn what_overlaps_the_view_is_in_it() {
    let strip = vec![item(1, 0., 80.), item(2, 100., 80.), item(3, 200., 80.)];
    for (leftmost, rightmost) in [(-50., 0.), (-50., 1.), (80., 200.), (79., 201.), (300., 400.)] {
        let (start, end) = thumbnails_in_view(&strip, coord(leftmost), coord(rightmost));
        for i in 0..3 {
            let left = i as f64 * 100.;
            let overlaps = left + 80. > leftmost && left < rightmost;
            assert_eq!((start..end).contains(&i), overlaps, "{leftmost} {rightmost} {i}");
        }
    }
    assert_eq!(thumbnails_in_view(&vec![], coord(0.), coord(1.)), (0, 0));
}

#[test]
fn visible_thumbnails_can_close() {
    let closing = |left: f64, leftmost: f64, rightmost: f64| {
        ClosingThumbnail::new(
            item(1, left, 80.),
            TextureId(7),
            coord(left - leftmost),
            coord(60.),
            coord(leftmost),
            coord(rightmost),
            AnimationId(5),
        )
    };
    let expected = ClosingThumbnail {
        texture: TextureId(7),
        x: coord(50.),
        y: coord(60.),
        anim: AnimationId(5),
    };
    assert_eq!(closing(100., 50., 400.), Some(expected));
    assert_eq!(expected.render(), RenderElement::Closing(expected));
    assert!(expected.are_animations_ongoing(&vec![AnimationId(4)]));
    assert!(!expected.are_animations_ongoing(&vec![AnimationId(5)]));

    // At the edges of the view: out of it, and by one pixel in it.
    assert_eq!(closing(100., 180., 400.), None);
    assert!(closing(100., 179., 400.).is_some());
    assert_eq!(closing(100., -200., 100.), None);
    assert!(closing(100., -200., 101.).is_some());
    assert_eq!(closing(f64::NAN, 0., 400.), None);
}

#[test]
fn what_can_close_is_what_is_in_view() {
    let strip = vec![item(1, 0., 80.), item(2, 100., 80.), item(3, 200., 80.)];
    for (leftmost, rightmost) in [(-50., 0.), (-50., 1.), (80., 200.), (79., 201.), (300., 400.)] {
        let (leftmost, rightmost) = (coord(leftmost), coord(rightmost));
        let (start, end) = thumbnails_in_view(&strip, leftmost, rightmost);
        for (i, item) in strip.iter().enumerate() {
            let closing = ClosingThumbnail::new(
                *item,
                TextureId(1),
                item.left,
                Coord::zero(),
                leftmost,
                rightmost,
                AnimationId(1),
            );
            assert_eq!(closing.is_some(), (start..end).contains(&i));
        }
    }
}

#[test]
fn a_pixel_is_not_worth_an_animation() {
    assert!(!is_visible_change(coord(0.5), coord(0.5)));
    assert!(is_visible_change(coord(0.6), coord(0.5)));
}

struct State(u32);

impl MutterX11InteropHandler for State {}

#[test]
fn clients_see_the_global_by_the_filter() {
    let (_state, version, data) = MutterX11InteropManagerState::new(|pid: &u32| *pid == 7);
    assert_eq!(version, 1);
    assert!(data.can_view(&7));
    assert!(!data.can_view(&8));
}

#[test]
fn requests_have_no_effect() {
    let mut state = State(3);
    request(&mut state, Request::Destroy);
    request(&mut state, Request::SetX11Parent { xwindow: 5 });
    assert_eq!(state.0, 3);
}
