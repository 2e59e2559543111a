use window_mru::ids::{AnimationId, MappedId, OutputId};
use window_mru::layout::{LayoutSnapshot, MonitorSnapshot, WindowSnapshot, WorkspaceSnapshot};
use window_mru::mru::WindowMru;
use window_mru::mru_model::LaidOut;
use window_mru::recency::sort_by_recency;
use window_mru::scope::{MruFilter, MruScope};
use window_mru::thumbnail::{Thumbnail, TitleTexture};

fn thumbnail(id: u64) -> Thumbnail {
    Thumbnail {
        id: MappedId(id),
        timestamp: None,
        on_current_workspace: false,
        on_current_output: false,
        app_id: None,
        open_animation: None,
        move_animation: None,
        title_texture: TitleTexture::default(),
    }
}

fn app(id: u64, app_id: &str) -> Thumbnail {
    Thumbnail {
        app_id: Some(app_id.to_string()),
        ..thumbnail(id)
    }
}

fn mru(thumbnails: Vec<Thumbnail>) -> WindowMru {
    let current_id = thumbnails.first().map(|t| t.id);
    WindowMru {
        thumbnails,
        current_id,
        scope: MruScope::All,
        app_id_filter: None,
    }
}

fn ids(mru: &WindowMru) -> Vec<u64> {
    mru.thumbnails.iter().map(|t| t.id.0).collect()
}

fn shown(mru: &WindowMru) -> Vec<u64> {
    mru.shown_ids().iter().map(|id| id.0).collect()
}

fn current(mru: &WindowMru) -> Option<u64> {
    mru.current_id.map(|id| id.0)
}

#[derive(Debug, Clone)]
enum Op {
    Forward,
    Backward,
    First,
    Last,
    SetScope(MruScope),
    SetFilter(MruFilter),
    Remove(usize),
}

impl Op {
    fn apply(&self, mru: &mut WindowMru) {
        match self {
            Op::Forward => mru.forward(),
            Op::Backward => mru.backward(),
            Op::First => mru.first(),
            Op::Last => mru.last(),
            Op::SetScope(scope) => mru.set_scope(*scope),
            Op::SetFilter(filter) => mru.set_filter(*filter),
            Op::Remove(idx) => {
                if let Some(thumbnail) = mru.thumbnails.get(*idx) {
                    let id = thumbnail.id;
                    mru.remove(id);
                }
            }
        }
    }
}

fn check_ops(mru: &mut WindowMru, ops: &[Op]) {
    for op in ops {
        op.apply(mru);
        assert!(mru.verify_invariants(), "{:?} left {:?}", op, mru);
    }
}

#[test]
fn remove_last_window_out_of_two() {
    let ops = [Op::Backward, Op::Remove(1)];
    let mut mru = mru(vec![thumbnail(1), thumbnail(2)]);
    check_ops(&mut mru, &ops);
    assert_eq!(ids(&mru), vec![1]);
    assert_eq!(current(&mru), Some(1));
}

struct Random(u64);

impl Random {
    fn below(&mut self, n: u64) -> u64 {
        self.0 = self
            .0
            .wrapping_mul(6364136223846793005)
            .wrapping_add(1442695040888963407);
        (self.0 >> 33) % n
    }

    fn thumbnail(&mut self, id: u64) -> Thumbnail {
        Thumbnail {
            timestamp: match self.below(3) {
                0 => None,
                _ => Some(self.below(5) as u128),
            },
            on_current_output: self.below(2) == 0,
            on_current_workspace: self.below(2) == 0,
            app_id: match self.below(3) {
                0 => None,
                n => Some(format!("app-{n}")),
            },
            ..thumbnail(id)
        }
    }

    fn op(&mut self) -> Op {
        match self.below(7) {
            0 => Op::Forward,
            1 => Op::Backward,
            2 => Op::First,
            3 => Op::Last,
            4 => Op::SetScope(match self.below(3) {
                0 => MruScope::All,
                1 => MruScope::Output,
                _ => MruScope::Workspace,
            }),
            5 => Op::SetFilter(match self.below(2) {
                0 => MruFilter::Any,
                _ => MruFilter::AppId,
            }),
            _ => Op::Remove(1 + self.below(9) as usize),
        }
    }
}

#[test]
fn random_operations_dont_panic() {
    let mut random = Random(1);
    for _ in 0..2000 {
        let n = 1 + random.below(9);
        let mut mru = mru((0..n).map(|id| random.thumbnail(id)).collect());
        let ops: Vec<Op> = (0..random.below(20)).map(|_| random.op()).collect();
        check_ops(&mut mru, &ops);
    }
}

#[test]
fn an_invalid_selection_is_noticed() {
    let mut mru = mru(vec![thumbnail(1), thumbnail(2)]);
    assert!(mru.verify_invariants());
    mru.current_id = Some(MappedId(3));
    assert!(!mru.verify_invariants());
    mru.current_id = None;
    assert!(!mru.verify_invariants());
    mru.scope = MruScope::Output;
    assert!(mru.verify_invariants());
    mru.current_id = Some(MappedId(1));
    assert!(!mru.verify_invariants());
}

#[test]
fn steps_go_around() {
    let mut mru = mru(vec![thumbnail(1), thumbnail(2), thumbnail(3)]);
    let mut walk = vec![];
    for _ in 0..4 {
        mru.forward();
        walk.push(current(&mru).unwrap());
    }
    assert_eq!(walk, vec![2, 3, 1, 2]);
    let mut back = vec![];
    for _ in 0..4 {
        mru.backward();
        back.push(current(&mru).unwrap());
    }
    assert_eq!(back, vec![1, 3, 2, 1]);
}

#[test]
fn a_step_back_undoes_a_step_forward() {
    let mut random = Random(7);
    for _ in 0..200 {
        let n = 1 + random.below(9);
        let mut mru = mru((0..n).map(|id| random.thumbnail(id)).collect());
        for _ in 0..random.below(6) {
            random.op().apply(&mut mru);
        }
        let before = mru.current_id;
        mru.forward();
        mru.backward();
        assert_eq!(mru.current_id, before);
        mru.backward();
        mru.forward();
        assert_eq!(mru.current_id, before);
    }
}

#[test]
fn steps_without_windows_do_nothing() {
    let mut mru = mru(vec![]);
    assert!(mru.is_empty());
    mru.forward();
    mru.backward();
    mru.first();
    mru.last();
    mru.set_current(MappedId(1));
    assert_eq!(current(&mru), None);
    assert!(mru.remove(MappedId(1)).is_none());
}

#[test]
fn steps_skip_hidden_windows() {
    let mut mru = mru(vec![app(1, "a"), app(2, "b"), app(3, "a")]);
    mru.set_filter(MruFilter::AppId);
    assert_eq!(shown(&mru), vec![1, 3]);
    mru.forward();
    assert_eq!(current(&mru), Some(3));
    mru.forward();
    assert_eq!(current(&mru), Some(1));
    mru.last();
    assert_eq!(current(&mru), Some(3));
    mru.first();
    assert_eq!(current(&mru), Some(1));
}

#[test]
fn only_shown_windows_can_be_selected() {
    let mut mru = mru(vec![app(1, "a"), app(2, "b"), app(3, "a")]);
    mru.set_filter(MruFilter::AppId);
    mru.set_current(MappedId(2));
    assert_eq!(current(&mru), Some(1));
    mru.set_current(MappedId(3));
    assert_eq!(current(&mru), Some(3));
    mru.set_current(MappedId(9));
    assert_eq!(current(&mru), Some(3));
}

#[test]
fn scope_and_filter_decide_together() {
    let t = Thumbnail {
        on_current_output: true,
        ..app(1, "a")
    };
    let a = "a".to_string();
    let b = "b".to_string();
    assert!(window_mru::mru::matches(MruScope::All, None, &t));
    assert!(window_mru::mru::matches(MruScope::Output, None, &t));
    assert!(!window_mru::mru::matches(MruScope::Workspace, None, &t));
    assert!(window_mru::mru::matches(MruScope::Output, Some(&a), &t));
    assert!(!window_mru::mru::matches(MruScope::Output, Some(&b), &t));
    assert!(!window_mru::mru::matches(MruScope::Workspace, Some(&a), &t));
    assert!(!window_mru::mru::matches(MruScope::All, Some(&a), &thumbnail(1)));
}

fn on_output(id: u64) -> Thumbnail {
    Thumbnail {
        on_current_output: true,
        ..thumbnail(id)
    }
}

#[test]
fn a_selected_window_that_stays_shown_stays_selected() {
    let mut mru = mru(vec![on_output(1), thumbnail(2), on_output(3)]);
    mru.set_current(MappedId(3));
    assert!(mru.set_scope_and_filter(MruScope::Output, None));
    assert_eq!(current(&mru), Some(3));
    assert!(!mru.set_scope_and_filter(MruScope::Output, None));
    assert_eq!(current(&mru), Some(3));
}

#[test]
fn the_nearest_window_to_the_left_is_selected() {
    let mut mru = mru(vec![on_output(1), on_output(2), thumbnail(3), thumbnail(4), on_output(5)]);
    mru.set_current(MappedId(4));
    mru.set_scope(MruScope::Output);
    assert_eq!(current(&mru), Some(2));
}

#[test]
fn failing_that_the_nearest_window_to_the_right_is_selected() {
    let mut mru = mru(vec![thumbnail(1), thumbnail(2), thumbnail(3), on_output(4), on_output(5)]);
    mru.set_current(MappedId(2));
    mru.set_scope(MruScope::Output);
    assert_eq!(current(&mru), Some(4));
}

#[test]
fn without_shown_windows_none_is_selected_until_there_are_some() {
    let mut mru = mru(vec![thumbnail(1), thumbnail(2)]);
    mru.set_scope(MruScope::Workspace);
    assert_eq!(current(&mru), None);
    assert!(!mru.is_empty());
    mru.set_scope(MruScope::All);
    assert_eq!(current(&mru), Some(1));
}

#[test]
fn changes_of_the_filter_are_reported() {
    let mut mru = mru(vec![app(1, "a"), app(2, "b")]);
    assert!(mru.set_scope_and_filter(MruScope::All, Some(MruFilter::AppId)));
    assert_eq!(mru.app_id_filter, Some("a".to_string()));
    assert!(!mru.set_scope_and_filter(MruScope::All, Some(MruFilter::AppId)));
    assert!(!mru.set_scope_and_filter(MruScope::All, None));
    assert_eq!(mru.app_id_filter, Some("a".to_string()));
    assert!(mru.set_scope_and_filter(MruScope::All, Some(MruFilter::Any)));
    assert_eq!(mru.app_id_filter, None);
    assert!(!mru.set_scope_and_filter(MruScope::All, Some(MruFilter::Any)));
}

#[test]
fn a_window_without_an_application_filters_nothing() {
    let mut mru = mru(vec![thumbnail(1), app(2, "b")]);
    assert!(!mru.set_scope_and_filter(MruScope::All, Some(MruFilter::AppId)));
    assert_eq!(shown(&mru), vec![1, 2]);
}

#[test]
fn without_a_selected_window_the_filter_is_dropped() {
    let mut mru = mru(vec![app(1, "a"), app(2, "b")]);
    mru.set_filter(MruFilter::AppId);
    mru.set_scope(MruScope::Output);
    assert_eq!(current(&mru), None);
    assert!(mru.set_scope_and_filter(MruScope::All, Some(MruFilter::AppId)));
    assert_eq!(mru.app_id_filter, None);
    assert_eq!(current(&mru), Some(1));
}

#[test]
fn everything_is_shown_in_the_widest_scope() {
    let mut mru = mru(vec![app(1, "a"), app(2, "b"), on_output(3)]);
    mru.set_filter(MruFilter::AppId);
    mru.set_scope_and_filter(MruScope::All, Some(MruFilter::Any));
    assert_eq!(shown(&mru), vec![1, 2, 3]);
}

#[test]
fn removing_the_selected_window_selects_the_next() {
    let mut mru = mru(vec![thumbnail(1), thumbnail(2), thumbnail(3)]);
    mru.set_current(MappedId(2));
    assert_eq!(mru.remove(MappedId(2)).unwrap().id, MappedId(2));
    assert_eq!(current(&mru), Some(3));
    mru.remove(MappedId(3));
    assert_eq!(current(&mru), Some(1));
    mru.remove(MappedId(1));
    assert_eq!(current(&mru), None);
    assert!(mru.is_empty());
}

#[test]
fn removing_another_window_keeps_the_selection() {
    let mut mru = mru(vec![thumbnail(1), thumbnail(2), thumbnail(3)]);
    mru.remove(MappedId(3));
    assert_eq!(current(&mru), Some(1));
    assert_eq!(ids(&mru), vec![1, 2]);
    assert!(mru.remove(MappedId(3)).is_none());
    assert_eq!(ids(&mru), vec![1, 2]);
}

#[test]
fn removing_the_last_shown_window_selects_none() {
    let mut mru = mru(vec![app(1, "a"), app(2, "b")]);
    mru.set_filter(MruFilter::AppId);
    mru.remove(MappedId(1));
    assert_eq!(current(&mru), None);
    assert_eq!(ids(&mru), vec![2]);
}

#[test]
fn the_layout_is_walked_most_recent_first() {
    let window = |id: u64, focus_timestamp: Option<u128>| WindowSnapshot {
        id: MappedId(id),
        focus_timestamp,
        app_id: Some(format!("app-{id}")),
    };
    let layout = LayoutSnapshot {
        active_output: Some(OutputId(1)),
        workspaces: vec![
            WorkspaceSnapshot {
                monitor: Some(MonitorSnapshot {
                    output: OutputId(1),
                    active_workspace_idx: 1,
                }),
                idx: 0,
                windows: vec![window(1, Some(10)), window(2, None)],
            },
            WorkspaceSnapshot {
                monitor: Some(MonitorSnapshot {
                    output: OutputId(1),
                    active_workspace_idx: 1,
                }),
                idx: 1,
                windows: vec![window(3, Some(30)), window(4, Some(10))],
            },
            WorkspaceSnapshot {
                monitor: Some(MonitorSnapshot {
                    output: OutputId(2),
                    active_workspace_idx: 0,
                }),
                idx: 0,
                windows: vec![window(5, None), window(6, Some(20))],
            },
        ],
    };
    let mut mru = WindowMru::new(&layout);
    assert_eq!(ids(&mru), vec![3, 6, 1, 4, 2, 5]);
    assert_eq!(current(&mru), Some(3));
    assert_eq!(mru.thumbnails[0].app_id, Some("app-3".to_string()));
    assert!(mru.verify_invariants());
    mru.set_scope(MruScope::Output);
    assert_eq!(shown(&mru), vec![3, 1, 4, 2]);
    mru.set_scope(MruScope::Workspace);
    assert_eq!(shown(&mru), vec![3, 4]);
}

#[test]
fn without_an_active_output_there_is_nothing_to_walk() {
    let layout = LayoutSnapshot {
        active_output: None,
        workspaces: vec![WorkspaceSnapshot {
            monitor: None,
            idx: 0,
            windows: vec![WindowSnapshot {
                id: MappedId(1),
                focus_timestamp: None,
                app_id: None,
            }],
        }],
    };
    let mru = WindowMru::new(&layout);
    assert!(mru.is_empty());
    assert_eq!(current(&mru), None);
    assert_eq!(mru.scope, MruScope::All);
}

#[test]
fn sorting_agrees_with_a_stable_sort() {
    let mut random = Random(3);
    for _ in 0..200 {
        let n = random.below(12);
        let thumbnails: Vec<Thumbnail> = (0..n).map(|id| random.thumbnail(id)).collect();
        let mut keys: Vec<(Option<u128>, u64)> =
            thumbnails.iter().map(|t| (t.timestamp, t.id.0)).collect();
        keys.sort_by(|a, b| b.0.cmp(&a.0));
        let sorted = sort_by_recency(thumbnails);
        let found: Vec<(Option<u128>, u64)> =
            sorted.iter().map(|t| (t.timestamp, t.id.0)).collect();
        assert_eq!(found, keys);
    }
}

#[test]
fn windows_missing_from_the_layout_are_left_out() {
    let mut mru = mru(vec![on_output(1), thumbnail(2), on_output(3), on_output(4)]);
    mru.set_scope(MruScope::Output);
    let windows = vec![MappedId(4), MappedId(2), MappedId(1), MappedId(4)];
    assert_eq!(
        mru.laid_out(&windows),
        vec![
            LaidOut {
                thumbnail: 0,
                window: 2
            },
            LaidOut {
                thumbnail: 3,
                window: 0
            },
        ]
    );
}

#[test]
fn all_thumbnails_open_together() {
    let mut mru = mru(vec![thumbnail(1), thumbnail(2)]);
    mru.start_opening(AnimationId(4));
    assert!(mru
        .thumbnails
        .iter()
        .all(|t| t.open_animation == Some(AnimationId(4))));
    mru.advance_animations(&vec![AnimationId(3)]);
    assert!(mru.thumbnails.iter().all(|t| t.are_animations_ongoing()));
    mru.advance_animations(&vec![AnimationId(3), AnimationId(4)]);
    assert!(mru.thumbnails.iter().all(|t| !t.are_animations_ongoing()));
}
