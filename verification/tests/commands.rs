use sommerfluss_ipc::cmd_bind::{
    cmd_keybind, cmd_keyunbind, cmd_mousebind, cmd_mouseunbind, cmd_spawn,
};
use sommerfluss_ipc::cmd_monitor::{
    cmd_add_monitor, cmd_cycle_monitor, cmd_detect_monitors, cmd_focus_monitor, cmd_lock_tag,
    cmd_pad, cmd_raise_monitor, cmd_set_monitors,
};
use sommerfluss_ipc::cmd_rule::{cmd_rule, cmd_set_tag_monitor, cmd_unrule};
use sommerfluss_ipc::cmd_set::cmd_set;
use sommerfluss_ipc::cmd_tag::{cmd_move, cmd_use, cmd_use_index};
use sommerfluss_ipc::cmd_tree::{
    cmd_cycle, cmd_cycle_all, cmd_cycle_layout, cmd_focus, cmd_remove, cmd_resize,
    cmd_set_layout, cmd_shift, cmd_split,
};
use sommerfluss_ipc::cmd_window::{
    cmd_close, cmd_floating, cmd_floating_geometry, cmd_window_mode, WinMode,
};
use sommerfluss_ipc::dispatch::{dispatch, handle_request, Command};
use sommerfluss_ipc::frame::{Dir, LayoutMode, SplitDir};
use sommerfluss_ipc::geometry::{Insets, Rect};
use sommerfluss_ipc::listing::{cmd_dump, list_clients, list_monitors, list_outputs};
use sommerfluss_ipc::state::{
    Focus, Monitor, MonitorSel, Monitors, Op, Output, Placement, Rule, State, Tree, Window,
};
use sommerfluss_ipc::step::{resume, Answer, Call, Step};
use std::collections::HashMap;

const AREA: Rect = Rect { w: 1920, h: 1080, x: 0, y: 0 };
const CENTRE: Rect = Rect { w: 960, h: 540, x: 480, y: 270 };

fn words(s: &str) -> Vec<String> {
    s.split_whitespace().map(|w| w.to_string()).collect()
}

fn monitor(id: u32, name: Option<&str>, tag: u32) -> Monitor {
    Monitor {
        id,
        name: name.map(|n| n.to_string()),
        rect: Rect { w: 1920, h: 1080, x: 1920 * id as i32, y: -5 },
        z: id as i32 - 1,
        tag,
        locked_tag: None,
    }
}

fn window(tag: u32) -> Window {
    Window {
        tag,
        app_id: None,
        title: None,
        fullscreen: false,
        pseudotile: false,
        floating: false,
        float_geo: AREA,
    }
}

/// Two monitors on the tags 1 and 3, the first with the focus; the windows 7,
/// 9 and 30 on tag 1, the second of them with the focus.
fn state() -> State {
    let mut windows = HashMap::new();
    windows.insert(9, window(1));
    windows.insert(30, window(1));
    windows.insert(7, window(1));
    let mut tags = HashMap::new();
    tags.insert(
        1,
        Tree {
            windows: vec![9, 7, 30],
            focused: Some(9),
            description: "leaf [9 7 30]\n".to_string(),
            placements: vec![
                Placement { win: 9, rect: Rect { w: 10, h: 20, x: 0, y: 4 }, visible: true },
                Placement { win: 7, rect: Rect { w: 10, h: 20, x: -1, y: 0 }, visible: false },
            ],
        },
    );
    State {
        monitors: Monitors { list: vec![monitor(0, None, 1), monitor(1, Some("float1"), 3)], focus: 0 },
        outputs: vec![],
        windows,
        tags,
        tag_monitor: HashMap::new(),
        last_rects: HashMap::new(),
        focus: Focus { window: Some(9), tag: 1, area: AREA, float_default: CENTRE },
        window_gap: 6,
        border_width: 2,
        border_active: (1, 2, 3, 255),
        border_normal: (4, 5, 6, 255),
        rules: vec![],
        pending_close: vec![],
        ops: vec![],
    }
}

fn sel(s: &str) -> MonitorSel {
    MonitorSel { text: s.to_string() }
}

fn reply(step: Step) -> String {
    match step {
        Step::Reply(text) => text,
        Step::Call(call) => panic!("{call:?}"),
    }
}

fn call(step: Step) -> Call {
    match step {
        Step::Call(call) => call,
        Step::Reply(text) => panic!("{text}"),
    }
}

// --- monitors ----------------------------------------------------------------

#[test]
fn set_monitors_is_all_or_nothing() {
    let mut s = state();
    assert_eq!(cmd_set_monitors(&mut s, &words("10x20+0+0 30x40-5+6")), "ok\n");
    assert_eq!(
        s.ops,
        vec![
            Op::SetMonitors(vec![
                Rect { w: 10, h: 20, x: 0, y: 0 },
                Rect { w: 30, h: 40, x: -5, y: 6 },
            ]),
            Op::Manage,
        ]
    );
    let mut s = state();
    assert_eq!(
        cmd_set_monitors(&mut s, &words("10x20+0+0 bad worse")),
        "error: set_monitors: bad rect 'bad'\n"
    );
    assert_eq!(
        cmd_set_monitors(&mut s, &[]),
        "error: set_monitors: expected at least one WxH+X+Y rect\n"
    );
    assert_eq!(s.ops, vec![]);
}

#[test]
fn add_monitor_calls_and_reports_the_id() {
    let rect = Rect { w: 3840, h: 2160, x: 1440, y: 0 };
    let c = call(cmd_add_monitor(&words("3840x2160+1440+0 8 float1")));
    assert_eq!(c, Call::AddMonitor { rect, tag: 8, name: Some("float1".to_string()) });
    let mut s = state();
    assert_eq!(reply(resume(&mut s, c, Answer::Added(12))), "monitor 12\n");
    assert_eq!(s.ops, vec![Op::Manage]);
    assert_eq!(
        call(cmd_add_monitor(&words("3840x2160+1440+0 8"))),
        Call::AddMonitor { rect, tag: 8, name: None }
    );
    assert_eq!(
        reply(cmd_add_monitor(&words("3840x2160+1440+0"))),
        "error: add_monitor: expected <rect> <tag> [name]\n"
    );
    assert_eq!(reply(cmd_add_monitor(&words("r t"))), "error: add_monitor: bad rect 'r'\n");
    assert_eq!(reply(cmd_add_monitor(&words("1x1+0+0 t"))), "error: add_monitor: bad tag 't'\n");
}

#[test]
fn commands_that_name_a_monitor() {
    let mut s = state();
    let c = call(cmd_raise_monitor(&words("float1")));
    assert_eq!(c, Call::RaiseMonitor { sel: sel("float1") });
    assert_eq!(reply(resume(&mut s, c, Answer::Found(true))), "ok\n");
    assert_eq!(s.ops, vec![Op::Manage]);

    let mut s = state();
    let c = call(cmd_raise_monitor(&words("x")));
    assert_eq!(
        reply(resume(&mut s, c, Answer::Found(false))),
        "error: raise_monitor: no such monitor 'x'\n"
    );
    let c = call(cmd_focus_monitor(&words("y")));
    assert_eq!(c, Call::FocusMonitor { sel: sel("y") });
    assert_eq!(
        reply(resume(&mut s, c, Answer::Found(false))),
        "error: focus_monitor: no such monitor 'y'\n"
    );
    let c = call(cmd_lock_tag(&words("8 z")));
    assert_eq!(c, Call::LockTag { tag: 8, sel: sel("z") });
    assert_eq!(
        reply(resume(&mut s, c, Answer::Found(false))),
        "error: lock_tag: no such monitor 'z'\n"
    );
    assert_eq!(s.ops, vec![]);

    assert_eq!(
        reply(cmd_raise_monitor(&[])),
        "error: raise_monitor: expected a monitor selector\n"
    );
    assert_eq!(
        reply(cmd_focus_monitor(&[])),
        "error: focus_monitor: expected a monitor selector\n"
    );
    assert_eq!(reply(cmd_lock_tag(&words("8"))), "error: lock_tag: expected <tag> <monitor>\n");
    assert_eq!(reply(cmd_lock_tag(&words("a b"))), "error: lock_tag: bad tag 'a'\n");
}

#[test]
fn pad_fills_missing_edges_with_zero() {
    let pad = |top, right, bottom, left| Call::SetPad {
        sel: sel("0"),
        pad: Insets { top, right, bottom, left },
    };
    assert_eq!(call(cmd_pad(&words("0 20"))), pad(20, 0, 0, 0));
    assert_eq!(call(cmd_pad(&words("0 1 -2 3"))), pad(1, -2, 3, 0));
    assert_eq!(call(cmd_pad(&words("0 1 2 3 4 5"))), pad(1, 2, 3, 4));
    assert_eq!(
        reply(cmd_pad(&words("0"))),
        "error: pad: expected <monitor> <top> [right] [bottom] [left]\n"
    );
    assert_eq!(reply(cmd_pad(&words("0 1 x"))), "error: pad: edge values must be integers\n");
    assert_eq!(
        reply(cmd_pad(&words("0 1 2 3 4 x"))),
        "error: pad: edge values must be integers\n"
    );
    let mut s = state();
    let c = call(cmd_pad(&words("0 20")));
    assert_eq!(reply(resume(&mut s, c, Answer::Found(false))), "error: pad: no such monitor '0'\n");
}

#[test]
fn cycle_and_detect_monitors() {
    let mut s = state();
    assert_eq!(cmd_cycle_monitor(&mut s, &words("-1")), "ok\n");
    assert_eq!(cmd_cycle_monitor(&mut s, &[]), "ok\n");
    assert_eq!(s.ops, vec![Op::CycleMonitor(-1), Op::Manage, Op::CycleMonitor(1), Op::Manage]);
    let mut s = state();
    assert_eq!(cmd_detect_monitors(&mut s), "ok\n");
    assert_eq!(s.monitors.list, vec![]);
    assert_eq!(s.ops, vec![Op::DetectMonitors, Op::Manage]);
}

// --- tags --------------------------------------------------------------------

#[test]
fn use_focuses_the_home_monitor_first() {
    let mut s = state();
    assert_eq!(cmd_use(&mut s, &words("5")), "ok\n");
    assert_eq!(s.ops, vec![Op::ShowOnFocused(5), Op::Manage]);

    let mut s = state();
    assert_eq!(cmd_set_tag_monitor(&mut s, &words("5 float1")), "ok\n");
    assert_eq!(s.ops, vec![Op::Manage]);
    assert_eq!(cmd_use(&mut s, &words("5")), "ok\n");
    assert_eq!(s.ops[1..], [Op::FocusMonitor(sel("float1")), Op::ShowOnFocused(5), Op::Manage]);

    let mut s = state();
    assert_eq!(cmd_use(&mut s, &words("five")), "error: use: expected a tag\n");
    assert_eq!(cmd_use(&mut s, &[]), "error: use: expected a tag\n");
    assert_eq!(
        cmd_set_tag_monitor(&mut s, &words("5")),
        "error: set_tag_monitor: expected <tag> <monitor>\n"
    );
    assert_eq!(
        cmd_set_tag_monitor(&mut s, &words("five m")),
        "error: set_tag_monitor: bad tag 'five'\n"
    );
    assert_eq!(s.ops, vec![]);
    assert!(s.tag_monitor.is_empty());
}

/// The tag that an index leads to.
fn index(s: &mut State, args: &str) -> u32 {
    assert_eq!(cmd_use_index(s, &words(args)), "ok\n");
    assert_eq!(s.ops.pop(), Some(Op::Manage));
    match s.ops.pop() {
        Some(Op::ShowOnFocused(tag)) => tag,
        op => panic!("{op:?}"),
    }
}

#[test]
fn absolute_indices() {
    let mut s = state();
    assert_eq!(index(&mut s, "0"), 1);
    assert_eq!(index(&mut s, "8"), 9);
    assert_eq!(
        cmd_use_index(&mut s, &words("9")),
        "error: use_index: index 9 out of range\n"
    );
    assert_eq!(cmd_use_index(&mut s, &words("x")), "error: use_index: bad index 'x'\n");
    assert_eq!(cmd_use_index(&mut s, &[]), "error: use_index: expected an index\n");
    assert_eq!(s.ops, vec![]);
}

#[test]
fn relative_indices_go_round() {
    let mut s = state();
    assert_eq!(index(&mut s, "+1"), 2);
    assert_eq!(index(&mut s, "-1"), 9);
    assert_eq!(index(&mut s, "+0"), 2);
    assert_eq!(index(&mut s, "-0"), 2);
    assert_eq!(index(&mut s, "+9"), 1);
    assert_eq!(index(&mut s, "+21"), 4);
    assert_eq!(index(&mut s, "-20"), 8);
    assert_eq!(
        cmd_use_index(&mut s, &words("+x")),
        "error: use_index: bad relative index '+x'\n"
    );
    assert_eq!(
        cmd_use_index(&mut s, &words("--skip-visible +1")),
        "error: use_index: bad relative index '--skip-visible'\n"
    );
}

#[test]
fn relative_indices_there_and_back() {
    let mut s = state();
    for k in [1, 4, 9, 13] {
        s.monitors.list[0].tag = 6;
        s.monitors.list[0].tag = index(&mut s, &format!("+{k}"));
        assert_eq!(index(&mut s, &format!("-{k}")), 6);
    }
}

#[test]
fn relative_indices_skip_visible_tags() {
    // The other monitor displays 3; the focused one displays 1.
    let mut s = state();
    assert_eq!(index(&mut s, "+1 --skip-visible"), 2);
    assert_eq!(index(&mut s, "+2 --skip-visible"), 4);
    assert_eq!(index(&mut s, "-1 --skip-visible"), 9);
    assert_eq!(index(&mut s, "+7 --skip-visible"), 9);
    assert_eq!(index(&mut s, "-7 --skip-visible"), 2);
    assert_eq!(index(&mut s, "+8 --skip-visible"), 1);
    assert_eq!(index(&mut s, "-9 --skip-visible"), 9);
    // Both display 1, so it is skipped.
    s.monitors.list[1].tag = 1;
    assert_eq!(index(&mut s, "+8 --skip-visible"), 9);
    assert_eq!(index(&mut s, "+9 --skip-visible"), 2);
}

#[test]
fn relative_indices_stay_when_all_tags_are_visible() {
    let mut s = state();
    s.monitors.list = (1..=9).map(|t| monitor(t, None, t)).collect();
    s.monitors.focus = 3;
    assert_eq!(index(&mut s, "+1 --skip-visible"), 4);
    assert_eq!(index(&mut s, "-5 --skip-visible"), 4);
    assert_eq!(index(&mut s, "+1"), 5);
    s.monitors.list.push(monitor(10, None, 4));
    assert_eq!(index(&mut s, "+1 --skip-visible"), 4);
}

#[test]
fn relative_indices_from_no_tag() {
    let mut s = state();
    s.monitors.list[0].tag = 12;
    assert_eq!(index(&mut s, "+1"), 2);
    s.monitors.focus = 5;
    assert_eq!(index(&mut s, "-1"), 9);
}

#[test]
fn the_smallest_and_the_largest_index() {
    let mut s = state();
    assert_eq!(index(&mut s, "-2147483648"), 8);
    assert_eq!(index(&mut s, "+2147483647"), 2);
    assert_eq!(
        cmd_use_index(&mut s, &words("-2147483649")),
        "error: use_index: bad relative index '-2147483649'\n"
    );
}

#[test]
fn move_changes_tag_and_trees() {
    let mut s = state();
    assert_eq!(cmd_move(&mut s, &words("4")), "ok\n");
    assert_eq!(s.windows[&9].tag, 4);
    assert_eq!(s.windows[&7], window(1));
    assert_eq!(
        s.ops,
        vec![
            Op::RemoveWindow { tag: 1, win: 9 },
            Op::InsertWindow { tag: 4, win: 9 },
            Op::Manage,
        ]
    );
    // Once more to the same tag, and from a tag without a tree.
    assert_eq!(cmd_move(&mut s, &words("4")), "ok\n");
    assert_eq!(s.ops.len(), 3);
    s.ops.clear();
    assert_eq!(cmd_move(&mut s, &words("2")), "ok\n");
    assert_eq!(s.ops, vec![Op::InsertWindow { tag: 2, win: 9 }, Op::Manage]);
}

#[test]
fn move_errors() {
    let mut s = state();
    assert_eq!(cmd_move(&mut s, &words("x")), "error: move: expected a tag\n");
    s.focus.window = Some(99);
    assert_eq!(cmd_move(&mut s, &words("2")), "error: move: focused window missing\n");
    s.focus.window = None;
    assert_eq!(cmd_move(&mut s, &words("2")), "error: move: no focused window\n");
    assert_eq!(s.ops, vec![]);
}

// --- frame tree ----------------------------------------------------------------

#[test]
fn tree_operations() {
    let mut s = state();
    assert_eq!(cmd_split(&mut s, &words("explode")), "ok\n");
    assert_eq!(cmd_split(&mut s, &words("left 0.3")), "ok\n");
    assert_eq!(cmd_focus(&mut s, &words("up")), "ok\n");
    assert_eq!(cmd_shift(&mut s, &words("down")), "ok\n");
    assert_eq!(cmd_resize(&mut s, &words("right ++0.02")), "ok\n");
    assert_eq!(cmd_resize(&mut s, &words("left")), "ok\n");
    assert_eq!(cmd_remove(&mut s), "ok\n");
    assert_eq!(cmd_cycle(&mut s, &words("-2")), "ok\n");
    assert_eq!(cmd_set_layout(&mut s, &words("grid")), "ok\n");
    assert_eq!(cmd_cycle_layout(&mut s), "ok\n");
    let ops: Vec<Op> = s.ops.into_iter().filter(|op| *op != Op::Manage).collect();
    assert_eq!(
        ops,
        vec![
            Op::Split { how: SplitDir::Explode, fraction: None },
            Op::Split { how: SplitDir::Left, fraction: Some("0.3".to_string()) },
            Op::FocusDir { dir: Dir::Up, area: AREA, gap: 6 },
            Op::ShiftDir { dir: Dir::Down, area: AREA, gap: 6 },
            Op::Resize { dir: Dir::Right, delta: Some("0.02".to_string()) },
            Op::Resize { dir: Dir::Left, delta: None },
            Op::RemoveFrame,
            Op::Cycle(-2),
            Op::SetLayout(LayoutMode::Grid),
            Op::CycleLayout,
        ]
    );
}

#[test]
fn tree_errors() {
    let mut s = state();
    assert_eq!(
        cmd_split(&mut s, &words("across")),
        "error: split: expected top|bottom|left|right|horizontal|vertical|explode\n"
    );
    assert_eq!(cmd_focus(&mut s, &[]), "error: focus: expected left|down|up|right\n");
    assert_eq!(cmd_shift(&mut s, &words("x")), "error: shift: expected left|down|up|right\n");
    assert_eq!(
        cmd_resize(&mut s, &words("x 1")),
        "error: resize: expected left|down|up|right <delta>\n"
    );
    assert_eq!(
        cmd_set_layout(&mut s, &words("x")),
        "error: set_layout: expected max|vertical|horizontal|grid\n"
    );
    assert_eq!(s.ops, vec![]);
}

fn cycled(s: &mut State, args: &str) -> u64 {
    assert_eq!(cmd_cycle_all(s, &words(args)), "ok\n");
    assert_eq!(s.ops.pop(), Some(Op::Manage));
    match s.ops.pop() {
        Some(Op::FocusWindow(win)) => win,
        op => panic!("{op:?}"),
    }
}

#[test]
fn cycle_all_goes_round() {
    // In the order of the tree: 9, 7, 30.
    let mut s = state();
    assert_eq!(cycled(&mut s, ""), 7);
    assert_eq!(cycled(&mut s, "2"), 30);
    assert_eq!(cycled(&mut s, "-1"), 30);
    assert_eq!(cycled(&mut s, "-7"), 30);
    assert_eq!(cycled(&mut s, "3"), 9);
    assert_eq!(cycled(&mut s, "nonsense"), 7);
    // There and back.
    for delta in [1, 2, 5, -4] {
        s.tags.get_mut(&1).unwrap().focused = Some(7);
        let there = cycled(&mut s, &delta.to_string());
        s.tags.get_mut(&1).unwrap().focused = Some(there);
        assert_eq!(cycled(&mut s, &(-delta).to_string()), 7);
    }
    // From no window, or one that is not there: from the first.
    s.tags.get_mut(&1).unwrap().focused = None;
    assert_eq!(cycled(&mut s, "1"), 7);
    s.tags.get_mut(&1).unwrap().focused = Some(1000);
    assert_eq!(cycled(&mut s, "1"), 7);
}

#[test]
fn cycle_all_without_windows_does_nothing() {
    let mut s = state();
    s.focus.tag = 2;
    assert_eq!(cmd_cycle_all(&mut s, &words("1")), "ok\n");
    s.focus.tag = 1;
    s.tags.get_mut(&1).unwrap().windows.clear();
    assert_eq!(cmd_cycle_all(&mut s, &words("1")), "ok\n");
    assert_eq!(s.ops, vec![]);
}

#[test]
fn cycle_all_by_the_largest_steps() {
    let mut s = state();
    assert_eq!(cycled(&mut s, "2147483647"), 7);
    assert_eq!(cycled(&mut s, "-2147483648"), 7);
    s.tags.get_mut(&1).unwrap().focused = Some(7);
    assert_eq!(cycled(&mut s, "2147483647"), 30);
}

// --- settings ------------------------------------------------------------------

#[test]
fn settings() {
    let mut s = state();
    assert_eq!(cmd_set(&mut s, &words("window_gap 12")), "ok\n");
    assert_eq!(s.window_gap, 12);
    assert_eq!(cmd_set(&mut s, &words("window_gap -12")), "ok\n");
    assert_eq!(s.window_gap, 0);
    assert_eq!(cmd_set(&mut s, &words("border_width 3")), "ok\n");
    assert_eq!(cmd_set(&mut s, &words("border_width -1")), "ok\n");
    assert_eq!(s.border_width, 0);
    assert_eq!(cmd_set(&mut s, &words("border_color_active #0a0b0c")), "ok\n");
    assert_eq!(s.border_active, (10, 11, 12, 255));
    assert_eq!(cmd_set(&mut s, &words("frame_border_active_color #0a0b0c0d")), "ok\n");
    assert_eq!(s.border_active, (10, 11, 12, 13));
    assert_eq!(cmd_set(&mut s, &words("border_color_normal #ffffff")), "ok\n");
    assert_eq!(s.border_normal, (255, 255, 255, 255));
    assert_eq!(cmd_set(&mut s, &words("frame_border_normal_color 000000")), "ok\n");
    assert_eq!(s.border_normal, (0, 0, 0, 255));
    assert_eq!(s.ops.len(), 8);
    assert!(s.ops.iter().all(|op| *op == Op::Manage));
}

#[test]
fn settings_that_are_refused_or_ignored() {
    let mut s = state();
    assert_eq!(cmd_set(&mut s, &words("window_gap")), "error: set: expected <name> <value>\n");
    assert_eq!(
        cmd_set(&mut s, &words("window_gap x")),
        "error: set window_gap: expected an integer\n"
    );
    assert_eq!(
        cmd_set(&mut s, &words("border_width 1.5")),
        "error: set border_width: expected an integer\n"
    );
    assert_eq!(
        cmd_set(&mut s, &words("border_color_active red")),
        "error: set: bad colour (use #rrggbb)\n"
    );
    assert_eq!(
        cmd_set(&mut s, &words("border_color_normal #12")),
        "error: set: bad colour (use #rrggbb)\n"
    );
    assert_eq!(cmd_set(&mut s, &words("smart_gaps on")), "ok\n");
    assert_eq!((s.window_gap, s.border_width), (6, 2));
    assert_eq!((s.border_active, s.border_normal), ((1, 2, 3, 255), (4, 5, 6, 255)));
    assert_eq!(s.ops, vec![]);
    assert_eq!(
        cmd_set(&mut s, &words("border_color_active €abc")),
        "error: set: bad colour (use #rrggbb)\n"
    );
    assert_eq!(
        cmd_set(&mut s, &words("frame_border_normal_color #+f+f+f")),
        "error: set: bad colour (use #rrggbb)\n"
    );
    assert_eq!(s.border_active, (1, 2, 3, 255));
    assert_eq!(s.ops, vec![]);
}

// --- windows -------------------------------------------------------------------

#[test]
fn close_is_pending() {
    let mut s = state();
    assert_eq!(cmd_close(&mut s), "ok\n");
    assert_eq!(s.pending_close, vec![9]);
    assert_eq!(s.ops, vec![Op::Manage]);
    s.focus.window = None;
    assert_eq!(cmd_close(&mut s), "error: close: no focused window\n");
    assert_eq!(s.pending_close, vec![9]);
}

#[test]
fn window_modes() {
    let mut s = state();
    assert_eq!(cmd_window_mode(&mut s, &[], WinMode::Fullscreen), "ok\n");
    assert!(s.windows[&9].fullscreen && !s.windows[&9].pseudotile);
    assert_eq!(cmd_window_mode(&mut s, &[], WinMode::Fullscreen), "ok\n");
    assert_eq!(s.windows[&9], window(1));
    cmd_window_mode(&mut s, &words("toggle"), WinMode::Fullscreen);
    cmd_window_mode(&mut s, &words("toggle"), WinMode::Fullscreen);
    assert_eq!(s.windows[&9], window(1));
    for (word, on) in [("on", true), ("true", true), ("off", false), ("false", false)] {
        cmd_window_mode(&mut s, &words(word), WinMode::Pseudotile);
        assert_eq!(s.windows[&9].pseudotile, on);
        cmd_window_mode(&mut s, &words(word), WinMode::Pseudotile);
        assert_eq!(s.windows[&9].pseudotile, on);
    }
    cmd_window_mode(&mut s, &words("whatever"), WinMode::Pseudotile);
    assert!(s.windows[&9].pseudotile);
    assert_eq!(s.windows[&7], window(1));
    assert_eq!(s.windows.len(), 3);
    // A window that is not known has no modes, but a pass is due.
    let mut s = state();
    s.focus.window = Some(99);
    assert_eq!(cmd_window_mode(&mut s, &[], WinMode::Fullscreen), "ok\n");
    assert_eq!(s.ops, vec![Op::Manage]);
    assert_eq!(s.windows.len(), 3);
    s.focus.window = None;
    assert_eq!(cmd_window_mode(&mut s, &[], WinMode::Fullscreen), "error: no focused window\n");
}

#[test]
fn floating_on_and_off() {
    let mut s = state();
    assert_eq!(cmd_floating(&mut s, &words("off")), "ok\n");
    assert_eq!(s.ops, vec![Op::Manage]);
    assert_eq!(cmd_floating(&mut s, &[]), "ok\n");
    assert_eq!(s.ops[1..], [Op::MakeFloating { win: 9, geo: CENTRE }, Op::Manage]);
    let last = Rect { w: 1, h: 2, x: 3, y: 4 };
    s.last_rects.insert(9, last);
    assert_eq!(cmd_floating(&mut s, &words("on")), "ok\n");
    assert_eq!(s.ops[3..], [Op::MakeFloating { win: 9, geo: last }, Op::Manage]);
    s.windows.get_mut(&9).unwrap().floating = true;
    assert_eq!(cmd_floating(&mut s, &words("on")), "ok\n");
    assert_eq!(s.ops[5..], [Op::Manage]);
    assert_eq!(cmd_floating(&mut s, &words("toggle")), "ok\n");
    assert_eq!(s.ops[6..], [Op::Manage]);
    assert_eq!(s.windows[&9], window(1));
    s.focus.window = None;
    assert_eq!(cmd_floating(&mut s, &[]), "error: floating: no focused window\n");
}

#[test]
fn floating_geometry_floats_and_pins() {
    let geo = Rect { w: 300, h: 200, x: 10, y: 20 };
    let mut s = state();
    assert_eq!(cmd_floating_geometry(&mut s, &words("300x200+10+20")), "ok\n");
    assert_eq!(
        s.ops,
        vec![
            Op::MakeFloating { win: 9, geo },
            Op::PinFloating { win: 9, geo },
            Op::Manage,
        ]
    );
    s.pin_floating(9, geo);
    assert_eq!(s.windows[&9], Window { floating: true, float_geo: geo, ..window(1) });
    s.pin_floating(99, geo);
    assert_eq!(s.windows.len(), 3);
    assert_eq!(
        cmd_floating_geometry(&mut s, &words("300")),
        "error: floating_geometry: expected WxH+X+Y\n"
    );
    s.focus.window = None;
    assert_eq!(
        cmd_floating_geometry(&mut s, &words("300x200+10+20")),
        "error: floating_geometry: no focused window\n"
    );
}

// --- bindings and programs -----------------------------------------------------

#[test]
fn keybind_looks_the_key_up_first() {
    let mut s = state();
    let c = call(cmd_keybind(&words("Mod4-Shift-Return spawn foot -e")));
    assert_eq!(
        c,
        Call::LookUpKey { mods: 65, key: "Return".to_string(), command: words("spawn foot -e") }
    );
    let c = call(resume(&mut s, c, Answer::Keysym(0xff0d)));
    assert_eq!(s.ops, vec![]);
    assert_eq!(
        c,
        Call::AddKeybind { mods: 65, keysym: 0xff0d, command: words("spawn foot -e") }
    );
    assert_eq!(reply(resume(&mut s, c, Answer::Done(Ok(())))), "ok\n");
    assert_eq!(s.ops, vec![Op::Manage]);

    let c = call(cmd_keybind(&words("Mod4-nokey quit")));
    assert_eq!(
        reply(resume(&mut s, c, Answer::Keysym(0))),
        "error: keybind: unknown key 'nokey'\n"
    );
    let c = call(cmd_keybind(&words("a quit")));
    let c = call(resume(&mut s, c, Answer::Keysym(0x61)));
    assert_eq!(
        reply(resume(&mut s, c, Answer::Done(Err("no seat".to_string())))),
        "error: keybind: no seat\n"
    );
    assert_eq!(
        reply(cmd_keybind(&words("Mod9-a quit"))),
        "error: keybind: unknown modifier 'mod9'\n"
    );
    assert_eq!(reply(cmd_keybind(&words("+ quit"))), "error: keybind: empty binding '+'\n");
    assert_eq!(
        reply(cmd_keybind(&words("Mod4-a"))),
        "error: keybind: expected <mods+key> <command...>\n"
    );
    assert_eq!(s.ops, vec![Op::Manage]);
}

#[test]
fn mousebind_actions() {
    let mut s = state();
    let bind = |resize| Call::AddMousebind { mods: 64, button: 0x110, resize };
    assert_eq!(call(cmd_mousebind(&words("Mod4-Button1 move"))), bind(false));
    assert_eq!(call(cmd_mousebind(&words("Mod4-Button1 resize"))), bind(true));
    assert_eq!(call(cmd_mousebind(&words("Mod4-Button1 zoom"))), bind(true));
    assert_eq!(reply(resume(&mut s, bind(true), Answer::Done(Ok(())))), "ok\n");
    assert_eq!(
        reply(resume(&mut s, bind(true), Answer::Done(Err("no seat".to_string())))),
        "error: mousebind: no seat\n"
    );
    assert_eq!(
        reply(cmd_mousebind(&words("Mod4-Button1 spin"))),
        "error: mousebind: unknown action 'spin'\n"
    );
    assert_eq!(
        reply(cmd_mousebind(&words("Mod4-Button9 spin"))),
        "error: mousebind: unknown button 'Button9'\n"
    );
    assert_eq!(
        reply(cmd_mousebind(&words("Mod4-Button1"))),
        "error: mousebind: expected <mods+ButtonN> <move|resize|zoom>\n"
    );
    assert_eq!(s.ops, vec![Op::Manage]);
}

#[test]
fn unbinding() {
    let mut s = state();
    assert_eq!(cmd_mouseunbind(&mut s, &words("x")), "ok\n");
    assert_eq!(cmd_keyunbind(&mut s, &words("--all")), "ok\n");
    assert_eq!(
        s.ops,
        vec![Op::ClearMousebinds, Op::Manage, Op::ClearKeybinds, Op::Manage]
    );
}

#[test]
fn spawning() {
    let mut s = state();
    let c = call(cmd_spawn(&words("foot -e sh")));
    assert_eq!(c, Call::Spawn { program: "foot".to_string(), args: words("-e sh") });
    assert_eq!(reply(resume(&mut s, c, Answer::Done(Ok(())))), "ok\n");
    let c = call(cmd_spawn(&words("foot")));
    assert_eq!(
        reply(resume(&mut s, c, Answer::Done(Err("not found".to_string())))),
        "error: spawn: not found\n"
    );
    assert_eq!(reply(cmd_spawn(&[])), "error: spawn: expected a command\n");
}

// --- rules -----------------------------------------------------------------------

fn rule(args: &[&str]) -> Rule {
    let mut s = state();
    let args: Vec<String> = args.iter().map(|a| a.to_string()).collect();
    assert_eq!(cmd_rule(&mut s, &args), "ok\n");
    assert_eq!(s.ops, vec![Op::Manage]);
    assert_eq!(s.rules.len(), 1);
    s.rules.pop().unwrap()
}

fn no_rule() -> Rule {
    Rule { app_id: None, title: None, tag: None, floating: None, pseudotile: None }
}

#[test]
fn rules_are_read() {
    assert_eq!(rule(&[]), no_rule());
    assert_eq!(
        rule(&["app_id=foot", "title~^a=b", "tag=4", "floating=on", "pseudotile=off"]),
        Rule {
            app_id: Some((true, "foot".to_string())),
            title: Some((false, "^a=b".to_string())),
            tag: Some(4),
            floating: Some(true),
            pseudotile: Some(false),
        }
    );
    for on in ["on", "true", "1"] {
        assert_eq!(rule(&[&format!("floating={on}")]).floating, Some(true));
        assert_eq!(rule(&[&format!("pseudotile~{on}")]).pseudotile, Some(true));
    }
    for off in ["off", "yes", "", "On"] {
        assert_eq!(rule(&[&format!("floating={off}")]).floating, Some(false));
    }
}

#[test]
fn rules_later_tokens_win() {
    assert_eq!(rule(&["tag=4", "tag=5"]).tag, Some(5));
    assert_eq!(rule(&["tag=4", "tag=x"]).tag, None);
    assert_eq!(
        rule(&["app_id=a", "class~b", "instance=c"]).app_id,
        Some((true, "c".to_string()))
    );
}

#[test]
fn rules_ignore_what_they_do_not_know() {
    assert_eq!(
        rule(&["focus=on", "manage=off", "windowtype=dock", "switchtag=on", "x=y", "word"]),
        no_rule()
    );
    assert_eq!(rule(&["x=y", "tag=4", "word", "title=a", "z~w"]), rule(&["tag=4", "title=a"]));
    // A `~` parts before a `=` does.
    assert_eq!(rule(&["title=a~b"]), no_rule());
    assert_eq!(rule(&["title~a~b"]).title, Some((false, "a~b".to_string())));
    assert_eq!(rule(&["title=a=b"]).title, Some((true, "a=b".to_string())));
}

#[test]
fn unrule_drops_all_rules() {
    let mut s = state();
    cmd_rule(&mut s, &words("tag=1"));
    cmd_rule(&mut s, &words("tag=2"));
    assert_eq!(s.rules.iter().map(|r| r.tag).collect::<Vec<_>>(), vec![Some(1), Some(2)]);
    assert_eq!(cmd_unrule(&mut s), "ok\n");
    assert_eq!(s.rules, vec![]);
    assert_eq!(s.ops, vec![Op::Manage, Op::Manage, Op::Manage]);
}

// --- listings --------------------------------------------------------------------

#[test]
fn monitors_are_listed() {
    let mut s = state();
    s.monitors.list[1].locked_tag = Some(8);
    s.monitors.list[1].rect.y = 7;
    assert_eq!(
        list_monitors(&s),
        "0: id=0 name=- 1920x1080+0-5 z=-1 tag=1 lock=- [focused]\n\
         1: id=1 name=float1 1920x1080+1920+7 z=0 tag=3 lock=8\n"
    );
    s.monitors.list.clear();
    assert_eq!(list_monitors(&s), "(no monitors)\n");
}

#[test]
fn clients_are_listed_by_id() {
    let mut s = state();
    let w = s.windows.get_mut(&30).unwrap();
    w.app_id = Some("foot".to_string());
    w.title = Some("a title".to_string());
    s.windows.insert(u64::MAX, window(9));
    s.windows.insert(0, window(2));
    assert_eq!(
        list_clients(&s),
        "win=0 tag=2 app_id=- title=-\n\
         win=7 tag=1 app_id=- title=-\n\
         win=9 tag=1 app_id=- title=- [focused]\n\
         win=30 tag=1 app_id=foot title=a title\n\
         win=18446744073709551615 tag=9 app_id=- title=-\n"
    );
    s.windows.clear();
    assert_eq!(list_clients(&s), "(no clients)\n");
}

#[test]
fn outputs_are_listed() {
    let mut s = state();
    assert_eq!(list_outputs(&s), "(no outputs)\n");
    s.outputs.push(Output { geo: AREA, wl_output_name: Some(42) });
    s.outputs.push(Output { geo: CENTRE, wl_output_name: None });
    assert_eq!(
        list_outputs(&s),
        "1920x1080+0+0 wl_output=42\n960x540+480+270 wl_output=?\n"
    );
}

#[test]
fn the_focused_tree_is_dumped() {
    let mut s = state();
    assert_eq!(
        cmd_dump(&s),
        "tag 1 area=1920x1080+0+0 gap=6\nleaf [9 7 30]\nplacements:\n  \
         win=9 10x20+0+4 visible=true\n  win=7 10x20-1+0 visible=false\n"
    );
    s.focus.tag = 2;
    assert_eq!(cmd_dump(&s), "tag 2: empty\n");
}

// --- dispatch --------------------------------------------------------------------

const NAMES: [&str; 40] = [
    "set_monitors", "add_monitor", "raise_monitor", "lock_tag", "pad", "focus_monitor",
    "cycle_monitor", "detect_monitors", "use", "use_index", "move", "spawn", "keybind",
    "keyunbind", "split", "focus", "shift", "resize", "remove", "cycle", "cycle_all",
    "set_layout", "cycle_layout", "set", "close", "fullscreen", "pseudotile", "floating",
    "floating_geometry", "mousebind", "mouseunbind", "rule", "unrule", "set_tag_monitor",
    "list_monitors", "list_clients", "list_outputs", "dump", "quit", "reload",
];

#[test]
fn every_command_is_known_once() {
    let mut seen = Vec::new();
    for name in NAMES {
        let what = Command::parse(name).unwrap();
        assert!(!seen.contains(&what));
        seen.push(what);
    }
    assert_eq!(Command::parse("Use"), None);
    assert_eq!(Command::parse(""), None);
}

#[test]
fn requests_are_dispatched() {
    let mut s = state();
    assert_eq!(reply(dispatch(&mut s, &[])), "error: empty command\n");
    assert_eq!(
        reply(dispatch(&mut s, &words("frobnicate now"))),
        "error: unknown command: frobnicate\n"
    );
    assert_eq!(s.ops, vec![]);
    assert_eq!(reply(dispatch(&mut s, &words("use 4"))), "ok\n");
    assert_eq!(s.ops, vec![Op::ShowOnFocused(4), Op::Manage]);
    assert_eq!(reply(dispatch(&mut s, &words("fullscreen on"))), "ok\n");
    assert!(s.windows[&9].fullscreen);
    assert_eq!(reply(dispatch(&mut s, &words("pseudotile on"))), "ok\n");
    assert!(s.windows[&9].pseudotile);
    assert_eq!(reply(dispatch(&mut s, &words("set window_gap 1"))), "ok\n");
    assert!(reply(dispatch(&mut s, &words("dump"))).contains(" gap=1\n"));
    assert_eq!(call(dispatch(&mut s, &words("quit"))), Call::Quit);
    assert_eq!(call(dispatch(&mut s, &words("reload"))), Call::Reload);
    assert_eq!(reply(resume(&mut s, Call::Reload, Answer::Done(Ok(())))), "ok\n");
}

#[test]
fn refused_requests_change_nothing() {
    for name in NAMES {
        let mut s = state();
        s.focus.window = None;
        if let Step::Reply(text) = dispatch(&mut s, &words(&format!("{name} ?"))) {
            if text.starts_with("error: ") {
                assert_eq!(s.ops, vec![], "{name}");
                assert_eq!(s.windows[&9], window(1));
            }
        }
    }
}

#[test]
fn changes_end_with_a_manage_pass() {
    for name in NAMES {
        for args in ["", "1", "left", "max", "window_gap 3", "10x10+0+0", "1 float1", "tag=1"] {
            let mut s = state();
            dispatch(&mut s, &words(&format!("{name} {args}")));
            let same = s.rules.is_empty()
                && s.tag_monitor.is_empty()
                && s.windows[&9] == window(1)
                && s.pending_close.is_empty()
                && s.monitors.list.len() == 2
                && s.window_gap == 6;
            assert!(same || !s.ops.is_empty(), "{name} {args}");
            assert!(s.ops.is_empty() || s.ops.last() == Some(&Op::Manage), "{name} {args}");
        }
    }
}

#[test]
fn requests_are_handled_as_they_arrive() {
    let mut s = state();
    assert_eq!(reply(handle_request(&mut s, b"use\x004\0")), "ok\n");
    assert_eq!(s.ops, vec![Op::ShowOnFocused(4), Op::Manage]);
    assert_eq!(reply(handle_request(&mut s, b"")), "error: empty command\n");
    assert_eq!(
        reply(handle_request(&mut s, b"x\xff")),
        "error: unknown command: x\u{fffd}\n"
    );
    assert_eq!(s.ops.len(), 2);
}

#[test]
fn listings_leave_the_state_alone() {
    for name in ["list_monitors", "list_clients", "list_outputs", "dump"] {
        let mut s = state();
        s.ops.push(Op::RemoveFrame);
        let first = reply(dispatch(&mut s, &words(name)));
        assert!(first.ends_with('\n'));
        assert_eq!(reply(dispatch(&mut s, &words(name))), first);
        assert_eq!(s.ops, vec![Op::RemoveFrame]);
        assert_eq!(s.windows.len(), 3);
    }
}

#[test]
fn the_queue_keeps_what_it_holds() {
    for name in NAMES {
        for args in ["", "1", "left", "max", "window_gap 3", "10x10+0+0"] {
            let mut s = state();
            s.ops.push(Op::RemoveFrame);
            s.ops.push(Op::Manage);
            dispatch(&mut s, &words(&format!("{name} {args}")));
            assert_eq!(s.ops[..2], [Op::RemoveFrame, Op::Manage], "{name} {args}");
        }
    }
}

#[test]
fn replies_other_than_listings_are_plain() {
    for name in NAMES {
        if ["list_monitors", "list_clients", "list_outputs", "dump"].contains(&name) {
            continue;
        }
        for args in ["", "1", "left", "max", "window_gap 3", "10x10+0+0"] {
            let mut s = state();
            if let Step::Reply(text) = dispatch(&mut s, &words(&format!("{name} {args}"))) {
                assert!(text == "ok\n" || text.starts_with("error: "), "{name} {args}");
                assert!(text.ends_with('\n'), "{name} {args}");
            }
        }
    }
}

#[test]
fn widths_are_never_negative() {
    for value in ["-1", "-2147483648", "0", "5", "x", ""] {
        let mut s = state();
        dispatch(&mut s, &words(&format!("set window_gap {value}")));
        dispatch(&mut s, &words(&format!("set border_width {value}")));
        assert!(s.window_gap >= 0 && s.border_width >= 0);
    }
}

#[test]
fn an_overlay_monitor_is_set_up() {
    let mut s = state();
    let c = call(dispatch(&mut s, &words("add_monitor 3840x2160+1440+0 8 float1")));
    assert_eq!(
        c,
        Call::AddMonitor {
            rect: Rect { w: 3840, h: 2160, x: 1440, y: 0 },
            tag: 8,
            name: Some("float1".to_string()),
        }
    );
    assert_eq!(reply(resume(&mut s, c, Answer::Added(2))), "monitor 2\n");
    let c = call(dispatch(&mut s, &words("raise_monitor float1")));
    assert_eq!(c, Call::RaiseMonitor { sel: sel("float1") });
    assert_eq!(reply(resume(&mut s, c, Answer::Found(true))), "ok\n");
    let c = call(dispatch(&mut s, &words("lock_tag 8 float1")));
    assert_eq!(c, Call::LockTag { tag: 8, sel: sel("float1") });
    assert_eq!(reply(resume(&mut s, c, Answer::Found(true))), "ok\n");
    assert_eq!(s.ops, vec![Op::Manage, Op::Manage, Op::Manage]);
}
