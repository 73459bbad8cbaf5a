//! Frame tree commands. They work on the tree of the focused tag.

use crate::args;
use crate::args::first_delta;
use crate::frame;
use crate::frame::{Dir, LayoutMode, SplitDir};
use crate::reply;
use crate::reply::{err, ok};
use crate::split;
use crate::state;
use crate::state::{Model, Op, OpView, State, Tree};
use crate::text::chars_of;
use vstd::prelude::*;
use vstd::string::*;

verus! {

broadcast use vstd::std_specs::hash::group_hash_axioms;

/// The second argument.
pub open spec fn second(rest: Seq<Seq<char>>) -> Option<Seq<char>> {
    if rest.len() > 1 {
        Some(rest[1])
    } else {
        None
    }
}

/// The direction that the first argument names.
pub open spec fn dir_arg(rest: Seq<Seq<char>>) -> Option<Dir> {
    if rest.len() > 0 {
        frame::direction(rest[0])
    } else {
        None
    }
}

/// `s` without the `+` that it starts with.
pub open spec fn plus_free(s: Seq<char>) -> Seq<char>
    decreases s.len(),
{
    if s.len() > 0 && s[0] == '+' {
        plus_free(s.skip(1))
    } else {
        s
    }
}

/// What `split` does.
pub open spec fn split_frame(m: Model, rest: Seq<Seq<char>>) -> (Model, Seq<char>) {
    let how = if rest.len() > 0 {
        frame::split_dir(rest[0])
    } else {
        None
    };
    match how {
        None => (
            m,
            reply::err_text(
                "split: expected top|bottom|left|right|horizontal|vertical|explode"@,
            ),
        ),
        Some(how) => (
            state::managed(m, OpView::Split { how, fraction: second(rest) }),
            reply::ok_text(),
        ),
    }
}

/// What `focus` does.
pub open spec fn focus_dir(m: Model, rest: Seq<Seq<char>>) -> (Model, Seq<char>) {
    match dir_arg(rest) {
        None => (m, reply::err_text("focus: expected left|down|up|right"@)),
        Some(dir) => (
            state::managed(
                m,
                OpView::FocusDir { dir, area: m.focus.area, gap: m.window_gap },
            ),
            reply::ok_text(),
        ),
    }
}

/// What `shift` does.
pub open spec fn shift_dir(m: Model, rest: Seq<Seq<char>>) -> (Model, Seq<char>) {
    match dir_arg(rest) {
        None => (m, reply::err_text("shift: expected left|down|up|right"@)),
        Some(dir) => (
            state::managed(
                m,
                OpView::ShiftDir { dir, area: m.focus.area, gap: m.window_gap },
            ),
            reply::ok_text(),
        ),
    }
}

/// What `resize` does.
pub open spec fn resize(m: Model, rest: Seq<Seq<char>>) -> (Model, Seq<char>) {
    match dir_arg(rest) {
        None => (m, reply::err_text("resize: expected left|down|up|right <delta>"@)),
        Some(dir) => {
            let delta = match second(rest) {
                Some(s) => Some(plus_free(s)),
                None => None,
            };
            (state::managed(m, OpView::Resize { dir, delta }), reply::ok_text())
        },
    }
}

/// What `remove` does.
pub open spec fn remove_frame(m: Model) -> (Model, Seq<char>) {
    (state::managed(m, OpView::RemoveFrame), reply::ok_text())
}

/// What `cycle` does.
pub open spec fn cycle(m: Model, rest: Seq<Seq<char>>) -> (Model, Seq<char>) {
    (state::managed(m, OpView::Cycle(args::delta_arg(rest))), reply::ok_text())
}

/// The windows of the focused tag's tree, in the order of the tree.
pub open spec fn tree_windows(m: Model) -> Seq<u64> {
    if m.tags.contains_key(m.focus.tag) {
        m.tags[m.focus.tag].windows@
    } else {
        Seq::empty()
    }
}

/// Whether a window is `win`.
pub open spec fn is_window(win: u64) -> spec_fn(u64) -> bool {
    |w: u64| w == win
}

/// The place of a tree's focused window among its windows; 0 when it is
/// none of them.
pub open spec fn place_in(tree: Tree) -> int {
    match tree.focused {
        Some(win) => {
            let i = split::cut(tree.windows@, is_window(win));
            if i < tree.windows@.len() {
                i
            } else {
                0
            }
        },
        None => 0,
    }
}

/// The place of the focused window in the focused tag's tree.
pub open spec fn focused_place(m: Model) -> int {
    place_in(m.tags[m.focus.tag])
}

/// The window that lies `delta` places from the focused one, round the
/// circle of the tree's windows.
pub open spec fn cycled(m: Model, delta: i32) -> u64 {
    let all = tree_windows(m);
    all[(focused_place(m) + delta) % (all.len() as int)]
}

/// What `cycle_all` does. Without windows it does nothing.
pub open spec fn cycle_all(m: Model, rest: Seq<Seq<char>>) -> (Model, Seq<char>) {
    if tree_windows(m).len() == 0 {
        (m, reply::ok_text())
    } else {
        (
            state::managed(m, OpView::FocusWindow(cycled(m, args::delta_arg(rest)))),
            reply::ok_text(),
        )
    }
}

/// What `set_layout` does.
pub open spec fn set_layout(m: Model, rest: Seq<Seq<char>>) -> (Model, Seq<char>) {
    let layout = if rest.len() > 0 {
        frame::layout_mode(rest[0])
    } else {
        None
    };
    match layout {
        None => (m, reply::err_text("set_layout: expected max|vertical|horizontal|grid"@)),
        Some(layout) => (state::managed(m, OpView::SetLayout(layout)), reply::ok_text()),
    }
}

/// What `cycle_layout` does.
pub open spec fn cycle_layout(m: Model) -> (Model, Seq<char>) {
    (state::managed(m, OpView::CycleLayout), reply::ok_text())
}

/// The direction that the first argument names.
fn first_dir(rest: &[String]) -> (r: Option<Dir>)
    ensures
        r == dir_arg(rest.deep_view()),
{
    if rest.len() > 0 {
        Dir::parse(rest[0].as_str())
    } else {
        None
    }
}

/// A text without the `+` that it starts with.
fn trim_plus(s: &str) -> (r: &str)
    ensures
        r@ == plus_free(s@),
{
    let v = chars_of(s);
    let mut n: usize = 0;
    assert(v@.skip(0) =~= v@);
    while n < v.len() && v[n] == '+'
        invariant
            n <= v@.len(),
            plus_free(v@) == plus_free(v@.skip(n as int)),
        decreases v@.len() - n,
    {
        assert(v@.skip(n as int).skip(1) =~= v@.skip(n + 1));
        n += 1;
    }
    assert(v@.subrange(n as int, v@.len() as int) =~= v@.skip(n as int));
    s.substring_char(n, v.len())
}

/// `split <how> [fraction]`: splits the focused frame.
pub fn cmd_split(state: &mut State, rest: &[String]) -> (r: String)
    ensures
        (final(state)@, r@) == split_frame(old(state)@, rest.deep_view()),
{
    let how = if rest.len() > 0 {
        SplitDir::parse(rest[0].as_str())
    } else {
        None
    };
    match how {
        None => err("split: expected top|bottom|left|right|horizontal|vertical|explode"),
        Some(how) => {
            let fraction = if rest.len() > 1 {
                Some(rest[1].clone())
            } else {
                None
            };
            state.queue_and_manage(Op::Split { how, fraction });
            ok()
        },
    }
}

/// `focus <direction>`: moves the focus.
pub fn cmd_focus(state: &mut State, rest: &[String]) -> (r: String)
    ensures
        (final(state)@, r@) == focus_dir(old(state)@, rest.deep_view()),
{
    match first_dir(rest) {
        None => err("focus: expected left|down|up|right"),
        Some(dir) => {
            let area = state.focus.area;
            let gap = state.window_gap;
            state.queue_and_manage(Op::FocusDir { dir, area, gap });
            ok()
        },
    }
}

/// `shift <direction>`: moves the focused window.
pub fn cmd_shift(state: &mut State, rest: &[String]) -> (r: String)
    ensures
        (final(state)@, r@) == shift_dir(old(state)@, rest.deep_view()),
{
    match first_dir(rest) {
        None => err("shift: expected left|down|up|right"),
        Some(dir) => {
            let area = state.focus.area;
            let gap = state.window_gap;
            state.queue_and_manage(Op::ShiftDir { dir, area, gap });
            ok()
        },
    }
}

/// `resize <direction> [delta]`: moves an edge of the focused frame. The
/// delta may have a `+` before it.
pub fn cmd_resize(state: &mut State, rest: &[String]) -> (r: String)
    ensures
        (final(state)@, r@) == resize(old(state)@, rest.deep_view()),
{
    match first_dir(rest) {
        None => err("resize: expected left|down|up|right <delta>"),
        Some(dir) => {
            let delta = if rest.len() > 1 {
                Some(trim_plus(rest[1].as_str()).to_owned())
            } else {
                None
            };
            state.queue_and_manage(Op::Resize { dir, delta });
            ok()
        },
    }
}

/// `remove`: removes the focused frame.
pub fn cmd_remove(state: &mut State) -> (r: String)
    ensures
        (final(state)@, r@) == remove_frame(old(state)@),
{
    state.queue_and_manage(Op::RemoveFrame);
    ok()
}

/// `cycle [delta]`: moves the focus among the windows of the focused frame.
pub fn cmd_cycle(state: &mut State, rest: &[String]) -> (r: String)
    ensures
        (final(state)@, r@) == cycle(old(state)@, rest.deep_view()),
{
    state.queue_and_manage(Op::Cycle(first_delta(rest)));
    ok()
}

/// Finds the place of a tree's focused window; 0 when it is none of the
/// tree's windows.
fn find_focused(tree: &Tree) -> (i: usize)
    ensures
        i == place_in(*tree),
        tree.windows@.len() > 0 ==> i < tree.windows@.len(),
{
    let all = &tree.windows;
    let win = match tree.focused {
        Some(win) => win,
        None => return 0,
    };
    let mut i: usize = 0;
    while i < all.len() && all[i] != win
        invariant
            i <= all@.len(),
            split::unbroken(all@.take(i as int), is_window(win)),
        decreases all@.len() - i,
    {
        assert(all@.take(i + 1) =~= all@.take(i as int).push(all@[i as int]));
        i += 1;
    }
    proof {
        split::lemma_cut_is(all@, is_window(win), i as int);
    }
    if i < all.len() {
        i
    } else {
        0
    }
}

/// `cycle_all [delta]`: moves the focus among all windows of the tree.
pub fn cmd_cycle_all(state: &mut State, rest: &[String]) -> (r: String)
    ensures
        (final(state)@, r@) == cycle_all(old(state)@, rest.deep_view()),
{
    let delta = first_delta(rest);
    let next: u64 = match state.tags.get(&state.focus.tag) {
        None => return ok(),
        Some(tree) => {
            let n = tree.windows.len();
            if n == 0 {
                return ok();
            }
            let idx = find_focused(tree);
            tree.windows[wrap(idx as i128 + delta as i128, n as i128) as usize]
        },
    };
    state.queue_and_manage(Op::FocusWindow(next));
    ok()
}

/// The place in a circle of `n` at which `i` comes to lie.
fn wrap(i: i128, n: i128) -> (r: i128)
    requires
        0 < n,
        i > i128::MIN,
    ensures
        r == i as int % n as int,
        0 <= r < n,
{
    if i >= 0 {
        i % n
    } else {
        let back = (-i) % n;
        let r: i128 = if back == 0 {
            0
        } else {
            n - back
        };
        proof {
            let q = (-i) as int / n as int;
            vstd::arithmetic::div_mod::lemma_fundamental_div_mod(-i as int, n as int);
            if back == 0 {
                assert(i == (-q) * n + r) by (nonlinear_arith)
                    requires
                        -i == n * q + back,
                        back == 0,
                        r == 0,
                ;
                vstd::arithmetic::div_mod::lemma_fundamental_div_mod_converse(
                    i as int,
                    n as int,
                    -q,
                    r as int,
                );
            } else {
                assert(i == (-q - 1) * n + r) by (nonlinear_arith)
                    requires
                        -i == n * q + back,
                        r == n - back,
                ;
                vstd::arithmetic::div_mod::lemma_fundamental_div_mod_converse(
                    i as int,
                    n as int,
                    -q - 1,
                    r as int,
                );
            }
        }
        r
    }
}

/// `set_layout <layout>`: sets the layout of the focused frame.
pub fn cmd_set_layout(state: &mut State, rest: &[String]) -> (r: String)
    ensures
        (final(state)@, r@) == set_layout(old(state)@, rest.deep_view()),
{
    let layout = if rest.len() > 0 {
        LayoutMode::parse(rest[0].as_str())
    } else {
        None
    };
    match layout {
        None => err("set_layout: expected max|vertical|horizontal|grid"),
        Some(layout) => {
            state.queue_and_manage(Op::SetLayout(layout));
            ok()
        },
    }
}

/// `cycle_layout`: goes to the next layout of the focused frame.
pub fn cmd_cycle_layout(state: &mut State) -> (r: String)
    ensures
        (final(state)@, r@) == cycle_layout(old(state)@),
{
    state.queue_and_manage(Op::CycleLayout);
    ok()
}

} // verus!
