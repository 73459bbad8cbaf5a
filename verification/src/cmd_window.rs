//! Commands on the focused window.

use crate::geometry;
use crate::geometry::Rect;
use crate::reply;
use crate::reply::{err, ok};
use crate::state;
use crate::state::{Model, Op, OpView, State, Window};
use crate::text::same;
use vstd::prelude::*;

verus! {

broadcast use vstd::std_specs::hash::group_hash_axioms;

/// A mode that a window has or has not.
#[derive(Clone, Copy, Debug, PartialEq, Eq, Structural)]
pub enum WinMode {
    Fullscreen,
    Pseudotile,
}

/// What a switch is set to: `on` and `true`, `off` and `false`, and anything
/// else to what it is not.
pub open spec fn switched(rest: Seq<Seq<char>>, cur: bool) -> bool {
    if rest.len() > 0 && (rest[0] == "on"@ || rest[0] == "true"@) {
        true
    } else if rest.len() > 0 && (rest[0] == "off"@ || rest[0] == "false"@) {
        false
    } else {
        !cur
    }
}

/// Whether a window has a mode.
pub open spec fn in_mode(w: Window, mode: WinMode) -> bool {
    match mode {
        WinMode::Fullscreen => w.fullscreen,
        WinMode::Pseudotile => w.pseudotile,
    }
}

/// A window with a mode set.
pub open spec fn set_mode(w: Window, mode: WinMode, on: bool) -> Window {
    match mode {
        WinMode::Fullscreen => Window { fullscreen: on, ..w },
        WinMode::Pseudotile => Window { pseudotile: on, ..w },
    }
}

/// What `close` does.
pub open spec fn close(m: Model) -> (Model, Seq<char>) {
    match m.focus.window {
        Some(win) => (
            state::queued(
                Model { pending_close: m.pending_close.push(win), ..m },
                OpView::Manage,
            ),
            reply::ok_text(),
        ),
        None => (m, reply::err_text("close: no focused window"@)),
    }
}

/// What `fullscreen` and `pseudotile` do.
pub open spec fn window_mode(m: Model, rest: Seq<Seq<char>>, mode: WinMode) -> (Model, Seq<char>) {
    match m.focus.window {
        None => (m, reply::err_text("no focused window"@)),
        Some(win) => {
            let changed = if m.windows.contains_key(win) {
                let w = m.windows[win];
                state::with_window(m, win, set_mode(w, mode, switched(rest, in_mode(w, mode))))
            } else {
                m
            };
            (state::queued(changed, OpView::Manage), reply::ok_text())
        },
    }
}

/// Where a window is put that begins to float: where it was last, or else at
/// the default place.
pub open spec fn float_place(m: Model, win: u64) -> Rect {
    if m.last_rects.contains_key(win) {
        m.last_rects[win]
    } else {
        m.focus.float_default
    }
}

/// What `floating` does.
pub open spec fn floating(m: Model, rest: Seq<Seq<char>>) -> (Model, Seq<char>) {
    match m.focus.window {
        None => (m, reply::err_text("floating: no focused window"@)),
        Some(win) => {
            let cur = m.windows.contains_key(win) && m.windows[win].floating;
            let want = switched(rest, cur);
            let changed = if want && !cur {
                state::queued(m, OpView::MakeFloating { win, geo: float_place(m, win) })
            } else if !want && cur {
                state::with_window(m, win, Window { floating: false, ..m.windows[win] })
            } else {
                m
            };
            (state::queued(changed, OpView::Manage), reply::ok_text())
        },
    }
}

/// What `floating_geometry` does.
pub open spec fn floating_geometry(m: Model, rest: Seq<Seq<char>>) -> (Model, Seq<char>) {
    let geo = if rest.len() > 0 {
        geometry::read_rect(rest[0])
    } else {
        None
    };
    match (geo, m.focus.window) {
        (None, _) => (m, reply::err_text("floating_geometry: expected WxH+X+Y"@)),
        (Some(_), None) => (m, reply::err_text("floating_geometry: no focused window"@)),
        (Some(geo), Some(win)) => (
            state::managed(
                state::queued(m, OpView::MakeFloating { win, geo }),
                OpView::PinFloating { win, geo },
            ),
            reply::ok_text(),
        ),
    }
}

/// What a switch is set to.
fn switch(rest: &[String], cur: bool) -> (r: bool)
    ensures
        r == switched(rest.deep_view(), cur),
{
    if rest.len() == 0 {
        return !cur;
    }
    let arg = rest[0].as_str();
    if same(arg, "on") || same(arg, "true") {
        true
    } else if same(arg, "off") || same(arg, "false") {
        false
    } else {
        !cur
    }
}

/// `close`: asks the focused window to close.
pub fn cmd_close(state: &mut State) -> (r: String)
    ensures
        (final(state)@, r@) == close(old(state)@),
{
    let ghost m = state@;
    match state.focus.window {
        Some(win) => {
            state.pending_close.push(win);
            assert(state@ =~= Model { pending_close: m.pending_close.push(win), ..m });
            state.request_manage();
            ok()
        },
        None => err("close: no focused window"),
    }
}

/// `fullscreen` and `pseudotile`, with `on`, `off`, or `toggle` when nothing
/// else is said.
pub fn cmd_window_mode(state: &mut State, rest: &[String], mode: WinMode) -> (r: String)
    ensures
        (final(state)@, r@) == window_mode(old(state)@, rest.deep_view(), mode),
{
    let ghost m = state@;
    let win = match state.focus.window {
        Some(win) => win,
        None => return err("no focused window"),
    };
    match state.windows.remove(&win) {
        Some(mut w) => {
            let cur = match mode {
                WinMode::Fullscreen => w.fullscreen,
                WinMode::Pseudotile => w.pseudotile,
            };
            let v = switch(rest, cur);
            match mode {
                WinMode::Fullscreen => {
                    w.fullscreen = v;
                },
                WinMode::Pseudotile => {
                    w.pseudotile = v;
                },
            }
            state.set_window(win, w);
            assert(state@ =~= state::with_window(m, win, w));
        },
        None => {
            assert(state@ =~= m);
        },
    }
    state.request_manage();
    ok()
}

/// `floating`, with `on`, `off`, or `toggle` when nothing else is said. A
/// window that floats no more goes back to its place in the tiling.
pub fn cmd_floating(state: &mut State, rest: &[String]) -> (r: String)
    ensures
        (final(state)@, r@) == floating(old(state)@, rest.deep_view()),
{
    let ghost m = state@;
    let win = match state.focus.window {
        Some(win) => win,
        None => return err("floating: no focused window"),
    };
    let cur = match state.windows.get(&win) {
        Some(w) => w.floating,
        None => false,
    };
    let want = switch(rest, cur);
    if want && !cur {
        let geo = match state.last_rects.get(&win) {
            Some(rect) => *rect,
            None => state.focus.float_default,
        };
        state.queue(Op::MakeFloating { win, geo });
    } else if !want && cur {
        match state.windows.remove(&win) {
            Some(mut w) => {
                w.floating = false;
                state.set_window(win, w);
                assert(state@ =~= state::with_window(m, win, w));
            },
            None => {},
        }
    }
    state.request_manage();
    ok()
}

/// `floating_geometry <rect>`: lets the focused window float at a place.
pub fn cmd_floating_geometry(state: &mut State, rest: &[String]) -> (r: String)
    ensures
        (final(state)@, r@) == floating_geometry(old(state)@, rest.deep_view()),
{
    let geo = if rest.len() > 0 {
        Rect::parse(rest[0].as_str())
    } else {
        None
    };
    let geo = match geo {
        Some(geo) => geo,
        None => return err("floating_geometry: expected WxH+X+Y"),
    };
    let win = match state.focus.window {
        Some(win) => win,
        None => return err("floating_geometry: no focused window"),
    };
    state.queue(Op::MakeFloating { win, geo });
    state.queue_and_manage(Op::PinFloating { win, geo });
    ok()
}

} // verus!
