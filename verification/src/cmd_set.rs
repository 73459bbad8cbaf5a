//! Settings of layout and theme.

use crate::args;
use crate::color;
use crate::color::parse_color;
use crate::number::parse_i32;
use crate::reply;
use crate::reply::{err, ok};
use crate::state;
use crate::state::{Model, OpView, State};
use crate::text::same;
use vstd::prelude::*;

verus! {

/// The settings that there are.
#[derive(Clone, Copy, Debug, PartialEq, Eq, Structural)]
pub enum Setting {
    WindowGap,
    BorderWidth,
    BorderActive,
    BorderNormal,
}

/// The setting that a name stands for.
pub open spec fn setting(name: Seq<char>) -> Option<Setting> {
    if name == "window_gap"@ {
        Some(Setting::WindowGap)
    } else if name == "border_width"@ {
        Some(Setting::BorderWidth)
    } else if name == "border_color_active"@ || name == "frame_border_active_color"@ {
        Some(Setting::BorderActive)
    } else if name == "border_color_normal"@ || name == "frame_border_normal_color"@ {
        Some(Setting::BorderNormal)
    } else {
        None
    }
}

/// `n`, or 0 when it is negative.
pub open spec fn clamped(n: i32) -> i32 {
    if n < 0 {
        0
    } else {
        n
    }
}

/// The model with a setting changed, or the complaint about the value.
pub open spec fn changed(m: Model, what: Setting, v: Seq<char>) -> Result<Model, Seq<char>> {
    match what {
        Setting::WindowGap => match args::int_of(v) {
            Some(n) => Ok(Model { window_gap: clamped(n), ..m }),
            None => Err("set window_gap: expected an integer"@),
        },
        Setting::BorderWidth => match args::int_of(v) {
            Some(n) => Ok(Model { border_width: clamped(n), ..m }),
            None => Err("set border_width: expected an integer"@),
        },
        Setting::BorderActive => match color::read_color(v) {
            Some(c) => Ok(Model { border_active: c, ..m }),
            None => Err("set: bad colour (use #rrggbb)"@),
        },
        Setting::BorderNormal => match color::read_color(v) {
            Some(c) => Ok(Model { border_normal: c, ..m }),
            None => Err("set: bad colour (use #rrggbb)"@),
        },
    }
}

/// What `set` does.
pub open spec fn set(m: Model, rest: Seq<Seq<char>>) -> (Model, Seq<char>) {
    if rest.len() < 2 {
        (m, reply::err_text("set: expected <name> <value>"@))
    } else {
        match setting(rest[0]) {
            None => (m, reply::ok_text()),
            Some(what) => match changed(m, what, rest[1]) {
                Ok(m2) => (state::queued(m2, OpView::Manage), reply::ok_text()),
                Err(msg) => (m, reply::err_text(msg)),
            },
        }
    }
}

impl Setting {
    /// The setting that a name stands for.
    pub fn parse(name: &str) -> (r: Option<Setting>)
        ensures
            r == setting(name@),
    {
        if same(name, "window_gap") {
            Some(Setting::WindowGap)
        } else if same(name, "border_width") {
            Some(Setting::BorderWidth)
        } else if same(name, "border_color_active") || same(name, "frame_border_active_color") {
            Some(Setting::BorderActive)
        } else if same(name, "border_color_normal") || same(name, "frame_border_normal_color") {
            Some(Setting::BorderNormal)
        } else {
            None
        }
    }
}

/// `n`, or 0 when it is negative.
fn clamp(n: i32) -> (r: i32)
    ensures
        r == clamped(n),
{
    if n < 0 {
        0
    } else {
        n
    }
}

/// `set <name> <value>`: changes a setting. A name that is unknown is
/// accepted, and nothing is done.
pub fn cmd_set(state: &mut State, rest: &[String]) -> (r: String)
    ensures
        (final(state)@, r@) == set(old(state)@, rest.deep_view()),
{
    if rest.len() < 2 {
        return err("set: expected <name> <value>");
    }
    let ghost m = state@;
    let what = match Setting::parse(rest[0].as_str()) {
        Some(what) => what,
        None => return ok(),
    };
    let v = rest[1].as_str();
    match what {
        Setting::WindowGap => match parse_i32(v) {
            Some(n) => {
                state.window_gap = clamp(n);
            },
            None => return err("set window_gap: expected an integer"),
        },
        Setting::BorderWidth => match parse_i32(v) {
            Some(n) => {
                state.border_width = clamp(n);
            },
            None => return err("set border_width: expected an integer"),
        },
        Setting::BorderActive => match parse_color(v) {
            Some(c) => {
                state.border_active = c;
            },
            None => return err("set: bad colour (use #rrggbb)"),
        },
        Setting::BorderNormal => match parse_color(v) {
            Some(c) => {
                state.border_normal = c;
            },
            None => return err("set: bad colour (use #rrggbb)"),
        },
    }
    assert(state@ =~= changed(m, what, v@)->Ok_0);
    state.request_manage();
    ok()
}

} // verus!
