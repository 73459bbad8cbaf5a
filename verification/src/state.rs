//! The state that commands read and change.
//!
//! Commands change the fields of [`State`] directly. What changes the frame
//! trees, the monitors or the display is the window manager's work: a
//! command queues it in [`State::ops`], and the manager performs the queue in
//! order. What a command reads of the trees and of the focus, the manager has
//! put into the state beforehand.

use crate::color::Color;
use crate::frame::{Dir, LayoutMode, SplitDir};
use crate::geometry::Rect;
use std::collections::HashMap;
use vstd::prelude::*;

verus! {

broadcast use vstd::std_specs::hash::group_hash_axioms;

/// The number of a tag.
pub type TagId = u32;

/// A monitor as a command names it. The window manager resolves it.
#[derive(Debug, PartialEq, Eq)]
pub struct MonitorSel {
    pub text: String,
}

impl View for MonitorSel {
    type V = Seq<char>;

    open spec fn view(&self) -> Seq<char> {
        self.text@
    }
}

impl MonitorSel {
    /// Takes a selector as it was given.
    pub fn parse(s: &str) -> (sel: MonitorSel)
        ensures
            sel@ == s@,
    {
        MonitorSel { text: s.to_owned() }
    }

    /// A copy of the selector.
    pub fn copy(&self) -> (sel: MonitorSel)
        ensures
            sel == *self,
    {
        MonitorSel { text: self.text.clone() }
    }
}

/// A logical monitor.
#[derive(Debug, PartialEq, Eq)]
pub struct Monitor {
    pub id: u32,
    pub name: Option<String>,
    pub rect: Rect,
    pub z: i32,
    pub tag: TagId,
    pub locked_tag: Option<TagId>,
}

/// The logical monitors, and which of them has the focus.
#[derive(Debug, PartialEq, Eq)]
pub struct Monitors {
    pub list: Vec<Monitor>,
    pub focus: usize,
}

/// The tag that the focused of several monitors displays.
pub open spec fn focused_monitor_tag(list: Seq<Monitor>, focus: usize) -> Option<TagId> {
    if focus < list.len() {
        Some(list[focus as int].tag)
    } else {
        None
    }
}

/// The monitors other than the focused one.
pub open spec fn others(list: Seq<Monitor>, focus: usize) -> Seq<Monitor> {
    if focus < list.len() {
        list.remove(focus as int)
    } else {
        list
    }
}

/// Whether one of several monitors displays `tag`.
pub open spec fn shows(list: Seq<Monitor>, tag: TagId) -> bool {
    exists|i: int| 0 <= i < list.len() && (#[trigger] list[i]).tag == tag
}

impl Monitors {
    /// The focused monitor.
    pub fn focused(&self) -> (m: Option<&Monitor>)
        ensures
            m == if self.focus < self.list@.len() {
                Some(&self.list@[self.focus as int])
            } else {
                None
            },
    {
        if self.focus < self.list.len() {
            Some(&self.list[self.focus])
        } else {
            None
        }
    }

    /// Whether a monitor other than the focused one displays `tag`.
    pub fn tag_visible(&self, tag: TagId) -> (r: bool)
        ensures
            r == shows(others(self.list@, self.focus), tag),
    {
        let ghost rest = others(self.list@, self.focus);
        let mut i: usize = 0;
        while i < self.list.len()
            invariant
                i <= self.list@.len(),
                rest == others(self.list@, self.focus),
                forall|k: int|
                    0 <= k < i && k != self.focus ==> (#[trigger] self.list@[k]).tag != tag,
            decreases self.list@.len() - i,
        {
            if i != self.focus && self.list[i].tag == tag {
                proof {
                    let k: int = if i < self.focus || self.focus >= self.list@.len() {
                        i as int
                    } else {
                        i - 1
                    };
                    assert(rest[k] == self.list@[i as int]);
                }
                return true;
            }
            i += 1;
        }
        assert forall|k: int| 0 <= k < rest.len() implies (#[trigger] rest[k]).tag != tag by {
            let i: int = if k < self.focus || self.focus >= self.list@.len() {
                k
            } else {
                k + 1
            };
            assert(rest[k] == self.list@[i]);
        }
        false
    }
}

/// A client's window.
#[derive(Debug, PartialEq, Eq)]
pub struct Window {
    pub tag: TagId,
    pub app_id: Option<String>,
    pub title: Option<String>,
    pub fullscreen: bool,
    pub pseudotile: bool,
    pub floating: bool,
    pub float_geo: Rect,
}

/// Where a frame tree puts a window.
#[derive(Clone, Copy, Debug, PartialEq, Eq, Structural)]
pub struct Placement {
    pub win: u64,
    pub rect: Rect,
    pub visible: bool,
}

/// What commands read of a tag's frame tree. The placements are those for
/// the focused area and the current gap.
#[derive(Debug, PartialEq, Eq)]
pub struct Tree {
    pub windows: Vec<u64>,
    pub focused: Option<u64>,
    pub description: String,
    pub placements: Vec<Placement>,
}

/// An output of the compositor.
#[derive(Clone, Copy, Debug, PartialEq, Eq, Structural)]
pub struct Output {
    pub geo: Rect,
    pub wl_output_name: Option<u32>,
}

/// What has the focus: the window, if any, the tag, the area that the tag
/// fills, and where a window is put that floats for the first time.
#[derive(Clone, Copy, Debug, PartialEq, Eq, Structural)]
pub struct Focus {
    pub window: Option<u64>,
    pub tag: TagId,
    pub area: Rect,
    pub float_default: Rect,
}

/// A pattern for an application id or a title, exact or not.
pub type Pattern = (bool, String);

/// What is done to new windows that match.
#[derive(Debug, PartialEq, Eq)]
pub struct Rule {
    pub app_id: Option<Pattern>,
    pub title: Option<Pattern>,
    pub tag: Option<TagId>,
    pub floating: Option<bool>,
    pub pseudotile: Option<bool>,
}

/// A rule, with its patterns as characters.
pub struct RuleView {
    pub app_id: Option<(bool, Seq<char>)>,
    pub title: Option<(bool, Seq<char>)>,
    pub tag: Option<TagId>,
    pub floating: Option<bool>,
    pub pseudotile: Option<bool>,
}

/// A pattern with its text as characters.
pub open spec fn pattern_view(p: Option<Pattern>) -> Option<(bool, Seq<char>)> {
    match p {
        Some((exact, text)) => Some((exact, text@)),
        None => None,
    }
}

impl View for Rule {
    type V = RuleView;

    open spec fn view(&self) -> RuleView {
        RuleView {
            app_id: pattern_view(self.app_id),
            title: pattern_view(self.title),
            tag: self.tag,
            floating: self.floating,
            pseudotile: self.pseudotile,
        }
    }
}

/// An operation that the window manager performs.
#[derive(Debug, PartialEq, Eq)]
pub enum Op {
    /// Replace the monitors by these rectangles.
    SetMonitors(Vec<Rect>),
    /// Make monitors out of the outputs, if there are none.
    DetectMonitors,
    /// Focus a monitor, if there is such a one.
    FocusMonitor(MonitorSel),
    /// Move the monitor focus by a number of monitors.
    CycleMonitor(i32),
    /// Display a tag on the focused monitor.
    ShowOnFocused(TagId),
    /// Take a window out of a tag's tree.
    RemoveWindow { tag: TagId, win: u64 },
    /// Put a window into a tag's tree.
    InsertWindow { tag: TagId, win: u64 },
    /// Split the focused frame; without a fraction that is a number, in the
    /// middle.
    Split { how: SplitDir, fraction: Option<String> },
    /// Move the focus in the focused tree.
    FocusDir { dir: Dir, area: Rect, gap: i32 },
    /// Move the focused window in the focused tree.
    ShiftDir { dir: Dir, area: Rect, gap: i32 },
    /// Move an edge of the focused frame; without a delta that is a number,
    /// by the default step.
    Resize { dir: Dir, delta: Option<String> },
    /// Remove the focused frame.
    RemoveFrame,
    /// Move the focus among the windows of the focused frame.
    Cycle(i32),
    /// Focus a window of the focused tree.
    FocusWindow(u64),
    /// Set the layout of the focused frame.
    SetLayout(LayoutMode),
    /// Go to the next layout of the focused frame.
    CycleLayout,
    /// Take a window out of the tiling, to a place.
    MakeFloating { win: u64, geo: Rect },
    /// Record that a window floats, and where.
    PinFloating { win: u64, geo: Rect },
    /// Drop all key bindings.
    ClearKeybinds,
    /// Drop all button bindings.
    ClearMousebinds,
    /// Ask for a manage and render pass.
    Manage,
}

/// An operation, with its texts as characters.
pub enum OpView {
    SetMonitors(Seq<Rect>),
    DetectMonitors,
    FocusMonitor(Seq<char>),
    CycleMonitor(i32),
    ShowOnFocused(TagId),
    RemoveWindow { tag: TagId, win: u64 },
    InsertWindow { tag: TagId, win: u64 },
    Split { how: SplitDir, fraction: Option<Seq<char>> },
    FocusDir { dir: Dir, area: Rect, gap: i32 },
    ShiftDir { dir: Dir, area: Rect, gap: i32 },
    Resize { dir: Dir, delta: Option<Seq<char>> },
    RemoveFrame,
    Cycle(i32),
    FocusWindow(u64),
    SetLayout(LayoutMode),
    CycleLayout,
    MakeFloating { win: u64, geo: Rect },
    PinFloating { win: u64, geo: Rect },
    ClearKeybinds,
    ClearMousebinds,
    Manage,
}

/// An optional text as characters.
pub open spec fn text_view(s: Option<String>) -> Option<Seq<char>> {
    match s {
        Some(s) => Some(s@),
        None => None,
    }
}

impl View for Op {
    type V = OpView;

    open spec fn view(&self) -> OpView {
        match *self {
            Op::SetMonitors(rects) => OpView::SetMonitors(rects@),
            Op::DetectMonitors => OpView::DetectMonitors,
            Op::FocusMonitor(sel) => OpView::FocusMonitor(sel@),
            Op::CycleMonitor(delta) => OpView::CycleMonitor(delta),
            Op::ShowOnFocused(tag) => OpView::ShowOnFocused(tag),
            Op::RemoveWindow { tag, win } => OpView::RemoveWindow { tag, win },
            Op::InsertWindow { tag, win } => OpView::InsertWindow { tag, win },
            Op::Split { how, fraction } => OpView::Split { how, fraction: text_view(fraction) },
            Op::FocusDir { dir, area, gap } => OpView::FocusDir { dir, area, gap },
            Op::ShiftDir { dir, area, gap } => OpView::ShiftDir { dir, area, gap },
            Op::Resize { dir, delta } => OpView::Resize { dir, delta: text_view(delta) },
            Op::RemoveFrame => OpView::RemoveFrame,
            Op::Cycle(delta) => OpView::Cycle(delta),
            Op::FocusWindow(win) => OpView::FocusWindow(win),
            Op::SetLayout(layout) => OpView::SetLayout(layout),
            Op::CycleLayout => OpView::CycleLayout,
            Op::MakeFloating { win, geo } => OpView::MakeFloating { win, geo },
            Op::PinFloating { win, geo } => OpView::PinFloating { win, geo },
            Op::ClearKeybinds => OpView::ClearKeybinds,
            Op::ClearMousebinds => OpView::ClearMousebinds,
            Op::Manage => OpView::Manage,
        }
    }
}

/// The state of the command dispatcher.
pub struct State {
    pub monitors: Monitors,
    pub outputs: Vec<Output>,
    pub windows: HashMap<u64, Window>,
    pub tags: HashMap<TagId, Tree>,
    pub tag_monitor: HashMap<TagId, MonitorSel>,
    pub last_rects: HashMap<u64, Rect>,
    pub focus: Focus,
    pub window_gap: i32,
    pub border_width: i32,
    pub border_active: Color,
    pub border_normal: Color,
    pub rules: Vec<Rule>,
    pub pending_close: Vec<u64>,
    pub ops: Vec<Op>,
}

/// The state as commands are specified over it.
#[verifier::ext_equal]
pub struct Model {
    pub monitors: Seq<Monitor>,
    pub monitor_focus: usize,
    pub outputs: Seq<Output>,
    pub windows: Map<u64, Window>,
    pub tags: Map<TagId, Tree>,
    pub tag_monitor: Map<TagId, Seq<char>>,
    pub last_rects: Map<u64, Rect>,
    pub focus: Focus,
    pub window_gap: i32,
    pub border_width: i32,
    pub border_active: Color,
    pub border_normal: Color,
    pub rules: Seq<RuleView>,
    pub pending_close: Seq<u64>,
    pub ops: Seq<OpView>,
}

/// The operations of a queue.
pub open spec fn ops_view(ops: Seq<Op>) -> Seq<OpView> {
    ops.map_values(|op: Op| op@)
}

/// The rules of a list.
pub open spec fn rules_view(rules: Seq<Rule>) -> Seq<RuleView> {
    rules.map_values(|rule: Rule| rule@)
}

impl View for State {
    type V = Model;

    open spec fn view(&self) -> Model {
        Model {
            monitors: self.monitors.list@,
            monitor_focus: self.monitors.focus,
            outputs: self.outputs@,
            windows: self.windows@,
            tags: self.tags@,
            tag_monitor: self.tag_monitor@.map_values(|sel: MonitorSel| sel@),
            last_rects: self.last_rects@,
            focus: self.focus,
            window_gap: self.window_gap,
            border_width: self.border_width,
            border_active: self.border_active,
            border_normal: self.border_normal,
            rules: rules_view(self.rules@),
            pending_close: self.pending_close@,
            ops: ops_view(self.ops@),
        }
    }
}

/// The model after one more operation was queued.
pub open spec fn queued(m: Model, op: OpView) -> Model {
    Model { ops: m.ops.push(op), ..m }
}

/// The model after one more operation and then a manage pass were queued.
pub open spec fn managed(m: Model, op: OpView) -> Model {
    queued(queued(m, op), OpView::Manage)
}

/// The model with one window changed.
pub open spec fn with_window(m: Model, win: u64, w: Window) -> Model {
    Model { windows: m.windows.insert(win, w), ..m }
}

/// The model in which a window, if there is such a one, floats at a place.
pub open spec fn pinned(m: Model, win: u64, geo: Rect) -> Model {
    if m.windows.contains_key(win) {
        with_window(m, win, Window { floating: true, float_geo: geo, ..m.windows[win] })
    } else {
        m
    }
}

impl State {
    /// Queues an operation.
    pub fn queue(&mut self, op: Op)
        ensures
            final(self)@ == queued(old(self)@, op@),
    {
        let ghost before = self@;
        self.ops.push(op);
        assert(self@ =~= queued(before, op@));
    }

    /// Queues an operation and then a manage pass.
    pub fn queue_and_manage(&mut self, op: Op)
        ensures
            final(self)@ == managed(old(self)@, op@),
    {
        self.queue(op);
        self.queue(Op::Manage);
    }

    /// Asks for a manage and render pass.
    pub fn request_manage(&mut self)
        ensures
            final(self)@ == queued(old(self)@, OpView::Manage),
    {
        self.queue(Op::Manage);
    }

    /// Puts a changed window in the place of the old one.
    pub fn set_window(&mut self, win: u64, w: Window)
        ensures
            final(self)@ == with_window(old(self)@, win, w),
    {
        let ghost before = self@;
        self.windows.insert(win, w);
        assert(self@ =~= with_window(before, win, w));
    }

    /// Performs [`Op::PinFloating`].
    pub fn pin_floating(&mut self, win: u64, geo: Rect)
        ensures
            final(self)@ == pinned(old(self)@, win, geo),
    {
        let ghost before = self@;
        match self.windows.remove(&win) {
            Some(mut w) => {
                w.floating = true;
                w.float_geo = geo;
                self.set_window(win, w);
            },
            None => {},
        }
        assert(self@ =~= pinned(before, win, geo));
    }
}

/// The model holds the fields of the state as they are, with texts as
/// characters.
pub proof fn models_are_faithful(s: State, i: int, tag: TagId)
    ensures
        s@.monitors == s.monitors.list@,
        s@.monitor_focus == s.monitors.focus,
        s@.outputs == s.outputs@,
        s@.windows == s.windows@,
        s@.tags == s.tags@,
        s@.tag_monitor.dom() == s.tag_monitor@.dom(),
        s.tag_monitor@.contains_key(tag) ==> s@.tag_monitor[tag] == s.tag_monitor@[tag].text@,
        s@.last_rects == s.last_rects@,
        s@.focus == s.focus,
        s@.window_gap == s.window_gap,
        s@.border_width == s.border_width,
        s@.border_active == s.border_active,
        s@.border_normal == s.border_normal,
        s@.rules.len() == s.rules@.len(),
        0 <= i < s.rules@.len() ==> s@.rules[i] == s.rules@[i]@,
        s@.pending_close == s.pending_close@,
        s@.ops.len() == s.ops@.len(),
        0 <= i < s.ops@.len() ==> s@.ops[i] == s.ops@[i]@,
{
    assert(s@.tag_monitor.dom() =~= s.tag_monitor@.dom());
}

/// A rule in the model has the fields of the rule, with its patterns as
/// characters.
pub proof fn rules_are_faithful(r: Rule)
    ensures
        r@.tag == r.tag,
        r@.floating == r.floating,
        r@.pseudotile == r.pseudotile,
        r.app_id is None <==> r@.app_id is None,
        r.app_id matches Some((exact, text)) ==> r@.app_id == Some((exact, text@)),
        r.title is None <==> r@.title is None,
        r.title matches Some((exact, text)) ==> r@.title == Some((exact, text@)),
{
}

/// Operations in the model are those of the queue.
pub proof fn ops_are_faithful(op: Op)
    ensures
        op matches Op::SetMonitors(rects) ==> op@ == OpView::SetMonitors(rects@),
        op matches Op::DetectMonitors ==> op@ == OpView::DetectMonitors,
        op matches Op::FocusMonitor(sel) ==> op@ == OpView::FocusMonitor(sel.text@),
        op matches Op::CycleMonitor(delta) ==> op@ == OpView::CycleMonitor(delta),
        op matches Op::ShowOnFocused(tag) ==> op@ == OpView::ShowOnFocused(tag),
        op matches Op::RemoveWindow { tag, win } ==> op@ == (OpView::RemoveWindow { tag, win }),
        op matches Op::InsertWindow { tag, win } ==> op@ == (OpView::InsertWindow { tag, win }),
        op matches Op::Split { how, fraction: Some(text) } ==> op@ == (OpView::Split {
            how,
            fraction: Some(text@),
        }),
        op matches Op::Split { how, fraction: None } ==> op@ == (OpView::Split {
            how,
            fraction: None,
        }),
        op matches Op::FocusDir { dir, area, gap } ==> op@ == (OpView::FocusDir { dir, area, gap }),
        op matches Op::ShiftDir { dir, area, gap } ==> op@ == (OpView::ShiftDir { dir, area, gap }),
        op matches Op::Resize { dir, delta: Some(text) } ==> op@ == (OpView::Resize {
            dir,
            delta: Some(text@),
        }),
        op matches Op::Resize { dir, delta: None } ==> op@ == (OpView::Resize {
            dir,
            delta: None,
        }),
        op matches Op::RemoveFrame ==> op@ == OpView::RemoveFrame,
        op matches Op::Cycle(delta) ==> op@ == OpView::Cycle(delta),
        op matches Op::FocusWindow(win) ==> op@ == OpView::FocusWindow(win),
        op matches Op::SetLayout(layout) ==> op@ == OpView::SetLayout(layout),
        op matches Op::CycleLayout ==> op@ == OpView::CycleLayout,
        op matches Op::MakeFloating { win, geo } ==> op@ == (OpView::MakeFloating { win, geo }),
        op matches Op::PinFloating { win, geo } ==> op@ == (OpView::PinFloating { win, geo }),
        op matches Op::ClearKeybinds ==> op@ == OpView::ClearKeybinds,
        op matches Op::ClearMousebinds ==> op@ == OpView::ClearMousebinds,
        op matches Op::Manage ==> op@ == OpView::Manage,
{
}

} // verus!
