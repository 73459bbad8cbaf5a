//! What each command does, by its name: what it queues, what it changes, and
//! what it replies.

use crate::args;
use crate::binding;
use crate::cmd_monitor;
use crate::cmd_rule;
use crate::cmd_set;
use crate::cmd_set::Setting;
use crate::cmd_tree;
use crate::color;
use crate::color::Color;
use crate::dispatch;
use crate::frame;
use crate::frame::{Dir, LayoutMode, SplitDir};
use crate::geometry;
use crate::geometry::{Insets, Rect};
use crate::listing;
use crate::names;
use crate::number;
use crate::split;
use crate::state;
use crate::state::{Model, OpView, Tree, Window};
use crate::step;
use crate::step::{AnswerView, CallView, StepView};
use vstd::prelude::*;
use vstd::string::*;

verus! {

/// The model with operations added at the end of the queue.
pub open spec fn with_ops(m: Model, ops: Seq<OpView>) -> Model {
    Model { ops: m.ops + ops, ..m }
}

/// A command that did its work: the model after it, and the reply `ok`.
pub open spec fn okay(m: Model) -> (Model, StepView) {
    (m, StepView::Reply("ok\n"@))
}

/// A command that was refused: the model as it was, and an error.
pub open spec fn refused(m: Model, msg: Seq<char>) -> (Model, StepView) {
    (m, StepView::Reply("error: "@ + msg + "\n"@))
}

/// A command that asks the manager first, and has changed nothing yet.
pub open spec fn asks(m: Model, call: CallView) -> (Model, StepView) {
    (m, StepView::Call(call))
}

/// A word in quotes, after a text.
pub open spec fn about(text: Seq<char>, word: Seq<char>) -> Seq<char> {
    text + " '"@ + word + "'"@
}

/// Whether a request is for the command with this name.
pub open spec fn is_for(args: Seq<Seq<char>>, name: Seq<char>) -> bool {
    args.len() > 0 && args[0] == name
}

/// The number of the first argument; 1 when there is none, or when it is no
/// number.
pub open spec fn delta_of(args: Seq<Seq<char>>) -> i32 {
    if args.len() > 1 && args::int_of(args[1]) is Some {
        args::int_of(args[1])->0
    } else {
        1
    }
}

/// Queueing one after the other adds at the end.
proof fn lemma_ops(m: Model)
    ensures
        forall|a: OpView| #[trigger] state::queued(m, a) == with_ops(m, seq![a]),
        forall|a: OpView, b: OpView|
            #[trigger] state::queued(state::queued(m, a), b) == with_ops(m, seq![a, b]),
        forall|a: OpView| #[trigger] state::managed(m, a) == with_ops(m, seq![a, OpView::Manage]),
        forall|a: OpView, b: OpView| #[trigger]
            state::managed(state::queued(m, a), b) == with_ops(m, seq![a, b, OpView::Manage]),
{
    assert forall|a: OpView| #[trigger] state::queued(m, a) == with_ops(m, seq![a]) by {
        assert(m.ops.push(a) =~= m.ops + seq![a]);
    }
    assert forall|a: OpView, b: OpView|
        #[trigger] state::queued(state::queued(m, a), b) == with_ops(m, seq![a, b]) by {
        assert(m.ops.push(a).push(b) =~= m.ops + seq![a, b]);
    }
    assert forall|a: OpView| #[trigger]
        state::managed(m, a) == with_ops(m, seq![a, OpView::Manage]) by {
        assert(m.ops.push(a).push(OpView::Manage) =~= m.ops + seq![a, OpView::Manage]);
    }
    assert forall|a: OpView, b: OpView| #[trigger]
        state::managed(state::queued(m, a), b) == with_ops(m, seq![a, b, OpView::Manage]) by {
        assert(m.ops.push(a).push(b).push(OpView::Manage) =~= m.ops + seq![a, b, OpView::Manage]);
    }
}

/// A request without a command, or with an unknown one, is refused.
pub proof fn nothing_else_is_a_command(m: Model, args: Seq<Seq<char>>)
    ensures
        args.len() == 0 ==> dispatch::dispatched(m, args) == refused(m, "empty command"@),
        args.len() > 0 && !names::is_name(args[0]) ==> dispatch::dispatched(m, args) == refused(
            m,
            "unknown command: "@ + args[0],
        ),
{
    if args.len() > 0 {
        names::other_words_name_nothing(args[0]);
    }
}

// Monitors.

/// Whether all words of a row are rectangles, and these are they.
pub open spec fn are_rects(words: Seq<Seq<char>>, rects: Seq<Rect>) -> bool {
    &&& words.len() == rects.len()
    &&& forall|i: int|
        0 <= i < words.len() ==> geometry::read_rect(#[trigger] words[i]) == Some(rects[i])
}

/// `set_monitors` takes all rectangles, in their order, or refuses the first
/// word that is none.
pub proof fn set_monitors_does(m: Model, args: Seq<Seq<char>>, rects: Seq<Rect>, k: int)
    requires
        is_for(args, "set_monitors"@),
    ensures
        args.len() == 1 ==> dispatch::dispatched(m, args) == refused(
            m,
            "set_monitors: expected at least one WxH+X+Y rect"@,
        ),
        args.len() > 1 && are_rects(args.skip(1), rects) ==> dispatch::dispatched(m, args) == okay(
            with_ops(m, seq![OpView::SetMonitors(rects), OpView::Manage]),
        ),
        1 <= k < args.len() && geometry::read_rect(args[k]) is None && (forall|i: int|
            1 <= i < k ==> geometry::read_rect(#[trigger] args[i]) is Some)
            ==> dispatch::dispatched(m, args) == refused(
            m,
            about("set_monitors: bad rect"@, args[k]),
        ),
{
    names::commands_have_names();
    lemma_ops(m);
    let rest = args.skip(1);
    if are_rects(rest, rects) {
        lemma_rects(rest, rects);
    }
    if 1 <= k < args.len() && geometry::read_rect(args[k]) is None && (forall|i: int|
        1 <= i < k ==> geometry::read_rect(#[trigger] args[i]) is Some) {
        assert forall|i: int| 0 <= i < k - 1 implies geometry::read_rect(
            #[trigger] rest[i],
        ) is Some by {
            assert(rest[i] == args[i + 1]);
        }
        lemma_bad_rect(rest, k - 1, rest.len() as int);
        assert(rest.take(rest.len() as int) =~= rest);
    }
}

/// Rectangles are read in their order.
proof fn lemma_rects(words: Seq<Seq<char>>, rects: Seq<Rect>)
    requires
        are_rects(words, rects),
    ensures
        cmd_monitor::rects_of(words) == Ok::<Seq<Rect>, Seq<char>>(rects),
    decreases words.len(),
{
    if words.len() == 0 {
        assert(rects =~= Seq::empty());
    } else {
        assert forall|i: int| 0 <= i < words.len() - 1 implies geometry::read_rect(
            #[trigger] words.drop_last()[i],
        ) == Some(rects.drop_last()[i]) by {
            assert(words.drop_last()[i] == words[i]);
        }
        lemma_rects(words.drop_last(), rects.drop_last());
        assert(geometry::read_rect(words[words.len() - 1]) == Some(rects[words.len() - 1]));
        assert(rects.drop_last().push(rects.last()) =~= rects);
    }
}

/// The first word that is no rectangle is the one that is refused.
proof fn lemma_bad_rect(words: Seq<Seq<char>>, k: int, n: int)
    requires
        0 <= k < words.len(),
        0 <= n <= words.len(),
        geometry::read_rect(words[k]) is None,
        forall|i: int| 0 <= i < k ==> geometry::read_rect(#[trigger] words[i]) is Some,
    ensures
        n <= k ==> cmd_monitor::rects_of(words.take(n)) is Ok,
        n > k ==> cmd_monitor::rects_of(words.take(n)) == Err::<
            Seq<Rect>,
            Seq<char>,
        >(words[k]),
    decreases n,
{
    if n > 0 {
        lemma_bad_rect(words, k, n - 1);
        assert(words.take(n).drop_last() =~= words.take(n - 1));
        assert(words.take(n).last() == words[n - 1]);
    }
}

/// `add_monitor` hands over the rectangle, the tag and the name.
pub proof fn add_monitor_does(m: Model, args: Seq<Seq<char>>)
    requires
        is_for(args, "add_monitor"@),
    ensures
        ({
            let r = dispatch::dispatched(m, args);
            if args.len() < 3 {
                r == refused(m, "add_monitor: expected <rect> <tag> [name]"@)
            } else if geometry::read_rect(args[1]) is None {
                r == refused(m, about("add_monitor: bad rect"@, args[1]))
            } else if args::tag_of(args[2]) is None {
                r == refused(m, about("add_monitor: bad tag"@, args[2]))
            } else {
                r == asks(
                    m,
                    CallView::AddMonitor {
                        rect: geometry::read_rect(args[1])->0,
                        tag: args::tag_of(args[2])->0,
                        name: if args.len() > 3 {
                            Some(args[3])
                        } else {
                            None
                        },
                    },
                )
            }
        }),
{
    names::commands_have_names();
}

/// `raise_monitor` hands over the selector.
pub proof fn raise_monitor_does(m: Model, args: Seq<Seq<char>>)
    requires
        is_for(args, "raise_monitor"@),
    ensures
        args.len() == 1 ==> dispatch::dispatched(m, args) == refused(
            m,
            "raise_monitor: expected a monitor selector"@,
        ),
        args.len() > 1 ==> dispatch::dispatched(m, args) == asks(
            m,
            CallView::RaiseMonitor { sel: args[1] },
        ),
{
    names::commands_have_names();
}

/// `focus_monitor` hands over the selector.
pub proof fn focus_monitor_does(m: Model, args: Seq<Seq<char>>)
    requires
        is_for(args, "focus_monitor"@),
    ensures
        args.len() == 1 ==> dispatch::dispatched(m, args) == refused(
            m,
            "focus_monitor: expected a monitor selector"@,
        ),
        args.len() > 1 ==> dispatch::dispatched(m, args) == asks(
            m,
            CallView::FocusMonitor { sel: args[1] },
        ),
{
    names::commands_have_names();
}

/// `lock_tag` hands over the tag, which stands first, and the selector.
pub proof fn lock_tag_does(m: Model, args: Seq<Seq<char>>)
    requires
        is_for(args, "lock_tag"@),
    ensures
        ({
            let r = dispatch::dispatched(m, args);
            if args.len() < 3 {
                r == refused(m, "lock_tag: expected <tag> <monitor>"@)
            } else if args::tag_of(args[1]) is None {
                r == refused(m, about("lock_tag: bad tag"@, args[1]))
            } else {
                r == asks(
                    m,
                    CallView::LockTag { tag: args::tag_of(args[1])->0, sel: args[2] },
                )
            }
        }),
{
    names::commands_have_names();
}

/// Whether an edge has this width: that of its word, or 0 when it has none.
pub open spec fn is_edge(args: Seq<Seq<char>>, i: int, width: i32) -> bool {
    if i < args.len() {
        args::int_of(args[i]) == Some(width)
    } else {
        width == 0
    }
}

/// `pad` hands over the selector and the edges: top, right, bottom and left.
/// It is refused when one of the words after the selector is no number.
pub proof fn pad_does(m: Model, args: Seq<Seq<char>>, pad: Insets, k: int)
    requires
        is_for(args, "pad"@),
    ensures
        args.len() < 3 ==> dispatch::dispatched(m, args) == refused(
            m,
            "pad: expected <monitor> <top> [right] [bottom] [left]"@,
        ),
        args.len() >= 3 && 2 <= k < args.len() && args::int_of(args[k]) is None
            ==> dispatch::dispatched(m, args) == refused(
            m,
            "pad: edge values must be integers"@,
        ),
        args.len() >= 3 && (forall|i: int|
            2 <= i < args.len() ==> args::int_of(#[trigger] args[i]) is Some) && is_edge(
            args,
            2,
            pad.top,
        ) && is_edge(args, 3, pad.right) && is_edge(args, 4, pad.bottom) && is_edge(
            args,
            5,
            pad.left,
        ) ==> dispatch::dispatched(m, args) == asks(m, CallView::SetPad { sel: args[1], pad }),
{
    names::commands_have_names();
    let edges = args.skip(1).skip(1);
    if args.len() >= 2 {
        assert(edges =~= args.skip(2));
    }
    if 2 <= k < args.len() && args::int_of(args[k]) is None {
        assert(edges[k - 2] == args[k]);
        assert(args::int_of(edges[k - 2]) is None);
    }
    if args.len() >= 3 && forall|i: int|
        2 <= i < args.len() ==> args::int_of(#[trigger] args[i]) is Some {
        assert forall|i: int| 0 <= i < edges.len() implies args::int_of(
            #[trigger] edges[i],
        ) is Some by {
            assert(edges[i] == args[i + 2]);
        }
    }
}

/// `cycle_monitor` moves the monitor focus, by one when nothing is said.
pub proof fn cycle_monitor_does(m: Model, args: Seq<Seq<char>>)
    requires
        is_for(args, "cycle_monitor"@),
    ensures
        dispatch::dispatched(m, args) == okay(
            with_ops(m, seq![OpView::CycleMonitor(delta_of(args)), OpView::Manage]),
        ),
{
    names::commands_have_names();
    lemma_ops(m);
}

/// `detect_monitors` forgets the monitors and has them detected.
pub proof fn detect_monitors_does(m: Model, args: Seq<Seq<char>>)
    requires
        is_for(args, "detect_monitors"@),
    ensures
        dispatch::dispatched(m, args) == okay(
            Model {
                monitors: Seq::empty(),
                ops: m.ops + seq![OpView::DetectMonitors, OpView::Manage],
                ..m
            },
        ),
{
    names::commands_have_names();
    lemma_ops(Model { monitors: Seq::empty(), ..m });
}

// Tags.

/// `use` shows a tag on the focused monitor, and focuses its home monitor
/// first when it has one.
pub proof fn use_does(m: Model, args: Seq<Seq<char>>, tag: u32)
    requires
        is_for(args, "use"@),
    ensures
        ({
            let r = dispatch::dispatched(m, args);
            &&& args.len() == 1 ==> r == refused(m, "use: expected a tag"@)
            &&& args.len() > 1 && args::tag_of(args[1]) is None ==> r == refused(
                m,
                "use: expected a tag"@,
            )
            &&& args.len() > 1 && args::tag_of(args[1]) == Some(tag)
                && !m.tag_monitor.contains_key(tag) ==> r == okay(
                with_ops(m, seq![OpView::ShowOnFocused(tag), OpView::Manage]),
            )
            &&& args.len() > 1 && args::tag_of(args[1]) == Some(tag) && m.tag_monitor.contains_key(
                tag,
            ) ==> r == okay(
                with_ops(
                    m,
                    seq![
                        OpView::FocusMonitor(m.tag_monitor[tag]),
                        OpView::ShowOnFocused(tag),
                        OpView::Manage,
                    ],
                ),
            )
        }),
{
    names::commands_have_names();
    lemma_ops(m);
    if m.tag_monitor.contains_key(tag) {
        let _ = state::managed(
            state::queued(m, OpView::FocusMonitor(m.tag_monitor[tag])),
            OpView::ShowOnFocused(tag),
        );
    }
}

/// `move` gives the focused window another tag. It is taken out of the tree
/// of its old tag, if that has one, and always put into the tree of the new
/// one.
pub proof fn move_does(m: Model, args: Seq<Seq<char>>, tag: u32, win: u64)
    requires
        is_for(args, "move"@),
    ensures
        ({
            let r = dispatch::dispatched(m, args);
            let readable = args.len() > 1 && args::tag_of(args[1]) == Some(tag);
            let w = m.windows[win];
            let moved = Model { windows: m.windows.insert(win, Window { tag, ..w }), ..m };
            &&& args.len() == 1 ==> r == refused(m, "move: expected a tag"@)
            &&& args.len() > 1 && args::tag_of(args[1]) is None ==> r == refused(
                m,
                "move: expected a tag"@,
            )
            &&& readable && m.focus.window is None ==> r == refused(m, "move: no focused window"@)
            &&& readable && m.focus.window == Some(win) && !m.windows.contains_key(win) ==> r
                == refused(m, "move: focused window missing"@)
            &&& readable && m.focus.window == Some(win) && m.windows.contains_key(win) && w.tag
                == tag ==> r == okay(m)
            &&& readable && m.focus.window == Some(win) && m.windows.contains_key(win) && w.tag
                != tag && m.tags.contains_key(w.tag) ==> r == okay(
                with_ops(
                    moved,
                    seq![
                        OpView::RemoveWindow { tag: w.tag, win },
                        OpView::InsertWindow { tag, win },
                        OpView::Manage,
                    ],
                ),
            )
            &&& readable && m.focus.window == Some(win) && m.windows.contains_key(win) && w.tag
                != tag && !m.tags.contains_key(w.tag) ==> r == okay(
                with_ops(moved, seq![OpView::InsertWindow { tag, win }, OpView::Manage]),
            )
        }),
{
    names::commands_have_names();
    let w = m.windows[win];
    let moved = Model { windows: m.windows.insert(win, Window { tag, ..w }), ..m };
    lemma_ops(moved);
    let _ = state::managed(
        state::queued(moved, OpView::RemoveWindow { tag: w.tag, win }),
        OpView::InsertWindow { tag, win },
    );
}

// Frame trees.

/// `split` splits the focused frame as its word says, with the fraction as it
/// was given.
pub proof fn split_does(m: Model, args: Seq<Seq<char>>, how: SplitDir)
    requires
        is_for(args, "split"@),
    ensures
        args.len() > 1 && args[1] == frame::split_word(how) ==> dispatch::dispatched(m, args)
            == okay(
            with_ops(
                m,
                seq![
                    OpView::Split {
                        how,
                        fraction: if args.len() > 2 {
                            Some(args[2])
                        } else {
                            None
                        },
                    },
                    OpView::Manage,
                ],
            ),
        ),
        args.len() == 1 || (forall|d: SplitDir| args[1] != #[trigger] frame::split_word(d))
            ==> dispatch::dispatched(m, args) == refused(
            m,
            "split: expected top|bottom|left|right|horizontal|vertical|explode"@,
        ),
{
    names::commands_have_names();
    lemma_ops(m);
    if args.len() > 1 {
        frame::splits_have_words(how, args[1]);
        match frame::split_dir(args[1]) {
            Some(d) => frame::splits_have_words(d, args[1]),
            None => {},
        }
    }
}

/// `focus` moves the focus, and not the window.
pub proof fn focus_does(m: Model, args: Seq<Seq<char>>, dir: Dir)
    requires
        is_for(args, "focus"@),
    ensures
        args.len() > 1 && args[1] == frame::dir_word(dir) ==> dispatch::dispatched(m, args) == okay(
            with_ops(
                m,
                seq![
                    OpView::FocusDir { dir, area: m.focus.area, gap: m.window_gap },
                    OpView::Manage,
                ],
            ),
        ),
        args.len() == 1 || (forall|d: Dir| args[1] != #[trigger] frame::dir_word(d))
            ==> dispatch::dispatched(m, args) == refused(m, "focus: expected left|down|up|right"@),
{
    names::commands_have_names();
    lemma_ops(m);
    if args.len() > 1 {
        frame::directions_have_words(dir, args[1]);
        match frame::direction(args[1]) {
            Some(d) => frame::directions_have_words(d, args[1]),
            None => {},
        }
    }
}

/// `shift` moves the focused window.
pub proof fn shift_does(m: Model, args: Seq<Seq<char>>, dir: Dir)
    requires
        is_for(args, "shift"@),
    ensures
        args.len() > 1 && args[1] == frame::dir_word(dir) ==> dispatch::dispatched(m, args) == okay(
            with_ops(
                m,
                seq![
                    OpView::ShiftDir { dir, area: m.focus.area, gap: m.window_gap },
                    OpView::Manage,
                ],
            ),
        ),
        args.len() == 1 || (forall|d: Dir| args[1] != #[trigger] frame::dir_word(d))
            ==> dispatch::dispatched(m, args) == refused(m, "shift: expected left|down|up|right"@),
{
    names::commands_have_names();
    lemma_ops(m);
    if args.len() > 1 {
        frame::directions_have_words(dir, args[1]);
        match frame::direction(args[1]) {
            Some(d) => frame::directions_have_words(d, args[1]),
            None => {},
        }
    }
}

/// Whether a text is another one after some number of `+`, and that other
/// one does not start with a `+` itself.
pub open spec fn is_after_pluses(text: Seq<char>, delta: Seq<char>, pluses: nat) -> bool {
    &&& text == Seq::new(pluses, |i: int| '+') + delta
    &&& delta.len() > 0 ==> delta[0] != '+'
}

/// `resize` hands over the delta as it was given, but for the `+` before it.
pub proof fn resize_does(m: Model, args: Seq<Seq<char>>, dir: Dir, delta: Seq<char>, pluses: nat)
    requires
        is_for(args, "resize"@),
    ensures
        args.len() == 2 && args[1] == frame::dir_word(dir) ==> dispatch::dispatched(m, args)
            == okay(with_ops(m, seq![OpView::Resize { dir, delta: None }, OpView::Manage])),
        args.len() > 2 && args[1] == frame::dir_word(dir) && is_after_pluses(
            args[2],
            delta,
            pluses,
        ) ==> dispatch::dispatched(m, args) == okay(
            with_ops(m, seq![OpView::Resize { dir, delta: Some(delta) }, OpView::Manage]),
        ),
        args.len() == 1 || (forall|d: Dir| args[1] != #[trigger] frame::dir_word(d))
            ==> dispatch::dispatched(m, args) == refused(
            m,
            "resize: expected left|down|up|right <delta>"@,
        ),
{
    names::commands_have_names();
    lemma_ops(m);
    if args.len() > 1 {
        frame::directions_have_words(dir, args[1]);
        match frame::direction(args[1]) {
            Some(d) => frame::directions_have_words(d, args[1]),
            None => {},
        }
    }
    if args.len() > 2 && is_after_pluses(args[2], delta, pluses) {
        lemma_pluses(args[2], delta, pluses);
    }
}

/// Leading `+` are left out one by one.
proof fn lemma_pluses(text: Seq<char>, delta: Seq<char>, pluses: nat)
    requires
        is_after_pluses(text, delta, pluses),
    ensures
        cmd_tree::plus_free(text) == delta,
    decreases pluses,
{
    if pluses > 0 {
        assert(text.skip(1) =~= Seq::new((pluses - 1) as nat, |i: int| '+') + delta);
        lemma_pluses(text.skip(1), delta, (pluses - 1) as nat);
    } else {
        assert(text =~= delta);
    }
}

/// A delta that does not start with a `+` is handed over unchanged.
pub proof fn resize_keeps_signs(m: Model, args: Seq<Seq<char>>, dir: Dir)
    requires
        is_for(args, "resize"@),
        args.len() > 2,
        args[1] == frame::dir_word(dir),
        args[2].len() > 0 ==> args[2][0] != '+',
    ensures
        dispatch::dispatched(m, args) == okay(
            with_ops(m, seq![OpView::Resize { dir, delta: Some(args[2]) }, OpView::Manage]),
        ),
{
    assert(Seq::new(0, |i: int| '+') + args[2] =~= args[2]);
    resize_does(m, args, dir, args[2], 0);
}

/// `remove` removes the focused frame.
pub proof fn remove_does(m: Model, args: Seq<Seq<char>>)
    requires
        is_for(args, "remove"@),
    ensures
        dispatch::dispatched(m, args) == okay(
            with_ops(m, seq![OpView::RemoveFrame, OpView::Manage]),
        ),
{
    names::commands_have_names();
    lemma_ops(m);
}

/// `cycle` moves the focus within the frame, by one when nothing is said.
pub proof fn cycle_does(m: Model, args: Seq<Seq<char>>)
    requires
        is_for(args, "cycle"@),
    ensures
        dispatch::dispatched(m, args) == okay(
            with_ops(m, seq![OpView::Cycle(delta_of(args)), OpView::Manage]),
        ),
{
    names::commands_have_names();
    lemma_ops(m);
}

/// Whether a place is where `cycle_all` starts: the first place of the
/// focused window, or 0 when it is not among the windows.
pub open spec fn is_start(windows: Seq<u64>, focused: Option<u64>, i: int) -> bool {
    match focused {
        Some(win) => {
            ||| 0 <= i < windows.len() && windows[i] == win && forall|j: int|
                0 <= j < i ==> #[trigger] windows[j] != win
            ||| i == 0 && !windows.contains(win)
        },
        None => i == 0,
    }
}

/// `cycle_all` focuses the window that lies so many places further round the
/// circle of all windows, by one when nothing is said.
pub proof fn cycle_all_does(m: Model, args: Seq<Seq<char>>, i: int)
    requires
        is_for(args, "cycle_all"@),
    ensures
        ({
            let r = dispatch::dispatched(m, args);
            let tree = m.tags[m.focus.tag];
            let all = tree.windows@;
            &&& !m.tags.contains_key(m.focus.tag) ==> r == okay(m)
            &&& m.tags.contains_key(m.focus.tag) && all.len() == 0 ==> r == okay(m)
            &&& m.tags.contains_key(m.focus.tag) && all.len() > 0 && is_start(all, tree.focused, i)
                ==> r == okay(
                with_ops(
                    m,
                    seq![
                        OpView::FocusWindow(all[(i + delta_of(args)) % (all.len() as int)]),
                        OpView::Manage,
                    ],
                ),
            )
        }),
{
    names::commands_have_names();
    lemma_ops(m);
    let tree = m.tags[m.focus.tag];
    if tree.windows@.len() > 0 && is_start(tree.windows@, tree.focused, i) {
        lemma_start(tree, i);
    }
}

/// There is one place where `cycle_all` starts.
proof fn lemma_start(tree: Tree, i: int)
    requires
        is_start(tree.windows@, tree.focused, i),
        tree.windows@.len() > 0,
    ensures
        cmd_tree::place_in(tree) == i,
{
    let all = tree.windows@;
    match tree.focused {
        Some(win) => {
            let is_win = cmd_tree::is_window(win);
            let k = if all.contains(win) {
                i
            } else {
                all.len() as int
            };
            assert forall|j: int| 0 <= j < k implies !is_win(#[trigger] all.take(k)[j]) by {
                assert(all.take(k)[j] == all[j]);
                assert(all.contains(all[j]));
            }
            split::lemma_cut_is(all, is_win, k);
        },
        None => {},
    }
}

/// `set_layout` sets the layout that its word names.
pub proof fn set_layout_does(m: Model, args: Seq<Seq<char>>, layout: LayoutMode)
    requires
        is_for(args, "set_layout"@),
    ensures
        args.len() > 1 && args[1] == frame::layout_word(layout) ==> dispatch::dispatched(m, args)
            == okay(with_ops(m, seq![OpView::SetLayout(layout), OpView::Manage])),
        args.len() == 1 || (forall|d: LayoutMode| args[1] != #[trigger] frame::layout_word(d))
            ==> dispatch::dispatched(m, args) == refused(
            m,
            "set_layout: expected max|vertical|horizontal|grid"@,
        ),
{
    names::commands_have_names();
    lemma_ops(m);
    if args.len() > 1 {
        frame::layouts_have_words(layout, args[1]);
        match frame::layout_mode(args[1]) {
            Some(d) => frame::layouts_have_words(d, args[1]),
            None => {},
        }
    }
}

/// `cycle_layout` goes to the next layout.
pub proof fn cycle_layout_does(m: Model, args: Seq<Seq<char>>)
    requires
        is_for(args, "cycle_layout"@),
    ensures
        dispatch::dispatched(m, args) == okay(
            with_ops(m, seq![OpView::CycleLayout, OpView::Manage]),
        ),
{
    names::commands_have_names();
    lemma_ops(m);
}

// Settings.

/// Whether a word is the name of a setting.
pub open spec fn is_setting(word: Seq<char>) -> bool {
    ||| word == "window_gap"@
    ||| word == "border_width"@
    ||| word == "border_color_active"@
    ||| word == "frame_border_active_color"@
    ||| word == "border_color_normal"@
    ||| word == "frame_border_normal_color"@
}

/// The names of the settings differ.
proof fn lemma_settings()
    ensures
        cmd_set::setting("window_gap"@) == Some(Setting::WindowGap),
        cmd_set::setting("border_width"@) == Some(Setting::BorderWidth),
        cmd_set::setting("border_color_active"@) == Some(Setting::BorderActive),
        cmd_set::setting("frame_border_active_color"@) == Some(Setting::BorderActive),
        cmd_set::setting("border_color_normal"@) == Some(Setting::BorderNormal),
        cmd_set::setting("frame_border_normal_color"@) == Some(Setting::BorderNormal),
{
    reveal_strlit("window_gap");
    reveal_strlit("border_width");
    reveal_strlit("border_color_active");
    reveal_strlit("frame_border_active_color");
    reveal_strlit("border_color_normal");
    reveal_strlit("frame_border_normal_color");
    assert("window_gap"@.len() == 10);
    assert("border_width"@.len() == 12);
    assert("border_color_active"@.len() == 19);
    assert("frame_border_active_color"@.len() == 25);
    assert("border_color_normal"@.len() == 19);
    assert("frame_border_normal_color"@.len() == 25);
    assert("border_color_active"@[13] != "border_color_normal"@[13]);
    assert("frame_border_active_color"@[13] != "frame_border_normal_color"@[13]);
}

/// `set` changes the setting that its name says, and no other. Widths are not
/// negative, and unknown names are ignored.
pub proof fn set_does(m: Model, args: Seq<Seq<char>>, n: i32, c: Color)
    requires
        is_for(args, "set"@),
    ensures
        ({
            let r = dispatch::dispatched(m, args);
            let v = args[2];
            let ops = m.ops + seq![OpView::Manage];
            let width = if n > 0 {
                n
            } else {
                0
            };
            let active = args[1] == "border_color_active"@ || args[1]
                == "frame_border_active_color"@;
            let normal = args[1] == "border_color_normal"@ || args[1]
                == "frame_border_normal_color"@;
            &&& args.len() < 3 ==> r == refused(m, "set: expected <name> <value>"@)
            &&& args.len() >= 3 ==> {
                &&& args[1] == "window_gap"@ && args::int_of(v) == Some(n) ==> r == okay(
                    Model { window_gap: width, ops, ..m },
                )
                &&& args[1] == "window_gap"@ && args::int_of(v) is None ==> r == refused(
                    m,
                    "set window_gap: expected an integer"@,
                )
                &&& args[1] == "border_width"@ && args::int_of(v) == Some(n) ==> r == okay(
                    Model { border_width: width, ops, ..m },
                )
                &&& args[1] == "border_width"@ && args::int_of(v) is None ==> r == refused(
                    m,
                    "set border_width: expected an integer"@,
                )
                &&& active && color::read_color(v) == Some(c) ==> r == okay(
                    Model { border_active: c, ops, ..m },
                )
                &&& normal && color::read_color(v) == Some(c) ==> r == okay(
                    Model { border_normal: c, ops, ..m },
                )
                &&& (active || normal) && color::read_color(v) is None ==> r == refused(
                    m,
                    "set: bad colour (use #rrggbb)"@,
                )
                &&& !is_setting(args[1]) ==> r == okay(m)
            }
        }),
{
    names::commands_have_names();
    lemma_settings();
    assert(m.ops.push(OpView::Manage) =~= m.ops + seq![OpView::Manage]);
}

// Windows.

/// `close` notes that the focused window is to close.
pub proof fn close_does(m: Model, args: Seq<Seq<char>>, win: u64)
    requires
        is_for(args, "close"@),
    ensures
        m.focus.window is None ==> dispatch::dispatched(m, args) == refused(
            m,
            "close: no focused window"@,
        ),
        m.focus.window == Some(win) ==> dispatch::dispatched(m, args) == okay(
            Model {
                pending_close: m.pending_close + seq![win],
                ops: m.ops + seq![OpView::Manage],
                ..m
            },
        ),
{
    names::commands_have_names();
    assert(m.ops.push(OpView::Manage) =~= m.ops + seq![OpView::Manage]);
    assert(m.pending_close.push(win) =~= m.pending_close + seq![win]);
}

/// What a switch comes to: on, off, or the other way round.
pub open spec fn is_switched(args: Seq<Seq<char>>, before: bool, after: bool) -> bool {
    if args.len() > 1 && (args[1] == "on"@ || args[1] == "true"@) {
        after
    } else if args.len() > 1 && (args[1] == "off"@ || args[1] == "false"@) {
        !after
    } else {
        after != before
    }
}

/// The words of a switch differ.
proof fn lemma_switches()
    ensures
        "on"@ != "off"@,
        "on"@ != "false"@,
        "true"@ != "off"@,
        "true"@ != "false"@,
{
    reveal_strlit("on");
    reveal_strlit("off");
    reveal_strlit("true");
    reveal_strlit("false");
    assert("on"@.len() == 2);
    assert("off"@.len() == 3);
    assert("true"@.len() == 4);
    assert("false"@.len() == 5);
}

/// `fullscreen` switches whether the focused window is fullscreen, and
/// nothing else of it or of another window.
pub proof fn fullscreen_does(m: Model, args: Seq<Seq<char>>, win: u64, on: bool)
    requires
        is_for(args, "fullscreen"@),
    ensures
        ({
            let r = dispatch::dispatched(m, args);
            let ops = m.ops + seq![OpView::Manage];
            let w = m.windows[win];
            &&& m.focus.window is None ==> r == refused(m, "no focused window"@)
            &&& m.focus.window == Some(win) && !m.windows.contains_key(win) ==> r == okay(
                Model { ops, ..m },
            )
            &&& m.focus.window == Some(win) && m.windows.contains_key(win) && is_switched(
                args,
                w.fullscreen,
                on,
            ) ==> r == okay(
                Model {
                    windows: m.windows.insert(win, Window { fullscreen: on, ..w }),
                    ops,
                    ..m
                },
            )
        }),
{
    names::commands_have_names();
    lemma_switches();
    assert(m.ops.push(OpView::Manage) =~= m.ops + seq![OpView::Manage]);
}

/// `pseudotile` switches whether the focused window is pseudotiled, and
/// nothing else of it or of another window.
pub proof fn pseudotile_does(m: Model, args: Seq<Seq<char>>, win: u64, on: bool)
    requires
        is_for(args, "pseudotile"@),
    ensures
        ({
            let r = dispatch::dispatched(m, args);
            let ops = m.ops + seq![OpView::Manage];
            let w = m.windows[win];
            &&& m.focus.window is None ==> r == refused(m, "no focused window"@)
            &&& m.focus.window == Some(win) && !m.windows.contains_key(win) ==> r == okay(
                Model { ops, ..m },
            )
            &&& m.focus.window == Some(win) && m.windows.contains_key(win) && is_switched(
                args,
                w.pseudotile,
                on,
            ) ==> r == okay(
                Model {
                    windows: m.windows.insert(win, Window { pseudotile: on, ..w }),
                    ops,
                    ..m
                },
            )
        }),
{
    names::commands_have_names();
    lemma_switches();
    assert(m.ops.push(OpView::Manage) =~= m.ops + seq![OpView::Manage]);
}

/// `floating` lets the focused window float where it was last, or else at the
/// default place, or puts it back into the tiling. A window that is as it
/// should be already stays so.
pub proof fn floating_does(m: Model, args: Seq<Seq<char>>, win: u64, on: bool)
    requires
        is_for(args, "floating"@),
    ensures
        ({
            let r = dispatch::dispatched(m, args);
            let ops = m.ops + seq![OpView::Manage];
            let w = m.windows[win];
            let floats = m.windows.contains_key(win) && w.floating;
            &&& m.focus.window is None ==> r == refused(m, "floating: no focused window"@)
            &&& m.focus.window == Some(win) && is_switched(args, floats, on) ==> {
                &&& on == floats ==> r == okay(Model { ops, ..m })
                &&& on && !floats && m.last_rects.contains_key(win) ==> r == okay(
                    with_ops(
                        m,
                        seq![
                            OpView::MakeFloating { win, geo: m.last_rects[win] },
                            OpView::Manage,
                        ],
                    ),
                )
                &&& on && !floats && !m.last_rects.contains_key(win) ==> r == okay(
                    with_ops(
                        m,
                        seq![
                            OpView::MakeFloating { win, geo: m.focus.float_default },
                            OpView::Manage,
                        ],
                    ),
                )
                &&& !on && floats ==> r == okay(
                    Model {
                        windows: m.windows.insert(win, Window { floating: false, ..w }),
                        ops,
                        ..m
                    },
                )
            }
        }),
{
    names::commands_have_names();
    lemma_switches();
    lemma_ops(m);
    assert(m.ops.push(OpView::Manage) =~= m.ops + seq![OpView::Manage]);
}

/// `floating_geometry` lets the focused window float at a place, and records
/// the place after that.
pub proof fn floating_geometry_does(m: Model, args: Seq<Seq<char>>, win: u64, geo: Rect)
    requires
        is_for(args, "floating_geometry"@),
    ensures
        ({
            let r = dispatch::dispatched(m, args);
            let readable = args.len() > 1 && geometry::read_rect(args[1]) is Some;
            &&& !readable ==> r == refused(m, "floating_geometry: expected WxH+X+Y"@)
            &&& readable && m.focus.window is None ==> r == refused(
                m,
                "floating_geometry: no focused window"@,
            )
            &&& readable && geometry::read_rect(args[1]) == Some(geo) && m.focus.window == Some(win)
                ==> r == okay(
                with_ops(
                    m,
                    seq![
                        OpView::MakeFloating { win, geo },
                        OpView::PinFloating { win, geo },
                        OpView::Manage,
                    ],
                ),
            )
        }),
{
    names::commands_have_names();
    lemma_ops(m);
}

// Bindings and programs.

/// `keybind` hands over the modifiers and the name of the key, and keeps the
/// words after the binding as the command.
pub proof fn keybind_does(m: Model, args: Seq<Seq<char>>, mods: u32, key: Seq<char>, e: Seq<char>)
    requires
        is_for(args, "keybind"@),
    ensures
        ({
            let r = dispatch::dispatched(m, args);
            &&& args.len() < 3 ==> r == refused(m, "keybind: expected <mods+key> <command...>"@)
            &&& args.len() >= 3 && binding::binding_parts(args[1]) == Ok::<
                (u32, Seq<char>),
                Seq<char>,
            >((mods, key)) ==> r == asks(
                m,
                CallView::LookUpKey { mods, key, command: args.skip(2) },
            )
            &&& args.len() >= 3 && binding::binding_parts(args[1]) == Err::<
                (u32, Seq<char>),
                Seq<char>,
            >(e) ==> r == refused(m, "keybind: "@ + e)
        }),
{
    names::commands_have_names();
    if args.len() >= 2 {
        assert(args.skip(1).skip(1) =~= args.skip(2));
    }
    reveal_strlit("keybind");
    reveal_strlit(": ");
    reveal_strlit("keybind: ");
    assert("keybind"@ + ": "@ =~= "keybind: "@);
}

/// `keyunbind` drops all key bindings.
pub proof fn keyunbind_does(m: Model, args: Seq<Seq<char>>)
    requires
        is_for(args, "keyunbind"@),
    ensures
        dispatch::dispatched(m, args) == okay(
            with_ops(m, seq![OpView::ClearKeybinds, OpView::Manage]),
        ),
{
    names::commands_have_names();
    lemma_ops(m);
}

/// `mousebind` hands over the modifiers and the button. `move` drags the
/// place of a window, `resize` and `zoom` its size.
pub proof fn mousebind_does(
    m: Model,
    args: Seq<Seq<char>>,
    mods: u32,
    button: u32,
    e: Seq<char>,
)
    requires
        is_for(args, "mousebind"@),
    ensures
        ({
            let r = dispatch::dispatched(m, args);
            let read = binding::mousebutton(args[1]);
            let is_move = args[2] == "move"@;
            let is_resize = args[2] == "resize"@ || args[2] == "zoom"@;
            &&& args.len() < 3 ==> r == refused(
                m,
                "mousebind: expected <mods+ButtonN> <move|resize|zoom>"@,
            )
            &&& args.len() >= 3 && read == Err::<(u32, u32), Seq<char>>(e) ==> r == refused(
                m,
                "mousebind: "@ + e,
            )
            &&& args.len() >= 3 && read == Ok::<(u32, u32), Seq<char>>((mods, button)) ==> {
                &&& is_move ==> r == asks(
                    m,
                    CallView::AddMousebind { mods, button, resize: false },
                )
                &&& is_resize ==> r == asks(
                    m,
                    CallView::AddMousebind { mods, button, resize: true },
                )
                &&& !is_move && !is_resize ==> r == refused(
                    m,
                    about("mousebind: unknown action"@, args[2]),
                )
            }
        }),
{
    names::commands_have_names();
    reveal_strlit("mousebind");
    reveal_strlit(": ");
    reveal_strlit("mousebind: ");
    assert("mousebind"@ + ": "@ =~= "mousebind: "@);
    reveal_strlit("move");
    reveal_strlit("resize");
    reveal_strlit("zoom");
    assert("move"@[0] != "resize"@[0]);
    assert("move"@[0] != "zoom"@[0]);
}

/// `mouseunbind` drops all button bindings.
pub proof fn mouseunbind_does(m: Model, args: Seq<Seq<char>>)
    requires
        is_for(args, "mouseunbind"@),
    ensures
        dispatch::dispatched(m, args) == okay(
            with_ops(m, seq![OpView::ClearMousebinds, OpView::Manage]),
        ),
{
    names::commands_have_names();
    lemma_ops(m);
}

/// `spawn` hands over the program and its arguments.
pub proof fn spawn_does(m: Model, args: Seq<Seq<char>>)
    requires
        is_for(args, "spawn"@),
    ensures
        args.len() == 1 ==> dispatch::dispatched(m, args) == refused(
            m,
            "spawn: expected a command"@,
        ),
        args.len() > 1 ==> dispatch::dispatched(m, args) == asks(
            m,
            CallView::Spawn { program: args[1], args: args.skip(2) },
        ),
{
    names::commands_have_names();
    if args.len() > 1 {
        assert(args.skip(1).skip(1) =~= args.skip(2));
    }
}

/// `quit` and `reload` are left to the manager, whatever their arguments.
pub proof fn quit_and_reload_do(m: Model, args: Seq<Seq<char>>)
    ensures
        is_for(args, "quit"@) ==> dispatch::dispatched(m, args) == asks(m, CallView::Quit),
        is_for(args, "reload"@) ==> dispatch::dispatched(m, args) == asks(m, CallView::Reload),
{
    names::commands_have_names();
}

// Rules and home monitors.

/// `rule` adds the rule that its tokens make after the rules that there are.
pub proof fn rule_does(m: Model, args: Seq<Seq<char>>)
    requires
        is_for(args, "rule"@),
    ensures
        dispatch::dispatched(m, args) == okay(
            Model {
                rules: m.rules + seq![cmd_rule::rule_of(args.skip(1))],
                ops: m.ops + seq![OpView::Manage],
                ..m
            },
        ),
{
    names::commands_have_names();
    let r = cmd_rule::rule_of(args.skip(1));
    assert(m.rules.push(r) =~= m.rules + seq![r]);
    assert(m.ops.push(OpView::Manage) =~= m.ops + seq![OpView::Manage]);
}

/// `unrule` drops all rules.
pub proof fn unrule_does(m: Model, args: Seq<Seq<char>>)
    requires
        is_for(args, "unrule"@),
    ensures
        dispatch::dispatched(m, args) == okay(
            Model { rules: Seq::empty(), ops: m.ops + seq![OpView::Manage], ..m },
        ),
{
    names::commands_have_names();
    assert(m.ops.push(OpView::Manage) =~= m.ops + seq![OpView::Manage]);
}

/// `set_tag_monitor` gives a tag a home monitor, and no other tag.
pub proof fn set_tag_monitor_does(m: Model, args: Seq<Seq<char>>, tag: u32)
    requires
        is_for(args, "set_tag_monitor"@),
    ensures
        ({
            let r = dispatch::dispatched(m, args);
            &&& args.len() < 3 ==> r == refused(m, "set_tag_monitor: expected <tag> <monitor>"@)
            &&& args.len() >= 3 && args::tag_of(args[1]) is None ==> r == refused(
                m,
                about("set_tag_monitor: bad tag"@, args[1]),
            )
            &&& args.len() >= 3 && args::tag_of(args[1]) == Some(tag) ==> r == okay(
                Model {
                    tag_monitor: m.tag_monitor.insert(tag, args[2]),
                    ops: m.ops + seq![OpView::Manage],
                    ..m
                },
            )
        }),
{
    names::commands_have_names();
    assert(m.ops.push(OpView::Manage) =~= m.ops + seq![OpView::Manage]);
}

// Listings.

/// The listings reply with what they list, and change nothing.
pub proof fn listings_do(m: Model, args: Seq<Seq<char>>)
    ensures
        is_for(args, "list_monitors"@) ==> dispatch::dispatched(m, args) == (
            m,
            StepView::Reply(listing::monitors_text(m)),
        ),
        is_for(args, "list_clients"@) ==> dispatch::dispatched(m, args) == (
            m,
            StepView::Reply(listing::clients_text(m)),
        ),
        is_for(args, "list_outputs"@) ==> dispatch::dispatched(m, args) == (
            m,
            StepView::Reply(listing::outputs_text(m)),
        ),
        is_for(args, "dump"@) ==> dispatch::dispatched(m, args) == (
            m,
            StepView::Reply(listing::dump_text(m)),
        ),
{
    names::commands_have_names();
}

// Answers.

/// What an answer comes to that says whether a monitor was found: `ok` and a
/// manage pass, or a complaint about the selector.
pub open spec fn is_search(
    r: (Model, StepView),
    m: Model,
    command: Seq<char>,
    sel: Seq<char>,
    found: bool,
) -> bool {
    if found {
        r == okay(with_ops(m, seq![OpView::Manage]))
    } else {
        r == refused(m, command + ": no such monitor '"@ + sel + "'"@)
    }
}

/// Commands that name a monitor are answered by whether it was found.
pub proof fn searches_are_answered(
    m: Model,
    sel: Seq<char>,
    tag: u32,
    pad: Insets,
    found: bool,
)
    ensures
        ({
            let answer = AnswerView::Found(found);
            &&& is_search(
                step::resumed(m, CallView::RaiseMonitor { sel }, answer),
                m,
                "raise_monitor"@,
                sel,
                found,
            )
            &&& is_search(
                step::resumed(m, CallView::LockTag { tag, sel }, answer),
                m,
                "lock_tag"@,
                sel,
                found,
            )
            &&& is_search(
                step::resumed(m, CallView::SetPad { sel, pad }, answer),
                m,
                "pad"@,
                sel,
                found,
            )
            &&& is_search(
                step::resumed(m, CallView::FocusMonitor { sel }, answer),
                m,
                "focus_monitor"@,
                sel,
                found,
            )
        }),
{
    lemma_ops(m);
    reveal_strlit(": no such monitor '");
    reveal_strlit(" '");
    reveal_strlit("raise_monitor");
    reveal_strlit("raise_monitor: no such monitor");
    assert("raise_monitor: no such monitor"@ + " '"@ =~= "raise_monitor"@
        + ": no such monitor '"@);
    reveal_strlit("lock_tag");
    reveal_strlit("lock_tag: no such monitor");
    assert("lock_tag: no such monitor"@ + " '"@ =~= "lock_tag"@ + ": no such monitor '"@);
    reveal_strlit("pad");
    reveal_strlit("pad: no such monitor");
    assert("pad: no such monitor"@ + " '"@ =~= "pad"@ + ": no such monitor '"@);
    reveal_strlit("focus_monitor");
    reveal_strlit("focus_monitor: no such monitor");
    assert("focus_monitor: no such monitor"@ + " '"@ =~= "focus_monitor"@
        + ": no such monitor '"@);
}

/// A monitor that was added is answered by its id.
pub proof fn additions_are_answered(
    m: Model,
    rect: Rect,
    tag: u32,
    name: Option<Seq<char>>,
    id: u32,
)
    ensures
        step::resumed(m, CallView::AddMonitor { rect, tag, name }, AnswerView::Added(id)) == (
            with_ops(m, seq![OpView::Manage]),
            StepView::Reply("monitor "@ + number::dec(id as nat) + "\n"@),
        ),
{
    lemma_ops(m);
}

/// A key that was found is bound, with its modifiers and its command. One
/// that has the keysym 0 is refused.
pub proof fn lookups_are_answered(
    m: Model,
    mods: u32,
    key: Seq<char>,
    command: Seq<Seq<char>>,
    keysym: u32,
)
    ensures
        ({
            let r = step::resumed(
                m,
                CallView::LookUpKey { mods, key, command },
                AnswerView::Keysym(keysym),
            );
            if keysym != 0 {
                r == asks(m, CallView::AddKeybind { mods, keysym, command })
            } else {
                r == refused(m, "keybind: unknown key '"@ + key + "'"@)
            }
        }),
{
    reveal_strlit("keybind");
    reveal_strlit(": ");
    reveal_strlit("unknown key");
    reveal_strlit(" '");
    reveal_strlit("keybind: unknown key '");
    assert("keybind"@ + ": "@ + ("unknown key"@ + " '"@ + key + "'"@) =~= "keybind: unknown key '"@
        + key + "'"@);
}

/// Bindings and programs are answered by whether it worked. A binding that
/// was made asks for a manage pass.
pub proof fn deeds_are_answered(
    m: Model,
    mods: u32,
    code: u32,
    resize: bool,
    words: Seq<Seq<char>>,
    program: Seq<char>,
    e: Seq<char>,
)
    ensures
        ({
            let mouse = CallView::AddMousebind { mods, button: code, resize };
            let key = CallView::AddKeybind { mods, keysym: code, command: words };
            let spawn = CallView::Spawn { program, args: words };
            let done = AnswerView::Done(Ok(()));
            let failed = AnswerView::Done(Err(e));
            let passed = okay(with_ops(m, seq![OpView::Manage]));
            &&& step::resumed(m, mouse, done) == passed
            &&& step::resumed(m, mouse, failed) == refused(m, "mousebind: "@ + e)
            &&& step::resumed(m, key, done) == passed
            &&& step::resumed(m, key, failed) == refused(m, "keybind: "@ + e)
            &&& step::resumed(m, spawn, done) == okay(m)
            &&& step::resumed(m, spawn, failed) == refused(m, "spawn: "@ + e)
            &&& step::resumed(m, CallView::Reload, done) == okay(m)
        }),
{
    lemma_ops(m);
    reveal_strlit(": ");
    reveal_strlit("mousebind");
    reveal_strlit("mousebind: ");
    assert("mousebind"@ + ": "@ =~= "mousebind: "@);
    reveal_strlit("keybind");
    reveal_strlit("keybind: ");
    assert("keybind"@ + ": "@ =~= "keybind: "@);
    reveal_strlit("spawn");
    reveal_strlit("spawn: ");
    assert("spawn"@ + ": "@ =~= "spawn: "@);
}

/// Each call asks for its own kind of answer.
pub proof fn calls_ask_for_answers(call: CallView, answer: AnswerView)
    ensures
        step::answers(call, answer) <==> match answer {
            AnswerView::Added(_) => call is AddMonitor,
            AnswerView::Found(_) => call is RaiseMonitor || call is LockTag || call is SetPad
                || call is FocusMonitor,
            AnswerView::Keysym(_) => call is LookUpKey,
            AnswerView::Done(_) => call is AddMousebind || call is AddKeybind || call is Spawn
                || call is Reload,
        },
{
}

// Changes of the state.

/// What queueing, replacing a window and pinning one change, and that they
/// change nothing else.
pub proof fn changes_are_single(m: Model, op: OpView, win: u64, w: Window, geo: Rect)
    ensures
        state::queued(m, op) == with_ops(m, seq![op]),
        state::managed(m, op) == with_ops(m, seq![op, OpView::Manage]),
        state::with_window(m, win, w) == (Model { windows: m.windows.insert(win, w), ..m }),
        m.windows.contains_key(win) ==> state::pinned(m, win, geo) == (Model {
            windows: m.windows.insert(
                win,
                Window { floating: true, float_geo: geo, ..m.windows[win] },
            ),
            ..m
        }),
        !m.windows.contains_key(win) ==> state::pinned(m, win, geo) == m,
{
    lemma_ops(m);
}

} // verus!
