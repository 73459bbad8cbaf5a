//! What holds of the commands together.

use crate::args;
use crate::binding;
use crate::cmd_bind;
use crate::cmd_monitor;
use crate::cmd_rule;
use crate::cmd_set;
use crate::cmd_tag;
use crate::cmd_tree;
use crate::cmd_window;
use crate::cmd_window::WinMode;
use crate::dispatch;
use crate::dispatch::Command;
use crate::geometry;
use crate::geometry::Rect;
use crate::listing;
use crate::number;
use crate::reply;
use crate::split;
use crate::state;
use crate::state::{Model, Monitor, OpView, Window};
use crate::step;
use crate::step::{AnswerView, CallView, StepView};
use vstd::prelude::*;
use vstd::string::*;

verus! {

/// Whether a step refuses a command.
pub open spec fn refuses(s: StepView) -> bool {
    match s {
        StepView::Reply(text) => reply::is_refusal(text),
        StepView::Call(_) => false,
    }
}

/// Whether a command only tells what there is.
pub open spec fn is_listing(what: Command) -> bool {
    what == Command::ListMonitors || what == Command::ListClients || what == Command::ListOutputs
        || what == Command::Dump
}

/// What holds between a model and the one that a command makes of it.
spec fn is_lawful(m: Model, m2: Model, reply: Seq<char>) -> bool {
    &&& reply::is_refusal(reply) ==> m2 == m
    &&& m.ops.len() <= m2.ops.len()
    &&& forall|i: int| 0 <= i < m.ops.len() ==> #[trigger] m2.ops[i] == m.ops[i]
    &&& has_widths(m) ==> has_widths(m2)
    &&& forall|win: u64| #[trigger] m2.windows.contains_key(win) == m.windows.contains_key(win)
    &&& forall|win: u64|
        m.focus.window != Some(win) && m.windows.contains_key(win) ==> #[trigger] m2.windows[win]
            == m.windows[win]
}

/// Whether a model is the same, or has a manage pass queued last.
spec fn is_same_or_managed(m: Model, m2: Model) -> bool {
    m2 == m || (m2.ops.len() > m.ops.len() && m2.ops.last() == OpView::Manage)
}

/// Whether a reply says `ok`, or is an error.
pub open spec fn is_plain(reply: Seq<char>) -> bool {
    reply == reply::ok_text() || reply::is_error(reply)
}

/// Whether what a command does is lawful, ends with a manage pass, and has a
/// plain reply.
spec fn is_passing(m: Model, r: (Model, Seq<char>)) -> bool {
    is_lawful(m, r.0, r.1) && is_same_or_managed(m, r.0) && is_plain(r.1)
}

/// What holds of each command.
#[verifier::rlimit(40)]
proof fn lemma_performed(m: Model, what: Command, rest: Seq<Seq<char>>)
    ensures
        ({
            let (m2, s) = dispatch::performed(m, what, rest);
            &&& s matches StepView::Reply(text) ==> is_lawful(m, m2, text)
            &&& s is Call ==> m2 == m
            &&& is_same_or_managed(m, m2)
            &&& !is_listing(what) && s is Reply ==> is_plain(s->Reply_0)
        }),
{
    reply::refusals_are_marked(Seq::empty());
    assert forall|msg: Seq<char>| reply::is_refusal(#[trigger] reply::err_text(msg)) by {
        reply::refusals_are_marked(msg);
    }
    match what {
        Command::SetMonitors => assert(is_passing(m, cmd_monitor::set_monitors(m, rest))),
        Command::CycleMonitor => assert(is_passing(m, cmd_monitor::cycle_monitor(m, rest))),
        Command::DetectMonitors => assert(is_passing(m, cmd_monitor::detect_monitors(m))),
        Command::Use => assert(is_passing(m, cmd_tag::use_tag(m, rest))),
        Command::UseIndex => assert(is_passing(m, cmd_tag::use_index(m, rest))),
        Command::Move => assert(is_passing(m, cmd_tag::move_window(m, rest))),
        Command::Keyunbind => assert(is_passing(m, cmd_bind::keyunbind(m))),
        Command::Split => assert(is_passing(m, cmd_tree::split_frame(m, rest))),
        Command::Focus => assert(is_passing(m, cmd_tree::focus_dir(m, rest))),
        Command::Shift => assert(is_passing(m, cmd_tree::shift_dir(m, rest))),
        Command::Resize => assert(is_passing(m, cmd_tree::resize(m, rest))),
        Command::Remove => assert(is_passing(m, cmd_tree::remove_frame(m))),
        Command::Cycle => assert(is_passing(m, cmd_tree::cycle(m, rest))),
        Command::CycleAll => assert(is_passing(m, cmd_tree::cycle_all(m, rest))),
        Command::SetLayout => assert(is_passing(m, cmd_tree::set_layout(m, rest))),
        Command::CycleLayout => assert(is_passing(m, cmd_tree::cycle_layout(m))),
        Command::Configure => assert(is_passing(m, cmd_set::set(m, rest))),
        Command::Close => assert(is_passing(m, cmd_window::close(m))),
        Command::Fullscreen => assert(is_passing(
            m,
            cmd_window::window_mode(m, rest, WinMode::Fullscreen),
        )),
        Command::Pseudotile => assert(is_passing(
            m,
            cmd_window::window_mode(m, rest, WinMode::Pseudotile),
        )),
        Command::Floating => assert(is_passing(m, cmd_window::floating(m, rest))),
        Command::FloatingGeometry => assert(is_passing(m, cmd_window::floating_geometry(m, rest))),
        Command::Mouseunbind => assert(is_passing(m, cmd_bind::mouseunbind(m))),
        Command::Rule => assert(is_passing(m, cmd_rule::rule(m, rest))),
        Command::Unrule => assert(is_passing(m, cmd_rule::unrule(m))),
        Command::SetTagMonitor => assert(is_passing(m, cmd_rule::set_tag_monitor(m, rest))),
        _ => {},
    }
}

/// A command that is refused changes nothing.
pub proof fn refused_commands_change_nothing(m: Model, args: Seq<Seq<char>>)
    ensures
        refuses(dispatch::dispatched(m, args).1) ==> dispatch::dispatched(m, args).0 == m,
{
    lemma_dispatched(m, args);
}

/// What holds of a command holds of a request.
proof fn lemma_dispatched(m: Model, args: Seq<Seq<char>>)
    ensures
        ({
            let (m2, s) = dispatch::dispatched(m, args);
            &&& s matches StepView::Reply(text) ==> is_lawful(m, m2, text)
            &&& s is Call ==> m2 == m
            &&& is_same_or_managed(m, m2)
        }),
{
    if args.len() > 0 {
        match dispatch::command(args[0]) {
            Some(what) => lemma_performed(m, what, args.skip(1)),
            None => {},
        }
    }
}

/// A request whose first argument names no command is refused.
pub proof fn unknown_commands_are_refused(m: Model, args: Seq<Seq<char>>)
    requires
        args.len() == 0 || dispatch::command(args[0]) is None,
    ensures
        refuses(dispatch::dispatched(m, args).1),
        dispatch::dispatched(m, args).0 == m,
{
    reply::refusals_are_marked("empty command"@);
    if args.len() > 0 {
        reply::refusals_are_marked("unknown command: "@ + args[0]);
    }
}

/// An answer that leads to a refusal changes nothing.
pub proof fn refused_answers_change_nothing(m: Model, call: CallView, answer: AnswerView)
    ensures
        refuses(step::resumed(m, call, answer).1) ==> step::resumed(m, call, answer).0 == m,
{
    reply::refusals_are_marked(Seq::empty());
    reveal_strlit("error: ");
    reveal_strlit("monitor ");
    match step::resumed(m, call, answer).1 {
        StepView::Reply(text) => {
            if reply::is_refusal(text) {
                assert(text[0] == "error: "@[0]);
            }
        },
        StepView::Call(_) => {},
    }
}

/// A command other than a listing replies `ok`, or with an error, unless it
/// makes a call first.
pub proof fn replies_are_plain(m: Model, what: Command, rest: Seq<Seq<char>>)
    requires
        !is_listing(what),
    ensures
        dispatch::performed(m, what, rest).1 matches StepView::Reply(text) ==> is_plain(text),
{
    lemma_performed(m, what, rest);
}

/// Whether a reply is as replies should be: it ends with a newline, and it
/// starts with `error: ` if and only if it is an error.
pub open spec fn is_proper(reply: Seq<char>) -> bool {
    reply::ends_line(reply) && (reply::is_refusal(reply) <==> reply::is_error(reply))
}

/// Plain replies are proper.
proof fn lemma_plain_is_proper(reply: Seq<char>)
    requires
        is_plain(reply),
    ensures
        is_proper(reply),
{
    reply::refusals_are_marked(Seq::empty());
    if reply::is_error(reply) {
        let msg = choose|msg: Seq<char>| reply == #[trigger] reply::err_text(msg);
        reply::refusals_are_marked(msg);
    }
    reply::refusals_are_errors(reply);
}

/// Every reply to a request ends with a newline, and starts with `error: ` if
/// and only if it is an error. If it is one, the state is unchanged, so that
/// no manage pass was asked for.
pub proof fn replies_are_proper(m: Model, args: Seq<Seq<char>>)
    ensures
        dispatch::dispatched(m, args).1 matches StepView::Reply(text) ==> is_proper(text) && (
        reply::is_error(text) ==> dispatch::dispatched(m, args).0 == m),
{
    lemma_dispatched(m, args);
    let (m2, s) = dispatch::dispatched(m, args);
    match s {
        StepView::Reply(text) => {
            if args.len() == 0 {
                assert(text == reply::err_text("empty command"@));
                lemma_plain_is_proper(text);
            } else {
                match dispatch::command(args[0]) {
                    None => {
                        assert(text == reply::err_text("unknown command: "@ + args[0]));
                        lemma_plain_is_proper(text);
                    },
                    Some(what) => {
                        if is_listing(what) {
                            listing::listings_are_lines(m);
                            reply::refusals_are_errors(text);
                        } else {
                            lemma_performed(m, what, args.skip(1));
                            lemma_plain_is_proper(text);
                        }
                    },
                }
            }
        },
        StepView::Call(_) => {},
    }
}

/// Every reply after an answer ends with a newline, and starts with `error: `
/// if and only if it is an error. If it is one, the state is unchanged.
pub proof fn answered_replies_are_proper(m: Model, call: CallView, answer: AnswerView)
    ensures
        step::resumed(m, call, answer).1 matches StepView::Reply(text) ==> is_proper(text) && (
        reply::is_error(text) ==> step::resumed(m, call, answer).0 == m),
{
    refused_answers_change_nothing(m, call, answer);
    reveal_strlit("\n");
    match step::resumed(m, call, answer).1 {
        StepView::Reply(text) => {
            if is_plain(text) {
                lemma_plain_is_proper(text);
            } else {
                assert(call is AddMonitor);
                assert(text.last() == '\n');
                reply::refusals_are_errors(text);
            }
        },
        StepView::Call(_) => {},
    }
}

/// Listings change nothing.
pub proof fn listings_change_nothing(m: Model, what: Command, rest: Seq<Seq<char>>)
    requires
        is_listing(what),
    ensures
        dispatch::performed(m, what, rest).0 == m,
        dispatch::performed(m, what, rest).1 is Reply,
{
}

/// The window manager's queue only grows: what was queued stays, in its
/// place.
pub proof fn the_queue_only_grows(m: Model, args: Seq<Seq<char>>)
    ensures
        m.ops.is_prefix_of(dispatch::dispatched(m, args).0.ops),
{
    lemma_dispatched(m, args);
    let m2 = dispatch::dispatched(m, args).0;
    assert(m2.ops.take(m.ops.len() as int) =~= m.ops);
}

/// The queue only grows on an answer, too.
pub proof fn the_queue_only_grows_on_answers(m: Model, call: CallView, answer: AnswerView)
    ensures
        m.ops.is_prefix_of(step::resumed(m, call, answer).0.ops),
{
    let m2 = step::resumed(m, call, answer).0;
    assert(m2.ops.take(m.ops.len() as int) =~= m.ops);
}

/// After any change the manager is asked for a manage pass, and nothing is
/// queued after it.
pub proof fn changes_ask_for_a_pass(m: Model, args: Seq<Seq<char>>)
    requires
        dispatch::dispatched(m, args).0 != m,
    ensures
        dispatch::dispatched(m, args).0.ops.len() > m.ops.len(),
        dispatch::dispatched(m, args).0.ops.last() == OpView::Manage,
{
    lemma_dispatched(m, args);
}

/// A change on an answer asks for a manage pass, and is nothing else.
pub proof fn answered_changes_ask_for_a_pass(m: Model, call: CallView, answer: AnswerView)
    requires
        step::resumed(m, call, answer).0 != m,
    ensures
        step::resumed(m, call, answer).0 == state::queued(m, OpView::Manage),
{
}

/// Whether an answer says that the manager changed its monitors or bindings.
pub open spec fn is_deed(call: CallView, answer: AnswerView) -> bool {
    match call {
        CallView::Spawn { .. } => false,
        CallView::Reload => false,
        _ => match answer {
            AnswerView::Added(_) => true,
            AnswerView::Found(found) => found,
            AnswerView::Done(result) => result is Ok,
            AnswerView::Keysym(_) => false,
        },
    }
}

/// When the manager changed its monitors or bindings for a command, a manage
/// pass is asked for, and the command is not refused.
pub proof fn deeds_ask_for_a_pass(m: Model, call: CallView, answer: AnswerView)
    requires
        step::answers(call, answer),
        is_deed(call, answer),
    ensures
        step::resumed(m, call, answer).0 == state::queued(m, OpView::Manage),
        !refuses(step::resumed(m, call, answer).1),
{
    reply::refusals_are_marked(Seq::empty());
    reveal_strlit("error: ");
    reveal_strlit("monitor ");
    match step::resumed(m, call, answer).1 {
        StepView::Reply(text) => {
            if reply::is_refusal(text) {
                assert(text[0] == "error: "@[0]);
            }
        },
        StepView::Call(_) => {},
    }
}

/// Whether gap and border have a width that can be drawn.
pub open spec fn has_widths(m: Model) -> bool {
    m.window_gap >= 0 && m.border_width >= 0
}

/// No command makes the gap or the border negative.
pub proof fn widths_stay_drawable(m: Model, args: Seq<Seq<char>>)
    requires
        has_widths(m),
    ensures
        has_widths(dispatch::dispatched(m, args).0),
{
    lemma_dispatched(m, args);
}

/// A width that is set is taken as it is when it is not negative, and as 0
/// otherwise. It is never refused, and the other width stays.
pub proof fn widths_are_clamped(m: Model, v: Seq<char>, n: i32)
    requires
        args::int_of(v) == Some(n),
    ensures
        ({
            let width = if n >= 0 {
                n
            } else {
                0
            };
            &&& cmd_set::set(m, seq!["window_gap"@, v]) == (
                state::queued(Model { window_gap: width, ..m }, OpView::Manage),
                reply::ok_text(),
            )
            &&& cmd_set::set(m, seq!["border_width"@, v]) == (
                state::queued(Model { border_width: width, ..m }, OpView::Manage),
                reply::ok_text(),
            )
        }),
{
    reveal_strlit("window_gap");
    reveal_strlit("border_width");
    assert("window_gap"@ != "border_width"@) by {
        assert("window_gap"@[0] != "border_width"@[0]);
    }
}

/// Settings with an unknown name are accepted, and nothing is done.
pub proof fn unknown_settings_are_ignored(m: Model, rest: Seq<Seq<char>>)
    requires
        rest.len() >= 2,
        cmd_set::setting(rest[0]) is None,
    ensures
        cmd_set::set(m, rest) == (m, reply::ok_text()),
{
}

/// Stepping by a relative index without skipping goes round the circle of
/// tags: by as many places as the index says, and by one for 0.
pub proof fn plain_steps_go_round(others: Seq<Monitor>, cur: int, delta: int)
    requires
        0 <= cur < cmd_tag::TAGS,
    ensures
        cmd_tag::stepped(others, false, cur, delta) == (cur + if delta == 0 {
            1
        } else {
            delta
        }) % (cmd_tag::TAGS as int),
{
    let n = cmd_tag::TAGS as int;
    let forward = delta >= 0;
    lemma_all_stops(others, cur, forward, n);
    let count = if delta > 0 {
        delta
    } else if delta < 0 {
        -delta
    } else {
        1
    };
    let i = (count - 1) % n;
    let round = cmd_tag::stops(others, false, cur, forward, n);
    assert(round[i] == cmd_tag::place(cur, forward, i + 1));
    lemma_round_trip_of_nine(cur, count);
}

/// Whole rounds do not count.
proof fn lemma_round_trip_of_nine(cur: int, count: int)
    ensures
        (cur + (count - 1) % 9 + 1) % 9 == (cur + count) % 9,
        (cur - (count - 1) % 9 - 1) % 9 == (cur - count) % 9,
{
    let q = (count - 1) / 9;
    assert((count - 1) % 9 == count - 1 - 9 * q);
    cmd_tag::lemma_rounds(cur + count, -q);
    cmd_tag::lemma_rounds(cur - count, q);
}

/// Without skipping, every position is a stop.
proof fn lemma_all_stops(others: Seq<Monitor>, cur: int, forward: bool, n: int)
    requires
        n >= 0,
    ensures
        cmd_tag::stops(others, false, cur, forward, n).len() == n,
        forall|i: int|
            0 <= i < n ==> #[trigger] cmd_tag::stops(others, false, cur, forward, n)[i]
                == cmd_tag::place(cur, forward, i + 1),
    decreases n,
{
    if n > 0 {
        lemma_all_stops(others, cur, forward, n - 1);
        let before = cmd_tag::stops(others, false, cur, forward, n - 1);
        let all = cmd_tag::stops(others, false, cur, forward, n);
        assert forall|i: int| 0 <= i < n implies #[trigger] all[i] == cmd_tag::place(
            cur,
            forward,
            i + 1,
        ) by {
            if i < n - 1 {
                assert(all[i] == before[i]);
            }
        }
    }
}

/// Stepping without skipping by a number of places, and by as many back,
/// leads to where it began.
pub proof fn plain_steps_can_be_undone(
    others: Seq<Monitor>,
    later: Seq<Monitor>,
    cur: int,
    delta: int,
)
    requires
        0 <= cur < cmd_tag::TAGS,
        delta != 0,
    ensures
        cmd_tag::stepped(later, false, cmd_tag::stepped(others, false, cur, delta), -delta) == cur,
{
    plain_steps_go_round(others, cur, delta);
    plain_steps_go_round(later, cmd_tag::stepped(others, false, cur, delta), -delta);
    let q = (cur + delta) / 9;
    assert((cur + delta) % 9 == cur + delta - 9 * q);
    cmd_tag::lemma_rounds(cur, -q);
}

/// Stepping over visible tags ends at a tag that no other monitor displays.
/// When the others display all tags, nothing moves.
pub proof fn skipping_steps_end_at_hidden_tags(others: Seq<Monitor>, cur: int, delta: int)
    requires
        0 <= cur < cmd_tag::TAGS,
    ensures
        ({
            let to = cmd_tag::stepped(others, true, cur, delta);
            &&& 0 <= to < cmd_tag::TAGS
            &&& !state::shows(others, (to + 1) as u32) || (to == cur && forall|tag: u32|
                1 <= tag <= cmd_tag::TAGS ==> #[trigger] state::shows(others, tag))
        }),
{
    let n = cmd_tag::TAGS as int;
    let forward = delta >= 0;
    let round = cmd_tag::stops(others, true, cur, forward, n);
    cmd_tag::lemma_stops_rest(others, true, cur, forward, n);
    if round.len() > 0 {
        let count = if delta > 0 {
            delta
        } else if delta < 0 {
            -delta
        } else {
            1
        };
        assert(0 <= (count - 1) % (round.len() as int) < round.len());
    } else {
        assert forall|tag: u32| 1 <= tag <= n implies #[trigger] state::shows(others, tag) by {
            let i = lemma_every_place_is_met(cur, forward, tag - 1);
            if !state::shows(others, tag) {
                lemma_stop_is_met(others, cur, forward, i, n);
            }
        }
    }
}

/// Every position is met within one round.
proof fn lemma_every_place_is_met(cur: int, forward: bool, position: int) -> (i: int)
    requires
        0 <= cur < 9,
        0 <= position < 9,
    ensures
        1 <= i <= 9,
        cmd_tag::place(cur, forward, i) == position,
{
    let ahead = if forward {
        position - cur
    } else {
        cur - position
    };
    cmd_tag::lemma_rounds(position, 1);
    cmd_tag::lemma_rounds(position, -1);
    if ahead > 0 {
        ahead
    } else {
        ahead + 9
    }
}

/// A position at which stepping may rest is a stop.
proof fn lemma_stop_is_met(others: Seq<Monitor>, cur: int, forward: bool, i: int, n: int)
    requires
        1 <= i <= n,
        cmd_tag::may_rest(others, true, cmd_tag::place(cur, forward, i)),
    ensures
        cmd_tag::stops(others, true, cur, forward, n).len() > 0,
    decreases n,
{
    if i < n {
        lemma_stop_is_met(others, cur, forward, i, n - 1);
    }
}

/// An index always leads to one of the tags 1 to 9.
pub proof fn indices_lead_to_tags(list: Seq<Monitor>, focus: usize, rest: Seq<Seq<char>>)
    requires
        rest.len() > 0,
        cmd_tag::index_target(list, focus, rest) is Ok,
    ensures
        1 <= cmd_tag::index_target(list, focus, rest)->Ok_0 <= cmd_tag::TAGS,
{
    if cmd_tag::is_relative(rest[0]) {
        let others = state::others(list, focus);
        let cur = cmd_tag::current_position(list, focus);
        let delta = args::int_of(rest[0])->0 as int;
        if rest.contains("--skip-visible"@) {
            skipping_steps_end_at_hidden_tags(others, cur, delta);
        } else {
            plain_steps_go_round(others, cur, delta);
        }
    }
}

/// `cycle_all` by a number of windows, and by as many back, leads to the
/// window where it began, once the manager has moved the tree's focus.
pub proof fn cycling_can_be_undone(m: Model, later: Model, delta: i32)
    requires
        m.tags.contains_key(m.focus.tag),
        cmd_tree::tree_windows(m).no_duplicates(),
        m.tags[m.focus.tag].focused matches Some(win) && cmd_tree::tree_windows(m).contains(win),
        delta != i32::MIN,
        later.tags.contains_key(later.focus.tag),
        cmd_tree::tree_windows(later) == cmd_tree::tree_windows(m),
        later.tags[later.focus.tag].focused == Some(cmd_tree::cycled(m, delta)),
    ensures
        Some(cmd_tree::cycled(later, (-delta) as i32)) == m.tags[m.focus.tag].focused,
{
    let all = cmd_tree::tree_windows(m);
    let n = all.len() as int;
    let win = m.tags[m.focus.tag].focused->0;
    lemma_place_of(all, win);
    let i = cmd_tree::focused_place(m);
    let j = (i + delta) % n;
    assert(0 <= i < n && all[i] == win);
    vstd::arithmetic::div_mod::lemma_mod_bound(i + delta, n);
    let next = all[j];
    lemma_place_of(all, next);
    assert(cmd_tree::focused_place(later) == j);
    vstd::arithmetic::div_mod::lemma_fundamental_div_mod(i + delta, n);
    let q = (i + delta) / n;
    assert(j - delta == i + (-q) * n) by (nonlinear_arith)
        requires
            i + delta == n * q + j,
    ;
    vstd::arithmetic::div_mod::lemma_mod_multiples_vanish(-q, i, n);
    assert(n * (-q) + i == i + (-q) * n) by (nonlinear_arith);
    vstd::arithmetic::div_mod::lemma_small_mod(i as nat, n as nat);
}

/// The place of an element that occurs once.
proof fn lemma_place_of(all: Seq<u64>, win: u64)
    requires
        all.no_duplicates(),
        all.contains(win),
    ensures
        0 <= split::cut(all, cmd_tree::is_window(win)) < all.len(),
        all[split::cut(all, cmd_tree::is_window(win))] == win,
        forall|i: int|
            0 <= i < all.len() && #[trigger] all[i] == win ==> i == split::cut(
                all,
                cmd_tree::is_window(win),
            ),
{
    let k = split::cut(all, cmd_tree::is_window(win));
    split::lemma_cut(all, cmd_tree::is_window(win));
    let i = all.index_of(win);
    if k == all.len() {
        assert(all.take(k)[i] == win);
    }
}

/// Whether the first argument switches over: it is none of `on`, `true`,
/// `off` and `false`.
pub open spec fn switches_over(rest: Seq<Seq<char>>) -> bool {
    rest.len() == 0 || (rest[0] != "on"@ && rest[0] != "true"@ && rest[0] != "off"@ && rest[0]
        != "false"@)
}

/// Switching a mode of a window over twice leaves all windows as they were.
pub proof fn toggling_twice_restores(m: Model, rest: Seq<Seq<char>>, mode: WinMode)
    requires
        switches_over(rest),
    ensures
        cmd_window::window_mode(cmd_window::window_mode(m, rest, mode).0, rest, mode).0.windows
            == m.windows,
{
    let m1 = cmd_window::window_mode(m, rest, mode).0;
    let m2 = cmd_window::window_mode(m1, rest, mode).0;
    match m.focus.window {
        Some(win) => {
            if m.windows.contains_key(win) {
                let w = m.windows[win];
                assert(m2.windows[win] == w);
            }
        },
        None => {},
    }
    assert(m2.windows =~= m.windows);
}

/// Commands on the focused window leave every other window alone.
pub proof fn other_windows_stay(m: Model, what: Command, rest: Seq<Seq<char>>, win: u64)
    requires
        m.focus.window != Some(win),
    ensures
        ({
            let m2 = dispatch::performed(m, what, rest).0;
            &&& m2.windows.contains_key(win) == m.windows.contains_key(win)
            &&& m.windows.contains_key(win) ==> m2.windows[win] == m.windows[win]
        }),
{
    lemma_performed(m, what, rest);
}

/// No command makes a window known or unknown.
pub proof fn windows_stay_known(m: Model, args: Seq<Seq<char>>)
    ensures
        dispatch::dispatched(m, args).0.windows.dom() == m.windows.dom(),
{
    lemma_dispatched(m, args);
    let m2 = dispatch::dispatched(m, args).0;
    assert(m2.windows.dom() =~= m.windows.dom());
}

/// A moved window has its new tag, and is otherwise as it was.
pub proof fn moving_sets_the_tag(m: Model, rest: Seq<Seq<char>>, win: u64)
    requires
        m.focus.window == Some(win),
        m.windows.contains_key(win),
        args::tag_arg(rest) is Some,
    ensures
        cmd_tag::move_window(m, rest).1 == reply::ok_text(),
        cmd_tag::move_window(m, rest).0.windows == m.windows.insert(
            win,
            Window { tag: args::tag_arg(rest)->0, ..m.windows[win] },
        ),
{
    assert(cmd_tag::move_window(m, rest).0.windows =~= m.windows.insert(
        win,
        Window { tag: args::tag_arg(rest)->0, ..m.windows[win] },
    ));
}

/// Once it is pinned, a known window floats at its place.
pub proof fn pinned_windows_float(m: Model, win: u64, geo: Rect)
    requires
        m.windows.contains_key(win),
    ensures
        state::pinned(m, win, geo).windows[win] == (Window {
            floating: true,
            float_geo: geo,
            ..m.windows[win]
        }),
        forall|other: u64|
            other != win && m.windows.contains_key(other) ==> #[trigger] state::pinned(
                m,
                win,
                geo,
            ).windows[other] == m.windows[other],
{
}

/// A tag that was given a home monitor is used there: that monitor is
/// focused before the tag is shown.
pub proof fn tags_are_used_at_home(m: Model, tag: Seq<char>, monitor: Seq<char>)
    requires
        args::tag_of(tag) is Some,
    ensures
        ({
            let m1 = cmd_rule::set_tag_monitor(m, seq![tag, monitor]).0;
            let m2 = cmd_tag::use_tag(m1, seq![tag]).0;
            m2.ops == m.ops + seq![
                OpView::Manage,
                OpView::FocusMonitor(monitor),
                OpView::ShowOnFocused(args::tag_of(tag)->0),
                OpView::Manage,
            ]
        }),
{
    let m1 = cmd_rule::set_tag_monitor(m, seq![tag, monitor]).0;
    let m2 = cmd_tag::use_tag(m1, seq![tag]).0;
    assert(m2.ops =~= m.ops + seq![
        OpView::Manage,
        OpView::FocusMonitor(monitor),
        OpView::ShowOnFocused(args::tag_of(tag)->0),
        OpView::Manage,
    ]);
}

/// A monitor that is added with a name can be raised and locked by it: the
/// selector that is handed over is the name that the monitor was given, and
/// the tag is the one that it was added with. Adding it is answered with its
/// id. Once it is found, raising and locking it are answered with `ok`. A
/// manage pass is asked for each time, and nothing else changes.
pub proof fn named_monitors_can_be_locked(
    m: Model,
    rect: Seq<char>,
    tag: Seq<char>,
    name: Seq<char>,
    id: u32,
)
    requires
        geometry::read_rect(rect) is Some,
        args::tag_of(tag) is Some,
    ensures
        ({
            let t = args::tag_of(tag)->0;
            let adding = CallView::AddMonitor {
                rect: geometry::read_rect(rect)->0,
                tag: t,
                name: Some(name),
            };
            let raising = CallView::RaiseMonitor { sel: name };
            let locking = CallView::LockTag { tag: t, sel: name };
            let m1 = state::queued(m, OpView::Manage);
            let m2 = state::queued(m1, OpView::Manage);
            let m3 = state::queued(m2, OpView::Manage);
            let ok = StepView::Reply(reply::ok_text());
            let added = StepView::Reply("monitor "@ + number::dec(id as nat) + "\n"@);
            &&& dispatch::dispatched(m, seq!["add_monitor"@, rect, tag, name]) == (
                m,
                StepView::Call(adding),
            )
            &&& step::resumed(m, adding, AnswerView::Added(id)) == (m1, added)
            &&& dispatch::dispatched(m1, seq!["raise_monitor"@, name]) == (
                m1,
                StepView::Call(raising),
            )
            &&& step::resumed(m1, raising, AnswerView::Found(true)) == (m2, ok)
            &&& dispatch::dispatched(m2, seq!["lock_tag"@, tag, name]) == (
                m2,
                StepView::Call(locking),
            )
            &&& step::resumed(m2, locking, AnswerView::Found(true)) == (m3, ok)
        }),
{
    reveal_strlit("set_monitors");
    reveal_strlit("add_monitor");
    reveal_strlit("raise_monitor");
    reveal_strlit("lock_tag");
    assert("add_monitor"@[0] != "set_monitors"@[0]);
    assert("raise_monitor"@[0] != "set_monitors"@[0]);
    assert("raise_monitor"@[0] != "add_monitor"@[0]);
    assert("lock_tag"@[0] != "set_monitors"@[0]);
    assert("lock_tag"@[0] != "add_monitor"@[0]);
    assert("lock_tag"@[0] != "raise_monitor"@[0]);
    assert(seq!["add_monitor"@, rect, tag, name].skip(1) =~= seq![rect, tag, name]);
    assert(seq!["raise_monitor"@, name].skip(1) =~= seq![name]);
    assert(seq!["lock_tag"@, tag, name].skip(1) =~= seq![tag, name]);
    assert(cmd_monitor::add_monitor(seq![rect, tag, name]) is Call);
    assert(cmd_monitor::lock_tag(seq![tag, name]) is Call);
}

/// A key that is bound has the modifiers of its binding, the keysym that the
/// lookup has for its name, and the command that was given. A binding that
/// cannot be read, or whose key the lookup does not know, is refused. This
/// holds for every lookup of names.
pub proof fn keys_are_bound_as_read(
    m: Model,
    rest: Seq<Seq<char>>,
    lookup: spec_fn(Seq<char>) -> u32,
)
    requires
        rest.len() >= 2,
    ensures
        ({
            let last = match cmd_bind::keybind(rest) {
                StepView::Call(call) => step::resumed(
                    m,
                    call,
                    AnswerView::Keysym(lookup(call->LookUpKey_key)),
                ),
                StepView::Reply(text) => (m, StepView::Reply(text)),
            };
            last == (
                m,
                match binding::resolved(rest[0], lookup) {
                    Ok((mods, keysym)) => StepView::Call(
                        CallView::AddKeybind { mods, keysym, command: rest.skip(1) },
                    ),
                    Err(e) => StepView::Reply(reply::err_text("keybind"@ + ": "@ + e)),
                },
            )
        }),
{
}

} // verus!
