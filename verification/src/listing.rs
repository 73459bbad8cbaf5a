//! Listings: what the state holds, as text.

use crate::geometry;
use crate::number;
use crate::number::{decimal, show_int};
use crate::reply;
use crate::state::{Model, Monitor, Output, Placement, State, Window};
use std::collections::HashMap;
use vstd::prelude::*;
use vstd::string::*;

verus! {

broadcast use vstd::std_specs::hash::group_hash_axioms;

/// An optional text, or `-`.
pub open spec fn or_dash(s: Option<String>) -> Seq<char> {
    match s {
        Some(s) => s@,
        None => "-"@,
    }
}

/// An optional number, or a text in its place.
pub open spec fn number_or(n: Option<u32>, other: Seq<char>) -> Seq<char> {
    match n {
        Some(n) => number::dec(n as nat),
        None => other,
    }
}

/// The mark of what has the focus.
pub open spec fn focus_mark(focused: bool) -> Seq<char> {
    if focused {
        " [focused]"@
    } else {
        ""@
    }
}

/// The line of the `i`-th monitor.
pub open spec fn monitor_line(i: int, m: Monitor, focused: bool) -> Seq<char> {
    number::dec(i as nat) + ": id="@ + number::dec(m.id as nat) + " name="@ + or_dash(m.name) + " "@
        + geometry::rect_text(m.rect) + " z="@ + number::show(m.z as int) + " tag="@ + number::dec(
        m.tag as nat,
    ) + " lock="@ + number_or(m.locked_tag, "-"@) + focus_mark(focused) + "\n"@
}

/// The lines of the first `n` monitors.
pub open spec fn monitor_lines(list: Seq<Monitor>, focus: usize, n: int) -> Seq<char>
    decreases n,
{
    if n <= 0 {
        Seq::empty()
    } else {
        monitor_lines(list, focus, n - 1) + monitor_line(n - 1, list[n - 1], n - 1 == focus)
    }
}

/// The listing of the monitors.
pub open spec fn monitors_text(m: Model) -> Seq<char> {
    if m.monitors.len() == 0 {
        "(no monitors)\n"@
    } else {
        monitor_lines(m.monitors, m.monitor_focus, m.monitors.len() as int)
    }
}

/// The line of a window.
pub open spec fn client_line(win: u64, w: Window, focused: bool) -> Seq<char> {
    "win="@ + number::dec(win as nat) + " tag="@ + number::dec(w.tag as nat) + " app_id="@
        + or_dash(w.app_id) + " title="@ + or_dash(w.title) + focus_mark(focused) + "\n"@
}

/// The lines of the windows with an id below `end`, by ascending id.
pub open spec fn client_lines(windows: Map<u64, Window>, focused: Option<u64>, end: int) -> Seq<
    char,
>
    decreases end,
{
    if end <= 0 {
        Seq::empty()
    } else {
        let win = (end - 1) as u64;
        let before = client_lines(windows, focused, end - 1);
        if windows.contains_key(win) {
            before + client_line(win, windows[win], focused == Some(win))
        } else {
            before
        }
    }
}

/// The listing of the windows.
pub open spec fn clients_text(m: Model) -> Seq<char> {
    if m.windows.dom() == Set::<u64>::empty() {
        "(no clients)\n"@
    } else {
        client_lines(m.windows, m.focus.window, u64::MAX + 1)
    }
}

/// The line of an output.
pub open spec fn output_line(o: Output) -> Seq<char> {
    geometry::rect_text(o.geo) + " wl_output="@ + number_or(o.wl_output_name, "?"@) + "\n"@
}

/// The lines of the first `n` outputs.
pub open spec fn output_lines(outputs: Seq<Output>, n: int) -> Seq<char>
    decreases n,
{
    if n <= 0 {
        Seq::empty()
    } else {
        output_lines(outputs, n - 1) + output_line(outputs[n - 1])
    }
}

/// The listing of the outputs.
pub open spec fn outputs_text(m: Model) -> Seq<char> {
    if m.outputs.len() == 0 {
        "(no outputs)\n"@
    } else {
        output_lines(m.outputs, m.outputs.len() as int)
    }
}

/// The line of a placement.
pub open spec fn placement_line(p: Placement) -> Seq<char> {
    let visible = if p.visible {
        "true"@
    } else {
        "false"@
    };
    "  win="@ + number::dec(p.win as nat) + " "@ + geometry::rect_text(p.rect) + " visible="@
        + visible + "\n"@
}

/// The lines of the first `n` placements.
pub open spec fn placement_lines(placements: Seq<Placement>, n: int) -> Seq<char>
    decreases n,
{
    if n <= 0 {
        Seq::empty()
    } else {
        placement_lines(placements, n - 1) + placement_line(placements[n - 1])
    }
}

/// The description of the focused tag's tree.
pub open spec fn dump_text(m: Model) -> Seq<char> {
    let tag = number::dec(m.focus.tag as nat);
    if m.tags.contains_key(m.focus.tag) {
        let tree = m.tags[m.focus.tag];
        "tag "@ + tag + " area="@ + geometry::rect_text(m.focus.area) + " gap="@ + number::show(
            m.window_gap as int,
        ) + "\n"@ + tree.description@ + "placements:\n"@ + placement_lines(
            tree.placements@,
            tree.placements@.len() as int,
        )
    } else {
        "tag "@ + tag + ": empty\n"@
    }
}

/// Appends an optional text, or `-`.
fn append_or_dash(out: &mut String, s: &Option<String>)
    ensures
        final(out)@ == old(out)@ + or_dash(*s),
{
    match s {
        Some(s) => out.append(s.as_str()),
        None => out.append("-"),
    }
}

/// Appends a number.
fn append_number(out: &mut String, n: u64)
    ensures
        final(out)@ == old(out)@ + number::dec(n as nat),
{
    let s = decimal(n);
    out.append(s.as_str());
}

/// Appends an optional number, or a text in its place.
fn append_number_or(out: &mut String, n: Option<u32>, other: &str)
    ensures
        final(out)@ == old(out)@ + number_or(n, other@),
{
    match n {
        Some(n) => append_number(out, n as u64),
        None => out.append(other),
    }
}

/// Appends a signed number.
fn append_int(out: &mut String, i: i32)
    ensures
        final(out)@ == old(out)@ + number::show(i as int),
{
    let s = show_int(i as i64);
    out.append(s.as_str());
}

/// Appends a rectangle.
fn append_rect(out: &mut String, r: geometry::Rect)
    ensures
        final(out)@ == old(out)@ + geometry::rect_text(r),
{
    let s = r.show();
    out.append(s.as_str());
}

/// Appends the mark of what has the focus.
fn append_mark(out: &mut String, focused: bool)
    ensures
        final(out)@ == old(out)@ + focus_mark(focused),
{
    if focused {
        out.append(" [focused]");
    } else {
        out.append("");
    }
}

/// Lists the monitors in order, and marks the focused one.
pub fn list_monitors(state: &State) -> (out: String)
    ensures
        out@ == monitors_text(state@),
{
    let mut out = String::new();
    let n = state.monitors.list.len();
    if n == 0 {
        out.append("(no monitors)\n");
        assert(out@ =~= monitors_text(state@));
        return out;
    }
    let mut i: usize = 0;
    while i < n
        invariant
            i <= n,
            n == state.monitors.list@.len(),
            out@ == monitor_lines(state.monitors.list@, state.monitors.focus, i as int),
        decreases n - i,
    {
        let m = &state.monitors.list[i];
        let mut line = decimal(i as u64);
        line.append(": id=");
        append_number(&mut line, m.id as u64);
        line.append(" name=");
        append_or_dash(&mut line, &m.name);
        line.append(" ");
        append_rect(&mut line, m.rect);
        line.append(" z=");
        append_int(&mut line, m.z);
        line.append(" tag=");
        append_number(&mut line, m.tag as u64);
        line.append(" lock=");
        append_number_or(&mut line, m.locked_tag, "-");
        append_mark(&mut line, i == state.monitors.focus);
        line.append("\n");
        assert(line@ == monitor_line(i as int, *m, i == state.monitors.focus));
        out.append(line.as_str());
        i += 1;
    }
    out
}

/// Whether ids ascend.
spec fn ascending(ids: Seq<u64>) -> bool {
    forall|i: int, j: int| 0 <= i < j < ids.len() ==> ids[i] < ids[j]
}

/// Puts a new id in its place among ascending ones.
fn insert_id(ids: &mut Vec<u64>, win: u64)
    requires
        ascending(old(ids)@),
        !old(ids)@.contains(win),
    ensures
        ascending(final(ids)@),
        forall|w: u64| #[trigger] final(ids)@.contains(w) <==> old(ids)@.contains(w) || w == win,
{
    let ghost before = ids@;
    let mut at: usize = 0;
    while at < ids.len() && ids[at] < win
        invariant
            ids@ == before,
            at <= before.len(),
            forall|i: int| 0 <= i < at ==> before[i] < win,
        decreases before.len() - at,
    {
        at += 1;
    }
    ids.insert(at, win);
    proof {
        let after = ids@;
        assert(after == before.insert(at as int, win));
        assert(at < before.len() ==> before.contains(before[at as int]));
        assert forall|i: int| at <= i < before.len() implies win < before[i] by {
            assert(before.contains(before[at as int]));
        }
        assert forall|i: int, j: int| 0 <= i < j < after.len() implies after[i] < after[j] by {
            let a = if i < at {
                i
            } else {
                i - 1
            };
            let b = if j < at {
                j
            } else {
                j - 1
            };
            if i != at {
                assert(after[i] == before[a]);
            }
            if j != at {
                assert(after[j] == before[b]);
            }
        }
        assert forall|w: u64| #[trigger] after.contains(w) <==> before.contains(w) || w == win by {
            if before.contains(w) {
                let k = before.index_of(w);
                if k < at {
                    assert(after[k] == w);
                } else {
                    assert(after[k + 1] == w);
                }
            }
            if w == win {
                assert(after[at as int] == w);
            }
            if after.contains(w) && w != win {
                let k = after.index_of(w);
                if k < at {
                    assert(before[k] == w);
                } else {
                    assert(before[k - 1] == w);
                }
            }
        }
    }
}

/// The ids of the windows, in ascending order.
fn sorted_ids(windows: &HashMap<u64, Window>) -> (ids: Vec<u64>)
    ensures
        ascending(ids@),
        forall|win: u64| #[trigger] windows@.contains_key(win) <==> ids@.contains(win),
{
    let mut ids: Vec<u64> = Vec::new();
    let ghost mut all: Seq<&u64> = Seq::empty();
    for win in it: windows.keys()
        invariant
            all == it.seq().take(it.index()),
            it.index() == it.seq().len() ==> all =~= it.seq(),
            it.seq().unref().to_set() == windows@.dom(),
            it.seq().no_duplicates(),
            ascending(ids@),
            forall|w: u64| #[trigger] ids@.contains(w) <==> all.contains(&w),
    {
        proof {
            assert(win == it.seq()[it.index()]);
            if all.contains(win) {
                let k = all.index_of(win);
                assert(it.seq()[k] == it.seq()[it.index()]);
            }
            let next = all.push(win);
            assert(it.seq().take(it.index() + 1) =~= next);
            assert forall|w: u64| #[trigger]
                next.contains(&w) <==> all.contains(&w) || w == *win by {
                if all.contains(&w) {
                    assert(next[all.index_of(&w)] == &w);
                }
                if w == *win {
                    assert(next[all.len() as int] == &w);
                }
            }
            all = next;
        }
        insert_id(&mut ids, *win);
    }
    proof {
        assert forall|w: u64| #[trigger] windows@.contains_key(w) <==> ids@.contains(w) by {
            let seq = all.unref();
            assert(windows@.contains_key(w) <==> seq.to_set().contains(w));
            if seq.contains(w) {
                let k = seq.index_of(w);
                assert(all[k] == &w);
            }
            if all.contains(&w) {
                let k = all.index_of(&w);
                assert(seq[k] == w);
            }
        }
    }
    ids
}

/// No line lies between two neighbouring ids.
proof fn lemma_no_lines_between(
    windows: Map<u64, Window>,
    focused: Option<u64>,
    from: int,
    to: int,
)
    requires
        0 <= from <= to <= u64::MAX + 1,
        forall|win: u64| from <= win < to ==> !windows.contains_key(win),
    ensures
        client_lines(windows, focused, to) == client_lines(windows, focused, from),
    decreases to,
{
    if from < to {
        lemma_no_lines_between(windows, focused, from, to - 1);
    }
}

/// Lists the windows by ascending id, and marks the focused one.
pub fn list_clients(state: &State) -> (out: String)
    ensures
        out@ == clients_text(state@),
{
    let ghost windows = state.windows@;
    let ghost focused = state.focus.window;
    let ids = sorted_ids(&state.windows);
    let mut out = String::new();
    if ids.len() == 0 {
        out.append("(no clients)\n");
        assert(windows.dom() =~= Set::<u64>::empty());
        assert(out@ =~= "(no clients)\n"@);
        return out;
    }
    let mut i: usize = 0;
    // All ids below `end` are listed.
    let ghost mut end: int = 0;
    while i < ids.len()
        invariant
            windows == state.windows@,
            focused == state.focus.window,
            ascending(ids@),
            forall|win: u64| #[trigger] windows.contains_key(win) <==> ids@.contains(win),
            i <= ids@.len(),
            0 <= end <= u64::MAX + 1,
            forall|k: int| 0 <= k < i ==> ids@[k] < end,
            forall|k: int| i <= k < ids@.len() ==> end <= ids@[k],
            out@ == client_lines(windows, focused, end),
        decreases ids@.len() - i,
    {
        let win = ids[i];
        proof {
            assert(ids@.contains(win));
            assert forall|w: u64| end <= w < win implies !windows.contains_key(w) by {
                if ids@.contains(w) {
                    let k = ids@.index_of(w);
                    assert(ids@[k] == w);
                    if k >= i {
                        assert(ids@[i as int] <= ids@[k]);
                    }
                }
            }
            lemma_no_lines_between(windows, focused, end, win as int);
        }
        match state.windows.get(&win) {
            Some(w) => {
                let mut line = "win=".to_owned();
                append_number(&mut line, win);
                line.append(" tag=");
                append_number(&mut line, w.tag as u64);
                line.append(" app_id=");
                append_or_dash(&mut line, &w.app_id);
                line.append(" title=");
                append_or_dash(&mut line, &w.title);
                let has_focus = match state.focus.window {
                    Some(f) => f == win,
                    None => false,
                };
                append_mark(&mut line, has_focus);
                line.append("\n");
                assert(line@ == client_line(win, *w, focused == Some(win)));
                out.append(line.as_str());
            },
            None => {
                assert(false);
            },
        }
        proof {
            end = win + 1;
        }
        i += 1;
    }
    proof {
        assert forall|w: u64| end <= w < u64::MAX + 1 implies !windows.contains_key(w) by {
            if ids@.contains(w) {
                assert(ids@[ids@.index_of(w)] < end);
            }
        }
        lemma_no_lines_between(windows, focused, end, u64::MAX + 1);
        assert(ids@.contains(ids@[0]));
        assert(windows.dom().contains(ids@[0]));
    }
    out
}

/// Lists the outputs.
pub fn list_outputs(state: &State) -> (out: String)
    ensures
        out@ == outputs_text(state@),
{
    let mut out = String::new();
    let n = state.outputs.len();
    if n == 0 {
        out.append("(no outputs)\n");
        assert(out@ =~= outputs_text(state@));
        return out;
    }
    let mut i: usize = 0;
    while i < n
        invariant
            i <= n,
            n == state.outputs@.len(),
            out@ == output_lines(state.outputs@, i as int),
        decreases n - i,
    {
        let o = state.outputs[i];
        let mut line = o.geo.show();
        line.append(" wl_output=");
        append_number_or(&mut line, o.wl_output_name, "?");
        line.append("\n");
        assert(line@ == output_line(o));
        out.append(line.as_str());
        i += 1;
    }
    out
}

/// `dump`: describes the tree of the focused tag, and where it puts its
/// windows.
pub fn cmd_dump(state: &State) -> (out: String)
    ensures
        out@ == dump_text(state@),
{
    let mut out = "tag ".to_owned();
    append_number(&mut out, state.focus.tag as u64);
    match state.tags.get(&state.focus.tag) {
        None => {
            out.append(": empty\n");
            out
        },
        Some(tree) => {
            out.append(" area=");
            append_rect(&mut out, state.focus.area);
            out.append(" gap=");
            append_int(&mut out, state.window_gap);
            out.append("\n");
            out.append(tree.description.as_str());
            out.append("placements:\n");
            let ghost head = out@;
            let n = tree.placements.len();
            let mut i: usize = 0;
            assert(out@ =~= head + placement_lines(tree.placements@, 0));
            while i < n
                invariant
                    i <= n,
                    n == tree.placements@.len(),
                    out@ == head + placement_lines(tree.placements@, i as int),
                decreases n - i,
            {
                let ghost before = out@;
                let p = tree.placements[i];
                let mut line = "  win=".to_owned();
                append_number(&mut line, p.win);
                line.append(" ");
                append_rect(&mut line, p.rect);
                line.append(" visible=");
                if p.visible {
                    line.append("true");
                } else {
                    line.append("false");
                }
                line.append("\n");
                assert(line@ == placement_line(p));
                out.append(line.as_str());
                assert(out@ =~= head + placement_lines(tree.placements@, i + 1));
                i += 1;
            }
            out
        },
    }
}

/// The lines of fewer windows are the first lines of more.
proof fn lemma_lines_prefix(windows: Map<u64, Window>, focused: Option<u64>, a: int, b: int)
    requires
        a <= b,
    ensures
        client_lines(windows, focused, a).is_prefix_of(client_lines(windows, focused, b)),
    decreases b,
{
    let short = client_lines(windows, focused, a);
    let long = client_lines(windows, focused, b);
    if a < b && b > 0 {
        lemma_lines_prefix(windows, focused, a, b - 1);
        assert(long.take(short.len() as int) =~= client_lines(windows, focused, b - 1).take(
            short.len() as int,
        ));
    }
    assert(short =~= long.take(short.len() as int));
}

/// Every window is listed: its line stands right after the lines of all
/// windows with a smaller id.
pub proof fn clients_are_listed_in_order(m: Model, win: u64)
    requires
        m.windows.contains_key(win),
    ensures
        (client_lines(m.windows, m.focus.window, win as int) + client_line(
            win,
            m.windows[win],
            m.focus.window == Some(win),
        )).is_prefix_of(clients_text(m)),
{
    lemma_lines_prefix(m.windows, m.focus.window, win + 1, u64::MAX + 1);
    assert(m.windows.dom().contains(win));
}

/// Printed rectangles begin with a digit or with `-`.
proof fn lemma_rect_begins(r: geometry::Rect)
    ensures
        geometry::rect_text(r).len() > 0,
        geometry::rect_text(r)[0] == '-' || number::is_digit(geometry::rect_text(r)[0]),
{
    if r.w >= 0 {
        number::dec_is_decimal(r.w as nat);
        assert(number::is_digit(number::dec(r.w as nat)[0]));
    }
}

/// How the lines of monitors begin and end.
proof fn lemma_monitor_lines(list: Seq<Monitor>, focus: usize, n: int)
    requires
        n > 0,
    ensures
        reply::ends_line(monitor_lines(list, focus, n)),
        number::is_digit(monitor_lines(list, focus, n)[0]),
    decreases n,
{
    reveal_strlit("\n");
    number::dec_is_decimal((n - 1) as nat);
    assert(number::is_digit(number::dec((n - 1) as nat)[0]));
    if n > 1 {
        lemma_monitor_lines(list, focus, n - 1);
    } else {
        assert(monitor_lines(list, focus, 0).len() == 0);
    }
}

/// How the lines of windows begin and end, if there are any.
proof fn lemma_client_lines(windows: Map<u64, Window>, focused: Option<u64>, end: int)
    ensures
        client_lines(windows, focused, end).len() > 0 ==> reply::ends_line(
            client_lines(windows, focused, end),
        ) && client_lines(windows, focused, end)[0] == 'w',
    decreases end,
{
    reveal_strlit("\n");
    reveal_strlit("win=");
    if end > 0 {
        lemma_client_lines(windows, focused, end - 1);
    }
}

/// How the lines of outputs begin and end.
proof fn lemma_output_lines(outputs: Seq<Output>, n: int)
    requires
        n > 0,
    ensures
        reply::ends_line(output_lines(outputs, n)),
        output_lines(outputs, n)[0] == '-' || number::is_digit(output_lines(outputs, n)[0]),
    decreases n,
{
    reveal_strlit("\n");
    lemma_rect_begins(outputs[n - 1].geo);
    if n > 1 {
        lemma_output_lines(outputs, n - 1);
    } else {
        assert(output_lines(outputs, 0).len() == 0);
    }
}

/// How the lines of placements end, if there are any.
proof fn lemma_placement_lines(placements: Seq<Placement>, n: int)
    ensures
        placement_lines(placements, n).len() > 0 ==> reply::ends_line(
            placement_lines(placements, n),
        ),
    decreases n,
{
    reveal_strlit("\n");
    if n > 0 {
        lemma_placement_lines(placements, n - 1);
    }
}

/// Every listing ends with a newline, and none looks like an error.
pub proof fn listings_are_lines(m: Model)
    ensures
        reply::ends_line(monitors_text(m)) && !reply::is_refusal(monitors_text(m)),
        reply::ends_line(clients_text(m)) && !reply::is_refusal(clients_text(m)),
        reply::ends_line(outputs_text(m)) && !reply::is_refusal(outputs_text(m)),
        reply::ends_line(dump_text(m)) && !reply::is_refusal(dump_text(m)),
{
    reveal_strlit("error: ");
    reveal_strlit("(no monitors)\n");
    reveal_strlit("(no clients)\n");
    reveal_strlit("(no outputs)\n");
    reveal_strlit("tag ");
    reveal_strlit(": empty\n");
    reveal_strlit("placements:\n");
    assert forall|text: Seq<char>| #[trigger] reply::is_refusal(text) implies text.len() > 0
        && text[0] == 'e' by {
        assert(text[0] == "error: "@[0]);
    }
    if m.monitors.len() > 0 {
        lemma_monitor_lines(m.monitors, m.monitor_focus, m.monitors.len() as int);
    }
    if m.windows.dom() != Set::<u64>::empty() {
        assert(exists|win: u64| m.windows.dom().contains(win)) by {
            if forall|win: u64| !m.windows.dom().contains(win) {
                assert(m.windows.dom() =~= Set::<u64>::empty());
            }
        }
        let win = choose|win: u64| m.windows.dom().contains(win);
        clients_are_listed_in_order(m, win);
        assert(clients_text(m).len() > 0);
        lemma_client_lines(m.windows, m.focus.window, u64::MAX + 1);
    }
    if m.outputs.len() > 0 {
        lemma_output_lines(m.outputs, m.outputs.len() as int);
    }
    if m.tags.contains_key(m.focus.tag) {
        let tree = m.tags[m.focus.tag];
        lemma_placement_lines(tree.placements@, tree.placements@.len() as int);
    }
}

/// A text, or `-` when there is none.
pub proof fn missing_texts_are_dashes(s: String, n: u32, other: Seq<char>)
    ensures
        or_dash(Some(s)) == s@,
        or_dash(None) == seq!['-'],
        number_or(Some(n), other) == number::dec(n as nat),
        number_or(None, other) == other,
{
    reveal_strlit("-");
    assert("-"@ =~= seq!['-']);
}

/// The listing of monitors has one line for each, in their order: it grows by
/// the line of one more.
pub proof fn monitors_are_listed_in_order(m: Model, next: Model, last: Monitor)
    requires
        next.monitors == m.monitors.push(last),
        next.monitor_focus == m.monitor_focus,
    ensures
        ({
            let line = number::dec(m.monitors.len()) + ": id="@ + number::dec(last.id as nat)
                + " name="@ + or_dash(last.name) + " "@ + geometry::rect_text(last.rect) + " z="@
                + number::show(last.z as int) + " tag="@ + number::dec(last.tag as nat) + " lock="@
                + number_or(last.locked_tag, "-"@) + (if m.monitor_focus == m.monitors.len() {
                " [focused]"@
            } else {
                ""@
            }) + "\n"@;
            &&& m.monitors.len() == 0 ==> monitors_text(m) == "(no monitors)\n"@
            &&& m.monitors.len() == 0 ==> monitors_text(next) == line
            &&& m.monitors.len() > 0 ==> monitors_text(next) == monitors_text(m) + line
        }),
{
    let n = m.monitors.len() as int;
    lemma_same_monitors(m.monitors, next.monitors, m.monitor_focus, n);
    assert(next.monitors[n] == last);
    if n == 0 {
        assert(monitor_lines(next.monitors, m.monitor_focus, 0) =~= Seq::<char>::empty());
        assert(monitors_text(next) =~= monitor_line(0, last, m.monitor_focus == 0));
    }
}

/// The first lines depend on the first monitors alone.
proof fn lemma_same_monitors(a: Seq<Monitor>, b: Seq<Monitor>, focus: usize, n: int)
    requires
        n <= a.len() <= b.len(),
        forall|i: int| 0 <= i < a.len() ==> a[i] == b[i],
    ensures
        monitor_lines(a, focus, n) == monitor_lines(b, focus, n),
    decreases n,
{
    if n > 0 {
        lemma_same_monitors(a, b, focus, n - 1);
    }
}

/// The listing of windows has one line for each, by ascending id: it grows by
/// the line of one more with a larger id.
pub proof fn clients_grow_by_lines(m: Model, next: Model, win: u64, w: Window)
    requires
        next.windows == m.windows.insert(win, w),
        next.focus.window == m.focus.window,
        forall|other: u64| #[trigger] m.windows.contains_key(other) ==> other < win,
    ensures
        ({
            let line = "win="@ + number::dec(win as nat) + " tag="@ + number::dec(w.tag as nat)
                + " app_id="@ + or_dash(w.app_id) + " title="@ + or_dash(w.title) + (
            if m.focus.window == Some(win) {
                " [focused]"@
            } else {
                ""@
            }) + "\n"@;
            let is_empty = forall|other: u64| !#[trigger] m.windows.contains_key(other);
            &&& is_empty ==> clients_text(m) == "(no clients)\n"@
            &&& is_empty ==> clients_text(next) == line
            &&& !is_empty ==> clients_text(next) == clients_text(m) + line
        }),
{
    let focused = m.focus.window;
    let all = u64::MAX + 1;
    let is_empty = forall|other: u64| !#[trigger] m.windows.contains_key(other);
    assert(next.windows.contains_key(win));
    assert(next.windows.dom().contains(win));
    lemma_no_lines_between(next.windows, focused, win + 1, all);
    lemma_no_lines_between(m.windows, focused, win as int, all);
    lemma_same_clients(m.windows, next.windows, focused, win as int);
    if is_empty {
        assert(m.windows.dom() =~= Set::<u64>::empty());
        lemma_no_lines_between(m.windows, focused, 0, win as int);
        assert(client_lines(m.windows, focused, 0) =~= Seq::<char>::empty());
        assert(clients_text(next) =~= client_line(win, w, focused == Some(win)));
    } else {
        let other = choose|other: u64| m.windows.contains_key(other);
        assert(m.windows.dom().contains(other));
        assert(clients_text(m) == client_lines(m.windows, focused, win as int));
    }
}

/// The first lines depend on the windows with small ids alone.
proof fn lemma_same_clients(
    a: Map<u64, Window>,
    b: Map<u64, Window>,
    focused: Option<u64>,
    end: int,
)
    requires
        end <= u64::MAX + 1,
        forall|win: u64|
            win < end ==> #[trigger] a.contains_key(win) == b.contains_key(win) && a[win] == b[win],
    ensures
        client_lines(a, focused, end) == client_lines(b, focused, end),
    decreases end,
{
    if end > 0 {
        lemma_same_clients(a, b, focused, end - 1);
        let win = (end - 1) as u64;
        assert(a.contains_key(win) == b.contains_key(win));
    }
}

/// The listing of outputs has one line for each, in their order.
pub proof fn outputs_are_listed_in_order(m: Model, next: Model, last: Output)
    requires
        next.outputs == m.outputs.push(last),
    ensures
        ({
            let line = geometry::rect_text(last.geo) + " wl_output="@ + number_or(
                last.wl_output_name,
                "?"@,
            ) + "\n"@;
            &&& m.outputs.len() == 0 ==> outputs_text(m) == "(no outputs)\n"@
            &&& m.outputs.len() == 0 ==> outputs_text(next) == line
            &&& m.outputs.len() > 0 ==> outputs_text(next) == outputs_text(m) + line
        }),
{
    let n = m.outputs.len() as int;
    lemma_same_outputs(m.outputs, next.outputs, n);
    assert(next.outputs[n] == last);
    if n == 0 {
        assert(output_lines(next.outputs, 0) =~= Seq::<char>::empty());
        assert(outputs_text(next) =~= output_line(last));
    }
}

/// The first lines depend on the first outputs alone.
proof fn lemma_same_outputs(a: Seq<Output>, b: Seq<Output>, n: int)
    requires
        n <= a.len() <= b.len(),
        forall|i: int| 0 <= i < a.len() ==> a[i] == b[i],
    ensures
        output_lines(a, n) == output_lines(b, n),
    decreases n,
{
    if n > 0 {
        lemma_same_outputs(a, b, n - 1);
    }
}

/// What `dump` says of a tree without placements, and of a tag without a
/// tree.
pub proof fn dumps_describe_the_tree(m: Model)
    ensures
        ({
            let tag = number::dec(m.focus.tag as nat);
            let tree = m.tags[m.focus.tag];
            &&& !m.tags.contains_key(m.focus.tag) ==> dump_text(m) == "tag "@ + tag
                + ": empty\n"@
            &&& m.tags.contains_key(m.focus.tag) && tree.placements@.len() == 0 ==> dump_text(m)
                == "tag "@ + tag + " area="@ + geometry::rect_text(m.focus.area) + " gap="@
                + number::show(m.window_gap as int) + "\n"@ + tree.description@ + "placements:\n"@
        }),
{
    let tree = m.tags[m.focus.tag];
    if m.tags.contains_key(m.focus.tag) && tree.placements@.len() == 0 {
        let head = "tag "@ + number::dec(m.focus.tag as nat) + " area="@ + geometry::rect_text(
            m.focus.area,
        ) + " gap="@ + number::show(m.window_gap as int) + "\n"@ + tree.description@
            + "placements:\n"@;
        assert(head + placement_lines(tree.placements@, 0) =~= head);
    }
}

/// A dump has one line for each placement, in their order: it grows by the
/// line of one more.
pub proof fn placements_are_listed_in_order(m: Model, next: Model, last: Placement)
    requires
        m.tags.contains_key(m.focus.tag),
        next.tags.contains_key(next.focus.tag),
        next.focus == m.focus,
        next.window_gap == m.window_gap,
        next.tags[next.focus.tag].description@ == m.tags[m.focus.tag].description@,
        next.tags[next.focus.tag].placements@ == m.tags[m.focus.tag].placements@.push(last),
    ensures
        dump_text(next) == dump_text(m) + ("  win="@ + number::dec(last.win as nat) + " "@
            + geometry::rect_text(last.rect) + " visible="@ + (if last.visible {
            "true"@
        } else {
            "false"@
        }) + "\n"@),
{
    let a = m.tags[m.focus.tag].placements@;
    let b = next.tags[next.focus.tag].placements@;
    lemma_same_placements(a, b, a.len() as int);
    assert(b[a.len() as int] == last);
    assert(dump_text(next) =~= dump_text(m) + placement_line(last));
}

/// The first lines depend on the first placements alone.
proof fn lemma_same_placements(a: Seq<Placement>, b: Seq<Placement>, n: int)
    requires
        n <= a.len() <= b.len(),
        forall|i: int| 0 <= i < a.len() ==> a[i] == b[i],
    ensures
        placement_lines(a, n) == placement_lines(b, n),
    decreases n,
{
    if n > 0 {
        lemma_same_placements(a, b, n - 1);
    }
}

} // verus!
