//! Monitor commands.

use crate::args;
use crate::args::{first_delta, parse_tag};
use crate::geometry;
use crate::geometry::{Insets, Rect};
use crate::number::parse_i32;
use crate::reply;
use crate::reply::{err, err_quote, ok};
use crate::state;
use crate::state::{Model, MonitorSel, Op, OpView, State};
use crate::step::{Call, CallView, Step, StepView};
use vstd::prelude::*;

verus! {

/// The rectangles that the words name, or the first word that names none.
pub open spec fn rects_of(words: Seq<Seq<char>>) -> Result<Seq<Rect>, Seq<char>>
    decreases words.len(),
{
    if words.len() == 0 {
        Ok(Seq::empty())
    } else {
        match rects_of(words.drop_last()) {
            Err(word) => Err(word),
            Ok(rects) => match geometry::read_rect(words.last()) {
                Some(rect) => Ok(rects.push(rect)),
                None => Err(words.last()),
            },
        }
    }
}

/// What `set_monitors` does: all rectangles are taken, or none.
pub open spec fn set_monitors(m: Model, rest: Seq<Seq<char>>) -> (Model, Seq<char>) {
    if rest.len() == 0 {
        (m, reply::err_text("set_monitors: expected at least one WxH+X+Y rect"@))
    } else {
        match rects_of(rest) {
            Ok(rects) => (state::managed(m, OpView::SetMonitors(rects)), reply::ok_text()),
            Err(word) => (m, reply::err_text(reply::quoted("set_monitors: bad rect"@, word))),
        }
    }
}

/// What `add_monitor` comes to.
pub open spec fn add_monitor(rest: Seq<Seq<char>>) -> StepView {
    if rest.len() < 2 {
        StepView::Reply(reply::err_text("add_monitor: expected <rect> <tag> [name]"@))
    } else {
        match (geometry::read_rect(rest[0]), args::tag_of(rest[1])) {
            (None, _) => StepView::Reply(
                reply::err_text(reply::quoted("add_monitor: bad rect"@, rest[0])),
            ),
            (Some(_), None) => StepView::Reply(
                reply::err_text(reply::quoted("add_monitor: bad tag"@, rest[1])),
            ),
            (Some(rect), Some(tag)) => StepView::Call(
                CallView::AddMonitor {
                    rect,
                    tag,
                    name: if rest.len() > 2 {
                        Some(rest[2])
                    } else {
                        None
                    },
                },
            ),
        }
    }
}

/// What `raise_monitor` comes to.
pub open spec fn raise_monitor(rest: Seq<Seq<char>>) -> StepView {
    if rest.len() == 0 {
        StepView::Reply(reply::err_text("raise_monitor: expected a monitor selector"@))
    } else {
        StepView::Call(CallView::RaiseMonitor { sel: rest[0] })
    }
}

/// What `lock_tag` comes to.
pub open spec fn lock_tag(rest: Seq<Seq<char>>) -> StepView {
    if rest.len() < 2 {
        StepView::Reply(reply::err_text("lock_tag: expected <tag> <monitor>"@))
    } else {
        match args::tag_of(rest[0]) {
            Some(tag) => StepView::Call(CallView::LockTag { tag, sel: rest[1] }),
            None => StepView::Reply(
                reply::err_text(reply::quoted("lock_tag: bad tag"@, rest[0])),
            ),
        }
    }
}

/// Whether every word is a number.
pub open spec fn all_ints(words: Seq<Seq<char>>) -> bool {
    forall|i: int| 0 <= i < words.len() ==> args::int_of(#[trigger] words[i]) is Some
}

/// The `i`-th word as a number; 0 when there are not as many words.
pub open spec fn edge(words: Seq<Seq<char>>, i: int) -> i32 {
    if i < words.len() {
        args::int_of(words[i])->0
    } else {
        0
    }
}

/// What `pad` comes to. Every edge has to be a number, also those beyond the
/// fourth.
pub open spec fn pad(rest: Seq<Seq<char>>) -> StepView {
    if rest.len() < 2 {
        StepView::Reply(
            reply::err_text("pad: expected <monitor> <top> [right] [bottom] [left]"@),
        )
    } else {
        let edges = rest.skip(1);
        if all_ints(edges) {
            StepView::Call(
                CallView::SetPad {
                    sel: rest[0],
                    pad: Insets {
                        top: edge(edges, 0),
                        right: edge(edges, 1),
                        bottom: edge(edges, 2),
                        left: edge(edges, 3),
                    },
                },
            )
        } else {
            StepView::Reply(reply::err_text("pad: edge values must be integers"@))
        }
    }
}

/// What `focus_monitor` comes to.
pub open spec fn focus_monitor(rest: Seq<Seq<char>>) -> StepView {
    if rest.len() == 0 {
        StepView::Reply(reply::err_text("focus_monitor: expected a monitor selector"@))
    } else {
        StepView::Call(CallView::FocusMonitor { sel: rest[0] })
    }
}

/// What `cycle_monitor` does.
pub open spec fn cycle_monitor(m: Model, rest: Seq<Seq<char>>) -> (Model, Seq<char>) {
    (state::managed(m, OpView::CycleMonitor(args::delta_arg(rest))), reply::ok_text())
}

/// What `detect_monitors` does.
pub open spec fn detect_monitors(m: Model) -> (Model, Seq<char>) {
    (
        state::managed(Model { monitors: Seq::empty(), ..m }, OpView::DetectMonitors),
        reply::ok_text(),
    )
}

/// A bad word makes the whole list fail at the first one.
proof fn lemma_rects_stop(words: Seq<Seq<char>>, k: int)
    requires
        0 <= k <= words.len(),
        rects_of(words.take(k)) is Err,
    ensures
        rects_of(words) == rects_of(words.take(k)),
    decreases words.len(),
{
    if k == words.len() {
        assert(words.take(k) =~= words);
    } else {
        assert(words.drop_last().take(k) =~= words.take(k));
        lemma_rects_stop(words.drop_last(), k);
    }
}

/// `set_monitors <rect>...`: replaces the monitors.
pub fn cmd_set_monitors(state: &mut State, rest: &[String]) -> (r: String)
    ensures
        (final(state)@, r@) == set_monitors(old(state)@, rest.deep_view()),
{
    if rest.len() == 0 {
        return err("set_monitors: expected at least one WxH+X+Y rect");
    }
    let ghost words = rest.deep_view();
    let mut rects: Vec<Rect> = Vec::new();
    let mut i: usize = 0;
    while i < rest.len()
        invariant
            words == rest.deep_view(),
            i <= rest@.len(),
            rest@.len() > 0,
            rects_of(words.take(i as int)) == Ok::<Seq<Rect>, Seq<char>>(rects@),
            state@ == old(state)@,
        decreases rest@.len() - i,
    {
        assert(words.take(i + 1).drop_last() =~= words.take(i as int));
        assert(words.take(i + 1).last() == rest@[i as int]@);
        match Rect::parse(rest[i].as_str()) {
            Some(rect) => rects.push(rect),
            None => {
                proof {
                    lemma_rects_stop(words, i + 1);
                }
                return err_quote("set_monitors: bad rect", rest[i].as_str());
            },
        }
        i += 1;
    }
    assert(words.take(words.len() as int) =~= words);
    state.queue_and_manage(Op::SetMonitors(rects));
    ok()
}

/// `add_monitor <rect> <tag> [name]`: adds a monitor.
pub fn cmd_add_monitor(rest: &[String]) -> (step: Step)
    ensures
        step@ == add_monitor(rest.deep_view()),
{
    if rest.len() < 2 {
        return Step::Reply(err("add_monitor: expected <rect> <tag> [name]"));
    }
    match Rect::parse(rest[0].as_str()) {
        None => Step::Reply(err_quote("add_monitor: bad rect", rest[0].as_str())),
        Some(rect) => match parse_tag(rest[1].as_str()) {
            None => Step::Reply(err_quote("add_monitor: bad tag", rest[1].as_str())),
            Some(tag) => {
                let name = if rest.len() > 2 {
                    Some(rest[2].clone())
                } else {
                    None
                };
                Step::Call(Call::AddMonitor { rect, tag, name })
            },
        },
    }
}

/// `raise_monitor <monitor>`: puts a monitor above the others.
pub fn cmd_raise_monitor(rest: &[String]) -> (step: Step)
    ensures
        step@ == raise_monitor(rest.deep_view()),
{
    if rest.len() == 0 {
        Step::Reply(err("raise_monitor: expected a monitor selector"))
    } else {
        Step::Call(Call::RaiseMonitor { sel: MonitorSel::parse(rest[0].as_str()) })
    }
}

/// `lock_tag <tag> <monitor>`: locks a tag to a monitor.
pub fn cmd_lock_tag(rest: &[String]) -> (step: Step)
    ensures
        step@ == lock_tag(rest.deep_view()),
{
    if rest.len() < 2 {
        return Step::Reply(err("lock_tag: expected <tag> <monitor>"));
    }
    match parse_tag(rest[0].as_str()) {
        Some(tag) => Step::Call(Call::LockTag { tag, sel: MonitorSel::parse(rest[1].as_str()) }),
        None => Step::Reply(err_quote("lock_tag: bad tag", rest[0].as_str())),
    }
}

/// `pad <monitor> <top> [right] [bottom] [left]`: sets the pad of a monitor.
/// Edges that are not given are 0.
pub fn cmd_pad(rest: &[String]) -> (step: Step)
    ensures
        step@ == pad(rest.deep_view()),
{
    if rest.len() < 2 {
        return Step::Reply(err("pad: expected <monitor> <top> [right] [bottom] [left]"));
    }
    let ghost edges = rest.deep_view().skip(1);
    let mut n: Vec<i32> = Vec::new();
    let mut i: usize = 1;
    while i < rest.len()
        invariant
            edges == rest.deep_view().skip(1),
            1 <= i <= rest@.len(),
            n@.len() == i - 1,
            forall|k: int| 0 <= k < n@.len() ==> args::int_of(edges[k]) == Some(#[trigger] n@[k]),
        decreases rest@.len() - i,
    {
        assert(edges[i - 1] == rest@[i as int]@);
        match parse_i32(rest[i].as_str()) {
            Some(v) => n.push(v),
            None => {
                assert(!all_ints(edges));
                return Step::Reply(err("pad: edge values must be integers"));
            },
        }
        i += 1;
    }
    assert forall|k: int| 0 <= k < edges.len() implies args::int_of(
        #[trigger] edges[k],
    ) is Some by {
        assert(args::int_of(edges[k]) == Some(n@[k]));
    }
    let pad = Insets {
        top: value_or_zero(&n, 0),
        right: value_or_zero(&n, 1),
        bottom: value_or_zero(&n, 2),
        left: value_or_zero(&n, 3),
    };
    Step::Call(Call::SetPad { sel: MonitorSel::parse(rest[0].as_str()), pad })
}

/// The `i`-th number; 0 when there is none.
fn value_or_zero(n: &Vec<i32>, i: usize) -> (r: i32)
    ensures
        r == if i < n@.len() {
            n@[i as int]
        } else {
            0
        },
{
    if i < n.len() {
        n[i]
    } else {
        0
    }
}

/// `focus_monitor <monitor>`: focuses a monitor.
pub fn cmd_focus_monitor(rest: &[String]) -> (step: Step)
    ensures
        step@ == focus_monitor(rest.deep_view()),
{
    if rest.len() == 0 {
        Step::Reply(err("focus_monitor: expected a monitor selector"))
    } else {
        Step::Call(Call::FocusMonitor { sel: MonitorSel::parse(rest[0].as_str()) })
    }
}

/// `cycle_monitor [delta]`: moves the monitor focus.
pub fn cmd_cycle_monitor(state: &mut State, rest: &[String]) -> (r: String)
    ensures
        (final(state)@, r@) == cycle_monitor(old(state)@, rest.deep_view()),
{
    state.queue_and_manage(Op::CycleMonitor(first_delta(rest)));
    ok()
}

/// `detect_monitors`: makes monitors out of the outputs.
pub fn cmd_detect_monitors(state: &mut State) -> (r: String)
    ensures
        (final(state)@, r@) == detect_monitors(old(state)@),
{
    let ghost before = state@;
    state.monitors.list.clear();
    assert(state@ =~= Model { monitors: Seq::empty(), ..before });
    state.queue_and_manage(Op::DetectMonitors);
    ok()
}

} // verus!
