//! Tag commands: showing a tag, and moving a window to another.

use crate::args;
use crate::args::first_tag;
use crate::number;
use crate::number::{decimal, parse_i32, parse_unsigned};
use crate::reply;
use crate::reply::{err, err_quote, ok};
use crate::state;
use crate::state::{Model, Monitor, Op, OpView, State, TagId};
use crate::text::{chars_of, same};
use vstd::prelude::*;
use vstd::string::*;

verus! {

broadcast use vstd::std_specs::hash::group_hash_axioms;

/// What `use` does.
pub open spec fn use_tag(m: Model, rest: Seq<Seq<char>>) -> (Model, Seq<char>) {
    match args::tag_arg(rest) {
        None => (m, reply::err_text("use: expected a tag"@)),
        Some(tag) => {
            let home = if m.tag_monitor.contains_key(tag) {
                state::queued(m, OpView::FocusMonitor(m.tag_monitor[tag]))
            } else {
                m
            };
            (state::managed(home, OpView::ShowOnFocused(tag)), reply::ok_text())
        },
    }
}

/// How many tags there are to step through: 1 to 9.
pub const TAGS: i32 = 9;

/// The position, counted from 0, of the focused monitor's tag; 0 when there
/// is no such monitor or its tag is none of those to step through.
pub open spec fn current_position(list: Seq<Monitor>, focus: usize) -> int {
    match state::focused_monitor_tag(list, focus) {
        Some(tag) => if 1 <= tag <= TAGS {
            tag - 1
        } else {
            0
        },
        None => 0,
    }
}

/// The position that lies `n` steps from `cur`, round the circle of tags.
pub open spec fn place(cur: int, forward: bool, n: int) -> int {
    if forward {
        (cur + n) % (TAGS as int)
    } else {
        (cur - n) % (TAGS as int)
    }
}

/// Whether stepping may come to rest at a position: not at a tag that one of
/// the other monitors displays, when those are skipped.
pub open spec fn may_rest(others: Seq<Monitor>, skip: bool, position: int) -> bool {
    !(skip && state::shows(others, (position + 1) as TagId))
}

/// The positions, among the first `n` from `cur` on, where stepping may come
/// to rest, in the order in which they are met.
pub open spec fn stops(
    others: Seq<Monitor>,
    skip: bool,
    cur: int,
    forward: bool,
    n: int,
) -> Seq<int>
    decreases n,
{
    if n <= 0 {
        Seq::empty()
    } else {
        let before = stops(others, skip, cur, forward, n - 1);
        let position = place(cur, forward, n);
        if may_rest(others, skip, position) {
            before.push(position)
        } else {
            before
        }
    }
}

/// Where stepping by `delta` comes to rest: at the `|delta|`-th stop, and for
/// 0 at the next one. Once round the circle the stops come again. When there
/// is no stop, nothing moves.
pub open spec fn stepped(others: Seq<Monitor>, skip: bool, cur: int, delta: int) -> int {
    let round = stops(others, skip, cur, delta >= 0, TAGS as int);
    let count = if delta > 0 {
        delta
    } else if delta < 0 {
        -delta
    } else {
        1
    };
    if round.len() == 0 {
        cur
    } else {
        round[(count - 1) % (round.len() as int)]
    }
}

/// Whether an index is relative: it starts with a sign.
pub open spec fn is_relative(arg: Seq<char>) -> bool {
    arg.len() > 0 && (arg[0] == '+' || arg[0] == '-')
}

/// The tag that an index names, or the error reply.
pub open spec fn index_target(list: Seq<Monitor>, focus: usize, rest: Seq<Seq<char>>) -> Result<
    TagId,
    Seq<char>,
> {
    let arg = rest[0];
    let skip = rest.contains("--skip-visible"@);
    if is_relative(arg) {
        match args::int_of(arg) {
            None => Err(reply::err_text(reply::quoted("use_index: bad relative index"@, arg))),
            Some(delta) => Ok(
                (stepped(
                    state::others(list, focus),
                    skip,
                    current_position(list, focus),
                    delta as int,
                ) + 1) as TagId,
            ),
        }
    } else {
        match number::read_unsigned(arg, usize::MAX as int) {
            None => Err(reply::err_text(reply::quoted("use_index: bad index"@, arg))),
            Some(i) => if i < TAGS {
                Ok((i + 1) as TagId)
            } else {
                Err(
                    reply::err_text(
                        "use_index: index "@ + number::dec(i as nat) + " out of range"@,
                    ),
                )
            },
        }
    }
}

/// What `use_index` does.
pub open spec fn use_index(m: Model, rest: Seq<Seq<char>>) -> (Model, Seq<char>) {
    if rest.len() == 0 {
        (m, reply::err_text("use_index: expected an index"@))
    } else {
        match index_target(m.monitors, m.monitor_focus, rest) {
            Err(text) => (m, text),
            Ok(tag) => (state::managed(m, OpView::ShowOnFocused(tag)), reply::ok_text()),
        }
    }
}

/// What `move` does. A window that has the tag already stays as it is.
pub open spec fn move_window(m: Model, rest: Seq<Seq<char>>) -> (Model, Seq<char>) {
    match (args::tag_arg(rest), m.focus.window) {
        (None, _) => (m, reply::err_text("move: expected a tag"@)),
        (Some(_), None) => (m, reply::err_text("move: no focused window"@)),
        (Some(tag), Some(win)) => if !m.windows.contains_key(win) {
            (m, reply::err_text("move: focused window missing"@))
        } else {
            let from = m.windows[win].tag;
            if from == tag {
                (m, reply::ok_text())
            } else {
                let taken = if m.tags.contains_key(from) {
                    state::queued(m, OpView::RemoveWindow { tag: from, win })
                } else {
                    m
                };
                let moved = state::with_window(taken, win, state::Window { tag, ..m.windows[win] });
                (state::managed(moved, OpView::InsertWindow { tag, win }), reply::ok_text())
            }
        },
    }
}

/// `use <tag>`: shows a tag on the focused monitor. A tag that has a home
/// monitor is shown there: that monitor is focused first.
pub fn cmd_use(state: &mut State, rest: &[String]) -> (r: String)
    ensures
        (final(state)@, r@) == use_tag(old(state)@, rest.deep_view()),
{
    let tag = match first_tag(rest) {
        Some(tag) => tag,
        None => return err("use: expected a tag"),
    };
    let home = match state.tag_monitor.get(&tag) {
        Some(sel) => Some(sel.copy()),
        None => None,
    };
    match home {
        Some(sel) => state.queue(Op::FocusMonitor(sel)),
        None => {},
    }
    state.queue_and_manage(Op::ShowOnFocused(tag));
    ok()
}

/// Whether one of the arguments is `--skip-visible`.
fn skips_visible(rest: &[String]) -> (r: bool)
    ensures
        r == rest.deep_view().contains("--skip-visible"@),
{
    let mut i: usize = 0;
    while i < rest.len()
        invariant
            i <= rest@.len(),
            forall|k: int| 0 <= k < i ==> rest.deep_view()[k] != "--skip-visible"@,
        decreases rest@.len() - i,
    {
        if same(rest[i].as_str(), "--skip-visible") {
            assert(rest.deep_view()[i as int] == "--skip-visible"@);
            return true;
        }
        i += 1;
    }
    false
}

/// The stops met first are the same, however far one looks.
proof fn lemma_stops_prefix(
    others: Seq<Monitor>,
    skip: bool,
    cur: int,
    forward: bool,
    a: int,
    b: int,
)
    requires
        0 <= a <= b,
    ensures
        stops(others, skip, cur, forward, a).len() <= stops(others, skip, cur, forward, b).len(),
        forall|i: int|
            0 <= i < stops(others, skip, cur, forward, a).len() ==> stops(
                others,
                skip,
                cur,
                forward,
                a,
            )[i] == #[trigger] stops(others, skip, cur, forward, b)[i],
    decreases b,
{
    if a < b {
        lemma_stops_prefix(others, skip, cur, forward, a, b - 1);
    }
}

/// Every stop is a position at which stepping may rest.
pub proof fn lemma_stops_rest(others: Seq<Monitor>, skip: bool, cur: int, forward: bool, n: int)
    ensures
        forall|i: int|
            #![trigger stops(others, skip, cur, forward, n)[i]]
            0 <= i < stops(others, skip, cur, forward, n).len() ==> {
                &&& 0 <= stops(others, skip, cur, forward, n)[i] < TAGS
                &&& may_rest(others, skip, stops(others, skip, cur, forward, n)[i])
            },
    decreases n,
{
    if n > 0 {
        lemma_stops_rest(others, skip, cur, forward, n - 1);
        let before = stops(others, skip, cur, forward, n - 1);
        let all = stops(others, skip, cur, forward, n);
        assert forall|i: int| #![trigger all[i]] 0 <= i < all.len() implies 0 <= all[i] < TAGS
            && may_rest(others, skip, all[i]) by {
            if i < before.len() {
                assert(all[i] == before[i]);
            }
        }
    }
}

/// Whole rounds of nine do not count.
pub proof fn lemma_rounds(a: int, rounds: int)
    ensures
        (a + 9 * rounds) % 9 == a % 9,
{
    vstd::arithmetic::div_mod::lemma_mod_multiples_vanish(rounds, a, 9);
}

/// Whole rounds lead to the same place.
proof fn lemma_place_again(cur: int, forward: bool, n: int, rounds: int)
    ensures
        place(cur, forward, n + TAGS * rounds) == place(cur, forward, n),
{
    lemma_rounds(cur + n, rounds);
    lemma_rounds(cur - n, -rounds);
}

/// After a whole round without a stop there is none.
proof fn lemma_no_stop(
    others: Seq<Monitor>,
    skip: bool,
    cur: int,
    forward: bool,
    walked: int,
    n: int,
)
    requires
        walked >= TAGS,
        0 <= n <= TAGS,
        forall|i: int|
            walked - TAGS < i <= walked ==> !may_rest(
                others,
                skip,
                #[trigger] place(cur, forward, i),
            ),
    ensures
        stops(others, skip, cur, forward, n).len() == 0,
    decreases n,
{
    if n > 0 {
        lemma_no_stop(others, skip, cur, forward, walked, n - 1);
        let rounds = (walked - n) / (TAGS as int);
        lemma_place_again(cur, forward, n, rounds);
        assert(walked - TAGS < n + TAGS * rounds <= walked);
    }
}

/// A walk from `cur`: so many steps, in whole rounds and steps of the round
/// under way, with so many stops on the way.
spec fn on_walk(
    others: Seq<Monitor>,
    skip: bool,
    cur: int,
    forward: bool,
    rounds: int,
    steps: int,
    pos: int,
    passed: int,
) -> bool {
    &&& rounds >= 0
    &&& 0 <= steps < TAGS
    &&& pos == place(cur, forward, TAGS * rounds + steps)
    &&& passed == rounds * stops(others, skip, cur, forward, TAGS as int).len() + stops(
        others,
        skip,
        cur,
        forward,
        steps,
    ).len()
}

/// The next position of a walk.
proof fn lemma_place_next(cur: int, forward: bool, rounds: int, steps: int)
    requires
        rounds >= 0,
        0 <= steps < TAGS,
    ensures
        place(cur, forward, TAGS * rounds + steps + 1) == place(cur, forward, steps + 1),
        forward ==> place(cur, forward, TAGS * rounds + steps + 1) == (place(
            cur,
            forward,
            TAGS * rounds + steps,
        ) + 1) % (TAGS as int),
        !forward ==> place(cur, forward, TAGS * rounds + steps + 1) == (place(
            cur,
            forward,
            TAGS * rounds + steps,
        ) - 1) % (TAGS as int),
{
    lemma_place_again(cur, forward, steps + 1, rounds);
    let x = if forward {
        cur + TAGS * rounds + steps
    } else {
        cur - TAGS * rounds - steps
    };
    let q = x / 9;
    assert(x % 9 == x - 9 * q);
    lemma_rounds(x + 1, -q);
    lemma_rounds(x - 1, -q);
}

/// One more step of a walk.
proof fn lemma_walk(
    others: Seq<Monitor>,
    skip: bool,
    cur: int,
    forward: bool,
    rounds: int,
    steps: int,
    pos: int,
    passed: int,
    next: int,
)
    requires
        on_walk(others, skip, cur, forward, rounds, steps, pos, passed),
        next == place(cur, forward, TAGS * rounds + steps + 1),
    ensures
        ({
            let round = stops(others, skip, cur, forward, TAGS as int);
            let rests = may_rest(others, skip, next);
            let (rounds2, steps2) = if steps + 1 == TAGS {
                (rounds + 1, 0int)
            } else {
                (rounds, steps + 1)
            };
            &&& on_walk(
                others,
                skip,
                cur,
                forward,
                rounds2,
                steps2,
                next,
                if rests {
                    passed + 1
                } else {
                    passed
                },
            )
            &&& rests ==> round.len() > 0 && next == round[passed % (round.len() as int)]
        }),
{
    let round = stops(others, skip, cur, forward, TAGS as int);
    let before = stops(others, skip, cur, forward, steps);
    let after = stops(others, skip, cur, forward, steps + 1);
    lemma_place_next(cur, forward, rounds, steps);
    lemma_stops_prefix(others, skip, cur, forward, steps + 1, TAGS as int);
    if steps + 1 == TAGS {
        assert((rounds + 1) * round.len() == rounds * round.len() + round.len())
            by (nonlinear_arith);
        assert(stops(others, skip, cur, forward, 0).len() == 0);
        assert(place(cur, forward, TAGS * (rounds + 1) + 0) == next);
    }
    if may_rest(others, skip, next) {
        let k = before.len() as int;
        assert(after == before.push(next));
        assert(round[k] == after[k]);
        vstd::arithmetic::div_mod::lemma_fundamental_div_mod_converse(
            passed,
            round.len() as int,
            rounds,
            k,
        );
    }
}

/// Steps from position `cur` by `delta`.
fn step_by(state: &State, skip: bool, cur: i32, delta: i32) -> (r: i32)
    requires
        0 <= cur < TAGS,
    ensures
        r == stepped(
            state::others(state@.monitors, state@.monitor_focus),
            skip,
            cur as int,
            delta as int,
        ),
        0 <= r < TAGS,
{
    let ghost others = state::others(state@.monitors, state@.monitor_focus);
    let forward = delta >= 0;
    let count: i64 = if delta > 0 {
        delta as i64
    } else if delta < 0 {
        -(delta as i64)
    } else {
        1
    };
    let ghost round = stops(others, skip, cur as int, forward, TAGS as int);
    let mut pos: i32 = cur;
    let mut remaining: i64 = count;
    let mut guard: i32 = 0;
    let ghost mut rounds: int = 0;
    let ghost mut steps: int = 0;
    while remaining > 0 && guard < TAGS
        invariant
            others == state::others(state.monitors.list@, state.monitors.focus),
            0 <= cur < TAGS,
            round == stops(others, skip, cur as int, forward, TAGS as int),
            0 <= remaining <= count,
            0 <= guard <= TAGS,
            guard <= TAGS * rounds + steps,
            on_walk(
                others,
                skip,
                cur as int,
                forward,
                rounds,
                steps,
                pos as int,
                count - remaining,
            ),
            forall|i: int|
                TAGS * rounds + steps - guard < i <= TAGS * rounds + steps ==> !may_rest(
                    others,
                    skip,
                    #[trigger] place(cur as int, forward, i),
                ),
            round.len() == 0 ==> guard == TAGS * rounds + steps && remaining == count,
            remaining < count ==> round.len() > 0,
            remaining == 0 ==> count >= 1 && pos == round[(count - 1) % (round.len() as int)],
        decreases remaining, TAGS - guard,
    {
        let ghost before = pos as int;
        let ghost passed = (count - remaining) as int;
        proof {
            lemma_place_next(cur as int, forward, rounds, steps);
        }
        pos = if forward {
            if pos + 1 == TAGS {
                0
            } else {
                pos + 1
            }
        } else {
            if pos == 0 {
                TAGS - 1
            } else {
                pos - 1
            }
        };
        proof {
            lemma_walk(
                others,
                skip,
                cur as int,
                forward,
                rounds,
                steps,
                before,
                passed,
                pos as int,
            );
            if steps + 1 == TAGS {
                rounds = rounds + 1;
                steps = 0;
            } else {
                steps = steps + 1;
            }
        }
        if skip && state.monitors.tag_visible((pos + 1) as TagId) {
            guard = guard + 1;
        } else {
            remaining = remaining - 1;
            guard = 0;
        }
    }
    proof {
        lemma_stops_rest(others, skip, cur as int, forward, TAGS as int);
        if remaining > 0 {
            lemma_no_stop(others, skip, cur as int, forward, TAGS * rounds + steps, TAGS as int);
        } else {
            assert(0 <= (count - 1) % (round.len() as int) < round.len());
        }
    }
    pos
}

/// The tag that an index names, or the error reply.
fn find_index(state: &State, rest: &[String]) -> (r: Result<TagId, String>)
    requires
        rest@.len() > 0,
    ensures
        crate::binding::result_view(r) == index_target(
            state@.monitors,
            state@.monitor_focus,
            rest.deep_view(),
        ),
{
    let arg = rest[0].as_str();
    assert(rest.deep_view()[0] == arg@);
    let chars = chars_of(arg);
    if chars.len() > 0 && (chars[0] == '+' || chars[0] == '-') {
        let skip = skips_visible(rest);
        let cur: i32 = match state.monitors.focused() {
            Some(m) => if 1 <= m.tag && m.tag <= 9 {
                (m.tag - 1) as i32
            } else {
                0
            },
            None => 0,
        };
        match parse_i32(arg) {
            None => Err(err_quote("use_index: bad relative index", arg)),
            Some(delta) => Ok((step_by(state, skip, cur, delta) + 1) as TagId),
        }
    } else {
        match parse_unsigned(arg, usize::MAX as u64) {
            None => Err(err_quote("use_index: bad index", arg)),
            Some(i) => if i < 9 {
                Ok((i + 1) as TagId)
            } else {
                let mut msg = "use_index: index ".to_owned();
                let n = decimal(i);
                msg.append(n.as_str());
                msg.append(" out of range");
                Err(err(msg.as_str()))
            },
        }
    }
}

/// `use_index <i> [--skip-visible]`: shows a tag by its place among the tags
/// 1 to 9, counted from 0. With a leading `+` or `-` the place is relative to
/// the focused monitor's tag, and tags that are visible on another monitor
/// can be skipped.
pub fn cmd_use_index(state: &mut State, rest: &[String]) -> (r: String)
    ensures
        (final(state)@, r@) == use_index(old(state)@, rest.deep_view()),
{
    if rest.len() == 0 {
        return err("use_index: expected an index");
    }
    match find_index(state, rest) {
        Err(text) => text,
        Ok(tag) => {
            state.queue_and_manage(Op::ShowOnFocused(tag));
            ok()
        },
    }
}

/// `move <tag>`: moves the focused window from its tag's tree into another's.
pub fn cmd_move(state: &mut State, rest: &[String]) -> (r: String)
    ensures
        (final(state)@, r@) == move_window(old(state)@, rest.deep_view()),
{
    let ghost before = state@;
    let tag = match first_tag(rest) {
        Some(tag) => tag,
        None => return err("move: expected a tag"),
    };
    let win = match state.focus.window {
        Some(win) => win,
        None => return err("move: no focused window"),
    };
    let from = match state.windows.get(&win) {
        Some(w) => w.tag,
        None => return err("move: focused window missing"),
    };
    if from == tag {
        return ok();
    }
    if state.tags.contains_key(&from) {
        state.queue(Op::RemoveWindow { tag: from, win });
    }
    let ghost taken = state@;
    match state.windows.remove(&win) {
        Some(mut w) => {
            w.tag = tag;
            state.set_window(win, w);
        },
        None => {},
    }
    assert(state@ =~= state::with_window(
        taken,
        win,
        state::Window { tag, ..before.windows[win] },
    ));
    state.queue_and_manage(Op::InsertWindow { tag, win });
    ok()
}

} // verus!
