//! What `use_index` does: which tag it shows.

use crate::args;
use crate::cmd_tag;
use crate::dispatch;
use crate::effects;
use crate::names;
use crate::number;
use crate::state;
use crate::state::{Model, Monitor, OpView};
use crate::step::StepView;
use vstd::prelude::*;

verus! {

/// What a command comes to that shows a tag on the focused monitor.
pub open spec fn shows_tag(m: Model, tag: int) -> (Model, StepView) {
    effects::okay(
        effects::with_ops(m, seq![OpView::ShowOnFocused(tag as u32), OpView::Manage]),
    )
}

/// The tag from which a relative index counts: that of the focused monitor,
/// when it is one of the tags 1 to 9, and else 1.
pub open spec fn start(m: Model) -> int {
    if m.monitor_focus < m.monitors.len() && 1 <= m.monitors[m.monitor_focus as int].tag <= 9 {
        m.monitors[m.monitor_focus as int].tag as int
    } else {
        1
    }
}

/// Whether a request gives a relative index: a number with a sign before it.
pub open spec fn gives_step(args: Seq<Seq<char>>, d: i32) -> bool {
    &&& effects::is_for(args, "use_index"@)
    &&& args.len() > 1
    &&& args[1].len() > 0
    &&& args[1][0] == '+' || args[1][0] == '-'
    &&& args::int_of(args[1]) == Some(d)
}

/// Whether a request asks to skip visible tags.
pub open spec fn asks_to_skip(args: Seq<Seq<char>>) -> bool {
    exists|j: int| 1 <= j < args.len() && #[trigger] args[j] == "--skip-visible"@
}

/// How many tags an index goes on: at least one.
pub open spec fn size(d: int) -> int {
    if d > 0 {
        d
    } else if d < 0 {
        -d
    } else {
        1
    }
}

/// The tag that is met at the `k`-th step, forward or backward round the
/// circle of the tags 1 to 9.
pub open spec fn met(m: Model, d: int, k: int) -> int {
    if d >= 0 {
        (start(m) - 1 + k) % 9 + 1
    } else {
        (start(m) - 1 - k) % 9 + 1
    }
}

/// Whether a monitor other than the focused one displays a tag.
pub open spec fn is_elsewhere(m: Model, tag: int) -> bool {
    exists|i: int|
        0 <= i < m.monitors.len() && i != m.monitor_focus && (#[trigger] m.monitors[i]).tag == tag
}

/// How many of the tags that are met in the first `k` steps no other monitor
/// displays.
pub open spec fn hidden_met(m: Model, d: int, k: int) -> int
    decreases k,
{
    if k <= 0 {
        0
    } else if is_elsewhere(m, met(m, d, k)) {
        hidden_met(m, d, k - 1)
    } else {
        hidden_met(m, d, k - 1) + 1
    }
}

/// The flag is looked for in all arguments.
proof fn lemma_flag(args: Seq<Seq<char>>)
    requires
        args.len() > 0,
    ensures
        args.skip(1).contains("--skip-visible"@) <==> asks_to_skip(args),
{
    let rest = args.skip(1);
    if rest.contains("--skip-visible"@) {
        let i = rest.index_of("--skip-visible"@);
        assert(args[i + 1] == "--skip-visible"@);
    }
    if asks_to_skip(args) {
        let j = choose|j: int| 1 <= j < args.len() && #[trigger] args[j] == "--skip-visible"@;
        assert(rest[j - 1] == "--skip-visible"@);
    }
}

/// A relative index shows the tag at which stepping comes to rest.
proof fn lemma_step(m: Model, args: Seq<Seq<char>>, d: i32)
    requires
        gives_step(args, d),
    ensures
        dispatch::dispatched(m, args) == shows_tag(
            m,
            cmd_tag::stepped(
                state::others(m.monitors, m.monitor_focus),
                asks_to_skip(args),
                start(m) - 1,
                d as int,
            ) + 1,
        ),
{
    names::commands_have_names();
    lemma_flag(args);
    let tag = (cmd_tag::stepped(
        state::others(m.monitors, m.monitor_focus),
        asks_to_skip(args),
        start(m) - 1,
        d as int,
    ) + 1) as u32;
    assert(args.skip(1)[0] == args[1]);
    assert(cmd_tag::current_position(m.monitors, m.monitor_focus) == start(m) - 1);
    assert(m.ops.push(OpView::ShowOnFocused(tag)).push(OpView::Manage) =~= m.ops
        + seq![OpView::ShowOnFocused(tag), OpView::Manage]);
}

/// A relative index other than 0 shows the tag that lies so many places from
/// that of the focused monitor, round the circle of the tags 1 to 9. For 0 it
/// is the next one.
pub proof fn relative_indices_go_round(m: Model, args: Seq<Seq<char>>, d: i32)
    requires
        gives_step(args, d),
        !asks_to_skip(args),
    ensures
        d != 0 ==> dispatch::dispatched(m, args) == shows_tag(m, (start(m) - 1 + d) % 9 + 1),
        d == 0 ==> dispatch::dispatched(m, args) == shows_tag(m, start(m) % 9 + 1),
{
    lemma_step(m, args, d);
    crate::laws::plain_steps_go_round(
        state::others(m.monitors, m.monitor_focus),
        start(m) - 1,
        d as int,
    );
}

/// A relative index, and then as many tags back once the manager shows the
/// tag that it led to, leads to the tag of the focused monitor again.
#[verifier::spinoff_prover]
pub proof fn relative_indices_can_be_undone(
    m: Model,
    there: Seq<Seq<char>>,
    back: Seq<Seq<char>>,
    d: i32,
    later: Model,
    tag: int,
)
    requires
        d != 0,
        d != i32::MIN,
        gives_step(there, d),
        gives_step(back, (-d) as i32),
        !asks_to_skip(there),
        !asks_to_skip(back),
        1 <= tag <= 9,
        dispatch::dispatched(m, there) == shows_tag(m, tag),
        later.monitor_focus < later.monitors.len(),
        later.monitors[later.monitor_focus as int].tag == tag,
    ensures
        dispatch::dispatched(later, back) == shows_tag(later, start(m)),
{
    let expected = (start(m) - 1 + d) % 9 + 1;
    relative_indices_go_round(m, there, d);
    lemma_same_tag(m, tag, expected);
    relative_indices_go_round(later, back, (-d) as i32);
    lemma_back(start(m), d as int);
}

/// The queue says which tag is shown.
proof fn lemma_same_tag(m: Model, a: int, b: int)
    requires
        shows_tag(m, a) == shows_tag(m, b),
        1 <= a <= 9,
        1 <= b <= 9,
    ensures
        a == b,
{
    let n = m.ops.len() as int;
    assert(shows_tag(m, a).0.ops[n] == OpView::ShowOnFocused(a as u32));
    assert(shows_tag(m, b).0.ops[n] == OpView::ShowOnFocused(b as u32));
}

/// So many places on, and as many back.
proof fn lemma_back(from: int, d: int)
    requires
        1 <= from <= 9,
    ensures
        ((from - 1 + d) % 9 + 1 - 1 - d) % 9 + 1 == from,
{
    let q = (from - 1 + d) / 9;
    assert((from - 1 + d) % 9 - d == from - 1 - 9 * q);
    cmd_tag::lemma_rounds(from - 1, -q);
}

/// The monitors other than the focused one are those with another place.
proof fn lemma_elsewhere(m: Model, tag: int)
    requires
        1 <= tag <= 9,
    ensures
        state::shows(state::others(m.monitors, m.monitor_focus), tag as u32) <==> is_elsewhere(
            m,
            tag,
        ),
{
    let list = m.monitors;
    let focus = m.monitor_focus as int;
    let rest = state::others(list, m.monitor_focus);
    if is_elsewhere(m, tag) {
        let i = choose|i: int|
            0 <= i < list.len() && i != m.monitor_focus && (#[trigger] list[i]).tag == tag;
        let k = if focus >= list.len() || i < focus {
            i
        } else {
            i - 1
        };
        assert(rest[k] == list[i]);
    }
    if state::shows(rest, tag as u32) {
        let k = choose|k: int| 0 <= k < rest.len() && (#[trigger] rest[k]).tag == tag as u32;
        let i = if focus >= list.len() || k < focus {
            k
        } else {
            k + 1
        };
        assert(rest[k] == list[i]);
    }
}

/// A position is a stop when no other monitor displays its tag.
proof fn lemma_rests(m: Model, d: int, k: int)
    ensures
        1 <= met(m, d, k) <= 9,
        met(m, d, k) == cmd_tag::place(start(m) - 1, d >= 0, k) + 1,
        cmd_tag::may_rest(
            state::others(m.monitors, m.monitor_focus),
            true,
            cmd_tag::place(start(m) - 1, d >= 0, k),
        ) <==> !is_elsewhere(m, met(m, d, k)),
{
    lemma_elsewhere(m, met(m, d, k));
}

/// Whole rounds meet the same tags.
proof fn lemma_met_again(m: Model, d: int, k: int, rounds: int)
    ensures
        met(m, d, k + 9 * rounds) == met(m, d, k),
{
    cmd_tag::lemma_rounds(start(m) - 1 + k, rounds);
    cmd_tag::lemma_rounds(start(m) - 1 - k, -rounds);
}

/// The tags that are met and hidden are as many as the stops, round after
/// round.
proof fn lemma_hidden(m: Model, d: int, rounds: int, steps: int)
    requires
        rounds >= 0,
        0 <= steps <= 9,
    ensures
        ({
            let others = state::others(m.monitors, m.monitor_focus);
            let cur = start(m) - 1;
            hidden_met(m, d, 9 * rounds + steps) == rounds * cmd_tag::stops(
                others,
                true,
                cur,
                d >= 0,
                9,
            ).len() + cmd_tag::stops(others, true, cur, d >= 0, steps).len()
        }),
    decreases rounds, steps,
{
    let others = state::others(m.monitors, m.monitor_focus);
    let cur = start(m) - 1;
    let round = cmd_tag::stops(others, true, cur, d >= 0, 9).len() as int;
    if steps > 0 {
        lemma_hidden(m, d, rounds, steps - 1);
        lemma_rests(m, d, steps);
        lemma_met_again(m, d, steps, rounds);
    } else if rounds > 0 {
        lemma_hidden(m, d, rounds - 1, 9);
        assert((rounds - 1) * round + round == rounds * round) by (nonlinear_arith);
        assert(9 * rounds + steps == 9 * (rounds - 1) + 9);
        assert(cmd_tag::stops(others, true, cur, d >= 0, 0).len() == 0);
    } else {
        assert(rounds * round == 0) by (nonlinear_arith)
            requires
                rounds == 0,
        ;
    }
}

/// Skipping, a relative index shows the tag at which as many hidden tags have
/// been met as the index says. A tag is hidden when no monitor other than the
/// focused one displays it. When none is, the tag stays.
pub proof fn skipping_indices_count_hidden_tags(m: Model, args: Seq<Seq<char>>, d: i32, k: int)
    requires
        gives_step(args, d),
        asks_to_skip(args),
    ensures
        k >= 1 && !is_elsewhere(m, met(m, d as int, k)) && hidden_met(m, d as int, k) == size(
            d as int,
        ) ==> dispatch::dispatched(m, args) == shows_tag(m, met(m, d as int, k)),
        (forall|tag: int| 1 <= tag <= 9 ==> #[trigger] is_elsewhere(m, tag))
            ==> dispatch::dispatched(m, args) == shows_tag(m, start(m)),
{
    let d = d as int;
    lemma_step(m, args, d as i32);
    let others = state::others(m.monitors, m.monitor_focus);
    let cur = start(m) - 1;
    let round = cmd_tag::stops(others, true, cur, d >= 0, 9);
    if k >= 1 && !is_elsewhere(m, met(m, d, k)) && hidden_met(m, d, k) == size(d) {
        let rounds = (k - 1) / 9;
        let steps = (k - 1) % 9 + 1;
        assert(k == 9 * rounds + steps);
        lemma_hidden(m, d, rounds, steps);
        lemma_met_again(m, d, steps, rounds);
        lemma_rests(m, d, steps);
        let before = cmd_tag::stops(others, true, cur, d >= 0, steps - 1);
        let after = cmd_tag::stops(others, true, cur, d >= 0, steps);
        assert(after == before.push(met(m, d, k) - 1));
        lemma_prefix(others, cur, d >= 0, steps, 9);
        let i = before.len() as int;
        assert(round[i] == after[i]);
        vstd::arithmetic::div_mod::lemma_fundamental_div_mod_converse(
            size(d) - 1,
            round.len() as int,
            rounds,
            i,
        );
    }
    if forall|tag: int| 1 <= tag <= 9 ==> #[trigger] is_elsewhere(m, tag) {
        lemma_no_stops(m, d, 9);
    }
}

/// The stops met first are the same, however far one looks.
proof fn lemma_prefix(others: Seq<Monitor>, cur: int, forward: bool, a: int, b: int)
    requires
        0 <= a <= b,
    ensures
        cmd_tag::stops(others, true, cur, forward, a).len() <= cmd_tag::stops(
            others,
            true,
            cur,
            forward,
            b,
        ).len(),
        forall|i: int|
            0 <= i < cmd_tag::stops(others, true, cur, forward, a).len()
                ==> #[trigger] cmd_tag::stops(others, true, cur, forward, b)[i] == cmd_tag::stops(
                others,
                true,
                cur,
                forward,
                a,
            )[i],
    decreases b,
{
    if a < b {
        lemma_prefix(others, cur, forward, a, b - 1);
    }
}

/// Without hidden tags there are no stops.
proof fn lemma_no_stops(m: Model, d: int, n: int)
    requires
        forall|tag: int| 1 <= tag <= 9 ==> #[trigger] is_elsewhere(m, tag),
    ensures
        cmd_tag::stops(
            state::others(m.monitors, m.monitor_focus),
            true,
            start(m) - 1,
            d >= 0,
            n,
        ).len() == 0,
    decreases n,
{
    if n > 0 {
        lemma_no_stops(m, d, n - 1);
        lemma_rests(m, d, n);
    }
}

/// When some tag is hidden, as many hidden tags as one likes are met some
/// time.
pub proof fn hidden_tags_are_met(m: Model, d: int, tag: int, count: int) -> (k: int)
    requires
        1 <= tag <= 9,
        !is_elsewhere(m, tag),
        count >= 1,
    ensures
        k >= 1,
        !is_elsewhere(m, met(m, d, k)),
        hidden_met(m, d, k) == count,
    decreases count,
{
    let from = if count == 1 {
        0
    } else {
        hidden_tags_are_met(m, d, tag, count - 1)
    };
    let to = lemma_ahead(start(m) - 1, from, tag, d >= 0);
    lemma_next_hidden(m, d, from, to)
}

/// Every tag is met within the next nine steps.
proof fn lemma_ahead(base: int, from: int, tag: int, forward: bool) -> (to: int)
    requires
        0 <= base < 9,
        1 <= tag <= 9,
    ensures
        from < to <= from + 9,
        forward ==> (base + to) % 9 + 1 == tag,
        !forward ==> (base - to) % 9 + 1 == tag,
{
    let x = if forward {
        tag - 2 - base - from
    } else {
        base - tag - from
    };
    let to = from + 1 + x % 9;
    let q = x / 9;
    assert(x % 9 == x - 9 * q);
    if forward {
        assert(base + to == tag - 1 - 9 * q);
        cmd_tag::lemma_rounds(tag - 1, -q);
    } else {
        assert(base - to == tag - 1 + 9 * q);
        cmd_tag::lemma_rounds(tag - 1, q);
    }
    to
}

/// Before the end of a stretch that ends at a hidden tag, one is met first.
proof fn lemma_next_hidden(m: Model, d: int, from: int, to: int) -> (k: int)
    requires
        0 <= from < to,
        !is_elsewhere(m, met(m, d, to)),
    ensures
        from < k <= to,
        !is_elsewhere(m, met(m, d, k)),
        hidden_met(m, d, k) == hidden_met(m, d, from) + 1,
    decreases to - from,
{
    if !is_elsewhere(m, met(m, d, from + 1)) {
        from + 1
    } else {
        lemma_next_hidden(m, d, from + 1, to)
    }
}

/// An index without a sign counts the tags 1 to 9 from 0.
pub proof fn absolute_indices_count_from_zero(m: Model, args: Seq<Seq<char>>)
    requires
        effects::is_for(args, "use_index"@),
    ensures
        ({
            let r = dispatch::dispatched(m, args);
            let i = number::value(args[1]);
            &&& args.len() == 1 ==> r == effects::refused(m, "use_index: expected an index"@)
            &&& args.len() > 1 && number::is_decimal(args[1]) ==> {
                &&& i < 9 ==> r == shows_tag(m, i as int + 1)
                &&& 9 <= i <= usize::MAX ==> r == effects::refused(
                    m,
                    "use_index: index "@ + number::dec(i) + " out of range"@,
                )
                &&& i > usize::MAX ==> r == effects::refused(
                    m,
                    effects::about("use_index: bad index"@, args[1]),
                )
            }
            &&& args.len() > 1 && !number::is_decimal(args[1]) && (args[1].len() == 0 || (
            args[1][0] != '+' && args[1][0] != '-')) ==> r == effects::refused(
                m,
                effects::about("use_index: bad index"@, args[1]),
            )
            &&& args.len() > 1 && args[1].len() > 0 && (args[1][0] == '+' || args[1][0] == '-')
                && args::int_of(args[1]) is None ==> r == effects::refused(
                m,
                effects::about("use_index: bad relative index"@, args[1]),
            )
        }),
{
    names::commands_have_names();
    if args.len() > 1 {
        let rest = args.skip(1);
        assert(rest[0] == args[1]);
        let i = number::value(args[1]);
        if number::is_decimal(args[1]) {
            assert(number::is_digit(args[1][0]));
            assert(!cmd_tag::is_relative(args[1]));
            if i < 9 {
                let tag = (i + 1) as u32;
                assert(m.ops.push(OpView::ShowOnFocused(tag)).push(OpView::Manage) =~= m.ops
                    + seq![OpView::ShowOnFocused(tag), OpView::Manage]);
            }
        }
    }
}

} // verus!
