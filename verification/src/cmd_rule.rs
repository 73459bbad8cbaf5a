//! Rules for new windows, and the home monitors of tags.

use crate::args;
use crate::args::parse_tag;
use crate::reply;
use crate::reply::{err, err_quote, ok};
use crate::split;
use crate::split::index_of;
use crate::state;
use crate::state::{Model, MonitorSel, OpView, Rule, RuleView, State};
use crate::text::{chars_of, same};
use vstd::prelude::*;
use vstd::string::*;

verus! {

broadcast use vstd::std_specs::hash::group_hash_axioms;

/// A rule without any condition or consequence.
pub open spec fn empty_rule() -> RuleView {
    RuleView { app_id: None, title: None, tag: None, floating: None, pseudotile: None }
}

/// The parts of a condition or consequence: the key, whether the value is
/// exact, and the value. A `~` parts them, and a `=` when there is no `~`.
pub open spec fn parts(tok: Seq<char>) -> Option<(Seq<char>, bool, Seq<char>)> {
    let i = split::cut(tok, split::either('~', '~'));
    let j = split::cut(tok, split::either('=', '='));
    if i < tok.len() {
        Some((tok.take(i), false, tok.skip(i + 1)))
    } else if j < tok.len() {
        Some((tok.take(j), true, tok.skip(j + 1)))
    } else {
        None
    }
}

/// Whether a value switches something on.
pub open spec fn is_on(val: Seq<char>) -> bool {
    val == "on"@ || val == "true"@ || val == "1"@
}

/// A rule after one more token. A token without a `~` or a `=`, or with an
/// unknown key, says nothing.
pub open spec fn extended(rule: RuleView, tok: Seq<char>) -> RuleView {
    match parts(tok) {
        None => rule,
        Some((key, exact, val)) => if key == "app_id"@ || key == "class"@ || key == "instance"@ {
            RuleView { app_id: Some((exact, val)), ..rule }
        } else if key == "title"@ {
            RuleView { title: Some((exact, val)), ..rule }
        } else if key == "tag"@ {
            RuleView { tag: args::tag_of(val), ..rule }
        } else if key == "floating"@ {
            RuleView { floating: Some(is_on(val)), ..rule }
        } else if key == "pseudotile"@ {
            RuleView { pseudotile: Some(is_on(val)), ..rule }
        } else {
            rule
        },
    }
}

/// The rule that tokens make, the later ones over the earlier.
pub open spec fn rule_of(toks: Seq<Seq<char>>) -> RuleView
    decreases toks.len(),
{
    if toks.len() == 0 {
        empty_rule()
    } else {
        extended(rule_of(toks.drop_last()), toks.last())
    }
}

/// What `rule` does.
pub open spec fn rule(m: Model, rest: Seq<Seq<char>>) -> (Model, Seq<char>) {
    (
        state::queued(Model { rules: m.rules.push(rule_of(rest)), ..m }, OpView::Manage),
        reply::ok_text(),
    )
}

/// What `unrule` does.
pub open spec fn unrule(m: Model) -> (Model, Seq<char>) {
    (state::queued(Model { rules: Seq::empty(), ..m }, OpView::Manage), reply::ok_text())
}

/// What `set_tag_monitor` does.
pub open spec fn set_tag_monitor(m: Model, rest: Seq<Seq<char>>) -> (Model, Seq<char>) {
    if rest.len() < 2 {
        (m, reply::err_text("set_tag_monitor: expected <tag> <monitor>"@))
    } else {
        match args::tag_of(rest[0]) {
            None => (
                m,
                reply::err_text(reply::quoted("set_tag_monitor: bad tag"@, rest[0])),
            ),
            Some(tag) => (
                state::queued(
                    Model { tag_monitor: m.tag_monitor.insert(tag, rest[1]), ..m },
                    OpView::Manage,
                ),
                reply::ok_text(),
            ),
        }
    }
}

/// Takes one more token into a rule.
fn extend(rule: &mut Rule, tok: &str)
    ensures
        final(rule)@ == extended(old(rule)@, tok@),
{
    let v = chars_of(tok);
    let n = v.len();
    assert(v@.skip(0) =~= v@);
    let tilde = index_of(&v, 0, '~', '~');
    let (at, exact) = if tilde < n {
        (tilde, false)
    } else {
        (index_of(&v, 0, '=', '='), true)
    };
    if at == n {
        return;
    }
    let key = tok.substring_char(0, at);
    let val = tok.substring_char(at + 1, n);
    proof {
        assert(tok@.subrange(0, at as int) =~= tok@.take(at as int));
        assert(tok@.subrange(at + 1, n as int) =~= tok@.skip(at + 1));
        assert(parts(tok@) == Some((key@, exact, val@)));
    }
    let on = same(val, "on") || same(val, "true") || same(val, "1");
    if same(key, "app_id") || same(key, "class") || same(key, "instance") {
        rule.app_id = Some((exact, val.to_owned()));
    } else if same(key, "title") {
        rule.title = Some((exact, val.to_owned()));
    } else if same(key, "tag") {
        rule.tag = parse_tag(val);
    } else if same(key, "floating") {
        rule.floating = Some(on);
    } else if same(key, "pseudotile") {
        rule.pseudotile = Some(on);
    }
}

/// `rule [app_id=foo|app_id~re] [title~re] [tag=N] [floating=on]
/// [pseudotile=on]`: adds a rule. `class` and `instance` are other names of
/// `app_id`. Other keys are accepted, and say nothing.
pub fn cmd_rule(state: &mut State, rest: &[String]) -> (r: String)
    ensures
        (final(state)@, r@) == rule(old(state)@, rest.deep_view()),
{
    let ghost m = state@;
    let ghost toks = rest.deep_view();
    let mut rule = Rule {
        app_id: None,
        title: None,
        tag: None,
        floating: None,
        pseudotile: None,
    };
    let mut i: usize = 0;
    while i < rest.len()
        invariant
            i <= rest@.len(),
            toks == rest.deep_view(),
            rule@ == rule_of(toks.take(i as int)),
        decreases rest@.len() - i,
    {
        assert(toks.take(i + 1).drop_last() =~= toks.take(i as int));
        assert(toks.take(i + 1).last() == rest@[i as int]@);
        extend(&mut rule, rest[i].as_str());
        i += 1;
    }
    assert(toks.take(toks.len() as int) =~= toks);
    state.rules.push(rule);
    assert(state@ =~= Model { rules: m.rules.push(rule_of(toks)), ..m });
    state.request_manage();
    ok()
}

/// `unrule`: drops all rules.
pub fn cmd_unrule(state: &mut State) -> (r: String)
    ensures
        (final(state)@, r@) == unrule(old(state)@),
{
    let ghost m = state@;
    state.rules.clear();
    assert(state@ =~= Model { rules: Seq::empty(), ..m });
    state.request_manage();
    ok()
}

/// `set_tag_monitor <tag> <monitor>`: gives a tag a home monitor.
pub fn cmd_set_tag_monitor(state: &mut State, rest: &[String]) -> (r: String)
    ensures
        (final(state)@, r@) == set_tag_monitor(old(state)@, rest.deep_view()),
{
    let ghost m = state@;
    if rest.len() < 2 {
        return err("set_tag_monitor: expected <tag> <monitor>");
    }
    match parse_tag(rest[0].as_str()) {
        None => err_quote("set_tag_monitor: bad tag", rest[0].as_str()),
        Some(tag) => {
            let sel = MonitorSel::parse(rest[1].as_str());
            state.tag_monitor.insert(tag, sel);
            assert(state@ =~= Model { tag_monitor: m.tag_monitor.insert(tag, sel@), ..m });
            state.request_manage();
            ok()
        },
    }
}

/// Whether a text holds a character.
pub open spec fn holds(s: Seq<char>, c: char) -> bool {
    !split::unbroken(s, split::either(c, c))
}

/// A token is read as it was put together. The key of a pattern may not
/// hold a `~`. The key of an exact value may hold neither a `~` nor a `=`,
/// and the value may not hold a `~`.
pub proof fn tokens_read_back(key: Seq<char>, val: Seq<char>)
    ensures
        !holds(key, '~') ==> parts(key + seq!['~'] + val) == Some((key, false, val)),
        !holds(key, '~') && !holds(key, '=') && !holds(val, '~') ==> parts(key + seq!['='] + val)
            == Some((key, true, val)),
{
    let k = key.len() as int;
    if !holds(key, '~') {
        let tok = key + seq!['~'] + val;
        assert(tok.take(k) =~= key);
        assert(tok.skip(k + 1) =~= val);
        split::lemma_cut_is(tok, split::either('~', '~'), k);
    }
    if !holds(key, '~') && !holds(key, '=') && !holds(val, '~') {
        let tok = key + seq!['='] + val;
        assert(tok.take(k) =~= key);
        assert(tok.skip(k + 1) =~= val);
        split::lemma_cut_is(tok, split::either('=', '='), k);
        let n = tok.len() as int;
        assert forall|i: int| 0 <= i < n implies !split::either('~', '~')(
            #[trigger] tok.take(n)[i],
        ) by {
            if i < k {
                assert(tok[i] == key[i]);
            } else if i > k {
                assert(tok[i] == val[i - k - 1]);
            }
        }
        split::lemma_cut_is(tok, split::either('~', '~'), n);
    }
}

/// Whether a token says nothing: it has no `~` or `=`, or an unknown key.
pub open spec fn says_nothing(tok: Seq<char>) -> bool {
    parts(tok) matches Some((key, _, _)) ==> key != "app_id"@ && key != "class"@ && key
        != "instance"@ && key != "title"@ && key != "tag"@ && key != "floating"@ && key
        != "pseudotile"@
}

/// A token that says nothing can be left out, wherever it stands.
pub proof fn unknown_keys_say_nothing(toks: Seq<Seq<char>>, i: int)
    requires
        0 <= i < toks.len(),
        says_nothing(toks[i]),
    ensures
        rule_of(toks.remove(i)) == rule_of(toks),
    decreases toks.len(),
{
    if i == toks.len() - 1 {
        assert(toks.remove(i) =~= toks.drop_last());
    } else {
        unknown_keys_say_nothing(toks.drop_last(), i);
        assert(toks.remove(i).drop_last() =~= toks.drop_last().remove(i));
        assert(toks.remove(i).last() == toks.last());
    }
}

/// All tokens that say nothing can be left out at once.
pub proof fn only_known_keys_matter(toks: Seq<Seq<char>>)
    ensures
        rule_of(toks.filter(|tok: Seq<char>| !says_nothing(tok))) == rule_of(toks),
    decreases toks.len(),
{
    reveal(Seq::filter);
    let speaks = |tok: Seq<char>| !says_nothing(tok);
    if toks.len() > 0 {
        only_known_keys_matter(toks.drop_last());
        let before = toks.drop_last().filter(speaks);
        if speaks(toks.last()) {
            assert(toks.filter(speaks) == before.push(toks.last()));
            assert(before.push(toks.last()).drop_last() =~= before);
        }
    }
}

/// `class` and `instance` are other names of `app_id`.
pub proof fn app_id_has_other_names(rule: RuleView, val: Seq<char>)
    ensures
        extended(rule, "class"@ + seq!['~'] + val) == extended(rule, "app_id"@ + seq!['~'] + val),
        extended(rule, "instance"@ + seq!['~'] + val) == extended(
            rule,
            "app_id"@ + seq!['~'] + val,
        ),
        !holds(val, '~') ==> extended(rule, "class"@ + seq!['='] + val) == extended(
            rule,
            "app_id"@ + seq!['='] + val,
        ),
        !holds(val, '~') ==> extended(rule, "instance"@ + seq!['='] + val) == extended(
            rule,
            "app_id"@ + seq!['='] + val,
        ),
{
    reveal_strlit("class");
    reveal_strlit("instance");
    reveal_strlit("app_id");
    tokens_read_back("class"@, val);
    tokens_read_back("instance"@, val);
    tokens_read_back("app_id"@, val);
}

/// A token is read in one way: at its first `~`, or else at its first `=`.
/// One with neither is not read.
pub proof fn tokens_are_parted_once(tok: Seq<char>)
    ensures
        match parts(tok) {
            Some((key, exact, val)) => if exact {
                tok == key + seq!['='] + val && !holds(tok, '~') && !holds(key, '=')
            } else {
                tok == key + seq!['~'] + val && !holds(key, '~')
            },
            None => !holds(tok, '~') && !holds(tok, '='),
        },
{
    let tilde = split::either('~', '~');
    let equal = split::either('=', '=');
    split::lemma_cut(tok, tilde);
    split::lemma_cut(tok, equal);
    let i = split::cut(tok, tilde);
    let j = split::cut(tok, equal);
    assert(tok.take(tok.len() as int) =~= tok);
    if i < tok.len() {
        assert(tok =~= tok.take(i) + seq!['~'] + tok.skip(i + 1));
    } else if j < tok.len() {
        assert(tok =~= tok.take(j) + seq!['='] + tok.skip(j + 1));
    }
}

/// Whether a token is a key and a value, with a `~` between them or, when the
/// value is exact, a `=`.
pub open spec fn is_token(tok: Seq<char>, key: Seq<char>, exact: bool, val: Seq<char>) -> bool {
    if exact {
        tok == key + seq!['='] + val && !holds(val, '~')
    } else {
        tok == key + seq!['~'] + val
    }
}

/// The keys differ, and none of them can be parted.
proof fn lemma_keys()
    ensures
        forall|key: Seq<char>| #[trigger]
            is_key(key) ==> !holds(key, '~') && !holds(key, '='),
        "title"@ != "app_id"@ && "title"@ != "class"@ && "title"@ != "instance"@,
        "tag"@ != "app_id"@ && "tag"@ != "class"@ && "tag"@ != "instance"@ && "tag"@ != "title"@,
        "floating"@ != "app_id"@ && "floating"@ != "class"@ && "floating"@ != "instance"@
            && "floating"@ != "title"@ && "floating"@ != "tag"@,
        "pseudotile"@ != "app_id"@ && "pseudotile"@ != "class"@ && "pseudotile"@ != "instance"@
            && "pseudotile"@ != "title"@ && "pseudotile"@ != "tag"@ && "pseudotile"@ != "floating"@,
{
    reveal_strlit("app_id");
    reveal_strlit("class");
    reveal_strlit("instance");
    reveal_strlit("title");
    reveal_strlit("tag");
    reveal_strlit("floating");
    reveal_strlit("pseudotile");
    assert("app_id"@.len() == 6);
    assert("class"@.len() == 5);
    assert("instance"@.len() == 8);
    assert("title"@.len() == 5);
    assert("tag"@.len() == 3);
    assert("floating"@.len() == 8);
    assert("pseudotile"@.len() == 10);
    assert("title"@[0] != "class"@[0]);
    assert("floating"@[0] != "instance"@[0]);
}

/// Whether a word is a key of a rule.
pub open spec fn is_key(key: Seq<char>) -> bool {
    ||| key == "app_id"@
    ||| key == "class"@
    ||| key == "instance"@
    ||| key == "title"@
    ||| key == "tag"@
    ||| key == "floating"@
    ||| key == "pseudotile"@
}

/// What a token does to a rule: it sets the field of its key to its value,
/// and leaves the other fields alone. A `~` makes a pattern that is not
/// exact, a `=` an exact one.
pub proof fn tokens_set_their_field(
    rule: RuleView,
    tok: Seq<char>,
    key: Seq<char>,
    exact: bool,
    val: Seq<char>,
)
    requires
        is_token(tok, key, exact, val),
        is_key(key),
    ensures
        key == "app_id"@ || key == "class"@ || key == "instance"@ ==> extended(rule, tok) == (
        RuleView { app_id: Some((exact, val)), ..rule }),
        key == "title"@ ==> extended(rule, tok) == (RuleView {
            title: Some((exact, val)),
            ..rule
        }),
        key == "tag"@ ==> extended(rule, tok) == (RuleView { tag: args::tag_of(val), ..rule }),
        key == "floating"@ && (val == "on"@ || val == "true"@ || val == "1"@) ==> extended(
            rule,
            tok,
        ) == (RuleView { floating: Some(true), ..rule }),
        key == "floating"@ && val != "on"@ && val != "true"@ && val != "1"@ ==> extended(rule, tok)
            == (RuleView { floating: Some(false), ..rule }),
        key == "pseudotile"@ && (val == "on"@ || val == "true"@ || val == "1"@) ==> extended(
            rule,
            tok,
        ) == (RuleView { pseudotile: Some(true), ..rule }),
        key == "pseudotile"@ && val != "on"@ && val != "true"@ && val != "1"@ ==> extended(
            rule,
            tok,
        ) == (RuleView { pseudotile: Some(false), ..rule }),
{
    lemma_keys();
    tokens_read_back(key, val);
}

/// A rule is made token by token, from one that says nothing.
pub proof fn rules_grow_by_tokens(toks: Seq<Seq<char>>, tok: Seq<char>)
    ensures
        rule_of(Seq::empty()) == (RuleView {
            app_id: None,
            title: None,
            tag: None,
            floating: None,
            pseudotile: None,
        }),
        rule_of(toks.push(tok)) == extended(rule_of(toks), tok),
{
    assert(toks.push(tok).drop_last() =~= toks);
}

} // verus!
