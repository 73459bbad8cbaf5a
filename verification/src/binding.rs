//! Key and button bindings: modifiers and a key or a button, with `+` or `-`
//! between them, as in `Mod4-Shift-q`. The last piece is the key or the
//! button.

use crate::reply;
use crate::reply::quote;
use crate::split;
use crate::text::{chars_of, same};
use vstd::prelude::*;
use vstd::string::*;

verus! {

/// The ASCII lower case of a character; any other character is itself.
pub open spec fn lower(c: char) -> char {
    if 'A' <= c && c <= 'Z' {
        (c as nat + 32) as char
    } else {
        c
    }
}

/// The ASCII lower case of a text.
pub open spec fn lowered(s: Seq<char>) -> Seq<char> {
    s.map_values(|c: char| lower(c))
}

/// `str::to_ascii_lowercase` maps `A` to `Z` to `a` to `z` and keeps every
/// other character.
pub assume_specification[ str::to_ascii_lowercase ](s: &str) -> (r: String)
    ensures
        r@ == lowered(s@),
;

/// A result with its error text as characters.
pub open spec fn result_view<T>(r: Result<T, String>) -> Result<T, Seq<char>> {
    match r {
        Ok(v) => Ok(v),
        Err(e) => Err(e@),
    }
}

/// The separators of a binding.
pub open spec fn is_joint() -> spec_fn(char) -> bool {
    split::either('+', '-')
}

/// The bit of a modifier, in the values of `river_seat_v1.modifiers`.
pub open spec fn modifier_bit(word: Seq<char>) -> Option<u32> {
    let w = lowered(word);
    if w == "mod4"@ || w == "super"@ || w == "logo"@ || w == "win"@ || w == "mod"@ {
        Some(64)
    } else if w == "mod1"@ || w == "alt"@ {
        Some(8)
    } else if w == "control"@ || w == "ctrl"@ {
        Some(4)
    } else if w == "shift"@ {
        Some(1)
    } else if w == "mod3"@ {
        Some(32)
    } else if w == "mod5"@ {
        Some(128)
    } else {
        None
    }
}

/// The bits of several modifiers together, or a complaint about the first
/// one that is unknown.
pub open spec fn modifiers(toks: Seq<Seq<char>>) -> Result<u32, Seq<char>>
    decreases toks.len(),
{
    if toks.len() == 0 {
        Ok(0)
    } else {
        match modifiers(toks.drop_last()) {
            Err(e) => Err(e),
            Ok(mods) => match modifier_bit(toks.last()) {
                Some(bit) => Ok(mods | bit),
                None => Err(reply::quoted("unknown modifier"@, lowered(toks.last()))),
            },
        }
    }
}

/// The Linux code of a mouse button.
pub open spec fn button_code(word: Seq<char>) -> Option<u32> {
    if word == "Button1"@ {
        Some(0x110)
    } else if word == "Button2"@ {
        Some(0x112)
    } else if word == "Button3"@ {
        Some(0x111)
    } else if word == "Button4"@ {
        Some(0x113)
    } else if word == "Button5"@ {
        Some(0x114)
    } else {
        None
    }
}

/// The modifier bits of a binding and the name of its key.
pub open spec fn binding_parts(spec: Seq<char>) -> Result<(u32, Seq<char>), Seq<char>> {
    let parts = split::pieces(spec, is_joint());
    if parts.len() == 0 {
        Err(reply::quoted("empty binding"@, spec))
    } else {
        match modifiers(parts.drop_last()) {
            Err(e) => Err(e),
            Ok(mods) => Ok((mods, parts.last())),
        }
    }
}

/// A key that was looked up: the keysym 0 means that there is no such key.
pub open spec fn known_key(mods: u32, key: Seq<char>, keysym: u32) -> Result<
    (u32, u32),
    Seq<char>,
> {
    if keysym == 0 {
        Err(reply::quoted("unknown key"@, key))
    } else {
        Ok((mods, keysym))
    }
}

/// The modifier bits and the keysym of a binding whose key has `keysym`.
pub open spec fn binding(spec: Seq<char>, keysym: u32) -> Result<(u32, u32), Seq<char>> {
    match binding_parts(spec) {
        Err(e) => Err(e),
        Ok((mods, key)) => known_key(mods, key, keysym),
    }
}

/// The modifier bits and the keysym of a binding, when keysyms are those
/// that `lookup` has for names.
pub open spec fn resolved(spec: Seq<char>, lookup: spec_fn(Seq<char>) -> u32) -> Result<
    (u32, u32),
    Seq<char>,
> {
    match binding_parts(spec) {
        Err(e) => Err(e),
        Ok((mods, key)) => known_key(mods, key, lookup(key)),
    }
}

/// The modifier bits and the button code of a button binding.
pub open spec fn mousebutton(spec: Seq<char>) -> Result<(u32, u32), Seq<char>> {
    let parts = split::pieces(spec, is_joint());
    if parts.len() == 0 {
        Err(reply::quoted("empty mousebind"@, spec))
    } else {
        match modifiers(parts.drop_last()) {
            Err(e) => Err(e),
            Ok(mods) => match button_code(parts.last()) {
                Some(button) => Ok((mods, button)),
                None => Err(reply::quoted("unknown button"@, parts.last())),
            },
        }
    }
}

/// The words of a list.
pub open spec fn words(toks: Seq<&str>) -> Seq<Seq<char>> {
    Seq::new(toks.len(), |i: int| toks[i]@)
}

/// Splits a binding at its separators.
fn split_spec(s: &str) -> (parts: Vec<&str>)
    ensures
        words(parts@) == split::pieces(s@, is_joint()),
{
    let chars = chars_of(s);
    let ghost t = s@;
    let mut parts: Vec<&str> = Vec::new();
    let mut start: usize = 0;
    let mut i: usize = 0;
    assert(t.skip(0) =~= t);
    assert(words(parts@) + split::pieces(t, is_joint()) =~= split::pieces(t, is_joint()));
    while i < chars.len()
        invariant
            t == s@,
            chars@ == t,
            start <= i <= t.len(),
            split::unbroken(t.subrange(start as int, i as int), is_joint()),
            split::pieces(t, is_joint()) == words(parts@) + split::pieces(
                t.skip(start as int),
                is_joint(),
            ),
        decreases t.len() - i,
    {
        let c = chars[i];
        if c == '+' || c == '-' {
            proof {
                split::lemma_pieces_step(t, is_joint(), start as int, i as int);
            }
            let ghost before = words(parts@);
            if start < i {
                parts.push(s.substring_char(start, i));
                assert(words(parts@) =~= before.push(t.subrange(start as int, i as int)));
            }
            assert(split::pieces(t, is_joint()) =~= words(parts@) + split::pieces(
                t.skip(i + 1),
                is_joint(),
            ));
            start = i + 1;
        } else {
            assert(t.subrange(start as int, i + 1) =~= t.subrange(start as int, i as int).push(c));
        }
        i += 1;
    }
    proof {
        split::lemma_pieces_step(t, is_joint(), start as int, i as int);
    }
    let ghost before = words(parts@);
    if start < i {
        parts.push(s.substring_char(start, i));
        assert(words(parts@) =~= before.push(t.subrange(start as int, i as int)));
    }
    assert(words(parts@) =~= split::pieces(t, is_joint()));
    parts
}

/// The bit of one modifier, given in lower case.
fn bit_of(w: &str) -> (r: Option<u32>)
    ensures
        forall|word: Seq<char>| lowered(word) == w@ ==> r == #[trigger] modifier_bit(word),
{
    if same(w, "mod4") || same(w, "super") || same(w, "logo") || same(w, "win") || same(w, "mod") {
        Some(64)
    } else if same(w, "mod1") || same(w, "alt") {
        Some(8)
    } else if same(w, "control") || same(w, "ctrl") {
        Some(4)
    } else if same(w, "shift") {
        Some(1)
    } else if same(w, "mod3") {
        Some(32)
    } else if same(w, "mod5") {
        Some(128)
    } else {
        None
    }
}

/// An unknown modifier makes the whole list a complaint about the first one.
proof fn lemma_modifiers_stop(toks: Seq<Seq<char>>, k: int)
    requires
        0 <= k <= toks.len(),
        modifiers(toks.take(k)) is Err,
    ensures
        modifiers(toks) == modifiers(toks.take(k)),
    decreases toks.len(),
{
    if k == toks.len() {
        assert(toks.take(k) =~= toks);
    } else {
        assert(toks.drop_last().take(k) =~= toks.take(k));
        lemma_modifiers_stop(toks.drop_last(), k);
    }
}

/// Reads a list of modifiers.
pub fn parse_mods(toks: &[&str]) -> (r: Result<u32, String>)
    ensures
        result_view(r) == modifiers(words(toks@)),
{
    let ghost all = words(toks@);
    let mut mods: u32 = 0;
    let mut i: usize = 0;
    while i < toks.len()
        invariant
            all == words(toks@),
            i <= toks@.len(),
            modifiers(all.take(i as int)) == Ok::<u32, Seq<char>>(mods),
        decreases toks@.len() - i,
    {
        let w = toks[i].to_ascii_lowercase();
        proof {
            assert(all.take(i + 1).drop_last() =~= all.take(i as int));
            assert(all.take(i + 1).last() == toks@[i as int]@);
        }
        match bit_of(w.as_str()) {
            Some(bit) => {
                mods = mods | bit;
            },
            None => {
                proof {
                    lemma_modifiers_stop(all, i + 1);
                }
                return Err(quote("unknown modifier", w.as_str()));
            },
        }
        i += 1;
    }
    assert(all.take(all.len() as int) =~= all);
    Ok(mods)
}

/// Reads a binding up to its key: the modifier bits, and the name that is
/// then looked up.
pub fn split_binding(spec: &str) -> (r: Result<(u32, String), String>)
    ensures
        match r {
            Ok((mods, key)) => binding_parts(spec@) == Ok::<(u32, Seq<char>), Seq<char>>(
                (mods, key@),
            ),
            Err(e) => binding_parts(spec@) == Err::<(u32, Seq<char>), Seq<char>>(e@),
        },
{
    let parts = split_spec(spec);
    let n = parts.len();
    assert(words(parts@).len() == n);
    if n == 0 {
        return Err(quote("empty binding", spec));
    }
    let toks = vstd::slice::slice_subrange(parts.as_slice(), 0, n - 1);
    assert(words(toks@) =~= words(parts@).drop_last());
    match parse_mods(toks) {
        Ok(mods) => Ok((mods, parts[n - 1].to_owned())),
        Err(e) => Err(e),
    }
}

/// Judges a key that was looked up.
pub fn check_key(mods: u32, key: &str, keysym: u32) -> (r: Result<(u32, u32), String>)
    ensures
        result_view(r) == known_key(mods, key@, keysym),
{
    if keysym == 0 {
        Err(quote("unknown key", key))
    } else {
        Ok((mods, keysym))
    }
}

/// Reads a binding into modifier bits and keysym. `keysym` is what the
/// lookup of the key's name gave.
pub fn parse_binding(spec: &str, keysym: u32) -> (r: Result<(u32, u32), String>)
    ensures
        result_view(r) == binding(spec@, keysym),
{
    match split_binding(spec) {
        Ok((mods, key)) => check_key(mods, key.as_str(), keysym),
        Err(e) => Err(e),
    }
}

/// Reads a button binding into modifier bits and button code.
pub fn parse_mousebutton(spec: &str) -> (r: Result<(u32, u32), String>)
    ensures
        result_view(r) == mousebutton(spec@),
{
    let parts = split_spec(spec);
    let n = parts.len();
    assert(words(parts@).len() == n);
    if n == 0 {
        return Err(quote("empty mousebind", spec));
    }
    let toks = vstd::slice::slice_subrange(parts.as_slice(), 0, n - 1);
    assert(words(toks@) =~= words(parts@).drop_last());
    match parse_mods(toks) {
        Ok(mods) => {
            let btn = parts[n - 1];
            assert(btn@ == words(parts@).last());
            if same(btn, "Button1") {
                Ok((mods, 0x110))
            } else if same(btn, "Button2") {
                Ok((mods, 0x112))
            } else if same(btn, "Button3") {
                Ok((mods, 0x111))
            } else if same(btn, "Button4") {
                Ok((mods, 0x113))
            } else if same(btn, "Button5") {
                Ok((mods, 0x114))
            } else {
                Err(quote("unknown button", btn))
            }
        },
        Err(e) => Err(e),
    }
}

/// Whether two texts differ at most in which separators they have.
pub open spec fn differ_in_joints(a: Seq<char>, b: Seq<char>) -> bool {
    &&& a.len() == b.len()
    &&& forall|i: int|
        #![trigger a[i]]
        #![trigger b[i]]
        0 <= i < a.len() ==> a[i] == b[i] || (is_joint()(a[i]) && is_joint()(b[i]))
}

/// `+` and `-` mean the same between the pieces of a binding.
pub proof fn joints_are_interchangeable(a: Seq<char>, b: Seq<char>)
    requires
        differ_in_joints(a, b),
    ensures
        split::pieces(a, is_joint()) == split::pieces(b, is_joint()),
        split::pieces(a, is_joint()).len() > 0 ==> binding_parts(a) == binding_parts(b),
        split::pieces(a, is_joint()).len() > 0 ==> mousebutton(a) == mousebutton(b),
    decreases a.len(),
{
    let sep = is_joint();
    if a.len() > 0 {
        let k = split::cut(a, sep);
        split::lemma_cut(a, sep);
        assert forall|i: int| 0 <= i < k implies a[i] == #[trigger] b[i] by {
            assert(a.take(k)[i] == a[i]);
        }
        assert(b.take(k) =~= a.take(k));
        split::lemma_cut_is(b, sep, k);
        if k < a.len() {
            joints_are_interchangeable(a.skip(k + 1), b.skip(k + 1));
        }
    } else {
        assert(a =~= b);
    }
}

/// Separators do not add up: a doubled one counts as one, and none counts
/// before the first or after the last piece.
pub proof fn joints_do_not_add_up(a: Seq<char>, mark: char, other: char, b: Seq<char>)
    requires
        is_joint()(mark),
        is_joint()(other),
        split::pieces(a.push(mark) + b, is_joint()).len() > 0,
    ensures
        binding_parts(a.push(mark).push(other) + b) == binding_parts(a.push(mark) + b),
        mousebutton(a.push(mark).push(other) + b) == mousebutton(a.push(mark) + b),
        split::pieces(b, is_joint()).len() > 0 ==> binding_parts(seq![mark] + b) == binding_parts(b)
            && mousebutton(seq![mark] + b) == mousebutton(b),
        split::pieces(a, is_joint()).len() > 0 ==> binding_parts(a.push(mark)) == binding_parts(a)
            && mousebutton(a.push(mark)) == mousebutton(a),
{
    split::separators_do_not_add_up(a, mark, other, b, is_joint());
}

/// The name of a key that is looked up is not empty, and holds no NUL when
/// the binding holds none.
pub proof fn key_names_are_words(spec: Seq<char>)
    requires
        !spec.contains('\0'),
    ensures
        binding_parts(spec) matches Ok((_, key)) ==> key.len() > 0 && !key.contains('\0'),
{
    let parts = split::pieces(spec, is_joint());
    split::pieces_are_unbroken(spec, is_joint());
    if parts.len() > 0 && parts.last().contains('\0') {
        split::pieces_add_nothing(spec, is_joint(), parts.len() - 1, '\0');
    }
}

/// Whether a number is the bit of a modifier.
pub open spec fn is_modifier(bit: u32) -> bool {
    bit == 1 || bit == 4 || bit == 8 || bit == 32 || bit == 64 || bit == 128
}

/// Whether one of several words names the modifier `bit`.
pub open spec fn names(toks: Seq<Seq<char>>, bit: u32) -> bool {
    exists|i: int| 0 <= i < toks.len() && modifier_bit(#[trigger] toks[i]) == Some(bit)
}

/// The bits of several modifiers are those that one of them names, and no
/// others. All of them have to be known.
pub proof fn modifiers_are_those_named(toks: Seq<Seq<char>>)
    ensures
        modifiers(toks) is Ok <==> forall|i: int|
            0 <= i < toks.len() ==> modifier_bit(#[trigger] toks[i]) is Some,
        modifiers(toks) matches Ok(mods) ==> mods & !0xedu32 == 0 && forall|bit: u32|
            is_modifier(bit) ==> (mods & bit != 0 <==> #[trigger] names(toks, bit)),
    decreases toks.len(),
{
    if toks.len() == 0 {
        assert(0u32 & !0xedu32 == 0) by (bit_vector);
        assert forall|bit: u32| is_modifier(bit) implies (0u32 & bit != 0 <==> #[trigger] names(
            toks,
            bit,
        )) by {
            assert(0u32 & bit == 0) by (bit_vector);
        }
    } else {
        let before = toks.drop_last();
        let last = toks.last();
        modifiers_are_those_named(before);
        if modifiers(toks) is Ok {
            assert forall|i: int| 0 <= i < toks.len() implies modifier_bit(
                #[trigger] toks[i],
            ) is Some by {
                if i < before.len() {
                    assert(toks[i] == before[i]);
                }
            }
            let mods = modifiers(before)->Ok_0;
            let new = modifier_bit(last)->0;
            assert((mods | new) & !0xedu32 == 0) by (bit_vector)
                requires
                    mods & !0xedu32 == 0,
                    new == 1 || new == 4 || new == 8 || new == 32 || new == 64 || new == 128,
            ;
            assert forall|bit: u32| is_modifier(bit) implies ((mods | new) & bit != 0
                <==> #[trigger] names(toks, bit)) by {
                assert((mods | new) & bit != 0 <==> mods & bit != 0 || new == bit) by (bit_vector)
                    requires
                        new == 1 || new == 4 || new == 8 || new == 32 || new == 64 || new == 128,
                        bit == 1 || bit == 4 || bit == 8 || bit == 32 || bit == 64 || bit == 128,
                ;
                if names(before, bit) {
                    let i = choose|i: int|
                        0 <= i < before.len() && modifier_bit(#[trigger] before[i]) == Some(bit);
                    assert(toks[i] == before[i]);
                }
                if new == bit {
                    assert(modifier_bit(toks[toks.len() - 1]) == Some(bit));
                }
                if names(toks, bit) && new != bit {
                    let i = choose|i: int|
                        0 <= i < toks.len() && modifier_bit(#[trigger] toks[i]) == Some(bit);
                    assert(toks[i] == before[i]);
                }
            }
        } else {
            if modifiers(before) is Err {
                let i = choose|i: int|
                    0 <= i < before.len() && modifier_bit(#[trigger] before[i]) is None;
                assert(toks[i] == before[i]);
            } else {
                assert(modifier_bit(toks[toks.len() - 1]) is None);
            }
        }
    }
}

/// Neither the order of modifiers nor their repetition matters.
pub proof fn modifiers_have_no_order(a: Seq<Seq<char>>, b: Seq<Seq<char>>)
    requires
        forall|word: Seq<char>| #[trigger] a.contains(word) <==> b.contains(word),
    ensures
        modifiers(a) is Ok <==> modifiers(b) is Ok,
        modifiers(a) is Ok ==> modifiers(a) == modifiers(b),
{
    modifiers_are_those_named(a);
    modifiers_are_those_named(b);
    lemma_same_names(a, b);
    lemma_same_names(b, a);
    if modifiers(a) is Ok {
        let x = modifiers(a)->Ok_0;
        let y = modifiers(b)->Ok_0;
        assert(names(a, 1) == names(b, 1));
        assert(names(a, 4) == names(b, 4));
        assert(names(a, 8) == names(b, 8));
        assert(names(a, 32) == names(b, 32));
        assert(names(a, 64) == names(b, 64));
        assert(names(a, 128) == names(b, 128));
        assert(x == y) by (bit_vector)
            requires
                x & !0xedu32 == 0,
                y & !0xedu32 == 0,
                x & 1 != 0 <==> y & 1 != 0,
                x & 4 != 0 <==> y & 4 != 0,
                x & 8 != 0 <==> y & 8 != 0,
                x & 32 != 0 <==> y & 32 != 0,
                x & 64 != 0 <==> y & 64 != 0,
                x & 128 != 0 <==> y & 128 != 0,
        ;
    }
}

/// Words that are all found in another list are named and known there, too.
proof fn lemma_same_names(a: Seq<Seq<char>>, b: Seq<Seq<char>>)
    requires
        forall|word: Seq<char>| #[trigger] a.contains(word) ==> b.contains(word),
    ensures
        forall|bit: u32| #[trigger] names(a, bit) ==> names(b, bit),
        (forall|i: int| 0 <= i < b.len() ==> modifier_bit(#[trigger] b[i]) is Some)
            ==> forall|i: int| 0 <= i < a.len() ==> modifier_bit(#[trigger] a[i]) is Some,
{
    assert forall|bit: u32| #[trigger] names(a, bit) implies names(b, bit) by {
        let i = choose|i: int| 0 <= i < a.len() && modifier_bit(#[trigger] a[i]) == Some(bit);
        assert(a.contains(a[i]));
        let j = b.index_of(a[i]);
        assert(modifier_bit(b[j]) == Some(bit));
    }
    if forall|i: int| 0 <= i < b.len() ==> modifier_bit(#[trigger] b[i]) is Some {
        assert forall|i: int| 0 <= i < a.len() implies modifier_bit(#[trigger] a[i]) is Some by {
            assert(a.contains(a[i]));
            let j = b.index_of(a[i]);
            assert(modifier_bit(b[j]) is Some);
        }
    }
}

/// The case of a modifier does not matter.
pub proof fn modifiers_ignore_case(word: Seq<char>)
    ensures
        modifier_bit(lowered(word)) == modifier_bit(word),
{
    assert forall|c: char| lower(#[trigger] lower(c)) == lower(c) by {
        if 'A' <= c && c <= 'Z' {
            assert('a' <= lower(c) && lower(c) <= 'z');
        }
    }
    assert(lowered(lowered(word)) =~= lowered(word));
}

/// Lower case is that of the letters `A` to `Z`, one by one, and no other
/// character changes.
pub proof fn letters_are_lowered(s: Seq<char>, i: int, c: char)
    ensures
        lowered(s).len() == s.len(),
        0 <= i < s.len() ==> lowered(s)[i] == lower(s[i]),
        0 <= i < 26 ==> lower("ABCDEFGHIJKLMNOPQRSTUVWXYZ"@[i]) == "abcdefghijklmnopqrstuvwxyz"@[i],
        !"ABCDEFGHIJKLMNOPQRSTUVWXYZ"@.contains(c) ==> lower(c) == c,
{
    reveal_strlit("ABCDEFGHIJKLMNOPQRSTUVWXYZ");
    reveal_strlit("abcdefghijklmnopqrstuvwxyz");
    if 'A' <= c && c <= 'Z' {
        assert("ABCDEFGHIJKLMNOPQRSTUVWXYZ"@[c as int - 'A' as int] == c);
    }
}

/// The words of the modifiers, in any case, are these and no others.
pub proof fn modifiers_have_words(word: Seq<char>)
    ensures
        ({
            let w = lowered(word);
            let bit = modifier_bit(word);
            &&& bit == Some(64u32) <==> (w == "mod4"@ || w == "super"@ || w == "logo"@ || w
                == "win"@ || w == "mod"@)
            &&& bit == Some(8u32) <==> (w == "mod1"@ || w == "alt"@)
            &&& bit == Some(4u32) <==> (w == "control"@ || w == "ctrl"@)
            &&& bit == Some(1u32) <==> w == "shift"@
            &&& bit == Some(32u32) <==> w == "mod3"@
            &&& bit == Some(128u32) <==> w == "mod5"@
            &&& bit matches Some(b) ==> is_modifier(b)
        }),
{
    reveal_strlit("mod4");
    reveal_strlit("super");
    reveal_strlit("logo");
    reveal_strlit("win");
    reveal_strlit("mod");
    reveal_strlit("mod1");
    reveal_strlit("alt");
    reveal_strlit("control");
    reveal_strlit("ctrl");
    reveal_strlit("shift");
    reveal_strlit("mod3");
    reveal_strlit("mod5");
    assert("mod4"@.len() == 4);
    assert("super"@.len() == 5);
    assert("logo"@.len() == 4);
    assert("win"@.len() == 3);
    assert("mod"@.len() == 3);
    assert("mod1"@.len() == 4);
    assert("alt"@.len() == 3);
    assert("control"@.len() == 7);
    assert("ctrl"@.len() == 4);
    assert("shift"@.len() == 5);
    assert("mod3"@.len() == 4);
    assert("mod5"@.len() == 4);
    assert("shift"@[0] == 's' && "super"@[1] != "shift"@[1]);
    assert("mod4"@[3] != "mod1"@[3] && "mod4"@[3] != "mod3"@[3] && "mod4"@[3] != "mod5"@[3]);
    assert("mod1"@[3] != "mod3"@[3] && "mod1"@[3] != "mod5"@[3] && "mod3"@[3] != "mod5"@[3]);
    assert("logo"@[0] != "mod1"@[0] && "logo"@[0] != "ctrl"@[0] && "ctrl"@[0] != "mod1"@[0]);
    assert("logo"@[3] != "mod3"@[3] && "logo"@[3] != "mod5"@[3] && "ctrl"@[3] != "mod3"@[3]);
    assert("ctrl"@[0] != "mod4"@[0] && "ctrl"@[3] != "mod5"@[3]);
    assert("alt"@[0] != "win"@[0] && "alt"@[0] != "mod"@[0]);
}

/// The words of the buttons are these and no others.
pub proof fn buttons_have_words(word: Seq<char>)
    ensures
        button_code(word) == Some(0x110u32) <==> word == "Button1"@,
        button_code(word) == Some(0x112u32) <==> word == "Button2"@,
        button_code(word) == Some(0x111u32) <==> word == "Button3"@,
        button_code(word) == Some(0x113u32) <==> word == "Button4"@,
        button_code(word) == Some(0x114u32) <==> word == "Button5"@,
        button_code(word) matches Some(code) ==> 0x110 <= code <= 0x114,
{
    reveal_strlit("Button1");
    reveal_strlit("Button2");
    reveal_strlit("Button3");
    reveal_strlit("Button4");
    reveal_strlit("Button5");
    assert("Button1"@[6] != "Button2"@[6] && "Button1"@[6] != "Button3"@[6]);
    assert("Button1"@[6] != "Button4"@[6] && "Button1"@[6] != "Button5"@[6]);
    assert("Button2"@[6] != "Button3"@[6] && "Button2"@[6] != "Button4"@[6]);
    assert("Button2"@[6] != "Button5"@[6] && "Button3"@[6] != "Button4"@[6]);
    assert("Button3"@[6] != "Button5"@[6] && "Button4"@[6] != "Button5"@[6]);
}

/// The first unknown modifier is the one that is complained about, in lower
/// case.
pub proof fn unknown_modifiers_are_named(toks: Seq<Seq<char>>, k: int)
    requires
        0 <= k < toks.len(),
        modifier_bit(toks[k]) is None,
        forall|i: int| 0 <= i < k ==> modifier_bit(#[trigger] toks[i]) is Some,
    ensures
        modifiers(toks) == Err::<u32, Seq<char>>(
            "unknown modifier '"@ + lowered(toks[k]) + "'"@,
        ),
{
    let before = toks.take(k);
    assert forall|i: int| 0 <= i < before.len() implies modifier_bit(
        #[trigger] before[i],
    ) is Some by {
        assert(before[i] == toks[i]);
    }
    modifiers_are_those_named(before);
    assert(toks.take(k + 1).drop_last() =~= before);
    assert(toks.take(k + 1).last() == toks[k]);
    lemma_modifiers_stop(toks, k + 1);
    reveal_strlit("unknown modifier");
    reveal_strlit(" '");
    reveal_strlit("unknown modifier '");
    assert("unknown modifier"@ + " '"@ =~= "unknown modifier '"@);
}

/// The separators are `+` and `-`.
pub proof fn joints_are_signs(c: char)
    ensures
        is_joint()(c) <==> c == '+' || c == '-',
{
}

/// A binding is its modifiers and then its key, which stand between
/// separators. Without any piece it is empty.
pub proof fn bindings_end_with_the_key(spec: Seq<char>, toks: Seq<Seq<char>>, key: Seq<char>)
    ensures
        split::pieces(spec, is_joint()) == toks.push(key) ==> match modifiers(toks) {
            Ok(mods) => binding_parts(spec) == Ok::<(u32, Seq<char>), Seq<char>>((mods, key)),
            Err(e) => binding_parts(spec) == Err::<(u32, Seq<char>), Seq<char>>(e),
        },
        split::pieces(spec, is_joint()).len() == 0 ==> binding_parts(spec) == Err::<
            (u32, Seq<char>),
            Seq<char>,
        >("empty binding '"@ + spec + "'"@),
{
    assert(toks.push(key).drop_last() =~= toks);
    reveal_strlit("empty binding");
    reveal_strlit(" '");
    reveal_strlit("empty binding '");
    assert("empty binding"@ + " '"@ =~= "empty binding '"@);
}

/// A button binding is its modifiers and then its button. Unknown modifiers
/// are complained about before an unknown button.
pub proof fn button_bindings_end_with_the_button(
    spec: Seq<char>,
    toks: Seq<Seq<char>>,
    button: Seq<char>,
)
    ensures
        split::pieces(spec, is_joint()) == toks.push(button) ==> match (
            modifiers(toks),
            button_code(button),
        ) {
            (Ok(mods), Some(code)) => mousebutton(spec) == Ok::<(u32, u32), Seq<char>>(
                (mods, code),
            ),
            (Ok(_), None) => mousebutton(spec) == Err::<(u32, u32), Seq<char>>(
                "unknown button '"@ + button + "'"@,
            ),
            (Err(e), _) => mousebutton(spec) == Err::<(u32, u32), Seq<char>>(e),
        },
        split::pieces(spec, is_joint()).len() == 0 ==> mousebutton(spec) == Err::<
            (u32, u32),
            Seq<char>,
        >("empty mousebind '"@ + spec + "'"@),
{
    assert(toks.push(button).drop_last() =~= toks);
    reveal_strlit("empty mousebind");
    reveal_strlit("unknown button");
    reveal_strlit(" '");
    reveal_strlit("empty mousebind '");
    reveal_strlit("unknown button '");
    assert("empty mousebind"@ + " '"@ =~= "empty mousebind '"@);
    assert("unknown button"@ + " '"@ =~= "unknown button '"@);
}

/// A key is unknown if and only if its keysym is 0, and a known one keeps its
/// modifiers and its keysym. So it is with a binding that names it.
pub proof fn unknown_keys_have_no_keysym(spec: Seq<char>, mods: u32, key: Seq<char>, keysym: u32)
    ensures
        keysym != 0 ==> known_key(mods, key, keysym) == Ok::<(u32, u32), Seq<char>>((mods, keysym)),
        known_key(mods, key, 0) == Err::<(u32, u32), Seq<char>>("unknown key '"@ + key + "'"@),
        binding_parts(spec) == Ok::<(u32, Seq<char>), Seq<char>>((mods, key)) ==> binding(
            spec,
            keysym,
        ) == known_key(mods, key, keysym),
        binding_parts(spec) matches Err(e) ==> binding(spec, keysym) == Err::<
            (u32, u32),
            Seq<char>,
        >(e),
{
    reveal_strlit("unknown key");
    reveal_strlit(" '");
    reveal_strlit("unknown key '");
    assert("unknown key"@ + " '"@ =~= "unknown key '"@);
}

} // verus!
