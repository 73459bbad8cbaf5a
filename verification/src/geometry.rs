//! Rectangles and edges.

use crate::args;
use crate::number;
use crate::number::{parse_i32, parse_unsigned, show_int, show_signed_int};
use crate::split;
use crate::split::index_of;
use crate::text::chars_of;
use vstd::prelude::*;
use vstd::string::*;

verus! {

/// A rectangle of the desktop: a size, and the position of its upper left
/// corner.
#[derive(Clone, Copy, Debug, PartialEq, Eq, Structural)]
pub struct Rect {
    pub w: i32,
    pub h: i32,
    pub x: i32,
    pub y: i32,
}

/// Distances from the four edges of a monitor.
#[derive(Clone, Copy, Debug, PartialEq, Eq, Structural)]
pub struct Insets {
    pub top: i32,
    pub right: i32,
    pub bottom: i32,
    pub left: i32,
}

/// Reads a width or a height: digits only.
pub open spec fn read_size(s: Seq<char>) -> Option<int> {
    if number::is_decimal(s) && number::value(s) <= i32::MAX {
        Some(number::value(s) as int)
    } else {
        None
    }
}

/// Reads `WxH+X+Y`: two sizes with an `x` between them, then two positions,
/// each with its sign.
pub open spec fn read_rect(s: Seq<char>) -> Option<Rect> {
    let i = split::cut(s, split::either('x', 'x'));
    let after_x = s.skip(i + 1);
    let j = split::cut(after_x, split::either('+', '-'));
    let position = after_x.skip(j);
    let k = 1 + split::cut(position.skip(1), split::either('+', '-'));
    if i < s.len() && j < after_x.len() && k < position.len() {
        match (
            read_size(s.take(i)),
            read_size(after_x.take(j)),
            number::read_signed(position.take(k), i32::MIN as int, i32::MAX as int),
            number::read_signed(position.skip(k), i32::MIN as int, i32::MAX as int),
        ) {
            (Some(w), Some(h), Some(x), Some(y)) => Some(
                Rect { w: w as i32, h: h as i32, x: x as i32, y: y as i32 },
            ),
            _ => None,
        }
    } else {
        None
    }
}

/// How a rectangle is printed: `WxH`, then the position with its signs.
pub open spec fn rect_text(r: Rect) -> Seq<char> {
    number::show(r.w as int) + "x"@ + number::show(r.h as int) + number::show_signed(r.x as int)
        + number::show_signed(r.y as int)
}

/// Reads a width or a height.
fn parse_size(s: &str) -> (r: Option<i32>)
    ensures
        r == match read_size(s@) {
            Some(n) => Some(n as i32),
            None => None,
        },
{
    let v = chars_of(s);
    if v.len() > 0 && v[0] == '+' {
        assert(!number::is_digit(s@[0]));
        return None;
    }
    match parse_unsigned(s, 0x7fff_ffff) {
        Some(n) => Some(n as i32),
        None => None,
    }
}

impl Rect {
    /// Reads a rectangle written `WxH+X+Y`.
    pub fn parse(s: &str) -> (r: Option<Rect>)
        ensures
            r == read_rect(s@),
    {
        let v = chars_of(s);
        let n = v.len();
        let ghost t = s@;
        assert(t.skip(0) =~= t);
        let i = index_of(&v, 0, 'x', 'x');
        if i == n {
            return None;
        }
        let j = index_of(&v, i + 1, '+', '-');
        let ghost after_x = t.skip(i + 1);
        if j == n {
            return None;
        }
        let k = index_of(&v, j + 1, '+', '-');
        let ghost position = after_x.skip(j - i - 1);
        assert(position =~= t.skip(j as int));
        assert(position.skip(1) =~= t.skip(j + 1));
        if k == n {
            return None;
        }
        let w = parse_size(s.substring_char(0, i));
        let h = parse_size(s.substring_char(i + 1, j));
        let x = parse_i32(s.substring_char(j, k));
        let y = parse_i32(s.substring_char(k, n));
        proof {
            assert(t.subrange(0, i as int) =~= t.take(i as int));
            assert(t.subrange(i + 1, j as int) =~= after_x.take(j - i - 1));
            assert(t.subrange(j as int, k as int) =~= position.take(k - j));
            assert(t.subrange(k as int, n as int) =~= position.skip(k - j));
        }
        match (w, h, x, y) {
            (Some(w), Some(h), Some(x), Some(y)) => Some(Rect { w, h, x, y }),
            _ => None,
        }
    }

    /// Prints a rectangle.
    pub fn show(&self) -> (s: String)
        ensures
            s@ == rect_text(*self),
    {
        let mut s = show_int(self.w as i64);
        s.append("x");
        let h = show_int(self.h as i64);
        s.append(h.as_str());
        let x = show_signed_int(self.x as i64);
        s.append(x.as_str());
        let y = show_signed_int(self.y as i64);
        s.append(y.as_str());
        s
    }
}

/// Reading a printed rectangle gives it back. (A negative size can be
/// printed, but is not read.)
pub proof fn rect_round_trip(r: Rect)
    requires
        r.w >= 0,
        r.h >= 0,
    ensures
        read_rect(rect_text(r)) == Some(r),
{
    reveal_strlit("x");
    assert("x"@ =~= seq!['x']);
    let w = number::show(r.w as int);
    let h = number::show(r.h as int);
    let x = number::show_signed(r.x as int);
    let y = number::show_signed(r.y as int);
    number::dec_is_decimal(r.w as nat);
    number::dec_is_decimal(r.h as nat);
    number::signed_round_trip(r.x as int, i32::MIN as int, i32::MAX as int);
    number::signed_round_trip(r.y as int, i32::MIN as int, i32::MAX as int);
    let ax: nat = if r.x < 0 {
        (-r.x) as nat
    } else {
        r.x as nat
    };
    number::dec_is_decimal(ax);
    let s = rect_text(r);
    let i = w.len() as int;
    assert(s.take(i) =~= w);
    assert(s[i] == 'x');
    split::lemma_cut_is(s, split::either('x', 'x'), i);
    let after_x = s.skip(i + 1);
    let j = h.len() as int;
    assert(after_x.take(j) =~= h);
    assert(after_x[j] == x[0]);
    split::lemma_cut_is(after_x, split::either('+', '-'), j);
    let position = after_x.skip(j);
    assert(position =~= x + y);
    let digits = position.skip(1);
    let k = number::dec(ax).len() as int;
    assert(digits.take(k) =~= number::dec(ax));
    assert(digits[k] == y[0]);
    split::lemma_cut_is(digits, split::either('+', '-'), k);
    assert(position.take(k + 1) =~= x);
    assert(position.skip(k + 1) =~= y);
}

/// Whether a text is a position: a sign, and then digits.
pub open spec fn is_position(s: Seq<char>) -> bool {
    s.len() > 1 && (s[0] == '+' || s[0] == '-') && number::is_decimal(s.skip(1))
}

/// Two sizes with an `x` between them and two positions are a rectangle,
/// when all four are numbers of 32 bits.
pub proof fn rects_are_read(w: Seq<char>, h: Seq<char>, x: Seq<char>, y: Seq<char>)
    requires
        number::is_decimal(w),
        number::is_decimal(h),
        is_position(x),
        is_position(y),
    ensures
        ({
            let s = w + seq!['x'] + h + x + y;
            if number::value(w) <= 0x7fff_ffff && number::value(h) <= 0x7fff_ffff && args::int_of(
                x,
            ) is Some && args::int_of(y) is Some {
                read_rect(s) == Some(
                    Rect {
                        w: number::value(w) as i32,
                        h: number::value(h) as i32,
                        x: args::int_of(x)->0,
                        y: args::int_of(y)->0,
                    },
                )
            } else {
                read_rect(s) is None
            }
        }),
{
    let s = w + seq!['x'] + h + x + y;
    let i = w.len() as int;
    assert(s.take(i) =~= w);
    split::lemma_cut_is(s, split::either('x', 'x'), i);
    let after_x = s.skip(i + 1);
    let j = h.len() as int;
    assert(after_x.take(j) =~= h);
    assert(after_x[j] == x[0]);
    split::lemma_cut_is(after_x, split::either('+', '-'), j);
    let position = after_x.skip(j);
    assert(position =~= x + y);
    let k = x.len() - 1;
    let digits = position.skip(1);
    assert(digits.take(k) =~= x.skip(1));
    assert(digits[k] == y[0]);
    split::lemma_cut_is(digits, split::either('+', '-'), k);
    assert(position.take(k + 1) =~= x);
    assert(position.skip(k + 1) =~= y);
}

/// Nothing else is a rectangle.
pub proof fn rects_have_parts(s: Seq<char>) -> (p: (Seq<char>, Seq<char>, Seq<char>, Seq<char>))
    requires
        read_rect(s) is Some,
    ensures
        s == p.0 + seq!['x'] + p.1 + p.2 + p.3,
        number::is_decimal(p.0),
        number::is_decimal(p.1),
        is_position(p.2),
        is_position(p.3),
{
    let signs = split::either('+', '-');
    let i = split::cut(s, split::either('x', 'x'));
    split::lemma_cut(s, split::either('x', 'x'));
    let after_x = s.skip(i + 1);
    let j = split::cut(after_x, signs);
    split::lemma_cut(after_x, signs);
    let position = after_x.skip(j);
    let k = 1 + split::cut(position.skip(1), signs);
    split::lemma_cut(position.skip(1), signs);
    let (w, h, x, y) = (s.take(i), after_x.take(j), position.take(k), position.skip(k));
    assert(x[0] == after_x[j]);
    assert(y[0] == position.skip(1)[k - 1]);
    assert(s =~= w + seq!['x'] + h + x + y);
    (w, h, x, y)
}

/// How a rectangle is printed.
pub proof fn rects_are_printed(r: Rect)
    ensures
        rect_text(r) == number::show(r.w as int) + seq!['x'] + number::show(r.h as int)
            + number::show_signed(r.x as int) + number::show_signed(r.y as int),
{
    reveal_strlit("x");
    assert("x"@ =~= seq!['x']);
}

} // verus!
