//! Decimal numbers: how replies print them and how arguments spell them.

use crate::text::chars_of;
use vstd::arithmetic::power::{lemma_pow0, lemma_pow1, lemma_pow_adds, pow};
use vstd::prelude::*;
use vstd::string::*;

verus! {

/// The character of one decimal digit.
pub open spec fn digit_char(d: nat) -> char {
    ('0' as nat + d) as char
}

/// The shortest decimal spelling of `n`.
pub open spec fn dec(n: nat) -> Seq<char>
    decreases n,
{
    if n < 10 {
        seq![digit_char(n)]
    } else {
        dec(n / 10).push(digit_char(n % 10))
    }
}

/// `i` with a sign only when it is negative.
pub open spec fn show(i: int) -> Seq<char> {
    if i < 0 {
        seq!['-'] + dec((-i) as nat)
    } else {
        dec(i as nat)
    }
}

/// `i` with a sign in any case.
pub open spec fn show_signed(i: int) -> Seq<char> {
    if i < 0 {
        show(i)
    } else {
        seq!['+'] + show(i)
    }
}

/// Whether a character is a decimal digit.
pub open spec fn is_digit(c: char) -> bool {
    '0' <= c && c <= '9'
}

/// The value of a decimal digit.
pub open spec fn digit_value(c: char) -> nat {
    (c as nat - '0' as nat) as nat
}

/// Whether `s` is one decimal digit or more, and nothing else.
pub open spec fn is_decimal(s: Seq<char>) -> bool {
    s.len() > 0 && forall|i: int| 0 <= i < s.len() ==> is_digit(#[trigger] s[i])
}

/// The number that a row of digits spells.
pub open spec fn value(s: Seq<char>) -> nat
    decreases s.len(),
{
    if s.len() == 0 {
        0
    } else {
        value(s.drop_last()) * 10 + digit_value(s.last())
    }
}

/// Reads an unsigned number: an optional `+`, then digits, of a value of at
/// most `max`.
pub open spec fn read_unsigned(s: Seq<char>, max: int) -> Option<int> {
    let digits = if s.len() > 0 && s[0] == '+' {
        s.skip(1)
    } else {
        s
    };
    if is_decimal(digits) && value(digits) <= max {
        Some(value(digits) as int)
    } else {
        None
    }
}

/// Reads a signed number: an optional `+` or `-`, then digits, of a value
/// from `min` to `max`.
pub open spec fn read_signed(s: Seq<char>, min: int, max: int) -> Option<int> {
    let signed = s.len() > 0 && (s[0] == '+' || s[0] == '-');
    let digits = if signed {
        s.skip(1)
    } else {
        s
    };
    let n = if signed && s[0] == '-' {
        -(value(digits) as int)
    } else {
        value(digits) as int
    };
    if is_decimal(digits) && min <= n <= max {
        Some(n)
    } else {
        None
    }
}

/// One digit as a text.
fn digit_text(d: u64) -> (s: &'static str)
    requires
        d < 10,
    ensures
        s@ == seq![digit_char(d as nat)],
{
    proof {
        reveal_strlit("0");
        reveal_strlit("1");
        reveal_strlit("2");
        reveal_strlit("3");
        reveal_strlit("4");
        reveal_strlit("5");
        reveal_strlit("6");
        reveal_strlit("7");
        reveal_strlit("8");
        reveal_strlit("9");
    }
    let s = match d {
        0 => "0",
        1 => "1",
        2 => "2",
        3 => "3",
        4 => "4",
        5 => "5",
        6 => "6",
        7 => "7",
        8 => "8",
        _ => "9",
    };
    assert(s@ =~= seq![digit_char(d as nat)]);
    s
}

/// Prints a number in decimal.
pub fn decimal(n: u64) -> (s: String)
    ensures
        s@ == dec(n as nat),
    decreases n,
{
    if n < 10 {
        digit_text(n).to_owned()
    } else {
        let mut s = decimal(n / 10);
        s.append(digit_text(n % 10));
        assert(s@ =~= dec(n as nat));
        s
    }
}

/// Prints a signed number, with a sign only when it is negative.
pub fn show_int(i: i64) -> (s: String)
    requires
        i > i64::MIN,
    ensures
        s@ == show(i as int),
{
    if i < 0 {
        let mut s = "-".to_owned();
        let digits = decimal((-i) as u64);
        s.append(digits.as_str());
        proof {
            reveal_strlit("-");
            assert("-"@ =~= seq!['-']);
        }
        s
    } else {
        decimal(i as u64)
    }
}

/// Prints a signed number with a sign in any case.
pub fn show_signed_int(i: i64) -> (s: String)
    requires
        i > i64::MIN,
    ensures
        s@ == show_signed(i as int),
{
    if i < 0 {
        show_int(i)
    } else {
        let mut s = "+".to_owned();
        let digits = show_int(i);
        s.append(digits.as_str());
        proof {
            reveal_strlit("+");
            assert("+"@ =~= seq!['+']);
        }
        s
    }
}

/// Digits that follow only make a number larger.
proof fn lemma_value_prefix(s: Seq<char>, k: int)
    requires
        0 <= k <= s.len(),
    ensures
        value(s.take(k)) <= value(s),
    decreases s.len(),
{
    if k == s.len() {
        assert(s.take(k) =~= s);
    } else {
        assert(s.drop_last().take(k) =~= s.take(k));
        lemma_value_prefix(s.drop_last(), k);
    }
}

/// Reads the digits of `v` from position `from` on.
fn read_digits(v: &Vec<char>, from: usize, max: u64) -> (r: Option<u64>)
    requires
        from <= v@.len(),
    ensures
        ({
            let digits = v@.skip(from as int);
            r == if is_decimal(digits) && value(digits) <= max {
                Some(value(digits) as u64)
            } else {
                None
            }
        }),
{
    let ghost digits = v@.skip(from as int);
    if from == v.len() {
        return None;
    }
    let mut n: u64 = 0;
    let mut i: usize = from;
    while i < v.len()
        invariant
            from <= i <= v@.len(),
            digits == v@.skip(from as int),
            forall|k: int| 0 <= k < i - from ==> is_digit(#[trigger] digits[k]),
            n == value(digits.take(i - from)),
            n <= max,
        decreases v@.len() - i,
    {
        let c = v[i];
        assert(digits[i - from] == c);
        if !('0' <= c && c <= '9') {
            return None;
        }
        let d: u64 = (c as u64) - ('0' as u64);
        proof {
            let next = digits.take(i - from + 1);
            assert(next.drop_last() =~= digits.take(i - from));
            assert(next.last() == c);
            lemma_value_prefix(digits, i - from + 1);
        }
        if d > max || n > (max - d) / 10 {
            return None;
        }
        n = n * 10 + d;
        i += 1;
    }
    assert(digits.take(digits.len() as int) =~= digits);
    Some(n)
}

/// Reads an unsigned number of at most `max`.
pub fn parse_unsigned(s: &str, max: u64) -> (r: Option<u64>)
    ensures
        r == match read_unsigned(s@, max as int) {
            Some(n) => Some(n as u64),
            None => None,
        },
{
    let v = chars_of(s);
    assert(v@.skip(0) =~= v@);
    if v.len() > 0 && v[0] == '+' {
        read_digits(&v, 1, max)
    } else {
        read_digits(&v, 0, max)
    }
}

/// Reads a signed number of 32 bits.
pub fn parse_i32(s: &str) -> (r: Option<i32>)
    ensures
        r == match read_signed(s@, i32::MIN as int, i32::MAX as int) {
            Some(n) => Some(n as i32),
            None => None,
        },
{
    let v = chars_of(s);
    assert(v@.skip(0) =~= v@);
    if v.len() > 0 && v[0] == '-' {
        match read_digits(&v, 1, 0x8000_0000) {
            Some(n) => Some((-(n as i64)) as i32),
            None => None,
        }
    } else {
        let from: usize = if v.len() > 0 && v[0] == '+' {
            1
        } else {
            0
        };
        match read_digits(&v, from, 0x7fff_ffff) {
            Some(n) => Some(n as i32),
            None => None,
        }
    }
}

/// A printed number has digits only, and they spell it.
pub proof fn dec_is_decimal(n: nat)
    ensures
        is_decimal(dec(n)),
        value(dec(n)) == n,
    decreases n,
{
    if n < 10 {
        assert(dec(n).drop_last() =~= Seq::<char>::empty());
        assert(value(dec(n).drop_last()) == 0);
    } else {
        dec_is_decimal(n / 10);
        assert(dec(n).drop_last() =~= dec(n / 10));
    }
}

/// Reading a printed unsigned number gives it back.
pub proof fn unsigned_round_trip(n: nat, max: int)
    requires
        n <= max,
    ensures
        read_unsigned(dec(n), max) == Some(n as int),
{
    dec_is_decimal(n);
    assert(is_digit(dec(n)[0]));
}

/// Reading a printed signed number gives it back, however its sign is
/// printed.
pub proof fn signed_round_trip(i: int, min: int, max: int)
    requires
        min <= i <= max,
    ensures
        read_signed(show(i), min, max) == Some(i),
        read_signed(show_signed(i), min, max) == Some(i),
{
    let n: nat = if i < 0 {
        (-i) as nat
    } else {
        i as nat
    };
    dec_is_decimal(n);
    assert(is_digit(dec(n)[0]));
    assert((seq!['-'] + dec(n)).skip(1) =~= dec(n));
    assert((seq!['+'] + dec(n)).skip(1) =~= dec(n));
}

/// The ten digits, in the order of their values, are the only ones.
pub proof fn digits_have_values(c: char, d: int)
    ensures
        is_digit(c) <==> "0123456789"@.contains(c),
        0 <= d < 10 ==> digit_value("0123456789"@[d]) == d && digit_char(d as nat)
            == "0123456789"@[d],
{
    reveal_strlit("0123456789");
    if is_digit(c) {
        assert("0123456789"@[digit_value(c) as int] == c);
    }
    if "0123456789"@.contains(c) {
        let i = "0123456789"@.index_of(c);
        assert("0123456789"@[i] == c);
    }
}

/// The place of a digit gives it its weight: digits that follow shift those
/// before them by as many powers of ten. No digits are worth 0, and one digit
/// is worth its value.
pub proof fn places_have_weights(a: Seq<char>, b: Seq<char>, c: char)
    ensures
        value(Seq::empty()) == 0,
        value(seq![c]) == digit_value(c),
        value(a + b) == value(a) * pow(10, b.len()) + value(b),
    decreases b.len(),
{
    assert(seq![c].drop_last() =~= Seq::<char>::empty());
    assert(value(Seq::<char>::empty()) == 0);
    assert(value(seq![c]) == value(seq![c].drop_last()) * 10 + digit_value(seq![c].last()));
    if b.len() == 0 {
        assert(a + b =~= a);
        lemma_pow0(10);
    } else {
        let front = b.drop_last();
        places_have_weights(a, front, c);
        assert((a + b).drop_last() =~= a + front);
        let p = pow(10, front.len());
        lemma_pow1(10);
        lemma_pow_adds(10, front.len(), 1);
        let x = value(a) as int;
        let y = value(front) as int;
        assert((x * p + y) * 10 == x * (p * 10) + y * 10) by (nonlinear_arith);
    }
}

/// Digits are worth something unless they are all `0`.
proof fn lemma_value_positive(s: Seq<char>)
    requires
        is_decimal(s),
        s[0] != '0',
    ensures
        value(s) > 0,
    decreases s.len(),
{
    if s.len() > 1 {
        let front = s.drop_last();
        assert forall|i: int| 0 <= i < front.len() implies is_digit(#[trigger] front[i]) by {
            assert(front[i] == s[i]);
        }
        lemma_value_positive(front);
    } else {
        assert(s.drop_last() =~= Seq::<char>::empty());
        assert(is_digit(s[0]));
    }
}

/// A number is printed in the one way that has digits only, has its value,
/// and does not start with a `0` that could be left out.
pub proof fn printed_without_zeros(n: nat, s: Seq<char>)
    ensures
        dec(n)[0] == '0' ==> n == 0 && dec(n).len() == 1,
        is_decimal(s) && value(s) == n && (s[0] == '0' ==> s.len() == 1) ==> s == dec(n),
    decreases n, s.len(),
{
    dec_is_decimal(n);
    if n >= 10 {
        printed_without_zeros(n / 10, Seq::empty());
        dec_is_decimal(n / 10);
        assert(dec(n)[0] == dec(n / 10)[0]);
    }
    if is_decimal(s) && value(s) == n && (s[0] == '0' ==> s.len() == 1) {
        let front = s.drop_last();
        assert(is_digit(s[s.len() - 1]));
        if s.len() == 1 {
            assert(front =~= Seq::<char>::empty());
            assert(value(front) == 0);
            assert(digit_char(digit_value(s[0])) == s[0]);
            assert(s =~= dec(n));
        } else {
            assert(is_digit(s[0]));
            assert forall|i: int| 0 <= i < front.len() implies is_digit(#[trigger] front[i]) by {
                assert(front[i] == s[i]);
            }
            lemma_value_positive(front);
            assert(n == value(front) * 10 + digit_value(s.last()));
            assert(n / 10 == value(front));
            assert(n % 10 == digit_value(s.last()));
            printed_without_zeros(n / 10, front);
            assert(digit_char(digit_value(s.last())) == s.last());
            assert(s =~= dec(n));
        }
    }
}

/// A signed number is printed as its size, after a `-` when it is negative,
/// and after a `+` when it is not and a sign is asked for.
pub proof fn signs_are_printed(n: nat)
    ensures
        show(n as int) == dec(n),
        show_signed(n as int) == "+"@ + dec(n),
        n > 0 ==> show(-n) == "-"@ + dec(n),
        n > 0 ==> show_signed(-n) == "-"@ + dec(n),
{
    reveal_strlit("+");
    reveal_strlit("-");
    assert("+"@ =~= seq!['+']);
    assert("-"@ =~= seq!['-']);
}

} // verus!
