//! Colours: `#rrggbb` or `#rrggbbaa`.
//!
//! A colour is read from the UTF-8 bytes of its text.

use vstd::prelude::*;
use vstd::string::*;
use vstd::utf8::*;

verus! {

/// Red, green, blue and alpha.
pub type Color = (u8, u8, u8, u8);

/// The value of a hexadecimal digit.
pub open spec fn hex_value(b: u8) -> Option<int> {
    if 0x30 <= b <= 0x39 {
        Some(b - 0x30)
    } else if 0x41 <= b <= 0x46 {
        Some(b - 0x41 + 10)
    } else if 0x61 <= b <= 0x66 {
        Some(b - 0x61 + 10)
    } else {
        None
    }
}

/// The number that two hexadecimal digits spell.
pub open spec fn hex_pair(high: u8, low: u8) -> Option<u8> {
    match (hex_value(high), hex_value(low)) {
        (Some(h), Some(l)) => Some((16 * h + l) as u8),
        _ => None,
    }
}

/// The `k`-th pair of bytes as a number.
pub open spec fn pair_at(t: Seq<u8>, k: int) -> Option<u8> {
    hex_pair(t[2 * k], t[2 * k + 1])
}

/// `t` without the `#` that it starts with.
pub open spec fn hash_free(t: Seq<u8>) -> Seq<u8>
    decreases t.len(),
{
    if t.len() > 0 && t[0] == 0x23 {
        hash_free(t.skip(1))
    } else {
        t
    }
}

/// Reads the digits of a colour. Without an alpha it is opaque.
pub open spec fn read_digits(t: Seq<u8>) -> Option<Color> {
    if t.len() == 6 {
        match (pair_at(t, 0), pair_at(t, 1), pair_at(t, 2)) {
            (Some(r), Some(g), Some(b)) => Some((r, g, b, 0xff)),
            _ => None,
        }
    } else if t.len() == 8 {
        match (pair_at(t, 0), pair_at(t, 1), pair_at(t, 2), pair_at(t, 3)) {
            (Some(r), Some(g), Some(b), Some(a)) => Some((r, g, b, a)),
            _ => None,
        }
    } else {
        None
    }
}

/// Reads a colour.
pub open spec fn read_color(s: Seq<char>) -> Option<Color> {
    read_digits(hash_free(encode_utf8(s)))
}

/// The value of a hexadecimal digit.
fn hex_digit(b: u8) -> (r: Option<u8>)
    ensures
        r == match hex_value(b) {
            Some(n) => Some(n as u8),
            None => None,
        },
        r matches Some(n) ==> n < 16,
{
    if 0x30 <= b && b <= 0x39 {
        Some(b - 0x30)
    } else if 0x41 <= b && b <= 0x46 {
        Some(b - 0x41 + 10)
    } else if 0x61 <= b && b <= 0x66 {
        Some(b - 0x61 + 10)
    } else {
        None
    }
}

/// Reads the pair of bytes at position `i`.
fn byte(t: &[u8], i: usize) -> (r: Option<u8>)
    requires
        i + 1 < t@.len(),
    ensures
        r == hex_pair(t@[i as int], t@[i + 1]),
{
    match (hex_digit(t[i]), hex_digit(t[i + 1])) {
        (Some(h), Some(l)) => Some(16 * h + l),
        _ => None,
    }
}

/// How many `#` a text starts with.
fn hashes(t: &[u8]) -> (n: usize)
    ensures
        n <= t@.len(),
        hash_free(t@) == t@.skip(n as int),
{
    let mut n: usize = 0;
    assert(t@.skip(0) =~= t@);
    while n < t.len() && t[n] == 0x23
        invariant
            n <= t@.len(),
            hash_free(t@) == hash_free(t@.skip(n as int)),
        decreases t@.len() - n,
    {
        assert(t@.skip(n as int).skip(1) =~= t@.skip(n + 1));
        n += 1;
    }
    n
}

/// Reads `#rrggbb` or `#rrggbbaa` into red, green, blue and alpha.
pub fn parse_color(s: &str) -> (r: Option<Color>)
    ensures
        r == read_color(s@),
{
    let t = s.as_bytes();
    let k = hashes(t);
    let n = t.len() - k;
    if n == 6 {
        match (byte(t, k), byte(t, k + 2), byte(t, k + 4)) {
            (Some(r), Some(g), Some(b)) => Some((r, g, b, 0xff)),
            _ => None,
        }
    } else if n == 8 {
        match (byte(t, k), byte(t, k + 2), byte(t, k + 4), byte(t, k + 6)) {
            (Some(r), Some(g), Some(b), Some(a)) => Some((r, g, b, a)),
            _ => None,
        }
    } else {
        None
    }
}

/// Whether a character is the hexadecimal digit of a number below 16, in
/// lower or in upper case.
pub open spec fn is_hex_of(c: char, d: int) -> bool {
    if d < 10 {
        c as int == '0' as int + d
    } else {
        c as int == 'a' as int + d - 10 || c as int == 'A' as int + d - 10
    }
}

/// Whether a text spells bytes in hexadecimal, with two digits for each.
pub open spec fn spells(t: Seq<char>, bytes: Seq<u8>) -> bool {
    &&& t.len() == 2 * bytes.len()
    &&& forall|k: int|
        0 <= k < bytes.len() ==> is_hex_of(t[2 * k], #[trigger] bytes[k] as int / 16) && is_hex_of(
            t[2 * k + 1],
            bytes[k] as int % 16,
        )
}

/// What the digit of a number is read as.
proof fn lemma_hex_digit(c: char, d: int)
    requires
        0 <= d < 16,
        is_hex_of(c, d),
    ensures
        c <= '\u{7f}',
        hex_value(c as u8) == Some(d),
{
}

/// A row of digits, with or without a `#`, is read pair by pair.
proof fn lemma_digits(t: Seq<char>, values: Seq<u8>)
    requires
        spells(t, values),
        values.len() > 0,
    ensures
        hash_free(encode_utf8(t)) == encode_utf8(t),
        hash_free(encode_utf8(seq!['#'] + t)) == encode_utf8(t),
        encode_utf8(t).len() == t.len(),
        forall|k: int|
            0 <= k < values.len() ==> #[trigger] pair_at(encode_utf8(t), k) == Some(values[k]),
{
    assert forall|i: int| 0 <= i < t.len() implies '\0' <= #[trigger] t[i] <= '\u{7f}' && hex_value(
        t[i] as u8,
    ) is Some by {
        let k = i / 2;
        let v = values[k] as int;
        lemma_hex_digit(t[2 * k], v / 16);
        lemma_hex_digit(t[2 * k + 1], v % 16);
        assert(i == 2 * k || i == 2 * k + 1);
    }
    is_ascii_chars_encode_utf8(t);
    let bytes = encode_utf8(t);
    let marked = seq!['#'] + t;
    assert(is_ascii_chars(marked));
    is_ascii_chars_encode_utf8(marked);
    assert(encode_utf8(marked)[0] == marked[0] as u8);
    assert(encode_utf8(marked).skip(1) =~= bytes) by {
        assert forall|i: int| 0 <= i < bytes.len() implies #[trigger] encode_utf8(marked).skip(1)[i]
            == bytes[i] by {
            assert(marked[i + 1] == t[i]);
        }
    }
    assert(bytes[0] == t[0] as u8);
    assert(hash_free(bytes) == bytes);
    assert(hash_free(encode_utf8(marked)) == hash_free(bytes));
    assert forall|k: int| 0 <= k < values.len() implies #[trigger] pair_at(bytes, k) == Some(
        values[k],
    ) by {
        let v = values[k] as int;
        lemma_hex_digit(t[2 * k], v / 16);
        lemma_hex_digit(t[2 * k + 1], v % 16);
        assert(bytes[2 * k] == t[2 * k] as u8);
        assert(bytes[2 * k + 1] == t[2 * k + 1] as u8);
    }
}

/// A colour is read as it is spelled, with or without its alpha, with or
/// without a `#`, and in lower, upper or mixed case. Without an alpha it is
/// opaque.
pub proof fn color_round_trip(c: Color, t: Seq<char>)
    ensures
        spells(t, seq![c.0, c.1, c.2, c.3]) ==> read_color(t) == Some(c) && read_color(
            seq!['#'] + t,
        ) == Some(c),
        spells(t, seq![c.0, c.1, c.2]) ==> read_color(t) == Some((c.0, c.1, c.2, 0xffu8))
            && read_color(seq!['#'] + t) == Some((c.0, c.1, c.2, 0xffu8)),
{
    let rgb = seq![c.0, c.1, c.2];
    let rgba = seq![c.0, c.1, c.2, c.3];
    let bytes = encode_utf8(t);
    if spells(t, rgba) {
        lemma_digits(t, rgba);
        assert(pair_at(bytes, 0) == Some(rgba[0]));
        assert(pair_at(bytes, 1) == Some(rgba[1]));
        assert(pair_at(bytes, 2) == Some(rgba[2]));
        assert(pair_at(bytes, 3) == Some(rgba[3]));
    }
    if spells(t, rgb) {
        lemma_digits(t, rgb);
        assert(pair_at(bytes, 0) == Some(rgb[0]));
        assert(pair_at(bytes, 1) == Some(rgb[1]));
        assert(pair_at(bytes, 2) == Some(rgb[2]));
    }
}

/// What is read as a colour is six or eight hexadecimal digits, after any
/// `#`, and nothing else.
pub proof fn colors_are_digits(s: Seq<char>)
    requires
        read_color(s) is Some,
    ensures
        ({
            let t = hash_free(encode_utf8(s));
            &&& t.len() == 6 || t.len() == 8
            &&& forall|i: int| 0 <= i < t.len() ==> hex_value(#[trigger] t[i]) is Some
        }),
{
    let t = hash_free(encode_utf8(s));
    assert forall|i: int| 0 <= i < t.len() implies hex_value(#[trigger] t[i]) is Some by {
        let k = i / 2;
        assert(pair_at(t, k) is Some);
        assert(i == 2 * k || i == 2 * k + 1);
    }
}

/// A `#` before a colour does not count, however many there are.
pub proof fn hashes_do_not_count(s: Seq<char>)
    ensures
        read_color(seq!['#'] + s) == read_color(s),
{
    let marked = seq!['#'] + s;
    let v = '#' as u32;
    assert(0x23u32 & 0x7f == 0x23) by (bit_vector);
    assert(encode_scalar(v) =~= seq![0x23u8]);
    assert(marked.drop_first() =~= s);
    assert(encode_utf8(marked) == encode_scalar(v) + encode_utf8(s));
    assert(encode_utf8(marked).skip(1) =~= encode_utf8(s));
}

/// Bytes of one character each are ASCII.
proof fn lemma_ascii(s: Seq<char>)
    requires
        forall|i: int| 0 <= i < encode_utf8(s).len() ==> #[trigger] encode_utf8(s)[i] < 0x80,
    ensures
        is_ascii_chars(s),
    decreases s.len(),
{
    if s.len() > 0 {
        let v = s[0] as u32;
        char_is_scalar(s[0]);
        let first = encode_scalar(v);
        let rest = s.drop_first();
        assert(encode_utf8(s) == first + encode_utf8(rest));
        assert(0xc0 | ((v >> 6) & 0x1f) as u8 >= 0x80) by (bit_vector);
        assert(0xe0 | ((v >> 12) & 0x0f) as u8 >= 0x80) by (bit_vector);
        assert(0xf0 | ((v >> 18) & 0x7) as u8 >= 0x80) by (bit_vector);
        assert(first.len() > 0);
        assert(encode_utf8(s)[0] == first[0]);
        assert(v < 0x80);
        char_u32_cast(s[0], v);
        assert('\0' <= v as char <= '\u{7f}');
        assert forall|i: int| 0 <= i < encode_utf8(rest).len() implies #[trigger] encode_utf8(
            rest,
        )[i] < 0x80 by {
            assert(encode_utf8(s)[i + first.len()] == encode_utf8(rest)[i]);
        }
        lemma_ascii(rest);
        assert forall|i: int| 0 <= i < s.len() implies '\0' <= #[trigger] s[i] <= '\u{7f}' by {
            if i > 0 {
                assert(rest[i - 1] == s[i]);
            }
        }
    }
}

/// What is read as a colour is its digits, after any number of `#`.
pub proof fn colors_are_spelled(s: Seq<char>) -> (t: Seq<char>)
    requires
        read_color(s) is Some,
    ensures
        t.len() <= s.len(),
        s == Seq::new((s.len() - t.len()) as nat, |i: int| '#') + t,
        ({
            let c = read_color(s)->0;
            ||| spells(t, seq![c.0, c.1, c.2, c.3])
            ||| spells(t, seq![c.0, c.1, c.2]) && c.3 == 0xff
        }),
    decreases s.len(),
{
    if s.len() > 0 && s[0] == '#' {
        let rest = s.drop_first();
        assert(seq!['#'] + rest =~= s);
        hashes_do_not_count(rest);
        let t = colors_are_spelled(rest);
        assert(s =~= Seq::new((s.len() - t.len()) as nat, |i: int| '#') + t);
        t
    } else {
        lemma_spelled(s);
        assert(s =~= Seq::new(0, |i: int| '#') + s);
        s
    }
}

/// Digits of a pair, and what they are worth.
proof fn lemma_spelled_pair(high: char, low: char, v: u8)
    requires
        high <= '\u{7f}',
        low <= '\u{7f}',
        hex_pair(high as u8, low as u8) == Some(v),
    ensures
        is_hex_of(high, v as int / 16),
        is_hex_of(low, v as int % 16),
{
    let h = hex_value(high as u8)->0;
    let l = hex_value(low as u8)->0;
    assert(v == 16 * h + l);
    assert(v as int / 16 == h && v as int % 16 == l);
}

/// A colour without a `#` is its digits.
proof fn lemma_spelled(s: Seq<char>)
    requires
        read_color(s) is Some,
        s.len() > 0 ==> s[0] != '#',
    ensures
        ({
            let c = read_color(s)->0;
            ||| spells(s, seq![c.0, c.1, c.2, c.3])
            ||| spells(s, seq![c.0, c.1, c.2]) && c.3 == 0xff
        }),
{
    let bytes = encode_utf8(s);
    colors_are_digits(s);
    if s.len() > 0 {
        lemma_no_hash(s);
    }
    assert(hash_free(bytes) == bytes);
    assert forall|i: int| 0 <= i < bytes.len() implies #[trigger] bytes[i] < 0x80 by {
        assert(hex_value(bytes[i]) is Some);
    }
    lemma_ascii(s);
    is_ascii_chars_encode_utf8(s);
    let c = read_color(s)->0;
    let values = if s.len() == 6 {
        seq![c.0, c.1, c.2]
    } else {
        seq![c.0, c.1, c.2, c.3]
    };
    assert forall|k: int| 0 <= k < values.len() implies is_hex_of(
        s[2 * k],
        #[trigger] values[k] as int / 16,
    ) && is_hex_of(s[2 * k + 1], values[k] as int % 16) by {
        assert(pair_at(bytes, k) == Some(values[k]));
        assert(bytes[2 * k] == s[2 * k] as u8);
        assert(bytes[2 * k + 1] == s[2 * k + 1] as u8);
        lemma_spelled_pair(s[2 * k], s[2 * k + 1], values[k]);
    }
    assert(spells(s, values));
}

/// A text that does not start with `#` does not do so in UTF-8 either.
proof fn lemma_no_hash(s: Seq<char>)
    requires
        s.len() > 0,
        s[0] != '#',
    ensures
        encode_utf8(s).len() > 0,
        encode_utf8(s)[0] != 0x23,
{
    let v = s[0] as u32;
    char_is_scalar(s[0]);
    char_u32_cast(s[0], v);
    assert(0x23u32 as char == '#');
    assert(v != 0x23 && v <= 0x7f ==> (v & 0x7f) as u8 != 0x23) by (bit_vector);
    assert(0xc0 | ((v >> 6) & 0x1f) as u8 >= 0x80) by (bit_vector);
    assert(0xe0 | ((v >> 12) & 0x0f) as u8 >= 0x80) by (bit_vector);
    assert(0xf0 | ((v >> 18) & 0x7) as u8 >= 0x80) by (bit_vector);
    assert(encode_utf8(s)[0] == encode_scalar(v)[0]);
}

} // verus!
