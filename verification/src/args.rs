//! Arguments of commands.

use crate::number;
use crate::number::{parse_i32, parse_unsigned};
use crate::state::TagId;
use vstd::prelude::*;

verus! {

/// Reads a signed number.
pub open spec fn int_of(s: Seq<char>) -> Option<i32> {
    match number::read_signed(s, i32::MIN as int, i32::MAX as int) {
        Some(n) => Some(n as i32),
        None => None,
    }
}

/// Reads the number of a tag.
pub open spec fn tag_of(s: Seq<char>) -> Option<TagId> {
    match number::read_unsigned(s, TagId::MAX as int) {
        Some(n) => Some(n as TagId),
        None => None,
    }
}

/// The tag that the first argument names.
pub open spec fn tag_arg(rest: Seq<Seq<char>>) -> Option<TagId> {
    if rest.len() > 0 {
        tag_of(rest[0])
    } else {
        None
    }
}

/// The step that the first argument gives; 1 when it gives none.
pub open spec fn delta_arg(rest: Seq<Seq<char>>) -> i32 {
    if rest.len() > 0 {
        match int_of(rest[0]) {
            Some(n) => n,
            None => 1,
        }
    } else {
        1
    }
}

/// Reads the number of a tag.
pub fn parse_tag(s: &str) -> (r: Option<TagId>)
    ensures
        r == tag_of(s@),
{
    match parse_unsigned(s, 0xffff_ffff) {
        Some(n) => Some(n as u32),
        None => None,
    }
}

/// The tag that the first argument names.
pub fn first_tag(rest: &[String]) -> (r: Option<TagId>)
    ensures
        r == tag_arg(rest.deep_view()),
{
    if rest.len() > 0 {
        parse_tag(rest[0].as_str())
    } else {
        None
    }
}

/// The step that the first argument gives; 1 when it gives none.
pub fn first_delta(rest: &[String]) -> (r: i32)
    ensures
        r == delta_arg(rest.deep_view()),
{
    if rest.len() > 0 {
        match parse_i32(rest[0].as_str()) {
            Some(n) => n,
            None => 1,
        }
    } else {
        1
    }
}

/// The arguments from position `from` on.
pub fn copy_from(rest: &[String], from: usize) -> (r: Vec<String>)
    requires
        from <= rest@.len(),
    ensures
        r.deep_view() == rest.deep_view().skip(from as int),
{
    let mut r: Vec<String> = Vec::new();
    let mut i: usize = from;
    while i < rest.len()
        invariant
            from <= i <= rest@.len(),
            r@ == rest@.subrange(from as int, i as int),
        decreases rest@.len() - i,
    {
        r.push(rest[i].clone());
        assert(r@ =~= rest@.subrange(from as int, i + 1));
        i += 1;
    }
    assert(r.deep_view() =~= rest.deep_view().skip(from as int));
    r
}

/// A signed argument is decimal digits, alone, after one `+`, or after one
/// `-`, with a value of 32 bits. Nothing else is one.
pub proof fn ints_are_digits(digits: Seq<char>, s: Seq<char>)
    ensures
        ({
            let v = number::value(digits) as int;
            number::is_decimal(digits) ==> {
                &&& int_of(digits) == if v <= 0x7fff_ffff {
                    Some(v as i32)
                } else {
                    None
                }
                &&& int_of(seq!['+'] + digits) == if v <= 0x7fff_ffff {
                    Some(v as i32)
                } else {
                    None
                }
                &&& int_of(seq!['-'] + digits) == if v <= 0x8000_0000 {
                    Some((-v) as i32)
                } else {
                    None
                }
            }
        }),
        int_of(s) is Some ==> number::is_decimal(s) || (s.len() > 0 && (s[0] == '+' || s[0] == '-')
            && number::is_decimal(s.skip(1))),
{
    assert((seq!['+'] + digits).skip(1) =~= digits);
    assert((seq!['-'] + digits).skip(1) =~= digits);
    if number::is_decimal(digits) {
        assert(number::is_digit(digits[0]));
    }
}

/// A tag is decimal digits, alone or after one `+`, with a value of 32 bits.
/// Nothing else is one.
pub proof fn tags_are_digits(digits: Seq<char>, s: Seq<char>)
    ensures
        ({
            let v = number::value(digits) as int;
            number::is_decimal(digits) ==> {
                &&& tag_of(digits) == if v <= 0xffff_ffff {
                    Some(v as u32)
                } else {
                    None
                }
                &&& tag_of(seq!['+'] + digits) == tag_of(digits)
            }
        }),
        tag_of(s) is Some ==> number::is_decimal(s) || (s.len() > 0 && s[0] == '+'
            && number::is_decimal(s.skip(1))),
{
    assert((seq!['+'] + digits).skip(1) =~= digits);
    if number::is_decimal(digits) {
        assert(number::is_digit(digits[0]));
    }
}

} // verus!
