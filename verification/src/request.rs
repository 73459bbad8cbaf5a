//! Requests as they arrive: argument bytes with a NUL between them.

use crate::split;
use vstd::prelude::*;
use vstd::slice::*;
use vstd::utf8::*;

verus! {

/// The separator of a request's arguments.
pub open spec fn is_nul() -> spec_fn(u8) -> bool {
    |b: u8| b == 0
}

/// The text that `String::from_utf8_lossy` makes of `bytes`.
pub uninterp spec fn utf8_lossy(bytes: Seq<u8>) -> Seq<char>;

/// Calls `String::from_utf8_lossy`, which decodes UTF-8 and puts U+FFFD in
/// the place of what is not UTF-8. So valid UTF-8 is decoded as it stands,
/// and a NUL comes only from a NUL byte. How many U+FFFD stand for a run of
/// invalid bytes is left to the name `utf8_lossy`.
#[verifier::external_body]
fn from_utf8_lossy(bytes: &[u8]) -> (s: String)
    ensures
        s@ == utf8_lossy(bytes@),
        valid_utf8(bytes@) ==> s@ == decode_utf8(bytes@),
        !bytes@.contains(0u8) ==> !s@.contains('\0'),
{
    String::from_utf8_lossy(bytes).into_owned()
}

/// The arguments of a request: the runs of bytes between its NULs, decoded.
pub open spec fn request_args(buf: Seq<u8>) -> Seq<Seq<char>> {
    let parts = split::pieces(buf, is_nul());
    Seq::new(parts.len(), |i: int| utf8_lossy(parts[i]))
}

/// Whether texts can be sent: none is empty, and none holds a NUL.
pub open spec fn are_sendable(texts: Seq<Seq<char>>) -> bool {
    forall|i: int|
        0 <= i < texts.len() ==> (#[trigger] texts[i]).len() > 0 && !texts[i].contains('\0')
}

/// The UTF-8 bytes of texts.
pub open spec fn encoded(texts: Seq<Seq<char>>) -> Seq<Seq<u8>> {
    Seq::new(texts.len(), |i: int| encode_utf8(texts[i]))
}

/// The request that a client sends for its arguments: their UTF-8 bytes, with
/// one NUL between neighbours.
pub open spec fn sent(texts: Seq<Seq<char>>) -> Seq<u8> {
    split::joined(encoded(texts), 0u8)
}

/// Splits a request into its arguments. Empty arguments are dropped, and no
/// argument holds a NUL. What a client sent comes back as it was.
pub fn parse_request(buf: &[u8]) -> (args: Vec<String>)
    ensures
        args.deep_view() == request_args(buf@),
        forall|texts: Seq<Seq<char>>|
            are_sendable(texts) && buf@ == #[trigger] sent(texts) ==> args.deep_view() == texts,
        forall|i: int|
            0 <= i < args@.len() ==> {
                &&& valid_utf8(split::pieces(buf@, is_nul())[i]) ==> args@[i]@ == decode_utf8(
                    split::pieces(buf@, is_nul())[i],
                )
                &&& !(#[trigger] args@[i])@.contains('\0')
            },
{
    let ghost s = buf@;
    let mut args: Vec<String> = Vec::new();
    let ghost mut done: Seq<Seq<u8>> = Seq::empty();
    let mut start: usize = 0;
    let mut i: usize = 0;
    assert(s.skip(0) =~= s);
    assert(done + split::pieces(s, is_nul()) =~= split::pieces(s, is_nul()));
    while i < buf.len()
        invariant
            s == buf@,
            start <= i <= s.len(),
            split::unbroken(s.subrange(start as int, i as int), is_nul()),
            split::pieces(s, is_nul()) == done + split::pieces(s.skip(start as int), is_nul()),
            args@.len() == done.len(),
            forall|k: int|
                0 <= k < args@.len() ==> {
                    &&& (#[trigger] args@[k])@ == utf8_lossy(done[k])
                    &&& valid_utf8(done[k]) ==> args@[k]@ == decode_utf8(done[k])
                    &&& !args@[k]@.contains('\0')
                },
        decreases s.len() - i,
    {
        if buf[i] == 0 {
            proof {
                split::lemma_pieces_step(s, is_nul(), start as int, i as int);
            }
            if start < i {
                let run = slice_subrange(buf, start, i);
                proof {
                    done = done.push(run@);
                }
                args.push(from_utf8_lossy(run));
            }
            assert(split::pieces(s, is_nul()) =~= done + split::pieces(s.skip(i + 1), is_nul()));
            start = i + 1;
        } else {
            assert(s.subrange(start as int, i + 1) =~= s.subrange(start as int, i as int).push(
                s[i as int],
            ));
        }
        i += 1;
    }
    proof {
        split::lemma_pieces_step(s, is_nul(), start as int, i as int);
    }
    if start < i {
        let run = slice_subrange(buf, start, i);
        proof {
            done = done.push(run@);
        }
        args.push(from_utf8_lossy(run));
    }
    assert(split::pieces(s, is_nul()) =~= done);
    assert(args.deep_view() =~= request_args(s));
    assert forall|texts: Seq<Seq<char>>|
        are_sendable(texts) && s == #[trigger] sent(texts) implies args.deep_view() == texts by {
        lemma_sent(texts);
        assert forall|i: int| 0 <= i < texts.len() implies #[trigger] args.deep_view()[i]
            == texts[i] by {
            encode_utf8_valid_utf8(texts[i]);
            encode_utf8_decode_utf8(texts[i]);
            assert(done[i] == encode_utf8(texts[i]));
            assert(args@[i]@ == decode_utf8(done[i]));
        }
        assert(args.deep_view() =~= texts);
    }
    args
}

/// The UTF-8 bytes of a character other than NUL are not 0.
proof fn lemma_no_nul_in_scalar(v: u32)
    requires
        is_scalar(v),
        v != 0,
    ensures
        !encode_scalar(v).contains(0u8),
        encode_scalar(v).len() > 0,
{
    assert(v != 0 && v <= 0x7f ==> (v & 0x7f) as u8 != 0) by (bit_vector);
    assert(0xc0 | ((v >> 6) & 0x1f) as u8 != 0) by (bit_vector);
    assert(0xe0 | ((v >> 12) & 0x0f) as u8 != 0) by (bit_vector);
    assert(0xf0 | ((v >> 18) & 0x7) as u8 != 0) by (bit_vector);
    assert(0x80 | (v & 0x3f) as u8 != 0) by (bit_vector);
    assert(0x80 | ((v >> 6) & 0x3f) as u8 != 0) by (bit_vector);
    assert(0x80 | ((v >> 12) & 0x3f) as u8 != 0) by (bit_vector);
}

/// The UTF-8 bytes of a text without NULs hold no 0.
proof fn lemma_no_nul(t: Seq<char>)
    requires
        !t.contains('\0'),
    ensures
        !encode_utf8(t).contains(0u8),
        t.len() > 0 ==> encode_utf8(t).len() > 0,
    decreases t.len(),
{
    if t.len() > 0 {
        let rest = t.drop_first();
        assert(t.contains(t[0]));
        assert forall|c: char| rest.contains(c) implies t.contains(c) by {
            assert(t[rest.index_of(c) + 1] == c);
        }
        lemma_no_nul(rest);
        char_is_scalar(t[0]);
        char_u32_cast(t[0], t[0] as u32);
        assert(0u32 as char == '\0');
        lemma_no_nul_in_scalar(t[0] as u32);
        let first = encode_scalar(t[0] as u32);
        let all = encode_utf8(t);
        if all.contains(0u8) {
            let i = all.index_of(0u8);
            if i < first.len() {
                assert(first.contains(first[i]));
            } else {
                let tail = encode_utf8(rest);
                assert(tail.contains(tail[i - first.len()]));
            }
        }
    }
}

/// The pieces of a request are the bytes of the texts that were sent.
proof fn lemma_sent(texts: Seq<Seq<char>>)
    requires
        are_sendable(texts),
    ensures
        split::pieces(sent(texts), is_nul()) == encoded(texts),
{
    let parts = encoded(texts);
    assert forall|i: int| 0 <= i < parts.len() implies (#[trigger] parts[i]).len() > 0
        && !parts[i].contains(0u8) by {
        lemma_no_nul(texts[i]);
    }
    request_round_trip(parts);
}

/// A request carries its arguments faithfully: non-empty arguments without
/// NULs, sent with one NUL between neighbours, are split into the same
/// bytes again.
pub proof fn request_round_trip(args: Seq<Seq<u8>>)
    requires
        forall|i: int|
            0 <= i < args.len() ==> (#[trigger] args[i]).len() > 0 && !args[i].contains(0u8),
    ensures
        split::pieces(split::joined(args, 0u8), is_nul()) == args,
        request_args(split::joined(args, 0u8)) == args.map_values(|a: Seq<u8>| utf8_lossy(a)),
{
    assert forall|i: int| 0 <= i < args.len() implies (#[trigger] args[i]).len() > 0
        && split::unbroken(args[i], is_nul()) by {
        assert forall|j: int| 0 <= j < args[i].len() implies !is_nul()(#[trigger] args[i][j]) by {
            assert(args[i].contains(args[i][j]));
        }
    }
    split::split_undoes_join(args, is_nul(), 0u8);
    assert(request_args(split::joined(args, 0u8)) =~= args.map_values(|a: Seq<u8>| utf8_lossy(a)));
}

/// A NUL parts the arguments before it from those after it. Bytes without a
/// NUL are one argument, and no bytes are none.
pub proof fn nuls_part_arguments(a: Seq<u8>, b: Seq<u8>)
    ensures
        request_args(a.push(0u8) + b) == request_args(a) + request_args(b),
        !a.contains(0u8) && a.len() > 0 ==> request_args(a) == seq![utf8_lossy(a)],
        a.len() == 0 ==> request_args(a) == Seq::<Seq<char>>::empty(),
{
    split::separators_part(a, 0u8, b, is_nul());
    assert(request_args(a.push(0u8) + b) =~= request_args(a) + request_args(b));
    if !a.contains(0u8) {
        assert forall|i: int| 0 <= i < a.len() implies !is_nul()(#[trigger] a[i]) by {
            assert(a.contains(a[i]));
        }
        split::unbroken_is_one_piece(a, is_nul());
        if a.len() > 0 {
            assert(request_args(a) =~= seq![utf8_lossy(a)]);
        } else {
            assert(request_args(a) =~= Seq::<Seq<char>>::empty());
        }
    }
}

/// What a client sends grows by a NUL and the bytes of one more argument.
pub proof fn arguments_are_sent_in_order(texts: Seq<Seq<char>>, text: Seq<char>)
    ensures
        sent(seq![text]) == encode_utf8(text),
        texts.len() > 0 ==> sent(texts.push(text)) == sent(texts).push(0u8) + encode_utf8(text),
{
    assert(encoded(seq![text]) =~= seq![encode_utf8(text)]);
    assert(encoded(texts.push(text)) =~= encoded(texts).push(encode_utf8(text)));
    split::joined_in_order(encoded(texts), encode_utf8(text), 0u8);
}

} // verus!
