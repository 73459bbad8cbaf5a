//! Splitting a sequence at its separators into the pieces between them.

use vstd::prelude::*;

verus! {

/// Where the first separator of `s` stands; `s.len()` when there is none.
pub open spec fn cut<T>(s: Seq<T>, sep: spec_fn(T) -> bool) -> int
    decreases s.len(),
{
    if s.len() == 0 || sep(s[0]) {
        0
    } else {
        1 + cut(s.skip(1), sep)
    }
}

/// The pieces between the separators of `s`, in order; empty ones are left
/// out.
pub open spec fn pieces<T>(s: Seq<T>, sep: spec_fn(T) -> bool) -> Seq<Seq<T>>
    decreases s.len(),
{
    if s.len() == 0 {
        Seq::empty()
    } else {
        let k = cut(s, sep);
        let rest = if 0 <= k < s.len() {
            pieces(s.skip(k + 1), sep)
        } else {
            Seq::empty()
        };
        if k == 0 {
            rest
        } else {
            seq![s.take(k)] + rest
        }
    }
}

/// What a client sends for `parts`: each of them, with one `mark` between
/// neighbours.
pub open spec fn joined<T>(parts: Seq<Seq<T>>, mark: T) -> Seq<T>
    decreases parts.len(),
{
    if parts.len() == 0 {
        Seq::empty()
    } else if parts.len() == 1 {
        parts[0]
    } else {
        parts[0].push(mark) + joined(parts.skip(1), mark)
    }
}

/// What is joined grows by a `mark` and one more part.
pub proof fn joined_in_order<T>(parts: Seq<Seq<T>>, part: Seq<T>, mark: T)
    ensures
        parts.len() > 0 ==> joined(parts.push(part), mark) == joined(parts, mark).push(mark) + part,
    decreases parts.len(),
{
    if parts.len() > 0 {
        let all = parts.push(part);
        let rest = parts.skip(1);
        assert(all.skip(1) =~= rest.push(part));
        if rest.len() > 0 {
            joined_in_order(rest, part, mark);
        } else {
            assert(joined(all.skip(1), mark) == part);
        }
        assert(joined(all, mark) == parts[0].push(mark) + joined(all.skip(1), mark));
        assert(rest.len() > 0 ==> joined(parts, mark) == parts[0].push(mark) + joined(rest, mark));
        assert(joined(all, mark) =~= joined(parts, mark).push(mark) + part);
    }
}

/// Whether no element of `s` is a separator.
pub open spec fn unbroken<T>(s: Seq<T>, sep: spec_fn(T) -> bool) -> bool {
    forall|i: int| 0 <= i < s.len() ==> !sep(#[trigger] s[i])
}

/// The cut is the only place that ends an unbroken run.
pub proof fn lemma_cut_is<T>(s: Seq<T>, sep: spec_fn(T) -> bool, k: int)
    requires
        0 <= k <= s.len(),
        unbroken(s.take(k), sep),
        k == s.len() || sep(s[k]),
    ensures
        cut(s, sep) == k,
    decreases k,
{
    if k > 0 {
        assert(s.take(k)[0] == s[0]);
        let t = s.skip(1);
        assert(t.take(k - 1) =~= s.take(k).skip(1));
        assert(unbroken(t.take(k - 1), sep)) by {
            assert forall|i: int| 0 <= i < k - 1 implies !sep(#[trigger] t.take(k - 1)[i]) by {
                assert(t.take(k - 1)[i] == s.take(k)[i + 1]);
            }
        }
        lemma_cut_is(t, sep, k - 1);
    }
}

/// The cut lies within the sequence, ends an unbroken run, and is a
/// separator unless it is the end.
pub proof fn lemma_cut<T>(s: Seq<T>, sep: spec_fn(T) -> bool)
    ensures
        0 <= cut(s, sep) <= s.len(),
        unbroken(s.take(cut(s, sep)), sep),
        cut(s, sep) == s.len() || sep(s[cut(s, sep)]),
    decreases s.len(),
{
    if s.len() > 0 && !sep(s[0]) {
        let t = s.skip(1);
        lemma_cut(t, sep);
        let k = cut(t, sep);
        assert forall|i: int| 0 <= i < k + 1 implies !sep(#[trigger] s.take(k + 1)[i]) by {
            if i > 0 {
                assert(s.take(k + 1)[i] == t.take(k)[i - 1]);
            }
        }
    }
}

/// Every piece is a non-empty run without separators.
pub proof fn pieces_are_unbroken<T>(s: Seq<T>, sep: spec_fn(T) -> bool)
    ensures
        forall|i: int|
            0 <= i < pieces(s, sep).len() ==> (#[trigger] pieces(s, sep)[i]).len() > 0 && unbroken(
                pieces(s, sep)[i],
                sep,
            ),
    decreases s.len(),
{
    if s.len() > 0 {
        let k = cut(s, sep);
        lemma_cut(s, sep);
        if k < s.len() {
            pieces_are_unbroken(s.skip(k + 1), sep);
        }
        let rest = if k < s.len() {
            pieces(s.skip(k + 1), sep)
        } else {
            Seq::empty()
        };
        assert forall|i: int| 0 <= i < pieces(s, sep).len() implies (#[trigger] pieces(
            s,
            sep,
        )[i]).len() > 0 && unbroken(pieces(s, sep)[i], sep) by {
            if k > 0 && i > 0 {
                assert(pieces(s, sep)[i] == rest[i - 1]);
            }
        }
    }
}

/// Splitting undoes joining: non-empty parts without separators come back
/// as they were.
pub proof fn split_undoes_join<T>(parts: Seq<Seq<T>>, sep: spec_fn(T) -> bool, mark: T)
    requires
        sep(mark),
        forall|i: int|
            0 <= i < parts.len() ==> (#[trigger] parts[i]).len() > 0 && unbroken(parts[i], sep),
    ensures
        pieces(joined(parts, mark), sep) == parts,
    decreases parts.len(),
{
    let s = joined(parts, mark);
    if parts.len() == 1 {
        assert(s.take(s.len() as int) =~= parts[0]);
        lemma_cut_is(s, sep, s.len() as int);
        assert(pieces(s, sep) =~= parts);
    } else if parts.len() > 1 {
        let k = parts[0].len() as int;
        let rest = parts.skip(1);
        assert(s.take(k) =~= parts[0]);
        assert(s[k] == mark);
        lemma_cut_is(s, sep, k);
        assert(s.skip(k + 1) =~= joined(rest, mark));
        split_undoes_join(rest, sep, mark);
        assert(pieces(s, sep) =~= parts);
    }
}

/// A separator parts what stands before it from what stands after it.
pub proof fn separators_part<T>(a: Seq<T>, mark: T, b: Seq<T>, sep: spec_fn(T) -> bool)
    requires
        sep(mark),
    ensures
        pieces(a.push(mark) + b, sep) == pieces(a, sep) + pieces(b, sep),
    decreases a.len(),
{
    let s = a.push(mark) + b;
    let k = cut(a, sep);
    lemma_cut(a, sep);
    assert(s.take(k) =~= a.take(k));
    lemma_cut_is(s, sep, k);
    if k < a.len() {
        let rest = a.skip(k + 1);
        assert(s.skip(k + 1) =~= rest.push(mark) + b);
        separators_part(rest, mark, b, sep);
    } else {
        assert(s.skip(k + 1) =~= b);
        assert(a.take(k) =~= a);
    }
    assert(pieces(s, sep) =~= pieces(a, sep) + pieces(b, sep));
}

/// A doubled separator counts as one, and none counts at the beginning or at
/// the end.
pub proof fn separators_do_not_add_up<T>(
    a: Seq<T>,
    mark: T,
    other: T,
    b: Seq<T>,
    sep: spec_fn(T) -> bool,
)
    requires
        sep(mark),
        sep(other),
    ensures
        pieces(a.push(mark).push(other) + b, sep) == pieces(a.push(mark) + b, sep),
        pieces(seq![mark] + b, sep) == pieces(b, sep),
        pieces(a.push(mark), sep) == pieces(a, sep),
{
    let none = Seq::<T>::empty();
    separators_part(a.push(mark), other, b, sep);
    separators_part(a, mark, b, sep);
    separators_part(a, mark, none, sep);
    assert(a.push(mark) + none =~= a.push(mark));
    assert(pieces(a, sep) + pieces(none, sep) =~= pieces(a, sep));
    separators_part(none, mark, b, sep);
    assert(none.push(mark) + b =~= seq![mark] + b);
    assert(pieces(none, sep) + pieces(b, sep) =~= pieces(b, sep));
}

/// What a piece holds, the whole holds, too.
pub proof fn pieces_add_nothing<T>(s: Seq<T>, sep: spec_fn(T) -> bool, i: int, x: T)
    requires
        0 <= i < pieces(s, sep).len(),
        pieces(s, sep)[i].contains(x),
    ensures
        s.contains(x),
    decreases s.len(),
{
    if s.len() > 0 {
        let k = cut(s, sep);
        lemma_cut(s, sep);
        if k > 0 && i == 0 {
            let j = s.take(k).index_of(x);
            assert(s[j] == x);
        } else {
            let rest = s.skip(k + 1);
            let i2 = if k == 0 {
                i
            } else {
                i - 1
            };
            pieces_add_nothing(rest, sep, i2, x);
            assert(s[k + 1 + rest.index_of(x)] == x);
        }
    }
}

/// A separator that is one of two characters.
pub open spec fn either(a: char, b: char) -> spec_fn(char) -> bool {
    |c: char| c == a || c == b
}

/// Finds the first `a` or `b` of `v` from position `from` on; `v.len()` when
/// there is none.
pub fn index_of(v: &Vec<char>, from: usize, a: char, b: char) -> (r: usize)
    requires
        from <= v@.len(),
    ensures
        from <= r <= v@.len(),
        r - from == cut(v@.skip(from as int), either(a, b)),
        r < v@.len() ==> v@[r as int] == a || v@[r as int] == b,
{
    let ghost tail = v@.skip(from as int);
    let mut i: usize = from;
    while i < v.len() && v[i] != a && v[i] != b
        invariant
            from <= i <= v@.len(),
            tail == v@.skip(from as int),
            unbroken(tail.take(i - from), either(a, b)),
        decreases v@.len() - i,
    {
        assert(tail.take(i - from + 1) =~= tail.take(i - from).push(v@[i as int]));
        i += 1;
    }
    proof {
        lemma_cut_is(tail, either(a, b), i - from);
    }
    i
}

/// One step of splitting: the run `s[start..end]` ends at a separator or at
/// the end of `s`.
pub proof fn lemma_pieces_step<T>(s: Seq<T>, sep: spec_fn(T) -> bool, start: int, end: int)
    requires
        0 <= start <= end <= s.len(),
        unbroken(s.subrange(start, end), sep),
        end == s.len() || sep(s[end]),
    ensures
        ({
            let head = if start < end {
                seq![s.subrange(start, end)]
            } else {
                Seq::empty()
            };
            let tail = if end < s.len() {
                pieces(s.skip(end + 1), sep)
            } else {
                Seq::empty()
            };
            pieces(s.skip(start), sep) == head + tail
        }),
{
    let t = s.skip(start);
    assert(t.take(end - start) =~= s.subrange(start, end));
    lemma_cut_is(t, sep, end - start);
    if end < s.len() {
        assert(t.skip(end - start + 1) =~= s.skip(end + 1));
    }
    let head = if start < end {
        seq![s.subrange(start, end)]
    } else {
        Seq::empty()
    };
    let tail = if end < s.len() {
        pieces(s.skip(end + 1), sep)
    } else {
        Seq::empty()
    };
    assert(pieces(t, sep) =~= head + tail);
}

/// What holds no separator is one piece, and nothing is none.
pub proof fn unbroken_is_one_piece<T>(s: Seq<T>, sep: spec_fn(T) -> bool)
    requires
        unbroken(s, sep),
    ensures
        s.len() == 0 ==> pieces(s, sep) == Seq::<Seq<T>>::empty(),
        s.len() > 0 ==> pieces(s, sep) == seq![s],
{
    if s.len() > 0 {
        assert(s.take(s.len() as int) =~= s);
        lemma_cut_is(s, sep, s.len() as int);
        assert(pieces(s, sep) =~= seq![s]);
    }
}

} // verus!
