//! Splitting a text at a separator.

use vstd::prelude::*;
use vstd::string::StrSliceExecFns;
use crate::data::strings_view;

verus! {

/// The pieces into which the separator parts a text, read character by
/// character: a separator opens a new piece, any other character is added
/// to the piece that is open. A text without separator is one piece.
pub open spec fn pieces(s: Seq<char>, sep: char) -> Seq<Seq<char>>
    decreases s.len(),
{
    if s.len() == 0 {
        seq![Seq::empty()]
    } else {
        let before = pieces(s.drop_last(), sep);
        if s.last() == sep {
            before.push(Seq::empty())
        } else {
            before.update(before.len() - 1, before.last().push(s.last()))
        }
    }
}

/// The separator does not occur in the piece.
pub open spec fn free_of(piece: Seq<char>, sep: char) -> bool {
    forall|i: int| 0 <= i < piece.len() ==> piece[i] != sep
}

/// No part holds the separator.
pub open spec fn all_free_of(parts: Seq<Seq<char>>, sep: char) -> bool {
    forall|i: int| 0 <= i < parts.len() ==> free_of(#[trigger] parts[i], sep)
}

/// The pieces written one after the other with the separator between them.
pub open spec fn joined(parts: Seq<Seq<char>>, sep: char) -> Seq<char>
    decreases parts.len(),
{
    if parts.len() == 0 {
        Seq::empty()
    } else if parts.len() == 1 {
        parts[0]
    } else {
        joined(parts.drop_last(), sep) + seq![sep] + parts.last()
    }
}

/// Splitting leaves at least one piece, no piece holds the separator, and
/// the pieces joined by the separator are the text again.
pub proof fn lemma_pieces_join(s: Seq<char>, sep: char)
    ensures
        pieces(s, sep).len() >= 1,
        all_free_of(pieces(s, sep), sep),
        joined(pieces(s, sep), sep) == s,
    decreases s.len(),
{
    if s.len() == 0 {
        assert(joined(pieces(s, sep), sep) =~= s);
    } else {
        let t = s.drop_last();
        let before = pieces(t, sep);
        lemma_pieces_join(t, sep);
        let after = pieces(s, sep);
        assert(s =~= t.push(s.last()));
        if s.last() == sep {
            assert(after.drop_last() =~= before);
            assert(joined(after, sep) =~= s);
        } else {
            let n = before.len() - 1;
            assert(after.last() == before.last().push(s.last()));
            if before.len() == 1 {
                assert(joined(after, sep) =~= s);
            } else {
                assert(after.drop_last() =~= before.drop_last());
                assert(joined(after, sep) =~= s);
            }
            assert forall|i: int| 0 <= i < after.len() implies free_of(#[trigger] after[i], sep) by {
                if i < n {
                    assert(after[i] == before[i]);
                } else {
                    assert(free_of(before[n], sep));
                }
            }
        }
    }
}

/// A text can be split in one way only: parts without separator that give
/// the same text when they are joined are the same parts.
pub proof fn lemma_split_unique(a: Seq<Seq<char>>, b: Seq<Seq<char>>, sep: char)
    requires
        a.len() >= 1,
        b.len() >= 1,
        all_free_of(a, sep),
        all_free_of(b, sep),
        joined(a, sep) == joined(b, sep),
    ensures
        a == b,
    decreases a.len() + b.len(),
{
    let s = joined(a, sep);
    let x = a.last();
    let y = b.last();
    assert(free_of(x, sep) && free_of(y, sep));
    if a.len() == 1 && b.len() == 1 {
        assert(a =~= b);
    } else if a.len() == 1 {
        // The text is one part without separator, yet `b` puts one into it.
        let head = joined(b.drop_last(), sep);
        assert(s == head + seq![sep] + y);
        assert(s[head.len() as int] == sep);
        assert(false);
    } else if b.len() == 1 {
        let head = joined(a.drop_last(), sep);
        assert(s == head + seq![sep] + x);
        assert(s[head.len() as int] == sep);
        assert(false);
    } else {
        let ha = joined(a.drop_last(), sep);
        let hb = joined(b.drop_last(), sep);
        assert(s == ha + seq![sep] + x);
        assert(s == hb + seq![sep] + y);
        // The last separator of the text stands before the last part, so
        // the last parts have the same length.
        if x.len() < y.len() {
            assert(s[ha.len() as int] == sep);
            assert(s[ha.len() as int] == y[ha.len() - hb.len() - 1]);
            assert(false);
        }
        if y.len() < x.len() {
            assert(s[hb.len() as int] == sep);
            assert(s[hb.len() as int] == x[hb.len() - ha.len() - 1]);
            assert(false);
        }
        assert(ha.len() == hb.len());
        assert(x =~= y) by {
            assert forall|i: int| 0 <= i < x.len() implies x[i] == y[i] by {
                assert(s[ha.len() + 1 + i] == x[i]);
                assert(s[hb.len() + 1 + i] == y[i]);
            }
        }
        assert(ha =~= hb) by {
            assert forall|i: int| 0 <= i < ha.len() implies ha[i] == hb[i] by {
                assert(s[i] == ha[i]);
                assert(s[i] == hb[i]);
            }
        }
        assert(all_free_of(a.drop_last(), sep)) by {
            assert forall|i: int| 0 <= i < a.drop_last().len() implies free_of(
                #[trigger] a.drop_last()[i],
                sep,
            ) by {
                assert(a.drop_last()[i] == a[i]);
            }
        }
        assert(all_free_of(b.drop_last(), sep)) by {
            assert forall|i: int| 0 <= i < b.drop_last().len() implies free_of(
                #[trigger] b.drop_last()[i],
                sep,
            ) by {
                assert(b.drop_last()[i] == b[i]);
            }
        }
        lemma_split_unique(a.drop_last(), b.drop_last(), sep);
        assert(a =~= a.drop_last().push(x));
        assert(b =~= b.drop_last().push(y));
    }
}

/// The pieces of a text are the only parts without separator that give
/// the text when they are joined.
pub proof fn lemma_pieces_are_the_split(s: Seq<char>, parts: Seq<Seq<char>>, sep: char)
    requires
        parts.len() >= 1,
        all_free_of(parts, sep),
        joined(parts, sep) == s,
    ensures
        parts == pieces(s, sep),
{
    lemma_pieces_join(s, sep);
    lemma_split_unique(parts, pieces(s, sep), sep);
}

/// Splits `s` at every occurrence of `sep`.
pub fn split(s: &str, sep: char) -> (out: Vec<String>)
    ensures
        strings_view(out@) == pieces(s@, sep),
{
    broadcast use vstd::string::group_string_axioms;

    let n = s.unicode_len();
    let mut out: Vec<String> = Vec::new();
    let mut start: usize = 0;
    let mut k: usize = 0;
    proof {
        assert(s@.subrange(0, 0) =~= Seq::<char>::empty());
        assert(strings_view(out@).push(s@.subrange(0, 0)) =~= pieces(s@.take(0), sep));
    }
    for c in it: s.chars()
        invariant
            it.seq() == s@,
            n == s@.len(),
            k == it.index(),
            start <= k <= n,
            strings_view(out@).push(s@.subrange(start as int, k as int)) == pieces(
                s@.take(k as int),
                sep,
            ),
    {
        proof {
            assert(s@.take(k + 1).drop_last() =~= s@.take(k as int));
            assert(s@.take(k + 1).last() == c);
        }
        let ghost done = strings_view(out@);
        if c == sep {
            let piece = s.substring_char(start, k);
            out.push(piece.to_owned());
            start = k + 1;
            proof {
                assert(strings_view(out@) =~= done.push(piece@));
                assert(s@.subrange(start as int, k + 1) =~= Seq::<char>::empty());
            }
        } else {
            proof {
                let open = done.push(s@.subrange(start as int, k as int));
                assert(open.last().push(c) =~= s@.subrange(start as int, k + 1));
                assert(open.update(open.len() - 1, open.last().push(c)) =~= done.push(
                    s@.subrange(start as int, k + 1),
                ));
            }
        }
        k += 1;
    }
    let ghost done = strings_view(out@);
    let piece = s.substring_char(start, n);
    out.push(piece.to_owned());
    proof {
        assert(strings_view(out@) =~= done.push(piece@));
        assert(s@.take(n as int) =~= s@);
    }
    out
}

} // verus!
