//! Sorting of records by a string key, in byte order.
//!
//! Records with the same key keep the order in which they came.

use vstd::prelude::*;
use crate::text::{str_le, string_le, order_key, lemma_lex_le_reflexive, lemma_lex_le_total, lemma_lex_le_transitive};

verus! {

/// A record that is ordered by a string it holds.
pub trait Keyed {
    /// The string by which the record is ordered.
    spec fn key(&self) -> Seq<char>;

    /// The string by which the record is ordered.
    fn key_str(&self) -> (k: &str)
        ensures
            k@ == self.key(),
    ;
}

/// The key of a record, as a function.
pub open spec fn key_of<T: Keyed>() -> spec_fn(T) -> Seq<char> {
    |t: T| t.key()
}

/// Whether `a` may stand before `b`: in ascending order when its key comes
/// no later, in descending order when its key comes no earlier.
pub open spec fn before_by<A>(a: A, b: A, key: spec_fn(A) -> Seq<char>, descending: bool) -> bool {
    if descending {
        str_le(key(b), key(a))
    } else {
        str_le(key(a), key(b))
    }
}

/// Every value may stand before all that follow it.
pub open spec fn sorted_by_key<A>(s: Seq<A>, key: spec_fn(A) -> Seq<char>, descending: bool) -> bool {
    forall|i: int, j: int| 0 <= i < j < s.len() ==> before_by(s[i], s[j], key, descending)
}

/// The place of a new value in a sorted sequence: the first place whose
/// value it may stand before, or the end.
pub open spec fn place_by<A>(
    out: Seq<A>,
    item: A,
    key: spec_fn(A) -> Seq<char>,
    descending: bool,
) -> int
    decreases out.len(),
{
    if out.len() == 0 || before_by(item, out[0], key, descending) {
        0
    } else {
        1 + place_by(out.drop_first(), item, key, descending)
    }
}

/// The values in order: the last value alone, and each value before it put
/// at its place among those that follow it.
pub open spec fn arranged_by<A>(s: Seq<A>, key: spec_fn(A) -> Seq<char>, descending: bool) -> Seq<A>
    decreases s.len(),
{
    if s.len() == 0 {
        Seq::empty()
    } else {
        let rest = arranged_by(s.drop_first(), key, descending);
        rest.insert(place_by(rest, s[0], key, descending), s[0])
    }
}

/// The values with a given key, in their order.
pub open spec fn with_key<A>(s: Seq<A>, key: spec_fn(A) -> Seq<char>, k: Seq<char>) -> Seq<A>
    decreases s.len(),
{
    if s.len() == 0 {
        Seq::empty()
    } else if key(s[0]) == k {
        seq![s[0]] + with_key(s.drop_first(), key, k)
    } else {
        with_key(s.drop_first(), key, k)
    }
}

/// Whether `a` may stand before `b`, by their keys.
pub open spec fn in_order<T: Keyed>(a: T, b: T, descending: bool) -> bool {
    before_by(a, b, key_of::<T>(), descending)
}

/// Every record may stand before all that follow it.
pub open spec fn sorted<T: Keyed>(s: Seq<T>, descending: bool) -> bool {
    sorted_by_key(s, key_of::<T>(), descending)
}

/// The records in order of their keys; records with the same key in the
/// order in which they came.
pub open spec fn arranged<T: Keyed>(s: Seq<T>, descending: bool) -> Seq<T> {
    arranged_by(s, key_of::<T>(), descending)
}

/// Of any two values one may stand before the other.
pub proof fn lemma_before_total<A>(a: A, b: A, key: spec_fn(A) -> Seq<char>, descending: bool)
    ensures
        before_by(a, b, key, descending) || before_by(b, a, key, descending),
{
    lemma_lex_le_total(order_key(key(a)), order_key(key(b)));
}

/// Standing before is transitive.
pub proof fn lemma_before_transitive<A>(
    a: A,
    b: A,
    c: A,
    key: spec_fn(A) -> Seq<char>,
    descending: bool,
)
    requires
        before_by(a, b, key, descending),
        before_by(b, c, key, descending),
    ensures
        before_by(a, c, key, descending),
{
    if descending {
        lemma_lex_le_transitive(order_key(key(c)), order_key(key(b)), order_key(key(a)));
    } else {
        lemma_lex_le_transitive(order_key(key(a)), order_key(key(b)), order_key(key(c)));
    }
}

/// The place of a new value is the first place whose value it may stand
/// before.
pub proof fn lemma_place<A>(out: Seq<A>, item: A, key: spec_fn(A) -> Seq<char>, descending: bool)
    ensures
        0 <= place_by(out, item, key, descending) <= out.len(),
        forall|j: int|
            0 <= j < place_by(out, item, key, descending) ==> !before_by(
                item,
                #[trigger] out[j],
                key,
                descending,
            ),
        place_by(out, item, key, descending) < out.len() ==> before_by(
            item,
            out[place_by(out, item, key, descending)],
            key,
            descending,
        ),
    decreases out.len(),
{
    if out.len() > 0 && !before_by(item, out[0], key, descending) {
        let rest = out.drop_first();
        lemma_place(rest, item, key, descending);
        let p = place_by(out, item, key, descending);
        assert forall|j: int| 0 <= j < p implies !before_by(
            item,
            #[trigger] out[j],
            key,
            descending,
        ) by {
            if j > 0 {
                assert(out[j] == rest[j - 1]);
            }
        }
    }
}

/// A place before which the new value may stand before no value, and at
/// which the sequence ends or holds a value that it may stand before, is
/// the place of the new value.
pub proof fn lemma_place_is<A>(
    out: Seq<A>,
    item: A,
    key: spec_fn(A) -> Seq<char>,
    descending: bool,
    p: int,
)
    requires
        0 <= p <= out.len(),
        forall|j: int| 0 <= j < p ==> !before_by(item, #[trigger] out[j], key, descending),
        p < out.len() ==> before_by(item, out[p], key, descending),
    ensures
        place_by(out, item, key, descending) == p,
    decreases out.len(),
{
    if p > 0 {
        let rest = out.drop_first();
        assert(!before_by(item, out[0], key, descending));
        assert forall|j: int| 0 <= j < p - 1 implies !before_by(
            item,
            #[trigger] rest[j],
            key,
            descending,
        ) by {
            assert(rest[j] == out[j + 1]);
        }
        lemma_place_is(rest, item, key, descending, p - 1);
    }
}

/// A sorted sequence with a new value at its place is sorted, and holds
/// the new value besides what it held.
pub proof fn lemma_insert_at_place<A>(
    out: Seq<A>,
    item: A,
    key: spec_fn(A) -> Seq<char>,
    descending: bool,
)
    requires
        sorted_by_key(out, key, descending),
    ensures
        sorted_by_key(
            out.insert(place_by(out, item, key, descending), item),
            key,
            descending,
        ),
        out.insert(place_by(out, item, key, descending), item).to_multiset()
            == out.to_multiset().insert(item),
{
    let p = place_by(out, item, key, descending);
    lemma_place(out, item, key, descending);
    let after = out.insert(p, item);
    vstd::seq_lib::to_multiset_insert(out, p, item);
    assert forall|i: int, j: int| 0 <= i < j < after.len() implies before_by(
        after[i],
        after[j],
        key,
        descending,
    ) by {
        if j < p {
            assert(after[i] == out[i] && after[j] == out[j]);
        } else if j == p {
            assert(after[i] == out[i]);
            lemma_before_total(item, out[i], key, descending);
        } else if i < p {
            assert(after[i] == out[i] && after[j] == out[j - 1]);
        } else if i == p {
            assert(after[j] == out[j - 1]);
            if j - 1 > p {
                lemma_before_transitive(item, out[p], out[j - 1], key, descending);
            }
        } else {
            assert(after[i] == out[i - 1] && after[j] == out[j - 1]);
        }
    }
}

/// The values in order are sorted, and are the values that were given,
/// each as often as it was given.
pub proof fn lemma_arranged_sorted<A>(s: Seq<A>, key: spec_fn(A) -> Seq<char>, descending: bool)
    ensures
        sorted_by_key(arranged_by(s, key, descending), key, descending),
        arranged_by(s, key, descending).to_multiset() == s.to_multiset(),
        arranged_by(s, key, descending).len() == s.len(),
    decreases s.len(),
{
    broadcast use vstd::seq_lib::group_to_multiset_ensures;

    if s.len() == 0 {
        assert(arranged_by(s, key, descending) =~= s);
    } else {
        let rest = arranged_by(s.drop_first(), key, descending);
        lemma_arranged_sorted(s.drop_first(), key, descending);
        lemma_insert_at_place(rest, s[0], key, descending);
        lemma_place(rest, s[0], key, descending);
        assert(s =~= seq![s[0]] + s.drop_first());
        vstd::seq_lib::lemma_multiset_commutative(seq![s[0]], s.drop_first());
        assert(seq![s[0]].to_multiset() =~= vstd::multiset::Multiset::<A>::empty().insert(s[0])) by {
            assert(seq![s[0]] =~= Seq::<A>::empty().push(s[0]));
        }
        assert(s.to_multiset() =~= s.drop_first().to_multiset().insert(s[0]));
    }
}

/// The values with a given key in two sequences, one after the other.
proof fn lemma_with_key_add<A>(a: Seq<A>, b: Seq<A>, key: spec_fn(A) -> Seq<char>, k: Seq<char>)
    ensures
        with_key(a + b, key, k) == with_key(a, key, k) + with_key(b, key, k),
    decreases a.len(),
{
    if a.len() == 0 {
        assert(a + b =~= b);
        assert(with_key(a, key, k) + with_key(b, key, k) =~= with_key(b, key, k));
    } else {
        lemma_with_key_add(a.drop_first(), b, key, k);
        assert((a + b).drop_first() =~= a.drop_first() + b);
        assert((a + b)[0] == a[0]);
        if key(a[0]) == k {
            assert(with_key(a + b, key, k) =~= with_key(a, key, k) + with_key(b, key, k));
        }
    }
}

/// No value with a given key where no value has that key.
proof fn lemma_with_key_none<A>(a: Seq<A>, key: spec_fn(A) -> Seq<char>, k: Seq<char>)
    requires
        forall|j: int| 0 <= j < a.len() ==> key(#[trigger] a[j]) != k,
    ensures
        with_key(a, key, k) == Seq::<A>::empty(),
    decreases a.len(),
{
    if a.len() > 0 {
        assert(key(a[0]) != k);
        assert forall|j: int| 0 <= j < a.drop_first().len() implies key(
            #[trigger] a.drop_first()[j],
        ) != k by {
            assert(a.drop_first()[j] == a[j + 1]);
        }
        lemma_with_key_none(a.drop_first(), key, k);
    }
}

/// Values with the same key keep their order: those of a key stand in the
/// arranged sequence as they stood in the given one.
pub proof fn lemma_arranged_stable<A>(
    s: Seq<A>,
    key: spec_fn(A) -> Seq<char>,
    descending: bool,
    k: Seq<char>,
)
    ensures
        with_key(arranged_by(s, key, descending), key, k) == with_key(s, key, k),
    decreases s.len(),
{
    if s.len() > 0 {
        let x = s[0];
        let rest = arranged_by(s.drop_first(), key, descending);
        let p = place_by(rest, x, key, descending);
        lemma_arranged_stable(s.drop_first(), key, descending, k);
        lemma_place(rest, x, key, descending);
        let head = rest.take(p);
        let tail = rest.skip(p);
        assert(rest =~= head + tail);
        assert(rest.insert(p, x) =~= (head + seq![x]) + tail);
        lemma_with_key_add(head, tail, key, k);
        lemma_with_key_add(head + seq![x], tail, key, k);
        lemma_with_key_add(head, seq![x], key, k);
        assert(seq![x].drop_first() =~= Seq::<A>::empty());
        assert(with_key(seq![x].drop_first(), key, k) =~= Seq::<A>::empty());
        if key(x) == k {
            assert forall|j: int| 0 <= j < head.len() implies key(#[trigger] head[j]) != k by {
                assert(head[j] == rest[j]);
                if key(head[j]) == k {
                    lemma_lex_le_reflexive(order_key(k));
                    assert(before_by(x, rest[j], key, descending));
                }
            }
            lemma_with_key_none(head, key, k);
            assert(with_key(seq![x], key, k) =~= seq![x]);
            assert(with_key(rest.insert(p, x), key, k) =~= seq![x] + with_key(tail, key, k));
            assert(with_key(rest, key, k) =~= with_key(tail, key, k));
        } else {
            assert(with_key(seq![x], key, k) =~= Seq::<A>::empty());
            assert(with_key(rest.insert(p, x), key, k) =~= with_key(rest, key, k));
        }
    }
}

/// Arranging values and then mapping them is mapping them and then
/// arranging them, where the mapping keeps the keys.
pub proof fn lemma_arranged_map<A, B>(
    s: Seq<A>,
    f: spec_fn(A) -> B,
    key_a: spec_fn(A) -> Seq<char>,
    key_b: spec_fn(B) -> Seq<char>,
    descending: bool,
)
    requires
        forall|a: A| #[trigger] key_b(f(a)) == key_a(a),
    ensures
        arranged_by(s, key_a, descending).map_values(f) == arranged_by(
            s.map_values(f),
            key_b,
            descending,
        ),
    decreases s.len(),
{
    let mapped = s.map_values(f);
    if s.len() == 0 {
        assert(arranged_by(s, key_a, descending).map_values(f) =~= arranged_by(
            mapped,
            key_b,
            descending,
        ));
    } else {
        let rest = arranged_by(s.drop_first(), key_a, descending);
        lemma_arranged_map(s.drop_first(), f, key_a, key_b, descending);
        assert(mapped.drop_first() =~= s.drop_first().map_values(f));
        assert(mapped[0] == f(s[0]));
        lemma_place_map(rest, s[0], f, key_a, key_b, descending);
        let p = place_by(rest, s[0], key_a, descending);
        lemma_place(rest, s[0], key_a, descending);
        assert(rest.insert(p, s[0]).map_values(f) =~= rest.map_values(f).insert(p, f(s[0])));
    }
}

/// A value has the same place among values as its image has among their
/// images, where the mapping keeps the keys.
proof fn lemma_place_map<A, B>(
    out: Seq<A>,
    item: A,
    f: spec_fn(A) -> B,
    key_a: spec_fn(A) -> Seq<char>,
    key_b: spec_fn(B) -> Seq<char>,
    descending: bool,
)
    requires
        forall|a: A| #[trigger] key_b(f(a)) == key_a(a),
    ensures
        place_by(out, item, key_a, descending) == place_by(
            out.map_values(f),
            f(item),
            key_b,
            descending,
        ),
    decreases out.len(),
{
    if out.len() > 0 {
        assert(out.map_values(f)[0] == f(out[0]));
        assert(key_b(f(out[0])) == key_a(out[0]));
        assert(key_b(f(item)) == key_a(item));
        if !before_by(item, out[0], key_a, descending) {
            lemma_place_map(out.drop_first(), item, f, key_a, key_b, descending);
            assert(out.map_values(f).drop_first() =~= out.drop_first().map_values(f));
        }
    }
}

/// Decides whether `a` may stand before `b`.
pub fn goes_before<T: Keyed>(a: &T, b: &T, descending: bool) -> (r: bool)
    ensures
        r == in_order(*a, *b, descending),
{
    if descending {
        string_le(b.key_str(), a.key_str())
    } else {
        string_le(a.key_str(), b.key_str())
    }
}

/// Puts `item` into a sorted vector at its place: before the first record
/// that it may stand before. The vector stays sorted.
pub fn insert_sorted<T: Keyed>(out: &mut Vec<T>, item: T, descending: bool)
    requires
        sorted(old(out)@, descending),
    ensures
        final(out)@ == old(out)@.insert(
            place_by(old(out)@, item, key_of::<T>(), descending),
            item,
        ),
        sorted(final(out)@, descending),
        final(out)@.to_multiset() == old(out)@.to_multiset().insert(item),
        final(out)@.len() == old(out)@.len() + 1,
{
    let mut p: usize = 0;
    while p < out.len() && !goes_before(&item, &out[p], descending)
        invariant
            p <= out.len(),
            out@ == old(out)@,
            forall|j: int|
                0 <= j < p ==> !before_by(item, #[trigger] out@[j], key_of::<T>(), descending),
        decreases out.len() - p,
    {
        p += 1;
    }
    proof {
        lemma_place_is(out@, item, key_of::<T>(), descending, p as int);
        lemma_insert_at_place(out@, item, key_of::<T>(), descending);
    }
    out.insert(p, item);
}

/// Sorts records by their keys in byte order, ascending or descending.
///
/// The result holds the same records, each as often as before, and records
/// with the same key in the order in which they came.
pub fn sort_by_key<T: Keyed>(items: Vec<T>, descending: bool) -> (out: Vec<T>)
    ensures
        out@ == arranged(items@, descending),
        sorted(out@, descending),
        out@.to_multiset() == items@.to_multiset(),
        out@.len() == items@.len(),
{
    let ghost all = items@;
    let mut rest = items;
    let mut out: Vec<T> = Vec::new();
    proof {
        assert(all.skip(all.len() as int) =~= Seq::<T>::empty());
        lemma_arranged_sorted(all, key_of::<T>(), descending);
    }
    while rest.len() > 0
        invariant
            rest@.len() <= all.len(),
            rest@ == all.take(rest@.len() as int),
            out@ == arranged(all.skip(rest@.len() as int), descending),
            sorted(out@, descending),
        decreases rest.len(),
    {
        let ghost k = rest@.len() as int;
        let item = rest.pop().unwrap();
        proof {
            assert(item == all[k - 1]);
            assert(all.skip(k - 1).drop_first() =~= all.skip(k));
            assert(all.skip(k - 1)[0] == item);
            assert(rest@ =~= all.take(k - 1));
        }
        insert_sorted(&mut out, item, descending);
    }
    proof {
        assert(all.skip(0) =~= all);
    }
    out
}

/// Mapping both of two sequences that hold the same values equally often
/// gives two sequences that hold the same values equally often.
pub proof fn lemma_map_values_multiset<A, B>(a: Seq<A>, b: Seq<A>, f: spec_fn(A) -> B)
    requires
        a.to_multiset() == b.to_multiset(),
    ensures
        a.map_values(f).to_multiset() == b.map_values(f).to_multiset(),
    decreases a.len(),
{
    broadcast use vstd::seq_lib::group_to_multiset_ensures;

    assert(a.to_multiset().len() == a.len() && b.to_multiset().len() == b.len());
    if a.len() == 0 {
        assert(b.len() == 0);
        assert(a.map_values(f) =~= b.map_values(f));
    } else {
        let x = a.last();
        let rest = a.drop_last();
        assert(a =~= rest.push(x));
        assert(a.to_multiset().contains(x));
        assert(b.to_multiset().contains(x));
        let i = choose|i: int| 0 <= i < b.len() && b[i] == x;
        let others = b.remove(i);
        assert(rest.to_multiset() =~= a.to_multiset().remove(x));
        assert(others.to_multiset() =~= b.to_multiset().remove(x));
        lemma_map_values_multiset(rest, others, f);
        assert(a.map_values(f) =~= rest.map_values(f).push(f(x)));
        assert(b.map_values(f) =~= others.map_values(f).insert(i, f(x)));
    }
}

} // verus!
