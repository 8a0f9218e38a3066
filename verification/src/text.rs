//! Strings: their byte-wise lexicographic order, and optional strings.

use vstd::prelude::*;

verus! {

/// `a` comes no later than `b` when both are read from position `i` on:
/// the first position at which they differ decides, and a sequence that
/// ends first comes first.
pub open spec fn lex_le_from(a: Seq<u8>, b: Seq<u8>, i: int) -> bool
    decreases a.len() - i,
{
    if i < 0 || i >= a.len() {
        true
    } else if i >= b.len() {
        false
    } else if a[i] != b[i] {
        a[i] < b[i]
    } else {
        lex_le_from(a, b, i + 1)
    }
}

/// Lexicographic order on byte sequences.
pub open spec fn lex_le(a: Seq<u8>, b: Seq<u8>) -> bool {
    lex_le_from(a, b, 0)
}

/// The bytes by which a string is ordered: its UTF-8 encoding.
pub open spec fn order_key(s: Seq<char>) -> Seq<u8> {
    vstd::utf8::encode_utf8(s)
}

/// Whether string `a` comes no later than string `b`, byte by byte.
pub open spec fn str_le(a: Seq<char>, b: Seq<char>) -> bool {
    lex_le(order_key(a), order_key(b))
}

proof fn lemma_lex_le_from_antisymmetric(a: Seq<u8>, b: Seq<u8>, i: int)
    requires
        0 <= i,
        lex_le_from(a, b, i),
        lex_le_from(b, a, i),
        i <= a.len(),
        i <= b.len(),
        forall|j: int| 0 <= j < i ==> a[j] == b[j],
    ensures
        a == b,
    decreases a.len() - i,
{
    if i >= a.len() {
        assert(i >= b.len());
        assert(a =~= b);
    } else if i >= b.len() {
    } else {
        lemma_lex_le_from_antisymmetric(a, b, i + 1);
    }
}

proof fn lemma_lex_le_from_total(a: Seq<u8>, b: Seq<u8>, i: int)
    requires
        0 <= i,
    ensures
        lex_le_from(a, b, i) || lex_le_from(b, a, i),
    decreases a.len() - i,
{
    if i < a.len() && i < b.len() && a[i] == b[i] {
        lemma_lex_le_from_total(a, b, i + 1);
    }
}

proof fn lemma_lex_le_from_transitive(a: Seq<u8>, b: Seq<u8>, c: Seq<u8>, i: int)
    requires
        0 <= i,
        lex_le_from(a, b, i),
        lex_le_from(b, c, i),
    ensures
        lex_le_from(a, c, i),
    decreases a.len() - i,
{
    if i < a.len() && i < b.len() && i < c.len() && a[i] == b[i] && b[i] == c[i] {
        lemma_lex_le_from_transitive(a, b, c, i + 1);
    }
}

/// The order is reflexive.
pub proof fn lemma_lex_le_reflexive(a: Seq<u8>)
    ensures
        lex_le(a, a),
{
    lemma_lex_le_from_reflexive(a, 0);
}

proof fn lemma_lex_le_from_reflexive(a: Seq<u8>, i: int)
    requires
        0 <= i,
    ensures
        lex_le_from(a, a, i),
    decreases a.len() - i,
{
    if i < a.len() {
        lemma_lex_le_from_reflexive(a, i + 1);
    }
}

/// Any two byte sequences are comparable.
pub proof fn lemma_lex_le_total(a: Seq<u8>, b: Seq<u8>)
    ensures
        lex_le(a, b) || lex_le(b, a),
{
    lemma_lex_le_from_total(a, b, 0);
}

/// The order is transitive.
pub proof fn lemma_lex_le_transitive(a: Seq<u8>, b: Seq<u8>, c: Seq<u8>)
    requires
        lex_le(a, b),
        lex_le(b, c),
    ensures
        lex_le(a, c),
{
    lemma_lex_le_from_transitive(a, b, c, 0);
}

/// Two byte sequences of which each comes no later than the other are equal.
pub proof fn lemma_lex_le_antisymmetric(a: Seq<u8>, b: Seq<u8>)
    requires
        lex_le(a, b),
        lex_le(b, a),
    ensures
        a == b,
{
    lemma_lex_le_from_antisymmetric(a, b, 0);
}

/// The two sequences hold the same bytes at all places before `k`.
pub open spec fn agree_before(a: Seq<u8>, b: Seq<u8>, k: int) -> bool {
    forall|j: int| 0 <= j < k ==> a[j] == b[j]
}

/// At place `k` the sequences differ for the first time, and `a` holds the
/// smaller byte there.
pub open spec fn smaller_at(a: Seq<u8>, b: Seq<u8>, k: int) -> bool {
    0 <= k < a.len() && k < b.len() && agree_before(a, b, k) && a[k] < b[k]
}

proof fn lemma_lex_le_from_first_difference(a: Seq<u8>, b: Seq<u8>, i: int)
    requires
        0 <= i <= a.len(),
        i <= b.len(),
        agree_before(a, b, i),
    ensures
        lex_le_from(a, b, i) <==> a.is_prefix_of(b) || exists|k: int| smaller_at(a, b, k),
    decreases a.len() - i,
{
    if i >= a.len() {
        assert(a =~= b.subrange(0, a.len() as int));
    } else if i >= b.len() {
        assert forall|k: int| !smaller_at(a, b, k) by {}
    } else if a[i] != b[i] {
        if a.is_prefix_of(b) {
            assert(a[i] == b.subrange(0, a.len() as int)[i]);
        }
        if a[i] < b[i] {
            assert(smaller_at(a, b, i));
        } else {
            assert forall|k: int| !smaller_at(a, b, k) by {}
        }
    } else {
        lemma_lex_le_from_first_difference(a, b, i + 1);
    }
}

/// The order is the order of dictionaries: `a` comes no later than `b`
/// exactly if `b` begins with `a`, or `a` holds the smaller byte at the
/// first place at which the two differ.
pub proof fn lemma_lex_le_first_difference(a: Seq<u8>, b: Seq<u8>)
    ensures
        lex_le(a, b) <==> a.is_prefix_of(b) || exists|k: int| smaller_at(a, b, k),
{
    lemma_lex_le_from_first_difference(a, b, 0);
}

/// Decides the lexicographic order of two byte slices.
pub fn bytes_le(a: &[u8], b: &[u8]) -> (r: bool)
    ensures
        r == lex_le(a@, b@),
{
    let mut i: usize = 0;
    while i < a.len() && i < b.len()
        invariant
            i <= a.len(),
            i <= b.len(),
            lex_le(a@, b@) == lex_le_from(a@, b@, i as int),
        decreases a.len() - i,
    {
        if a[i] != b[i] {
            return a[i] < b[i];
        }
        i += 1;
    }
    i >= a.len()
}

/// Strings with the same order key are the same string.
pub proof fn lemma_order_key_injective(a: Seq<char>, b: Seq<char>)
    requires
        order_key(a) == order_key(b),
    ensures
        a == b,
{
    vstd::utf8::encode_utf8_decode_utf8(a);
    vstd::utf8::encode_utf8_decode_utf8(b);
}

/// Byte order as a relation: ascending, or turned round.
pub open spec fn str_order(descending: bool) -> spec_fn(Seq<char>, Seq<char>) -> bool {
    |a: Seq<char>, b: Seq<char>|
        if descending {
            str_le(b, a)
        } else {
            str_le(a, b)
        }
}

/// Byte order is a total order on strings, in either direction.
pub proof fn lemma_str_le_total_ordering(descending: bool)
    ensures
        vstd::relations::total_ordering(str_order(descending)),
{
    let r = str_order(descending);
    assert forall|x: Seq<char>| #[trigger] r(x, x) by {
        lemma_lex_le_reflexive(order_key(x));
    }
    assert forall|x: Seq<char>, y: Seq<char>| #[trigger] r(x, y) && #[trigger] r(y, x) implies x
        == y by {
        lemma_lex_le_antisymmetric(order_key(x), order_key(y));
        lemma_order_key_injective(x, y);
    }
    assert forall|x: Seq<char>, y: Seq<char>, z: Seq<char>| #[trigger]
        r(x, y) && #[trigger] r(y, z) implies r(x, z) by {
        if descending {
            lemma_lex_le_transitive(order_key(z), order_key(y), order_key(x));
        } else {
            lemma_lex_le_transitive(order_key(x), order_key(y), order_key(z));
        }
    }
    assert forall|x: Seq<char>, y: Seq<char>| #[trigger] r(x, y) || #[trigger] r(y, x) by {
        lemma_lex_le_total(order_key(x), order_key(y));
    }
}

/// Decides whether string `a` comes no later than string `b` in byte order.
pub fn string_le(a: &str, b: &str) -> (r: bool)
    ensures
        r == str_le(a@, b@),
{
    bytes_le(a.as_bytes(), b.as_bytes())
}

/// Decides whether two strings hold the same text.
pub fn same_text(a: &str, b: &str) -> (r: bool)
    ensures
        r == (a@ == b@),
{
    let r = bytes_le(a.as_bytes(), b.as_bytes()) && bytes_le(b.as_bytes(), a.as_bytes());
    proof {
        if r {
            lemma_lex_le_antisymmetric(order_key(a@), order_key(b@));
            lemma_order_key_injective(a@, b@);
        } else {
            lemma_lex_le_reflexive(order_key(a@));
        }
    }
    r
}

/// The text of an optional string.
pub open spec fn opt_view(o: Option<String>) -> Option<Seq<char>> {
    match o {
        Some(s) => Some(s@),
        None => None,
    }
}

/// The text of an optional string slice.
pub open spec fn opt_str_view(o: Option<&str>) -> Option<Seq<char>> {
    match o {
        Some(s) => Some(s@),
        None => None,
    }
}

/// An owned copy of an optional string slice.
pub fn own_opt(o: Option<&str>) -> (r: Option<String>)
    ensures
        opt_view(r) == opt_str_view(o),
{
    match o {
        Some(s) => Some(s.to_owned()),
        None => None,
    }
}

/// A copy of an optional string.
pub fn clone_opt(o: &Option<String>) -> (r: Option<String>)
    ensures
        r == *o,
{
    match o {
        Some(s) => Some(s.clone()),
        None => None,
    }
}

/// Decides whether two optional strings hold the same text, or both none.
pub fn same_opt(a: &Option<String>, b: &Option<String>) -> (r: bool)
    ensures
        r == (opt_view(*a) == opt_view(*b)),
{
    match (a, b) {
        (Some(x), Some(y)) => same_text(x.as_str(), y.as_str()),
        (None, None) => true,
        _ => false,
    }
}

} // verus!
