//! The order of the qualifiers of a package identifier.
//!
//! An identifier lists its qualifiers in the order in which its text names
//! them, or in which they were given when it was built. Here a text is
//! taken apart into what stands before its qualifiers, the qualifiers, and
//! what stands after them, so that the order can be read from a text and a
//! text can be written in a given order.

use vstd::prelude::*;
use vstd::string::{StrSliceExecFns, StringExecFns};
use crate::data::strings_view;
use crate::split::{joined, pieces, split};
use crate::text::same_text;

verus! {

/// A qualifier as a pair of texts: key and value.
pub type QualifierView = (Seq<char>, Seq<char>);

/// A qualifier as it is held, seen as a pair of texts.
pub open spec fn qualifier_view(q: (String, String)) -> QualifierView {
    (q.0@, q.1@)
}

/// Qualifiers as they are held, seen as pairs of texts.
pub open spec fn qualifiers_view(v: Seq<(String, String)>) -> Seq<QualifierView> {
    Seq::new(v.len(), |i: int| qualifier_view(v[i]))
}

/// The keys of qualifiers, in their order.
pub open spec fn keys_of(q: Seq<QualifierView>) -> Seq<Seq<char>> {
    Seq::new(q.len(), |i: int| q[i].0)
}

/// The place of the first `c` in a text, or the length of the text where
/// there is none.
pub open spec fn first_index(s: Seq<char>, c: char) -> int
    decreases s.len(),
{
    if s.len() == 0 || s[0] == c {
        0
    } else {
        1 + first_index(s.drop_first(), c)
    }
}

/// The place of the last `c` in a text, or -1 where there is none.
pub open spec fn last_index(s: Seq<char>, c: char) -> int
    decreases s.len(),
{
    if s.len() == 0 {
        -1
    } else if s.last() == c {
        s.len() - 1
    } else {
        last_index(s.drop_last(), c)
    }
}

/// A place before which no `c` stands, and at which the text ends or holds
/// `c`, is the place of the first `c`.
pub proof fn lemma_first_index_is(s: Seq<char>, c: char, i: int)
    requires
        0 <= i <= s.len(),
        forall|j: int| 0 <= j < i ==> s[j] != c,
        i < s.len() ==> s[i] == c,
    ensures
        first_index(s, c) == i,
    decreases s.len(),
{
    if i > 0 {
        let rest = s.drop_first();
        assert(s[0] != c);
        assert forall|j: int| 0 <= j < i - 1 implies rest[j] != c by {
            assert(rest[j] == s[j + 1]);
        }
        lemma_first_index_is(rest, c, i - 1);
    }
}

/// The place of the first `c` in a text, or the number of its characters.
pub fn find_first(s: &str, c: char) -> (r: usize)
    ensures
        r == first_index(s@, c),
        r <= s@.len(),
{
    broadcast use vstd::string::group_string_axioms;

    let n = s.unicode_len();
    let mut k: usize = 0;
    for x in it: s.chars()
        invariant
            it.seq() == s@,
            n == s@.len(),
            k == it.index(),
            k <= n,
            forall|j: int| 0 <= j < k ==> s@[j] != c,
    {
        if x == c {
            proof {
                lemma_first_index_is(s@, c, k as int);
            }
            return k;
        }
        k += 1;
    }
    proof {
        lemma_first_index_is(s@, c, k as int);
    }
    k
}

/// The place of the last `c` in a text, where there is one.
pub fn find_last(s: &str, c: char) -> (r: Option<usize>)
    ensures
        match r {
            Some(i) => i == last_index(s@, c) && i < s@.len(),
            None => last_index(s@, c) == -1,
        },
{
    broadcast use vstd::string::group_string_axioms;

    let n = s.unicode_len();
    let mut k: usize = 0;
    let mut found: Option<usize> = None;
    for x in it: s.chars()
        invariant
            it.seq() == s@,
            n == s@.len(),
            k == it.index(),
            k <= n,
            match found {
                Some(i) => i == last_index(s@.take(k as int), c) && i < k,
                None => last_index(s@.take(k as int), c) == -1,
            },
    {
        proof {
            assert(s@.take(k + 1).drop_last() =~= s@.take(k as int));
            assert(s@.take(k + 1).last() == x);
        }
        if x == c {
            found = Some(k);
        }
        k += 1;
    }
    proof {
        assert(s@.take(n as int) =~= s@);
    }
    found
}

/// A text taken apart: what stands before the qualifiers, up to the mark
/// that opens them; the qualifiers as they are written, parted by `&`;
/// and what stands after them, from the mark that opens the subpath.
pub struct Dissected {
    pub head: String,
    pub segments: Vec<String>,
    pub tail: String,
}

/// A text taken apart, as texts.
pub struct DissectedView {
    pub head: Seq<char>,
    pub segments: Seq<Seq<char>>,
    pub tail: Seq<char>,
}

impl View for Dissected {
    type V = DissectedView;

    open spec fn view(&self) -> DissectedView {
        DissectedView {
            head: self.head@,
            segments: strings_view(self.segments@),
            tail: self.tail@,
        }
    }
}

/// Where the subpath of a text begins: at its last `#`, or at its end.
pub open spec fn subpath_start(s: Seq<char>) -> int {
    if last_index(s, '#') >= 0 {
        last_index(s, '#')
    } else {
        s.len() as int
    }
}

/// A text taken apart. The subpath begins at the last `#`; the qualifiers
/// begin after the last `?` before it, and `&` parts them. A text without
/// `?` has no qualifiers.
pub open spec fn dissected(s: Seq<char>) -> DissectedView {
    let h = subpath_start(s);
    let body = s.take(h);
    let q = last_index(body, '?');
    if q >= 0 {
        DissectedView {
            head: body.take(q + 1),
            segments: pieces(body.skip(q + 1), '&'),
            tail: s.skip(h),
        }
    } else {
        DissectedView { head: body, segments: Seq::empty(), tail: s.skip(h) }
    }
}

/// Takes a text apart.
pub fn dissect(s: &str) -> (d: Dissected)
    ensures
        d@ == dissected(s@),
{
    let n = s.unicode_len();
    let h = match find_last(s, '#') {
        Some(i) => i,
        None => n,
    };
    let body = s.substring_char(0, h);
    let tail = s.substring_char(h, n).to_owned();
    proof {
        assert(body@ =~= s@.take(h as int));
        assert(tail@ =~= s@.skip(h as int));
    }
    match find_last(body, '?') {
        Some(q) => {
            let head = body.substring_char(0, q + 1).to_owned();
            let rest = body.substring_char(q + 1, h);
            proof {
                assert(head@ =~= body@.take(q + 1));
                assert(rest@ =~= body@.skip(q + 1));
            }
            Dissected { head, segments: split(rest, '&'), tail }
        },
        None => {
            let segments: Vec<String> = Vec::new();
            assert(strings_view(segments@) =~= Seq::<Seq<char>>::empty());
            Dissected { head: body.to_owned(), segments, tail }
        },
    }
}

/// The key that a written qualifier names: what stands before its first
/// `=`. A qualifier without `=`, or with nothing after it, has no value
/// and names no key.
pub open spec fn raw_key(segment: Seq<char>) -> Option<Seq<char>> {
    let e = first_index(segment, '=');
    if e + 1 < segment.len() {
        Some(segment.take(e))
    } else {
        None
    }
}

/// The keys that written qualifiers name, in their order.
pub open spec fn raw_keys(segments: Seq<Seq<char>>) -> Seq<Seq<char>> {
    segments.filter_map(|segment: Seq<char>| raw_key(segment))
}

/// The keys that a text names in its qualifiers, in the order of the text.
pub open spec fn text_keys(s: Seq<char>) -> Seq<Seq<char>> {
    raw_keys(dissected(s).segments)
}

/// The keys that written qualifiers name, in their order.
pub fn read_keys(segments: &Vec<String>) -> (keys: Vec<String>)
    ensures
        strings_view(keys@) == raw_keys(strings_view(segments@)),
{
    let ghost all = strings_view(segments@);
    let mut keys: Vec<String> = Vec::new();
    let mut i: usize = 0;
    assert(strings_view(keys@) =~= raw_keys(all.take(0)));
    while i < segments.len()
        invariant
            i <= segments.len(),
            all == strings_view(segments@),
            strings_view(keys@) == raw_keys(all.take(i as int)),
        decreases segments.len() - i,
    {
        proof {
            assert(all.take(i + 1).drop_last() =~= all.take(i as int));
            assert(all.take(i + 1).last() == segments@[i as int]@);
        }
        let ghost before = keys@;
        let segment = segments[i].as_str();
        let e = find_first(segment, '=');
        let n = segment.unicode_len();
        if e < n && e + 1 < n {
            let key = segment.substring_char(0, e).to_owned();
            assert(key@ =~= segment@.take(e as int));
            keys.push(key);
            assert(strings_view(keys@) =~= strings_view(before) + seq![key@]);
        }
        i += 1;
    }
    assert(all.take(segments.len() as int) =~= all);
    keys
}

/// What a character written in a key stands for: an upper-case ASCII
/// letter for its lower-case letter, any other character for itself.
pub open spec fn lower(c: char) -> char {
    if 'A' <= c && c <= 'Z' {
        ((c as u32) + 32) as char
    } else {
        c
    }
}

/// The key that a key as it is written stands for: the same but for
/// upper-case ASCII letters, which stand for lower-case ones.
pub open spec fn folded(raw: Seq<char>) -> Seq<char> {
    Seq::new(raw.len(), |i: int| lower(raw[i]))
}

/// Whether a key as it is written stands for `key`.
pub open spec fn key_matches(raw: Seq<char>, key: Seq<char>) -> bool {
    folded(raw) == key
}

/// Decides whether a key as it is written stands for `key`.
pub fn matches_key(raw: &str, key: &str) -> (r: bool)
    ensures
        r == key_matches(raw@, key@),
{
    broadcast use vstd::string::group_string_axioms;

    let n = key.unicode_len();
    if raw.unicode_len() != n {
        assert(folded(raw@).len() != key@.len());
        return false;
    }
    let mut k: usize = 0;
    for c in it: raw.chars()
        invariant
            it.seq() == raw@,
            n == key@.len(),
            n == raw@.len(),
            k == it.index(),
            k <= n,
            forall|j: int| 0 <= j < k ==> lower(raw@[j]) == key@[j],
    {
        let d = key.get_char(k);
        let same = if 'A' <= c && c <= 'Z' {
            d as u32 == c as u32 + 32
        } else {
            c == d
        };
        if !same {
            assert(folded(raw@)[k as int] != key@[k as int]);
            return false;
        }
        k += 1;
    }
    assert(folded(raw@) =~= key@);
    true
}

/// The place of the first qualifier whose key a written key stands for, or
/// the number of qualifiers where there is none.
pub open spec fn find(pairs: Seq<QualifierView>, raw: Seq<char>) -> int
    decreases pairs.len(),
{
    if pairs.len() == 0 || key_matches(raw, pairs[0].0) {
        0
    } else {
        1 + find(pairs.drop_first(), raw)
    }
}

/// A place before which no key is stood for, and at which the list ends or
/// the key is stood for, is the place that is found.
pub proof fn lemma_find_is(pairs: Seq<QualifierView>, raw: Seq<char>, i: int)
    requires
        0 <= i <= pairs.len(),
        forall|j: int| 0 <= j < i ==> !key_matches(raw, (#[trigger] pairs[j]).0),
        i < pairs.len() ==> key_matches(raw, pairs[i].0),
    ensures
        find(pairs, raw) == i,
    decreases pairs.len(),
{
    if i > 0 {
        let rest = pairs.drop_first();
        assert(!key_matches(raw, pairs[0].0));
        assert forall|j: int| 0 <= j < i - 1 implies !key_matches(raw, (#[trigger] rest[j]).0) by {
            assert(rest[j] == pairs[j + 1]);
        }
        lemma_find_is(rest, raw, i - 1);
    }
}

/// The place of the first qualifier whose key a written key stands for.
pub fn find_pair(pairs: &Vec<(String, String)>, raw: &str) -> (r: usize)
    ensures
        r == find(qualifiers_view(pairs@), raw@),
        r <= pairs.len(),
{
    let mut i: usize = 0;
    while i < pairs.len()
        invariant
            i <= pairs.len(),
            forall|j: int|
                0 <= j < i ==> !key_matches(raw@, (#[trigger] qualifiers_view(pairs@)[j]).0),
        decreases pairs.len() - i,
    {
        if matches_key(raw, pairs[i].0.as_str()) {
            proof {
                lemma_find_is(qualifiers_view(pairs@), raw@, i as int);
            }
            return i;
        }
        i += 1;
    }
    proof {
        lemma_find_is(qualifiers_view(pairs@), raw@, i as int);
    }
    i
}

/// Whether a list holds a qualifier with the given key.
pub open spec fn holds_key(list: Seq<QualifierView>, key: Seq<char>) -> bool {
    exists|i: int| 0 <= i < list.len() && (#[trigger] list[i]).0 == key
}

/// Decides whether a list holds a qualifier with the given key.
pub fn has_key(list: &Vec<(String, String)>, key: &str) -> (r: bool)
    ensures
        r == holds_key(qualifiers_view(list@), key@),
{
    let mut i: usize = 0;
    while i < list.len()
        invariant
            i <= list.len(),
            forall|j: int| 0 <= j < i ==> (#[trigger] qualifiers_view(list@)[j]).0 != key@,
        decreases list.len() - i,
    {
        if same_text(list[i].0.as_str(), key) {
            assert(qualifiers_view(list@)[i as int].0 == key@);
            return true;
        }
        i += 1;
    }
    false
}

/// The place of the qualifier with the given key, or the number of
/// qualifiers where there is none.
pub open spec fn key_index(list: Seq<QualifierView>, key: Seq<char>) -> int
    decreases list.len(),
{
    if list.len() == 0 || list[0].0 == key {
        0
    } else {
        1 + key_index(list.drop_first(), key)
    }
}

/// The place of a key is the first place that holds it, and there is one
/// exactly if the list holds the key.
pub proof fn lemma_key_index(list: Seq<QualifierView>, key: Seq<char>)
    ensures
        0 <= key_index(list, key) <= list.len(),
        forall|j: int| 0 <= j < key_index(list, key) ==> (#[trigger] list[j]).0 != key,
        key_index(list, key) < list.len() ==> list[key_index(list, key)].0 == key,
        key_index(list, key) < list.len() <==> holds_key(list, key),
    decreases list.len(),
{
    if list.len() > 0 && list[0].0 != key {
        let rest = list.drop_first();
        lemma_key_index(rest, key);
        assert forall|j: int| 0 <= j < key_index(list, key) implies (#[trigger] list[j]).0
            != key by {
            if j > 0 {
                assert(list[j] == rest[j - 1]);
            }
        }
        if holds_key(list, key) {
            let i = choose|i: int| 0 <= i < list.len() && (#[trigger] list[i]).0 == key;
            assert(rest[i - 1] == list[i]);
        }
        if holds_key(rest, key) {
            let i = choose|i: int| 0 <= i < rest.len() && (#[trigger] rest[i]).0 == key;
            assert(list[i + 1] == rest[i]);
        }
    } else if list.len() > 0 {
        assert(list[0].0 == key);
    }
}

/// The qualifiers that come of giving qualifiers one after the other: each
/// with the key that its key stands for; a qualifier whose key was given
/// before takes the place of the earlier one, which so keeps its place and
/// takes the later value.
pub open spec fn settled(given: Seq<QualifierView>) -> Seq<QualifierView>
    decreases given.len(),
{
    if given.len() == 0 {
        Seq::empty()
    } else {
        let before = settled(given.drop_last());
        let key = folded(given.last().0);
        let i = key_index(before, key);
        if i < before.len() {
            before.update(i, (key, given.last().1))
        } else {
            before.push((key, given.last().1))
        }
    }
}

/// Every key that was given stands for a key of the settled qualifiers.
pub proof fn lemma_settled_holds(given: Seq<QualifierView>, i: int)
    requires
        0 <= i < given.len(),
    ensures
        holds_key(settled(given), folded(given[i].0)),
    decreases given.len(),
{
    let before = settled(given.drop_last());
    let key = folded(given.last().0);
    let at = key_index(before, key);
    let after = settled(given);
    lemma_key_index(before, key);
    if i == given.len() - 1 {
        if at < before.len() {
            assert(after[at].0 == key);
        } else {
            assert(after[before.len() as int].0 == key);
        }
    } else {
        lemma_settled_holds(given.drop_last(), i);
        assert(given.drop_last()[i] == given[i]);
        let wanted = folded(given[i].0);
        let j = choose|j: int| 0 <= j < before.len() && (#[trigger] before[j]).0 == wanted;
        assert(after[j].0 == wanted);
    }
}

/// Qualifiers whose keys differ and hold no upper-case letter come out as
/// they were given.
pub proof fn lemma_settled_plain(given: Seq<QualifierView>)
    requires
        forall|i: int, j: int|
            0 <= i < j < given.len() ==> (#[trigger] given[i]).0 != (#[trigger] given[j]).0,
        forall|i: int, k: int|
            0 <= i < given.len() && 0 <= k < given[i].0.len() ==> !('A' <= (
            #[trigger] given[i].0[k]) && given[i].0[k] <= 'Z'),
    ensures
        settled(given) == given,
    decreases given.len(),
{
    if given.len() == 0 {
        assert(settled(given) =~= given);
    } else {
        let first = given.drop_last();
        let last = given.last();
        assert forall|i: int, k: int|
            0 <= i < first.len() && 0 <= k < first[i].0.len() implies !('A' <= (
            #[trigger] first[i].0[k]) && first[i].0[k] <= 'Z') by {
            assert(first[i] == given[i]);
        }
        assert forall|i: int, j: int| 0 <= i < j < first.len() implies (#[trigger] first[i]).0
            != (#[trigger] first[j]).0 by {
            assert(first[i] == given[i] && first[j] == given[j]);
        }
        lemma_settled_plain(first);
        assert(folded(last.0) =~= last.0) by {
            assert forall|k: int| 0 <= k < last.0.len() implies lower(last.0[k]) == last.0[k] by {
                assert(given[given.len() - 1].0[k] == last.0[k]);
            }
        }
        lemma_key_index(first, last.0);
        if holds_key(first, last.0) {
            let i = choose|i: int| 0 <= i < first.len() && (#[trigger] first[i]).0 == last.0;
            assert(first[i] == given[i]);
            assert(given[i].0 != given[given.len() - 1].0);
        }
        assert(settled(given) =~= first.push(last));
        assert(first.push(last) =~= given);
    }
}

/// A list holds a key exactly if the key is among its keys.
proof fn lemma_holds_key_by_keys(a: Seq<QualifierView>, b: Seq<QualifierView>, key: Seq<char>)
    requires
        keys_of(a) == keys_of(b),
    ensures
        holds_key(a, key) == holds_key(b, key),
{
    assert(a.len() == keys_of(a).len() && b.len() == keys_of(b).len());
    if holds_key(a, key) {
        let i = choose|i: int| 0 <= i < a.len() && (#[trigger] a[i]).0 == key;
        assert(keys_of(a)[i] == key);
        assert(keys_of(b)[i] == b[i].0);
    }
    if holds_key(b, key) {
        let i = choose|i: int| 0 <= i < b.len() && (#[trigger] b[i]).0 == key;
        assert(keys_of(b)[i] == key);
        assert(keys_of(a)[i] == a[i].0);
    }
}

/// Arranging a list that holds every key that was given, by the keys as
/// they were given, names the keys of the settled qualifiers in their
/// order, and takes every qualifier from the list.
pub proof fn lemma_arranged_like_settled(listing: Seq<QualifierView>, given: Seq<QualifierView>)
    requires
        forall|i: int| 0 <= i < given.len() ==> holds_key(listing, folded((#[trigger] given[i]).0)),
        forall|i: int, j: int|
            0 <= i < j < listing.len() ==> (#[trigger] listing[i]).0 != (#[trigger] listing[j]).0,
    ensures
        keys_of(arranged_like(listing, keys_of(given))) == keys_of(settled(given)),
        forall|i: int|
            0 <= i < arranged_like(listing, keys_of(given)).len() ==> listing.contains(
                #[trigger] arranged_like(listing, keys_of(given))[i],
            ),
    decreases given.len(),
{
    let arranged = arranged_like(listing, keys_of(given));
    if given.len() == 0 {
        assert(keys_of(arranged) =~= keys_of(settled(given)));
    } else {
        let first = given.drop_last();
        let last = given.last();
        assert forall|i: int| 0 <= i < first.len() implies holds_key(
            listing,
            folded((#[trigger] first[i]).0),
        ) by {
            assert(first[i] == given[i]);
        }
        lemma_arranged_like_settled(listing, first);
        assert(keys_of(given).drop_last() =~= keys_of(first));
        assert(keys_of(given).last() == last.0);
        let before_a = arranged_like(listing, keys_of(first));
        let before_s = settled(first);
        let key = folded(last.0);
        assert(holds_key(listing, folded(given[given.len() - 1].0)));
        let j = choose|j: int| 0 <= j < listing.len() && (#[trigger] listing[j]).0 == key;
        assert forall|i: int| 0 <= i < j implies !key_matches(last.0, (#[trigger] listing[i]).0) by {
            assert(listing[i].0 != listing[j].0);
        }
        lemma_find_is(listing, last.0, j);
        lemma_holds_key_by_keys(before_a, before_s, key);
        lemma_key_index(before_s, key);
        if holds_key(before_s, key) {
            let at = key_index(before_s, key);
            let after = settled(given);
            assert(after == before_s.update(at, (key, last.1)));
            assert(arranged == before_a);
            assert forall|i: int| 0 <= i < after.len() implies keys_of(after)[i] == keys_of(
                before_s,
            )[i] by {
                if i == at {
                    assert(before_s[at].0 == key);
                }
            }
            assert(keys_of(after) =~= keys_of(before_s));
        } else {
            assert(arranged == before_a.push(listing[j]));
            assert(settled(given) == before_s.push((key, last.1)));
            assert(keys_of(before_a.push(listing[j])) =~= keys_of(before_a).push(key));
            assert(keys_of(before_s.push((key, last.1))) =~= keys_of(before_s).push(key));
            assert forall|i: int| 0 <= i < arranged.len() implies listing.contains(
                #[trigger] arranged[i],
            ) by {
                if i < before_a.len() {
                    assert(arranged[i] == before_a[i]);
                } else {
                    assert(arranged[i] == listing[j]);
                }
            }
        }
    }
}

/// The qualifiers in the order in which written keys name them: for each
/// written key in turn the qualifier whose key it stands for, unless a key
/// before it named that qualifier already.
pub open spec fn arranged_like(pairs: Seq<QualifierView>, raws: Seq<Seq<char>>) -> Seq<
    QualifierView,
>
    decreases raws.len(),
{
    if raws.len() == 0 {
        Seq::empty()
    } else {
        let before = arranged_like(pairs, raws.drop_last());
        let i = find(pairs, raws.last());
        if i < pairs.len() && !holds_key(before, pairs[i].0) {
            before.push(pairs[i])
        } else {
            before
        }
    }
}

/// Copies the qualifiers in the order in which written keys name them.
pub fn arrange(pairs: &Vec<(String, String)>, raws: &Vec<String>) -> (out: Vec<(String, String)>)
    ensures
        qualifiers_view(out@) == arranged_like(qualifiers_view(pairs@), strings_view(raws@)),
{
    let ghost all = strings_view(raws@);
    let ghost listing = qualifiers_view(pairs@);
    let mut out: Vec<(String, String)> = Vec::new();
    let mut k: usize = 0;
    assert(qualifiers_view(out@) =~= arranged_like(listing, all.take(0)));
    while k < raws.len()
        invariant
            k <= raws.len(),
            all == strings_view(raws@),
            listing == qualifiers_view(pairs@),
            qualifiers_view(out@) == arranged_like(listing, all.take(k as int)),
        decreases raws.len() - k,
    {
        proof {
            assert(all.take(k + 1).drop_last() =~= all.take(k as int));
            assert(all.take(k + 1).last() == raws@[k as int]@);
        }
        let ghost before = out@;
        let i = find_pair(pairs, raws[k].as_str());
        if i < pairs.len() {
            if !has_key(&out, pairs[i].0.as_str()) {
                out.push((pairs[i].0.clone(), pairs[i].1.clone()));
                assert(qualifiers_view(out@) =~= qualifiers_view(before).push(listing[i as int]));
            }
        }
        k += 1;
    }
    assert(all.take(raws.len() as int) =~= all);
    out
}

/// The written form of a qualifier: the one that stands in a text at the
/// place at which the qualifier stands in the list of all of them; none
/// where the qualifier is not listed or the text is too short.
pub open spec fn pick(segments: Seq<Seq<char>>, listing: Seq<QualifierView>) -> spec_fn(
    QualifierView,
) -> Option<Seq<char>> {
    |q: QualifierView|
        {
            let i = find(listing, q.0);
            if i < listing.len() && i < segments.len() {
                Some(segments[i])
            } else {
                None
            }
        }
}

/// A text with its qualifiers written in a given order. The text lists
/// the qualifiers of `listing` in the order of `listing`; what comes out
/// lists those of `order` in the order of `order`, each written as the
/// text writes it, and is the same before and after the qualifiers.
pub open spec fn written(text: Seq<char>, listing: Seq<QualifierView>, order: Seq<QualifierView>) -> Seq<
    char,
> {
    let d = dissected(text);
    d.head + joined(order.filter_map(pick(d.segments, listing)), '&') + d.tail
}

/// The texts written one after the other with `&` between them.
fn join(parts: &Vec<String>) -> (r: String)
    ensures
        r@ == joined(strings_view(parts@), '&'),
{
    let ghost all = strings_view(parts@);
    let mut r = String::new();
    let mut i: usize = 0;
    proof {
        reveal_strlit("&");
        assert(all.take(0) =~= Seq::<Seq<char>>::empty());
    }
    while i < parts.len()
        invariant
            i <= parts.len(),
            all == strings_view(parts@),
            r@ == joined(all.take(i as int), '&'),
            "&"@ == seq!['&'],
        decreases parts.len() - i,
    {
        proof {
            assert(all.take(i + 1).drop_last() =~= all.take(i as int));
            assert(all.take(i + 1).last() == parts@[i as int]@);
            assert(all.take(1)[0] == all[0]);
        }
        if i > 0 {
            r = r.concat("&");
        }
        r = r.concat(parts[i].as_str());
        proof {
            if i == 0 {
                assert(r@ =~= parts@[0]@);
            }
        }
        i += 1;
    }
    assert(all.take(parts.len() as int) =~= all);
    r
}

/// Writes the qualifiers of a text in a given order.
pub fn write_in_order(text: &str, listing: &Vec<(String, String)>, order: &Vec<(String, String)>) -> (r:
    String)
    ensures
        r@ == written(text@, qualifiers_view(listing@), qualifiers_view(order@)),
{
    let d = dissect(text);
    let ghost f = pick(d@.segments, qualifiers_view(listing@));
    let ghost all = qualifiers_view(order@);
    let mut picked: Vec<String> = Vec::new();
    let mut k: usize = 0;
    assert(strings_view(picked@) =~= all.take(0).filter_map(f));
    while k < order.len()
        invariant
            k <= order.len(),
            all == qualifiers_view(order@),
            f == pick(d@.segments, qualifiers_view(listing@)),
            strings_view(picked@) == all.take(k as int).filter_map(f),
        decreases order.len() - k,
    {
        proof {
            assert(all.take(k + 1).drop_last() =~= all.take(k as int));
            assert(all.take(k + 1).last() == qualifier_view(order@[k as int]));
        }
        let ghost before = picked@;
        let i = find_pair(listing, order[k].0.as_str());
        if i < listing.len() && i < d.segments.len() {
            picked.push(d.segments[i].clone());
            assert(strings_view(picked@) =~= strings_view(before) + seq![d.segments@[i as int]@]);
        }
        k += 1;
    }
    assert(all.take(order.len() as int) =~= all);
    let middle = join(&picked);
    d.head.clone().concat(middle.as_str()).concat(d.tail.as_str())
}

} // verus!
