//! Package identifiers: the text `pkg:type/namespace/name@version?qualifiers#subpath`
//! and its components.
//!
//! The grammar of identifiers is that of the `packageurl` crate, which parses
//! and formats them. A [`PackageUrl`] holds the components that came out of
//! it as plain strings, together with its text.
//!
//! The qualifiers of an identifier have an order: that in which its text
//! names them, or in which they were given when it was built. The crate
//! keeps no order and writes the qualifiers by ascending key; the order is
//! read from the text, and the text is written in it, by [`crate::order`].

use vstd::prelude::*;
use crate::error::{Error, IdentifierFault};
use crate::data::strings_view;
use crate::order::{
    QualifierView, arrange, arranged_like, dissect, folded, holds_key, keys_of,
    lemma_arranged_like_settled, lemma_settled_holds, lemma_settled_plain, qualifier_view,
    qualifiers_view, read_keys, settled, text_keys, write_in_order, written,
};
use crate::sort::{
    Keyed, arranged_by, key_of, lemma_arranged_map, lemma_arranged_sorted,
    lemma_map_values_multiset, sort_by_key, sorted,
};
use crate::text::{
    clone_opt, lemma_lex_le_antisymmetric, lemma_order_key_injective, opt_str_view, opt_view,
    order_key, own_opt, same_opt, same_text, str_le,
};

verus! {

/// The components of a package identifier.
pub struct PackageUrlView {
    /// The type, such as `maven`.
    pub ty: Seq<char>,
    /// The namespace, where there is one.
    pub namespace: Option<Seq<char>>,
    /// The name.
    pub name: Seq<char>,
    /// The version, where there is one.
    pub version: Option<Seq<char>>,
    /// The qualifiers, in the order of the identifier.
    pub qualifiers: Seq<QualifierView>,
    /// The subpath, where there is one.
    pub subpath: Option<Seq<char>>,
}

/// What `packageurl::PackageUrl::from_str` makes of a text: the message of
/// the error where it reports one, else the components of the identifier it
/// returns. The crate keeps the qualifiers without order; they are listed
/// here in ascending order of their keys.
pub uninterp spec fn purl_from_str(s: Seq<char>) -> Result<PackageUrlView, Seq<char>>;

/// The components of the identifier that a text stands for, where it
/// stands for one.
pub open spec fn purl_parse(s: Seq<char>) -> Option<PackageUrlView> {
    match purl_from_str(s) {
        Ok(p) => Some(p),
        Err(_) => None,
    }
}

/// What `to_string` gives for a `packageurl::PackageUrl` that holds the
/// given components: a text that lists the qualifiers by ascending key.
pub uninterp spec fn purl_text(p: PackageUrlView) -> Seq<char>;

/// The key of a qualifier, as a function.
pub open spec fn view_key() -> spec_fn(QualifierView) -> Seq<char> {
    |q: QualifierView| q.0
}

/// An identifier with other qualifiers.
pub open spec fn with_qualifiers(p: PackageUrlView, qualifiers: Seq<QualifierView>) -> PackageUrlView {
    PackageUrlView {
        ty: p.ty,
        namespace: p.namespace,
        name: p.name,
        version: p.version,
        qualifiers,
        subpath: p.subpath,
    }
}

/// The identifier as the `packageurl` crate lists it: with its qualifiers
/// in ascending order of their keys.
pub open spec fn listing_of(p: PackageUrlView) -> PackageUrlView {
    with_qualifiers(p, arranged_by(p.qualifiers, view_key(), false))
}

/// The text of an identifier: the text that the `packageurl` crate writes
/// for it, with the qualifiers written in the order of the identifier.
pub open spec fn text_of(p: PackageUrlView) -> Seq<char> {
    written(purl_text(listing_of(p)), listing_of(p).qualifiers, p.qualifiers)
}

/// A listed identifier with its qualifiers in the order in which written
/// keys name them; none unless the keys name every qualifier.
pub open spec fn ordered_like(p: PackageUrlView, raws: Seq<Seq<char>>) -> Option<PackageUrlView> {
    let q = arranged_like(p.qualifiers, raws);
    if arranged_by(q, view_key(), false) == p.qualifiers {
        Some(with_qualifiers(p, q))
    } else {
        None
    }
}

/// What a text is read as: the components that the `packageurl` crate
/// parses it into, the qualifiers in the order in which the text names
/// them.
pub open spec fn read(s: Seq<char>) -> Option<PackageUrlView> {
    match purl_parse(s) {
        Some(p) => ordered_like(p, text_keys(s)),
        None => None,
    }
}

/// The text of the identifier stands for the identifier again: the same
/// components, and the qualifiers in the same order.
pub open spec fn round_trips(p: PackageUrlView) -> bool {
    read(text_of(p)) == Some(p)
}

/// The identifier that a text stands for: what the text is read as, where
/// the text of that stands for it again.
pub open spec fn identifier_of(s: Seq<char>) -> Option<PackageUrlView> {
    match read(s) {
        Some(p) => if round_trips(p) {
            Some(p)
        } else {
            None
        },
        None => None,
    }
}

/// The text is the text of an identifier.
pub open spec fn canonical(s: Seq<char>) -> bool {
    exists|p: PackageUrlView| round_trips(p) && #[trigger] text_of(p) == s
}

/// Reading a canonical text and writing what was read gives the text
/// again.
pub proof fn lemma_canonical_text_round_trips(s: Seq<char>)
    requires
        canonical(s),
    ensures
        identifier_of(s) is Some,
        text_of(identifier_of(s).unwrap()) == s,
{
}

/// Writing an identifier and reading what was written gives the
/// identifier again: the same type, namespace, name, version and subpath,
/// and the same qualifiers in the same order.
pub proof fn lemma_identifier_round_trips(p: PackageUrlView)
    requires
        round_trips(p),
    ensures
        canonical(text_of(p)),
        identifier_of(text_of(p)) == Some(p),
{
}

/// The keys ascend in byte order and no key occurs twice.
pub open spec fn strictly_ascending(q: Seq<QualifierView>) -> bool {
    forall|i: int, j: int|
        0 <= i < j < q.len() ==> str_le(#[trigger] q[i].0, #[trigger] q[j].0) && q[i].0 != q[j].0
}

/// The keys ascend in byte order.
pub open spec fn ascending(q: Seq<QualifierView>) -> bool {
    forall|i: int, j: int| 0 <= i < j < q.len() ==> str_le(#[trigger] q[i].0, #[trigger] q[j].0)
}

impl Keyed for (String, String) {
    open spec fn key(&self) -> Seq<char> {
        self.0@
    }

    fn key_str(&self) -> (k: &str) {
        self.0.as_str()
    }
}

/// Whether `c` is one of the characters that part the components of an
/// identifier in its text.
pub open spec fn is_separator(c: char) -> bool {
    c == ':' || c == '/' || c == '@' || c == '?' || c == '#'
}

/// Whether a text holds a separator.
pub open spec fn holds_separator(s: Seq<char>) -> bool {
    exists|i: int| 0 <= i < s.len() && is_separator(#[trigger] s[i])
}

/// Decides whether a text holds a separator.
pub fn has_separator(s: &str) -> (r: bool)
    ensures
        r == holds_separator(s@),
{
    broadcast use vstd::string::group_string_axioms;

    for c in it: s.chars()
        invariant
            it.seq() == s@,
            forall|i: int| 0 <= i < it.index() ==> !is_separator(#[trigger] s@[i]),
    {
        if c == ':' || c == '/' || c == '@' || c == '?' || c == '#' {
            return true;
        }
    }
    false
}

/// The components of an identifier as the `packageurl` crate hands them out:
/// the qualifiers in no particular order.
struct Components {
    ty: String,
    namespace: Option<String>,
    name: String,
    version: Option<String>,
    qualifiers: Vec<(String, String)>,
    subpath: Option<String>,
    text: String,
}

impl Components {
    /// The components, the qualifiers in the order in which they are held.
    spec fn view(self) -> PackageUrlView {
        PackageUrlView {
            ty: self.ty@,
            namespace: opt_view(self.namespace),
            name: self.name@,
            version: opt_view(self.version),
            qualifiers: qualifiers_view(self.qualifiers@),
            subpath: opt_view(self.subpath),
        }
    }

    /// The qualifiers are held in ascending order of their keys, no key
    /// twice, and the text is what the crate writes for the components.
    spec fn is_listing(self) -> bool {
        &&& strictly_ascending(self.view().qualifiers)
        &&& self.text@ == purl_text(self.view())
    }

    /// The components are those of `p`: the same type, namespace, name, version
    /// and subpath, and the same qualifiers, each once, which `p` lists in
    /// ascending order of their keys, all of them distinct.
    spec fn lists(self, p: PackageUrlView) -> bool {
        &&& self.ty@ == p.ty
        &&& opt_view(self.namespace) == p.namespace
        &&& self.name@ == p.name
        &&& opt_view(self.version) == p.version
        &&& opt_view(self.subpath) == p.subpath
        &&& qualifiers_view(self.qualifiers@).to_multiset() == p.qualifiers.to_multiset()
        &&& strictly_ascending(p.qualifiers)
    }
}

/// Parses `s` with `packageurl::PackageUrl::from_str` and copies the
/// components out of the identifier it returns, with the text that
/// `to_string` gives for it.
///
/// Assumed: the call fails exactly where [`purl_from_str`] is an error, and
/// gives the message of that error. Else type, namespace, name, version and
/// subpath are those of `purl_from_str(s)`; the qualifiers are the same
/// pairs as there, each once, in the order in which the crate's hash map
/// hands them out; their keys are distinct, so `purl_from_str(s)` lists
/// them in strictly ascending order; and the text is [`purl_text`] of those
/// components.
#[verifier::external_body]
fn parse_components(s: &str) -> (r: Result<Components, String>)
    ensures
        r is Ok <==> purl_from_str(s@) is Ok,
        r matches Ok(c) ==> {
            let p = purl_from_str(s@)->Ok_0;
            &&& c.lists(p)
            &&& c.text@ == purl_text(p)
        },
        r matches Err(message) ==> {
            &&& purl_from_str(s@) is Err
            &&& purl_from_str(s@)->Err_0 == message@
        },
{
    let p = s.parse::<packageurl::PackageUrl<'static>>().map_err(|e| e.to_string())?;
    Ok(Components {
        ty: p.ty().to_string(),
        namespace: p.namespace().map(String::from),
        name: p.name().to_string(),
        version: p.version().map(String::from),
        qualifiers: p.qualifiers().iter().map(|(k, v)| (k.to_string(), v.to_string())).collect(),
        subpath: p.subpath().map(String::from),
        text: p.to_string(),
    })
}

/// What building an identifier from its components gives: nothing where
/// `packageurl::PackageUrl::new` or `add_qualifier` reports an error, else
/// the components of the identifier after `new` with the type and the name,
/// `with_namespace` and `with_version` where those are given, and
/// `add_qualifier` for each qualifier in turn, the qualifiers listed in
/// ascending order of their keys.
pub uninterp spec fn purl_build(
    ty: Seq<char>,
    name: Seq<char>,
    namespace: Option<Seq<char>>,
    version: Option<Seq<char>>,
    qualifiers: Seq<QualifierView>,
) -> Option<PackageUrlView>;

/// What the `packageurl` crate builds from these arguments.
pub open spec fn listed(
    ty: &str,
    name: &str,
    namespace: Option<&str>,
    version: Option<&str>,
    qualifiers: &Vec<(String, String)>,
) -> Option<PackageUrlView> {
    purl_build(
        ty@,
        name@,
        opt_str_view(namespace),
        opt_str_view(version),
        qualifiers_view(qualifiers@),
    )
}

/// What building an identifier from these arguments gives: what the
/// `packageurl` crate builds, with the qualifiers in the order in which
/// their keys were given.
pub open spec fn built(
    ty: &str,
    name: &str,
    namespace: Option<&str>,
    version: Option<&str>,
    qualifiers: &Vec<(String, String)>,
) -> Option<PackageUrlView> {
    match listed(ty, name, namespace, version, qualifiers) {
        Some(p) => ordered_like(p, keys_of(qualifiers_view(qualifiers@))),
        None => None,
    }
}

/// An ASCII letter or digit.
pub open spec fn is_alphanumeric(c: char) -> bool {
    ('a' <= c && c <= 'z') || ('A' <= c && c <= 'Z') || ('0' <= c && c <= '9')
}

/// A type is made of ASCII letters and digits, `.`, `-` and `+`, is not
/// empty and does not start with a digit.
pub open spec fn valid_type(ty: Seq<char>) -> bool {
    &&& ty.len() > 0
    &&& !('0' <= ty[0] && ty[0] <= '9')
    &&& forall|i: int|
        0 <= i < ty.len() ==> is_alphanumeric(#[trigger] ty[i]) || ty[i] == '.' || ty[i] == '-'
            || ty[i] == '+'
}

/// The key of a qualifier is made of ASCII letters and digits, `.`, `-` and
/// `_`, is not empty and does not start with a digit.
pub open spec fn valid_key(key: Seq<char>) -> bool {
    &&& key.len() > 0
    &&& !('0' <= key[0] && key[0] <= '9')
    &&& forall|i: int|
        0 <= i < key.len() ==> is_alphanumeric(#[trigger] key[i]) || key[i] == '.' || key[i]
            == '-' || key[i] == '_'
}

/// Every qualifier has a valid key.
pub open spec fn valid_keys(qualifiers: Seq<QualifierView>) -> bool {
    forall|i: int| 0 <= i < qualifiers.len() ==> valid_key(#[trigger] qualifiers[i].0)
}

/// A type without upper-case ASCII letter.
pub open spec fn lower_case_type(ty: Seq<char>) -> bool {
    forall|i: int| 0 <= i < ty.len() ==> !('A' <= #[trigger] ty[i] && ty[i] <= 'Z')
}

/// The types for which the name of a package is rewritten.
pub open spec fn rewrites_name(ty: Seq<char>) -> bool {
    ||| ty == "bitbucket"@
    ||| ty == "deb"@
    ||| ty == "github"@
    ||| ty == "hex"@
    ||| ty == "npm"@
    ||| ty == "pypi"@
}

/// The types for which the namespace of a package is rewritten.
pub open spec fn rewrites_namespace(ty: Seq<char>) -> bool {
    ||| ty == "bitbucket"@
    ||| ty == "deb"@
    ||| ty == "github"@
    ||| ty == "golang"@
    ||| ty == "hex"@
    ||| ty == "rpm"@
}

/// A type without upper-case letter for which neither names nor namespaces
/// are rewritten.
pub open spec fn ordinary_type(ty: Seq<char>) -> bool {
    lower_case_type(ty) && !rewrites_name(ty) && !rewrites_namespace(ty)
}

/// The keys are valid, hold no upper-case letter, and differ from each
/// other.
pub open spec fn plain_keys(qualifiers: Seq<QualifierView>) -> bool {
    &&& valid_keys(qualifiers)
    &&& forall|i: int, k: int|
        0 <= i < qualifiers.len() && 0 <= k < qualifiers[i].0.len() ==> !('A' <= (
        #[trigger] qualifiers[i].0[k]) && qualifiers[i].0[k] <= 'Z')
    &&& forall|i: int, j: int|
        0 <= i < j < qualifiers.len() ==> (#[trigger] qualifiers[i]).0 != (
        #[trigger] qualifiers[j]).0
}

/// What an identifier keeps of the components it was built from: the
/// version; whether there is a namespace; no subpath; a type without
/// upper-case letter; with such a type the name and the namespace, unless
/// the type is one for which they are rewritten; and the qualifiers as
/// they settle when they are given one after the other.
pub open spec fn keeps(
    p: PackageUrlView,
    ty: Seq<char>,
    name: Seq<char>,
    namespace: Option<Seq<char>>,
    version: Option<Seq<char>>,
    qualifiers: Seq<QualifierView>,
) -> bool {
    &&& p.version == version
    &&& p.namespace is Some <==> namespace is Some
    &&& p.subpath is None
    &&& lower_case_type(ty) ==> p.ty == ty
    &&& lower_case_type(ty) && !rewrites_name(ty) ==> p.name == name
    &&& lower_case_type(ty) && !rewrites_namespace(ty) ==> p.namespace == namespace
    &&& p.qualifiers.to_multiset() == settled(qualifiers).to_multiset()
}

/// The type and the keys of the qualifiers are valid.
pub open spec fn buildable(ty: Seq<char>, qualifiers: Seq<QualifierView>) -> bool {
    valid_type(ty) && valid_keys(qualifiers)
}

/// Builds an identifier with `packageurl::PackageUrl::new`, `with_namespace`,
/// `with_version` and `add_qualifier`, and copies the components out of it,
/// with the text that `to_string` gives for it.
///
/// Assumed: the calls succeed exactly where the type is valid and every
/// qualifier has a valid key, which is where [`purl_build`] is not `None`.
/// On success the version is the one given, there is a namespace exactly if
/// one was given, and there is no subpath. `new` leaves a type without
/// upper-case letter as it is, and with it the name, unless the type is
/// one of the six for which it rewrites names; `with_namespace` leaves the
/// namespace as it is unless the type is one of the six for which it
/// rewrites namespaces. `add_qualifier` makes the upper-case letters of a
/// valid key, which are ASCII letters, lower-case, and puts the value
/// under that key, in place of a value that was put there before: so the
/// qualifiers are, in some order, those that [`settled`] gives. For the
/// rest the result is to `purl_build` of the arguments as the result of
/// [`parse_components`] is to `purl_from_str`.
#[verifier::external_body]
fn assemble_components(
    ty: String,
    name: String,
    namespace: Option<String>,
    version: Option<String>,
    qualifiers: Vec<(String, String)>,
) -> (r: Option<Components>)
    ensures
        r is Some <==> buildable(ty@, qualifiers_view(qualifiers@)),
        r is Some <==> purl_build(ty@, name@, opt_view(namespace), opt_view(version), qualifiers_view(qualifiers@)) is Some,
        r matches Some(c) ==> {
            let p = purl_build(ty@, name@, opt_view(namespace), opt_view(version), qualifiers_view(qualifiers@)).unwrap();
            &&& c.lists(p)
            &&& c.text@ == purl_text(p)
            &&& keeps(p, ty@, name@, opt_view(namespace), opt_view(version), qualifiers_view(qualifiers@))
        },
{
    let mut p = packageurl::PackageUrl::new(ty, name).ok()?;
    if let Some(ns) = namespace { p.with_namespace(ns); }
    if let Some(v) = version { p.with_version(v); }
    for (k, v) in qualifiers { p.add_qualifier(k, v).ok()?; }
    Some(Components {
        ty: p.ty().to_string(),
        namespace: p.namespace().map(String::from),
        name: p.name().to_string(),
        version: p.version().map(String::from),
        qualifiers: p.qualifiers().iter().map(|(k, v)| (k.to_string(), v.to_string())).collect(),
        subpath: None,
        text: p.to_string(),
    })
}

/// There is one way only to list given qualifiers with distinct keys in
/// ascending order of their keys.
pub proof fn lemma_ascending_unique(x: Seq<QualifierView>, y: Seq<QualifierView>)
    requires
        ascending(x),
        strictly_ascending(y),
        x.to_multiset() == y.to_multiset(),
    ensures
        x == y,
    decreases x.len(),
{
    broadcast use vstd::seq_lib::group_to_multiset_ensures;

    assert(x.to_multiset().len() == x.len() && y.to_multiset().len() == y.len());
    if x.len() == 0 {
        assert(x =~= y);
    } else {
        assert(x.to_multiset().contains(x[0]));
        assert(y.to_multiset().contains(x[0]));
        assert(y.to_multiset().contains(y[0]));
        assert(x.to_multiset().contains(y[0]));
        let i = choose|i: int| 0 <= i < y.len() && y[i] == x[0];
        let j = choose|j: int| 0 <= j < x.len() && x[j] == y[0];
        if i != 0 {
            assert(str_le(y[0].0, y[i].0));
            if j != 0 {
                assert(str_le(x[0].0, x[j].0));
            } else {
                crate::text::lemma_lex_le_reflexive(order_key(x[0].0));
            }
            lemma_lex_le_antisymmetric(order_key(y[0].0), order_key(y[i].0));
            lemma_order_key_injective(y[0].0, y[i].0);
            assert(false);
        }
        assert(x[0] == y[0]);
        let xs = x.drop_first();
        let ys = y.drop_first();
        assert(xs =~= x.remove(0));
        assert(ys =~= y.remove(0));
        assert(xs.to_multiset() =~= ys.to_multiset());
        assert(ascending(xs)) by {
            assert forall|a: int, b: int| 0 <= a < b < xs.len() implies str_le(
                #[trigger] xs[a].0,
                #[trigger] xs[b].0,
            ) by {
                assert(xs[a] == x[a + 1] && xs[b] == x[b + 1]);
            }
        }
        assert(strictly_ascending(ys)) by {
            assert forall|a: int, b: int| 0 <= a < b < ys.len() implies str_le(
                #[trigger] ys[a].0,
                #[trigger] ys[b].0,
            ) && ys[a].0 != ys[b].0 by {
                assert(ys[a] == y[a + 1] && ys[b] == y[b + 1]);
            }
        }
        lemma_ascending_unique(xs, ys);
        assert(x =~= seq![x[0]] + xs);
        assert(y =~= seq![y[0]] + ys);
    }
}

/// What is built lists the qualifiers as they settle when they are given
/// one after the other: in the order in which their keys were first given,
/// each with the value that was given last for its key.
pub proof fn lemma_settled_in_order(p: PackageUrlView, given: Seq<QualifierView>)
    requires
        strictly_ascending(p.qualifiers),
        p.qualifiers.to_multiset() == settled(given).to_multiset(),
    ensures
        ordered_like(p, keys_of(given)) == Some(with_qualifiers(p, settled(given))),
{
    broadcast use vstd::seq_lib::group_to_multiset_ensures;

    let listing = p.qualifiers;
    let wanted = settled(given);
    assert forall|i: int| 0 <= i < wanted.len() implies listing.contains(#[trigger] wanted[i]) by {
        assert(wanted.to_multiset().contains(wanted[i]));
        assert(listing.to_multiset().contains(wanted[i]));
    }
    assert forall|i: int| 0 <= i < given.len() implies holds_key(
        listing,
        folded((#[trigger] given[i]).0),
    ) by {
        lemma_settled_holds(given, i);
        let key = folded(given[i].0);
        let j = choose|j: int| 0 <= j < wanted.len() && (#[trigger] wanted[j]).0 == key;
        assert(listing.contains(wanted[j]));
        let at = choose|at: int| 0 <= at < listing.len() && listing[at] == wanted[j];
        assert(listing[at].0 == key);
    }
    lemma_arranged_like_settled(listing, given);
    let found = arranged_like(listing, keys_of(given));
    assert(found.len() == keys_of(found).len() && wanted.len() == keys_of(wanted).len());
    assert forall|i: int| 0 <= i < found.len() implies found[i] == wanted[i] by {
        assert(keys_of(found)[i] == found[i].0 && keys_of(wanted)[i] == wanted[i].0);
        assert(listing.contains(found[i]));
        assert(listing.contains(wanted[i]));
        let a = choose|a: int| 0 <= a < listing.len() && listing[a] == found[i];
        let b = choose|b: int| 0 <= b < listing.len() && listing[b] == wanted[i];
        if a != b {
            if a < b {
                assert(listing[a].0 != listing[b].0);
            } else {
                assert(listing[b].0 != listing[a].0);
            }
        }
    }
    assert(found =~= wanted);
    let again = arranged_by(wanted, view_key(), false);
    lemma_arranged_sorted(wanted, view_key(), false);
    assert(ascending(again)) by {
        assert forall|i: int, j: int| 0 <= i < j < again.len() implies str_le(
            #[trigger] again[i].0,
            #[trigger] again[j].0,
        ) by {
            assert(crate::sort::before_by(again[i], again[j], view_key(), false));
        }
    }
    lemma_ascending_unique(again, listing);
}

/// What is built of an ordinary type with plain keys is what was given:
/// the same type, namespace, name and version, the same qualifiers in the
/// same order, and no subpath.
pub proof fn lemma_built_as_given(
    p: PackageUrlView,
    ty: Seq<char>,
    name: Seq<char>,
    namespace: Option<Seq<char>>,
    version: Option<Seq<char>>,
    qualifiers: Seq<QualifierView>,
)
    requires
        ordinary_type(ty),
        plain_keys(qualifiers),
        strictly_ascending(p.qualifiers),
        keeps(p, ty, name, namespace, version, qualifiers),
    ensures
        ordered_like(p, keys_of(qualifiers)) == Some(
            PackageUrlView { ty, namespace, name, version, qualifiers, subpath: None },
        ),
{
    lemma_settled_plain(qualifiers);
    lemma_settled_in_order(p, qualifiers);
}

/// Qualifiers with plain keys come out of building as they went in: the
/// same pairs, in the order given.
pub proof fn lemma_plain_keys_in_order(given: Seq<QualifierView>)
    requires
        plain_keys(given),
    ensures
        settled(given) == given,
{
    lemma_settled_plain(given);
}

/// Sorting qualifiers by key and then seeing them as pairs of texts gives
/// the one ascending list of those pairs.
proof fn lemma_sorted_qualifiers(
    raw: Seq<(String, String)>,
    out: Seq<(String, String)>,
    listed: Seq<QualifierView>,
)
    requires
        sorted(out, false),
        out.to_multiset() == raw.to_multiset(),
        qualifiers_view(raw).to_multiset() == listed.to_multiset(),
        strictly_ascending(listed),
    ensures
        qualifiers_view(out) == listed,
{
    let f = |q: (String, String)| qualifier_view(q);
    lemma_map_values_multiset(out, raw, f);
    assert(out.map_values(f) =~= qualifiers_view(out));
    assert(raw.map_values(f) =~= qualifiers_view(raw));
    let seen = qualifiers_view(out);
    assert(ascending(seen)) by {
        assert forall|i: int, j: int| 0 <= i < j < seen.len() implies str_le(
            #[trigger] seen[i].0,
            #[trigger] seen[j].0,
        ) by {
            assert(crate::sort::in_order(out[i], out[j], false));
        }
    }
    lemma_ascending_unique(seen, listed);
}

/// A package identifier: its components and its text.
///
/// The text of an identifier stands for the identifier again: nothing is
/// lost when an identifier is written and read. The qualifiers are held in
/// the order in which the text names them, which for an identifier that
/// was built is the order in which their keys were given; two identifiers
/// with the same qualifiers in another order are not the same.
#[derive(Debug)]
pub struct PackageUrl {
    ty: String,
    namespace: Option<String>,
    name: String,
    version: Option<String>,
    qualifiers: Vec<(String, String)>,
    subpath: Option<String>,
    text: String,
}

impl View for PackageUrl {
    type V = PackageUrlView;

    closed spec fn view(&self) -> PackageUrlView {
        PackageUrlView {
            ty: self.ty@,
            namespace: opt_view(self.namespace),
            name: self.name@,
            version: opt_view(self.version),
            qualifiers: qualifiers_view(self.qualifiers@),
            subpath: opt_view(self.subpath),
        }
    }
}

/// A copy of a list of qualifiers.
pub fn clone_qualifiers(v: &Vec<(String, String)>) -> (r: Vec<(String, String)>)
    ensures
        r@ == v@,
{
    let mut r: Vec<(String, String)> = Vec::new();
    let mut i: usize = 0;
    while i < v.len()
        invariant
            i <= v.len(),
            r@ == v@.take(i as int),
        decreases v.len() - i,
    {
        r.push((v[i].0.clone(), v[i].1.clone()));
        assert(r@ =~= v@.take(i + 1));
        i += 1;
    }
    assert(v@.take(v.len() as int) =~= v@);
    r
}

/// An identifier that is not yet known to be given back by its text.
struct Draft {
    ty: String,
    namespace: Option<String>,
    name: String,
    version: Option<String>,
    qualifiers: Vec<(String, String)>,
    subpath: Option<String>,
    text: String,
}

impl Draft {
    /// The components, the qualifiers in the order in which they are held.
    spec fn view(self) -> PackageUrlView {
        PackageUrlView {
            ty: self.ty@,
            namespace: opt_view(self.namespace),
            name: self.name@,
            version: opt_view(self.version),
            qualifiers: qualifiers_view(self.qualifiers@),
            subpath: opt_view(self.subpath),
        }
    }

    /// Decides whether two drafts hold the same components, the qualifiers
    /// in the same order.
    fn same(&self, other: &Draft) -> (r: bool)
        ensures
            r == (self.view() == other.view()),
    {
        same_text(self.ty.as_str(), other.ty.as_str()) && same_opt(
            &self.namespace,
            &other.namespace,
        ) && same_text(self.name.as_str(), other.name.as_str()) && same_opt(
            &self.version,
            &other.version,
        ) && same_qualifiers(&self.qualifiers, &other.qualifiers) && same_opt(
            &self.subpath,
            &other.subpath,
        )
    }

    /// What a text is read as, with the text of that.
    fn read(s: &str) -> (r: Result<Option<Draft>, String>)
        ensures
            r is Ok <==> purl_from_str(s@) is Ok,
            r matches Ok(o) ==> {
                &&& o is Some <==> read(s@) is Some
                &&& o matches Some(d) ==> Some(d.view()) == read(s@) && d.text@ == text_of(d.view())
            },
            r matches Err(reason) ==> purl_from_str(s@) is Err && purl_from_str(s@)->Err_0
                == reason@,
    {
        let c = Components::read(s)?;
        let keys = read_keys(&dissect(s).segments);
        Ok(c.in_order(&keys))
    }

    /// The identifier of the draft, if its text stands for it again.
    fn settle(self) -> (r: Option<PackageUrl>)
        requires
            self.text@ == text_of(self.view()),
        ensures
            r is Some <==> round_trips(self.view()),
            r matches Some(p) ==> p@ == self.view(),
    {
        let stable = match Draft::read(self.text.as_str()) {
            Ok(Some(again)) => self.same(&again),
            _ => false,
        };
        if stable {
            let Draft { ty, namespace, name, version, qualifiers, subpath, text } = self;
            Some(PackageUrl { ty, namespace, name, version, qualifiers, subpath, text })
        } else {
            None
        }
    }
}

/// The keys of qualifiers, in their order.
fn given_keys(qualifiers: &Vec<(String, String)>) -> (keys: Vec<String>)
    ensures
        strings_view(keys@) == keys_of(qualifiers_view(qualifiers@)),
{
    let mut keys: Vec<String> = Vec::new();
    let mut i: usize = 0;
    while i < qualifiers.len()
        invariant
            i <= qualifiers.len(),
            keys@.len() == i,
            forall|j: int| 0 <= j < i ==> (#[trigger] keys@[j])@ == qualifiers@[j].0@,
        decreases qualifiers.len() - i,
    {
        keys.push(qualifiers[i].0.clone());
        i += 1;
    }
    assert(strings_view(keys@) =~= keys_of(qualifiers_view(qualifiers@)));
    keys
}

impl Components {
    /// Reads the components of an identifier out of its text, the
    /// qualifiers in ascending order of their keys.
    fn read(s: &str) -> (r: Result<Components, String>)
        ensures
            r is Ok <==> purl_from_str(s@) is Ok,
            r matches Ok(c) ==> c.is_listing() && c.view() == purl_from_str(s@)->Ok_0,
            r matches Err(reason) ==> purl_from_str(s@) is Err && purl_from_str(s@)->Err_0
                == reason@,
    {
        let c = parse_components(s)?;
        Ok(c.ordered(Ghost(purl_from_str(s@)->Ok_0)))
    }

    /// The same components, the qualifiers in ascending order of their
    /// keys.
    fn ordered(self, Ghost(p): Ghost<PackageUrlView>) -> (r: Components)
        requires
            self.lists(p),
            self.text@ == purl_text(p),
        ensures
            r.is_listing(),
            r.view() == p,
    {
        let ghost raw = self.qualifiers@;
        let Components { ty, namespace, name, version, qualifiers, subpath, text } = self;
        let qualifiers = sort_by_key(qualifiers, false);
        proof {
            lemma_sorted_qualifiers(raw, qualifiers@, p.qualifiers);
        }
        Components { ty, namespace, name, version, qualifiers, subpath, text }
    }

    /// The components with the qualifiers in the order in which written
    /// keys name them, and the text written in that order; none unless
    /// the keys name every qualifier.
    fn in_order(self, raws: &Vec<String>) -> (r: Option<Draft>)
        requires
            self.is_listing(),
        ensures
            r is Some <==> ordered_like(self.view(), strings_view(raws@)) is Some,
            r matches Some(d) ==> Some(d.view()) == ordered_like(self.view(), strings_view(raws@))
                && d.text@ == text_of(d.view()),
    {
        let qualifiers = arrange(&self.qualifiers, raws);
        let listed_again = sort_by_key(clone_qualifiers(&qualifiers), false);
        proof {
            let f = |q: (String, String)| qualifier_view(q);
            lemma_arranged_map(qualifiers@, f, key_of::<(String, String)>(), view_key(), false);
            assert(qualifiers@.map_values(f) =~= qualifiers_view(qualifiers@));
            assert(listed_again@.map_values(f) =~= qualifiers_view(listed_again@));
        }
        if !same_qualifiers(&listed_again, &self.qualifiers) {
            return None;
        }
        let text = write_in_order(self.text.as_str(), &self.qualifiers, &qualifiers);
        let Components { ty, namespace, name, version, qualifiers: _, subpath, text: _ } = self;
        let d = Draft { ty, namespace, name, version, qualifiers, subpath, text };
        proof {
            assert(listing_of(d.view()) == self.view());
        }
        Some(d)
    }
}

impl PackageUrl {
    #[verifier::type_invariant]
    spec fn inv(&self) -> bool {
        &&& self.text@ == text_of(self@)
        &&& round_trips(self@)
    }

    /// Reads an identifier from its text.
    ///
    /// Succeeds on the texts that stand for an identifier that its own
    /// text stands for again, and gives that identifier, the qualifiers in
    /// the order in which the text names them. So it succeeds on the text
    /// of every identifier, and the identifier it gives has that text. A
    /// text that stands for no identifier is malformed, for the reason
    /// that [`purl_from_str`] gives; one that stands for an identifier
    /// which its text does not give back is lossy.
    pub fn from_str(s: &str) -> (r: Result<PackageUrl, Error>)
        ensures
            r is Ok <==> identifier_of(s@) is Some,
            r matches Ok(p) ==> Some(p@) == identifier_of(s@),
            canonical(s@) ==> r is Ok && text_of(r.unwrap()@) == s@,
            r matches Err(e) ==> e matches Error::InvalidIdentifier(fault) && match purl_from_str(
                s@,
            ) {
                Ok(_) => fault is Lossy,
                Err(reason) => fault matches IdentifierFault::Malformed(m) && m@ == reason,
            },
    {
        proof {
            if canonical(s@) {
                lemma_canonical_text_round_trips(s@);
            }
        }
        match Draft::read(s) {
            Err(reason) => Err(Error::InvalidIdentifier(IdentifierFault::Malformed(reason))),
            Ok(None) => Err(Error::InvalidIdentifier(IdentifierFault::Lossy)),
            Ok(Some(d)) => match d.settle() {
                Some(p) => Ok(p),
                None => Err(Error::InvalidIdentifier(IdentifierFault::Lossy)),
            },
        }
    }

    /// Builds an identifier from a type and a name, with a namespace, a
    /// version and qualifiers where they are given.
    ///
    /// Type and name must not be empty and must hold no separator; the type
    /// and the key of each qualifier must be valid; and the text of the
    /// identifier must stand for it again. The identifier then lists the
    /// qualifiers in the order given: each under the key that its key
    /// stands for, and where a key is given again, the later value at the
    /// place of the earlier one. Qualifiers with plain keys so come out as
    /// they went in (see [`lemma_plain_keys_in_order`]). The identifier
    /// holds the version as given, a namespace exactly if one is given,
    /// and no subpath. It holds a type without upper-case letter as
    /// given, and with such a type the name and the namespace as given,
    /// unless the type is one for which they are rewritten.
    pub fn build(
        ty: &str,
        name: &str,
        namespace: Option<&str>,
        version: Option<&str>,
        qualifiers: &Vec<(String, String)>,
    ) -> (r: Result<PackageUrl, Error>)
        ensures
            r is Ok <==> {
                &&& ty@.len() > 0 && name@.len() > 0
                &&& !holds_separator(ty@) && !holds_separator(name@)
                &&& buildable(ty@, qualifiers_view(qualifiers@))
                &&& round_trips(built(ty, name, namespace, version, qualifiers).unwrap())
            },
            r matches Ok(p) ==> {
                &&& Some(p@) == built(ty, name, namespace, version, qualifiers)
                &&& p@.qualifiers == settled(qualifiers_view(qualifiers@))
            },
            ty@.len() > 0 && name@.len() > 0 && !holds_separator(ty@) && !holds_separator(name@) ==> {
                let listed = listed(ty, name, namespace, version, qualifiers);
                &&& listed is Some <==> buildable(ty@, qualifiers_view(qualifiers@))
                &&& listed is Some ==> keeps(
                    listed.unwrap(),
                    ty@,
                    name@,
                    opt_str_view(namespace),
                    opt_str_view(version),
                    qualifiers_view(qualifiers@),
                ) && built(ty, name, namespace, version, qualifiers) == Some(
                    with_qualifiers(listed.unwrap(), settled(qualifiers_view(qualifiers@))),
                )
            },
            r matches Err(e) ==> e matches Error::InvalidIdentifier(fault) && {
                if ty@.len() == 0 || name@.len() == 0 {
                    fault is Empty
                } else if holds_separator(ty@) || holds_separator(name@) {
                    fault is Separator
                } else if !buildable(ty@, qualifiers_view(qualifiers@)) {
                    fault is Component
                } else {
                    fault is Lossy
                }
            },
    {
        if ty.is_empty() || name.is_empty() {
            return Err(Error::InvalidIdentifier(IdentifierFault::Empty));
        }
        if has_separator(ty) || has_separator(name) {
            return Err(Error::InvalidIdentifier(IdentifierFault::Separator));
        }
        let ghost listed = listed(ty, name, namespace, version, qualifiers);
        let keys = given_keys(qualifiers);
        match assemble_components(
            ty.to_owned(),
            name.to_owned(),
            own_opt(namespace),
            own_opt(version),
            clone_qualifiers(qualifiers),
        ) {
            None => Err(Error::InvalidIdentifier(IdentifierFault::Component)),
            Some(c) => {
                proof {
                    lemma_settled_in_order(listed.unwrap(), qualifiers_view(qualifiers@));
                }
                match c.ordered(Ghost(listed.unwrap())).in_order(&keys) {
                    None => Err(Error::InvalidIdentifier(IdentifierFault::Lossy)),
                    Some(d) => match d.settle() {
                        Some(p) => Ok(p),
                        None => Err(Error::InvalidIdentifier(IdentifierFault::Lossy)),
                    },
                }
            },
        }
    }

    /// The text of the identifier. It names the qualifiers in the order of
    /// the identifier, and it stands for the identifier again.
    pub fn to_string(&self) -> (r: String)
        ensures
            r@ == text_of(self@),
            identifier_of(r@) == Some(self@),
    {
        proof {
            use_type_invariant(self);
        }
        self.text.clone()
    }

    /// The type, such as `maven`.
    pub fn ty(&self) -> (r: &str)
        ensures
            r@ == self@.ty,
    {
        self.ty.as_str()
    }

    /// The namespace, where there is one.
    pub fn namespace(&self) -> (r: Option<&str>)
        ensures
            opt_str_view(r) == self@.namespace,
    {
        match &self.namespace {
            Some(s) => Some(s.as_str()),
            None => None,
        }
    }

    /// The name.
    pub fn name(&self) -> (r: &str)
        ensures
            r@ == self@.name,
    {
        self.name.as_str()
    }

    /// The version, where there is one.
    pub fn version(&self) -> (r: Option<&str>)
        ensures
            opt_str_view(r) == self@.version,
    {
        match &self.version {
            Some(s) => Some(s.as_str()),
            None => None,
        }
    }

    /// The qualifiers, in the order of the identifier: that in which its
    /// text names them.
    pub fn qualifiers(&self) -> (r: &Vec<(String, String)>)
        ensures
            qualifiers_view(r@) == self@.qualifiers,
    {
        &self.qualifiers
    }

    /// The subpath, where there is one.
    pub fn subpath(&self) -> (r: Option<&str>)
        ensures
            opt_str_view(r) == self@.subpath,
    {
        match &self.subpath {
            Some(s) => Some(s.as_str()),
            None => None,
        }
    }
}

/// Decides whether two lists hold the same qualifiers in the same order.
pub fn same_qualifiers(a: &Vec<(String, String)>, b: &Vec<(String, String)>) -> (r: bool)
    ensures
        r == (qualifiers_view(a@) == qualifiers_view(b@)),
{
    if a.len() != b.len() {
        assert(qualifiers_view(a@).len() != qualifiers_view(b@).len());
        return false;
    }
    let mut i: usize = 0;
    while i < a.len()
        invariant
            i <= a.len(),
            a.len() == b.len(),
            forall|j: int| 0 <= j < i ==> qualifier_view(a@[j]) == qualifier_view(b@[j]),
        decreases a.len() - i,
    {
        if !same_text(a[i].0.as_str(), b[i].0.as_str()) || !same_text(
            a[i].1.as_str(),
            b[i].1.as_str(),
        ) {
            assert(qualifiers_view(a@)[i as int] != qualifiers_view(b@)[i as int]);
            return false;
        }
        i += 1;
    }
    assert(qualifiers_view(a@) =~= qualifiers_view(b@));
    true
}

impl PartialEq for PackageUrl {
    /// Identifiers are equal when their components are.
    fn eq(&self, other: &Self) -> (r: bool) {
        same_text(self.ty.as_str(), other.ty.as_str()) && same_opt(
            &self.namespace,
            &other.namespace,
        ) && same_text(self.name.as_str(), other.name.as_str()) && same_opt(
            &self.version,
            &other.version,
        ) && same_qualifiers(&self.qualifiers, &other.qualifiers) && same_opt(
            &self.subpath,
            &other.subpath,
        )
    }
}

impl Eq for PackageUrl {

}

impl vstd::std_specs::cmp::PartialEqSpecImpl for PackageUrl {
    open spec fn obeys_eq_spec() -> bool {
        true
    }

    open spec fn eq_spec(&self, other: &Self) -> bool {
        self@ == other@
    }
}

impl Clone for PackageUrl {
    fn clone(&self) -> (r: Self)
        ensures
            r@ == self@,
    {
        proof {
            use_type_invariant(self);
        }
        PackageUrl {
            ty: self.ty.clone(),
            namespace: clone_opt(&self.namespace),
            name: self.name.clone(),
            version: clone_opt(&self.version),
            qualifiers: clone_qualifiers(&self.qualifiers),
            subpath: clone_opt(&self.subpath),
            text: self.text.clone(),
        }
    }
}

/// Identifiers as their components.
pub open spec fn purls_view(v: Seq<PackageUrl>) -> Seq<PackageUrlView> {
    Seq::new(v.len(), |i: int| v[i]@)
}

/// The texts of identifiers, in their order.
pub open spec fn texts_of(purls: Seq<PackageUrlView>) -> Seq<Seq<char>> {
    Seq::new(purls.len(), |i: int| text_of(purls[i]))
}

} // verus!
