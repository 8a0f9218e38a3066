//! The known versions of a package, newest first.
//!
//! "Newest" is decided by the text of the version alone: versions are
//! ordered byte by byte, descending. So `2.9.0` stands before `2.10.0`.

use vstd::prelude::*;
use crate::data::{PackageRef, PackageRefView, Trust, refs_view, trust_of};
use crate::purl::{PackageUrl, PackageUrlView, identifier_of, text_of};
use crate::route::{AppRoute, AppRouteView};
use crate::sort::{
    Keyed, arranged_by, before_by, key_of, lemma_arranged_map, lemma_arranged_sorted,
    lemma_arranged_stable, lemma_map_values_multiset, sort_by_key, with_key,
};
use crate::text::str_le;

verus! {

/// A version of a package: the text of the version, the identifier that
/// carries it, and the pointer it was read from.
#[derive(Debug, PartialEq, Eq)]
pub struct PackageVersion {
    pub version: String,
    pub purl: PackageUrl,
    pub pkg: PackageRef,
}

/// A version of a package as texts.
pub struct PackageVersionView {
    pub version: Seq<char>,
    pub purl: PackageUrlView,
    pub pkg: PackageRefView,
}

impl View for PackageVersion {
    type V = PackageVersionView;

    open spec fn view(&self) -> PackageVersionView {
        PackageVersionView { version: self.version@, purl: self.purl@, pkg: self.pkg@ }
    }
}

impl Keyed for PackageVersion {
    open spec fn key(&self) -> Seq<char> {
        self.version@
    }

    fn key_str(&self) -> (k: &str) {
        self.version.as_str()
    }
}

/// A list of versions as texts.
pub open spec fn versions_view(v: Seq<PackageVersion>) -> Seq<PackageVersionView> {
    Seq::new(v.len(), |i: int| v[i]@)
}

/// The version that a pointer stands for: none where its identifier does
/// not parse or carries no version.
pub open spec fn versioned(r: PackageRefView) -> Option<PackageVersionView> {
    match identifier_of(r.purl) {
        Some(p) => match p.version {
            Some(v) => Some(PackageVersionView { version: v, purl: p, pkg: r }),
            None => None,
        },
        None => None,
    }
}

/// The versions that pointers stand for, in the order of the pointers;
/// pointers that stand for none are left out.
pub open spec fn with_versions(refs: Seq<PackageRefView>) -> Seq<PackageVersionView> {
    refs.filter_map(|r: PackageRefView| versioned(r))
}

/// Each version is byte-wise no smaller than all that follow it.
pub open spec fn newest_first(v: Seq<PackageVersionView>) -> bool {
    forall|i: int, j: int|
        0 <= i < j < v.len() ==> str_le(#[trigger] v[j].version, #[trigger] v[i].version)
}

/// The text of a version, as a function.
pub open spec fn version_of() -> spec_fn(PackageVersionView) -> Seq<char> {
    |v: PackageVersionView| v.version
}

/// The versions that pointers stand for, newest first: ordered by the text
/// of the version, byte by byte, descending, and those with the same text
/// in the order of the pointers.
pub open spec fn ranked(refs: Seq<PackageRefView>) -> Seq<PackageVersionView> {
    arranged_by(with_versions(refs), version_of(), true)
}

/// The ranked versions are the versions that the pointers stand for, each
/// as often as it is pointed to; they are newest first; and those with the
/// same text stand as their pointers stood.
pub proof fn lemma_ranked(refs: Seq<PackageRefView>, text: Seq<char>)
    ensures
        ranked(refs).to_multiset() == with_versions(refs).to_multiset(),
        ranked(refs).len() == with_versions(refs).len(),
        newest_first(ranked(refs)),
        with_key(ranked(refs), version_of(), text) == with_key(
            with_versions(refs),
            version_of(),
            text,
        ),
{
    let all = with_versions(refs);
    lemma_arranged_sorted(all, version_of(), true);
    lemma_arranged_stable(all, version_of(), true, text);
    let out = ranked(refs);
    assert forall|i: int, j: int| 0 <= i < j < out.len() implies str_le(
        #[trigger] out[j].version,
        #[trigger] out[i].version,
    ) by {
        assert(before_by(out[i], out[j], version_of(), true));
    }
}

/// Reads the version out of a pointer to a package.
pub fn read_version(pkg: &PackageRef) -> (r: Option<PackageVersion>)
    ensures
        r is Some <==> versioned(pkg@) is Some,
        r matches Some(e) ==> Some(e@) == versioned(pkg@),
{
    match PackageUrl::from_str(pkg.purl.as_str()) {
        Err(_) => None,
        Ok(purl) => {
            let version = match purl.version() {
                Some(version) => version.to_owned(),
                None => {
                    return None;
                },
            };
            Some(PackageVersion { version, purl, pkg: pkg.clone() })
        },
    }
}

/// The versions among `versions`, newest first.
///
/// A pointer whose identifier does not parse, or carries no version, is
/// dropped. The others are ordered by the text of their version, byte by
/// byte, descending; pointers with the same version keep their order.
pub fn package_versions(versions: &Vec<PackageRef>) -> (out: Vec<PackageVersion>)
    ensures
        versions_view(out@) == ranked(refs_view(versions@)),
        versions_view(out@).to_multiset() == with_versions(refs_view(versions@)).to_multiset(),
        newest_first(versions_view(out@)),
        out@.len() == with_versions(refs_view(versions@)).len(),
{
    let ghost all = refs_view(versions@);
    let mut kept: Vec<PackageVersion> = Vec::new();
    let mut i: usize = 0;
    while i < versions.len()
        invariant
            i <= versions.len(),
            all == refs_view(versions@),
            versions_view(kept@) == with_versions(all.take(i as int)),
        decreases versions.len() - i,
    {
        proof {
            assert(all.take(i + 1).drop_last() =~= all.take(i as int));
            assert(all.take(i + 1).last() == versions@[i as int]@);
        }
        let ghost before = kept@;
        match read_version(&versions[i]) {
            Some(entry) => {
                kept.push(entry);
                assert(versions_view(kept@) =~= versions_view(before) + seq![entry@]);
            },
            None => {},
        }
        i += 1;
    }
    proof {
        assert(all.take(versions.len() as int) =~= all);
    }
    let ghost unordered = kept@;
    let out = sort_by_key(kept, true);
    proof {
        let f = |e: PackageVersion| e@;
        lemma_arranged_map(unordered, f, key_of::<PackageVersion>(), version_of(), true);
        assert(out@.map_values(f) =~= versions_view(out@));
        assert(unordered.map_values(f) =~= versions_view(unordered));
        lemma_ranked(all, Seq::empty());
    }
    out
}

/// The texts of the versions, in their order.
pub open spec fn version_texts(v: Seq<PackageVersionView>) -> Seq<Seq<char>> {
    v.map_values(|e: PackageVersionView| e.version)
}

/// The order in which versions are shown is decided by the versions alone:
/// two lists of the same versions that are both newest first show the same
/// texts at the same places.
pub proof fn lemma_newest_first_unique(a: Seq<PackageVersionView>, b: Seq<PackageVersionView>)
    requires
        newest_first(a),
        newest_first(b),
        a.to_multiset() == b.to_multiset(),
    ensures
        version_texts(a) == version_texts(b),
{
    let key = |e: PackageVersionView| e.version;
    let later = crate::text::str_order(true);
    lemma_map_values_multiset(a, b, key);
    crate::text::lemma_str_le_total_ordering(true);
    let ka = version_texts(a);
    let kb = version_texts(b);
    assert(vstd::relations::sorted_by(ka, later)) by {
        assert forall|i: int, j: int| 0 <= i < j < ka.len() implies #[trigger] later(
            ka[i],
            ka[j],
        ) by {
            assert(str_le(a[j].version, a[i].version));
        }
    }
    assert(vstd::relations::sorted_by(kb, later)) by {
        assert forall|i: int, j: int| 0 <= i < j < kb.len() implies #[trigger] later(
            kb[i],
            kb[j],
        ) by {
            assert(str_le(b[j].version, b[i].version));
        }
    }
    vstd::seq_lib::lemma_sorted_unique(ka, kb, later);
}

impl PackageVersion {
    /// The place that the version links to: the record of the package,
    /// under the text of its identifier.
    pub fn target(&self) -> (r: AppRoute)
        ensures
            r@ == (AppRouteView::Package { package: text_of(self.purl@) }),
    {
        AppRoute::Package { package: self.purl.to_string() }
    }

    /// Whether the version is known to be trusted.
    pub fn is_trusted(&self) -> (r: bool)
        ensures
            r == (trust_of(self.pkg.trusted) == Trust::Trusted),
    {
        self.pkg.trust() == Trust::Trusted
    }
}

} // verus!
