//! Pointers to packages, made ready for a table: each with a label and
//! with the identifier read out of it.

use vstd::prelude::*;
use vstd::string::StringExecFns;
use crate::data::{PackageRef, PackageRefView, Trust, refs_view, trust_of};
use crate::purl::{PackageUrl, PackageUrlView, identifier_of};
use crate::route::{AppRoute, AppRouteView};

verus! {

/// A pointer to a package with the identifier read out of it and the
/// label under which it is listed.
#[derive(Debug, PartialEq, Eq)]
pub struct PackageReference {
    pub label: String,
    pub purl: PackageUrl,
    pub pkg: PackageRef,
}

/// A listed pointer as texts.
pub struct PackageReferenceView {
    pub label: Seq<char>,
    pub purl: PackageUrlView,
    pub pkg: PackageRefView,
}

impl View for PackageReference {
    type V = PackageReferenceView;

    open spec fn view(&self) -> PackageReferenceView {
        PackageReferenceView { label: self.label@, purl: self.purl@, pkg: self.pkg@ }
    }
}

/// Listed pointers as texts.
pub open spec fn references_view(v: Seq<PackageReference>) -> Seq<PackageReferenceView> {
    Seq::new(v.len(), |i: int| v[i]@)
}

/// The label of a package: its name, after its namespace and ` : ` where
/// it has a namespace.
pub open spec fn label_of(p: PackageUrlView) -> Seq<char> {
    match p.namespace {
        Some(namespace) => namespace + " : "@ + p.name,
        None => p.name,
    }
}

/// The listed form of a pointer: none where its identifier does not
/// parse.
pub open spec fn labelled(r: PackageRefView) -> Option<PackageReferenceView> {
    match identifier_of(r.purl) {
        Some(p) => Some(PackageReferenceView { label: label_of(p), purl: p, pkg: r }),
        None => None,
    }
}

/// The label of a package.
pub fn package_label(purl: &PackageUrl) -> (r: String)
    ensures
        r@ == label_of(purl@),
{
    match purl.namespace() {
        Some(namespace) => namespace.to_owned().concat(" : ").concat(purl.name()),
        None => purl.name().to_owned(),
    }
}

/// The pointers that can be listed, in their order: those whose
/// identifier parses, each with its label.
pub fn package_refs(refs: &Vec<PackageRef>) -> (out: Vec<PackageReference>)
    ensures
        references_view(out@) == refs_view(refs@).filter_map(|r: PackageRefView| labelled(r)),
{
    let ghost all = refs_view(refs@);
    let ghost f = |r: PackageRefView| labelled(r);
    let mut out: Vec<PackageReference> = Vec::new();
    let mut i: usize = 0;
    assert(references_view(out@) =~= all.take(0).filter_map(f));
    while i < refs.len()
        invariant
            i <= refs.len(),
            all == refs_view(refs@),
            f == |r: PackageRefView| labelled(r),
            references_view(out@) == all.take(i as int).filter_map(f),
        decreases refs.len() - i,
    {
        proof {
            assert(all.take(i + 1).drop_last() =~= all.take(i as int));
            assert(all.take(i + 1).last() == refs@[i as int]@);
        }
        let ghost before = out@;
        match PackageUrl::from_str(refs[i].purl.as_str()) {
            Ok(purl) => {
                let label = package_label(&purl);
                let entry = PackageReference { label, purl, pkg: refs[i].clone() };
                out.push(entry);
                assert(references_view(out@) =~= references_view(before) + seq![entry@]);
            },
            Err(_) => {},
        }
        i += 1;
    }
    assert(all.take(refs.len() as int) =~= all);
    out
}

/// The label `key=value` of each qualifier, as texts.
pub open spec fn qualifier_labels_of(q: Seq<(Seq<char>, Seq<char>)>) -> Seq<Seq<char>> {
    Seq::new(q.len(), |i: int| q[i].0 + "="@ + q[i].1)
}

impl PackageReference {
    /// The place that the entry links to: the record of the package, under
    /// the identifier as the pointer writes it.
    pub fn target(&self) -> (r: AppRoute)
        ensures
            r@ == (AppRouteView::Package { package: self.pkg.purl@ }),
    {
        AppRoute::Package { package: self.pkg.purl.clone() }
    }

    /// Whether the package is known to be trusted.
    pub fn is_trusted(&self) -> (r: bool)
        ensures
            r == (trust_of(self.pkg.trusted) == Trust::Trusted),
    {
        self.pkg.trust() == Trust::Trusted
    }

    /// The label `key=value` of each qualifier of the identifier, in the
    /// order of the qualifiers.
    pub fn qualifier_labels(&self) -> (r: Vec<String>)
        ensures
            crate::data::strings_view(r@) == qualifier_labels_of(self.purl@.qualifiers),
    {
        let qualifiers = self.purl.qualifiers();
        let mut r: Vec<String> = Vec::new();
        let mut i: usize = 0;
        while i < qualifiers.len()
            invariant
                i <= qualifiers.len(),
                crate::order::qualifiers_view(qualifiers@) == self.purl@.qualifiers,
                r@.len() == i,
                forall|j: int|
                    0 <= j < i ==> (#[trigger] r@[j])@ == qualifiers@[j].0@ + "="@
                        + qualifiers@[j].1@,
            decreases qualifiers.len() - i,
        {
            let label = qualifiers[i].0.clone().concat("=").concat(qualifiers[i].1.as_str());
            r.push(label);
            i += 1;
        }
        assert(crate::data::strings_view(r@) =~= qualifier_labels_of(self.purl@.qualifiers));
        r
    }
}

} // verus!
