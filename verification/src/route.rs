//! The places of the console that a record can point to.

use vstd::prelude::*;
use crate::data::{Package, VulnerabilityRefView};

verus! {

/// A place in the console.
#[derive(Debug, PartialEq, Eq)]
pub enum AppRoute {
    /// The overview.
    Index,
    Chicken,
    /// The record of the package with this identifier. An empty text
    /// stands for the place where a package is looked up.
    Package { package: String },
    /// The record of the vulnerability with this identifier.
    Vulnerability { cve: String },
}

/// A place as texts.
pub enum AppRouteView {
    Index,
    Chicken,
    Package { package: Seq<char> },
    Vulnerability { cve: Seq<char> },
}

impl View for AppRoute {
    type V = AppRouteView;

    open spec fn view(&self) -> AppRouteView {
        match self {
            AppRoute::Index => AppRouteView::Index,
            AppRoute::Chicken => AppRouteView::Chicken,
            AppRoute::Package { package } => AppRouteView::Package { package: package@ },
            AppRoute::Vulnerability { cve } => AppRouteView::Vulnerability { cve: cve@ },
        }
    }
}

impl Clone for AppRoute {
    fn clone(&self) -> (r: Self)
        ensures
            r@ == self@,
    {
        match self {
            AppRoute::Index => AppRoute::Index,
            AppRoute::Chicken => AppRoute::Chicken,
            AppRoute::Package { package } => AppRoute::Package { package: package.clone() },
            AppRoute::Vulnerability { cve } => AppRoute::Vulnerability { cve: cve.clone() },
        }
    }
}

/// Places as texts.
pub open spec fn routes_view(v: Seq<AppRoute>) -> Seq<AppRouteView> {
    Seq::new(v.len(), |i: int| v[i]@)
}

/// The places of the records of vulnerabilities, in their order.
pub open spec fn vulnerability_routes(v: Seq<VulnerabilityRefView>) -> Seq<AppRouteView> {
    Seq::new(v.len(), |i: int| AppRouteView::Vulnerability { cve: v[i].cve })
}

/// The places that the record of a package links to: the record of each
/// of its known vulnerabilities, in the order of the record.
pub fn package_details(package: &Package) -> (r: Vec<AppRoute>)
    ensures
        routes_view(r@) == vulnerability_routes(package@.vulnerabilities),
{
    let mut r: Vec<AppRoute> = Vec::new();
    let mut i: usize = 0;
    while i < package.vulnerabilities.len()
        invariant
            i <= package.vulnerabilities.len(),
            r@.len() == i,
            forall|j: int|
                0 <= j < i ==> (#[trigger] r@[j])@ == (AppRouteView::Vulnerability {
                    cve: package.vulnerabilities@[j].cve@,
                }),
        decreases package.vulnerabilities.len() - i,
    {
        r.push(AppRoute::Vulnerability { cve: package.vulnerabilities[i].cve.clone() });
        i += 1;
    }
    assert(routes_view(r@) =~= vulnerability_routes(package@.vulnerabilities));
    r
}

} // verus!
