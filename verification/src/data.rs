//! The records that the catalog returns, and the payload of a batch request.

use vstd::prelude::*;
use crate::text::{clone_opt, opt_view};

verus! {

/// A pointer to a package: its identifier in canonical text, where its
/// record is found, and whether it is trusted, where that is known.
#[derive(Debug, PartialEq, Eq)]
pub struct PackageRef {
    pub purl: String,
    pub href: String,
    pub trusted: Option<bool>,
}

/// A pointer to a vulnerability: its identifier and where its record is
/// found.
#[derive(Debug, PartialEq, Eq)]
pub struct VulnerabilityRef {
    pub cve: String,
    pub href: String,
}

/// What a scanner knows of a package. Nothing is recorded yet.
#[derive(Debug, PartialEq, Eq)]
pub struct SnykData;

/// The record of a package.
#[derive(Debug, PartialEq, Eq)]
pub struct Package {
    pub purl: Option<String>,
    pub href: Option<String>,
    pub trusted: Option<bool>,
    pub trusted_versions: Vec<PackageRef>,
    pub vulnerabilities: Vec<VulnerabilityRef>,
    pub snyk: Option<SnykData>,
}

/// A score of a vulnerability and the state of that score.
#[derive(Debug, PartialEq, Eq)]
pub struct Cvss3 {
    pub score: String,
    pub status: String,
}

/// The record of a vulnerability, with the packages it affects.
#[derive(Debug, PartialEq, Eq)]
pub struct Vulnerability {
    pub cve: String,
    pub severity: Option<String>,
    pub cvss3: Option<Cvss3>,
    pub summary: String,
    pub advisory: String,
    pub packages: Vec<PackageRef>,
}

/// The packages that one package depends on.
#[derive(Debug, PartialEq, Eq)]
pub struct PackageDependencies(pub Vec<PackageRef>);

/// The packages that depend on one package.
#[derive(Debug, PartialEq, Eq)]
pub struct PackageDependents(pub Vec<PackageRef>);

/// The payload of a batch request: the texts of identifiers, in the
/// order in which they were asked for.
#[derive(Debug, PartialEq, Eq)]
pub struct PackageList(pub Vec<String>);

/// A package pointer as texts.
pub struct PackageRefView {
    pub purl: Seq<char>,
    pub href: Seq<char>,
    pub trusted: Option<bool>,
}

impl View for PackageRef {
    type V = PackageRefView;

    open spec fn view(&self) -> PackageRefView {
        PackageRefView { purl: self.purl@, href: self.href@, trusted: self.trusted }
    }
}

/// A vulnerability pointer as texts.
pub struct VulnerabilityRefView {
    pub cve: Seq<char>,
    pub href: Seq<char>,
}

impl View for VulnerabilityRef {
    type V = VulnerabilityRefView;

    open spec fn view(&self) -> VulnerabilityRefView {
        VulnerabilityRefView { cve: self.cve@, href: self.href@ }
    }
}

/// A list of package pointers as texts.
pub open spec fn refs_view(v: Seq<PackageRef>) -> Seq<PackageRefView> {
    Seq::new(v.len(), |i: int| v[i]@)
}

/// A list of vulnerability pointers as texts.
pub open spec fn vulnerability_refs_view(v: Seq<VulnerabilityRef>) -> Seq<VulnerabilityRefView> {
    Seq::new(v.len(), |i: int| v[i]@)
}

/// A list of strings as texts.
pub open spec fn strings_view(v: Seq<String>) -> Seq<Seq<char>> {
    Seq::new(v.len(), |i: int| v[i]@)
}

/// The record of a package as texts.
pub struct PackageView {
    pub purl: Option<Seq<char>>,
    pub href: Option<Seq<char>>,
    pub trusted: Option<bool>,
    pub trusted_versions: Seq<PackageRefView>,
    pub vulnerabilities: Seq<VulnerabilityRefView>,
    pub snyk: Option<SnykData>,
}

impl View for Package {
    type V = PackageView;

    open spec fn view(&self) -> PackageView {
        PackageView {
            purl: opt_view(self.purl),
            href: opt_view(self.href),
            trusted: self.trusted,
            trusted_versions: refs_view(self.trusted_versions@),
            vulnerabilities: vulnerability_refs_view(self.vulnerabilities@),
            snyk: self.snyk,
        }
    }
}

/// A score as texts.
pub struct Cvss3View {
    pub score: Seq<char>,
    pub status: Seq<char>,
}

impl View for Cvss3 {
    type V = Cvss3View;

    open spec fn view(&self) -> Cvss3View {
        Cvss3View { score: self.score@, status: self.status@ }
    }
}

/// The record of a vulnerability as texts.
pub struct VulnerabilityView {
    pub cve: Seq<char>,
    pub severity: Option<Seq<char>>,
    pub cvss3: Option<Cvss3View>,
    pub summary: Seq<char>,
    pub advisory: Seq<char>,
    pub packages: Seq<PackageRefView>,
}

impl View for Vulnerability {
    type V = VulnerabilityView;

    open spec fn view(&self) -> VulnerabilityView {
        VulnerabilityView {
            cve: self.cve@,
            severity: opt_view(self.severity),
            cvss3: match self.cvss3 {
                Some(c) => Some(c@),
                None => None,
            },
            summary: self.summary@,
            advisory: self.advisory@,
            packages: refs_view(self.packages@),
        }
    }
}

impl View for PackageDependencies {
    type V = Seq<PackageRefView>;

    open spec fn view(&self) -> Seq<PackageRefView> {
        refs_view(self.0@)
    }
}

impl View for PackageDependents {
    type V = Seq<PackageRefView>;

    open spec fn view(&self) -> Seq<PackageRefView> {
        refs_view(self.0@)
    }
}

impl View for PackageList {
    type V = Seq<Seq<char>>;

    open spec fn view(&self) -> Seq<Seq<char>> {
        strings_view(self.0@)
    }
}

/// What is known of the trust in a package. That nothing is known and that
/// the package is known not to be trusted are two things.
#[derive(Debug, Clone, Copy, PartialEq, Eq, Structural)]
pub enum Trust {
    /// Nothing is known.
    Unknown,
    /// The package is known to be trusted.
    Trusted,
    /// The package is known not to be trusted.
    Untrusted,
}

/// What a record says of the trust in a package.
pub open spec fn trust_of(trusted: Option<bool>) -> Trust {
    match trusted {
        None => Trust::Unknown,
        Some(true) => Trust::Trusted,
        Some(false) => Trust::Untrusted,
    }
}

impl Trust {
    /// What a record says of the trust in a package.
    pub fn of(trusted: Option<bool>) -> (r: Trust)
        ensures
            r == trust_of(trusted),
    {
        match trusted {
            None => Trust::Unknown,
            Some(true) => Trust::Trusted,
            Some(false) => Trust::Untrusted,
        }
    }
}

impl PackageRef {
    /// What is known of the trust in the package.
    pub fn trust(&self) -> (r: Trust)
        ensures
            r == trust_of(self.trusted),
    {
        Trust::of(self.trusted)
    }
}

impl Package {
    /// What is known of the trust in the package.
    pub fn trust(&self) -> (r: Trust)
        ensures
            r == trust_of(self.trusted),
    {
        Trust::of(self.trusted)
    }
}

/// A copy of a list of package pointers.
pub fn clone_refs(v: &Vec<PackageRef>) -> (r: Vec<PackageRef>)
    ensures
        refs_view(r@) == refs_view(v@),
{
    let mut r: Vec<PackageRef> = Vec::new();
    let mut i: usize = 0;
    while i < v.len()
        invariant
            i <= v.len(),
            r@.len() == i,
            forall|j: int| 0 <= j < i ==> r@[j]@ == v@[j]@,
        decreases v.len() - i,
    {
        r.push(v[i].clone());
        i += 1;
    }
    assert(refs_view(r@) =~= refs_view(v@));
    r
}

/// A copy of a list of vulnerability pointers.
pub fn clone_vulnerability_refs(v: &Vec<VulnerabilityRef>) -> (r: Vec<VulnerabilityRef>)
    ensures
        vulnerability_refs_view(r@) == vulnerability_refs_view(v@),
{
    let mut r: Vec<VulnerabilityRef> = Vec::new();
    let mut i: usize = 0;
    while i < v.len()
        invariant
            i <= v.len(),
            r@.len() == i,
            forall|j: int| 0 <= j < i ==> r@[j]@ == v@[j]@,
        decreases v.len() - i,
    {
        r.push(v[i].clone());
        i += 1;
    }
    assert(vulnerability_refs_view(r@) =~= vulnerability_refs_view(v@));
    r
}

/// A copy of a list of strings.
pub fn clone_strings(v: &Vec<String>) -> (r: Vec<String>)
    ensures
        strings_view(r@) == strings_view(v@),
{
    let mut r: Vec<String> = Vec::new();
    let mut i: usize = 0;
    while i < v.len()
        invariant
            i <= v.len(),
            r@.len() == i,
            forall|j: int| 0 <= j < i ==> r@[j]@ == v@[j]@,
        decreases v.len() - i,
    {
        r.push(v[i].clone());
        i += 1;
    }
    assert(strings_view(r@) =~= strings_view(v@));
    r
}

impl Clone for PackageRef {
    fn clone(&self) -> (r: Self)
        ensures
            r@ == self@,
    {
        PackageRef { purl: self.purl.clone(), href: self.href.clone(), trusted: self.trusted }
    }
}

impl Clone for VulnerabilityRef {
    fn clone(&self) -> (r: Self)
        ensures
            r@ == self@,
    {
        VulnerabilityRef { cve: self.cve.clone(), href: self.href.clone() }
    }
}

impl Clone for SnykData {
    fn clone(&self) -> (r: Self)
        ensures
            r == *self,
    {
        SnykData
    }
}

impl Clone for Cvss3 {
    fn clone(&self) -> (r: Self)
        ensures
            r@ == self@,
    {
        Cvss3 { score: self.score.clone(), status: self.status.clone() }
    }
}

impl Clone for Package {
    fn clone(&self) -> (r: Self)
        ensures
            r@ == self@,
    {
        Package {
            purl: clone_opt(&self.purl),
            href: clone_opt(&self.href),
            trusted: self.trusted,
            trusted_versions: clone_refs(&self.trusted_versions),
            vulnerabilities: clone_vulnerability_refs(&self.vulnerabilities),
            snyk: match &self.snyk {
                Some(s) => Some(s.clone()),
                None => None,
            },
        }
    }
}

impl Clone for Vulnerability {
    fn clone(&self) -> (r: Self)
        ensures
            r@ == self@,
    {
        Vulnerability {
            cve: self.cve.clone(),
            severity: clone_opt(&self.severity),
            cvss3: match &self.cvss3 {
                Some(c) => Some(c.clone()),
                None => None,
            },
            summary: self.summary.clone(),
            advisory: self.advisory.clone(),
            packages: clone_refs(&self.packages),
        }
    }
}

impl Clone for PackageDependencies {
    fn clone(&self) -> (r: Self)
        ensures
            r@ == self@,
    {
        PackageDependencies(clone_refs(&self.0))
    }
}

impl Clone for PackageDependents {
    fn clone(&self) -> (r: Self)
        ensures
            r@ == self@,
    {
        PackageDependents(clone_refs(&self.0))
    }
}

impl Clone for PackageList {
    fn clone(&self) -> (r: Self)
        ensures
            r@ == self@,
    {
        PackageList(clone_strings(&self.0))
    }
}

impl std::ops::Deref for PackageDependencies {
    type Target = [PackageRef];

    fn deref(&self) -> (r: &[PackageRef])
        ensures
            r@ == self.0@,
    {
        self.0.as_slice()
    }
}

impl std::ops::Deref for PackageDependents {
    type Target = [PackageRef];

    fn deref(&self) -> (r: &[PackageRef])
        ensures
            r@ == self.0@,
    {
        self.0.as_slice()
    }
}

} // verus!
