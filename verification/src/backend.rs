//! The catalog service: its address, and the requests that clients send to
//! it.
//!
//! Nothing here touches the network. A client states what is to be sent as
//! a [`Request`]; whoever holds the connection sends it and reports what
//! came back to [`crate::exchange`].

use vstd::prelude::*;
use crate::data::{PackageList, strings_view};
use crate::error::Error;
use crate::purl::{PackageUrl, purls_view, text_of, texts_of};

verus! {

/// What `url::Url::parse` makes of a text: nothing where it reports an
/// error, else the serialization of the URL it returns.
pub uninterp spec fn url_parse(s: Seq<char>) -> Option<Seq<char>>;

/// What joining a reference onto a base address gives: nothing where
/// `url::Url::parse` reports an error for `base` or `url::Url::join` one
/// for `input`, else the serialization of the URL that `join` returns.
pub uninterp spec fn url_join(base: Seq<char>, input: Seq<char>) -> Option<Seq<char>>;

/// Parses `s` with `url::Url::parse` and gives the serialization of the
/// URL, or the error of the call.
///
/// Assumed: the outcome is [`url_parse`] of the text.
#[verifier::external_body]
fn parse_url(s: &str) -> (r: Result<String, url::ParseError>)
    ensures
        r is Ok <==> url_parse(s@) is Some,
        r matches Ok(t) ==> Some(t@) == url_parse(s@),
{
    url::Url::parse(s).map(String::from)
}

/// Parses `base` with `url::Url::parse`, resolves `input` against it with
/// `url::Url::join`, and gives the serialization of the URL, or the error
/// of the call that failed.
///
/// Assumed: the outcome is [`url_join`] of the two texts.
#[verifier::external_body]
fn join_url(base: &str, input: &str) -> (r: Result<String, url::ParseError>)
    ensures
        r is Ok <==> url_join(base@, input@) is Some,
        r matches Ok(t) ==> Some(t@) == url_join(base@, input@),
{
    url::Url::parse(base)?.join(input).map(String::from)
}

/// The address of a catalog service.
#[derive(Debug)]
pub struct Backend {
    url: String,
}

impl View for Backend {
    type V = Seq<char>;

    closed spec fn view(&self) -> Seq<char> {
        self.url@
    }
}

impl Backend {
    /// Takes `base` as the address of a catalog if it is an absolute URL.
    /// The address is kept in its serialized form.
    pub fn new(base: &str) -> (r: Result<Backend, Error>)
        ensures
            r is Ok <==> url_parse(base@) is Some,
            r matches Ok(b) ==> Some(b@) == url_parse(base@),
            r matches Err(e) ==> e is InvalidUrl,
    {
        match parse_url(base) {
            Ok(url) => Ok(Backend { url }),
            Err(e) => Err(Error::InvalidUrl(e)),
        }
    }

    /// The address in its serialized form.
    pub fn url(&self) -> (r: &str)
        ensures
            r@ == self@,
    {
        self.url.as_str()
    }

    /// The address of `path` at the catalog: `path` joined onto the base
    /// address.
    pub fn resolve(&self, path: &str) -> (r: Result<String, Error>)
        ensures
            r is Ok <==> url_join(self@, path@) is Some,
            r matches Ok(t) ==> Some(t@) == url_join(self@, path@),
            r matches Err(e) ==> e is InvalidUrl,
    {
        match join_url(self.url.as_str(), path) {
            Ok(url) => Ok(url),
            Err(e) => Err(Error::InvalidUrl(e)),
        }
    }
}

impl PartialEq for Backend {
    /// Backends are equal when their addresses are.
    fn eq(&self, other: &Self) -> (r: bool) {
        crate::text::same_text(self.url.as_str(), other.url.as_str())
    }
}

impl Eq for Backend {

}

impl vstd::std_specs::cmp::PartialEqSpecImpl for Backend {
    open spec fn obeys_eq_spec() -> bool {
        true
    }

    open spec fn eq_spec(&self, other: &Self) -> bool {
        self@ == other@
    }
}

impl Clone for Backend {
    fn clone(&self) -> (r: Self)
        ensures
            r@ == self@,
    {
        Backend { url: self.url.clone() }
    }
}

/// How a request is made.
#[derive(Debug, Clone, Copy, PartialEq, Eq, Structural)]
pub enum Method {
    Get,
    Post,
}

/// A request to the catalog: where it goes, the parameters of its query,
/// and the identifiers it carries as its body, where it has one.
#[derive(Debug, PartialEq, Eq)]
pub struct Request {
    pub method: Method,
    pub url: String,
    pub query: Vec<(String, String)>,
    pub body: Option<PackageList>,
}

/// The texts of identifiers, in their order.
pub open spec fn texts(purls: Seq<PackageUrl>) -> Seq<Seq<char>> {
    texts_of(purls_view(purls))
}

/// A request that asks for one record by one parameter of the query.
pub open spec fn is_query(req: Request, url: Seq<char>, key: Seq<char>, value: Seq<char>) -> bool {
    &&& req.method == Method::Get
    &&& req.url@ == url
    &&& req.query@.len() == 1
    &&& req.query@[0].0@ == key
    &&& req.query@[0].1@ == value
    &&& req.body is None
}

/// A request that carries the given identifiers as its body, in their
/// order.
pub open spec fn is_batch(req: Request, url: Seq<char>, identifiers: Seq<Seq<char>>) -> bool {
    &&& req.method == Method::Post
    &&& req.url@ == url
    &&& req.query@.len() == 0
    &&& req.body matches Some(list) && list@ == identifiers
}

/// The payload of a batch request for the given identifiers: the text of
/// each, in the order given. Nothing is left out and nothing is merged: an
/// identifier that is given twice is listed twice.
pub fn package_list(purls: &Vec<PackageUrl>) -> (list: PackageList)
    ensures
        list@ == texts(purls@),
{
    let mut identifiers: Vec<String> = Vec::new();
    let mut i: usize = 0;
    while i < purls.len()
        invariant
            i <= purls.len(),
            identifiers@.len() == i,
            forall|j: int| 0 <= j < i ==> identifiers@[j]@ == text_of(purls@[j]@),
        decreases purls.len() - i,
    {
        identifiers.push(purls[i].to_string());
        i += 1;
    }
    assert(strings_view(identifiers@) =~= texts(purls@));
    PackageList(identifiers)
}

/// A client for the records of packages, bound to one catalog.
#[derive(Debug)]
pub struct PackageService {
    backend: Backend,
}

impl PackageService {
    /// A client bound to `backend`.
    pub fn new(backend: Backend) -> (r: Self)
        ensures
            r.backend()@ == backend@,
    {
        Self { backend }
    }

    /// The catalog that the client is bound to.
    pub closed spec fn backend(&self) -> Backend {
        self.backend
    }

    /// The request for the record of one package: a query for its
    /// text.
    pub fn lookup(&self, purl: &PackageUrl) -> (r: Result<Request, Error>)
        ensures
            r is Ok <==> url_join(self.backend()@, "/api/package"@) is Some,
            r matches Ok(req) ==> is_query(
                req,
                url_join(self.backend()@, "/api/package"@).unwrap(),
                "purl"@,
                text_of(purl@),
            ),
            r matches Err(e) ==> e is InvalidUrl,
    {
        let url = self.backend.resolve("/api/package")?;
        let mut query: Vec<(String, String)> = Vec::new();
        query.push(("purl".to_owned(), purl.to_string()));
        Ok(Request { method: Method::Get, url, query, body: None })
    }

    /// The request for pointers to all of `purls` at once.
    pub fn lookup_batch(&self, purls: &Vec<PackageUrl>) -> (r: Result<Request, Error>)
        ensures
            r is Ok <==> url_join(self.backend()@, "/api/package"@) is Some,
            r matches Ok(req) ==> is_batch(
                req,
                url_join(self.backend()@, "/api/package"@).unwrap(),
                texts(purls@),
            ),
            r matches Err(e) ==> e is InvalidUrl,
    {
        self.batch_to_refs("/api/package", purls)
    }

    /// The request for the known versions of each of `purls`.
    pub fn versions(&self, purls: &Vec<PackageUrl>) -> (r: Result<Request, Error>)
        ensures
            r is Ok <==> url_join(self.backend()@, "/api/package/versions"@) is Some,
            r matches Ok(req) ==> is_batch(
                req,
                url_join(self.backend()@, "/api/package/versions"@).unwrap(),
                texts(purls@),
            ),
            r matches Err(e) ==> e is InvalidUrl,
    {
        self.batch_to_refs("/api/package/versions", purls)
    }

    /// The request for the packages that each of `purls` depends on.
    pub fn dependencies(&self, purls: &Vec<PackageUrl>) -> (r: Result<Request, Error>)
        ensures
            r is Ok <==> url_join(self.backend()@, "/api/package/dependencies"@) is Some,
            r matches Ok(req) ==> is_batch(
                req,
                url_join(self.backend()@, "/api/package/dependencies"@).unwrap(),
                texts(purls@),
            ),
            r matches Err(e) ==> e is InvalidUrl,
    {
        self.batch_to_refs("/api/package/dependencies", purls)
    }

    /// The request for the packages that depend on each of `purls`.
    pub fn dependents(&self, purls: &Vec<PackageUrl>) -> (r: Result<Request, Error>)
        ensures
            r is Ok <==> url_join(self.backend()@, "/api/package/dependents"@) is Some,
            r matches Ok(req) ==> is_batch(
                req,
                url_join(self.backend()@, "/api/package/dependents"@).unwrap(),
                texts(purls@),
            ),
            r matches Err(e) ==> e is InvalidUrl,
    {
        self.batch_to_refs("/api/package/dependents", purls)
    }

    /// The request that asks at `path` about all of `purls` at once: one
    /// request, whose body lists the text of each identifier in
    /// the order given.
    pub fn batch_to_refs(&self, path: &str, purls: &Vec<PackageUrl>) -> (r: Result<Request, Error>)
        ensures
            r is Ok <==> url_join(self.backend()@, path@) is Some,
            r matches Ok(req) ==> is_batch(
                req,
                url_join(self.backend()@, path@).unwrap(),
                texts(purls@),
            ),
            r matches Err(e) ==> e is InvalidUrl,
    {
        let url = self.backend.resolve(path)?;
        let list = package_list(purls);
        Ok(Request { method: Method::Post, url, query: Vec::new(), body: Some(list) })
    }
}

/// A client for the records of vulnerabilities, bound to one catalog.
#[derive(Debug)]
pub struct VulnerabilityService {
    backend: Backend,
}

impl VulnerabilityService {
    /// A client bound to `backend`.
    pub fn new(backend: Backend) -> (r: Self)
        ensures
            r.backend()@ == backend@,
    {
        Self { backend }
    }

    /// The catalog that the client is bound to.
    pub closed spec fn backend(&self) -> Backend {
        self.backend
    }

    /// The request for the record of one vulnerability: a query for its
    /// identifier.
    pub fn lookup(&self, cve: &String) -> (r: Result<Request, Error>)
        ensures
            r is Ok <==> url_join(self.backend()@, "/api/vulnerability"@) is Some,
            r matches Ok(req) ==> is_query(
                req,
                url_join(self.backend()@, "/api/vulnerability"@).unwrap(),
                "cve"@,
                cve@,
            ),
            r matches Err(e) ==> e is InvalidUrl,
    {
        let url = self.backend.resolve("/api/vulnerability")?;
        let mut query: Vec<(String, String)> = Vec::new();
        query.push(("cve".to_owned(), cve.clone()));
        Ok(Request { method: Method::Get, url, query, body: None })
    }
}

} // verus!
