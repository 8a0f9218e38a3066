//! Bills of materials, and the package identifiers that their components
//! declare.
//!
//! The format of a bill of materials is that of the `cyclonedx-bom`
//! crate, which reads it. Of what it reads, a [`Sbom`] keeps the list of
//! components with the identifier that each declares.

use vstd::prelude::*;
use vstd::string::StringExecFns;
use crate::data::strings_view;
use crate::backend::{PackageService, Request, is_batch, url_join};
use crate::error::Error;
use crate::purl::{PackageUrl, PackageUrlView, identifier_of, purls_view, texts_of};
use crate::text::opt_view;

verus! {

/// A component of a bill of materials: the package identifier that it
/// declares, where it declares one, as it is written in the document.
#[derive(Debug, PartialEq, Eq)]
pub struct Component {
    pub purl: Option<String>,
}

/// A bill of materials: its components in the order of the document, or
/// none where the document has no list of components.
#[derive(Debug, PartialEq, Eq)]
pub struct Sbom {
    pub components: Option<Vec<Component>>,
}

/// The identifiers that components declare, as texts.
pub open spec fn components_view(c: Seq<Component>) -> Seq<Option<Seq<char>>> {
    Seq::new(c.len(), |i: int| opt_view(c[i].purl))
}

/// A bill of materials as texts: for each component the identifier that it
/// declares, or none.
pub struct SbomView {
    pub components: Option<Seq<Option<Seq<char>>>>,
}

impl View for Sbom {
    type V = SbomView;

    open spec fn view(&self) -> SbomView {
        SbomView {
            components: match self.components {
                Some(c) => Some(components_view(c@)),
                None => None,
            },
        }
    }
}

/// What `cyclonedx_bom::models::bom::Bom::parse_from_json_v1_3` makes of a
/// document: the message of the error where it reports one, else the
/// components at the top of the bill it returns, each with the text of the
/// identifier that it declares.
pub uninterp spec fn sbom_from_json(data: Seq<char>) -> Result<SbomView, Seq<char>>;

/// The bill of materials that a document holds, where it holds one.
pub open spec fn sbom_parse(data: Seq<char>) -> Option<SbomView> {
    match sbom_from_json(data) {
        Ok(b) => Some(b),
        Err(_) => None,
    }
}

/// What is said of a document that holds no bill of materials: that it
/// does not, and why.
pub open spec fn sbom_refusal(data: Seq<char>) -> Seq<char> {
    match sbom_from_json(data) {
        Ok(_) => Seq::empty(),
        Err(reason) => "Failed to parse SBOM: "@ + reason,
    }
}

/// Reads `data` with `Bom::parse_from_json_v1_3` of the `cyclonedx-bom`
/// crate and copies out of the bill, for each component at its top, the
/// text of the identifier that it declares.
///
/// Assumed: the outcome is what [`sbom_from_json`] gives.
#[verifier::external_body]
fn read_bom(data: &str) -> (r: Result<Sbom, String>)
    ensures
        r matches Ok(b) ==> {
            &&& sbom_from_json(data@) is Ok
            &&& sbom_from_json(data@)->Ok_0 == b@
        },
        r matches Err(message) ==> {
            &&& sbom_from_json(data@) is Err
            &&& sbom_from_json(data@)->Err_0 == message@
        },
{
    let bom = cyclonedx_bom::prelude::Bom::parse_from_json_v1_3(data.as_bytes())
        .map_err(|e| e.to_string())?;
    let purl = |c: &cyclonedx_bom::models::component::Component| Component {
        purl: c.purl.as_ref().map(|p| p.to_string()),
    };
    Ok(Sbom { components: bom.components.map(|c| c.0.iter().map(purl).collect()) })
}

/// The identifiers that the components declare, in the order of the
/// components. A component that declares none contributes nothing; an
/// identifier that is declared twice is listed twice.
pub open spec fn declared(components: Seq<Option<Seq<char>>>) -> Seq<Seq<char>> {
    components.filter_map(|p: Option<Seq<char>>| p)
}

/// The identifiers that the components of a bill declare; none where the
/// bill has no list of components.
pub open spec fn identifiers(sbom: SbomView) -> Seq<Seq<char>> {
    match sbom.components {
        Some(c) => declared(c),
        None => Seq::empty(),
    }
}

/// How many of the components declare an identifier.
pub open spec fn declaring(components: Seq<Option<Seq<char>>>) -> nat
    decreases components.len(),
{
    if components.len() == 0 {
        0
    } else {
        declaring(components.drop_last()) + if components.last() is Some {
            1nat
        } else {
            0nat
        }
    }
}

impl Sbom {
    /// Reads a bill of materials from a JSON document of version 1.3 of
    /// the format.
    ///
    /// Where the document is refused, the message says so and goes on with
    /// the reason.
    pub fn parse(data: &str) -> (r: Result<Sbom, String>)
        ensures
            r is Ok <==> sbom_parse(data@) is Some,
            r matches Ok(b) ==> Some(b@) == sbom_parse(data@),
            r matches Err(message) ==> message@ == sbom_refusal(data@),
    {
        match read_bom(data) {
            Ok(sbom) => Ok(sbom),
            Err(reason) => {
                let message = "Failed to parse SBOM: ".to_owned().concat(reason.as_str());
                Err(message)
            },
        }
    }

    /// The package identifiers that the components declare, as they are
    /// written, in the order of the document.
    ///
    /// A component without an identifier is passed over. Nothing is merged:
    /// what is declared twice is listed twice.
    pub fn extract_identifiers(&self) -> (out: Vec<String>)
        ensures
            strings_view(out@) == identifiers(self@),
    {
        let mut out: Vec<String> = Vec::new();
        match &self.components {
            None => {
                assert(strings_view(out@) =~= identifiers(self@));
            },
            Some(components) => {
                let ghost all = components_view(components@);
                let mut i: usize = 0;
                assert(strings_view(out@) =~= declared(all.take(0)));
                while i < components.len()
                    invariant
                        i <= components.len(),
                        all == components_view(components@),
                        strings_view(out@) == declared(all.take(i as int)),
                    decreases components.len() - i,
                {
                    proof {
                        assert(all.take(i + 1).drop_last() =~= all.take(i as int));
                        assert(all.take(i + 1).last() == opt_view(components@[i as int].purl));
                    }
                    let ghost before = out@;
                    match &components[i].purl {
                        Some(purl) => {
                            out.push(purl.clone());
                            assert(strings_view(out@) =~= strings_view(before) + seq![purl@]);
                        },
                        None => {},
                    }
                    i += 1;
                }
                assert(all.take(components.len() as int) =~= all);
            },
        }
        out
    }
}

/// As many identifiers come out as there are components that declare one.
pub proof fn lemma_declared_len(components: Seq<Option<Seq<char>>>)
    ensures
        declared(components).len() == declaring(components),
        declaring(components) <= components.len(),
    decreases components.len(),
{
    if components.len() > 0 {
        lemma_declared_len(components.drop_last());
    }
}

/// The identifiers come out in the order of the document: of any two
/// components that declare one, the identifier of the earlier stands at an
/// earlier place, and each stands at the place that the count of the
/// declaring components before it gives.
pub proof fn lemma_declared_in_order(components: Seq<Option<Seq<char>>>, i: int)
    requires
        0 <= i < components.len(),
        components[i] is Some,
    ensures
        declaring(components.take(i)) < declared(components).len(),
        declared(components)[declaring(components.take(i)) as int] == components[i].unwrap(),
    decreases components.len(),
{
    let before = components.drop_last();
    lemma_declared_len(before);
    if i == components.len() - 1 {
        assert(components.take(i) =~= before);
    } else {
        lemma_declared_in_order(before, i);
        assert(before.take(i) =~= components.take(i));
    }
}

/// The identifiers among `raw` that parse, in their order, and parsed.
pub open spec fn parsed(raw: Seq<Seq<char>>) -> Seq<PackageUrlView> {
    raw.filter_map(|s: Seq<char>| identifier_of(s))
}

/// Parses each of `raw`. A text that is no identifier is passed over; the
/// others keep their order.
pub fn parse_identifiers(raw: &Vec<String>) -> (out: Vec<PackageUrl>)
    ensures
        purls_view(out@) == parsed(strings_view(raw@)),
{
    let ghost all = strings_view(raw@);
    let mut out: Vec<PackageUrl> = Vec::new();
    let mut i: usize = 0;
    assert(purls_view(out@) =~= parsed(all.take(0)));
    while i < raw.len()
        invariant
            i <= raw.len(),
            all == strings_view(raw@),
            purls_view(out@) == parsed(all.take(i as int)),
        decreases raw.len() - i,
    {
        proof {
            assert(all.take(i + 1).drop_last() =~= all.take(i as int));
            assert(all.take(i + 1).last() == raw@[i as int]@);
        }
        let ghost before = out@;
        match PackageUrl::from_str(raw[i].as_str()) {
            Ok(purl) => {
                out.push(purl);
                assert(purls_view(out@) =~= purls_view(before) + seq![purl@]);
            },
            Err(_) => {},
        }
        i += 1;
    }
    assert(all.take(raw.len() as int) =~= all);
    out
}

/// The request that asks the catalog about every component of a bill at
/// once: the identifiers that the components declare and that parse, in
/// the order of the document.
pub fn inspect(service: &PackageService, sbom: &Sbom) -> (r: Result<Request, Error>)
    ensures
        r is Ok <==> url_join(service.backend()@, "/api/package"@) is Some,
        r matches Ok(req) ==> is_batch(
            req,
            url_join(service.backend()@, "/api/package"@).unwrap(),
            texts_of(parsed(identifiers(sbom@))),
        ),
        r matches Err(e) ==> e is InvalidUrl,
{
    let raw = sbom.extract_identifiers();
    let purls = parse_identifiers(&raw);
    service.lookup_batch(&purls)
}

} // verus!
