//! Reading a package identifier from what a user entered: the identifier
//! itself, or the coordinates of a Maven artifact, written with colons or
//! as the `<dependency>` element of a project file.

use vstd::prelude::*;
use vstd::string::StringExecFns;
use crate::error::{Error, IdentifierFault};
use crate::order::settled;
use crate::purl::{
    PackageUrl, PackageUrlView, identifier_of, purl_build, purl_from_str, round_trips,
    with_qualifiers,
};
use crate::text::{opt_view, opt_str_view};
use crate::split::{pieces, split};

verus! {

/// A node of an XML document: the local name of its tag, which is empty
/// where the node is no element, and its text, where it has one.
#[derive(Debug, PartialEq, Eq)]
pub struct XmlNode {
    pub name: String,
    pub text: Option<String>,
}

/// A node as texts.
pub struct XmlNodeView {
    pub name: Seq<char>,
    pub text: Option<Seq<char>>,
}

impl View for XmlNode {
    type V = XmlNodeView;

    open spec fn view(&self) -> XmlNodeView {
        XmlNodeView { name: self.name@, text: opt_view(self.text) }
    }
}

/// Nodes as texts.
pub open spec fn nodes_view(v: Seq<XmlNode>) -> Seq<XmlNodeView> {
    Seq::new(v.len(), |i: int| v[i]@)
}

/// What `roxmltree::Document::parse` makes of a text: the message of the
/// error where it reports one, else the nodes of the document in the order
/// in which `descendants` of its root walks them, each with the local name
/// of its tag and its text.
pub uninterp spec fn xml_document(input: Seq<char>) -> Result<Seq<XmlNodeView>, Seq<char>>;

/// The nodes of the XML document that a text holds, where it holds one.
pub open spec fn xml_nodes(input: Seq<char>) -> Option<Seq<XmlNodeView>> {
    match xml_document(input) {
        Ok(nodes) => Some(nodes),
        Err(_) => None,
    }
}

/// Reads `input` with `roxmltree::Document::parse` and copies out of each
/// node that `descendants` of the root gives, in that order, the local
/// name of its tag and its text.
///
/// Assumed: the outcome is what [`xml_document`] gives.
#[verifier::external_body]
fn read_xml(input: &str) -> (r: Result<Vec<XmlNode>, String>)
    ensures
        r matches Ok(nodes) ==> {
            &&& xml_document(input@) is Ok
            &&& xml_document(input@)->Ok_0 == nodes_view(nodes@)
        },
        r matches Err(message) ==> {
            &&& xml_document(input@) is Err
            &&& xml_document(input@)->Err_0 == message@
        },
{
    let doc = roxmltree::Document::parse(input).map_err(|e| e.to_string())?;
    let node = |n: roxmltree::Node| XmlNode {
        name: n.tag_name().name().to_string(),
        text: n.text().map(String::from),
    };
    Ok(doc.root().descendants().map(node).collect())
}

/// Why no identifier could be read from what was entered.
#[derive(Debug)]
pub enum LookupError {
    /// Nothing was entered.
    Empty,
    /// What was entered is no package identifier.
    NotPackageUrl(Error),
    /// What was entered is no XML document; the text says why.
    NotXml(String),
    /// The document names no artifact.
    MissingArtifactId,
    /// The coordinates do not make an identifier.
    Identifier(Error),
}

/// What a user is told about a failure.
pub open spec fn message_of(e: LookupError) -> Seq<char> {
    match e {
        LookupError::Empty => "Must not be empty"@,
        LookupError::NotPackageUrl(_) => "Unable to parse as Package URL"@,
        LookupError::NotXml(reason) => "Unable to parse as XML ("@ + reason@ + ")"@,
        LookupError::MissingArtifactId => "Missing required <artifactId>"@,
        LookupError::Identifier(_) => "Unable to build a Package URL"@,
    }
}

impl LookupError {
    /// What a user is told about the failure.
    pub fn message(&self) -> (r: String)
        ensures
            r@ == message_of(*self),
    {
        match self {
            LookupError::Empty => "Must not be empty".to_owned(),
            LookupError::NotPackageUrl(_) => "Unable to parse as Package URL".to_owned(),
            LookupError::NotXml(reason) => "Unable to parse as XML (".to_owned().concat(
                reason.as_str(),
            ).concat(")"),
            LookupError::MissingArtifactId => "Missing required <artifactId>".to_owned(),
            LookupError::Identifier(_) => "Unable to build a Package URL".to_owned(),
        }
    }
}

/// The identifier of the package that a page is about: none where the
/// text is empty or is no identifier.
pub fn purl(package: &str) -> (r: Option<PackageUrl>)
    ensures
        r is Some <==> package@.len() > 0 && identifier_of(package@) is Some,
        r matches Some(p) ==> Some(p@) == identifier_of(package@),
{
    if package.is_empty() {
        return None;
    }
    match PackageUrl::from_str(package) {
        Ok(p) => Some(p),
        Err(_) => None,
    }
}

/// Reads an identifier that was entered as such.
pub fn package_url(input: &str) -> (r: Result<PackageUrl, LookupError>)
    ensures
        r is Ok <==> input@.len() > 0 && identifier_of(input@) is Some,
        r matches Ok(p) ==> Some(p@) == identifier_of(input@),
        r matches Err(e) ==> if input@.len() == 0 {
            e is Empty
        } else {
            e matches LookupError::NotPackageUrl(Error::InvalidIdentifier(fault)) && match purl_from_str(
                input@,
            ) {
                Ok(_) => fault is Lossy,
                Err(reason) => fault matches IdentifierFault::Malformed(m) && m@ == reason,
            }
        },
{
    if input.is_empty() {
        return Err(LookupError::Empty);
    }
    match PackageUrl::from_str(input) {
        Ok(p) => Ok(p),
        Err(e) => Err(LookupError::NotPackageUrl(e)),
    }
}

/// The place of the first node with the given name, or the number of
/// nodes where there is none.
pub open spec fn first_named(nodes: Seq<XmlNodeView>, tag: Seq<char>) -> int
    decreases nodes.len(),
{
    if nodes.len() == 0 {
        0
    } else if nodes[0].name == tag {
        0
    } else {
        1 + first_named(nodes.drop_first(), tag)
    }
}

/// The text of the first node with the given name: none where there is no
/// such node or where that node has no text.
pub open spec fn deps_value(nodes: Seq<XmlNodeView>, tag: Seq<char>) -> Option<Seq<char>> {
    let i = first_named(nodes, tag);
    if i < nodes.len() {
        nodes[i].text
    } else {
        None
    }
}

/// The first node with the given name stands where no node before it has
/// that name.
pub proof fn lemma_first_named(nodes: Seq<XmlNodeView>, tag: Seq<char>)
    ensures
        0 <= first_named(nodes, tag) <= nodes.len(),
        forall|j: int| 0 <= j < first_named(nodes, tag) ==> (#[trigger] nodes[j]).name != tag,
        first_named(nodes, tag) < nodes.len() ==> nodes[first_named(nodes, tag)].name == tag,
    decreases nodes.len(),
{
    if nodes.len() > 0 && nodes[0].name != tag {
        let rest = nodes.drop_first();
        lemma_first_named(rest, tag);
        assert forall|j: int| 0 <= j < first_named(nodes, tag) implies (#[trigger] nodes[j]).name
            != tag by {
            if j > 0 {
                assert(nodes[j] == rest[j - 1]);
            }
        }
    }
}

/// A place before which no node has the given name, and at which the list
/// ends or a node has it, is the place of the first node with that name.
proof fn lemma_first_named_is(nodes: Seq<XmlNodeView>, tag: Seq<char>, i: int)
    requires
        0 <= i <= nodes.len(),
        forall|j: int| 0 <= j < i ==> (#[trigger] nodes[j]).name != tag,
        i < nodes.len() ==> nodes[i].name == tag,
    ensures
        first_named(nodes, tag) == i,
    decreases nodes.len(),
{
    if nodes.len() > 0 && i > 0 {
        let rest = nodes.drop_first();
        assert(nodes[0].name != tag);
        assert forall|j: int| 0 <= j < i - 1 implies (#[trigger] rest[j]).name != tag by {
            assert(rest[j] == nodes[j + 1]);
        }
        lemma_first_named_is(rest, tag, i - 1);
    }
}

/// The text of the first node with the given tag.
pub fn get_deps_value<'a>(nodes: &'a Vec<XmlNode>, tag: &str) -> (r: Option<&'a str>)
    ensures
        opt_str_view(r) == deps_value(nodes_view(nodes@), tag@),
{
    let mut i: usize = 0;
    while i < nodes.len()
        invariant
            i <= nodes.len(),
            forall|j: int| 0 <= j < i ==> (#[trigger] nodes_view(nodes@)[j]).name != tag@,
        decreases nodes.len() - i,
    {
        if crate::text::same_text(nodes[i].name.as_str(), tag) {
            proof {
                lemma_first_named_is(nodes_view(nodes@), tag@, i as int);
            }
            return match &nodes[i].text {
                Some(t) => Some(t.as_str()),
                None => None,
            };
        }
        i += 1;
    }
    proof {
        lemma_first_named_is(nodes_view(nodes@), tag@, i as int);
    }
    None
}

/// The coordinates of a Maven artifact.
pub struct Coordinates {
    pub group_id: Option<Seq<char>>,
    pub artifact_id: Seq<char>,
    pub version: Option<Seq<char>>,
    pub packaging: Option<Seq<char>>,
}

/// The qualifiers of an artifact: its packaging as `type`, where it is
/// known.
pub open spec fn packaging_qualifiers(packaging: Option<Seq<char>>) -> Seq<(Seq<char>, Seq<char>)> {
    match packaging {
        Some(t) => seq![("type"@, t)],
        None => Seq::empty(),
    }
}

/// The coordinates that a text states, where it states any.
///
/// A text with at least two colons names group, artifact and version in
/// its first three pieces. Any other text is read as an XML document, in
/// which the first elements named `groupId`, `artifactId`, `version` and
/// `type` state the coordinates; the artifact must be stated.
pub open spec fn coordinates(input: Seq<char>) -> Option<Coordinates> {
    let s = pieces(input, ':');
    if s.len() > 2 {
        Some(
            Coordinates {
                group_id: Some(s[0]),
                artifact_id: s[1],
                version: Some(s[2]),
                packaging: None,
            },
        )
    } else {
        match xml_nodes(input) {
            None => None,
            Some(nodes) => match deps_value(nodes, "artifactId"@) {
                None => None,
                Some(artifact_id) => Some(
                    Coordinates {
                        group_id: deps_value(nodes, "groupId"@),
                        artifact_id,
                        version: deps_value(nodes, "version"@),
                        packaging: deps_value(nodes, "type"@),
                    },
                ),
            },
        }
    }
}

/// The identifier of the artifact with the given coordinates: of type
/// `maven`, with the group as namespace and the artifact as name.
pub open spec fn artifact(c: Coordinates) -> PackageUrlView {
    PackageUrlView {
        ty: "maven"@,
        namespace: c.group_id,
        name: c.artifact_id,
        version: c.version,
        qualifiers: packaging_qualifiers(c.packaging),
        subpath: None,
    }
}

/// The name of the artifact can be the name of a package: it is not empty
/// and holds no separator.
pub open spec fn nameable(c: Coordinates) -> bool {
    c.artifact_id.len() > 0 && !crate::purl::holds_separator(c.artifact_id)
}

/// Reads the identifier of a Maven artifact from its coordinates.
///
/// Fails where nothing was entered; where the text states no coordinates,
/// because it is neither a list with colons nor an XML document, or
/// because the document names no artifact; and where the coordinates make
/// no identifier, because the name of the artifact cannot be the name of a
/// package, or because the text of the identifier would not
/// stand for it.
pub fn maven(input: &str) -> (r: Result<PackageUrl, LookupError>)
    ensures
        r is Ok <==> input@.len() > 0 && coordinates(input@) is Some && nameable(
            coordinates(input@).unwrap(),
        ) && round_trips(artifact(coordinates(input@).unwrap())),
        r matches Ok(p) ==> p@ == artifact(coordinates(input@).unwrap()),
        r matches Err(e) ==> {
            if input@.len() == 0 {
                e is Empty
            } else if coordinates(input@) is Some {
                e matches LookupError::Identifier(Error::InvalidIdentifier(fault)) && if coordinates(
                    input@,
                ).unwrap().artifact_id.len() == 0 {
                    fault is Empty
                } else if !nameable(coordinates(input@).unwrap()) {
                    fault is Separator
                } else {
                    fault is Lossy
                }
            } else if xml_nodes(input@) is None {
                e matches LookupError::NotXml(reason) && xml_document(input@)->Err_0 == reason@
            } else {
                e is MissingArtifactId
            }
        },
{
    if input.is_empty() {
        return Err(LookupError::Empty);
    }
    proof {
        reveal_strlit("maven");
        reveal_strlit("type");
        lemma_maven_is_ordinary();
    }
    let no_qualifiers: Vec<(String, String)> = Vec::new();
    assert(crate::order::qualifiers_view(no_qualifiers@) =~= packaging_qualifiers(None));
    let s = split(input, ':');
    if s.len() > 2 {
        let made = PackageUrl::build(
            "maven",
            s[1].as_str(),
            Some(s[0].as_str()),
            Some(s[2].as_str()),
            &no_qualifiers,
        );
        proof {
            let c = coordinates(input@).unwrap();
            assert(c.artifact_id == s@[1]@ && c.group_id == Some(s@[0]@) && c.version == Some(
                s@[2]@,
            ));
            lemma_built_artifact(
                purl_build(
                    "maven"@,
                    s@[1]@,
                    Some(s@[0]@),
                    Some(s@[2]@),
                    crate::order::qualifiers_view(no_qualifiers@),
                ),
                c,
            );
        }
        return match made {
            Ok(p) => Ok(p),
            Err(e) => Err(LookupError::Identifier(e)),
        };
    }
    let nodes = match read_xml(input) {
        Err(reason) => {
            return Err(LookupError::NotXml(reason));
        },
        Ok(nodes) => nodes,
    };
    let artifact_id = match get_deps_value(&nodes, "artifactId") {
        None => {
            return Err(LookupError::MissingArtifactId);
        },
        Some(artifact_id) => artifact_id,
    };
    let group_id = get_deps_value(&nodes, "groupId");
    let version = get_deps_value(&nodes, "version");
    let mut qualifiers: Vec<(String, String)> = Vec::new();
    if let Some(packaging) = get_deps_value(&nodes, "type") {
        qualifiers.push(("type".to_owned(), packaging.to_owned()));
    }
    assert(crate::order::qualifiers_view(qualifiers@) =~= packaging_qualifiers(
        deps_value(nodes_view(nodes@), "type"@),
    ));
    let made = PackageUrl::build("maven", artifact_id, group_id, version, &qualifiers);
    proof {
        lemma_built_artifact(
            purl_build(
                "maven"@,
                artifact_id@,
                opt_str_view(group_id),
                opt_str_view(version),
                crate::order::qualifiers_view(qualifiers@),
            ),
            coordinates(input@).unwrap(),
        );
    }
    match made {
        Ok(p) => Ok(p),
        Err(e) => Err(LookupError::Identifier(e)),
    }
}

/// What is built from coordinates, and keeps them, is the identifier of
/// the artifact with those coordinates.
proof fn lemma_built_artifact(listed: Option<PackageUrlView>, c: Coordinates)
    ensures
        listed is Some && crate::purl::keeps(
            listed.unwrap(),
            "maven"@,
            c.artifact_id,
            c.group_id,
            c.version,
            packaging_qualifiers(c.packaging),
        ) ==> with_qualifiers(listed.unwrap(), settled(packaging_qualifiers(c.packaging)))
            == artifact(c),
{
    reveal_strlit("type");
    lemma_maven_is_ordinary();
    let given = packaging_qualifiers(c.packaging);
    assert(crate::purl::plain_keys(given));
    crate::purl::lemma_plain_keys_in_order(given);
}

/// `maven` is an ordinary type.
proof fn lemma_maven_is_ordinary()
    ensures
        crate::purl::ordinary_type("maven"@),
{
    reveal_strlit("maven");
    reveal_strlit("bitbucket");
    reveal_strlit("deb");
    reveal_strlit("github");
    reveal_strlit("golang");
    reveal_strlit("hex");
    reveal_strlit("npm");
    reveal_strlit("pypi");
    reveal_strlit("rpm");
    assert("maven"@.len() == 5);
    assert("golang"@[0] == 'g');
}

} // verus!
