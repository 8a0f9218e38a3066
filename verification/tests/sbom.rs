use chicken_coop::backend::{Backend, Method, PackageService};
use chicken_coop::data::PackageList;
use chicken_coop::sbom::{inspect, parse_identifiers, Component, Sbom};

fn component(purl: Option<&str>) -> Component {
    Component { purl: purl.map(|p| p.to_string()) }
}

const DOCUMENT: &str = r#"{
  "bomFormat": "CycloneDX",
  "specVersion": "1.3",
  "version": 1,
  "components": [
    { "type": "library", "name": "quarkus-core", "version": "2.16.2.Final",
      "purl": "pkg:maven/io.quarkus/quarkus-core@2.16.2.Final?type=jar" },
    { "type": "library", "name": "nameless", "version": "1" },
    { "type": "library", "name": "arc", "version": "2.16.2.Final",
      "purl": "pkg:maven/io.quarkus.arc/arc@2.16.2.Final?type=jar",
      "components": [
        { "type": "library", "name": "inner", "version": "1", "purl": "pkg:maven/in/ner@1" }
      ] },
    { "type": "library", "name": "quarkus-core", "version": "2.16.2.Final",
      "purl": "pkg:maven/io.quarkus/quarkus-core@2.16.2.Final?type=jar" }
  ]
}"#;

#[test]
fn as_many_identifiers_as_components_that_declare_one() {
    let sbom = Sbom {
        components: Some(vec![
            component(Some("pkg:maven/a/a@1")),
            component(None),
            component(Some("pkg:maven/b/b@2")),
            component(None),
            component(Some("pkg:maven/a/a@1")),
        ]),
    };
    assert_eq!(
        sbom.extract_identifiers(),
        vec!["pkg:maven/a/a@1".to_string(), "pkg:maven/b/b@2".to_string(), "pkg:maven/a/a@1".to_string()]
    );
}

#[test]
fn identifiers_are_taken_as_they_are_written() {
    let sbom = Sbom { components: Some(vec![component(Some("not-a-purl")), component(Some(""))]) };
    assert_eq!(sbom.extract_identifiers(), vec!["not-a-purl".to_string(), "".to_string()]);
}

#[test]
fn no_components_no_identifiers() {
    assert!(Sbom { components: None }.extract_identifiers().is_empty());
    assert!(Sbom { components: Some(Vec::new()) }.extract_identifiers().is_empty());
    assert!(Sbom { components: Some(vec![component(None), component(None)]) }
        .extract_identifiers()
        .is_empty());
}

#[test]
fn a_document_is_read_into_its_components() {
    let sbom = Sbom::parse(DOCUMENT).unwrap();
    assert_eq!(
        sbom,
        Sbom {
            components: Some(vec![
                component(Some("pkg:maven/io.quarkus/quarkus-core@2.16.2.Final?type=jar")),
                component(None),
                component(Some("pkg:maven/io.quarkus.arc/arc@2.16.2.Final?type=jar")),
                component(Some("pkg:maven/io.quarkus/quarkus-core@2.16.2.Final?type=jar")),
            ]),
        }
    );
    assert_eq!(
        sbom.extract_identifiers(),
        vec![
            "pkg:maven/io.quarkus/quarkus-core@2.16.2.Final?type=jar".to_string(),
            "pkg:maven/io.quarkus.arc/arc@2.16.2.Final?type=jar".to_string(),
            "pkg:maven/io.quarkus/quarkus-core@2.16.2.Final?type=jar".to_string(),
        ]
    );
}

#[test]
fn a_document_without_components_has_none() {
    let sbom =
        Sbom::parse(r#"{"bomFormat": "CycloneDX", "specVersion": "1.3", "version": 1}"#).unwrap();
    assert_eq!(sbom, Sbom { components: None });
}

#[test]
fn a_text_that_is_no_document_is_refused_with_a_message() {
    for text in ["", "not json", "[]", r#"{"components": 1}"#] {
        let message = Sbom::parse(text).unwrap_err();
        assert!(message.starts_with("Failed to parse SBOM: "), "{message}");
        assert!(message.len() > "Failed to parse SBOM: ".len(), "{message}");
    }
}

#[test]
fn texts_that_are_no_identifiers_are_passed_over() {
    let raw = vec![
        "pkg:maven/a/a@1".to_string(),
        "not-a-purl".to_string(),
        "pkg:maven/b/b@2?z=1&y=2".to_string(),
        "".to_string(),
        "pkg:maven/a/a@1".to_string(),
    ];
    let texts: Vec<String> = parse_identifiers(&raw).iter().map(|p| p.to_string()).collect();
    assert_eq!(
        texts,
        vec![
            "pkg:maven/a/a@1".to_string(),
            "pkg:maven/b/b@2?z=1&y=2".to_string(),
            "pkg:maven/a/a@1".to_string()
        ]
    );
}

#[test]
fn inspecting_asks_about_every_declared_identifier_at_once() {
    let service = PackageService::new(Backend::new("https://example.test").unwrap());
    let sbom = Sbom {
        components: Some(vec![
            component(Some("pkg:maven/a/a@1")),
            component(None),
            component(Some("not-a-purl")),
            component(Some("pkg:maven/b/b@2")),
            component(Some("pkg:maven/a/a@1")),
        ]),
    };
    let request = inspect(&service, &sbom).unwrap();
    assert_eq!(request.method, Method::Post);
    assert_eq!(request.url, "https://example.test/api/package");
    assert!(request.query.is_empty());
    assert_eq!(
        request.body,
        Some(PackageList(vec![
            "pkg:maven/a/a@1".to_string(),
            "pkg:maven/b/b@2".to_string(),
            "pkg:maven/a/a@1".to_string()
        ]))
    );
}

#[test]
fn the_message_says_why_a_document_is_refused() {
    assert_eq!(
        Sbom::parse("not json").unwrap_err(),
        "Failed to parse SBOM: Failed to deserialize JSON: expected ident at line 1 column 2"
    );
}
