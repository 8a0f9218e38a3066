use chicken_coop::data::PackageRef;
use chicken_coop::purl::PackageUrl;
use chicken_coop::refs::{package_label, package_refs};
use chicken_coop::route::AppRoute;

fn pointer(purl: &str, trusted: Option<bool>) -> PackageRef {
    PackageRef { purl: purl.to_string(), href: "https://example.test/r".to_string(), trusted }
}

#[test]
fn a_label_is_the_name_after_the_namespace() {
    let with = PackageUrl::from_str("pkg:maven/io.quarkus/quarkus-core@1").unwrap();
    assert_eq!(package_label(&with), "io.quarkus : quarkus-core");
    let without = PackageUrl::from_str("pkg:cargo/packageurl@1").unwrap();
    assert_eq!(package_label(&without), "packageurl");
}

#[test]
fn pointers_are_listed_in_their_order_and_those_that_do_not_parse_are_left_out() {
    let refs = vec![
        pointer("pkg:maven/b/b@2", Some(true)),
        pointer("not-a-purl", None),
        pointer("pkg:cargo/a", Some(false)),
        pointer("pkg:maven/b/b@2", None),
    ];
    let out = package_refs(&refs);
    assert_eq!(
        out.iter().map(|r| r.label.as_str()).collect::<Vec<_>>(),
        vec!["b : b", "a", "b : b"]
    );
    assert_eq!(out[0].pkg, refs[0]);
    assert_eq!(out[1].pkg, refs[2]);
    assert_eq!(out[2].pkg, refs[3]);
    assert_eq!(out[1].purl.to_string(), "pkg:cargo/a");
    assert_eq!(out.iter().map(|r| r.is_trusted()).collect::<Vec<_>>(), vec![true, false, false]);
}

#[test]
fn an_entry_links_to_the_identifier_as_the_pointer_writes_it() {
    let refs = vec![pointer("pkg:Maven/b/b@2?z=1&a=2", None)];
    let out = package_refs(&refs);
    assert_eq!(out[0].target(), AppRoute::Package { package: "pkg:Maven/b/b@2?z=1&a=2".to_string() });
    assert_eq!(out[0].qualifier_labels(), vec!["z=1".to_string(), "a=2".to_string()]);
    assert_eq!(out[0].purl.version(), Some("2"));
    assert_eq!(out[0].purl.ty(), "maven");
}

#[test]
fn no_qualifiers_no_labels() {
    let out = package_refs(&vec![pointer("pkg:cargo/a", None)]);
    assert!(out[0].qualifier_labels().is_empty());
    assert!(package_refs(&Vec::new()).is_empty());
}
