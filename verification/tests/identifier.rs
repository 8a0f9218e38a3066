use chicken_coop::error::{Error, IdentifierFault};
use chicken_coop::purl::PackageUrl;

fn pairs(items: &[(&str, &str)]) -> Vec<(String, String)> {
    items.iter().map(|(k, v)| (k.to_string(), v.to_string())).collect()
}

#[test]
fn parses_components_of_a_full_identifier() {
    let purl = PackageUrl::from_str("pkg:type/name/space/name@version?k2=v2&k1=v1#sub/path").unwrap();
    assert_eq!(purl.ty(), "type");
    assert_eq!(purl.namespace(), Some("name/space"));
    assert_eq!(purl.name(), "name");
    assert_eq!(purl.version(), Some("version"));
    assert_eq!(purl.qualifiers(), &pairs(&[("k2", "v2"), ("k1", "v1")]));
    assert_eq!(purl.subpath(), Some("sub/path"));
    assert_eq!(purl.to_string(), "pkg:type/name/space/name@version?k2=v2&k1=v1#sub/path");
}

#[test]
fn canonical_text_round_trips() {
    for s in [
        "pkg:maven/io.quarkus/quarkus-core@2.16.2.Final?type=jar",
        "pkg:maven/io.quarkus/quarkus-core@2.13.7.Final-redhat-00003",
        "pkg:type/name/space/name@version?k1=v1&k2=v2#sub/path",
        "pkg:type/name/space/name@version?k2=v2&k1=v1#sub/path",
        "pkg:maven/g/a@1?type=jar&classifier=sources",
        "pkg:npm/%40angular/animation@12.3.1",
        "pkg:cargo/packageurl",
        "pkg:maven/x/y@1",
    ] {
        let purl = PackageUrl::from_str(s).unwrap();
        assert_eq!(purl.to_string(), s);
    }
}

#[test]
fn text_that_is_not_canonical_is_made_canonical() {
    let purl = PackageUrl::from_str("pkg:Maven/io.quarkus/quarkus-core@1?b=2&a=1").unwrap();
    assert_eq!(purl.ty(), "maven");
    assert_eq!(purl.to_string(), "pkg:maven/io.quarkus/quarkus-core@1?b=2&a=1");
    let purl = PackageUrl::from_str("pkg:t/ns/./n?B=2&a=1#x/../y").unwrap();
    assert_eq!(purl.to_string(), "pkg:t/ns/n?b=2&a=1#x/y");
}

#[test]
fn absent_components_are_absent_and_not_empty() {
    let purl = PackageUrl::from_str("pkg:cargo/packageurl").unwrap();
    assert_eq!(purl.ty(), "cargo");
    assert_eq!(purl.name(), "packageurl");
    assert_eq!(purl.namespace(), None);
    assert_eq!(purl.version(), None);
    assert_eq!(purl.subpath(), None);
    assert!(purl.qualifiers().is_empty());
}

#[test]
fn percent_encoding_is_undone_in_components() {
    let purl = PackageUrl::from_str("pkg:npm/%40angular/animation@12.3.1").unwrap();
    assert_eq!(purl.namespace(), Some("@angular"));
    assert_eq!(purl.name(), "animation");
    assert_eq!(purl.version(), Some("12.3.1"));
}

#[test]
fn qualifiers_are_listed_in_the_order_of_the_text() {
    let purl = PackageUrl::from_str("pkg:t/n?zeta=1&alpha=2&mid=3&Beta=4").unwrap();
    assert_eq!(
        purl.qualifiers(),
        &pairs(&[("zeta", "1"), ("alpha", "2"), ("mid", "3"), ("beta", "4")])
    );
    assert_eq!(purl.to_string(), "pkg:t/n?zeta=1&alpha=2&mid=3&beta=4");
    for _ in 0..3 {
        let keys: Vec<&str> = purl.qualifiers().iter().map(|(k, _)| k.as_str()).collect();
        assert_eq!(keys, vec!["zeta", "alpha", "mid", "beta"]);
    }
}

#[test]
fn a_key_that_a_text_names_again_keeps_its_place_and_takes_the_later_value() {
    let purl = PackageUrl::from_str("pkg:t/n?b=1&a=2&B=3&empty=&c=4").unwrap();
    assert_eq!(purl.qualifiers(), &pairs(&[("b", "3"), ("a", "2"), ("c", "4")]));
    assert_eq!(purl.to_string(), "pkg:t/n?b=3&a=2&c=4");
}

#[test]
fn a_built_identifier_and_the_one_read_from_its_text_list_the_qualifiers_as_given() {
    let p = PackageUrl::build(
        "maven",
        "a",
        Some("g"),
        Some("1"),
        &pairs(&[("type", "jar"), ("classifier", "sources")]),
    )
    .unwrap();
    let s = p.to_string();
    assert_eq!(s, "pkg:maven/g/a@1?type=jar&classifier=sources");
    let q = PackageUrl::from_str(&s).unwrap();
    assert_eq!(q, p);
    for _ in 0..3 {
        assert_eq!(q.qualifiers(), &pairs(&[("type", "jar"), ("classifier", "sources")]));
        assert_eq!(p.qualifiers(), &pairs(&[("type", "jar"), ("classifier", "sources")]));
    }
    assert_eq!(q.ty(), p.ty());
    assert_eq!(q.namespace(), Some("g"));
    assert_eq!(q.name(), p.name());
    assert_eq!(q.version(), Some("1"));
}

#[test]
fn malformed_text_is_refused() {
    for s in ["package@0.1.0", "", "pkg:", "pkg:maven", "http://example.test/x", "not-a-purl", "pkg:ma ven/x"] {
        let r = PackageUrl::from_str(s);
        assert!(
            matches!(r, Err(Error::InvalidIdentifier(IdentifierFault::Malformed(_)))),
            "{s:?} gave {r:?}"
        );
    }
}

#[test]
fn the_reason_for_a_refusal_is_reported() {
    match PackageUrl::from_str("package@0.1.0") {
        Err(Error::InvalidIdentifier(IdentifierFault::Malformed(reason))) => {
            assert_eq!(reason, "missing scheme")
        }
        other => panic!("unexpected: {other:?}"),
    }
}

#[test]
fn built_identifier_round_trips() {
    let built = PackageUrl::build(
        "maven",
        "quarkus-core",
        Some("io.quarkus"),
        Some("2.16.2.Final"),
        &pairs(&[("type", "jar"), ("classifier", "sources")]),
    )
    .unwrap();
    assert_eq!(built.ty(), "maven");
    assert_eq!(built.namespace(), Some("io.quarkus"));
    assert_eq!(built.name(), "quarkus-core");
    assert_eq!(built.version(), Some("2.16.2.Final"));
    assert_eq!(built.subpath(), None);
    assert_eq!(built.qualifiers(), &pairs(&[("type", "jar"), ("classifier", "sources")]));
    let text = built.to_string();
    assert_eq!(text, "pkg:maven/io.quarkus/quarkus-core@2.16.2.Final?type=jar&classifier=sources");

    let parsed = PackageUrl::from_str(&text).unwrap();
    assert_eq!(parsed.ty(), built.ty());
    assert_eq!(parsed.namespace(), built.namespace());
    assert_eq!(parsed.name(), built.name());
    assert_eq!(parsed.version(), built.version());
    assert_eq!(parsed.qualifiers(), built.qualifiers());
    assert_eq!(parsed.subpath(), built.subpath());
    assert_eq!(parsed.to_string(), text);
}

#[test]
fn built_identifier_without_optional_components() {
    let built = PackageUrl::build("cargo", "packageurl", None, None, &Vec::new()).unwrap();
    assert_eq!(built.to_string(), "pkg:cargo/packageurl");
    assert_eq!(built.namespace(), None);
    assert_eq!(built.version(), None);
    assert!(built.qualifiers().is_empty());
}

#[test]
fn building_makes_type_and_keys_lower_case() {
    let built = PackageUrl::build("Maven", "x", None, None, &pairs(&[("Type", "jar")])).unwrap();
    assert_eq!(built.ty(), "maven");
    assert_eq!(built.qualifiers(), &pairs(&[("type", "jar")]));
}

#[test]
fn building_keeps_the_last_value_of_a_key() {
    let built =
        PackageUrl::build("maven", "x", None, None, &pairs(&[("type", "jar"), ("type", "pom")]))
            .unwrap();
    assert_eq!(built.qualifiers(), &pairs(&[("type", "pom")]));
    let built = PackageUrl::build(
        "maven",
        "x",
        None,
        None,
        &pairs(&[("type", "jar"), ("k", "v"), ("Type", "pom"), ("a", "b")]),
    )
    .unwrap();
    assert_eq!(built.qualifiers(), &pairs(&[("type", "pom"), ("k", "v"), ("a", "b")]));
    assert_eq!(built.to_string(), "pkg:maven/x?type=pom&k=v&a=b");
}

#[test]
fn building_refuses_an_empty_type_or_name() {
    for (ty, name) in [("", "x"), ("maven", ""), ("", "")] {
        let r = PackageUrl::build(ty, name, None, None, &Vec::new());
        assert!(matches!(r, Err(Error::InvalidIdentifier(IdentifierFault::Empty))), "{r:?}");
    }
}

#[test]
fn building_refuses_a_separator_in_type_or_name() {
    for (ty, name) in [
        ("maven", "a/b"),
        ("maven", "a@b"),
        ("maven", "a?b"),
        ("maven", "a#b"),
        ("maven", "a:b"),
        ("ma/ven", "x"),
        ("pkg:maven", "x"),
    ] {
        let r = PackageUrl::build(ty, name, None, None, &Vec::new());
        assert!(matches!(r, Err(Error::InvalidIdentifier(IdentifierFault::Separator))), "{r:?}");
    }
}

#[test]
fn building_refuses_a_type_that_is_not_valid() {
    for ty in ["bad type", "1maven", "ma_ven", "mäven"] {
        let r = PackageUrl::build(ty, "x", None, None, &Vec::new());
        assert!(matches!(r, Err(Error::InvalidIdentifier(IdentifierFault::Component))), "{r:?}");
    }
}

#[test]
fn building_refuses_a_key_that_is_not_valid() {
    for key in ["", "1key", "a key", "a+b"] {
        let r = PackageUrl::build("maven", "x", None, None, &pairs(&[("ok", "1"), (key, "2")]));
        assert!(matches!(r, Err(Error::InvalidIdentifier(IdentifierFault::Component))), "{r:?}");
    }
}

#[test]
fn a_copy_holds_the_same_components() {
    let purl = PackageUrl::from_str("pkg:type/name/space/name@version?k1=v1&k2=v2#sub/path").unwrap();
    let copy = purl.clone();
    assert_eq!(copy.ty(), purl.ty());
    assert_eq!(copy.namespace(), purl.namespace());
    assert_eq!(copy.name(), purl.name());
    assert_eq!(copy.version(), purl.version());
    assert_eq!(copy.qualifiers(), purl.qualifiers());
    assert_eq!(copy.subpath(), purl.subpath());
    assert_eq!(copy.to_string(), purl.to_string());
}

#[test]
fn identifiers_are_equal_when_their_components_are() {
    let a = PackageUrl::from_str("pkg:maven/x/y@1?a=1&b=2").unwrap();
    let b = PackageUrl::from_str("pkg:Maven/x/y@1?A=1&b=2").unwrap();
    let built = PackageUrl::build("maven", "y", Some("x"), Some("1"), &pairs(&[("a", "1"), ("b", "2")]))
        .unwrap();
    assert_eq!(a, b);
    assert_eq!(a, built);
    assert_eq!(a, a.clone());
    for other in [
        "pkg:maven/x/y@1?b=2&a=1",
        "pkg:maven/x/y@2?a=1&b=2",
        "pkg:maven/x/y?a=1&b=2",
        "pkg:maven/y@1?a=1&b=2",
        "pkg:maven/x/z@1?a=1&b=2",
        "pkg:npm/x/y@1?a=1&b=2",
        "pkg:maven/x/y@1?a=1",
        "pkg:maven/x/y@1?a=1&b=3",
        "pkg:maven/x/y@1?a=1&c=2",
        "pkg:maven/x/y@1?a=1&b=2#sub",
    ] {
        assert_ne!(a, PackageUrl::from_str(other).unwrap(), "{other}");
    }
}

#[test]
fn an_identifier_that_its_text_does_not_give_back_is_refused() {
    for s in [
        "pkg:t/a%2541",
        "pkg:t/%2Fn",
        "pkg:t/n%2Fm",
        "pkg:t/a%20b@1%402?k=a%3Db%26c#x%23y/z",
    ] {
        let r = PackageUrl::from_str(s);
        assert!(matches!(r, Err(Error::InvalidIdentifier(IdentifierFault::Lossy))), "{s:?} gave {r:?}");
    }
}

#[test]
fn building_refuses_what_its_text_does_not_give_back() {
    let lossy = |r: Result<PackageUrl, Error>| {
        assert!(matches!(r, Err(Error::InvalidIdentifier(IdentifierFault::Lossy))), "{r:?}")
    };
    lossy(PackageUrl::build("MAVEN", "x", None, None, &Vec::new()));
    lossy(PackageUrl::build("maven", "x%41", None, None, &Vec::new()));
    lossy(PackageUrl::build("maven", "x", None, None, &pairs(&[("k", "")])));
    lossy(PackageUrl::build("maven", "x", None, None, &pairs(&[("k", "a&b")])));
    lossy(PackageUrl::build("maven", "x", Some(""), None, &Vec::new()));
    lossy(PackageUrl::build("maven", "x", Some("a/../b"), None, &Vec::new()));
}

#[test]
fn every_identifier_is_given_back_by_its_text() {
    let mut all: Vec<PackageUrl> = [
        "pkg:maven/io.quarkus/quarkus-core@2.16.2.Final?type=jar",
        "pkg:Maven/io.quarkus/quarkus-core@1?b=2&a=1",
        "pkg:npm/%40angular/animation@12.3.1",
        "pkg:type/name/space/name@version?k2=v2&k1=v1#sub/./path",
        "pkg:pypi/A_b@1",
        "pkg:golang/Foo/Bar@1",
        "pkg:t/n@1%2F2",
        "pkg:t/n@",
        "pkg:t/n?k=%20",
        "pkg:t/n?k=",
        "pkg:t/ns/../n",
        "pkg:t/n@%C3%A9",
    ]
    .iter()
    .map(|s| PackageUrl::from_str(s).unwrap())
    .collect();
    all.push(PackageUrl::build("maven", "a b", Some("g/h"), Some("1@2"), &pairs(&[("k", "v w")])).unwrap());
    all.push(PackageUrl::build("Cargo", "x", None, Some(""), &pairs(&[("B", "1"), ("a", "2")])).unwrap());
    all.push(PackageUrl::from_str("pkg:t/n?b=1&a=2&B=3&c=4#s").unwrap());
    for p in all {
        let text = p.to_string();
        let again = PackageUrl::from_str(&text).unwrap();
        assert_eq!(again, p, "{text}");
        assert_eq!(again.to_string(), text);
    }
}

#[test]
fn what_building_keeps_of_name_and_namespace_depends_on_the_type() {
    let built = PackageUrl::build("npm", "Animation", Some("@Angular"), Some("12.3.1"), &Vec::new()).unwrap();
    assert_eq!(built.ty(), "npm");
    assert_eq!(built.namespace(), Some("@Angular"));
    assert_eq!(built.name(), "animation");

    let built = PackageUrl::build("golang", "Bar", Some("Foo"), None, &Vec::new()).unwrap();
    assert_eq!(built.namespace(), Some("foo"));
    assert_eq!(built.name(), "Bar");

    let built = PackageUrl::build("github", "Bar", Some("Foo"), None, &Vec::new()).unwrap();
    assert_eq!(built.namespace(), Some("foo"));
    assert_eq!(built.name(), "bar");

    let built = PackageUrl::build("a1.b-c+d", "Name", Some("Space"), None, &Vec::new()).unwrap();
    assert_eq!(built.ty(), "a1.b-c+d");
    assert_eq!(built.namespace(), Some("Space"));
    assert_eq!(built.name(), "Name");
}
