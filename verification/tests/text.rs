use chicken_coop::batch::{
    align, count_dependencies, count_dependents, first_dependencies, first_dependents, MISALIGNED,
};
use chicken_coop::data::{
    Cvss3, Package, PackageDependencies, PackageDependents, PackageList, PackageRef, SnykData,
    Trust, Vulnerability, VulnerabilityRef,
};
use chicken_coop::error::Error;
use chicken_coop::purl::PackageUrl;
use chicken_coop::route::{package_details, AppRoute};
use chicken_coop::sort::{goes_before, insert_sorted, sort_by_key};
use chicken_coop::split::split;
use chicken_coop::text::{bytes_le, same_text, string_le};
use chicken_coop::title::{decimal_string, package_title, remote_refs_count_title};

fn pair(k: &str, v: &str) -> (String, String) {
    (k.to_string(), v.to_string())
}

fn pointer(purl: &str) -> PackageRef {
    PackageRef { purl: purl.to_string(), href: "h".to_string(), trusted: None }
}

#[test]
fn byte_order_of_strings() {
    assert!(string_le("", ""));
    assert!(string_le("", "a"));
    assert!(!string_le("a", ""));
    assert!(string_le("a", "a"));
    assert!(string_le("a", "ab"));
    assert!(!string_le("ab", "a"));
    assert!(string_le("2.10.0", "2.9.0"));
    assert!(!string_le("2.9.0", "2.10.0"));
    assert!(string_le("B", "a"));
    assert!(string_le("z", "é"));
    assert!(bytes_le(&[1, 2], &[1, 2, 0]));
    assert!(!bytes_le(&[1, 3], &[1, 2, 0]));
    assert!(bytes_le(&[0x7f], &[0x80]));
}

#[test]
fn same_text_means_the_same_characters() {
    assert!(same_text("", ""));
    assert!(same_text("artifactId", "artifactId"));
    assert!(!same_text("artifactId", "artifactid"));
    assert!(!same_text("a", "ab"));
    assert!(!same_text("ab", "a"));
}

#[test]
fn sorting_by_key_in_both_directions() {
    let items = vec![pair("b", "1"), pair("a", "2"), pair("c", "3"), pair("ab", "4")];
    assert_eq!(
        sort_by_key(items.clone(), false),
        vec![pair("a", "2"), pair("ab", "4"), pair("b", "1"), pair("c", "3")]
    );
    assert_eq!(
        sort_by_key(items, true),
        vec![pair("c", "3"), pair("b", "1"), pair("ab", "4"), pair("a", "2")]
    );
    assert!(sort_by_key(Vec::<(String, String)>::new(), true).is_empty());
}

#[test]
fn sorting_keeps_every_record_and_the_order_of_equal_keys() {
    let items = vec![pair("b", "3"), pair("a", "2"), pair("b", "1"), pair("a", "4"), pair("b", "2")];
    assert_eq!(
        sort_by_key(items.clone(), false),
        vec![pair("a", "2"), pair("a", "4"), pair("b", "3"), pair("b", "1"), pair("b", "2")]
    );
    assert_eq!(
        sort_by_key(items, true),
        vec![pair("b", "3"), pair("b", "1"), pair("b", "2"), pair("a", "2"), pair("a", "4")]
    );
}

#[test]
fn inserting_into_a_sorted_list() {
    let mut out = vec![pair("a", ""), pair("c", "")];
    insert_sorted(&mut out, pair("b", ""), false);
    insert_sorted(&mut out, pair("d", ""), false);
    insert_sorted(&mut out, pair("", ""), false);
    insert_sorted(&mut out, pair("b", "again"), false);
    assert_eq!(
        out,
        vec![pair("", ""), pair("a", ""), pair("b", "again"), pair("b", ""), pair("c", ""), pair("d", "")]
    );
    assert!(goes_before(&pair("a", ""), &pair("b", ""), false));
    assert!(!goes_before(&pair("a", ""), &pair("b", ""), true));
    assert!(goes_before(&pair("a", "x"), &pair("a", "y"), true));
}

#[test]
fn splitting_at_a_separator() {
    assert_eq!(split("a:b:c", ':'), vec!["a", "b", "c"]);
    assert_eq!(split("", ':'), vec![""]);
    assert_eq!(split("abc", ':'), vec!["abc"]);
    assert_eq!(split("a:", ':'), vec!["a", ""]);
    assert_eq!(split(":a", ':'), vec!["", "a"]);
    assert_eq!(split("::", ':'), vec!["", "", ""]);
    assert_eq!(split("é:ü:", ':'), vec!["é", "ü", ""]);
    assert_eq!(split("a/b:c", '/'), vec!["a", "b:c"]);
}

#[test]
fn numbers_in_decimal() {
    assert_eq!(decimal_string(0), "0");
    assert_eq!(decimal_string(7), "7");
    assert_eq!(decimal_string(10), "10");
    assert_eq!(decimal_string(109), "109");
    assert_eq!(decimal_string(1234567890), "1234567890");
    assert_eq!(decimal_string(usize::MAX), usize::MAX.to_string());
}

#[test]
fn the_title_of_a_list_counts_its_entries() {
    assert_eq!(remote_refs_count_title(Some(1), "Dependency", "Dependencies"), "1 Dependency");
    assert_eq!(remote_refs_count_title(Some(0), "Dependency", "Dependencies"), "0 Dependencies");
    assert_eq!(remote_refs_count_title(Some(2), "Dependent", "Dependents"), "2 Dependents");
    assert_eq!(
        remote_refs_count_title(Some(120), "Vulnerability", "Vulnerabilities"),
        "120 Vulnerabilities"
    );
    assert_eq!(remote_refs_count_title(None, "Dependency", "Dependencies"), "Dependencies");
}

#[test]
fn the_title_of_a_package() {
    let title = |s: &str| package_title(&PackageUrl::from_str(s).unwrap());
    assert_eq!(title("pkg:maven/io.quarkus/quarkus-core@2.16.2.Final?type=jar"), "io.quarkus : quarkus-core : 2.16.2.Final");
    assert_eq!(title("pkg:maven/io.quarkus/quarkus-core"), "io.quarkus : quarkus-core");
    assert_eq!(title("pkg:cargo/packageurl@0.3.0"), "packageurl : 0.3.0");
    assert_eq!(title("pkg:cargo/packageurl"), "packageurl");
}

#[test]
fn answers_are_aligned_with_the_identifiers_by_their_place() {
    let purls: Vec<PackageUrl> = ["pkg:maven/a/a@1", "pkg:maven/b/b@2", "pkg:maven/c/c@3"]
        .iter()
        .map(|t| PackageUrl::from_str(t).unwrap())
        .collect();
    let answers = vec![
        PackageDependencies(vec![]),
        PackageDependencies(vec![pointer("pkg:maven/d/d@4")]),
        PackageDependencies(vec![]),
    ];
    let aligned = align(purls, answers.clone()).unwrap();
    assert_eq!(aligned.len(), 3);
    assert_eq!(
        aligned.iter().map(|(p, _)| p.to_string()).collect::<Vec<_>>(),
        vec!["pkg:maven/a/a@1", "pkg:maven/b/b@2", "pkg:maven/c/c@3"]
    );
    assert_eq!(aligned.into_iter().map(|(_, a)| a).collect::<Vec<_>>(), answers);
}

#[test]
fn answers_that_are_all_empty_are_still_aligned() {
    let purls: Vec<PackageUrl> = ["pkg:maven/a/a@1", "pkg:maven/b/b@2", "pkg:maven/c/c@3"]
        .iter()
        .map(|t| PackageUrl::from_str(t).unwrap())
        .collect();
    let answers: Vec<Vec<PackageRef>> = vec![vec![], vec![], vec![]];
    let aligned = align(purls, answers).unwrap();
    assert_eq!(aligned.len(), 3);
    assert!(aligned.iter().all(|(_, a)| a.is_empty()));
    assert_eq!(aligned[2].0.to_string(), "pkg:maven/c/c@3");
}

#[test]
fn an_answer_of_another_length_cannot_be_aligned() {
    let purls = || vec![PackageUrl::from_str("pkg:maven/a/a@1").unwrap()];
    assert!(matches!(align(purls(), Vec::<u8>::new()), Err(Error::DecodeFailed(_))));
    assert!(matches!(align(purls(), vec![1u8, 2]), Err(Error::DecodeFailed(_))));
    assert!(matches!(align(Vec::new(), vec![1u8]), Err(Error::DecodeFailed(_))));
    assert!(align(Vec::new(), Vec::<u8>::new()).unwrap().is_empty());
    match align(purls(), vec![1u8, 2]) {
        Err(Error::DecodeFailed(reason)) => {
            assert_eq!(reason, "The answer does not hold one entry for each identifier");
            assert_eq!(reason, MISALIGNED);
        }
        other => panic!("unexpected: {other:?}"),
    }
}

#[test]
fn the_first_entry_answers_a_request_for_one_package() {
    let a = pointer("pkg:maven/a/a@1");
    let b = pointer("pkg:maven/b/b@2");
    let dependencies =
        vec![PackageDependencies(vec![a.clone(), b.clone()]), PackageDependencies(vec![b.clone()])];
    assert_eq!(first_dependencies(&dependencies), vec![a.clone(), b.clone()]);
    assert_eq!(count_dependencies(&dependencies), Some(2));
    assert!(first_dependencies(&Vec::new()).is_empty());
    assert_eq!(count_dependencies(&Vec::new()), None);
    assert_eq!(count_dependencies(&vec![PackageDependencies(vec![])]), Some(0));

    let dependents = vec![PackageDependents(vec![b.clone()])];
    assert_eq!(first_dependents(&dependents), vec![b]);
    assert_eq!(count_dependents(&dependents), Some(1));
    assert!(first_dependents(&Vec::new()).is_empty());
    assert_eq!(count_dependents(&Vec::new()), None);
    assert_eq!(dependencies[0].len(), 2);
    assert_eq!(dependents[0].first(), Some(&pointer("pkg:maven/b/b@2")));
}

#[test]
fn the_record_of_a_package_links_to_its_vulnerabilities() {
    let package = Package {
        purl: Some("pkg:maven/a/a@1".to_string()),
        href: None,
        trusted: Some(true),
        trusted_versions: vec![pointer("pkg:maven/a/a@1")],
        vulnerabilities: vec![
            VulnerabilityRef { cve: "CVE-2023-0002".to_string(), href: "h2".to_string() },
            VulnerabilityRef { cve: "CVE-2023-0001".to_string(), href: "h1".to_string() },
        ],
        snyk: Some(SnykData),
    };
    assert_eq!(
        package_details(&package),
        vec![
            AppRoute::Vulnerability { cve: "CVE-2023-0002".to_string() },
            AppRoute::Vulnerability { cve: "CVE-2023-0001".to_string() }
        ]
    );
    assert_eq!(package.clone(), package);
}

#[test]
fn copies_of_records_are_equal_to_them() {
    let vulnerability = Vulnerability {
        cve: "CVE-2023-0001".to_string(),
        severity: Some("high".to_string()),
        cvss3: Some(Cvss3 { score: "9.8".to_string(), status: "verified".to_string() }),
        summary: "s".to_string(),
        advisory: "https://example.test/a".to_string(),
        packages: vec![pointer("pkg:maven/a/a@1")],
    };
    assert_eq!(vulnerability.clone(), vulnerability);
    let list = PackageList(vec!["pkg:maven/a/a@1".to_string(), "x".to_string()]);
    assert_eq!(list.clone(), list);
    let route = AppRoute::Package { package: String::new() };
    assert_eq!(route.clone(), route);
    assert_eq!(AppRoute::Index.clone(), AppRoute::Index);
    assert_eq!(AppRoute::Chicken.clone(), AppRoute::Chicken);
}

#[test]
fn unknown_trust_is_not_distrust() {
    assert_eq!(Trust::of(None), Trust::Unknown);
    assert_eq!(Trust::of(Some(true)), Trust::Trusted);
    assert_eq!(Trust::of(Some(false)), Trust::Untrusted);
    let mut r = pointer("pkg:maven/a/a@1");
    assert_eq!(r.trust(), Trust::Unknown);
    r.trusted = Some(false);
    assert_eq!(r.trust(), Trust::Untrusted);
    r.trusted = Some(true);
    assert_eq!(r.trust(), Trust::Trusted);
    let package = Package {
        purl: None,
        href: None,
        trusted: Some(true),
        trusted_versions: Vec::new(),
        vulnerabilities: Vec::new(),
        snyk: None,
    };
    assert_eq!(package.trust(), Trust::Trusted);
    assert!(package_details(&package).is_empty());
}
