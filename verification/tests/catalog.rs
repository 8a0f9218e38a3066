use chicken_coop::backend::{Backend, Method, PackageService, VulnerabilityService};
use chicken_coop::data::PackageList;
use chicken_coop::error::Error;
use chicken_coop::purl::PackageUrl;

fn purls(texts: &[&str]) -> Vec<PackageUrl> {
    texts.iter().map(|t| PackageUrl::from_str(t).unwrap()).collect()
}

fn list(texts: &[&str]) -> PackageList {
    PackageList(texts.iter().map(|t| t.to_string()).collect())
}

fn service() -> PackageService {
    PackageService::new(Backend::new("https://example.test").unwrap())
}

#[test]
fn a_text_that_is_no_url_is_no_backend() {
    assert!(matches!(Backend::new("not a url"), Err(Error::InvalidUrl(_))));
    assert!(matches!(Backend::new(""), Err(Error::InvalidUrl(_))));
    assert!(matches!(Backend::new("/api/package"), Err(Error::InvalidUrl(_))));
}

#[test]
fn an_absolute_url_is_a_backend_and_resolves_paths() {
    let backend = Backend::new("https://example.test").unwrap();
    assert_eq!(backend.url(), "https://example.test/");
    assert_eq!(backend.resolve("/api/package").unwrap(), "https://example.test/api/package");
}

#[test]
fn a_path_replaces_the_path_of_the_base() {
    let backend = Backend::new("https://example.test/base/index.html?x=1").unwrap();
    assert_eq!(backend.resolve("/api/package").unwrap(), "https://example.test/api/package");
    assert_eq!(backend.resolve("other").unwrap(), "https://example.test/base/other");
}

#[test]
fn a_path_that_cannot_be_joined_is_refused() {
    let backend = Backend::new("https://example.test").unwrap();
    assert!(matches!(backend.resolve("https://[::1"), Err(Error::InvalidUrl(_))));
    let opaque = Backend::new("mailto:someone@example.test").unwrap();
    assert!(matches!(opaque.resolve("/api/package"), Err(Error::InvalidUrl(_))));
}

#[test]
fn a_copy_of_a_backend_has_the_same_address() {
    let backend = Backend::new("https://example.test/x").unwrap();
    assert_eq!(backend.clone().url(), "https://example.test/x");
}

#[test]
fn lookup_asks_for_the_identifier_in_the_query() {
    let purl = PackageUrl::from_str("pkg:maven/x/y@1").unwrap();
    let request = service().lookup(&purl).unwrap();
    assert_eq!(request.method, Method::Get);
    assert_eq!(request.url, "https://example.test/api/package");
    assert_eq!(request.query, vec![("purl".to_string(), "pkg:maven/x/y@1".to_string())]);
    assert_eq!(request.body, None);
}

#[test]
fn vulnerability_lookup_asks_for_the_identifier_in_the_query() {
    let service = VulnerabilityService::new(Backend::new("https://example.test").unwrap());
    let request = service.lookup(&"CVE-2023-0001".to_string()).unwrap();
    assert_eq!(request.method, Method::Get);
    assert_eq!(request.url, "https://example.test/api/vulnerability");
    assert_eq!(request.query, vec![("cve".to_string(), "CVE-2023-0001".to_string())]);
    assert_eq!(request.body, None);
}

#[test]
fn batch_requests_list_the_identifiers_in_the_order_given() {
    let texts = ["pkg:maven/a/a@1", "pkg:maven/b/b@2", "pkg:maven/c/c@3"];
    let purls = purls(&texts);
    let service = service();
    for (request, url) in [
        (service.lookup_batch(&purls), "https://example.test/api/package"),
        (service.versions(&purls), "https://example.test/api/package/versions"),
        (service.dependencies(&purls), "https://example.test/api/package/dependencies"),
        (service.dependents(&purls), "https://example.test/api/package/dependents"),
        (service.batch_to_refs("/api/other", &purls), "https://example.test/api/other"),
    ] {
        let request = request.unwrap();
        assert_eq!(request.method, Method::Post);
        assert_eq!(request.url, url);
        assert!(request.query.is_empty());
        assert_eq!(request.body, Some(list(&texts)));
    }
}

#[test]
fn batch_requests_keep_duplicates_and_write_the_text_of_each_identifier() {
    let purls = purls(&["pkg:Maven/c/c@3?b=1&A=2", "pkg:maven/a/a@1", "pkg:maven/c/c@3?b=1&a=2"]);
    let request = service().versions(&purls).unwrap();
    assert_eq!(
        request.body,
        Some(list(&["pkg:maven/c/c@3?b=1&a=2", "pkg:maven/a/a@1", "pkg:maven/c/c@3?b=1&a=2"]))
    );
}

#[test]
fn a_batch_request_for_nothing_has_an_empty_list() {
    let request = service().dependencies(&Vec::new()).unwrap();
    assert_eq!(request.body, Some(PackageList(Vec::new())));
}

#[test]
fn a_request_fails_where_the_path_cannot_be_joined() {
    let service = PackageService::new(Backend::new("mailto:someone@example.test").unwrap());
    let purl = PackageUrl::from_str("pkg:maven/x/y@1").unwrap();
    assert!(matches!(service.lookup(&purl), Err(Error::InvalidUrl(_))));
    assert!(matches!(service.versions(&vec![purl]), Err(Error::InvalidUrl(_))));
}
