use chicken_coop::order::{
    arrange, dissect, find_first, find_last, find_pair, has_key, matches_key, read_keys,
    write_in_order,
};

fn pairs(items: &[(&str, &str)]) -> Vec<(String, String)> {
    items.iter().map(|(k, v)| (k.to_string(), v.to_string())).collect()
}

fn strings(items: &[&str]) -> Vec<String> {
    items.iter().map(|s| s.to_string()).collect()
}

#[test]
fn the_first_and_the_last_place_of_a_character() {
    assert_eq!(find_first("a=b=c", '='), 1);
    assert_eq!(find_first("abc", '='), 3);
    assert_eq!(find_first("", '='), 0);
    assert_eq!(find_first("é=", '='), 1);
    assert_eq!(find_last("a?b?c", '?'), Some(3));
    assert_eq!(find_last("abc", '?'), None);
    assert_eq!(find_last("", '?'), None);
    assert_eq!(find_last("?", '?'), Some(0));
}

#[test]
fn a_text_is_taken_apart_at_its_last_marks() {
    let d = dissect("pkg:t/ns/n@1?b=2&a=1#sub/path");
    assert_eq!(d.head, "pkg:t/ns/n@1?");
    assert_eq!(d.segments, strings(&["b=2", "a=1"]));
    assert_eq!(d.tail, "#sub/path");

    let d = dissect("pkg:t/n@1");
    assert_eq!(d.head, "pkg:t/n@1");
    assert!(d.segments.is_empty());
    assert_eq!(d.tail, "");

    let d = dissect("pkg:t/n#a?b");
    assert_eq!(d.head, "pkg:t/n");
    assert!(d.segments.is_empty());
    assert_eq!(d.tail, "#a?b");

    let d = dissect("pkg:t/n@1?x?k=v#s#t");
    assert_eq!(d.head, "pkg:t/n@1?x?");
    assert_eq!(d.segments, strings(&["k=v#s"]));
    assert_eq!(d.tail, "#t");

    let d = dissect("pkg:t/n?");
    assert_eq!(d.head, "pkg:t/n?");
    assert_eq!(d.segments, strings(&[""]));
    assert_eq!(d.tail, "");
}

#[test]
fn only_qualifiers_with_a_value_name_a_key() {
    assert_eq!(
        read_keys(&strings(&["b=2", "novalue", "empty=", "A=1", "=x", "k=v=w", ""])),
        strings(&["b", "A", "", "k"])
    );
    assert!(read_keys(&Vec::new()).is_empty());
}

#[test]
fn an_upper_case_letter_in_a_written_key_stands_for_the_lower_case_letter() {
    assert!(matches_key("type", "type"));
    assert!(matches_key("Type", "type"));
    assert!(matches_key("TYPE", "type"));
    assert!(matches_key("a.B-c_9", "a.b-c_9"));
    assert!(matches_key("", ""));
    assert!(!matches_key("type", "Type"));
    assert!(!matches_key("type", "typ"));
    assert!(!matches_key("typ", "type"));
    assert!(!matches_key("É", "é"));
    assert!(!matches_key("@", "`"));
    assert!(!matches_key("[", "{"));
}

#[test]
fn finding_the_qualifier_that_a_written_key_stands_for() {
    let list = pairs(&[("a", "1"), ("b", "2"), ("c", "3")]);
    assert_eq!(find_pair(&list, "B"), 1);
    assert_eq!(find_pair(&list, "c"), 2);
    assert_eq!(find_pair(&list, "d"), 3);
    assert_eq!(find_pair(&Vec::new(), "a"), 0);
    assert!(has_key(&list, "b"));
    assert!(!has_key(&list, "B"));
    assert!(!has_key(&list, "d"));
}

#[test]
fn qualifiers_are_arranged_in_the_order_in_which_keys_name_them() {
    let list = pairs(&[("a", "1"), ("b", "2"), ("c", "3")]);
    assert_eq!(
        arrange(&list, &strings(&["c", "A", "b"])),
        pairs(&[("c", "3"), ("a", "1"), ("b", "2")])
    );
    assert_eq!(
        arrange(&list, &strings(&["b", "x", "B", "a", "b"])),
        pairs(&[("b", "2"), ("a", "1")])
    );
    assert!(arrange(&list, &Vec::new()).is_empty());
    assert!(arrange(&Vec::new(), &strings(&["a"])).is_empty());
}

#[test]
fn a_text_is_written_with_its_qualifiers_in_a_given_order() {
    let listing = pairs(&[("a", "1 2"), ("b", "2"), ("c", "3")]);
    let order = pairs(&[("c", "3"), ("a", "1 2"), ("b", "2")]);
    assert_eq!(
        write_in_order("pkg:t/n@1?a=1%202&b=2&c=3#s", &listing, &order),
        "pkg:t/n@1?c=3&a=1%202&b=2#s"
    );
    assert_eq!(write_in_order("pkg:t/n@1?a=1%202&b=2&c=3", &listing, &listing), "pkg:t/n@1?a=1%202&b=2&c=3");
    assert_eq!(write_in_order("pkg:t/n@1#s", &Vec::new(), &Vec::new()), "pkg:t/n@1#s");
    assert_eq!(write_in_order("pkg:t/n", &Vec::new(), &Vec::new()), "pkg:t/n");
}
