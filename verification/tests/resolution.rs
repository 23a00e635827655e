use shn2xml::registry::{resolve_encoding, resolve_index};

fn names(list: &[&str]) -> Vec<String> {
    list.iter().map(|s| String::from(*s)).collect()
}

#[test]
fn exact_match_returns_first_index() {
    let list = names(&["ascii", "utf-8", "koi8-r", "utf-8"]);
    assert_eq!(resolve_index(&list, "utf-8"), Some(1));
    assert_eq!(resolve_index(&list, "koi8-r"), Some(2));
    assert_eq!(resolve_index(&list, "ascii"), Some(0));
}

#[test]
fn matching_is_exact_and_case_sensitive() {
    let list = names(&["ascii", "utf-8"]);
    assert_eq!(resolve_index(&list, "UTF-8"), None);
    assert_eq!(resolve_index(&list, "utf"), None);
    assert_eq!(resolve_index(&list, "utf-8 "), None);
}

#[test]
fn empty_name_resolves_like_the_default_name() {
    let list = names(&["windows-949", "ascii", "utf-8"]);
    assert_eq!(resolve_index(&list, ""), Some(1));
    assert_eq!(resolve_index(&list, ""), resolve_index(&list, "ascii"));
    assert_eq!(resolve_encoding(""), resolve_encoding("ascii"));
}

#[test]
fn empty_name_fails_when_the_default_is_unregistered() {
    let list = names(&["windows-949", "utf-8"]);
    assert_eq!(resolve_index(&list, ""), None);
}

#[test]
fn registered_names_resolve_against_the_real_registry() {
    assert!(resolve_encoding("ascii").is_some());
    assert!(resolve_encoding("").is_some());
    assert!(resolve_encoding("utf-8").is_some());
}

#[test]
fn unknown_names_never_resolve() {
    assert_eq!(resolve_encoding("no-such-encoding"), None);
    assert_eq!(resolve_encoding("ASCII"), None);
}

#[test]
fn resolved_index_points_at_the_matching_encoding() {
    let all = encoding::all::encodings();
    let i = resolve_encoding("utf-8").unwrap();
    assert_eq!(all[i].name(), "utf-8");
    let j = resolve_encoding("").unwrap();
    assert_eq!(all[j].name(), "ascii");
    let k = resolve_encoding("windows-949").unwrap();
    assert_eq!(all[k].name(), "windows-949");
}
