use paperdock::picker::{preselect, split_id};
use paperdock::progress::parse_frac;
use paperdock::zotero::Collection;

fn collection(library: &str, key: &str) -> Collection {
    Collection {
        key: key.to_string(),
        name: "Papers".to_string(),
        num_items: 12,
        library: library.to_string(),
        library_name: "Lab".to_string(),
    }
}

#[test]
fn ids_tell_collections() {
    let c = collection("groups/1234567", "ABCD1234");
    assert_eq!(c.id(), "groups/1234567::ABCD1234");
    assert_eq!(c.label(), "Lab / Papers (12)");
    let pair = |a: &str, b: &str| (a.to_string(), b.to_string());
    assert_eq!(split_id(&c.id()), pair("groups/1234567", "ABCD1234"));
    assert_eq!(split_id("ABCD1234"), pair("users/0", "ABCD1234"));
    assert_eq!(split_id(""), pair("users/0", ""));
    assert_eq!(split_id("a::b::c"), pair("a", "b::c"));
    assert_eq!(split_id("a:::k"), pair("a", ":k"));
    for id in ["a::b::c", "a:::k", "::", "x", ":", "é::ß"] {
        let expected = id.split_once("::").unwrap_or(("users/0", id));
        assert_eq!(split_id(id), pair(expected.0, expected.1));
    }
}

#[test]
fn the_remembered_collection_is_chosen_if_it_is_listed() {
    let list = vec![collection("users/0", "A"), collection("users/0", "B")];
    assert_eq!(preselect(&Some("users/0::B".to_string()), &list).as_deref(), Some("users/0::B"));
    assert_eq!(preselect(&Some("users/0::C".to_string()), &list).as_deref(), Some("users/0::A"));
    assert_eq!(preselect(&None, &list).as_deref(), Some("users/0::A"));
    assert_eq!(preselect(&Some("users/0::A".to_string()), &vec![]), None);
}

#[test]
fn progress_is_read_off_the_status() {
    let parts = |s: &str| parse_frac(s);
    let pair = |a: &str, b: &str| Some((a.to_string(), b.to_string()));
    assert_eq!(parts("Reading paper 3/12…"), pair("3", "12"));
    assert_eq!(parts("007/010x"), pair("007", "010"));
    assert_eq!(parts("3/0"), None);
    assert_eq!(parts("3/000"), None);
    assert_eq!(parts("a/12"), None);
    assert_eq!(parts("3 /12"), None);
    assert_eq!(parts("3/ 12"), None);
    assert_eq!(parts("3"), None);
    assert_eq!(parts("a/b 3/12"), pair("3", "12"));
    assert_eq!(parts("Reading and/or indexing paper 3/12"), pair("3", "12"));
    assert_eq!(parts("3/0/12"), pair("0", "12"));
    assert_eq!(parts("1/2/3"), pair("1", "2"));
    assert_eq!(parts("a/b/c"), None);
    assert_eq!(parts("3/0 of 4/"), None);
    assert_eq!(parts(""), None);
}
