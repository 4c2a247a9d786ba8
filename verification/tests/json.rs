use paperdock::json::{read_bytes, read_text, Json};

#[test]
fn documents_are_read() {
    let v = read_text("{\"a\": [1, -2, 1.5, true, null, \"x\"], \"b\": {}}").unwrap();
    let a = v.get("a").unwrap();
    assert_eq!(a.at(0).unwrap().as_u64(), Some(1));
    assert_eq!(a.at(0).unwrap().as_i64(), Some(1));
    assert_eq!(a.at(1).unwrap().as_u64(), None);
    assert_eq!(a.at(1).unwrap().as_i64(), Some(-2));
    assert_eq!(a.at(2).unwrap().as_u64(), None);
    assert_eq!(a.at(2).unwrap().as_i64(), None);
    assert_eq!(*a.at(3).unwrap(), Json::Bool(true));
    assert_eq!(*a.at(4).unwrap(), Json::Null);
    assert_eq!(a.at(5).unwrap().as_text().unwrap(), "x");
    assert!(a.at(6).is_none());
    assert_eq!(*v.get("b").unwrap(), Json::Record(vec![]));
    assert!(v.get("c").is_none());
    assert!(v.at(0).is_none());
    assert!(a.get("a").is_none());
}

#[test]
fn what_is_no_document_is_refused() {
    assert!(read_text("").is_none());
    assert!(read_text("{\"a\":}").is_none());
    assert!(read_text("1 2").is_none());
    assert!(read_bytes(&[0xff, 0xfe]).is_none());
    assert_eq!(read_bytes(b" [ ] "), Some(Json::List(vec![])));
}

#[test]
fn large_numbers_keep_their_value() {
    let v = read_text("[18446744073709551615, 18446744073709551616, -9223372036854775808]").unwrap();
    assert_eq!(v.at(0).unwrap().as_u64(), Some(u64::MAX));
    assert_eq!(v.at(0).unwrap().as_i64(), None);
    assert_eq!(v.at(1).unwrap().as_u64(), None);
    assert_eq!(v.at(2).unwrap().as_i64(), Some(i64::MIN));
}

#[test]
fn the_last_of_two_like_members_counts() {
    let v = read_text("{\"a\": 1, \"a\": 2}").unwrap();
    assert_eq!(v.get("a").unwrap().as_u64(), Some(2));
}

#[test]
fn texts_come_with_a_fallback() {
    let v = read_text("{\"a\": \"x\", \"b\": 3}").unwrap();
    assert_eq!(v.get_text("a").as_deref(), Some("x"));
    assert_eq!(v.get_text("b"), None);
    assert_eq!(v.get_text_or("b", "y"), "y");
    assert_eq!(v.get_text_or_empty("c"), "");
    assert!(v.get_list("a").is_none());
}
