use paperdock::json::read_text;
use paperdock::zotero::{
    base, build_citation, children_url, collection_candidates, collection_docs, collections_in,
    collections_url, count_url, extract_year, groups_url, is_running, items_url, library_item_count,
    list_collections, list_libraries, pdf_paths, resolve_pdf_path, status_url, Candidate, Collection,
    DocRef, Library, LibraryListing, Reply, Resolved,
};

fn reply(status: u16, body: &str) -> Reply {
    Reply { status, body: Some(body.as_bytes().to_vec()) }
}

fn library(path: &str, name: &str) -> Library {
    Library { path: path.to_string(), name: name.to_string() }
}

fn collection(key: &str, name: &str, num_items: u32, library: &str, library_name: &str) -> Collection {
    Collection {
        key: key.to_string(),
        name: name.to_string(),
        num_items,
        library: library.to_string(),
        library_name: library_name.to_string(),
    }
}

#[test]
fn addresses_are_built() {
    assert_eq!(base("users/0"), "http://localhost:23119/api/users/0");
    assert_eq!(status_url(), "http://localhost:23119/api/");
    assert_eq!(groups_url(), "http://localhost:23119/api/users/0/groups");
    assert_eq!(count_url("groups/7"), "http://localhost:23119/api/groups/7/items/top?limit=1");
    assert_eq!(collections_url("users/0"), "http://localhost:23119/api/users/0/collections");
    assert_eq!(
        items_url("users/0", "KEY"),
        "http://localhost:23119/api/users/0/collections/KEY/items/top"
    );
    assert_eq!(items_url("users/0", "__all__"), "http://localhost:23119/api/users/0/items/top");
    assert_eq!(
        children_url("groups/7", "ITEM"),
        "http://localhost:23119/api/groups/7/items/ITEM/children"
    );
}

#[test]
fn zotero_runs_if_it_answers() {
    assert!(is_running(Some(200)));
    assert!(is_running(Some(299)));
    assert!(is_running(Some(404)));
    assert!(!is_running(Some(500)));
    assert!(!is_running(Some(300)));
    assert!(!is_running(None));
}

#[test]
fn libraries_are_listed() {
    let own = library("users/0", "My Library");
    assert_eq!(list_libraries(None), vec![own]);
    let groups = "[{\"id\": 42, \"data\": {\"name\": \"Lab\"}}, {\"id\": -1, \"data\": {\"name\": \"x\"}}, \
        {\"id\": 43}, {\"id\": 44, \"data\": {\"name\": \"\"}}]";
    let expected = vec![
        library("users/0", "My Library"),
        library("groups/42", "Lab"),
        library("groups/44", ""),
    ];
    assert_eq!(list_libraries(Some(&reply(200, groups))), expected);
    // The status of this reply does not matter.
    assert_eq!(list_libraries(Some(&reply(500, groups))), expected);
    assert_eq!(list_libraries(Some(&reply(200, "{}"))).len(), 1);
    assert_eq!(list_libraries(Some(&Reply { status: 200, body: None })).len(), 1);
}

#[test]
fn collections_are_listed() {
    let lab = library("groups/42", "Lab");
    let body = "[{\"key\": \"A\", \"data\": {\"name\": \"Papers\"}, \"meta\": {\"numItems\": 12}}, \
        {\"data\": {\"name\": \"no key\"}}, {\"key\": \"\"}, {\"key\": \"B\"}, \
        {\"key\": \"C\", \"meta\": {\"numItems\": 4294967298}}]";
    assert_eq!(
        collections_in(Some(&reply(200, body)), &lab),
        vec![
            collection("A", "Papers", 12, "groups/42", "Lab"),
            collection("B", "(untitled)", 0, "groups/42", "Lab"),
            collection("C", "(untitled)", 2, "groups/42", "Lab"),
        ]
    );
    assert_eq!(collections_in(Some(&reply(403, body)), &lab), vec![]);
    assert_eq!(collections_in(Some(&reply(200, "{}")), &lab), vec![]);
    assert_eq!(collections_in(Some(&reply(200, "[")), &lab), vec![]);
    assert_eq!(collections_in(None, &lab), vec![]);
}

#[test]
fn items_are_counted_by_the_header() {
    assert_eq!(library_item_count(Some("17")), 17);
    assert_eq!(library_item_count(Some("4294967295")), u32::MAX);
    assert_eq!(library_item_count(Some("4294967296")), 0);
    assert_eq!(library_item_count(Some("many")), 0);
    assert_eq!(library_item_count(None), 0);
}

#[test]
fn a_library_with_items_has_an_entry_for_all() {
    let listings = vec![
        LibraryListing {
            library: library("users/0", "My Library"),
            total: 3,
            collections: vec![collection("A", "a", 1, "users/0", "My Library")],
        },
        LibraryListing {
            library: library("groups/1", "Lab"),
            total: 0,
            collections: vec![collection("B", "b", 0, "groups/1", "Lab")],
        },
    ];
    assert_eq!(
        list_collections(listings),
        vec![
            collection("__all__", "All items", 3, "users/0", "My Library"),
            collection("A", "a", 1, "users/0", "My Library"),
            collection("B", "b", 0, "groups/1", "Lab"),
        ]
    );
    assert_eq!(list_collections(vec![]), vec![]);
}

#[test]
fn years_are_found() {
    assert_eq!(extract_year("2021-05-03").as_deref(), Some("2021"));
    assert_eq!(extract_year("May 3, 1999").as_deref(), Some("1999"));
    assert_eq!(extract_year("12345").as_deref(), Some("1234"));
    assert_eq!(extract_year("199").as_deref(), None);
    assert_eq!(extract_year("é 2020 é").as_deref(), Some("2020"));
    assert_eq!(extract_year("").as_deref(), None);
    assert_eq!(extract_year("٢٠٢٠").as_deref(), None);
}

#[test]
fn papers_are_cited() {
    let cite = |s: &str| build_citation(&read_text(s).unwrap());
    assert_eq!(
        cite("{\"creators\": [{\"lastName\": \"Wang\"}, {\"lastName\": \"Li\"}], \"date\": \"2022-01\"}"),
        "Wang 2022"
    );
    assert_eq!(cite("{\"creators\": [{\"name\": \"WHO\"}], \"date\": \"2020\"}"), "WHO 2020");
    assert_eq!(
        cite("{\"creators\": [{\"lastName\": \"\", \"name\": \"WHO\"}], \"date\": \"in 1999\"}"),
        "WHO 1999"
    );
    // Without a year, or without a creator, the title stands in.
    assert_eq!(cite("{\"creators\": [{\"lastName\": \"Smith\"}], \"title\": \"Deep nets\"}"), "Deep nets");
    assert_eq!(cite("{\"creators\": [{\"name\": \"WHO\"}]}"), "Untitled");
    assert_eq!(cite("{\"creators\": [{\"firstName\": \"X\"}], \"title\": \"T\"}"), "T");
    assert_eq!(cite("{\"creators\": [], \"date\": \"2020\"}"), "Untitled");
    assert_eq!(
        cite("{\"title\": \"ééééééééééééééééééééééééééééééééééééééééXX\"}"),
        "é".repeat(40)
    );
}

#[test]
fn papers_of_a_collection_are_told_from_the_rest() {
    let body = "[{\"data\": {\"key\": \"A\", \"itemType\": \"journalArticle\", \"title\": \"T\"}}, \
        {\"data\": {\"key\": \"B\", \"itemType\": \"attachment\"}}, \
        {\"data\": {\"key\": \"C\", \"itemType\": \"note\"}}, {\"key\": \"D\"}, \
        {\"data\": {\"itemType\": \"book\"}}, {\"data\": {\"key\": \"E\"}}]";
    assert_eq!(
        collection_candidates(Some(&reply(200, body))),
        Ok(vec![
            Candidate { item_key: "A".to_string(), citation: "T".to_string() },
            Candidate { item_key: "E".to_string(), citation: "Untitled".to_string() },
        ])
    );
}

#[test]
fn a_collection_that_cannot_be_loaded_says_why() {
    let fails = |r: Option<&Reply>, message: &str| {
        assert_eq!(collection_candidates(r), Err(message.to_string()));
    };
    fails(None, "Zotero is not running.");
    fails(Some(&reply(404, "[]")), "Could not load papers from this collection.");
    fails(Some(&reply(200, "oops")), "Could not parse Zotero items.");
    fails(Some(&Reply { status: 200, body: None }), "Could not parse Zotero items.");
    fails(Some(&reply(200, "{}")), "Unexpected Zotero items response.");
}

#[test]
fn pdfs_are_looked_for_in_order() {
    let body = "[{\"data\": {\"contentType\": \"text/html\", \"linkMode\": \"linked_file\", \"path\": \"/x.html\"}}, \
        {\"data\": {\"contentType\": \"application/pdf\", \"linkMode\": \"linked_file\", \"path\": \"/x.pdf\"}}, \
        {\"data\": {\"contentType\": \"application/pdf\", \"linkMode\": \"linked_file\"}}, \
        {\"data\": {\"contentType\": \"application/pdf\", \"linkMode\": \"imported_url\", \"key\": \"K\", \"filename\": \"y.pdf\"}}, \
        {}, {\"data\": {\"contentType\": \"application/pdf\", \"linkMode\": \"imported_file\", \"key\": \"K\"}}, \
        {\"data\": {\"contentType\": \"application/pdf\", \"linkMode\": \"linked_file\", \"path\": \"/z.pdf\"}}]";
    let paths = pdf_paths(Some(&reply(200, body)), "/Zotero");
    // An imported file without a name is passed over.
    assert_eq!(paths, vec!["/x.pdf", "/Zotero/storage/K/y.pdf", "/z.pdf"]);
    assert_eq!(
        resolve_pdf_path(&paths, &vec![false, true, true]).as_deref(),
        Some("/Zotero/storage/K/y.pdf")
    );
    assert_eq!(resolve_pdf_path(&paths, &vec![true, true, true]).as_deref(), Some("/x.pdf"));
    assert_eq!(resolve_pdf_path(&paths, &vec![false, false, true]).as_deref(), Some("/z.pdf"));
    assert_eq!(resolve_pdf_path(&paths, &vec![false, false, false]), None);
    assert!(pdf_paths(Some(&reply(500, body)), "/Zotero").is_empty());
    assert!(pdf_paths(None, "/Zotero").is_empty());
}

#[test]
fn a_broken_attachment_hides_no_pdf() {
    let body = "[{\"data\": {\"contentType\": \"application/pdf\", \"linkMode\": \"imported_file\", \"key\": \"J\"}}, \
        {\"data\": {\"contentType\": \"application/pdf\", \"linkMode\": \"imported_file\", \"filename\": \"b.pdf\"}}, \
        {\"data\": {\"contentType\": \"application/pdf\", \"linkMode\": \"imported_file\", \"key\": \"K\", \"filename\": \"a.pdf\"}}]";
    let paths = pdf_paths(Some(&reply(200, body)), "/Zotero");
    assert_eq!(resolve_pdf_path(&paths, &vec![true]).as_deref(), Some("/Zotero/storage/K/a.pdf"));
}

#[test]
fn every_paper_is_accounted_for() {
    let doc = |key: &str, path: &str, citation: &str| DocRef {
        path: path.to_string(),
        zotero_key: key.to_string(),
        citation: citation.to_string(),
    };
    let paper = |key: &str, citation: &str, path: Option<&str>| Resolved {
        paper: Candidate { item_key: key.to_string(), citation: citation.to_string() },
        path: path.map(|p| p.to_string()),
    };
    let r = collection_docs(vec![
        paper("A", "a", Some("/a.pdf")),
        paper("B", "b", None),
        paper("C", "c", Some("/c.pdf")),
    ]);
    assert_eq!(r.docs, vec![doc("A", "/a.pdf", "a"), doc("C", "/c.pdf", "c")]);
    assert_eq!(r.skipped, vec!["b"]);
}
