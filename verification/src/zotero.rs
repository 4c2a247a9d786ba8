//! The Zotero library: its collections, its papers and their PDFs.

use crate::json;
use crate::json::{Json, JsonView};
use crate::lookup;
use crate::text;
use vstd::prelude::*;

verus! {

/// Where Zotero's local API is served.
pub const ROOT: &'static str = "http://localhost:23119/api";

/// The key that stands for a whole library's top-level items.
pub const ALL_ITEMS: &'static str = "__all__";

// ---- addresses ------------------------------------------------------------

/// The address of a library, "users/0" (My Library) or "groups/<id>".
pub open spec fn base_url(library: Seq<char>) -> Seq<char> {
    ROOT@ + "/"@ + library
}

/// The address of a library.
pub fn base(library: &str) -> (r: String)
    ensures
        r@ == base_url(library@),
{
    let mut r = ROOT.to_string();
    r.append("/");
    r.append(library);
    r
}

/// The address that answers whenever Zotero is running.
pub fn status_url() -> (r: String)
    ensures
        r@ == ROOT@ + "/"@,
{
    let mut r = ROOT.to_string();
    r.append("/");
    r
}

/// The address of the list of the user's groups.
pub fn groups_url() -> (r: String)
    ensures
        r@ == ROOT@ + "/users/0/groups"@,
{
    let mut r = ROOT.to_string();
    r.append("/users/0/groups");
    r
}

/// The address whose reply is headed by the number of a library's items.
pub fn count_url(library: &str) -> (r: String)
    ensures
        r@ == base_url(library@) + "/items/top?limit=1"@,
{
    let mut r = base(library);
    r.append("/items/top?limit=1");
    r
}

/// The address of the list of a library's collections.
pub fn collections_url(library: &str) -> (r: String)
    ensures
        r@ == base_url(library@) + "/collections"@,
{
    let mut r = base(library);
    r.append("/collections");
    r
}

/// The address of a collection's top-level items, or of the whole library's.
pub open spec fn items_url_of(library: Seq<char>, collection_key: Seq<char>) -> Seq<char> {
    if collection_key == ALL_ITEMS@ {
        base_url(library) + "/items/top"@
    } else {
        base_url(library) + "/collections/"@ + collection_key + "/items/top"@
    }
}

/// The address of a collection's top-level items, or of the whole library's.
pub fn items_url(library: &str, collection_key: &str) -> (r: String)
    ensures
        r@ == items_url_of(library@, collection_key@),
{
    let mut r = base(library);
    if text::same_text(collection_key, ALL_ITEMS) {
        r.append("/items/top");
    } else {
        r.append("/collections/");
        r.append(collection_key);
        r.append("/items/top");
    }
    r
}

/// The address of the list of an item's attachments and notes.
pub fn children_url(library: &str, item_key: &str) -> (r: String)
    ensures
        r@ == base_url(library@) + "/items/"@ + item_key@ + "/children"@,
{
    let mut r = base(library);
    r.append("/items/");
    r.append(item_key);
    r.append("/children");
    r
}

// ---- replies --------------------------------------------------------------

/// A reply of the API: its HTTP status, and its body unless reading it failed.
#[derive(Debug, PartialEq, Eq)]
pub struct Reply {
    pub status: u16,
    pub body: Option<Vec<u8>>,
}

/// The status says that the request succeeded.
pub open spec fn is_success(status: u16) -> bool {
    200 <= status < 300
}

impl Reply {
    /// The document in the body.
    pub open spec fn document(self) -> Option<JsonView> {
        match self.body {
            Some(body) => json::document_in_bytes(body@),
            None => None,
        }
    }

    pub fn read(&self) -> (r: Option<Json>)
        ensures
            json::said(r) == self.document(),
    {
        match &self.body {
            Some(body) => json::read_bytes(body.as_slice()),
            None => None,
        }
    }

    pub fn succeeded(&self) -> (r: bool)
        ensures
            r == is_success(self.status),
    {
        200 <= self.status && self.status < 300
    }
}

/// The list in a reply of success.
pub open spec fn listed(reply: Option<&Reply>) -> Option<Seq<JsonView>> {
    match reply {
        Some(reply) => if is_success(reply.status) {
            match reply.document() {
                Some(v) => v.list(),
                None => None,
            }
        } else {
            None
        },
        None => None,
    }
}

/// Is Zotero running, going by the status that its address answered with, if it
/// answered? Not knowing the address counts as running too.
pub fn is_running(status: Option<u16>) -> (r: bool)
    ensures
        r == (status matches Some(s) && (is_success(s) || s == 404)),
{
    match status {
        Some(s) => (200 <= s && s < 300) || s == 404,
        None => false,
    }
}

// ---- libraries ------------------------------------------------------------

/// A library: the segment of the API that it lives under, and its name.
#[derive(Debug, PartialEq, Eq)]
pub struct Library {
    pub path: String,
    pub name: String,
}

#[verifier::ext_equal]
pub struct LibraryView {
    pub path: Seq<char>,
    pub name: Seq<char>,
}

impl DeepView for Library {
    type V = LibraryView;

    open spec fn deep_view(&self) -> LibraryView {
        LibraryView { path: self.path@, name: self.name@ }
    }
}

/// The group library that a JSON value describes: one with a number and a name.
pub open spec fn group_in(v: JsonView) -> Option<LibraryView> {
    match (v.member("id"@), v.member("data"@)) {
        (Some(id), Some(data)) => match (id.unsigned(), data.text_member("name"@)) {
            (Some(n), Some(name)) => Some(
                LibraryView { path: "groups/"@ + text::decimal(n as nat), name },
            ),
            _ => None,
        },
        _ => None,
    }
}

/// The group libraries among the described ones.
pub open spec fn groups_in(items: Seq<JsonView>) -> Seq<LibraryView>
    decreases items.len(),
{
    if items.len() == 0 {
        Seq::empty()
    } else {
        let before = groups_in(items.drop_last());
        match group_in(items.last()) {
            Some(group) => before.push(group),
            None => before,
        }
    }
}

/// The user's own library.
pub open spec fn my_library() -> LibraryView {
    LibraryView { path: "users/0"@, name: "My Library"@ }
}

/// The user's own library and the groups that a document lists, if it does.
pub open spec fn libraries_in(document: Option<JsonView>) -> Seq<LibraryView> {
    match document {
        Some(v) => match v.list() {
            Some(items) => seq![my_library()] + groups_in(items),
            None => seq![my_library()],
        },
        None => seq![my_library()],
    }
}

fn group_of(v: &Json) -> (r: Option<Library>)
    ensures
        r.deep_view() == group_in(v@),
{
    let id = match v.get("id") {
        Some(id) => id.as_u64(),
        None => None,
    };
    let name = match v.get("data") {
        Some(data) => data.get_text("name"),
        None => None,
    };
    match (id, name) {
        (Some(id), Some(name)) => {
            let mut path = "groups/".to_string();
            text::push_decimal(&mut path, id as u128);
            Some(Library { path, name })
        },
        _ => None,
    }
}

/// The user's own library and the groups that a document lists, if it does.
pub fn libraries_of(document: Option<&Json>) -> (r: Vec<Library>)
    ensures
        r.deep_view() == libraries_in(json::said_at(document)),
{
    let mut r: Vec<Library> = Vec::new();
    r.push(Library { path: "users/0".to_string(), name: "My Library".to_string() });
    assert(r.deep_view() =~= seq![my_library()]);
    let items = match document {
        Some(v) => match v.as_list() {
            Some(items) => items,
            None => {
                return r;
            },
        },
        None => {
            return r;
        },
    };
    let ghost views = json::list_view(items@);
    let mut i: usize = 0;
    assert(r.deep_view() =~= seq![my_library()] + groups_in(views.take(0)));
    while i < items.len()
        invariant
            i <= items@.len(),
            views == json::list_view(items@),
            r.deep_view() == seq![my_library()] + groups_in(views.take(i as int)),
        decreases items@.len() - i,
    {
        let ghost before = r.deep_view();
        assert(views.take(i + 1).drop_last() =~= views.take(i as int));
        assert(views[i as int] == items@[i as int]@);
        if let Some(group) = group_of(&items[i]) {
            r.push(group);
            assert(r.deep_view() =~= before.push(group.deep_view()));
        }
        assert(r.deep_view() =~= seq![my_library()] + groups_in(views.take(i + 1)));
        i = i + 1;
    }
    assert(views.take(views.len() as int) =~= views);
    r
}

/// The user's libraries, going by the reply to the request for the groups, if
/// there was one: the user's own library, then the groups.
pub fn list_libraries(reply: Option<&Reply>) -> (r: Vec<Library>)
    ensures
        r.deep_view() == libraries_in(
            match reply {
                Some(reply) => reply.document(),
                None => None,
            },
        ),
{
    let document = match reply {
        Some(reply) => reply.read(),
        None => None,
    };
    libraries_of(document.as_ref())
}

// ---- collections ----------------------------------------------------------

/// A collection of papers, or a library's items as a whole.
#[derive(Debug, PartialEq, Eq)]
pub struct Collection {
    pub key: String,
    pub name: String,
    pub num_items: u32,
    /// The segment of the API that the collection lives under.
    pub library: String,
    /// The name of that library.
    pub library_name: String,
}

#[verifier::ext_equal]
pub struct CollectionView {
    pub key: Seq<char>,
    pub name: Seq<char>,
    pub num_items: u32,
    pub library: Seq<char>,
    pub library_name: Seq<char>,
}

impl DeepView for Collection {
    type V = CollectionView;

    open spec fn deep_view(&self) -> CollectionView {
        CollectionView {
            key: self.key@,
            name: self.name@,
            num_items: self.num_items,
            library: self.library@,
            library_name: self.library_name@,
        }
    }
}

impl Clone for Collection {
    fn clone(&self) -> (r: Self)
        ensures
            r.deep_view() == self.deep_view(),
    {
        Collection {
            key: self.key.clone(),
            name: self.name.clone(),
            num_items: self.num_items,
            library: self.library.clone(),
            library_name: self.library_name.clone(),
        }
    }
}

/// The number of items that a collection's description gives, modulo 2^32.
pub open spec fn num_items_in(v: JsonView) -> u32 {
    match v.member("meta"@) {
        Some(meta) => match meta.member("numItems"@) {
            Some(n) => match n.unsigned() {
                Some(n) => (n % 0x1_0000_0000) as u32,
                None => 0,
            },
            None => 0,
        },
        None => 0,
    }
}

/// The collection of this library that a JSON value describes: one with a key.
pub open spec fn collection_in(v: JsonView, library: LibraryView) -> Option<CollectionView> {
    let key = v.text_member_or("key"@, Seq::empty());
    if key.len() == 0 {
        None
    } else {
        Some(
            CollectionView {
                key,
                name: match v.member("data"@) {
                    Some(data) => data.text_member_or("name"@, "(untitled)"@),
                    None => "(untitled)"@,
                },
                num_items: num_items_in(v),
                library: library.path,
                library_name: library.name,
            },
        )
    }
}

/// The collections of this library among the described ones.
pub open spec fn collections_among(items: Seq<JsonView>, library: LibraryView) -> Seq<
    CollectionView,
>
    decreases items.len(),
{
    if items.len() == 0 {
        Seq::empty()
    } else {
        let before = collections_among(items.drop_last(), library);
        match collection_in(items.last(), library) {
            Some(collection) => before.push(collection),
            None => before,
        }
    }
}

fn collection_of(v: &Json, library: &Library) -> (r: Option<Collection>)
    ensures
        r.deep_view() == collection_in(v@, library.deep_view()),
{
    let key = v.get_text_or_empty("key");
    if key.as_str().is_empty() {
        return None;
    }
    let name = match v.get("data") {
        Some(data) => data.get_text_or("name", "(untitled)"),
        None => "(untitled)".to_string(),
    };
    let num_items: u32 = match v.get("meta") {
        Some(meta) => match meta.get("numItems") {
            Some(n) => match n.as_u64() {
                Some(n) => (n % 0x1_0000_0000) as u32,
                None => 0,
            },
            None => 0,
        },
        None => 0,
    };
    Some(
        Collection {
            key,
            name,
            num_items,
            library: library.path.clone(),
            library_name: library.name.clone(),
        },
    )
}

/// The collections that a list describes.
pub fn collections_of(items: &Vec<Json>, library: &Library) -> (r: Vec<Collection>)
    ensures
        r.deep_view() == collections_among(json::list_view(items@), library.deep_view()),
{
    let ghost views = json::list_view(items@);
    let ghost home = library.deep_view();
    let mut r: Vec<Collection> = Vec::new();
    let mut i: usize = 0;
    assert(r.deep_view() =~= collections_among(views.take(0), home));
    while i < items.len()
        invariant
            i <= items@.len(),
            views == json::list_view(items@),
            home == library.deep_view(),
            r.deep_view() == collections_among(views.take(i as int), home),
        decreases items@.len() - i,
    {
        let ghost before = r.deep_view();
        assert(views.take(i + 1).drop_last() =~= views.take(i as int));
        assert(views[i as int] == items@[i as int]@);
        if let Some(collection) = collection_of(&items[i], library) {
            r.push(collection);
            assert(r.deep_view() =~= before.push(collection.deep_view()));
        }
        i = i + 1;
    }
    assert(views.take(views.len() as int) =~= views);
    r
}

/// The collections of one library, going by the reply to the request for them.
/// There are none without a reply of success that is a list.
pub open spec fn collections_replied(reply: Option<&Reply>, library: LibraryView) -> Seq<
    CollectionView,
> {
    match listed(reply) {
        Some(items) => collections_among(items, library),
        None => Seq::empty(),
    }
}

/// The collections of one library, going by the reply to the request for them.
pub fn collections_in(reply: Option<&Reply>, library: &Library) -> (r: Vec<Collection>)
    ensures
        r.deep_view() == collections_replied(reply, library.deep_view()),
{
    if let Some(reply) = reply {
        if reply.succeeded() {
            if let Some(v) = reply.read() {
                if let Some(items) = v.as_list() {
                    return collections_of(items, library);
                }
            }
        }
    }
    let r: Vec<Collection> = Vec::new();
    assert(r.deep_view() =~= Seq::empty());
    r
}

/// The number of items that the reply's `Total-Results` header gives.
pub open spec fn item_count_in(total_results: Option<&str>) -> nat {
    match total_results {
        Some(s) => match text::unsigned_value(s@, u32::MAX as nat) {
            Some(n) => n,
            None => 0,
        },
        None => 0,
    }
}

/// The number of a library's top-level items, going by the header of the reply
/// to the request for it, if there is one.
pub fn library_item_count(total_results: Option<&str>) -> (r: u32)
    ensures
        r as nat == item_count_in(total_results),
{
    match total_results {
        Some(s) => match text::read_unsigned(s, u32::MAX as u64) {
            Some(n) => n as u32,
            None => 0,
        },
        None => 0,
    }
}

/// The entry for all items of a library.
pub open spec fn all_items(library: LibraryView, total: u32) -> CollectionView {
    CollectionView {
        key: ALL_ITEMS@,
        name: "All items"@,
        num_items: total,
        library: library.path,
        library_name: library.name,
    }
}

/// What one library contributes to the list of collections: an entry for all its
/// items, if it has any, and its collections.
pub open spec fn library_entries(
    library: LibraryView,
    total: u32,
    collections: Seq<CollectionView>,
) -> Seq<CollectionView> {
    if total > 0 {
        seq![all_items(library, total)] + collections
    } else {
        collections
    }
}

/// Adds to the list of collections what one library contributes.
pub fn add_library(
    out: &mut Vec<Collection>,
    library: &Library,
    total: u32,
    collections: Vec<Collection>,
)
    ensures
        final(out).deep_view() == old(out).deep_view() + library_entries(
            library.deep_view(),
            total,
            collections.deep_view(),
        ),
{
    let ghost start = out.deep_view();
    let ghost added = collections.deep_view();
    if total > 0 {
        out.push(
            Collection {
                key: ALL_ITEMS.to_string(),
                name: "All items".to_string(),
                num_items: total,
                library: library.path.clone(),
                library_name: library.name.clone(),
            },
        );
        assert(out.deep_view() =~= start.push(all_items(library.deep_view(), total)));
    }
    let ghost middle = out.deep_view();
    let mut collections = collections;
    out.append(&mut collections);
    assert(out.deep_view() =~= middle + added);
    assert(out.deep_view() =~= start + library_entries(library.deep_view(), total, added));
}

/// What was learnt of one library.
#[derive(Debug, PartialEq, Eq)]
pub struct LibraryListing {
    pub library: Library,
    pub total: u32,
    pub collections: Vec<Collection>,
}

#[verifier::ext_equal]
pub struct LibraryListingView {
    pub library: LibraryView,
    pub total: u32,
    pub collections: Seq<CollectionView>,
}

impl DeepView for LibraryListing {
    type V = LibraryListingView;

    open spec fn deep_view(&self) -> LibraryListingView {
        LibraryListingView {
            library: self.library.deep_view(),
            total: self.total,
            collections: self.collections.deep_view(),
        }
    }
}

/// What the libraries contribute to the list of collections, one after another.
pub open spec fn all_entries(listings: Seq<LibraryListingView>) -> Seq<CollectionView>
    decreases listings.len(),
{
    if listings.len() == 0 {
        Seq::empty()
    } else {
        let last = listings.last();
        all_entries(listings.drop_last()) + library_entries(
            last.library,
            last.total,
            last.collections,
        )
    }
}

/// The collections of every library, to choose from.
pub fn list_collections(listings: Vec<LibraryListing>) -> (r: Vec<Collection>)
    ensures
        r.deep_view() == all_entries(listings.deep_view()),
{
    let ghost moved = listings@;
    let ghost all = listings.deep_view();
    let mut r: Vec<Collection> = Vec::new();
    assert(r.deep_view() =~= all_entries(all.take(0)));
    for listing in it: listings
        invariant
            it.seq() == moved,
            all == Seq::new(moved.len(), |i: int| moved[i].deep_view()),
            r.deep_view() == all_entries(all.take(it.index() as int)),
    {
        assert(all.take(it.index() + 1).drop_last() =~= all.take(it.index() as int));
        add_library(&mut r, &listing.library, listing.total, listing.collections);
    }
    assert(all.take(all.len() as int) =~= all);
    r
}

// ---- citations ------------------------------------------------------------

/// Do four digits begin `s`?
pub open spec fn year_first(s: Seq<char>) -> bool {
    s.len() >= 4 && text::all_digits(s.take(4))
}

/// The first four digits in a row in `s`.
pub open spec fn year_in(s: Seq<char>) -> Option<Seq<char>>
    decreases s.len(),
{
    if s.len() < 4 {
        None
    } else if year_first(s) {
        Some(s.take(4))
    } else {
        year_in(s.drop_first())
    }
}

/// The year in a free-form date: the first four digits in a row.
pub fn extract_year(date: &str) -> (r: Option<String>)
    ensures
        match r {
            Some(year) => year_in(date@) == Some(year@),
            None => year_in(date@) is None,
        },
{
    let chars = text::chars_of(date);
    let mut i: usize = 0;
    assert(chars@.skip(0) =~= date@);
    while chars.len() >= 4 && i <= chars.len() - 4
        invariant
            chars@ == date@,
            i <= chars@.len(),
            year_in(date@) == year_in(chars@.skip(i as int)),
        decreases chars@.len() - i,
    {
        let ghost rest = chars@.skip(i as int);
        let found = text::decimal_digit(chars[i]) && text::decimal_digit(chars[i + 1])
            && text::decimal_digit(chars[i + 2]) && text::decimal_digit(chars[i + 3]);
        proof {
            let four = rest.take(4);
            assert(four[0] == chars@[i as int]);
            assert(four[1] == chars@[i + 1]);
            assert(four[2] == chars@[i + 2]);
            assert(four[3] == chars@[i + 3]);
            assert(found == year_first(rest));
        }
        if found {
            assert(rest.take(4) =~= chars@.subrange(i as int, i + 4));
            return Some(text::text_between(&chars, i, i + 4));
        }
        assert(rest.drop_first() =~= chars@.skip(i + 1));
        i = i + 1;
    }
    None
}

/// The name of a creator: the last name, or else the name in one piece.
pub open spec fn creator_name(v: JsonView) -> Option<Seq<char>> {
    match v.text_member("lastName"@) {
        Some(last) => if last.len() > 0 {
            Some(last)
        } else {
            v.text_member("name"@)
        },
        None => v.text_member("name"@),
    }
}

/// The name of an item's first creator.
pub open spec fn first_creator(data: JsonView) -> Option<Seq<char>> {
    match data.list_member("creators"@) {
        Some(creators) => if creators.len() > 0 {
            creator_name(creators[0])
        } else {
            None
        },
        None => None,
    }
}

/// The year of an item.
pub open spec fn item_year(data: JsonView) -> Option<Seq<char>> {
    match data.text_member("date"@) {
        Some(date) => year_in(date),
        None => None,
    }
}

/// How an item is cited: its first creator and its year, or, where either is
/// missing, the first forty characters of its title.
pub open spec fn citation_of(data: JsonView) -> Seq<char> {
    match (first_creator(data), item_year(data)) {
        (Some(name), Some(year)) => name + " "@ + year,
        _ => text::clipped(data.text_member_or("title"@, "Untitled"@), 40),
    }
}

fn read_creator_name(v: &Json) -> (r: Option<String>)
    ensures
        r.deep_view() == creator_name(v@),
{
    match v.get_text("lastName") {
        Some(last) => if !last.as_str().is_empty() {
            return Some(last);
        },
        None => {},
    }
    v.get_text("name")
}

/// How an item is cited.
pub fn build_citation(data: &Json) -> (r: String)
    ensures
        r@ == citation_of(data@),
{
    let name: Option<String> = match data.get_list("creators") {
        Some(creators) => if creators.len() > 0 {
            assert(json::list_view(creators@)[0] == creators@[0]@);
            read_creator_name(&creators[0])
        } else {
            None
        },
        None => None,
    };
    let year: Option<String> = match data.get_text("date") {
        Some(date) => extract_year(date.as_str()),
        None => None,
    };
    match (name, year) {
        (Some(name), Some(year)) => {
            let mut r = name;
            r.append(" ");
            r.append(year.as_str());
            r
        },
        _ => {
            let title = data.get_text_or("title", "Untitled");
            text::clip(title.as_str(), 40)
        },
    }
}

// ---- papers ---------------------------------------------------------------

/// A paper whose PDF is still to be found.
#[derive(Debug, PartialEq, Eq)]
pub struct Candidate {
    pub item_key: String,
    pub citation: String,
}

#[verifier::ext_equal]
pub struct CandidateView {
    pub item_key: Seq<char>,
    pub citation: Seq<char>,
}

impl DeepView for Candidate {
    type V = CandidateView;

    open spec fn deep_view(&self) -> CandidateView {
        CandidateView { item_key: self.item_key@, citation: self.citation@ }
    }
}

/// The paper that an item is: it has a key, and it is neither an attachment nor
/// a note.
pub open spec fn candidate_in(item: JsonView) -> Option<CandidateView> {
    match item.member("data"@) {
        Some(data) => {
            let key = data.text_member_or("key"@, Seq::empty());
            let kind = data.text_member_or("itemType"@, Seq::empty());
            if key.len() == 0 || kind == "attachment"@ || kind == "note"@ {
                None
            } else {
                Some(CandidateView { item_key: key, citation: citation_of(data) })
            }
        },
        None => None,
    }
}

/// The papers among the items.
pub open spec fn candidates_among(items: Seq<JsonView>) -> Seq<CandidateView>
    decreases items.len(),
{
    if items.len() == 0 {
        Seq::empty()
    } else {
        let before = candidates_among(items.drop_last());
        match candidate_in(items.last()) {
            Some(candidate) => before.push(candidate),
            None => before,
        }
    }
}

fn candidate_of(item: &Json) -> (r: Option<Candidate>)
    ensures
        r.deep_view() == candidate_in(item@),
{
    let data = match item.get("data") {
        Some(data) => data,
        None => {
            return None;
        },
    };
    let item_key = data.get_text_or_empty("key");
    if item_key.as_str().is_empty() {
        return None;
    }
    let kind = data.get_text_or_empty("itemType");
    if text::same_text(kind.as_str(), "attachment") || text::same_text(kind.as_str(), "note") {
        return None;
    }
    Some(Candidate { item_key, citation: build_citation(data) })
}

/// The papers among the items.
pub fn candidates_of(items: &Vec<Json>) -> (r: Vec<Candidate>)
    ensures
        r.deep_view() == candidates_among(json::list_view(items@)),
{
    let ghost views = json::list_view(items@);
    let mut r: Vec<Candidate> = Vec::new();
    let mut i: usize = 0;
    assert(r.deep_view() =~= candidates_among(views.take(0)));
    while i < items.len()
        invariant
            i <= items@.len(),
            views == json::list_view(items@),
            r.deep_view() == candidates_among(views.take(i as int)),
        decreases items@.len() - i,
    {
        let ghost before = r.deep_view();
        assert(views.take(i + 1).drop_last() =~= views.take(i as int));
        assert(views[i as int] == items@[i as int]@);
        if let Some(candidate) = candidate_of(&items[i]) {
            r.push(candidate);
            assert(r.deep_view() =~= before.push(candidate.deep_view()));
        }
        i = i + 1;
    }
    assert(views.take(views.len() as int) =~= views);
    r
}

/// The papers of a collection, going by the reply to the request for its items,
/// or what the user is told instead.
pub open spec fn collection_items(reply: Option<&Reply>) -> Result<Seq<CandidateView>, Seq<char>> {
    match reply {
        None => Err("Zotero is not running."@),
        Some(reply) => if !is_success(reply.status) {
            Err("Could not load papers from this collection."@)
        } else {
            match reply.document() {
                None => Err("Could not parse Zotero items."@),
                Some(v) => match v.list() {
                    None => Err("Unexpected Zotero items response."@),
                    Some(items) => Ok(candidates_among(items)),
                },
            }
        },
    }
}

/// The papers of a collection, going by the reply to the request for its items.
pub fn collection_candidates(reply: Option<&Reply>) -> (r: Result<Vec<Candidate>, String>)
    ensures
        match r {
            Ok(candidates) => collection_items(reply) == Ok::<Seq<CandidateView>, Seq<char>>(
                candidates.deep_view(),
            ),
            Err(message) => collection_items(reply) == Err::<Seq<CandidateView>, Seq<char>>(
                message@,
            ),
        },
{
    let reply = match reply {
        Some(reply) => reply,
        None => {
            return Err("Zotero is not running.".to_string());
        },
    };
    if !reply.succeeded() {
        return Err("Could not load papers from this collection.".to_string());
    }
    let document = match reply.read() {
        Some(v) => v,
        None => {
            return Err("Could not parse Zotero items.".to_string());
        },
    };
    match document.as_list() {
        Some(items) => Ok(candidates_of(items)),
        None => Err("Unexpected Zotero items response.".to_string()),
    }
}

/// A paper with a PDF on disk.
#[derive(Debug, PartialEq, Eq)]
pub struct DocRef {
    pub path: String,
    pub zotero_key: String,
    pub citation: String,
}

#[verifier::ext_equal]
pub struct DocRefView {
    pub path: Seq<char>,
    pub zotero_key: Seq<char>,
    pub citation: Seq<char>,
}

impl DeepView for DocRef {
    type V = DocRefView;

    open spec fn deep_view(&self) -> DocRefView {
        DocRefView { path: self.path@, zotero_key: self.zotero_key@, citation: self.citation@ }
    }
}

impl Clone for DocRef {
    fn clone(&self) -> (r: Self)
        ensures
            r.deep_view() == self.deep_view(),
    {
        DocRef {
            path: self.path.clone(),
            zotero_key: self.zotero_key.clone(),
            citation: self.citation.clone(),
        }
    }
}

/// The papers of a collection: those with a PDF on disk, and the citations of
/// those without.
#[derive(Debug, PartialEq, Eq)]
pub struct CollectionDocs {
    pub docs: Vec<DocRef>,
    pub skipped: Vec<String>,
}

#[verifier::ext_equal]
pub struct CollectionDocsView {
    pub docs: Seq<DocRefView>,
    pub skipped: Seq<Seq<char>>,
}

impl DeepView for CollectionDocs {
    type V = CollectionDocsView;

    open spec fn deep_view(&self) -> CollectionDocsView {
        CollectionDocsView { docs: self.docs.deep_view(), skipped: self.skipped.deep_view() }
    }
}

/// A paper, and the path of its PDF if there is one on disk.
#[derive(Debug, PartialEq, Eq)]
pub struct Resolved {
    pub paper: Candidate,
    pub path: Option<String>,
}

#[verifier::ext_equal]
pub struct ResolvedView {
    pub paper: CandidateView,
    pub path: Option<Seq<char>>,
}

impl DeepView for Resolved {
    type V = ResolvedView;

    open spec fn deep_view(&self) -> ResolvedView {
        ResolvedView { paper: self.paper.deep_view(), path: self.path.deep_view() }
    }
}

/// The papers with a PDF, in order.
pub open spec fn docs_among(papers: Seq<ResolvedView>) -> Seq<DocRefView>
    decreases papers.len(),
{
    if papers.len() == 0 {
        Seq::empty()
    } else {
        let before = docs_among(papers.drop_last());
        match papers.last().path {
            Some(path) => before.push(
                DocRefView {
                    path,
                    zotero_key: papers.last().paper.item_key,
                    citation: papers.last().paper.citation,
                },
            ),
            None => before,
        }
    }
}

/// The citations of the papers without a PDF, in order.
pub open spec fn skipped_among(papers: Seq<ResolvedView>) -> Seq<Seq<char>>
    decreases papers.len(),
{
    if papers.len() == 0 {
        Seq::empty()
    } else {
        let before = skipped_among(papers.drop_last());
        match papers.last().path {
            Some(_) => before,
            None => before.push(papers.last().paper.citation),
        }
    }
}

/// Parts the papers of a collection by whether they have a PDF.
pub fn collection_docs(papers: Vec<Resolved>) -> (r: CollectionDocs)
    ensures
        r.docs.deep_view() == docs_among(papers.deep_view()),
        r.skipped.deep_view() == skipped_among(papers.deep_view()),
{
    let ghost all = papers.deep_view();
    let mut docs: Vec<DocRef> = Vec::new();
    let mut skipped: Vec<String> = Vec::new();
    assert(docs.deep_view() =~= docs_among(all.take(0)));
    assert(skipped.deep_view() =~= skipped_among(all.take(0)));
    let ghost moved = papers@;
    for paper in it: papers
        invariant
            it.seq() == moved,
            all == Seq::new(moved.len(), |i: int| moved[i].deep_view()),
            docs.deep_view() == docs_among(all.take(it.index() as int)),
            skipped.deep_view() == skipped_among(all.take(it.index() as int)),
    {
        let ghost n = it.index() as int;
        let ghost docs_before = docs.deep_view();
        let ghost skipped_before = skipped.deep_view();
        assert(all.take(n + 1).drop_last() =~= all.take(n));
        assert(all.take(n + 1).last() == paper.deep_view());
        match paper.path {
            Some(path) => {
                docs.push(
                    DocRef {
                        path,
                        zotero_key: paper.paper.item_key,
                        citation: paper.paper.citation,
                    },
                );
                assert(docs.deep_view() =~= docs_among(all.take(n + 1)));
            },
            None => {
                skipped.push(paper.paper.citation);
                assert(skipped.deep_view() =~= skipped_among(all.take(n + 1)));
            },
        }
    }
    assert(all.take(all.len() as int) =~= all);
    CollectionDocs { docs, skipped }
}

// ---- PDFs -----------------------------------------------------------------

/// What an attachment says of a PDF.
#[verifier::ext_equal]
pub enum AttachmentView {
    /// It is no PDF that can be on disk, or lacks what tells where it is.
    Other,
    /// The PDF is at this path, if it is on disk.
    Pdf(Seq<char>),
}

/// What an attachment says of a PDF.
pub open spec fn attachment_in(child: JsonView, data_dir: Seq<char>) -> AttachmentView {
    match child.member("data"@) {
        None => AttachmentView::Other,
        Some(data) => {
            let mode = data.text_member_or("linkMode"@, Seq::empty());
            if data.text_member_or("contentType"@, Seq::empty()) != "application/pdf"@ {
                AttachmentView::Other
            } else if mode == "linked_file"@ {
                match data.text_member("path"@) {
                    Some(path) => AttachmentView::Pdf(path),
                    None => AttachmentView::Other,
                }
            } else if mode == "imported_file"@ || mode == "imported_url"@ {
                match (data.text_member("key"@), data.text_member("filename"@)) {
                    (Some(key), Some(name)) => AttachmentView::Pdf(
                        data_dir + "/storage/"@ + key + "/"@ + name,
                    ),
                    _ => AttachmentView::Other,
                }
            } else {
                AttachmentView::Other
            }
        },
    }
}

/// The paths that a paper's PDF can be at, the first one on disk being it.
pub open spec fn pdf_paths_among(children: Seq<JsonView>, data_dir: Seq<char>) -> Seq<Seq<char>>
    decreases children.len(),
{
    if children.len() == 0 {
        Seq::empty()
    } else {
        match attachment_in(children.first(), data_dir) {
            AttachmentView::Other => pdf_paths_among(children.drop_first(), data_dir),
            AttachmentView::Pdf(path) => seq![path] + pdf_paths_among(
                children.drop_first(),
                data_dir,
            ),
        }
    }
}

/// What an attachment says of a PDF.
pub enum Attachment {
    Other,
    Pdf(String),
}

impl DeepView for Attachment {
    type V = AttachmentView;

    open spec fn deep_view(&self) -> AttachmentView {
        match *self {
            Attachment::Other => AttachmentView::Other,
            Attachment::Pdf(path) => AttachmentView::Pdf(path@),
        }
    }
}

fn attachment_of(child: &Json, data_dir: &str) -> (r: Attachment)
    ensures
        r.deep_view() == attachment_in(child@, data_dir@),
{
    let data = match child.get("data") {
        Some(data) => data,
        None => {
            return Attachment::Other;
        },
    };
    let content_type = data.get_text_or_empty("contentType");
    if !text::same_text(content_type.as_str(), "application/pdf") {
        return Attachment::Other;
    }
    let mode = data.get_text_or_empty("linkMode");
    let mode = mode.as_str();
    if text::same_text(mode, "linked_file") {
        match data.get_text("path") {
            Some(path) => Attachment::Pdf(path),
            None => Attachment::Other,
        }
    } else if text::same_text(mode, "imported_file") || text::same_text(mode, "imported_url") {
        match (data.get_text("key"), data.get_text("filename")) {
            (Some(key), Some(name)) => {
                let mut path = data_dir.to_string();
                path.append("/storage/");
                path.append(key.as_str());
                path.append("/");
                path.append(name.as_str());
                Attachment::Pdf(path)
            },
            _ => Attachment::Other,
        }
    } else {
        Attachment::Other
    }
}

/// The paths that a paper's PDF can be at.
pub fn pdf_paths_of(children: &Vec<Json>, data_dir: &str) -> (r: Vec<String>)
    ensures
        r.deep_view() == pdf_paths_among(json::list_view(children@), data_dir@),
{
    let ghost views = json::list_view(children@);
    let ghost wanted = pdf_paths_among(views, data_dir@);
    let mut r: Vec<String> = Vec::new();
    let mut i: usize = 0;
    assert(views.skip(0) =~= views);
    assert(r.deep_view() + wanted =~= wanted);
    while i < children.len()
        invariant
            i <= children@.len(),
            views == json::list_view(children@),
            wanted == r.deep_view() + pdf_paths_among(views.skip(i as int), data_dir@),
            wanted == pdf_paths_among(views, data_dir@),
        decreases children@.len() - i,
    {
        let ghost before = r.deep_view();
        let ghost rest = views.skip(i as int);
        assert(views[i as int] == children@[i as int]@);
        assert(rest.drop_first() =~= views.skip(i + 1));
        match attachment_of(&children[i], data_dir) {
            Attachment::Other => {},
            Attachment::Pdf(path) => {
                r.push(path);
                assert(r.deep_view() =~= before.push(path@));
                assert(before + (seq![path@] + pdf_paths_among(views.skip(i + 1), data_dir@))
                    =~= r.deep_view() + pdf_paths_among(views.skip(i + 1), data_dir@));
            },
        }
        i = i + 1;
    }
    assert(r.deep_view() + Seq::empty() =~= r.deep_view());
    r
}

/// The paths that a paper's PDF can be at, going by the reply to the request for
/// its attachments.
pub open spec fn pdf_paths_replied(reply: Option<&Reply>, data_dir: Seq<char>) -> Seq<Seq<char>> {
    match listed(reply) {
        Some(children) => pdf_paths_among(children, data_dir),
        None => Seq::empty(),
    }
}

/// The paths that a paper's PDF can be at, the first one on disk being it, going
/// by the reply to the request for its attachments.
pub fn pdf_paths(reply: Option<&Reply>, data_dir: &str) -> (r: Vec<String>)
    ensures
        r.deep_view() == pdf_paths_replied(reply, data_dir@),
{
    if let Some(reply) = reply {
        if reply.succeeded() {
            if let Some(v) = reply.read() {
                if let Some(children) = v.as_list() {
                    return pdf_paths_of(children, data_dir);
                }
            }
        }
    }
    let r: Vec<String> = Vec::new();
    assert(r.deep_view() =~= Seq::empty());
    r
}

/// The first of the paths that is on disk.
pub open spec fn path_on_disk(paths: Seq<Seq<char>>, on_disk: Seq<bool>) -> Option<Seq<char>> {
    match lookup::first_found(on_disk) {
        Some(i) => if i < paths.len() {
            Some(paths[i])
        } else {
            None
        },
        None => None,
    }
}

/// The path of a paper's PDF: the first of the paths that is on disk.
pub fn resolve_pdf_path(paths: &Vec<String>, on_disk: &Vec<bool>) -> (r: Option<String>)
    ensures
        r.deep_view() == path_on_disk(paths.deep_view(), on_disk@),
{
    proof {
        lookup::law_first_found(on_disk@);
    }
    match lookup::find_first(on_disk) {
        Some(i) => if i < paths.len() {
            Some(paths[i].clone())
        } else {
            None
        },
        None => None,
    }
}

// ---- laws -----------------------------------------------------------------

/// No paper of a collection is lost: each either has a PDF or is among those
/// skipped.
pub proof fn law_every_paper_is_accounted_for(papers: Seq<ResolvedView>)
    ensures
        docs_among(papers).len() + skipped_among(papers).len() == papers.len(),
        forall|i: int|
            #![trigger papers[i]]
            0 <= i < papers.len() ==> match papers[i].path {
                Some(path) => docs_among(papers).contains(
                    DocRefView {
                        path,
                        zotero_key: papers[i].paper.item_key,
                        citation: papers[i].paper.citation,
                    },
                ),
                None => skipped_among(papers).contains(papers[i].paper.citation),
            },
    decreases papers.len(),
{
    if papers.len() > 0 {
        let fewer = papers.drop_last();
        law_every_paper_is_accounted_for(fewer);
        assert forall|i: int| #![trigger papers[i]] 0 <= i < papers.len() implies (
        match papers[i].path {
            Some(path) => docs_among(papers).contains(
                DocRefView {
                    path,
                    zotero_key: papers[i].paper.item_key,
                    citation: papers[i].paper.citation,
                },
            ),
            None => skipped_among(papers).contains(papers[i].paper.citation),
        }) by {
            if i < fewer.len() {
                assert(fewer[i] == papers[i]);
                match papers[i].path {
                    Some(path) => {
                        let doc = DocRefView {
                            path,
                            zotero_key: papers[i].paper.item_key,
                            citation: papers[i].paper.citation,
                        };
                        let k = choose|k: int|
                            0 <= k < docs_among(fewer).len() && docs_among(fewer)[k] == doc;
                        assert(docs_among(papers)[k] == doc);
                    },
                    None => {
                        let citation = papers[i].paper.citation;
                        let k = choose|k: int|
                            0 <= k < skipped_among(fewer).len() && skipped_among(fewer)[k]
                                == citation;
                        assert(skipped_among(papers)[k] == citation);
                    },
                }
            } else {
                match papers[i].path {
                    Some(path) => {
                        let n = docs_among(papers).len() - 1;
                        assert(docs_among(papers)[n] == docs_among(papers).last());
                    },
                    None => {
                        let n = skipped_among(papers).len() - 1;
                        assert(skipped_among(papers)[n] == skipped_among(papers).last());
                    },
                }
            }
        }
    }
}

/// A year taken from a date is the leftmost four digits in a row in it, and there is
/// none only if no four digits stand in a row.
pub proof fn law_year_is_in_the_date(date: Seq<char>)
    ensures
        match year_in(date) {
            Some(year) => exists|i: int|
                {
                    &&& 0 <= i <= date.len() - 4
                    &&& year == #[trigger] date.subrange(i, i + 4)
                    &&& text::all_digits(year)
                    &&& no_year_before(date, i)
                },
            None => no_year_before(date, date.len() - 3),
        },
    decreases date.len(),
{
    if date.len() >= 4 {
        assert(date.take(4) =~= date.subrange(0int, 0int + 4));
        if !year_first(date) {
            let rest = date.drop_first();
            law_year_is_in_the_date(rest);
            match year_in(rest) {
                Some(year) => {
                    let i = choose|i: int|
                        {
                            &&& 0 <= i <= rest.len() - 4
                            &&& year == #[trigger] rest.subrange(i, i + 4)
                            &&& text::all_digits(year)
                            &&& no_year_before(rest, i)
                        };
                    let j = i + 1;
                    assert(date.subrange(j, j + 4) =~= rest.subrange(i, i + 4));
                    lemma_no_year_before(date, i);
                },
                None => {
                    lemma_no_year_before(date, rest.len() - 3);
                },
            }
        }
    }
}

/// No four digits in a row begin before position `to` of a date.
pub open spec fn no_year_before(date: Seq<char>, to: int) -> bool {
    forall|j: int| 0 <= j < to ==> !text::all_digits(#[trigger] date.subrange(j, j + 4))
}

proof fn lemma_no_year_before(date: Seq<char>, to: int)
    requires
        date.len() >= 4,
        !year_first(date),
        to <= date.len() - 4,
        no_year_before(date.drop_first(), to),
    ensures
        no_year_before(date, to + 1),
{
    let rest = date.drop_first();
    assert forall|j: int| 0 <= j < to + 1 implies !text::all_digits(
        #[trigger] date.subrange(j, j + 4),
    ) by {
        if j == 0 {
            assert(date.subrange(0, 4) =~= date.take(4));
        } else {
            let k = j - 1;
            assert(date.subrange(j, j + 4) =~= rest.subrange(k, k + 4));
        }
    }
}

/// A library as Zotero names it: the user's own, or a group's.
pub open spec fn is_library(library: Seq<char>) -> bool {
    ||| library == "users/0"@
    ||| is_group(library)
}

/// A group's library, by the digits of the group's number.
pub open spec fn is_group(library: Seq<char>) -> bool {
    exists|id: Seq<char>|
        #![trigger text::all_digits(id)]
        id.len() > 0 && text::all_digits(id) && library == "groups/"@ + id
}

/// The digits by which a group's library is named.
pub open spec fn group_id(library: Seq<char>) -> Seq<char> {
    library.skip("groups/"@.len() as int)
}

/// The name of a group's library is its segment and its digits.
pub proof fn lemma_group_id(library: Seq<char>)
    requires
        is_group(library),
    ensures
        library == "groups/"@ + group_id(library),
        group_id(library).len() > 0,
        text::all_digits(group_id(library)),
{
    let id = choose|id: Seq<char>|
        #![trigger text::all_digits(id)]
        id.len() > 0 && text::all_digits(id) && library == "groups/"@ + id;
    assert(group_id(library) =~= id);
}

/// Every library that is listed is the user's own or a group's.
pub proof fn law_libraries_are_named(document: Option<JsonView>)
    ensures
        forall|i: int|
            0 <= i < libraries_in(document).len() ==> is_library(
                (#[trigger] libraries_in(document)[i]).path,
            ),
        libraries_in(document).len() > 0,
        libraries_in(document)[0] == my_library(),
{
    if let Some(v) = document {
        if let Some(items) = v.list() {
            lemma_groups_are_named(items);
        }
    }
}

proof fn lemma_group_is_named(item: JsonView)
    ensures
        group_in(item) matches Some(group) ==> is_group(group.path),
{
    if let Some(group) = group_in(item) {
        if let Some(n) = item.member("id"@)->0.unsigned() {
            text::lemma_decimal_digits(n as nat);
        }
    }
}

proof fn lemma_groups_are_named(items: Seq<JsonView>)
    ensures
        forall|i: int|
            0 <= i < groups_in(items).len() ==> is_group((#[trigger] groups_in(items)[i]).path),
    decreases items.len(),
{
    if items.len() > 0 {
        lemma_groups_are_named(items.drop_last());
        let before = groups_in(items.drop_last());
        if let Some(group) = group_in(items.last()) {
            lemma_group_is_named(items.last());
            assert forall|i: int| 0 <= i < groups_in(items).len() implies is_group(
                (#[trigger] groups_in(items)[i]).path,
            ) by {
                if i < before.len() {
                    assert(groups_in(items)[i] == before[i]);
                }
            }
        }
    }
}

/// Every collection of a library has a key, and belongs to the library.
pub proof fn law_collections_belong_to_their_library(items: Seq<JsonView>, library: LibraryView)
    ensures
        forall|i: int|
            0 <= i < collections_among(items, library).len() ==> {
                let c = #[trigger] collections_among(items, library)[i];
                &&& c.key.len() > 0
                &&& c.library == library.path
                &&& c.library_name == library.name
            },
    decreases items.len(),
{
    if items.len() > 0 {
        law_collections_belong_to_their_library(items.drop_last(), library);
        let before = collections_among(items.drop_last(), library);
        assert forall|i: int| 0 <= i < collections_among(items, library).len() implies {
            let c = #[trigger] collections_among(items, library)[i];
            &&& c.key.len() > 0
            &&& c.library == library.path
            &&& c.library_name == library.name
        } by {
            if i < before.len() {
                assert(collections_among(items, library)[i] == before[i]);
            }
        }
    }
}

/// The PDF of a paper is on disk, and it is the first of those that are; there is none
/// only if none of them is.
pub proof fn law_pdf_is_on_disk(paths: Seq<Seq<char>>, on_disk: Seq<bool>)
    requires
        paths.len() == on_disk.len(),
    ensures
        match path_on_disk(paths, on_disk) {
            Some(path) => exists|i: int|
                0 <= i < paths.len() && #[trigger] on_disk[i] && paths[i] == path && forall|j: int|
                    0 <= j < i ==> !on_disk[j],
            None => forall|j: int| 0 <= j < paths.len() ==> !#[trigger] on_disk[j],
        },
{
    lookup::law_first_found(on_disk);
}

/// The path of an imported PDF: Zotero's folder, then "/storage/", the attachment's key, a
/// slash, and the name of the file, each of them character for character, whatever they are.
pub proof fn law_imported_pdf_is_in_storage(
    child: JsonView,
    data: JsonView,
    mode: Seq<char>,
    key: Seq<char>,
    name: Seq<char>,
    data_dir: Seq<char>,
)
    requires
        child.member("data"@) == Some(data),
        data.member("contentType"@) == Some(JsonView::Text("application/pdf"@)),
        data.member("linkMode"@) == Some(JsonView::Text(mode)),
        mode == "imported_file"@ || mode == "imported_url"@,
        data.member("key"@) == Some(JsonView::Text(key)),
        data.member("filename"@) == Some(JsonView::Text(name)),
    ensures
        attachment_in(child, data_dir) matches AttachmentView::Pdf(path) && {
            &&& path == data_dir + "/storage/"@ + key + "/"@ + name
            &&& data_dir.is_prefix_of(path)
            &&& name.is_suffix_of(path)
            &&& path.len() == data_dir.len() + 9 + key.len() + 1 + name.len()
        },
{
    reveal_strlit("linked_file");
    reveal_strlit("imported_file");
    reveal_strlit("imported_url");
    reveal_strlit("/storage/");
    reveal_strlit("/");
    assert("linked_file"@[0] != "imported_file"@[0]);
    assert("linked_file"@[0] != "imported_url"@[0]);
    let path = data_dir + "/storage/"@ + key + "/"@ + name;
    assert(path.subrange(0, data_dir.len() as int) =~= data_dir);
    assert(path.subrange(path.len() - name.len(), path.len() as int) =~= name);
}

/// The path of a linked PDF is the one that the attachment gives, character for character.
pub proof fn law_linked_pdf_is_where_it_says(
    child: JsonView,
    data: JsonView,
    path: Seq<char>,
    data_dir: Seq<char>,
)
    requires
        child.member("data"@) == Some(data),
        data.member("contentType"@) == Some(JsonView::Text("application/pdf"@)),
        data.member("linkMode"@) == Some(JsonView::Text("linked_file"@)),
        data.member("path"@) == Some(JsonView::Text(path)),
    ensures
        attachment_in(child, data_dir) == AttachmentView::Pdf(path),
{
}

/// What is no PDF has no path, nor has one that is neither imported nor linked.
pub proof fn law_other_attachments_have_no_path(
    child: JsonView,
    data: JsonView,
    kind: Seq<char>,
    mode: Seq<char>,
    data_dir: Seq<char>,
)
    requires
        child.member("data"@) == Some(data),
        data.member("contentType"@) == Some(JsonView::Text(kind)),
        data.member("linkMode"@) == Some(JsonView::Text(mode)),
        kind != "application/pdf"@ || (mode != "linked_file"@ && mode != "imported_file"@ && mode
            != "imported_url"@),
    ensures
        attachment_in(child, data_dir) == AttachmentView::Other,
{
}

/// Every PDF among the attachments counts, in order, and nothing else does.
pub proof fn law_every_pdf_is_looked_for(
    child: JsonView,
    rest: Seq<JsonView>,
    data_dir: Seq<char>,
)
    ensures
        pdf_paths_among(Seq::empty(), data_dir) == Seq::<Seq<char>>::empty(),
        pdf_paths_among(seq![child] + rest, data_dir) == match attachment_in(child, data_dir) {
            AttachmentView::Pdf(path) => seq![path] + pdf_paths_among(rest, data_dir),
            AttachmentView::Other => pdf_paths_among(rest, data_dir),
        },
{
    assert((seq![child] + rest).drop_first() =~= rest);
}

/// A reply of success that is a list is read as that list, and any other as nothing.
pub proof fn law_only_a_list_of_success_is_read(reply: &Reply, items: Seq<JsonView>)
    ensures
        200 <= reply.status <= 299 && reply.document() == Some(JsonView::List(items)) ==> listed(
            Some(reply),
        ) == Some(items),
        reply.status < 200 || reply.status >= 300 ==> listed(Some(reply)) is None,
        reply.document() is None ==> listed(Some(reply)) is None,
        listed(None) is None,
{
}

/// So the paths of a paper's PDF, and the collections of a library, are those that the
/// reply lists.
pub proof fn law_replies_are_followed(
    reply: &Reply,
    items: Seq<JsonView>,
    data_dir: Seq<char>,
    library: LibraryView,
)
    requires
        200 <= reply.status <= 299,
        reply.document() == Some(JsonView::List(items)),
    ensures
        pdf_paths_replied(Some(reply), data_dir) == pdf_paths_among(items, data_dir),
        collections_replied(Some(reply), library) == collections_among(items, library),
        collection_items(Some(reply)) == Ok::<Seq<CandidateView>, Seq<char>>(
            candidates_among(items),
        ),
{
}

/// A group is listed by its number and its name.
pub proof fn law_a_group_is_listed(item: JsonView, data: JsonView, n: u64, name: Seq<char>)
    requires
        item.member("id"@) matches Some(id) && id.unsigned() == Some(n),
        item.member("data"@) == Some(data),
        data.member("name"@) == Some(JsonView::Text(name)),
    ensures
        group_in(item) == Some(LibraryView { path: "groups/"@ + text::decimal(n as nat), name }),
{
}

/// Every group among the described ones is listed, in order, and nothing else is.
pub proof fn law_every_group_is_listed(items: Seq<JsonView>, item: JsonView)
    ensures
        groups_in(Seq::empty()) == Seq::<LibraryView>::empty(),
        groups_in(items.push(item)) == match group_in(item) {
            Some(group) => groups_in(items).push(group),
            None => groups_in(items),
        },
        libraries_in(Some(JsonView::List(items))) == seq![
            LibraryView { path: "users/0"@, name: "My Library"@ },
        ] + groups_in(items),
{
    assert(items.push(item).drop_last() =~= items);
}

/// A collection is listed by its key, with its own name and the number of its items.
pub proof fn law_a_collection_is_listed(
    item: JsonView,
    data: JsonView,
    meta: JsonView,
    key: Seq<char>,
    name: Seq<char>,
    n: u32,
    library: LibraryView,
)
    requires
        item.member("key"@) == Some(JsonView::Text(key)),
        key.len() > 0,
        item.member("data"@) == Some(data),
        data.member("name"@) == Some(JsonView::Text(name)),
        item.member("meta"@) == Some(meta),
        meta.member("numItems"@) matches Some(count) && count.unsigned() == Some(n as u64),
    ensures
        collection_in(item, library) == Some(
            CollectionView {
                key,
                name,
                num_items: n,
                library: library.path,
                library_name: library.name,
            },
        ),
{
}

/// Every collection among the described ones is listed, in order: one is left out only for
/// want of a key.
pub proof fn law_every_collection_is_listed(
    items: Seq<JsonView>,
    item: JsonView,
    library: LibraryView,
)
    ensures
        collections_among(Seq::empty(), library) == Seq::<CollectionView>::empty(),
        collections_among(items.push(item), library) == match collection_in(item, library) {
            Some(collection) => collections_among(items, library).push(collection),
            None => collections_among(items, library),
        },
        collection_in(item, library) is None <==> item.text_member_or(
            "key"@,
            Seq::empty(),
        ).len() == 0,
{
    assert(items.push(item).drop_last() =~= items);
}

/// The list to choose from has, library by library, an entry for all items of a library
/// that has any, and then its collections as they are.
pub proof fn law_every_library_is_listed(
    listings: Seq<LibraryListingView>,
    library: LibraryView,
    total: u32,
    collections: Seq<CollectionView>,
)
    ensures
        all_entries(Seq::empty()) == Seq::<CollectionView>::empty(),
        ({
            let next = LibraryListingView { library, total, collections };
            let whole = CollectionView {
                key: "__all__"@,
                name: "All items"@,
                num_items: total,
                library: library.path,
                library_name: library.name,
            };
            all_entries(listings.push(next)) == all_entries(listings) + (if total > 0 {
                seq![whole] + collections
            } else {
                collections
            })
        }),
{
    let next = LibraryListingView { library, total, collections };
    assert(listings.push(next).drop_last() =~= listings);
}

/// The number of a library's items is the one that the reply is headed with.
pub proof fn law_the_number_of_items_is_read(header: &str, n: u32)
    requires
        header@ == text::decimal(n as nat),
    ensures
        item_count_in(Some(header)) == n,
        item_count_in(None) == 0,
{
    text::law_decimal_reads_back(n as nat);
    assert(text::unsigned_value(text::decimal(n as nat), u32::MAX as nat) == Some(n as nat));
}

/// A paper is cited by its first creator's last name and its year, both as they are.
pub proof fn law_citation_names_the_creator(
    data: JsonView,
    creators: Seq<JsonView>,
    name: Seq<char>,
    date: Seq<char>,
    year: Seq<char>,
)
    requires
        data.member("creators"@) == Some(JsonView::List(creators)),
        creators.len() > 0,
        creators[0].member("lastName"@) == Some(JsonView::Text(name)) && name.len() > 0 || (
        creators[0].member("lastName"@) is None && creators[0].member("name"@) == Some(
            JsonView::Text(name),
        )),
        data.member("date"@) == Some(JsonView::Text(date)),
        year_in(date) == Some(year),
    ensures
        citation_of(data) == name + " "@ + year,
{
}

/// Without a creator or without a year a paper is cited by its title: all of it, or the
/// first forty characters where it is longer.
pub proof fn law_citation_falls_back_to_the_title(data: JsonView, title: Seq<char>)
    requires
        data.member("creators"@) is None || data.member("date"@) is None || data.member(
            "creators"@,
        ) == Some(JsonView::List(Seq::empty())),
        data.member("title"@) == Some(JsonView::Text(title)),
    ensures
        title.len() <= 40 ==> citation_of(data) == title,
        title.len() > 40 ==> citation_of(data) == title.take(40),
{
}

/// Every item with a key is a paper, under that key and with its citation, unless it is an
/// attachment or a note.
pub proof fn law_an_item_is_a_paper(
    item: JsonView,
    data: JsonView,
    key: Seq<char>,
    kind: Seq<char>,
)
    requires
        item.member("data"@) == Some(data),
        data.member("key"@) == Some(JsonView::Text(key)),
        key.len() > 0,
        data.member("itemType"@) == Some(JsonView::Text(kind)),
    ensures
        kind != "attachment"@ && kind != "note"@ ==> candidate_in(item) == Some(
            CandidateView { item_key: key, citation: citation_of(data) },
        ),
        kind == "attachment"@ || kind == "note"@ ==> candidate_in(item) is None,
{
}

/// Every paper among the items is taken, in order, and nothing else is.
pub proof fn law_every_paper_is_taken(items: Seq<JsonView>, item: JsonView)
    ensures
        candidates_among(Seq::empty()) == Seq::<CandidateView>::empty(),
        candidates_among(items.push(item)) == match candidate_in(item) {
            Some(candidate) => candidates_among(items).push(candidate),
            None => candidates_among(items),
        },
{
    assert(items.push(item).drop_last() =~= items);
}

/// Papers stay in the order in which the collection has them, with or without a PDF.
pub proof fn law_papers_stay_in_order(papers: Seq<ResolvedView>, paper: ResolvedView)
    ensures
        match paper.path {
            Some(path) => {
                &&& docs_among(papers.push(paper)) == docs_among(papers).push(
                    DocRefView {
                        path,
                        zotero_key: paper.paper.item_key,
                        citation: paper.paper.citation,
                    },
                )
                &&& skipped_among(papers.push(paper)) == skipped_among(papers)
            },
            None => {
                &&& docs_among(papers.push(paper)) == docs_among(papers)
                &&& skipped_among(papers.push(paper)) == skipped_among(papers).push(
                    paper.paper.citation,
                )
            },
        },
{
    assert(papers.push(paper).drop_last() =~= papers);
}

/// The items that are asked for are those of the library and the collection that were
/// chosen, by the names that Zotero has for them.
pub proof fn law_the_chosen_collection_is_asked_for(library: Seq<char>, key: Seq<char>)
    ensures
        base_url(library) == "http://localhost:23119/api"@ + "/"@ + library,
        key == "__all__"@ ==> items_url_of(library, key) == base_url(library) + "/items/top"@,
        key != "__all__"@ ==> items_url_of(library, key) == base_url(library) + "/collections/"@
            + key + "/items/top"@,
{
}

/// An attachment that lacks what tells where its PDF is has no path: it is passed over.
pub proof fn law_a_broken_attachment_is_passed_over(
    child: JsonView,
    data: JsonView,
    data_dir: Seq<char>,
)
    ensures
        child.member("data"@) is None ==> attachment_in(child, data_dir) == AttachmentView::Other,
        child.member("data"@) == Some(data) && data.text_member("contentType"@) is None
            ==> attachment_in(child, data_dir) == AttachmentView::Other,
        child.member("data"@) == Some(data) && data.text_member("linkMode"@) is None
            ==> attachment_in(child, data_dir) == AttachmentView::Other,
        child.member("data"@) == Some(data) && data.text_member("linkMode"@) != Some(
            "linked_file"@,
        ) && (data.text_member("key"@) is None || data.text_member("filename"@) is None)
            ==> attachment_in(child, data_dir) == AttachmentView::Other,
        child.member("data"@) == Some(data) && data.text_member("linkMode"@) == Some(
            "linked_file"@,
        ) && data.text_member("path"@) is None ==> attachment_in(child, data_dir)
            == AttachmentView::Other,
{
    reveal_strlit("linked_file");
    reveal_strlit("imported_file");
    reveal_strlit("imported_url");
    reveal_strlit("application/pdf");
    assert("linked_file"@.len() == 11);
    assert("imported_file"@.len() == 13);
    assert("imported_url"@.len() == 12);
    assert("application/pdf"@.len() == 15);
}

/// What the description of a collection lacks is told as such: no name, and no items.
pub proof fn law_a_bare_collection(item: JsonView, key: Seq<char>, library: LibraryView)
    requires
        item.member("key"@) == Some(JsonView::Text(key)),
        key.len() > 0,
    ensures
        collection_in(item, library) matches Some(c) && {
            &&& c.key == key
            &&& c.library == library.path
            &&& c.library_name == library.name
            &&& item.member("data"@) is None ==> c.name == "(untitled)"@
            &&& (item.member("data"@) matches Some(data) && data.text_member("name"@) is None)
                ==> c.name == "(untitled)"@
            &&& item.member("meta"@) is None ==> c.num_items == 0
        },
{
}

/// An item without a kind is a paper as long as it has a key; one without a key is none.
pub proof fn law_an_item_needs_a_key(item: JsonView, data: JsonView, key: Seq<char>)
    ensures
        item.member("data"@) is None ==> candidate_in(item) is None,
        item.member("data"@) == Some(data) && data.text_member("key"@) is None ==> candidate_in(
            item,
        ) is None,
        item.member("data"@) == Some(data) && data.member("key"@) == Some(JsonView::Text(key))
            && key.len() > 0 && data.text_member("itemType"@) is None ==> candidate_in(item)
            == Some(CandidateView { item_key: key, citation: citation_of(data) }),
{
    reveal_strlit("attachment");
    reveal_strlit("note");
    assert("attachment"@.len() == 10);
    assert("note"@.len() == 4);
}

/// Where the creator has only a name in one piece, a paper is cited by that; where there is
/// neither name nor year, by the title; and without that as untitled.
pub proof fn law_citations_make_do(
    data: JsonView,
    creators: Seq<JsonView>,
    name: Seq<char>,
    date: Seq<char>,
    year: Seq<char>,
    title: Seq<char>,
)
    requires
        data.member("creators"@) == Some(JsonView::List(creators)),
        creators.len() > 0,
        data.member("date"@) == Some(JsonView::Text(date)),
    ensures
        creators[0].member("lastName"@) == Some(JsonView::Text(Seq::empty()))
            && creators[0].member("name"@) == Some(JsonView::Text(name)) && year_in(date) == Some(
            year,
        ) ==> citation_of(data) == name + " "@ + year,
        creators[0].text_member("lastName"@) is None && creators[0].text_member("name"@) is None
            && data.member("title"@) == Some(JsonView::Text(title)) && title.len() <= 40
            ==> citation_of(data) == title,
        year_in(date) is None && data.member("title"@) == Some(JsonView::Text(title))
            && title.len() <= 40 ==> citation_of(data) == title,
        year_in(date) is None && data.member("title"@) == Some(JsonView::Text(title))
            && title.len() > 40 ==> citation_of(data) == title.take(40),
        year_in(date) is None && data.text_member("title"@) is None ==> citation_of(data)
            == "Untitled"@,
{
    reveal_strlit("Untitled");
    assert("Untitled"@.len() == 8);
}

/// What keeps the papers of a collection from being read is told as what it is.
pub proof fn law_unread_papers_are_explained(reply: &Reply)
    ensures
        collection_items(None) == Err::<Seq<CandidateView>, Seq<char>>("Zotero is not running."@),
        reply.status < 200 || reply.status >= 300 ==> collection_items(Some(reply)) == Err::<
            Seq<CandidateView>,
            Seq<char>,
        >("Could not load papers from this collection."@),
        200 <= reply.status < 300 && reply.document() is None ==> collection_items(Some(reply))
            == Err::<Seq<CandidateView>, Seq<char>>("Could not parse Zotero items."@),
        200 <= reply.status < 300 && (reply.document() matches Some(v) && v.list() is None)
            ==> collection_items(Some(reply)) == Err::<Seq<CandidateView>, Seq<char>>(
            "Unexpected Zotero items response."@,
        ),
{
}

} // verus!
