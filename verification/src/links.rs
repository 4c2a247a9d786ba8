//! What the app opens, and what it refuses to open.

use crate::paths;
use crate::text;
use vstd::prelude::*;

verus! {

/// The address that has Zotero select an item. An item of a group is found only
/// under the group.
pub open spec fn select_uri(library: Seq<char>, item_key: Seq<char>) -> Seq<char> {
    if "groups/"@.is_prefix_of(library) {
        "zotero://select/"@ + library + "/items/"@ + item_key
    } else {
        "zotero://select/library/items/"@ + item_key
    }
}

/// The address that has Zotero select an item of a library.
pub fn open_in_zotero(library: &str, item_key: &str) -> (r: String)
    ensures
        r@ == select_uri(library@, item_key@),
{
    let mut r: String;
    if text::starts_with(library, "groups/") {
        r = "zotero://select/".to_string();
        r.append(library);
        r.append("/items/");
    } else {
        r = "zotero://select/library/items/".to_string();
    }
    r.append(item_key);
    r
}

/// What the user reads where Zotero could not be opened.
pub const ZOTERO_NOT_OPENED: &'static str = "Could not open Zotero.";

/// What the user reads where a link could not be opened.
pub const LINK_NOT_OPENED: &'static str = "Could not open the link.";

/// An address on the web.
pub open spec fn is_web(url: Seq<char>) -> bool {
    "https://"@.is_prefix_of(url) || "http://"@.is_prefix_of(url)
}

/// May the address be opened? Only one on the web may, so that no made-up address
/// opens something on this machine.
pub fn open_url(url: &str) -> (r: Result<(), String>)
    ensures
        match r {
            Ok(_) => is_web(url@),
            Err(message) => !is_web(url@) && message@ == "Refusing to open a non-web URL."@,
        },
{
    if text::starts_with(url, "https://") || text::starts_with(url, "http://") {
        Ok(())
    } else {
        Err("Refusing to open a non-web URL.".to_string())
    }
}

/// A lab config file by its name: one that ends in ".paperdock", with something
/// before that.
pub open spec fn is_lab_path(path: Seq<char>) -> bool {
    match paths::file_name_of(path) {
        Some(name) => ".paperdock"@.is_suffix_of(name) && name != ".paperdock"@,
        None => false,
    }
}

/// Is the file a lab config, by its name?
pub fn is_lab_file(path: &str) -> (r: bool)
    ensures
        r == is_lab_path(path@),
{
    match paths::file_name(path) {
        Some(name) => text::ends_with(name.as_str(), ".paperdock") && !text::same_text(
            name.as_str(),
            ".paperdock",
        ),
        None => false,
    }
}

/// No address that may be opened is one that has Zotero select an item, or one of
/// a file.
pub proof fn law_only_the_web_is_opened(url: Seq<char>, library: Seq<char>, item_key: Seq<char>)
    requires
        is_web(url),
    ensures
        url != select_uri(library, item_key),
        !"file:"@.is_prefix_of(url),
{
    reveal_strlit("https://");
    reveal_strlit("http://");
    reveal_strlit("zotero://select/");
    reveal_strlit("zotero://select/library/items/");
    reveal_strlit("file:");
    assert(url[0] == 'h') by {
        if "https://"@.is_prefix_of(url) {
            assert(url.subrange(0, 8)[0] == 'h');
        } else {
            assert(url.subrange(0, 7)[0] == 'h');
        }
    }
    assert(select_uri(library, item_key)[0] == 'z');
    if "file:"@.is_prefix_of(url) {
        assert(url.subrange(0, 5)[0] == 'f');
    }
}

/// The item that Zotero is to select is the one that was clicked: its key ends the address,
/// after the group that it belongs to where it belongs to one.
pub proof fn law_the_clicked_item_is_selected(library: Seq<char>, item_key: Seq<char>)
    ensures
        item_key.is_suffix_of(select_uri(library, item_key)),
        "groups/"@.is_prefix_of(library) ==> select_uri(library, item_key) == "zotero://select/"@
            + library + "/items/"@ + item_key,
        !"groups/"@.is_prefix_of(library) ==> select_uri(library, item_key)
            == "zotero://select/library/items/"@ + item_key,
{
    let uri = select_uri(library, item_key);
    assert(uri.subrange(uri.len() - item_key.len(), uri.len() as int) =~= item_key);
}

/// What may be opened is every address that begins as one on the web does, and no other.
pub proof fn law_the_web_may_be_opened(rest: Seq<char>, url: Seq<char>)
    ensures
        is_web("https://"@ + rest),
        is_web("http://"@ + rest),
        is_web(url) ==> url.len() >= 7 && url.take(4) == "http"@,
{
    reveal_strlit("https://");
    reveal_strlit("http://");
    reveal_strlit("http");
    assert(("https://"@ + rest).subrange(0, 8) =~= "https://"@);
    assert(("http://"@ + rest).subrange(0, 7) =~= "http://"@);
    if is_web(url) {
        if "https://"@.is_prefix_of(url) {
            assert(url.subrange(0, 8) =~= "https://"@);
            assert forall|i: int| 0 <= i < 4 implies url[i] == "http"@[i] by {
                assert(url.subrange(0, 8)[i] == url[i]);
            }
        } else {
            assert forall|i: int| 0 <= i < 4 implies url[i] == "http"@[i] by {
                assert(url.subrange(0, 7)[i] == url[i]);
            }
        }
        assert(url.take(4) =~= "http"@);
    }
}

/// A lab config file is known by its ending, whatever it is called and wherever it is.
pub proof fn law_a_lab_file_is_known_by_its_ending(dir: Seq<char>, name: Seq<char>)
    requires
        name.len() > 0,
        !name.contains('/'),
        dir.len() == 0 || dir.last() == '/',
    ensures
        is_lab_path(dir + (name + ".paperdock"@)),
{
    reveal_strlit(".paperdock");
    let file = name + ".paperdock"@;
    assert forall|i: int| 0 <= i < file.len() implies file[i] != '/' by {
        if i < name.len() {
            assert(name.contains(name[i]));
        }
    }
    assert(file.len() > 2);
    paths::law_a_file_goes_by_its_name(dir, file);
    assert(file.subrange(name.len() as int, file.len() as int) =~= ".paperdock"@);
}

} // verus!
