//! Choosing a collection: how collections are told apart, shown and remembered.

use crate::text;
use crate::zotero;
use crate::zotero::{Collection, CollectionView};
use vstd::prelude::*;

verus! {

/// What stands between the library and the key in a collection's id.
pub const MARK: &'static str = "::";

/// The id of a collection: its library and its key, as in
/// "groups/1234567::ABCD1234".
pub open spec fn id_of(library: Seq<char>, key: Seq<char>) -> Seq<char> {
    library + MARK@ + key
}

/// How a collection is shown.
pub open spec fn label_of(c: CollectionView) -> Seq<char> {
    c.library_name + " / "@ + c.name + " ("@ + text::decimal(c.num_items as nat) + ")"@
}

impl Collection {
    /// The id of the collection.
    pub fn id(&self) -> (r: String)
        ensures
            r@ == id_of(self.library@, self.key@),
    {
        let mut r = self.library.clone();
        r.append(MARK);
        r.append(self.key.as_str());
        r
    }

    /// How the collection is shown: "library / name (number of items)".
    pub fn label(&self) -> (r: String)
        ensures
            r@ == label_of(self.deep_view()),
            r@ == self.library_name@ + " / "@ + self.name@ + " ("@ + text::decimal(
                self.num_items as nat,
            ) + ")"@,
    {
        let mut r = self.library_name.clone();
        r.append(" / ");
        r.append(self.name.as_str());
        r.append(" (");
        text::push_decimal(&mut r, self.num_items as u128);
        r.append(")");
        r
    }
}

/// The library and the key in an id. One without a mark is a key in the user's own
/// library.
pub open spec fn parts_of(id: Seq<char>) -> (Seq<char>, Seq<char>) {
    match text::place_of(id, MARK@) {
        Some(i) => (id.take(i), id.skip(i + MARK@.len())),
        None => ("users/0"@, id),
    }
}

/// The library and the key in an id.
pub fn split_id(id: &str) -> (r: (String, String))
    ensures
        r.deep_view() == parts_of(id@),
{
    match text::find_text(id, MARK) {
        Some(i) => {
            proof {
                reveal_strlit("::");
                text::lemma_place_of(id@, MARK@);
            }
            let chars = text::chars_of(id);
            let library = text::text_between(&chars, 0, i);
            let key = text::text_between(&chars, i + 2, chars.len());
            assert(library@ =~= id@.take(i as int));
            assert(key@ =~= id@.skip(i + 2));
            (library, key)
        },
        None => ("users/0".to_string(), id.to_string()),
    }
}

/// Is a collection with the given id among those listed?
pub open spec fn is_listed(list: Seq<CollectionView>, id: Seq<char>) -> bool {
    exists|i: int|
        0 <= i < list.len() && id_of((#[trigger] list[i]).library, list[i].key) == id
}

/// The collection to begin with: the remembered one if it is still listed, else the
/// first, if there is one.
pub open spec fn preselected(
    remembered: Option<Seq<char>>,
    list: Seq<CollectionView>,
) -> Option<Seq<char>> {
    if remembered matches Some(id) && is_listed(list, id) {
        remembered
    } else if list.len() > 0 {
        Some(id_of(list[0].library, list[0].key))
    } else {
        None
    }
}

fn among(list: &Vec<Collection>, id: &str) -> (r: bool)
    ensures
        r == is_listed(list.deep_view(), id@),
{
    let ghost all = list.deep_view();
    let mut i: usize = 0;
    while i < list.len()
        invariant
            i <= list@.len(),
            all == list.deep_view(),
            forall|k: int|
                0 <= k < i ==> id_of((#[trigger] all[k]).library, all[k].key) != id@,
        decreases list@.len() - i,
    {
        let own = list[i].id();
        if text::same_text(own.as_str(), id) {
            assert(id_of(all[i as int].library, all[i as int].key) == id@);
            return true;
        }
        i = i + 1;
    }
    false
}

/// The collection to begin with.
pub fn preselect(remembered: &Option<String>, list: &Vec<Collection>) -> (r: Option<String>)
    ensures
        r.deep_view() == preselected(remembered.deep_view(), list.deep_view()),
{
    if let Some(id) = remembered {
        if among(list, id.as_str()) {
            return Some(id.clone());
        }
    }
    if list.len() > 0 {
        Some(list[0].id())
    } else {
        None
    }
}

// ---- laws -----------------------------------------------------------------

/// From its id, a collection's library and key can be told again: the library must
/// not hold the mark, nor end in the half of one.
pub proof fn law_id_tells_the_collection(library: Seq<char>, key: Seq<char>)
    requires
        text::place_of(library, MARK@) is None,
        library.len() > 0 ==> library.last() != ':',
    ensures
        parts_of(id_of(library, key)) == (library, key),
{
    reveal_strlit("::");
    let id = id_of(library, key);
    let n = library.len() as int;
    text::lemma_place_of(library, MARK@);
    text::lemma_place_of(id, MARK@);
    assert(id.skip(n).subrange(0, 2) =~= MARK@);
    assert(MARK@.is_prefix_of(id.skip(n)));
    match text::place_of(id, MARK@) {
        Some(i) => {
            if i < n {
                assert(id.skip(i).subrange(0, 2) =~= MARK@);
                assert(id.skip(i)[0] == id.skip(i).subrange(0, 2)[0]);
                assert(id.skip(i)[1] == id.skip(i).subrange(0, 2)[1]);
                assert(id[i] == ':');
                if i + 1 < n {
                    assert(library.skip(i).subrange(0, 2) =~= MARK@);
                    assert(!MARK@.is_prefix_of(library.skip(i)));
                }
            }
            assert(i == n);
            assert(id.take(n) =~= library);
            assert(id.skip(n + 2) =~= key);
        },
        None => {
            assert(!MARK@.is_prefix_of(id.skip(n)));
        },
    }
}

/// So it is with every library that Zotero has.
pub proof fn law_listed_ids_tell_the_collection(library: Seq<char>, key: Seq<char>)
    requires
        zotero::is_library(library),
    ensures
        parts_of(id_of(library, key)) == (library, key),
{
    reveal_strlit("::");
    reveal_strlit("users/0");
    reveal_strlit("groups/");
    assert forall|i: int| 0 <= i < library.len() implies library[i] != ':' by {
        if library != "users/0"@ {
            zotero::lemma_group_id(library);
            if i >= 7 {
                assert(text::is_digit(zotero::group_id(library)[i - 7]));
            }
        }
    }
    text::lemma_place_of(library, MARK@);
    if let Some(i) = text::place_of(library, MARK@) {
        assert(library.skip(i).subrange(0, 2)[0] == ':');
        assert(library[i] == ':');
    }
    law_id_tells_the_collection(library, key);
}

/// The collection to begin with is one of those listed, and there is one whenever
/// any is listed.
pub proof fn law_preselected_is_listed(remembered: Option<Seq<char>>, list: Seq<CollectionView>)
    ensures
        match preselected(remembered, list) {
            Some(id) => is_listed(list, id),
            None => list.len() == 0,
        },
{
    if list.len() > 0 {
        assert(is_listed(list, id_of(list[0].library, list[0].key)));
    }
}

/// The id of a collection is its library, a mark, and its key, as they are; an id without
/// the mark is a key in the user's own library.
pub proof fn law_an_id_is_library_and_key(library: Seq<char>, key: Seq<char>, id: Seq<char>)
    ensures
        id_of(library, key) == library + "::"@ + key,
        text::place_of(id, "::"@) is None ==> parts_of(id) == ("users/0"@, id),
{
}

/// The collection that was chosen last comes first, as long as it is still listed; else the
/// first that is listed does.
pub proof fn law_the_last_choice_is_remembered(list: Seq<CollectionView>, id: Seq<char>, i: int)
    ensures
        0 <= i < list.len() && list[i].library + "::"@ + list[i].key == id ==> preselected(
            Some(id),
            list,
        ) == Some(id),
        list.len() > 0 ==> preselected(None, list) == Some(
            list[0].library + "::"@ + list[0].key,
        ),
        (forall|k: int|
            0 <= k < list.len() ==> (#[trigger] list[k]).library + "::"@ + list[k].key != id)
            ==> preselected(Some(id), list) == preselected(None, list),
{
    if 0 <= i < list.len() && list[i].library + "::"@ + list[i].key == id {
        assert(id_of(list[i].library, list[i].key) == id);
        assert(is_listed(list, id));
    }
    if forall|k: int|
        0 <= k < list.len() ==> (#[trigger] list[k]).library + "::"@ + list[k].key != id {
        assert(!is_listed(list, id));
    }
}

/// A collection is shown with its library's name, its own, and how many items it has, all of
/// them as they are.
pub proof fn law_a_collection_is_shown_as_it_is(c: CollectionView)
    ensures
        label_of(c) == c.library_name + " / "@ + c.name + " ("@ + text::decimal(
            c.num_items as nat,
        ) + ")"@,
{
}

} // verus!
