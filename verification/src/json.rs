//! JSON values as the rest of the library reads them, and the reading and
//! writing of JSON text, which `serde_json` does.

use crate::text;
use vstd::prelude::*;

verus! {

/// A JSON value. A number is kept as the signed and the unsigned 64-bit integer
/// that it can be read as; neither is there for a number that is no integer.
#[derive(Debug, PartialEq, Eq)]
pub enum Json {
    Null,
    Bool(bool),
    Number(Option<i64>, Option<u64>),
    Text(String),
    List(Vec<Json>),
    Record(Vec<(String, Json)>),
}

/// What a JSON value says: in a record, a name given twice has its last value.
pub enum JsonView {
    Null,
    Bool(bool),
    Number(Option<i64>, Option<u64>),
    Text(Seq<char>),
    List(Seq<JsonView>),
    Record(Map<Seq<char>, JsonView>),
}

/// The record that the entries make up, a later one prevailing.
pub open spec fn record_of(entries: Seq<(Seq<char>, JsonView)>) -> Map<Seq<char>, JsonView>
    decreases entries.len(),
{
    if entries.len() == 0 {
        Map::empty()
    } else {
        record_of(entries.drop_last()).insert(entries.last().0, entries.last().1)
    }
}

impl View for Json {
    type V = JsonView;

    open spec fn view(&self) -> JsonView
        decreases self,
    {
        match *self {
            Json::Null => JsonView::Null,
            Json::Bool(b) => JsonView::Bool(b),
            Json::Number(signed, unsigned) => JsonView::Number(signed, unsigned),
            Json::Text(s) => JsonView::Text(s@),
            Json::List(items) => JsonView::List(list_view(items@)),
            Json::Record(entries) => JsonView::Record(record_of(entries_view(entries@))),
        }
    }
}

/// What the values say, one by one.
pub open spec fn list_view(items: Seq<Json>) -> Seq<JsonView>
    decreases items,
{
    Seq::new(
        items.len(),
        |i: int|
            if 0 <= i < items.len() {
                items[i].view()
            } else {
                JsonView::Null
            },
    )
}

/// What the named values say, one by one.
pub open spec fn entries_view(entries: Seq<(String, Json)>) -> Seq<(Seq<char>, JsonView)>
    decreases entries,
{
    Seq::new(
        entries.len(),
        |i: int|
            if 0 <= i < entries.len() {
                (entries[i].0@, entries[i].1.view())
            } else {
                (Seq::empty(), JsonView::Null)
            },
    )
}

/// Lists and records stand in one another at most `n` deep.
pub open spec fn nested_at_most(v: JsonView, n: nat) -> bool
    decreases n,
{
    match v {
        JsonView::List(items) => n > 0 && forall|i: int|
            0 <= i < items.len() ==> nested_at_most(#[trigger] items[i], (n - 1) as nat),
        JsonView::Record(members) => n > 0 && forall|k: Seq<char>|
            members.dom().contains(k) ==> nested_at_most(#[trigger] members[k], (n - 1) as nat),
        _ => true,
    }
}

/// A record nests one deeper than its entries do.
pub proof fn lemma_record_nesting(entries: Seq<(Seq<char>, JsonView)>, n: nat)
    requires
        forall|i: int| 0 <= i < entries.len() ==> nested_at_most((#[trigger] entries[i]).1, n),
    ensures
        nested_at_most(JsonView::Record(record_of(entries)), n + 1),
    decreases entries.len(),
{
    if entries.len() > 0 {
        let fewer = entries.drop_last();
        assert forall|i: int| 0 <= i < fewer.len() implies nested_at_most(
            (#[trigger] fewer[i]).1,
            n,
        ) by {
            assert(fewer[i] == entries[i]);
        }
        lemma_record_nesting(fewer, n);
        assert(nested_at_most(entries[entries.len() - 1].1, n));
        let rest = JsonView::Record(record_of(fewer));
        assert(forall|k: Seq<char>|
            rest->Record_0.dom().contains(k) ==> nested_at_most(
                #[trigger] rest->Record_0[k],
                (n + 1 - 1) as nat,
            ));
        assert forall|k: Seq<char>|
            record_of(entries).dom().contains(k) implies nested_at_most(
            #[trigger] record_of(entries)[k],
            n,
        ) by {
            if k != entries.last().0 {
                assert(record_of(fewer).dom().contains(k));
                assert(nested_at_most(rest->Record_0[k], n));
            }
        }
    }
}

// ---- serde_json -----------------------------------------------------------

/// `serde_json::Value`, a parsed JSON document.
#[verifier::external_type_specification]
#[verifier::external_body]
pub struct ExValue(serde_json::Value);

/// `serde_json::Error`, the reason why a text is no JSON document.
#[verifier::external_type_specification]
#[verifier::external_body]
pub struct ExJsonError(serde_json::Error);

/// What a `serde_json::Value` holds.
pub uninterp spec fn value_contents(v: serde_json::Value) -> JsonView;

/// The document that `serde_json::from_str` reads from a text, if it reads one.
pub uninterp spec fn document_in_text(text: Seq<char>) -> Option<JsonView>;

/// The document that `serde_json::from_slice` reads from bytes, if it reads one.
pub uninterp spec fn document_in_bytes(bytes: Seq<u8>) -> Option<JsonView>;

/// One layer of a `serde_json::Value`.
pub enum Layer {
    Null,
    Bool(bool),
    Number(Option<i64>, Option<u64>),
    Text(String),
    List(Vec<serde_json::Value>),
    Record(Vec<(String, serde_json::Value)>),
}

/// What the values hold, one by one.
pub open spec fn list_contents(values: Seq<serde_json::Value>) -> Seq<JsonView> {
    Seq::new(values.len(), |i: int| value_contents(values[i]))
}

/// What the named values hold, one by one.
pub open spec fn entry_contents(entries: Seq<(String, serde_json::Value)>) -> Seq<
    (Seq<char>, JsonView),
> {
    Seq::new(entries.len(), |i: int| (entries[i].0@, value_contents(entries[i].1)))
}

/// What the value with this outermost layer holds.
pub open spec fn layer_contents(layer: Layer) -> JsonView {
    match layer {
        Layer::Null => JsonView::Null,
        Layer::Bool(b) => JsonView::Bool(b),
        Layer::Number(signed, unsigned) => JsonView::Number(signed, unsigned),
        Layer::Text(s) => JsonView::Text(s@),
        Layer::List(values) => JsonView::List(list_contents(values@)),
        Layer::Record(entries) => JsonView::Record(record_of(entry_contents(entries@))),
    }
}

/// No name is given twice.
pub open spec fn distinct_names(entries: Seq<(Seq<char>, JsonView)>) -> bool {
    forall|i: int, j: int| 0 <= i < j < entries.len() ==> entries[i].0 != entries[j].0
}

/// `serde_json::from_str` as a `Value`: it is a function of the text alone.
#[verifier::external_body]
fn value_from_text(text: &str) -> (r: Result<serde_json::Value, serde_json::Error>)
    ensures
        r matches Ok(v) ==> document_in_text(text@) == Some(value_contents(v)),
        r is Err ==> document_in_text(text@) is None,
{
    serde_json::from_str(text)
}

/// `serde_json::from_slice` as a `Value`: it is a function of the bytes alone.
#[verifier::external_body]
fn value_from_bytes(bytes: &[u8]) -> (r: Result<serde_json::Value, serde_json::Error>)
    ensures
        r matches Ok(v) ==> document_in_bytes(bytes@) == Some(value_contents(v)),
        r is Err ==> document_in_bytes(bytes@) is None,
{
    serde_json::from_slice(bytes)
}

/// The variants of `serde_json::Value`, with a `Number` read by `as_i64` and
/// `as_u64` and an object's members in the order in which its map is walked.
#[verifier::external_body]
fn outer_layer(v: serde_json::Value) -> (layer: Layer)
    ensures
        layer_contents(layer) == value_contents(v),
        layer matches Layer::Record(entries) ==> distinct_names(entry_contents(entries@)),
{
    match v {
        serde_json::Value::Null => Layer::Null,
        serde_json::Value::Bool(b) => Layer::Bool(b),
        serde_json::Value::Number(n) => Layer::Number(n.as_i64(), n.as_u64()),
        serde_json::Value::String(s) => Layer::Text(s),
        serde_json::Value::Array(values) => Layer::List(values),
        serde_json::Value::Object(members) => Layer::Record(members.into_iter().collect()),
    }
}

/// The members of a record with distinct names are its entries.
pub proof fn lemma_record_of(entries: Seq<(Seq<char>, JsonView)>)
    requires
        distinct_names(entries),
    ensures
        record_of(entries).dom().finite(),
        forall|k: Seq<char>|
            record_of(entries).dom().contains(k) <==> exists|i: int|
                0 <= i < entries.len() && #[trigger] entries[i].0 == k,
        forall|i: int|
            0 <= i < entries.len() ==> record_of(entries).dom().contains(
                #[trigger] entries[i].0,
            ) && record_of(entries)[entries[i].0] == entries[i].1,
    decreases entries.len(),
{
    if entries.len() > 0 {
        let fewer = entries.drop_last();
        lemma_record_of(fewer);
        let n = fewer.len() as int;
        assert forall|k: Seq<char>|
            record_of(entries).dom().contains(k) implies exists|i: int|
            0 <= i < entries.len() && #[trigger] entries[i].0 == k by {
            if k == entries[n].0 {
            } else {
                let i = choose|i: int| 0 <= i < fewer.len() && #[trigger] fewer[i].0 == k;
                assert(entries[i].0 == k);
            }
        }
        assert forall|i: int| 0 <= i < entries.len() implies record_of(entries).dom().contains(
            #[trigger] entries[i].0,
        ) && record_of(entries)[entries[i].0] == entries[i].1 by {
            if i < n {
                assert(fewer[i] == entries[i]);
                assert(entries[i].0 != entries[n].0);
            }
        }
    }
}

/// The value as a `Json`.
fn json_of(v: serde_json::Value) -> (j: Json)
    ensures
        j@ == value_contents(v),
    decreases value_contents(v),
{
    let ghost contents = value_contents(v);
    match outer_layer(v) {
        Layer::Null => Json::Null,
        Layer::Bool(b) => Json::Bool(b),
        Layer::Number(signed, unsigned) => Json::Number(signed, unsigned),
        Layer::Text(s) => Json::Text(s),
        Layer::List(values) => {
            let ghost all = values@;
            let mut items: Vec<Json> = Vec::new();
            for value in it: values
                invariant
                    it.seq() == all,
                    contents == value_contents(v),
                    contents == JsonView::List(list_contents(all)),
                    items@.len() == it.index(),
                    forall|i: int|
                        0 <= i < items@.len() ==> (#[trigger] items@[i])@ == value_contents(all[i]),
            {
                assert(decreases_to!(contents => contents->List_0));
                assert(value_contents(value) == contents->List_0[it.index() as int]);
                assert(decreases_to!(contents->List_0 => contents->List_0[it.index() as int]));
                items.push(json_of(value));
            }
            let j = Json::List(items);
            assert(list_view(items@) =~= list_contents(all));
            j
        },
        Layer::Record(entries) => {
            let ghost all = entries@;
            let mut members: Vec<(String, Json)> = Vec::new();
            proof {
                lemma_record_of(entry_contents(all));
            }
            for entry in it: entries
                invariant
                    it.seq() == all,
                    contents == value_contents(v),
                    contents == JsonView::Record(record_of(entry_contents(all))),
                    record_of(entry_contents(all)).dom().finite(),
                    forall|i: int|
                        0 <= i < all.len() ==> record_of(entry_contents(all)).dom().contains(
                            #[trigger] entry_contents(all)[i].0,
                        ) && record_of(entry_contents(all))[entry_contents(all)[i].0]
                            == entry_contents(all)[i].1,
                    members@.len() == it.index(),
                    forall|i: int|
                        #![trigger members@[i]]
                        0 <= i < members@.len() ==> members@[i].0@ == all[i].0@
                            && members@[i].1@ == value_contents(all[i].1),
            {
                let ghost name = entry_contents(all)[it.index() as int].0;
                assert(decreases_to!(contents => contents->Record_0));
                assert(decreases_to!(contents->Record_0 => contents->Record_0[name]));
                assert(value_contents(entry.1) == contents->Record_0[name]);
                members.push((entry.0, json_of(entry.1)));
            }
            let j = Json::Record(members);
            assert(entries_view(members@) =~= entry_contents(all));
            j
        },
    }
}

/// What an optional JSON value says.
pub open spec fn said(j: Option<Json>) -> Option<JsonView> {
    match j {
        Some(j) => Some(j@),
        None => None,
    }
}

/// What an optional reference to a JSON value says.
pub open spec fn said_at(j: Option<&Json>) -> Option<JsonView> {
    match j {
        Some(j) => Some(j@),
        None => None,
    }
}

/// The JSON document in a text, if it holds one.
pub fn read_text(text: &str) -> (j: Option<Json>)
    ensures
        said(j) == document_in_text(text@),
{
    match value_from_text(text) {
        Ok(v) => Some(json_of(v)),
        Err(_) => None,
    }
}

/// The JSON document in a series of bytes, if they hold one.
pub fn read_bytes(bytes: &[u8]) -> (j: Option<Json>)
    ensures
        said(j) == document_in_bytes(bytes@),
{
    match value_from_bytes(bytes) {
        Ok(v) => Some(json_of(v)),
        Err(_) => None,
    }
}

// ---- looking into a value -------------------------------------------------

impl JsonView {
    /// The member of a record that has this name.
    pub open spec fn member(self, name: Seq<char>) -> Option<JsonView> {
        match self {
            JsonView::Record(members) => if members.dom().contains(name) {
                Some(members[name])
            } else {
                None
            },
            _ => None,
        }
    }

    /// The item of a list at this position.
    pub open spec fn item(self, i: int) -> Option<JsonView> {
        match self {
            JsonView::List(items) => if 0 <= i < items.len() {
                Some(items[i])
            } else {
                None
            },
            _ => None,
        }
    }

    pub open spec fn text(self) -> Option<Seq<char>> {
        match self {
            JsonView::Text(s) => Some(s),
            _ => None,
        }
    }

    pub open spec fn list(self) -> Option<Seq<JsonView>> {
        match self {
            JsonView::List(items) => Some(items),
            _ => None,
        }
    }

    pub open spec fn unsigned(self) -> Option<u64> {
        match self {
            JsonView::Number(_, n) => n,
            _ => None,
        }
    }

    pub open spec fn signed(self) -> Option<i64> {
        match self {
            JsonView::Number(n, _) => n,
            _ => None,
        }
    }

    /// The text of the member with this name.
    pub open spec fn text_member(self, name: Seq<char>) -> Option<Seq<char>> {
        match self.member(name) {
            Some(v) => v.text(),
            None => None,
        }
    }

    /// The text of the member with this name, or else `other`.
    pub open spec fn text_member_or(self, name: Seq<char>, other: Seq<char>) -> Seq<char> {
        match self.text_member(name) {
            Some(s) => s,
            None => other,
        }
    }

    /// The items of the member with this name.
    pub open spec fn list_member(self, name: Seq<char>) -> Option<Seq<JsonView>> {
        match self.member(name) {
            Some(v) => v.list(),
            None => None,
        }
    }

    /// The items of the member with this name, or none.
    pub open spec fn items_of(self, name: Seq<char>) -> Seq<JsonView> {
        match self.list_member(name) {
            Some(items) => items,
            None => Seq::empty(),
        }
    }
}

impl Json {
    /// The member of a record that has this name.
    pub fn get(&self, name: &str) -> (r: Option<&Json>)
        ensures
            said_at(r) == self@.member(name@),
    {
        match self {
            Json::Record(entries) => {
                let ghost views = entries_view(entries@);
                let mut i: usize = entries.len();
                assert(views.take(i as int) =~= views);
                while i > 0
                    invariant
                        i <= entries@.len(),
                        views == entries_view(entries@),
                        self@ == JsonView::Record(record_of(views)),
                        record_of(views).dom().contains(name@) == record_of(
                            views.take(i as int),
                        ).dom().contains(name@),
                        record_of(views).dom().contains(name@) ==> record_of(views)[name@]
                            == record_of(views.take(i as int))[name@],
                    decreases i,
                {
                    i = i - 1;
                    assert(views.take(i + 1).drop_last() =~= views.take(i as int));
                    assert(views.take(i + 1).last() == views[i as int]);
                    if text::same_text(entries[i].0.as_str(), name) {
                        assert(views[i as int].1 == entries@[i as int].1@);
                        return Some(&entries[i].1);
                    }
                }
                assert(record_of(views.take(0)) =~= Map::empty());
                None
            },
            _ => None,
        }
    }

    /// The item of a list at this position.
    pub fn at(&self, i: usize) -> (r: Option<&Json>)
        ensures
            said_at(r) == self@.item(i as int),
    {
        match self {
            Json::List(items) => {
                assert(self@ == JsonView::List(list_view(items@)));
                assert(list_view(items@).len() == items@.len());
                if i < items.len() {
                    assert(list_view(items@)[i as int] == items@[i as int]@);
                    Some(&items[i])
                } else {
                    None
                }
            },
            _ => None,
        }
    }

    pub fn as_text(&self) -> (r: Option<&String>)
        ensures
            match r {
                Some(s) => self@.text() == Some(s@),
                None => self@.text() is None,
            },
    {
        match self {
            Json::Text(s) => Some(s),
            _ => None,
        }
    }

    pub fn as_list(&self) -> (r: Option<&Vec<Json>>)
        ensures
            match r {
                Some(items) => self@.list() == Some(list_view(items@)),
                None => self@.list() is None,
            },
    {
        match self {
            Json::List(items) => Some(items),
            _ => None,
        }
    }

    pub fn as_u64(&self) -> (r: Option<u64>)
        ensures
            r == self@.unsigned(),
    {
        match self {
            Json::Number(_, n) => *n,
            _ => None,
        }
    }

    pub fn as_i64(&self) -> (r: Option<i64>)
        ensures
            r == self@.signed(),
    {
        match self {
            Json::Number(n, _) => *n,
            _ => None,
        }
    }

    /// The text of the member with this name.
    pub fn get_text(&self, name: &str) -> (r: Option<String>)
        ensures
            match r {
                Some(s) => self@.text_member(name@) == Some(s@),
                None => self@.text_member(name@) is None,
            },
    {
        match self.get(name) {
            Some(v) => match v.as_text() {
                Some(s) => Some(s.clone()),
                None => None,
            },
            None => None,
        }
    }

    /// The text of the member with this name, or else `other`.
    pub fn get_text_or(&self, name: &str, other: &str) -> (r: String)
        ensures
            r@ == self@.text_member_or(name@, other@),
    {
        match self.get_text(name) {
            Some(s) => s,
            None => other.to_string(),
        }
    }

    /// The text of the member with this name, or the empty text.
    pub fn get_text_or_empty(&self, name: &str) -> (r: String)
        ensures
            r@ == self@.text_member_or(name@, Seq::empty()),
    {
        match self.get_text(name) {
            Some(s) => s,
            None => String::new(),
        }
    }

    /// The items of the member with this name.
    pub fn get_list(&self, name: &str) -> (r: Option<&Vec<Json>>)
        ensures
            match r {
                Some(items) => self@.list_member(name@) == Some(list_view(items@)),
                None => self@.list_member(name@) is None,
            },
    {
        match self.get(name) {
            Some(v) => v.as_list(),
            None => None,
        }
    }
}

// ---- writing --------------------------------------------------------------

/// What a value to be written is made of.
pub enum Part {
    Text(String),
    List(Vec<serde_json::Value>),
    Record(Vec<(String, serde_json::Value)>),
}

/// What the value made of this part holds.
pub open spec fn part_contents(part: Part) -> JsonView {
    match part {
        Part::Text(s) => JsonView::Text(s@),
        Part::List(values) => JsonView::List(list_contents(values@)),
        Part::Record(entries) => JsonView::Record(record_of(entry_contents(entries@))),
    }
}

/// The variants `String`, `Array` and `Object` of `serde_json::Value`. An object
/// is collected from its entries, whose names must differ.
#[verifier::external_body]
pub(crate) fn value_of(part: Part) -> (v: serde_json::Value)
    requires
        part matches Part::Record(entries) ==> distinct_names(entry_contents(entries@)),
    ensures
        value_contents(v) == part_contents(part),
{
    match part {
        Part::Text(s) => serde_json::Value::String(s),
        Part::List(values) => serde_json::Value::Array(values),
        Part::Record(entries) => serde_json::Value::Object(entries.into_iter().collect()),
    }
}

/// `serde_json::to_string` of a `Value`. It never fails, since an object's names
/// are strings and the text is built in memory. It escapes control characters
/// and lays nothing out over lines, so no line feed is in the text. The text
/// reads back as the same document, as long as that does not nest deeper than
/// `serde_json::from_str` follows.
#[verifier::external_body]
pub(crate) fn value_text(v: &serde_json::Value) -> (r: Result<String, serde_json::Error>)
    ensures
        r is Ok,
        r matches Ok(text) ==> !text@.contains('\n'),
        r matches Ok(text) ==> (nested_at_most(value_contents(*v), 127) ==> document_in_text(text@)
            == Some(value_contents(*v))),
{
    serde_json::to_string(v)
}

// ---- laws -----------------------------------------------------------------

/// What is read of a value is what it holds: a member by its name, a text character for
/// character, a list item by item. What is not there, or is something else, is not read.
pub proof fn law_values_are_read_as_they_are(
    members: Map<Seq<char>, JsonView>,
    name: Seq<char>,
    s: Seq<char>,
    items: Seq<JsonView>,
    other: Seq<char>,
)
    ensures
        ({
            let v = JsonView::Record(members);
            let there = members.dom().contains(name);
            &&& there ==> v.member(name) == Some(members[name])
            &&& !there ==> v.member(name) is None
            &&& there && members[name] == JsonView::Text(s) ==> {
                &&& v.text_member(name) == Some(s)
                &&& v.text_member_or(name, other) == s
                &&& v.list_member(name) is None
            }
            &&& there && members[name] == JsonView::List(items) ==> {
                &&& v.list_member(name) == Some(items)
                &&& v.items_of(name) == items
                &&& v.text_member(name) is None
            }
            &&& !there ==> {
                &&& v.text_member(name) is None
                &&& v.text_member_or(name, other) == other
                &&& v.list_member(name) is None
                &&& v.items_of(name) == Seq::<JsonView>::empty()
            }
        }),
        forall|i: int|
            0 <= i < items.len() ==> #[trigger] JsonView::List(items).item(i) == Some(items[i]),
{
}

/// Of a number both readings are kept apart, and only a number has them.
pub proof fn law_numbers_are_read_as_they_are(signed: Option<i64>, unsigned: Option<u64>)
    ensures
        JsonView::Number(signed, unsigned).signed() == signed,
        JsonView::Number(signed, unsigned).unsigned() == unsigned,
        JsonView::Number(signed, unsigned).text() is None,
        JsonView::Null.signed() is None,
        JsonView::Null.unsigned() is None,
{
}

/// A record has the members that it was given, the last one where a name was given twice.
pub proof fn law_the_last_member_prevails(
    entries: Seq<(Seq<char>, JsonView)>,
    name: Seq<char>,
    value: JsonView,
)
    ensures
        record_of(entries.push((name, value))) == record_of(entries).insert(name, value),
        record_of(Seq::empty()) == Map::<Seq<char>, JsonView>::empty(),
{
    assert(entries.push((name, value)).drop_last() =~= entries);
}

} // verus!
