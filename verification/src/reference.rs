//! Telling a real reference from a made-up one: the closest paper that CrossRef
//! knows, and how well it matches.

use crate::json;
use crate::json::{Json, JsonView};
use crate::text;
use crate::zotero::Reply;
use vstd::prelude::*;

verus! {

// ---- words ----------------------------------------------------------------

/// The text that `str::to_lowercase` makes of `s`.
pub uninterp spec fn lowercase_of(s: Seq<char>) -> Seq<char>;

/// Does `char::is_alphanumeric` hold of `c`?
pub uninterp spec fn alphanumeric(c: char) -> bool;

/// An ASCII capital as a small letter, and any other character as it is.
pub open spec fn small(c: char) -> char {
    if 'A' <= c <= 'Z' {
        (c as u32 + 32) as char
    } else {
        c
    }
}

/// A text with small letters for its ASCII capitals.
pub open spec fn small_letters(s: Seq<char>) -> Seq<char> {
    Seq::new(s.len(), |i: int| small(s[i]))
}

/// Is the character an ASCII letter or an ASCII digit?
pub open spec fn is_ascii_letter_or_digit(c: char) -> bool {
    ||| '0' <= c <= '9'
    ||| 'A' <= c <= 'Z'
    ||| 'a' <= c <= 'z'
}

/// `str::to_lowercase` maps the text to lower case by Unicode's rules, which
/// depend on the text alone. In an ASCII text these put a small letter for each
/// capital and keep everything else.
pub assume_specification[ str::to_lowercase ](s: &str) -> (r: String)
    ensures
        r@ == lowercase_of(s@),
        vstd::utf8::is_ascii_chars(s@) ==> r@ == small_letters(s@),
;

/// `char::is_alphanumeric` goes by Unicode's properties of the character alone. Of
/// the ASCII characters it holds for the letters and the digits.
pub assume_specification[ char::is_alphanumeric ](c: char) -> (r: bool)
    ensures
        r == alphanumeric(c),
        c <= '\u{7f}' ==> r == is_ascii_letter_or_digit(c),
;

/// A text in lower case.
pub open spec fn in_lower_case(s: Seq<char>) -> Seq<char> {
    if vstd::utf8::is_ascii_chars(s) {
        small_letters(s)
    } else {
        lowercase_of(s)
    }
}

/// Is the character a letter or a digit?
pub open spec fn is_letter_or_digit(c: char) -> bool {
    if c <= '\u{7f}' {
        is_ascii_letter_or_digit(c)
    } else {
        alphanumeric(c)
    }
}

/// Words too common to tell papers apart.
pub open spec fn is_stop_word(w: Seq<char>) -> bool {
    ||| w == "the"@
    ||| w == "of"@
    ||| w == "and"@
    ||| w == "for"@
    ||| w == "with"@
    ||| w == "from"@
    ||| w == "using"@
    ||| w == "via"@
    ||| w == "based"@
}

/// A word that counts: more than two bytes long, and no stop word.
pub open spec fn is_significant(w: Seq<char>) -> bool {
    vstd::utf8::encode_utf8(w).len() > 2 && !is_stop_word(w)
}

/// The words that count among the pieces of a text.
pub open spec fn word_set(lower: Seq<char>, cut: Seq<bool>) -> Set<Seq<char>> {
    Set::new(|w: Seq<char>| text::pieces(lower, cut).contains(w) && is_significant(w))
}

/// The characters that part words: those that are no letter and no digit.
pub open spec fn word_cuts(s: Seq<char>) -> Seq<bool> {
    Seq::new(s.len(), |i: int| !is_letter_or_digit(s[i]))
}

/// The words that count in a text that is put in lower case as a whole.
pub open spec fn words_in_run(run: Seq<char>) -> Set<Seq<char>> {
    word_set(in_lower_case(run), word_cuts(in_lower_case(run)))
}

/// The words that count in any of the given texts.
pub open spec fn words_among(runs: Seq<Seq<char>>) -> Set<Seq<char>>
    decreases runs.len(),
{
    if runs.len() == 0 {
        Set::empty()
    } else {
        words_among(runs.drop_last()).union(words_in_run(runs.last()))
    }
}

/// The words that count in a text, in lower case. What stands between white space
/// is put in lower case by itself: no letter's lower case depends on what lies
/// beyond a space.
pub open spec fn words_in(s: Seq<char>) -> Set<Seq<char>> {
    words_among(text::words(s))
}

fn stop_word(w: &str) -> (r: bool)
    ensures
        r == is_stop_word(w@),
{
    text::same_text(w, "the") || text::same_text(w, "of") || text::same_text(w, "and")
        || text::same_text(w, "for") || text::same_text(w, "with") || text::same_text(w, "from")
        || text::same_text(w, "using") || text::same_text(w, "via") || text::same_text(w, "based")
}

fn significant(w: &str) -> (r: bool)
    ensures
        r == is_significant(w@),
{
    let bytes = w.as_bytes();
    bytes.len() > 2 && !stop_word(w)
}

/// Is the text among the given ones?
fn is_among(words: &Vec<String>, w: &str) -> (r: bool)
    ensures
        r == words.deep_view().contains(w@),
{
    let mut i: usize = 0;
    while i < words.len()
        invariant
            i <= words@.len(),
            forall|k: int| 0 <= k < i ==> (#[trigger] words@[k])@ != w@,
        decreases words@.len() - i,
    {
        if text::same_text(words[i].as_str(), w) {
            assert(words.deep_view()[i as int] == w@);
            return true;
        }
        i = i + 1;
    }
    assert forall|k: int| 0 <= k < words.deep_view().len() implies words.deep_view()[k] != w@ by {
        assert(words@[k]@ != w@);
    }
    false
}

/// The words that count among the pieces of a text, each of them once.
pub fn significant_words(lower: &str, cut: &Vec<bool>) -> (r: Vec<String>)
    requires
        cut@.len() == lower@.len(),
    ensures
        r.deep_view().no_duplicates(),
        r.deep_view().to_set() == word_set(lower@, cut@),
{
    let parts = text::split(lower, cut);
    let ghost all = text::pieces(lower@, cut@);
    let mut r: Vec<String> = Vec::new();
    let mut i: usize = 0;
    while i < parts.len()
        invariant
            i <= parts@.len(),
            all == parts.deep_view(),
            all == text::pieces(lower@, cut@),
            r.deep_view().no_duplicates(),
            forall|w: Seq<char>|
                #[trigger] r.deep_view().contains(w) <==> all.take(i as int).contains(w)
                    && is_significant(w),
        decreases parts@.len() - i,
    {
        let ghost before = r.deep_view();
        let ghost seen = all.take(i as int);
        let ghost next = all[i as int];
        assert(all.take(i + 1) =~= seen.push(next));
        let part = parts[i].as_str();
        if significant(part) && !is_among(&r, part) {
            r.push(parts[i].clone());
            assert(r.deep_view() =~= before.push(next));
        }
        assert forall|w: Seq<char>| #[trigger] r.deep_view().contains(w) <==> all.take(
            i + 1,
        ).contains(w) && is_significant(w) by {
            text::lemma_contains_push(seen, next, w);
            text::lemma_contains_push(before, next, w);
        }
        i = i + 1;
    }
    assert(all.take(all.len() as int) =~= all);
    assert(r.deep_view().to_set() =~= word_set(lower@, cut@));
    r
}

// ---- overlap --------------------------------------------------------------

/// How much of `words` the `shared` ones are, in whole percent.
pub open spec fn coverage(shared: nat, words: nat) -> nat {
    shared * 100 / words
}

/// How well two sets of words match, in percent: the share of either that the
/// other covers, whichever is less.
pub open spec fn overlap(title: Set<Seq<char>>, reference: Set<Seq<char>>) -> nat {
    let shared = title.intersect(reference).len();
    if title.len() == 0 || reference.len() == 0 {
        0
    } else if coverage(shared, title.len()) <= coverage(shared, reference.len()) {
        coverage(shared, title.len())
    } else {
        coverage(shared, reference.len())
    }
}

/// Counts the words of the first series that are in the second.
fn count_shared(words: &Vec<String>, others: &Vec<String>) -> (n: usize)
    requires
        words.deep_view().no_duplicates(),
    ensures
        n as nat == words.deep_view().to_set().intersect(others.deep_view().to_set()).len(),
        n <= words@.len(),
{
    let ghost all = words.deep_view();
    let ghost there = others.deep_view().to_set();
    let mut n: usize = 0;
    let mut i: usize = 0;
    assert(all.take(0).to_set().intersect(there) =~= Set::empty());
    while i < words.len()
        invariant
            n <= i <= words@.len(),
            all == words.deep_view(),
            all.no_duplicates(),
            there == others.deep_view().to_set(),
            all.take(i as int).to_set().intersect(there).finite(),
            n as nat == all.take(i as int).to_set().intersect(there).len(),
        decreases words@.len() - i,
    {
        let ghost seen = all.take(i as int);
        let ghost w = all[i as int];
        proof {
            assert(all.take(i + 1) =~= seen.push(w));
            assert(!seen.contains(w)) by {
                if seen.contains(w) {
                    let k = choose|k: int| 0 <= k < seen.len() && seen[k] == w;
                    assert(all[k] == w && k != i);
                }
            }
            assert forall|x: Seq<char>| #[trigger] seen.push(w).to_set().contains(x) <==> (
            seen.to_set().contains(x) || x == w) by {
                text::lemma_contains_push(seen, w, x);
            }
        }
        if is_among(others, words[i].as_str()) {
            assert(there.contains(w));
            assert(all.take(i + 1).to_set().intersect(there) =~= seen.to_set().intersect(
                there,
            ).insert(w));
            n = n + 1;
        } else {
            assert(!there.contains(w));
            assert(all.take(i + 1).to_set().intersect(there) =~= seen.to_set().intersect(there));
        }
        i = i + 1;
    }
    assert(all.take(all.len() as int) =~= all);
    n
}

/// How well the words of a title and of a reference match, in percent.
pub fn overlap_percent(title_words: &Vec<String>, reference_words: &Vec<String>) -> (r: u8)
    requires
        title_words.deep_view().no_duplicates(),
        reference_words.deep_view().no_duplicates(),
    ensures
        r as nat == overlap(
            title_words.deep_view().to_set(),
            reference_words.deep_view().to_set(),
        ),
{
    proof {
        title_words.deep_view().unique_seq_to_set();
        reference_words.deep_view().unique_seq_to_set();
    }
    if title_words.len() == 0 || reference_words.len() == 0 {
        return 0;
    }
    let shared = count_shared(title_words, reference_words);
    proof {
        let t = title_words.deep_view().to_set();
        let s = reference_words.deep_view().to_set();
        assert(t.intersect(s).len() <= s.len()) by {
            assert(t.intersect(s).subset_of(s));
            vstd::set_lib::lemma_len_subset(t.intersect(s), s);
        }
    }
    let title_cov: u128 = (shared as u128) * 100 / (title_words.len() as u128);
    let reference_cov: u128 = (shared as u128) * 100 / (reference_words.len() as u128);
    proof {
        lemma_coverage_bound(shared as nat, title_words@.len());
        lemma_coverage_bound(shared as nat, reference_words@.len());
    }
    if title_cov <= reference_cov {
        title_cov as u8
    } else {
        reference_cov as u8
    }
}

proof fn lemma_coverage_bound(shared: nat, words: nat)
    requires
        0 < words,
        shared <= words,
    ensures
        coverage(shared, words) <= 100,
{
    assert(shared * 100 / words <= 100) by (nonlinear_arith)
        requires
            0 < words,
            shared <= words,
    ;
}

fn words_of_run(run: &str) -> (r: Vec<String>)
    ensures
        r.deep_view().no_duplicates(),
        r.deep_view().to_set() == words_in_run(run@),
{
    let lower = run.to_lowercase();
    let chars = text::chars_of(lower.as_str());
    let mut cut: Vec<bool> = Vec::new();
    let mut i: usize = 0;
    while i < chars.len()
        invariant
            i == cut@.len(),
            i <= chars@.len(),
            chars@ == lower@,
            forall|k: int| 0 <= k < i ==> #[trigger] cut@[k] == !is_letter_or_digit(lower@[k]),
        decreases chars@.len() - i,
    {
        cut.push(!chars[i].is_alphanumeric());
        i = i + 1;
    }
    assert(cut@ =~= word_cuts(lower@));
    significant_words(lower.as_str(), &cut)
}

/// Adds the words that are not there yet.
fn add_words(words: &mut Vec<String>, more: &Vec<String>)
    requires
        old(words).deep_view().no_duplicates(),
    ensures
        final(words).deep_view().no_duplicates(),
        final(words).deep_view().to_set() == old(words).deep_view().to_set().union(
            more.deep_view().to_set(),
        ),
{
    let ghost first = words.deep_view();
    let ghost all = more.deep_view();
    let mut i: usize = 0;
    while i < more.len()
        invariant
            i <= more@.len(),
            all == more.deep_view(),
            words.deep_view().no_duplicates(),
            forall|w: Seq<char>|
                #[trigger] words.deep_view().contains(w) <==> first.contains(w) || all.take(
                    i as int,
                ).contains(w),
        decreases more@.len() - i,
    {
        let ghost before = words.deep_view();
        let ghost seen = all.take(i as int);
        let ghost next = all[i as int];
        assert(all.take(i + 1) =~= seen.push(next));
        let word = more[i].as_str();
        if !is_among(words, word) {
            words.push(more[i].clone());
            assert(words.deep_view() =~= before.push(next));
        }
        assert forall|w: Seq<char>| #[trigger]
            words.deep_view().contains(w) <==> first.contains(w) || all.take(i + 1).contains(w) by {
            text::lemma_contains_push(seen, next, w);
            text::lemma_contains_push(before, next, w);
        }
        i = i + 1;
    }
    assert(all.take(all.len() as int) =~= all);
    assert(words.deep_view().to_set() =~= first.to_set().union(all.to_set()));
}

fn words_of(s: &str) -> (r: Vec<String>)
    ensures
        r.deep_view().no_duplicates(),
        r.deep_view().to_set() == words_in(s@),
{
    let runs = text::split_words(s);
    let ghost all = runs.deep_view();
    let mut r: Vec<String> = Vec::new();
    let mut i: usize = 0;
    assert(r.deep_view().to_set() =~= words_among(all.take(0)));
    while i < runs.len()
        invariant
            i <= runs@.len(),
            all == runs.deep_view(),
            r.deep_view().no_duplicates(),
            r.deep_view().to_set() == words_among(all.take(i as int)),
        decreases runs@.len() - i,
    {
        assert(all.take(i + 1).drop_last() =~= all.take(i as int));
        assert(all.take(i + 1).last() == runs@[i as int]@);
        let more = words_of_run(runs[i].as_str());
        add_words(&mut r, &more);
        i = i + 1;
    }
    assert(all.take(all.len() as int) =~= all);
    r
}

/// How well the title of a paper matches a reference, in percent: the share of
/// the title's words that are in the reference, or the share of the reference's
/// words that are in the title, whichever is less.
pub fn title_overlap(reference: &str, title: &str) -> (r: u8)
    ensures
        r as nat == overlap(words_in(title@), words_in(reference@)),
{
    let title_words = words_of(title);
    let reference_words = words_of(reference);
    overlap_percent(&title_words, &reference_words)
}

// ---- the lookup -----------------------------------------------------------

/// Where CrossRef lists the works that it knows.
pub const CROSSREF: &'static str = "https://api.crossref.org/works";

/// How the lookup introduces itself to CrossRef.
pub const USER_AGENT: &'static str = "PaperDock/0.2 (mailto:paperdock@example.com)";

/// How long the lookup waits for CrossRef.
pub const TIMEOUT_SECONDS: u64 = 12;

/// What stops a lookup.
#[derive(Clone, Copy, Debug, PartialEq, Eq, Structural)]
pub enum LookupFault {
    /// There is no reference to look up.
    NothingGiven,
    /// The HTTP client could not be set up.
    NotStarted,
    /// No reply came.
    Unreachable,
    /// The reply holds no document.
    BadReply,
}

/// What the user reads of a fault.
pub open spec fn fault_text(fault: LookupFault) -> Seq<char> {
    match fault {
        LookupFault::NothingGiven => "Paste a reference to verify."@,
        LookupFault::NotStarted => "Could not start the lookup."@,
        LookupFault::Unreachable => "Could not reach CrossRef — check your connection."@,
        LookupFault::BadReply => "CrossRef returned an unexpected response."@,
    }
}

impl LookupFault {
    /// What the user reads of a fault.
    pub fn message(self) -> (r: String)
        ensures
            r@ == fault_text(self),
    {
        match self {
            LookupFault::NothingGiven => "Paste a reference to verify.".to_string(),
            LookupFault::NotStarted => "Could not start the lookup.".to_string(),
            LookupFault::Unreachable =>
                "Could not reach CrossRef — check your connection.".to_string(),
            LookupFault::BadReply => "CrossRef returned an unexpected response.".to_string(),
        }
    }
}

/// The reference to look up, if any was pasted.
pub open spec fn query_in(reference: Seq<char>) -> Option<Seq<char>> {
    if text::is_blank(reference) {
        None
    } else {
        Some(text::trimmed(reference))
    }
}

/// The reference to look up: what was pasted, without white space around it.
pub fn reference_query(reference: &str) -> (r: Result<String, LookupFault>)
    ensures
        match r {
            Ok(query) => query_in(reference@) == Some(query@),
            Err(_) => query_in(reference@) is None,
        },
        match r {
            Ok(query) => !text::is_blank(reference@) && query@ == text::trimmed(reference@),
            Err(fault) => text::is_blank(reference@) && fault == LookupFault::NothingGiven,
        },
{
    let query = text::trim(reference);
    if query.as_str().is_empty() {
        Err(LookupFault::NothingGiven)
    } else {
        Ok(query)
    }
}

/// The parameters that ask CrossRef for the one work closest to a reference.
pub open spec fn lookup_parameters(query: Seq<char>) -> Seq<(Seq<char>, Seq<char>)> {
    seq![
        ("query.bibliographic"@, query),
        ("rows"@, "1"@),
        ("select"@, "title,DOI,author,issued"@),
    ]
}

/// The parameters that ask CrossRef for the one work closest to a reference.
pub fn lookup_query(query: &str) -> (r: Vec<(String, String)>)
    ensures
        r.deep_view() == lookup_parameters(query@),
{
    let mut r: Vec<(String, String)> = Vec::new();
    r.push(("query.bibliographic".to_string(), query.to_string()));
    r.push(("rows".to_string(), "1".to_string()));
    r.push(("select".to_string(), "title,DOI,author,issued".to_string()));
    assert(r.deep_view() =~= lookup_parameters(query@));
    r
}

/// What CrossRef knows of a work.
#[derive(Debug, PartialEq, Eq)]
pub struct Work {
    pub title: String,
    pub doi: String,
    pub authors: String,
    pub year: String,
}

#[verifier::ext_equal]
pub struct WorkView {
    pub title: Seq<char>,
    pub doi: Seq<char>,
    pub authors: Seq<char>,
    pub year: Seq<char>,
}

impl DeepView for Work {
    type V = WorkView;

    open spec fn deep_view(&self) -> WorkView {
        WorkView {
            title: self.title@,
            doi: self.doi@,
            authors: self.authors@,
            year: self.year@,
        }
    }
}

/// The first item of a list that is a member of a JSON value.
pub open spec fn first_of(v: JsonView, name: Seq<char>) -> Option<JsonView> {
    match v.member(name) {
        Some(list) => list.item(0),
        None => None,
    }
}

/// The family names among the described authors.
pub open spec fn family_names(authors: Seq<JsonView>) -> Seq<Seq<char>>
    decreases authors.len(),
{
    if authors.len() == 0 {
        Seq::empty()
    } else {
        let before = family_names(authors.drop_last());
        match authors.last().text_member("family"@) {
            Some(name) => before.push(name),
            None => before,
        }
    }
}

/// At most the first three of a series.
pub open spec fn first_three(authors: Seq<JsonView>) -> Seq<JsonView> {
    if authors.len() <= 3 {
        authors
    } else {
        authors.take(3)
    }
}

/// The year in which a work was issued.
pub open spec fn year_issued(item: JsonView) -> Option<i64> {
    match item.member("issued"@) {
        Some(issued) => match first_of(issued, "date-parts"@) {
            Some(parts) => match parts.item(0) {
                Some(year) => year.signed(),
                None => None,
            },
            None => None,
        },
        None => None,
    }
}

/// The work that an item of CrossRef's list describes: its first title, its DOI,
/// the family names among its first three authors, and the year that it was
/// issued in. What is missing is empty.
pub open spec fn work_in(item: JsonView) -> WorkView {
    WorkView {
        title: match first_of(item, "title"@) {
            Some(title) => match title.text() {
                Some(title) => title,
                None => Seq::empty(),
            },
            None => Seq::empty(),
        },
        doi: item.text_member_or("DOI"@, Seq::empty()),
        authors: text::joined(family_names(first_three(item.items_of("author"@))), ", "@),
        year: match year_issued(item) {
            Some(year) => text::signed_decimal(year as int),
            None => Seq::empty(),
        },
    }
}

/// The closest work in CrossRef's reply, if it lists one.
pub open spec fn closest_work(document: JsonView) -> Option<WorkView> {
    match document.member("message"@) {
        Some(message) => match first_of(message, "items"@) {
            Some(item) => Some(work_in(item)),
            None => None,
        },
        None => None,
    }
}

fn first_text(v: &Json, name: &str) -> (r: String)
    ensures
        r@ == match first_of(v@, name@) {
            Some(first) => match first.text() {
                Some(s) => s,
                None => Seq::empty(),
            },
            None => Seq::empty(),
        },
{
    if let Some(list) = v.get(name) {
        if let Some(first) = list.at(0) {
            if let Some(s) = first.as_text() {
                return s.clone();
            }
        }
    }
    String::new()
}

fn author_line(authors: &Vec<Json>) -> (r: String)
    ensures
        r@ == text::joined(family_names(first_three(json::list_view(authors@))), ", "@),
{
    let ghost views = first_three(json::list_view(authors@));
    let mut names: Vec<String> = Vec::new();
    let mut i: usize = 0;
    assert(names.deep_view() =~= family_names(views.take(0)));
    while i < 3 && i < authors.len()
        invariant
            i <= views.len(),
            views == first_three(json::list_view(authors@)),
            names.deep_view() == family_names(views.take(i as int)),
        decreases authors@.len() - i,
    {
        let ghost before = names.deep_view();
        assert(views.take(i + 1).drop_last() =~= views.take(i as int));
        assert(views[i as int] == authors@[i as int]@);
        if let Some(name) = authors[i].get_text("family") {
            names.push(name);
            assert(names.deep_view() =~= before.push(name@));
        }
        i = i + 1;
    }
    assert(views.take(views.len() as int) =~= views);
    text::join(&names, ", ")
}

fn work_of(item: &Json) -> (r: Work)
    ensures
        r.deep_view() == work_in(item@),
{
    let mut year = String::new();
    if let Some(issued) = item.get("issued") {
        if let Some(dates) = issued.get("date-parts") {
            if let Some(parts) = dates.at(0) {
                if let Some(first) = parts.at(0) {
                    if let Some(y) = first.as_i64() {
                        year = text::write_signed_decimal(y);
                    }
                }
            }
        }
    }
    let authors = match item.get_list("author") {
        Some(authors) => author_line(authors),
        None => {
            assert(text::joined(family_names(Seq::empty()), ", "@) =~= Seq::empty());
            String::new()
        },
    };
    Work {
        title: first_text(item, "title"),
        doi: item.get_text_or_empty("DOI"),
        authors,
        year,
    }
}

/// The closest work in CrossRef's reply, if it lists one.
pub fn closest_of(document: &Json) -> (r: Option<Work>)
    ensures
        r.deep_view() == closest_work(document@),
{
    if let Some(message) = document.get("message") {
        if let Some(items) = message.get("items") {
            if let Some(item) = items.at(0) {
                return Some(work_of(item));
            }
        }
    }
    None
}

// ---- the match ------------------------------------------------------------

/// The closest work that CrossRef knows to a reference, and how well the two
/// match, in percent. CrossRef always has a best guess: with a low confidence it
/// is a work that the reference has nothing to do with.
#[derive(Debug, PartialEq, Eq)]
pub struct RefMatch {
    pub found: bool,
    pub confidence: u8,
    pub title: String,
    pub doi: String,
    pub authors: String,
    pub year: String,
}

#[verifier::ext_equal]
pub struct RefMatchView {
    pub found: bool,
    pub confidence: nat,
    pub title: Seq<char>,
    pub doi: Seq<char>,
    pub authors: Seq<char>,
    pub year: Seq<char>,
}

impl DeepView for RefMatch {
    type V = RefMatchView;

    open spec fn deep_view(&self) -> RefMatchView {
        RefMatchView {
            found: self.found,
            confidence: self.confidence as nat,
            title: self.title@,
            doi: self.doi@,
            authors: self.authors@,
            year: self.year@,
        }
    }
}

impl Clone for RefMatch {
    fn clone(&self) -> (r: Self)
        ensures
            r.deep_view() == self.deep_view(),
    {
        RefMatch {
            found: self.found,
            confidence: self.confidence,
            title: self.title.clone(),
            doi: self.doi.clone(),
            authors: self.authors.clone(),
            year: self.year.clone(),
        }
    }
}

/// The match that a work is, given how well its title matches. A work without a
/// title counts as none, and there is no confidence in it.
pub open spec fn match_for(work: Option<WorkView>, confidence: nat) -> RefMatchView {
    match work {
        Some(work) => RefMatchView {
            found: work.title.len() > 0,
            confidence: if work.title.len() > 0 {
                confidence
            } else {
                0
            },
            title: work.title,
            doi: work.doi,
            authors: work.authors,
            year: work.year,
        },
        None => RefMatchView {
            found: false,
            confidence: 0,
            title: Seq::empty(),
            doi: Seq::empty(),
            authors: Seq::empty(),
            year: Seq::empty(),
        },
    }
}

/// The match that a work is, given how well its title matches.
pub fn rate(work: Option<Work>, confidence: u8) -> (r: RefMatch)
    ensures
        r.deep_view() == match_for(work.deep_view(), confidence as nat),
{
    match work {
        Some(work) => {
            let found = !work.title.as_str().is_empty();
            RefMatch {
                found,
                confidence: if found {
                    confidence
                } else {
                    0
                },
                title: work.title,
                doi: work.doi,
                authors: work.authors,
                year: work.year,
            }
        },
        None => RefMatch {
            found: false,
            confidence: 0,
            title: String::new(),
            doi: String::new(),
            authors: String::new(),
            year: String::new(),
        },
    }
}

/// How well the title of a work matches a reference.
pub open spec fn confidence_in(work: Option<WorkView>, query: Seq<char>) -> nat {
    match work {
        Some(work) => overlap(words_in(work.title), words_in(query)),
        None => 0,
    }
}

/// What a lookup comes to: the closest work in CrossRef's reply, if there was a
/// reply, held against the reference.
pub open spec fn lookup_result(query: Seq<char>, reply: Option<&Reply>) -> Result<
    RefMatchView,
    LookupFault,
> {
    match reply {
        Some(reply) => match reply.document() {
            Some(document) => {
                let work = closest_work(document);
                Ok(match_for(work, confidence_in(work, query)))
            },
            None => Err(LookupFault::BadReply),
        },
        None => Err(LookupFault::Unreachable),
    }
}

/// Holds a reference against the work that CrossRef's reply names, if there was
/// a reply.
pub fn verify_reference(query: &str, reply: Option<&Reply>) -> (r: Result<RefMatch, LookupFault>)
    ensures
        match r {
            Ok(found) => lookup_result(query@, reply) == Ok::<RefMatchView, LookupFault>(
                found.deep_view(),
            ),
            Err(fault) => lookup_result(query@, reply) == Err::<RefMatchView, LookupFault>(fault),
        },
{
    let document = match reply {
        Some(reply) => match reply.read() {
            Some(document) => document,
            None => {
                return Err(LookupFault::BadReply);
            },
        },
        None => {
            return Err(LookupFault::Unreachable);
        },
    };
    let work = closest_of(&document);
    let confidence = match &work {
        Some(work) => title_overlap(query, work.title.as_str()),
        None => 0,
    };
    Ok(rate(work, confidence))
}

// ---- laws -----------------------------------------------------------------

/// The words that count in a text are finitely many.
pub proof fn law_words_are_finite(s: Seq<char>)
    ensures
        words_in(s).finite(),
{
    lemma_words_among_finite(text::words(s));
}

proof fn lemma_words_among_finite(runs: Seq<Seq<char>>)
    ensures
        words_among(runs).finite(),
    decreases runs.len(),
{
    if runs.len() > 0 {
        lemma_words_among_finite(runs.drop_last());
        let lower = in_lower_case(runs.last());
        let all = text::pieces(lower, word_cuts(lower)).to_set();
        assert(words_in_run(runs.last()).subset_of(all));
        vstd::set_lib::lemma_set_subset_finite(all, words_in_run(runs.last()));
    }
}

proof fn lemma_shared(a: Set<Seq<char>>, b: Set<Seq<char>>)
    requires
        a.finite(),
        b.finite(),
    ensures
        a.intersect(b).finite(),
        a.intersect(b).len() <= a.len(),
        a.intersect(b).len() <= b.len(),
        a.intersect(b) == b.intersect(a),
{
    assert(a.intersect(b) =~= b.intersect(a));
    vstd::set_lib::lemma_len_subset(a.intersect(b), a);
    vstd::set_lib::lemma_len_subset(a.intersect(b), b);
}

/// It does not matter which of two texts is the title and which the reference.
pub proof fn law_overlap_is_symmetric(a: Set<Seq<char>>, b: Set<Seq<char>>)
    ensures
        overlap(a, b) == overlap(b, a),
{
    assert(a.intersect(b) =~= b.intersect(a));
}

/// The overlap is a percentage.
pub proof fn law_overlap_is_a_percentage(title: Set<Seq<char>>, reference: Set<Seq<char>>)
    requires
        title.finite(),
        reference.finite(),
    ensures
        0 <= overlap(title, reference) <= 100,
{
    lemma_shared(title, reference);
    let shared = title.intersect(reference).len();
    if title.len() > 0 && reference.len() > 0 {
        lemma_coverage_bound(shared, title.len());
        lemma_coverage_bound(shared, reference.len());
    }
}

/// The overlap reaches a percentage exactly when the shared words make up that
/// much of the title and that much of the reference.
pub proof fn law_overlap_reaches(title: Set<Seq<char>>, reference: Set<Seq<char>>, percent: nat)
    requires
        title.finite(),
        reference.finite(),
        percent > 0,
    ensures
        overlap(title, reference) >= percent <==> {
            let shared = title.intersect(reference).len();
            &&& title.len() > 0
            &&& reference.len() > 0
            &&& shared * 100 >= percent * title.len()
            &&& shared * 100 >= percent * reference.len()
        },
{
    let shared = title.intersect(reference).len();
    if title.len() > 0 && reference.len() > 0 {
        lemma_coverage_reaches(shared, title.len(), percent);
        lemma_coverage_reaches(shared, reference.len(), percent);
    }
}

proof fn lemma_coverage_reaches(shared: nat, words: nat, percent: nat)
    requires
        0 < words,
    ensures
        coverage(shared, words) >= percent <==> shared * 100 >= percent * words,
{
    let q = shared * 100 / words;
    assert(q * words <= shared * 100 < (q + 1) * words) by (nonlinear_arith)
        requires
            0 < words,
            q == shared * 100 / words,
    ;
    if q >= percent {
        assert(percent * words <= q * words) by (nonlinear_arith)
            requires
                percent <= q,
        ;
    } else {
        assert((q + 1) * words <= percent * words) by (nonlinear_arith)
            requires
                q + 1 <= percent,
        ;
    }
}

/// The overlap never exceeds the part of the title's words that the reference
/// has, and is that part where the reference has no more words than the title.
pub proof fn law_overlap_and_the_title(title: Set<Seq<char>>, reference: Set<Seq<char>>)
    requires
        title.finite(),
        reference.finite(),
        title.len() > 0,
    ensures
        overlap(title, reference) <= coverage(title.intersect(reference).len(), title.len()),
        0 < reference.len() <= title.len() ==> overlap(title, reference) == coverage(
            title.intersect(reference).len(),
            title.len(),
        ),
{
    let shared = title.intersect(reference).len();
    let t = title.len();
    let r = reference.len();
    if 0 < r <= t {
        assert(shared * 100 / t <= shared * 100 / r) by (nonlinear_arith)
            requires
                0 < r <= t,
        ;
    }
    assert(shared * 100 / t >= 0) by (nonlinear_arith)
        requires
            t > 0,
    ;
}

/// The overlap is full exactly when both have the same words, and any at all.
pub proof fn law_full_overlap(title: Set<Seq<char>>, reference: Set<Seq<char>>)
    requires
        title.finite(),
        reference.finite(),
    ensures
        overlap(title, reference) == 100 <==> title == reference && title.len() > 0,
{
    lemma_shared(title, reference);
    law_overlap_is_a_percentage(title, reference);
    law_overlap_reaches(title, reference, 100);
    let both = title.intersect(reference);
    if overlap(title, reference) == 100 {
        vstd::set_lib::lemma_subset_equality(both, title);
        vstd::set_lib::lemma_subset_equality(both, reference);
    }
    if title == reference {
        assert(both =~= title);
    }
}

/// Without a word in common there is no overlap.
pub proof fn law_nothing_in_common(title: Set<Seq<char>>, reference: Set<Seq<char>>)
    requires
        title.disjoint(reference),
    ensures
        overlap(title, reference) == 0,
{
    assert(title.intersect(reference) =~= Set::empty());
    if title.len() > 0 && reference.len() > 0 {
        let t = title.len();
        let r = reference.len();
        assert(0nat * 100 / t == 0 && 0nat * 100 / r == 0) by (nonlinear_arith)
            requires
                t > 0,
                r > 0,
        ;
    }
}

proof fn lemma_words_of_two_parts(
    a: Seq<char>,
    cut_a: Seq<bool>,
    between: char,
    b: Seq<char>,
    cut_b: Seq<bool>,
)
    requires
        cut_a.len() == a.len(),
        cut_b.len() == b.len(),
    ensures
        word_set(a.push(between) + b, cut_a.push(true) + cut_b) == word_set(a, cut_a).union(
            word_set(b, cut_b),
        ),
{
    text::lemma_pieces_of_two(a, cut_a, between, b, cut_b);
    let p = text::pieces(a, cut_a);
    let q = text::pieces(b, cut_b);
    assert forall|w: Seq<char>| #[trigger] (p + q).contains(w) <==> p.contains(w) || q.contains(
        w,
    ) by {
        text::lemma_contains_either(p, q, w);
    }
    assert(word_set(a.push(between) + b, cut_a.push(true) + cut_b) =~= word_set(a, cut_a).union(
        word_set(b, cut_b),
    ));
}

proof fn lemma_words_among_two(p: Seq<Seq<char>>, q: Seq<Seq<char>>)
    ensures
        words_among(p + q) == words_among(p).union(words_among(q)),
    decreases q.len(),
{
    if q.len() == 0 {
        assert(p + q =~= p);
        assert(words_among(p) =~= words_among(p).union(words_among(q)));
    } else {
        lemma_words_among_two(p, q.drop_last());
        assert((p + q).drop_last() =~= p + q.drop_last());
        assert(words_among(p + q) =~= words_among(p).union(words_among(q)));
    }
}

/// The words of two texts with white space between them are those of the one and
/// those of the other.
pub proof fn law_words_of_two_texts(a: Seq<char>, between: char, b: Seq<char>)
    requires
        text::is_space(between),
    ensures
        words_in(a.push(between) + b) == words_in(a).union(words_in(b)),
{
    text::lemma_words_of_two(a, between, b);
    lemma_words_among_two(text::words(a), text::words(b));
}

proof fn lemma_words_of_one_run(run: Seq<char>)
    requires
        forall|i: int| 0 <= i < run.len() ==> !text::is_space(#[trigger] run[i]),
    ensures
        words_in(run) == words_in_run(run),
{
    text::lemma_one_word(run);
    if run.len() == 0 {
        let none = in_lower_case(run);
        assert(vstd::utf8::encode_utf8(none).len() == 0);
        text::lemma_one_piece(none, word_cuts(none));
        assert forall|w: Seq<char>| !words_in_run(run).contains(w) by {
            if text::pieces(none, word_cuts(none)).contains(w) {
                assert(w == none);
            }
        }
        assert(words_in(run) =~= words_in_run(run));
    } else {
        reveal_with_fuel(words_among, 2);
        assert(text::words(run).drop_last() =~= Seq::empty());
        assert(words_in(run) =~= words_in_run(run));
    }
}

/// The words of an ASCII text are what stands between the characters that are no
/// letter and no digit, with small letters for capitals.
pub proof fn law_words_of_an_ascii_text(s: Seq<char>)
    requires
        vstd::utf8::is_ascii_chars(s),
    ensures
        words_in(s) == word_set(small_letters(s), word_cuts(small_letters(s))),
    decreases s.len(),
{
    if exists|i: int| 0 <= i < s.len() && text::is_space(#[trigger] s[i]) {
        let i = choose|i: int| 0 <= i < s.len() && text::is_space(#[trigger] s[i]);
        let a = s.take(i);
        let b = s.skip(i + 1);
        assert(a.push(s[i]) + b =~= s);
        law_words_of_two_texts(a, s[i], b);
        law_words_of_an_ascii_text(a);
        law_words_of_an_ascii_text(b);
        let p = small_letters(a);
        let q = small_letters(b);
        assert(small_letters(s) =~= p.push(s[i]) + q);
        assert(word_cuts(small_letters(s)) =~= word_cuts(p).push(true) + word_cuts(q));
        lemma_words_of_two_parts(p, word_cuts(p), s[i], q, word_cuts(q));
    } else {
        lemma_words_of_one_run(s);
    }
}

/// Stop words and words of at most two bytes never count.
pub proof fn law_common_and_short_words_do_not_count(s: Seq<char>, w: Seq<char>)
    requires
        is_stop_word(w) || vstd::utf8::encode_utf8(w).len() <= 2,
    ensures
        !words_in(s).contains(w),
{
    lemma_words_among_are_significant(text::words(s), w);
}

proof fn lemma_words_among_are_significant(runs: Seq<Seq<char>>, w: Seq<char>)
    ensures
        words_among(runs).contains(w) ==> is_significant(w),
    decreases runs.len(),
{
    if runs.len() > 0 {
        lemma_words_among_are_significant(runs.drop_last(), w);
    }
}

/// A text none of whose words counts.
pub open spec fn is_filler(s: Seq<char>) -> bool {
    words_in(s) == Set::<Seq<char>>::empty()
}

/// A text of stop words and of words of at most two bytes, in whatever case, is a
/// filler.
pub proof fn law_common_and_short_words_are_fillers(s: Seq<char>)
    requires
        forall|run: Seq<char>| #[trigger]
            text::words(s).contains(run) ==> is_stop_word(in_lower_case(run))
                || vstd::utf8::encode_utf8(in_lower_case(run)).len() <= 2,
    ensures
        is_filler(s),
{
    lemma_fillers_among(text::words(s));
}

proof fn lemma_fillers_among(runs: Seq<Seq<char>>)
    requires
        forall|run: Seq<char>| #[trigger]
            runs.contains(run) ==> is_stop_word(in_lower_case(run)) || vstd::utf8::encode_utf8(
                in_lower_case(run),
            ).len() <= 2,
    ensures
        words_among(runs) == Set::<Seq<char>>::empty(),
    decreases runs.len(),
{
    if runs.len() > 0 {
        let fewer = runs.drop_last();
        assert forall|run: Seq<char>| #[trigger] fewer.contains(run) implies runs.contains(run) by {
            text::lemma_contains_push(fewer, runs.last(), run);
            assert(fewer.push(runs.last()) =~= runs);
        }
        lemma_fillers_among(fewer);
        assert(runs[runs.len() - 1] == runs.last());
        assert(runs.contains(runs.last()));
        let lower = in_lower_case(runs.last());
        let cut = word_cuts(lower);
        assert forall|w: Seq<char>| text::pieces(lower, cut).contains(w) implies !is_significant(
            w,
        ) by {
            if is_stop_word(lower) {
                lemma_stop_words_are_ascii(lower);
                text::lemma_one_piece(lower, cut);
                assert(w == lower);
            } else {
                lemma_piece_bytes(lower, cut, w);
            }
        }
        assert(words_in_run(runs.last()) =~= Set::empty());
        assert(words_among(runs) =~= Set::empty());
    }
}

proof fn lemma_stop_words_are_ascii(w: Seq<char>)
    requires
        is_stop_word(w),
    ensures
        w.len() > 0,
        forall|i: int| 0 <= i < w.len() ==> 'a' <= #[trigger] w[i] <= 'z',
{
    reveal_strlit("the");
    reveal_strlit("of");
    reveal_strlit("and");
    reveal_strlit("for");
    reveal_strlit("with");
    reveal_strlit("from");
    reveal_strlit("using");
    reveal_strlit("via");
    reveal_strlit("based");
}

proof fn lemma_bytes_of_one_more(s: Seq<char>, c: char)
    ensures
        vstd::utf8::encode_utf8(s.push(c)).len() == vstd::utf8::encode_utf8(s).len()
            + vstd::utf8::encode_scalar(c as u32).len(),
    decreases s.len(),
{
    reveal_with_fuel(vstd::utf8::encode_utf8, 2);
    if s.len() > 0 {
        lemma_bytes_of_one_more(s.drop_first(), c);
        assert(s.push(c).drop_first() =~= s.drop_first().push(c));
    } else {
        assert(s.push(c).drop_first() =~= Seq::empty());
    }
}

/// No piece of a text has more bytes than the text.
proof fn lemma_piece_bytes(s: Seq<char>, cut: Seq<bool>, w: Seq<char>)
    requires
        text::pieces(s, cut).contains(w),
    ensures
        vstd::utf8::encode_utf8(w).len() <= vstd::utf8::encode_utf8(s).len(),
    decreases s.len(),
{
    if s.len() == 0 {
        assert(w =~= Seq::empty());
    } else {
        let fewer = s.drop_last();
        let before = text::pieces(fewer, cut);
        text::lemma_pieces_agree(fewer, cut, cut);
        assert(fewer.push(s.last()) =~= s);
        lemma_bytes_of_one_more(fewer, s.last());
        if cut[s.len() - 1] {
            text::lemma_contains_push(before, Seq::empty(), w);
            if before.contains(w) {
                lemma_piece_bytes(fewer, cut, w);
            }
        } else {
            let last = before.last();
            assert(before[before.len() - 1] == last);
            lemma_piece_bytes(fewer, cut, last);
            lemma_bytes_of_one_more(last, s.last());
            text::lemma_contains_push(before.drop_last(), last.push(s.last()), w);
            if before.drop_last().contains(w) {
                text::lemma_contains_push(before.drop_last(), last, w);
                assert(before.drop_last().push(last) =~= before);
                lemma_piece_bytes(fewer, cut, w);
            }
        }
    }
}

/// Two fillers with white space between them are a filler.
pub proof fn law_fillers_add_up(a: Seq<char>, between: char, b: Seq<char>)
    requires
        text::is_space(between),
        is_filler(a),
        is_filler(b),
    ensures
        is_filler(a.push(between) + b),
{
    law_words_of_two_texts(a, between, b);
    assert(words_in(a.push(between) + b) =~= Set::empty());
}

/// Repeats and fillers do not count: a text, a filler and the text again have the words
/// of the text, so they score as it does, be it the reference or the title.
pub proof fn law_repeats_and_fillers_do_not_count(
    r: Seq<char>,
    x: char,
    filler: Seq<char>,
    y: char,
    other: Seq<char>,
)
    requires
        text::is_space(x),
        text::is_space(y),
        is_filler(filler),
    ensures
        ({
            let again = r.push(x) + (filler.push(y) + r);
            &&& words_in(again) == words_in(r)
            &&& overlap(words_in(other), words_in(again)) == overlap(words_in(other), words_in(r))
            &&& overlap(words_in(again), words_in(other)) == overlap(words_in(r), words_in(other))
        }),
{
    law_words_of_two_texts(r, x, filler.push(y) + r);
    law_words_of_two_texts(filler, y, r);
    assert(words_in(r.push(x) + (filler.push(y) + r)) =~= words_in(r));
}

/// So it is with "the of a," for a filler, whatever the text.
pub proof fn law_saying_it_again_scores_the_same(r: Seq<char>, other: Seq<char>)
    ensures
        ({
            let again = r + " the of a, "@ + r;
            &&& overlap(words_in(other), words_in(again)) == overlap(words_in(other), words_in(r))
            &&& overlap(words_in(again), words_in(other)) == overlap(words_in(r), words_in(other))
        }),
{
    reveal_strlit(" the of a, ");
    reveal_strlit("the");
    reveal_strlit("of");
    let short = seq!['a', ','];
    let rest = "of"@.push(' ') + short;
    let filler = "the"@.push(' ') + rest;
    text::lemma_words_of_two("the"@, ' ', rest);
    text::lemma_words_of_two("of"@, ' ', short);
    text::lemma_one_word("the"@);
    text::lemma_one_word("of"@);
    text::lemma_one_word(short);
    assert(text::words(filler) =~= seq!["the"@, "of"@, short]);
    assert(in_lower_case("the"@) =~= "the"@);
    assert(in_lower_case("of"@) =~= "of"@);
    assert(in_lower_case(short) =~= short);
    vstd::utf8::is_ascii_chars_encode_utf8(short);
    law_common_and_short_words_are_fillers(filler);
    law_repeats_and_fillers_do_not_count(r, ' ', filler, ' ', other);
    assert(r + " the of a, "@ + r =~= r.push(' ') + (filler.push(' ') + r));
}

/// The order of words does not count: two texts with white space between them have the
/// same words, and the same score, either way round.
pub proof fn law_order_does_not_count(a: Seq<char>, between: char, b: Seq<char>, other: Seq<char>)
    requires
        text::is_space(between),
    ensures
        ({
            let one = a.push(between) + b;
            let two = b.push(between) + a;
            &&& words_in(one) == words_in(two)
            &&& overlap(words_in(other), words_in(one)) == overlap(words_in(other), words_in(two))
            &&& overlap(words_in(one), words_in(other)) == overlap(words_in(two), words_in(other))
        }),
{
    law_words_of_two_texts(a, between, b);
    law_words_of_two_texts(b, between, a);
    assert(words_in(a.push(between) + b) =~= words_in(b.push(between) + a));
}

/// Punctuation does not count: in an ASCII text any character that is no letter and no
/// digit can stand for any other.
pub proof fn law_punctuation_does_not_count(a: Seq<char>, b: Seq<char>, other: Seq<char>)
    requires
        vstd::utf8::is_ascii_chars(a),
        vstd::utf8::is_ascii_chars(b),
        a.len() == b.len(),
        forall|i: int|
            #![trigger a[i]]
            0 <= i < a.len() ==> a[i] == b[i] || !is_letter_or_digit(a[i]) && !is_letter_or_digit(
                b[i],
            ),
    ensures
        words_in(a) == words_in(b),
        overlap(words_in(other), words_in(a)) == overlap(words_in(other), words_in(b)),
        overlap(words_in(a), words_in(other)) == overlap(words_in(b), words_in(other)),
{
    let p = small_letters(a);
    let q = small_letters(b);
    law_words_of_an_ascii_text(a);
    law_words_of_an_ascii_text(b);
    assert forall|i: int| 0 <= i < p.len() implies (#[trigger] word_cuts(p)[i] == word_cuts(q)[i])
        && (p[i] == q[i] || word_cuts(p)[i]) by {
        assert(a[i] == b[i] || !is_letter_or_digit(a[i]) && !is_letter_or_digit(b[i]));
    }
    assert(word_cuts(p) =~= word_cuts(q));
    text::lemma_cut_characters_do_not_matter(p, q, word_cuts(p));
}

/// Case does not count: ASCII texts that differ in it alone have the same words, and the
/// same score.
pub proof fn law_case_does_not_count(a: Seq<char>, b: Seq<char>, other: Seq<char>)
    requires
        vstd::utf8::is_ascii_chars(a),
        vstd::utf8::is_ascii_chars(b),
        small_letters(a) == small_letters(b),
    ensures
        words_in(a) == words_in(b),
        overlap(words_in(other), words_in(a)) == overlap(words_in(other), words_in(b)),
        overlap(words_in(a), words_in(other)) == overlap(words_in(b), words_in(other)),
{
    law_words_of_an_ascii_text(a);
    law_words_of_an_ascii_text(b);
}

/// An ASCII small letter as a capital, and any other character as it is.
pub open spec fn capital(c: char) -> char {
    if 'a' <= c <= 'z' {
        (c as u32 - 32) as char
    } else {
        c
    }
}

/// A text with capitals for its ASCII small letters.
pub open spec fn capitals(s: Seq<char>) -> Seq<char> {
    Seq::new(s.len(), |i: int| capital(s[i]))
}

/// So it is with an ASCII text and the same in capitals.
pub proof fn law_capitals_score_the_same(s: Seq<char>, other: Seq<char>)
    requires
        vstd::utf8::is_ascii_chars(s),
    ensures
        words_in(capitals(s)) == words_in(s),
        overlap(words_in(other), words_in(capitals(s))) == overlap(words_in(other), words_in(s)),
        overlap(words_in(capitals(s)), words_in(other)) == overlap(words_in(s), words_in(other)),
{
    assert(small_letters(capitals(s)) =~= small_letters(s));
    law_case_does_not_count(capitals(s), s, other);
}

/// The words that count are all those of three bytes or more, however long, but for the
/// nine stop words.
pub proof fn law_what_counts_as_a_word(w: Seq<char>)
    ensures
        is_significant(w) <==> {
            &&& vstd::utf8::encode_utf8(w).len() >= 3
            &&& w != "the"@
            &&& w != "of"@
            &&& w != "and"@
            &&& w != "for"@
            &&& w != "with"@
            &&& w != "from"@
            &&& w != "using"@
            &&& w != "via"@
            &&& w != "based"@
        },
{
}

/// Among the ASCII characters the letters and the digits make up words, capitals counting
/// as the small letters.
pub proof fn law_letters_and_digits(c: char)
    requires
        c as u32 <= 127,
    ensures
        is_letter_or_digit(c) <==> 48 <= c as u32 <= 57 || 65 <= c as u32 <= 90 || 97 <= c as u32
            <= 122,
        small(c) as u32 == if 65 <= c as u32 <= 90 {
            c as u32 + 32
        } else {
            c as int
        },
{
}

/// The letters and digits from position `from` up to position `to` are a word of the text:
/// no letter or digit stands right before them or right after.
pub open spec fn is_whole_word(s: Seq<char>, from: int, to: int) -> bool {
    &&& 0 <= from <= to <= s.len()
    &&& forall|k: int| from <= k < to ==> is_letter_or_digit(#[trigger] s[k])
    &&& from > 0 ==> !is_letter_or_digit(s[from - 1])
    &&& to < s.len() ==> !is_letter_or_digit(s[to])
}

proof fn lemma_whole_words_are_uncut(s: Seq<char>, from: int, to: int)
    requires
        vstd::utf8::is_ascii_chars(s),
    ensures
        is_whole_word(s, from, to) <==> text::is_uncut_run(word_cuts(small_letters(s)), from, to),
{
    let p = small_letters(s);
    let cut = word_cuts(p);
    assert forall|k: int| 0 <= k < s.len() implies #[trigger] cut[k] == !is_letter_or_digit(
        s[k],
    ) by {}
    if is_whole_word(s, from, to) {
        assert forall|k: int| from <= k < to implies !#[trigger] cut[k] by {
            assert(is_letter_or_digit(s[k]));
        }
    }
    if text::is_uncut_run(cut, from, to) {
        assert forall|k: int| from <= k < to implies is_letter_or_digit(#[trigger] s[k]) by {
            assert(!cut[k]);
        }
    }
}

/// Every word of an ASCII text counts that is three characters long or longer and is no
/// stop word: in small letters it is among the words of the text.
pub proof fn law_every_long_word_counts(s: Seq<char>, from: int, to: int)
    requires
        vstd::utf8::is_ascii_chars(s),
        is_whole_word(s, from, to),
        to - from >= 3,
        ({
            let w = small_letters(s.subrange(from, to));
            &&& w != "the"@
            &&& w != "and"@
            &&& w != "for"@
            &&& w != "with"@
            &&& w != "from"@
            &&& w != "using"@
            &&& w != "via"@
            &&& w != "based"@
        }),
    ensures
        words_in(s).contains(small_letters(s.subrange(from, to))),
{
    let w = small_letters(s.subrange(from, to));
    let p = small_letters(s);
    law_words_of_an_ascii_text(s);
    lemma_whole_words_are_uncut(s, from, to);
    text::law_every_uncut_run_is_a_piece(p, word_cuts(p), from, to);
    assert(p.subrange(from, to) =~= w);
    assert(vstd::utf8::is_ascii_chars(w));
    vstd::utf8::is_ascii_chars_encode_utf8(w);
    reveal_strlit("of");
}

/// Nothing else counts: what is among the words of an ASCII text stands in it as a word, in
/// small letters or in capitals, is three characters long or longer, and is no stop word.
pub proof fn law_only_long_words_count(s: Seq<char>, w: Seq<char>)
    requires
        vstd::utf8::is_ascii_chars(s),
        words_in(s).contains(w),
    ensures
        exists|from: int, to: int|
            is_whole_word(s, from, to) && to - from >= 3 && w == small_letters(
                #[trigger] s.subrange(from, to),
            ),
        w != "the"@ && w != "of"@ && w != "and"@ && w != "for"@ && w != "with"@ && w != "from"@
            && w != "using"@ && w != "via"@ && w != "based"@,
{
    let p = small_letters(s);
    law_words_of_an_ascii_text(s);
    text::law_every_piece_is_an_uncut_run(p, word_cuts(p), w);
    let (from, to) = choose|from: int, to: int|
        text::is_uncut_run(word_cuts(p), from, to) && w == #[trigger] p.subrange(from, to);
    lemma_whole_words_are_uncut(s, from, to);
    assert(w =~= small_letters(s.subrange(from, to)));
    assert(vstd::utf8::is_ascii_chars(w));
    vstd::utf8::is_ascii_chars_encode_utf8(w);
}

/// Beyond ASCII as well, every piece of a stretch between white space counts, in lower
/// case, that has three bytes or more and is no stop word.
pub proof fn law_words_beyond_ascii_count(s: Seq<char>, run: Seq<char>, from: int, to: int)
    requires
        text::words(s).contains(run),
        is_whole_word(in_lower_case(run), from, to),
        vstd::utf8::encode_utf8(in_lower_case(run).subrange(from, to)).len() >= 3,
        !is_stop_word(in_lower_case(run).subrange(from, to)),
    ensures
        words_in(s).contains(in_lower_case(run).subrange(from, to)),
{
    let lower = in_lower_case(run);
    let cut = word_cuts(lower);
    assert(text::is_uncut_run(cut, from, to)) by {
        assert forall|k: int| from <= k < to implies !#[trigger] cut[k] by {
            assert(is_letter_or_digit(lower[k]));
        }
    }
    text::law_every_uncut_run_is_a_piece(lower, cut, from, to);
    lemma_words_among_contain(text::words(s), run, lower.subrange(from, to));
}

proof fn lemma_words_among_contain(runs: Seq<Seq<char>>, run: Seq<char>, w: Seq<char>)
    requires
        runs.contains(run),
        words_in_run(run).contains(w),
    ensures
        words_among(runs).contains(w),
    decreases runs.len(),
{
    if runs.last() != run {
        assert(runs.drop_last().push(runs.last()) =~= runs);
        text::lemma_contains_push(runs.drop_last(), runs.last(), run);
        lemma_words_among_contain(runs.drop_last(), run, w);
    }
}

/// The score: of `n` words of a title and `m` of a reference that have `shared` in common,
/// the lesser of the two shares in whole percent, rounded down.
pub proof fn law_the_score(title: Set<Seq<char>>, reference: Set<Seq<char>>)
    requires
        title.finite(),
        reference.finite(),
    ensures
        ({
            let shared = title.intersect(reference).len();
            let n = title.len();
            let m = reference.len();
            let score = overlap(title, reference);
            &&& n == 0 || m == 0 ==> score == 0
            &&& n > 0 && m > 0 ==> {
                &&& score * n <= shared * 100
                &&& score * m <= shared * 100
                &&& (score + 1) * n > shared * 100 || (score + 1) * m > shared * 100
            }
        }),
{
    let score = overlap(title, reference);
    if title.len() > 0 && reference.len() > 0 {
        if score > 0 {
            law_overlap_reaches(title, reference, score);
        } else {
            let n = title.len();
            let m = reference.len();
            assert(score * n == 0 && score * m == 0) by (nonlinear_arith)
                requires
                    score == 0,
            ;
        }
        law_overlap_reaches(title, reference, score + 1);
    }
}

/// The reference is sent to CrossRef as it was pasted, but for the white space around it.
pub proof fn law_the_reference_is_looked_up(query: Seq<char>)
    ensures
        lookup_parameters(query).len() == 3,
        lookup_parameters(query)[0].0 == "query.bibliographic"@,
        lookup_parameters(query)[0].1 == query,
{
}

/// The closest work is the first that CrossRef lists: its first title and its DOI are
/// those that the list gives, character for character.
pub proof fn law_the_closest_work_is_the_first(
    document: JsonView,
    message: JsonView,
    items: Seq<JsonView>,
    titles: Seq<JsonView>,
    title: Seq<char>,
    doi: Seq<char>,
)
    requires
        document.member("message"@) == Some(message),
        message.member("items"@) == Some(JsonView::List(items)),
        items.len() > 0,
    ensures
        closest_work(document) is Some,
        items[0].member("title"@) == Some(JsonView::List(titles)) && titles.len() > 0 && titles[0]
            == JsonView::Text(title) ==> closest_work(document)->Some_0.title == title,
        items[0].member("DOI"@) == Some(JsonView::Text(doi)) ==> closest_work(document)->Some_0.doi
            == doi,
        closest_work(document)->Some_0.authors == work_in(items[0]).authors,
        closest_work(document)->Some_0.year == work_in(items[0]).year,
{
}

/// The year of a work is the first number of the first of its dates.
pub proof fn law_the_year_of_a_work(
    item: JsonView,
    issued: JsonView,
    dates: Seq<JsonView>,
    parts: Seq<JsonView>,
    year: i64,
)
    requires
        item.member("issued"@) == Some(issued),
        issued.member("date-parts"@) == Some(JsonView::List(dates)),
        dates.len() > 0,
        dates[0] == JsonView::List(parts),
        parts.len() > 0,
        parts[0].signed() == Some(year),
    ensures
        work_in(item).year == text::signed_decimal(year as int),
{
}

/// The authors of a work are the family names of its first three, in order: an author who
/// has one is named by it, character for character, and one without is left out.
pub proof fn law_authors_are_named(item: JsonView, authors: Seq<JsonView>)
    requires
        item.member("author"@) == Some(JsonView::List(authors)),
    ensures
        authors.len() <= 3 ==> work_in(item).authors == text::joined(family_names(authors), ", "@),
        authors.len() > 3 ==> work_in(item).authors == text::joined(
            family_names(authors.take(3)),
            ", "@,
        ),
{
}

/// One author more adds the family name, if there is one, after those before.
pub proof fn law_one_author_more(authors: Seq<JsonView>, author: JsonView, name: Seq<char>)
    ensures
        family_names(Seq::empty()) == Seq::<Seq<char>>::empty(),
        author.member("family"@) == Some(JsonView::Text(name)) ==> family_names(
            authors.push(author),
        ) == family_names(authors).push(name),
        author.member("family"@) is None ==> family_names(authors.push(author)) == family_names(
            authors,
        ),
{
    assert(authors.push(author).drop_last() =~= authors);
}

/// What a lookup finds is the closest work, field for field, with the score that its title
/// has against the reference; a work without a title counts as not found.
pub proof fn law_a_lookup_tells_of_the_work(query: Seq<char>, reply: &Reply, document: JsonView)
    requires
        reply.document() == Some(document),
    ensures
        lookup_result(query, Some(reply)) matches Ok(found) && match closest_work(document) {
            Some(work) => {
                &&& found.title == work.title
                &&& found.doi == work.doi
                &&& found.authors == work.authors
                &&& found.year == work.year
                &&& found.found == (work.title.len() > 0)
                &&& work.title.len() > 0 ==> found.confidence == overlap(
                    words_in(work.title),
                    words_in(query),
                )
            },
            None => !found.found && found.confidence == 0 && found.title.len() == 0,
        },
{
}

/// A match without a title has no confidence, whatever the reference.
pub proof fn law_no_title_no_confidence(work: WorkView, confidence: nat)
    requires
        work.title.len() == 0,
    ensures
        !match_for(Some(work), confidence).found,
        match_for(Some(work), confidence).confidence == 0,
{
}

/// All of a reference is looked up: a pasted text that neither begins nor ends with white
/// space is taken as it is, however long it is, and white space around it does not matter.
pub proof fn law_the_whole_reference_is_taken(reference: Seq<char>)
    ensures
        reference.len() > 0 && !text::is_space(reference[0]) && !text::is_space(reference.last())
            ==> query_in(reference) == Some(reference),
        query_in(reference) is None <==> text::only_spaces(reference, 0, reference.len() as int),
        query_in(reference) matches Some(query) ==> query == text::trimmed(reference),
{
    text::law_blank_is_white_space(reference);
    if reference.len() > 0 && !text::is_space(reference[0]) && !text::is_space(reference.last()) {
        text::law_trimmed_text_stays(reference);
    }
}

/// What CrossRef does not say of a work is empty.
pub proof fn law_what_crossref_does_not_say_is_empty(item: JsonView)
    ensures
        item.list_member("title"@) is None ==> work_in(item).title.len() == 0,
        item.text_member("DOI"@) is None ==> work_in(item).doi.len() == 0,
        item.list_member("author"@) is None ==> work_in(item).authors.len() == 0,
        item.member("issued"@) is None ==> work_in(item).year.len() == 0,
{
    if item.list_member("author"@) is None {
        assert(item.items_of("author"@) == Seq::<JsonView>::empty());
        assert(family_names(Seq::empty()) == Seq::<Seq<char>>::empty());
    }
}

/// Without a reply the lookup says that CrossRef could not be reached, and with one that
/// holds no document that it was not understood.
pub proof fn law_failed_lookups_are_told_apart(query: Seq<char>, reply: &Reply)
    ensures
        lookup_result(query, None) == Err::<RefMatchView, LookupFault>(LookupFault::Unreachable),
        reply.document() is None ==> lookup_result(query, Some(reply)) == Err::<
            RefMatchView,
            LookupFault,
        >(LookupFault::BadReply),
{
}

} // verus!
