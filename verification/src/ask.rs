//! Putting the papers of a collection before the query engine.

use crate::config;
use crate::config::{Config, ConfigView};
use crate::sidecar;
use crate::sidecar::{AnswerEvent, AnswerEventView, WorkerCommand, WorkerRequest, WorkerRequestView};
use crate::text;
use crate::zotero;
use crate::zotero::{CollectionDocs, CollectionDocsView, DocRef, DocRefView};
use vstd::prelude::*;

verus! {

// ---- what is asked --------------------------------------------------------

/// A job for the query engine: what to do with which collection of a library.
#[derive(Debug, PartialEq, Eq)]
pub struct Task {
    pub command: WorkerCommand,
    pub library: String,
    pub collection_key: String,
    pub question: String,
    pub history: String,
    /// The one paper to go by. None: all of the collection.
    pub source: Option<String>,
}

#[verifier::ext_equal]
pub struct TaskView {
    pub command: WorkerCommand,
    pub library: Seq<char>,
    pub collection_key: Seq<char>,
    pub question: Seq<char>,
    pub history: Seq<char>,
    pub source: Option<Seq<char>>,
}

impl DeepView for Task {
    type V = TaskView;

    open spec fn deep_view(&self) -> TaskView {
        TaskView {
            command: self.command,
            library: self.library@,
            collection_key: self.collection_key@,
            question: self.question@,
            history: self.history@,
            source: self.source.deep_view(),
        }
    }
}

/// The job to answer a question, going by the conversation so far.
pub open spec fn asked(
    library: Seq<char>,
    collection_key: Seq<char>,
    question: Seq<char>,
    history: Option<Seq<char>>,
) -> TaskView {
    TaskView {
        command: WorkerCommand::Ask,
        library,
        collection_key,
        question,
        history: config::or_empty(history),
        source: None,
    }
}

/// The job to judge whether the papers support a claim: all of them, or the one named.
pub open spec fn checked(
    library: Seq<char>,
    collection_key: Seq<char>,
    claim: Seq<char>,
    source_key: Option<Seq<char>>,
) -> TaskView {
    TaskView {
        command: WorkerCommand::Check,
        library,
        collection_key,
        question: claim,
        history: Seq::empty(),
        source: match source_key {
            Some(key) => if key.len() == 0 {
                None
            } else {
                Some(key)
            },
            None => None,
        },
    }
}

/// The job to read the papers into the index.
pub open spec fn indexed(library: Seq<char>, collection_key: Seq<char>) -> TaskView {
    TaskView {
        command: WorkerCommand::Index,
        library,
        collection_key,
        question: Seq::empty(),
        history: Seq::empty(),
        source: None,
    }
}

impl Task {
    /// Answer a question, going by the conversation so far.
    pub fn ask(
        library: String,
        collection_key: String,
        question: String,
        history: Option<String>,
    ) -> (r: Task)
        ensures
            r.deep_view() == asked(library@, collection_key@, question@, history.deep_view()),
            r.deep_view() == (TaskView {
                command: WorkerCommand::Ask,
                library: library@,
                collection_key: collection_key@,
                question: question@,
                history: config::or_empty(history.deep_view()),
                source: None,
            }),
    {
        Task {
            command: WorkerCommand::Ask,
            library,
            collection_key,
            question,
            history: config::text_or_empty(&history),
            source: None,
        }
    }

    /// Judge whether the papers support a claim: all of them, or the one named.
    pub fn check(
        library: String,
        collection_key: String,
        claim: String,
        source_key: Option<String>,
    ) -> (r: Task)
        ensures
            r.deep_view() == checked(library@, collection_key@, claim@, source_key.deep_view()),
            r.deep_view() == (TaskView {
                command: WorkerCommand::Check,
                library: library@,
                collection_key: collection_key@,
                question: claim@,
                history: Seq::empty(),
                source: match source_key {
                    Some(key) => if key@.len() == 0 {
                        None
                    } else {
                        Some(key@)
                    },
                    None => None,
                },
            }),
    {
        let source = match source_key {
            Some(key) => if key.as_str().is_empty() {
                None
            } else {
                Some(key)
            },
            None => None,
        };
        Task {
            command: WorkerCommand::Check,
            library,
            collection_key,
            question: claim,
            history: String::new(),
            source,
        }
    }

    /// Only read the papers into the index.
    pub fn index_collection(library: String, collection_key: String) -> (r: Task)
        ensures
            r.deep_view() == indexed(library@, collection_key@),
            r.deep_view() == (TaskView {
                command: WorkerCommand::Index,
                library: library@,
                collection_key: collection_key@,
                question: Seq::empty(),
                history: Seq::empty(),
                source: None,
            }),
    {
        Task {
            command: WorkerCommand::Index,
            library,
            collection_key,
            question: String::new(),
            history: String::new(),
            source: None,
        }
    }
}

// ---- which papers ---------------------------------------------------------

/// The papers with the given key.
pub open spec fn docs_with_key(docs: Seq<DocRefView>, key: Seq<char>) -> Seq<DocRefView>
    decreases docs.len(),
{
    if docs.len() == 0 {
        Seq::empty()
    } else {
        let before = docs_with_key(docs.drop_last(), key);
        if docs.last().zotero_key == key {
            before.push(docs.last())
        } else {
            before
        }
    }
}

/// The papers to go by: all of them, or those that are the source to go by.
pub open spec fn targeted(docs: Seq<DocRefView>, source: Option<Seq<char>>) -> Seq<DocRefView> {
    match source {
        Some(key) => docs_with_key(docs, key),
        None => docs,
    }
}

/// The papers to go by: all of them, or those that are the source to go by.
pub fn target_docs(docs: Vec<DocRef>, source: &Option<String>) -> (r: Vec<DocRef>)
    ensures
        r.deep_view() == targeted(docs.deep_view(), source.deep_view()),
{
    match source {
        Some(key) => {
            let ghost all = docs.deep_view();
            let mut r: Vec<DocRef> = Vec::new();
            let mut i: usize = 0;
            assert(r.deep_view() =~= docs_with_key(all.take(0), key@));
            while i < docs.len()
                invariant
                    i <= docs@.len(),
                    all == docs.deep_view(),
                    r.deep_view() == docs_with_key(all.take(i as int), key@),
                decreases docs@.len() - i,
            {
                let ghost before = r.deep_view();
                assert(all.take(i + 1).drop_last() =~= all.take(i as int));
                if text::same_text(docs[i].zotero_key.as_str(), key.as_str()) {
                    let doc = docs[i].clone();
                    r.push(doc);
                    assert(r.deep_view() =~= before.push(all[i as int]));
                }
                i = i + 1;
            }
            assert(all.take(all.len() as int) =~= all);
            r
        },
        None => docs,
    }
}

/// How many of the papers without a PDF are named.
pub const NAMED_AT_MOST: usize = 6;

/// The first of the papers without a PDF by name, and how many more there are.
pub open spec fn skipped_list(skipped: Seq<Seq<char>>) -> Seq<char> {
    if skipped.len() <= NAMED_AT_MOST {
        text::joined(skipped, ", "@)
    } else {
        text::joined(skipped.take(NAMED_AT_MOST as int), ", "@) + ", +"@ + text::decimal(
            (skipped.len() - NAMED_AT_MOST) as nat,
        ) + " more"@
    }
}

fn list_skipped(skipped: &Vec<String>) -> (r: String)
    ensures
        r@ == skipped_list(skipped.deep_view()),
{
    let mut names: Vec<String> = Vec::new();
    let ghost all = skipped.deep_view();
    let mut i: usize = 0;
    while i < NAMED_AT_MOST && i < skipped.len()
        invariant
            i <= skipped@.len(),
            i <= NAMED_AT_MOST,
            all == skipped.deep_view(),
            names.deep_view() == all.take(i as int),
        decreases skipped@.len() - i,
    {
        let ghost before = names.deep_view();
        names.push(skipped[i].clone());
        assert(names.deep_view() =~= before.push(all[i as int]));
        assert(all.take(i + 1) =~= all.take(i as int).push(all[i as int]));
        i = i + 1;
    }
    let mut r = text::join(&names, ", ");
    if skipped.len() > NAMED_AT_MOST {
        r.append(", +");
        text::push_decimal(&mut r, (skipped.len() - NAMED_AT_MOST) as u128);
        r.append(" more");
    } else {
        assert(all.take(all.len() as int) =~= all);
    }
    r
}

/// What the user reads where no paper can be gone by.
pub open spec fn refusal_text(skipped: nat) -> Seq<char> {
    if skipped == 0 {
        "No PDFs found in this collection."@
    } else {
        "None of the "@ + text::decimal(skipped)
            + " papers have a PDF downloaded. Open them in Zotero and sync/download the PDFs, then try again."@
    }
}

/// What the user reads where some papers have no PDF, so that an answer that went
/// by fewer papers never passes for one that went by all.
pub open spec fn notice_text(docs: nat, skipped: Seq<Seq<char>>) -> Seq<char> {
    "Answering from "@ + text::decimal(docs) + " of "@ + text::decimal(docs + skipped.len())
        + " papers — "@ + text::decimal(skipped.len()) + " have no PDF downloaded: "@
        + skipped_list(skipped)
}

/// What to tell the user of the papers that a job can go by.
pub open spec fn coverage_event(selected: CollectionDocsView) -> Option<AnswerEventView> {
    if selected.docs.len() == 0 {
        Some(AnswerEventView::Error { message: refusal_text(selected.skipped.len()) })
    } else if selected.skipped.len() == 0 {
        None
    } else {
        Some(
            AnswerEventView::Notice { message: notice_text(selected.docs.len(), selected.skipped) },
        )
    }
}

/// What to tell the user of the papers that a job can go by. An error means that
/// the job ends here.
pub fn coverage_report(selected: &CollectionDocs) -> (r: Option<AnswerEvent>)
    ensures
        r.deep_view() == coverage_event(selected.deep_view()),
{
    let docs = selected.docs.len();
    let skipped = selected.skipped.len();
    if docs == 0 {
        if skipped == 0 {
            return Some(
                AnswerEvent::Error { message: "No PDFs found in this collection.".to_string() },
            );
        }
        let mut message = "None of the ".to_string();
        text::push_decimal(&mut message, skipped as u128);
        message.append(
            " papers have a PDF downloaded. Open them in Zotero and sync/download the PDFs, then try again.",
        );
        return Some(AnswerEvent::Error { message });
    }
    if skipped == 0 {
        return None;
    }
    let mut message = "Answering from ".to_string();
    text::push_decimal(&mut message, docs as u128);
    message.append(" of ");
    text::push_decimal(&mut message, docs as u128 + skipped as u128);
    message.append(" papers — ");
    text::push_decimal(&mut message, skipped as u128);
    message.append(" have no PDF downloaded: ");
    let list = list_skipped(&selected.skipped);
    message.append(list.as_str());
    Some(AnswerEvent::Notice { message })
}

/// What becomes of a job: the papers that it goes by, what to tell the user of
/// them, and whether it goes on.
#[derive(Debug, PartialEq, Eq)]
pub struct Prepared {
    pub docs: Vec<DocRef>,
    pub tell: Option<AnswerEvent>,
    pub proceed: bool,
}

#[verifier::ext_equal]
pub struct PreparedView {
    pub docs: Seq<DocRefView>,
    pub tell: Option<AnswerEventView>,
    pub proceed: bool,
}

impl DeepView for Prepared {
    type V = PreparedView;

    open spec fn deep_view(&self) -> PreparedView {
        PreparedView {
            docs: self.docs.deep_view(),
            tell: self.tell.deep_view(),
            proceed: self.proceed,
        }
    }
}

/// What becomes of a job on the papers of its collection. It goes on if there is
/// any paper to go by.
pub open spec fn prepared(
    source: Option<Seq<char>>,
    resolved: CollectionDocsView,
) -> PreparedView {
    let docs = targeted(resolved.docs, source);
    PreparedView {
        docs,
        tell: coverage_event(CollectionDocsView { docs, skipped: resolved.skipped }),
        proceed: docs.len() > 0,
    }
}

/// What becomes of a job on the papers of its collection.
pub fn prepare(task: &Task, resolved: CollectionDocs) -> (r: Prepared)
    ensures
        r.deep_view() == prepared(task.deep_view().source, resolved.deep_view()),
{
    let CollectionDocs { docs, skipped } = resolved;
    let selected = CollectionDocs { docs: target_docs(docs, &task.source), skipped };
    let tell = coverage_report(&selected);
    let proceed = selected.docs.len() > 0;
    Prepared { docs: selected.docs, tell, proceed }
}

/// A paper that a claim can be checked against.
#[derive(Debug, PartialEq, Eq)]
pub struct PaperRef {
    pub key: String,
    pub citation: String,
}

#[verifier::ext_equal]
pub struct PaperRefView {
    pub key: Seq<char>,
    pub citation: Seq<char>,
}

impl DeepView for PaperRef {
    type V = PaperRefView;

    open spec fn deep_view(&self) -> PaperRefView {
        PaperRefView { key: self.key@, citation: self.citation@ }
    }
}

impl Clone for PaperRef {
    fn clone(&self) -> (r: Self)
        ensures
            r.deep_view() == self.deep_view(),
    {
        PaperRef { key: self.key.clone(), citation: self.citation.clone() }
    }
}

/// The papers with a PDF, to choose one from.
pub open spec fn papers_to_choose(docs: Seq<DocRefView>) -> Seq<PaperRefView> {
    Seq::new(
        docs.len(),
        |i: int| PaperRefView { key: docs[i].zotero_key, citation: docs[i].citation },
    )
}

/// The papers of a collection that have a PDF, to choose one from.
pub fn list_collection_papers(resolved: &CollectionDocs) -> (r: Vec<PaperRef>)
    ensures
        r.deep_view() == papers_to_choose(resolved.docs.deep_view()),
        r.deep_view() == Seq::new(
            resolved.docs.deep_view().len(),
            |i: int|
                PaperRefView {
                    key: resolved.docs.deep_view()[i].zotero_key,
                    citation: resolved.docs.deep_view()[i].citation,
                },
        ),
{
    let mut r: Vec<PaperRef> = Vec::new();
    let mut i: usize = 0;
    while i < resolved.docs.len()
        invariant
            i == r@.len(),
            i <= resolved.docs@.len(),
            forall|k: int|
                0 <= k < i ==> (#[trigger] r@[k]).deep_view() == (PaperRefView {
                    key: resolved.docs@[k].zotero_key@,
                    citation: resolved.docs@[k].citation@,
                }),
        decreases resolved.docs@.len() - i,
    {
        r.push(
            PaperRef {
                key: resolved.docs[i].zotero_key.clone(),
                citation: resolved.docs[i].citation.clone(),
            },
        );
        i = i + 1;
    }
    assert(r.deep_view() =~= Seq::new(
        resolved.docs.deep_view().len(),
        |i: int|
            PaperRefView {
                key: resolved.docs.deep_view()[i].zotero_key,
                citation: resolved.docs.deep_view()[i].citation,
            },
    ));
    assert(r.deep_view() =~= papers_to_choose(resolved.docs.deep_view()));
    r
}

// ---- the request ----------------------------------------------------------

/// The name of the index of a collection. The library is part of it, so that
/// collections of different libraries keep apart.
pub open spec fn scope_of(library: Seq<char>, collection_key: Seq<char>) -> Seq<char> {
    text::replaced(library, '/', "_"@) + "_"@ + collection_key
}

/// The name of the index of a collection.
pub fn index_scope(library: &str, collection_key: &str) -> (r: String)
    ensures
        r@ == scope_of(library@, collection_key@),
{
    let mut r = text::replace(library, '/', "_");
    r.append("_");
    r.append(collection_key);
    r
}

/// The folder of the app's data directory that indexes are kept in.
pub const INDEX_FOLDER: &'static str = "paperqa_index";

/// What the user reads where the app's data directory cannot be located.
pub fn cache_fault(reason: &str) -> (r: String)
    ensures
        r@ == "Could not resolve cache directory: "@ + reason@,
{
    let mut r = "Could not resolve cache directory: ".to_string();
    r.append(reason);
    r
}

/// The request that a job comes to, as the `n`th one, with the given settings.
pub open spec fn request_of(
    task: TaskView,
    config: ConfigView,
    docs: Seq<DocRefView>,
    n: nat,
    cache_dir: Seq<char>,
) -> WorkerRequestView {
    WorkerRequestView {
        id: "q"@ + text::decimal(n),
        command: task.command,
        question: task.question,
        history: task.history,
        cache_dir,
        model: config.model,
        embedding: config.embedding,
        api_base: config::or_empty(config.api_base),
        api_key: config::or_empty(config.api_key),
        qdrant_url: config::or_empty(config.qdrant_url),
        qdrant_key: config::or_empty(config.qdrant_api_key),
        collection_key: scope_of(task.library, task.collection_key),
        docs,
    }
}

/// The request that a job comes to, as the `n`th one, with the given settings.
pub fn make_request(task: &Task, settings: &Config, docs: Vec<DocRef>, n: u64, cache_dir: String) -> (r:
    WorkerRequest)
    ensures
        r.deep_view() == request_of(
            task.deep_view(),
            settings.deep_view(),
            docs.deep_view(),
            n as nat,
            cache_dir@,
        ),
{
    let mut id = "q".to_string();
    text::push_decimal(&mut id, n as u128);
    WorkerRequest {
        id,
        command: task.command,
        question: task.question.clone(),
        history: task.history.clone(),
        cache_dir,
        model: settings.model.clone(),
        embedding: settings.embedding.clone(),
        api_base: config::text_or_empty(&settings.api_base),
        api_key: config::text_or_empty(&settings.api_key),
        qdrant_url: config::text_or_empty(&settings.qdrant_url),
        qdrant_key: config::text_or_empty(&settings.qdrant_api_key),
        collection_key: index_scope(task.library.as_str(), task.collection_key.as_str()),
        docs,
    }
}

// ---- laws -----------------------------------------------------------------

/// An answer that goes by fewer papers than the collection has is announced as
/// such, and one that goes by all is not.
pub proof fn law_a_narrowed_answer_is_announced(
    source: Option<Seq<char>>,
    resolved: CollectionDocsView,
)
    ensures
        ({
            let r = prepared(source, resolved);
            &&& r.proceed ==> (r.tell is Some <==> resolved.skipped.len() > 0)
            &&& r.proceed ==> !(r.tell matches Some(AnswerEventView::Error { .. }))
            &&& !r.proceed ==> (r.tell matches Some(AnswerEventView::Error { .. }))
        }),
{
}

/// A job goes by papers of the collection only, and with a source to go by, by
/// that one and all its copies.
pub proof fn law_a_job_goes_by_its_source(docs: Seq<DocRefView>, key: Seq<char>)
    ensures
        forall|doc: DocRefView| #[trigger]
            targeted(docs, Some(key)).contains(doc) <==> docs.contains(doc) && doc.zotero_key
                == key,
    decreases docs.len(),
{
    if docs.len() > 0 {
        let fewer = docs.drop_last();
        law_a_job_goes_by_its_source(fewer, key);
        let before = docs_with_key(fewer, key);
        assert forall|doc: DocRefView| #[trigger]
            targeted(docs, Some(key)).contains(doc) <==> docs.contains(doc) && doc.zotero_key
                == key by {
            assert(targeted(fewer, Some(key)).contains(doc) <==> fewer.contains(doc)
                && doc.zotero_key == key);
            assert(docs =~= fewer.push(docs.last()));
            text::lemma_contains_push(fewer, docs.last(), doc);
            text::lemma_contains_push(before, docs.last(), doc);
        }
    }
}

proof fn lemma_own_scope()
    ensures
        text::replaced("users/0"@, '/', "_"@) == "users_0"@,
{
    reveal_strlit("users/0");
    reveal_strlit("users_0");
    reveal_strlit("_");
    let a = seq!['u', 's', 'e', 'r', 's'];
    let b = seq!['0'];
    text::lemma_nothing_replaced(a, '/', "_"@);
    text::lemma_nothing_replaced(b, '/', "_"@);
    text::lemma_replaced_parts(a, seq!['/'], '/', "_"@);
    text::lemma_replaced_parts(a + seq!['/'], b, '/', "_"@);
    assert(seq!['/'].drop_last() =~= Seq::empty());
    reveal_with_fuel(text::replaced, 2);
    assert(text::replaced(seq!['/'], '/', "_"@) =~= "_"@);
    assert("users/0"@ =~= a + seq!['/'] + b);
    assert("users_0"@ =~= a + "_"@ + b);
}

proof fn lemma_group_scope(d: Seq<char>)
    requires
        text::all_digits(d),
    ensures
        text::replaced("groups/"@ + d, '/', "_"@) == "groups_"@ + d,
{
    reveal_strlit("groups/");
    reveal_strlit("groups_");
    reveal_strlit("_");
    let a = seq!['g', 'r', 'o', 'u', 'p', 's'];
    assert forall|i: int| 0 <= i < d.len() implies d[i] != '/' by {
        assert(text::is_digit(d[i]));
    }
    text::lemma_nothing_replaced(a, '/', "_"@);
    text::lemma_nothing_replaced(d, '/', "_"@);
    text::lemma_replaced_parts(a, seq!['/'], '/', "_"@);
    text::lemma_replaced_parts("groups/"@, d, '/', "_"@);
    assert(seq!['/'].drop_last() =~= Seq::empty());
    reveal_with_fuel(text::replaced, 2);
    assert(text::replaced(seq!['/'], '/', "_"@) =~= "_"@);
    assert("groups/"@ =~= a + seq!['/']);
    assert("groups_"@ =~= a + "_"@);
}

/// The name of an index tells a group's from the user's own: only a group's begins
/// with "groups_".
pub proof fn law_scope_tells_groups(library: Seq<char>, collection_key: Seq<char>)
    requires
        zotero::is_library(library),
    ensures
        "groups_"@.is_prefix_of(scope_of(library, collection_key)) <==> zotero::is_group(library),
{
    reveal_strlit("groups_");
    reveal_strlit("users_0");
    reveal_strlit("users/0");
    reveal_strlit("groups/");
    let scope = scope_of(library, collection_key);
    if library == "users/0"@ {
        lemma_own_scope();
        assert(scope[0] == 'u');
        if "groups_"@.is_prefix_of(scope) {
            assert(scope.subrange(0, 7)[0] == 'g');
        }
        if zotero::is_group(library) {
            assert(library[0] == 'g');
        }
    } else {
        zotero::lemma_group_id(library);
        lemma_group_scope(zotero::group_id(library));
        assert(scope.subrange(0, 7) =~= "groups_"@);
    }
}

/// Collections of different libraries, or different ones of the same library,
/// never share an index.
pub proof fn law_indexes_keep_apart(
    library: Seq<char>,
    collection_key: Seq<char>,
    other_library: Seq<char>,
    other_key: Seq<char>,
)
    requires
        zotero::is_library(library),
        zotero::is_library(other_library),
        scope_of(library, collection_key) == scope_of(other_library, other_key),
    ensures
        library == other_library,
        collection_key == other_key,
{
    law_scope_tells_groups(library, collection_key);
    law_scope_tells_groups(other_library, other_key);
    reveal_strlit("users_0");
    reveal_strlit("groups_");
    reveal_strlit("_");
    let scope = scope_of(library, collection_key);
    if zotero::is_group(library) {
        zotero::lemma_group_id(library);
        zotero::lemma_group_id(other_library);
        let id = zotero::group_id(library);
        let other_id = zotero::group_id(other_library);
        lemma_group_scope(id);
        lemma_group_scope(other_id);
        let rest = scope.subrange(7, scope.len() as int);
        assert(rest =~= id + "_"@ + collection_key);
        assert(rest =~= other_id + "_"@ + other_key);
        lemma_digits_end(id, collection_key, other_id, other_key);
    } else {
        lemma_own_scope();
        let rest = scope.subrange(8, scope.len() as int);
        assert(rest =~= collection_key);
        assert(rest =~= other_key);
    }
}

proof fn lemma_digits_end(
    d: Seq<char>,
    rest: Seq<char>,
    other_d: Seq<char>,
    other_rest: Seq<char>,
)
    requires
        text::all_digits(d),
        text::all_digits(other_d),
        d + "_"@ + rest == other_d + "_"@ + other_rest,
    ensures
        d == other_d,
        rest == other_rest,
{
    reveal_strlit("_");
    let whole = d + "_"@ + rest;
    if d.len() < other_d.len() {
        assert(whole[d.len() as int] == '_');
        assert(text::is_digit(other_d[d.len() as int]));
    }
    if other_d.len() < d.len() {
        assert(whole[other_d.len() as int] == '_');
        assert(text::is_digit(d[other_d.len() as int]));
    }
    assert(whole.subrange(0, d.len() as int) =~= d);
    assert(whole.subrange(0, d.len() as int) =~= other_d);
    let from = d.len() as int + 1;
    assert(whole.subrange(from, whole.len() as int) =~= rest);
    assert(whole.subrange(from, whole.len() as int) =~= other_rest);
}

/// What is asked is what was typed: the question and the conversation so far go with the
/// job character for character, and all papers of the collection are gone by.
pub proof fn law_a_question_is_asked_as_typed(
    library: Seq<char>,
    collection_key: Seq<char>,
    question: Seq<char>,
    history: Seq<char>,
)
    ensures
        ({
            let task = asked(library, collection_key, question, Some(history));
            &&& task.command == WorkerCommand::Ask
            &&& task.library == library
            &&& task.collection_key == collection_key
            &&& task.question == question
            &&& task.history == history
            &&& task.source is None
            &&& asked(library, collection_key, question, None) == (TaskView {
                history: Seq::empty(),
                ..task
            })
        }),
{
}

/// A claim is judged as it was typed, without a conversation, by the paper that was chosen
/// if one was.
pub proof fn law_a_claim_is_judged_as_typed(
    library: Seq<char>,
    collection_key: Seq<char>,
    claim: Seq<char>,
    key: Seq<char>,
)
    ensures
        ({
            let task = checked(library, collection_key, claim, Some(key));
            &&& task.command == WorkerCommand::Check
            &&& task.library == library
            &&& task.collection_key == collection_key
            &&& task.question == claim
            &&& task.history.len() == 0
            &&& key.len() > 0 ==> task.source == Some(key)
            &&& key.len() == 0 ==> task.source is None
            &&& checked(library, collection_key, claim, None).source is None
            &&& checked(library, collection_key, claim, None).question == claim
        }),
{
}

/// Reading a collection into the index asks nothing.
pub proof fn law_indexing_asks_nothing(library: Seq<char>, collection_key: Seq<char>)
    ensures
        ({
            let task = indexed(library, collection_key);
            &&& task.command == WorkerCommand::Index
            &&& task.library == library
            &&& task.collection_key == collection_key
            &&& task.question.len() == 0
            &&& task.history.len() == 0
            &&& task.source is None
        }),
{
}

/// A request carries the job: its command, its question and its conversation, with the
/// papers in order, under the settings that there are.
pub proof fn law_a_request_carries_the_job(
    task: TaskView,
    settings: ConfigView,
    docs: Seq<DocRefView>,
    n: nat,
    cache_dir: Seq<char>,
)
    ensures
        ({
            let request = request_of(task, settings, docs, n, cache_dir);
            &&& request.command == task.command
            &&& request.question == task.question
            &&& request.history == task.history
            &&& request.docs == docs
            &&& request.cache_dir == cache_dir
            &&& request.model == settings.model
            &&& request.embedding == settings.embedding
            &&& request.id == "q"@ + text::decimal(n)
            &&& request.collection_key == scope_of(task.library, task.collection_key)
            &&& match settings.api_key {
                Some(key) => request.api_key == key,
                None => request.api_key.len() == 0,
            }
            &&& match settings.api_base {
                Some(url) => request.api_base == url,
                None => request.api_base.len() == 0,
            }
            &&& match settings.qdrant_url {
                Some(url) => request.qdrant_url == url,
                None => request.qdrant_url.len() == 0,
            }
            &&& match settings.qdrant_api_key {
                Some(key) => request.qdrant_key == key,
                None => request.qdrant_key.len() == 0,
            }
        }),
{
}

/// From end to end: in what the query engine is sent for a question, it reads the question
/// and the conversation that were handed over, and every paper by its path, its key and its
/// citation.
pub proof fn law_the_engine_reads_what_was_asked(
    library: Seq<char>,
    collection_key: Seq<char>,
    question: Seq<char>,
    history: Seq<char>,
    settings: ConfigView,
    docs: Seq<DocRefView>,
    n: nat,
    cache_dir: Seq<char>,
)
    ensures
        ({
            let task = asked(library, collection_key, question, Some(history));
            let sent = sidecar::request_document(request_of(task, settings, docs, n, cache_dir));
            &&& sent.text_member("cmd"@) == Some("ask"@)
            &&& sent.text_member("question"@) == Some(question)
            &&& sent.text_member("history"@) == Some(history)
            &&& sent.text_member("model"@) == Some(settings.model)
            &&& sent.text_member("embedding"@) == Some(settings.embedding)
            &&& sent.text_member("cache_dir"@) == Some(cache_dir)
            &&& sent.text_member("collection_key"@) == Some(scope_of(library, collection_key))
            &&& settings.api_key matches Some(key) ==> sent.text_member("api_key"@) == Some(key)
            &&& sent.list_member("docs"@) matches Some(items) && {
                &&& items.len() == docs.len()
                &&& forall|i: int|
                    #![trigger items[i]]
                    0 <= i < docs.len() ==> {
                        &&& items[i].text_member("path"@) == Some(docs[i].path)
                        &&& items[i].text_member("zotero_key"@) == Some(docs[i].zotero_key)
                        &&& items[i].text_member("citation"@) == Some(docs[i].citation)
                    }
            }
        }),
{
    let task = asked(library, collection_key, question, Some(history));
    sidecar::law_request_reads_back(request_of(task, settings, docs, n, cache_dir));
}

/// The same for a claim: the query engine reads it as it was typed.
pub proof fn law_the_engine_reads_what_was_claimed(
    library: Seq<char>,
    collection_key: Seq<char>,
    claim: Seq<char>,
    source_key: Option<Seq<char>>,
    settings: ConfigView,
    docs: Seq<DocRefView>,
    n: nat,
    cache_dir: Seq<char>,
)
    ensures
        ({
            let task = checked(library, collection_key, claim, source_key);
            let sent = sidecar::request_document(request_of(task, settings, docs, n, cache_dir));
            &&& sent.text_member("cmd"@) == Some("check"@)
            &&& sent.text_member("question"@) == Some(claim)
            &&& sent.text_member("history"@) == Some(Seq::<char>::empty())
        }),
{
    let task = checked(library, collection_key, claim, source_key);
    sidecar::law_request_reads_back(request_of(task, settings, docs, n, cache_dir));
}

/// No two requests share an id.
pub proof fn law_requests_are_told_apart(
    task: TaskView,
    settings: ConfigView,
    docs: Seq<DocRefView>,
    n: nat,
    m: nat,
    cache_dir: Seq<char>,
)
    requires
        n != m,
    ensures
        request_of(task, settings, docs, n, cache_dir).id != request_of(
            task,
            settings,
            docs,
            m,
            cache_dir,
        ).id,
{
    let a = request_of(task, settings, docs, n, cache_dir).id;
    let b = request_of(task, settings, docs, m, cache_dir).id;
    reveal_strlit("q");
    assert(a.skip(1) =~= text::decimal(n));
    assert(b.skip(1) =~= text::decimal(m));
    if a == b {
        text::law_decimals_tell_numbers(n, m);
    }
}

/// The papers to go by stay in order: each that is the source, or each where there is none
/// to go by.
pub proof fn law_papers_are_gone_by_in_order(
    docs: Seq<DocRefView>,
    doc: DocRefView,
    key: Seq<char>,
)
    ensures
        targeted(docs, None) == docs,
        targeted(Seq::empty(), Some(key)) == Seq::<DocRefView>::empty(),
        targeted(docs.push(doc), Some(key)) == if doc.zotero_key == key {
            targeted(docs, Some(key)).push(doc)
        } else {
            targeted(docs, Some(key))
        },
{
    assert(docs.push(doc).drop_last() =~= docs);
}

/// A job goes on exactly when there is a paper to go by, and with those papers. Where there
/// is none the user is told how many lack a PDF.
pub proof fn law_a_job_goes_on_with_its_papers(
    source: Option<Seq<char>>,
    resolved: CollectionDocsView,
)
    ensures
        ({
            let r = prepared(source, resolved);
            &&& r.docs == targeted(resolved.docs, source)
            &&& r.proceed <==> targeted(resolved.docs, source).len() > 0
            &&& !r.proceed && resolved.skipped.len() == 0 ==> r.tell == Some(
                AnswerEventView::Error { message: "No PDFs found in this collection."@ },
            )
            &&& !r.proceed && resolved.skipped.len() > 0 ==> (r.tell matches Some(
                AnswerEventView::Error { message },
            ) && ("None of the "@ + text::decimal(resolved.skipped.len())
                + " papers have a PDF downloaded"@).is_prefix_of(message))
        }),
{
    let r = prepared(source, resolved);
    if !r.proceed && resolved.skipped.len() > 0 {
        let start = "None of the "@ + text::decimal(resolved.skipped.len());
        let said = start + " papers have a PDF downloaded"@;
        let message = refusal_text(resolved.skipped.len());
        reveal_strlit(" papers have a PDF downloaded");
        reveal_strlit(
            " papers have a PDF downloaded. Open them in Zotero and sync/download the PDFs, then try again.",
        );
        assert(message.subrange(0, said.len() as int) =~= said);
    }
}

/// Where papers lack a PDF the user is told from how many of how many the answer comes, and
/// which papers lack one: all of them by name, or the first six and how many more.
pub proof fn law_the_notice_tells_the_papers(
    source: Option<Seq<char>>,
    resolved: CollectionDocsView,
)
    requires
        targeted(resolved.docs, source).len() > 0,
        resolved.skipped.len() > 0,
    ensures
        ({
            let n = targeted(resolved.docs, source).len();
            let k = resolved.skipped.len();
            let names = if k <= 6 {
                text::joined(resolved.skipped, ", "@)
            } else {
                text::joined(resolved.skipped.take(6), ", "@) + ", +"@ + text::decimal(
                    (k - 6) as nat,
                ) + " more"@
            };
            prepared(source, resolved).tell == Some(
                AnswerEventView::Notice {
                    message: "Answering from "@ + text::decimal(n) + " of "@ + text::decimal(n + k)
                        + " papers — "@ + text::decimal(k) + " have no PDF downloaded: "@ + names,
                },
            )
        }),
{
}

/// The name of an index ends in the key of its collection.
pub proof fn law_an_index_is_named_after_its_collection(
    library: Seq<char>,
    collection_key: Seq<char>,
)
    ensures
        scope_of(library, collection_key) == text::replaced(library, '/', "_"@) + "_"@
            + collection_key,
        collection_key.is_suffix_of(scope_of(library, collection_key)),
{
    let scope = scope_of(library, collection_key);
    assert(scope.subrange(scope.len() - collection_key.len(), scope.len() as int)
        =~= collection_key);
}

/// Every paper with a PDF can be chosen, in order, by its own key and citation.
pub proof fn law_every_paper_can_be_chosen(docs: Seq<DocRefView>)
    ensures
        papers_to_choose(docs).len() == docs.len(),
        forall|i: int|
            #![trigger papers_to_choose(docs)[i]]
            0 <= i < docs.len() ==> papers_to_choose(docs)[i].key == docs[i].zotero_key
                && papers_to_choose(docs)[i].citation == docs[i].citation,
{
}

} // verus!
