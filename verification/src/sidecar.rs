//! The query engine beside the app: the events that it reports, one JSON
//! document per line, and the request that it is sent.

use crate::json;
use crate::json::{Json, JsonView, Part};
use crate::paths;
use crate::text;
use crate::zotero::{DocRef, DocRefView};
use vstd::prelude::*;

verus! {

/// A passage of a paper that supports an answer.
#[derive(Debug, PartialEq, Eq)]
pub struct Passage {
    pub page: String,
    pub snippet: String,
}

#[verifier::ext_equal]
pub struct PassageView {
    pub page: Seq<char>,
    pub snippet: Seq<char>,
}

impl DeepView for Passage {
    type V = PassageView;

    open spec fn deep_view(&self) -> PassageView {
        PassageView { page: self.page@, snippet: self.snippet@ }
    }
}

impl Clone for Passage {
    fn clone(&self) -> (r: Self)
        ensures
            r.deep_view() == self.deep_view(),
    {
        let r = Passage { page: self.page.clone(), snippet: self.snippet.clone() };
        assert(r.deep_view() =~= self.deep_view());
        r
    }
}

/// A paper that an answer cites.
#[derive(Debug, PartialEq, Eq)]
pub struct RefItem {
    pub item_key: String,
    pub citation: String,
    pub passages: Vec<Passage>,
}

#[verifier::ext_equal]
pub struct RefItemView {
    pub item_key: Seq<char>,
    pub citation: Seq<char>,
    pub passages: Seq<PassageView>,
}

impl DeepView for RefItem {
    type V = RefItemView;

    open spec fn deep_view(&self) -> RefItemView {
        RefItemView {
            item_key: self.item_key@,
            citation: self.citation@,
            passages: self.passages.deep_view(),
        }
    }
}

impl Clone for RefItem {
    fn clone(&self) -> (r: Self)
        ensures
            r.deep_view() == self.deep_view(),
    {
        let r = RefItem { item_key: self.item_key.clone(), citation: self.citation.clone(), passages: self.passages.clone() };
        assert(r.deep_view() =~= self.deep_view());
        r
    }
}

/// The verdict on one claim of a draft.
#[derive(Debug, PartialEq, Eq)]
pub struct DraftItem {
    pub claim: String,
    pub verdict: String,
    pub detail: String,
}

#[verifier::ext_equal]
pub struct DraftItemView {
    pub claim: Seq<char>,
    pub verdict: Seq<char>,
    pub detail: Seq<char>,
}

impl DeepView for DraftItem {
    type V = DraftItemView;

    open spec fn deep_view(&self) -> DraftItemView {
        DraftItemView { claim: self.claim@, verdict: self.verdict@, detail: self.detail@ }
    }
}

impl Clone for DraftItem {
    fn clone(&self) -> (r: Self)
        ensures
            r.deep_view() == self.deep_view(),
    {
        let r = DraftItem { claim: self.claim.clone(), verdict: self.verdict.clone(), detail: self.detail.clone() };
        assert(r.deep_view() =~= self.deep_view());
        r
    }
}

/// What the user is told while a question is answered.
#[derive(Debug, PartialEq, Eq)]
pub enum AnswerEvent {
    Status { text: String },
    Token { text: String },
    References { items: Vec<RefItem> },
    /// A non-fatal heads-up, such as papers that were left out for want of a PDF.
    Notice { message: String },
    /// A verdict for each claim of a draft.
    Draft { claims: Vec<DraftItem> },
    Done,
    Error { message: String },
}

#[verifier::ext_equal]
pub enum AnswerEventView {
    Status { text: Seq<char> },
    Token { text: Seq<char> },
    References { items: Seq<RefItemView> },
    Notice { message: Seq<char> },
    Draft { claims: Seq<DraftItemView> },
    Done,
    Error { message: Seq<char> },
}

impl DeepView for AnswerEvent {
    type V = AnswerEventView;

    open spec fn deep_view(&self) -> AnswerEventView {
        match *self {
            AnswerEvent::Status { text } => AnswerEventView::Status { text: text@ },
            AnswerEvent::Token { text } => AnswerEventView::Token { text: text@ },
            AnswerEvent::References { items } => AnswerEventView::References {
                items: items.deep_view(),
            },
            AnswerEvent::Notice { message } => AnswerEventView::Notice { message: message@ },
            AnswerEvent::Draft { claims } => AnswerEventView::Draft { claims: claims.deep_view() },
            AnswerEvent::Done => AnswerEventView::Done,
            AnswerEvent::Error { message } => AnswerEventView::Error { message: message@ },
        }
    }
}

// ---- reading an event -----------------------------------------------------

/// The passage that a JSON value describes; what it does not say is empty.
pub open spec fn passage_in(v: JsonView) -> PassageView {
    PassageView {
        page: v.text_member_or("page"@, Seq::empty()),
        snippet: v.text_member_or("snippet"@, Seq::empty()),
    }
}

pub open spec fn passages_in(items: Seq<JsonView>) -> Seq<PassageView> {
    Seq::new(items.len(), |i: int| passage_in(items[i]))
}

/// The cited paper that a JSON value describes; what it does not say is empty.
pub open spec fn ref_item_in(v: JsonView) -> RefItemView {
    RefItemView {
        item_key: v.text_member_or("zotero_key"@, Seq::empty()),
        citation: v.text_member_or("citation"@, Seq::empty()),
        passages: passages_in(v.items_of("passages"@)),
    }
}

pub open spec fn ref_items_in(items: Seq<JsonView>) -> Seq<RefItemView> {
    Seq::new(items.len(), |i: int| ref_item_in(items[i]))
}

/// The verdict that a JSON value describes; what it does not say is empty.
pub open spec fn draft_item_in(v: JsonView) -> DraftItemView {
    DraftItemView {
        claim: v.text_member_or("claim"@, Seq::empty()),
        verdict: v.text_member_or("verdict"@, Seq::empty()),
        detail: v.text_member_or("detail"@, Seq::empty()),
    }
}

pub open spec fn draft_items_in(items: Seq<JsonView>) -> Seq<DraftItemView> {
    Seq::new(items.len(), |i: int| draft_item_in(items[i]))
}

/// The event that a document of the query engine reports. A document of an
/// unknown type, or without one, reports none.
pub open spec fn event_in(v: JsonView) -> Option<AnswerEventView> {
    match v.text_member("type"@) {
        None => None,
        Some(kind) => if kind == "status"@ {
            Some(AnswerEventView::Status { text: v.text_member_or("text"@, Seq::empty()) })
        } else if kind == "token"@ {
            Some(AnswerEventView::Token { text: v.text_member_or("text"@, Seq::empty()) })
        } else if kind == "references"@ {
            Some(AnswerEventView::References { items: ref_items_in(v.items_of("items"@)) })
        } else if kind == "draft"@ {
            Some(AnswerEventView::Draft { claims: draft_items_in(v.items_of("items"@)) })
        } else if kind == "done"@ {
            Some(AnswerEventView::Done)
        } else if kind == "error"@ {
            Some(
                AnswerEventView::Error {
                    message: v.text_member_or(
                        "message"@,
                        "The query engine reported an error."@,
                    ),
                },
            )
        } else {
            None
        },
    }
}

/// The event that one line of the query engine's output reports.
pub open spec fn event_in_line(raw: Seq<char>) -> Option<AnswerEventView> {
    match json::document_in_text(raw) {
        Some(v) => event_in(v),
        None => None,
    }
}

fn read_passages(items: &Vec<Json>) -> (r: Vec<Passage>)
    ensures
        r.deep_view() == passages_in(json::list_view(items@)),
{
    let mut r: Vec<Passage> = Vec::new();
    let mut i: usize = 0;
    while i < items.len()
        invariant
            i == r@.len(),
            i <= items@.len(),
            forall|k: int|
                0 <= k < i ==> (#[trigger] r@[k]).deep_view() == passage_in(items@[k]@),
        decreases items@.len() - i,
    {
        let item = &items[i];
        r.push(
            Passage {
                page: item.get_text_or_empty("page"),
                snippet: item.get_text_or_empty("snippet"),
            },
        );
        i = i + 1;
    }
    assert(r.deep_view() =~= passages_in(json::list_view(items@)));
    r
}

fn read_ref_item(item: &Json) -> (r: RefItem)
    ensures
        r.deep_view() == ref_item_in(item@),
{
    let passages: Vec<Passage> = match item.get_list("passages") {
        Some(items) => read_passages(items),
        None => Vec::new(),
    };
    assert(passages.deep_view() =~= passages_in(item@.items_of("passages"@)));
    RefItem {
        item_key: item.get_text_or_empty("zotero_key"),
        citation: item.get_text_or_empty("citation"),
        passages,
    }
}

fn read_ref_items(items: &Vec<Json>) -> (r: Vec<RefItem>)
    ensures
        r.deep_view() == ref_items_in(json::list_view(items@)),
{
    let mut r: Vec<RefItem> = Vec::new();
    let mut i: usize = 0;
    while i < items.len()
        invariant
            i == r@.len(),
            i <= items@.len(),
            forall|k: int|
                0 <= k < i ==> (#[trigger] r@[k]).deep_view() == ref_item_in(items@[k]@),
        decreases items@.len() - i,
    {
        r.push(read_ref_item(&items[i]));
        i = i + 1;
    }
    assert(r.deep_view() =~= ref_items_in(json::list_view(items@)));
    r
}

fn read_draft_items(items: &Vec<Json>) -> (r: Vec<DraftItem>)
    ensures
        r.deep_view() == draft_items_in(json::list_view(items@)),
{
    let mut r: Vec<DraftItem> = Vec::new();
    let mut i: usize = 0;
    while i < items.len()
        invariant
            i == r@.len(),
            i <= items@.len(),
            forall|k: int|
                0 <= k < i ==> (#[trigger] r@[k]).deep_view() == draft_item_in(items@[k]@),
        decreases items@.len() - i,
    {
        let item = &items[i];
        r.push(
            DraftItem {
                claim: item.get_text_or_empty("claim"),
                verdict: item.get_text_or_empty("verdict"),
                detail: item.get_text_or_empty("detail"),
            },
        );
        i = i + 1;
    }
    assert(r.deep_view() =~= draft_items_in(json::list_view(items@)));
    r
}

/// The event that a document of the query engine reports.
pub fn event_of(v: &Json) -> (r: Option<AnswerEvent>)
    ensures
        r.deep_view() == event_in(v@),
{
    let kind = match v.get_text("type") {
        Some(kind) => kind,
        None => {
            return None;
        },
    };
    let kind = kind.as_str();
    if text::same_text(kind, "status") {
        Some(AnswerEvent::Status { text: v.get_text_or_empty("text") })
    } else if text::same_text(kind, "token") {
        Some(AnswerEvent::Token { text: v.get_text_or_empty("text") })
    } else if text::same_text(kind, "references") {
        let items: Vec<RefItem> = match v.get_list("items") {
            Some(items) => read_ref_items(items),
            None => Vec::new(),
        };
        assert(items.deep_view() =~= ref_items_in(v@.items_of("items"@)));
        Some(AnswerEvent::References { items })
    } else if text::same_text(kind, "draft") {
        let claims: Vec<DraftItem> = match v.get_list("items") {
            Some(items) => read_draft_items(items),
            None => Vec::new(),
        };
        assert(claims.deep_view() =~= draft_items_in(v@.items_of("items"@)));
        Some(AnswerEvent::Draft { claims })
    } else if text::same_text(kind, "done") {
        Some(AnswerEvent::Done)
    } else if text::same_text(kind, "error") {
        Some(
            AnswerEvent::Error {
                message: v.get_text_or("message", "The query engine reported an error."),
            },
        )
    } else {
        None
    }
}

/// The event that one line of the query engine's output reports. A line that is
/// no JSON document reports none.
pub fn parse_event(raw: &str) -> (r: Option<AnswerEvent>)
    ensures
        r.deep_view() == event_in_line(raw@),
{
    match json::read_text(raw) {
        Some(v) => event_of(&v),
        None => None,
    }
}

// ---- following the output -------------------------------------------------

/// What came of reading the query engine's output once more.
#[derive(Debug, PartialEq, Eq)]
pub enum WorkerOutput {
    Line(String),
    Closed,
    Failed,
}

#[verifier::ext_equal]
pub enum WorkerOutputView {
    Line(Seq<char>),
    Closed,
    Failed,
}

impl DeepView for WorkerOutput {
    type V = WorkerOutputView;

    open spec fn deep_view(&self) -> WorkerOutputView {
        match *self {
            WorkerOutput::Line(raw) => WorkerOutputView::Line(raw@),
            WorkerOutput::Closed => WorkerOutputView::Closed,
            WorkerOutput::Failed => WorkerOutputView::Failed,
        }
    }
}

/// What to do after a piece of output: tell the user or not, and read on or not.
#[derive(Debug, PartialEq, Eq)]
pub struct StreamStep {
    pub emit: Option<AnswerEvent>,
    pub finished: bool,
}

#[verifier::ext_equal]
pub struct StreamStepView {
    pub emit: Option<AnswerEventView>,
    pub finished: bool,
}

impl DeepView for StreamStep {
    type V = StreamStepView;

    open spec fn deep_view(&self) -> StreamStepView {
        StreamStepView { emit: self.emit.deep_view(), finished: self.finished }
    }
}

/// The answer ends with this event.
pub open spec fn is_terminal(event: AnswerEventView) -> bool {
    event is Done || event is Error
}

/// The step after a line that reports `event`.
pub open spec fn step_for(event: Option<AnswerEventView>) -> StreamStepView {
    StreamStepView {
        emit: event,
        finished: match event {
            Some(event) => is_terminal(event),
            None => false,
        },
    }
}

/// The step after a piece of output: a blank line is passed over, an event is
/// handed on, and reading ends with the output, a failure or the answer's end.
pub open spec fn step_after(output: WorkerOutputView) -> StreamStepView {
    match output {
        WorkerOutputView::Line(raw) => if text::is_blank(raw) {
            StreamStepView { emit: None, finished: false }
        } else {
            step_for(event_in_line(text::trimmed(raw)))
        },
        WorkerOutputView::Closed => StreamStepView { emit: None, finished: true },
        WorkerOutputView::Failed => StreamStepView {
            emit: Some(fault_view(WorkerFault::Stopped)),
            finished: true,
        },
    }
}

/// The step after a line that reports `event`.
pub fn stream_step(event: Option<AnswerEvent>) -> (r: StreamStep)
    ensures
        r.deep_view() == step_for(event.deep_view()),
{
    let finished = match &event {
        Some(AnswerEvent::Done) => true,
        Some(AnswerEvent::Error { .. }) => true,
        _ => false,
    };
    StreamStep { emit: event, finished }
}

/// The step after a piece of output.
pub fn on_output(output: &WorkerOutput) -> (r: StreamStep)
    ensures
        r.deep_view() == step_after(output.deep_view()),
{
    match output {
        WorkerOutput::Line(raw) => {
            let line = text::trim(raw.as_str());
            if line.as_str().is_empty() {
                StreamStep { emit: None, finished: false }
            } else {
                stream_step(parse_event(line.as_str()))
            }
        },
        WorkerOutput::Closed => StreamStep { emit: None, finished: true },
        WorkerOutput::Failed => StreamStep {
            emit: Some(fault_event(WorkerFault::Stopped)),
            finished: true,
        },
    }
}

/// The events that the user is told of while the output is followed.
pub open spec fn told(outputs: Seq<WorkerOutputView>) -> Seq<AnswerEventView>
    decreases outputs.len(),
{
    if outputs.len() == 0 {
        Seq::empty()
    } else {
        let step = step_after(outputs.first());
        let now = match step.emit {
            Some(event) => seq![event],
            None => Seq::empty(),
        };
        if step.finished {
            now
        } else {
            now + told(outputs.drop_first())
        }
    }
}

/// Nothing is told after the event that ends an answer: only the last event
/// told can be one.
pub proof fn law_nothing_after_the_end(outputs: Seq<WorkerOutputView>)
    ensures
        forall|i: int| 0 <= i < told(outputs).len() - 1 ==> !is_terminal(#[trigger] told(outputs)[i]),
    decreases outputs.len(),
{
    if outputs.len() > 0 {
        let step = step_after(outputs.first());
        let rest = told(outputs.drop_first());
        law_nothing_after_the_end(outputs.drop_first());
        if !step.finished {
            match step.emit {
                Some(event) => {
                    assert(told(outputs) =~= seq![event] + rest);
                    assert forall|i: int| 0 <= i < told(outputs).len() - 1 implies !is_terminal(
                        #[trigger] told(outputs)[i],
                    ) by {
                        if i > 0 {
                            assert(told(outputs)[i] == rest[i - 1]);
                        }
                    }
                },
                None => {
                    assert(told(outputs) =~= rest);
                },
            }
        }
    }
}

// ---- laws on events -------------------------------------------------------

/// A piece of an answer is told character for character, white space and all.
pub proof fn law_a_token_is_told_as_it_is(v: JsonView, text: Seq<char>)
    requires
        v.member("type"@) == Some(JsonView::Text("token"@)),
        v.member("text"@) == Some(JsonView::Text(text)),
    ensures
        event_in(v) == Some(AnswerEventView::Token { text }),
{
    lemma_event_words();
}

/// So is what the query engine is doing, and what went wrong.
pub proof fn law_messages_are_told_as_they_are(v: JsonView, text: Seq<char>)
    ensures
        v.member("type"@) == Some(JsonView::Text("status"@)) && v.member("text"@) == Some(
            JsonView::Text(text),
        ) ==> event_in(v) == Some(AnswerEventView::Status { text }),
        v.member("type"@) == Some(JsonView::Text("error"@)) && v.member("message"@) == Some(
            JsonView::Text(text),
        ) ==> event_in(v) == Some(AnswerEventView::Error { message: text }),
        v.member("type"@) == Some(JsonView::Text("error"@)) && v.member("message"@) is None
            ==> event_in(v) == Some(
            AnswerEventView::Error { message: "The query engine reported an error."@ },
        ),
        v.member("type"@) == Some(JsonView::Text("done"@)) ==> event_in(v) == Some(
            AnswerEventView::Done,
        ),
{
    lemma_event_words();
}

/// A document of any other type, or of none, tells nothing.
pub proof fn law_other_documents_tell_nothing(v: JsonView, kind: Seq<char>)
    ensures
        v.member("type"@) is None ==> event_in(v) is None,
        v.member("type"@) == Some(JsonView::Text(kind)) && kind != "status"@ && kind != "token"@
            && kind != "references"@ && kind != "draft"@ && kind != "done"@ && kind != "error"@
            ==> event_in(v) is None,
{
}

/// Every cited paper is told, in order.
pub proof fn law_every_source_is_told(v: JsonView, items: Seq<JsonView>)
    requires
        v.member("type"@) == Some(JsonView::Text("references"@)),
        v.member("items"@) == Some(JsonView::List(items)),
    ensures
        event_in(v) matches Some(AnswerEventView::References { items: told }) && {
            &&& told.len() == items.len()
            &&& forall|i: int| 0 <= i < items.len() ==> #[trigger] told[i] == ref_item_in(items[i])
        },
{
    lemma_event_words();
}

/// A cited paper is told by its key and its citation, character for character, with every
/// passage that supports the answer, in order.
pub proof fn law_a_source_is_told_as_it_is(
    item: JsonView,
    key: Seq<char>,
    citation: Seq<char>,
    passages: Seq<JsonView>,
)
    ensures
        item.member("zotero_key"@) == Some(JsonView::Text(key)) ==> ref_item_in(item).item_key
            == key,
        item.member("citation"@) == Some(JsonView::Text(citation)) ==> ref_item_in(item).citation
            == citation,
        item.member("passages"@) == Some(JsonView::List(passages)) ==> {
            &&& ref_item_in(item).passages.len() == passages.len()
            &&& forall|i: int|
                0 <= i < passages.len() ==> #[trigger] ref_item_in(item).passages[i] == passage_in(
                    passages[i],
                )
        },
        item.member("passages"@) is None ==> ref_item_in(item).passages.len() == 0,
{
}

/// A passage is told by its page and its words, character for character.
pub proof fn law_a_passage_is_told_as_it_is(item: JsonView, page: Seq<char>, snippet: Seq<char>)
    ensures
        item.member("page"@) == Some(JsonView::Text(page)) ==> passage_in(item).page == page,
        item.member("page"@) is None ==> passage_in(item).page.len() == 0,
        item.member("snippet"@) == Some(JsonView::Text(snippet)) ==> passage_in(item).snippet
            == snippet,
{
}

/// Every claim of a draft is told, in order, with its verdict and the reasons for it.
pub proof fn law_every_claim_is_told(v: JsonView, items: Seq<JsonView>)
    requires
        v.member("type"@) == Some(JsonView::Text("draft"@)),
        v.member("items"@) == Some(JsonView::List(items)),
    ensures
        event_in(v) matches Some(AnswerEventView::Draft { claims }) && {
            &&& claims.len() == items.len()
            &&& forall|i: int|
                0 <= i < items.len() ==> #[trigger] claims[i] == draft_item_in(items[i])
        },
{
    lemma_event_words();
}

/// A claim, its verdict and the reasons for it are told character for character.
pub proof fn law_a_claim_is_told_as_it_is(
    item: JsonView,
    claim: Seq<char>,
    verdict: Seq<char>,
    detail: Seq<char>,
)
    ensures
        item.member("claim"@) == Some(JsonView::Text(claim)) ==> draft_item_in(item).claim == claim,
        item.member("verdict"@) == Some(JsonView::Text(verdict)) ==> draft_item_in(item).verdict
            == verdict,
        item.member("detail"@) == Some(JsonView::Text(detail)) ==> draft_item_in(item).detail
            == detail,
{
}

/// No two words for the kinds of events are the same.
proof fn lemma_event_words()
    ensures
        "status"@ != "token"@,
        "status"@ != "references"@,
        "status"@ != "draft"@,
        "status"@ != "done"@,
        "status"@ != "error"@,
        "token"@ != "references"@,
        "token"@ != "draft"@,
        "token"@ != "done"@,
        "token"@ != "error"@,
        "references"@ != "draft"@,
        "references"@ != "done"@,
        "references"@ != "error"@,
        "draft"@ != "done"@,
        "draft"@ != "error"@,
        "done"@ != "error"@,
{
    reveal_strlit("status");
    reveal_strlit("token");
    reveal_strlit("references");
    reveal_strlit("draft");
    reveal_strlit("done");
    reveal_strlit("error");
    assert("status"@.len() == 6);
    assert("token"@.len() == 5 && "token"@[0] == 't');
    assert("references"@.len() == 10);
    assert("draft"@.len() == 5 && "draft"@[0] == 'd');
    assert("done"@.len() == 4);
    assert("error"@.len() == 5 && "error"@[0] == 'e');
}

/// A line of the output tells what the document in it does, whatever white space stands
/// around it, and reading goes on unless that ends the answer.
pub proof fn law_a_line_tells_what_is_in_it(raw: Seq<char>, v: JsonView)
    requires
        !text::is_blank(raw),
        json::document_in_text(text::trimmed(raw)) == Some(v),
    ensures
        step_after(WorkerOutputView::Line(raw)).emit == event_in(v),
        step_after(WorkerOutputView::Line(raw)).finished <==> (event_in(v) matches Some(event)
            && (event is Done || event is Error)),
{
}

/// Lines without a document are passed over; the end of the output ends the reading, and a
/// failure is told.
pub proof fn law_other_output(raw: Seq<char>)
    ensures
        text::is_blank(raw) || json::document_in_text(text::trimmed(raw)) is None ==> step_after(
            WorkerOutputView::Line(raw),
        ) == (StreamStepView { emit: None, finished: false }),
        step_after(WorkerOutputView::Closed) == (StreamStepView { emit: None, finished: true }),
        step_after(WorkerOutputView::Failed).finished,
        step_after(WorkerOutputView::Failed).emit matches Some(AnswerEventView::Error { .. }),
{
}

/// Nothing that the output tells is lost on the way: as long as the answer has not ended,
/// each piece of output adds what it tells after what was told before.
pub proof fn law_all_output_is_told(output: WorkerOutputView, rest: Seq<WorkerOutputView>)
    ensures
        told(Seq::empty()) == Seq::<AnswerEventView>::empty(),
        ({
            let step = step_after(output);
            let later = if step.finished {
                Seq::empty()
            } else {
                told(rest)
            };
            told(seq![output] + rest) == match step.emit {
                Some(event) => seq![event] + later,
                None => later,
            }
        }),
{
    assert((seq![output] + rest).drop_first() =~= rest);
    assert(told(seq![output] + rest) =~= match step_after(output).emit {
        Some(event) => seq![event] + (if step_after(output).finished {
            Seq::empty()
        } else {
            told(rest)
        }),
        None => if step_after(output).finished {
            Seq::empty()
        } else {
            told(rest)
        },
    });
}

/// The texts one after the other.
pub open spec fn in_a_row(texts: Seq<Seq<char>>) -> Seq<char>
    decreases texts.len(),
{
    if texts.len() == 0 {
        Seq::empty()
    } else {
        texts[0] + in_a_row(texts.drop_first())
    }
}

/// The pieces of an answer among the events, one after the other.
pub open spec fn answer_told(events: Seq<AnswerEventView>) -> Seq<char>
    decreases events.len(),
{
    if events.len() == 0 {
        Seq::empty()
    } else {
        (match events[0] {
            AnswerEventView::Token { text } => text,
            _ => Seq::empty(),
        }) + answer_told(events.drop_first())
    }
}

/// The line reports the given piece of an answer.
pub open spec fn is_token_line(output: WorkerOutputView, text: Seq<char>) -> bool {
    output matches WorkerOutputView::Line(raw) && {
        &&& !text::is_blank(raw)
        &&& json::document_in_text(text::trimmed(raw)) matches Some(v) && {
            &&& v.member("type"@) == Some(JsonView::Text("token"@))
            &&& v.member("text"@) == Some(JsonView::Text(text))
        }
    }
}

/// Lines that report the pieces of an answer tell the whole of it: the pieces one after
/// the other, with nothing taken away and nothing put between.
pub proof fn law_pieces_make_up_the_answer(outputs: Seq<WorkerOutputView>, texts: Seq<Seq<char>>)
    requires
        outputs.len() == texts.len(),
        forall|i: int| 0 <= i < outputs.len() ==> is_token_line(#[trigger] outputs[i], texts[i]),
    ensures
        told(outputs).len() == texts.len(),
        forall|i: int|
            0 <= i < texts.len() ==> #[trigger] told(outputs)[i] == (AnswerEventView::Token {
                text: texts[i],
            }),
        answer_told(told(outputs)) == in_a_row(texts),
    decreases outputs.len(),
{
    if outputs.len() > 0 {
        let rest = outputs.drop_first();
        let others = texts.drop_first();
        assert forall|i: int| 0 <= i < rest.len() implies is_token_line(
            #[trigger] rest[i],
            others[i],
        ) by {
            assert(is_token_line(outputs[i + 1], texts[i + 1]));
        }
        law_pieces_make_up_the_answer(rest, others);
        assert(is_token_line(outputs[0], texts[0]));
        if let WorkerOutputView::Line(raw) = outputs[0] {
            let v = json::document_in_text(text::trimmed(raw))->Some_0;
            law_a_token_is_told_as_it_is(v, texts[0]);
        }
        let now = AnswerEventView::Token { text: texts[0] };
        assert(told(outputs) =~= seq![now] + told(rest));
        assert forall|i: int| 0 <= i < texts.len() implies #[trigger] told(outputs)[i] == (
        AnswerEventView::Token { text: texts[i] }) by {
            if i > 0 {
                assert(told(outputs)[i] == told(rest)[i - 1]);
                assert(others[i - 1] == texts[i]);
            }
        }
        assert(told(outputs).drop_first() =~= told(rest));
    }
}

// ---- what can go wrong ----------------------------------------------------

/// A failure of the app to work with the query engine.
#[derive(Clone, Copy, Debug, PartialEq, Eq, Structural)]
pub enum WorkerFault {
    BuildRequest,
    Start,
    Connect,
    Read,
    Send,
    Stopped,
}

/// What the user is told of a failure.
pub open spec fn fault_view(fault: WorkerFault) -> AnswerEventView {
    AnswerEventView::Error {
        message: match fault {
            WorkerFault::BuildRequest => "Could not build the query request."@,
            WorkerFault::Start => "Could not start the query engine."@,
            WorkerFault::Connect => "Could not connect to the query engine."@,
            WorkerFault::Read => "Could not read from the query engine."@,
            WorkerFault::Send => "Could not send the question to the query engine."@,
            WorkerFault::Stopped => "The query engine stopped unexpectedly."@,
        },
    }
}

/// The event that tells the user of a failure.
pub fn fault_event(fault: WorkerFault) -> (r: AnswerEvent)
    ensures
        r.deep_view() == fault_view(fault),
{
    let message = match fault {
        WorkerFault::BuildRequest => "Could not build the query request.",
        WorkerFault::Start => "Could not start the query engine.",
        WorkerFault::Connect => "Could not connect to the query engine.",
        WorkerFault::Read => "Could not read from the query engine.",
        WorkerFault::Send => "Could not send the question to the query engine.",
        WorkerFault::Stopped => "The query engine stopped unexpectedly.",
    };
    AnswerEvent::Error { message: message.to_string() }
}

// ---- running the query engine ---------------------------------------------

/// What is done next with the query engine. Each step either succeeds or fails.
#[derive(Clone, Copy, Debug, PartialEq, Eq, Structural)]
pub enum RunStep {
    /// Start its process.
    Start,
    /// Take hold of its input.
    TakeInput,
    /// Take hold of its output.
    TakeOutput,
    /// Keep the process where it can be stopped.
    Keep,
    /// Send the request.
    Send,
    /// Read its output once more.
    Listen,
    /// Stop the process, if it was not stopped already, and keep it no longer.
    Clear,
    /// Nothing: the run is over.
    End,
}

/// What came of a step.
#[derive(Debug, PartialEq, Eq)]
pub enum RunNews {
    Worked,
    Failed,
    Output(WorkerOutput),
}

#[verifier::ext_equal]
pub enum RunNewsView {
    Worked,
    Failed,
    Output(WorkerOutputView),
}

impl DeepView for RunNews {
    type V = RunNewsView;

    open spec fn deep_view(&self) -> RunNewsView {
        match *self {
            RunNews::Worked => RunNewsView::Worked,
            RunNews::Failed => RunNewsView::Failed,
            RunNews::Output(output) => RunNewsView::Output(output.deep_view()),
        }
    }
}

/// What to tell the user, and what to do next.
#[derive(Debug, PartialEq, Eq)]
pub struct RunMove {
    pub emit: Option<AnswerEvent>,
    pub next: RunStep,
}

#[verifier::ext_equal]
pub struct RunMoveView {
    pub emit: Option<AnswerEventView>,
    pub next: RunStep,
}

impl DeepView for RunMove {
    type V = RunMoveView;

    open spec fn deep_view(&self) -> RunMoveView {
        RunMoveView { emit: self.emit.deep_view(), next: self.next }
    }
}

/// The step that follows one that succeeds.
pub open spec fn step_beyond(step: RunStep) -> RunStep {
    match step {
        RunStep::Start => RunStep::TakeInput,
        RunStep::TakeInput => RunStep::TakeOutput,
        RunStep::TakeOutput => RunStep::Keep,
        RunStep::Keep => RunStep::Send,
        RunStep::Send => RunStep::Listen,
        RunStep::Listen => RunStep::Listen,
        RunStep::Clear => RunStep::End,
        RunStep::End => RunStep::End,
    }
}

/// The move after a step. A failure is told to the user and ends the run; once the
/// process is kept, by way of clearing it away.
pub open spec fn run_move(step: RunStep, news: RunNewsView) -> RunMoveView {
    match (step, news) {
        (RunStep::Start, RunNewsView::Failed) => RunMoveView {
            emit: Some(fault_view(WorkerFault::Start)),
            next: RunStep::End,
        },
        (RunStep::TakeInput, RunNewsView::Failed) => RunMoveView {
            emit: Some(fault_view(WorkerFault::Connect)),
            next: RunStep::End,
        },
        (RunStep::TakeOutput, RunNewsView::Failed) => RunMoveView {
            emit: Some(fault_view(WorkerFault::Read)),
            next: RunStep::End,
        },
        (RunStep::Send, RunNewsView::Failed) => RunMoveView {
            emit: Some(fault_view(WorkerFault::Send)),
            next: RunStep::Clear,
        },
        (RunStep::Listen, RunNewsView::Failed) => RunMoveView {
            emit: Some(fault_view(WorkerFault::Stopped)),
            next: RunStep::Clear,
        },
        (RunStep::Listen, RunNewsView::Output(output)) => RunMoveView {
            emit: step_after(output).emit,
            next: if step_after(output).finished {
                RunStep::Clear
            } else {
                RunStep::Listen
            },
        },
        (step, _) => RunMoveView { emit: None, next: step_beyond(step) },
    }
}

/// The move after a step.
pub fn run_ask(step: RunStep, news: RunNews) -> (r: RunMove)
    ensures
        r.deep_view() == run_move(step, news.deep_view()),
{
    match (step, news) {
        (RunStep::Start, RunNews::Failed) => RunMove {
            emit: Some(fault_event(WorkerFault::Start)),
            next: RunStep::End,
        },
        (RunStep::TakeInput, RunNews::Failed) => RunMove {
            emit: Some(fault_event(WorkerFault::Connect)),
            next: RunStep::End,
        },
        (RunStep::TakeOutput, RunNews::Failed) => RunMove {
            emit: Some(fault_event(WorkerFault::Read)),
            next: RunStep::End,
        },
        (RunStep::Send, RunNews::Failed) => RunMove {
            emit: Some(fault_event(WorkerFault::Send)),
            next: RunStep::Clear,
        },
        (RunStep::Listen, RunNews::Failed) => RunMove {
            emit: Some(fault_event(WorkerFault::Stopped)),
            next: RunStep::Clear,
        },
        (RunStep::Listen, RunNews::Output(output)) => {
            let step = on_output(&output);
            RunMove {
                emit: step.emit,
                next: if step.finished {
                    RunStep::Clear
                } else {
                    RunStep::Listen
                },
            }
        },
        (RunStep::Start, _) => RunMove { emit: None, next: RunStep::TakeInput },
        (RunStep::TakeInput, _) => RunMove { emit: None, next: RunStep::TakeOutput },
        (RunStep::TakeOutput, _) => RunMove { emit: None, next: RunStep::Keep },
        (RunStep::Keep, _) => RunMove { emit: None, next: RunStep::Send },
        (RunStep::Send, _) => RunMove { emit: None, next: RunStep::Listen },
        (RunStep::Listen, _) => RunMove { emit: None, next: RunStep::Listen },
        (RunStep::Clear, _) => RunMove { emit: None, next: RunStep::End },
        (RunStep::End, _) => RunMove { emit: None, next: RunStep::End },
    }
}

/// The process is kept where it can be stopped.
pub open spec fn is_kept(step: RunStep) -> bool {
    step == RunStep::Send || step == RunStep::Listen || step == RunStep::Clear
}

/// A process that is kept is cleared away before the run is over, and one that is not
/// kept yet is never cleared away.
pub proof fn law_a_kept_process_is_cleared(step: RunStep, news: RunNewsView)
    ensures
        is_kept(step) && step != RunStep::Clear ==> is_kept(run_move(step, news).next),
        run_move(step, news).next == RunStep::Clear ==> is_kept(step),
        run_move(step, news).next == RunStep::End && is_kept(step) ==> step == RunStep::Clear,
{
}

/// Once the user was told how an answer ended, nothing more is told, and nothing more
/// is read.
pub proof fn law_the_end_is_the_end(step: RunStep, news: RunNewsView, later: RunNewsView)
    ensures
        ({
            let now = run_move(step, news);
            now.emit matches Some(event) ==> is_terminal(event) ==> {
                &&& now.next == RunStep::Clear || now.next == RunStep::End
                &&& run_move(now.next, later).emit is None
                &&& run_move(now.next, later).next == RunStep::End
            }
        }),
{
}

/// All that the user is told of a run from a step on, where `news` says what comes of
/// each step.
pub open spec fn run_told(step: RunStep, news: Seq<RunNewsView>) -> Seq<AnswerEventView>
    decreases news.len(),
{
    if news.len() == 0 {
        Seq::empty()
    } else {
        let now = run_move(step, news.first());
        let rest = run_told(now.next, news.drop_first());
        match now.emit {
            Some(event) => seq![event] + rest,
            None => rest,
        }
    }
}

/// Pieces of output as what comes of reading them.
pub open spec fn as_news(outputs: Seq<WorkerOutputView>) -> Seq<RunNewsView> {
    Seq::new(outputs.len(), |i: int| RunNewsView::Output(outputs[i]))
}

proof fn lemma_silent_at_the_end(step: RunStep, news: Seq<RunNewsView>)
    requires
        step == RunStep::Clear || step == RunStep::End,
    ensures
        run_told(step, news) == Seq::<AnswerEventView>::empty(),
    decreases news.len(),
{
    if news.len() > 0 {
        lemma_silent_at_the_end(run_move(step, news.first()).next, news.drop_first());
    }
}

/// Once the query engine is listened to, what the user is told of the run is what its
/// output tells, up to the end of the answer.
pub proof fn law_a_run_tells_what_the_output_tells(outputs: Seq<WorkerOutputView>)
    ensures
        run_told(RunStep::Listen, as_news(outputs)) == told(outputs),
    decreases outputs.len(),
{
    if outputs.len() > 0 {
        let news = as_news(outputs);
        let rest = outputs.drop_first();
        let step = step_after(outputs.first());
        let now = run_move(RunStep::Listen, news.first());
        assert(news.first() == RunNewsView::Output(outputs.first()));
        assert(news.drop_first() =~= as_news(rest));
        if step.finished {
            lemma_silent_at_the_end(RunStep::Clear, as_news(rest));
        } else {
            law_a_run_tells_what_the_output_tells(rest);
        }
        assert(run_told(RunStep::Listen, news) =~= told(outputs));
    }
}

/// Where the query engine is started and asked without a failure, all that the user is
/// told of the run is what its output tells.
pub proof fn law_a_whole_run_tells_what_the_output_tells(outputs: Seq<WorkerOutputView>)
    ensures
        ({
            let w = RunNewsView::Worked;
            run_told(RunStep::Start, seq![w, w, w, w, w] + as_news(outputs)) == told(outputs)
        }),
{
    let w = RunNewsView::Worked;
    let o = as_news(outputs);
    law_a_run_tells_what_the_output_tells(outputs);
    assert((seq![w] + o).drop_first() =~= o);
    assert((seq![w, w] + o).drop_first() =~= seq![w] + o);
    assert((seq![w, w, w] + o).drop_first() =~= seq![w, w] + o);
    assert((seq![w, w, w, w] + o).drop_first() =~= seq![w, w, w] + o);
    assert((seq![w, w, w, w, w] + o).drop_first() =~= seq![w, w, w, w] + o);
    assert(run_told(RunStep::Send, seq![w] + o) == told(outputs));
    assert(run_told(RunStep::Keep, seq![w, w] + o) == told(outputs));
    assert(run_told(RunStep::TakeOutput, seq![w, w, w] + o) == told(outputs));
    assert(run_told(RunStep::TakeInput, seq![w, w, w, w] + o) == told(outputs));
}

// ---- the request ----------------------------------------------------------

/// What the query engine is asked to do.
#[derive(Clone, Copy, Debug, PartialEq, Eq, Structural)]
pub enum WorkerCommand {
    /// Answer a question.
    Ask,
    /// Judge whether the papers support a claim.
    Check,
    /// Only read the papers into the index.
    Index,
}

/// The word for a command in a request.
pub open spec fn command_word(command: WorkerCommand) -> Seq<char> {
    match command {
        WorkerCommand::Ask => "ask"@,
        WorkerCommand::Check => "check"@,
        WorkerCommand::Index => "index"@,
    }
}

/// A request to the query engine.
#[derive(Debug, PartialEq, Eq)]
pub struct WorkerRequest {
    pub id: String,
    pub command: WorkerCommand,
    pub question: String,
    pub history: String,
    pub cache_dir: String,
    pub model: String,
    pub embedding: String,
    pub api_base: String,
    pub api_key: String,
    pub qdrant_url: String,
    pub qdrant_key: String,
    pub collection_key: String,
    pub docs: Vec<DocRef>,
}

#[verifier::ext_equal]
pub struct WorkerRequestView {
    pub id: Seq<char>,
    pub command: WorkerCommand,
    pub question: Seq<char>,
    pub history: Seq<char>,
    pub cache_dir: Seq<char>,
    pub model: Seq<char>,
    pub embedding: Seq<char>,
    pub api_base: Seq<char>,
    pub api_key: Seq<char>,
    pub qdrant_url: Seq<char>,
    pub qdrant_key: Seq<char>,
    pub collection_key: Seq<char>,
    pub docs: Seq<DocRefView>,
}

impl DeepView for WorkerRequest {
    type V = WorkerRequestView;

    open spec fn deep_view(&self) -> WorkerRequestView {
        WorkerRequestView {
            id: self.id@,
            command: self.command,
            question: self.question@,
            history: self.history@,
            cache_dir: self.cache_dir@,
            model: self.model@,
            embedding: self.embedding@,
            api_base: self.api_base@,
            api_key: self.api_key@,
            qdrant_url: self.qdrant_url@,
            qdrant_key: self.qdrant_key@,
            collection_key: self.collection_key@,
            docs: self.docs.deep_view(),
        }
    }
}

/// The name of the index in a cache directory: the directory's own name.
pub open spec fn index_name(cache_dir: Seq<char>) -> Seq<char> {
    match paths::file_name_of(cache_dir) {
        Some(name) => name,
        None => "paperdock"@,
    }
}

/// The name of the index in a cache directory.
pub fn cache_dir_index_name(cache_dir: &str) -> (r: String)
    ensures
        r@ == index_name(cache_dir@),
{
    match paths::file_name(cache_dir) {
        Some(name) => name,
        None => "paperdock".to_string(),
    }
}

/// The members of a paper as it stands in a request.
pub open spec fn doc_entries(doc: DocRefView) -> Seq<(Seq<char>, JsonView)> {
    seq![
        ("path"@, JsonView::Text(doc.path)),
        ("zotero_key"@, JsonView::Text(doc.zotero_key)),
        ("citation"@, JsonView::Text(doc.citation)),
    ]
}

/// A paper as it stands in a request.
pub open spec fn doc_document(doc: DocRefView) -> JsonView {
    JsonView::Record(json::record_of(doc_entries(doc)))
}

pub open spec fn doc_documents(docs: Seq<DocRefView>) -> Seq<JsonView> {
    Seq::new(docs.len(), |i: int| doc_document(docs[i]))
}

/// The members of a request.
pub open spec fn request_entries(request: WorkerRequestView) -> Seq<(Seq<char>, JsonView)> {
    seq![
        ("id"@, JsonView::Text(request.id)),
        ("cmd"@, JsonView::Text(command_word(request.command))),
        ("question"@, JsonView::Text(request.question)),
        ("history"@, JsonView::Text(request.history)),
        ("index_name"@, JsonView::Text(index_name(request.cache_dir))),
        ("cache_dir"@, JsonView::Text(request.cache_dir)),
        ("model"@, JsonView::Text(request.model)),
        ("embedding"@, JsonView::Text(request.embedding)),
        ("api_base"@, JsonView::Text(request.api_base)),
        ("api_key"@, JsonView::Text(request.api_key)),
        ("qdrant_url"@, JsonView::Text(request.qdrant_url)),
        ("qdrant_key"@, JsonView::Text(request.qdrant_key)),
        ("collection_key"@, JsonView::Text(request.collection_key)),
        ("docs"@, JsonView::List(doc_documents(request.docs))),
    ]
}

/// A request as a JSON document.
pub open spec fn request_document(request: WorkerRequestView) -> JsonView {
    JsonView::Record(json::record_of(request_entries(request)))
}

/// No two members of a request share a name.
proof fn lemma_request_names(request: WorkerRequestView)
    ensures
        json::distinct_names(request_entries(request)),
{
    let entries = request_entries(request);
    assert(entries[0].0 == "id"@);
    assert(entries[1].0 == "cmd"@);
    assert(entries[2].0 == "question"@);
    assert(entries[3].0 == "history"@);
    assert(entries[4].0 == "index_name"@);
    assert(entries[5].0 == "cache_dir"@);
    assert(entries[6].0 == "model"@);
    assert(entries[7].0 == "embedding"@);
    assert(entries[8].0 == "api_base"@);
    assert(entries[9].0 == "api_key"@);
    assert(entries[10].0 == "qdrant_url"@);
    assert(entries[11].0 == "qdrant_key"@);
    assert(entries[12].0 == "collection_key"@);
    assert(entries[13].0 == "docs"@);
    reveal_strlit("id");
    reveal_strlit("cmd");
    reveal_strlit("question");
    reveal_strlit("history");
    reveal_strlit("index_name");
    reveal_strlit("cache_dir");
    reveal_strlit("model");
    reveal_strlit("embedding");
    reveal_strlit("api_base");
    reveal_strlit("api_key");
    reveal_strlit("qdrant_url");
    reveal_strlit("qdrant_key");
    reveal_strlit("collection_key");
    reveal_strlit("docs");
    assert("id"@.len() == 2);
    assert("cmd"@.len() == 3);
    assert("question"@.len() == 8);
    assert("history"@.len() == 7);
    assert("index_name"@.len() == 10);
    assert("cache_dir"@.len() == 9);
    assert("model"@.len() == 5);
    assert("embedding"@.len() == 9);
    assert("api_base"@.len() == 8);
    assert("api_key"@.len() == 7);
    assert("qdrant_url"@.len() == 10);
    assert("qdrant_key"@.len() == 10);
    assert("collection_key"@.len() == 14);
    assert("docs"@.len() == 4);
    assert("question"@[0] != "api_base"@[0]);
    assert("history"@[0] != "api_key"@[0]);
    assert("cache_dir"@[0] != "embedding"@[0]);
    assert("index_name"@[0] != "qdrant_url"@[0]);
    assert("index_name"@[0] != "qdrant_key"@[0]);
    assert("qdrant_url"@[7] != "qdrant_key"@[7]);
}

/// No two members of a paper share a name.
proof fn lemma_doc_names(doc: DocRefView)
    ensures
        json::distinct_names(doc_entries(doc)),
{
    let members = doc_entries(doc);
    reveal_strlit("path");
    reveal_strlit("zotero_key");
    reveal_strlit("citation");
    assert("path"@.len() == 4 && "zotero_key"@.len() == 10 && "citation"@.len() == 8);
    assert(members[0].0 == "path"@);
    assert(members[1].0 == "zotero_key"@);
    assert(members[2].0 == "citation"@);
}

fn text_value(s: &str) -> (v: serde_json::Value)
    ensures
        json::value_contents(v) == JsonView::Text(s@),
{
    json::value_of(Part::Text(s.to_string()))
}

fn doc_value(doc: &DocRef) -> (v: serde_json::Value)
    ensures
        json::value_contents(v) == doc_document(doc.deep_view()),
{
    let entries: Vec<(String, serde_json::Value)> = vec![
        ("path".to_string(), text_value(doc.path.as_str())),
        ("zotero_key".to_string(), text_value(doc.zotero_key.as_str())),
        ("citation".to_string(), text_value(doc.citation.as_str())),
    ];
    proof {
        lemma_doc_names(doc.deep_view());
    }
    assert(json::entry_contents(entries@) =~= doc_entries(doc.deep_view()));
    json::value_of(Part::Record(entries))
}

fn docs_value(docs: &Vec<DocRef>) -> (v: serde_json::Value)
    ensures
        json::value_contents(v) == JsonView::List(doc_documents(docs.deep_view())),
{
    let mut values: Vec<serde_json::Value> = Vec::new();
    let mut i: usize = 0;
    while i < docs.len()
        invariant
            i == values@.len(),
            i <= docs@.len(),
            forall|k: int|
                0 <= k < i ==> json::value_contents(#[trigger] values@[k]) == doc_document(
                    docs@[k].deep_view(),
                ),
        decreases docs@.len() - i,
    {
        values.push(doc_value(&docs[i]));
        i = i + 1;
    }
    assert(json::list_contents(values@) =~= doc_documents(docs.deep_view()));
    json::value_of(Part::List(values))
}

fn request_value(request: &WorkerRequest) -> (v: serde_json::Value)
    ensures
        json::value_contents(v) == request_document(request.deep_view()),
{
    let command = match request.command {
        WorkerCommand::Ask => "ask",
        WorkerCommand::Check => "check",
        WorkerCommand::Index => "index",
    };
    let index = cache_dir_index_name(request.cache_dir.as_str());
    let entries: Vec<(String, serde_json::Value)> = vec![
        ("id".to_string(), text_value(request.id.as_str())),
        ("cmd".to_string(), text_value(command)),
        ("question".to_string(), text_value(request.question.as_str())),
        ("history".to_string(), text_value(request.history.as_str())),
        ("index_name".to_string(), text_value(index.as_str())),
        ("cache_dir".to_string(), text_value(request.cache_dir.as_str())),
        ("model".to_string(), text_value(request.model.as_str())),
        ("embedding".to_string(), text_value(request.embedding.as_str())),
        ("api_base".to_string(), text_value(request.api_base.as_str())),
        ("api_key".to_string(), text_value(request.api_key.as_str())),
        ("qdrant_url".to_string(), text_value(request.qdrant_url.as_str())),
        ("qdrant_key".to_string(), text_value(request.qdrant_key.as_str())),
        ("collection_key".to_string(), text_value(request.collection_key.as_str())),
        ("docs".to_string(), docs_value(&request.docs)),
    ];
    proof {
        lemma_request_names(request.deep_view());
    }
    assert(json::entry_contents(entries@) =~= request_entries(request.deep_view()));
    json::value_of(Part::Record(entries))
}

/// A request nests no deeper than JSON text can.
proof fn lemma_request_nesting(request: WorkerRequestView)
    ensures
        json::nested_at_most(request_document(request), 127),
{
    let docs = doc_documents(request.docs);
    assert forall|i: int| 0 <= i < docs.len() implies json::nested_at_most(
        #[trigger] docs[i],
        125,
    ) by {
        json::lemma_record_nesting(doc_entries(request.docs[i]), 124);
    }
    json::lemma_record_nesting(request_entries(request), 126);
}

/// The line that asks the query engine: the request as one JSON document, and
/// one line feed, at its end.
pub fn request_line(request: &WorkerRequest) -> (r: Result<String, WorkerFault>)
    ensures
        r is Ok,
        r matches Ok(line) ==> {
            &&& line@.len() > 0
            &&& line@.last() == '\n'
            &&& !line@.drop_last().contains('\n')
            &&& json::document_in_text(line@.drop_last()) == Some(
                request_document(request.deep_view()),
            )
        },
{
    let value = request_value(request);
    proof {
        lemma_request_nesting(request.deep_view());
    }
    match json::value_text(&value) {
        Ok(text) => {
            let mut line = text;
            let ghost before = line@;
            line.push('\n');
            assert(line@.drop_last() =~= before);
            Ok(line)
        },
        Err(_) => Err(WorkerFault::BuildRequest),
    }
}

/// The query engine can read back every part of a request: no member hides
/// another.
pub proof fn law_request_reads_back(request: WorkerRequestView)
    ensures
        request_document(request).text_member("id"@) == Some(request.id),
        request_document(request).text_member("cmd"@) == Some(command_word(request.command)),
        request_document(request).text_member("question"@) == Some(request.question),
        request_document(request).text_member("history"@) == Some(request.history),
        request_document(request).text_member("index_name"@) == Some(
            index_name(request.cache_dir),
        ),
        request_document(request).text_member("cache_dir"@) == Some(request.cache_dir),
        request_document(request).text_member("model"@) == Some(request.model),
        request_document(request).text_member("embedding"@) == Some(request.embedding),
        request_document(request).text_member("api_base"@) == Some(request.api_base),
        request_document(request).text_member("api_key"@) == Some(request.api_key),
        request_document(request).text_member("qdrant_url"@) == Some(request.qdrant_url),
        request_document(request).text_member("qdrant_key"@) == Some(request.qdrant_key),
        request_document(request).text_member("collection_key"@) == Some(request.collection_key),
        request_document(request).list_member("docs"@) == Some(doc_documents(request.docs)),
        forall|i: int|
            #![trigger doc_documents(request.docs)[i]]
            0 <= i < request.docs.len() ==> {
                let doc = doc_documents(request.docs)[i];
                &&& doc.text_member("path"@) == Some(request.docs[i].path)
                &&& doc.text_member("zotero_key"@) == Some(request.docs[i].zotero_key)
                &&& doc.text_member("citation"@) == Some(request.docs[i].citation)
            },
{
    let entries = request_entries(request);
    lemma_request_names(request);
    assert(entries[0].0 == "id"@);
    assert(entries[1].0 == "cmd"@);
    assert(entries[2].0 == "question"@);
    assert(entries[3].0 == "history"@);
    assert(entries[4].0 == "index_name"@);
    assert(entries[5].0 == "cache_dir"@);
    assert(entries[6].0 == "model"@);
    assert(entries[7].0 == "embedding"@);
    assert(entries[8].0 == "api_base"@);
    assert(entries[9].0 == "api_key"@);
    assert(entries[10].0 == "qdrant_url"@);
    assert(entries[11].0 == "qdrant_key"@);
    assert(entries[12].0 == "collection_key"@);
    assert(entries[13].0 == "docs"@);
    json::lemma_record_of(entries);
    assert forall|i: int|
        #![trigger doc_documents(request.docs)[i]]
        0 <= i < request.docs.len() implies {
        let doc = doc_documents(request.docs)[i];
        &&& doc.text_member("path"@) == Some(request.docs[i].path)
        &&& doc.text_member("zotero_key"@) == Some(request.docs[i].zotero_key)
        &&& doc.text_member("citation"@) == Some(request.docs[i].citation)
    } by {
        let members = doc_entries(request.docs[i]);
        lemma_doc_names(request.docs[i]);
        assert(members[0].0 == "path"@);
        assert(members[1].0 == "zotero_key"@);
        assert(members[2].0 == "citation"@);
        json::lemma_record_of(members);
    }
}

/// The index in a cache directory goes by the directory's name.
pub proof fn law_an_index_goes_by_its_folder(dir: Seq<char>, name: Seq<char>)
    requires
        name.len() > 0,
        !name.contains('/'),
        name != seq!['.'],
        name != seq!['.', '.'],
        dir.len() == 0 || dir.last() == '/',
    ensures
        index_name(dir + name) == name,
        index_name(Seq::empty()) == "paperdock"@,
{
    paths::law_a_file_goes_by_its_name(dir, name);
    paths::law_two_dots_are_no_name(dir);
}

/// Each command has its own word.
pub proof fn law_commands_go_by_their_words(command: WorkerCommand)
    ensures
        command == WorkerCommand::Ask ==> command_word(command) == "ask"@,
        command == WorkerCommand::Check ==> command_word(command) == "check"@,
        command == WorkerCommand::Index ==> command_word(command) == "index"@,
{
}

/// A failure before the answer is told, and each is told as what it is; a success tells
/// nothing and leads on.
pub proof fn law_failures_are_told(output: WorkerOutputView)
    ensures
        run_move(RunStep::Start, RunNewsView::Failed) == (RunMoveView {
            emit: Some(
                AnswerEventView::Error { message: "Could not start the query engine."@ },
            ),
            next: RunStep::End,
        }),
        run_move(RunStep::TakeInput, RunNewsView::Failed) == (RunMoveView {
            emit: Some(
                AnswerEventView::Error { message: "Could not connect to the query engine."@ },
            ),
            next: RunStep::End,
        }),
        run_move(RunStep::TakeOutput, RunNewsView::Failed) == (RunMoveView {
            emit: Some(
                AnswerEventView::Error { message: "Could not read from the query engine."@ },
            ),
            next: RunStep::End,
        }),
        run_move(RunStep::Send, RunNewsView::Failed) == (RunMoveView {
            emit: Some(
                AnswerEventView::Error {
                    message: "Could not send the question to the query engine."@,
                },
            ),
            next: RunStep::Clear,
        }),
        run_move(RunStep::Listen, RunNewsView::Failed) == (RunMoveView {
            emit: Some(
                AnswerEventView::Error { message: "The query engine stopped unexpectedly."@ },
            ),
            next: RunStep::Clear,
        }),
        run_move(RunStep::Start, RunNewsView::Worked) == (RunMoveView {
            emit: None,
            next: RunStep::TakeInput,
        }),
        run_move(RunStep::Keep, RunNewsView::Worked) == (RunMoveView {
            emit: None,
            next: RunStep::Send,
        }),
        run_move(RunStep::Clear, RunNewsView::Worked).next == RunStep::End,
        run_move(RunStep::Listen, RunNewsView::Output(output)).emit == step_after(output).emit,
{
}

/// What an event does not say is empty, and nothing is put in its place.
pub proof fn law_what_is_not_said_is_empty(v: JsonView)
    ensures
        v.member("type"@) == Some(JsonView::Text("token"@)) && v.text_member("text"@) is None
            ==> event_in(v) == Some(AnswerEventView::Token { text: Seq::empty() }),
        v.member("type"@) == Some(JsonView::Text("status"@)) && v.text_member("text"@) is None
            ==> event_in(v) == Some(AnswerEventView::Status { text: Seq::empty() }),
        v.member("type"@) == Some(JsonView::Text("references"@)) && v.list_member("items"@) is None
            ==> (event_in(v) matches Some(AnswerEventView::References { items }) && items.len()
            == 0),
        v.member("type"@) == Some(JsonView::Text("draft"@)) && v.list_member("items"@) is None
            ==> (event_in(v) matches Some(AnswerEventView::Draft { claims }) && claims.len() == 0),
        v.text_member("type"@) is None ==> event_in(v) is None,
        v.text_member("zotero_key"@) is None ==> ref_item_in(v).item_key.len() == 0,
        v.text_member("citation"@) is None ==> ref_item_in(v).citation.len() == 0,
        v.list_member("passages"@) is None ==> ref_item_in(v).passages.len() == 0,
        v.text_member("page"@) is None ==> passage_in(v).page.len() == 0,
        v.text_member("snippet"@) is None ==> passage_in(v).snippet.len() == 0,
        v.text_member("claim"@) is None ==> draft_item_in(v).claim.len() == 0,
        v.text_member("verdict"@) is None ==> draft_item_in(v).verdict.len() == 0,
        v.text_member("detail"@) is None ==> draft_item_in(v).detail.len() == 0,
{
    lemma_event_words();
}

} // verus!
