//! The window: what it knows, and what it makes of what the user does and of what
//! the app tells it.

use crate::ask::{PaperRef, PaperRefView};
use crate::picker;
use crate::reference::{RefMatch, RefMatchView};
use crate::setup::{SetupEvent, SetupEventView};
use crate::sidecar;
use crate::sidecar::{
    AnswerEvent, AnswerEventView, DraftItem, DraftItemView, RefItem, RefItemView,
};
use crate::text;
use crate::thread;
use crate::thread::{Turn, TurnView};
use crate::zotero::{Collection, CollectionView};
use vstd::prelude::*;

verus! {

/// What the user wants to do.
#[derive(Clone, Copy, Debug, PartialEq, Eq, Structural)]
pub enum Mode {
    /// Ask a question.
    Ask,
    /// Check a claim against the papers.
    Check,
    /// Verify a reference.
    Verify,
    /// Check a whole draft.
    Draft,
}

/// The collections, and the one that was chosen.
#[derive(Debug, PartialEq, Eq)]
pub struct Shelf {
    /// The collections to choose from.
    pub collections: Vec<Collection>,
    /// Have the collections been fetched?
    pub ready: bool,
    /// Is Zotero running?
    pub zotero_ok: bool,
    /// The id of the chosen collection. Empty: none.
    pub selected: String,
    /// The one that was chosen last time.
    pub remembered: Option<String>,
    /// Its papers, to check a claim against.
    pub papers: Vec<PaperRef>,
    /// The paper to check against. Empty: all.
    pub source_key: String,
}

#[verifier::ext_equal]
pub struct ShelfView {
    pub collections: Seq<CollectionView>,
    pub ready: bool,
    pub zotero_ok: bool,
    pub selected: Seq<char>,
    pub remembered: Option<Seq<char>>,
    pub papers: Seq<PaperRefView>,
    pub source_key: Seq<char>,
}

impl DeepView for Shelf {
    type V = ShelfView;

    open spec fn deep_view(&self) -> ShelfView {
        ShelfView {
            collections: self.collections.deep_view(),
            ready: self.ready,
            zotero_ok: self.zotero_ok,
            selected: self.selected@,
            remembered: self.remembered.deep_view(),
            papers: self.papers.deep_view(),
            source_key: self.source_key@,
        }
    }
}

/// The conversation.
#[derive(Debug, PartialEq, Eq)]
pub struct Talk {
    /// The question or claim being typed.
    pub question: String,
    /// The question that is being answered.
    pub asked: String,
    /// Its answer so far.
    pub answer: String,
    /// The sources of the answer.
    pub refs: Vec<RefItem>,
    /// The source whose passages are shown.
    pub active_source: usize,
    /// What the user should know of the answer.
    pub notice: String,
    /// Is the query engine running?
    pub streaming: bool,
    /// The questions that were answered before.
    pub history: Vec<Turn>,
    /// The id of the next turn.
    pub turn_id: usize,
}

#[verifier::ext_equal]
pub struct TalkView {
    pub question: Seq<char>,
    pub asked: Seq<char>,
    pub answer: Seq<char>,
    pub refs: Seq<RefItemView>,
    pub active_source: usize,
    pub notice: Seq<char>,
    pub streaming: bool,
    pub history: Seq<TurnView>,
    pub turn_id: usize,
}

impl DeepView for Talk {
    type V = TalkView;

    open spec fn deep_view(&self) -> TalkView {
        TalkView {
            question: self.question@,
            asked: self.asked@,
            answer: self.answer@,
            refs: self.refs.deep_view(),
            active_source: self.active_source,
            notice: self.notice@,
            streaming: self.streaming,
            history: self.history.deep_view(),
            turn_id: self.turn_id,
        }
    }
}

/// Verifying a reference.
#[derive(Debug, PartialEq, Eq)]
pub struct RefCheck {
    /// The reference.
    pub input: String,
    /// What CrossRef knows of it.
    pub result: Option<RefMatch>,
    /// Is it being looked up?
    pub running: bool,
}

#[verifier::ext_equal]
pub struct RefCheckView {
    pub input: Seq<char>,
    pub result: Option<RefMatchView>,
    pub running: bool,
}

impl DeepView for RefCheck {
    type V = RefCheckView;

    open spec fn deep_view(&self) -> RefCheckView {
        RefCheckView {
            input: self.input@,
            result: self.result.deep_view(),
            running: self.running,
        }
    }
}

/// Checking a draft.
#[derive(Debug, PartialEq, Eq)]
pub struct DraftCheck {
    /// The draft.
    pub input: String,
    /// The verdicts on its claims.
    pub items: Vec<DraftItem>,
    /// Is it being checked?
    pub running: bool,
}

#[verifier::ext_equal]
pub struct DraftCheckView {
    pub input: Seq<char>,
    pub items: Seq<DraftItemView>,
    pub running: bool,
}

impl DeepView for DraftCheck {
    type V = DraftCheckView;

    open spec fn deep_view(&self) -> DraftCheckView {
        DraftCheckView {
            input: self.input@,
            items: self.items.deep_view(),
            running: self.running,
        }
    }
}

/// What the user thinks of an answer.
#[derive(Debug, PartialEq, Eq)]
pub struct Opinion {
    /// May it be sent? None: the user was not asked yet.
    pub consent: Option<bool>,
    /// The user's research field.
    pub field: String,
    /// Has the answer been rated?
    pub rated: bool,
    /// Is the user being asked for consent?
    pub asking: bool,
    /// The rating that waits for consent.
    pub pending: String,
}

#[verifier::ext_equal]
pub struct OpinionView {
    pub consent: Option<bool>,
    pub field: Seq<char>,
    pub rated: bool,
    pub asking: bool,
    pub pending: Seq<char>,
}

impl DeepView for Opinion {
    type V = OpinionView;

    open spec fn deep_view(&self) -> OpinionView {
        OpinionView {
            consent: self.consent,
            field: self.field@,
            rated: self.rated,
            asking: self.asking,
            pending: self.pending@,
        }
    }
}

/// The settings form.
#[derive(Debug, PartialEq, Eq)]
pub struct Form {
    pub shown: bool,
    /// Is there a key to the model?
    pub has_key: bool,
    pub model: String,
    pub embedding: String,
    pub api_base: String,
    pub key: String,
    pub qdrant_url: String,
    pub qdrant_key: String,
    /// Does an exported lab config carry the key to the model?
    pub export_key: bool,
}

#[verifier::ext_equal]
pub struct FormView {
    pub shown: bool,
    pub has_key: bool,
    pub model: Seq<char>,
    pub embedding: Seq<char>,
    pub api_base: Seq<char>,
    pub key: Seq<char>,
    pub qdrant_url: Seq<char>,
    pub qdrant_key: Seq<char>,
    pub export_key: bool,
}

impl DeepView for Form {
    type V = FormView;

    open spec fn deep_view(&self) -> FormView {
        FormView {
            shown: self.shown,
            has_key: self.has_key,
            model: self.model@,
            embedding: self.embedding@,
            api_base: self.api_base@,
            key: self.key@,
            qdrant_url: self.qdrant_url@,
            qdrant_key: self.qdrant_key@,
            export_key: self.export_key,
        }
    }
}

/// What a first run needs.
#[derive(Debug, PartialEq, Eq)]
pub struct FirstRun {
    /// Is the Python environment there?
    pub env_ready: bool,
    /// Is it being set up?
    pub running: bool,
    /// How far the setup is.
    pub status: String,
    /// What went wrong with it.
    pub error: String,
    /// Which tip is shown meanwhile.
    pub tip: usize,
    /// Is a lab config still wanted?
    pub needs_config: bool,
}

#[verifier::ext_equal]
pub struct FirstRunView {
    pub env_ready: bool,
    pub running: bool,
    pub status: Seq<char>,
    pub error: Seq<char>,
    pub tip: usize,
    pub needs_config: bool,
}

impl DeepView for FirstRun {
    type V = FirstRunView;

    open spec fn deep_view(&self) -> FirstRunView {
        FirstRunView {
            env_ready: self.env_ready,
            running: self.running,
            status: self.status@,
            error: self.error@,
            tip: self.tip,
            needs_config: self.needs_config,
        }
    }
}

/// All that the window knows.
#[derive(Debug, PartialEq, Eq)]
pub struct Session {
    /// What the user wants to do.
    pub mode: Mode,
    /// What the app is doing.
    pub status: String,
    /// What to confirm to the user.
    pub toast: String,
    /// Where the note is that was saved last.
    pub saved_link: String,
    pub shelf: Shelf,
    pub talk: Talk,
    pub verify: RefCheck,
    pub draft: DraftCheck,
    pub opinion: Opinion,
    pub form: Form,
    pub first_run: FirstRun,
}

#[verifier::ext_equal]
pub struct SessionView {
    pub mode: Mode,
    pub status: Seq<char>,
    pub toast: Seq<char>,
    pub saved_link: Seq<char>,
    pub shelf: ShelfView,
    pub talk: TalkView,
    pub verify: RefCheckView,
    pub draft: DraftCheckView,
    pub opinion: OpinionView,
    pub form: FormView,
    pub first_run: FirstRunView,
}

impl DeepView for Session {
    type V = SessionView;

    open spec fn deep_view(&self) -> SessionView {
        SessionView {
            mode: self.mode,
            status: self.status@,
            toast: self.toast@,
            saved_link: self.saved_link@,
            shelf: self.shelf.deep_view(),
            talk: self.talk.deep_view(),
            verify: self.verify.deep_view(),
            draft: self.draft.deep_view(),
            opinion: self.opinion.deep_view(),
            form: self.form.deep_view(),
            first_run: self.first_run.deep_view(),
        }
    }
}

/// A window that was just opened. It takes for granted that Zotero is running,
/// that the environment is there and that there is a key, until it learns better.
pub open spec fn just_opened() -> SessionView {
    SessionView {
        mode: Mode::Ask,
        status: Seq::empty(),
        toast: Seq::empty(),
        saved_link: Seq::empty(),
        shelf: ShelfView {
            collections: Seq::empty(),
            ready: false,
            zotero_ok: true,
            selected: Seq::empty(),
            remembered: None,
            papers: Seq::empty(),
            source_key: Seq::empty(),
        },
        talk: TalkView {
            question: Seq::empty(),
            asked: Seq::empty(),
            answer: Seq::empty(),
            refs: Seq::empty(),
            active_source: 0,
            notice: Seq::empty(),
            streaming: false,
            history: Seq::empty(),
            turn_id: 0,
        },
        verify: RefCheckView {
            input: Seq::empty(),
            result: None,
            running: false,
        },
        draft: DraftCheckView {
            input: Seq::empty(),
            items: Seq::empty(),
            running: false,
        },
        opinion: OpinionView {
            consent: None,
            field: Seq::empty(),
            rated: false,
            asking: false,
            pending: Seq::empty(),
        },
        form: FormView {
            shown: false,
            has_key: true,
            model: Seq::empty(),
            embedding: Seq::empty(),
            api_base: Seq::empty(),
            key: Seq::empty(),
            qdrant_url: Seq::empty(),
            qdrant_key: Seq::empty(),
            export_key: true,
        },
        first_run: FirstRunView {
            env_ready: true,
            running: false,
            status: Seq::empty(),
            error: Seq::empty(),
            tip: 0,
            needs_config: false,
        },
    }
}

impl Session {
    /// A window that was just opened.
    pub fn new() -> (r: Session)
        ensures
            r.deep_view() == just_opened(),
    {
        let r = Session {
            mode: Mode::Ask,
            status: String::new(),
            toast: String::new(),
            saved_link: String::new(),
            shelf: Shelf {
                collections: Vec::new(),
                ready: false,
                zotero_ok: true,
                selected: String::new(),
                remembered: None,
                papers: Vec::new(),
                source_key: String::new(),
            },
            talk: Talk {
                question: String::new(),
                asked: String::new(),
                answer: String::new(),
                refs: Vec::new(),
                active_source: 0,
                notice: String::new(),
                streaming: false,
                history: Vec::new(),
                turn_id: 0,
            },
            verify: RefCheck {
                input: String::new(),
                result: None,
                running: false,
            },
            draft: DraftCheck {
                input: String::new(),
                items: Vec::new(),
                running: false,
            },
            opinion: Opinion {
                consent: None,
                field: String::new(),
                rated: false,
                asking: false,
                pending: String::new(),
            },
            form: Form {
                shown: false,
                has_key: true,
                model: String::new(),
                embedding: String::new(),
                api_base: String::new(),
                key: String::new(),
                qdrant_url: String::new(),
                qdrant_key: String::new(),
                export_key: true,
            },
            first_run: FirstRun {
                env_ready: true,
                running: false,
                status: String::new(),
                error: String::new(),
                tip: 0,
                needs_config: false,
            },
        };
        assert(r.deep_view() =~= just_opened());
        r
    }
}

// ---- events ---------------------------------------------------------------

/// An event as it reaches the window: its kind, and whatever comes with it.
#[derive(Debug, PartialEq, Eq)]
pub struct WireEvent {
    pub kind: String,
    pub text: Option<String>,
    pub items: Option<Vec<RefItem>>,
    pub claims: Option<Vec<DraftItem>>,
    pub message: Option<String>,
}

#[verifier::ext_equal]
pub struct WireEventView {
    pub kind: Seq<char>,
    pub text: Option<Seq<char>>,
    pub items: Option<Seq<RefItemView>>,
    pub claims: Option<Seq<DraftItemView>>,
    pub message: Option<Seq<char>>,
}

impl DeepView for WireEvent {
    type V = WireEventView;

    open spec fn deep_view(&self) -> WireEventView {
        WireEventView {
            kind: self.kind@,
            text: self.text.deep_view(),
            items: self.items.deep_view(),
            claims: self.claims.deep_view(),
            message: self.message.deep_view(),
        }
    }
}

/// The form in which an event of an answer reaches the window.
pub open spec fn wire_of(event: AnswerEventView) -> WireEventView {
    let bare = WireEventView {
        kind: Seq::empty(),
        text: None,
        items: None,
        claims: None,
        message: None,
    };
    match event {
        AnswerEventView::Status { text } => WireEventView {
            kind: "status"@,
            text: Some(text),
            ..bare
        },
        AnswerEventView::Token { text } => WireEventView {
            kind: "token"@,
            text: Some(text),
            ..bare
        },
        AnswerEventView::References { items } => WireEventView {
            kind: "references"@,
            items: Some(items),
            ..bare
        },
        AnswerEventView::Notice { message } => WireEventView {
            kind: "notice"@,
            message: Some(message),
            ..bare
        },
        AnswerEventView::Draft { claims } => WireEventView {
            kind: "draft"@,
            claims: Some(claims),
            ..bare
        },
        AnswerEventView::Done => WireEventView { kind: "done"@, ..bare },
        AnswerEventView::Error { message } => WireEventView {
            kind: "error"@,
            message: Some(message),
            ..bare
        },
    }
}

/// The form in which an event of the setup reaches the window.
pub open spec fn setup_wire_of(event: SetupEventView) -> WireEventView {
    let bare = WireEventView {
        kind: Seq::empty(),
        text: None,
        items: None,
        claims: None,
        message: None,
    };
    match event {
        SetupEventView::Status { message } => WireEventView {
            kind: "status"@,
            message: Some(message),
            ..bare
        },
        SetupEventView::Done => WireEventView { kind: "done"@, ..bare },
        SetupEventView::Error { message } => WireEventView {
            kind: "error"@,
            message: Some(message),
            ..bare
        },
    }
}

fn bare_event(kind: &str) -> (r: WireEvent)
    ensures
        r.deep_view() == (WireEventView {
            kind: kind@,
            text: None,
            items: None,
            claims: None,
            message: None,
        }),
{
    WireEvent { kind: kind.to_string(), text: None, items: None, claims: None, message: None }
}

/// The form in which an event of an answer reaches the window.
pub fn answer_wire(event: AnswerEvent) -> (r: WireEvent)
    ensures
        r.deep_view() == wire_of(event.deep_view()),
{
    match event {
        AnswerEvent::Status { text } => {
            let mut r = bare_event("status");
            r.text = Some(text);
            r
        },
        AnswerEvent::Token { text } => {
            let mut r = bare_event("token");
            r.text = Some(text);
            r
        },
        AnswerEvent::References { items } => {
            let mut r = bare_event("references");
            r.items = Some(items);
            r
        },
        AnswerEvent::Notice { message } => {
            let mut r = bare_event("notice");
            r.message = Some(message);
            r
        },
        AnswerEvent::Draft { claims } => {
            let mut r = bare_event("draft");
            r.claims = Some(claims);
            r
        },
        AnswerEvent::Done => bare_event("done"),
        AnswerEvent::Error { message } => {
            let mut r = bare_event("error");
            r.message = Some(message);
            r
        },
    }
}

/// The form in which an event of the setup reaches the window.
pub fn setup_wire(event: SetupEvent) -> (r: WireEvent)
    ensures
        r.deep_view() == setup_wire_of(event.deep_view()),
{
    match event {
        SetupEvent::Status { message } => {
            let mut r = bare_event("status");
            r.message = Some(message);
            r
        },
        SetupEvent::Done => bare_event("done"),
        SetupEvent::Error { message } => {
            let mut r = bare_event("error");
            r.message = Some(message);
            r
        },
    }
}

/// The given text, or the other where there is none.
pub open spec fn or_text(given: Option<Seq<char>>, other: Seq<char>) -> Seq<char> {
    match given {
        Some(t) => t,
        None => other,
    }
}

fn text_or(given: Option<String>, other: &str) -> (r: String)
    ensures
        r@ == or_text(given.deep_view(), other@),
{
    match given {
        Some(t) => t,
        None => other.to_string(),
    }
}

/// The window with the query engine at rest.
pub open spec fn at_rest(s: SessionView) -> SessionView {
    SessionView {
        talk: TalkView { streaming: false, ..s.talk },
        draft: DraftCheckView { running: false, ..s.draft },
        ..s
    }
}

/// The window after an event of an answer. Events of unknown kinds, and those that
/// lack what their kind brings, change nothing.
pub open spec fn after_answer(s: SessionView, e: WireEventView) -> SessionView {
    if e.kind == "status"@ {
        match e.text {
            Some(t) => SessionView { status: t, ..s },
            None => s,
        }
    } else if e.kind == "token"@ {
        match e.text {
            Some(t) => SessionView { talk: TalkView { answer: s.talk.answer + t, ..s.talk }, ..s },
            None => s,
        }
    } else if e.kind == "references"@ {
        match e.items {
            Some(items) => SessionView {
                talk: TalkView { refs: items, active_source: 0, ..s.talk },
                ..s
            },
            None => s,
        }
    } else if e.kind == "notice"@ {
        match e.message {
            Some(t) => SessionView { talk: TalkView { notice: t, ..s.talk }, ..s },
            None => s,
        }
    } else if e.kind == "draft"@ {
        match e.claims {
            Some(claims) => SessionView {
                draft: DraftCheckView { items: claims, ..s.draft },
                ..s
            },
            None => s,
        }
    } else if e.kind == "done"@ {
        SessionView { status: "Indexed ✓"@, ..at_rest(s) }
    } else if e.kind == "error"@ {
        SessionView { status: or_text(e.message, "Something went wrong."@), ..at_rest(s) }
    } else {
        s
    }
}

/// The window after an event of the setup.
pub open spec fn after_setup(s: SessionView, e: WireEventView) -> SessionView {
    if e.kind == "status"@ {
        match e.message {
            Some(m) => SessionView { first_run: FirstRunView { status: m, ..s.first_run }, ..s },
            None => s,
        }
    } else if e.kind == "done"@ {
        SessionView {
            first_run: FirstRunView { running: false, env_ready: true, ..s.first_run },
            ..s
        }
    } else if e.kind == "error"@ {
        SessionView {
            first_run: FirstRunView {
                running: false,
                error: or_text(e.message, "Setup failed. Try again."@),
                ..s.first_run
            },
            ..s
        }
    } else {
        s
    }
}

impl Session {
    /// Takes in an event of an answer.
    pub fn on_answer(&mut self, e: WireEvent)
        ensures
            final(self).deep_view() == after_answer(old(self).deep_view(), e.deep_view()),
    {
        let WireEvent { kind, text, items, claims, message } = e;
        let kind = kind.as_str();
        if text::same_text(kind, "status") {
            if let Some(t) = text {
                self.status = t;
            }
        } else if text::same_text(kind, "token") {
            if let Some(t) = text {
                self.talk.answer.append(t.as_str());
            }
        } else if text::same_text(kind, "references") {
            if let Some(items) = items {
                self.talk.refs = items;
                self.talk.active_source = 0;
            }
        } else if text::same_text(kind, "notice") {
            if let Some(t) = message {
                self.talk.notice = t;
            }
        } else if text::same_text(kind, "draft") {
            if let Some(claims) = claims {
                self.draft.items = claims;
            }
        } else if text::same_text(kind, "done") {
            self.talk.streaming = false;
            self.draft.running = false;
            self.status = "Indexed ✓".to_string();
        } else if text::same_text(kind, "error") {
            self.talk.streaming = false;
            self.draft.running = false;
            self.status = text_or(message, "Something went wrong.");
        }
    }

    /// Takes note that the events of answers cannot be had.
    pub fn answers_unavailable(&mut self)
        ensures
            final(self).deep_view() == (SessionView {
                status: "Could not connect to the answer stream."@,
                ..old(self).deep_view()
            }),
    {
        self.status = "Could not connect to the answer stream.".to_string();
    }

    /// Takes in an event of the setup.
    pub fn on_setup(&mut self, e: WireEvent)
        ensures
            final(self).deep_view() == after_setup(old(self).deep_view(), e.deep_view()),
    {
        let WireEvent { kind, text: _, items: _, claims: _, message } = e;
        let kind = kind.as_str();
        if text::same_text(kind, "status") {
            if let Some(m) = message {
                self.first_run.status = m;
            }
        } else if text::same_text(kind, "done") {
            self.first_run.running = false;
            self.first_run.env_ready = true;
        } else if text::same_text(kind, "error") {
            self.first_run.running = false;
            self.first_run.error = text_or(message, "Setup failed. Try again.");
        }
    }
}

// ---- settings -------------------------------------------------------------

/// The settings as the window reads them.
#[derive(Debug, PartialEq, Eq)]
pub struct WindowConfig {
    pub last_collection: Option<String>,
    pub model: String,
    pub embedding: String,
    pub api_base: String,
    pub qdrant_url: String,
    pub has_api_key: bool,
    pub field: String,
    pub tele_consent: Option<bool>,
}

#[verifier::ext_equal]
pub struct WindowConfigView {
    pub last_collection: Option<Seq<char>>,
    pub model: Seq<char>,
    pub embedding: Seq<char>,
    pub api_base: Seq<char>,
    pub qdrant_url: Seq<char>,
    pub has_api_key: bool,
    pub field: Seq<char>,
    pub tele_consent: Option<bool>,
}

impl DeepView for WindowConfig {
    type V = WindowConfigView;

    open spec fn deep_view(&self) -> WindowConfigView {
        WindowConfigView {
            last_collection: self.last_collection.deep_view(),
            model: self.model@,
            embedding: self.embedding@,
            api_base: self.api_base@,
            qdrant_url: self.qdrant_url@,
            has_api_key: self.has_api_key,
            field: self.field@,
            tele_consent: self.tele_consent,
        }
    }
}

/// What is sent of the form when it is saved.
pub open spec fn form_sent(form: FormView) -> SettingsFormView {
    SettingsFormView {
        model: form.model,
        embedding: form.embedding,
        api_base: form.api_base,
        qdrant_url: form.qdrant_url,
        qdrant_key: form.qdrant_key,
        key: if text::is_blank(form.key) {
            None
        } else {
            Some(form.key)
        },
    }
}

/// The form with the settings filled in.
pub open spec fn filled_in(form: FormView, config: WindowConfigView) -> FormView {
    FormView {
        has_key: config.has_api_key,
        model: config.model,
        embedding: config.embedding,
        api_base: config.api_base,
        qdrant_url: config.qdrant_url,
        ..form
    }
}

/// The window after the settings were read at the start. Without a key the user is
/// asked for a lab config.
pub open spec fn after_start(s: SessionView, config: Option<WindowConfigView>) -> SessionView {
    match config {
        Some(config) => SessionView {
            shelf: ShelfView { remembered: config.last_collection, ..s.shelf },
            opinion: OpinionView {
                consent: config.tele_consent,
                field: config.field,
                ..s.opinion
            },
            form: filled_in(s.form, config),
            first_run: FirstRunView {
                needs_config: s.first_run.needs_config || !config.has_api_key,
                ..s.first_run
            },
            ..s
        },
        None => s,
    }
}

/// What confirms that a lab config was imported.
pub open spec fn import_toast(name: Seq<char>) -> Seq<char> {
    if name.len() == 0 {
        "Lab config imported ✓"@
    } else {
        "Lab config imported ✓ ("@ + name + ")"@
    }
}

/// The window after a lab config was imported and the settings were read again. A
/// member without a key is asked to enter one.
pub open spec fn after_import(
    s: SessionView,
    name: Seq<char>,
    config: Option<WindowConfigView>,
) -> SessionView {
    match config {
        Some(config) => SessionView {
            form: FormView { shown: !config.has_api_key, ..filled_in(s.form, config) },
            toast: if config.has_api_key {
                import_toast(name)
            } else {
                "Lab config imported ✓ — add your API key in Settings"@
            },
            ..s
        },
        None => SessionView { toast: import_toast(name), ..s },
    }
}

/// What the settings form holds.
#[derive(Debug, PartialEq, Eq)]
pub struct SettingsForm {
    pub model: String,
    pub embedding: String,
    pub api_base: String,
    pub qdrant_url: String,
    pub qdrant_key: String,
    /// The key to the model, unless that field is blank.
    pub key: Option<String>,
}

#[verifier::ext_equal]
pub struct SettingsFormView {
    pub model: Seq<char>,
    pub embedding: Seq<char>,
    pub api_base: Seq<char>,
    pub qdrant_url: Seq<char>,
    pub qdrant_key: Seq<char>,
    pub key: Option<Seq<char>>,
}

impl DeepView for SettingsForm {
    type V = SettingsFormView;

    open spec fn deep_view(&self) -> SettingsFormView {
        SettingsFormView {
            model: self.model@,
            embedding: self.embedding@,
            api_base: self.api_base@,
            qdrant_url: self.qdrant_url@,
            qdrant_key: self.qdrant_key@,
            key: self.key.deep_view(),
        }
    }
}

impl Form {
    fn fill_in(&mut self, config: &WindowConfig)
        ensures
            final(self).deep_view() == filled_in(old(self).deep_view(), config.deep_view()),
    {
        self.has_key = config.has_api_key;
        self.model = config.model.clone();
        self.embedding = config.embedding.clone();
        self.api_base = config.api_base.clone();
        self.qdrant_url = config.qdrant_url.clone();
    }
}

impl Session {
    /// Takes in the settings at the start, if they could be read.
    pub fn started(&mut self, config: Option<WindowConfig>)
        ensures
            final(self).deep_view() == after_start(old(self).deep_view(), config.deep_view()),
    {
        if let Some(config) = config {
            self.form.fill_in(&config);
            self.shelf.remembered = config.last_collection;
            self.opinion.consent = config.tele_consent;
            self.opinion.field = config.field;
            if !config.has_api_key {
                self.first_run.needs_config = true;
            }
        }
    }

    /// Takes note that a lab config was imported: none is wanted any longer.
    pub fn lab_imported(&mut self)
        ensures
            final(self).deep_view() == ({
                let s = old(self).deep_view();
                SessionView { first_run: FirstRunView { needs_config: false, ..s.first_run }, ..s }
            }),
    {
        self.first_run.needs_config = false;
    }

    /// Takes in the settings after a lab config was imported, if they could be read.
    pub fn import_settled(&mut self, name: &str, config: Option<WindowConfig>)
        ensures
            final(self).deep_view() == after_import(
                old(self).deep_view(),
                name@,
                config.deep_view(),
            ),
    {
        let keyed = if name.is_empty() {
            "Lab config imported ✓".to_string()
        } else {
            let mut t = "Lab config imported ✓ (".to_string();
            t.append(name);
            t.append(")");
            t
        };
        match config {
            Some(config) => {
                self.form.fill_in(&config);
                if config.has_api_key {
                    self.form.shown = false;
                    self.toast = keyed;
                } else {
                    self.form.shown = true;
                    self.toast =
                    "Lab config imported ✓ — add your API key in Settings".to_string();
                }
            },
            None => {
                self.toast = keyed;
            },
        }
    }

    /// Turns from the wish for a lab config to the settings form.
    pub fn set_up_by_hand(&mut self)
        ensures
            final(self).deep_view() == ({
                let s = old(self).deep_view();
                SessionView {
                    first_run: FirstRunView { needs_config: false, ..s.first_run },
                    form: FormView { shown: true, ..s.form },
                    ..s
                }
            }),
    {
        self.first_run.needs_config = false;
        self.form.shown = true;
    }

    /// What the settings form holds.
    pub fn settings_form(&self) -> (r: SettingsForm)
        ensures
            r.deep_view() == form_sent(self.form.deep_view()),
            r.deep_view() == (SettingsFormView {
                model: self.form.model@,
                embedding: self.form.embedding@,
                api_base: self.form.api_base@,
                qdrant_url: self.form.qdrant_url@,
                qdrant_key: self.form.qdrant_key@,
                key: if text::is_blank(self.form.key@) {
                    None
                } else {
                    Some(self.form.key@)
                },
            }),
    {
        SettingsForm {
            model: self.form.model.clone(),
            embedding: self.form.embedding.clone(),
            api_base: self.form.api_base.clone(),
            qdrant_url: self.form.qdrant_url.clone(),
            qdrant_key: self.form.qdrant_key.clone(),
            key: if text::blank(self.form.key.as_str()) {
                None
            } else {
                Some(self.form.key.clone())
            },
        }
    }

    /// Takes note that the settings were sent: the key to the cluster is not kept.
    pub fn settings_sent(&mut self)
        ensures
            final(self).deep_view() == ({
                let s = old(self).deep_view();
                SessionView { form: FormView { qdrant_key: Seq::empty(), ..s.form }, ..s }
            }),
    {
        self.form.qdrant_key = String::new();
    }

    /// Takes note that the key to the model was saved: it is not kept.
    pub fn key_saved(&mut self)
        ensures
            final(self).deep_view() == ({
                let s = old(self).deep_view();
                SessionView {
                    form: FormView { has_key: true, key: Seq::empty(), ..s.form },
                    ..s
                }
            }),
    {
        self.form.has_key = true;
        self.form.key = String::new();
    }

    /// Takes note that a lab config could not be exported or imported, and tells why, if
    /// that is known.
    pub fn lab_config_refused(&mut self, message: Option<String>)
        ensures
            final(self).deep_view() == ({
                let s = old(self).deep_view();
                SessionView { toast: or_text(message.deep_view(), s.toast), ..s }
            }),
    {
        if let Some(message) = message {
            self.toast = message;
        }
    }

    /// Closes the settings form.
    pub fn settings_saved(&mut self)
        ensures
            final(self).deep_view() == ({
                let s = old(self).deep_view();
                SessionView {
                    form: FormView { shown: false, ..s.form },
                    status: "Settings saved ✓"@,
                    ..s
                }
            }),
    {
        self.form.shown = false;
        self.status = "Settings saved ✓".to_string();
    }
}

// ---- the setup ------------------------------------------------------------

/// The tips that are shown during the setup.
pub open spec fn tips() -> Seq<Seq<char>> {
    seq![
        "While this installs — open Zotero (7+). PaperDock reads your library through it."@,
        "Tip: in Zotero, download the PDFs for the papers you want to ask about."@,
        "Tip: group papers into a Zotero collection to focus your questions."@,
        "Answers cite their sources — click a citation to open that paper in Zotero."@,
    ]
}

/// What the card of the setup shows.
#[derive(Debug, PartialEq, Eq)]
pub enum SetupCard {
    /// What went wrong.
    Failed(String),
    /// How far the setup is, and a tip.
    Running(String, String),
    /// The offer to begin.
    Offer,
}

#[verifier::ext_equal]
pub enum SetupCardView {
    Failed(Seq<char>),
    Running(Seq<char>, Seq<char>),
    Offer,
}

impl DeepView for SetupCard {
    type V = SetupCardView;

    open spec fn deep_view(&self) -> SetupCardView {
        match self {
            SetupCard::Failed(error) => SetupCardView::Failed(error@),
            SetupCard::Running(status, tip) => SetupCardView::Running(status@, tip@),
            SetupCard::Offer => SetupCardView::Offer,
        }
    }
}

/// What the card of the setup shows, if it is there: only while the environment is
/// missing. An error comes before all else.
pub open spec fn setup_card_of(f: FirstRunView) -> Option<SetupCardView> {
    if f.env_ready {
        None
    } else if f.error.len() > 0 {
        Some(SetupCardView::Failed(f.error))
    } else if f.running {
        Some(SetupCardView::Running(f.status, tips()[f.tip as int % 4]))
    } else {
        Some(SetupCardView::Offer)
    }
}

/// The tip to show after a heartbeat: the next one while the environment is missing.
pub open spec fn next_tip(f: FirstRunView) -> usize {
    if f.env_ready {
        f.tip
    } else if f.tip == usize::MAX {
        0
    } else {
        (f.tip + 1) as usize
    }
}

impl FirstRun {
    /// What the card of the setup shows, if it is there.
    pub fn setup_card(&self) -> (r: Option<SetupCard>)
        ensures
            r.deep_view() == setup_card_of(self.deep_view()),
    {
        if self.env_ready {
            return None;
        }
        if !self.error.as_str().is_empty() {
            return Some(SetupCard::Failed(self.error.clone()));
        }
        if !self.running {
            return Some(SetupCard::Offer);
        }
        let n: usize = self.tip % 4;
        let tip = if n == 0 {
            "While this installs — open Zotero (7+). PaperDock reads your library through it."
        } else if n == 1 {
            "Tip: in Zotero, download the PDFs for the papers you want to ask about."
        } else if n == 2 {
            "Tip: group papers into a Zotero collection to focus your questions."
        } else {
            "Answers cite their sources — click a citation to open that paper in Zotero."
        };
        Some(SetupCard::Running(self.status.clone(), tip.to_string()))
    }

    /// Is the user asked for a lab config? Only once the environment is there.
    pub fn asks_for_lab(&self) -> (r: bool)
        ensures
            r == (self.env_ready && self.needs_config),
    {
        self.env_ready && self.needs_config
    }

    /// Takes in whether the environment is there. Where that cannot be told, it
    /// counts as there, so that a working app is never blocked.
    pub fn env_checked(&mut self, ready: Option<bool>)
        ensures
            final(self).deep_view() == (FirstRunView {
                env_ready: ready != Some(false),
                ..old(self).deep_view()
            }),
    {
        self.env_ready = match ready {
            Some(ready) => ready,
            None => true,
        };
    }

    /// Turns to the next tip while the environment is missing.
    pub fn heartbeat(&mut self)
        ensures
            final(self).deep_view() == (FirstRunView {
                tip: next_tip(old(self).deep_view()),
                ..old(self).deep_view()
            }),
    {
        if !self.env_ready {
            self.tip = if self.tip == usize::MAX {
                0
            } else {
                self.tip + 1
            };
        }
    }

    /// Begins the setup.
    pub fn start_setup(&mut self)
        ensures
            final(self).deep_view() == (FirstRunView {
                error: Seq::empty(),
                running: true,
                status: "Preparing…"@,
                ..old(self).deep_view()
            }),
    {
        self.error = String::new();
        self.running = true;
        self.status = "Preparing…".to_string();
    }
}

// ---- the shelf ------------------------------------------------------------

/// The shelf after the collections were fetched.
pub open spec fn with_collections(shelf: ShelfView, list: Seq<CollectionView>) -> ShelfView {
    ShelfView {
        selected: or_text(picker::preselected(shelf.remembered, list), shelf.selected),
        collections: list,
        ready: true,
        ..shelf
    }
}

impl Shelf {
    /// Takes in whether Zotero is running, if that could be told, and says whether
    /// to fetch the collections: as long as there are none.
    pub fn zotero_checked(&mut self, up: Option<bool>) -> (load: bool)
        ensures
            final(self).deep_view() == (ShelfView {
                zotero_ok: up == Some(true),
                ..old(self).deep_view()
            }),
            load == (up == Some(true) && old(self).collections@.len() == 0),
    {
        let up = match up {
            Some(up) => up,
            None => false,
        };
        self.zotero_ok = up;
        up && self.collections.len() == 0
    }

    /// Takes in the collections, and chooses the one to begin with.
    pub fn collections_loaded(&mut self, list: Vec<Collection>)
        ensures
            final(self).deep_view() == with_collections(old(self).deep_view(), list.deep_view()),
    {
        if let Some(id) = picker::preselect(&self.remembered, &list) {
            self.selected = id;
        }
        self.collections = list;
        self.ready = true;
    }

    /// The library of the chosen collection.
    pub fn library(&self) -> (r: String)
        ensures
            r@ == picker::parts_of(self.selected@).0,
    {
        let (library, _) = picker::split_id(self.selected.as_str());
        library
    }

    /// Takes in the papers of the chosen collection.
    pub fn papers_loaded(&mut self, list: Vec<PaperRef>)
        ensures
            final(self).deep_view() == (ShelfView {
                papers: list.deep_view(),
                ..old(self).deep_view()
            }),
    {
        self.papers = list;
    }
}

/// What the line of status says. It names first what stands in the way of a
/// question.
pub open spec fn status_line_of(s: SessionView) -> Seq<char> {
    if !s.shelf.zotero_ok {
        "Waiting for Zotero — open Zotero (7+) so PaperDock can read your library."@
    } else if !s.shelf.ready {
        "Connected to Zotero — loading your collections…"@
    } else if s.shelf.collections.len() == 0 {
        "Connected, but no Zotero collections found. Put some papers in a collection in Zotero and it will appear here."@
    } else if s.shelf.selected.len() == 0 {
        "Pick a collection above to get started."@
    } else {
        s.status
    }
}

/// The window after an index was asked for. Nothing happens without a collection,
/// nor while the query engine is running.
pub open spec fn after_index(s: SessionView) -> SessionView {
    if s.shelf.selected.len() == 0 || s.talk.streaming {
        s
    } else {
        SessionView {
            talk: TalkView {
                answer: Seq::empty(),
                refs: Seq::empty(),
                streaming: true,
                ..s.talk
            },
            status: "Preparing shared index…"@,
            ..s
        }
    }
}

/// The window with another collection chosen: that begins a new conversation.
pub open spec fn with_choice(s: SessionView, id: Seq<char>) -> SessionView {
    SessionView {
        shelf: ShelfView { selected: id, ..s.shelf },
        talk: TalkView {
            history: Seq::empty(),
            asked: Seq::empty(),
            answer: Seq::empty(),
            refs: Seq::empty(),
            notice: Seq::empty(),
            ..s.talk
        },
        ..s
    }
}

impl Session {
    /// What the line of status says.
    pub fn status_line(&self) -> (r: String)
        ensures
            r@ == status_line_of(self.deep_view()),
    {
        if !self.shelf.zotero_ok {
            "Waiting for Zotero — open Zotero (7+) so PaperDock can read your library.".to_string()
        } else if !self.shelf.ready {
            "Connected to Zotero — loading your collections…".to_string()
        } else if self.shelf.collections.len() == 0 {
            "Connected, but no Zotero collections found. Put some papers in a collection in Zotero and it will appear here.".to_string()
        } else if self.shelf.selected.as_str().is_empty() {
            "Pick a collection above to get started.".to_string()
        } else {
            self.status.clone()
        }
    }

    /// Has the chosen collection read into the index, and says which that is: its
    /// library and its key.
    pub fn index(&mut self) -> (r: Option<(String, String)>)
        ensures
            final(self).deep_view() == after_index(old(self).deep_view()),
            r.deep_view() == if old(self).selected_idle() {
                Some(picker::parts_of(old(self).shelf.selected@))
            } else {
                None
            },
    {
        if self.shelf.selected.as_str().is_empty() || self.talk.streaming {
            return None;
        }
        let parts = picker::split_id(self.shelf.selected.as_str());
        self.talk.answer = String::new();
        self.talk.refs = Vec::new();
        self.talk.streaming = true;
        self.status = "Preparing shared index…".to_string();
        assert(self.talk.refs.deep_view() =~= Seq::empty());
        Some(parts)
    }

    /// A collection is chosen, and the query engine is not running.
    pub open spec fn selected_idle(self) -> bool {
        self.shelf.selected@.len() > 0 && !self.talk.streaming
    }

    /// Chooses a collection, which begins a new conversation, and has it read into
    /// the index.
    pub fn choose_collection(&mut self, id: String) -> (r: Option<(String, String)>)
        ensures
            final(self).deep_view() == after_index(with_choice(old(self).deep_view(), id@)),
            r.deep_view() == if id@.len() > 0 && !old(self).talk.streaming {
                Some(picker::parts_of(id@))
            } else {
                None
            },
    {
        self.shelf.selected = id;
        self.talk.history = Vec::new();
        self.talk.asked = String::new();
        self.talk.answer = String::new();
        self.talk.refs = Vec::new();
        self.talk.notice = String::new();
        assert(self.talk.history.deep_view() =~= Seq::empty());
        assert(self.talk.refs.deep_view() =~= Seq::empty());
        assert(self.deep_view() =~= with_choice(old(self).deep_view(), id@));
        self.index()
    }

    /// Takes note that an index could not be made.
    pub fn index_failed(&mut self, message: Option<String>)
        ensures
            final(self).deep_view() == stopped(
                old(self).deep_view(),
                or_text(message.deep_view(), "Could not index this collection."@),
            ),
    {
        self.talk.streaming = false;
        self.status = text_or(message, "Could not index this collection.");
    }

    /// Takes note that the user stopped the query engine.
    pub fn cancelled(&mut self)
        ensures
            final(self).deep_view() == stopped(old(self).deep_view(), "Stopped."@),
    {
        self.talk.streaming = false;
        self.status = "Stopped.".to_string();
    }

    /// To check a claim, the papers of the chosen collection are wanted: says which
    /// that is, and goes back to checking against all of them.
    pub fn papers_wanted(&mut self) -> (r: Option<(String, String)>)
        ensures
            final(self).deep_view() == ({
                let s = old(self).deep_view();
                if s.mode == Mode::Check && s.shelf.selected.len() > 0 {
                    SessionView {
                        shelf: ShelfView { source_key: Seq::empty(), ..s.shelf },
                        ..s
                    }
                } else {
                    s
                }
            }),
            r.deep_view() == if old(self).mode == Mode::Check && old(self).shelf.selected@.len()
                > 0 {
                Some(picker::parts_of(old(self).shelf.selected@))
            } else {
                None
            },
    {
        if self.mode != Mode::Check || self.shelf.selected.as_str().is_empty() {
            return None;
        }
        let parts = picker::split_id(self.shelf.selected.as_str());
        self.shelf.source_key = String::new();
        Some(parts)
    }
}

/// The window with the query engine stopped, for the given reason.
pub open spec fn stopped(s: SessionView, reason: Seq<char>) -> SessionView {
    SessionView { talk: TalkView { streaming: false, ..s.talk }, status: reason, ..s }
}

// ---- asking ---------------------------------------------------------------

/// What the app is asked for on behalf of the user.
#[derive(Debug, PartialEq, Eq)]
pub enum Asking {
    Ask { library: String, key: String, question: String, history: String },
    Check { library: String, key: String, claim: String, source_key: String },
}

#[verifier::ext_equal]
pub enum AskingView {
    Ask { library: Seq<char>, key: Seq<char>, question: Seq<char>, history: Seq<char> },
    Check { library: Seq<char>, key: Seq<char>, claim: Seq<char>, source_key: Seq<char> },
}

impl DeepView for Asking {
    type V = AskingView;

    open spec fn deep_view(&self) -> AskingView {
        match self {
            Asking::Ask { library, key, question, history } => AskingView::Ask {
                library: library@,
                key: key@,
                question: question@,
                history: history@,
            },
            Asking::Check { library, key, claim, source_key } => AskingView::Check {
                library: library@,
                key: key@,
                claim: claim@,
                source_key: source_key@,
            },
        }
    }
}

/// Can the question be put? It must not be blank, a collection must be chosen, and
/// the query engine must not be running.
pub open spec fn can_submit(s: SessionView) -> bool {
    !text::is_blank(s.talk.question) && s.shelf.selected.len() > 0 && !s.talk.streaming
}

/// The conversation with its last answer, if there is one, among the turns.
pub open spec fn archived(talk: TalkView) -> TalkView {
    if talk.answer.len() == 0 {
        talk
    } else {
        TalkView {
            history: talk.history.push(
                TurnView {
                    id: talk.turn_id,
                    question: talk.asked,
                    answer: talk.answer,
                    refs: talk.refs,
                },
            ),
            turn_id: (talk.turn_id + 1) as usize,
            ..talk
        }
    }
}

/// The window after the question was put, if it can be.
pub open spec fn after_submit(s: SessionView) -> SessionView {
    if !can_submit(s) {
        s
    } else {
        SessionView {
            talk: TalkView {
                asked: s.talk.question,
                question: Seq::empty(),
                answer: Seq::empty(),
                refs: Seq::empty(),
                active_source: 0,
                notice: Seq::empty(),
                streaming: true,
                ..archived(s.talk)
            },
            opinion: OpinionView { rated: false, asking: false, ..s.opinion },
            status: "Indexing…"@,
            ..s
        }
    }
}

/// What the app is asked for when the question is put. A claim is judged without
/// regard to the conversation.
pub open spec fn asking_of(s: SessionView) -> Option<AskingView> {
    let (library, key) = picker::parts_of(s.shelf.selected);
    if !can_submit(s) {
        None
    } else if s.mode == Mode::Check {
        Some(
            AskingView::Check {
                library,
                key,
                claim: s.talk.question,
                source_key: s.shelf.source_key,
            },
        )
    } else {
        Some(
            AskingView::Ask {
                library,
                key,
                question: s.talk.question,
                history: thread::quotes(thread::recent(archived(s.talk).history)),
            },
        )
    }
}

impl Talk {
    /// Puts the last answer, if there is one, among the turns.
    fn archive(&mut self)
        requires
            old(self).answer@.len() > 0 ==> old(self).turn_id < usize::MAX,
        ensures
            final(self).deep_view() == archived(old(self).deep_view()),
    {
        if !self.answer.as_str().is_empty() {
            let ghost before = self.history.deep_view();
            let turn = Turn {
                id: self.turn_id,
                question: self.asked.clone(),
                answer: self.answer.clone(),
                refs: thread::copy_refs(&self.refs),
            };
            let ghost view = turn.deep_view();
            self.history.push(turn);
            assert(self.history.deep_view() =~= before.push(view));
            self.turn_id = self.turn_id + 1;
        }
    }
}

impl Session {
    /// Puts the question, if it can be put, and says what to ask the app for.
    pub fn submit(&mut self) -> (r: Option<Asking>)
        requires
            old(self).talk.answer@.len() > 0 ==> old(self).talk.turn_id < usize::MAX,
        ensures
            final(self).deep_view() == after_submit(old(self).deep_view()),
            r.deep_view() == asking_of(old(self).deep_view()),
    {
        if text::blank(self.talk.question.as_str()) || self.shelf.selected.as_str().is_empty()
            || self.talk.streaming {
            return None;
        }
        let (library, key) = picker::split_id(self.shelf.selected.as_str());
        self.talk.archive();
        let history = thread::history_text(&self.talk.history);
        let question = self.talk.question.clone();
        self.talk.asked = question.clone();
        self.talk.question = String::new();
        self.talk.answer = String::new();
        self.talk.refs = Vec::new();
        self.talk.active_source = 0;
        self.talk.notice = String::new();
        self.talk.streaming = true;
        self.opinion.rated = false;
        self.opinion.asking = false;
        self.status = "Indexing…".to_string();
        assert(self.talk.refs.deep_view() =~= Seq::empty());
        if self.mode == Mode::Check {
            Some(
                Asking::Check {
                    library,
                    key,
                    claim: question,
                    source_key: self.shelf.source_key.clone(),
                },
            )
        } else {
            Some(Asking::Ask { library, key, question, history })
        }
    }

    /// Takes note that the question could not be put.
    pub fn submit_failed(&mut self, message: Option<String>)
        ensures
            final(self).deep_view() == stopped(
                old(self).deep_view(),
                or_text(message.deep_view(), "Could not start the query."@),
            ),
    {
        self.talk.streaming = false;
        self.status = text_or(message, "Could not start the query.");
    }

    /// Begins a new conversation.
    pub fn new_chat(&mut self)
        ensures
            final(self).deep_view() == fresh_chat(old(self).deep_view()),
    {
        self.talk.history = Vec::new();
        self.talk.answer = String::new();
        self.talk.asked = String::new();
        self.talk.refs = Vec::new();
        self.talk.notice = String::new();
        self.status = String::new();
        self.talk.active_source = 0;
        self.saved_link = String::new();
        self.toast = String::new();
        self.opinion.rated = false;
        self.opinion.asking = false;
        assert(self.talk.history.deep_view() =~= Seq::empty());
        assert(self.talk.refs.deep_view() =~= Seq::empty());
    }
}

/// The window with a new conversation.
pub open spec fn fresh_chat(s: SessionView) -> SessionView {
    SessionView {
        talk: TalkView {
            history: Seq::empty(),
            answer: Seq::empty(),
            asked: Seq::empty(),
            refs: Seq::empty(),
            notice: Seq::empty(),
            active_source: 0,
            ..s.talk
        },
        opinion: OpinionView { rated: false, asking: false, ..s.opinion },
        status: Seq::empty(),
        saved_link: Seq::empty(),
        toast: Seq::empty(),
        ..s
    }
}

// ---- verifying a reference ------------------------------------------------

/// The reference to look up: what was typed, unless it is blank or one is being looked up.
pub open spec fn reference_typed(check: RefCheckView) -> Option<Seq<char>> {
    if text::is_blank(check.input) || check.running {
        None
    } else {
        Some(check.input)
    }
}

impl RefCheck {
    /// Begins to look up the reference, and says what it is. Nothing happens with a
    /// blank one, nor while one is being looked up.
    pub fn start(&mut self) -> (r: Option<String>)
        ensures
            final(self).deep_view() == ({
                let s = old(self).deep_view();
                if text::is_blank(s.input) || s.running {
                    s
                } else {
                    RefCheckView { running: true, result: None, ..s }
                }
            }),
            r.deep_view() == reference_typed(old(self).deep_view()),
            r.deep_view() == if text::is_blank(old(self).input@) || old(self).running {
                None
            } else {
                Some(old(self).input@)
            },
    {
        if text::blank(self.input.as_str()) || self.running {
            return None;
        }
        self.running = true;
        self.result = None;
        Some(self.input.clone())
    }

    /// Takes in what came of the lookup, if anything did.
    pub fn finish(&mut self, result: Option<RefMatch>)
        ensures
            final(self).deep_view() == ({
                let s = old(self).deep_view();
                RefCheckView {
                    running: false,
                    result: if result is Some {
                        result.deep_view()
                    } else {
                        s.result
                    },
                    ..s
                }
            }),
    {
        self.running = false;
        if let Some(found) = result {
            self.result = Some(found);
        }
    }
}

// ---- checking a draft -----------------------------------------------------

/// Can the draft be checked? It must not be blank, a collection must be chosen, and
/// no draft must be under way.
pub open spec fn can_check_draft(s: SessionView) -> bool {
    !text::is_blank(s.draft.input) && s.shelf.selected.len() > 0 && !s.draft.running
}

/// What is checked when the draft is handed in: against which collection, and the draft.
pub open spec fn draft_asked(s: SessionView) -> Option<(Seq<char>, Seq<char>, Seq<char>)> {
    let (library, key) = picker::parts_of(s.shelf.selected);
    if can_check_draft(s) {
        Some((library, key, s.draft.input))
    } else {
        None
    }
}

impl Session {
    /// Has the draft checked, if it can be, and says against which collection: its
    /// library, its key, and the draft.
    pub fn submit_draft(&mut self) -> (r: Option<(String, String, String)>)
        ensures
            final(self).deep_view() == ({
                let s = old(self).deep_view();
                if can_check_draft(s) {
                    SessionView {
                        draft: DraftCheckView { items: Seq::empty(), running: true, ..s.draft },
                        status: "Indexing…"@,
                        ..s
                    }
                } else {
                    s
                }
            }),
            r.deep_view() == draft_asked(old(self).deep_view()),
            match r {
                Some((library, key, draft)) => {
                    &&& can_check_draft(old(self).deep_view())
                    &&& (library@, key@) == picker::parts_of(old(self).shelf.selected@)
                    &&& draft@ == old(self).draft.input@
                },
                None => !can_check_draft(old(self).deep_view()),
            },
    {
        if text::blank(self.draft.input.as_str()) || self.shelf.selected.as_str().is_empty()
            || self.draft.running {
            return None;
        }
        let (library, key) = picker::split_id(self.shelf.selected.as_str());
        self.draft.items = Vec::new();
        self.draft.running = true;
        self.status = "Indexing…".to_string();
        assert(self.draft.items.deep_view() =~= Seq::empty());
        Some((library, key, self.draft.input.clone()))
    }

    /// Takes note that the draft could not be checked.
    pub fn draft_failed(&mut self, message: Option<String>)
        ensures
            final(self).deep_view() == ({
                let s = old(self).deep_view();
                SessionView {
                    draft: DraftCheckView { running: false, ..s.draft },
                    status: or_text(message.deep_view(), "Could not start the draft check."@),
                    ..s
                }
            }),
    {
        self.draft.running = false;
        self.status = text_or(message, "Could not start the draft check.");
    }
}

/// The draft after a file was picked: its text, unless it is blank.
pub open spec fn draft_picked(draft: Seq<char>, contents: Seq<char>) -> Seq<char> {
    if text::is_blank(contents) {
        draft
    } else {
        contents
    }
}

impl DraftCheck {
    /// Takes in the text of a file, unless it is blank.
    pub fn picked(&mut self, contents: String)
        ensures
            final(self).deep_view() == (DraftCheckView {
                input: draft_picked(old(self).input@, contents@),
                ..old(self).deep_view()
            }),
            final(self).deep_view() == (DraftCheckView {
                input: if text::is_blank(contents@) {
                    old(self).input@
                } else {
                    contents@
                },
                ..old(self).deep_view()
            }),
    {
        if !text::blank(contents.as_str()) {
            self.input = contents;
        }
    }
}

// ---- rating an answer -----------------------------------------------------

/// What is recorded of a rating.
#[derive(Debug, PartialEq, Eq)]
pub struct Feedback {
    pub rating: String,
    pub field: String,
    pub consent: bool,
}

#[verifier::ext_equal]
pub struct FeedbackView {
    pub rating: Seq<char>,
    pub field: Seq<char>,
    pub consent: bool,
}

impl DeepView for Feedback {
    type V = FeedbackView;

    open spec fn deep_view(&self) -> FeedbackView {
        FeedbackView { rating: self.rating@, field: self.field@, consent: self.consent }
    }
}

/// What the user thinks after giving a rating: if it is not known yet whether it may
/// be sent, the rating waits, and the user is asked.
pub open spec fn after_rating(o: OpinionView, rating: Seq<char>) -> OpinionView {
    match o.consent {
        None => OpinionView { pending: rating, asking: true, ..o },
        Some(_) => OpinionView { rated: true, ..o },
    }
}

/// What is recorded when a rating is given.
pub open spec fn recorded(o: OpinionView, rating: Seq<char>) -> Option<FeedbackView> {
    match o.consent {
        None => None,
        Some(consent) => Some(FeedbackView { rating, field: o.field, consent }),
    }
}

/// What is recorded once the user has said whether ratings may be sent.
pub open spec fn decided(o: OpinionView, allow: bool) -> FeedbackView {
    FeedbackView { rating: o.pending, field: o.field, consent: allow }
}

impl Opinion {
    /// Takes in a rating, and says what to record, if it is known whether it may be
    /// sent.
    pub fn rate(&mut self, rating: String) -> (r: Option<Feedback>)
        ensures
            final(self).deep_view() == after_rating(old(self).deep_view(), rating@),
            r.deep_view() == recorded(old(self).deep_view(), rating@),
    {
        match self.consent {
            None => {
                self.pending = rating;
                self.asking = true;
                None
            },
            Some(consent) => {
                self.rated = true;
                Some(Feedback { rating, field: self.field.clone(), consent })
            },
        }
    }

    /// Takes in whether ratings may be sent, and says what to record of the one that
    /// waited.
    pub fn decide_consent(&mut self, allow: bool) -> (r: Feedback)
        ensures
            final(self).deep_view() == (OpinionView {
                consent: Some(allow),
                asking: false,
                rated: true,
                ..old(self).deep_view()
            }),
            r.deep_view() == decided(old(self).deep_view(), allow),
            r.deep_view() == (FeedbackView {
                rating: old(self).pending@,
                field: old(self).field@,
                consent: allow,
            }),
    {
        self.consent = Some(allow);
        self.asking = false;
        self.rated = true;
        Feedback { rating: self.pending.clone(), field: self.field.clone(), consent: allow }
    }
}

// ---- saving a note --------------------------------------------------------

/// Where a note was saved.
#[derive(Debug, PartialEq, Eq)]
pub struct SavedNote {
    pub location: String,
    pub is_group: bool,
    pub link: String,
}

#[verifier::ext_equal]
pub struct SavedNoteView {
    pub location: Seq<char>,
    pub is_group: bool,
    pub link: Seq<char>,
}

impl DeepView for SavedNote {
    type V = SavedNoteView;

    open spec fn deep_view(&self) -> SavedNoteView {
        SavedNoteView { location: self.location@, is_group: self.is_group, link: self.link@ }
    }
}

/// What came of saving a note.
#[derive(Debug, PartialEq, Eq)]
pub enum Saving {
    /// It was saved there.
    Saved(SavedNote),
    /// It was saved, who knows where.
    SomewhereSaved,
    /// It was not saved, perhaps for a known reason.
    Failed(Option<String>),
}

#[verifier::ext_equal]
pub enum SavingView {
    Saved(SavedNoteView),
    SomewhereSaved,
    Failed(Option<Seq<char>>),
}

impl DeepView for Saving {
    type V = SavingView;

    open spec fn deep_view(&self) -> SavingView {
        match self {
            Saving::Saved(note) => SavingView::Saved(note.deep_view()),
            Saving::SomewhereSaved => SavingView::SomewhereSaved,
            Saving::Failed(reason) => SavingView::Failed(reason.deep_view()),
        }
    }
}

/// The window after a note was saved, or was not. The user is warned of a place
/// that others can read.
pub open spec fn after_saving(s: SessionView, saving: SavingView) -> SessionView {
    match saving {
        SavingView::Saved(note) => SessionView {
            saved_link: note.link,
            toast: if note.is_group {
                "Saved to Zotero → "@ + note.location
                    + " · a shared group; move it if you want it private."@
            } else {
                "Saved to Zotero → "@ + note.location + " ✓"@
            },
            ..s
        },
        SavingView::SomewhereSaved => SessionView { toast: "Saved to Zotero."@, ..s },
        SavingView::Failed(reason) => SessionView {
            toast: or_text(reason, "Could not save to Zotero — is it open?"@),
            ..s
        },
    }
}

/// The note on a conversation, if there is anything to note.
pub open spec fn note_on(talk: TalkView, when: Seq<char>) -> Option<Seq<char>> {
    if text::is_blank(talk.answer) && talk.history.len() == 0 {
        None
    } else {
        Some(thread::note_of(talk.history, talk.asked, talk.answer, talk.refs, when))
    }
}

impl Session {
    /// The note on the conversation, if there is anything to note. `when` is the
    /// time to put on it.
    pub fn save_note(&self, when: &str) -> (r: Option<String>)
        ensures
            r.deep_view() == note_on(self.talk.deep_view(), when@),
            r.deep_view() == if text::is_blank(self.talk.answer@) && self.talk.history@.len()
                == 0 {
                None
            } else {
                Some(
                    thread::note_of(
                        self.talk.history.deep_view(),
                        self.talk.asked@,
                        self.talk.answer@,
                        self.talk.refs.deep_view(),
                        when@,
                    ),
                )
            },
    {
        if text::blank(self.talk.answer.as_str()) && self.talk.history.len() == 0 {
            return None;
        }
        Some(
            thread::note_html(
                &self.talk.history,
                self.talk.asked.as_str(),
                self.talk.answer.as_str(),
                &self.talk.refs,
                when,
            ),
        )
    }

    /// Takes note that a note is being saved.
    pub fn saving(&mut self)
        ensures
            final(self).deep_view() == (SessionView {
                saved_link: Seq::empty(),
                toast: "Saving to Zotero…"@,
                ..old(self).deep_view()
            }),
    {
        self.saved_link = String::new();
        self.toast = "Saving to Zotero…".to_string();
    }

    /// Takes in what came of saving a note.
    pub fn saved(&mut self, saving: Saving)
        ensures
            final(self).deep_view() == after_saving(old(self).deep_view(), saving.deep_view()),
    {
        match saving {
            Saving::Saved(note) => {
                let mut toast = "Saved to Zotero → ".to_string();
                toast.append(note.location.as_str());
                if note.is_group {
                    toast.append(" · a shared group; move it if you want it private.");
                } else {
                    toast.append(" ✓");
                }
                self.saved_link = note.link;
                self.toast = toast;
            },
            Saving::SomewhereSaved => {
                self.toast = "Saved to Zotero.".to_string();
            },
            Saving::Failed(reason) => {
                self.toast = text_or(reason, "Could not save to Zotero — is it open?");
            },
        }
    }
}

// ---- laws -----------------------------------------------------------------

proof fn lemma_kinds_differ()
    ensures
        "status"@ != "token"@,
        "status"@ != "references"@,
        "status"@ != "notice"@,
        "status"@ != "draft"@,
        "status"@ != "done"@,
        "status"@ != "error"@,
        "token"@ != "references"@,
        "token"@ != "notice"@,
        "token"@ != "draft"@,
        "token"@ != "done"@,
        "token"@ != "error"@,
        "references"@ != "notice"@,
        "references"@ != "draft"@,
        "references"@ != "done"@,
        "references"@ != "error"@,
        "notice"@ != "draft"@,
        "notice"@ != "done"@,
        "notice"@ != "error"@,
        "draft"@ != "done"@,
        "draft"@ != "error"@,
        "done"@ != "error"@,
{
    reveal_strlit("status");
    reveal_strlit("token");
    reveal_strlit("references");
    reveal_strlit("notice");
    reveal_strlit("draft");
    reveal_strlit("done");
    reveal_strlit("error");
    assert("status"@[0] == 's');
    assert("token"@[0] == 't');
    assert("references"@[0] == 'r');
    assert("notice"@[0] == 'n');
    assert("draft"@[0] == 'd');
    assert("done"@[0] == 'd');
    assert("error"@[0] == 'e');
    assert("draft"@.len() != "done"@.len());
}

/// Every event of an answer has its effect on the window: none gets lost on the way,
/// and none is taken for another.
pub proof fn law_answer_events_arrive(s: SessionView, event: AnswerEventView)
    ensures
        after_answer(s, wire_of(event)) == match event {
            AnswerEventView::Status { text } => SessionView { status: text, ..s },
            AnswerEventView::Token { text } => SessionView {
                talk: TalkView { answer: s.talk.answer + text, ..s.talk },
                ..s
            },
            AnswerEventView::References { items } => SessionView {
                talk: TalkView { refs: items, active_source: 0, ..s.talk },
                ..s
            },
            AnswerEventView::Notice { message } => SessionView {
                talk: TalkView { notice: message, ..s.talk },
                ..s
            },
            AnswerEventView::Draft { claims } => SessionView {
                draft: DraftCheckView { items: claims, ..s.draft },
                ..s
            },
            AnswerEventView::Done => SessionView { status: "Indexed ✓"@, ..at_rest(s) },
            AnswerEventView::Error { message } => SessionView { status: message, ..at_rest(s) },
        },
{
    lemma_kinds_differ();
}

/// Every event of the setup has its effect on the window.
pub proof fn law_setup_events_arrive(s: SessionView, event: SetupEventView)
    ensures
        after_setup(s, setup_wire_of(event)).first_run == match event {
            SetupEventView::Status { message } => FirstRunView { status: message, ..s.first_run },
            SetupEventView::Done => FirstRunView {
                running: false,
                env_ready: true,
                ..s.first_run
            },
            SetupEventView::Error { message } => FirstRunView {
                running: false,
                error: message,
                ..s.first_run
            },
        },
{
    lemma_kinds_differ();
}

/// While the query engine is running no question is put and no index is asked for:
/// the window stays as it is.
pub proof fn law_one_job_at_a_time(s: SessionView)
    requires
        s.talk.streaming,
    ensures
        asking_of(s) is None,
        after_submit(s) == s,
        after_index(s) == s,
{
}

/// Once a question is put, the query engine is running until an event says that it
/// is done or failed, the user stops it, or it could not be started.
pub proof fn law_a_job_runs_until_it_ends(s: SessionView, e: WireEventView)
    ensures
        asking_of(s) is Some ==> after_submit(s).talk.streaming,
        s.talk.streaming && e.kind != "done"@ && e.kind != "error"@ ==> after_answer(
            s,
            e,
        ).talk.streaming,
        e.kind == "done"@ || e.kind == "error"@ ==> !after_answer(s, e).talk.streaming
            && !after_answer(s, e).draft.running,
{
    lemma_kinds_differ();
}

/// The window after a series of events of an answer.
pub open spec fn after_events(s: SessionView, events: Seq<AnswerEventView>) -> SessionView
    decreases events.len(),
{
    if events.len() == 0 {
        s
    } else {
        after_answer(after_events(s, events.drop_last()), wire_of(events.last()))
    }
}

proof fn lemma_running_after(s: SessionView, events: Seq<AnswerEventView>)
    ensures
        after_events(s, events).talk.streaming <==> s.talk.streaming && forall|i: int|
            0 <= i < events.len() ==> !sidecar::is_terminal(#[trigger] events[i]),
    decreases events.len(),
{
    if events.len() > 0 {
        let fewer = events.drop_last();
        lemma_running_after(s, fewer);
        law_answer_events_arrive(after_events(s, fewer), events.last());
        assert forall|i: int| 0 <= i < fewer.len() implies fewer[i] == #[trigger] events[i] by {}
        if after_events(s, events).talk.streaming {
            assert forall|i: int| 0 <= i < events.len() implies !sidecar::is_terminal(
                #[trigger] events[i],
            ) by {
                if i < fewer.len() {
                    assert(!sidecar::is_terminal(fewer[i]));
                }
            }
        }
        if s.talk.streaming && forall|i: int|
            0 <= i < events.len() ==> !sidecar::is_terminal(#[trigger] events[i]) {
            assert(!sidecar::is_terminal(events[events.len() - 1]));
            assert forall|i: int| 0 <= i < fewer.len() implies !sidecar::is_terminal(
                #[trigger] fewer[i],
            ) by {
                assert(!sidecar::is_terminal(events[i]));
            }
        }
    }
}

/// Whatever the query engine puts out, the window takes it to be running exactly until
/// the last that is told of it says how the answer ended.
pub proof fn law_window_follows_the_engine(
    s: SessionView,
    outputs: Seq<sidecar::WorkerOutputView>,
)
    requires
        s.talk.streaming,
    ensures
        ({
            let told = sidecar::told(outputs);
            after_events(s, told).talk.streaming <==> !(told.len() > 0 && sidecar::is_terminal(
                told.last(),
            ))
        }),
{
    let told = sidecar::told(outputs);
    sidecar::law_nothing_after_the_end(outputs);
    lemma_running_after(s, told);
    if told.len() > 0 && sidecar::is_terminal(told.last()) {
        assert(sidecar::is_terminal(told[told.len() - 1]));
    }
    if !(told.len() > 0 && sidecar::is_terminal(told.last())) {
        assert forall|i: int| 0 <= i < told.len() implies !sidecar::is_terminal(
            #[trigger] told[i],
        ) by {
            if i == told.len() - 1 {
                assert(told[i] == told.last());
            }
        }
    }
}

/// The window after a series of tokens.
pub open spec fn answered(s: SessionView, tokens: Seq<Seq<char>>) -> SessionView
    decreases tokens.len(),
{
    if tokens.len() == 0 {
        s
    } else {
        after_answer(
            answered(s, tokens.drop_last()),
            WireEventView {
                kind: "token"@,
                text: Some(tokens.last()),
                items: None,
                claims: None,
                message: None,
            },
        )
    }
}

/// Tokens only ever add to the answer, each in its turn: after a series of them the
/// answer is what it was, and all of them after it.
pub proof fn law_tokens_add_up(s: SessionView, tokens: Seq<Seq<char>>)
    ensures
        answered(s, tokens).talk.answer == s.talk.answer + tokens.flatten(),
        answered(s, tokens) == (SessionView {
            talk: TalkView { answer: s.talk.answer + tokens.flatten(), ..s.talk },
            ..s
        }),
    decreases tokens.len(),
{
    lemma_kinds_differ();
    if tokens.len() == 0 {
        assert(s.talk.answer + tokens.flatten() =~= s.talk.answer);
    } else {
        let fewer = tokens.drop_last();
        law_tokens_add_up(s, fewer);
        assert(tokens =~= fewer.push(tokens.last()));
        fewer.lemma_flatten_push(tokens.last());
        assert(s.talk.answer + fewer.flatten() + tokens.last() =~= s.talk.answer
            + tokens.flatten());
    }
}

/// No turn is lost or changed by putting a question: those before it stay, and the
/// last answer becomes the newest.
pub proof fn law_turns_are_kept(s: SessionView)
    requires
        can_submit(s),
    ensures
        s.talk.history.is_prefix_of(after_submit(s).talk.history),
        s.talk.answer.len() > 0 ==> after_submit(s).talk.history.len() == s.talk.history.len() + 1
            && after_submit(s).talk.history.last() == (TurnView {
            id: s.talk.turn_id,
            question: s.talk.asked,
            answer: s.talk.answer,
            refs: s.talk.refs,
        }),
        s.talk.answer.len() == 0 ==> after_submit(s).talk.history == s.talk.history,
{
    let after = after_submit(s).talk.history;
    assert(after.subrange(0, s.talk.history.len() as int) =~= s.talk.history);
}

/// Turns keep ids of their own through everything that changes the conversation.
pub proof fn law_turn_ids_stay_distinct(s: SessionView, e: WireEventView, id: Seq<char>)
    requires
        thread::in_order(s.talk.history, s.talk.turn_id),
        s.talk.answer.len() > 0 ==> s.talk.turn_id < usize::MAX,
    ensures
        thread::in_order(after_submit(s).talk.history, after_submit(s).talk.turn_id),
        thread::in_order(after_answer(s, e).talk.history, after_answer(s, e).talk.turn_id),
        thread::in_order(after_index(s).talk.history, after_index(s).talk.turn_id),
        thread::in_order(with_choice(s, id).talk.history, with_choice(s, id).talk.turn_id),
        thread::in_order(fresh_chat(s).talk.history, fresh_chat(s).talk.turn_id),
        thread::in_order(just_opened().talk.history, just_opened().talk.turn_id),
{
    let after = after_submit(s).talk;
    if can_submit(s) && s.talk.answer.len() > 0 {
        assert forall|i: int, j: int| 0 <= i < j < after.history.len() implies after.history[i].id
            < after.history[j].id by {
            if j == s.talk.history.len() {
                assert(after.history[i] == s.talk.history[i]);
            }
        }
        assert forall|i: int| 0 <= i < after.history.len() implies (#[trigger] after.history[i]).id
            < after.turn_id by {
            if i < s.talk.history.len() {
                assert(after.history[i] == s.talk.history[i]);
            }
        }
    }
}

/// A claim is checked without the conversation, and against the chosen source.
pub proof fn law_a_claim_stands_alone(s: SessionView, history: Seq<TurnView>)
    requires
        s.mode == Mode::Check,
    ensures
        asking_of(s) == asking_of(SessionView { talk: TalkView { history, ..s.talk }, ..s }),
{
}

/// After a new conversation is begun nothing of the old one goes with a question:
/// what is asked for depends on the question and the choices alone.
pub proof fn law_new_chat_forgets(s: SessionView, question: Seq<char>)
    requires
        s.mode != Mode::Check,
    ensures
        ({
            let fresh = fresh_chat(s);
            let asking = SessionView { talk: TalkView { question, ..fresh.talk }, ..fresh };
            asking_of(asking) matches Some(AskingView::Ask { history, .. }) ==> history
                == Seq::<char>::empty()
        }),
{
    let empty = Seq::<TurnView>::empty();
    assert(thread::recent(empty) == empty);
    assert(thread::quotes(empty) == Seq::<char>::empty());
}

/// Another collection begins another conversation: nothing of the one before is
/// left, but for the question being typed.
pub proof fn law_choice_begins_anew(s: SessionView, id: Seq<char>)
    ensures
        ({
            let t = after_index(with_choice(s, id)).talk;
            &&& t.history.len() == 0
            &&& t.asked.len() == 0
            &&& t.answer.len() == 0
            &&& t.refs.len() == 0
            &&& t.notice.len() == 0
            &&& t.question == s.talk.question
        }),
{
}

/// Before the user has said whether ratings may be sent, none is recorded; after
/// that, each is recorded with what the user said.
pub proof fn law_consent_comes_first(o: OpinionView, rating: Seq<char>)
    ensures
        o.consent is None ==> recorded(o, rating) is None && after_rating(o, rating).asking
            && after_rating(o, rating).pending == rating && after_rating(o, rating).rated
            == o.rated,
        o.consent matches Some(c) ==> recorded(o, rating) == Some(
            FeedbackView { rating, field: o.field, consent: c },
        ),
{
}

/// The window asks for a lab config exactly when it starts without a key, and no
/// longer once one was imported.
pub proof fn law_lab_config_is_asked_for(config: WindowConfigView)
    ensures
        after_start(just_opened(), Some(config)).first_run.needs_config == !config.has_api_key,
{
}

/// Importing a lab config leaves the settings form open exactly for a member who
/// still has to enter a key.
pub proof fn law_keyless_member_is_prompted(
    s: SessionView,
    name: Seq<char>,
    config: WindowConfigView,
)
    ensures
        after_import(s, name, Some(config)).form.shown == !config.has_api_key,
        after_import(s, name, Some(config)).form.has_key == config.has_api_key,
{
}

/// The end of an answer takes nothing away: the answer, its sources, the conversation and
/// the verdicts on a draft stay as they are.
pub proof fn law_the_end_takes_nothing_away(s: SessionView, event: AnswerEventView)
    requires
        event is Done || event is Error,
    ensures
        ({
            let after = after_answer(s, wire_of(event));
            &&& after.talk == (TalkView { streaming: false, ..s.talk })
            &&& after.draft == (DraftCheckView { running: false, ..s.draft })
            &&& after.shelf == s.shelf
            &&& after.verify == s.verify
            &&& after.opinion == s.opinion
            &&& after.form == s.form
            &&& after.first_run == s.first_run
            &&& after.mode == s.mode
            &&& after.toast == s.toast
            &&& after.saved_link == s.saved_link
            &&& event matches AnswerEventView::Error { message } ==> after.status == message
        }),
{
    lemma_kinds_differ();
}

/// What is put to the app is what was typed, character for character: the question or the
/// claim, for the collection that was chosen, a claim with the source that was chosen.
pub proof fn law_what_was_typed_is_asked(s: SessionView)
    requires
        !text::is_blank(s.talk.question),
        s.shelf.selected.len() > 0,
        !s.talk.streaming,
    ensures
        s.mode == Mode::Check ==> asking_of(s) == Some(
            AskingView::Check {
                library: picker::parts_of(s.shelf.selected).0,
                key: picker::parts_of(s.shelf.selected).1,
                claim: s.talk.question,
                source_key: s.shelf.source_key,
            },
        ),
        s.mode != Mode::Check ==> (asking_of(s) matches Some(
            AskingView::Ask { library, key, question, history },
        ) && {
            &&& question == s.talk.question
            &&& library == picker::parts_of(s.shelf.selected).0
            &&& key == picker::parts_of(s.shelf.selected).1
        }),
{
}

/// Nothing is put to the app without a question, without a collection, or while the query
/// engine is running.
pub proof fn law_nothing_is_asked_for_no_reason(s: SessionView)
    ensures
        asking_of(s) is Some <==> !text::is_blank(s.talk.question) && s.shelf.selected.len() > 0
            && !s.talk.streaming,
        asking_of(s) is None ==> after_submit(s) == s,
{
}

/// A follow-up takes the last answer along: what goes with the question ends in the last
/// question and its answer, after the turn before them if there is one.
pub proof fn law_a_follow_up_takes_the_conversation_along(s: SessionView)
    requires
        can_submit(s),
        s.mode != Mode::Check,
        s.talk.answer.len() > 0,
    ensures
        asking_of(s) matches Some(AskingView::Ask { library, key, question, history }) && {
            let last = TurnView {
                id: s.talk.turn_id,
                question: s.talk.asked,
                answer: s.talk.answer,
                refs: s.talk.refs,
            };
            &&& s.talk.history.len() == 0 ==> history == thread::quoted(last)
            &&& s.talk.history.len() > 0 ==> history == thread::quoted(s.talk.history.last())
                + thread::quoted(last)
            &&& s.talk.history.len() == 0 && s.talk.answer.len() <= 400 ==> history == "Q: "@
                + s.talk.asked + "\nA: "@ + s.talk.answer + "\n\n"@
        },
{
    let last = TurnView {
        id: s.talk.turn_id,
        question: s.talk.asked,
        answer: s.talk.answer,
        refs: s.talk.refs,
    };
    let turns = archived(s.talk).history;
    thread::law_turns_are_quoted_as_they_are(last);
    if s.talk.history.len() == 0 {
        assert(turns =~= seq![last]);
    } else {
        let before = s.talk.history.drop_last();
        assert(turns =~= before.push(s.talk.history.last()).push(last));
        thread::law_old_turns_do_not_matter(before, s.talk.history.last(), last);
    }
}

/// Without an answer yet the turns so far go along, the last two of them.
pub proof fn law_turns_go_along(s: SessionView)
    requires
        can_submit(s),
        s.mode != Mode::Check,
        s.talk.answer.len() == 0,
    ensures
        asking_of(s) matches Some(AskingView::Ask { library, key, question, history }) && {
            let n = s.talk.history.len();
            &&& n == 0 ==> history.len() == 0
            &&& n == 1 ==> history == thread::quoted(s.talk.history[0])
            &&& n >= 2 ==> history == thread::quoted(s.talk.history[n - 2]) + thread::quoted(
                s.talk.history[n - 1],
            )
        },
{
    let turns = s.talk.history;
    let n = turns.len();
    if n == 0 {
        assert(turns =~= Seq::empty());
        thread::law_history_is_bounded(turns);
    } else if n == 1 {
        assert(turns =~= seq![turns[0]]);
        thread::law_turns_are_quoted_as_they_are(turns[0]);
    } else {
        let before = turns.take(n - 2);
        assert(turns =~= before.push(turns[n - 2]).push(turns[n - 1]));
        thread::law_old_turns_do_not_matter(before, turns[n - 2], turns[n - 1]);
    }
}

/// Once a question is put it is the one being answered, and the field is free for the next;
/// what is not about the question stays.
pub proof fn law_putting_a_question(s: SessionView)
    requires
        can_submit(s),
    ensures
        ({
            let after = after_submit(s);
            &&& after.talk.asked == s.talk.question
            &&& after.talk.question.len() == 0
            &&& after.talk.answer.len() == 0
            &&& after.talk.refs.len() == 0
            &&& after.talk.notice.len() == 0
            &&& after.talk.streaming
            &&& !after.opinion.rated
            &&& !after.opinion.asking
            &&& after.opinion.consent == s.opinion.consent
            &&& after.opinion.field == s.opinion.field
            &&& after.mode == s.mode
            &&& after.shelf == s.shelf
            &&& after.verify == s.verify
            &&& after.draft == s.draft
            &&& after.form == s.form
            &&& after.first_run == s.first_run
        }),
{
}

/// The answer is shown whole: after lines that report its pieces the window shows what it
/// showed before and then the pieces one after the other, character for character.
pub proof fn law_the_answer_is_shown_whole(
    s: SessionView,
    outputs: Seq<sidecar::WorkerOutputView>,
    texts: Seq<Seq<char>>,
)
    requires
        outputs.len() == texts.len(),
        forall|i: int|
            0 <= i < outputs.len() ==> sidecar::is_token_line(#[trigger] outputs[i], texts[i]),
    ensures
        after_events(s, sidecar::told(outputs)).talk.answer == s.talk.answer + texts.flatten(),
{
    sidecar::law_pieces_make_up_the_answer(outputs, texts);
    lemma_tokens_are_answered(s, sidecar::told(outputs), texts);
    law_tokens_add_up(s, texts);
}

proof fn lemma_tokens_are_answered(
    s: SessionView,
    events: Seq<AnswerEventView>,
    texts: Seq<Seq<char>>,
)
    requires
        events.len() == texts.len(),
        forall|i: int|
            0 <= i < texts.len() ==> #[trigger] events[i] == (AnswerEventView::Token {
                text: texts[i],
            }),
    ensures
        after_events(s, events) == answered(s, texts),
    decreases events.len(),
{
    if events.len() > 0 {
        let n = events.len() - 1;
        assert(events[n] == AnswerEventView::Token { text: texts[n] });
        assert forall|i: int| 0 <= i < n implies #[trigger] events.drop_last()[i] == (
        AnswerEventView::Token { text: texts.drop_last()[i] }) by {
            assert(events[i] == AnswerEventView::Token { text: texts[i] });
        }
        lemma_tokens_are_answered(s, events.drop_last(), texts.drop_last());
    }
}

/// An event changes what it is about, and nothing else: sources, notices and verdicts come
/// as they are, and the answer only grows.
pub proof fn law_events_keep_to_their_own(s: SessionView, event: AnswerEventView)
    ensures
        ({
            let after = after_answer(s, wire_of(event));
            &&& s.talk.answer.is_prefix_of(after.talk.answer)
            &&& !(event is Token) ==> after.talk.answer == s.talk.answer
            &&& !(event is References) ==> after.talk.refs == s.talk.refs
            &&& !(event is Draft) ==> after.draft.items == s.draft.items
            &&& !(event is Notice) ==> after.talk.notice == s.talk.notice
            &&& after.talk.history == s.talk.history
            &&& after.talk.asked == s.talk.asked
            &&& after.talk.question == s.talk.question
            &&& after.talk.turn_id == s.talk.turn_id
            &&& after.shelf == s.shelf
            &&& after.verify == s.verify
            &&& after.form == s.form
            &&& after.first_run == s.first_run
        }),
{
    law_answer_events_arrive(s, event);
    let after = after_answer(s, wire_of(event));
    assert(after.talk.answer.subrange(0, s.talk.answer.len() as int) =~= s.talk.answer);
}

/// Events of the setup change nothing but what the window knows of the setup.
pub proof fn law_setup_events_keep_to_their_own(s: SessionView, event: SetupEventView)
    ensures
        (SessionView { first_run: s.first_run, ..after_setup(s, setup_wire_of(event)) }) == s,
{
}

/// At the start the window takes over the settings as they are.
pub proof fn law_the_window_starts_with_the_settings(s: SessionView, config: WindowConfigView)
    ensures
        ({
            let after = after_start(s, Some(config));
            &&& after.shelf.remembered == config.last_collection
            &&& after.opinion.consent == config.tele_consent
            &&& after.opinion.field == config.field
            &&& after.form.has_key == config.has_api_key
            &&& after.form.model == config.model
            &&& after.form.embedding == config.embedding
            &&& after.form.api_base == config.api_base
            &&& after.form.qdrant_url == config.qdrant_url
            &&& after.form.key == s.form.key
            &&& after.talk == s.talk
            &&& after.draft == s.draft
            &&& after_start(s, None) == s
        }),
{
}

/// After an import the form shows the settings as they are now, and the user is told the
/// name of the lab.
pub proof fn law_an_import_is_shown(s: SessionView, name: Seq<char>, config: WindowConfigView)
    ensures
        ({
            let after = after_import(s, name, Some(config));
            &&& after.form.model == config.model
            &&& after.form.embedding == config.embedding
            &&& after.form.api_base == config.api_base
            &&& after.form.qdrant_url == config.qdrant_url
            &&& config.has_api_key && name.len() > 0 ==> after.toast == "Lab config imported ✓ ("@
                + name + ")"@
            &&& after.talk == s.talk
            &&& after.shelf == s.shelf
            &&& after.draft == s.draft
        }),
{
}

/// All collections that were fetched are on the shelf, as they are and in order; the one
/// chosen is the remembered one while it is among them, and else the first.
pub proof fn law_fetched_collections_are_on_the_shelf(
    shelf: ShelfView,
    list: Seq<CollectionView>,
)
    ensures
        ({
            let after = with_collections(shelf, list);
            &&& after.collections == list
            &&& after.ready
            &&& match shelf.remembered {
                Some(id) => picker::is_listed(list, id) ==> after.selected == id,
                None => true,
            }
            &&& list.len() > 0 && (shelf.remembered is None || !picker::is_listed(
                list,
                shelf.remembered->Some_0,
            )) ==> after.selected == list[0].library + "::"@ + list[0].key
            &&& list.len() == 0 ==> after.selected == shelf.selected
            &&& after.papers == shelf.papers
            &&& after.source_key == shelf.source_key
            &&& after.remembered == shelf.remembered
        }),
{
}

/// The collection that was chosen is the one that is read into the index, and the rest of
/// the window stays.
pub proof fn law_the_choice_is_kept(s: SessionView, id: Seq<char>)
    ensures
        with_choice(s, id).shelf == (ShelfView { selected: id, ..s.shelf }),
        after_index(with_choice(s, id)).shelf.selected == id,
        with_choice(s, id).mode == s.mode,
        with_choice(s, id).verify == s.verify,
        with_choice(s, id).draft == s.draft,
        with_choice(s, id).form == s.form,
        with_choice(s, id).opinion == s.opinion,
        after_index(s).talk.history == s.talk.history,
        after_index(s).talk.question == s.talk.question,
        after_index(s).shelf == s.shelf,
        after_index(s).draft == s.draft,
        s.shelf.selected.len() > 0 ==> after_index(s).talk.streaming,
{
}

/// A new conversation leaves the choices, the settings and the other checks as they are.
pub proof fn law_a_new_conversation_keeps_the_rest(s: SessionView)
    ensures
        ({
            let after = fresh_chat(s);
            &&& after.talk.history.len() == 0
            &&& after.talk.answer.len() == 0
            &&& after.talk.refs.len() == 0
            &&& after.talk.question == s.talk.question
            &&& after.talk.turn_id == s.talk.turn_id
            &&& after.shelf == s.shelf
            &&& after.verify == s.verify
            &&& after.draft == s.draft
            &&& after.form == s.form
            &&& after.mode == s.mode
            &&& after.opinion.consent == s.opinion.consent
            &&& after.opinion.field == s.opinion.field
        }),
{
}

/// A stop keeps what there is of the answer, and tells the reason as it is.
pub proof fn law_a_stop_keeps_the_answer(s: SessionView, reason: Seq<char>)
    ensures
        stopped(s, reason).status == reason,
        stopped(s, reason).talk == (TalkView { streaming: false, ..s.talk }),
        (SessionView { status: s.status, talk: s.talk, ..stopped(s, reason) }) == s,
{
}

/// Where a note was saved is told as it is, and its link is kept; of a shared place the
/// user is warned.
pub proof fn law_the_place_of_a_note_is_told(s: SessionView, note: SavedNoteView)
    ensures
        ({
            let after = after_saving(s, SavingView::Saved(note));
            &&& after.saved_link == note.link
            &&& !note.is_group ==> after.toast == "Saved to Zotero → "@ + note.location + " ✓"@
            &&& note.is_group ==> after.toast == "Saved to Zotero → "@ + note.location
                + " · a shared group; move it if you want it private."@
            &&& (SessionView { toast: s.toast, saved_link: s.saved_link, ..after }) == s
        }),
{
}

/// Why a note was not saved is told as it is.
pub proof fn law_why_a_note_was_not_saved_is_told(s: SessionView, reason: Seq<char>)
    ensures
        after_saving(s, SavingView::Failed(Some(reason))) == (SessionView { toast: reason, ..s }),
        after_saving(s, SavingView::Failed(None)).toast.len() > 0,
        after_saving(s, SavingView::Failed(None)).talk == s.talk,
        after_saving(s, SavingView::SomewhereSaved).talk == s.talk,
{
    reveal_strlit("Could not save to Zotero — is it open?");
}

/// A rating changes nothing but what is known of the rating.
pub proof fn law_a_rating_is_taken(o: OpinionView, rating: Seq<char>)
    ensures
        o.consent is Some ==> after_rating(o, rating) == (OpinionView { rated: true, ..o }),
        o.consent is None ==> after_rating(o, rating) == (OpinionView {
            pending: rating,
            asking: true,
            ..o
        }),
{
}

/// The card of the setup shows what went wrong as it is, and how far the setup is.
pub proof fn law_the_setup_is_shown(f: FirstRunView)
    ensures
        f.env_ready ==> setup_card_of(f) is None,
        !f.env_ready && f.error.len() > 0 ==> setup_card_of(f) == Some(
            SetupCardView::Failed(f.error),
        ),
        !f.env_ready && f.error.len() == 0 && f.running ==> (setup_card_of(f) matches Some(
            SetupCardView::Running(status, tip),
        ) && status == f.status),
        !f.env_ready && f.error.len() == 0 && !f.running ==> setup_card_of(f) == Some(
            SetupCardView::Offer,
        ),
{
}

/// What is sent of the settings form is what stands in it; a blank key is not sent.
pub proof fn law_the_form_is_sent_as_it_is(form: FormView)
    ensures
        form_sent(form).model == form.model,
        form_sent(form).embedding == form.embedding,
        form_sent(form).api_base == form.api_base,
        form_sent(form).qdrant_url == form.qdrant_url,
        form_sent(form).qdrant_key == form.qdrant_key,
        !text::is_blank(form.key) ==> form_sent(form).key == Some(form.key),
        text::is_blank(form.key) ==> form_sent(form).key is None,
{
}

/// The reference that is looked up is the one that was typed, character for character.
pub proof fn law_the_typed_reference_is_looked_up(check: RefCheckView)
    ensures
        !text::is_blank(check.input) && !check.running ==> reference_typed(check) == Some(
            check.input,
        ),
        text::is_blank(check.input) || check.running ==> reference_typed(check) is None,
{
}

/// The draft that is checked is the one that was typed or picked, character for character
/// and however long, against the collection that was chosen.
pub proof fn law_the_whole_draft_is_checked(s: SessionView, contents: Seq<char>)
    ensures
        !text::is_blank(s.draft.input) && s.shelf.selected.len() > 0 && !s.draft.running
            ==> draft_asked(s) == Some(
            (
                picker::parts_of(s.shelf.selected).0,
                picker::parts_of(s.shelf.selected).1,
                s.draft.input,
            ),
        ),
        text::is_blank(s.draft.input) || s.shelf.selected.len() == 0 || s.draft.running
            ==> draft_asked(s) is None,
        !text::is_blank(contents) ==> draft_picked(s.draft.input, contents) == contents,
        text::is_blank(contents) ==> draft_picked(s.draft.input, contents) == s.draft.input,
{
}

/// What is recorded once the user has decided is the rating that waited, with the decision.
pub proof fn law_the_waiting_rating_is_recorded(o: OpinionView, rating: Seq<char>, allow: bool)
    requires
        o.consent is None,
    ensures
        decided(after_rating(o, rating), allow).rating == rating,
        decided(after_rating(o, rating), allow).field == o.field,
        decided(after_rating(o, rating), allow).consent == allow,
{
}

/// There is a note as soon as anything was answered, and it holds every turn and the current
/// one, each answer whole.
pub proof fn law_the_whole_conversation_is_noted(talk: TalkView, when: Seq<char>)
    ensures
        note_on(talk, when) is Some <==> talk.history.len() > 0 || !text::is_blank(talk.answer),
        note_on(talk, when) matches Some(note) ==> {
            &&& forall|i: int|
                0 <= i < talk.history.len() ==> thread::stands_in(
                    thread::turn_html(
                        (#[trigger] talk.history[i]).question,
                        talk.history[i].answer,
                        talk.history[i].refs,
                    ),
                    note,
                )
            &&& !text::is_blank(talk.answer) ==> thread::stands_in(
                thread::turn_html(talk.asked, talk.answer, talk.refs),
                note,
            )
        },
{
    thread::law_note_keeps_every_turn(talk.history, talk.asked, talk.answer, talk.refs, when);
}

/// Where nothing stands in the way of a question, the line of status says what there is to
/// say, as it is.
pub proof fn law_the_status_is_shown_as_it_is(s: SessionView)
    requires
        s.shelf.zotero_ok,
        s.shelf.ready,
        s.shelf.collections.len() > 0,
        s.shelf.selected.len() > 0,
    ensures
        status_line_of(s) == s.status,
{
}

} // verus!
