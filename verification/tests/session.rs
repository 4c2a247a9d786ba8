use paperdock::ask::PaperRef;
use paperdock::reference::RefMatch;
use paperdock::session::{
    answer_wire, setup_wire, Asking, Feedback, Mode, SavedNote, Saving, Session, SettingsForm, SetupCard, WindowConfig, WireEvent,
};
use paperdock::setup::SetupEvent;
use paperdock::sidecar::{AnswerEvent, DraftItem, RefItem};
use paperdock::zotero::Collection;

fn event(kind: &str) -> WireEvent {
    WireEvent { kind: kind.to_string(), text: None, items: None, claims: None, message: None }
}

fn said(kind: &str, text: &str) -> WireEvent {
    WireEvent { text: Some(text.to_string()), ..event(kind) }
}

fn messaged(kind: &str, message: &str) -> WireEvent {
    WireEvent { message: Some(message.to_string()), ..event(kind) }
}

fn reference(citation: &str) -> RefItem {
    RefItem { item_key: "K".to_string(), citation: citation.to_string(), passages: vec![] }
}

fn collection(key: &str) -> Collection {
    Collection {
        key: key.to_string(),
        name: "n".to_string(),
        num_items: 1,
        library: "users/0".to_string(),
        library_name: "My Library".to_string(),
    }
}

fn config(has_api_key: bool) -> WindowConfig {
    WindowConfig {
        last_collection: Some("users/0::B".to_string()),
        model: "m".to_string(),
        embedding: "e".to_string(),
        api_base: "b".to_string(),
        qdrant_url: "u".to_string(),
        has_api_key,
        field: "botany".to_string(),
        tele_consent: Some(true),
    }
}

fn asking(question: &str) -> Session {
    let mut s = Session::new();
    s.shelf.selected = "groups/7::K".to_string();
    s.talk.question = question.to_string();
    s
}

#[test]
fn answers_stream_in() {
    let mut s = asking("q");
    s.submit();
    s.on_answer(said("status", "Reading…"));
    assert_eq!(s.status, "Reading…");
    s.on_answer(said("token", "Three "));
    s.on_answer(said("token", "papers"));
    assert_eq!(s.talk.answer, "Three papers");
    s.talk.active_source = 4;
    s.on_answer(WireEvent { items: Some(vec![reference("Wang 2022")]), ..event("references") });
    assert_eq!(s.talk.refs.len(), 1);
    assert_eq!(s.talk.active_source, 0);
    s.on_answer(messaged("notice", "n"));
    assert_eq!(s.talk.notice, "n");
    assert!(s.talk.streaming);
    s.on_answer(event("done"));
    assert!(!s.talk.streaming);
    assert_eq!(s.status, "Indexed ✓");
}

#[test]
fn events_that_lack_something_change_nothing() {
    let mut s = asking("q");
    s.submit();
    for kind in ["status", "token", "references", "notice", "draft", "other", ""] {
        s.on_answer(event(kind));
    }
    let mut t = asking("q");
    t.submit();
    assert_eq!(s, t);
}

#[test]
fn an_error_ends_an_answer() {
    let mut s = asking("q");
    s.submit();
    s.draft.running = true;
    s.on_answer(event("error"));
    assert!(!s.talk.streaming && !s.draft.running);
    assert_eq!(s.status, "Something went wrong.");
    s.on_answer(messaged("error", "no luck"));
    assert_eq!(s.status, "no luck");
    s.answers_unavailable();
    assert_eq!(s.status, "Could not connect to the answer stream.");
}

#[test]
fn verdicts_on_a_draft_arrive() {
    let mut s = Session::new();
    let item = DraftItem { claim: "c".to_string(), verdict: "v".to_string(), detail: "d".to_string() };
    s.on_answer(WireEvent { claims: Some(vec![item.clone()]), ..event("draft") });
    assert_eq!(s.draft.items, vec![item]);
}

#[test]
fn the_setup_reports() {
    let mut s = Session::new();
    s.first_run.env_checked(Some(false));
    assert_eq!(s.first_run.setup_card(), Some(SetupCard::Offer));
    s.first_run.start_setup();
    assert_eq!(
        s.first_run.setup_card(),
        Some(SetupCard::Running(
            "Preparing…".to_string(),
            "While this installs — open Zotero (7+). PaperDock reads your library through it.".to_string()
        ))
    );
    s.on_setup(messaged("status", "Downloading"));
    for _ in 0..6 {
        s.first_run.heartbeat();
    }
    assert_eq!(
        s.first_run.setup_card(),
        Some(SetupCard::Running(
            "Downloading".to_string(),
            "Tip: group papers into a Zotero collection to focus your questions.".to_string()
        ))
    );
    s.on_setup(event("error"));
    assert_eq!(s.first_run.setup_card(), Some(SetupCard::Failed("Setup failed. Try again.".to_string())));
    s.first_run.start_setup();
    s.on_setup(messaged("error", "disk full"));
    assert_eq!(s.first_run.setup_card(), Some(SetupCard::Failed("disk full".to_string())));
    s.on_setup(event("done"));
    assert_eq!(s.first_run.setup_card(), None);
    assert!(!s.first_run.running);
    s.first_run.heartbeat();
    assert_eq!(s.first_run.tip, 6);
}

#[test]
fn tips_go_round() {
    let mut s = Session::new();
    s.first_run.env_checked(None);
    assert!(s.first_run.env_ready);
    s.first_run.env_checked(Some(false));
    s.first_run.tip = usize::MAX;
    s.first_run.heartbeat();
    assert_eq!(s.first_run.tip, 0);
}

#[test]
fn a_start_without_a_key_asks_for_a_lab_config() {
    let mut s = Session::new();
    s.started(Some(config(false)));
    assert!(s.first_run.needs_config);
    assert!(s.first_run.asks_for_lab());
    assert!(!s.form.has_key);
    assert_eq!(s.form.model, "m");
    assert_eq!(s.shelf.remembered.as_deref(), Some("users/0::B"));
    assert_eq!(s.opinion.consent, Some(true));
    assert_eq!(s.opinion.field, "botany");
    let mut s = Session::new();
    s.started(Some(config(true)));
    assert!(!s.first_run.asks_for_lab());
    let mut s = Session::new();
    s.started(None);
    assert_eq!(s, Session::new());
    s.first_run.needs_config = true;
    s.set_up_by_hand();
    assert!(s.form.shown && !s.first_run.needs_config);
}

#[test]
fn an_imported_lab_config_is_confirmed() {
    let mut s = Session::new();
    s.first_run.needs_config = true;
    s.lab_imported();
    assert!(!s.first_run.needs_config);
    s.import_settled("Smith Lab", Some(config(true)));
    assert_eq!(s.toast, "Lab config imported ✓ (Smith Lab)");
    assert!(!s.form.shown);
    s.import_settled("Smith Lab", Some(config(false)));
    assert_eq!(s.toast, "Lab config imported ✓ — add your API key in Settings");
    assert!(s.form.shown);
    assert!(!s.form.has_key);
    s.import_settled("", None);
    assert_eq!(s.toast, "Lab config imported ✓");
}

#[test]
fn the_settings_form_is_sent() {
    let mut s = Session::new();
    s.form.model = "m".to_string();
    s.form.qdrant_key = "qk".to_string();
    s.form.key = "  ".to_string();
    let form = s.settings_form();
    assert_eq!(
        form,
        SettingsForm {
            model: "m".to_string(),
            embedding: String::new(),
            api_base: String::new(),
            qdrant_url: String::new(),
            qdrant_key: "qk".to_string(),
            key: None,
        }
    );
    s.form.key = " k ".to_string();
    assert_eq!(s.settings_form().key.as_deref(), Some(" k "));
    s.settings_sent();
    assert_eq!(s.form.qdrant_key, "");
    s.form.has_key = false;
    s.key_saved();
    assert!(s.form.has_key);
    assert_eq!(s.form.key, "");
    s.lab_config_refused(None);
    assert_eq!(s.toast, "");
    s.lab_config_refused(Some("Nothing to export yet.".to_string()));
    assert_eq!(s.toast, "Nothing to export yet.");
    s.form.shown = true;
    s.settings_saved();
    assert!(!s.form.shown);
    assert_eq!(s.status, "Settings saved ✓");
}

#[test]
fn collections_are_fetched_once_zotero_is_up() {
    let mut s = Session::new();
    assert!(!s.shelf.zotero_checked(None));
    assert!(!s.shelf.zotero_ok);
    assert!(s.status_line().starts_with("Waiting for Zotero"));
    assert!(s.shelf.zotero_checked(Some(true)));
    assert_eq!(s.status_line(), "Connected to Zotero — loading your collections…");
    s.shelf.collections_loaded(vec![]);
    assert!(s.status_line().starts_with("Connected, but no Zotero collections found."));
    s.shelf.remembered = Some("users/0::B".to_string());
    s.shelf.collections_loaded(vec![collection("A"), collection("B")]);
    assert_eq!(s.shelf.selected, "users/0::B");
    assert_eq!(s.shelf.library(), "users/0");
    s.status = "Idle".to_string();
    assert_eq!(s.status_line(), "Idle");
    s.shelf.selected = String::new();
    assert_eq!(s.status_line(), "Pick a collection above to get started.");
    assert!(!s.shelf.zotero_checked(Some(true)));
}

#[test]
fn an_index_is_made_when_the_engine_is_idle() {
    let mut s = Session::new();
    assert_eq!(s.index(), None);
    s.shelf.selected = "groups/7::K".to_string();
    s.talk.answer = "old".to_string();
    assert_eq!(s.index(), Some(("groups/7".to_string(), "K".to_string())));
    assert_eq!(s.talk.answer, "");
    assert_eq!(s.status, "Preparing shared index…");
    assert_eq!(s.index(), None);
    s.index_failed(None);
    assert_eq!(s.status, "Could not index this collection.");
    assert!(!s.talk.streaming);
    s.index();
    s.cancelled();
    assert_eq!(s.status, "Stopped.");
    assert!(!s.talk.streaming);
}

#[test]
fn another_collection_begins_another_conversation() {
    let mut s = asking("q1");
    s.submit();
    s.on_answer(said("token", "a1"));
    s.on_answer(event("done"));
    s.talk.question = "q2".to_string();
    s.submit();
    s.on_answer(event("done"));
    s.talk.notice = "n".to_string();
    assert_eq!(s.talk.history.len(), 1);
    let r = s.choose_collection("users/0::X".to_string());
    assert_eq!(r, Some(("users/0".to_string(), "X".to_string())));
    assert!(s.talk.history.is_empty());
    assert_eq!(s.talk.asked, "");
    assert_eq!(s.talk.notice, "");
    assert!(s.talk.streaming);
    assert_eq!(s.choose_collection("users/0::Y".to_string()), None);
    assert_eq!(s.shelf.selected, "users/0::Y");
}

#[test]
fn a_question_goes_with_the_conversation() {
    let mut s = asking("q1");
    assert_eq!(
        s.submit(),
        Some(Asking::Ask {
            library: "groups/7".to_string(),
            key: "K".to_string(),
            question: "q1".to_string(),
            history: String::new(),
        })
    );
    assert_eq!(s.talk.asked, "q1");
    assert_eq!(s.talk.question, "");
    assert_eq!(s.status, "Indexing…");
    s.on_answer(said("token", "a1"));
    s.on_answer(WireEvent { items: Some(vec![reference("W")]), ..event("references") });
    s.on_answer(event("done"));
    s.talk.question = " q2 ".to_string();
    s.opinion.rated = true;
    let r = s.submit();
    assert_eq!(
        r,
        Some(Asking::Ask {
            library: "groups/7".to_string(),
            key: "K".to_string(),
            question: " q2 ".to_string(),
            history: "Q: q1\nA: a1\n\n".to_string(),
        })
    );
    assert!(!s.opinion.rated);
    assert_eq!(s.talk.history.len(), 1);
    assert_eq!(s.talk.history[0].id, 0);
    assert_eq!(s.talk.history[0].refs, vec![reference("W")]);
    assert_eq!(s.talk.turn_id, 1);
    s.submit_failed(Some("no".to_string()));
    assert_eq!(s.status, "no");
    s.submit_failed(None);
    assert_eq!(s.status, "Could not start the query.");
}

#[test]
fn some_questions_are_not_put() {
    for (question, selected, streaming) in [("  ", "k", false), ("q", "", false), ("q", "k", true)] {
        let mut s = Session::new();
        s.talk.question = question.to_string();
        s.shelf.selected = selected.to_string();
        s.talk.streaming = streaming;
        assert_eq!(s.submit(), None);
        assert_eq!(s.talk.question, question);
    }
}

#[test]
fn a_claim_is_checked_alone() {
    let mut s = asking("c");
    s.mode = Mode::Check;
    s.talk.answer = "old".to_string();
    s.talk.asked = "older".to_string();
    assert_eq!(
        s.papers_wanted(),
        Some(("groups/7".to_string(), "K".to_string()))
    );
    s.shelf.papers_loaded(vec![PaperRef { key: "P".to_string(), citation: "p".to_string() }]);
    s.shelf.source_key = "P".to_string();
    assert_eq!(
        s.submit(),
        Some(Asking::Check {
            library: "groups/7".to_string(),
            key: "K".to_string(),
            claim: "c".to_string(),
            source_key: "P".to_string(),
        })
    );
    assert!(s.papers_wanted().is_some());
    assert_eq!(s.shelf.source_key, "");
    s.mode = Mode::Ask;
    s.shelf.source_key = "P".to_string();
    assert_eq!(s.papers_wanted(), None);
    assert_eq!(s.shelf.source_key, "P");
}

#[test]
fn a_new_chat_forgets_the_old_one() {
    let mut s = asking("q1");
    s.submit();
    s.on_answer(said("token", "a1"));
    s.on_answer(event("done"));
    s.saved_link = "l".to_string();
    s.toast = "t".to_string();
    s.new_chat();
    assert_eq!(s.status, "");
    assert_eq!(s.toast, "");
    assert_eq!(s.saved_link, "");
    assert_eq!(s.talk.asked, "");
    s.talk.question = "q2".to_string();
    match s.submit() {
        Some(Asking::Ask { history, .. }) => assert_eq!(history, ""),
        other => panic!("{other:?}"),
    }
}

#[test]
fn turns_keep_their_ids() {
    let mut s = asking("q");
    for i in 0..4 {
        s.submit();
        s.on_answer(said("token", "a"));
        s.on_answer(event("done"));
        s.talk.question = format!("q{i}");
        if i == 1 {
            s.new_chat();
        }
    }
    let ids: Vec<usize> = s.talk.history.iter().map(|t| t.id).collect();
    assert_eq!(ids, vec![1]);
    assert_eq!(s.talk.turn_id, 2);
}

#[test]
fn a_reference_is_looked_up_once_at_a_time() {
    let mut s = Session::new();
    assert_eq!(s.verify.start(), None);
    s.verify.input = " Wang 2022 ".to_string();
    assert_eq!(s.verify.start().as_deref(), Some(" Wang 2022 "));
    assert_eq!(s.verify.start(), None);
    let m = RefMatch {
        found: true,
        confidence: 80,
        title: "T".to_string(),
        doi: String::new(),
        authors: String::new(),
        year: String::new(),
    };
    s.verify.finish(Some(m.clone()));
    assert_eq!(s.verify.result, Some(m));
    assert!(s.verify.start().is_some());
    assert_eq!(s.verify.result, None);
    s.verify.finish(None);
    assert_eq!(s.verify.result, None);
    assert!(!s.verify.running);
}

#[test]
fn a_draft_is_checked() {
    let mut s = Session::new();
    s.shelf.selected = "users/0::K".to_string();
    assert_eq!(s.submit_draft(), None);
    s.draft.picked("  ".to_string());
    assert_eq!(s.draft.input, "");
    s.draft.picked("A claim.".to_string());
    assert_eq!(
        s.submit_draft(),
        Some(("users/0".to_string(), "K".to_string(), "A claim.".to_string()))
    );
    assert!(s.draft.running);
    assert_eq!(s.status, "Indexing…");
    assert_eq!(s.submit_draft(), None);
    s.draft_failed(None);
    assert!(!s.draft.running);
    assert_eq!(s.status, "Could not start the draft check.");
}

#[test]
fn consent_comes_before_feedback() {
    let mut s = Session::new();
    s.opinion.field = "botany".to_string();
    assert_eq!(s.opinion.rate("up".to_string()), None);
    assert!(s.opinion.asking && !s.opinion.rated);
    assert_eq!(
        s.opinion.decide_consent(false),
        Feedback { rating: "up".to_string(), field: "botany".to_string(), consent: false }
    );
    assert!(!s.opinion.asking && s.opinion.rated);
    assert_eq!(
        s.opinion.rate("down".to_string()),
        Some(Feedback { rating: "down".to_string(), field: "botany".to_string(), consent: false })
    );
}

#[test]
fn a_conversation_is_saved_as_a_note() {
    let mut s = Session::new();
    assert_eq!(s.save_note("now"), None);
    s.talk.asked = "q".to_string();
    s.talk.answer = "a".to_string();
    assert_eq!(
        s.save_note("now").as_deref(),
        Some(
            "<p><b>📄 PaperDock</b> — research notes</p><hr><h3>q</h3><p>a</p>\
             <hr><p><i>Captured with PaperDock · now</i></p>"
        )
    );
    s.saved_link = "old".to_string();
    s.saving();
    assert_eq!(s.saved_link, "");
    assert_eq!(s.toast, "Saving to Zotero…");
    let note = |is_group| SavedNote {
        location: "Lab".to_string(),
        is_group,
        link: "zotero://x".to_string(),
    };
    s.saved(Saving::Saved(note(false)));
    assert_eq!(s.toast, "Saved to Zotero → Lab ✓");
    assert_eq!(s.saved_link, "zotero://x");
    s.saved(Saving::Saved(note(true)));
    assert_eq!(s.toast, "Saved to Zotero → Lab · a shared group; move it if you want it private.");
    s.saved(Saving::SomewhereSaved);
    assert_eq!(s.toast, "Saved to Zotero.");
    s.saved(Saving::Failed(None));
    assert_eq!(s.toast, "Could not save to Zotero — is it open?");
    s.saved(Saving::Failed(Some("locked".to_string())));
    assert_eq!(s.toast, "locked");
}

#[test]
fn events_keep_their_meaning_on_the_way() {
    let text = |s: &str| s.to_string();
    assert_eq!(answer_wire(AnswerEvent::Status { text: text("x") }), said("status", "x"));
    assert_eq!(answer_wire(AnswerEvent::Token { text: text("x") }), said("token", "x"));
    assert_eq!(
        answer_wire(AnswerEvent::References { items: vec![reference("W")] }),
        WireEvent { items: Some(vec![reference("W")]), ..event("references") }
    );
    assert_eq!(answer_wire(AnswerEvent::Notice { message: text("x") }), messaged("notice", "x"));
    assert_eq!(
        answer_wire(AnswerEvent::Draft { claims: vec![] }),
        WireEvent { claims: Some(vec![]), ..event("draft") }
    );
    assert_eq!(answer_wire(AnswerEvent::Done), event("done"));
    assert_eq!(answer_wire(AnswerEvent::Error { message: text("x") }), messaged("error", "x"));
    assert_eq!(setup_wire(SetupEvent::Status { message: text("x") }), messaged("status", "x"));
    assert_eq!(setup_wire(SetupEvent::Done), event("done"));
    assert_eq!(setup_wire(SetupEvent::Error { message: text("x") }), messaged("error", "x"));
}

#[test]
fn the_window_follows_the_engine() {
    let mut s = asking("q");
    s.submit();
    s.on_answer(answer_wire(AnswerEvent::Token { text: "a".to_string() }));
    assert!(s.talk.streaming);
    s.on_answer(answer_wire(AnswerEvent::Error { message: "broken".to_string() }));
    assert!(!s.talk.streaming);
    assert_eq!(s.status, "broken");
}
