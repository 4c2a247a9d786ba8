use paperdock::ask::{
    cache_fault, coverage_report, index_scope, list_collection_papers, make_request, prepare,
    target_docs, PaperRef, Task,
};
use paperdock::config::Config;
use paperdock::sidecar::{AnswerEvent, WorkerCommand};
use paperdock::zotero::{CollectionDocs, DocRef};

fn doc(key: &str) -> DocRef {
    DocRef {
        path: format!("/{key}.pdf"),
        zotero_key: key.to_string(),
        citation: format!("{key} 2020"),
    }
}

fn found(docs: &[&str], skipped: &[&str]) -> CollectionDocs {
    CollectionDocs {
        docs: docs.iter().map(|k| doc(k)).collect(),
        skipped: skipped.iter().map(|s| s.to_string()).collect(),
    }
}

fn check(source: Option<&str>) -> Task {
    Task::check(
        "users/0".to_string(),
        "K".to_string(),
        "claim".to_string(),
        source.map(|s| s.to_string()),
    )
}

#[test]
fn tasks_say_what_to_do() {
    let t = Task::ask("users/0".to_string(), "K".to_string(), "q".to_string(), None);
    assert_eq!(t.command, WorkerCommand::Ask);
    assert_eq!(t.history, "");
    assert_eq!(t.source, None);
    let t = Task::ask("users/0".to_string(), "K".to_string(), "q".to_string(), Some("h".to_string()));
    assert_eq!(t.history, "h");
    assert_eq!(check(Some("A")).source.as_deref(), Some("A"));
    assert_eq!(check(Some("")).source, None);
    assert_eq!(check(Some(" ")).source.as_deref(), Some(" "));
    assert_eq!(check(None).question, "claim");
    let t = Task::index_collection("groups/1".to_string(), "K".to_string());
    assert_eq!(t.command, WorkerCommand::Index);
    assert_eq!(t.question, "");
}

#[test]
fn a_source_narrows_the_papers() {
    let docs = || vec![doc("A"), doc("B"), doc("A")];
    assert_eq!(target_docs(docs(), &None), docs());
    assert_eq!(target_docs(docs(), &Some("A".to_string())), vec![doc("A"), doc("A")]);
    assert_eq!(target_docs(docs(), &Some("C".to_string())), vec![]);
}

#[test]
fn no_paper_means_no_job() {
    let p = prepare(&check(None), found(&[], &[]));
    assert!(!p.proceed);
    assert_eq!(
        p.tell,
        Some(AnswerEvent::Error { message: "No PDFs found in this collection.".to_string() })
    );
    let p = prepare(&check(None), found(&[], &["x", "y"]));
    assert_eq!(
        p.tell,
        Some(AnswerEvent::Error {
            message: "None of the 2 papers have a PDF downloaded. Open them in Zotero and sync/download the PDFs, then try again.".to_string()
        })
    );
    let p = prepare(&check(Some("C")), found(&["A"], &[]));
    assert!(!p.proceed);
}

#[test]
fn a_narrowed_answer_is_announced() {
    let p = prepare(&check(None), found(&["A", "B"], &[]));
    assert!(p.proceed);
    assert_eq!(p.tell, None);
    assert_eq!(p.docs, vec![doc("A"), doc("B")]);
    let p = prepare(&check(None), found(&["A"], &["x", "y"]));
    assert!(p.proceed);
    assert_eq!(
        p.tell,
        Some(AnswerEvent::Notice {
            message: "Answering from 1 of 3 papers — 2 have no PDF downloaded: x, y".to_string()
        })
    );
}

#[test]
fn only_six_missing_papers_are_named() {
    let six = found(&["A"], &["1", "2", "3", "4", "5", "6"]);
    assert_eq!(
        coverage_report(&six),
        Some(AnswerEvent::Notice {
            message: "Answering from 1 of 7 papers — 6 have no PDF downloaded: 1, 2, 3, 4, 5, 6".to_string()
        })
    );
    let eight = found(&["A", "B"], &["1", "2", "3", "4", "5", "6", "7", "8"]);
    assert_eq!(
        coverage_report(&eight),
        Some(AnswerEvent::Notice {
            message: "Answering from 2 of 10 papers — 8 have no PDF downloaded: 1, 2, 3, 4, 5, 6, +2 more".to_string()
        })
    );
}

#[test]
fn indexes_keep_apart() {
    assert_eq!(index_scope("users/0", "K"), "users_0_K");
    assert_eq!(index_scope("groups/1234567", "__all__"), "groups_1234567___all__");
    assert_ne!(index_scope("groups/1", "2_K"), index_scope("groups/12", "K"));
    assert_ne!(index_scope("groups/007", "K"), index_scope("groups/7", "K"));
    assert_ne!(index_scope("users/0", "K"), index_scope("groups/0", "K"));
    assert!(index_scope("groups/7", "K").starts_with("groups_"));
    assert!(!index_scope("users/0", "groups_K").starts_with("groups_"));
}

#[test]
fn the_papers_of_a_collection_can_be_chosen_from() {
    assert_eq!(
        list_collection_papers(&found(&["A", "B"], &["x"])),
        vec![
            PaperRef { key: "A".to_string(), citation: "A 2020".to_string() },
            PaperRef { key: "B".to_string(), citation: "B 2020".to_string() },
        ]
    );
}

#[test]
fn a_request_carries_the_settings() {
    let mut settings = Config::default_under(None);
    settings.api_key = Some("k".to_string());
    settings.qdrant_url = Some("u".to_string());
    settings.qdrant_api_key = Some("qk".to_string());
    let r = make_request(&check(Some("A")), &settings, vec![doc("A")], 17, "/c".to_string());
    assert_eq!(r.id, "q17");
    assert_eq!(r.command, WorkerCommand::Check);
    assert_eq!(r.question, "claim");
    assert_eq!(r.history, "");
    assert_eq!(r.model, "gpt-4o");
    assert_eq!(r.embedding, "text-embedding-3-small");
    assert_eq!(r.api_base, "");
    assert_eq!(r.api_key, "k");
    assert_eq!(r.qdrant_url, "u");
    assert_eq!(r.qdrant_key, "qk");
    assert_eq!(r.collection_key, "users_0_K");
    assert_eq!(r.cache_dir, "/c");
    assert_eq!(r.docs, vec![doc("A")]);
    assert_eq!(cache_fault("gone"), "Could not resolve cache directory: gone");
}
