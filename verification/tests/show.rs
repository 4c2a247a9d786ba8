use paperdock::reference::RefMatch;
use paperdock::session::Session;
use paperdock::show::{count_verdict, legend, width, AnswerArea, MatchShown, RatingPanel, Verdict};
use paperdock::sidecar::{DraftItem, Passage, RefItem};

fn item(verdict: &str) -> DraftItem {
    DraftItem { claim: "c".to_string(), verdict: verdict.to_string(), detail: String::new() }
}

fn found(confidence: u8) -> RefMatch {
    RefMatch {
        found: true,
        confidence,
        title: "T".to_string(),
        doi: "10.1/x".to_string(),
        authors: "A, B".to_string(),
        year: "2017".to_string(),
    }
}

#[test]
fn the_place_of_the_answer_is_never_blank() {
    let hint = |s: &str| AnswerArea::Hint(s.to_string());
    let mut s = Session::new();
    assert_eq!(s.answer_area(), hint("Ask a question to get a cited answer from your papers."));
    s.status = "Indexed ✓".to_string();
    assert_eq!(s.answer_area(), hint("Ask a question to get a cited answer from your papers."));
    s.status = "No PDFs found in this collection.".to_string();
    assert_eq!(s.answer_area(), hint("No PDFs found in this collection."));
    s.talk.streaming = true;
    s.status = "Indexed ✓".to_string();
    assert_eq!(s.answer_area(), hint("Indexed ✓"));
    assert!(s.talk.is_waiting());
    s.talk.answer = "A".to_string();
    assert_eq!(s.answer_area(), AnswerArea::Answer("A".to_string()));
    assert!(!s.talk.is_waiting());
}

#[test]
fn a_complete_answer_can_be_rated() {
    let mut s = Session::new();
    assert_eq!(s.rating_panel(), None);
    assert!(!s.talk.has_begun());
    s.talk.answer = "A".to_string();
    assert!(s.talk.has_begun());
    s.talk.streaming = true;
    assert_eq!(s.rating_panel(), None);
    s.talk.streaming = false;
    assert_eq!(s.rating_panel(), Some(RatingPanel::Question));
    s.opinion.asking = true;
    assert_eq!(s.rating_panel(), Some(RatingPanel::Consent));
    s.opinion.rated = true;
    assert_eq!(s.rating_panel(), Some(RatingPanel::Thanks));
}

#[test]
fn a_source_that_is_gone_gives_way_to_the_last() {
    let mut s = Session::new();
    assert_eq!(s.talk.shown_source(), None);
    let r = RefItem { item_key: "K".to_string(), citation: "c".to_string(), passages: vec![] };
    s.talk.refs = vec![r.clone(), r];
    s.talk.active_source = 1;
    assert_eq!(s.talk.shown_source(), Some(1));
    s.talk.active_source = 9;
    assert_eq!(s.talk.shown_source(), Some(1));
}

#[test]
fn pages_are_shown_if_known() {
    let p = |page: &str| Passage { page: page.to_string(), snippet: String::new() };
    assert_eq!(p("4").page_label().as_deref(), Some("p. 4"));
    assert_eq!(p("").page_label(), None);
}

#[test]
fn matches_are_judged() {
    assert_eq!(
        found(55).shown(),
        MatchShown {
            ok: true,
            verdict: "Likely a real paper — matched in CrossRef".to_string(),
            work: "T  ·  A, B (2017)  ·  DOI 10.1/x".to_string(),
        }
    );
    let weak = found(54).shown();
    assert!(!weak.ok);
    assert_eq!(
        weak.verdict,
        "Weak match (54% overlap) — CrossRef's closest paper may not be the one you cited; verify, it could be fabricated."
    );
    let none = RefMatch { found: false, ..found(99) }.shown();
    assert!(!none.ok);
    assert_eq!(none.verdict, "No match in CrossRef — this reference may be fabricated. Double-check it.");
    assert_eq!(none.work, "");
}

#[test]
fn verdicts_are_counted() {
    let items = vec![
        item("SUPPORTED"),
        item("NOT SUPPORTED"),
        item("SUPPORTED"),
        item("PARTIALLY SUPPORTED"),
        item("INSUFFICIENT EVIDENCE"),
        item("who knows"),
    ];
    assert_eq!(count_verdict(&items, Verdict::Supported), 2);
    assert_eq!(count_verdict(&items, Verdict::Partial), 1);
    assert_eq!(count_verdict(&items, Verdict::Unsupported), 1);
    assert_eq!(count_verdict(&items, Verdict::Insufficient), 1);
    let all = [Verdict::Supported, Verdict::Partial, Verdict::Unsupported, Verdict::Insufficient];
    let counted: usize = all.iter().map(|v| count_verdict(&items, *v)).sum();
    assert_eq!(counted, items.len() - 1);
    assert_eq!(items[5].shown_verdict(), Verdict::Insufficient);
    assert_eq!(items[3].shown_verdict(), Verdict::Partial);
    assert_eq!(items[1].shown_verdict(), Verdict::Unsupported);
    assert_eq!(items[0].shown_verdict(), Verdict::Supported);
    assert_eq!(width(2, 6), "width:33%");
    assert_eq!(width(0, 0), "width:0%");
    assert_eq!(legend(2, Verdict::Supported), "2 supported");
    assert_eq!(legend(0, Verdict::Partial), "0 partial");
    assert_eq!(legend(1, Verdict::Unsupported), "1 unsupported");
    assert_eq!(legend(10, Verdict::Insufficient), "10 insufficient");
}
