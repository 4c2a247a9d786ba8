use paperdock::sidecar::RefItem;
use paperdock::thread::{esc, history_text, note_html, note_plain, round_html, round_plain, Turn};

fn reference(citation: &str) -> RefItem {
    RefItem { item_key: "K".to_string(), citation: citation.to_string(), passages: vec![] }
}

fn turn(id: usize, question: &str, answer: &str) -> Turn {
    Turn {
        id,
        question: question.to_string(),
        answer: answer.to_string(),
        refs: vec![reference("Wang 2022"), reference("A & B")],
    }
}

#[test]
fn the_last_two_turns_go_with_a_question() {
    assert_eq!(history_text(&vec![]), "");
    assert_eq!(history_text(&vec![turn(0, "q", "a")]), "Q: q\nA: a\n\n");
    let three = vec![turn(0, "q0", "a0"), turn(1, "q1", "a1"), turn(2, "q2", "a2")];
    assert_eq!(history_text(&three), "Q: q1\nA: a1\n\nQ: q2\nA: a2\n\n");
}

#[test]
fn long_answers_are_cut_short() {
    let long = "é".repeat(401);
    let expected = format!("Q: q\nA: {}…\n\n", "é".repeat(400));
    assert_eq!(history_text(&vec![turn(0, "q", &long)]), expected);
    let fits = "é".repeat(400);
    assert_eq!(history_text(&vec![turn(0, "q", &fits)]), format!("Q: q\nA: {fits}\n\n"));
    assert_eq!(history_text(&vec![turn(0, "q", &long)]).chars().count(), 1 + 410);
}

#[test]
fn html_is_escaped() {
    for s in ["", "a < b && c > d", "<script>&lt;</script>", "plain"] {
        let expected = s.replace('&', "&amp;").replace('<', "&lt;").replace('>', "&gt;");
        assert_eq!(esc(s), expected);
        assert!(!esc(s).contains('<') && !esc(s).contains('>'));
    }
    assert_eq!(esc("plain"), "plain");
}

#[test]
fn a_turn_is_written_in_html() {
    let t = turn(0, " Why <x>? ", " One.\n\n\n\n Two & three. \n\n");
    assert_eq!(
        round_html(&t.question, &t.answer, &t.refs),
        "<h3>Why &lt;x&gt;?</h3><p>One.</p><p>Two &amp; three.</p><p><b>Sources:</b> Wang 2022 · A &amp; B</p>"
    );
    assert_eq!(round_html("q", "a", &vec![]), "<h3>q</h3><p>a</p>");
    assert_eq!(round_html("q", " ", &vec![]), "<h3>q</h3>");
}

#[test]
fn a_turn_is_written_in_plain_text() {
    let t = turn(0, " Why? ", " Because. ");
    assert_eq!(
        round_plain(&t.question, &t.answer, &t.refs),
        "## Why?\n\nBecause.\nSources: Wang 2022 · A & B\n"
    );
    assert_eq!(round_plain("q", "a", &vec![]), "## q\n\na\n");
}

#[test]
fn a_note_keeps_every_turn() {
    let past = vec![turn(0, "q0", "a0"), turn(1, "q1", "a1")];
    let note = note_html(&past, "q2", "a2", &vec![], "1/2/2026 <noon>");
    assert!(note.starts_with("<p><b>📄 PaperDock</b> — research notes</p><hr><h3>q0</h3><p>a0</p>"));
    assert!(note.contains("<h3>q1</h3><p>a1</p>"));
    assert!(note.ends_with(
        "<h3>q2</h3><p>a2</p><hr><p><i>Captured with PaperDock · 1/2/2026 &lt;noon&gt;</i></p>"
    ));
    let note = note_html(&past, "q2", "  ", &vec![], "");
    assert!(!note.contains("q2"));
    assert_eq!(
        note_plain(&vec![turn(0, "q0", "a0")], "q1", "a1", &vec![]),
        "# PaperDock — research notes\n\n## q0\n\na0\nSources: Wang 2022 · A & B\n\n## q1\n\na1\n"
    );
    assert_eq!(note_plain(&vec![], "q", "", &vec![]), "# PaperDock — research notes\n\n");
}
