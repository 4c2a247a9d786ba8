//! The conversation: its turns, what of them goes with the next question, and the
//! note that they make.

use crate::sidecar::{RefItem, RefItemView};
use crate::text;
use vstd::prelude::*;

verus! {

// ---- turns ----------------------------------------------------------------

/// A question that was answered.
#[derive(Debug, PartialEq, Eq)]
pub struct Turn {
    pub id: usize,
    pub question: String,
    pub answer: String,
    pub refs: Vec<RefItem>,
}

#[verifier::ext_equal]
pub struct TurnView {
    pub id: usize,
    pub question: Seq<char>,
    pub answer: Seq<char>,
    pub refs: Seq<RefItemView>,
}

impl DeepView for Turn {
    type V = TurnView;

    open spec fn deep_view(&self) -> TurnView {
        TurnView {
            id: self.id,
            question: self.question@,
            answer: self.answer@,
            refs: self.refs.deep_view(),
        }
    }
}

/// A copy of a series of references.
pub fn copy_refs(refs: &Vec<RefItem>) -> (r: Vec<RefItem>)
    ensures
        r.deep_view() == refs.deep_view(),
{
    let mut r: Vec<RefItem> = Vec::new();
    let mut i: usize = 0;
    while i < refs.len()
        invariant
            i == r@.len(),
            i <= refs@.len(),
            forall|k: int| 0 <= k < i ==> (#[trigger] r@[k]).deep_view() == refs@[k].deep_view(),
        decreases refs@.len() - i,
    {
        r.push(refs[i].clone());
        i = i + 1;
    }
    assert(r.deep_view() =~= refs.deep_view());
    r
}

impl Clone for Turn {
    fn clone(&self) -> (r: Self)
        ensures
            r.deep_view() == self.deep_view(),
    {
        Turn {
            id: self.id,
            question: self.question.clone(),
            answer: self.answer.clone(),
            refs: copy_refs(&self.refs),
        }
    }
}

/// Every turn has an id of its own, lower than those of the turns after it and
/// than the one to come.
pub open spec fn in_order(turns: Seq<TurnView>, next_id: usize) -> bool {
    &&& forall|i: int, j: int| 0 <= i < j < turns.len() ==> turns[i].id < turns[j].id
    &&& forall|i: int| 0 <= i < turns.len() ==> (#[trigger] turns[i]).id < next_id
}

// ---- context for the next question ----------------------------------------

/// How many turns go with the next question.
pub const TURNS_KEPT: usize = 2;

/// How much of an answer goes with the next question, in characters.
pub const ANSWER_KEPT: usize = 400;

/// A turn as it goes with the next question. A long answer is cut short.
pub open spec fn quoted(turn: TurnView) -> Seq<char> {
    "Q: "@ + turn.question + "\nA: "@ + text::clipped(turn.answer, ANSWER_KEPT as nat) + (
    if turn.answer.len() > ANSWER_KEPT {
        "…"@
    } else {
        ""@
    }) + "\n\n"@
}

/// Turns as they go with the next question.
pub open spec fn quotes(turns: Seq<TurnView>) -> Seq<char>
    decreases turns.len(),
{
    if turns.len() == 0 {
        Seq::empty()
    } else {
        quotes(turns.drop_last()) + quoted(turns.last())
    }
}

/// The turns that go with the next question.
pub open spec fn recent(turns: Seq<TurnView>) -> Seq<TurnView> {
    if turns.len() <= TURNS_KEPT {
        turns
    } else {
        turns.skip(turns.len() - TURNS_KEPT)
    }
}

fn push_quoted(out: &mut String, turn: &Turn)
    ensures
        final(out)@ == old(out)@ + quoted(turn.deep_view()),
{
    let ghost before = out@;
    out.append("Q: ");
    out.append(turn.question.as_str());
    out.append("\nA: ");
    let start = text::clip(turn.answer.as_str(), ANSWER_KEPT);
    out.append(start.as_str());
    let chars = text::chars_of(turn.answer.as_str());
    if chars.len() > ANSWER_KEPT {
        out.append("…");
    } else {
        out.append("");
    }
    out.append("\n\n");
    assert(out@ =~= before + quoted(turn.deep_view()));
}

/// What of the conversation goes with the next question: the last turns, short
/// enough for it not to grow without bound.
pub fn history_text(turns: &Vec<Turn>) -> (r: String)
    ensures
        r@ == quotes(recent(turns.deep_view())),
{
    let ghost all = turns.deep_view();
    let ghost kept = recent(all);
    let from: usize = if turns.len() <= TURNS_KEPT {
        0
    } else {
        turns.len() - TURNS_KEPT
    };
    let mut r = String::new();
    let mut i: usize = from;
    assert(kept =~= all.skip(from as int));
    assert(kept.take(0).len() == 0);
    while i < turns.len()
        invariant
            from <= i <= turns@.len(),
            all == turns.deep_view(),
            kept == all.skip(from as int),
            r@ == quotes(kept.take(i - from)),
        decreases turns@.len() - i,
    {
        assert(kept.take(i - from + 1).drop_last() =~= kept.take(i - from));
        assert(kept.take(i - from + 1).last() == turns@[i as int].deep_view());
        push_quoted(&mut r, &turns[i]);
        i = i + 1;
    }
    assert(kept.take(kept.len() as int) =~= kept);
    r
}

// ---- notes ----------------------------------------------------------------

/// A character as it is written in HTML.
pub open spec fn escape(c: char) -> Seq<char> {
    if c == '&' {
        "&amp;"@
    } else if c == '<' {
        "&lt;"@
    } else if c == '>' {
        "&gt;"@
    } else {
        seq![c]
    }
}

/// A text as it is written in HTML.
pub open spec fn escaped(s: Seq<char>) -> Seq<char>
    decreases s.len(),
{
    if s.len() == 0 {
        Seq::empty()
    } else {
        escaped(s.drop_last()) + escape(s.last())
    }
}

/// A text as it is written in HTML.
pub fn esc(s: &str) -> (r: String)
    ensures
        r@ == escaped(s@),
{
    let chars = text::chars_of(s);
    let mut r = String::new();
    let mut i: usize = 0;
    while i < chars.len()
        invariant
            i <= chars@.len(),
            chars@ == s@,
            r@ == escaped(s@.take(i as int)),
        decreases chars@.len() - i,
    {
        assert(s@.take(i + 1).drop_last() =~= s@.take(i as int));
        let c = chars[i];
        if c == '&' {
            r.append("&amp;");
        } else if c == '<' {
            r.append("&lt;");
        } else if c == '>' {
            r.append("&gt;");
        } else {
            r.push(c);
            assert(r@ =~= escaped(s@.take(i as int)) + seq![c]);
        }
        i = i + 1;
    }
    assert(s@.take(s@.len() as int) =~= s@);
    r
}

/// The paragraphs among the parts of an answer, in HTML. Blank parts are none.
pub open spec fn paragraphs(parts: Seq<Seq<char>>) -> Seq<char>
    decreases parts.len(),
{
    if parts.len() == 0 {
        Seq::empty()
    } else {
        let before = paragraphs(parts.drop_last());
        if text::is_blank(parts.last()) {
            before
        } else {
            before + "<p>"@ + escaped(text::trimmed(parts.last())) + "</p>"@
        }
    }
}

/// The citations of a series of references.
pub open spec fn citations(refs: Seq<RefItemView>) -> Seq<Seq<char>> {
    Seq::new(refs.len(), |i: int| refs[i].citation)
}

/// Texts as they are written in HTML.
pub open spec fn all_escaped(texts: Seq<Seq<char>>) -> Seq<Seq<char>> {
    Seq::new(texts.len(), |i: int| escaped(texts[i]))
}

/// A turn in HTML: the question, the paragraphs of the answer, and a line of
/// sources if there are any.
pub open spec fn turn_html(question: Seq<char>, answer: Seq<char>, refs: Seq<RefItemView>) -> Seq<
    char,
> {
    "<h3>"@ + escaped(text::trimmed(question)) + "</h3>"@ + paragraphs(
        text::parted(text::trimmed(answer), "\n\n"@),
    ) + (if refs.len() == 0 {
        Seq::empty()
    } else {
        "<p><b>Sources:</b> "@ + text::joined(all_escaped(citations(refs)), " · "@) + "</p>"@
    })
}

/// A turn in plain text.
pub open spec fn turn_plain(question: Seq<char>, answer: Seq<char>, refs: Seq<RefItemView>) -> Seq<
    char,
> {
    "## "@ + text::trimmed(question) + "\n\n"@ + text::trimmed(answer) + "\n"@ + (if refs.len()
        == 0 {
        Seq::empty()
    } else {
        "Sources: "@ + text::joined(citations(refs), " · "@) + "\n"@
    })
}

fn push_paragraphs(out: &mut String, answer: &str)
    ensures
        final(out)@ == old(out)@ + paragraphs(text::parted(text::trimmed(answer@), "\n\n"@)),
{
    let ghost start = out@;
    let whole = text::trim(answer);
    proof {
        reveal_strlit("\n\n");
    }
    let parts = text::part(whole.as_str(), "\n\n");
    let ghost all = parts.deep_view();
    let mut i: usize = 0;
    assert(start + paragraphs(all.take(0)) =~= start);
    while i < parts.len()
        invariant
            i <= parts@.len(),
            all == parts.deep_view(),
            out@ == start + paragraphs(all.take(i as int)),
        decreases parts@.len() - i,
    {
        assert(all.take(i + 1).drop_last() =~= all.take(i as int));
        let p = text::trim(parts[i].as_str());
        if !p.as_str().is_empty() {
            out.append("<p>");
            let e = esc(p.as_str());
            out.append(e.as_str());
            out.append("</p>");
        }
        assert(out@ =~= start + paragraphs(all.take(i + 1)));
        i = i + 1;
    }
    assert(all.take(all.len() as int) =~= all);
}

fn list_citations(refs: &Vec<RefItem>) -> (r: Vec<String>)
    ensures
        r.deep_view() == citations(refs.deep_view()),
{
    let mut r: Vec<String> = Vec::new();
    let mut i: usize = 0;
    while i < refs.len()
        invariant
            i == r@.len(),
            i <= refs@.len(),
            forall|k: int| 0 <= k < i ==> (#[trigger] r@[k])@ == refs@[k].citation@,
        decreases refs@.len() - i,
    {
        r.push(refs[i].citation.clone());
        i = i + 1;
    }
    assert(r.deep_view() =~= citations(refs.deep_view()));
    r
}

fn escape_all(texts: &Vec<String>) -> (r: Vec<String>)
    ensures
        r.deep_view() == all_escaped(texts.deep_view()),
{
    let mut r: Vec<String> = Vec::new();
    let mut i: usize = 0;
    while i < texts.len()
        invariant
            i == r@.len(),
            i <= texts@.len(),
            forall|k: int| 0 <= k < i ==> (#[trigger] r@[k])@ == escaped(texts@[k]@),
        decreases texts@.len() - i,
    {
        r.push(esc(texts[i].as_str()));
        i = i + 1;
    }
    assert(r.deep_view() =~= all_escaped(texts.deep_view()));
    r
}

/// A turn in HTML.
pub fn round_html(question: &str, answer: &str, refs: &Vec<RefItem>) -> (r: String)
    ensures
        r@ == turn_html(question@, answer@, refs.deep_view()),
{
    let mut r = "<h3>".to_string();
    let q = text::trim(question);
    let q = esc(q.as_str());
    r.append(q.as_str());
    r.append("</h3>");
    push_paragraphs(&mut r, answer);
    if refs.len() > 0 {
        let cites = escape_all(&list_citations(refs));
        let line = text::join(&cites, " · ");
        r.append("<p><b>Sources:</b> ");
        r.append(line.as_str());
        r.append("</p>");
    }
    assert(r@ =~= turn_html(question@, answer@, refs.deep_view()));
    r
}

/// A turn in plain text.
pub fn round_plain(question: &str, answer: &str, refs: &Vec<RefItem>) -> (r: String)
    ensures
        r@ == turn_plain(question@, answer@, refs.deep_view()),
{
    let mut r = "## ".to_string();
    let q = text::trim(question);
    r.append(q.as_str());
    r.append("\n\n");
    let a = text::trim(answer);
    r.append(a.as_str());
    r.append("\n");
    if refs.len() > 0 {
        let line = text::join(&list_citations(refs), " · ");
        r.append("Sources: ");
        r.append(line.as_str());
        r.append("\n");
    }
    assert(r@ =~= turn_plain(question@, answer@, refs.deep_view()));
    r
}

/// Turns in HTML.
pub open spec fn turns_html(turns: Seq<TurnView>) -> Seq<char>
    decreases turns.len(),
{
    if turns.len() == 0 {
        Seq::empty()
    } else {
        let t = turns.last();
        turns_html(turns.drop_last()) + turn_html(t.question, t.answer, t.refs)
    }
}

/// Turns in plain text, each with a blank line after it.
pub open spec fn turns_plain(turns: Seq<TurnView>) -> Seq<char>
    decreases turns.len(),
{
    if turns.len() == 0 {
        Seq::empty()
    } else {
        let t = turns.last();
        turns_plain(turns.drop_last()) + turn_plain(t.question, t.answer, t.refs) + "\n"@
    }
}

/// The note on a conversation, in HTML: the turns so far, and the current one if it
/// has an answer.
pub open spec fn note_of(
    turns: Seq<TurnView>,
    question: Seq<char>,
    answer: Seq<char>,
    refs: Seq<RefItemView>,
    when: Seq<char>,
) -> Seq<char> {
    "<p><b>📄 PaperDock</b> — research notes</p><hr>"@ + turns_html(turns) + (
    if text::is_blank(answer) {
        Seq::empty()
    } else {
        turn_html(question, answer, refs)
    }) + "<hr><p><i>Captured with PaperDock · "@ + escaped(when) + "</i></p>"@
}

/// The note on a conversation, in plain text.
pub open spec fn plain_note_of(
    turns: Seq<TurnView>,
    question: Seq<char>,
    answer: Seq<char>,
    refs: Seq<RefItemView>,
) -> Seq<char> {
    "# PaperDock — research notes\n\n"@ + turns_plain(turns) + (if text::is_blank(answer) {
        Seq::empty()
    } else {
        turn_plain(question, answer, refs)
    })
}

/// The note on a conversation, in HTML.
pub fn note_html(
    turns: &Vec<Turn>,
    question: &str,
    answer: &str,
    refs: &Vec<RefItem>,
    when: &str,
) -> (r: String)
    ensures
        r@ == note_of(turns.deep_view(), question@, answer@, refs.deep_view(), when@),
{
    let ghost all = turns.deep_view();
    let ghost head = "<p><b>📄 PaperDock</b> — research notes</p><hr>"@;
    let mut r = "<p><b>📄 PaperDock</b> — research notes</p><hr>".to_string();
    let mut i: usize = 0;
    assert(head + turns_html(all.take(0)) =~= head);
    while i < turns.len()
        invariant
            i <= turns@.len(),
            all == turns.deep_view(),
            r@ == head + turns_html(all.take(i as int)),
        decreases turns@.len() - i,
    {
        assert(all.take(i + 1).drop_last() =~= all.take(i as int));
        let t = round_html(turns[i].question.as_str(), turns[i].answer.as_str(), &turns[i].refs);
        r.append(t.as_str());
        assert(r@ =~= head + turns_html(all.take(i + 1)));
        i = i + 1;
    }
    assert(all.take(all.len() as int) =~= all);
    if !text::blank(answer) {
        let t = round_html(question, answer, refs);
        r.append(t.as_str());
    }
    r.append("<hr><p><i>Captured with PaperDock · ");
    let w = esc(when);
    r.append(w.as_str());
    r.append("</i></p>");
    assert(r@ =~= note_of(turns.deep_view(), question@, answer@, refs.deep_view(), when@));
    r
}

/// The note on a conversation, in plain text.
pub fn note_plain(turns: &Vec<Turn>, question: &str, answer: &str, refs: &Vec<RefItem>) -> (r:
    String)
    ensures
        r@ == plain_note_of(turns.deep_view(), question@, answer@, refs.deep_view()),
{
    let ghost all = turns.deep_view();
    let ghost head = "# PaperDock — research notes\n\n"@;
    let mut r = "# PaperDock — research notes\n\n".to_string();
    let mut i: usize = 0;
    assert(head + turns_plain(all.take(0)) =~= head);
    while i < turns.len()
        invariant
            i <= turns@.len(),
            all == turns.deep_view(),
            r@ == head + turns_plain(all.take(i as int)),
        decreases turns@.len() - i,
    {
        assert(all.take(i + 1).drop_last() =~= all.take(i as int));
        let t = round_plain(turns[i].question.as_str(), turns[i].answer.as_str(), &turns[i].refs);
        r.append(t.as_str());
        r.append("\n");
        assert(r@ =~= head + turns_plain(all.take(i + 1)));
        i = i + 1;
    }
    assert(all.take(all.len() as int) =~= all);
    if !text::blank(answer) {
        let t = round_plain(question, answer, refs);
        r.append(t.as_str());
    }
    assert(r@ =~= plain_note_of(turns.deep_view(), question@, answer@, refs.deep_view()));
    r
}

// ---- laws -----------------------------------------------------------------

/// What goes with the next question never grows beyond the last two questions and
/// 820 characters.
pub proof fn law_history_is_bounded(turns: Seq<TurnView>)
    ensures
        ({
            let n = turns.len();
            &&& n == 0 ==> quotes(recent(turns)).len() == 0
            &&& n == 1 ==> quotes(recent(turns)).len() <= turns[0].question.len() + 410
            &&& n >= 2 ==> quotes(recent(turns)).len() <= turns[n - 2].question.len()
                + turns[n - 1].question.len() + 820
        }),
{
    reveal_strlit("Q: ");
    reveal_strlit("\nA: ");
    reveal_strlit("…");
    reveal_strlit("");
    reveal_strlit("\n\n");
    let kept = recent(turns);
    assert forall|t: TurnView| #[trigger] quoted(t).len() <= t.question.len() + 410 by {}
    reveal_with_fuel(quotes, 3);
    if kept.len() == 2 {
        assert(kept.drop_last().drop_last() =~= Seq::empty());
        assert(kept[0] == turns[turns.len() - 2]);
        assert(kept[1] == turns[turns.len() - 1]);
        assert(kept.drop_last().last() == kept[0]);
    }
}

/// What goes with the next question depends on the last two turns alone.
pub proof fn law_old_turns_do_not_matter(before: Seq<TurnView>, a: TurnView, b: TurnView)
    ensures
        quotes(recent(before.push(a).push(b))) == quoted(a) + quoted(b),
{
    let turns = before.push(a).push(b);
    let kept = recent(turns);
    assert(kept =~= seq![a, b]);
    assert(kept.drop_last() =~= seq![a]);
    assert(seq![a].drop_last() =~= Seq::empty());
    reveal_with_fuel(quotes, 3);
    assert(quotes(kept) =~= quoted(a) + quoted(b));
}

/// Text that is written in HTML brings no tags with it.
pub proof fn law_escaped_text_has_no_tags(s: Seq<char>)
    ensures
        !escaped(s).contains('<'),
        !escaped(s).contains('>'),
    decreases s.len(),
{
    reveal_strlit("&amp;");
    reveal_strlit("&lt;");
    reveal_strlit("&gt;");
    if s.len() > 0 {
        law_escaped_text_has_no_tags(s.drop_last());
        let a = escaped(s.drop_last());
        let b = escape(s.last());
        assert forall|i: int| 0 <= i < escaped(s).len() implies escaped(s)[i] != '<' && escaped(
            s,
        )[i] != '>' by {
            if i < a.len() {
                assert(a.contains(a[i]));
            } else {
                assert(escaped(s)[i] == b[i - a.len()]);
            }
        }
    }
}

/// A plain text, with none of the characters that HTML uses, stays as it is.
pub proof fn law_plain_text_stays(s: Seq<char>)
    requires
        !s.contains('&'),
        !s.contains('<'),
        !s.contains('>'),
    ensures
        escaped(s) == s,
    decreases s.len(),
{
    if s.len() > 0 {
        let fewer = s.drop_last();
        assert forall|c: char| #[trigger] fewer.contains(c) implies s.contains(c) by {
            let i = choose|i: int| 0 <= i < fewer.len() && fewer[i] == c;
            assert(s[i] == c);
        }
        law_plain_text_stays(fewer);
        assert(s.contains(s.last()));
        assert(fewer + seq![s.last()] =~= s);
    }
}

/// `part` stands somewhere in `whole`.
pub open spec fn stands_in(part: Seq<char>, whole: Seq<char>) -> bool {
    exists|k: int|
        0 <= k <= whole.len() - part.len() && #[trigger] whole.subrange(k, k + part.len())
            == part
}

proof fn lemma_stands_within(part: Seq<char>, before: Seq<char>, whole: Seq<char>, after: Seq<char>)
    requires
        stands_in(part, whole),
    ensures
        stands_in(part, before + whole + after),
{
    let k = choose|k: int|
        0 <= k <= whole.len() - part.len() && #[trigger] whole.subrange(k, k + part.len()) == part;
    let all = before + whole + after;
    let at = before.len() + k;
    assert(all.subrange(at, at + part.len()) =~= whole.subrange(k, k + part.len()));
}

proof fn lemma_turn_in_turns(turns: Seq<TurnView>, i: int)
    requires
        0 <= i < turns.len(),
    ensures
        stands_in(
            turn_html(turns[i].question, turns[i].answer, turns[i].refs),
            turns_html(turns),
        ),
    decreases turns.len(),
{
    let t = turns[i];
    let html = turn_html(t.question, t.answer, t.refs);
    let last = turns.last();
    let end = turn_html(last.question, last.answer, last.refs);
    let fewer = turns_html(turns.drop_last());
    if i == turns.len() - 1 {
        let at = fewer.len() as int;
        assert((fewer + end).subrange(at, at + html.len()) =~= html);
    } else {
        lemma_turn_in_turns(turns.drop_last(), i);
        lemma_stands_within(html, Seq::empty(), fewer, end);
        assert(Seq::<char>::empty() + fewer + end =~= fewer + end);
    }
}

/// A note keeps every turn of the conversation, and the current one if it has an
/// answer.
pub proof fn law_note_keeps_every_turn(
    turns: Seq<TurnView>,
    question: Seq<char>,
    answer: Seq<char>,
    refs: Seq<RefItemView>,
    when: Seq<char>,
)
    ensures
        forall|i: int|
            0 <= i < turns.len() ==> stands_in(
                turn_html(
                    (#[trigger] turns[i]).question,
                    turns[i].answer,
                    turns[i].refs,
                ),
                note_of(turns, question, answer, refs, when),
            ),
        !text::is_blank(answer) ==> stands_in(
            turn_html(question, answer, refs),
            note_of(turns, question, answer, refs, when),
        ),
{
    let note = note_of(turns, question, answer, refs, when);
    let head = "<p><b>📄 PaperDock</b> — research notes</p><hr>"@;
    let foot = "<hr><p><i>Captured with PaperDock · "@ + escaped(when) + "</i></p>"@;
    let current = if text::is_blank(answer) {
        Seq::empty()
    } else {
        turn_html(question, answer, refs)
    };
    let past = turns_html(turns);
    assert(note =~= head + past + (current + foot));
    assert(note =~= (head + past) + current + foot);
    assert forall|i: int| 0 <= i < turns.len() implies stands_in(
        turn_html((#[trigger] turns[i]).question, turns[i].answer, turns[i].refs),
        note,
    ) by {
        lemma_turn_in_turns(turns, i);
        lemma_stands_within(
            turn_html(turns[i].question, turns[i].answer, turns[i].refs),
            head,
            past,
            current + foot,
        );
    }
    if !text::is_blank(answer) {
        assert(stands_in(current, current)) by {
            assert(current.subrange(0, 0int + current.len()) =~= current);
        }
        lemma_stands_within(current, head + past, current, foot);
    }
}

/// A question goes with the next one character for character, and so does an answer of up
/// to 400 characters; of a longer one the first 400 do, with a mark that it was cut.
pub proof fn law_turns_are_quoted_as_they_are(turn: TurnView)
    ensures
        turn.answer.len() <= 400 ==> quoted(turn) == "Q: "@ + turn.question + "\nA: "@
            + turn.answer + "\n\n"@,
        turn.answer.len() > 400 ==> quoted(turn) == "Q: "@ + turn.question + "\nA: "@
            + turn.answer.take(400) + "…"@ + "\n\n"@,
        quotes(recent(Seq::empty())) == Seq::<char>::empty(),
        quotes(recent(seq![turn])) == quoted(turn),
{
    reveal_strlit("");
    if turn.answer.len() <= 400 {
        assert(quoted(turn) =~= "Q: "@ + turn.question + "\nA: "@ + turn.answer + "\n\n"@);
    }
    let one = seq![turn];
    assert(one.drop_last() =~= Seq::empty());
    reveal_with_fuel(quotes, 2);
    assert(quotes(one) =~= quoted(turn));
}

/// A text is written in HTML character by character: '&', '<' and '>' by their names, and
/// every other character as it is.
pub proof fn law_escaping_goes_by_characters(a: Seq<char>, c: char, b: Seq<char>)
    ensures
        escaped(Seq::empty()) == Seq::<char>::empty(),
        escaped(a + b) == escaped(a) + escaped(b),
        escaped(a.push(c)) == escaped(a) + (if c == '&' {
            "&amp;"@
        } else if c == '<' {
            "&lt;"@
        } else if c == '>' {
            "&gt;"@
        } else {
            seq![c]
        }),
    decreases b.len(),
{
    assert(a.push(c).drop_last() =~= a);
    if b.len() == 0 {
        assert(a + b =~= a);
        assert(escaped(a) + escaped(b) =~= escaped(a));
    } else {
        law_escaping_goes_by_characters(a, c, b.drop_last());
        assert((a + b).drop_last() =~= a + b.drop_last());
        assert(escaped(a + b) =~= escaped(a) + escaped(b));
    }
}

/// The paragraphs of an answer: each part that is not blank in a paragraph of its own, all
/// of it, in order.
pub proof fn law_every_part_is_a_paragraph(parts: Seq<Seq<char>>, part: Seq<char>)
    ensures
        paragraphs(Seq::empty()) == Seq::<char>::empty(),
        text::is_blank(part) ==> paragraphs(parts.push(part)) == paragraphs(parts),
        !text::is_blank(part) ==> paragraphs(parts.push(part)) == paragraphs(parts) + "<p>"@
            + escaped(text::trimmed(part)) + "</p>"@,
{
    assert(parts.push(part).drop_last() =~= parts);
}

/// A note keeps the whole of an answer, however long it is: one without a blank line in it
/// stands, trimmed and escaped, in one paragraph right after the question.
pub proof fn law_an_answer_is_kept_whole(question: Seq<char>, answer: Seq<char>)
    requires
        !text::is_blank(answer),
        text::place_of(text::trimmed(answer), "\n\n"@) is None,
    ensures
        turn_html(question, answer, Seq::empty()) == "<h3>"@ + escaped(text::trimmed(question))
            + "</h3>"@ + "<p>"@ + escaped(text::trimmed(answer)) + "</p>"@,
{
    let whole = text::trimmed(answer);
    let parts = text::parted(whole, "\n\n"@);
    text::law_unmarked_text_is_one_part(whole, "\n\n"@);
    text::lemma_trimmed_twice(answer);
    assert(parts =~= Seq::empty().push(whole));
    law_every_part_is_a_paragraph(Seq::empty(), whole);
    assert(turn_html(question, answer, Seq::empty()) =~= "<h3>"@ + escaped(text::trimmed(question))
        + "</h3>"@ + "<p>"@ + escaped(whole) + "</p>"@);
}

proof fn lemma_paragraph_stands(parts: Seq<Seq<char>>, i: int)
    requires
        0 <= i < parts.len(),
        !text::is_blank(parts[i]),
    ensures
        stands_in("<p>"@ + escaped(text::trimmed(parts[i])) + "</p>"@, paragraphs(parts)),
    decreases parts.len(),
{
    let p = "<p>"@ + escaped(text::trimmed(parts[i])) + "</p>"@;
    let fewer = parts.drop_last();
    let before = paragraphs(fewer);
    if i == fewer.len() {
        let at = before.len() as int;
        assert(paragraphs(parts) =~= before + p);
        assert(paragraphs(parts).subrange(at, at + p.len()) =~= p);
    } else {
        lemma_paragraph_stands(fewer, i);
        if text::is_blank(parts.last()) {
            assert(paragraphs(parts) == before);
        } else {
            let last = "<p>"@ + escaped(text::trimmed(parts.last())) + "</p>"@;
            lemma_stands_within(p, Seq::empty(), before, last);
            assert(Seq::<char>::empty() + before + last =~= paragraphs(parts));
        }
    }
}

/// Whatever blank lines an answer has, each part between them that is not blank stands in
/// the turn, all of it, in a paragraph of its own.
pub proof fn law_every_part_of_an_answer_is_kept(
    question: Seq<char>,
    answer: Seq<char>,
    refs: Seq<RefItemView>,
    i: int,
)
    requires
        0 <= i < text::parted(text::trimmed(answer), "\n\n"@).len(),
        !text::is_blank(text::parted(text::trimmed(answer), "\n\n"@)[i]),
    ensures
        stands_in(
            "<p>"@ + escaped(text::trimmed(text::parted(text::trimmed(answer), "\n\n"@)[i]))
                + "</p>"@,
            turn_html(question, answer, refs),
        ),
{
    let parts = text::parted(text::trimmed(answer), "\n\n"@);
    let p = "<p>"@ + escaped(text::trimmed(parts[i])) + "</p>"@;
    let head = "<h3>"@ + escaped(text::trimmed(question)) + "</h3>"@;
    let foot = if refs.len() == 0 {
        Seq::empty()
    } else {
        "<p><b>Sources:</b> "@ + text::joined(all_escaped(citations(refs)), " · "@) + "</p>"@
    };
    lemma_paragraph_stands(parts, i);
    lemma_stands_within(p, head, paragraphs(parts), foot);
    assert(turn_html(question, answer, refs) =~= head + paragraphs(parts) + foot);
}

proof fn lemma_mark_before_the_end(a: Seq<char>, b: Seq<char>, k: int)
    requires
        a.len() > 0,
        !text::is_space(a.last()),
        0 <= k < a.len(),
    ensures
        "\n\n"@.is_prefix_of((a + "\n\n"@ + b).skip(k)) <==> "\n\n"@.is_prefix_of(a.skip(k)),
{
    reveal_strlit("\n\n");
    let mark = "\n\n"@;
    let whole = a + mark + b;
    if k + 1 < a.len() {
        assert(whole.skip(k).subrange(0, 2) =~= a.skip(k).subrange(0, 2));
    } else {
        assert(whole.skip(k)[0] == a.last());
        if mark.is_prefix_of(whole.skip(k)) {
            assert(whole.skip(k).subrange(0, 2)[0] == '\n');
        }
    }
}

proof fn lemma_mark_within(a: Seq<char>, b: Seq<char>)
    requires
        a.len() > 0,
        !text::is_space(a.last()),
    ensures
        match text::place_of(a, "\n\n"@) {
            Some(i) => text::place_of(a + "\n\n"@ + b, "\n\n"@) == Some(i) && i + 2 < a.len(),
            None => text::place_of(a + "\n\n"@ + b, "\n\n"@) == Some(a.len() as int),
        },
{
    reveal_strlit("\n\n");
    let mark = "\n\n"@;
    let whole = a + mark + b;
    text::lemma_place_of(a, mark);
    let n = a.len() as int;
    match text::place_of(a, mark) {
        Some(i) => {
            assert(a.skip(i).subrange(0, 2)[1] == '\n');
            assert(a[i + 1] == '\n');
            lemma_mark_before_the_end(a, b, i);
            assert forall|k: int| 0 <= k < i implies !mark.is_prefix_of(
                #[trigger] whole.skip(k),
            ) by {
                lemma_mark_before_the_end(a, b, k);
                assert(!mark.is_prefix_of(a.skip(k)));
            }
            text::lemma_first_place(whole, mark, i);
        },
        None => {
            assert(whole.skip(n).subrange(0, 2) =~= mark);
            assert forall|k: int| 0 <= k < n implies !mark.is_prefix_of(
                #[trigger] whole.skip(k),
            ) by {
                lemma_mark_before_the_end(a, b, k);
                assert(!mark.is_prefix_of(a.skip(k)));
            }
            text::lemma_first_place(whole, mark, n);
        },
    }
}

proof fn lemma_parts_of_two(a: Seq<char>, b: Seq<char>)
    requires
        a.len() > 0,
        !text::is_space(a.last()),
        text::place_of(b, "\n\n"@) is None,
        b.len() > 0,
        !text::is_space(b[0]),
    ensures
        text::parted(a + "\n\n"@ + b, "\n\n"@) == text::parted(a, "\n\n"@).push(b),
    decreases a.len(),
{
    reveal_strlit("\n\n");
    let mark = "\n\n"@;
    let whole = a + mark + b;
    lemma_mark_within(a, b);
    text::lemma_place_of(a, mark);
    match text::place_of(a, mark) {
        Some(i) => {
            let rest = a.skip(i + 2);
            assert(rest.last() == a.last());
            lemma_parts_of_two(rest, b);
            assert(whole.skip(i + 2) =~= rest + mark + b);
            assert(whole.take(i) =~= a.take(i));
            assert(text::parted(whole, mark) =~= text::parted(a, mark).push(b));
        },
        None => {
            let n = a.len() as int;
            assert(whole.skip(n + 2) =~= b);
            assert(whole.take(n) =~= a);
            assert(text::parted(b, mark) =~= seq![b]);
            assert(text::parted(whole, mark) =~= text::parted(a, mark).push(b));
        },
    }
}

/// What is said after a blank line is kept as well: it adds a paragraph of its own to those
/// that were there, whatever came before it.
pub proof fn law_another_paragraph_is_kept(question: Seq<char>, a: Seq<char>, b: Seq<char>)
    requires
        a.len() > 0,
        !text::is_space(a[0]),
        !text::is_space(a.last()),
        b.len() > 0,
        !text::is_space(b[0]),
        !text::is_space(b.last()),
        text::place_of(b, "\n\n"@) is None,
    ensures
        turn_html(question, a + "\n\n"@ + b, Seq::empty()) == turn_html(
            question,
            a,
            Seq::empty(),
        ) + "<p>"@ + escaped(b) + "</p>"@,
{
    reveal_strlit("\n\n");
    let whole = a + "\n\n"@ + b;
    text::law_trimmed_text_stays(a);
    text::law_trimmed_text_stays(b);
    assert(whole[0] == a[0]);
    assert(whole.last() == b.last());
    text::law_trimmed_text_stays(whole);
    lemma_parts_of_two(a, b);
    law_every_part_is_a_paragraph(text::parted(a, "\n\n"@), b);
    assert(turn_html(question, whole, Seq::empty()) =~= turn_html(question, a, Seq::empty())
        + "<p>"@ + escaped(b) + "</p>"@);
}

/// A turn lists every source that its answer cites, in order and by its citation, after the
/// answer.
pub proof fn law_every_source_is_listed(
    question: Seq<char>,
    answer: Seq<char>,
    refs: Seq<RefItemView>,
)
    requires
        refs.len() > 0,
    ensures
        turn_html(question, answer, refs) == turn_html(question, answer, Seq::empty())
            + "<p><b>Sources:</b> "@ + text::joined(
            Seq::new(refs.len(), |i: int| escaped(refs[i].citation)),
            " · "@,
        ) + "</p>"@,
        turn_plain(question, answer, refs) == turn_plain(question, answer, Seq::empty())
            + "Sources: "@ + text::joined(
            Seq::new(refs.len(), |i: int| refs[i].citation),
            " · "@,
        ) + "\n"@,
{
    let marked = Seq::new(refs.len(), |i: int| escaped(refs[i].citation));
    let plain = Seq::new(refs.len(), |i: int| refs[i].citation);
    assert(all_escaped(citations(refs)) =~= marked);
    assert(citations(refs) =~= plain);
    assert(turn_html(question, answer, refs) =~= turn_html(question, answer, Seq::empty())
        + "<p><b>Sources:</b> "@ + text::joined(marked, " · "@) + "</p>"@);
    assert(turn_plain(question, answer, refs) =~= turn_plain(question, answer, Seq::empty())
        + "Sources: "@ + text::joined(plain, " · "@) + "\n"@);
}

/// In plain text a turn is the question and the whole answer, without the white space
/// around them.
pub proof fn law_a_plain_turn_is_kept_whole(question: Seq<char>, answer: Seq<char>)
    ensures
        turn_plain(question, answer, Seq::empty()) == "## "@ + text::trimmed(question) + "\n\n"@
            + text::trimmed(answer) + "\n"@,
{
    assert(turn_plain(question, answer, Seq::empty()) =~= "## "@ + text::trimmed(question)
        + "\n\n"@ + text::trimmed(answer) + "\n"@);
}

/// Turns follow one another in a note in their order, each of them whole.
pub proof fn law_turns_follow_one_another(turns: Seq<TurnView>, turn: TurnView)
    ensures
        turns_html(Seq::empty()) == Seq::<char>::empty(),
        turns_html(turns.push(turn)) == turns_html(turns) + turn_html(
            turn.question,
            turn.answer,
            turn.refs,
        ),
        turns_plain(Seq::empty()) == Seq::<char>::empty(),
        turns_plain(turns.push(turn)) == turns_plain(turns) + turn_plain(
            turn.question,
            turn.answer,
            turn.refs,
        ) + "\n"@,
{
    assert(turns.push(turn).drop_last() =~= turns);
}

/// The current turn stands in a note as it will once it is one of the past.
pub proof fn law_the_current_turn_counts(
    turns: Seq<TurnView>,
    turn: TurnView,
    when: Seq<char>,
)
    requires
        !text::is_blank(turn.answer),
    ensures
        note_of(turns, turn.question, turn.answer, turn.refs, when) == note_of(
            turns.push(turn),
            Seq::empty(),
            Seq::empty(),
            Seq::empty(),
            when,
        ),
        plain_note_of(turns, turn.question, turn.answer, turn.refs) + "\n"@ == plain_note_of(
            turns.push(turn),
            Seq::empty(),
            Seq::empty(),
            Seq::empty(),
        ),
{
    law_turns_follow_one_another(turns, turn);
    text::law_trimmed_text_stays(Seq::empty());
    assert(text::is_blank(Seq::empty()));
    assert(note_of(turns, turn.question, turn.answer, turn.refs, when) =~= note_of(
        turns.push(turn),
        Seq::empty(),
        Seq::empty(),
        Seq::empty(),
        when,
    ));
    assert(plain_note_of(turns, turn.question, turn.answer, turn.refs) + "\n"@ =~= plain_note_of(
        turns.push(turn),
        Seq::empty(),
        Seq::empty(),
        Seq::empty(),
    ));
}

/// A note on past turns is its heading, the turns, and when it was made; in plain text its
/// heading and the turns.
pub proof fn law_a_note_is_its_turns(
    turns: Seq<TurnView>,
    question: Seq<char>,
    answer: Seq<char>,
    refs: Seq<RefItemView>,
    when: Seq<char>,
)
    requires
        text::is_blank(answer),
    ensures
        note_of(turns, question, answer, refs, when)
            == "<p><b>📄 PaperDock</b> — research notes</p><hr>"@ + turns_html(turns)
            + "<hr><p><i>Captured with PaperDock · "@ + escaped(when) + "</i></p>"@,
        plain_note_of(turns, question, answer, refs) == "# PaperDock — research notes\n\n"@
            + turns_plain(turns),
{
    assert(note_of(turns, question, answer, refs, when)
        =~= "<p><b>📄 PaperDock</b> — research notes</p><hr>"@ + turns_html(turns)
        + "<hr><p><i>Captured with PaperDock · "@ + escaped(when) + "</i></p>"@);
    assert(plain_note_of(turns, question, answer, refs) =~= "# PaperDock — research notes\n\n"@
        + turns_plain(turns));
}

/// So a note holds the whole of every answer: one without a blank line in it stands in the
/// note in one paragraph, trimmed and escaped, however long it is.
pub proof fn law_a_note_holds_every_answer(
    turns: Seq<TurnView>,
    question: Seq<char>,
    answer: Seq<char>,
    refs: Seq<RefItemView>,
    when: Seq<char>,
    i: int,
)
    requires
        0 <= i < turns.len(),
        !text::is_blank(turns[i].answer),
        text::place_of(text::trimmed(turns[i].answer), "\n\n"@) is None,
    ensures
        stands_in(
            "<p>"@ + escaped(text::trimmed(turns[i].answer)) + "</p>"@,
            note_of(turns, question, answer, refs, when),
        ),
        stands_in(
            "<h3>"@ + escaped(text::trimmed(turns[i].question)) + "</h3>"@,
            note_of(turns, question, answer, refs, when),
        ),
{
    let t = turns[i];
    let whole = text::trimmed(t.answer);
    let parts = text::parted(whole, "\n\n"@);
    let note = note_of(turns, question, answer, refs, when);
    let html = turn_html(t.question, t.answer, t.refs);
    let p = "<p>"@ + escaped(whole) + "</p>"@;
    let h = "<h3>"@ + escaped(text::trimmed(t.question)) + "</h3>"@;
    text::law_unmarked_text_is_one_part(whole, "\n\n"@);
    text::lemma_trimmed_twice(t.answer);
    assert(parts[0] == whole);
    law_every_part_of_an_answer_is_kept(t.question, t.answer, t.refs, 0);
    law_note_keeps_every_turn(turns, question, answer, refs, when);
    assert(stands_in(html, note)) by {
        assert(turns[i] == t);
    }
    assert(stands_in(h, html)) by {
        assert(html.subrange(0, 0int + h.len()) =~= h);
    }
    lemma_stands_in_what_stands_in(p, html, note);
    lemma_stands_in_what_stands_in(h, html, note);
}

proof fn lemma_stands_in_what_stands_in(a: Seq<char>, b: Seq<char>, c: Seq<char>)
    requires
        stands_in(a, b),
        stands_in(b, c),
    ensures
        stands_in(a, c),
{
    let k = choose|k: int| 0 <= k <= b.len() - a.len() && #[trigger] b.subrange(k, k + a.len()) == a;
    let m = choose|m: int| 0 <= m <= c.len() - b.len() && #[trigger] c.subrange(m, m + b.len()) == b;
    let at = m + k;
    assert(c.subrange(at, at + a.len()) =~= c.subrange(m, m + b.len()).subrange(k, k + a.len()));
}

} // verus!
