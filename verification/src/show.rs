//! What the window shows of an answer, a reference and a draft.

use crate::reference::{RefMatch, RefMatchView};
use crate::session::{OpinionView, Session, SessionView, Talk, TalkView};
use crate::sidecar::{DraftItem, DraftItemView, Passage};
use crate::text;
use vstd::prelude::*;

verus! {

// ---- an answer ------------------------------------------------------------

/// What stands in the place of the answer.
#[derive(Debug, PartialEq, Eq)]
pub enum AnswerArea {
    /// The answer so far.
    Answer(String),
    /// What is going on, or what to do.
    Hint(String),
}

#[verifier::ext_equal]
pub enum AnswerAreaView {
    Answer(Seq<char>),
    Hint(Seq<char>),
}

impl DeepView for AnswerArea {
    type V = AnswerAreaView;

    open spec fn deep_view(&self) -> AnswerAreaView {
        match self {
            AnswerArea::Answer(s) => AnswerAreaView::Answer(s@),
            AnswerArea::Hint(s) => AnswerAreaView::Hint(s@),
        }
    }
}

/// The answer if there is any of it; before that, what the query engine is doing;
/// and at rest what went wrong, or else what to do.
pub open spec fn area_of(s: SessionView) -> AnswerAreaView {
    if s.talk.answer.len() > 0 {
        AnswerAreaView::Answer(s.talk.answer)
    } else if s.talk.streaming {
        AnswerAreaView::Hint(s.status)
    } else if s.status.len() == 0 || s.status == "Indexed ✓"@ {
        AnswerAreaView::Hint("Ask a question to get a cited answer from your papers."@)
    } else {
        AnswerAreaView::Hint(s.status)
    }
}

/// What is asked of the user below an answer.
#[derive(Clone, Copy, Debug, PartialEq, Eq, Structural)]
pub enum RatingPanel {
    /// Thanks for the rating.
    Thanks,
    /// Whether ratings may be sent.
    Consent,
    /// How the answer was.
    Question,
}

/// What is asked of the user below an answer, once there is one.
pub open spec fn panel_of(talk: TalkView, opinion: OpinionView) -> Option<RatingPanel> {
    if talk.answer.len() == 0 || talk.streaming {
        None
    } else if opinion.rated {
        Some(RatingPanel::Thanks)
    } else if opinion.asking {
        Some(RatingPanel::Consent)
    } else {
        Some(RatingPanel::Question)
    }
}

/// The source whose passages are shown: the active one, or the last where there are
/// fewer.
pub open spec fn source_shown(talk: TalkView) -> Option<int> {
    if talk.refs.len() == 0 {
        None
    } else if talk.active_source < talk.refs.len() {
        Some(talk.active_source as int)
    } else {
        Some(talk.refs.len() - 1)
    }
}

impl Session {
    /// What stands in the place of the answer.
    pub fn answer_area(&self) -> (r: AnswerArea)
        ensures
            r.deep_view() == area_of(self.deep_view()),
    {
        if !self.talk.answer.as_str().is_empty() {
            AnswerArea::Answer(self.talk.answer.clone())
        } else if self.talk.streaming {
            AnswerArea::Hint(self.status.clone())
        } else if self.status.as_str().is_empty() || text::same_text(
            self.status.as_str(),
            "Indexed ✓",
        ) {
            AnswerArea::Hint("Ask a question to get a cited answer from your papers.".to_string())
        } else {
            AnswerArea::Hint(self.status.clone())
        }
    }

    /// What is asked of the user below an answer.
    pub fn rating_panel(&self) -> (r: Option<RatingPanel>)
        ensures
            r == panel_of(self.talk.deep_view(), self.opinion.deep_view()),
    {
        if !self.talk.answer_is_complete() {
            None
        } else if self.opinion.rated {
            Some(RatingPanel::Thanks)
        } else if self.opinion.asking {
            Some(RatingPanel::Consent)
        } else {
            Some(RatingPanel::Question)
        }
    }
}

impl Talk {
    /// Is the query engine running, with nothing of the answer to show yet?
    pub fn is_waiting(&self) -> (r: bool)
        ensures
            r == (self.streaming && self.answer@.len() == 0),
    {
        self.streaming && self.answer.as_str().is_empty()
    }

    /// Is there an answer, and all of it?
    pub fn answer_is_complete(&self) -> (r: bool)
        ensures
            r == (self.answer@.len() > 0 && !self.streaming),
    {
        !self.answer.as_str().is_empty() && !self.streaming
    }

    /// Is there a conversation to leave for a new one?
    pub fn has_begun(&self) -> (r: bool)
        ensures
            r == (self.answer@.len() > 0 || self.history@.len() > 0),
    {
        !self.answer.as_str().is_empty() || self.history.len() > 0
    }

    /// The source whose passages are shown.
    pub fn shown_source(&self) -> (r: Option<usize>)
        ensures
            match r {
                Some(i) => source_shown(self.deep_view()) == Some(i as int) && i
                    < self.refs@.len(),
                None => source_shown(self.deep_view()) is None,
            },
    {
        if self.refs.len() == 0 {
            None
        } else if self.active_source < self.refs.len() {
            Some(self.active_source)
        } else {
            Some(self.refs.len() - 1)
        }
    }
}

/// How the page of a passage is shown, if it is known.
pub open spec fn page_shown(page: Seq<char>) -> Option<Seq<char>> {
    if page.len() == 0 {
        None
    } else {
        Some("p. "@ + page)
    }
}

impl Passage {
    /// The page of a passage, if it is known.
    pub fn page_label(&self) -> (r: Option<String>)
        ensures
            r.deep_view() == page_shown(self.page@),
            r.deep_view() == if self.page@.len() == 0 {
                None
            } else {
                Some("p. "@ + self.page@)
            },
    {
        if self.page.as_str().is_empty() {
            return None;
        }
        let mut r = "p. ".to_string();
        r.append(self.page.as_str());
        Some(r)
    }
}

// ---- a reference ----------------------------------------------------------

/// The confidence from which on a match counts as one.
pub const LIKELY: u8 = 55;

/// What is shown of a match: whether it reassures, the verdict, and the work.
#[derive(Debug, PartialEq, Eq)]
pub struct MatchShown {
    pub ok: bool,
    pub verdict: String,
    pub work: String,
}

#[verifier::ext_equal]
pub struct MatchShownView {
    pub ok: bool,
    pub verdict: Seq<char>,
    pub work: Seq<char>,
}

impl DeepView for MatchShown {
    type V = MatchShownView;

    open spec fn deep_view(&self) -> MatchShownView {
        MatchShownView { ok: self.ok, verdict: self.verdict@, work: self.work@ }
    }
}

/// What is shown of a match. A weak one warns, and one with nothing at all warns
/// without a work to show.
pub open spec fn match_shown(m: RefMatchView) -> MatchShownView {
    if !m.found {
        MatchShownView {
            ok: false,
            verdict:
                "No match in CrossRef — this reference may be fabricated. Double-check it."@,
            work: Seq::empty(),
        }
    } else {
        MatchShownView {
            ok: m.confidence >= LIKELY,
            verdict: if m.confidence >= LIKELY {
                "Likely a real paper — matched in CrossRef"@
            } else {
                "Weak match ("@ + text::decimal(m.confidence)
                    + "% overlap) — CrossRef's closest paper may not be the one you cited; verify, it could be fabricated."@
            },
            work: m.title + "  ·  "@ + m.authors + " ("@ + m.year + ")  ·  DOI "@ + m.doi,
        }
    }
}

impl RefMatch {
    /// What is shown of the match.
    pub fn shown(&self) -> (r: MatchShown)
        ensures
            r.deep_view() == match_shown(self.deep_view()),
    {
        if !self.found {
            return MatchShown {
                ok: false,
                verdict:
                    "No match in CrossRef — this reference may be fabricated. Double-check it.".to_string(),
                work: String::new(),
            };
        }
        let ok = self.confidence >= LIKELY;
        let verdict = if ok {
            "Likely a real paper — matched in CrossRef".to_string()
        } else {
            let mut v = "Weak match (".to_string();
            text::push_decimal(&mut v, self.confidence as u128);
            v.append(
                "% overlap) — CrossRef's closest paper may not be the one you cited; verify, it could be fabricated.",
            );
            v
        };
        let mut work = self.title.clone();
        work.append("  ·  ");
        work.append(self.authors.as_str());
        work.append(" (");
        work.append(self.year.as_str());
        work.append(")  ·  DOI ");
        work.append(self.doi.as_str());
        MatchShown { ok, verdict, work }
    }
}

// ---- a draft --------------------------------------------------------------

/// What can come of checking a claim.
#[derive(Clone, Copy, Debug, PartialEq, Eq, Structural)]
pub enum Verdict {
    Supported,
    Partial,
    Unsupported,
    Insufficient,
}

/// The word for a verdict.
pub open spec fn verdict_word(verdict: Verdict) -> Seq<char> {
    match verdict {
        Verdict::Supported => "SUPPORTED"@,
        Verdict::Partial => "PARTIALLY SUPPORTED"@,
        Verdict::Unsupported => "NOT SUPPORTED"@,
        Verdict::Insufficient => "INSUFFICIENT EVIDENCE"@,
    }
}

/// How many claims have the given verdict.
pub open spec fn count(items: Seq<DraftItemView>, word: Seq<char>) -> nat
    decreases items.len(),
{
    if items.len() == 0 {
        0
    } else {
        count(items.drop_last(), word) + if items.last().verdict == word {
            1nat
        } else {
            0nat
        }
    }
}

/// How many claims have the given verdict.
pub fn count_verdict(items: &Vec<DraftItem>, verdict: Verdict) -> (n: usize)
    ensures
        n as nat == count(items.deep_view(), verdict_word(verdict)),
        n <= items@.len(),
{
    let word = match verdict {
        Verdict::Supported => "SUPPORTED",
        Verdict::Partial => "PARTIALLY SUPPORTED",
        Verdict::Unsupported => "NOT SUPPORTED",
        Verdict::Insufficient => "INSUFFICIENT EVIDENCE",
    };
    let ghost all = items.deep_view();
    let mut n: usize = 0;
    let mut i: usize = 0;
    while i < items.len()
        invariant
            n <= i <= items@.len(),
            all == items.deep_view(),
            n as nat == count(all.take(i as int), word@),
        decreases items@.len() - i,
    {
        assert(all.take(i + 1).drop_last() =~= all.take(i as int));
        if text::same_text(items[i].verdict.as_str(), word) {
            n = n + 1;
        }
        i = i + 1;
    }
    assert(all.take(all.len() as int) =~= all);
    n
}

/// The part that `n` claims are of `total`, in whole percent.
pub open spec fn share(n: nat, total: nat) -> nat {
    if total == 0 {
        n * 100
    } else {
        n * 100 / total
    }
}

/// How wide the part of the bar is that stands for the claims with a verdict.
pub fn width(n: usize, total: usize) -> (r: String)
    ensures
        r@ == "width:"@ + text::decimal(share(n as nat, total as nat)) + "%"@,
{
    let total: u128 = if total == 0 {
        1
    } else {
        total as u128
    };
    let mut r = "width:".to_string();
    text::push_decimal(&mut r, (n as u128) * 100 / total);
    r.append("%");
    r
}

/// What stands below the bar for the claims with a verdict.
pub open spec fn legend_of(n: nat, verdict: Verdict) -> Seq<char> {
    text::decimal(n) + match verdict {
        Verdict::Supported => " supported"@,
        Verdict::Partial => " partial"@,
        Verdict::Unsupported => " unsupported"@,
        Verdict::Insufficient => " insufficient"@,
    }
}

/// What stands below the bar for the claims with a verdict.
pub fn legend(n: usize, verdict: Verdict) -> (r: String)
    ensures
        r@ == legend_of(n as nat, verdict),
{
    let mut r = text::write_decimal(n as u128);
    match verdict {
        Verdict::Supported => r.append(" supported"),
        Verdict::Partial => r.append(" partial"),
        Verdict::Unsupported => r.append(" unsupported"),
        Verdict::Insufficient => r.append(" insufficient"),
    }
    r
}

/// The verdict that a claim is shown with. Words that are no verdict count as lack of
/// evidence.
pub open spec fn verdict_in(word: Seq<char>) -> Verdict {
    if word == "SUPPORTED"@ {
        Verdict::Supported
    } else if word == "PARTIALLY SUPPORTED"@ {
        Verdict::Partial
    } else if word == "NOT SUPPORTED"@ {
        Verdict::Unsupported
    } else {
        Verdict::Insufficient
    }
}

impl DraftItem {
    /// The verdict that the claim is shown with.
    pub fn shown_verdict(&self) -> (r: Verdict)
        ensures
            r == verdict_in(self.verdict@),
    {
        let word = self.verdict.as_str();
        if text::same_text(word, "SUPPORTED") {
            Verdict::Supported
        } else if text::same_text(word, "PARTIALLY SUPPORTED") {
            Verdict::Partial
        } else if text::same_text(word, "NOT SUPPORTED") {
            Verdict::Unsupported
        } else {
            Verdict::Insufficient
        }
    }
}

// ---- laws -----------------------------------------------------------------

/// The line of status and the place of the answer never both say that the index is
/// done: the place of the answer then says what to do.
pub proof fn law_done_is_not_said_twice(s: SessionView)
    ensures
        s.talk.answer.len() == 0 && !s.talk.streaming ==> area_of(s) != AnswerAreaView::Hint(
            "Indexed ✓"@,
        ),
{
    reveal_strlit("Indexed ✓");
    reveal_strlit("Ask a question to get a cited answer from your papers.");
    assert("Indexed ✓"@.len() == 9);
    assert("Ask a question to get a cited answer from your papers."@.len() == 54);
}

/// The source that is shown is one that there is, whichever was chosen before.
pub proof fn law_shown_source_exists(talk: TalkView)
    ensures
        match source_shown(talk) {
            Some(i) => 0 <= i < talk.refs.len(),
            None => talk.refs.len() == 0,
        },
{
}

proof fn lemma_verdict_words_differ()
    ensures
        forall|a: Verdict, b: Verdict| #[trigger]
            verdict_word(a) == #[trigger] verdict_word(b) ==> a == b,
{
    reveal_strlit("SUPPORTED");
    reveal_strlit("PARTIALLY SUPPORTED");
    reveal_strlit("NOT SUPPORTED");
    reveal_strlit("INSUFFICIENT EVIDENCE");
    assert("SUPPORTED"@.len() == 9);
    assert("PARTIALLY SUPPORTED"@.len() == 19);
    assert("NOT SUPPORTED"@.len() == 13);
    assert("INSUFFICIENT EVIDENCE"@.len() == 21);
}

/// A verdict is shown as what its word says.
pub proof fn law_words_tell_verdicts(verdict: Verdict)
    ensures
        verdict_in(verdict_word(verdict)) == verdict,
{
    lemma_verdict_words_differ();
    assert(verdict_word(Verdict::Supported) == "SUPPORTED"@);
    assert(verdict_word(Verdict::Partial) == "PARTIALLY SUPPORTED"@);
    assert(verdict_word(Verdict::Unsupported) == "NOT SUPPORTED"@);
}

/// No claim is counted twice: the four counts together are at most the claims, and
/// they are all of them where every claim has one of the four verdicts.
pub proof fn law_claims_are_counted_once(items: Seq<DraftItemView>)
    ensures
        ({
            let total = count(items, verdict_word(Verdict::Supported)) + count(
                items,
                verdict_word(Verdict::Partial),
            ) + count(items, verdict_word(Verdict::Unsupported)) + count(
                items,
                verdict_word(Verdict::Insufficient),
            );
            &&& total <= items.len()
            &&& (forall|i: int|
                0 <= i < items.len() ==> has_verdict(#[trigger] items[i])) ==> total
                == items.len()
        }),
    decreases items.len(),
{
    if items.len() > 0 {
        let fewer = items.drop_last();
        law_claims_are_counted_once(fewer);
        lemma_verdict_words_differ();
        let w = items.last().verdict;
        assert(verdict_word(Verdict::Supported) != verdict_word(Verdict::Partial));
        assert(verdict_word(Verdict::Supported) != verdict_word(Verdict::Unsupported));
        assert(verdict_word(Verdict::Supported) != verdict_word(Verdict::Insufficient));
        assert(verdict_word(Verdict::Partial) != verdict_word(Verdict::Unsupported));
        assert(verdict_word(Verdict::Partial) != verdict_word(Verdict::Insufficient));
        assert(verdict_word(Verdict::Unsupported) != verdict_word(Verdict::Insufficient));
        if forall|i: int| 0 <= i < items.len() ==> has_verdict(#[trigger] items[i]) {
            assert(has_verdict(items[items.len() - 1]));
            assert forall|i: int| 0 <= i < fewer.len() implies has_verdict(
                #[trigger] fewer[i],
            ) by {
                assert(has_verdict(items[i]));
            }
        }
    }
}

/// The claim has one of the four verdicts.
pub open spec fn has_verdict(item: DraftItemView) -> bool {
    ||| item.verdict == verdict_word(Verdict::Supported)
    ||| item.verdict == verdict_word(Verdict::Partial)
    ||| item.verdict == verdict_word(Verdict::Unsupported)
    ||| item.verdict == verdict_word(Verdict::Insufficient)
}

/// A match reassures exactly when a work was found whose title matches well enough.
pub proof fn law_a_weak_match_warns(m: RefMatchView)
    ensures
        match_shown(m).ok <==> m.found && m.confidence >= 55,
{
}

/// What there is of an answer is shown as it is, and before there is any, what the query
/// engine is doing.
pub proof fn law_the_answer_is_shown_as_it_is(s: SessionView)
    ensures
        s.talk.answer.len() > 0 ==> area_of(s) == AnswerAreaView::Answer(s.talk.answer),
        s.talk.answer.len() == 0 && s.talk.streaming ==> area_of(s) == AnswerAreaView::Hint(
            s.status,
        ),
        s.talk.answer.len() == 0 && !s.talk.streaming && s.status.len() > 0 && s.status
            != "Indexed ✓"@ ==> area_of(s) == AnswerAreaView::Hint(s.status),
{
}

/// The user is asked for a rating exactly when an answer is complete, and thanked once it
/// was given.
pub proof fn law_a_rating_is_asked_for(talk: TalkView, opinion: OpinionView)
    ensures
        panel_of(talk, opinion) is Some <==> talk.answer.len() > 0 && !talk.streaming,
        talk.answer.len() > 0 && !talk.streaming && opinion.rated ==> panel_of(talk, opinion)
            == Some(RatingPanel::Thanks),
        talk.answer.len() > 0 && !talk.streaming && !opinion.rated && opinion.asking ==> panel_of(
            talk,
            opinion,
        ) == Some(RatingPanel::Consent),
        talk.answer.len() > 0 && !talk.streaming && !opinion.rated && !opinion.asking ==> panel_of(
            talk,
            opinion,
        ) == Some(RatingPanel::Question),
{
}

/// The source that was chosen is the one that is shown, as long as there is one.
pub proof fn law_the_chosen_source_is_shown(talk: TalkView)
    ensures
        talk.active_source < talk.refs.len() ==> source_shown(talk) == Some(
            talk.active_source as int,
        ),
        talk.refs.len() == 0 ==> source_shown(talk) is None,
{
}

/// A match is shown with its title, its authors, its year and its DOI as they are, and
/// reassures from 55 percent on; below that the user reads how weak it is.
pub proof fn law_a_match_is_shown_as_it_is(m: RefMatchView)
    requires
        m.found,
    ensures
        match_shown(m).work == m.title + "  ·  "@ + m.authors + " ("@ + m.year + ")  ·  DOI "@
            + m.doi,
        match_shown(m).ok <==> m.confidence >= 55,
        m.confidence >= 55 ==> match_shown(m).verdict
            == "Likely a real paper — matched in CrossRef"@,
        m.confidence < 55 ==> ("Weak match ("@ + text::decimal(m.confidence)
            + "% overlap)"@).is_prefix_of(match_shown(m).verdict),
{
    if m.confidence < 55 {
        let start = "Weak match ("@ + text::decimal(m.confidence);
        let said = start + "% overlap)"@;
        reveal_strlit("% overlap)");
        reveal_strlit(
            "% overlap) — CrossRef's closest paper may not be the one you cited; verify, it could be fabricated.",
        );
        assert(match_shown(m).verdict.subrange(0, said.len() as int) =~= said);
    }
}

/// Without a match the user is warned.
pub proof fn law_no_match_warns(m: RefMatchView)
    requires
        !m.found,
    ensures
        !match_shown(m).ok,
        match_shown(m).work.len() == 0,
        match_shown(m).verdict
            == "No match in CrossRef — this reference may be fabricated. Double-check it."@,
{
}

/// Every claim counts for its own verdict, once.
pub proof fn law_one_claim_more_is_counted(
    items: Seq<DraftItemView>,
    item: DraftItemView,
    word: Seq<char>,
)
    ensures
        count(Seq::empty(), word) == 0,
        count(items.push(item), word) == count(items, word) + if item.verdict == word {
            1nat
        } else {
            0nat
        },
{
    assert(items.push(item).drop_last() =~= items);
}

/// The part of a bar is the share of the claims, in whole percent, rounded down.
pub proof fn law_the_bar_shows_the_share(n: nat, total: nat)
    requires
        total > 0,
    ensures
        share(n, total) * total <= n * 100 < (share(n, total) + 1) * total,
{
    let q = n * 100 / total;
    assert(q * total <= n * 100 < (q + 1) * total) by (nonlinear_arith)
        requires
            total > 0,
            q == n * 100 / total,
    ;
}

/// Each verdict has its word, and every other word counts as lack of evidence.
pub proof fn law_verdicts_go_by_their_words(word: Seq<char>)
    ensures
        verdict_in(word) == Verdict::Supported <==> word == "SUPPORTED"@,
        verdict_in(word) == Verdict::Partial <==> word == "PARTIALLY SUPPORTED"@,
        verdict_in(word) == Verdict::Unsupported <==> word == "NOT SUPPORTED"@,
{
    reveal_strlit("SUPPORTED");
    reveal_strlit("PARTIALLY SUPPORTED");
    reveal_strlit("NOT SUPPORTED");
    assert("SUPPORTED"@.len() == 9);
    assert("PARTIALLY SUPPORTED"@.len() == 19);
    assert("NOT SUPPORTED"@.len() == 13);
}

/// A page is shown as it is given, and only where it is given.
pub proof fn law_a_page_is_shown_as_it_is(page: Seq<char>)
    ensures
        page.len() > 0 ==> page_shown(page) == Some("p. "@ + page),
        page_shown(page) is None <==> page.len() == 0,
{
}

/// Below the bar stands how many claims have the verdict.
pub proof fn law_the_legend_tells_the_number(n: nat)
    ensures
        legend_of(n, Verdict::Supported) == text::decimal(n) + " supported"@,
        legend_of(n, Verdict::Partial) == text::decimal(n) + " partial"@,
        legend_of(n, Verdict::Unsupported) == text::decimal(n) + " unsupported"@,
        legend_of(n, Verdict::Insufficient) == text::decimal(n) + " insufficient"@,
{
}

} // verus!
