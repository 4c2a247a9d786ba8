use paperdock::reference::{
    closest_of, lookup_query, overlap_percent, rate, reference_query, significant_words, title_overlap,
    verify_reference, LookupFault, RefMatch, Work,
};
use paperdock::json::read_text;
use paperdock::zotero::Reply;

fn reply(body: &str) -> Reply {
    Reply { status: 200, body: Some(body.as_bytes().to_vec()) }
}

fn texts(words: &[&str]) -> Vec<String> {
    words.iter().map(|w| w.to_string()).collect()
}

const ATTENTION: &str = "{\"message\": {\"items\": [{\"title\": [\"Attention Is All You Need\", \"x\"], \
    \"DOI\": \"10.1/x\", \"issued\": {\"date-parts\": [[2017, 6]]}, \
    \"author\": [{\"family\": \"Vaswani\"}, {\"name\": \"Google\"}, {\"family\": \"Parmar\"}, {\"family\": \"Jones\"}]}]}}";

#[test]
fn words_are_told_apart() {
    let cut: Vec<bool> = "the deep-net of dé deep".chars().map(|c| !c.is_alphanumeric()).collect();
    // Counted in bytes, "dé" is three long.
    assert_eq!(
        significant_words("the deep-net of dé deep", &cut),
        texts(&["deep", "net", "dé"])
    );
    assert!(significant_words("", &vec![]).is_empty());
}

#[test]
fn the_lesser_coverage_counts() {
    let t = texts(&["attention", "all", "you", "need"]);
    assert_eq!(overlap_percent(&t, &t), 100);
    assert_eq!(overlap_percent(&t, &texts(&["attention"])), 25);
    assert_eq!(overlap_percent(&texts(&["attention"]), &t), 25);
    assert_eq!(overlap_percent(&t, &texts(&["graph", "networks"])), 0);
    assert_eq!(overlap_percent(&t, &vec![]), 0);
    assert_eq!(overlap_percent(&vec![], &t), 0);
    assert_eq!(overlap_percent(&texts(&["a", "b", "c"]), &texts(&["a", "b", "x"])), 66);
}

#[test]
fn a_percentage_is_reached_on_both_sides_or_not_at_all() {
    let many: Vec<String> = (0..20).map(|i| format!("w{i}")).collect();
    let eleven: Vec<String> = many[..11].to_vec();
    let ten: Vec<String> = many[..10].to_vec();
    assert_eq!(overlap_percent(&many, &eleven), 55);
    assert_eq!(overlap_percent(&eleven, &many), 55);
    assert_eq!(overlap_percent(&many, &ten), 50);
    let hundred: Vec<String> = (0..101).map(|i| format!("w{i}")).collect();
    assert_eq!(overlap_percent(&hundred, &texts(&["w0"])), 0);
}

#[test]
fn titles_are_matched_without_regard_to_case() {
    assert_eq!(title_overlap("ATTENTION, is all you need!", "Attention Is All You Need"), 100);
    assert_eq!(title_overlap("Deep learning for the masses", "Deep Learning"), 66);
    assert_eq!(title_overlap("Deep Learning", "Deep learning for the masses"), 66);
    assert_eq!(title_overlap("", "Deep Learning"), 0);
    assert_eq!(title_overlap("of the and", "Deep Learning"), 0);
    assert_eq!(title_overlap("Über Größen", "ÜBER GRÖSSEN"), 50);
}

#[test]
fn repeats_fillers_order_and_case_do_not_count() {
    let r = "Deep learning in genomics";
    for t in ["Deep Learning", "Genomics of tomatoes", "Deep learning: genomics in practice"] {
        let score = title_overlap(r, t);
        let again = format!("{r} the of a, {r}");
        assert_eq!(title_overlap(&again, t), score);
        assert_eq!(title_overlap(t, &again), score);
        assert_eq!(title_overlap("genomics in -- learning, DEEP!", t), score);
        assert_eq!(title_overlap(&r.to_ascii_uppercase(), t), score);
    }
}

#[test]
fn repeats_and_fillers_do_not_count_beyond_ascii() {
    for r in ["Über die Größen", "ΟΔΥΣΣΕΥΣ ΚΑΙ ΣΟΦΙΑ", "İstanbul'da derin öğrenme", "深層学習 と 画像"] {
        for t in ["Die Größen im Überblick", "Ο Οδυσσεύς και η σοφία", "derin öğrenme", "深層学習"] {
            let again = format!("{r} the of a, {r}");
            assert_eq!(title_overlap(&again, t), title_overlap(r, t));
            assert_eq!(title_overlap(t, &again), title_overlap(t, r));
        }
    }
}

#[test]
fn punctuation_does_not_count() {
    assert_eq!(title_overlap("deep-learning: theory", "deep learning\ttheory "), 100);
    assert_eq!(title_overlap("deep(learning)+theory", "theory/learning\ndeep"), 100);
    assert_eq!(title_overlap("to be or no, a UK x", "deep learning"), 0);
}

#[test]
fn lower_case_stays_within_white_space() {
    // The words of a text that is put in lower case as a whole.
    let whole = |s: &str| -> Vec<String> {
        let lower = s.to_lowercase();
        let cut: Vec<bool> = lower.chars().map(|c| !c.is_alphanumeric()).collect();
        significant_words(&lower, &cut)
    };
    let texts = [
        "ΟΔΥΣΣΕΥΣ ΣΟΦΟΣ", "ΑΒΓΣ ΑΒΓ", "ΑΒΓΣ\u{301} ΑΒΓ", "ΑΒΓ' Σ", "ΑΒΓΣ'ΑΒΓ ΑΒΓΣ' ΑΒΓ", "ΑΒΓΣ\u{a0}ΑΒΓ",
        "ΑΒΓ\u{3000}ΣΑΒΓΣ.", "ΑΒΓΣ\u{2028}\u{301}ΑΒΓ", "ΑΒΓΣ\u{85}ΑΒΓ", "ΑΒΓΣ\nΑΒΓΣ\tΣΣΣ", "İSTANBUL ÖĞRENME", "GROẞE STRASSE",
    ];
    for r in texts {
        for t in texts {
            assert_eq!(title_overlap(r, t), overlap_percent(&whole(t), &whole(r)));
        }
    }
    assert_eq!(title_overlap("ΟΔΥΣΣΕΥΣ ΣΟΦΟΣ", "σοφος οδυσσευς"), 100);
}

#[test]
fn a_reference_is_trimmed() {
    assert_eq!(reference_query("  Wang 2022 \n"), Ok("Wang 2022".to_string()));
    assert_eq!(reference_query(" \t"), Err(LookupFault::NothingGiven));
    let pair = |a: &str, b: &str| (a.to_string(), b.to_string());
    assert_eq!(
        lookup_query("Wang 2022"),
        vec![
            pair("query.bibliographic", "Wang 2022"),
            pair("rows", "1"),
            pair("select", "title,DOI,author,issued"),
        ]
    );
}

#[test]
fn faults_of_a_lookup_are_told_in_words() {
    assert_eq!(LookupFault::NothingGiven.message(), "Paste a reference to verify.");
    assert_eq!(LookupFault::NotStarted.message(), "Could not start the lookup.");
    assert_eq!(
        LookupFault::Unreachable.message(),
        "Could not reach CrossRef — check your connection."
    );
    assert_eq!(LookupFault::BadReply.message(), "CrossRef returned an unexpected response.");
}

#[test]
fn a_real_paper_is_found() {
    let m = verify_reference("Vaswani: Attention is all you need", Some(&reply(ATTENTION))).unwrap();
    assert_eq!(
        m,
        RefMatch {
            found: true,
            confidence: 80,
            title: "Attention Is All You Need".to_string(),
            doi: "10.1/x".to_string(),
            authors: "Vaswani, Parmar".to_string(),
            year: "2017".to_string(),
        }
    );
}

#[test]
fn an_unrelated_guess_has_no_confidence() {
    let m = verify_reference("Tomato growth in space", Some(&reply(ATTENTION))).unwrap();
    assert!(m.found);
    assert_eq!(m.confidence, 0);
}

#[test]
fn nothing_is_found_in_an_empty_list() {
    let none = RefMatch {
        found: false,
        confidence: 0,
        title: String::new(),
        doi: String::new(),
        authors: String::new(),
        year: String::new(),
    };
    for body in ["{\"message\": {\"items\": []}}", "{}", "[]", "{\"message\": {\"items\": {}}}"] {
        assert_eq!(verify_reference("x", Some(&reply(body))), Ok(none.clone()));
    }
    let bare = "{\"message\": {\"items\": [{\"issued\": {\"date-parts\": [[-44]]}}]}}";
    let m = verify_reference("x", Some(&reply(bare))).unwrap();
    assert!(!m.found);
    assert_eq!(m.year, "-44");
}

#[test]
fn a_lookup_can_fail() {
    assert_eq!(verify_reference("x", None), Err(LookupFault::Unreachable));
    assert_eq!(verify_reference("x", Some(&reply("<html>"))), Err(LookupFault::BadReply));
    // Even an error page counts if it holds a document.
    let r = Reply { status: 500, body: Some(ATTENTION.as_bytes().to_vec()) };
    assert!(verify_reference("x", Some(&r)).is_ok());
}

#[test]
fn a_work_is_rated() {
    let work = || Work {
        title: "T".to_string(),
        doi: String::new(),
        authors: "A".to_string(),
        year: "2000".to_string(),
    };
    let m = rate(Some(work()), 54);
    assert!(m.found);
    assert_eq!(m.confidence, 54);
    assert_eq!(m.authors, "A");
    let untitled = rate(Some(Work { title: String::new(), ..work() }), 9);
    assert!(!untitled.found);
    assert_eq!(untitled.confidence, 0);
    assert_eq!(rate(None, 9).confidence, 0);
    assert_eq!(closest_of(&read_text(ATTENTION).unwrap()).unwrap().year, "2017");
}
