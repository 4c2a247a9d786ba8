use paperdock::json::read_text;
use paperdock::sidecar::{
    cache_dir_index_name, event_of, fault_event, on_output, parse_event, request_line, run_ask,
    stream_step, AnswerEvent, DraftItem, Passage, RefItem, RunNews, RunStep, StreamStep, WorkerCommand, WorkerFault, WorkerOutput,
    WorkerRequest,
};
use paperdock::zotero::DocRef;

fn error(message: &str) -> AnswerEvent {
    AnswerEvent::Error { message: message.to_string() }
}

fn request() -> WorkerRequest {
    WorkerRequest {
        id: "q3".to_string(),
        command: WorkerCommand::Check,
        question: "Is it \"so\"?\nReally — ✓".to_string(),
        history: "Q: a\nA: b\n\n".to_string(),
        cache_dir: "/data/paperqa_index".to_string(),
        model: "gpt-4o".to_string(),
        embedding: "e".to_string(),
        api_base: String::new(),
        api_key: "k".to_string(),
        qdrant_url: "u".to_string(),
        qdrant_key: "qk".to_string(),
        collection_key: "users_0_K".to_string(),
        docs: vec![
            DocRef {
                path: "/a.pdf".to_string(),
                zotero_key: "A".to_string(),
                citation: "Wang 2022".to_string(),
            },
            DocRef {
                path: "/b.pdf".to_string(),
                zotero_key: "B".to_string(),
                citation: "Li".to_string(),
            },
        ],
    }
}

#[test]
fn plain_events_are_read() {
    assert_eq!(
        parse_event("{\"id\":\"q1\",\"type\":\"status\",\"text\":\"Indexing...\"}"),
        Some(AnswerEvent::Status { text: "Indexing...".to_string() })
    );
    assert_eq!(
        parse_event("{\"type\":\"token\",\"text\":\"Three\"}"),
        Some(AnswerEvent::Token { text: "Three".to_string() })
    );
    assert_eq!(
        parse_event("{\"type\":\"token\"}"),
        Some(AnswerEvent::Token { text: String::new() })
    );
    assert_eq!(parse_event("{\"type\":\"done\"}"), Some(AnswerEvent::Done));
    assert_eq!(parse_event("{\"type\":\"error\",\"message\":\"no\"}"), Some(error("no")));
    assert_eq!(
        parse_event("{\"type\":\"error\",\"message\":7}"),
        Some(error("The query engine reported an error."))
    );
}

#[test]
fn other_lines_are_no_events() {
    assert_eq!(parse_event("hello"), None);
    assert_eq!(parse_event("{}"), None);
    assert_eq!(parse_event("{\"type\":\"other\"}"), None);
    assert_eq!(parse_event("{\"type\":1}"), None);
    assert_eq!(parse_event("{\"type\":\"notice\",\"message\":\"x\"}"), None);
}

#[test]
fn references_are_read() {
    let line = "{\"type\":\"references\",\"items\":[\
        {\"zotero_key\":\"ABC\",\"citation\":\"Rawlings 2009\",\"passages\":[{\"page\":\"4\",\"snippet\":\"s\"},{}]},\
        {\"citation\":5}]}";
    assert_eq!(
        parse_event(line),
        Some(AnswerEvent::References {
            items: vec![
                RefItem {
                    item_key: "ABC".to_string(),
                    citation: "Rawlings 2009".to_string(),
                    passages: vec![
                        Passage { page: "4".to_string(), snippet: "s".to_string() },
                        Passage { page: String::new(), snippet: String::new() },
                    ],
                },
                RefItem { item_key: String::new(), citation: String::new(), passages: vec![] },
            ],
        })
    );
    assert_eq!(
        parse_event("{\"type\":\"references\",\"items\":{}}"),
        Some(AnswerEvent::References { items: vec![] })
    );
}

#[test]
fn verdicts_are_read() {
    let v = read_text(
        "{\"type\":\"draft\",\"items\":[{\"claim\":\"c\",\"verdict\":\"SUPPORTED\",\"detail\":\"d\"},{}]}",
    )
    .unwrap();
    assert_eq!(
        event_of(&v),
        Some(AnswerEvent::Draft {
            claims: vec![
                DraftItem {
                    claim: "c".to_string(),
                    verdict: "SUPPORTED".to_string(),
                    detail: "d".to_string(),
                },
                DraftItem {
                    claim: String::new(),
                    verdict: String::new(),
                    detail: String::new(),
                },
            ],
        })
    );
}

#[test]
fn the_stream_ends_with_the_first_end() {
    let line = |s: &str| WorkerOutput::Line(s.to_string());
    assert_eq!(on_output(&line("  ")), StreamStep { emit: None, finished: false });
    assert_eq!(on_output(&line("noise")), StreamStep { emit: None, finished: false });
    assert_eq!(
        on_output(&line("  {\"type\":\"done\"}\t")),
        StreamStep { emit: Some(AnswerEvent::Done), finished: true }
    );
    assert_eq!(on_output(&WorkerOutput::Closed), StreamStep { emit: None, finished: true });
    assert_eq!(
        on_output(&WorkerOutput::Failed),
        StreamStep { emit: Some(error("The query engine stopped unexpectedly.")), finished: true }
    );
    assert_eq!(
        stream_step(Some(AnswerEvent::Notice { message: "n".to_string() })),
        StreamStep { emit: Some(AnswerEvent::Notice { message: "n".to_string() }), finished: false }
    );
    assert_eq!(stream_step(None), StreamStep { emit: None, finished: false });
}

#[test]
fn faults_are_told_in_words() {
    let words = [
        (WorkerFault::BuildRequest, "Could not build the query request."),
        (WorkerFault::Start, "Could not start the query engine."),
        (WorkerFault::Connect, "Could not connect to the query engine."),
        (WorkerFault::Read, "Could not read from the query engine."),
        (WorkerFault::Send, "Could not send the question to the query engine."),
        (WorkerFault::Stopped, "The query engine stopped unexpectedly."),
    ];
    for (fault, message) in words {
        assert_eq!(fault_event(fault), error(message));
    }
}

#[test]
fn an_index_is_named_after_its_directory() {
    assert_eq!(cache_dir_index_name("/data/paperqa_index"), "paperqa_index");
    assert_eq!(cache_dir_index_name("/"), "paperdock");
    assert_eq!(cache_dir_index_name(""), "paperdock");
    assert_eq!(cache_dir_index_name("/a/.."), "paperdock");
}

#[test]
fn a_request_is_one_line_that_reads_back() {
    let line = request_line(&request()).unwrap();
    assert_eq!(line.matches('\n').count(), 1);
    assert!(line.ends_with('\n'));
    let v: serde_json::Value = serde_json::from_str(&line).unwrap();
    let text = |name: &str| v.get(name).and_then(|t| t.as_str()).unwrap().to_string();
    assert_eq!(text("id"), "q3");
    assert_eq!(text("cmd"), "check");
    assert_eq!(text("question"), "Is it \"so\"?\nReally — ✓");
    assert_eq!(text("history"), "Q: a\nA: b\n\n");
    assert_eq!(text("index_name"), "paperqa_index");
    assert_eq!(text("cache_dir"), "/data/paperqa_index");
    assert_eq!(text("model"), "gpt-4o");
    assert_eq!(text("embedding"), "e");
    assert_eq!(text("api_base"), "");
    assert_eq!(text("api_key"), "k");
    assert_eq!(text("qdrant_url"), "u");
    assert_eq!(text("qdrant_key"), "qk");
    assert_eq!(text("collection_key"), "users_0_K");
    let docs = v.get("docs").unwrap().as_array().unwrap();
    assert_eq!(docs.len(), 2);
    assert_eq!(docs[0].get("path").unwrap().as_str(), Some("/a.pdf"));
    assert_eq!(docs[0].get("zotero_key").unwrap().as_str(), Some("A"));
    assert_eq!(docs[1].get("citation").unwrap().as_str(), Some("Li"));
    assert_eq!(v.as_object().unwrap().len(), 14);
    let own = read_text(line.trim_end()).unwrap();
    assert_eq!(own.get_text("cmd").as_deref(), Some("check"));
}

#[test]
fn the_other_commands_have_their_words() {
    let mut r = request();
    r.command = WorkerCommand::Ask;
    assert!(request_line(&r).unwrap().contains("\"cmd\":\"ask\""));
    r.command = WorkerCommand::Index;
    assert!(request_line(&r).unwrap().contains("\"cmd\":\"index\""));
}

fn run(answer: impl Fn(RunStep, usize) -> RunNews) -> (Vec<AnswerEvent>, Vec<RunStep>) {
    let mut told = Vec::new();
    let mut steps = Vec::new();
    let mut step = RunStep::Start;
    while step != RunStep::End {
        let next = run_ask(step, answer(step, steps.len()));
        steps.push(step);
        told.extend(next.emit);
        step = next.next;
    }
    (told, steps)
}

#[test]
fn a_run_goes_through_its_steps() {
    let (told, steps) = run(|step, n| match (step, n) {
        (RunStep::Listen, 5) => {
            RunNews::Output(WorkerOutput::Line("{\"type\":\"token\",\"text\":\"a\"}".to_string()))
        }
        (RunStep::Listen, _) => {
            RunNews::Output(WorkerOutput::Line("{\"type\":\"done\"}".to_string()))
        }
        _ => RunNews::Worked,
    });
    assert_eq!(told, vec![AnswerEvent::Token { text: "a".to_string() }, AnswerEvent::Done]);
    assert_eq!(
        steps,
        vec![
            RunStep::Start,
            RunStep::TakeInput,
            RunStep::TakeOutput,
            RunStep::Keep,
            RunStep::Send,
            RunStep::Listen,
            RunStep::Listen,
            RunStep::Clear,
        ]
    );
}

#[test]
fn a_run_that_fails_is_cleared_away() {
    let fails = |bad: RunStep| {
        run(move |step, _| if step == bad { RunNews::Failed } else { RunNews::Worked })
    };
    for (bad, message, cleared) in [
        (RunStep::Start, "Could not start the query engine.", false),
        (RunStep::TakeInput, "Could not connect to the query engine.", false),
        (RunStep::TakeOutput, "Could not read from the query engine.", false),
        (RunStep::Send, "Could not send the question to the query engine.", true),
        (RunStep::Listen, "The query engine stopped unexpectedly.", true),
    ] {
        let (told, steps) = fails(bad);
        assert_eq!(told, vec![error(message)]);
        assert_eq!(steps.contains(&RunStep::Clear), cleared);
    }
    let (told, steps) = run(|step, _| {
        if step == RunStep::Listen {
            RunNews::Output(WorkerOutput::Closed)
        } else {
            RunNews::Worked
        }
    });
    assert!(told.is_empty());
    assert_eq!(steps.last(), Some(&RunStep::Clear));
}
