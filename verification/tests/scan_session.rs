use vuln_hound::agent::events::ScanEvent;
use vuln_hound::agent::loop_::{
    trim_old_tool_results, ScanAction, ScanInput, ScanSession, MAX_ITERATIONS, REPEAT_NOTE,
    TRIMMED_PLACEHOLDER,
};
use vuln_hound::findings::{FindingStatus, SubmittedFinding};
use vuln_hound::llm::client::LlmError;
use vuln_hound::llm::types::{ChatMessage, FunctionCall, ToolCall};
use vuln_hound::playbook::{PlaybookEntry, PlaybookGroup, Severity};
use vuln_hound::security::mode::ScanMode;

fn group() -> PlaybookGroup {
    PlaybookGroup {
        id: "injection-execution".into(),
        order: 1,
        title: "Injection & Code Execution".into(),
        description: "Untrusted input reaching interpreters".into(),
        entries: vec![PlaybookEntry {
            id: "sql-injection".into(),
            name: "SQL Injection".into(),
            base_severity: Severity::High,
            what_it_is: "Queries built from user input".into(),
            how_it_hurts_template: "".into(),
            fix_guidance_template: "".into(),
            requires_dynamic_test: false,
        }],
    }
}

fn assistant_calls(calls: &[(&str, &str, &str)]) -> ChatMessage {
    ChatMessage {
        role: "assistant".into(),
        content: None,
        tool_calls: Some(
            calls
                .iter()
                .map(|(id, name, args)| ToolCall {
                    id: id.to_string(),
                    function: FunctionCall { name: name.to_string(), arguments: args.to_string() },
                })
                .collect(),
        ),
        tool_call_id: None,
    }
}

fn status_of(e: &ScanEvent) -> Option<&str> {
    match e {
        ScanEvent::Status { status, .. } => Some(status.as_str()),
        _ => None,
    }
}

#[test]
fn session_runs_tools_then_records_findings() {
    let g = group();
    let (mut s, events, action) = ScanSession::start("s1".into(), &g, ScanMode::Test, false);
    assert_eq!(events.len(), 1);
    assert_eq!(status_of(&events[0]), Some("scanning"));
    assert_eq!(action, ScanAction::Request);
    assert_eq!(s.messages().len(), 2);
    assert_eq!(s.messages()[0].role, "system");
    assert_eq!(
        s.messages()[1].content.as_deref(),
        Some("Begin investigating the \"Injection & Code Execution\" category group in this codebase.")
    );
    assert_eq!(s.tools().len(), 5);

    let reply = assistant_calls(&[("c1", "list_directory", "{}")]);
    let (events, action) = s.step(false, ScanInput::Reply(Ok(Some(reply))));
    assert_eq!(action, ScanAction::RunTool { name: "list_directory".into(), arguments: "{}".into() });
    match &events[0] {
        ScanEvent::Log { message, session_id, group_id } => {
            assert_eq!(message, "list_directory({})");
            assert_eq!(session_id, "s1");
            assert_eq!(group_id, "injection-execution");
        }
        other => panic!("unexpected {other:?}"),
    }

    let (events, action) = s.step(false, ScanInput::ToolOutput("[]".into()));
    assert!(events.is_empty());
    assert_eq!(action, ScanAction::Request);
    let last = s.messages().last().unwrap();
    assert_eq!(last.role, "tool");
    assert_eq!(last.tool_call_id.as_deref(), Some("c1"));
    assert_eq!(last.content.as_deref(), Some("[]"));

    let args = r#"{"findings":[]}"#;
    let reply = assistant_calls(&[("c2", "submit_findings", args)]);
    let (_, action) = s.step(false, ScanInput::Reply(Ok(Some(reply))));
    assert_eq!(action, ScanAction::ParseFindings { arguments: args.into() });

    let found = SubmittedFinding {
        category_id: "sql-injection".into(),
        title: "Raw SQL".into(),
        severity: Severity::Critical,
        description: "concatenated query".into(),
        evidence: vec![],
        fix_guidance: "use parameters".into(),
    };
    let (events, action) = s.step(false, ScanInput::Findings(vec![found]));
    assert_eq!(action, ScanAction::Finished);
    assert!(s.is_done());
    assert_eq!(events.len(), 2);
    match &events[0] {
        ScanEvent::Finding { finding, .. } => {
            assert_eq!(finding.group_id, "injection-execution");
            assert_eq!(finding.category_id, "sql-injection");
            assert_eq!(finding.status, FindingStatus::Found);
            assert_eq!(finding.id.len(), 36);
            assert_eq!(finding.created_at, finding.updated_at);
        }
        other => panic!("unexpected {other:?}"),
    }
    assert_eq!(status_of(&events[1]), Some("scanned"));
    assert_eq!(s.messages().last().unwrap().content.as_deref(), Some("Findings recorded."));
}

#[test]
fn repeated_call_gets_a_note() {
    let g = group();
    let (mut s, _, _) = ScanSession::start("s".into(), &g, ScanMode::Production, false);
    let call = assistant_calls(&[("a", "search_text", r#"{"pattern":"x"}"#)]);
    s.step(false, ScanInput::Reply(Ok(Some(call))));
    s.step(false, ScanInput::ToolOutput("first".into()));
    let call = assistant_calls(&[("b", "search_text", r#"{"pattern":"x"}"#)]);
    s.step(false, ScanInput::Reply(Ok(Some(call))));
    s.step(false, ScanInput::ToolOutput("second".into()));
    let last = s.messages().last().unwrap();
    assert_eq!(last.content.clone().unwrap(), format!("second{REPEAT_NOTE}"));
}

#[test]
fn failed_request_ends_with_error_status() {
    let g = group();
    let (mut s, _, _) = ScanSession::start("s".into(), &g, ScanMode::Test, false);
    let (events, action) = s.step(false, ScanInput::Reply(Err(LlmError::EmptyResponse)));
    assert_eq!(action, ScanAction::Finished);
    match &events[0] {
        ScanEvent::Error { message, .. } => assert_eq!(message, "provider returned no choices"),
        other => panic!("unexpected {other:?}"),
    }
    assert_eq!(status_of(&events[1]), Some("error"));
}

#[test]
fn cancelled_session_ends_idle() {
    let g = group();
    let (s, events, action) = ScanSession::start("s".into(), &g, ScanMode::Test, true);
    assert_eq!(action, ScanAction::Finished);
    assert!(s.is_done());
    assert_eq!(status_of(events.last().unwrap()), Some("idle"));

    let (mut s, _, _) = ScanSession::start("s".into(), &g, ScanMode::Test, false);
    let call = assistant_calls(&[("a", "read_file", r#"{"path":"a"}"#), ("b", "read_file", r#"{"path":"b"}"#)]);
    s.step(false, ScanInput::Reply(Ok(Some(call))));
    let (events, action) = s.step(true, ScanInput::ToolOutput("text".into()));
    assert_eq!(action, ScanAction::Finished);
    assert_eq!(status_of(events.last().unwrap()), Some("idle"));
}

#[test]
fn replies_without_calls_are_logged_and_nudged_until_the_cap() {
    let g = group();
    let (mut s, _, _) = ScanSession::start("s".into(), &g, ScanMode::Test, false);
    let text: String = "x".repeat(300);
    let mut requests = 1;
    loop {
        let reply = ChatMessage { role: "assistant".into(), content: Some(text.clone()), tool_calls: None, tool_call_id: None };
        let (events, action) = s.step(false, ScanInput::Reply(Ok(Some(reply))));
        match &events[0] {
            ScanEvent::Log { message, .. } => {
                assert_eq!(message, &format!("(no tool call) {}", "x".repeat(240)));
            }
            other => panic!("unexpected {other:?}"),
        }
        match action {
            ScanAction::Request => {
                requests += 1;
                assert_eq!(
                    s.messages().last().unwrap().content.as_deref(),
                    Some("Continue investigating by calling a tool, or call submit_findings when you're done.")
                );
            }
            ScanAction::Finished => {
                assert_eq!(status_of(events.last().unwrap()), Some("scanned"));
                break;
            }
            other => panic!("unexpected {other:?}"),
        }
    }
    assert_eq!(requests, MAX_ITERATIONS);
}

#[test]
fn whitespace_reply_is_not_logged() {
    let g = group();
    let (mut s, _, _) = ScanSession::start("s".into(), &g, ScanMode::Test, false);
    let reply = ChatMessage { role: "assistant".into(), content: Some(" \n\t".into()), tool_calls: None, tool_call_id: None };
    let (events, action) = s.step(false, ScanInput::Reply(Ok(Some(reply))));
    assert!(events.is_empty());
    assert_eq!(action, ScanAction::Request);
}

#[test]
fn no_choice_ends_the_session() {
    let g = group();
    let (mut s, _, _) = ScanSession::start("s".into(), &g, ScanMode::Test, false);
    let (events, action) = s.step(false, ScanInput::Reply(Ok(None)));
    assert_eq!(action, ScanAction::Finished);
    assert_eq!(events.len(), 1);
    assert_eq!(status_of(&events[0]), Some("scanned"));
}

#[test]
fn model_is_told_to_conclude_near_the_cap() {
    let g = group();
    let (mut s, _, _) = ScanSession::start("s".into(), &g, ScanMode::Test, false);
    let mut round = 0;
    let mut nudges = Vec::new();
    loop {
        let call = assistant_calls(&[("c", "list_directory", &format!("{{\"n\":{round}}}"))]);
        let (_, action) = s.step(false, ScanInput::Reply(Ok(Some(call))));
        assert!(matches!(action, ScanAction::RunTool { .. }));
        let (_, action) = s.step(false, ScanInput::ToolOutput("[]".into()));
        let last = s.messages().last().unwrap();
        if last.role == "user" {
            nudges.push(last.content.clone().unwrap());
        }
        round += 1;
        if action == ScanAction::Finished {
            break;
        }
    }
    assert_eq!(round, 20);
    assert_eq!(nudges.len(), 3);
    assert!(nudges[0].starts_with("You have 3 tool call(s) left in this session."));
    assert!(nudges[2].starts_with("You have 1 tool call(s) left in this session."));
}

fn tool_msg(text: &str) -> ChatMessage {
    ChatMessage::tool_result("id".into(), text.into())
}

#[test]
fn trimming_keeps_the_six_most_recent_tool_results() {
    let mut messages = vec![ChatMessage::system("sys".into())];
    for i in 0..8 {
        messages.push(ChatMessage::user(format!("u{i}")));
        messages.push(tool_msg(&format!("t{i}")));
    }
    trim_old_tool_results(&mut messages);
    let tool_contents: Vec<String> = messages
        .iter()
        .filter(|m| m.role == "tool")
        .map(|m| m.content.clone().unwrap())
        .collect();
    assert_eq!(tool_contents[0], TRIMMED_PLACEHOLDER);
    assert_eq!(tool_contents[1], TRIMMED_PLACEHOLDER);
    for (i, c) in tool_contents.iter().enumerate().skip(2) {
        assert_eq!(c, &format!("t{i}"));
    }
    assert_eq!(messages[1].content.as_deref(), Some("u0"));
    let again = {
        let mut m = messages.clone();
        trim_old_tool_results(&mut m);
        m
    };
    let a: Vec<_> = again.iter().map(|m| m.content.clone()).collect();
    let b: Vec<_> = messages.iter().map(|m| m.content.clone()).collect();
    assert_eq!(a, b);
}

#[test]
fn trimming_few_results_changes_nothing() {
    let mut messages: Vec<ChatMessage> = (0..6).map(|i| tool_msg(&format!("t{i}"))).collect();
    trim_old_tool_results(&mut messages);
    for (i, m) in messages.iter().enumerate() {
        assert_eq!(m.content.clone().unwrap(), format!("t{i}"));
    }
}

#[test]
fn findings_outside_the_group_are_dropped() {
    let g = group();
    let (mut s, _, _) = ScanSession::start("s9".into(), &g, ScanMode::Test, false);
    let args = r#"{"findings":[]}"#;
    let reply = assistant_calls(&[("c1", "submit_findings", args)]);
    s.step(false, ScanInput::Reply(Ok(Some(reply))));
    let sub = |cat: &str| SubmittedFinding {
        category_id: cat.into(),
        title: "t".into(),
        severity: Severity::Low,
        description: "d".into(),
        evidence: vec![],
        fix_guidance: "f".into(),
    };
    let (events, action) =
        s.step(false, ScanInput::Findings(vec![sub("zzz"), sub("sql-injection"), sub("xss-stored")]));
    assert_eq!(action, ScanAction::Finished);
    let cats: Vec<&str> = events
        .iter()
        .filter_map(|e| match e {
            ScanEvent::Finding { finding, .. } => Some(finding.category_id.as_str()),
            _ => None,
        })
        .collect();
    assert_eq!(cats, vec!["sql-injection"]);
    assert_eq!(status_of(events.last().unwrap()), Some("scanned"));
}
