use vuln_hound::agent::tool_registry::{
    build_fix_tools, build_scan_tools, plan_readonly_tool, tool_result_text, ToolRequest,
    GET_DEPENDENCY_MANIFESTS, LIST_DIRECTORY, READ_FILE, SEARCH_TEXT, SUBMIT_FINDINGS,
    SUBMIT_FIX_RESULT, WRITE_FILE_STAGED,
};
use vuln_hound::llm::types::JsonValue;
use vuln_hound::playbook::{PlaybookEntry, PlaybookGroup, Severity};
use vuln_hound::tools::error::ToolError;

/// Names that must never appear in a Production-mode scan registry.
const DYNAMIC_TOOL_NAMES: &[&str] = &[];

#[test]
fn scan_tools_never_contain_dynamic_tools() {
    let group = PlaybookGroup {
        id: "test".into(),
        order: 1,
        title: "Test".into(),
        description: "".into(),
        entries: vec![],
    };
    let tools = build_scan_tools(&group);
    for tool in &tools {
        assert!(
            !DYNAMIC_TOOL_NAMES.contains(&tool.function.name.as_str()),
            "dynamic tool {} must be gated behind ScanMode::Test",
            tool.function.name
        );
    }
}

#[test]
fn fix_tools_never_contain_network_tools() {
    let tools = build_fix_tools();
    for tool in &tools {
        assert!(!tool.function.name.contains("http"));
        assert!(!tool.function.name.contains("request"));
    }
}

fn entry(id: &str) -> PlaybookEntry {
    PlaybookEntry {
        id: id.into(),
        name: format!("Name of {id}"),
        base_severity: Severity::High,
        what_it_is: "what".into(),
        how_it_hurts_template: "hurts".into(),
        fix_guidance_template: "fix".into(),
        requires_dynamic_test: false,
    }
}

fn lookup<'a>(v: &'a JsonValue, key: &str) -> &'a JsonValue {
    match v {
        JsonValue::Object(fields) => &fields.iter().find(|(k, _)| k == key).expect("key present").1,
        _ => panic!("not an object"),
    }
}

#[test]
fn scan_tools_are_the_read_only_set_in_order() {
    let group = PlaybookGroup {
        id: "g".into(),
        order: 1,
        title: "G".into(),
        description: "d".into(),
        entries: vec![entry("sql-injection"), entry("xss")],
    };
    let names: Vec<String> = build_scan_tools(&group).iter().map(|t| t.function.name.clone()).collect();
    assert_eq!(
        names,
        vec![LIST_DIRECTORY, READ_FILE, SEARCH_TEXT, GET_DEPENDENCY_MANIFESTS, SUBMIT_FINDINGS]
    );
    let fix_names: Vec<String> = build_fix_tools().iter().map(|t| t.function.name.clone()).collect();
    assert_eq!(
        fix_names,
        vec![LIST_DIRECTORY, READ_FILE, SEARCH_TEXT, WRITE_FILE_STAGED, SUBMIT_FIX_RESULT]
    );
}

#[test]
fn submit_findings_category_enum_is_the_group_entries() {
    let group = PlaybookGroup {
        id: "g".into(),
        order: 1,
        title: "G".into(),
        description: "d".into(),
        entries: vec![entry("sql-injection"), entry("xss")],
    };
    let tools = build_scan_tools(&group);
    let submit = &tools[4].function.parameters;
    let items = lookup(lookup(lookup(submit, "properties"), "findings"), "items");
    let cat = lookup(lookup(items, "properties"), "categoryId");
    match lookup(cat, "enum") {
        JsonValue::Array(values) => {
            let ids: Vec<&str> = values
                .iter()
                .map(|v| match v {
                    JsonValue::Str(s) => s.as_str(),
                    _ => panic!("not a string"),
                })
                .collect();
            assert_eq!(ids, vec!["sql-injection", "xss"]);
        }
        _ => panic!("enum is not an array"),
    }
    match lookup(submit, "required") {
        JsonValue::Array(values) => assert_eq!(values.len(), 1),
        _ => panic!("required is not an array"),
    }
}

#[test]
fn read_file_call_reads_its_path_argument() {
    assert_eq!(
        plan_readonly_tool("read_file", r#"{"path":"src/server.js"}"#),
        ToolRequest::ReadFile { path: "src/server.js".into() }
    );
    assert_eq!(
        plan_readonly_tool("search_text", r#"{"pattern":"sk_live_[a-z0-9]+"}"#),
        ToolRequest::SearchText { pattern: "sk_live_[a-z0-9]+".into(), max_matches: 60 }
    );
}

#[test]
fn missing_or_malformed_arguments_default_to_empty() {
    assert_eq!(plan_readonly_tool("read_file", "not json"), ToolRequest::ReadFile { path: "".into() });
    assert_eq!(plan_readonly_tool("read_file", r#"{"path":7}"#), ToolRequest::ReadFile { path: "".into() });
    assert_eq!(plan_readonly_tool("list_directory", ""), ToolRequest::ListDirectory { max_entries: 400 });
    assert_eq!(plan_readonly_tool("get_dependency_manifests", "{}"), ToolRequest::GetDependencyManifests);
}

#[test]
fn unknown_tool_is_answered_with_an_error() {
    assert_eq!(
        plan_readonly_tool("http_get", "{}"),
        ToolRequest::Unknown { message: "error: unknown tool 'http_get'".into() }
    );
}

#[test]
fn tool_errors_are_reported_as_text() {
    assert_eq!(tool_result_text(Ok("[]".into())), "[]");
    assert_eq!(
        tool_result_text(Err(ToolError::PathEscape)),
        "error: path escapes the target directory"
    );
    assert_eq!(
        tool_result_text(Err(ToolError::NotFound("a.txt".into()))),
        "error: path not found: a.txt"
    );
    assert_eq!(tool_result_text(Err(ToolError::NotUtf8)), "error: not a valid UTF-8 text file");
    assert_eq!(
        tool_result_text(Err(ToolError::InvalidPattern("bad".into()))),
        "error: invalid search pattern: bad"
    );
    assert_eq!(tool_result_text(Err(ToolError::Io("denied".into()))), "error: io error: denied");
}
