use vuln_hound::agent::prompt::{
    build_fix_system_prompt, build_scan_system_prompt, AGENTIC_PREAMBLE, PRODUCTION_MODE_BANNER,
    TEST_MODE_BANNER,
};
use vuln_hound::findings::{Finding, FindingEvidence, FindingStatus};
use vuln_hound::playbook::{PlaybookEntry, PlaybookGroup, Severity};
use vuln_hound::security::mode::ScanMode;

fn entry(id: &str, name: &str, sev: Severity, what: &str) -> PlaybookEntry {
    PlaybookEntry {
        id: id.into(),
        name: name.into(),
        base_severity: sev,
        what_it_is: what.into(),
        how_it_hurts_template: "".into(),
        fix_guidance_template: "".into(),
        requires_dynamic_test: false,
    }
}

#[test]
fn scan_prompt_lists_the_checklist() {
    let group = PlaybookGroup {
        id: "g".into(),
        order: 1,
        title: "Injection".into(),
        description: "input reaching interpreters".into(),
        entries: vec![
            entry("sql-injection", "SQL Injection", Severity::High, "queries from input"),
            entry("cmd", "Command Injection", Severity::Critical, "shell from input"),
        ],
    };
    let prompt = build_scan_system_prompt(&group, ScanMode::Production);
    let expected = format!(
        "{AGENTIC_PREAMBLE}\n\n{PRODUCTION_MODE_BANNER}\n\nYou are investigating the category group \"Injection\" (input reaching interpreters). Checklist for this group:\n- [sql-injection] SQL Injection (typical severity: High): queries from input\n- [cmd] Command Injection (typical severity: Critical): shell from input\n\nWhen you have finished investigating every applicable item, call submit_findings exactly once with everything you found. If you find nothing in this group, call submit_findings with an empty array."
    );
    assert_eq!(prompt, expected);
    let test_prompt = build_scan_system_prompt(&group, ScanMode::Test);
    assert!(test_prompt.contains(TEST_MODE_BANNER));
    assert!(!test_prompt.contains(PRODUCTION_MODE_BANNER));
}

#[test]
fn scan_prompt_with_empty_group() {
    let group = PlaybookGroup { id: "g".into(), order: 1, title: "T".into(), description: "".into(), entries: vec![] };
    let prompt = build_scan_system_prompt(&group, ScanMode::Test);
    assert!(prompt.contains("Checklist for this group:\n\n\nWhen you have finished"));
}

#[test]
fn fix_prompt_shows_evidence_in_debug_form() {
    let evidence = vec![
        FindingEvidence {
            file_path: "src/server.js".into(),
            line_start: Some(12),
            line_end: None,
            snippet: Some("db.query(\"SELECT \" + id)\n".into()),
        },
        FindingEvidence { file_path: "a\\b".into(), line_start: None, line_end: Some(4000000000), snippet: None },
    ];
    let finding = Finding {
        id: "id".into(),
        group_id: "g".into(),
        category_id: "sql-injection".into(),
        title: "Raw SQL".into(),
        severity: Severity::Medium,
        status: FindingStatus::Found,
        description: "concatenated".into(),
        evidence: evidence.clone(),
        fix_guidance: "bind parameters".into(),
        fix_diff: None,
        fix_summary: None,
        reverify_result: None,
        created_at: "t".into(),
        updated_at: "t".into(),
    };
    let prompt = build_fix_system_prompt(&finding);
    let expected = format!(
        "You are Vuln-Hound, a security code-fix agent. Fix exactly one confirmed finding by editing the affected file(s).\n\nFinding: Raw SQL\nSeverity: Medium\nWhy it matters: concatenated\nRecommended fix: bind parameters\nEvidence: {:?}\n\nRead the affected file(s) with read_file first to see their exact current contents, then call write_file_staged with the complete corrected file contents for each file you change. Make the smallest correct change that fully resolves the finding — do not refactor unrelated code. When done, call submit_fix_result exactly once.",
        evidence
    );
    assert_eq!(prompt, expected);
}
