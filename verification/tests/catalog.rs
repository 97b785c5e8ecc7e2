use vuln_hound::agent::session::SessionRegistry;
use vuln_hound::findings::{Finding, FindingStatus, SubmittedFinding};
use vuln_hound::llm::providers::{find_preset, provider_presets};
use vuln_hound::playbook::{find_group_for_scan, Playbook, PlaybookGroup, Severity};
use vuln_hound::secrets::{
    delete_api_key, delete_outcome, get_api_key, has_api_key, key_is_readable, keychain_failure, read_key_outcome,
    save_api_key, stage_outcome,
    KeychainStage, StoreFailure,
};
use vuln_hound::settings::Settings;

#[test]
fn presets_are_offered_in_order() {
    let ids: Vec<&str> = provider_presets().iter().map(|p| p.id).collect();
    assert_eq!(
        ids,
        vec!["lmstudio", "ollama", "groq", "openrouter", "opencode-zen", "opencode-go", "gemini", "custom"]
    );
    let groq = find_preset("groq").unwrap();
    assert_eq!(groq.base_url, "https://api.groq.com/openai/v1");
    assert!(groq.requires_key);
    assert_eq!(find_preset("opencode-go").unwrap().family, Some("OpenCode"));
    assert!(find_preset("nope").is_none());
}

#[test]
fn default_settings_use_lm_studio() {
    let s = Settings::default();
    assert_eq!(s.provider_id, "lmstudio");
    assert_eq!(s.base_url, "http://localhost:1234/v1");
    assert_eq!(s.model, "local-model");
}

fn group(id: &str) -> PlaybookGroup {
    PlaybookGroup { id: id.into(), order: 1, title: id.into(), description: "".into(), entries: vec![] }
}

#[test]
fn groups_are_found_by_id() {
    let playbook = Playbook { version: 1, groups: vec![group("a"), group("b")] };
    assert_eq!(playbook.group("b").unwrap().id, "b");
    assert!(playbook.group("c").is_none());
    assert_eq!(find_group_for_scan(&playbook, "a").unwrap().id, "a");
    assert_eq!(find_group_for_scan(&playbook, "zz").unwrap_err(), "unknown checklist group: zz");
}

#[test]
fn findings_get_fresh_ids_and_found_status() {
    let submitted = SubmittedFinding {
        category_id: "xss".into(),
        title: "Reflected".into(),
        severity: Severity::Low,
        description: "d".into(),
        evidence: vec![],
        fix_guidance: "escape".into(),
    };
    let a = Finding::from_submitted("client-side", submitted.clone());
    let b = Finding::from_submitted("client-side", submitted);
    assert_eq!(a.status, FindingStatus::Found);
    assert_eq!(a.group_id, "client-side");
    assert_eq!(a.category_id, "xss");
    assert_ne!(a.id, b.id);
    let bytes = a.id.as_bytes();
    assert_eq!(bytes.len(), 36);
    assert_eq!(bytes[8], b'-');
    assert_eq!(bytes[14], b'4');
    assert!(a.fix_diff.is_none());
    assert_eq!(a.created_at, a.updated_at);
    assert!(a.created_at.ends_with("+00:00"), "{}", a.created_at);
    assert_eq!(a.created_at.as_bytes()[10], b'T');
    let c = Finding::from_submitted_at(
        "g",
        SubmittedFinding {
            category_id: "c".into(),
            title: "t".into(),
            severity: Severity::High,
            description: "d".into(),
            evidence: vec![],
            fix_guidance: "f".into(),
        },
        "id-1".into(),
        "2024-01-01T00:00:00+00:00".into(),
    );
    assert_eq!(c.id, "id-1");
    assert_eq!(c.updated_at, "2024-01-01T00:00:00+00:00");
}

#[test]
fn registry_tracks_and_cancels_sessions() {
    let mut registry = SessionRegistry::new();
    let token = registry.register("s1".into());
    assert!(registry.contains("s1"));
    assert!(!token.is_cancelled());
    registry.cancel("s1");
    assert!(token.is_cancelled());
    registry.cancel("unknown");
    let second = registry.register("s1".into());
    assert!(!second.is_cancelled());
    registry.remove("s1");
    assert!(!registry.contains("s1"));
    registry.cancel("s1");
    assert!(!second.is_cancelled());
}

#[test]
fn keychain_failures_name_their_stage() {
    assert_eq!(keychain_failure(KeychainStage::Save, "locked"), "couldn't save the key: locked");
    keyring::set_default_credential_builder(keyring::mock::default_credential_builder());
    let err = get_api_key("vuln-hound-test-provider").unwrap_err();
    assert!(err.starts_with("couldn't read the key: "), "{err}");
    assert!(!has_api_key("vuln-hound-test-provider"));
    assert_eq!(delete_api_key("vuln-hound-test-provider"), Ok(()));
    assert_eq!(save_api_key("vuln-hound-test-provider", "k"), Ok(()));
}

#[test]
fn store_answers_become_outcomes() {
    let locked = StoreFailure { no_entry: false, detail: "locked".to_string() };
    assert_eq!(
        stage_outcome(KeychainStage::Read, Err::<String, _>(locked.clone())),
        Err("couldn't read the key: locked".to_string())
    );
    assert_eq!(stage_outcome(KeychainStage::Save, Ok::<(), StoreFailure>(())), Ok(()));
    let missing = StoreFailure { no_entry: true, detail: "no entry".to_string() };
    assert_eq!(delete_outcome(Err(missing)), Ok(()));
    assert_eq!(delete_outcome(Err(locked)), Err("couldn't delete the key: locked".to_string()));
    assert_eq!(delete_outcome(Ok(())), Ok(()));
}

#[test]
fn a_key_is_readable_only_when_the_store_opens_and_reads() {
    let fail = || StoreFailure { no_entry: true, detail: "none".to_string() };
    assert!(key_is_readable(Ok(Ok("k".to_string()))));
    assert!(!key_is_readable(Ok(Err(fail()))));
    assert!(!key_is_readable(Err(fail())));
}

#[test]
fn reading_a_key_reports_the_failing_stage() {
    let fail = |d: &str| StoreFailure { no_entry: false, detail: d.to_string() };
    assert_eq!(read_key_outcome(Ok(Ok("sk".to_string()))), Ok("sk".to_string()));
    assert_eq!(
        read_key_outcome(Ok(Err(fail("no key")))),
        Err("couldn't read the key: no key".to_string())
    );
    assert_eq!(
        read_key_outcome(Err(fail("locked"))),
        Err("couldn't access the system keychain: locked".to_string())
    );
}
