use vuln_hound::tools::error::ToolError;
use vuln_hound::tools::fs_tools::{
    compile_search_pattern, decode_file_contents, get_dependency_manifests, is_manifest_filename,
    list_directory, manifest_candidates, resolve_within_root, walk_admits, EntryKind,
    MatchCollector, SearchMatch, SearchResults, WalkEntry, MAX_READ_BYTES,
};

fn walked(depth: usize, path: &str, kind: EntryKind) -> Option<WalkEntry> {
    let name = path.rsplit('/').next().unwrap().to_string();
    Some(WalkEntry { depth, path: path.into(), file_name: name, kind })
}

#[test]
fn walk_skips_build_and_dependency_directories() {
    assert!(!walk_admits("node_modules"));
    assert!(!walk_admits(".git"));
    assert!(!walk_admits("__pycache__"));
    assert!(walk_admits("src"));
    assert!(walk_admits("node_modules2"));
}

#[test]
fn listing_skips_root_and_unreadable_entries() {
    let walk = vec![
        walked(0, "", EntryKind::Dir),
        walked(1, "package.json", EntryKind::File),
        None,
        walked(1, "src", EntryKind::Dir),
        walked(2, "src/server.js", EntryKind::File),
    ];
    let entries = list_directory(&walk, 100).unwrap();
    let paths: Vec<(&str, bool)> = entries.iter().map(|e| (e.path.as_str(), e.is_dir)).collect();
    assert_eq!(paths, vec![("package.json", false), ("src", true), ("src/server.js", false)]);
    assert_eq!(list_directory(&walk, 2).unwrap().len(), 2);
    assert_eq!(list_directory(&walk, 0).unwrap().len(), 1);
    assert!(list_directory(&vec![], 0).unwrap().is_empty());
}

fn comps(parts: &[&str]) -> Vec<String> {
    parts.iter().map(|s| s.to_string()).collect()
}

#[test]
fn reads_are_confined_to_the_root() {
    let root = comps(&["/", "tmp", "app"]);
    assert_eq!(
        resolve_within_root(Ok(root.clone()), Some(comps(&["/", "tmp", "app", "src", "a.js"])), "src/a.js"),
        Ok(comps(&["/", "tmp", "app", "src", "a.js"]))
    );
    assert_eq!(
        resolve_within_root(Ok(root.clone()), Some(comps(&["/", "etc", "passwd"])), "../../../etc/passwd"),
        Err(ToolError::PathEscape)
    );
    assert_eq!(
        resolve_within_root(Ok(root.clone()), Some(comps(&["/", "tmp", "application"])), "../application"),
        Err(ToolError::PathEscape)
    );
    assert_eq!(
        resolve_within_root(Ok(root.clone()), None, "missing.txt"),
        Err(ToolError::NotFound("missing.txt".into()))
    );
    assert_eq!(
        resolve_within_root(Err("gone".into()), None, "x"),
        Err(ToolError::Io("gone".into()))
    );
}

#[test]
fn file_contents_are_utf8_and_bounded() {
    assert_eq!(decode_file_contents(b"const key = 1;".to_vec()), Ok("const key = 1;".into()));
    assert_eq!(decode_file_contents(vec![0xff, 0xfe]), Err(ToolError::NotUtf8));
    let long = vec![b'a'; MAX_READ_BYTES + 10];
    assert_eq!(decode_file_contents(long).unwrap().len(), MAX_READ_BYTES);
    let mut cut = vec![b'a'; MAX_READ_BYTES - 1];
    cut.extend_from_slice("é".as_bytes());
    assert_eq!(decode_file_contents(cut), Err(ToolError::NotUtf8));
}

#[test]
fn invalid_patterns_are_reported() {
    assert!(compile_search_pattern("sk_live_[a-z0-9]+").is_ok());
    match compile_search_pattern("(unclosed") {
        Err(ToolError::InvalidPattern(message)) => assert!(!message.is_empty()),
        _ => panic!("expected an invalid pattern"),
    }
}

#[test]
fn match_collector_respects_its_budget() {
    let mut c = MatchCollector::new("src/server.js".into(), 2);
    assert!(c.matched(b"const key = 1;  \n", Some(1)));
    assert!(!c.matched(b"two\n", None));
    assert!(!c.matched(b"three\n", Some(3)));
    let found = c.into_matches();
    assert_eq!(found.len(), 2);
    assert_eq!(found[0].line, "const key = 1;");
    assert_eq!(found[0].line_number, 1);
    assert_eq!(found[1].line_number, 0);
    assert_eq!(found[1].path, "src/server.js");
    let mut lossy = MatchCollector::new("b".into(), 5);
    lossy.matched(&[b'a', 0xff, b'b'], Some(9));
    assert_eq!(lossy.into_matches()[0].line, "a\u{fffd}b");
}

#[test]
fn search_results_fill_up_to_the_limit() {
    let mut results = SearchResults::new(3);
    assert_eq!(results.remaining(), 3);
    let mut c = MatchCollector::new("a".into(), results.remaining());
    c.matched(b"x", Some(1));
    c.matched(b"y", Some(2));
    results.absorb(c.into_matches());
    assert!(!results.is_full());
    assert_eq!(results.remaining(), 1);
    let mut c = MatchCollector::new("b".into(), results.remaining());
    c.matched(b"z", Some(5));
    results.absorb(c.into_matches());
    assert!(results.is_full());
    assert!(SearchResults::searches(EntryKind::File));
    assert!(!SearchResults::searches(EntryKind::Dir));
    assert_eq!(results.into_matches().len(), 3);
}

#[test]
fn manifests_are_found_by_file_name() {
    assert!(is_manifest_filename("package.json"));
    assert!(is_manifest_filename("Cargo.toml"));
    assert!(!is_manifest_filename("cargo.toml"));
    let walk = vec![
        walked(0, "", EntryKind::Dir),
        walked(1, "package.json", EntryKind::File),
        walked(1, "go.mod", EntryKind::Dir),
        None,
        walked(2, "api/requirements.txt", EntryKind::File),
        walked(2, "api/main.py", EntryKind::File),
    ];
    assert_eq!(manifest_candidates(&walk), vec!["package.json".to_string(), "api/requirements.txt".into()]);
    let reads = vec![
        ("package.json".to_string(), Ok("{\"name\":\"demo\"}".to_string())),
        ("api/requirements.txt".to_string(), Err(ToolError::NotUtf8)),
    ];
    let manifests = get_dependency_manifests(reads).unwrap();
    assert_eq!(manifests.len(), 1);
    assert_eq!(manifests[0].path, "package.json");
    assert_eq!(manifests[0].content, "{\"name\":\"demo\"}");
}

#[test]
fn search_results_never_exceed_the_limit() {
    let m = |n: u64| SearchMatch { path: "f".into(), line_number: n, line: "x".into() };
    let mut results = SearchResults::new(2);
    results.absorb(vec![m(1), m(2), m(3)]);
    assert!(results.is_full());
    results.absorb(vec![m(4)]);
    let found = results.into_matches();
    assert_eq!(found.iter().map(|f| f.line_number).collect::<Vec<_>>(), vec![1, 2]);
}
