use zeroclaw::mempalace::{
    default_python_command, entries_from_search, hits_to_entries, merge_results, search_args,
    search_outcome, settings_from_env, setting_u64, setting_usize, venv_python_path,
    MemoryCategory, MemoryEntry, MempalaceError, MempalaceHit, MempalaceMemory, MempalaceSearch,
    MempalaceSettings, SEARCH_SCRIPT,
};

fn entry(key: &str, content: &str) -> MemoryEntry {
    MemoryEntry {
        id: format!("id-{key}"),
        key: key.to_string(),
        content: content.to_string(),
        category: MemoryCategory::Core,
        timestamp: "2024-01-01T00:00:00+00:00".to_string(),
        session_id: None,
        score_bits: None,
    }
}

fn settings() -> MempalaceSettings {
    settings_from_env(None, "python3".to_string(), None, None, None, None)
}

#[test]
fn mempalace_backend_reports_expected_name() {
    let memory = MempalaceMemory::with_settings((), settings());
    assert_eq!(memory.name(), "mempalace");
}

#[test]
fn settings_defaults_and_minimums() {
    let s = settings();
    assert_eq!(s.python_cmd, "python3");
    assert_eq!(s.palace_path, None);
    assert_eq!(s.recall_timeout_ms, 900);
    assert_eq!(s.local_hit_threshold, 3);
    assert_eq!(s.failure_cooldown_ms, 20_000);

    let s = settings_from_env(
        Some("  /opt/py  "),
        "python3".to_string(),
        Some(" /palace "),
        Some("10"),
        Some("0"),
        Some("100"),
    );
    assert_eq!(s.python_cmd, "/opt/py");
    assert_eq!(s.palace_path.as_deref(), Some("/palace"));
    assert_eq!(s.recall_timeout_ms, 50);
    assert_eq!(s.local_hit_threshold, 1);
    assert_eq!(s.failure_cooldown_ms, 500);

    let s = settings_from_env(Some("   "), "/venv/python".to_string(), Some(""), Some("abc"), Some("7"), Some(" 900"));
    assert_eq!(s.python_cmd, "/venv/python");
    assert_eq!(s.palace_path, None);
    assert_eq!(s.recall_timeout_ms, 900);
    assert_eq!(s.local_hit_threshold, 7);
    assert_eq!(s.failure_cooldown_ms, 20_000);
}

#[test]
fn numeric_settings() {
    assert_eq!(setting_u64(None, 5, 2), 5);
    assert_eq!(setting_u64(Some("1"), 5, 2), 2);
    assert_eq!(setting_u64(Some("+8"), 5, 2), 8);
    assert_eq!(setting_usize(Some("-3"), 4, 1), 4);
}

#[test]
fn python_command_fallback() {
    assert_eq!(venv_python_path("/home/u"), "/home/u/.zeroclaw/venvs/mempalace/bin/python");
    assert_eq!(default_python_command(Some("/home/u/x")), "/home/u/x");
    assert_eq!(default_python_command(None), "python3");
}

#[test]
fn merge_drops_case_insensitive_duplicates() {
    let local = vec![entry("Key", "Content"), entry("other", "x")];
    let remote = vec![entry("key", "CONTENT"), entry("new", "y"), entry("other", "x")];
    let merged = merge_results(local, remote, 10);
    let keys: Vec<&str> = merged.iter().map(|e| e.key.as_str()).collect();
    assert_eq!(keys, vec!["Key", "other", "new"]);
}

#[test]
fn merge_respects_limit_and_keeps_local_first() {
    let local = vec![entry("a", "1"), entry("b", "2")];
    let remote = vec![entry("c", "3"), entry("d", "4")];
    let merged = merge_results(local, remote, 3);
    let keys: Vec<&str> = merged.iter().map(|e| e.key.as_str()).collect();
    assert_eq!(keys, vec!["a", "b", "c"]);
    let merged = merge_results(vec![entry("a", "1"), entry("b", "2")], vec![entry("c", "3")], 2);
    assert_eq!(merged.len(), 2);
    assert_eq!(merged[1].key, "b");
    assert!(merge_results(vec![entry("a", "1")], vec![], 0).is_empty());
}

#[test]
fn merge_separates_key_from_content() {
    let merged = merge_results(vec![entry("ab", "c")], vec![entry("a", "bc")], 5);
    assert_eq!(merged.len(), 2);
}

#[test]
fn search_command_arguments() {
    let args = search_args(Some("/p"), "what", 7);
    assert_eq!(args, vec!["-c".to_string(), SEARCH_SCRIPT.to_string(), "what".to_string(), "/p".to_string(), "7".to_string()]);
    let args = search_args(Some("   "), "q", 12);
    assert_eq!(args[3], "__AUTO__");
    assert_eq!(args[4], "12");
    let args = search_args(None, "q", 1);
    assert_eq!(args[3], "__AUTO__");
    let args = search_args(Some(" /p "), "q", 1);
    assert_eq!(args[3], " /p ");
}

#[test]
fn search_outcomes() {
    match search_outcome(true, b"  {\"results\": []}\n", b"") {
        Ok(t) => assert_eq!(t, "{\"results\": []}"),
        Err(_) => panic!("expected output"),
    }
    match search_outcome(false, b"", b"boom\xff") {
        Err(MempalaceError::CommandFailed(m)) => assert_eq!(m, "boom\u{fffd}"),
        _ => panic!("expected failure"),
    }
}

#[test]
fn error_messages() {
    assert_eq!(MempalaceError::TimedOut { after_ms: 900 }.message(), "mempalace search timed out after 900ms");
    assert_eq!(MempalaceError::CommandFailed("x".into()).message(), "mempalace search command failed: x");
    assert_eq!(MempalaceError::OutputParse("y".into()).message(), "mempalace search output parse failed: y");
    assert_eq!(MempalaceError::Search("z".into()).message(), "mempalace search returned error: z");
    assert_eq!(MempalaceError::Io("io".into()).message(), "io");
}

fn hit(text: &str, wing: &str, room: &str, file: &str) -> MempalaceHit {
    MempalaceHit {
        text: text.to_string(),
        wing: wing.to_string(),
        room: room.to_string(),
        source_file: file.to_string(),
        similarity_bits: Some(0.5f64.to_bits()),
    }
}

#[test]
fn hits_become_entries() {
    let hits = vec![hit("t0", " w ", "r", " f.md "), hit("t1", "w2", " r2 ", "g")];
    let es = hits_to_entries(&hits, "NOW");
    assert_eq!(es.len(), 2);
    assert_eq!(es[0].id, "mempalace:0");
    assert_eq!(es[0].key, "mempalace:w:r:f.md");
    assert_eq!(es[0].content, "t0");
    assert_eq!(es[0].category, MemoryCategory::Conversation);
    assert_eq!(es[0].timestamp, "NOW");
    assert_eq!(es[0].session_id, None);
    assert_eq!(es[0].score_bits.map(f64::from_bits), Some(0.5));
    assert_eq!(es[1].id, "mempalace:1");
    assert_eq!(es[1].key, "mempalace:w2:r2:g");
}

#[test]
fn search_answer_with_error_fails() {
    let search = MempalaceSearch { error: Some("no palace".into()), results: Some(vec![hit("a", "b", "c", "d")]) };
    match entries_from_search(&search) {
        Err(MempalaceError::Search(m)) => assert_eq!(m, "no palace"),
        _ => panic!("expected error"),
    }
    let search = MempalaceSearch { error: None, results: None };
    assert!(entries_from_search(&search).unwrap().is_empty());
    let search = MempalaceSearch { error: None, results: Some(vec![hit("a", "b", "c", "d")]) };
    let es = entries_from_search(&search).unwrap();
    assert_eq!(es.len(), 1);
    assert_eq!(es[0].key, "mempalace:b:c:d");
    let ts: Vec<char> = es[0].timestamp.chars().collect();
    let n = ts.len();
    assert!(n >= 25, "timestamp {:?}", es[0].timestamp);
    assert_eq!(ts[4], '-');
    assert_eq!(ts[7], '-');
    assert_eq!(ts[10], 'T');
    assert_eq!(ts[13], ':');
    assert_eq!(ts[16], ':');
    assert!(ts[n - 6] == '+' || ts[n - 6] == '-');
    assert_eq!(ts[n - 3], ':');
    assert!(ts[..4].iter().all(|c| c.is_ascii_digit()));
}

#[test]
fn bridge_gate_and_failure_cooldown() {
    let mut m = MempalaceMemory::with_settings((), settings());
    assert!(!m.should_query_bridge(0, 0));
    assert!(!m.should_query_bridge(5, 3));
    assert!(m.should_query_bridge(5, 2));
    assert!(!m.in_failure_cooldown());

    let local = vec![entry("a", "1")];
    let out = m.finish_recall_at(local, Err(MempalaceError::Io("down".into())), 5, 1_000);
    assert_eq!(out.len(), 1);
    assert!(m.in_failure_cooldown_at(1_000));
    assert!(m.in_failure_cooldown_at(1_000 + 19_999_999_999));
    assert!(!m.in_failure_cooldown_at(1_000 + 20_000_000_000));
    assert!(!m.should_query_bridge_at(5, 0, 2_000));
    assert!(m.should_query_bridge_at(5, 0, 1_000 + 20_000_000_000));

    let out = m.finish_recall_at(vec![entry("a", "1")], Ok(vec![entry("A", "1"), entry("b", "2")]), 5, 3_000);
    let keys: Vec<&str> = out.iter().map(|e| e.key.as_str()).collect();
    assert_eq!(keys, vec!["a", "b"]);
    assert!(!m.in_failure_cooldown_at(3_000));
}

#[test]
fn finish_recall_reads_clock_on_failure() {
    let mut m = MempalaceMemory::with_settings(7u8, settings());
    let out = m.finish_recall(vec![], Err(MempalaceError::TimedOut { after_ms: 900 }), 3);
    assert!(out.is_empty());
    assert!(m.in_failure_cooldown());
    assert!(!m.should_query_bridge(3, 0));
    assert_eq!(*m.local(), 7u8);
    assert_eq!(m.settings().local_hit_threshold, 3);
    let out = m.finish_recall(vec![entry("x", "y")], Ok(vec![]), 3);
    assert_eq!(out.len(), 1);
    assert!(!m.in_failure_cooldown());
}
