use zeroclaw::contemplation::{bridge_reply_text, finish_contemplation, plan_contemplation, request_payload, ContemplationConfig};

fn config(enabled: bool, command: Option<&str>) -> ContemplationConfig {
    ContemplationConfig { enabled, command: command.map(|c| c.to_string()), timeout_ms: 30, max_output_chars: 10 }
}

#[test]
fn disabled_or_blank_bridge_is_skipped() {
    assert!(plan_contemplation(&config(false, Some("echo")), None, "cli", "hi").is_none());
    assert!(plan_contemplation(&config(true, None), None, "cli", "hi").is_none());
    assert!(plan_contemplation(&config(true, Some("   ")), None, "cli", "hi").is_none());
}

#[test]
fn plan_carries_trimmed_command_and_request() {
    let plan = plan_contemplation(&config(true, Some("  ./think.sh ")), Some("s1"), "telegram", "say \"hi\"").unwrap();
    assert_eq!(plan.command, "./think.sh");
    assert_eq!(plan.payload, "{\"session_id\":\"s1\",\"channel\":\"telegram\",\"message\":\"say \\\"hi\\\"\"}");
    assert_eq!(plan.timeout_ms, 100);
    let mut cfg = config(true, Some("x"));
    cfg.timeout_ms = 5000;
    let plan = plan_contemplation(&cfg, None, "cli", "m").unwrap();
    assert_eq!(plan.payload, "{\"session_id\":null,\"channel\":\"cli\",\"message\":\"m\"}");
    assert_eq!(plan.timeout_ms, 5000);
}

#[test]
fn request_payload_escapes_like_json() {
    assert_eq!(request_payload(None, "cli", "hello"), "{\"session_id\":null,\"channel\":\"cli\",\"message\":\"hello\"}");
    assert_eq!(
        request_payload(Some("x\ty"), "web", "multi\nline \\ \u{1} é"),
        "{\"session_id\":\"x\\ty\",\"channel\":\"web\",\"message\":\"multi\\nline \\\\ \\u0001 é\"}"
    );
}

#[test]
fn reply_text_is_trimmed_utf8() {
    assert_eq!(bridge_reply_text(b"  better \n".to_vec()), Some("better".to_string()));
    assert_eq!(bridge_reply_text(b" \n\t".to_vec()), None);
    assert_eq!(bridge_reply_text(vec![0xff, 0x41]), None);
}

#[test]
fn finish_prefers_json_message_and_truncates() {
    assert_eq!(finish_contemplation("{\"message\":\"new\"}", Some(Some("new".into())), 10), "new");
    assert_eq!(finish_contemplation("{\"other\":1}", Some(None), 10), "{\"other\":1}");
    assert_eq!(finish_contemplation("plain text", None, 10), "plain text");
    let long = "a".repeat(300);
    let out = finish_contemplation(&long, None, 10);
    assert_eq!(out, format!("{}...", "a".repeat(256)));
    let out = finish_contemplation(&long, None, 280);
    assert_eq!(out, format!("{}...", "a".repeat(280)));
    let out = finish_contemplation(&long, None, 300);
    assert_eq!(out, long);
}
