use scout_audit::classify::{classify, get_crates, read_compiler_message, CompilerMessage};

fn diag(unit: &str, level: &str) -> String {
    format!(
        "{{\"reason\":\"compiler-message\",\"target\":{{\"name\":\"{}\"}},\"message\":{{\"level\":\"{}\",\"rendered\":\"x\"}}}}",
        unit, level
    )
}

fn finding(unit: &str, text: &str) -> String {
    format!("{{\"crate\":\"{}\",\"message\":{{\"text\":\"{}\"}}}}", unit, text)
}

#[test]
fn failed_unit_findings_are_suspect() {
    let stream = diag("pallet_a", "error") + "\n";
    let side = vec![finding("pallet_a", "one"), finding("pallet_b", "two"), finding("pallet_b", "three")];
    let c = classify(&stream, &side);
    assert_eq!(c.crates.built("pallet_a"), Some(false));
    assert_eq!(c.crates.built("pallet_b"), None);
    assert_eq!(c.trustworthy.len(), 2);
    assert!(c.trustworthy.iter().all(|f| f.unit == "pallet_b"));
    assert_eq!(c.suspect.len(), 1);
    assert_eq!(c.suspect[0].unit, "pallet_a");
    let payload: serde_json::Value = serde_json::from_str(&c.suspect[0].payload).unwrap();
    assert_eq!(payload["text"], "one");
}

#[test]
fn failure_is_not_undone_by_later_messages() {
    let stream = [diag("a", "warning"), diag("a", "error"), diag("a", "warning"), diag("b", "warning")].join("\n");
    let c = classify(&stream, &vec![]);
    assert_eq!(c.crates.built("a"), Some(false));
    assert_eq!(c.crates.built("b"), Some(true));
    assert!(c.crates.any_failed());
}

#[test]
fn unmentioned_unit_is_trusted() {
    let stream = diag("a", "warning");
    let c = classify(&stream, &vec![finding("other", "t")]);
    assert_eq!(c.trustworthy.len(), 1);
    assert_eq!(c.suspect.len(), 0);
    assert!(!c.crates.any_failed());
}

#[test]
fn malformed_lines_are_skipped() {
    let stream = format!("not json\n{}\n{{\"reason\":\"build-finished\"}}\n", diag("a", "error"));
    let c = classify(&stream, &vec!["garbage".to_string(), finding("a", "x")]);
    assert_eq!(c.messages.len(), 2);
    assert_eq!(c.crates.built("a"), Some(false));
    assert_eq!(c.suspect.len(), 1);
    assert_eq!(c.trustworthy.len(), 0);
}

#[test]
fn non_diagnostic_records_mention_no_unit() {
    let line = "{\"reason\":\"compiler-artifact\",\"target\":{\"name\":\"a\"},\"message\":{\"level\":\"error\"}}";
    let m = read_compiler_message(line).unwrap();
    assert_eq!(m.reason.as_deref(), Some("compiler-artifact"));
    let st = get_crates(&vec![m]);
    assert_eq!(st.built("a"), None);
}

#[test]
fn message_fields_are_read() {
    let m = read_compiler_message(&diag("u", "error")).unwrap();
    assert!(m.has_message);
    assert_eq!(m.unit.as_deref(), Some("u"));
    assert_eq!(m.level.as_deref(), Some("error"));
    assert!(read_compiler_message("{").is_none());
}

#[test]
fn record_without_message_is_ignored() {
    let m = CompilerMessage {
        reason: Some("compiler-message".to_string()),
        has_message: false,
        unit: Some("a".to_string()),
        level: Some("error".to_string()),
    };
    assert_eq!(get_crates(&vec![m]).built("a"), None);
}

#[test]
fn finding_without_crate_member_is_dropped() {
    let side = vec![
        "{\"message\":{}}".to_string(),
        "{\"crate\":7,\"message\":{}}".to_string(),
        finding("u", "kept"),
    ];
    let c = classify("", &side);
    assert_eq!(c.trustworthy.len(), 1);
    assert_eq!(c.trustworthy[0].unit, "u");
    assert!(c.messages.is_empty());
}

#[test]
fn messages_follow_line_order() {
    let stream = [diag("first", "warning"), "junk".to_string(), diag("second", "error")].join("\n");
    let c = classify(&stream, &vec![]);
    assert_eq!(c.messages.len(), 2);
    assert_eq!(c.messages[0].unit.as_deref(), Some("first"));
    assert_eq!(c.messages[1].unit.as_deref(), Some("second"));
    assert_eq!(c.messages[1].level.as_deref(), Some("error"));
}
