use std::collections::VecDeque;

use codex_runtime::seatbelt_denials::format_sandbox_denials;
use codex_runtime::seatbelt_denials::parse_log_line;
use codex_runtime::seatbelt_denials::parse_message;
use codex_runtime::seatbelt_denials::push_logged_denial;
use codex_runtime::seatbelt_denials::DenialCollector;
use codex_runtime::seatbelt_denials::LoggedDenial;
use codex_runtime::seatbelt_denials::SandboxDenial;
use codex_runtime::seatbelt_denials::MAX_COLLECTED_LOG_CHARS;

fn logged_denial(pid: i32, name: String) -> LoggedDenial {
    let chars = name.chars().count();
    LoggedDenial { pid, denial: SandboxDenial { name, capability: String::new() }, chars }
}

fn record(message: &str) -> Vec<u8> {
    let mut object = serde_json::Map::new();
    object.insert("eventMessage".to_string(), serde_json::Value::String(message.to_string()));
    serde_json::to_vec(&serde_json::Value::Object(object)).expect("valid log record")
}

#[test]
fn collected_logs_are_capped_at_one_thousand_characters() {
    let mut logged_denials = VecDeque::new();
    let mut collected_chars = 0;
    let old_denial = logged_denial(1, "a".repeat(600));
    let recent_denial = logged_denial(2, "é".repeat(500));

    push_logged_denial(
        &mut logged_denials,
        &mut collected_chars,
        old_denial,
        Some(MAX_COLLECTED_LOG_CHARS),
    );
    push_logged_denial(
        &mut logged_denials,
        &mut collected_chars,
        recent_denial.clone(),
        Some(MAX_COLLECTED_LOG_CHARS),
    );

    assert_eq!(logged_denials, VecDeque::from([recent_denial]));
    assert_eq!(collected_chars, 500);
}

#[test]
fn parses_denial_from_large_log_record() {
    let mut object = serde_json::Map::new();
    object.insert(
        "eventMessage".to_string(),
        serde_json::Value::String(
            "Sandbox: touch(1234) deny(1) file-write-create /private/tmp/nope".to_string(),
        ),
    );
    object.insert("metadata".to_string(), serde_json::Value::String("x".repeat(2_000)));
    let line = serde_json::to_vec(&serde_json::Value::Object(object)).expect("valid log record");

    assert_eq!(
        parse_log_line(&line),
        Some(LoggedDenial {
            pid: 1234,
            denial: SandboxDenial {
                name: "touch".to_string(),
                capability: "file-write-create /private/tmp/nope".to_string(),
            },
            chars: "touch".chars().count() + "file-write-create /private/tmp/nope".chars().count(),
        })
    );
}

#[test]
fn other_messages_are_no_denials() {
    assert_eq!(parse_message("Sandbox: touch(12) allow(1) file-read /x"), None);
    assert_eq!(parse_message("Sandbox: touch(99999999999) deny(1) file-read /x"), None);
    assert_eq!(parse_log_line(b"not json"), None);
    assert_eq!(parse_log_line(b"{\"eventMessage\": 5}"), None);
    assert_eq!(
        parse_message("Sandbox: my tool(7) deny(1) mach-lookup com.apple.x"),
        Some((7, "my tool".to_string(), "mach-lookup com.apple.x".to_string()))
    );
}

#[test]
fn denials_of_the_traced_processes_are_reported_once() {
    let mut collector = DenialCollector::new();
    let _ = collector.stdout_line(&record("Sandbox: a(1) deny(1) x"));
    let _ = collector.stdout_line(&record("Sandbox: a(1) deny(1) x"));
    let _ = collector.stdout_line(&record("Sandbox: b(2) deny(1) y"));
    let _ = collector.stdout_line(&record("Sandbox: c(3) deny(1) z"));
    let denials = collector.finish(&[3, 1]);
    assert_eq!(
        denials,
        vec![
            SandboxDenial { name: "a".to_string(), capability: "x".to_string() },
            SandboxDenial { name: "c".to_string(), capability: "z".to_string() },
        ]
    );
    let text = format_sandbox_denials(&denials).expect("denials");
    assert_eq!(
        String::from_utf8(text).expect("text"),
        "\n=== Sandbox denials ===\n(a) x\n(c) z\n"
    );
    assert_eq!(format_sandbox_denials(&[]), None);
}

#[test]
fn a_bounded_collector_keeps_the_most_recent_denials() {
    let mut collector = DenialCollector::new_bounded();
    for i in 0..30 {
        let _ = collector.stdout_line(&record(&format!("Sandbox: p({i}) deny(1) {}", "x".repeat(99))));
    }
    let pids: Vec<i32> = (0..30).collect();
    assert_eq!(collector.finish(&pids).len(), 1);
    let mut collector = DenialCollector::new_bounded();
    for i in 0..30 {
        let _ = collector.stdout_line(&record(&format!("Sandbox: p({i}) deny(1) {i:099}")));
    }
    let kept = collector.finish(&pids);
    assert_eq!(kept.len(), 10);
    assert_eq!(kept[0].capability, format!("{:099}", 20));
}
