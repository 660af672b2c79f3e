use codex_runtime::osc_text::is_disallowed_osc_text_char;
use codex_runtime::tab_status::command::format_parsed_command_for_tab_status;
use codex_runtime::tab_status::command::oneline_truncated;
use codex_runtime::tab_status::command::ParsedCommand;
use codex_runtime::tab_status::detail::sanitize_detail;
use codex_runtime::tab_status::detail::MAX_TAB_STATUS_DETAIL_CHARS;
use codex_runtime::tab_status::output::ClearTabStatus;
use codex_runtime::tab_status::output::SetTabStatus;
use codex_runtime::tab_status::output::TabStatus;
use codex_runtime::tab_status::output::TabStatusOutput;
use codex_runtime::tab_status::state::StatusLine;
use codex_runtime::tab_status::state::TabStatusState;
use codex_runtime::tab_status::state::MIN_DETAIL_INTERVAL_NS;

#[test]
fn rejects_controls_bidi_and_invisible_format_chars() {
    for ch in [
        '\x07', '\x1b', '\u{009b}', '\n', '\u{202E}', '\u{2066}', '\u{200F}', '\u{061C}',
        '\u{200B}', '\u{FEFF}',
    ] {
        assert!(is_disallowed_osc_text_char(ch), "expected {ch:?} to be disallowed");
    }
}

#[test]
fn allows_ordinary_text() {
    for ch in ['a', 'Z', '0', ' ', '/', '.', '\u{2026}', '\u{00E9}'] {
        assert!(!is_disallowed_osc_text_char(ch), "expected {ch:?} to be allowed");
    }
}

#[test]
fn every_control_character_and_both_ends_of_each_range_are_disallowed() {
    for ch in ('\0'..=char::MAX).filter(|ch| ch.is_control()) {
        assert!(is_disallowed_osc_text_char(ch));
    }
    for ch in [
        '\u{AD}', '\u{34F}', '\u{180E}', '\u{202A}', '\u{2060}', '\u{206F}', '\u{FE00}', '\u{FE0F}',
        '\u{FFF9}', '\u{FFFB}', '\u{1BCA0}', '\u{1BCA3}', '\u{E0100}', '\u{E01EF}',
    ] {
        assert!(is_disallowed_osc_text_char(ch));
    }
    for ch in ['\u{200A}', '\u{2010}', '\u{2029}', '\u{202F}', '\u{2070}', '\u{FFFC}', '\u{E01F0}'] {
        assert!(!is_disallowed_osc_text_char(ch));
    }
}

#[test]
fn status_sequences_include_detail_and_clear_stale_fields() {
    assert_eq!(
        SetTabStatus(TabStatus::Working, Some("exec cargo build".to_string())).ansi(),
        "\x1b]21337;status=Working;indicator=#ff9500;status-color=#ff9500;detail=exec cargo build\x07"
    );
    assert_eq!(
        SetTabStatus(TabStatus::Idle, None).ansi(),
        "\x1b]21337;status=Idle;indicator=#00d75f;status-color=#888888;detail=\x07"
    );
    assert_eq!(ClearTabStatus.ansi(), "\x1b]21337;status=;indicator=;status-color=;detail=\x07");
}

#[test]
fn detail_is_safe_bounded_osc_text() {
    assert_eq!(sanitize_detail(" a\\;b\t\u{202E}c\x1b "), "a\\\\\\;b c");

    let sanitized = sanitize_detail(&";".repeat(MAX_TAB_STATUS_DETAIL_CHARS + 1));
    assert_eq!(sanitized.chars().count(), MAX_TAB_STATUS_DETAIL_CHARS * 2 + 1);
    assert!(sanitized.ends_with('…'));

    let sanitized = sanitize_detail(&format!(
        "{}{}tail",
        "x".repeat(MAX_TAB_STATUS_DETAIL_CHARS),
        " \u{202E}".repeat(10_000)
    ));
    assert_eq!(sanitized, format!("{}…", "x".repeat(MAX_TAB_STATUS_DETAIL_CHARS)));
}

#[test]
fn details_are_cut_at_the_limit() {
    let full = "x".repeat(MAX_TAB_STATUS_DETAIL_CHARS);
    assert_eq!(sanitize_detail(&full), full);
    assert_eq!(sanitize_detail(&format!("{full} ")), format!("{full}…"));
    let head = "x".repeat(MAX_TAB_STATUS_DETAIL_CHARS - 1);
    assert_eq!(sanitize_detail(&format!("{head} y")), format!("{head} …"));
    assert_eq!(sanitize_detail(&format!("{head} ")), head);
}

#[test]
fn parsed_detail_combines_reads_and_caps_the_list() {
    let parsed = ["a.rs", "b.rs", "c.rs", "d.rs"].map(|name| ParsedCommand::Read {
        cmd: format!("cat {name}"),
        name: name.to_string(),
        path: name.to_string(),
    });
    assert_eq!(
        format_parsed_command_for_tab_status(&parsed),
        Some("Read a.rs, b.rs, c.rs, …".to_string())
    );
    assert_eq!(
        format_parsed_command_for_tab_status(&parsed[..3]),
        Some("Read a.rs, b.rs, c.rs".to_string())
    );
}

#[test]
fn parsed_detail_uses_first_mixed_command_and_quotes_search() {
    let parsed = [
        ParsedCommand::Search {
            cmd: "rg needle src".into(),
            query: Some("needle".into()),
            path: Some("src".into()),
        },
        ParsedCommand::Unknown { cmd: "ignored".into() },
    ];
    assert_eq!(
        format_parsed_command_for_tab_status(&parsed),
        Some("Search \"needle\" in src".to_string())
    );
}

#[test]
fn unknown_command_detail_collapses_and_truncates() {
    let command = format!("  echo\n{}  ", "x".repeat(100));
    let summary = format_parsed_command_for_tab_status(&[ParsedCommand::Unknown { cmd: command }])
        .expect("unknown command produces a summary");
    assert_eq!(summary.chars().count(), "Run ".chars().count() + 81);
    assert!(summary.starts_with("Run echo "));
    assert!(summary.ends_with('…'));
}

#[test]
fn each_kind_of_command_has_a_summary() {
    let summary = |command: ParsedCommand| format_parsed_command_for_tab_status(&[command]);
    let search = |query: Option<&str>, path: Option<&str>| ParsedCommand::Search {
        cmd: "rg  x".to_string(),
        query: query.map(str::to_string),
        path: path.map(str::to_string),
    };
    assert_eq!(format_parsed_command_for_tab_status(&[]), None);
    assert_eq!(
        summary(ParsedCommand::ListFiles { cmd: "ls".to_string(), path: None }),
        Some("List .".to_string())
    );
    assert_eq!(
        summary(ParsedCommand::ListFiles { cmd: "ls".to_string(), path: Some("src".to_string()) }),
        Some("List src".to_string())
    );
    assert_eq!(summary(search(Some("x"), None)), Some("Search \"x\"".to_string()));
    assert_eq!(summary(search(None, Some("src"))), Some("Search in src".to_string()));
    assert_eq!(summary(search(None, None)), Some("Run rg x".to_string()));
    assert_eq!(oneline_truncated(&"y".repeat(80)), "y".repeat(80));
    let mixed = [
        ParsedCommand::Read { cmd: "cat a".into(), name: "a".into(), path: "a".into() },
        ParsedCommand::Unknown { cmd: "b".into() },
    ];
    assert_eq!(format_parsed_command_for_tab_status(&mixed), Some("Read a".to_string()));
}

#[test]
fn a_status_is_cleared_only_if_one_was_set() {
    let mut output = TabStatusOutput::new();
    assert_eq!(output.clear_tab_status(true), None);
    assert_eq!(output.set_tab_status(false, TabStatus::Waiting, None), None);
    assert_eq!(
        output.set_tab_status(true, TabStatus::Waiting, Some("a;b")),
        Some(
            "\x1b]21337;status=Waiting;indicator=#5f87ff;status-color=#5f87ff;detail=a\\;b\x07"
                .to_string()
        )
    );
    output.status_set();
    assert_eq!(output.clear_tab_status(false), None);
    assert_eq!(output.clear_tab_status(true), Some(ClearTabStatus.ansi()));
    output.status_cleared();
    assert_eq!(output.clear_tab_status(true), None);
}

#[test]
fn only_details_are_throttled_and_a_status_is_sent_once() {
    let mut state = TabStatusState::new();
    let working = (TabStatus::Working, Some("x".to_string()));
    assert_eq!(state.refresh_delay(TabStatus::Working, 0), None);
    assert!(state.refresh(&working));
    state.refreshed(working.clone(), 1_000, false);
    assert!(state.refresh(&working));
    state.refreshed(working.clone(), 1_000, true);
    assert!(!state.refresh(&working));
    assert_eq!(state.last_status(), Some(&working));
    assert!(state.refresh(&(TabStatus::Working, None)));
    assert_eq!(
        state.refresh_delay(TabStatus::Working, 2_000),
        Some(MIN_DETAIL_INTERVAL_NS - 1_000)
    );
    assert_eq!(state.refresh_delay(TabStatus::Working, 0), Some(MIN_DETAIL_INTERVAL_NS));
    assert_eq!(state.refresh_delay(TabStatus::Working, 1_000 + MIN_DETAIL_INTERVAL_NS), None);
    assert_eq!(state.refresh_delay(TabStatus::Idle, 2_000), None);
    state.set_enabled(false);
    assert!(!state.refresh(&(TabStatus::Idle, None)));
    assert_eq!(state.refresh_delay(TabStatus::Working, 2_000), None);
}

#[test]
fn activities_are_trimmed_and_the_last_one_is_remembered() {
    let mut state = TabStatusState::new();
    assert!(!state.set_current_activity(Some("  ".to_string())));
    assert!(state.set_current_activity(Some(" build ".to_string())));
    assert!(!state.set_current_activity(Some("build".to_string())));
    assert_eq!(state.current_activity(), Some(&"build".to_string()));
    assert!(state.set_current_activity(Some("test".to_string())));
    assert_eq!(state.last_activity(), None);
    assert!(state.set_current_activity(None));
    assert_eq!(state.last_activity(), Some(&"test".to_string()));
    assert_eq!(
        state.desired_tab_status(TabStatus::Idle, None, None),
        (TabStatus::Idle, Some("last: test".to_string()))
    );
    assert_eq!(
        state.desired_tab_status(TabStatus::Working, None, None).1,
        Some("after: test".to_string())
    );
    state.reset_for_new_turn();
    assert_eq!(state.desired_tab_status(TabStatus::Idle, None, None).1, None);
    assert_eq!(
        state.desired_tab_status(TabStatus::Waiting, Some("approve?".to_string()), None).1,
        Some("approve?".to_string())
    );
}

#[test]
fn working_details_say_each_thing_once() {
    let mut state = TabStatusState::new();
    let line = |header: &str, details: Option<&str>| StatusLine {
        header: header.to_string(),
        details: details.map(str::to_string),
    };
    assert_eq!(
        state.working_tab_status_detail(Some(&line("Working", Some("first\r\nsecond")))),
        Some("first".to_string())
    );
    let _ = state.set_current_activity(Some("cargo build".to_string()));
    assert_eq!(
        state.working_tab_status_detail(Some(&line(" Compiling ", Some("build")))),
        Some("cargo build • Compiling".to_string())
    );
    assert_eq!(
        state.working_tab_status_detail(Some(&line("Working", Some("")))),
        Some("cargo build".to_string())
    );
}
