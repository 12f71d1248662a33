use mimicri::logs::{
    filter_logs_level, filter_logs_target, format_log, parse_log_args, render_logs, window_logs,
    Log, LogArgs,
};

fn entry(level: &str, target: &str, message: &str) -> Log {
    Log {
        timestamp: "2022-10-08T12:00:00Z".to_string(),
        level: level.to_string(),
        target: target.to_string(),
        message: message.to_string(),
    }
}

#[test]
fn level_filter_keeps_severities() {
    let logs = vec![
        entry("ERROR", "core", "a"),
        entry("WARN", "core", "b"),
        entry("INFO", "core", "c"),
    ];
    let (errors, flag) = filter_logs_level(logs, &"error".to_string());
    assert!(!flag);
    assert_eq!(errors.len(), 1);
    assert_eq!(errors[0].message, "a");

    let logs = vec![
        entry("ERROR", "core", "a"),
        entry("WARN", "core", "b"),
        entry("INFO", "core", "c"),
    ];
    let (warnings, _) = filter_logs_level(logs, &"WARN".to_string());
    assert_eq!(warnings.len(), 2);

    let logs = vec![entry("ERROR", "core", "a"), entry("INFO", "core", "c")];
    let (all, flag) = filter_logs_level(logs, &"sideways".to_string());
    assert!(flag);
    assert_eq!(all.len(), 2);
}

#[test]
fn target_filter_matches_substring() {
    let logs = vec![
        entry("INFO", "mimicri::player", "a"),
        entry("INFO", "serenity::gateway", "b"),
    ];
    let kept = filter_logs_target(logs, &"mimicri".to_string());
    assert_eq!(kept.len(), 1);
    assert_eq!(kept[0].message, "a");
}

#[test]
fn formatting_colours_by_level() {
    let line = format_log(entry("ERROR", "core", "boom"));
    assert_eq!(
        line,
        "2022-10-08T12:00:00Z \u{1b}[1;31mERROR\u{1b}[0m \u{1b}[37mboom\u{1b}[0m"
    );

    let line = format_log(entry("TRACE", "core", "quiet"));
    assert_eq!(line, "2022-10-08T12:00:00Z TRACE \u{1b}[37mquiet\u{1b}[0m");
}

#[test]
fn window_joins_tail() {
    // three short lines fit the budget whole, and the window then starts
    // one past the front
    let msgs = vec!["one".to_string(), "two".to_string(), "three".to_string()];
    assert_eq!(window_logs(&msgs, 0), "two\nthree");
    assert_eq!(window_logs(&msgs, 1), "three");
    assert_eq!(window_logs(&msgs, 9), "");
}

#[test]
fn rendering_end_to_end() {
    let logs = vec![
        entry("ERROR", "core", "bad"),
        entry("INFO", "core", "fine"),
    ];
    let (body, warn) = render_logs(logs, &"error".to_string(), &"".to_string(), 0);
    assert_eq!(warn, "");
    assert_eq!(body, "`No logs found`");

    let logs = vec![
        entry("ERROR", "core", "bad"),
        entry("ERROR", "core", "worse"),
        entry("INFO", "core", "fine"),
    ];
    let (body, warn) = render_logs(logs, &"whatever".to_string(), &"".to_string(), 0);
    assert_eq!(
        warn,
        "[WARNING] Unknown level 'whatever'. Available targets: ERROR, WARN, INFO.\n"
    );
    assert!(body.starts_with("```ansi\n"));
    assert!(body.ends_with("\n```"));
    assert!(body.contains("fine"));
}

#[test]
fn log_argument_parsing() {
    match parse_log_args(&"-l error -t core -f 3".to_string()) {
        LogArgs::Parsed { level, target, from } => {
            assert_eq!(level, "error");
            assert_eq!(target, "core");
            assert_eq!(from, 3);
        }
        LogArgs::Help => panic!("not a help request"),
    }

    assert!(matches!(parse_log_args(&"-h".to_string()), LogArgs::Help));
    assert!(matches!(
        parse_log_args(&"-l error --help".to_string()),
        LogArgs::Help
    ));

    match parse_log_args(&"--from notanumber".to_string()) {
        LogArgs::Parsed { from, .. } => assert_eq!(from, 0),
        LogArgs::Help => panic!("not a help request"),
    }

    match parse_log_args(&"stray words only".to_string()) {
        LogArgs::Parsed { level, target, from } => {
            assert_eq!(level, "");
            assert_eq!(target, "");
            assert_eq!(from, 0);
        }
        LogArgs::Help => panic!("not a help request"),
    }
}
