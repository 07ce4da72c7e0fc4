use karasad::log_view::{
    ansi_code_color, lines_bytes, log_window, parse_ansi_line, scroll_info, window_spans, AnsiColor,
    LogViewerState, SharedLog, MAX_BUFFER_BYTES,
};

fn spans(line: &str) -> Vec<(String, AnsiColor)> {
    parse_ansi_line(line).into_iter().map(|s| (s.text, s.color)).collect()
}

#[test]
fn plain_line_is_one_default_span() {
    assert_eq!(spans("hello"), vec![("hello".to_string(), AnsiColor::Default)]);
    assert_eq!(spans(""), vec![(String::new(), AnsiColor::Default)]);
}

#[test]
fn color_codes_split_spans() {
    assert_eq!(
        spans("a\x1b[31mred\x1b[0m b"),
        vec![
            ("a".to_string(), AnsiColor::Default),
            ("red".to_string(), AnsiColor::Code(31)),
            (" b".to_string(), AnsiColor::Default),
        ]
    );
    assert_eq!(spans("\x1b[1;92mok"), vec![("ok".to_string(), AnsiColor::Code(92))]);
    assert_eq!(spans("\x1b[2mx"), vec![("x".to_string(), AnsiColor::Default)]);
    assert_eq!(spans("\x1b[34m"), vec![(String::new(), AnsiColor::Default)]);
}

#[test]
fn broken_escapes_stay_as_text() {
    assert_eq!(spans("a\x1b[12x b"), vec![("a\x1b[12".to_string(), AnsiColor::Default), (" b".to_string(), AnsiColor::Default)]);
    assert_eq!(spans("a\x1bb"), vec![("a\x1bb".to_string(), AnsiColor::Default)]);
    assert_eq!(spans("x\x1b["), vec![("x\x1b[".to_string(), AnsiColor::Default)]);
}

#[test]
fn ansi_code_table() {
    assert_eq!(ansi_code_color(30), AnsiColor::Code(30));
    assert_eq!(ansi_code_color(97), AnsiColor::Code(97));
    assert_eq!(ansi_code_color(38), AnsiColor::Default);
    assert_eq!(ansi_code_color(0), AnsiColor::Default);
}

#[test]
fn buffer_evicts_oldest_lines() {
    let mut log = SharedLog::new();
    let big = "x".repeat(MAX_BUFFER_BYTES / 2);
    log.push_line(big.clone());
    log.push_line(big.clone());
    assert_eq!(log.lines.len(), 2);
    assert_eq!(log.total_bytes, MAX_BUFFER_BYTES);
    log.push_line("tail".to_string());
    assert_eq!(log.lines.len(), 2);
    assert_eq!(log.lines.back().map(|s| s.as_str()), Some("tail"));
    assert_eq!(log.total_bytes, MAX_BUFFER_BYTES / 2 + 4);
    assert_eq!(log.version, 3);
    log.push_line("x".repeat(MAX_BUFFER_BYTES + 1));
    assert_eq!(log.lines.len(), 0);
    assert_eq!(log.total_bytes, 0);
}

#[test]
fn scrolling_stays_within_lines() {
    let mut shared = SharedLog::new();
    for i in 0..10 {
        shared.push_line(format!("line {i}"));
    }
    let mut st = LogViewerState::new();
    assert!(st.toggle());
    st.sync(true, &shared);
    assert_eq!(st.lines.len(), 10);
    st.apply_scroll(20);
    assert_eq!(st.scroll_offset, 9);
    assert!(!st.auto_scroll);
    st.apply_scroll(-3);
    assert_eq!(st.scroll_offset, 6);
    st.apply_scroll(-30);
    assert_eq!(st.scroll_offset, 0);
    assert!(st.auto_scroll);
    st.handle_scroll_keys(false, false, false, false, true, false);
    assert_eq!(st.scroll_offset, 9);
    st.handle_scroll_keys(true, false, false, false, false, true);
    assert_eq!(st.scroll_offset, 0);
    assert!(st.take_dirty());
    assert!(!st.take_dirty());
}

#[test]
fn window_and_header() {
    assert_eq!(log_window(100, 0, 20), (80, 100, 0));
    assert_eq!(log_window(100, 5, 20), (75, 95, 5));
    assert_eq!(log_window(100, 500, 20), (0, 20, 80));
    assert_eq!(log_window(5, 3, 20), (0, 5, 0));
    assert_eq!(scroll_info(0), "[F12 to close]");
    assert_eq!(scroll_info(12), "[12 lines above | scroll to see more]");
    let lines = vec!["a".to_string(), "\x1b[32mb".to_string(), "é".to_string()];
    assert_eq!(lines_bytes(&lines), 1 + 6 + 2);
    let w = window_spans(&lines, 1, 3);
    assert_eq!(w.len(), 2);
    assert_eq!(w[0][0].color, AnsiColor::Code(32));
}

#[test]
fn tail_positions() {
    assert_eq!(karasad::log_view::tail_from(100, 40), Some(40));
    assert_eq!(karasad::log_view::tail_from(40, 40), None);
    assert_eq!(karasad::log_view::tail_from(10, 40), Some(0));
    assert_eq!(karasad::log_view::tail_from(0, 40), None);
    if let Some(p) = karasad::log_view::log_file_path() {
        assert!(p.ends_with("nightingale.log"));
    }
}

#[test]
fn scroll_keys_move_in_order() {
    let mut shared = SharedLog::new();
    for i in 0..50 {
        shared.push_line(format!("line {i}"));
    }
    let mut st = LogViewerState::new();
    assert!(st.toggle());
    st.sync(true, &shared);
    st.take_dirty();
    st.handle_scroll_keys(true, false, false, false, false, false);
    assert_eq!(st.scroll_offset, 20);
    assert!(!st.auto_scroll);
    assert!(st.take_dirty());
    st.handle_scroll_keys(false, false, true, false, false, false);
    assert_eq!(st.scroll_offset, 23);
    st.handle_scroll_keys(false, true, false, true, false, false);
    assert_eq!(st.scroll_offset, 0);
    assert!(st.auto_scroll);
    st.take_dirty();
    st.handle_scroll_keys(false, false, false, false, false, true);
    assert!(st.take_dirty());
    st.handle_scroll_keys(false, false, false, false, true, false);
    assert_eq!(st.scroll_offset, 49);
    assert!(st.take_dirty());
}
