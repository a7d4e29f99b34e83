use ht::asciicast::{encode_event_line, encode_exit_line, AsciicastV3Recorder, RecorderConfig, ThemeConfig};
use ht::session::Event;
use serde_json::Value;

fn plain_config() -> RecorderConfig {
    RecorderConfig {
        output_path: String::new(),
        append: false,
        idle_time_limit: None,
        title: None,
        command: None,
        capture_env: vec![],
        theme: None,
        term_type: None,
        capture_input: false,
    }
}

fn init(cols: u16, rows: u16, seq: &str) -> Event {
    Event::Init(0, cols, rows, 1234, seq.to_string(), "text view".to_string())
}

/// Feeds events (with their monotonic time in microseconds) and collects the file text.
fn record(rec: &mut AsciicastV3Recorder, events: Vec<(Event, u64)>) -> String {
    let mut file = String::new();
    for (ev, now) in events {
        if let Some(line) = rec.handle_event(ev, now, 1_700_000_000) {
            file.push_str(&line);
            file.push('\n');
        }
    }
    file
}

#[test]
fn test_header_generation() {
    let config = RecorderConfig {
        output_path: "test.cast".to_string(),
        append: false,
        idle_time_limit: Some(2_000_000),
        title: Some("Test Recording".to_string()),
        command: Some("bash".to_string()),
        capture_env: vec!["SHELL".to_string()],
        theme: Some(ThemeConfig {
            fg: "#ffffff".to_string(),
            bg: "#000000".to_string(),
            palette: None,
        }),
        term_type: Some("xterm-256color".to_string()),
        capture_input: false,
    };
    let recorder = AsciicastV3Recorder::new(config, vec![Some("/bin/bash".to_string())], false);
    let first_line = recorder.header_line(80, 24, 1234567890);
    let header: Value = serde_json::from_str(&first_line).unwrap();

    assert_eq!(header["version"], 3);
    assert_eq!(header["term"]["cols"], 80);
    assert_eq!(header["term"]["rows"], 24);
    assert_eq!(header["term"]["type"], "xterm-256color");
    assert_eq!(header["title"], "Test Recording");
    assert_eq!(header["command"], "bash");
    assert_eq!(header["idle_time_limit"], 2.0);
    assert_eq!(
        first_line,
        r##"{"version":3,"term":{"cols":80,"rows":24,"type":"xterm-256color","theme":{"fg":"#ffffff","bg":"#000000"}},"timestamp":1234567890,"idle_time_limit":2.0,"command":"bash","title":"Test Recording","env":{"SHELL":"/bin/bash"}}"##
    );
}

#[test]
fn test_event_formatting() {
    let recorder = AsciicastV3Recorder::new(plain_config(), vec![], false);
    let lines = vec![
        recorder.header_line(80, 24, 0),
        encode_event_line(500_000, "o", "hello\n"),
        encode_event_line(1_000_000, "r", "100x30"),
        encode_event_line(100_000, "m", "checkpoint"),
    ];
    assert_eq!(lines.len(), 4); // header + 3 events

    let event1: Value = serde_json::from_str(&lines[1]).unwrap();
    assert_eq!(event1[0], 0.5);
    assert_eq!(event1[1], "o");
    assert_eq!(event1[2], "hello\n");

    let event2: Value = serde_json::from_str(&lines[2]).unwrap();
    assert_eq!(event2[0], 1.0);
    assert_eq!(event2[1], "r");
    assert_eq!(event2[2], "100x30");

    let event3: Value = serde_json::from_str(&lines[3]).unwrap();
    assert_eq!(event3[0], 0.1);
    assert_eq!(event3[1], "m");
    assert_eq!(event3[2], "checkpoint");
}

#[test]
fn test_our_writer_no_spurious_init_output() {
    let mut recorder = AsciicastV3Recorder::new(plain_config(), vec![], false);
    let file = record(
        &mut recorder,
        vec![
            (Event::Init(0, 80, 24, 1234, "initial state".to_string(), "text view".to_string()), 0),
            (Event::Output(100_000, "hello\n".to_string()), 100_000),
        ],
    );
    let lines: Vec<&str> = file.lines().collect();
    assert!(lines.len() >= 2, "Should have header + at least 1 event");
    let header: Value = serde_json::from_str(lines[0]).unwrap();
    assert_eq!(header["version"], 3);
    let first_event: Value = serde_json::from_str(lines[1]).unwrap();
    let arr = first_event.as_array().unwrap();
    assert_eq!(arr[1], "o", "First event should be output");
    let data = arr[2].as_str().unwrap();
    assert_ne!(data, "initial state", "Init seq should NOT be emitted as first output event");
    assert_eq!(data, "hello\n", "First output event should be actual terminal output");
}

#[test]
fn test_interval_monotonicity() {
    let mut recorder = AsciicastV3Recorder::new(plain_config(), vec![], false);
    let mut events = vec![(init(80, 24, ""), 0u64)];
    for i in 0..100u64 {
        // The clock may even step back: intervals stay non-negative.
        let now = if i == 50 { 10 } else { i * 1000 };
        events.push((Event::Output(i * 1000, format!("line {}\n", i)), now));
    }
    let file = record(&mut recorder, events);
    for line in file.lines().skip(1) {
        let event: Value = serde_json::from_str(line).unwrap();
        let interval = event[0].as_f64().unwrap();
        assert!(interval >= 0.0, "Interval must be non-negative, got {}", interval);
        assert!(interval.is_finite(), "Interval must be finite, got {}", interval);
    }
    assert_eq!(file.lines().count(), 101);
}

#[test]
fn minimal_record() {
    let mut recorder = AsciicastV3Recorder::new(plain_config(), vec![], false);
    let file = record(
        &mut recorder,
        vec![
            (init(80, 24, "\x1b[2J"), 5_000_000),
            (Event::Output(1, "hello\n".to_string()), 5_250_000),
            (Event::Exit(2, 0), 6_750_000),
        ],
    );
    assert_eq!(
        file,
        "{\"version\":3,\"term\":{\"cols\":80,\"rows\":24},\"timestamp\":1700000000}\n[0.0,\"o\",\"hello\\n\"]\n[1.5,\"x\",0]\n"
    );
    let exit: Value = serde_json::from_str(file.lines().nth(2).unwrap()).unwrap();
    assert!(exit[2].is_number());
}

#[test]
fn resize_then_marker() {
    let mut recorder = AsciicastV3Recorder::new(plain_config(), vec![], false);
    let file = record(
        &mut recorder,
        vec![
            (init(80, 24, ""), 0),
            (Event::Resize(1, 100, 30), 10),
            (Event::Marker(2, "ch1".to_string()), 1_000_010),
        ],
    );
    let lines: Vec<&str> = file.lines().collect();
    assert_eq!(lines.len(), 3);
    assert_eq!(lines[1], r#"[0.0,"r","100x30"]"#);
    assert_eq!(lines[2], r#"[1.0,"m","ch1"]"#);
}

#[test]
fn capture_input_disabled() {
    let mut recorder = AsciicastV3Recorder::new(plain_config(), vec![], false);
    let file = record(
        &mut recorder,
        vec![(init(80, 24, ""), 0), (Event::Input(1, "ls\n".to_string()), 1), (Event::Exit(2, 0), 2)],
    );
    assert!(!file.lines().any(|l| l.contains("\"i\"")));
    assert_eq!(file.lines().count(), 2);
}

#[test]
fn capture_input_enabled() {
    let mut config = plain_config();
    config.capture_input = true;
    let mut recorder = AsciicastV3Recorder::new(config, vec![], false);
    let file = record(&mut recorder, vec![(init(80, 24, ""), 0), (Event::Input(1, "ls\n".to_string()), 3)]);
    assert_eq!(file.lines().nth(1).unwrap(), r#"[0.0,"i","ls\n"]"#);
}

#[test]
fn idle_time_is_clamped() {
    let mut config = plain_config();
    config.idle_time_limit = Some(2_000_000);
    let mut recorder = AsciicastV3Recorder::new(config, vec![], false);
    let file = record(
        &mut recorder,
        vec![
            (init(80, 24, ""), 0),
            (Event::Output(0, "a".to_string()), 0),
            (Event::Output(0, "b".to_string()), 60_000_000),
            (Event::Output(0, "c".to_string()), 61_000_000),
        ],
    );
    let lines: Vec<&str> = file.lines().collect();
    assert_eq!(lines[2], r#"[2.0,"o","b"]"#);
    assert_eq!(lines[3], r#"[1.0,"o","c"]"#);
}

#[test]
fn append_twice_writes_one_header() {
    let mut config = plain_config();
    config.append = true;
    let mut first = AsciicastV3Recorder::new(config.clone(), vec![], false);
    let mut file = record(&mut first, vec![(init(80, 24, ""), 0), (Event::Output(0, "one".to_string()), 1)]);
    let mut second = AsciicastV3Recorder::new(config, vec![], true);
    file.push_str(&record(&mut second, vec![(init(80, 24, ""), 0), (Event::Output(0, "two".to_string()), 1)]));
    let lines: Vec<&str> = file.lines().collect();
    assert_eq!(lines.len(), 3);
    assert!(lines[0].starts_with('{'));
    assert_eq!(lines[1], r#"[0.0,"o","one"]"#);
    assert_eq!(lines[2], r#"[0.0,"o","two"]"#);
}

#[test]
fn nothing_after_exit_and_nothing_before_init() {
    let mut recorder = AsciicastV3Recorder::new(plain_config(), vec![], false);
    let file = record(
        &mut recorder,
        vec![
            (Event::Output(0, "early".to_string()), 0),
            (init(80, 24, ""), 0),
            (Event::Snapshot(0, 80, 24, "screen".to_string()), 0),
            (Event::Exit(0, -3), 5),
            (Event::Output(0, "late".to_string()), 9),
        ],
    );
    let lines: Vec<&str> = file.lines().collect();
    assert_eq!(lines.len(), 2);
    assert_eq!(lines[1], r#"[0.0,"x",-3]"#);
}

#[test]
fn env_skips_unset_and_repeated_names() {
    let mut config = plain_config();
    config.capture_env = vec!["A".to_string(), "B".to_string(), "A".to_string(), "C".to_string()];
    let recorder = AsciicastV3Recorder::new(
        config,
        vec![Some("1".to_string()), None, Some("1".to_string()), Some("x\"y".to_string())],
        false,
    );
    let header = recorder.header_line(10, 5, 7);
    assert_eq!(
        header,
        r#"{"version":3,"term":{"cols":10,"rows":5},"timestamp":7,"env":{"A":"1","C":"x\"y"}}"#
    );
}

#[test]
fn json_escapes_controls() {
    let line = encode_event_line(1, "o", "a\"b\\c\u{1}\u{1f}\t\r\u{8}\u{c}é");
    assert_eq!(line, "[0.000001,\"o\",\"a\\\"b\\\\c\\u0001\\u001f\\t\\r\\b\\fé\"]");
    let v: Value = serde_json::from_str(&line).unwrap();
    assert_eq!(v[2], "a\"b\\c\u{1}\u{1f}\t\r\u{8}\u{c}é");
}

#[test]
fn seconds_are_written_exactly() {
    assert_eq!(encode_exit_line(0, 0), r#"[0.0,"x",0]"#);
    assert_eq!(encode_exit_line(1_234_000, 1), r#"[1.234,"x",1]"#);
    assert_eq!(encode_exit_line(61_000_100, -2147483648), r#"[61.0001,"x",-2147483648]"#);
    assert_eq!(encode_event_line(10, "m", ""), r#"[0.00001,"m",""]"#);
}
