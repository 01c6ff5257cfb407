use cargo_loom::checkpoint::usable_checkpoint;
use cargo_loom::event::{classify, decode_line, decode_lines, Event, Fields};

fn no_fields() -> Fields {
    Fields {
        kind: None,
        event: None,
        name: None,
        test_count: None,
        passed: None,
        failed: None,
        ignored: None,
        measured: None,
        filtered_out: None,
    }
}

#[test]
fn suite_started_is_decoded() {
    let line = r#"{ "type": "suite", "event": "started", "test_count": 3 }"#;
    assert_eq!(decode_line(line), Ok(Event::SuiteStarted { test_count: 3 }));
}

#[test]
fn suite_ok_is_decoded() {
    let line = r#"{ "type": "suite", "event": "ok", "passed": 6, "failed": 0, "ignored": 3, "measured": 2, "filtered_out": 1, "exec_time": 0.5 }"#;
    assert_eq!(
        decode_line(line),
        Ok(Event::SuiteOk { passed: 6, failed: 0, ignored: 3, measured: 2, filtered_out: 1 })
    );
}

#[test]
fn suite_failed_is_decoded() {
    let line = r#"{ "type": "suite", "event": "failed", "passed": 1, "failed": 2, "allowed_fail": 0, "ignored": 0, "measured": 0, "filtered_out": 4 }"#;
    assert_eq!(
        decode_line(line),
        Ok(Event::SuiteFailed { passed: 1, failed: 2, ignored: 0, measured: 0, filtered_out: 4 })
    );
}

#[test]
fn test_events_are_decoded() {
    assert_eq!(
        decode_line(r#"{ "type": "test", "event": "ok", "name": "a::c" }"#),
        Ok(Event::TestOk { name: "a::c".to_string() })
    );
    assert_eq!(
        decode_line(r#"{ "type": "test", "event": "failed", "name": "a::b", "stdout": "boom" }"#),
        Ok(Event::TestFailed { name: "a::b".to_string() })
    );
    assert_eq!(
        decode_line(r#"{ "type": "test", "event": "ignored", "name": "a::i" }"#),
        Ok(Event::TestIgnored { name: "a::i".to_string() })
    );
}

#[test]
fn line_with_trailing_newline_is_decoded() {
    assert_eq!(
        decode_line("{ \"type\": \"test\", \"event\": \"ok\", \"name\": \"a\" }\n"),
        Ok(Event::TestOk { name: "a".to_string() })
    );
}

#[test]
fn message_of_unknown_shape_is_other() {
    assert_eq!(decode_line(r#"{ "type": "test", "event": "started", "name": "a::b" }"#), Ok(Event::Other));
    assert_eq!(decode_line(r#"{ "type": "bench", "name": "b", "median": 10, "deviation": 2 }"#), Ok(Event::Other));
    assert_eq!(decode_line(r#"{ "type": "suite", "event": "started" }"#), Ok(Event::Other));
    assert_eq!(decode_line(r#"{ "type": "suite", "event": "ok", "passed": 1 }"#), Ok(Event::Other));
    assert_eq!(decode_line(r#"{ "type": "test", "event": "failed" }"#), Ok(Event::Other));
    assert_eq!(decode_line(r#"{ "type": "test", "event": "failed", "name": 7 }"#), Ok(Event::Other));
    assert_eq!(decode_line(r#"{ "type": "suite", "event": "started", "test_count": -1 }"#), Ok(Event::Other));
    assert_eq!(decode_line(r#"{ "event": "ok", "name": "a" }"#), Ok(Event::Other));
    assert_eq!(decode_line(r#"[1, 2, 3]"#), Ok(Event::Other));
    assert_eq!(decode_line(r#""just a string""#), Ok(Event::Other));
    assert_eq!(decode_line("{}"), Ok(Event::Other));
}

#[test]
fn line_that_is_no_json_is_an_error_with_the_line() {
    let err = decode_line("thread 'main' panicked at src/lib.rs:1").unwrap_err();
    assert_eq!(err.line, "thread 'main' panicked at src/lib.rs:1");
    assert!(!err.reason.is_empty());
    assert_ne!(err.reason, err.line);
    let err = decode_line("").unwrap_err();
    assert_eq!(err.line, "");
    let err = decode_line(r#"{ "type": "test", "#).unwrap_err();
    assert_eq!(err.line, r#"{ "type": "test", "#);
}

#[test]
fn malformed_line_does_not_stop_the_lines_after_it() {
    let lines = vec![
        r#"{ "type": "suite", "event": "started", "test_count": 2 }"#.to_string(),
        "not json at all".to_string(),
        r#"{ "type": "test", "event": "failed", "name": "a::b" }"#.to_string(),
        r#"{ "type": "test", "event": "ok", "name": "a::c" }"#.to_string(),
    ];
    let decoded = decode_lines(&lines);
    assert_eq!(decoded.len(), 4);
    assert_eq!(decoded[0], Ok(Event::SuiteStarted { test_count: 2 }));
    assert_eq!(decoded[1].as_ref().unwrap_err().line, "not json at all");
    assert_eq!(decoded[2], Ok(Event::TestFailed { name: "a::b".to_string() }));
    assert_eq!(decoded[3], Ok(Event::TestOk { name: "a::c".to_string() }));
    let alone = decode_lines(&lines[2..].to_vec());
    assert_eq!(alone[0], decoded[2]);
    assert_eq!(alone[1], decoded[3]);
}

#[test]
fn empty_stream_decodes_to_nothing() {
    assert!(decode_lines(&Vec::new()).is_empty());
}

#[test]
fn classify_goes_by_type_and_event() {
    let mut f = no_fields();
    assert_eq!(classify(no_fields()), Event::Other);
    f.kind = Some("test".to_string());
    f.event = Some("failed".to_string());
    f.name = Some("x".to_string());
    assert_eq!(classify(f), Event::TestFailed { name: "x".to_string() });
    let mut f = no_fields();
    f.kind = Some("suite".to_string());
    f.event = Some("started".to_string());
    f.test_count = Some(0);
    assert_eq!(classify(f), Event::SuiteStarted { test_count: 0 });
    let mut f = no_fields();
    f.kind = Some("suite".to_string());
    f.event = Some("failed".to_string());
    f.passed = Some(1);
    f.failed = Some(2);
    f.ignored = Some(3);
    f.measured = Some(4);
    assert_eq!(classify(f), Event::Other);
    let mut f = no_fields();
    f.kind = Some("suite".to_string());
    f.event = Some("failed".to_string());
    f.passed = Some(1);
    f.failed = Some(2);
    f.ignored = Some(3);
    f.measured = Some(4);
    f.filtered_out = Some(u64::MAX);
    assert_eq!(
        classify(f),
        Event::SuiteFailed { passed: 1, failed: 2, ignored: 3, measured: 4, filtered_out: u64::MAX }
    );
    let mut f = no_fields();
    f.kind = Some("Test".to_string());
    f.event = Some("ok".to_string());
    f.name = Some("x".to_string());
    assert_eq!(classify(f), Event::Other);
}

#[test]
fn only_a_well_formed_checkpoint_is_usable() {
    assert!(usable_checkpoint(Some(r#"{"branches":[1,2,3],"exploring":true}"#)));
    assert!(usable_checkpoint(Some("{}")));
    assert!(!usable_checkpoint(Some(r#"{"branches":[1,2,"#)));
    assert!(!usable_checkpoint(Some("")));
    assert!(!usable_checkpoint(None));
}
