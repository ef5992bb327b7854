use scientific_workflow::runtime::telemetry::{
    clean_text, conclude_program, parse_frame, control_document, decode_event, malformed_warning, single_thread_variables, supervise,
    Frame, FrameFields, FrameSplitter, JsonField, ProgramExit, ProgramRecord, SupervisorStep, TelemetryEvent,
    TelemetryMonitor, FRAME_LIMIT,
};

fn text(s: &str) -> JsonField {
    JsonField::Text(s.to_owned())
}

fn log_frame(version: u64, level: &str, message: &str) -> FrameFields {
    FrameFields {
        version: JsonField::Unsigned(version),
        kind: text("log"),
        level: text(level),
        message: text(message),
        completed: JsonField::Absent,
        total: JsonField::Absent,
        stage: JsonField::Absent,
        unit: JsonField::Absent,
    }
}

fn progress_frame(stage: &str, completed: u64, total: JsonField, unit: &str) -> FrameFields {
    FrameFields {
        version: JsonField::Unsigned(1),
        kind: text("progress"),
        level: JsonField::Absent,
        message: JsonField::Absent,
        completed: JsonField::Unsigned(completed),
        total,
        stage: text(stage),
        unit: text(unit),
    }
}

#[test]
fn frames_reject_bad_versions_bounds_and_control_characters() {
    assert!(parse_frame(br#"{"version":2,"kind":"log","level":"info","message":"x"}"#).is_none());
    assert!(parse_frame(br#"{"version":1,"kind":"progress","stage":"x","completed":2,"total":1,"unit":"records"}"#).is_none());
    assert!(
        parse_frame(br#"{"version":1,"kind":"progress","stage":"","completed":0,"unit":"records"}"#)
            .is_none()
    );
    match parse_frame(br#"{"version":1,"kind":"log","level":"error","message":"\u001b[31mx"}"#)
        .unwrap()
    {
        TelemetryEvent::Log { message, .. } => assert!(!message.contains('\u{1b}')),
        _ => panic!("expected log"),
    }
}

#[test]
fn payloads_that_are_not_json_objects_decode_to_nothing() {
    assert!(parse_frame(b"not json").is_none());
    assert!(parse_frame(b"[1, 2]").is_none());
    match parse_frame(br#"{"version":1,"kind":"progress","stage":"load","completed":3,"total":null,"unit":"files"}"#)
        .unwrap()
    {
        TelemetryEvent::Progress { stage, completed, total, unit } => {
            assert_eq!((stage.as_str(), completed, total, unit.as_str()), ("load", 3, None, "files"));
        }
        _ => panic!("expected progress"),
    }
}

#[test]
fn valid_frames_decode_to_events() {
    match decode_event(&progress_frame("load", 3, JsonField::Null, "files")).unwrap() {
        TelemetryEvent::Progress { stage, completed, total, unit } => {
            assert_eq!(stage, "load");
            assert_eq!(completed, 3);
            assert_eq!(total, None);
            assert_eq!(unit, "files");
        }
        _ => panic!("expected progress"),
    }
    match decode_event(&progress_frame("load", 3, JsonField::Unsigned(3), "files")).unwrap() {
        TelemetryEvent::Progress { total, .. } => assert_eq!(total, Some(3)),
        _ => panic!("expected progress"),
    }
    assert!(decode_event(&progress_frame("load", 3, JsonField::Other, "files")).is_none());
    assert!(decode_event(&progress_frame("load", 3, JsonField::Absent, "\u{7}")).is_none());
    assert!(decode_event(&log_frame(1, "notice", "x")).is_none());
    let mut other = log_frame(1, "info", "x");
    other.kind = text("metric");
    assert!(decode_event(&other).is_none());
}

#[test]
fn cleaning_drops_control_characters_and_bounds_length() {
    assert_eq!(clean_text("a\u{0}b\u{9f}c\u{a0}"), "abc\u{a0}");
    let long: String = std::iter::repeat('x').take(3000).collect();
    assert_eq!(clean_text(&long).chars().count(), 2048);
}

fn push_all(splitter: &mut FrameSplitter, bytes: &[u8]) -> Vec<Frame> {
    bytes.iter().filter_map(|b| splitter.push_byte(*b)).collect()
}

#[test]
fn lines_with_the_prefix_become_frames() {
    let mut splitter = FrameSplitter::new();
    let frames = push_all(&mut splitter, b"plain line\n@workflow {\"a\":1}\n@workflo\n");
    assert_eq!(frames.len(), 1);
    match &frames[0] {
        Frame::Payload(p) => assert_eq!(p.as_slice(), b"{\"a\":1}"),
        Frame::Malformed => panic!("expected a payload"),
    }
    assert!(!splitter.ends_inside_frame());
    push_all(&mut splitter, b"@workflow {");
    assert!(splitter.ends_inside_frame());
}

#[test]
fn oversized_frames_are_malformed() {
    let mut splitter = FrameSplitter::new();
    let mut line = b"@workflow ".to_vec();
    line.extend(std::iter::repeat(b'x').take(FRAME_LIMIT));
    line.push(b'\n');
    let frames = push_all(&mut splitter, &line);
    assert_eq!(frames.len(), 1);
    assert!(matches!(frames[0], Frame::Malformed));
}

#[test]
fn warnings_are_limited_and_progress_is_throttled() {
    let mut monitor = TelemetryMonitor::new();
    assert!(monitor.malformed());
    assert!(monitor.malformed());
    assert!(monitor.malformed());
    assert!(!monitor.malformed());
    assert!(malformed_warning().starts_with("malformed"));
    let event = |n: u64| TelemetryEvent::Progress { stage: "s".to_owned(), completed: n, total: None, unit: "u".to_owned() };
    assert!(monitor.progress(event(1), None).is_some());
    assert!(monitor.progress(event(2), Some(10_000_000)).is_none());
    assert!(monitor.progress(event(3), Some(20_000_000)).is_none());
    match monitor.finish() {
        Some(TelemetryEvent::Progress { completed, .. }) => assert_eq!(completed, 3),
        _ => panic!("expected the held-back progress"),
    }
}

#[test]
fn control_documents_and_thread_pins() {
    assert_eq!(control_document(true, false), "{\"paused\":true,\"cancelled\":false}");
    assert_eq!(control_document(false, true), "{\"paused\":false,\"cancelled\":true}");
    assert_eq!(single_thread_variables()[0], "OMP_NUM_THREADS");
    assert_eq!(single_thread_variables().len(), 5);
}

#[test]
fn supervision_and_conclusions_follow_precedence() {
    assert_eq!(supervise(true, true, true, false, false, false), SupervisorStep::Stop { notify: true });
    assert_eq!(supervise(false, true, true, false, false, false), SupervisorStep::Fail);
    assert_eq!(
        supervise(false, false, true, true, false, true),
        SupervisorStep::Poll { write_control: true, parked: true }
    );
    assert_eq!(
        supervise(false, false, false, true, false, true),
        SupervisorStep::Poll { write_control: false, parked: false }
    );

    let exited = |success: bool| ProgramExit::Exited { success, code: Some(if success { 0 } else { 2 }), status: "exit status: 2".to_owned() };
    let done = conclude_program(false, None, exited(true), "/w/deps.json");
    assert!(matches!(done.record, ProgramRecord::Complete { code: Some(0) }));
    assert!(done.error.is_none());
    let failed = conclude_program(false, None, exited(false), "/w/deps.json");
    assert_eq!(failed.error.as_deref(), Some("program exited with exit status: 2; logs beside /w/deps.json"));
    let drained = conclude_program(false, Some("required program log write failed: full".to_owned()), exited(true), "x");
    assert_eq!(drained.error.as_deref(), Some("required program log write failed: full"));
    let panicked = conclude_program(true, None, ProgramExit::Cancelled, "x");
    assert_eq!(panicked.error.as_deref(), Some("program pipe reader panicked"));
    let cancelled = conclude_program(false, None, ProgramExit::Cancelled, "x");
    assert!(cancelled.error.is_none());
    match cancelled.record {
        ProgramRecord::Failed { reason, code } => {
            assert_eq!(reason, "runtime cancellation requested");
            assert_eq!(code, None);
        }
        _ => panic!("expected a failure record"),
    }
}
