use babushkaml::event::{decode_line, decode_line_now, RunnerEvent};

const TS: &str = "2024-01-01T00:00:00Z";

#[test]
fn metric_line_decodes_exactly() {
    let line = r#"{"type":"metric","key":"acc","value":0.9,"step":1,"ts":"2024-01-01T00:00:00Z"}"#;
    match decode_line(line, false, TS) {
        Some(RunnerEvent::Metric { key, value, step, ts }) => {
            assert_eq!(key, "acc");
            assert_eq!(value, "0.9");
            assert_eq!(step, 1);
            assert_eq!(ts, "2024-01-01T00:00:00Z");
        }
        other => panic!("expected a metric event, got {:?}", other),
    }
}

#[test]
fn plain_text_becomes_info_log() {
    match decode_line("hello", false, TS) {
        Some(RunnerEvent::Log { level, message, ts }) => {
            assert_eq!(level, "INFO");
            assert_eq!(message, "hello");
            assert_eq!(ts, TS);
        }
        other => panic!("expected a log event, got {:?}", other),
    }
}

#[test]
fn stderr_text_becomes_error_log() {
    match decode_line("boom", true, TS) {
        Some(RunnerEvent::Log { level, message, .. }) => {
            assert_eq!(level, "ERROR");
            assert_eq!(message, "boom");
        }
        other => panic!("expected a log event, got {:?}", other),
    }
}

#[test]
fn empty_lines_are_skipped() {
    assert!(decode_line("", false, TS).is_none());
    assert!(decode_line("", true, TS).is_none());
}

#[test]
fn log_line_decodes() {
    let line = r#"{"type":"log","level":"WARN","message":"low disk","ts":"t1"}"#;
    match decode_line(line, false, TS) {
        Some(RunnerEvent::Log { level, message, ts }) => {
            assert_eq!(level, "WARN");
            assert_eq!(message, "low disk");
            assert_eq!(ts, "t1");
        }
        other => panic!("expected a log event, got {:?}", other),
    }
}

#[test]
fn progress_line_decodes() {
    let line = r#"{"type":"progress","current":3,"total":10,"ts":"t"}"#;
    match decode_line(line, false, TS) {
        Some(RunnerEvent::Progress { current, total, ts }) => {
            assert_eq!(current, 3);
            assert_eq!(total, 10);
            assert_eq!(ts, "t");
        }
        other => panic!("expected a progress event, got {:?}", other),
    }
}

#[test]
fn artifact_line_decodes() {
    let line = r#"{"type":"artifact","kind":"model","path":"model/m.onnx","sha256":"ab12","ts":"t"}"#;
    match decode_line(line, false, TS) {
        Some(RunnerEvent::Artifact { kind, path, sha256, ts }) => {
            assert_eq!(kind, "model");
            assert_eq!(path, "model/m.onnx");
            assert_eq!(sha256, "ab12");
            assert_eq!(ts, "t");
        }
        other => panic!("expected an artifact event, got {:?}", other),
    }
}

#[test]
fn status_line_with_null_error_decodes() {
    let line = r#"{"type":"status","state":"SUCCEEDED","error":null,"ts":"t"}"#;
    match decode_line(line, false, TS) {
        Some(RunnerEvent::Status { state, error, .. }) => {
            assert_eq!(state, "SUCCEEDED");
            assert_eq!(error, None);
        }
        other => panic!("expected a status event, got {:?}", other),
    }
}

#[test]
fn status_line_with_error_text_decodes() {
    let line = r#"{"type":"status","state":"FAILED","error":"oom","ts":"t"}"#;
    match decode_line(line, false, TS) {
        Some(RunnerEvent::Status { state, error, .. }) => {
            assert_eq!(state, "FAILED");
            assert_eq!(error, Some(String::from("oom")));
        }
        other => panic!("expected a status event, got {:?}", other),
    }
}

#[test]
fn device_line_decodes() {
    let line = r#"{"type":"device","name":"cuda:0","ts":"t"}"#;
    match decode_line(line, false, TS) {
        Some(RunnerEvent::Device { name, ts }) => {
            assert_eq!(name, "cuda:0");
            assert_eq!(ts, "t");
        }
        other => panic!("expected a device event, got {:?}", other),
    }
}

#[test]
fn string_escapes_are_decoded() {
    let line = r#"{"type":"log","level":"INFO","message":"a\"b\\c\nd","ts":"t"}"#;
    match decode_line(line, false, TS) {
        Some(RunnerEvent::Log { message, .. }) => {
            assert_eq!(message, "a\"b\\c\nd");
        }
        other => panic!("expected a log event, got {:?}", other),
    }
}

#[test]
fn unknown_type_falls_back_to_raw_log() {
    let line = r#"{"type":"telemetry","ts":"t"}"#;
    match decode_line(line, false, TS) {
        Some(RunnerEvent::Log { level, message, .. }) => {
            assert_eq!(level, "INFO");
            assert_eq!(message, line);
        }
        other => panic!("expected the fallback log, got {:?}", other),
    }
}

#[test]
fn missing_discriminator_falls_back_to_raw_log() {
    let line = r#"{"key":"acc","value":1}"#;
    match decode_line(line, false, TS) {
        Some(RunnerEvent::Log { level, message, .. }) => {
            assert_eq!(level, "INFO");
            assert_eq!(message, line);
        }
        other => panic!("expected the fallback log, got {:?}", other),
    }
}

#[test]
fn out_of_range_step_falls_back_to_raw_log() {
    let line = r#"{"type":"metric","key":"k","value":1,"step":99999999999,"ts":"t"}"#;
    assert!(matches!(
        decode_line(line, false, TS),
        Some(RunnerEvent::Log { .. })
    ));
}

#[test]
fn malformed_json_falls_back_to_raw_log() {
    let line = r#"{"type":"metric","#;
    assert!(matches!(
        decode_line(line, false, TS),
        Some(RunnerEvent::Log { .. })
    ));
}

#[test]
fn trailing_garbage_is_not_a_structured_event() {
    let line = r#"{"type":"device","name":"x","ts":"t"} extra"#;
    match decode_line(line, false, TS) {
        Some(RunnerEvent::Log { message, .. }) => assert_eq!(message, line),
        other => panic!("expected the fallback log, got {:?}", other),
    }
}

#[test]
fn decode_line_now_stamps_a_timestamp() {
    match decode_line_now("free text", false) {
        Some(RunnerEvent::Log { level, message, ts }) => {
            assert_eq!(level, "INFO");
            assert_eq!(message, "free text");
            assert!(!ts.is_empty());
        }
        other => panic!("expected a log event, got {:?}", other),
    }
    assert!(decode_line_now("", false).is_none());
}

#[test]
fn integer_metric_value_keeps_its_text() {
    let line = r#"{"type":"metric","key":"n","value":42,"step":0,"ts":"t"}"#;
    match decode_line(line, false, TS) {
        Some(RunnerEvent::Metric { value, step, .. }) => {
            assert_eq!(value, "42");
            assert_eq!(step, 0);
        }
        other => panic!("expected a metric event, got {:?}", other),
    }
}

#[test]
fn scientific_metric_value_keeps_its_text() {
    let line = r#"{"type":"metric","key":"lr","value":-1.5e-4,"step":2,"ts":"t"}"#;
    match decode_line(line, false, TS) {
        Some(RunnerEvent::Metric { value, .. }) => assert_eq!(value, "-1.5e-4"),
        other => panic!("expected a metric event, got {:?}", other),
    }
}
