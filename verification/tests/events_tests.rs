use easytex::events::{diagnostic, file_changed, log, pdf_reload, stats, status, DiagnosticEvent, ServerEvent};

#[test]
fn status_events() {
    assert_eq!(status("Idle"), r#"{"type":"status","data":"Idle"}"#);
    assert_eq!(status("Manual Build"), r#"{"type":"status","data":"Manual Build"}"#);
}

#[test]
fn log_events_escape_their_text() {
    assert_eq!(log("err", "Build failed."), r#"{"type":"log","data":{"lvl":"err","msg":"Build failed."}}"#);
    assert_eq!(
        log("warn", "a \"quoted\" \\ path\n\ttab\r\u{8}\u{c}\u{1}\u{1f}\u{7f}é"),
        "{\"type\":\"log\",\"data\":{\"lvl\":\"warn\",\"msg\":\"a \\\"quoted\\\" \\\\ path\\n\\ttab\\r\\b\\f\\u0001\\u001f\u{7f}é\"}}"
    );
}

#[test]
fn diagnostic_events_list_every_field() {
    let d = DiagnosticEvent {
        severity: "err".into(),
        file: Some("main.tex".into()),
        line: Some(12),
        column: None,
        message: "Undefined control sequence".into(),
        raw: "main.tex:12: Undefined control sequence".into(),
    };
    assert_eq!(
        diagnostic(d),
        r#"{"type":"diagnostic","data":{"severity":"err","file":"main.tex","line":12,"column":null,"message":"Undefined control sequence","raw":"main.tex:12: Undefined control sequence"}}"#
    );
}

#[test]
fn other_events() {
    assert_eq!(file_changed("chapters/a.tex"), r#"{"type":"file_changed","data":{"path":"chapters/a.tex"}}"#);
    assert_eq!(pdf_reload(), r#"{"type":"pdf","data":"reload"}"#);
    assert_eq!(
        stats("1.2s", "45 KB", 1234),
        r#"{"type":"stats","data":{"time":"1.2s","size":"45 KB","words":1234}}"#
    );
    assert_eq!(stats("0.0s", "0 KB", 0), r#"{"type":"stats","data":{"time":"0.0s","size":"0 KB","words":0}}"#);
}

#[test]
fn events_agree_with_serde_json() {
    let msg = "line \"one\"\n\u{0}end";
    let expected = format!("{{\"type\":\"log\",\"data\":{{\"lvl\":\"dim\",\"msg\":{}}}}}", serde_json::to_string(msg).unwrap());
    assert_eq!(log("dim", msg), expected);
    let e = ServerEvent::Log { lvl: "dim".into(), msg: msg.into() };
    assert_eq!(e.encode(), expected);
}
