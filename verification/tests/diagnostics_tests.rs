use easytex::diagnostics::{diagnostic_from_log_line, log_level_for_stderr, log_level_for_stdout, log_line_events};

#[test]
fn stdout_levels() {
    assert_eq!(log_level_for_stdout("! Undefined control sequence."), "err");
    assert_eq!(log_level_for_stdout("error: Error: file missing"), "err");
    assert_eq!(log_level_for_stdout("File `x.sty' not found."), "err");
    assert_eq!(log_level_for_stdout("LaTeX Warning: Reference undefined"), "warn");
    assert_eq!(log_level_for_stdout("xref is corrupt"), "warn");
    assert_eq!(log_level_for_stdout("will retry"), "warn");
    assert_eq!(log_level_for_stdout("Output written on main.pdf"), "ok");
    assert_eq!(log_level_for_stdout("Latexmk: All targets are up-to-date"), "ok");
    assert_eq!(log_level_for_stdout("(./main.aux)"), "dim");
    assert_eq!(log_level_for_stdout("!Undefined"), "dim");
}

#[test]
fn stderr_levels() {
    assert_eq!(log_level_for_stderr("ERROR: bad"), "err");
    assert_eq!(log_level_for_stderr("x Error: y"), "err");
    assert_eq!(log_level_for_stderr("WARN something"), "warn");
    assert_eq!(log_level_for_stderr("Warning: w"), "warn");
    assert_eq!(log_level_for_stderr("note: fine"), "dim");
}

#[test]
fn diagnostics_with_line_and_column() {
    let d = diagnostic_from_log_line("main.tex:12:5: Undefined control sequence ", "err").unwrap();
    assert_eq!(d.severity, "err");
    assert_eq!(d.file.as_deref(), Some("main.tex"));
    assert_eq!(d.line, Some(12));
    assert_eq!(d.column, Some(5));
    assert_eq!(d.message, "Undefined control sequence");
    assert_eq!(d.raw, "main.tex:12:5: Undefined control sequence ");
}

#[test]
fn diagnostics_with_line_only() {
    let d = diagnostic_from_log_line("chap/a.tex:7: LaTeX Error: Missing \\begin{document}.", "err").unwrap();
    assert_eq!(d.file.as_deref(), Some("chap/a.tex"));
    assert_eq!(d.line, Some(7));
    assert_eq!(d.column, None);
    assert_eq!(d.message, "LaTeX Error: Missing \\begin{document}.");
    let d = diagnostic_from_log_line("a.tex:3:x", "warn").unwrap();
    assert_eq!(d.line, Some(3));
    assert_eq!(d.message, "x");
}

#[test]
fn diagnostics_without_location() {
    let d = diagnostic_from_log_line("  LaTeX Warning: Citation undefined  ", "warn").unwrap();
    assert_eq!(d.file, None);
    assert_eq!(d.line, None);
    assert_eq!(d.column, None);
    assert_eq!(d.message, "LaTeX Warning: Citation undefined");
    // Not a .tex file, or not a number, or a line number past u32.
    assert_eq!(diagnostic_from_log_line("main.bib:3: x", "err").unwrap().file, None);
    assert_eq!(diagnostic_from_log_line("main.tex:x3: x", "err").unwrap().file, None);
    assert_eq!(diagnostic_from_log_line("main.tex:4294967296: x", "err").unwrap().line, None);
    assert_eq!(diagnostic_from_log_line("main.tex:4294967295: x", "err").unwrap().line, Some(u32::MAX));
    assert!(diagnostic_from_log_line("main.tex:1: x", "dim").is_none());
    assert!(diagnostic_from_log_line("main.tex:1: x", "ok").is_none());
}

#[test]
fn log_lines_become_events() {
    let evs = log_line_events("dim", "(./main.aux)");
    assert_eq!(evs, vec![r#"{"type":"log","data":{"lvl":"dim","msg":"(./main.aux)"}}"#.to_string()]);
    let evs = log_line_events("err", "main.tex:2:1: Bad");
    assert_eq!(evs.len(), 2);
    assert_eq!(
        evs[1],
        r#"{"type":"diagnostic","data":{"severity":"err","file":"main.tex","line":2,"column":1,"message":"Bad","raw":"main.tex:2:1: Bad"}}"#
    );
}
