use easytex::capabilities::{is_installed, missing_build_tools, optional_tool_warning, optional_tools, RuntimeCapabilities};
use easytex::errors::AppError;
use easytex::fs_safety::{
    check_read_size, check_text_size, file_fault_error, finish_listing, is_listing_full, listing_step, resolve_project_file,
    skip_entry, temp_file_name, EntryKind, FileFault, ListingStep,
};
use easytex::process::RunningProcess;

fn list(items: &[&str]) -> Vec<String> {
    items.iter().map(|s| s.to_string()).collect()
}

#[test]
fn capabilities_follow_the_installed_tools() {
    let caps = RuntimeCapabilities::detect(true, &list(&["chktex", "gs"]));
    assert!(!caps.format);
    assert!(caps.lint);
    assert!(!caps.synctex);
    assert!(caps.pdf_compression);
    assert!(!caps.log_analysis);
    assert!(caps.read_only);
    assert!(is_installed(&list(&["tex-fmt"]), "tex-fmt"));
    let tools = optional_tools();
    assert_eq!(tools.len(), 5);
    assert_eq!((tools[1].command, tools[1].capability, tools[1].description), ("chktex", "lint", "linting from the UI"));
    assert_eq!(tools[4].command, "texloganalyser");
}

#[test]
fn required_and_optional_tools() {
    assert_eq!(missing_build_tools(&list(&["tectonic"]), false), None);
    assert_eq!(
        missing_build_tools(&list(&[]), false).as_deref(),
        Some("Missing required build dependencies: tectonic. Please ensure they are installed and in your PATH.")
    );
    assert_eq!(
        missing_build_tools(&list(&["tectonic"]), true).as_deref(),
        Some("Missing required build dependencies: latexmk, texfot. Please ensure they are installed and in your PATH.")
    );
    assert_eq!(missing_build_tools(&list(&["latexmk", "texfot"]), true), None);
    assert!(optional_tool_warning("chktex", &list(&[]), true, false));
    assert!(!optional_tool_warning("chktex", &list(&["chktex"]), true, false));
    assert!(!optional_tool_warning("gs", &list(&[]), false, false));
    assert!(optional_tool_warning("gs", &list(&[]), true, false));
    assert!(!optional_tool_warning("texloganalyser", &list(&[]), true, false));
    assert!(optional_tool_warning("texloganalyser", &list(&[]), true, true));
}

#[test]
fn errors_map_to_statuses_codes_and_messages() {
    let cases = vec![
        (AppError::BadRequest("b".into()), 400, "bad_request", "b"),
        (AppError::Forbidden("f".into()), 403, "forbidden", "f"),
        (AppError::NotFound("n".into()), 404, "not_found", "n"),
        (AppError::Conflict("c".into()), 409, "conflict", "c"),
        (AppError::PayloadTooLarge("p".into()), 413, "payload_too_large", "p"),
        (AppError::ReadOnly, 403, "read_only", "Server is running in read-only mode"),
        (AppError::DependencyMissing("chktex"), 404, "dependency_missing", "Optional dependency 'chktex' is not available in PATH"),
        (AppError::Internal("i".into()), 500, "internal_error", "i"),
    ];
    for (e, status, code, message) in cases {
        assert_eq!(e.status(), status);
        assert_eq!(e.code(), code);
        assert_eq!(e.message(), message);
    }
}

#[test]
fn file_access_limits() {
    assert!(check_read_size(3, 3).is_none());
    let e = check_read_size(6, 3).unwrap();
    assert_eq!(e.status(), 413);
    assert_eq!(e.message(), "File too large (6 bytes, max 3 bytes)");
    assert!(check_text_size("abc", 3).is_none());
    assert_eq!(check_text_size("abcdef", 3).unwrap().message(), "File too large (max 3 bytes)");
    assert_eq!(check_text_size("éé", 3).unwrap().message(), "File too large (max 3 bytes)");
    assert_eq!(temp_file_name("main.tex", "0123abcd"), ".main.tex.0123abcd.tmp");
}

#[test]
fn listing_project_files() {
    assert!(skip_entry(".git"));
    assert!(skip_entry("build"));
    assert!(!skip_entry("chapters"));
    assert!(!skip_entry("builds"));
    let l = finish_listing(list(&["b.tex", "a/z.tex", "A.tex"]), false);
    assert_eq!(l.files, list(&["A.tex", "a/z.tex", "b.tex"]));
    assert!(!l.complete);
}

#[test]
fn resolving_project_files() {
    match resolve_project_file("/", ".env") {
        Err(AppError::Forbidden(m)) => assert_eq!(m, "Invalid project file path"),
        _ => panic!("expected a refusal"),
    }
    match resolve_project_file("/", "no-such-dir-for-easytex/a.tex") {
        Err(AppError::Forbidden(m)) => assert_eq!(m, "Project file is outside the project"),
        _ => panic!("expected a refusal"),
    }
    let f = resolve_project_file("/", "main.tex").ok().unwrap();
    assert_eq!(f.relative_path, "main.tex");
    assert_eq!(f.absolute_path, "/main.tex");
}

#[test]
fn process_groups() {
    let p = RunningProcess::new(4242);
    assert_eq!(p.pid(), 4242);
    assert_eq!(p.group_target(), Some(-4242));
    assert_eq!(RunningProcess::new(u32::MAX).group_target(), None);
}

#[test]
fn file_faults_are_answered() {
    assert_eq!(file_fault_error(FileFault::Link, false).message(), "Symlinks are not readable");
    assert_eq!(file_fault_error(FileFault::Link, true).message(), "Symlinks are not writable");
    let e = file_fault_error(FileFault::Missing("gone".to_string()), false);
    assert_eq!((e.status(), e.message()), (404, "File not found".to_string()));
    let e = file_fault_error(FileFault::Missing("gone".to_string()), true);
    assert_eq!((e.status(), e.message()), (500, "gone".to_string()));
    let e = file_fault_error(FileFault::Io("disk full".to_string()), false);
    assert_eq!((e.status(), e.message()), (500, "disk full".to_string()));
}

#[test]
fn unresolvable_editable_file_is_outside_the_project() {
    match resolve_project_file("/no/such/project/for/easytex", "main.tex") {
        Err(e) => assert_eq!(e.message(), "Project file is outside the project"),
        Ok(_) => panic!("resolved a missing project"),
    }
}

#[test]
fn listing_decisions() {
    assert!(is_listing_full(3, 3));
    assert!(!is_listing_full(2, 3));
    assert_eq!(listing_step(3, 3, "main.tex", EntryKind::File, Some("main.tex")), ListingStep::Stop);
    assert_eq!(listing_step(0, 3, ".git", EntryKind::Dir, None), ListingStep::Skip);
    assert_eq!(listing_step(0, 3, "build", EntryKind::Dir, None), ListingStep::Skip);
    assert_eq!(listing_step(0, 3, "chapters", EntryKind::Dir, None), ListingStep::Descend);
    assert_eq!(listing_step(0, 3, "link.tex", EntryKind::Link, None), ListingStep::Skip);
    assert_eq!(listing_step(0, 3, "gone.tex", EntryKind::Unreadable, None), ListingStep::Skip);
    assert_eq!(listing_step(0, 3, "a.tex", EntryKind::File, Some("chapters/a.tex")), ListingStep::Add);
    assert_eq!(listing_step(0, 3, "secret.bin", EntryKind::File, Some("secret.bin")), ListingStep::Skip);
    assert_eq!(listing_step(0, 3, "a.tex", EntryKind::File, None), ListingStep::Skip);
}
