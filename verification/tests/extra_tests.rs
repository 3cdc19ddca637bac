use easytex::artifacts::latest_success_run;
use easytex::capabilities::check_runtime_dependencies;
use easytex::errors::AppError;
use easytex::handlers::{
    extension_matches, format_outcome_message, lint_precheck, project_template, synctex_route, synctex_view_input,
    SynctexRoute,
};
use easytex::order::sort_strings;
use easytex::paths::strip_path_prefix;

fn chars(s: &str) -> Vec<char> {
    s.chars().collect()
}

fn list(items: &[&str]) -> Vec<String> {
    items.iter().map(|s| s.to_string()).collect()
}

#[test]
fn extension_lists() {
    let allowed = vec!["tex", "bib"];
    assert!(extension_matches("/p/a.TEX", &allowed));
    assert!(extension_matches("refs.bib", &allowed));
    assert!(!extension_matches("a.txt", &allowed));
    assert!(!extension_matches(".bib", &allowed));
    assert!(!extension_matches("noext", &allowed));
}

#[test]
fn formatter_messages() {
    assert_eq!(format_outcome_message("tex-fmt", true, true, "  \n", "", ""), "Formatted successfully with 'tex-fmt'.");
    assert_eq!(format_outcome_message("tex-fmt", true, true, " done \n", "", ""), "Formatted: done");
    assert_eq!(
        format_outcome_message("tex-fmt", true, false, "", " bad file\n", ""),
        "Format command 'tex-fmt' failed: bad file"
    );
    assert_eq!(
        format_outcome_message("tex-fmt", false, false, "", "", "No such file or directory (os error 2)"),
        "Failed to execute format command 'tex-fmt': No such file or directory (os error 2)"
    );
}

#[test]
fn synctex_requests() {
    assert_eq!(synctex_view_input(Some(12), None, "main.tex"), "12:1:main.tex");
    assert_eq!(synctex_view_input(None, Some(4), "a.tex"), "1:4:a.tex");
    assert_eq!(synctex_route(false, "edit"), SynctexRoute::Unavailable);
    assert_eq!(synctex_route(true, "edit"), SynctexRoute::Edit);
    assert_eq!(synctex_route(true, "view"), SynctexRoute::View);
    assert_eq!(synctex_route(true, "other"), SynctexRoute::BadMode);
}

#[test]
fn lint_checks() {
    assert!(matches!(lint_precheck(false, "main.tex"), Err(AppError::DependencyMissing("chktex"))));
    match lint_precheck(true, "main.txt") {
        Err(AppError::BadRequest(m)) => assert_eq!(m, "Invalid entrypoint: must be a .tex file"),
        _ => panic!("expected a bad request"),
    }
    assert!(lint_precheck(true, "main.tex").is_ok());
}

#[test]
fn new_project_files() {
    let files = project_template("Hello, LaTeX!");
    assert_eq!(files[0], ("EasyTex.toml".to_string(), "entrypoint = \"main.tex\"\n".to_string()));
    assert_eq!(
        files[1],
        (
            "main.tex".to_string(),
            "\\documentclass{article}\n\\begin{document}\nHello, LaTeX!\n\\end{document}".to_string()
        )
    );
}

#[test]
fn stripping_path_prefixes() {
    let s = |p: &str, b: &str| strip_path_prefix(&chars(p), &chars(b)).map(|v| v.into_iter().collect::<String>());
    assert_eq!(s("/p/chapters/a.tex", "/p"), Some("chapters/a.tex".to_string()));
    assert_eq!(s("/p", "/p"), Some(String::new()));
    assert_eq!(s("/pp/a.tex", "/p"), None);
    assert_eq!(s("/etc/passwd", "/p"), None);
    assert_eq!(s("/p/./a.tex", "/p/"), Some("a.tex".to_string()));
}

#[test]
fn latest_successful_run() {
    let names = list(&["20260101-000000-000000000_S", "20260103-000000-000000000_F", "20260102-000000-000000000_S", "notes"]);
    assert_eq!(latest_success_run(&names).as_deref(), Some("20260102-000000-000000000_S"));
    assert_eq!(latest_success_run(&list(&["a_F", "b"])), None);
}

#[test]
fn sorting_strings() {
    assert_eq!(sort_strings(list(&["b", "B", "a", "ab", ""])), list(&["", "B", "a", "ab", "b"]));
}

#[test]
fn runtime_dependencies() {
    let warned = check_runtime_dependencies(&list(&["tectonic", "chktex"]), false, false).ok().unwrap();
    let commands: Vec<&str> = warned.iter().map(|t| t.command).collect();
    assert_eq!(commands, vec!["tex-fmt", "synctex"]);
    let warned = check_runtime_dependencies(&list(&["tectonic"]), true, false).ok().unwrap();
    let commands: Vec<&str> = warned.iter().map(|t| t.command).collect();
    assert_eq!(commands, vec!["tex-fmt", "chktex", "synctex", "gs"]);
    assert_eq!(
        check_runtime_dependencies(&list(&[]), true, false).err(),
        Some("Missing required build dependencies: tectonic. Please ensure they are installed and in your PATH.".to_string())
    );
}
