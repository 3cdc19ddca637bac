use easytex::artifacts::{
    built_at, built_at_from_millis, choose_previews, newest_first_order, preview_paths, run_built_at_ms, stem_of,
    valid_success_run, PreviewInfo,
};

fn preview(run: &str) -> PreviewInfo {
    PreviewInfo {
        run: run.to_string(),
        pdf_path: format!("/p/build/runs/{}/main.pdf", run),
        synctex_path: format!("/p/build/runs/{}/main.synctex.gz", run),
        built_at_ms: 0,
    }
}

#[test]
fn valid_success_run_accepts_only_safe_success_ids() {
    assert!(valid_success_run("20260101-010203-000000000_S"));
    assert!(!valid_success_run("20260101-010203-000000000_F"));
    assert!(!valid_success_run("../20260101-010203-000000000_S"));
    assert!(!valid_success_run("x".repeat(65).as_str()));
}

#[test]
fn run_names_up_to_sixty_four_bytes() {
    let ok = format!("{}_S", "x".repeat(62));
    let long = format!("{}_S", "x".repeat(63));
    assert!(valid_success_run(&ok));
    assert!(!valid_success_run(&long));
    assert!(!valid_success_run("é_S"));
    assert!(!valid_success_run("a b_S"));
}

#[test]
fn run_times_come_from_run_names() {
    assert_eq!(run_built_at_ms("20260101-010203-000000000_S"), Some(1_767_229_323_000));
    assert_eq!(run_built_at_ms("20260101-010203-500000000_S"), Some(1_767_229_323_500));
    assert_eq!(run_built_at_ms("20260101-010203-000000000_F"), None);
    assert_eq!(run_built_at_ms("legacy"), None);
    assert_eq!(run_built_at_ms("2026-01-01_S"), None);
    assert_eq!(run_built_at_ms("19600101-000000-000000000_S"), Some(0));
    assert_eq!(built_at_from_millis(Some(-5)), Some(0));
    assert_eq!(built_at_from_millis(Some(7)), Some(7));
    assert_eq!(built_at_from_millis(None), None);
    assert_eq!(built_at(Some(5), Some(9)), 5);
    assert_eq!(built_at(None, Some(9)), 9);
    assert_eq!(built_at(None, None), 0);
}

#[test]
fn preview_files() {
    assert_eq!(stem_of("thesis.tex"), "thesis");
    assert_eq!(stem_of("a.tex.b"), "a.b");
    assert_eq!(
        preview_paths("/p/build/runs/x_S", "main"),
        ("/p/build/runs/x_S/main.pdf".to_string(), "/p/build/runs/x_S/main.synctex.gz".to_string())
    );
}

#[test]
fn previews_are_listed_newest_first() {
    let runs = vec![preview("20260101-000001-000000000_S"), preview("20260102-000000-000000000_S"), preview("20260101-000000-000000000_S")];
    let ordered = newest_first_order(runs);
    let names: Vec<&str> = ordered.iter().map(|p| p.run.as_str()).collect();
    assert_eq!(names, vec!["20260102-000000-000000000_S", "20260101-000001-000000000_S", "20260101-000000-000000000_S"]);

    let legacy = preview("legacy");
    let chosen = choose_previews(Vec::new(), Some(legacy));
    assert_eq!(chosen.len(), 1);
    assert_eq!(chosen[0].run, "legacy");
    assert!(choose_previews(Vec::new(), None).is_empty());
    let chosen = choose_previews(vec![preview("a_S"), preview("b_S")], Some(preview("legacy")));
    assert_eq!(chosen.iter().map(|p| p.run.as_str()).collect::<Vec<_>>(), vec!["b_S", "a_S"]);
}
