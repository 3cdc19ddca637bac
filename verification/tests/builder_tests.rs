use easytex::builder::{
    analyzer_command, compiler_command, compression_command, copy_intermediate, final_run_id,
    mirror_directory, plan_run, plan_run_cleanup,
};

fn names(list: &[&str]) -> Vec<String> {
    list.iter().map(|s| s.to_string()).collect()
}

#[test]
fn clean_old_runs_keeps_at_least_three_success_dirs() {
    let all = names(&[
        "20260101-000000-000000000_S",
        "20260101-000001-000000000_S",
        "20260101-000002-000000000_S",
        "20260101-000003-000000000_F",
        "20260101-000004-000000000_F",
        "20260101-000005-000000000_F",
        "20260101-000006-000000000_F",
        "20260101-000007-000000000_F",
        "20260101-000008-000000000_F",
        "20260101-000009-000000000_F",
        "20260101-000010-000000000_F",
        "20260101-000011-000000000_F",
    ]);
    let removed = plan_run_cleanup(&all, None);
    let remaining: Vec<&String> = all.iter().filter(|n| !removed.contains(n)).collect();
    assert_eq!(remaining.len(), 10);
    assert_eq!(remaining.iter().filter(|name| name.ends_with("_S")).count(), 3);
    assert_eq!(
        removed,
        names(&["20260101-000003-000000000_F", "20260101-000004-000000000_F"])
    );
}

#[test]
fn cleanup_spares_the_active_run_and_ignores_other_entries() {
    let mut all = names(&["notes", "20260101-000000-000000000_P"]);
    for i in 0..12 {
        all.push(format!("20260101-0000{:02}-000000000_F", i));
    }
    let removed = plan_run_cleanup(&all, Some("20260101-000000-000000000_F"));
    assert_eq!(
        removed,
        names(&["20260101-000001-000000000_F", "20260101-000002-000000000_F"])
    );
    // Ten or fewer finished runs: nothing goes.
    let few = names(&["a_S", "b_F", "c_F"]);
    assert!(plan_run_cleanup(&few, None).is_empty());
}

#[test]
fn run_layout() {
    let plan = plan_run("/p", "thesis.tex", "20260101-010203-000000000");
    assert_eq!(plan.runs_base_dir, "/p/build/runs");
    assert_eq!(plan.pending_run_id, "20260101-010203-000000000_P");
    assert_eq!(plan.run_dir, "/p/build/runs/20260101-010203-000000000_P");
    assert_eq!(plan.stem, "thesis");
    assert_eq!(plan.pdf_path, "/p/build/runs/20260101-010203-000000000_P/thesis.pdf");
    assert_eq!(plan.log_file, "/p/build/runs/20260101-010203-000000000_P/thesis.log");
    assert_eq!(plan.synctex_path, "/p/build/runs/20260101-010203-000000000_P/thesis.synctex.gz");
    assert_eq!(plan.compressed_path, "/p/build/runs/20260101-010203-000000000_P/compressed.pdf");
    // Every ".tex" goes from the stem.
    assert_eq!(plan_run("/p", "a.tex.tex", "t").stem, "a");
}

#[test]
fn final_run_names() {
    assert_eq!(final_run_id("20260101-010203-000000000", 'S', false, "abc123"), "20260101-010203-000000000_S");
    assert_eq!(final_run_id("20260101-010203-000000000", 'F', true, "abc123"), "20260101-010203-000000000-abc123_F");
}

#[test]
fn compiler_command_lines() {
    let c = compiler_command(false, "main.tex", "/p/build/runs/x_P", "/p", true);
    assert_eq!(c.program, "tectonic");
    assert_eq!(c.args, names(&["-X", "compile", "main.tex", "--synctex", "--outdir", "/p/build/runs/x_P"]));
    assert_eq!(c.texinputs, None);

    let c = compiler_command(true, "main.tex", "/r", "/p", true);
    assert_eq!(c.program, "texfot");
    assert_eq!(
        c.args,
        names(&[
            "latexmk",
            "-pdf",
            "-interaction=nonstopmode",
            "-synctex=1",
            "-file-line-error",
            "-recorder",
            "-f",
            "-outdir=/r",
            "main.tex",
            "-shell-escape",
        ])
    );
    assert_eq!(c.texinputs.as_deref(), Some("/p:/p/build:"));
    let c = compiler_command(true, "main.tex", "/r", "/p", false);
    assert_eq!(c.args.last().map(String::as_str), Some("main.tex"));

    let a = analyzer_command("/r/main.log");
    assert_eq!(a.program, "texloganalyser");
    assert_eq!(a.args, names(&["-w", "/r/main.log"]));

    let g = compression_command("/r/main.pdf", "/r/compressed.pdf");
    assert_eq!(g.program, "gs");
    assert_eq!(g.args[6], "-sOutputFile=/r/compressed.pdf");
    assert_eq!(g.args[7], "/r/main.pdf");
    assert_eq!(g.args.len(), 8);
}

#[test]
fn run_directory_preparation() {
    assert!(copy_intermediate(Some("aux")));
    assert!(!copy_intermediate(Some("pdf")));
    assert!(copy_intermediate(Some("PDF")));
    assert!(!copy_intermediate(None));
    assert!(mirror_directory("chapters"));
    for skipped in ["build", ".git", "target", ".vscode", ".zed"] {
        assert!(!mirror_directory(skipped));
    }
}
