use easytex::events::{log, pdf_reload, stats, status};
use easytex::pipeline::{step, BuildAction, BuildEvent, BuildState};
use easytex::state::{BuildPriority, BuildStatus};

fn emitted(actions: &[BuildAction]) -> Vec<String> {
    actions
        .iter()
        .filter_map(|a| match a {
            BuildAction::Emit(s) => Some(s.clone()),
            _ => None,
        })
        .collect()
}

fn request(running: Option<BuildPriority>, priority: BuildPriority) -> BuildEvent {
    BuildEvent::Request { name_valid: true, running, priority, label: "Manual Build".into() }
}

#[test]
fn a_successful_build_from_request_to_cleanup() {
    let (s, a) = step(BuildState::Start, request(None, BuildPriority::Manual));
    assert!(matches!(s, BuildState::AwaitConfig { .. }));
    assert!(matches!(a.as_slice(), [BuildAction::CancelRunning, BuildAction::SetPriority(Some(BuildPriority::Manual)), BuildAction::ReadConfig]));

    let (s, a) = step(s, BuildEvent::ConfigLoaded { entrypoint: "main.tex".into(), config_valid: false });
    assert!(matches!(a.as_slice(), [BuildAction::AcquireSlot]));

    let (s, a) = step(s, BuildEvent::SlotBusy);
    assert_eq!(emitted(&a), vec![log("warn", "Waiting for build slot (concurrent limit)...")]);

    let (s, a) = step(s, BuildEvent::SlotAcquired);
    assert_eq!(emitted(&a), vec![status("Manual Build"), log("err", "EasyTex.toml is invalid. Using defaults.")]);
    assert!(matches!(a.last(), Some(BuildAction::PrepareRunDir)));

    let (s, a) = step(s, BuildEvent::RunDirReady { latexmk: false });
    assert_eq!(emitted(&a), vec![log("dim", "Building main.tex..."), log("dim", "Tectonic engine active...")]);
    assert!(matches!(a.last(), Some(BuildAction::RunCompiler)));

    let (s, a) = step(s, BuildEvent::Compiled { success: true, log_exists: true, analysis_available: true });
    assert_eq!(emitted(&a), vec![log("dim", "Analyzing warnings...")]);
    let (s, a) = step(s, BuildEvent::AnalysisDone);
    assert!(a.is_empty());

    let (s, a) = step(s, BuildEvent::Outputs { synctex_present: false, compress_pdf: true, gs_available: true });
    assert_eq!(
        emitted(&a),
        vec![log("warn", "SyncTeX data not generated; source/PDF navigation may be unavailable.")]
    );
    assert!(matches!(a.last(), Some(BuildAction::CompressPdf)));

    let (s, a) = step(s, BuildEvent::Compressed { replaced: true });
    assert_eq!(emitted(&a), vec![log("ok", "PDF compressed successfully.")]);

    let (s, a) = step(s, BuildEvent::Stats { time: "1.2s".into(), size: "45 KB".into(), words: 321 });
    assert!(matches!(s, BuildState::Finished));
    assert!(matches!(a[0], BuildAction::FinalizeRun('S')));
    assert!(matches!(a[1], BuildAction::RemovePreviewCache));
    assert_eq!(
        emitted(&a),
        vec![log("ok", "Build complete in 1.2s"), pdf_reload(), stats("1.2s", "45 KB", 321), status("Idle")]
    );
    assert!(matches!(a[6], BuildAction::RecordHistory(BuildStatus::Success)));
    assert!(matches!(a[7], BuildAction::CleanRuns));

    let (s, a) = step(s, BuildEvent::AnalysisDone);
    assert!(matches!(s, BuildState::Finished));
    assert!(a.is_empty());
}

#[test]
fn failures_and_refusals() {
    let (s, a) = step(BuildState::Start, request(Some(BuildPriority::Manual), BuildPriority::Auto));
    assert!(matches!(s, BuildState::Finished));
    assert!(a.is_empty());
    let (s, a) = step(
        BuildState::Start,
        BuildEvent::Request { name_valid: false, running: None, priority: BuildPriority::Manual, label: "x".into() },
    );
    assert!(matches!(s, BuildState::Finished));
    assert!(a.is_empty());

    let (s, _) = step(BuildState::Start, request(Some(BuildPriority::Auto), BuildPriority::Auto));
    let (s, a) = step(s, BuildEvent::ConfigLoaded { entrypoint: "main.txt".into(), config_valid: true });
    assert!(matches!(s, BuildState::Finished));
    assert_eq!(emitted(&a), vec![log("err", "Invalid entrypoint: main.txt. Must be a .tex file."), status("Error")]);
    assert!(matches!(a[2], BuildAction::SetPriority(None)));
    assert!(matches!(a[3], BuildAction::RecordHistory(BuildStatus::Error)));

    let (s, _) = step(BuildState::Start, request(None, BuildPriority::Auto));
    let (s, _) = step(s, BuildEvent::ConfigLoaded { entrypoint: "main.tex".into(), config_valid: true });
    let (closed, a) = step(s, BuildEvent::SlotClosed);
    assert!(matches!(closed, BuildState::Finished));
    assert_eq!(emitted(&a), vec![status("Error")]);

    let (s, _) = step(BuildState::Start, request(None, BuildPriority::Auto));
    let (s, _) = step(s, BuildEvent::ConfigLoaded { entrypoint: "main.tex".into(), config_valid: true });
    let (s, a) = step(s, BuildEvent::SlotAcquired);
    assert_eq!(emitted(&a), vec![status("Manual Build")]);
    let (s, a) = step(s, BuildEvent::RunDirFailed { error: "permission denied".into() });
    assert!(matches!(s, BuildState::Finished));
    assert_eq!(emitted(&a), vec![log("err", "Failed to create run dir: permission denied"), status("Idle")]);
}

#[test]
fn a_failed_compile_is_recorded_as_failed() {
    let (s, _) = step(BuildState::Start, request(None, BuildPriority::Manual));
    let (s, _) = step(s, BuildEvent::ConfigLoaded { entrypoint: "main.tex".into(), config_valid: true });
    let (s, _) = step(s, BuildEvent::SlotAcquired);
    let (s, a) = step(s, BuildEvent::RunDirReady { latexmk: true });
    assert_eq!(emitted(&a)[1], log("warn", "Latexmk feature active. Using Latexmk fallback..."));
    let (s, a) = step(s, BuildEvent::Compiled { success: false, log_exists: true, analysis_available: false });
    assert!(matches!(s, BuildState::Finished));
    assert_eq!(emitted(&a), vec![log("err", "Build failed. Check logs for details."), status("Error")]);
    assert!(matches!(a[2], BuildAction::FinalizeRun('F')));
    assert!(matches!(a[3], BuildAction::RecordHistory(BuildStatus::Failed)));
    assert!(matches!(a[4], BuildAction::CleanRuns));
}

#[test]
fn compression_settings() {
    let outputs = |compress_pdf: bool, gs_available: bool| {
        let (s, _) = step(BuildState::Start, request(None, BuildPriority::Manual));
        let (s, _) = step(s, BuildEvent::ConfigLoaded { entrypoint: "main.tex".into(), config_valid: true });
        let (s, _) = step(s, BuildEvent::SlotAcquired);
        let (s, _) = step(s, BuildEvent::RunDirReady { latexmk: false });
        let (s, _) = step(s, BuildEvent::Compiled { success: true, log_exists: false, analysis_available: true });
        step(s, BuildEvent::Outputs { synctex_present: true, compress_pdf, gs_available })
    };
    let (s, a) = outputs(true, false);
    assert!(matches!(s, BuildState::AwaitStats));
    assert_eq!(emitted(&a), vec![log("warn", "PDF compression skipped: Ghostscript (gs) is not installed.")]);
    assert!(matches!(a.last(), Some(BuildAction::ComputeStats)));
    let (s, a) = outputs(false, true);
    assert!(matches!(s, BuildState::AwaitStats));
    assert!(matches!(a.as_slice(), [BuildAction::ComputeStats]));
    let (s, a) = step(BuildState::AwaitCompression, BuildEvent::Compressed { replaced: false });
    assert!(matches!(s, BuildState::AwaitStats));
    assert!(matches!(a.as_slice(), [BuildAction::ComputeStats]));
}
