//! The build pipeline as a state machine. The caller performs each action
//! (reading settings, waiting for a build slot, running the compiler, touching
//! the file system) and feeds back what happened; [`step`] decides what comes
//! next and which events the browsers are sent.

use vstd::prelude::*;
use vstd::string::StringExecFns;
use crate::events::{log, log_event, pdf_reload, pdf_reload_event, stats, stats_event, status, status_event};
use crate::state::{build_request_superseded, priority_rank, BuildPriority, BuildStatus};
use crate::utils::{is_valid_entrypoint, valid_entrypoint};

verus! {

/// Where a build stands.
pub enum BuildState {
    /// No request handled yet.
    Start,
    /// Admitted; the project settings are being read.
    AwaitConfig { label: String },
    /// The entrypoint is valid; waiting for a build slot.
    AwaitSlot { label: String, entrypoint: String, config_valid: bool },
    /// Holding a slot; the run directory is being prepared.
    AwaitRunDir { entrypoint: String },
    /// The compiler runs.
    AwaitCompile,
    /// The log analyser runs; `success` is the compiler's outcome.
    AwaitAnalysis { success: bool },
    /// The compiler succeeded; its outputs are being inspected.
    AwaitOutputs,
    /// The PDF is being compressed.
    AwaitCompression,
    /// The PDF size and word count are being measured.
    AwaitStats,
    /// Nothing more happens.
    Finished,
}

/// [`BuildState`] with its strings as character sequences.
pub enum StateView {
    Start,
    AwaitConfig { label: Seq<char> },
    AwaitSlot { label: Seq<char>, entrypoint: Seq<char>, config_valid: bool },
    AwaitRunDir { entrypoint: Seq<char> },
    AwaitCompile,
    AwaitAnalysis { success: bool },
    AwaitOutputs,
    AwaitCompression,
    AwaitStats,
    Finished,
}

impl View for BuildState {
    type V = StateView;

    open spec fn view(&self) -> StateView {
        match self {
            BuildState::Start => StateView::Start,
            BuildState::AwaitConfig { label } => StateView::AwaitConfig { label: label@ },
            BuildState::AwaitSlot { label, entrypoint, config_valid } => StateView::AwaitSlot {
                label: label@,
                entrypoint: entrypoint@,
                config_valid: *config_valid,
            },
            BuildState::AwaitRunDir { entrypoint } => StateView::AwaitRunDir { entrypoint: entrypoint@ },
            BuildState::AwaitCompile => StateView::AwaitCompile,
            BuildState::AwaitAnalysis { success } => StateView::AwaitAnalysis { success: *success },
            BuildState::AwaitOutputs => StateView::AwaitOutputs,
            BuildState::AwaitCompression => StateView::AwaitCompression,
            BuildState::AwaitStats => StateView::AwaitStats,
            BuildState::Finished => StateView::Finished,
        }
    }
}

/// What the caller reports.
pub enum BuildEvent {
    /// A build is requested for a project. `name_valid` tells whether the
    /// project name is valid, `running` the priority of the build holding the
    /// project's session, `label` the trigger (`"Manual Build"`, `"Auto-Build"`).
    Request { name_valid: bool, running: Option<BuildPriority>, priority: BuildPriority, label: String },
    /// The project settings were read; `config_valid` tells whether the
    /// settings file parsed.
    ConfigLoaded { entrypoint: String, config_valid: bool },
    /// No build slot is free yet.
    SlotBusy,
    /// The build slots were shut down.
    SlotClosed,
    /// A build slot was acquired.
    SlotAcquired,
    /// The run directory could not be created.
    RunDirFailed { error: String },
    /// The run directory is ready; `latexmk` selects the latexmk engine.
    RunDirReady { latexmk: bool },
    /// The compiler exited; `log_exists` and `analysis_available` tell whether a
    /// log was written and the analyser is installed.
    Compiled { success: bool, log_exists: bool, analysis_available: bool },
    /// The log analyser finished.
    AnalysisDone,
    /// The outputs of a successful build, and the compression settings.
    Outputs { synctex_present: bool, compress_pdf: bool, gs_available: bool },
    /// Compression finished; `replaced` tells whether the compressed PDF took
    /// the place of the uncompressed one.
    Compressed { replaced: bool },
    /// The build's figures: formatted duration and PDF size, and word count.
    Stats { time: String, size: String, words: u32 },
}

/// [`BuildEvent`] with its strings as character sequences.
pub enum EventView {
    Request { name_valid: bool, running: Option<BuildPriority>, priority: BuildPriority, label: Seq<char> },
    ConfigLoaded { entrypoint: Seq<char>, config_valid: bool },
    SlotBusy,
    SlotClosed,
    SlotAcquired,
    RunDirFailed { error: Seq<char> },
    RunDirReady { latexmk: bool },
    Compiled { success: bool, log_exists: bool, analysis_available: bool },
    AnalysisDone,
    Outputs { synctex_present: bool, compress_pdf: bool, gs_available: bool },
    Compressed { replaced: bool },
    Stats { time: Seq<char>, size: Seq<char>, words: u32 },
}

impl View for BuildEvent {
    type V = EventView;

    open spec fn view(&self) -> EventView {
        match self {
            BuildEvent::Request { name_valid, running, priority, label } => EventView::Request {
                name_valid: *name_valid,
                running: *running,
                priority: *priority,
                label: label@,
            },
            BuildEvent::ConfigLoaded { entrypoint, config_valid } => EventView::ConfigLoaded {
                entrypoint: entrypoint@,
                config_valid: *config_valid,
            },
            BuildEvent::SlotBusy => EventView::SlotBusy,
            BuildEvent::SlotClosed => EventView::SlotClosed,
            BuildEvent::SlotAcquired => EventView::SlotAcquired,
            BuildEvent::RunDirFailed { error } => EventView::RunDirFailed { error: error@ },
            BuildEvent::RunDirReady { latexmk } => EventView::RunDirReady { latexmk: *latexmk },
            BuildEvent::Compiled { success, log_exists, analysis_available } => EventView::Compiled {
                success: *success,
                log_exists: *log_exists,
                analysis_available: *analysis_available,
            },
            BuildEvent::AnalysisDone => EventView::AnalysisDone,
            BuildEvent::Outputs { synctex_present, compress_pdf, gs_available } => EventView::Outputs {
                synctex_present: *synctex_present,
                compress_pdf: *compress_pdf,
                gs_available: *gs_available,
            },
            BuildEvent::Compressed { replaced } => EventView::Compressed { replaced: *replaced },
            BuildEvent::Stats { time, size, words } => EventView::Stats {
                time: time@,
                size: size@,
                words: *words,
            },
        }
    }
}

/// What the caller is asked to do.
pub enum BuildAction {
    /// Broadcast this encoded event to the project's browsers.
    Emit(String),
    /// Stop the build running in the session.
    CancelRunning,
    /// Record the priority of the session's build (`None`: no build).
    SetPriority(Option<BuildPriority>),
    /// Read the project settings.
    ReadConfig,
    /// Wait for a build slot.
    AcquireSlot,
    /// Copy intermediate files of the last successful run and create the run directory.
    PrepareRunDir,
    /// Mirror the project's directories into the run directory.
    MirrorDirs,
    /// Run the compiler.
    RunCompiler,
    /// Run the log analyser.
    AnalyzeLog,
    /// Compress the PDF.
    CompressPdf,
    /// Measure the PDF size and count the words.
    ComputeStats,
    /// Rename the run directory with this outcome suffix.
    FinalizeRun(char),
    /// Remove the cached preview description.
    RemovePreviewCache,
    /// Append a build history entry with this outcome.
    RecordHistory(BuildStatus),
    /// Retire old run directories.
    CleanRuns,
}

/// [`BuildAction`] with its strings as character sequences.
pub enum ActionView {
    Emit(Seq<char>),
    CancelRunning,
    SetPriority(Option<BuildPriority>),
    ReadConfig,
    AcquireSlot,
    PrepareRunDir,
    MirrorDirs,
    RunCompiler,
    AnalyzeLog,
    CompressPdf,
    ComputeStats,
    FinalizeRun(char),
    RemovePreviewCache,
    RecordHistory(BuildStatus),
    CleanRuns,
}

impl View for BuildAction {
    type V = ActionView;

    open spec fn view(&self) -> ActionView {
        match self {
            BuildAction::Emit(s) => ActionView::Emit(s@),
            BuildAction::CancelRunning => ActionView::CancelRunning,
            BuildAction::SetPriority(p) => ActionView::SetPriority(*p),
            BuildAction::ReadConfig => ActionView::ReadConfig,
            BuildAction::AcquireSlot => ActionView::AcquireSlot,
            BuildAction::PrepareRunDir => ActionView::PrepareRunDir,
            BuildAction::MirrorDirs => ActionView::MirrorDirs,
            BuildAction::RunCompiler => ActionView::RunCompiler,
            BuildAction::AnalyzeLog => ActionView::AnalyzeLog,
            BuildAction::CompressPdf => ActionView::CompressPdf,
            BuildAction::ComputeStats => ActionView::ComputeStats,
            BuildAction::FinalizeRun(c) => ActionView::FinalizeRun(*c),
            BuildAction::RemovePreviewCache => ActionView::RemovePreviewCache,
            BuildAction::RecordHistory(s) => ActionView::RecordHistory(*s),
            BuildAction::CleanRuns => ActionView::CleanRuns,
        }
    }
}

/// The actions of a list, as views.
pub open spec fn action_views(s: Seq<BuildAction>) -> Seq<ActionView> {
    s.map_values(|a: BuildAction| a@)
}

/// A log event as an action.
pub open spec fn emit_log(lvl: Seq<char>, msg: Seq<char>) -> ActionView {
    ActionView::Emit(log_event(lvl, msg))
}

/// A status event as an action.
pub open spec fn emit_status(s: Seq<char>) -> ActionView {
    ActionView::Emit(status_event(s))
}

/// What follows the compiler (and the analyser, where it ran): a failed build
/// is reported, finalized as `F`, recorded and cleaned up; a successful one has
/// its outputs inspected.
pub open spec fn after_compile(success: bool) -> (StateView, Seq<ActionView>) {
    if success {
        (StateView::AwaitOutputs, Seq::empty())
    } else {
        (
            StateView::Finished,
            seq![
                emit_log("err"@, "Build failed. Check logs for details."@),
                emit_status("Error"@),
                ActionView::FinalizeRun('F'),
                ActionView::RecordHistory(BuildStatus::Failed),
                ActionView::CleanRuns,
            ],
        )
    }
}

/// The transition from [`StateView::Start`].
pub open spec fn on_start(e: EventView) -> (StateView, Seq<ActionView>) {
    match e {
        EventView::Request { name_valid, running, priority, label } => {
            if !name_valid {
                (StateView::Finished, Seq::empty())
            } else if running matches Some(p) && priority_rank(priority) < priority_rank(p) {
                (StateView::Finished, Seq::empty())
            } else {
                (
                    StateView::AwaitConfig { label },
                    seq![ActionView::CancelRunning, ActionView::SetPriority(Some(priority)), ActionView::ReadConfig],
                )
            }
        },
        _ => (StateView::Start, Seq::empty()),
    }
}

/// The transition from [`StateView::AwaitConfig`].
pub open spec fn on_config(label: Seq<char>, e: EventView) -> (StateView, Seq<ActionView>) {
    match e {
        EventView::ConfigLoaded { entrypoint, config_valid } => {
            if !valid_entrypoint(entrypoint) {
                (
                    StateView::Finished,
                    seq![
                        emit_log("err"@, "Invalid entrypoint: "@ + entrypoint + ". Must be a .tex file."@),
                        emit_status("Error"@),
                        ActionView::SetPriority(None),
                        ActionView::RecordHistory(BuildStatus::Error),
                    ],
                )
            } else {
                (StateView::AwaitSlot { label, entrypoint, config_valid }, seq![ActionView::AcquireSlot])
            }
        },
        _ => (StateView::AwaitConfig { label }, Seq::empty()),
    }
}

/// The transition from [`StateView::AwaitSlot`].
pub open spec fn on_slot(label: Seq<char>, entrypoint: Seq<char>, config_valid: bool, e: EventView) -> (StateView, Seq<ActionView>) {
    let s = StateView::AwaitSlot { label, entrypoint, config_valid };
    match e {
        EventView::SlotBusy => (s, seq![emit_log("warn"@, "Waiting for build slot (concurrent limit)..."@)]),
        EventView::SlotClosed => (StateView::Finished, seq![emit_status("Error"@)]),
        EventView::SlotAcquired => {
            let invalid = if config_valid {
                Seq::<ActionView>::empty()
            } else {
                seq![emit_log("err"@, "EasyTex.toml is invalid. Using defaults."@)]
            };
            (
                StateView::AwaitRunDir { entrypoint },
                seq![emit_status(label)] + invalid + seq![ActionView::PrepareRunDir],
            )
        },
        _ => (s, Seq::empty()),
    }
}

/// The transition from [`StateView::AwaitRunDir`].
pub open spec fn on_run_dir(entrypoint: Seq<char>, e: EventView) -> (StateView, Seq<ActionView>) {
    match e {
        EventView::RunDirFailed { error } => (
            StateView::Finished,
            seq![emit_log("err"@, "Failed to create run dir: "@ + error), emit_status("Idle"@)],
        ),
        EventView::RunDirReady { latexmk } => {
            let engine = if latexmk {
                emit_log("warn"@, "Latexmk feature active. Using Latexmk fallback..."@)
            } else {
                emit_log("dim"@, "Tectonic engine active..."@)
            };
            (
                StateView::AwaitCompile,
                seq![
                    ActionView::MirrorDirs,
                    emit_log("dim"@, "Building "@ + entrypoint + "..."@),
                    engine,
                    ActionView::RunCompiler,
                ],
            )
        },
        _ => (StateView::AwaitRunDir { entrypoint }, Seq::empty()),
    }
}

/// The transition from [`StateView::AwaitCompile`].
pub open spec fn on_compile(e: EventView) -> (StateView, Seq<ActionView>) {
    match e {
        EventView::Compiled { success, log_exists, analysis_available } => {
            if log_exists && analysis_available {
                (
                    StateView::AwaitAnalysis { success },
                    seq![emit_log("dim"@, "Analyzing warnings..."@), ActionView::AnalyzeLog],
                )
            } else {
                after_compile(success)
            }
        },
        _ => (StateView::AwaitCompile, Seq::empty()),
    }
}

/// The transition from [`StateView::AwaitOutputs`].
pub open spec fn on_outputs(e: EventView) -> (StateView, Seq<ActionView>) {
    match e {
        EventView::Outputs { synctex_present, compress_pdf, gs_available } => {
            let missing = if synctex_present {
                Seq::<ActionView>::empty()
            } else {
                seq![
                    emit_log(
                        "warn"@,
                        "SyncTeX data not generated; source/PDF navigation may be unavailable."@,
                    ),
                ]
            };
            if compress_pdf && gs_available {
                (StateView::AwaitCompression, missing + seq![ActionView::CompressPdf])
            } else if compress_pdf {
                (
                    StateView::AwaitStats,
                    missing + seq![
                        emit_log("warn"@, "PDF compression skipped: Ghostscript (gs) is not installed."@),
                        ActionView::ComputeStats,
                    ],
                )
            } else {
                (StateView::AwaitStats, missing + seq![ActionView::ComputeStats])
            }
        },
        _ => (StateView::AwaitOutputs, Seq::empty()),
    }
}

/// The transition from [`StateView::AwaitCompression`].
pub open spec fn on_compression(e: EventView) -> (StateView, Seq<ActionView>) {
    match e {
        EventView::Compressed { replaced } => {
            if replaced {
                (
                    StateView::AwaitStats,
                    seq![emit_log("ok"@, "PDF compressed successfully."@), ActionView::ComputeStats],
                )
            } else {
                (StateView::AwaitStats, seq![ActionView::ComputeStats])
            }
        },
        _ => (StateView::AwaitCompression, Seq::empty()),
    }
}

/// The transition from [`StateView::AwaitStats`].
pub open spec fn on_stats(e: EventView) -> (StateView, Seq<ActionView>) {
    match e {
        EventView::Stats { time, size, words } => (
            StateView::Finished,
            seq![
                ActionView::FinalizeRun('S'),
                ActionView::RemovePreviewCache,
                emit_log("ok"@, "Build complete in "@ + time),
                ActionView::Emit(pdf_reload_event()),
                ActionView::Emit(stats_event(time, size, words)),
                emit_status("Idle"@),
                ActionView::RecordHistory(BuildStatus::Success),
                ActionView::CleanRuns,
            ],
        ),
        _ => (StateView::AwaitStats, Seq::empty()),
    }
}

/// The transition of the pipeline: the next state and the actions, in order.
/// Events that do not fit the state change nothing.
pub open spec fn transition(s: StateView, e: EventView) -> (StateView, Seq<ActionView>) {
    match s {
        StateView::Start => on_start(e),
        StateView::AwaitConfig { label } => on_config(label, e),
        StateView::AwaitSlot { label, entrypoint, config_valid } => on_slot(label, entrypoint, config_valid, e),
        StateView::AwaitRunDir { entrypoint } => on_run_dir(entrypoint, e),
        StateView::AwaitCompile => on_compile(e),
        StateView::AwaitAnalysis { success } => match e {
            EventView::AnalysisDone => after_compile(success),
            _ => (s, Seq::empty()),
        },
        StateView::AwaitOutputs => on_outputs(e),
        StateView::AwaitCompression => on_compression(e),
        StateView::AwaitStats => on_stats(e),
        StateView::Finished => (s, Seq::empty()),
    }
}

/// A string made of `a` followed by `b` and `c`.
fn concat3(a: &str, b: &str, c: &str) -> (r: String)
    ensures
        r@ == a@ + b@ + c@,
{
    let mut s = a.to_string();
    s.append(b);
    s.append(c);
    s
}

/// The actions of a failed build (see [`after_compile`]).
fn failure_actions() -> (r: Vec<BuildAction>)
    ensures
        action_views(r@) == after_compile(false).1,
{
    let mut r: Vec<BuildAction> = Vec::new();
    r.push(BuildAction::Emit(log("err", "Build failed. Check logs for details.")));
    r.push(BuildAction::Emit(status("Error")));
    let suffix = match BuildStatus::Failed.run_suffix() {
        Some(c) => c,
        None => 'F',
    };
    r.push(BuildAction::FinalizeRun(suffix));
    r.push(BuildAction::RecordHistory(BuildStatus::Failed));
    r.push(BuildAction::CleanRuns);
    assert(action_views(r@) =~= after_compile(false).1);
    r
}

/// Once finished, a build ignores every further event.
pub proof fn lemma_finished_is_final(e: EventView)
    ensures
        transition(StateView::Finished, e) == (StateView::Finished, Seq::<ActionView>::empty()),
{
}

/// A request whose priority is below that of the build holding the session is
/// dropped: the build finishes at once and nothing is done, so the running
/// build is not disturbed.
pub proof fn lemma_lower_priority_discarded(running: BuildPriority, priority: BuildPriority, label: Seq<char>)
    requires
        priority_rank(priority) < priority_rank(running),
    ensures
        transition(
            StateView::Start,
            EventView::Request { name_valid: true, running: Some(running), priority, label },
        ) == (StateView::Finished, Seq::<ActionView>::empty()),
{
}

/// A request for an invalid project name does nothing.
pub proof fn lemma_invalid_name_ignored(running: Option<BuildPriority>, priority: BuildPriority, label: Seq<char>)
    ensures
        transition(
            StateView::Start,
            EventView::Request { name_valid: false, running, priority, label },
        ) == (StateView::Finished, Seq::<ActionView>::empty()),
{
}

/// A build that was admitted and then finishes tells the browsers its final
/// state: the step that finishes it emits an `"Error"` or `"Idle"` status.
pub proof fn lemma_finish_reports_status(s: StateView, e: EventView)
    requires
        !(s is Start),
        !(s is Finished),
        transition(s, e).0 is Finished,
    ensures
        exists|i: int|
            0 <= i < transition(s, e).1.len() && (transition(s, e).1[i] == emit_status("Error"@)
                || transition(s, e).1[i] == emit_status("Idle"@)),
{
    let acts = transition(s, e).1;
    match s {
        StateView::AwaitConfig { label } => {
            assert(acts[1] == emit_status("Error"@));
        },
        StateView::AwaitSlot { label, entrypoint, config_valid } => {
            assert(acts[0] == emit_status("Error"@));
        },
        StateView::AwaitRunDir { entrypoint } => {
            assert(acts[1] == emit_status("Idle"@));
        },
        StateView::AwaitCompile => {
            assert(acts[1] == emit_status("Error"@));
        },
        StateView::AwaitAnalysis { success } => {
            assert(acts[1] == emit_status("Error"@));
        },
        StateView::AwaitStats => {
            assert(acts[5] == emit_status("Idle"@));
        },
        _ => {},
    }
}

/// A run directory is finalized only together with a history entry of the same
/// outcome: `S` with a success, `F` with a failure.
#[verifier::spinoff_prover]
#[verifier::rlimit(60)]
pub proof fn lemma_finalize_matches_history(s: StateView, e: EventView, i: int)
    requires
        0 <= i < transition(s, e).1.len(),
        transition(s, e).1[i] matches ActionView::FinalizeRun(_),
    ensures
        (transition(s, e).1[i] == ActionView::FinalizeRun('S') && exists|j: int|
            0 <= j < transition(s, e).1.len() && transition(s, e).1[j] == ActionView::RecordHistory(
                BuildStatus::Success,
            )) || (transition(s, e).1[i] == ActionView::FinalizeRun('F') && exists|j: int|
            0 <= j < transition(s, e).1.len() && transition(s, e).1[j] == ActionView::RecordHistory(
                BuildStatus::Failed,
            )),
{
    let acts = transition(s, e).1;
    match s {
        StateView::AwaitCompile => {
            assert(acts[3] == ActionView::RecordHistory(BuildStatus::Failed));
        },
        StateView::AwaitAnalysis { success } => {
            assert(acts[3] == ActionView::RecordHistory(BuildStatus::Failed));
        },
        StateView::AwaitStats => {
            assert(acts[6] == ActionView::RecordHistory(BuildStatus::Success));
        },
        StateView::AwaitSlot { label, entrypoint, config_valid } => {
            if e is SlotAcquired {
                if config_valid {
                    assert(acts =~= seq![emit_status(label), ActionView::PrepareRunDir]);
                } else {
                    assert(acts =~= seq![
                        emit_status(label),
                        emit_log("err"@, "EasyTex.toml is invalid. Using defaults."@),
                        ActionView::PrepareRunDir,
                    ]);
                }
            }
        },
        StateView::AwaitOutputs => {
            if let EventView::Outputs { synctex_present, compress_pdf, gs_available } = e {
                let missing = if synctex_present {
                    Seq::<ActionView>::empty()
                } else {
                    seq![
                        emit_log(
                            "warn"@,
                            "SyncTeX data not generated; source/PDF navigation may be unavailable."@,
                        ),
                    ]
                };
                if compress_pdf && gs_available {
                    assert(acts =~= missing + seq![ActionView::CompressPdf]);
                } else if compress_pdf {
                    assert(acts =~= missing + seq![
                        emit_log("warn"@, "PDF compression skipped: Ghostscript (gs) is not installed."@),
                        ActionView::ComputeStats,
                    ]);
                } else {
                    assert(acts =~= missing + seq![ActionView::ComputeStats]);
                }
                assert(!(acts[i] matches ActionView::FinalizeRun(_)));
            }
        },
        _ => {},
    }
}

/// The log analysis does not change a build's outcome: once the analyser is
/// done, the build goes on exactly as it would have right after the compiler
/// with no analysis. A failed build is reported, finalized as `F`, recorded as
/// failed and cleaned up; a successful one has its outputs inspected.
pub proof fn lemma_analysis_keeps_compile_outcome(success: bool)
    ensures
        transition(StateView::AwaitAnalysis { success }, EventView::AnalysisDone) == transition(
            StateView::AwaitCompile,
            EventView::Compiled { success, log_exists: false, analysis_available: false },
        ),
        !success ==> transition(StateView::AwaitAnalysis { success }, EventView::AnalysisDone) == (
            StateView::Finished,
            seq![
                ActionView::Emit(log_event("err"@, "Build failed. Check logs for details."@)),
                ActionView::Emit(status_event("Error"@)),
                ActionView::FinalizeRun('F'),
                ActionView::RecordHistory(BuildStatus::Failed),
                ActionView::CleanRuns,
            ],
        ),
        success ==> transition(StateView::AwaitAnalysis { success }, EventView::AnalysisDone) == (
            StateView::AwaitOutputs,
            Seq::<ActionView>::empty(),
        ),
{
}

/// Only a successful compile leads to the inspection of a build's outputs:
/// a step that enters `AwaitOutputs` comes from the compiler reporting
/// success, or from the analysis of a successful build.
pub proof fn lemma_outputs_only_after_success(s: StateView, e: EventView)
    requires
        !(s is AwaitOutputs),
        transition(s, e).0 is AwaitOutputs,
    ensures
        (s is AwaitCompile && (e matches EventView::Compiled { success, .. } && success)) || (s
            == StateView::AwaitAnalysis { success: true } && e is AnalysisDone),
{
}

/// The result of a transition as a state view and action views.
pub open spec fn result_view(r: (BuildState, Vec<BuildAction>)) -> (StateView, Seq<ActionView>) {
    (r.0@, action_views(r.1@))
}

/// The transition from `Start`.
fn step_start(event: BuildEvent) -> (r: (BuildState, Vec<BuildAction>))
    ensures
        result_view(r) == on_start(event@),
{
    let mut acts: Vec<BuildAction> = Vec::new();
    let ghost e0 = event@;
    match event {
        BuildEvent::Request { name_valid, running, priority, label } => {
            if !name_valid || build_request_superseded(priority, running) {
                assert(action_views(acts@) =~= Seq::<ActionView>::empty());
                return (BuildState::Finished, acts);
            }
            acts.push(BuildAction::CancelRunning);
            acts.push(BuildAction::SetPriority(Some(priority)));
            acts.push(BuildAction::ReadConfig);
            assert(action_views(acts@) =~= on_start(e0).1);
            (BuildState::AwaitConfig { label }, acts)
        },
        _ => {
            assert(action_views(acts@) =~= Seq::<ActionView>::empty());
            (BuildState::Start, acts)
        },
    }
}

/// The transition from `AwaitConfig`.
fn step_config(label: String, event: BuildEvent) -> (r: (BuildState, Vec<BuildAction>))
    ensures
        result_view(r) == on_config(label@, event@),
{
    let mut acts: Vec<BuildAction> = Vec::new();
    let ghost e0 = event@;
    match event {
        BuildEvent::ConfigLoaded { entrypoint, config_valid } => {
            if !is_valid_entrypoint(entrypoint.as_str()) {
                let msg = concat3("Invalid entrypoint: ", entrypoint.as_str(), ". Must be a .tex file.");
                acts.push(BuildAction::Emit(log("err", msg.as_str())));
                acts.push(BuildAction::Emit(status("Error")));
                acts.push(BuildAction::SetPriority(None));
                acts.push(BuildAction::RecordHistory(BuildStatus::Error));
                assert(action_views(acts@) =~= on_config(label@, e0).1);
                return (BuildState::Finished, acts);
            }
            acts.push(BuildAction::AcquireSlot);
            assert(action_views(acts@) =~= on_config(label@, e0).1);
            (BuildState::AwaitSlot { label, entrypoint, config_valid }, acts)
        },
        _ => {
            assert(action_views(acts@) =~= Seq::<ActionView>::empty());
            (BuildState::AwaitConfig { label }, acts)
        },
    }
}

/// The transition from `AwaitSlot`.
fn step_slot(label: String, entrypoint: String, config_valid: bool, event: BuildEvent) -> (r: (BuildState, Vec<BuildAction>))
    ensures
        result_view(r) == on_slot(label@, entrypoint@, config_valid, event@),
{
    let mut acts: Vec<BuildAction> = Vec::new();
    let ghost e0 = event@;
    match event {
        BuildEvent::SlotBusy => {
            acts.push(BuildAction::Emit(log("warn", "Waiting for build slot (concurrent limit)...")));
            assert(action_views(acts@) =~= on_slot(label@, entrypoint@, config_valid, e0).1);
            (BuildState::AwaitSlot { label, entrypoint, config_valid }, acts)
        },
        BuildEvent::SlotClosed => {
            acts.push(BuildAction::Emit(status("Error")));
            assert(action_views(acts@) =~= on_slot(label@, entrypoint@, config_valid, e0).1);
            (BuildState::Finished, acts)
        },
        BuildEvent::SlotAcquired => {
            acts.push(BuildAction::Emit(status(label.as_str())));
            if !config_valid {
                acts.push(BuildAction::Emit(log("err", "EasyTex.toml is invalid. Using defaults.")));
            }
            acts.push(BuildAction::PrepareRunDir);
            assert(action_views(acts@) =~= on_slot(label@, entrypoint@, config_valid, e0).1);
            (BuildState::AwaitRunDir { entrypoint }, acts)
        },
        _ => {
            assert(action_views(acts@) =~= Seq::<ActionView>::empty());
            (BuildState::AwaitSlot { label, entrypoint, config_valid }, acts)
        },
    }
}

/// The transition from `AwaitRunDir`.
fn step_run_dir(entrypoint: String, event: BuildEvent) -> (r: (BuildState, Vec<BuildAction>))
    ensures
        result_view(r) == on_run_dir(entrypoint@, event@),
{
    let mut acts: Vec<BuildAction> = Vec::new();
    let ghost e0 = event@;
    match event {
        BuildEvent::RunDirFailed { error } => {
            let mut msg = "Failed to create run dir: ".to_string();
            msg.append(error.as_str());
            acts.push(BuildAction::Emit(log("err", msg.as_str())));
            acts.push(BuildAction::Emit(status("Idle")));
            assert(action_views(acts@) =~= on_run_dir(entrypoint@, e0).1);
            (BuildState::Finished, acts)
        },
        BuildEvent::RunDirReady { latexmk } => {
            acts.push(BuildAction::MirrorDirs);
            let building = concat3("Building ", entrypoint.as_str(), "...");
            acts.push(BuildAction::Emit(log("dim", building.as_str())));
            if latexmk {
                acts.push(BuildAction::Emit(log("warn", "Latexmk feature active. Using Latexmk fallback...")));
            } else {
                acts.push(BuildAction::Emit(log("dim", "Tectonic engine active...")));
            }
            acts.push(BuildAction::RunCompiler);
            assert(action_views(acts@) =~= on_run_dir(entrypoint@, e0).1);
            (BuildState::AwaitCompile, acts)
        },
        _ => {
            assert(action_views(acts@) =~= Seq::<ActionView>::empty());
            (BuildState::AwaitRunDir { entrypoint }, acts)
        },
    }
}

/// What follows the compiler (see [`after_compile`]).
fn step_after_compile(success: bool) -> (r: (BuildState, Vec<BuildAction>))
    ensures
        result_view(r) == after_compile(success),
{
    if success {
        let acts: Vec<BuildAction> = Vec::new();
        assert(action_views(acts@) =~= Seq::<ActionView>::empty());
        (BuildState::AwaitOutputs, acts)
    } else {
        (BuildState::Finished, failure_actions())
    }
}

/// The transition from `AwaitCompile`.
fn step_compile(event: BuildEvent) -> (r: (BuildState, Vec<BuildAction>))
    ensures
        result_view(r) == on_compile(event@),
{
    let mut acts: Vec<BuildAction> = Vec::new();
    let ghost e0 = event@;
    match event {
        BuildEvent::Compiled { success, log_exists, analysis_available } => {
            if log_exists && analysis_available {
                acts.push(BuildAction::Emit(log("dim", "Analyzing warnings...")));
                acts.push(BuildAction::AnalyzeLog);
                assert(action_views(acts@) =~= on_compile(e0).1);
                (BuildState::AwaitAnalysis { success }, acts)
            } else {
                step_after_compile(success)
            }
        },
        _ => {
            assert(action_views(acts@) =~= Seq::<ActionView>::empty());
            (BuildState::AwaitCompile, acts)
        },
    }
}

/// The transition from `AwaitOutputs`.
fn step_outputs(event: BuildEvent) -> (r: (BuildState, Vec<BuildAction>))
    ensures
        result_view(r) == on_outputs(event@),
{
    let mut acts: Vec<BuildAction> = Vec::new();
    let ghost e0 = event@;
    match event {
        BuildEvent::Outputs { synctex_present, compress_pdf, gs_available } => {
            if !synctex_present {
                acts.push(
                    BuildAction::Emit(
                        log("warn", "SyncTeX data not generated; source/PDF navigation may be unavailable."),
                    ),
                );
            }
            if compress_pdf && gs_available {
                acts.push(BuildAction::CompressPdf);
                assert(action_views(acts@) =~= on_outputs(e0).1);
                (BuildState::AwaitCompression, acts)
            } else {
                if compress_pdf {
                    acts.push(
                        BuildAction::Emit(log("warn", "PDF compression skipped: Ghostscript (gs) is not installed.")),
                    );
                }
                acts.push(BuildAction::ComputeStats);
                assert(action_views(acts@) =~= on_outputs(e0).1);
                (BuildState::AwaitStats, acts)
            }
        },
        _ => {
            assert(action_views(acts@) =~= Seq::<ActionView>::empty());
            (BuildState::AwaitOutputs, acts)
        },
    }
}

/// The transition from `AwaitCompression`.
fn step_compression(event: BuildEvent) -> (r: (BuildState, Vec<BuildAction>))
    ensures
        result_view(r) == on_compression(event@),
{
    let mut acts: Vec<BuildAction> = Vec::new();
    let ghost e0 = event@;
    match event {
        BuildEvent::Compressed { replaced } => {
            if replaced {
                acts.push(BuildAction::Emit(log("ok", "PDF compressed successfully.")));
            }
            acts.push(BuildAction::ComputeStats);
            assert(action_views(acts@) =~= on_compression(e0).1);
            (BuildState::AwaitStats, acts)
        },
        _ => {
            assert(action_views(acts@) =~= Seq::<ActionView>::empty());
            (BuildState::AwaitCompression, acts)
        },
    }
}

/// The transition from `AwaitStats`.
fn step_stats(event: BuildEvent) -> (r: (BuildState, Vec<BuildAction>))
    ensures
        result_view(r) == on_stats(event@),
{
    let mut acts: Vec<BuildAction> = Vec::new();
    let ghost e0 = event@;
    match event {
        BuildEvent::Stats { time, size, words } => {
            let suffix = match BuildStatus::Success.run_suffix() {
                Some(c) => c,
                None => 'S',
            };
            acts.push(BuildAction::FinalizeRun(suffix));
            acts.push(BuildAction::RemovePreviewCache);
            let mut done = "Build complete in ".to_string();
            done.append(time.as_str());
            acts.push(BuildAction::Emit(log("ok", done.as_str())));
            acts.push(BuildAction::Emit(pdf_reload()));
            acts.push(BuildAction::Emit(stats(time.as_str(), size.as_str(), words)));
            acts.push(BuildAction::Emit(status("Idle")));
            acts.push(BuildAction::RecordHistory(BuildStatus::Success));
            acts.push(BuildAction::CleanRuns);
            assert(action_views(acts@) =~= on_stats(e0).1);
            (BuildState::Finished, acts)
        },
        _ => {
            assert(action_views(acts@) =~= Seq::<ActionView>::empty());
            (BuildState::AwaitStats, acts)
        },
    }
}

/// Decides the next state and the actions for `event` (see [`transition`]).
pub fn step(state: BuildState, event: BuildEvent) -> (r: (BuildState, Vec<BuildAction>))
    ensures
        result_view(r) == transition(state@, event@),
{
    match state {
        BuildState::Start => step_start(event),
        BuildState::AwaitConfig { label } => step_config(label, event),
        BuildState::AwaitSlot { label, entrypoint, config_valid } => step_slot(label, entrypoint, config_valid, event),
        BuildState::AwaitRunDir { entrypoint } => step_run_dir(entrypoint, event),
        BuildState::AwaitCompile => step_compile(event),
        BuildState::AwaitAnalysis { success } => match event {
            BuildEvent::AnalysisDone => step_after_compile(success),
            _ => {
                let acts: Vec<BuildAction> = Vec::new();
                assert(action_views(acts@) =~= Seq::<ActionView>::empty());
                (BuildState::AwaitAnalysis { success }, acts)
            },
        },
        BuildState::AwaitOutputs => step_outputs(event),
        BuildState::AwaitCompression => step_compression(event),
        BuildState::AwaitStats => step_stats(event),
        BuildState::Finished => {
            let acts: Vec<BuildAction> = Vec::new();
            assert(action_views(acts@) =~= Seq::<ActionView>::empty());
            (BuildState::Finished, acts)
        },
    }
}

} // verus!
