//! The JSON payloads that the API returns, as plain data.

use vstd::prelude::*;

verus! {

/// Build state of a project.
pub struct ProjectStatusResponse {
    /// `"idle"`, `"building"` or `"locked"`.
    pub status: String,
}

/// The projects under the root.
pub struct ProjectsResponse {
    /// Their names, sorted.
    pub projects: Vec<String>,
}

/// The latest preview of a project.
pub struct PreviewResponse {
    /// Run name.
    pub run: String,
    /// Finishing time, in milliseconds since the epoch.
    pub built_at_ms: u64,
    /// PDF size in bytes.
    pub pdf_size_bytes: u64,
}

/// One successful build.
pub struct BuildArtifactResponse {
    /// Run name.
    pub run: String,
    /// Finishing time, in milliseconds since the epoch.
    pub built_at_ms: u64,
    /// PDF size in bytes.
    pub pdf_size_bytes: u64,
}

/// The raw project settings.
pub struct ConfigResponse {
    /// The `EasyTex.toml` text.
    pub raw: String,
}

/// A project file's text.
pub struct FileResponse {
    /// The text.
    pub content: String,
    /// Its path, relative to the project.
    pub path: String,
}

/// The editable files of a project.
pub struct FileListResponse {
    /// Their relative paths, sorted.
    pub files: Vec<String>,
    /// `false` where the listing stopped at its limit.
    pub complete: bool,
}

/// A source location found from a PDF position.
pub struct SynctexEditResponse {
    /// Source file, relative to the project.
    pub file: String,
    /// 1-based line.
    pub line: u32,
    /// 1-based column.
    pub column: u32,
}

/// The outcome of a lint run.
pub struct LintResponse {
    /// The linter exited successfully.
    pub ok: bool,
    /// Its exit code, where it has one.
    pub status: Option<i32>,
    /// Its standard output.
    pub stdout: String,
    /// Its standard error.
    pub stderr: String,
}

/// Server figures for the admin dashboard.
pub struct AdminMetricsResponse {
    /// Projects under the root.
    pub projects: usize,
    /// Open sessions.
    pub active_sessions: usize,
    /// Builds running.
    pub active_builds: usize,
    /// Free build slots.
    pub available_build_slots: usize,
    /// Build slot limit.
    pub max_concurrent_builds: usize,
    /// Entries in the build history.
    pub history_entries: usize,
    /// The server is read-only.
    pub read_only: bool,
    /// Mutating and admin requests need the token.
    pub auth_required: bool,
}

} // verus!
