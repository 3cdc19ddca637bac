//! Sandboxed file access: resolving a requested project file, the size limits
//! of reads and writes, temporary file names, and the project file listing.
//! The file system itself is reached by the caller.

use vstd::prelude::*;
use vstd::string::StringExecFns;
use vstd::utf8::encode_utf8;
use crate::text::string_views;
use crate::errors::AppError;
use crate::order::{lex_order, sort_strings};
use crate::paths::{canonical_of, join, path_within};
use crate::text::{chars_eq, chars_of, decimal, decimal_chars, opt_str_view, string_of};
use crate::utils::{editable_path, is_editable_project_file, project_file_resolution, safe_project_file};

verus! {

/// A project file that passed the sandbox checks.
pub struct ProjectFile {
    /// Its path relative to the project (`"chapters/intro.tex"`).
    pub relative_path: String,
    /// Its resolved path on the host.
    pub absolute_path: String,
}

/// The editable files of a project.
pub struct ProjectFileList {
    /// Relative paths, sorted.
    pub files: Vec<String>,
    /// `false` where the listing stopped at its limit.
    pub complete: bool,
}

/// Resolves a requested project file. Refused with `Forbidden("Invalid project
/// file path")` where the path is not editable, and with `Forbidden("Project
/// file is outside the project")` where it does not resolve inside the project.
pub fn resolve_project_file(project_dir: &str, relative_path: &str) -> (r: Result<ProjectFile, AppError>)
    ensures
        !editable_path(relative_path@) ==> (r matches Err(AppError::Forbidden(m)) && m@
            == "Invalid project file path"@),
        editable_path(relative_path@) ==> match r {
            Ok(f) => f.relative_path@ == relative_path@ && project_file_resolution(
                project_dir@,
                relative_path@,
                Some(f.absolute_path@),
            ),
            Err(e) => (e matches AppError::Forbidden(m) && m@ == "Project file is outside the project"@)
                && project_file_resolution(project_dir@, relative_path@, None),
        },
        r matches Ok(f) ==> exists|root: Seq<char>|
            #![trigger join(root, relative_path@)]
            canonical_of(project_dir@, root) && f.absolute_path@ == join(root, relative_path@)
                && path_within(f.absolute_path@, root),
{
    if !is_editable_project_file(relative_path) {
        return Err(AppError::Forbidden("Invalid project file path".to_string()));
    }
    match safe_project_file(project_dir, relative_path) {
        Some(absolute_path) => Ok(ProjectFile { relative_path: relative_path.to_string(), absolute_path }),
        None => Err(AppError::Forbidden("Project file is outside the project".to_string())),
    }
}

/// Why reaching a sandboxed file failed, as the caller saw it.
pub enum FileFault {
    /// The path is a symbolic link (seen before opening, or refused by the
    /// open itself).
    Link,
    /// Nothing exists at the path; the description of the I/O error.
    Missing(String),
    /// Any other I/O failure, with its description.
    Io(String),
}

/// How a failed read (`writing` false) or write of a sandboxed file is
/// answered: a link is refused, a file missing for a read is not found, and
/// every other failure is an internal error carrying its description.
pub fn file_fault_error(fault: FileFault, writing: bool) -> (r: AppError)
    ensures
        match fault {
            FileFault::Link => r matches AppError::Forbidden(m) && m@ == (if writing {
                "Symlinks are not writable"@
            } else {
                "Symlinks are not readable"@
            }),
            FileFault::Missing(d) => if writing {
                r matches AppError::Internal(m) && m@ == d@
            } else {
                r matches AppError::NotFound(m) && m@ == "File not found"@
            },
            FileFault::Io(d) => r matches AppError::Internal(m) && m@ == d@,
        },
{
    match fault {
        FileFault::Link => if writing {
            AppError::Forbidden("Symlinks are not writable".to_string())
        } else {
            AppError::Forbidden("Symlinks are not readable".to_string())
        },
        FileFault::Missing(d) => if writing {
            AppError::Internal(d)
        } else {
            AppError::NotFound("File not found".to_string())
        },
        FileFault::Io(d) => AppError::Internal(d),
    }
}

/// The refusal of a file whose size on disk exceeds the read limit.
pub fn check_read_size(len: u64, max_bytes: usize) -> (r: Option<AppError>)
    ensures
        len <= max_bytes ==> r is None,
        len > max_bytes ==> (r matches Some(AppError::PayloadTooLarge(m)) && m@ == "File too large ("@
            + decimal(len as nat) + " bytes, max "@ + decimal(max_bytes as nat) + " bytes)"@),
{
    if len <= max_bytes as u64 {
        return None;
    }
    let mut m = "File too large (".to_string();
    m.append(string_of(decimal_chars(len).as_slice()).as_str());
    m.append(" bytes, max ");
    m.append(string_of(decimal_chars(max_bytes as u64).as_slice()).as_str());
    m.append(" bytes)");
    Some(AppError::PayloadTooLarge(m))
}

/// The refusal of a text longer than `max_bytes` bytes, as read or as written.
pub fn check_text_size(text: &str, max_bytes: usize) -> (r: Option<AppError>)
    ensures
        encode_utf8(text@).len() <= max_bytes ==> r is None,
        encode_utf8(text@).len() > max_bytes ==> (r matches Some(AppError::PayloadTooLarge(m)) && m@
            == "File too large (max "@ + decimal(max_bytes as nat) + " bytes)"@),
{
    if text.as_bytes().len() <= max_bytes {
        return None;
    }
    let mut m = "File too large (max ".to_string();
    m.append(string_of(decimal_chars(max_bytes as u64).as_slice()).as_str());
    m.append(" bytes)");
    Some(AppError::PayloadTooLarge(m))
}

/// The name of the temporary file a write goes through before it is renamed
/// over `file_name`: hidden, with a random part, ending in `.tmp`.
pub fn temp_file_name(file_name: &str, random: &str) -> (r: String)
    ensures
        r@ == "."@ + file_name@ + "."@ + random@ + ".tmp"@,
{
    let mut s = ".".to_string();
    s.append(file_name);
    s.append(".");
    s.append(random);
    s.append(".tmp");
    s
}

/// A directory entry that the listing passes over: hidden, or the build
/// directory.
pub open spec fn skipped_entry(name: Seq<char>) -> bool {
    (name.len() > 0 && name[0] == '.') || name == "build"@
}

/// Whether the listing passes over the entry `name` (see [`skipped_entry`]).
pub fn skip_entry(name: &str) -> (r: bool)
    ensures
        r == skipped_entry(name@),
{
    let n = chars_of(name);
    (n.len() > 0 && n[0] == '.') || chars_eq(n.as_slice(), chars_of("build").as_slice())
}

/// What the listing finds at a directory entry, as the caller read it.
pub enum EntryKind {
    /// Its metadata could not be read.
    Unreadable,
    /// A symbolic link.
    Link,
    /// A directory.
    Dir,
    /// Any other file.
    File,
}

/// What the listing does at a directory entry.
#[derive(Debug, PartialEq, Eq, Structural)]
pub enum ListingStep {
    /// The limit is reached: the listing stops, incomplete.
    Stop,
    /// The entry is passed over.
    Skip,
    /// The directory is walked.
    Descend,
    /// The file is listed.
    Add,
}

/// The listing has reached its limit.
pub open spec fn listing_full(listed: nat, limit: nat) -> bool {
    listed >= limit
}

/// The listing's decision at an entry named `name`, with `listed` files found
/// so far: stop at the limit; pass over hidden entries, the build directory,
/// unreadable entries and links; walk directories; list a file whose path
/// relative to the project (`None` where it has none) is editable.
pub open spec fn listing_choice(
    listed: nat,
    limit: nat,
    name: Seq<char>,
    kind: EntryKind,
    relative: Option<Seq<char>>,
) -> ListingStep {
    if listing_full(listed, limit) {
        ListingStep::Stop
    } else if skipped_entry(name) {
        ListingStep::Skip
    } else {
        match kind {
            EntryKind::Unreadable | EntryKind::Link => ListingStep::Skip,
            EntryKind::Dir => ListingStep::Descend,
            EntryKind::File => match relative {
                Some(rel) => if editable_path(rel) {
                    ListingStep::Add
                } else {
                    ListingStep::Skip
                },
                None => ListingStep::Skip,
            },
        }
    }
}

/// Whether a listing holding `listed` files has reached its limit.
pub fn is_listing_full(listed: usize, limit: usize) -> (r: bool)
    ensures
        r == listing_full(listed as nat, limit as nat),
{
    listed >= limit
}

/// The listing's decision at a directory entry (see [`listing_choice`]).
pub fn listing_step(
    listed: usize,
    limit: usize,
    name: &str,
    kind: EntryKind,
    relative: Option<&str>,
) -> (r: ListingStep)
    ensures
        r == listing_choice(listed as nat, limit as nat, name@, kind, opt_str_view(relative)),
{
    if is_listing_full(listed, limit) {
        return ListingStep::Stop;
    }
    if skip_entry(name) {
        return ListingStep::Skip;
    }
    match kind {
        EntryKind::Unreadable | EntryKind::Link => ListingStep::Skip,
        EntryKind::Dir => ListingStep::Descend,
        EntryKind::File => match relative {
            Some(rel) => if is_editable_project_file(rel) {
                ListingStep::Add
            } else {
                ListingStep::Skip
            },
            None => ListingStep::Skip,
        },
    }
}

/// The listing's result: the collected paths sorted, and whether the walk
/// finished before its limit.
pub fn finish_listing(files: Vec<String>, complete: bool) -> (r: ProjectFileList)
    ensures
        string_views(r.files@) == string_views(files@).sort_by(lex_order()),
        r.complete == complete,
{
    ProjectFileList { files: sort_strings(files), complete }
}

} // verus!
