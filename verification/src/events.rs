//! The messages pushed to browsers over the server-sent event stream, and
//! their JSON form: an object whose `type` names the event and whose `data`
//! holds its payload.

use vstd::prelude::*;
use vstd::string::StringExecFns;
use crate::text::{decimal, decimal_chars, hex_digit, opt_view, string_of};

verus! {

/// A compiler or linter diagnostic parsed from a log line.
#[derive(Clone, Debug)]
pub struct DiagnosticEvent {
    /// Severity of the issue (`"warn"` or `"err"`).
    pub severity: String,
    /// Source file the diagnostic points at.
    pub file: Option<String>,
    /// 1-based line in that file.
    pub line: Option<u32>,
    /// 1-based column in that line.
    pub column: Option<u32>,
    /// Human-readable description.
    pub message: String,
    /// The log line it was parsed from.
    pub raw: String,
}

/// The events of the stream.
pub enum ServerEvent {
    /// The build state changed (`"Idle"`, `"Error"`, or the label of a build).
    Status(String),
    /// One line of compiler output.
    Log {
        /// Level of the line (`"ok"`, `"warn"`, `"err"`, `"dim"`).
        lvl: String,
        /// The line.
        msg: String,
    },
    /// A structured diagnostic.
    Diagnostic(DiagnosticEvent),
    /// A project file changed on disk.
    FileChanged {
        /// Path of the file, relative to the project.
        path: String,
    },
    /// The PDF viewer should reload.
    Pdf(String),
    /// Figures of a finished build.
    Stats {
        /// Build duration, formatted.
        time: String,
        /// PDF size, formatted.
        size: String,
        /// Word count over the document and its inputs.
        words: u32,
    },
}

/// How a JSON string writes the character `c`: `"` and `\\` and the control
/// characters escaped, the short forms where JSON has them, `\\u00XX` with
/// lower-case hexadecimal digits for the other control characters, and every
/// other character as it is.
pub open spec fn json_escape_char(c: char) -> Seq<char> {
    if c == '"' {
        seq!['\\', '"']
    } else if c == '\\' {
        seq!['\\', '\\']
    } else if c == '\u{8}' {
        seq!['\\', 'b']
    } else if c == '\t' {
        seq!['\\', 't']
    } else if c == '\n' {
        seq!['\\', 'n']
    } else if c == '\u{c}' {
        seq!['\\', 'f']
    } else if c == '\r' {
        seq!['\\', 'r']
    } else if (c as u32) < 0x20 {
        seq!['\\', 'u', '0', '0', hex_digit((c as u32 / 16) as nat), hex_digit((c as u32 % 16) as nat)]
    } else {
        seq![c]
    }
}

/// The escaped characters of `s`.
pub open spec fn json_escape(s: Seq<char>) -> Seq<char>
    decreases s.len(),
{
    if s.len() == 0 {
        Seq::empty()
    } else {
        json_escape(s.drop_last()) + json_escape_char(s.last())
    }
}

/// `s` as a JSON string literal.
pub open spec fn json_quote(s: Seq<char>) -> Seq<char> {
    seq!['"'] + json_escape(s) + seq!['"']
}

/// An optional string in JSON: the string, or `null`.
pub open spec fn json_opt_str(o: Option<Seq<char>>) -> Seq<char> {
    match o {
        Some(s) => json_quote(s),
        None => "null"@,
    }
}

/// An optional number in JSON: its decimal digits, or `null`.
pub open spec fn json_opt_u32(o: Option<u32>) -> Seq<char> {
    match o {
        Some(n) => decimal(n as nat),
        None => "null"@,
    }
}

/// The JSON object of a diagnostic with the given fields, in declaration order.
pub open spec fn diagnostic_fields_json(
    severity: Seq<char>,
    file: Option<Seq<char>>,
    line: Option<u32>,
    column: Option<u32>,
    message: Seq<char>,
    raw: Seq<char>,
) -> Seq<char> {
    "{\"severity\":"@ + json_quote(severity) + ",\"file\":"@ + json_opt_str(file) + ",\"line\":"@
        + json_opt_u32(line) + ",\"column\":"@ + json_opt_u32(column) + ",\"message\":"@
        + json_quote(message) + ",\"raw\":"@ + json_quote(raw) + "}"@
}

/// The JSON object of a diagnostic.
pub open spec fn diagnostic_json(d: DiagnosticEvent) -> Seq<char> {
    diagnostic_fields_json(d.severity@, opt_view(d.file), d.line, d.column, d.message@, d.raw@)
}

/// The JSON text of an event.
pub open spec fn event_json(e: ServerEvent) -> Seq<char> {
    match e {
        ServerEvent::Status(s) => "{\"type\":\"status\",\"data\":"@ + json_quote(s@) + "}"@,
        ServerEvent::Log { lvl, msg } => "{\"type\":\"log\",\"data\":{\"lvl\":"@ + json_quote(lvl@)
            + ",\"msg\":"@ + json_quote(msg@) + "}}"@,
        ServerEvent::Diagnostic(d) => "{\"type\":\"diagnostic\",\"data\":"@ + diagnostic_json(d)
            + "}"@,
        ServerEvent::FileChanged { path } => "{\"type\":\"file_changed\",\"data\":{\"path\":"@
            + json_quote(path@) + "}}"@,
        ServerEvent::Pdf(s) => "{\"type\":\"pdf\",\"data\":"@ + json_quote(s@) + "}"@,
        ServerEvent::Stats { time, size, words } => "{\"type\":\"stats\",\"data\":{\"time\":"@
            + json_quote(time@) + ",\"size\":"@ + json_quote(size@) + ",\"words\":"@ + decimal(
            words as nat,
        ) + "}}"@,
    }
}

/// `serde_json::to_string` on a string slice: the string as a JSON literal.
/// Serialising a `str` into the in-memory buffer that `to_string` uses cannot
/// fail; the contract states the escaping that serde_json's writer applies.
#[verifier::external_body]
fn json_string(s: &str) -> (r: String)
    ensures
        r@ == json_quote(s@),
{
    serde_json::to_string(s).unwrap_or_default()
}

/// Appends the decimal digits of `n`.
fn push_decimal(out: &mut String, n: u32)
    ensures
        final(out)@ == old(out)@ + decimal(n as nat),
{
    let digits = string_of(decimal_chars(n as u64).as_slice());
    out.append(digits.as_str());
}

/// Appends an optional string as JSON.
fn push_opt_str(out: &mut String, o: &Option<String>)
    ensures
        final(out)@ == old(out)@ + json_opt_str(opt_view(*o)),
{
    match o {
        Some(s) => out.append(json_string(s.as_str()).as_str()),
        None => out.append("null"),
    }
}

/// Appends an optional number as JSON.
fn push_opt_u32(out: &mut String, o: Option<u32>)
    ensures
        final(out)@ == old(out)@ + json_opt_u32(o),
{
    match o {
        Some(n) => push_decimal(out, n),
        None => out.append("null"),
    }
}

impl DiagnosticEvent {
    /// The JSON object of this diagnostic.
    pub fn to_json(&self) -> (r: String)
        ensures
            r@ == diagnostic_json(*self),
    {
        let mut out = String::new();
        out.append("{\"severity\":");
        out.append(json_string(self.severity.as_str()).as_str());
        out.append(",\"file\":");
        push_opt_str(&mut out, &self.file);
        out.append(",\"line\":");
        push_opt_u32(&mut out, self.line);
        out.append(",\"column\":");
        push_opt_u32(&mut out, self.column);
        out.append(",\"message\":");
        out.append(json_string(self.message.as_str()).as_str());
        out.append(",\"raw\":");
        out.append(json_string(self.raw.as_str()).as_str());
        out.append("}");
        out
    }
}

impl ServerEvent {
    /// The JSON text of this event.
    pub fn encode(&self) -> (r: String)
        ensures
            r@ == event_json(*self),
    {
        let mut out = String::new();
        match self {
            ServerEvent::Status(s) => {
                out.append("{\"type\":\"status\",\"data\":");
                out.append(json_string(s.as_str()).as_str());
                out.append("}");
            },
            ServerEvent::Log { lvl, msg } => {
                out.append("{\"type\":\"log\",\"data\":{\"lvl\":");
                out.append(json_string(lvl.as_str()).as_str());
                out.append(",\"msg\":");
                out.append(json_string(msg.as_str()).as_str());
                out.append("}}");
            },
            ServerEvent::Diagnostic(d) => {
                out.append("{\"type\":\"diagnostic\",\"data\":");
                out.append(d.to_json().as_str());
                out.append("}");
            },
            ServerEvent::FileChanged { path } => {
                out.append("{\"type\":\"file_changed\",\"data\":{\"path\":");
                out.append(json_string(path.as_str()).as_str());
                out.append("}}");
            },
            ServerEvent::Pdf(s) => {
                out.append("{\"type\":\"pdf\",\"data\":");
                out.append(json_string(s.as_str()).as_str());
                out.append("}");
            },
            ServerEvent::Stats { time, size, words } => {
                out.append("{\"type\":\"stats\",\"data\":{\"time\":");
                out.append(json_string(time.as_str()).as_str());
                out.append(",\"size\":");
                out.append(json_string(size.as_str()).as_str());
                out.append(",\"words\":");
                push_decimal(&mut out, *words);
                out.append("}}");
            },
        }
        out
    }
}

/// The JSON text of a status event.
pub open spec fn status_event(state: Seq<char>) -> Seq<char> {
    "{\"type\":\"status\",\"data\":"@ + json_quote(state) + "}"@
}

/// The JSON text of a log event.
pub open spec fn log_event(lvl: Seq<char>, msg: Seq<char>) -> Seq<char> {
    "{\"type\":\"log\",\"data\":{\"lvl\":"@ + json_quote(lvl) + ",\"msg\":"@ + json_quote(msg) + "}}"@
}

/// The JSON text of the PDF reload event.
pub open spec fn pdf_reload_event() -> Seq<char> {
    "{\"type\":\"pdf\",\"data\":"@ + json_quote("reload"@) + "}"@
}

/// The JSON text of a build figures event.
pub open spec fn stats_event(time: Seq<char>, size: Seq<char>, words: u32) -> Seq<char> {
    "{\"type\":\"stats\",\"data\":{\"time\":"@ + json_quote(time) + ",\"size\":"@ + json_quote(size)
        + ",\"words\":"@ + decimal(words as nat) + "}}"@
}

/// The event announcing a new build state.
pub fn status(state: &str) -> (r: String)
    ensures
        r@ == status_event(state@),
{
    ServerEvent::Status(state.to_string()).encode()
}

/// The event carrying one log line.
pub fn log(lvl: &str, msg: &str) -> (r: String)
    ensures
        r@ == log_event(lvl@, msg@),
{
    ServerEvent::Log { lvl: lvl.to_string(), msg: msg.to_string() }.encode()
}

/// The event carrying a diagnostic.
pub fn diagnostic(value: DiagnosticEvent) -> (r: String)
    ensures
        r@ == "{\"type\":\"diagnostic\",\"data\":"@ + diagnostic_json(value) + "}"@,
{
    ServerEvent::Diagnostic(value).encode()
}

/// The event announcing a changed project file.
pub fn file_changed(path: &str) -> (r: String)
    ensures
        r@ == "{\"type\":\"file_changed\",\"data\":{\"path\":"@ + json_quote(path@) + "}}"@,
{
    ServerEvent::FileChanged { path: path.to_string() }.encode()
}

/// The event telling the viewer to reload the PDF.
pub fn pdf_reload() -> (r: String)
    ensures
        r@ == pdf_reload_event(),
{
    ServerEvent::Pdf("reload".to_string()).encode()
}

/// The event reporting the figures of a finished build.
pub fn stats(time: &str, size: &str, words: u32) -> (r: String)
    ensures
        r@ == stats_event(time@, size@, words),
{
    ServerEvent::Stats { time: time.to_string(), size: size.to_string(), words }.encode()
}

} // verus!
