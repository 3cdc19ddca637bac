//! Optional host tools and the features they enable. Which tools are on the
//! `PATH` is found by the caller; this module decides what follows from it.

use vstd::prelude::*;
use vstd::string::StringExecFns;
use crate::text::string_views;
use crate::text::{chars_eq, chars_of};

verus! {

/// The optional features available on this host.
#[derive(Clone, Debug)]
pub struct RuntimeCapabilities {
    /// `tex-fmt` is installed: formatting from the UI.
    pub format: bool,
    /// `chktex` is installed: linting from the UI.
    pub lint: bool,
    /// `synctex` is installed: source/PDF navigation.
    pub synctex: bool,
    /// `gs` is installed: PDF compression.
    pub pdf_compression: bool,
    /// `texloganalyser` is installed: log warning analysis.
    pub log_analysis: bool,
    /// The server refuses every mutating action.
    pub read_only: bool,
}

/// `cmd` is among the installed commands.
pub open spec fn installed_has(installed: Seq<Seq<char>>, cmd: Seq<char>) -> bool {
    exists|k: int| 0 <= k < installed.len() && installed[k] == cmd
}

/// Whether `cmd` is among the installed commands.
pub fn is_installed(installed: &Vec<String>, cmd: &str) -> (r: bool)
    ensures
        r == installed_has(string_views(installed@), cmd@),
{
    let c = chars_of(cmd);
    let mut i: usize = 0;
    while i < installed.len()
        invariant
            i <= installed@.len(),
            c@ == cmd@,
            forall|k: int| 0 <= k < i ==> string_views(installed@)[k] != cmd@,
        decreases installed@.len() - i,
    {
        if chars_eq(chars_of(installed[i].as_str()).as_slice(), c.as_slice()) {
            assert(string_views(installed@)[i as int] == cmd@);
            return true;
        }
        assert(string_views(installed@)[i as int] == installed@[i as int]@);
        i += 1;
    }
    false
}

impl RuntimeCapabilities {
    /// The features that the installed commands enable; `installed` names the
    /// optional tools found on the `PATH`.
    pub fn detect(read_only: bool, installed: &Vec<String>) -> (r: Self)
        ensures
            r.format == installed_has(string_views(installed@), "tex-fmt"@),
            r.lint == installed_has(string_views(installed@), "chktex"@),
            r.synctex == installed_has(string_views(installed@), "synctex"@),
            r.pdf_compression == installed_has(string_views(installed@), "gs"@),
            r.log_analysis == installed_has(string_views(installed@), "texloganalyser"@),
            r.read_only == read_only,
    {
        RuntimeCapabilities {
            format: is_installed(installed, "tex-fmt"),
            lint: is_installed(installed, "chktex"),
            synctex: is_installed(installed, "synctex"),
            pdf_compression: is_installed(installed, "gs"),
            log_analysis: is_installed(installed, "texloganalyser"),
            read_only,
        }
    }
}

/// An optional tool and the feature it enables.
pub struct OptionalTool {
    /// The command (`"chktex"`).
    pub command: &'static str,
    /// The capability it backs (`"lint"`).
    pub capability: &'static str,
    /// What is disabled without it.
    pub description: &'static str,
}

/// The optional tools, as (command, capability, description).
pub open spec fn optional_tool_table() -> Seq<(Seq<char>, Seq<char>, Seq<char>)> {
    seq![
        ("tex-fmt"@, "format"@, "formatting from the UI"@),
        ("chktex"@, "lint"@, "linting from the UI"@),
        ("synctex"@, "synctex"@, "source/PDF navigation"@),
        ("gs"@, "pdf_compression"@, "PDF compression"@),
        ("texloganalyser"@, "log_analysis"@, "LaTeX log warning analysis"@),
    ]
}

/// The optional tools the server can use.
pub fn optional_tools() -> (r: Vec<OptionalTool>)
    ensures
        r@.len() == optional_tool_table().len(),
        forall|k: int| 0 <= k < r@.len() ==> ((#[trigger] r@[k]).command@, r@[k].capability@, r@[k].description@) == optional_tool_table()[k],
{
    let mut r: Vec<OptionalTool> = Vec::new();
    r.push(OptionalTool { command: "tex-fmt", capability: "format", description: "formatting from the UI" });
    r.push(OptionalTool { command: "chktex", capability: "lint", description: "linting from the UI" });
    r.push(OptionalTool { command: "synctex", capability: "synctex", description: "source/PDF navigation" });
    r.push(OptionalTool { command: "gs", capability: "pdf_compression", description: "PDF compression" });
    r.push(OptionalTool {
        command: "texloganalyser",
        capability: "log_analysis",
        description: "LaTeX log warning analysis",
    });
    r
}

/// The build tools a server needs: `latexmk` and `texfot` with the latexmk
/// engine, `tectonic` otherwise.
pub open spec fn required_tools(latexmk: bool) -> Seq<Seq<char>> {
    if latexmk {
        seq!["latexmk"@, "texfot"@]
    } else {
        seq!["tectonic"@]
    }
}

/// `items` joined with `sep` between them.
pub open spec fn joined(items: Seq<Seq<char>>, sep: Seq<char>) -> Seq<char>
    decreases items.len(),
{
    if items.len() == 0 {
        Seq::empty()
    } else if items.len() == 1 {
        items[0]
    } else {
        joined(items.drop_last(), sep) + sep + items.last()
    }
}

/// The required tools that are not installed, in order.
pub open spec fn missing_tools(required: Seq<Seq<char>>, installed: Seq<Seq<char>>) -> Seq<Seq<char>>
    decreases required.len(),
{
    if required.len() == 0 {
        Seq::empty()
    } else {
        let rest = missing_tools(required.drop_last(), installed);
        if installed_has(installed, required.last()) {
            rest
        } else {
            rest.push(required.last())
        }
    }
}

/// The start-up refusal where required build tools are missing: the message
/// naming them, or `None` where all are installed.
pub fn missing_build_tools(installed: &Vec<String>, latexmk: bool) -> (r: Option<String>)
    ensures
        match r {
            None => missing_tools(required_tools(latexmk), string_views(installed@)).len() == 0,
            Some(m) => {
                let miss = missing_tools(required_tools(latexmk), string_views(installed@));
                miss.len() > 0 && m@ == "Missing required build dependencies: "@ + joined(miss, ", "@)
                    + ". Please ensure they are installed and in your PATH."@
            },
        },
{
    let mut required: Vec<&'static str> = Vec::new();
    if latexmk {
        required.push("latexmk");
        required.push("texfot");
    } else {
        required.push("tectonic");
    }
    let ghost req = required_tools(latexmk);
    assert(required@.map_values(|s: &'static str| s@) =~= req);
    let ghost inst = string_views(installed@);
    let mut missing: Vec<&'static str> = Vec::new();
    let mut i: usize = 0;
    assert(req.take(0) =~= Seq::<Seq<char>>::empty());
    while i < required.len()
        invariant
            i <= required@.len() == req.len(),
            required@.map_values(|s: &'static str| s@) == req,
            inst == string_views(installed@),
            missing@.map_values(|s: &'static str| s@) == missing_tools(req.take(i as int), inst),
        decreases required@.len() - i,
    {
        let d = required[i];
        assert(d@ == req[i as int]);
        assert(req.take(i + 1).drop_last() =~= req.take(i as int));
        let ghost before = missing@.map_values(|s: &'static str| s@);
        if !is_installed(installed, d) {
            missing.push(d);
            assert(missing@.map_values(|s: &'static str| s@) =~= before.push(d@));
        }
        i += 1;
    }
    assert(req.take(req.len() as int) =~= req);
    if missing.len() == 0 {
        return None;
    }
    let ghost miss = missing@.map_values(|s: &'static str| s@);
    let mut m = "Missing required build dependencies: ".to_string();
    let mut k: usize = 0;
    while k < missing.len()
        invariant
            0 < missing@.len(),
            k <= missing@.len(),
            miss == missing@.map_values(|s: &'static str| s@),
            m@ == "Missing required build dependencies: "@ + joined(miss.take(k as int), ", "@),
        decreases missing@.len() - k,
    {
        let ghost before = m@;
        assert(miss.take(k + 1).drop_last() =~= miss.take(k as int));
        if k > 0 {
            m.append(", ");
        }
        m.append(missing[k]);
        if k == 0 {
            assert(joined(miss.take(1), ", "@) == miss[0]);
            assert(joined(miss.take(0), ", "@) =~= Seq::<char>::empty());
            assert(m@ =~= "Missing required build dependencies: "@ + joined(miss.take(1), ", "@));
        } else {
            assert(m@ =~= "Missing required build dependencies: "@ + joined(miss.take(k + 1), ", "@));
        }
        k += 1;
    }
    assert(miss.take(miss.len() as int) =~= miss);
    m.append(". Please ensure they are installed and in your PATH.");
    Some(m)
}

/// The start-up check of the host's tools: `Err` with the refusal where a
/// required build tool is missing, else the optional tools to warn about, in
/// their usual order.
pub fn check_runtime_dependencies(installed: &Vec<String>, compress_pdf: bool, latexmk: bool) -> (r: Result<Vec<OptionalTool>, String>)
    ensures
        missing_tools(required_tools(latexmk), string_views(installed@)).len() > 0 ==> r is Err,
        missing_tools(required_tools(latexmk), string_views(installed@)).len() == 0 ==> (r matches Ok(w) && w@.map_values(
            |t: OptionalTool| t.command@,
        ) == warned_tools(optional_tool_table(), string_views(installed@), compress_pdf, latexmk)),
        r matches Err(m) ==> m@ == "Missing required build dependencies: "@ + joined(
            missing_tools(required_tools(latexmk), string_views(installed@)),
            ", "@,
        ) + ". Please ensure they are installed and in your PATH."@,
{
    match missing_build_tools(installed, latexmk) {
        Some(m) => Err(m),
        None => {
            let tools = optional_tools();
            let ghost table = optional_tool_table();
            let mut tools = tools;
            let mut warn: Vec<OptionalTool> = Vec::new();
            let ghost all = tools@;
            let mut i: usize = 0;
            let n = tools.len();
            assert(table.take(0) =~= Seq::<(Seq<char>, Seq<char>, Seq<char>)>::empty());
            while tools.len() > 0
                invariant
                    i + tools@.len() == n == all.len() == table.len(),
                    tools@ == all.subrange(i as int, n as int),
                    forall|k: int| 0 <= k < all.len() ==> ((#[trigger] all[k]).command@, all[k].capability@, all[k].description@) == table[k],
                    warn@.map_values(|t: OptionalTool| t.command@) == warned_tools(table.take(i as int), string_views(installed@), compress_pdf, latexmk),
                decreases tools@.len(),
            {
                let t = tools.remove(0);
                assert(t == all[i as int]);
                assert(table.take(i + 1).drop_last() =~= table.take(i as int));
                assert(table.take(i + 1).last() == table[i as int]);
                let ghost before = warn@.map_values(|t: OptionalTool| t.command@);
                if optional_tool_warning(t.command, installed, compress_pdf, latexmk) {
                    warn.push(t);
                    assert(warn@.map_values(|t: OptionalTool| t.command@) =~= before.push(table[i as int].0));
                }
                assert(tools@ =~= all.subrange(i + 1, n as int));
                i += 1;
            }
            assert(table.take(n as int) =~= table);
            Ok(warn)
        },
    }
}

/// The commands of the tools in `table` that a warning is due for (see [`warn_optional`]).
pub open spec fn warned_tools(table: Seq<(Seq<char>, Seq<char>, Seq<char>)>, installed: Seq<Seq<char>>, compress_pdf: bool, latexmk: bool) -> Seq<Seq<char>>
    decreases table.len(),
{
    if table.len() == 0 {
        Seq::empty()
    } else {
        let rest = warned_tools(table.drop_last(), installed, compress_pdf, latexmk);
        if warn_optional(table.last().0, installed, compress_pdf, latexmk) {
            rest.push(table.last().0)
        } else {
            rest
        }
    }
}

/// The optional tools worth a start-up warning: those not installed, leaving
/// out `gs` where compression is off and `texloganalyser` without the latexmk
/// engine.
pub open spec fn warn_optional(cmd: Seq<char>, installed: Seq<Seq<char>>, compress_pdf: bool, latexmk: bool) -> bool {
    !(cmd == "gs"@ && !compress_pdf) && !(cmd == "texloganalyser"@ && !latexmk) && !installed_has(installed, cmd)
}

/// Whether a start-up warning is due for the optional tool `cmd` (see [`warn_optional`]).
pub fn optional_tool_warning(cmd: &str, installed: &Vec<String>, compress_pdf: bool, latexmk: bool) -> (r: bool)
    ensures
        r == warn_optional(cmd@, string_views(installed@), compress_pdf, latexmk),
{
    let c = chars_of(cmd);
    if chars_eq(c.as_slice(), chars_of("gs").as_slice()) && !compress_pdf {
        return false;
    }
    if chars_eq(c.as_slice(), chars_of("texloganalyser").as_slice()) && !latexmk {
        return false;
    }
    !is_installed(installed, cmd)
}

} // verus!
