//! The decisions behind the HTTP routes: request routing and its guards, admin
//! authorization, static asset selection, the watcher's file filter, formatter
//! command lines, project configuration checks, SyncTeX output parsing and PDF
//! download headers.

use vstd::prelude::*;
use vstd::string::StringExecFns;
use vstd::utf8::encode_utf8;
use crate::artifacts::{valid_run_id, valid_success_run};
use crate::config::Config;
use crate::errors::{error_message, error_status, AppError};
use crate::frontend_assets::FrontendAssets;
use crate::paths::{components, extension_of, file_name, join, lemma_join_components, part_views, path_components, path_extension};
use crate::text::{ascii_lowercase, chars_eq, chars_of, decimal, decimal_chars, has_prefix, lower, parse_uint, parse_unsigned, replace_all, replace_chars, split, split_char, split_words, starts_with, string_of, sub_chars, trim, trimmed, words, contains_seq, contains};
use crate::utils::{is_valid_entrypoint, lemma_plain_file_name, plain_file, valid_entrypoint, MAX_CONFIG_SIZE};

verus! {

/// A request to save a project's settings.
pub struct ConfigInput {
    /// The settings as TOML text.
    pub raw: String,
}

/// Options of a PDF request.
pub struct PdfQuery {
    /// `"1"` asks for a download rather than inline display.
    pub dl: Option<String>,
    /// A run to serve instead of the latest successful one.
    pub run: Option<String>,
}

/// Whether a request presenting the `Authorization` header value `authorization`
/// may use the admin routes: always where no admin token is configured,
/// otherwise only with `Bearer ` followed by the token.
pub open spec fn admin_allowed(admin_token: Option<Seq<char>>, authorization: Option<Seq<char>>) -> bool {
    match admin_token {
        None => true,
        Some(t) => match authorization {
            Some(h) => has_prefix(h, "Bearer "@) && h.skip(7) == t,
            None => false,
        },
    }
}

/// The characters of an optional string slice.
pub open spec fn opt_chars(o: Option<&str>) -> Option<Seq<char>> {
    match o {
        Some(s) => Some(s@),
        None => None,
    }
}

/// Decides admin authorization (see [`admin_allowed`]). `authorization` is the
/// header's value where it is present and readable as text.
pub fn admin_authorized(admin_token: Option<&str>, authorization: Option<&str>) -> (r: bool)
    ensures
        r == admin_allowed(opt_chars(admin_token), opt_chars(authorization)),
{
    match admin_token {
        None => true,
        Some(t) => match authorization {
            Some(h) => {
                let hc = chars_of(h);
                let bearer = chars_of("Bearer ");
                proof {
                    reveal_strlit("Bearer ");
                }
                if starts_with(hc.as_slice(), bearer.as_slice()) {
                    let rest = sub_chars(hc.as_slice(), 7, hc.len());
                    assert(rest@ =~= h@.skip(7));
                    chars_eq(rest.as_slice(), chars_of(t).as_slice())
                } else {
                    false
                }
            },
            None => false,
        },
    }
}

/// File extensions whose changes trigger a rebuild, compared in ASCII lower case.
pub open spec fn watched_extension(e: Seq<char>) -> bool {
    let l = lower(e);
    ||| l == "tex"@
    ||| l == "toml"@
    ||| l == "bib"@
    ||| l == "sty"@
    ||| l == "cls"@
    ||| l == "png"@
    ||| l == "jpg"@
    ||| l == "pdf"@
    ||| l == "tikz"@
    ||| l == "eps"@
    ||| l == "svg"@
}

/// A changed path that triggers a rebuild: no `build` component, and a watched
/// extension.
pub open spec fn watched_path(p: Seq<char>) -> bool {
    &&& !(exists|k: int| 0 <= k < components(p).len() && #[trigger] components(p)[k] == "build"@)
    &&& match path_extension(p) {
        Some(e) => watched_extension(e),
        None => false,
    }
}

/// Which changes trigger a rebuild: a plain file in a directory outside any
/// `build` directory triggers one exactly when its extension, in ASCII lower
/// case, is one of the eleven of sources, settings, bibliographies, styles,
/// classes and figures (`tex`, `toml`, `bib`, `sty`, `cls`, `png`, `jpg`,
/// `pdf`, `tikz`, `eps`, `svg`). So editing a style file such as
/// `thesis.sty` rebuilds.
pub proof fn lemma_watched_plain_files(dir: Seq<char>, stem: Seq<char>, ext: Seq<char>)
    requires
        plain_file(stem, ext),
        forall|k: int| 0 <= k < components(dir).len() ==> #[trigger] components(dir)[k] != "build"@,
    ensures
        watched_path(join(dir, stem + seq!['.'] + ext)) <==> {
            let l = lower(ext);
            ||| l == "tex"@
            ||| l == "toml"@
            ||| l == "bib"@
            ||| l == "sty"@
            ||| l == "cls"@
            ||| l == "png"@
            ||| l == "jpg"@
            ||| l == "pdf"@
            ||| l == "tikz"@
            ||| l == "eps"@
            ||| l == "svg"@
        },
{
    let name = stem + seq!['.'] + ext;
    let p = join(dir, name);
    lemma_plain_file_name(stem, ext);
    lemma_join_components(dir, name);
    let cd = components(dir);
    assert(components(p) == cd.push(name));
    assert(name != "build"@) by {
        reveal_strlit("build");
        if name == "build"@ {
            assert(name[stem.len() as int] == '.');
        }
    }
    assert forall|k: int| 0 <= k < components(p).len() implies #[trigger] components(p)[k] != "build"@ by {
        if k < cd.len() {
            assert(components(p)[k] == cd[k]);
        } else {
            assert(components(p)[k] == name);
        }
    }
    assert(components(p).last() == name);
    assert(file_name(p) == file_name(name));
}

/// Whether the extension `e` is watched.
fn is_watched_extension(e: &[char]) -> (r: bool)
    ensures
        r == watched_extension(e@),
{
    let l = ascii_lowercase(e);
    let s = l.as_slice();
    chars_eq(s, chars_of("tex").as_slice()) || chars_eq(s, chars_of("toml").as_slice())
        || chars_eq(s, chars_of("bib").as_slice()) || chars_eq(s, chars_of("sty").as_slice())
        || chars_eq(s, chars_of("cls").as_slice()) || chars_eq(s, chars_of("png").as_slice())
        || chars_eq(s, chars_of("jpg").as_slice()) || chars_eq(s, chars_of("pdf").as_slice())
        || chars_eq(s, chars_of("tikz").as_slice()) || chars_eq(s, chars_of("eps").as_slice())
        || chars_eq(s, chars_of("svg").as_slice())
}

/// `path` has an extension whose ASCII lower-case form is in `allowed`.
pub open spec fn extension_in(path: Seq<char>, allowed: Seq<Seq<char>>) -> bool {
    match path_extension(path) {
        Some(e) => exists|k: int| 0 <= k < allowed.len() && allowed[k] == lower(e),
        None => false,
    }
}

/// The characters of string slices.
pub open spec fn str_views(s: Seq<&str>) -> Seq<Seq<char>> {
    s.map_values(|x: &str| x@)
}

/// Whether the extension of `path`, in ASCII lower case, is one of `allowed`.
pub fn extension_matches(path: &str, allowed: &Vec<&str>) -> (r: bool)
    ensures
        r == extension_in(path@, str_views(allowed@)),
{
    match extension_of(chars_of(path).as_slice()) {
        Some(e) => {
            let l = ascii_lowercase(e.as_slice());
            let mut k: usize = 0;
            while k < allowed.len()
                invariant
                    k <= allowed@.len(),
                    l@ == lower(e@),
                    path_extension(path@) == Some(e@),
                    forall|j: int| 0 <= j < k ==> str_views(allowed@)[j] != l@,
                decreases allowed@.len() - k,
            {
                assert(str_views(allowed@)[k as int] == allowed@[k as int]@);
                if chars_eq(chars_of(allowed[k]).as_slice(), l.as_slice()) {
                    assert(str_views(allowed@)[k as int] == lower(e@));
                    return true;
                }
                k += 1;
            }
            false
        },
        None => false,
    }
}

/// Whether a change to `path` triggers a rebuild (see [`watched_path`]).
pub fn is_watched_path(path: &str) -> (r: bool)
    ensures
        r == watched_path(path@),
{
    let pc = chars_of(path);
    let comps = path_components(pc.as_slice());
    let build = chars_of("build");
    let mut i: usize = 0;
    while i < comps.len()
        invariant
            i <= comps@.len(),
            part_views(comps@) == components(path@),
            build@ == "build"@,
            forall|k: int| 0 <= k < i ==> components(path@)[k] != "build"@,
        decreases comps@.len() - i,
    {
        assert(part_views(comps@)[i as int] == comps@[i as int]@);
        if chars_eq(comps[i].as_slice(), build.as_slice()) {
            assert(components(path@)[i as int] == "build"@);
            return false;
        }
        i += 1;
    }
    match extension_of(pc.as_slice()) {
        Some(e) => is_watched_extension(e.as_slice()),
        None => false,
    }
}

/// The content type served for an asset path, chosen by what follows its last `.`.
pub open spec fn content_type(path: Seq<char>) -> Seq<char> {
    let ext = split(path, '.').last();
    if ext == "js"@ || ext == "mjs"@ {
        "application/javascript"@
    } else if ext == "css"@ {
        "text/css"@
    } else if ext == "svg"@ {
        "image/svg+xml"@
    } else if ext == "png"@ {
        "image/png"@
    } else if ext == "html"@ {
        "text/html"@
    } else {
        "application/octet-stream"@
    }
}

/// The content type served for an asset path (see [`content_type`]).
pub fn content_type_for(path: &str) -> (r: &'static str)
    ensures
        r@ == content_type(path@),
{
    let pieces = split_char(chars_of(path).as_slice(), '.');
    proof {
        crate::text::lemma_split_nonempty(path@, '.');
    }
    let ext = pieces[pieces.len() - 1].as_slice();
    assert(ext@ == split(path@, '.').last());
    if chars_eq(ext, chars_of("js").as_slice()) || chars_eq(ext, chars_of("mjs").as_slice()) {
        "application/javascript"
    } else if chars_eq(ext, chars_of("css").as_slice()) {
        "text/css"
    } else if chars_eq(ext, chars_of("svg").as_slice()) {
        "image/svg+xml"
    } else if chars_eq(ext, chars_of("png").as_slice()) {
        "image/png"
    } else if chars_eq(ext, chars_of("html").as_slice()) {
        "text/html"
    } else {
        "application/octet-stream"
    }
}

/// `s` without its leading `/` characters.
pub open spec fn strip_leading_slashes(s: Seq<char>) -> Seq<char>
    decreases s.len(),
{
    if s.len() > 0 && s[0] == '/' {
        strip_leading_slashes(s.drop_first())
    } else {
        s
    }
}

/// What the static route serves for a request path: the asset stored under the
/// path (leading `/` removed) with its content type, or `index.html` as
/// `text/html` for the empty path and any unknown one; `None` where the index
/// is missing too.
pub open spec fn static_choice(assets: Map<Seq<char>, Seq<u8>>, uri_path: Seq<char>) -> Option<(Seq<char>, Seq<u8>)> {
    let p = strip_leading_slashes(uri_path);
    if p.len() > 0 && assets.dom().contains(p) {
        Some((content_type(p), assets[p]))
    } else if assets.dom().contains("index.html"@) {
        Some(("text/html"@, assets["index.html"@]))
    } else {
        None
    }
}

/// A copy of a byte slice.
fn copy_bytes(b: &[u8]) -> (r: Vec<u8>)
    ensures
        r@ == b@,
{
    let mut r: Vec<u8> = Vec::new();
    let mut i: usize = 0;
    while i < b.len()
        invariant
            i <= b@.len(),
            r@ == b@.take(i as int),
        decreases b@.len() - i,
    {
        r.push(b[i]);
        assert(b@.take(i + 1) =~= b@.take(i as int).push(b@[i as int]));
        i += 1;
    }
    assert(b@.take(b@.len() as int) =~= b@);
    r
}

/// Chooses the asset served for `uri_path` (see [`static_choice`]).
pub fn serve_static(assets: &FrontendAssets, uri_path: &str) -> (r: Option<(&'static str, Vec<u8>)>)
    ensures
        match static_choice(assets@, uri_path@) {
            Some((ct, body)) => r matches Some(x) && x.0@ == ct && x.1@ == body,
            None => r is None,
        },
{
    let pc = chars_of(uri_path);
    let mut i: usize = 0;
    assert(pc@.subrange(0, pc@.len() as int) =~= pc@);
    while i < pc.len() && pc[i] == '/'
        invariant
            i <= pc@.len(),
            strip_leading_slashes(pc@) == strip_leading_slashes(pc@.subrange(i as int, pc@.len() as int)),
        decreases pc@.len() - i,
    {
        assert(pc@.subrange(i as int, pc@.len() as int).drop_first() =~= pc@.subrange(i + 1, pc@.len() as int));
        i += 1;
    }
    let rest = sub_chars(pc.as_slice(), i, pc.len());
    assert(strip_leading_slashes(rest@) == rest@);
    let key = string_of(rest.as_slice());
    if rest.len() > 0 {
        match assets.get(key.as_str()) {
            Some(b) => {
                let ct = content_type_for(key.as_str());
                return Some((ct, copy_bytes(b)));
            },
            None => {},
        }
    }
    match assets.get("index.html") {
        Some(b) => Some(("text/html", copy_bytes(b))),
        None => None,
    }
}

/// Why a formatter command line is refused.
#[derive(Debug, Clone, Copy, PartialEq, Eq, Structural)]
pub enum FormatPlanError {
    /// The command line has no words.
    Empty,
    /// The program is not `tex-fmt`.
    NotPermitted,
}

/// Index of the first of `args` that holds `pat`, or -1.
pub open spec fn first_holding(args: Seq<Seq<char>>, pat: Seq<char>) -> int
    decreases args.len(),
{
    if args.len() == 0 {
        -1
    } else {
        let k = first_holding(args.drop_last(), pat);
        if k >= 0 {
            k
        } else if contains_seq(args.last(), pat) {
            args.len() - 1
        } else {
            -1
        }
    }
}

/// The index found by [`first_holding`] is -1 or an index of `args`.
proof fn lemma_first_holding_bound(args: Seq<Seq<char>>, pat: Seq<char>)
    ensures
        -1 <= first_holding(args, pat) < args.len(),
    decreases args.len(),
{
    if args.len() > 0 {
        lemma_first_holding_bound(args.drop_last(), pat);
    }
}

/// The arguments of a formatter run: where an argument holds `{file}`, the
/// first such argument has each `{file}` replaced by the entrypoint; otherwise
/// the entrypoint is appended.
pub open spec fn format_args(args: Seq<Seq<char>>, entrypoint: Seq<char>) -> Seq<Seq<char>> {
    let k = first_holding(args, "{file}"@);
    if k >= 0 {
        args.update(k, replace_all(args[k], "{file}"@, entrypoint))
    } else {
        args.push(entrypoint)
    }
}

/// The formatter run for a project: the program and its arguments, from the
/// configured command line (`tex-fmt` where none is set).
pub open spec fn format_plan(command: Option<Seq<char>>, entrypoint: Seq<char>) -> Result<(Seq<char>, Seq<Seq<char>>), FormatPlanError> {
    let line = match command {
        Some(c) => c,
        None => "tex-fmt"@,
    };
    let ws = words(line);
    if ws.len() == 0 {
        Err(FormatPlanError::Empty)
    } else if ws[0] != "tex-fmt"@ {
        Err(FormatPlanError::NotPermitted)
    } else {
        Ok((ws[0], format_args(ws.skip(1), entrypoint)))
    }
}

/// The arguments of `ws` after the first, with the entrypoint filled in (see
/// [`format_args`]).
fn fill_arguments(ws: &Vec<Vec<char>>, entrypoint: &str) -> (r: Vec<String>)
    requires
        ws@.len() >= 1,
    ensures
        r@.map_values(|s: String| s@) == format_args(part_views(ws@).skip(1), entrypoint@),
{
    let ghost args = part_views(ws@).skip(1);
    let placeholder = chars_of("{file}");
    proof {
        reveal_strlit("{file}");
    }
    let ep = chars_of(entrypoint);
    let mut out: Vec<String> = Vec::new();
    let mut found = false;
    let mut j: usize = 0;
    let n: usize = ws.len() - 1;
    assert(args.take(0) =~= Seq::<Seq<char>>::empty());
    while j < n
        invariant
            j <= n == args.len(),
            n + 1 == ws@.len(),
            args == part_views(ws@).skip(1),
            placeholder@ == "{file}"@,
            placeholder@.len() > 0,
            ep@ == entrypoint@,
            found == (first_holding(args.take(j as int), "{file}"@) >= 0),
            out@.len() == j,
            forall|k: int| 0 <= k < j ==> (#[trigger] out@[k])@ == (if k == first_holding(
                args.take(j as int),
                "{file}"@,
            ) {
                replace_all(args[k], "{file}"@, entrypoint@)
            } else {
                args[k]
            }),
        decreases n - j,
    {
        let w = ws[j + 1].as_slice();
        assert(w@ == args[j as int]);
        let ghost t = args.take(j + 1);
        assert(t.drop_last() =~= args.take(j as int));
        assert(t.last() == args[j as int]);
        assert(first_holding(t, "{file}"@) == if first_holding(args.take(j as int), "{file}"@) >= 0 {
            first_holding(args.take(j as int), "{file}"@)
        } else if contains_seq(args[j as int], "{file}"@) {
            j as int
        } else {
            -1
        });
        let ghost fh_prev = first_holding(args.take(j as int), "{file}"@);
        let ghost fh_new = first_holding(t, "{file}"@);
        proof {
            lemma_first_holding_bound(args.take(j as int), "{file}"@);
        }
        let ghost old_out = out@;
        if !found && contains(w, placeholder.as_slice()) {
            out.push(string_of(replace_chars(w, placeholder.as_slice(), ep.as_slice()).as_slice()));
            found = true;
        } else {
            out.push(string_of(w));
        }
        proof {
            assert forall|k: int| 0 <= k < j + 1 implies (#[trigger] out@[k])@ == (if k == fh_new {
                replace_all(args[k], "{file}"@, entrypoint@)
            } else {
                args[k]
            }) by {
                if k < j {
                    assert(out@[k] == old_out[k]);
                }
            }
        }
        j += 1;
    }
    assert(args.take(n as int) =~= args);
    let ghost fh = first_holding(args, "{file}"@);
    assert(found == (fh >= 0));
    let ghost loop_out = out@;
    if !found {
        out.push(entrypoint.to_string());
    }
    proof {
        let f = format_args(args, entrypoint@);
        let mv = out@.map_values(|s: String| s@);
        lemma_first_holding_bound(args, "{file}"@);
        if found {
            assert(f.len() == n);
            assert(out@ == loop_out);
        } else {
            assert(f.len() == n + 1);
            assert(out@.len() == n + 1);
        }
        assert(mv.len() == f.len());
        assert forall|k: int| 0 <= k < mv.len() implies mv[k] == f[k] by {
            assert(mv[k] == out@[k]@);
            if k < n {
                assert(out@[k] == loop_out[k]);
            }
        }
        assert(mv =~= f);
    }
    out
}

/// Plans the formatter run (see [`format_plan`]).
pub fn format_command_plan(format_command: Option<&str>, entrypoint: &str) -> (r: Result<(String, Vec<String>), FormatPlanError>)
    ensures
        match format_plan(opt_chars(format_command), entrypoint@) {
            Ok((p, args)) => r matches Ok(x) && x.0@ == p && x.1@.map_values(|s: String| s@) == args,
            Err(e) => r == Err::<(String, Vec<String>), FormatPlanError>(e),
        },
{
    let line = match format_command {
        Some(c) => chars_of(c),
        None => chars_of("tex-fmt"),
    };
    let ws = split_words(line.as_slice());
    let ghost wv = words(line@);
    if ws.len() == 0 {
        return Err(FormatPlanError::Empty);
    }
    assert(ws@[0]@ == wv[0]);
    if !chars_eq(ws[0].as_slice(), chars_of("tex-fmt").as_slice()) {
        return Err(FormatPlanError::NotPermitted);
    }
    let program = string_of(ws[0].as_slice());
    let args = fill_arguments(&ws, entrypoint);
    assert(part_views(ws@) =~= wv);
    Ok((program, args))
}

/// The first word of a formatter command line, where it has one.
pub open spec fn first_word(c: Seq<char>) -> Option<Seq<char>> {
    if words(c).len() > 0 {
        Some(words(c)[0])
    } else {
        None
    }
}

/// Why saving project settings is refused, or `None` where they may be saved.
/// `raw` is the submitted text and `parsed` the settings it parses to.
pub open spec fn config_save_refusal(raw_bytes: nat, parsed: Option<Config>) -> Option<(u16, Seq<char>)> {
    if raw_bytes > MAX_CONFIG_SIZE {
        Some((413, "Config file too large (max 10000 bytes)"@))
    } else {
        match parsed {
            None => Some((400, "Invalid TOML syntax"@)),
            Some(c) => if !valid_entrypoint(c.entrypoint@) {
                Some((400, "Invalid entrypoint: must be a .tex file"@))
            } else {
                match c.format_command {
                    Some(cmd) => match first_word(cmd@) {
                        Some(p) => if p != "tex-fmt"@ {
                            Some((400, "Only the 'tex-fmt' formatting utility is permitted for security reasons"@))
                        } else {
                            None
                        },
                        None => None,
                    },
                    None => None,
                }
            },
        }
    }
}

/// Checks submitted project settings before they are written (see
/// [`config_save_refusal`]): `Ok` where they may be saved, else the error with
/// its status and message.
pub fn check_config_save(raw: &str, parsed: Option<Config>) -> (r: Result<(), AppError>)
    ensures
        match config_save_refusal(encode_utf8(raw@).len(), parsed) {
            None => r is Ok,
            Some((status, msg)) => r matches Err(e) && error_status(e) == status && error_message(e) == msg,
        },
{
    if raw.as_bytes().len() > MAX_CONFIG_SIZE {
        return Err(AppError::PayloadTooLarge("Config file too large (max 10000 bytes)".to_string()));
    }
    match parsed {
        None => Err(AppError::BadRequest("Invalid TOML syntax".to_string())),
        Some(c) => {
            if !is_valid_entrypoint(c.entrypoint.as_str()) {
                return Err(AppError::BadRequest("Invalid entrypoint: must be a .tex file".to_string()));
            }
            match &c.format_command {
                Some(cmd) => {
                    let ws = split_words(chars_of(cmd.as_str()).as_slice());
                    if ws.len() > 0 {
                        assert(ws@[0]@ == words(cmd@)[0]);
                        if !chars_eq(ws[0].as_slice(), chars_of("tex-fmt").as_slice()) {
                            return Err(
                                AppError::BadRequest(
                                    "Only the 'tex-fmt' formatting utility is permitted for security reasons".to_string(),
                                ),
                            );
                        }
                    }
                    Ok(())
                },
                None => Ok(()),
            }
        },
    }
}

/// The lines of `s` as `str::lines` yields them: split at `\n`, a trailing
/// `\r` removed from each, and no empty last line after a final `\n`.
pub open spec fn text_lines(s: Seq<char>) -> Seq<Seq<char>> {
    let ps = split(s, '\n');
    let ls = if ps.last().len() == 0 {
        ps.drop_last()
    } else {
        ps
    };
    ls.map_values(|l: Seq<char>| if l.len() > 0 && l.last() == '\r' {
        l.drop_last()
    } else {
        l
    })
}

/// The trimmed rest of the first line of `output` that starts with `prefix`.
pub open spec fn synctex_field(output: Seq<char>, prefix: Seq<char>) -> Option<Seq<char>> {
    let ls = text_lines(output);
    if exists|k: int| 0 <= k < ls.len() && has_prefix(#[trigger] ls[k], prefix) {
        let k = choose|k: int|
            0 <= k < ls.len() && has_prefix(ls[k], prefix) && forall|j: int|
                0 <= j < k ==> !has_prefix(#[trigger] ls[j], prefix);
        Some(trim(ls[k].skip(prefix.len() as int)))
    } else {
        None
    }
}

/// Reads the field `prefix` from SyncTeX output (see [`synctex_field`]).
pub fn synctex_value(output: &str, prefix: &str) -> (r: Option<String>)
    ensures
        opt_string(r) == synctex_field(output@, prefix@),
{
    let ps = split_char(chars_of(output).as_slice(), '\n');
    let pre = chars_of(prefix);
    let ghost sp = split(output@, '\n');
    proof {
        crate::text::lemma_split_nonempty(output@, '\n');
    }
    let ghost ls = text_lines(output@);
    let n: usize = if ps[ps.len() - 1].len() == 0 {
        ps.len() - 1
    } else {
        ps.len()
    };
    assert(n == ls.len());
    let mut i: usize = 0;
    while i < n
        invariant
            i <= n == ls.len() <= ps@.len() == sp.len(),
            ls == text_lines(output@),
            sp == split(output@, '\n'),
            pre@ == prefix@,
            forall|k: int| 0 <= k < ps@.len() ==> #[trigger] ps@[k]@ == sp[k],
            forall|j: int| 0 <= j < i ==> !has_prefix(#[trigger] ls[j], prefix@),
        decreases n - i,
    {
        let raw = ps[i].as_slice();
        let line = if raw.len() > 0 && raw[raw.len() - 1] == '\r' {
            sub_chars(raw, 0, raw.len() - 1)
        } else {
            sub_chars(raw, 0, raw.len())
        };
        assert(raw@ == sp[i as int]);
        assert(line@ =~= ls[i as int]);
        if starts_with(line.as_slice(), pre.as_slice()) {
            let rest = sub_chars(line.as_slice(), pre.len(), line.len());
            assert(rest@ =~= ls[i as int].skip(prefix@.len() as int));
            let ghost k = choose|k: int|
                0 <= k < ls.len() && has_prefix(ls[k], prefix@) && forall|j: int|
                    0 <= j < k ==> !has_prefix(#[trigger] ls[j], prefix@);
            assert(has_prefix(ls[i as int], prefix@));
            assert(k == i) by {
                if k < i {
                    assert(!has_prefix(ls[k], prefix@));
                } else if k > i {
                    assert(!has_prefix(ls[i as int], prefix@));
                }
            }
            return Some(string_of(trimmed(rest.as_slice()).as_slice()));
        }
        i += 1;
    }
    None
}

/// The characters of an optional string.
pub open spec fn opt_string(o: Option<String>) -> Option<Seq<char>> {
    match o {
        Some(s) => Some(s@),
        None => None,
    }
}

/// A numeric SyncTeX field, or `default` where it is missing or not a `u32`.
pub fn synctex_num(output: &str, prefix: &str, default: u32) -> (r: u32)
    ensures
        r as nat == match synctex_field(output@, prefix@) {
            Some(v) => match parse_unsigned(v, u32::MAX as nat) {
                Some(n) => n,
                None => default as nat,
            },
            None => default as nat,
        },
{
    match synctex_value(output, prefix) {
        Some(v) => match parse_uint(chars_of(v.as_str()).as_slice(), 0xffff_ffff) {
            Some(n) => n as u32,
            None => default,
        },
        None => default,
    }
}

/// The log line after a formatter run: success with or without output, a
/// failing exit, or a command that could not start (`spawn_error`).
pub open spec fn format_outcome(program: Seq<char>, ran: bool, success: bool, stdout: Seq<char>, stderr: Seq<char>, spawn_error: Seq<char>) -> Seq<char> {
    if !ran {
        "Failed to execute format command '"@ + program + "': "@ + spawn_error
    } else if success {
        if trim(stdout).len() == 0 {
            "Formatted successfully with '"@ + program + "'."@
        } else {
            "Formatted: "@ + trim(stdout)
        }
    } else {
        "Format command '"@ + program + "' failed: "@ + trim(stderr)
    }
}

/// The log line after a formatter run (see [`format_outcome`]); it is logged
/// as `"ok"` on success and as `"err"` otherwise, when the response is a 400.
pub fn format_outcome_message(program: &str, ran: bool, success: bool, stdout: &str, stderr: &str, spawn_error: &str) -> (r: String)
    ensures
        r@ == format_outcome(program@, ran, success, stdout@, stderr@, spawn_error@),
{
    let mut m: String;
    if !ran {
        m = "Failed to execute format command '".to_string();
        m.append(program);
        m.append("': ");
        m.append(spawn_error);
    } else if success {
        let t = string_of(trimmed(chars_of(stdout).as_slice()).as_slice());
        if t.as_str().is_empty() {
            m = "Formatted successfully with '".to_string();
            m.append(program);
            m.append("'.");
        } else {
            m = "Formatted: ".to_string();
            m.append(t.as_str());
        }
    } else {
        let t = string_of(trimmed(chars_of(stderr).as_slice()).as_slice());
        m = "Format command '".to_string();
        m.append(program);
        m.append("' failed: ");
        m.append(t.as_str());
    }
    m
}

/// The `-i` argument of a SyncTeX view query: line, column (1 where not
/// given) and source file.
pub fn synctex_view_input(line: Option<u32>, col: Option<u32>, entry: &str) -> (r: String)
    ensures
        r@ == decimal(match line { Some(l) => l as nat, None => 1 }) + ":"@ + decimal(match col {
            Some(c) => c as nat,
            None => 1,
        }) + ":"@ + entry@,
{
    let l: u32 = match line {
        Some(v) => v,
        None => 1,
    };
    let c: u32 = match col {
        Some(v) => v,
        None => 1,
    };
    let mut s = string_of(decimal_chars(l as u64).as_slice());
    s.append(":");
    s.append(string_of(decimal_chars(c as u64).as_slice()).as_str());
    s.append(":");
    s.append(entry);
    s
}

/// Where a SyncTeX request goes.
#[derive(Debug, Clone, Copy, PartialEq, Eq, Structural)]
pub enum SynctexRoute {
    /// `synctex` is not installed (404).
    Unavailable,
    /// From a PDF position to a source location.
    Edit,
    /// From a source location to a PDF position.
    View,
    /// An unknown mode (400).
    BadMode,
}

/// Routes a SyncTeX request by the tool's presence and the requested mode.
pub fn synctex_route(available: bool, mode: &str) -> (r: SynctexRoute)
    ensures
        r == (if !available {
            SynctexRoute::Unavailable
        } else if mode@ == "edit"@ {
            SynctexRoute::Edit
        } else if mode@ == "view"@ {
            SynctexRoute::View
        } else {
            SynctexRoute::BadMode
        }),
{
    if !available {
        SynctexRoute::Unavailable
    } else if is(chars_of(mode).as_slice(), "edit") {
        SynctexRoute::Edit
    } else if is(chars_of(mode).as_slice(), "view") {
        SynctexRoute::View
    } else {
        SynctexRoute::BadMode
    }
}

/// The checks before a lint run: the linter must be installed (else
/// `DependencyMissing("chktex")`) and the entrypoint valid (else a 400 with
/// its message).
pub fn lint_precheck(available: bool, entrypoint: &str) -> (r: Result<(), AppError>)
    ensures
        !available ==> (r matches Err(AppError::DependencyMissing(t)) && t@ == "chktex"@),
        available && !valid_entrypoint(entrypoint@) ==> (r matches Err(AppError::BadRequest(m)) && m@
            == "Invalid entrypoint: must be a .tex file"@),
        available && valid_entrypoint(entrypoint@) ==> r is Ok,
{
    if !available {
        return Err(AppError::DependencyMissing("chktex"));
    }
    if !is_valid_entrypoint(entrypoint) {
        return Err(AppError::BadRequest("Invalid entrypoint: must be a .tex file".to_string()));
    }
    Ok(())
}

/// The files of a new project: its settings and a minimal document whose body
/// is `greeting`.
pub fn project_template(greeting: &str) -> (r: Vec<(String, String)>)
    ensures
        r@.len() == 2,
        r@[0].0@ == "EasyTex.toml"@,
        r@[0].1@ == "entrypoint = \"main.tex\"\n"@,
        r@[1].0@ == "main.tex"@,
        r@[1].1@ == "\\documentclass{article}\n\\begin{document}\n"@ + greeting@ + "\n\\end{document}"@,
{
    let mut doc = "\\documentclass{article}\n\\begin{document}\n".to_string();
    doc.append(greeting);
    doc.append("\n\\end{document}");
    let mut r: Vec<(String, String)> = Vec::new();
    r.push(("EasyTex.toml".to_string(), "entrypoint = \"main.tex\"\n".to_string()));
    r.push(("main.tex".to_string(), doc));
    r
}

/// The build state reported for a project: `"idle"` without a session,
/// `"locked"` where its session is busy, `"building"` while a compiler runs.
pub fn project_status_label(has_session: bool, session_locked: bool, building: bool) -> (r: &'static str)
    ensures
        r@ == (if !has_session {
            "idle"@
        } else if session_locked {
            "locked"@
        } else if building {
            "building"@
        } else {
            "idle"@
        }),
{
    if !has_session {
        "idle"
    } else if session_locked {
        "locked"
    } else if building {
        "building"
    } else {
        "idle"
    }
}

/// The `Content-Disposition` value of a PDF download: the project name, the
/// run where it is a valid successful run, and `.pdf`.
pub open spec fn download_disposition(name: Seq<char>, run: Option<Seq<char>>) -> Seq<char> {
    let suffix = match run {
        Some(r) => if valid_run_id(r) {
            seq!['-'] + r
        } else {
            Seq::empty()
        },
        None => Seq::empty(),
    };
    "attachment; filename=\""@ + name + suffix + ".pdf\""@
}

/// Builds the `Content-Disposition` value of a PDF download.
pub fn pdf_download_disposition(name: &str, run: Option<&str>) -> (r: String)
    ensures
        r@ == download_disposition(name@, opt_chars(run)),
{
    let mut s = "attachment; filename=\"".to_string();
    s.append(name);
    match run {
        Some(rn) => {
            if valid_success_run(rn) {
                s.append("-");
                proof {
                    reveal_strlit("-");
                }
                s.append(rn);
            }
        },
        None => {},
    }
    s.append(".pdf\"");
    s
}

/// The refusal of a PDF larger than the limit.
pub fn pdf_size_check(len: u64, max: u64) -> (r: Option<AppError>)
    ensures
        len <= max ==> r is None,
        len > max ==> (r matches Some(AppError::PayloadTooLarge(m)) && m@ == "PDF too large ("@
            + decimal(len as nat) + " bytes, max "@ + decimal(max as nat) + " bytes)"@),
{
    if len <= max {
        return None;
    }
    let mut m = "PDF too large (".to_string();
    m.append(string_of(decimal_chars(len).as_slice()).as_str());
    m.append(" bytes, max ");
    m.append(string_of(decimal_chars(max).as_slice()).as_str());
    m.append(" bytes)");
    Some(AppError::PayloadTooLarge(m))
}

/// The HTTP method of a request, as far as routing tells them apart.
#[derive(Debug, Clone, Copy, PartialEq, Eq, Structural)]
pub enum HttpMethod {
    /// `GET`.
    Get,
    /// `POST`.
    Post,
    /// Any other method.
    Other,
}

/// Where an API request goes.
#[derive(Debug, Clone, Copy, PartialEq, Eq, Structural)]
pub enum ApiRoute {
    /// A `POST` without the `X-EasyTex-Request: true` header (403).
    CsrfRejected,
    /// The project list.
    ListProjects,
    /// The detected capabilities.
    Capabilities,
    /// The project name does not resolve inside the root (400).
    BadProject,
    /// A mutating command on a read-only server (403).
    ReadOnly,
    /// Start a manual build.
    Build,
    /// Cancel the running build.
    Cancel,
    /// The build state.
    Status,
    /// Run the formatter.
    Format,
    /// Run the linter.
    Lint,
    /// Remove the build directory.
    Clean,
    /// Remove the project's settings file.
    Delete,
    /// Create the project.
    Create,
    /// Read the settings.
    GetConfig,
    /// Save the settings.
    SaveConfig,
    /// The latest preview.
    Preview,
    /// The successful builds.
    Builds,
    /// Read a file.
    ReadFile,
    /// Save a file.
    SaveFile,
    /// List the files.
    ListFiles,
    /// A SyncTeX query.
    Synctex,
    /// A retired command (410).
    Gone,
    /// An unknown command (404).
    NotFound,
}

/// The routing of an API request: CSRF guard first, then the commands that
/// need no project, then the project check, then each command (mutating ones
/// refused on a read-only server).
pub open spec fn api_route(
    cmd: Seq<char>,
    method: HttpMethod,
    csrf: Option<Seq<char>>,
    read_only: bool,
    project_ok: bool,
) -> ApiRoute {
    if method == HttpMethod::Post && csrf != Some("true"@) {
        ApiRoute::CsrfRejected
    } else if cmd == "projects"@ {
        ApiRoute::ListProjects
    } else if cmd == "capabilities"@ {
        ApiRoute::Capabilities
    } else if !project_ok {
        ApiRoute::BadProject
    } else if cmd == "build"@ || cmd == "run"@ {
        if read_only { ApiRoute::ReadOnly } else { ApiRoute::Build }
    } else if cmd == "cancel"@ {
        if read_only { ApiRoute::ReadOnly } else { ApiRoute::Cancel }
    } else if cmd == "status"@ {
        ApiRoute::Status
    } else if cmd == "format"@ {
        if read_only { ApiRoute::ReadOnly } else { ApiRoute::Format }
    } else if cmd == "lint"@ {
        ApiRoute::Lint
    } else if cmd == "clean"@ {
        if read_only { ApiRoute::ReadOnly } else { ApiRoute::Clean }
    } else if cmd == "delete"@ {
        if read_only { ApiRoute::ReadOnly } else { ApiRoute::Delete }
    } else if cmd == "create"@ {
        if read_only { ApiRoute::ReadOnly } else { ApiRoute::Create }
    } else if cmd == "config"@ {
        if method == HttpMethod::Get {
            ApiRoute::GetConfig
        } else if read_only {
            ApiRoute::ReadOnly
        } else {
            ApiRoute::SaveConfig
        }
    } else if cmd == "preview"@ {
        ApiRoute::Preview
    } else if cmd == "builds"@ {
        ApiRoute::Builds
    } else if cmd == "file"@ {
        if method == HttpMethod::Get {
            ApiRoute::ReadFile
        } else if read_only {
            ApiRoute::ReadOnly
        } else {
            ApiRoute::SaveFile
        }
    } else if cmd == "files"@ {
        ApiRoute::ListFiles
    } else if cmd == "synctex"@ {
        ApiRoute::Synctex
    } else if cmd == "js"@ {
        ApiRoute::Gone
    } else {
        ApiRoute::NotFound
    }
}

/// The routes that change a project or start work on it.
pub open spec fn mutating_route(r: ApiRoute) -> bool {
    ||| r == ApiRoute::Build
    ||| r == ApiRoute::Cancel
    ||| r == ApiRoute::Format
    ||| r == ApiRoute::Clean
    ||| r == ApiRoute::Delete
    ||| r == ApiRoute::Create
    ||| r == ApiRoute::SaveConfig
    ||| r == ApiRoute::SaveFile
}

/// A read-only server routes no request to a command that changes a project.
pub proof fn lemma_read_only_refuses_mutations(
    cmd: Seq<char>,
    method: HttpMethod,
    csrf: Option<Seq<char>>,
    project_ok: bool,
)
    ensures
        !mutating_route(api_route(cmd, method, csrf, true, project_ok)),
{
}

/// A `POST` without the `X-EasyTex-Request: true` header is refused before
/// anything else is looked at.
pub proof fn lemma_post_needs_csrf_header(
    cmd: Seq<char>,
    csrf: Option<Seq<char>>,
    read_only: bool,
    project_ok: bool,
)
    requires
        csrf != Some("true"@),
    ensures
        api_route(cmd, HttpMethod::Post, csrf, read_only, project_ok) == ApiRoute::CsrfRejected,
{
}

/// On a server that is not read-only, a request that passes the CSRF guard for
/// a project that resolves is never refused as read-only: each command reaches
/// its own route.
pub proof fn lemma_writable_server_serves_each_command(
    cmd: Seq<char>,
    method: HttpMethod,
    csrf: Option<Seq<char>>,
)
    requires
        method != HttpMethod::Post || csrf == Some("true"@),
    ensures
        ({
            let r = api_route(cmd, method, csrf, false, true);
            &&& r != ApiRoute::ReadOnly
            &&& r != ApiRoute::CsrfRejected
            &&& r != ApiRoute::BadProject
            &&& (cmd == "projects"@ ==> r == ApiRoute::ListProjects)
            &&& (cmd == "capabilities"@ ==> r == ApiRoute::Capabilities)
            &&& (cmd == "build"@ || cmd == "run"@ ==> r == ApiRoute::Build)
            &&& (cmd == "cancel"@ ==> r == ApiRoute::Cancel)
            &&& (cmd == "status"@ ==> r == ApiRoute::Status)
            &&& (cmd == "format"@ ==> r == ApiRoute::Format)
            &&& (cmd == "lint"@ ==> r == ApiRoute::Lint)
            &&& (cmd == "clean"@ ==> r == ApiRoute::Clean)
            &&& (cmd == "delete"@ ==> r == ApiRoute::Delete)
            &&& (cmd == "create"@ ==> r == ApiRoute::Create)
            &&& (cmd == "config"@ ==> r == (if method == HttpMethod::Get {
                ApiRoute::GetConfig
            } else {
                ApiRoute::SaveConfig
            }))
            &&& (cmd == "preview"@ ==> r == ApiRoute::Preview)
            &&& (cmd == "builds"@ ==> r == ApiRoute::Builds)
            &&& (cmd == "file"@ ==> r == (if method == HttpMethod::Get {
                ApiRoute::ReadFile
            } else {
                ApiRoute::SaveFile
            }))
            &&& (cmd == "files"@ ==> r == ApiRoute::ListFiles)
            &&& (cmd == "synctex"@ ==> r == ApiRoute::Synctex)
            &&& (cmd == "js"@ ==> r == ApiRoute::Gone)
        }),
{
    reveal_strlit("projects");
    reveal_strlit("capabilities");
    reveal_strlit("build");
    reveal_strlit("run");
    reveal_strlit("cancel");
    reveal_strlit("status");
    reveal_strlit("format");
    reveal_strlit("lint");
    reveal_strlit("clean");
    reveal_strlit("delete");
    reveal_strlit("create");
    reveal_strlit("config");
    reveal_strlit("preview");
    reveal_strlit("builds");
    reveal_strlit("file");
    reveal_strlit("files");
    reveal_strlit("synctex");
    reveal_strlit("js");
    assert("projects"@.len() == 8 && "projects"@[0] == 'p' && "projects"@[1] == 'r');
    assert("capabilities"@.len() == 12 && "capabilities"@[0] == 'c' && "capabilities"@[1] == 'a');
    assert("build"@.len() == 5 && "build"@[0] == 'b' && "build"@[1] == 'u');
    assert("run"@.len() == 3 && "run"@[0] == 'r' && "run"@[1] == 'u');
    assert("cancel"@.len() == 6 && "cancel"@[0] == 'c' && "cancel"@[1] == 'a');
    assert("status"@.len() == 6 && "status"@[0] == 's' && "status"@[1] == 't');
    assert("format"@.len() == 6 && "format"@[0] == 'f' && "format"@[1] == 'o');
    assert("lint"@.len() == 4 && "lint"@[0] == 'l' && "lint"@[1] == 'i');
    assert("clean"@.len() == 5 && "clean"@[0] == 'c' && "clean"@[1] == 'l');
    assert("delete"@.len() == 6 && "delete"@[0] == 'd' && "delete"@[1] == 'e');
    assert("create"@.len() == 6 && "create"@[0] == 'c' && "create"@[1] == 'r');
    assert("config"@.len() == 6 && "config"@[0] == 'c' && "config"@[1] == 'o');
    assert("preview"@.len() == 7 && "preview"@[0] == 'p' && "preview"@[1] == 'r');
    assert("builds"@.len() == 6 && "builds"@[0] == 'b' && "builds"@[1] == 'u');
    assert("file"@.len() == 4 && "file"@[0] == 'f' && "file"@[1] == 'i');
    assert("files"@.len() == 5 && "files"@[0] == 'f' && "files"@[1] == 'i');
    assert("synctex"@.len() == 7 && "synctex"@[0] == 's' && "synctex"@[1] == 'y');
    assert("js"@.len() == 2 && "js"@[0] == 'j' && "js"@[1] == 's');
}

/// Where the project name does not resolve inside the root, the only commands
/// served are those that concern no project.
pub proof fn lemma_bad_project_serves_no_project_command(
    cmd: Seq<char>,
    method: HttpMethod,
    csrf: Option<Seq<char>>,
    read_only: bool,
)
    ensures
        ({
            let r = api_route(cmd, method, csrf, read_only, false);
            r == ApiRoute::CsrfRejected || r == ApiRoute::ListProjects || r == ApiRoute::Capabilities
                || r == ApiRoute::BadProject
        }),
{
}

/// Whether `s` equals the literal `lit`.
fn is(s: &[char], lit: &str) -> (r: bool)
    ensures
        r == (s@ == lit@),
{
    chars_eq(s, chars_of(lit).as_slice())
}

/// Routes an API request (see [`api_route`]). `csrf` is the value of the
/// `X-EasyTex-Request` header where present and readable as text;
/// `project_ok` tells whether the project name resolves inside the root.
pub fn route_api(cmd: &str, method: HttpMethod, csrf: Option<&str>, read_only: bool, project_ok: bool) -> (r: ApiRoute)
    ensures
        r == api_route(cmd@, method, opt_chars(csrf), read_only, project_ok),
{
    if method == HttpMethod::Post {
        let ok = match csrf {
            Some(v) => is(chars_of(v).as_slice(), "true"),
            None => false,
        };
        if !ok {
            return ApiRoute::CsrfRejected;
        }
    }
    let cc = chars_of(cmd);
    let c = cc.as_slice();
    let guard = |route: ApiRoute| -> (r: ApiRoute)
        ensures
            r == (if read_only { ApiRoute::ReadOnly } else { route }),
        {
            if read_only {
                ApiRoute::ReadOnly
            } else {
                route
            }
        };
    if is(c, "projects") {
        ApiRoute::ListProjects
    } else if is(c, "capabilities") {
        ApiRoute::Capabilities
    } else if !project_ok {
        ApiRoute::BadProject
    } else if is(c, "build") || is(c, "run") {
        guard(ApiRoute::Build)
    } else if is(c, "cancel") {
        guard(ApiRoute::Cancel)
    } else if is(c, "status") {
        ApiRoute::Status
    } else if is(c, "format") {
        guard(ApiRoute::Format)
    } else if is(c, "lint") {
        ApiRoute::Lint
    } else if is(c, "clean") {
        guard(ApiRoute::Clean)
    } else if is(c, "delete") {
        guard(ApiRoute::Delete)
    } else if is(c, "create") {
        guard(ApiRoute::Create)
    } else if is(c, "config") {
        if method == HttpMethod::Get {
            ApiRoute::GetConfig
        } else {
            guard(ApiRoute::SaveConfig)
        }
    } else if is(c, "preview") {
        ApiRoute::Preview
    } else if is(c, "builds") {
        ApiRoute::Builds
    } else if is(c, "file") {
        if method == HttpMethod::Get {
            ApiRoute::ReadFile
        } else {
            guard(ApiRoute::SaveFile)
        }
    } else if is(c, "files") {
        ApiRoute::ListFiles
    } else if is(c, "synctex") {
        ApiRoute::Synctex
    } else if is(c, "js") {
        ApiRoute::Gone
    } else {
        ApiRoute::NotFound
    }
}

/// Where an admin request goes.
#[derive(Debug, Clone, Copy, PartialEq, Eq, Structural)]
pub enum AdminRoute {
    /// The token is missing or wrong (401).
    Unauthorized,
    /// The project name is invalid (400).
    BadProject,
    /// Stop and forget the project's session.
    Kill,
    /// An unknown command (404).
    NotFound,
}

/// Routes an admin request: authorization, then the project name, then the command.
pub fn route_admin(cmd: &str, authorized: bool, name_valid: bool) -> (r: AdminRoute)
    ensures
        r == (if !authorized {
            AdminRoute::Unauthorized
        } else if !name_valid {
            AdminRoute::BadProject
        } else if cmd@ == "kill"@ {
            AdminRoute::Kill
        } else {
            AdminRoute::NotFound
        }),
{
    if !authorized {
        AdminRoute::Unauthorized
    } else if !name_valid {
        AdminRoute::BadProject
    } else if is(chars_of(cmd).as_slice(), "kill") {
        AdminRoute::Kill
    } else {
        AdminRoute::NotFound
    }
}

} // verus!
