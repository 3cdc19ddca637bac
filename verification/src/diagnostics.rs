//! Classification of compiler output lines and extraction of structured
//! diagnostics (`file.tex:line:column: message`) from them.

use vstd::prelude::*;
use crate::events::{diagnostic, diagnostic_fields_json, json_quote, log, DiagnosticEvent};
use crate::text::{chars_eq, chars_of, contains, contains_seq, ends_with, find_first, find_spec, has_prefix, has_suffix, lemma_find_spec_bounds, opt_view, parse_uint, parse_unsigned, starts_with, string_of, sub_chars, trim, trimmed};
use crate::paths::part_views;

verus! {

/// The level of a line that the compiler wrote to standard output.
pub open spec fn stdout_level(line: Seq<char>) -> Seq<char> {
    if has_prefix(line, "! "@) || contains_seq(line, "Error:"@) || contains_seq(line, "not found"@) {
        "err"@
    } else if contains_seq(line, "Warning:"@) || contains_seq(line, "corrupt"@) || contains_seq(
        line,
        "retry"@,
    ) {
        "warn"@
    } else if contains_seq(line, "Output written"@) || contains_seq(line, "Latexmk: All targets"@) {
        "ok"@
    } else {
        "dim"@
    }
}

/// The level of a line that a tool wrote to standard error.
pub open spec fn stderr_level(line: Seq<char>) -> Seq<char> {
    if contains_seq(line, "ERROR"@) || contains_seq(line, "Error:"@) {
        "err"@
    } else if contains_seq(line, "WARN"@) || contains_seq(line, "Warning:"@) {
        "warn"@
    } else {
        "dim"@
    }
}

/// Whether `p` occurs in `line`.
fn has(line: &[char], p: &str) -> (r: bool)
    ensures
        r == contains_seq(line@, p@),
{
    contains(line, chars_of(p).as_slice())
}

/// Classifies a standard output line as `"err"`, `"warn"`, `"ok"` or `"dim"`.
pub fn log_level_for_stdout(line: &str) -> (r: &'static str)
    ensures
        r@ == stdout_level(line@),
{
    let l = chars_of(line);
    let s = l.as_slice();
    if starts_with(s, chars_of("! ").as_slice()) || has(s, "Error:") || has(s, "not found") {
        "err"
    } else if has(s, "Warning:") || has(s, "corrupt") || has(s, "retry") {
        "warn"
    } else if has(s, "Output written") || has(s, "Latexmk: All targets") {
        "ok"
    } else {
        "dim"
    }
}

/// Classifies a standard error line as `"err"`, `"warn"` or `"dim"`.
pub fn log_level_for_stderr(line: &str) -> (r: &'static str)
    ensures
        r@ == stderr_level(line@),
{
    let l = chars_of(line);
    let s = l.as_slice();
    if has(s, "ERROR") || has(s, "Error:") {
        "err"
    } else if has(s, "WARN") || has(s, "Warning:") {
        "warn"
    } else {
        "dim"
    }
}

/// The pieces of `s` around its first `n - 1` separators (`str::splitn`): at
/// most `n` pieces, the last one holding the rest of `s`.
pub open spec fn splitn(s: Seq<char>, n: nat, sep: char) -> Seq<Seq<char>>
    decreases n,
{
    if n == 0 {
        Seq::empty()
    } else {
        let i = find_spec(s, seq![sep], 0);
        if n == 1 || i < 0 {
            seq![s]
        } else {
            seq![s.take(i)] + splitn(s.skip(i + 1), (n - 1) as nat, sep)
        }
    }
}

/// The pieces of `s` around its first `n - 1` separators.
pub fn splitn_chars(s: &[char], n: usize, sep: char) -> (r: Vec<Vec<char>>)
    ensures
        part_views(r@) == splitn(s@, n as nat, sep),
    decreases n,
{
    let mut r: Vec<Vec<char>> = Vec::new();
    if n == 0 {
        assert(part_views(r@) =~= Seq::<Seq<char>>::empty());
        return r;
    }
    let sep_s: [char; 1] = [sep];
    assert(sep_s@ =~= seq![sep]);
    let found = if n == 1 {
        None
    } else {
        find_first(s, sep_s.as_slice(), 0)
    };
    proof {
        lemma_find_spec_bounds(s@, seq![sep], 0);
    }
    match found {
        None => {
            r.push(sub_chars(s, 0, s.len()));
            assert(s@.subrange(0, s@.len() as int) =~= s@);
            assert(part_views(r@) =~= seq![s@]);
            r
        },
        Some(i) => {
            let len: usize = s.len();
            assert(i < len);
            r.push(sub_chars(s, 0, i));
            let rest = sub_chars(s, i + 1, len);
            let tail = splitn_chars(rest.as_slice(), n - 1, sep);
            let ghost head = part_views(r@);
            let mut k: usize = 0;
            let ghost tv = part_views(tail@);
            while k < tail.len()
                invariant
                    k <= tail@.len(),
                    tv == part_views(tail@),
                    part_views(r@) == head + tv.take(k as int),
                decreases tail@.len() - k,
            {
                let piece = sub_chars(tail[k].as_slice(), 0, tail[k].len());
                assert(tail@[k as int]@.subrange(0, tail@[k as int]@.len() as int) =~= tail@[k as int]@);
                let ghost before = part_views(r@);
                r.push(piece);
                assert(part_views(r@) =~= before.push(tv[k as int]));
                assert(tv.take(k + 1) =~= tv.take(k as int).push(tv[k as int]));
                k += 1;
            }
            assert(tv.take(tv.len() as int) =~= tv);
            assert(s@.subrange(0, i as int) =~= s@.take(i as int));
            assert(s@.subrange(i + 1, s@.len() as int) =~= s@.skip(i + 1));
            assert(head =~= seq![s@.take(i as int)]);
            r
        },
    }
}

/// The pieces `ps` joined with `sep` between them (`[&str]::join`).
pub open spec fn join_with(ps: Seq<Seq<char>>, sep: char) -> Seq<char>
    decreases ps.len(),
{
    if ps.len() == 0 {
        Seq::empty()
    } else if ps.len() == 1 {
        ps[0]
    } else {
        join_with(ps.drop_last(), sep) + seq![sep] + ps.last()
    }
}

/// The value of a decimal field as `str::parse::<u32>` reads it.
pub open spec fn u32_field(s: Seq<char>) -> Option<nat> {
    parse_unsigned(s, u32::MAX as nat)
}

/// Where a log line has the form `file.tex:line:rest`, its file, line number,
/// optional column (where `rest` is `column:message`) and trimmed message.
pub open spec fn diag_location(line: Seq<char>) -> Option<(Seq<char>, nat, Option<nat>, Seq<char>)> {
    let parts = splitn(line, 4, ':');
    if parts.len() >= 3 && has_suffix(parts[0], ".tex"@) && u32_field(parts[1]) is Some {
        let ln = u32_field(parts[1]).unwrap();
        if parts.len() == 4 && u32_field(parts[2]) is Some {
            Some((parts[0], ln, Some(u32_field(parts[2]).unwrap()), trim(parts[3])))
        } else {
            Some((parts[0], ln, None, trim(join_with(parts.skip(2), ':'))))
        }
    } else {
        None
    }
}

/// A level that carries a diagnostic.
pub open spec fn diagnostic_level(level: Seq<char>) -> bool {
    level == "err"@ || level == "warn"@
}

/// An optional field value as a `u32`.
pub open spec fn opt_u32(o: Option<nat>) -> Option<u32> {
    match o {
        Some(n) => Some(n as u32),
        None => None,
    }
}

/// The JSON object of the diagnostic that a line of the given level carries.
pub open spec fn line_diagnostic_json(line: Seq<char>, level: Seq<char>) -> Seq<char> {
    match diag_location(line) {
        Some((f, ln, col, msg)) => diagnostic_fields_json(level, Some(f), Some(ln as u32), opt_u32(col), msg, line),
        None => diagnostic_fields_json(level, None, None, None, trim(line), line),
    }
}

/// Joins the pieces of `ps` from index `from` with `sep` between them.
fn join_from(ps: &Vec<Vec<char>>, from: usize, sep: char) -> (r: Vec<char>)
    requires
        from < ps@.len(),
    ensures
        r@ == join_with(part_views(ps@).skip(from as int), sep),
{
    let ghost pv = part_views(ps@);
    let mut r = sub_chars(ps[from].as_slice(), 0, ps[from].len());
    assert(ps@[from as int]@.subrange(0, ps@[from as int]@.len() as int) =~= ps@[from as int]@);
    let count: usize = ps.len();
    let mut k: usize = from + 1;
    assert(pv.skip(from as int).take(1) =~= seq![pv[from as int]]);
    while k < ps.len()
        invariant
            from < k <= ps@.len(),
            pv == part_views(ps@),
            r@ == join_with(pv.skip(from as int).take(k - from), sep),
        decreases ps@.len() - k,
    {
        let ghost prev = r@;
        r.push(sep);
        let mut j: usize = 0;
        while j < ps[k].len()
            invariant
                k < ps@.len(),
                j <= ps@[k as int]@.len(),
                r@ == prev + seq![sep] + ps@[k as int]@.take(j as int),
            decreases ps@[k as int]@.len() - j,
        {
            r.push(ps[k][j]);
            assert(prev + seq![sep] + ps@[k as int]@.take(j + 1) =~= (prev + seq![sep] + ps@[k
                as int]@.take(j as int)).push(ps@[k as int]@[j as int]));
            j += 1;
        }
        assert(ps@[k as int]@.take(ps@[k as int]@.len() as int) =~= ps@[k as int]@);
        let ghost q = pv.skip(from as int).take(k + 1 - from);
        assert(q.drop_last() =~= pv.skip(from as int).take(k - from));
        assert(q.last() == pv[k as int]);
        k += 1;
    }
    assert(pv.skip(from as int).take(ps@.len() - from) =~= pv.skip(from as int));
    r
}

/// Turns a log line of level `"err"` or `"warn"` into a diagnostic; lines of
/// other levels carry none. The file, line and column are filled where the line
/// has the form `file.tex:line:column: message` or `file.tex:line: message`.
pub fn diagnostic_from_log_line(line: &str, level: &str) -> (r: Option<DiagnosticEvent>)
    ensures
        match r {
            None => !diagnostic_level(level@),
            Some(d) => {
                &&& diagnostic_level(level@)
                &&& d.severity@ == level@
                &&& d.raw@ == line@
                &&& match diag_location(line@) {
                    Some((f, ln, col, msg)) => opt_view(d.file) == Some(f) && d.line == Some(
                        ln as u32,
                    ) && d.column == opt_u32(col) && d.message@ == msg,
                    None => d.file is None && d.line is None && d.column is None && d.message@
                        == trim(line@),
                }
            },
        },
{
    let lv = chars_of(level);
    if !(chars_eq(lv.as_slice(), chars_of("err").as_slice()) || chars_eq(
        lv.as_slice(),
        chars_of("warn").as_slice(),
    )) {
        return None;
    }
    let lc = chars_of(line);
    let parts = splitn_chars(lc.as_slice(), 4, ':');
    let ghost pv = part_views(parts@);
    let mut file: Option<String> = None;
    let mut line_no: Option<u32> = None;
    let mut column: Option<u32> = None;
    let mut message = string_of(trimmed(lc.as_slice()).as_slice());
    if parts.len() >= 3 && ends_with(parts[0].as_slice(), chars_of(".tex").as_slice()) {
        assert(parts@[0]@ == pv[0] && parts@[1]@ == pv[1] && parts@[2]@ == pv[2]);
        match parse_uint(parts[1].as_slice(), 0xffff_ffff) {
            Some(ln) => {
                file = Some(string_of(parts[0].as_slice()));
                line_no = Some(ln as u32);
                let col = if parts.len() == 4 {
                    parse_uint(parts[2].as_slice(), 0xffff_ffff)
                } else {
                    None
                };
                match col {
                    Some(c) => {
                        assert(parts@[3]@ == pv[3]);
                        column = Some(c as u32);
                        message = string_of(trimmed(parts[3].as_slice()).as_slice());
                    },
                    None => {
                        let rest = join_from(&parts, 2, ':');
                        message = string_of(trimmed(rest.as_slice()).as_slice());
                    },
                }
            },
            None => {},
        }
    }
    Some(
        DiagnosticEvent {
            severity: string_of(lv.as_slice()),
            file,
            line: line_no,
            column,
            message,
            raw: string_of(lc.as_slice()),
        },
    )
}

/// The stream events for one line of compiler output: the log event, followed
/// by a diagnostic event where the line carries one.
pub fn log_line_events(level: &str, line: &str) -> (r: Vec<String>)
    ensures
        r@.len() == if diagnostic_level(level@) {
            2nat
        } else {
            1nat
        },
        r@[0]@ == "{\"type\":\"log\",\"data\":{\"lvl\":"@ + json_quote(level@) + ",\"msg\":"@
            + json_quote(line@) + "}}"@,
        diagnostic_level(level@) ==> r@[1]@ == "{\"type\":\"diagnostic\",\"data\":"@
            + line_diagnostic_json(line@, level@) + "}"@,
{
    let mut r: Vec<String> = Vec::new();
    r.push(log(level, line));
    match diagnostic_from_log_line(line, level) {
        Some(d) => {
            let ghost dl = diag_location(line@);
            r.push(diagnostic(d));
        },
        None => {},
    }
    r
}

} // verus!
