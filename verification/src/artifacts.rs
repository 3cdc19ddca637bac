//! Successful build runs and their preview files: which run names are
//! accepted, where a run's PDF and SyncTeX files lie, when a run was built,
//! and the order in which previews are listed.

use vstd::prelude::*;
use vstd::string::StringExecFns;
use vstd::utf8::encode_utf8;
use vstd::relations::total_ordering;
use crate::order::{lex_le, lex_le_exec, lemma_lex_connected, lemma_lex_reflexive, lemma_lex_transitive, lemma_lex_total, lex_order};
use crate::paths::{join, join_path};
use crate::text::{
    ascii_alnum, chars_of, ends_with, has_suffix, is_ascii_alnum, replace_all, replace_chars,
    string_of, sub_chars,
};

verus! {

/// A successful build run and its preview files.
#[derive(Debug, Clone)]
pub struct PreviewInfo {
    /// The run's directory name (timestamp and `_S`), or `legacy`.
    pub run: String,
    /// The compiled PDF.
    pub pdf_path: String,
    /// The SyncTeX file beside it.
    pub synctex_path: String,
    /// When the run finished, in milliseconds since the Unix epoch.
    pub built_at_ms: u64,
}

/// A character allowed in a run name.
pub open spec fn run_char(c: char) -> bool {
    is_ascii_alnum(c) || c == '-' || c == '_'
}

/// A run name that may be served: it ends in `_S`, is at most 64 bytes long,
/// and holds only ASCII letters, digits, `-` and `_` (so it cannot leave the
/// runs directory).
pub open spec fn valid_run_id(run: Seq<char>) -> bool {
    &&& has_suffix(run, "_S"@)
    &&& encode_utf8(run).len() <= 64
    &&& forall|i: int| 0 <= i < run.len() ==> run_char(#[trigger] run[i])
}

/// Whether `run` names a successful run that may be served (see [`valid_run_id`]).
pub fn valid_success_run(run: &str) -> (r: bool)
    ensures
        r == valid_run_id(run@),
{
    let rc = chars_of(run);
    if !ends_with(rc.as_slice(), chars_of("_S").as_slice()) || run.as_bytes().len() > 64 {
        return false;
    }
    let mut i: usize = 0;
    while i < rc.len()
        invariant
            i <= rc@.len(),
            rc@ == run@,
            forall|k: int| 0 <= k < i ==> run_char(#[trigger] rc@[k]),
        decreases rc@.len() - i,
    {
        let c = rc[i];
        if !(ascii_alnum(c) || c == '-' || c == '_') {
            assert(!run_char(rc@[i as int]));
            return false;
        }
        i += 1;
    }
    true
}

/// The stem of an entrypoint: its name with every `.tex` removed.
pub open spec fn entry_stem(entrypoint: Seq<char>) -> Seq<char> {
    replace_all(entrypoint, ".tex"@, Seq::empty())
}

/// The stem of an entrypoint (see [`entry_stem`]).
pub fn stem_of(entrypoint: &str) -> (r: String)
    ensures
        r@ == entry_stem(entrypoint@),
{
    let pat = chars_of(".tex");
    proof {
        reveal_strlit(".tex");
    }
    let empty: Vec<char> = Vec::new();
    assert(empty@ =~= Seq::<char>::empty());
    string_of(replace_chars(chars_of(entrypoint).as_slice(), pat.as_slice(), empty.as_slice()).as_slice())
}

/// The PDF and SyncTeX files of a build with stem `stem` in directory `dir`.
pub open spec fn preview_files(dir: Seq<char>, stem: Seq<char>) -> (Seq<char>, Seq<char>) {
    (join(dir, stem + ".pdf"@), join(dir, stem + ".synctex.gz"@))
}

/// The PDF and SyncTeX files of a build (see [`preview_files`]).
pub fn preview_paths(dir: &str, stem: &str) -> (r: (String, String))
    ensures
        r.0@ == preview_files(dir@, stem@).0,
        r.1@ == preview_files(dir@, stem@).1,
{
    let mut pdf = stem.to_string();
    pdf.append(".pdf");
    let mut syn = stem.to_string();
    syn.append(".synctex.gz");
    let d = chars_of(dir);
    let p = join_path(d.as_slice(), chars_of(pdf.as_str()).as_slice());
    let s = join_path(d.as_slice(), chars_of(syn.as_str()).as_slice());
    (string_of(p.as_slice()), string_of(s.as_slice()))
}

/// What chrono gives for `s` read with the format `fmt` as a UTC date and time:
/// its milliseconds since the Unix epoch, or `None` where it does not parse.
pub uninterp spec fn utc_millis(s: Seq<char>, fmt: Seq<char>) -> Option<i64>;

/// `NaiveDateTime::parse_from_str(s, fmt)`, taken as UTC
/// (`DateTime::from_naive_utc_and_offset`) and read with `timestamp_millis`.
/// The calendar arithmetic is chrono's: the result is named by [`utc_millis`].
#[verifier::external_body]
fn parse_utc_millis(s: &str, fmt: &str) -> (r: Option<i64>)
    ensures
        r == utc_millis(s@, fmt@),
{
    chrono::NaiveDateTime::parse_from_str(s, fmt).ok().map(
        |t| chrono::DateTime::<chrono::Utc>::from_naive_utc_and_offset(t, chrono::Utc).timestamp_millis(),
    )
}

/// The format of the timestamp in a run name: date, time and fraction of a second.
pub open spec fn run_timestamp_format() -> Seq<char> {
    "%Y%m%d-%H%M%S-%f"@
}

/// A parsed time in milliseconds, clamped at 0 for times before the epoch.
pub fn built_at_from_millis(ms: Option<i64>) -> (r: Option<u64>)
    ensures
        r == match ms {
            Some(v) => Some(if v < 0 { 0u64 } else { v as u64 }),
            None => None,
        },
{
    match ms {
        Some(v) => Some(if v < 0 { 0 } else { v as u64 }),
        None => None,
    }
}

/// The time a run finished, from the timestamp in its name: `None` where the
/// name does not end in `_S` or its timestamp does not parse.
pub fn run_built_at_ms(run: &str) -> (r: Option<u64>)
    ensures
        !has_suffix(run@, "_S"@) ==> r is None,
        has_suffix(run@, "_S"@) ==> r == match utc_millis(run@.take(run@.len() - 2), run_timestamp_format()) {
            Some(v) => Some(if v < 0 { 0u64 } else { v as u64 }),
            None => None,
        },
{
    let rc = chars_of(run);
    let suffix = chars_of("_S");
    if !ends_with(rc.as_slice(), suffix.as_slice()) {
        return None;
    }
    proof {
        reveal_strlit("_S");
    }
    let ts = string_of(sub_chars(rc.as_slice(), 0, rc.len() - 2).as_slice());
    assert(ts@ =~= run@.take(run@.len() - 2));
    built_at_from_millis(parse_utc_millis(ts.as_str(), "%Y%m%d-%H%M%S-%f"))
}

/// The finishing time recorded for a preview: from its run name where that
/// parses, else the PDF's modification time where known, else 0.
pub fn built_at(from_run: Option<u64>, modified: Option<u64>) -> (r: u64)
    ensures
        r == match from_run {
            Some(v) => v,
            None => match modified {
                Some(m) => m,
                None => 0,
            },
        },
{
    match from_run {
        Some(v) => v,
        None => match modified {
            Some(m) => m,
            None => 0,
        },
    }
}

/// Previews listed newest first: each run name sorts after or equal to the next.
pub open spec fn newest_first(s: Seq<PreviewInfo>) -> bool {
    forall|i: int, j: int| 0 <= i < j < s.len() ==> lex_le(#[trigger] s[j].run@, #[trigger] s[i].run@)
}

/// Orders previews newest first by run name (the run names carry their
/// timestamps), keeping every preview.
pub fn newest_first_order(previews: Vec<PreviewInfo>) -> (r: Vec<PreviewInfo>)
    ensures
        r@.to_multiset() == previews@.to_multiset(),
        newest_first(r@),
{
    broadcast use vstd::seq_lib::group_to_multiset_ensures;
    broadcast use vstd::multiset::group_multiset_axioms;

    proof {
        lemma_lex_total();
    }
    let ghost orig = previews@;
    let mut items = previews;
    let mut r: Vec<PreviewInfo> = Vec::new();
    assert(r@.to_multiset() =~= vstd::multiset::Multiset::<PreviewInfo>::empty());
    assert(r@.to_multiset().add(items@.to_multiset()) =~= orig.to_multiset());
    while items.len() > 0
        invariant
            newest_first(r@),
            r@.to_multiset().add(items@.to_multiset()) == orig.to_multiset(),
        decreases items@.len(),
    {
        let ghost before_items = items@;
        let x = items.pop().unwrap();
        assert(before_items =~= items@.push(x));
        proof {
            vstd::seq_lib::to_multiset_build(items@, x);
        }
        let xr = chars_of(x.run.as_str());
        let mut p: usize = 0;
        while p < r.len() && lex_le_exec(xr.as_slice(), chars_of(r[p].run.as_str()).as_slice())
            invariant
                p <= r@.len(),
                xr@ == x.run@,
                forall|k: int| 0 <= k < p ==> lex_le(x.run@, #[trigger] r@[k].run@),
            decreases r@.len() - p,
        {
            p += 1;
        }
        let ghost old_r = r@;
        r.insert(p, x);
        proof {
            vstd::seq_lib::to_multiset_insert(old_r, p as int, x);
            let vr = r@;
            assert(vr =~= old_r.insert(p as int, x));
            assert forall|i: int, j: int| 0 <= i < j < vr.len() implies lex_le(
                #[trigger] vr[j].run@,
                #[trigger] vr[i].run@,
            ) by {
                if p < old_r.len() {
                    lemma_lex_connected(old_r[p as int].run@, x.run@);
                }
                if i < p && j == p {
                } else if i == p && j > p {
                    if j - 1 > p {
                        assert(lex_le(old_r[j - 1].run@, old_r[p as int].run@));
                    } else {
                        lemma_lex_reflexive(old_r[p as int].run@);
                    }
                    lemma_lex_transitive(old_r[j - 1].run@, old_r[p as int].run@, x.run@);
                } else if i < p && j > p {
                    assert(lex_le(old_r[j - 1].run@, old_r[i].run@));
                } else if i > p {
                    assert(lex_le(old_r[j - 1].run@, old_r[i - 1].run@));
                } else {
                    assert(lex_le(old_r[j].run@, old_r[i].run@));
                }
            }
        }
    }
    r
}

/// The newest successful run among the directory names of `build/runs`: the
/// greatest name ending in `_S`, or `None` where there is none.
pub fn latest_success_run(names: &Vec<String>) -> (r: Option<String>)
    ensures
        match r {
            Some(best) => exists|k: int| 0 <= k < names@.len() && names@[k]@ == best@ && has_suffix(best@, "_S"@),
            None => forall|k: int| 0 <= k < names@.len() ==> !has_suffix(#[trigger] names@[k]@, "_S"@),
        },
        r matches Some(best) ==> forall|k: int|
            0 <= k < names@.len() && has_suffix(#[trigger] names@[k]@, "_S"@) ==> lex_le(names@[k]@, best@),
{
    proof {
        lemma_lex_total();
    }
    let suffix = chars_of("_S");
    let mut best: Option<String> = None;
    let mut i: usize = 0;
    while i < names.len()
        invariant
            i <= names@.len(),
            suffix@ == "_S"@,
            total_ordering(lex_order()),
            match best {
                Some(b) => exists|k: int| 0 <= k < i && names@[k]@ == b@ && has_suffix(b@, "_S"@),
                None => forall|k: int| 0 <= k < i ==> !has_suffix(#[trigger] names@[k]@, "_S"@),
            },
            best matches Some(b) ==> forall|k: int|
                0 <= k < i && has_suffix(#[trigger] names@[k]@, "_S"@) ==> lex_le(names@[k]@, b@),
        decreases names@.len() - i,
    {
        let c = chars_of(names[i].as_str());
        if ends_with(c.as_slice(), suffix.as_slice()) {
            let newer = match &best {
                None => true,
                Some(b) => !lex_le_exec(c.as_slice(), chars_of(b.as_str()).as_slice()),
            };
            if newer {
                proof {
                    if let Some(b) = best {
                        lemma_lex_connected(c@, b@);
                        assert forall|k: int| 0 <= k < i + 1 && has_suffix(#[trigger] names@[k]@, "_S"@) implies lex_le(names@[k]@, c@) by {
                            if k < i {
                                lemma_lex_transitive(names@[k]@, b@, c@);
                            } else {
                                lemma_lex_reflexive(c@);
                            }
                        }
                    } else {
                        lemma_lex_reflexive(c@);
                    }
                }
                best = Some(names[i].clone());
            }
        }
        i += 1;
    }
    best
}

/// The previews offered for a project: the successful runs newest first, or,
/// where there are none, the preview of a build from before run directories
/// existed.
pub fn choose_previews(runs: Vec<PreviewInfo>, legacy: Option<PreviewInfo>) -> (r: Vec<PreviewInfo>)
    ensures
        runs@.len() == 0 ==> r@ == (match legacy {
            Some(l) => seq![l],
            None => Seq::<PreviewInfo>::empty(),
        }),
        runs@.len() > 0 ==> r@.to_multiset() == runs@.to_multiset() && newest_first(r@),
{
    if runs.len() == 0 {
        let mut r: Vec<PreviewInfo> = Vec::new();
        match legacy {
            Some(l) => {
                r.push(l);
                assert(r@ =~= seq![l]);
            },
            None => {
                assert(r@ =~= Seq::<PreviewInfo>::empty());
            },
        }
        r
    } else {
        newest_first_order(runs)
    }
}

} // verus!
