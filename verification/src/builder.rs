//! Decisions of the build pipeline: classifying compiler output, parsing
//! diagnostics, naming run directories and retiring old ones.

use vstd::prelude::*;
use crate::counting::{
    count_true, earliest, lemma_count_disjoint_or, lemma_count_last, lemma_count_mono, lemma_earliest_count, min_nat,
};
use crate::order::{lex_order, sort_lex, views};
use crate::state::select;
use vstd::string::StringExecFns;
use crate::artifacts::{entry_stem, stem_of};
use crate::paths::{join, join_path};
use crate::text::{chars_eq, chars_of, ends_with, has_suffix, string_of, string_views};

verus! {

/// Maximum number of historic run directories kept under `build/runs/`.
pub const MAX_RUN_HISTORY_DIRS: usize = 10;

/// Number of successful run directories that cleanup never goes below.
pub const MIN_SUCCESS_RUN_DIRS: usize = 3;

/// A finished run directory: its name ends in `_S` (success) or `_F` (failure).
pub open spec fn is_run_name(x: Seq<char>) -> bool {
    has_suffix(x, "_S"@) || has_suffix(x, "_F"@)
}

/// A successful run directory.
pub open spec fn is_success_run(x: Seq<char>) -> bool {
    has_suffix(x, "_S"@)
}

/// The finished run directories among `names`, in ascending order of name.
pub open spec fn finished_runs(names: Seq<Seq<char>>) -> Seq<Seq<char>> {
    select(names, Seq::new(names.len(), |i: int| is_run_name(names[i]))).sort_by(lex_order())
}

/// Which of the sorted run directories `runs` cleanup removes. It walks them
/// oldest first, never touches the active run, never lets the successful runs
/// drop to fewer than three (or below their number, when there are fewer),
/// and stops once at most ten remain.
pub open spec fn cleanup_removals(runs: Seq<Seq<char>>, active: Option<Seq<char>>) -> Seq<bool> {
    let m = runs.len();
    let succ_total = count_true(Seq::new(m, |i: int| is_success_run(runs[i])));
    let quota: nat = if succ_total > MIN_SUCCESS_RUN_DIRS {
        (succ_total - MIN_SUCCESS_RUN_DIRS) as nat
    } else {
        0
    };
    let success_candidates = Seq::new(
        m,
        |i: int| is_success_run(runs[i]) && active != Some(runs[i]),
    );
    let removable_success = earliest(success_candidates, quota);
    let eligible = Seq::new(
        m,
        |i: int| active != Some(runs[i]) && (!is_success_run(runs[i]) || removable_success[i]),
    );
    if m <= MAX_RUN_HISTORY_DIRS {
        Seq::new(m, |i: int| false)
    } else {
        earliest(eligible, (m - MAX_RUN_HISTORY_DIRS) as nat)
    }
}

/// The run directories, among the directory names `names` found under
/// `build/runs/`, that cleanup removes, oldest first. `active` is the run that
/// must survive.
pub open spec fn cleanup_plan(names: Seq<Seq<char>>, active: Option<Seq<char>>) -> Seq<
    Seq<char>,
> {
    let runs = finished_runs(names);
    select(runs, cleanup_removals(runs, active))
}

/// Plans the garbage collection of old run directories: returns the names, in
/// ascending order, of the run directories among `names` to remove (see
/// [`cleanup_removals`]).
pub fn plan_run_cleanup(names: &Vec<String>, active: Option<&str>) -> (remove: Vec<String>)
    ensures
        string_views(remove@) == cleanup_plan(
            string_views(names@),
            match active {
                Some(a) => Some(a@),
                None => None,
            },
        ),
{
    let ghost nv = string_views(names@);
    let ghost act: Option<Seq<char>> = match active {
        Some(a) => Some(a@),
        None => None,
    };
    let suffix_s = chars_of("_S");
    let suffix_f = chars_of("_F");
    let ghost run_flags = Seq::new(nv.len(), |i: int| is_run_name(nv[i]));
    let mut runs: Vec<Vec<char>> = Vec::new();
    let mut i: usize = 0;
    assert(nv.take(0) =~= Seq::<Seq<char>>::empty());
    while i < names.len()
        invariant
            i <= names@.len() == nv.len() == run_flags.len(),
            nv == string_views(names@),
            run_flags == Seq::new(nv.len(), |i: int| is_run_name(nv[i])),
            suffix_s@ == "_S"@,
            suffix_f@ == "_F"@,
            views(runs@) == select(nv.take(i as int), run_flags.take(i as int)),
        decreases names@.len() - i,
    {
        let c = chars_of(names[i].as_str());
        let is_run = ends_with(&c, &suffix_s) || ends_with(&c, &suffix_f);
        assert(nv.take(i + 1).drop_last() =~= nv.take(i as int));
        assert(run_flags.take(i + 1).drop_last() =~= run_flags.take(i as int));
        if is_run {
            let ghost before = views(runs@);
            runs.push(c);
            assert(views(runs@) =~= before.push(nv[i as int]));
        }
        i += 1;
    }
    assert(nv.take(nv.len() as int) =~= nv);
    assert(run_flags.take(run_flags.len() as int) =~= run_flags);
    let sorted = sort_lex(runs);
    let ghost rs = views(sorted@);
    assert(rs == finished_runs(nv));
    let m = sorted.len();
    let active_chars: Option<Vec<char>> = match active {
        Some(a) => Some(chars_of(a)),
        None => None,
    };
    // Flags per sorted run: success, active.
    let mut succ: Vec<bool> = Vec::new();
    let mut is_active: Vec<bool> = Vec::new();
    let mut succ_total: usize = 0;
    let mut k: usize = 0;
    while k < m
        invariant
            k <= m == sorted@.len() == rs.len(),
            rs == views(sorted@),
            suffix_s@ == "_S"@,
            match active_chars {
                Some(v) => act == Some(v@),
                None => act is None,
            },
            succ@.len() == k,
            is_active@.len() == k,
            forall|j: int| 0 <= j < k ==> succ@[j] == is_success_run(#[trigger] rs[j]),
            forall|j: int| 0 <= j < k ==> is_active@[j] == (act == Some(#[trigger] rs[j])),
            succ_total == count_true(succ@),
            succ_total <= k,
        decreases m - k,
    {
        let s_flag = ends_with(sorted[k].as_slice(), &suffix_s);
        let a_flag = match &active_chars {
            Some(v) => chars_eq(sorted[k].as_slice(), v.as_slice()),
            None => false,
        };
        let ghost before = succ@;
        succ.push(s_flag);
        is_active.push(a_flag);
        proof {
            assert(succ@.drop_last() =~= before);
            lemma_count_last(succ@);
        }
        if s_flag {
            succ_total += 1;
        }
        k += 1;
    }
    assert(succ@ =~= Seq::new(m as nat, |i: int| is_success_run(rs[i])));
    let quota: usize = if succ_total > MIN_SUCCESS_RUN_DIRS {
        succ_total - MIN_SUCCESS_RUN_DIRS
    } else {
        0
    };
    let ghost cand = Seq::new(m as nat, |i: int| is_success_run(rs[i]) && act != Some(rs[i]));
    let ghost removable = earliest(cand, quota as nat);
    let ghost eligible = Seq::new(
        m as nat,
        |i: int| act != Some(rs[i]) && (!is_success_run(rs[i]) || removable[i]),
    );
    let ghost spec_removals = cleanup_removals(rs, act);
    let mut remove: Vec<String> = Vec::new();
    if m <= MAX_RUN_HISTORY_DIRS {
        assert(spec_removals =~= Seq::new(m as nat, |i: int| false));
        proof {
            lemma_select_none(rs);
        }
        assert(remove@ =~= Seq::<String>::empty());
        return remove;
    }
    let limit = m - MAX_RUN_HISTORY_DIRS;
    let mut cand_seen: usize = 0;
    let mut elig_seen: usize = 0;
    let mut k: usize = 0;
    assert(cand.take(0) =~= Seq::<bool>::empty());
    assert(eligible.take(0) =~= Seq::<bool>::empty());
    assert(rs.take(0) =~= Seq::<Seq<char>>::empty());
    assert(spec_removals.take(0) =~= Seq::<bool>::empty());
    while k < m
        invariant
            k <= m == sorted@.len() == rs.len() == succ@.len() == is_active@.len(),
            m > MAX_RUN_HISTORY_DIRS,
            limit == m - MAX_RUN_HISTORY_DIRS,
            rs == views(sorted@),
            forall|j: int| 0 <= j < m ==> succ@[j] == is_success_run(#[trigger] rs[j]),
            forall|j: int| 0 <= j < m ==> is_active@[j] == (act == Some(#[trigger] rs[j])),
            cand == Seq::new(m as nat, |i: int| is_success_run(rs[i]) && act != Some(rs[i])),
            removable == earliest(cand, quota as nat),
            eligible == Seq::new(
                m as nat,
                |i: int| act != Some(rs[i]) && (!is_success_run(rs[i]) || removable[i]),
            ),
            spec_removals == earliest(eligible, limit as nat),
            cand_seen == count_true(cand.take(k as int)),
            elig_seen == count_true(eligible.take(k as int)),
            cand_seen <= k,
            elig_seen <= k,
            string_views(remove@) == select(rs.take(k as int), spec_removals.take(k as int)),
        decreases m - k,
    {
        let is_cand = succ[k] && !is_active[k];
        let can_go = !is_active[k] && (!succ[k] || cand_seen < quota);
        assert(can_go == eligible[k as int]);
        let go = can_go && elig_seen < limit;
        assert(go == spec_removals[k as int]);
        proof {
            assert(cand.take(k + 1).drop_last() =~= cand.take(k as int));
            assert(eligible.take(k + 1).drop_last() =~= eligible.take(k as int));
            lemma_count_last(cand.take(k + 1));
            lemma_count_last(eligible.take(k + 1));
            assert(rs.take(k + 1).drop_last() =~= rs.take(k as int));
            assert(spec_removals.take(k + 1).drop_last() =~= spec_removals.take(k as int));
        }
        if go {
            let ghost before = string_views(remove@);
            remove.push(string_of(sorted[k].as_slice()));
            assert(string_views(remove@) =~= before.push(rs[k as int]));
        }
        if is_cand {
            cand_seen += 1;
        }
        if can_go {
            elig_seen += 1;
        }
        k += 1;
    }
    assert(rs.take(m as int) =~= rs);
    assert(spec_removals.take(m as int) =~= spec_removals);
    remove
}

/// Selecting with no flag set keeps nothing.
pub proof fn lemma_select_none<T>(items: Seq<T>)
    ensures
        select(items, Seq::new(items.len(), |i: int| false)) =~= Seq::<T>::empty(),
    decreases items.len(),
{
    if items.len() > 0 {
        assert(Seq::new(items.len(), |i: int| false).drop_last() =~= Seq::new(
            (items.len() - 1) as nat,
            |i: int| false,
        ));
        lemma_select_none(items.drop_last());
    }
}

/// Cleanup never removes the active run.
pub proof fn lemma_cleanup_spares_active(runs: Seq<Seq<char>>, active: Option<Seq<char>>, i: int)
    requires
        0 <= i < runs.len(),
        cleanup_removals(runs, active)[i],
    ensures
        active != Some(runs[i]),
{
}

/// Cleanup removes nothing from ten runs or fewer, and otherwise never leaves
/// fewer than ten: it removes `min(len - 10, number of removable runs)`.
pub proof fn lemma_cleanup_count(runs: Seq<Seq<char>>, active: Option<Seq<char>>)
    ensures
        cleanup_removals(runs, active).len() == runs.len(),
        runs.len() <= MAX_RUN_HISTORY_DIRS ==> count_true(cleanup_removals(runs, active)) == 0,
        runs.len() > MAX_RUN_HISTORY_DIRS ==> count_true(cleanup_removals(runs, active)) <= runs.len()
            - MAX_RUN_HISTORY_DIRS,
{
    let m = runs.len();
    if m <= MAX_RUN_HISTORY_DIRS {
        lemma_count_mono(cleanup_removals(runs, active), Seq::new(m, |i: int| false));
        lemma_count_none(m);
    } else {
        let succ_total = count_true(Seq::new(m, |i: int| is_success_run(runs[i])));
        let quota: nat = if succ_total > MIN_SUCCESS_RUN_DIRS {
            (succ_total - MIN_SUCCESS_RUN_DIRS) as nat
        } else {
            0
        };
        let cand = Seq::new(m, |i: int| is_success_run(runs[i]) && active != Some(runs[i]));
        let removable = earliest(cand, quota);
        let eligible = Seq::new(
            m,
            |i: int| active != Some(runs[i]) && (!is_success_run(runs[i]) || removable[i]),
        );
        lemma_earliest_count(eligible, (m - MAX_RUN_HISTORY_DIRS) as nat);
    }
}

/// How many runs cleanup removes from more than ten: as many as it takes to
/// come down to ten, where there are that many it may take. It may take every
/// failed run but the active one, and successful runs other than the active
/// one as long as more than three successful runs remain.
pub proof fn lemma_cleanup_removes_down_to_ten(runs: Seq<Seq<char>>, active: Option<Seq<char>>)
    requires
        runs.len() > MAX_RUN_HISTORY_DIRS,
    ensures
        ({
            let m = runs.len();
            let successes = count_true(Seq::new(m, |i: int| is_success_run(runs[i])));
            let idle_failures = count_true(
                Seq::new(m, |i: int| !is_success_run(runs[i]) && active != Some(runs[i])),
            );
            let idle_successes = count_true(
                Seq::new(m, |i: int| is_success_run(runs[i]) && active != Some(runs[i])),
            );
            let spare: nat = if successes > 3 {
                (successes - 3) as nat
            } else {
                0
            };
            count_true(cleanup_removals(runs, active)) == min_nat(
                (m - 10) as nat,
                idle_failures + min_nat(idle_successes, spare),
            )
        }),
{
    let m = runs.len();
    let succ_total = count_true(Seq::new(m, |i: int| is_success_run(runs[i])));
    let quota: nat = if succ_total > MIN_SUCCESS_RUN_DIRS {
        (succ_total - MIN_SUCCESS_RUN_DIRS) as nat
    } else {
        0
    };
    let cand = Seq::new(m, |i: int| is_success_run(runs[i]) && active != Some(runs[i]));
    let fails = Seq::new(m, |i: int| !is_success_run(runs[i]) && active != Some(runs[i]));
    let removable = earliest(cand, quota);
    let eligible = Seq::new(
        m,
        |i: int| active != Some(runs[i]) && (!is_success_run(runs[i]) || removable[i]),
    );
    lemma_earliest_count(cand, quota);
    lemma_count_disjoint_or(fails, removable, eligible);
    lemma_earliest_count(eligible, (m - MAX_RUN_HISTORY_DIRS) as nat);
}

/// Among the first `j` flags there are more set ones than among the first
/// `i`, where flag `i` is set and `i < j`.
proof fn lemma_count_prefix_grows(e: Seq<bool>, i: int, j: int)
    requires
        0 <= i < j <= e.len(),
        e[i],
    ensures
        count_true(e.take(i)) < count_true(e.take(j)),
    decreases j - i,
{
    let t = e.take(j);
    assert(t.drop_last() =~= e.take(j - 1));
    lemma_count_last(t);
    if i < j - 1 {
        lemma_count_prefix_grows(e, i, j - 1);
    } else {
        assert(t.last() == e[i]);
    }
}

/// Cleanup retires the oldest runs first: a failed run that is not the active
/// one and is older than a run that cleanup removes is removed too.
pub proof fn lemma_cleanup_oldest_first(runs: Seq<Seq<char>>, active: Option<Seq<char>>, i: int, j: int)
    requires
        0 <= i < j < runs.len(),
        cleanup_removals(runs, active)[j],
        !is_success_run(runs[i]),
        active != Some(runs[i]),
    ensures
        cleanup_removals(runs, active)[i],
{
    let m = runs.len();
    let succ_total = count_true(Seq::new(m, |k: int| is_success_run(runs[k])));
    let quota: nat = if succ_total > MIN_SUCCESS_RUN_DIRS {
        (succ_total - MIN_SUCCESS_RUN_DIRS) as nat
    } else {
        0
    };
    let cand = Seq::new(m, |k: int| is_success_run(runs[k]) && active != Some(runs[k]));
    let removable = earliest(cand, quota);
    let eligible = Seq::new(
        m,
        |k: int| active != Some(runs[k]) && (!is_success_run(runs[k]) || removable[k]),
    );
    assert(eligible[i]);
    lemma_count_prefix_grows(eligible, i, j);
}

/// With more than ten runs that are all successful and none of them active,
/// cleanup removes exactly enough to leave ten.
pub proof fn lemma_cleanup_of_successes(runs: Seq<Seq<char>>)
    requires
        runs.len() > MAX_RUN_HISTORY_DIRS,
        forall|i: int| 0 <= i < runs.len() ==> is_success_run(#[trigger] runs[i]),
    ensures
        count_true(cleanup_removals(runs, None)) == runs.len() - 10,
{
    let m = runs.len();
    lemma_cleanup_removes_down_to_ten(runs, None);
    let all = Seq::new(m, |i: int| true);
    assert(Seq::new(m, |i: int| is_success_run(runs[i])) =~= all);
    assert(Seq::new(m, |i: int| is_success_run(runs[i]) && None::<Seq<char>> != Some(runs[i])) =~= all);
    assert(Seq::new(m, |i: int| !is_success_run(runs[i]) && None::<Seq<char>> != Some(runs[i])) =~= Seq::new(
        m,
        |i: int| false,
    ));
    crate::state::lemma_all_true_count(m);
    lemma_count_none(m);
}

/// Cleanup keeps at least `min(3, number of successful runs)` successful runs.
pub proof fn lemma_cleanup_keeps_successes(runs: Seq<Seq<char>>, active: Option<Seq<char>>)
    ensures
        count_true(
            Seq::new(
                runs.len(),
                |i: int| is_success_run(runs[i]) && !cleanup_removals(runs, active)[i],
            ),
        ) >= min_nat(
            MIN_SUCCESS_RUN_DIRS as nat,
            count_true(Seq::new(runs.len(), |i: int| is_success_run(runs[i]))),
        ),
{
    let m = runs.len();
    let succ = Seq::new(m, |i: int| is_success_run(runs[i]));
    let rem = cleanup_removals(runs, active);
    let kept = Seq::new(m, |i: int| is_success_run(runs[i]) && !rem[i]);
    let gone = Seq::new(m, |i: int| is_success_run(runs[i]) && rem[i]);
    lemma_count_disjoint_or(kept, gone, succ);
    let succ_total = count_true(succ);
    let quota: nat = if succ_total > MIN_SUCCESS_RUN_DIRS {
        (succ_total - MIN_SUCCESS_RUN_DIRS) as nat
    } else {
        0
    };
    let cand = Seq::new(m, |i: int| is_success_run(runs[i]) && active != Some(runs[i]));
    let removable = earliest(cand, quota);
    if m > MAX_RUN_HISTORY_DIRS {
        lemma_count_mono(gone, removable);
        lemma_earliest_count(cand, quota);
    } else {
        lemma_count_mono(gone, Seq::new(m, |i: int| false));
        lemma_count_none(m);
    }
}

/// A sequence of `n` false entries counts nothing.
pub proof fn lemma_count_none(n: nat)
    ensures
        count_true(Seq::new(n, |j: int| false)) == 0,
    decreases n,
{
    if n > 0 {
        assert(Seq::new(n, |j: int| false).drop_first() =~= Seq::new((n - 1) as nat, |j: int| false));
        lemma_count_none((n - 1) as nat);
    }
}

/// The directories and files of one build run.
pub struct RunPlan {
    /// `build/runs` under the project.
    pub runs_base_dir: String,
    /// The run's name while it builds: the timestamp and `_P`.
    pub pending_run_id: String,
    /// The run's directory while it builds.
    pub run_dir: String,
    /// The entrypoint without `.tex`.
    pub stem: String,
    /// The PDF the compiler writes.
    pub pdf_path: String,
    /// The compiler's log.
    pub log_file: String,
    /// The SyncTeX data.
    pub synctex_path: String,
    /// Where Ghostscript writes the compressed PDF.
    pub compressed_path: String,
}

/// The run directory of a build started at `timestamp` in `proj_dir`.
pub open spec fn run_dir_of(proj_dir: Seq<char>, timestamp: Seq<char>) -> Seq<char> {
    join(join(join(proj_dir, "build"@), "runs"@), timestamp + "_P"@)
}

/// Lays out the run of a build started at `timestamp` for `entrypoint` in `proj_dir`.
pub fn plan_run(proj_dir: &str, entrypoint: &str, timestamp: &str) -> (r: RunPlan)
    ensures
        r.runs_base_dir@ == join(join(proj_dir@, "build"@), "runs"@),
        r.pending_run_id@ == timestamp@ + "_P"@,
        r.run_dir@ == run_dir_of(proj_dir@, timestamp@),
        r.stem@ == entry_stem(entrypoint@),
        r.pdf_path@ == join(run_dir_of(proj_dir@, timestamp@), entry_stem(entrypoint@) + ".pdf"@),
        r.log_file@ == join(run_dir_of(proj_dir@, timestamp@), entry_stem(entrypoint@) + ".log"@),
        r.synctex_path@ == join(run_dir_of(proj_dir@, timestamp@), entry_stem(entrypoint@) + ".synctex.gz"@),
        r.compressed_path@ == join(run_dir_of(proj_dir@, timestamp@), "compressed.pdf"@),
{
    let build = join_path(chars_of(proj_dir).as_slice(), chars_of("build").as_slice());
    let base = join_path(build.as_slice(), chars_of("runs").as_slice());
    let mut pending = timestamp.to_string();
    pending.append("_P");
    let run_dir = join_path(base.as_slice(), chars_of(pending.as_str()).as_slice());
    let stem = stem_of(entrypoint);
    let file = |ext: &str| -> (f: String)
        ensures
            f@ == join(run_dir@, stem@ + ext@),
        {
            let mut name = stem.clone();
            name.append(ext);
            string_of(join_path(run_dir.as_slice(), chars_of(name.as_str()).as_slice()).as_slice())
        };
    let pdf_path = file(".pdf");
    let log_file = file(".log");
    let synctex_path = file(".synctex.gz");
    let compressed = join_path(run_dir.as_slice(), chars_of("compressed.pdf").as_slice());
    RunPlan {
        runs_base_dir: string_of(base.as_slice()),
        pending_run_id: pending,
        run_dir: string_of(run_dir.as_slice()),
        stem,
        pdf_path,
        log_file,
        synctex_path,
        compressed_path: string_of(compressed.as_slice()),
    }
}

/// The final name of a run: the timestamp, `_` and the outcome suffix, with a
/// random part after the timestamp where that name is taken.
pub fn final_run_id(timestamp: &str, suffix: char, taken: bool, random: &str) -> (r: String)
    ensures
        !taken ==> r@ == timestamp@ + seq!['_', suffix],
        taken ==> r@ == timestamp@ + seq!['-'] + random@ + seq!['_', suffix],
{
    let mut id = timestamp.to_string();
    if taken {
        id.append("-");
        id.append(random);
    }
    id.append("_");
    let mut tail: Vec<char> = Vec::new();
    tail.push(suffix);
    id.append(string_of(tail.as_slice()).as_str());
    proof {
        reveal_strlit("-");
        reveal_strlit("_");
    }
    assert(tail@ =~= seq![suffix]);
    id
}

/// A command line to run: program, arguments, and the `TEXINPUTS` value where one is set.
pub struct CommandLine {
    /// The program.
    pub program: String,
    /// Its arguments.
    pub args: Vec<String>,
    /// The `TEXINPUTS` search path.
    pub texinputs: Option<String>,
}

/// Appends a string to a list of arguments.
fn push_arg(args: &mut Vec<String>, a: &str)
    ensures
        string_views(final(args)@) == string_views(old(args)@).push(a@),
{
    args.push(a.to_string());
    assert(string_views(args@) =~= string_views(old(args)@).push(a@));
}

/// The compiler command of a build: `tectonic` compiling into the run
/// directory with SyncTeX, or, with the latexmk engine, `texfot latexmk` with
/// the project and its `build` directory on `TEXINPUTS`.
pub fn compiler_command(latexmk: bool, entrypoint: &str, run_dir: &str, proj_dir: &str, shell_escape: bool) -> (r: CommandLine)
    ensures
        !latexmk ==> r.program@ == "tectonic"@ && string_views(r.args@) == seq![
            "-X"@,
            "compile"@,
            entrypoint@,
            "--synctex"@,
            "--outdir"@,
            run_dir@,
        ] && r.texinputs is None,
        latexmk ==> r.program@ == "texfot"@ && string_views(r.args@) == seq![
            "latexmk"@,
            "-pdf"@,
            "-interaction=nonstopmode"@,
            "-synctex=1"@,
            "-file-line-error"@,
            "-recorder"@,
            "-f"@,
            "-outdir="@ + run_dir@,
            entrypoint@,
        ] + (if shell_escape { seq!["-shell-escape"@] } else { Seq::empty() }) && (r.texinputs
            matches Some(t) && t@ == proj_dir@ + ":"@ + proj_dir@ + "/build:"@),
{
    let mut args: Vec<String> = Vec::new();
    if !latexmk {
        push_arg(&mut args, "-X");
        push_arg(&mut args, "compile");
        push_arg(&mut args, entrypoint);
        push_arg(&mut args, "--synctex");
        push_arg(&mut args, "--outdir");
        push_arg(&mut args, run_dir);
        assert(string_views(args@) =~= seq!["-X"@, "compile"@, entrypoint@, "--synctex"@, "--outdir"@, run_dir@]);
        CommandLine { program: "tectonic".to_string(), args, texinputs: None }
    } else {
        push_arg(&mut args, "latexmk");
        push_arg(&mut args, "-pdf");
        push_arg(&mut args, "-interaction=nonstopmode");
        push_arg(&mut args, "-synctex=1");
        push_arg(&mut args, "-file-line-error");
        push_arg(&mut args, "-recorder");
        push_arg(&mut args, "-f");
        let mut outdir = "-outdir=".to_string();
        outdir.append(run_dir);
        push_arg(&mut args, outdir.as_str());
        push_arg(&mut args, entrypoint);
        let ghost base = string_views(args@);
        if shell_escape {
            push_arg(&mut args, "-shell-escape");
        }
        assert(string_views(args@) =~= seq![
            "latexmk"@,
            "-pdf"@,
            "-interaction=nonstopmode"@,
            "-synctex=1"@,
            "-file-line-error"@,
            "-recorder"@,
            "-f"@,
            "-outdir="@ + run_dir@,
            entrypoint@,
        ] + (if shell_escape { seq!["-shell-escape"@] } else { Seq::empty() }));
        let mut t = proj_dir.to_string();
        t.append(":");
        t.append(proj_dir);
        t.append("/build:");
        CommandLine { program: "texfot".to_string(), args, texinputs: Some(t) }
    }
}

/// The log analyser command for a log file.
pub fn analyzer_command(log_file: &str) -> (r: CommandLine)
    ensures
        r.program@ == "texloganalyser"@,
        string_views(r.args@) == seq!["-w"@, log_file@],
        r.texinputs is None,
{
    let mut args: Vec<String> = Vec::new();
    push_arg(&mut args, "-w");
    push_arg(&mut args, log_file);
    assert(string_views(args@) =~= seq!["-w"@, log_file@]);
    CommandLine { program: "texloganalyser".to_string(), args, texinputs: None }
}

/// The Ghostscript command that compresses `pdf` into `compressed`.
pub fn compression_command(pdf: &str, compressed: &str) -> (r: CommandLine)
    ensures
        r.program@ == "gs"@,
        string_views(r.args@) == seq![
            "-sDEVICE=pdfwrite"@,
            "-dCompatibilityLevel=1.4"@,
            "-dPDFSETTINGS=/screen"@,
            "-dNOPAUSE"@,
            "-dQUIET"@,
            "-dBATCH"@,
            "-sOutputFile="@ + compressed@,
            pdf@,
        ],
        r.texinputs is None,
{
    let mut args: Vec<String> = Vec::new();
    push_arg(&mut args, "-sDEVICE=pdfwrite");
    push_arg(&mut args, "-dCompatibilityLevel=1.4");
    push_arg(&mut args, "-dPDFSETTINGS=/screen");
    push_arg(&mut args, "-dNOPAUSE");
    push_arg(&mut args, "-dQUIET");
    push_arg(&mut args, "-dBATCH");
    let mut out = "-sOutputFile=".to_string();
    out.append(compressed);
    push_arg(&mut args, out.as_str());
    push_arg(&mut args, pdf);
    assert(string_views(args@) =~= seq![
        "-sDEVICE=pdfwrite"@,
        "-dCompatibilityLevel=1.4"@,
        "-dPDFSETTINGS=/screen"@,
        "-dNOPAUSE"@,
        "-dQUIET"@,
        "-dBATCH"@,
        "-sOutputFile="@ + compressed@,
        pdf@,
    ]);
    CommandLine { program: "gs".to_string(), args, texinputs: None }
}

/// Whether an intermediate file of the last successful run is copied into a
/// new run: every file but PDFs (compared exactly, as the extension is).
pub fn copy_intermediate(extension: Option<&str>) -> (r: bool)
    ensures
        r == match extension {
            Some(e) => e@ != "pdf"@,
            None => false,
        },
{
    match extension {
        Some(e) => !chars_eq(chars_of(e).as_slice(), chars_of("pdf").as_slice()),
        None => false,
    }
}

/// Whether a project directory is mirrored into the run directory: every
/// directory but `build`, `.git`, `target`, `.vscode` and `.zed`.
pub fn mirror_directory(name: &str) -> (r: bool)
    ensures
        r == !(name@ == "build"@ || name@ == ".git"@ || name@ == "target"@ || name@ == ".vscode"@
            || name@ == ".zed"@),
{
    let n = chars_of(name);
    let s = n.as_slice();
    !(chars_eq(s, chars_of("build").as_slice()) || chars_eq(s, chars_of(".git").as_slice())
        || chars_eq(s, chars_of("target").as_slice()) || chars_eq(s, chars_of(".vscode").as_slice())
        || chars_eq(s, chars_of(".zed").as_slice()))
}

} // verus!
