//! Build outcomes, build priorities, and the retention policy of the build
//! history ledger.

use vstd::prelude::*;
use crate::counting::{
    count_true, latest, lemma_count_disjoint_or, lemma_count_le_len, lemma_count_mono,
    lemma_count_negate, lemma_count_last, lemma_count_step, lemma_count_suffix_mono, lemma_latest_count, min_nat, negate,
};
use crate::text::{chars_eq, chars_of};

verus! {

/// Unified compilation outcome states.
#[derive(Debug, Clone, Copy, PartialEq, Eq, Structural)]
pub enum BuildStatus {
    /// Task is resting inside the build semaphore slot queue.
    Queued,
    /// Process is spawned and currently translating LaTeX macros.
    Running,
    /// Executed with status code `0`, outputting a preview PDF.
    Success,
    /// Process failed, returned a non-zero exit code.
    Failed,
    /// User manually stopped compilation.
    Cancelled,
    /// Execution exceeded configured runtime thresholds.
    TimedOut,
    /// Spawning sub-process or writing folder structures crashed the engine.
    Error,
}

/// The stable name of each build status.
pub open spec fn status_name(s: BuildStatus) -> Seq<char> {
    match s {
        BuildStatus::Queued => "Queued"@,
        BuildStatus::Running => "Running"@,
        BuildStatus::Success => "Success"@,
        BuildStatus::Failed => "Failed"@,
        BuildStatus::Cancelled => "Cancelled"@,
        BuildStatus::TimedOut => "TimedOut"@,
        BuildStatus::Error => "Error"@,
    }
}

/// The run directory suffix of each build status, where it has one.
pub open spec fn status_suffix(s: BuildStatus) -> Option<char> {
    match s {
        BuildStatus::Success => Some('S'),
        BuildStatus::Failed | BuildStatus::TimedOut | BuildStatus::Error => Some('F'),
        _ => None,
    }
}

impl BuildStatus {
    /// Serializes the status into a stable, frontend-friendly string identifier.
    pub fn as_str(self) -> (r: &'static str)
        ensures
            r@ == status_name(self),
    {
        match self {
            BuildStatus::Queued => "Queued",
            BuildStatus::Running => "Running",
            BuildStatus::Success => "Success",
            BuildStatus::Failed => "Failed",
            BuildStatus::Cancelled => "Cancelled",
            BuildStatus::TimedOut => "TimedOut",
            BuildStatus::Error => "Error",
        }
    }

    /// Translates execution results into run directory name suffixes.
    ///
    /// Suffix `S` is used for success, while `F` indicates standard failures.
    pub fn run_suffix(self) -> (r: Option<char>)
        ensures
            r == status_suffix(self),
    {
        match self {
            BuildStatus::Success => Some('S'),
            BuildStatus::Failed | BuildStatus::TimedOut | BuildStatus::Error => Some('F'),
            _ => None,
        }
    }
}

/// Request priority ordering: a manual request outranks an automatic one.
#[derive(Debug, Clone, Copy, PartialEq, Eq, PartialOrd, Ord, Structural)]
pub enum BuildPriority {
    /// Spawned by automated filesystem watchers on file changes.
    Auto,
    /// Spawned by manual user intervention via the dashboard interface.
    Manual,
}

/// The rank of a priority; the derived order follows it.
pub open spec fn priority_rank(p: BuildPriority) -> nat {
    match p {
        BuildPriority::Auto => 0,
        BuildPriority::Manual => 1,
    }
}

impl BuildPriority {
    /// The rank of this priority (`Auto` is 0, `Manual` is 1).
    pub fn rank(self) -> (r: u8)
        ensures
            r == priority_rank(self),
    {
        match self {
            BuildPriority::Auto => 0,
            BuildPriority::Manual => 1,
        }
    }
}

/// Whether a build request with `priority` is dropped because a build of higher
/// priority holds the session (`current`).
pub fn build_request_superseded(priority: BuildPriority, current: Option<BuildPriority>) -> (r:
    bool)
    ensures
        r == match current {
            Some(c) => priority_rank(priority) < priority_rank(c),
            None => false,
        },
{
    match current {
        Some(c) => priority.rank() < c.rank(),
        None => false,
    }
}

/// Maximum number of entries that the history ledger keeps.
pub const MAX_BUILD_HISTORY_ENTRIES: usize = 10;

/// Number of the most recent successful builds that the ledger always keeps.
pub const MIN_SUCCESS_HISTORY_ENTRIES: usize = 3;

/// Which entries of a history survive pruning, given which of them are
/// successful builds. A ledger of at most ten entries is kept whole. A longer
/// one keeps its three most recent successes (all of them, when it holds
/// fewer), and then its most recent other entries, up to ten entries in all.
pub open spec fn history_keep(success: Seq<bool>) -> Seq<bool> {
    if success.len() <= MAX_BUILD_HISTORY_ENTRIES {
        Seq::new(success.len(), |j: int| true)
    } else {
        let reserved = latest(success, MIN_SUCCESS_HISTORY_ENTRIES as nat);
        let others = latest(
            negate(reserved),
            (MAX_BUILD_HISTORY_ENTRIES - count_true(reserved)) as nat,
        );
        Seq::new(success.len(), |j: int| reserved[j] || others[j])
    }
}

/// Whether each recorded status names a successful build.
pub open spec fn success_flags(statuses: Seq<String>) -> Seq<bool> {
    Seq::new(statuses.len(), |i: int| statuses[i]@ == "Success"@)
}

/// The entries of `items` whose flag in `keep` is set, in their order.
pub open spec fn select<T>(items: Seq<T>, keep: Seq<bool>) -> Seq<T>
    decreases items.len(),
{
    if items.len() == 0 {
        Seq::<T>::empty()
    } else {
        let rest = select(items.drop_last(), keep.drop_last());
        if keep.last() {
            rest.push(items.last())
        } else {
            rest
        }
    }
}

/// A vector of `n` copies of `b`.
pub fn filled(n: usize, b: bool) -> (v: Vec<bool>)
    ensures
        v@ == Seq::new(n as nat, |j: int| b),
{
    let mut v: Vec<bool> = Vec::new();
    while v.len() < n
        invariant
            v@.len() <= n,
            forall|j: int| 0 <= j < v@.len() ==> v@[j] == b,
        decreases n - v@.len(),
    {
        v.push(b);
    }
    assert(v@ =~= Seq::new(n as nat, |j: int| b));
    v
}

/// Computes [`history_keep`] for the given success flags.
pub fn history_keep_mask(success: &Vec<bool>) -> (keep: Vec<bool>)
    ensures
        keep@ == history_keep(success@),
{
    let n = success.len();
    if n <= MAX_BUILD_HISTORY_ENTRIES {
        return filled(n, true);
    }
    let ghost s = success@;
    let ghost res_spec = latest(s, MIN_SUCCESS_HISTORY_ENTRIES as nat);
    let mut reserved = filled(n, false);
    let mut seen: usize = 0;
    let mut i = n;
    assert(s.subrange(n as int, n as int) =~= Seq::<bool>::empty());
    while i > 0
        invariant
            i <= n == s.len(),
            s == success@,
            res_spec == latest(s, MIN_SUCCESS_HISTORY_ENTRIES as nat),
            reserved@.len() == n,
            seen == count_true(s.subrange(i as int, n as int)),
            seen <= n - i,
            forall|j: int| i <= j < n ==> reserved@[j] == res_spec[j],
        decreases i,
    {
        i -= 1;
        let r = success[i] && seen < MIN_SUCCESS_HISTORY_ENTRIES;
        reserved.set(i, r);
        proof {
            lemma_count_step(s, i as int);
        }
        if success[i] {
            seen += 1;
        }
    }
    assert(s.subrange(0, n as int) =~= s);
    assert(reserved@ =~= res_spec);
    let rc: usize = if seen < MIN_SUCCESS_HISTORY_ENTRIES {
        seen
    } else {
        MIN_SUCCESS_HISTORY_ENTRIES
    };
    proof {
        lemma_latest_count(s, MIN_SUCCESS_HISTORY_ENTRIES as nat);
    }
    let quota = MAX_BUILD_HISTORY_ENTRIES - rc;
    let ghost neg = negate(res_spec);
    let ghost others = latest(neg, quota as nat);
    let mut keep = filled(n, false);
    let mut others_seen: usize = 0;
    let mut i = n;
    assert(neg.subrange(n as int, n as int) =~= Seq::<bool>::empty());
    while i > 0
        invariant
            i <= n == s.len() == neg.len(),
            reserved@ == res_spec,
            neg == negate(res_spec),
            others == latest(neg, quota as nat),
            keep@.len() == n,
            others_seen == count_true(neg.subrange(i as int, n as int)),
            others_seen <= n - i,
            forall|j: int| i <= j < n ==> keep@[j] == (res_spec[j] || others[j]),
        decreases i,
    {
        i -= 1;
        let r = reserved[i];
        let k = r || others_seen < quota;
        keep.set(i, k);
        proof {
            lemma_count_step(neg, i as int);
        }
        if !r {
            others_seen += 1;
        }
    }
    assert(keep@ =~= history_keep(s));
    keep
}

/// Whether a recorded status names a successful build.
pub fn is_success_status(status: &String) -> (r: bool)
    ensures
        r == (status@ == "Success"@),
{
    let lit = "Success";
    let a = chars_of(status.as_str());
    let b = chars_of(lit);
    chars_eq(&a, &b)
}

/// The entries of `items` whose flag in `keep` is set, in order.
pub fn retain_marked<T>(items: Vec<T>, keep: &Vec<bool>) -> (r: Vec<T>)
    requires
        items@.len() == keep@.len(),
    ensures
        r@ == select(items@, keep@),
{
    let ghost orig = items@;
    let mut items = items;
    let mut r: Vec<T> = Vec::new();
    let n = keep.len();
    let mut i: usize = 0;
    assert(orig.take(0) =~= Seq::<T>::empty());
    assert(orig.subrange(0, n as int) =~= orig);
    while i < n
        invariant
            i <= n == orig.len() == keep@.len(),
            items@ == orig.subrange(i as int, n as int),
            r@ == select(orig.take(i as int), keep@.take(i as int)),
        decreases n - i,
    {
        let x = items.remove(0);
        assert(orig.take(i + 1).drop_last() =~= orig.take(i as int));
        assert(keep@.take(i + 1).drop_last() =~= keep@.take(i as int));
        if keep[i] {
            r.push(x);
        }
        assert(items@ =~= orig.subrange(i + 1, n as int));
        i += 1;
    }
    assert(orig.take(n as int) =~= orig);
    assert(keep@.take(n as int) =~= keep@);
    r
}

/// Truncates the build history to at most ten entries, keeping the most recent
/// successful builds (see [`history_keep`]). `statuses[i]` is the recorded
/// status of `history[i]`; entries are oldest first.
pub fn prune_build_history<T>(history: Vec<T>, statuses: &Vec<String>) -> (r: Vec<T>)
    requires
        history@.len() == statuses@.len(),
    ensures
        r@ == select(history@, history_keep(success_flags(statuses@))),
{
    let mut success: Vec<bool> = Vec::new();
    let mut i: usize = 0;
    while i < statuses.len()
        invariant
            i <= statuses@.len(),
            success@.len() == i,
            forall|j: int| 0 <= j < i ==> success@[j] == (statuses@[j]@ == "Success"@),
        decreases statuses@.len() - i,
    {
        success.push(is_success_status(&statuses[i]));
        i += 1;
    }
    assert(success@ =~= success_flags(statuses@));
    let keep = history_keep_mask(&success);
    retain_marked(history, &keep)
}

/// A selection keeps as many items as it has set flags.
pub proof fn lemma_select_len<T>(items: Seq<T>, keep: Seq<bool>)
    requires
        items.len() == keep.len(),
    ensures
        select(items, keep).len() == count_true(keep),
    decreases items.len(),
{
    if items.len() > 0 {
        lemma_select_len(items.drop_last(), keep.drop_last());
        lemma_count_last(keep);
    }
}

/// Pruning leaves `min(len, 10)` entries.
pub proof fn lemma_prune_size(success: Seq<bool>)
    ensures
        count_true(history_keep(success)) == min_nat(success.len(), 10),
        history_keep(success).len() == success.len(),
{
    let n = success.len();
    if n <= 10 {
        assert(forall|j: int| 0 <= j < n ==> #[trigger] history_keep(success)[j]);
        lemma_count_mono(Seq::new(n, |j: int| true), history_keep(success));
        lemma_all_true_count(n);
        lemma_count_le_len(history_keep(success));
    } else {
        let reserved = latest(success, 3);
        let neg = negate(reserved);
        let quota = (10 - count_true(reserved)) as nat;
        let others = latest(neg, quota);
        lemma_latest_count(success, 3);
        lemma_latest_count(neg, quota);
        lemma_count_negate(reserved);
        lemma_count_disjoint_or(reserved, others, history_keep(success));
    }
}

/// Selecting with every flag set keeps every item.
pub proof fn lemma_select_all<T>(items: Seq<T>)
    ensures
        select(items, Seq::new(items.len(), |j: int| true)) == items,
    decreases items.len(),
{
    if items.len() > 0 {
        let all = Seq::new(items.len(), |j: int| true);
        assert(all.drop_last() =~= Seq::new(items.drop_last().len(), |j: int| true));
        lemma_select_all(items.drop_last());
        assert(items.drop_last().push(items.last()) =~= items);
    }
}

/// Pruning a pruned history changes nothing: what survives one pruning (at
/// most ten entries) is kept whole by the next, with the statuses of the
/// surviving entries.
pub proof fn lemma_prune_idempotent<T>(history: Seq<T>, statuses: Seq<String>)
    requires
        history.len() == statuses.len(),
    ensures
        ({
            let keep = history_keep(success_flags(statuses));
            let kept = select(history, keep);
            select(kept, history_keep(success_flags(select(statuses, keep)))) == kept
        }),
{
    let keep = history_keep(success_flags(statuses));
    let kept = select(history, keep);
    let kept_st = select(statuses, keep);
    lemma_prune_size(success_flags(statuses));
    lemma_select_len(history, keep);
    lemma_select_len(statuses, keep);
    assert(success_flags(kept_st).len() <= MAX_BUILD_HISTORY_ENTRIES);
    assert(history_keep(success_flags(kept_st)) =~= Seq::new(kept.len(), |j: int| true));
    lemma_select_all(kept);
}

/// A sequence of `n` true entries counts `n`.
pub proof fn lemma_all_true_count(n: nat)
    ensures
        count_true(Seq::new(n, |j: int| true)) == n,
    decreases n,
{
    if n > 0 {
        assert(Seq::new(n, |j: int| true).drop_first() =~= Seq::new((n - 1) as nat, |j: int| true));
        lemma_all_true_count((n - 1) as nat);
    }
}

/// Pruning keeps at least `min(3, number of successes)` successful builds.
pub proof fn lemma_prune_keeps_successes(success: Seq<bool>)
    ensures
        count_true(Seq::new(success.len(), |j: int| history_keep(success)[j] && success[j]))
            >= min_nat(3, count_true(success)),
{
    let n = success.len();
    let kept_succ = Seq::new(n, |j: int| history_keep(success)[j] && success[j]);
    if n <= 10 {
        lemma_count_mono(success, kept_succ);
    } else {
        lemma_latest_count(success, 3);
        lemma_count_mono(latest(success, 3), kept_succ);
    }
}

/// Pruning favours recent entries: an entry newer than a kept entry that is not
/// one of the reserved successes is kept too.
pub proof fn lemma_prune_recency(success: Seq<bool>, i: int, j: int)
    requires
        0 <= i < j < success.len(),
        history_keep(success)[i],
        !latest(success, 3)[i],
    ensures
        history_keep(success)[j],
{
    if success.len() > 10 {
        let reserved = latest(success, 3);
        let neg = negate(reserved);
        lemma_count_suffix_mono(neg, i + 1, j + 1);
    }
}

} // verus!
