//! Word counting over a LaTeX document and the files it pulls in with
//! `\input{..}` and `\include{..}`.
//!
//! Reading the files is left to the caller: a [`WordWalk`] says which file to
//! read next and takes its content back.

use vstd::prelude::*;
use crate::paths::{components, is_absolute, join, join_path, part_views, path_components};
use crate::text::{
    chars_eq, chars_of, ends_with, find_first, find_spec, has_suffix, is_whitespace, is_ws,
    lemma_find_spec_bounds, occurs_at, string_of, sub_chars, trim, trimmed,
};

verus! {

/// The number of white-space separated words in `s` (`split_whitespace().count()`):
/// the positions where a word starts.
pub open spec fn word_count(s: Seq<char>) -> nat
    decreases s.len(),
{
    if s.len() == 0 {
        0
    } else {
        let n = s.len() as int;
        let starts_word = !is_ws(s[n - 1]) && (n == 1 || is_ws(s[n - 2]));
        word_count(s.drop_last()) + if starts_word {
            1nat
        } else {
            0nat
        }
    }
}

/// Counts the words of `s`, saturating at `u32::MAX`.
pub fn count_words(s: &[char]) -> (r: u32)
    ensures
        r as nat == if word_count(s@) <= u32::MAX {
            word_count(s@)
        } else {
            u32::MAX as nat
        },
{
    let mut n: u32 = 0;
    let mut i: usize = 0;
    let ghost mut exact: nat = 0;
    while i < s.len()
        invariant
            i <= s@.len(),
            exact == word_count(s@.take(i as int)),
            n as nat == if exact <= u32::MAX {
                exact
            } else {
                u32::MAX as nat
            },
        decreases s@.len() - i,
    {
        let starts = !is_whitespace(s[i]) && (i == 0 || is_whitespace(s[i - 1]));
        proof {
            let t = s@.take(i + 1);
            assert(t.drop_last() =~= s@.take(i as int));
            assert(t[i as int] == s@[i as int]);
            if i > 0 {
                assert(t[i - 1] == s@[i - 1]);
            }
            exact = exact + if starts {
                1nat
            } else {
                0nat
            };
        }
        if starts && n < u32::MAX {
            n = n + 1;
        }
        i += 1;
    }
    assert(s@.take(s@.len() as int) =~= s@);
    n
}

/// The file named by an include directive whose argument is `arg`: the
/// trimmed argument, with `.tex` added where it does not end with it.
pub open spec fn include_name(arg: Seq<char>) -> Seq<char> {
    let t = trim(arg);
    if has_suffix(t, ".tex"@) {
        t
    } else {
        t + ".tex"@
    }
}

/// The next include directive at or after `pos`: where it starts and the
/// length of its opening part (`\input{` or `\include{`, whichever comes
/// first), or `(-1, 0)` where there is none.
pub open spec fn next_directive(s: Seq<char>, pos: int) -> (int, int) {
    let a = find_spec(s, "\\input{"@, pos);
    let b = find_spec(s, "\\include{"@, pos);
    if a >= 0 && (b < 0 || a < b) {
        (a, 7)
    } else if b >= 0 {
        (b, 9)
    } else {
        (-1, 0)
    }
}

/// The files named by the include directives of `s` from `pos` on, in the
/// order they appear. The argument runs from the end of the directive's
/// opening part up to the next `}`; scanning goes on after that `}` and stops
/// at a directive with no `}` after it.
pub open spec fn include_targets_from(s: Seq<char>, pos: int) -> Seq<Seq<char>>
    decreases s.len() + 1 - pos,
{
    let (start, len) = next_directive(s, pos);
    if pos < 0 || pos > s.len() || start < pos {
        Seq::empty()
    } else {
        let end = find_spec(s, seq!['}'], start);
        proof {
            lemma_find_spec_bounds(s, seq!['}'], start);
        }
        if end < start {
            Seq::empty()
        } else {
            seq![include_name(s.subrange(start + len, end))] + include_targets_from(s, end + 1)
        }
    }
}

/// The files named by the include directives of `s`.
pub open spec fn include_targets(s: Seq<char>) -> Seq<Seq<char>> {
    include_targets_from(s, 0)
}

/// A `}` found after a directive lies past the directive's opening part.
proof fn lemma_brace_after_directive(s: Seq<char>, start: int, pat: Seq<char>)
    requires
        occurs_at(s, pat, start),
        forall|k: int| 0 <= k < pat.len() ==> pat[k] != '}',
    ensures
        find_spec(s, seq!['}'], start) == -1 || find_spec(s, seq!['}'], start) >= start + pat.len(),
{
    lemma_find_spec_bounds(s, seq!['}'], start);
    let e = find_spec(s, seq!['}'], start);
    if e != -1 && e < start + pat.len() {
        assert(s.subrange(e, e + 1)[0] == '}');
        assert(s[e] == '}');
        assert(s.subrange(start, start + pat.len())[e - start] == pat[e - start]);
    }
}

/// The files named by the include directives of `content`.
pub fn include_targets_of(content: &[char]) -> (r: Vec<Vec<char>>)
    ensures
        part_views(r@) == include_targets(content@),
{
    let input = chars_of("\\input{");
    let incl = chars_of("\\include{");
    let tex = chars_of(".tex");
    proof {
        reveal_strlit("\\input{");
        reveal_strlit("\\include{");
    }
    let mut r: Vec<Vec<char>> = Vec::new();
    let mut pos: usize = 0;
    let ghost s = content@;
    loop
        invariant
            s == content@,
            pos <= s.len(),
            input@ == "\\input{"@,
            incl@ == "\\include{"@,
            tex@ == ".tex"@,
            input@ =~= seq!['\\', 'i', 'n', 'p', 'u', 't', '{'],
            incl@ =~= seq!['\\', 'i', 'n', 'c', 'l', 'u', 'd', 'e', '{'],
            include_targets(s) == part_views(r@) + include_targets_from(s, pos as int),
        decreases s.len() + 1 - pos,
    {
        let a = find_first(content, input.as_slice(), pos);
        let b = find_first(content, incl.as_slice(), pos);
        proof {
            lemma_find_spec_bounds(s, "\\input{"@, pos as int);
            lemma_find_spec_bounds(s, "\\include{"@, pos as int);
        }
        let found: Option<(usize, usize)> = match (a, b) {
            (Some(i), Some(j)) => if i < j {
                Some((i, 7))
            } else {
                Some((j, 9))
            },
            (Some(i), None) => Some((i, 7)),
            (None, Some(j)) => Some((j, 9)),
            (None, None) => None,
        };
        let (start, len) = match found {
            Some(x) => x,
            None => {
                assert(include_targets_from(s, pos as int) =~= Seq::<Seq<char>>::empty());
                assert(part_views(r@) + Seq::<Seq<char>>::empty() =~= part_views(r@));
                return r;
            },
        };
        assert((start as int, len as int) == next_directive(s, pos as int));
        let close: [char; 1] = ['}'];
        proof {
            assert(close@ =~= seq!['}']);
            if len == 7 {
                lemma_brace_after_directive(s, start as int, "\\input{"@);
            } else {
                lemma_brace_after_directive(s, start as int, "\\include{"@);
            }
            lemma_find_spec_bounds(s, seq!['}'], start as int);
        }
        let end = match find_first(content, close.as_slice(), start) {
            Some(e) => e,
            None => {
                assert(include_targets_from(s, pos as int) =~= Seq::<Seq<char>>::empty());
                assert(part_views(r@) + Seq::<Seq<char>>::empty() =~= part_views(r@));
                return r;
            },
        };
        let arg = sub_chars(content, start + len, end);
        let mut name = trimmed(arg.as_slice());
        if !ends_with(name.as_slice(), tex.as_slice()) {
            let mut k: usize = 0;
            let ghost head = name@;
            while k < tex.len()
                invariant
                    k <= tex@.len(),
                    name@ == head + tex@.take(k as int),
                decreases tex@.len() - k,
            {
                name.push(tex[k]);
                assert(head + tex@.take(k + 1) =~= (head + tex@.take(k as int)).push(tex@[k as int]));
                k += 1;
            }
            assert(tex@.take(tex@.len() as int) =~= tex@);
        }
        assert(name@ == include_name(s.subrange(start + len, end as int)));
        let ghost before = part_views(r@);
        r.push(name);
        assert(part_views(r@) =~= before.push(include_name(s.subrange(start + len, end as int))));
        assert(include_targets_from(s, pos as int) == seq![include_name(s.subrange(start + len, end as int))]
            + include_targets_from(s, end + 1));
        assert(before + include_targets_from(s, pos as int) =~= before.push(include_name(s.subrange(
            start + len,
            end as int,
        ))) + include_targets_from(s, end + 1));
        let n: usize = content.len();
        assert(end < n);
        pos = end + 1;
    }
}

/// `p` joined onto `base` as `Path::join` does: an absolute `p` replaces the base.
pub open spec fn path_join(base: Seq<char>, p: Seq<char>) -> Seq<char> {
    if is_absolute(p) {
        p
    } else {
        join(base, p)
    }
}

/// Two paths name the same place in the sense of `Path`'s `==`: both absolute
/// or both relative, with the same components.
pub open spec fn same_path(a: Seq<char>, b: Seq<char>) -> bool {
    is_absolute(a) == is_absolute(b) && components(a) == components(b)
}

/// Whether `a` and `b` are the same path (see [`same_path`]).
pub fn same_path_exec(a: &[char], b: &[char]) -> (r: bool)
    ensures
        r == same_path(a@, b@),
{
    let abs_a = a.len() > 0 && a[0] == '/';
    let abs_b = b.len() > 0 && b[0] == '/';
    if abs_a != abs_b {
        return false;
    }
    let ca = path_components(a);
    let cb = path_components(b);
    if ca.len() != cb.len() {
        assert(part_views(ca@).len() != part_views(cb@).len());
        return false;
    }
    let mut i: usize = 0;
    while i < ca.len()
        invariant
            i <= ca@.len() == cb@.len(),
            part_views(ca@) == components(a@),
            part_views(cb@) == components(b@),
            forall|k: int| 0 <= k < i ==> ca@[k]@ == cb@[k]@,
        decreases ca@.len() - i,
    {
        if !chars_eq(ca[i].as_slice(), cb[i].as_slice()) {
            assert(part_views(ca@)[i as int] != part_views(cb@)[i as int]);
            return false;
        }
        i += 1;
    }
    assert(part_views(ca@) =~= part_views(cb@));
    true
}

/// Joins `p` onto `base` (see [`path_join`]).
pub fn path_join_exec(base: &[char], p: &[char]) -> (r: Vec<char>)
    ensures
        r@ == path_join(base@, p@),
{
    if p.len() > 0 && p[0] == '/' {
        sub_chars(p, 0, p.len())
    } else {
        join_path(base, p)
    }
}

/// Whether a path the same as `p` was read already.
pub open spec fn was_seen(seen: Seq<Seq<char>>, p: Seq<char>) -> bool {
    exists|k: int| 0 <= k < seen.len() && same_path(#[trigger] seen[k], p)
}

/// The position of the file read next: the topmost pending file not read yet,
/// or -1 where every pending file was read.
pub open spec fn next_unseen(pending: Seq<Seq<char>>, seen: Seq<Seq<char>>) -> int
    decreases pending.len(),
{
    if pending.len() == 0 {
        -1
    } else if was_seen(seen, pending.last()) {
        next_unseen(pending.drop_last(), seen)
    } else {
        pending.len() - 1
    }
}

/// The state of a word count over a document and its includes: files still to
/// read (the last one first), files already read, and the words counted.
pub struct WordWalk {
    base: Vec<char>,
    stack: Vec<Vec<char>>,
    visited: Vec<Vec<char>>,
    total: u32,
}

impl WordWalk {
    /// The project directory that include paths are joined onto.
    pub closed spec fn base_view(&self) -> Seq<char> {
        self.base@
    }

    /// Files still to read, the one read next last.
    pub closed spec fn pending(&self) -> Seq<Seq<char>> {
        part_views(self.stack@)
    }

    /// Files already read.
    pub closed spec fn seen(&self) -> Seq<Seq<char>> {
        part_views(self.visited@)
    }

    /// Words counted so far, modulo 2^32.
    pub closed spec fn counted(&self) -> u32 {
        self.total
    }

    /// Starts a count at `entrypoint` inside `proj_dir`.
    pub fn new(proj_dir: &str, entrypoint: &str) -> (w: WordWalk)
        ensures
            w.base_view() == proj_dir@,
            w.pending() == seq![path_join(proj_dir@, entrypoint@)],
            w.seen() == Seq::<Seq<char>>::empty(),
            w.counted() == 0,
    {
        let base = chars_of(proj_dir);
        let first = path_join_exec(base.as_slice(), chars_of(entrypoint).as_slice());
        let mut stack: Vec<Vec<char>> = Vec::new();
        stack.push(first);
        let w = WordWalk { base, stack, visited: Vec::new(), total: 0 };
        assert(w.pending() =~= seq![path_join(proj_dir@, entrypoint@)]);
        assert(w.seen() =~= Seq::<Seq<char>>::empty());
        w
    }

    /// Whether `p` was read already.
    fn was_visited(&self, p: &[char]) -> (r: bool)
        ensures
            r == exists|k: int| 0 <= k < self.seen().len() && same_path(#[trigger] self.seen()[k], p@),
    {
        let mut k: usize = 0;
        while k < self.visited.len()
            invariant
                k <= self.visited@.len(),
                forall|j: int| 0 <= j < k ==> !same_path(#[trigger] self.seen()[j], p@),
            decreases self.visited@.len() - k,
        {
            if same_path_exec(self.visited[k].as_slice(), p) {
                assert(self.seen()[k as int] == self.visited@[k as int]@);
                return true;
            }
            assert(self.seen()[k as int] == self.visited@[k as int]@);
            k += 1;
        }
        false
    }

    /// The next file to read: pending files are taken from the top, those
    /// already read are dropped, and the one returned is marked as read.
    /// `None` once nothing is pending.
    pub fn next_path(&mut self) -> (r: Option<String>)
        ensures
            final(self).base_view() == old(self).base_view(),
            final(self).counted() == old(self).counted(),
            ({
                let k = next_unseen(old(self).pending(), old(self).seen());
                if k < 0 {
                    &&& r is None
                    &&& final(self).pending() == Seq::<Seq<char>>::empty()
                    &&& final(self).seen() == old(self).seen()
                } else {
                    &&& r matches Some(p) && p@ == old(self).pending()[k]
                    &&& final(self).pending() == old(self).pending().take(k)
                    &&& final(self).seen() == old(self).seen().push(old(self).pending()[k])
                }
            }),
    {
        let ghost pend0 = self.pending();
        let ghost seen0 = self.seen();
        proof {
            assert(pend0.take(pend0.len() as int) =~= pend0);
        }
        loop
            invariant
                self.base@ == old(self).base@,
                self.total == old(self).total,
                self.visited@ == old(self).visited@,
                pend0 == old(self).pending(),
                seen0 == old(self).seen(),
                self.seen() == seen0,
                self.stack@.len() <= pend0.len(),
                self.pending() == pend0.take(self.stack@.len() as int),
                next_unseen(pend0, seen0) == next_unseen(self.pending(), seen0),
            decreases self.stack@.len(),
        {
            let ghost before = self.pending();
            let n = self.stack.len();
            match self.stack.pop() {
                None => {
                    assert(self.pending() =~= Seq::<Seq<char>>::empty());
                    return None;
                },
                Some(p) => {
                    proof {
                        assert(before.last() == p@);
                        assert(self.pending() =~= before.drop_last());
                        assert(pend0.take(n - 1) =~= before.drop_last());
                    }
                    if !self.was_visited(p.as_slice()) {
                        proof {
                            assert(!was_seen(seen0, before.last()));
                            assert(next_unseen(before, seen0) == n - 1);
                            assert(pend0[n - 1] == p@);
                        }
                        let s = string_of(p.as_slice());
                        self.visited.push(p);
                        assert(self.seen() =~= seen0.push(s@));
                        return Some(s);
                    }
                    proof {
                        assert(was_seen(seen0, before.last()));
                    }
                },
            }
        }
    }

    /// Takes the content of the file last returned by [`next_path`](Self::next_path):
    /// adds its words (wrapping past `u32::MAX`) and queues the files it includes.
    pub fn visit(&mut self, content: &str)
        ensures
            final(self).base_view() == old(self).base_view(),
            final(self).seen() == old(self).seen(),
            final(self).counted() == (old(self).counted() + (if word_count(content@) <= u32::MAX {
                word_count(content@)
            } else {
                u32::MAX as nat
            })) % 0x1_0000_0000,
            final(self).pending() == old(self).pending() + include_targets(content@).map_values(
                |t: Seq<char>| path_join(old(self).base_view(), t),
            ),
    {
        let cs = chars_of(content);
        let words = count_words(cs.as_slice());
        self.total = self.total.wrapping_add(words);
        let targets = include_targets_of(cs.as_slice());
        let ghost start = part_views(self.stack@);
        let ghost ts = include_targets(content@);
        let mut i: usize = 0;
        while i < targets.len()
            invariant
                i <= targets@.len() == ts.len(),
                part_views(targets@) == ts,
                self.base@ == old(self).base@,
                self.visited@ == old(self).visited@,
                self.total == old(self).total.wrapping_add(words),
                part_views(self.stack@) == start + ts.take(i as int).map_values(
                    |t: Seq<char>| path_join(old(self).base@, t),
                ),
            decreases targets@.len() - i,
        {
            let joined = path_join_exec(self.base.as_slice(), targets[i].as_slice());
            assert(targets@[i as int]@ == ts[i as int]);
            let ghost prev = part_views(self.stack@);
            self.stack.push(joined);
            assert(part_views(self.stack@) =~= prev.push(path_join(old(self).base@, ts[i as int])));
            assert(ts.take(i + 1).map_values(|t: Seq<char>| path_join(old(self).base@, t))
                =~= ts.take(i as int).map_values(|t: Seq<char>| path_join(old(self).base@, t)).push(
                path_join(old(self).base@, ts[i as int]),
            ));
            i += 1;
        }
        assert(ts.take(ts.len() as int) =~= ts);
    }

    /// The words counted so far.
    pub fn total(&self) -> (r: u32)
        ensures
            r == self.counted(),
    {
        self.total
    }
}

} // verus!
