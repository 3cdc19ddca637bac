//! A model of the `std::path` operations that the sandbox checks rely on, for
//! `/`-separated paths held as strings.
//!
//! A path's components are its `/`-separated pieces with empty pieces
//! (repeated or trailing separators) and `.` pieces left out; a path that
//! starts with `/` is absolute. For paths without a leading `.` component, as
//! `Path::canonicalize` returns them, this is how `Path::components` sees them.

use vstd::prelude::*;
use crate::text::{
    chars_eq, chars_of, lemma_split_nonempty, split, split_char, sub_chars,
};

verus! {

/// The pieces of `parts` that are components: neither empty nor `.`.
pub open spec fn keep_components(parts: Seq<Seq<char>>) -> Seq<Seq<char>>
    decreases parts.len(),
{
    if parts.len() == 0 {
        Seq::empty()
    } else {
        let rest = keep_components(parts.drop_last());
        let p = parts.last();
        if p.len() == 0 || p == "."@ {
            rest
        } else {
            rest.push(p)
        }
    }
}

/// The components of a path.
pub open spec fn components(s: Seq<char>) -> Seq<Seq<char>> {
    keep_components(split(s, '/'))
}

/// The path is absolute.
pub open spec fn is_absolute(s: Seq<char>) -> bool {
    s.len() > 0 && s[0] == '/'
}

/// `p` lies at or below `base` (`Path::starts_with`): both absolute or both
/// relative, and the components of `base` begin the components of `p`.
pub open spec fn path_within(p: Seq<char>, base: Seq<char>) -> bool {
    &&& is_absolute(p) == is_absolute(base)
    &&& components(base).len() <= components(p).len()
    &&& components(p).subrange(0, components(base).len() as int) == components(base)
}

/// The final component of a path (`Path::file_name`): none for a path without
/// components or ending in `..`.
pub open spec fn file_name(s: Seq<char>) -> Option<Seq<char>> {
    let c = components(s);
    if c.len() == 0 || c.last() == ".."@ {
        None
    } else {
        Some(c.last())
    }
}

/// Index of the last occurrence of `c` in `s`, or -1.
pub open spec fn last_index_of(s: Seq<char>, c: char) -> int
    decreases s.len(),
{
    if s.len() == 0 {
        -1
    } else if s.last() == c {
        s.len() - 1
    } else {
        last_index_of(s.drop_last(), c)
    }
}

/// The extension of a file name (`Path::extension`): what follows its last
/// `.`, where that dot is not its first character.
pub open spec fn name_extension(name: Seq<char>) -> Option<Seq<char>> {
    let i = last_index_of(name, '.');
    if name == ".."@ || i <= 0 {
        None
    } else {
        Some(name.subrange(i + 1, name.len() as int))
    }
}

/// The extension of a path's file name.
pub open spec fn path_extension(s: Seq<char>) -> Option<Seq<char>> {
    match file_name(s) {
        Some(n) => name_extension(n),
        None => None,
    }
}

/// `rel` appended to `base` with one separator (`Path::join` of a relative path).
pub open spec fn join(base: Seq<char>, rel: Seq<char>) -> Seq<char> {
    if base.len() > 0 && base.last() == '/' {
        base + rel
    } else {
        base + seq!['/'] + rel
    }
}

/// Splitting at a separator that joins two strings gives the pieces of each.
pub proof fn lemma_split_concat(a: Seq<char>, b: Seq<char>, sep: char)
    ensures
        split(a + seq![sep] + b, sep) == split(a, sep) + split(b, sep),
    decreases b.len(),
{
    let ab = a + seq![sep] + b;
    if b.len() == 0 {
        assert(ab =~= a.push(sep));
        assert(a.push(sep).drop_last() =~= a);
        assert(split(a, sep) + split(b, sep) =~= split(a, sep).push(Seq::<char>::empty()));
    } else {
        let b0 = b.drop_last();
        lemma_split_concat(a, b0, sep);
        lemma_split_nonempty(b0, sep);
        assert(ab.drop_last() =~= a + seq![sep] + b0);
        assert(ab.last() == b.last());
        let left = split(a, sep);
        let right = split(b0, sep);
        if b.last() == sep {
            assert(split(ab, sep) =~= (left + right).push(Seq::<char>::empty()));
            assert((left + right).push(Seq::<char>::empty()) =~= left + right.push(
                Seq::<char>::empty(),
            ));
        } else {
            let whole = left + right;
            assert(whole.last() == right.last());
            assert(whole.update(whole.len() - 1, whole.last().push(b.last())) =~= left
                + right.update(right.len() - 1, right.last().push(b.last())));
        }
    }
}

/// Keeping the components of two piece lists one after the other.
pub proof fn lemma_keep_concat(x: Seq<Seq<char>>, y: Seq<Seq<char>>)
    ensures
        keep_components(x + y) == keep_components(x) + keep_components(y),
    decreases y.len(),
{
    if y.len() == 0 {
        assert(x + y =~= x);
        assert(keep_components(x) + keep_components(y) =~= keep_components(x));
    } else {
        let y0 = y.drop_last();
        lemma_keep_concat(x, y0);
        assert((x + y).drop_last() =~= x + y0);
        assert((x + y).last() == y.last());
        let p = y.last();
        if !(p.len() == 0 || p == "."@) {
            assert(keep_components(x) + keep_components(y0).push(p) =~= (keep_components(x)
                + keep_components(y0)).push(p));
        }
    }
}

/// The components of `join(base, rel)` are those of `base` followed by those
/// of `rel`.
pub proof fn lemma_join_components(base: Seq<char>, rel: Seq<char>)
    ensures
        components(join(base, rel)) == components(base) + components(rel),
{
    if base.len() > 0 && base.last() == '/' {
        let b0 = base.drop_last();
        assert(base =~= b0 + seq!['/'] + Seq::<char>::empty());
        assert(join(base, rel) =~= b0 + seq!['/'] + rel);
        lemma_split_concat(b0, rel, '/');
        lemma_split_concat(b0, Seq::<char>::empty(), '/');
        lemma_keep_concat(split(b0, '/'), split(rel, '/'));
        lemma_keep_concat(split(b0, '/'), split(Seq::<char>::empty(), '/'));
        let e = split(Seq::<char>::empty(), '/');
        assert(e =~= seq![Seq::<char>::empty()]);
        assert(e.drop_last() =~= Seq::<Seq<char>>::empty());
        assert(keep_components(e.drop_last()) =~= Seq::<Seq<char>>::empty());
        assert(e.last().len() == 0);
        assert(keep_components(e) =~= Seq::<Seq<char>>::empty());
        assert(components(base) =~= keep_components(split(b0, '/')));
    } else {
        lemma_split_concat(base, rel, '/');
        lemma_keep_concat(split(base, '/'), split(rel, '/'));
    }
}

/// A relative path joined onto a non-empty base lies within that base.
pub proof fn lemma_join_within(base: Seq<char>, rel: Seq<char>)
    requires
        base.len() > 0,
    ensures
        path_within(join(base, rel), base),
{
    lemma_join_components(base, rel);
    let j = join(base, rel);
    assert(j[0] == base[0]);
    let cb = components(base);
    assert((cb + components(rel)).subrange(0, cb.len() as int) =~= cb);
}

/// The character strings held by a vector of character vectors.
pub open spec fn part_views(s: Seq<Vec<char>>) -> Seq<Seq<char>> {
    s.map_values(|v: Vec<char>| v@)
}

/// The components of a path.
pub fn path_components(s: &[char]) -> (r: Vec<Vec<char>>)
    ensures
        part_views(r@) == components(s@),
{
    let parts = split_char(s, '/');
    let dot = chars_of(".");
    let mut r: Vec<Vec<char>> = Vec::new();
    let mut i: usize = 0;
    let ghost ps = split(s@, '/');
    assert(ps.take(0) =~= Seq::<Seq<char>>::empty());
    while i < parts.len()
        invariant
            i <= parts@.len() == ps.len(),
            ps == split(s@, '/'),
            dot@ == "."@,
            forall|k: int| 0 <= k < parts@.len() ==> #[trigger] parts@[k]@ == ps[k],
            part_views(r@) == keep_components(ps.take(i as int)),
        decreases parts@.len() - i,
    {
        let p = &parts[i];
        assert(ps.take(i + 1).drop_last() =~= ps.take(i as int));
        if p.len() > 0 && !chars_eq(p.as_slice(), dot.as_slice()) {
            let ghost before = part_views(r@);
            let mut copy: Vec<char> = Vec::new();
            let mut k: usize = 0;
            while k < p.len()
                invariant
                    k <= p@.len(),
                    copy@ == p@.take(k as int),
                decreases p@.len() - k,
            {
                copy.push(p[k]);
                k += 1;
            }
            assert(p@.take(p@.len() as int) =~= p@);
            r.push(copy);
            assert(part_views(r@) =~= before.push(ps[i as int]));
        }
        i += 1;
    }
    assert(ps.take(ps.len() as int) =~= ps);
    r
}

/// Whether `p` lies at or below `base` (see [`path_within`]).
pub fn path_starts_with(p: &[char], base: &[char]) -> (r: bool)
    ensures
        r == path_within(p@, base@),
{
    let abs_p = p.len() > 0 && p[0] == '/';
    let abs_b = base.len() > 0 && base[0] == '/';
    if abs_p != abs_b {
        return false;
    }
    let cp = path_components(p);
    let cb = path_components(base);
    if cb.len() > cp.len() {
        return false;
    }
    let mut i: usize = 0;
    while i < cb.len()
        invariant
            i <= cb@.len() <= cp@.len(),
            part_views(cp@) == components(p@),
            part_views(cb@) == components(base@),
            is_absolute(p@) == is_absolute(base@),
            forall|k: int| 0 <= k < i ==> cp@[k]@ == cb@[k]@,
        decreases cb@.len() - i,
    {
        if !chars_eq(cp[i].as_slice(), cb[i].as_slice()) {
            assert(part_views(cp@).subrange(0, cb@.len() as int)[i as int] == cp@[i as int]@);
            assert(part_views(cb@)[i as int] == cb@[i as int]@);
            assert(part_views(cp@).subrange(0, cb@.len() as int) != part_views(cb@));
            return false;
        }
        i += 1;
    }
    assert(part_views(cp@).subrange(0, cb@.len() as int) =~= part_views(cb@));
    true
}

/// `rel` appended to `base` with one separator.
pub fn join_path(base: &[char], rel: &[char]) -> (r: Vec<char>)
    ensures
        r@ == join(base@, rel@),
{
    let mut r: Vec<char> = Vec::new();
    let mut i: usize = 0;
    while i < base.len()
        invariant
            i <= base@.len(),
            r@ == base@.take(i as int),
        decreases base@.len() - i,
    {
        r.push(base[i]);
        i += 1;
    }
    assert(base@.take(base@.len() as int) =~= base@);
    if !(base.len() > 0 && base[base.len() - 1] == '/') {
        r.push('/');
        assert(r@ =~= base@ + seq!['/']);
    }
    let ghost head = r@;
    let mut k: usize = 0;
    while k < rel.len()
        invariant
            k <= rel@.len(),
            r@ == head + rel@.take(k as int),
        decreases rel@.len() - k,
    {
        r.push(rel[k]);
        assert(head + rel@.take(k + 1) =~= (head + rel@.take(k as int)).push(rel@[k as int]));
        k += 1;
    }
    assert(rel@.take(rel@.len() as int) =~= rel@);
    r
}

/// Index of the last occurrence of `c` in `s`, or `None`.
pub fn last_index(s: &[char], c: char) -> (r: Option<usize>)
    ensures
        match r {
            Some(i) => i as int == last_index_of(s@, c) && (i as int) < s@.len(),
            None => last_index_of(s@, c) == -1,
        },
{
    let mut j = s.len();
    assert(s@.take(j as int) =~= s@);
    while j > 0
        invariant
            j <= s@.len(),
            last_index_of(s@, c) == last_index_of(s@.take(j as int), c),
        decreases j,
    {
        assert(s@.take(j as int).drop_last() =~= s@.take(j - 1));
        if s[j - 1] == c {
            return Some(j - 1);
        }
        j -= 1;
    }
    None
}

/// The extension of the file name of `s`, if it has one.
pub fn extension_of(s: &[char]) -> (r: Option<Vec<char>>)
    ensures
        match path_extension(s@) {
            Some(e) => r matches Some(v) && v@ == e,
            None => r is None,
        },
{
    let comps = path_components(s);
    if comps.len() == 0 {
        return None;
    }
    let name = &comps[comps.len() - 1];
    let dotdot = chars_of("..");
    assert(part_views(comps@).last() == name@);
    if chars_eq(name.as_slice(), dotdot.as_slice()) {
        return None;
    }
    match last_index(name.as_slice(), '.') {
        Some(i) => {
            if i == 0 {
                None
            } else {
                let n: usize = name.len();
                assert(i < n);
                let mut e: Vec<char> = Vec::new();
                let mut k: usize = i + 1;
                while k < name.len()
                    invariant
                        i + 1 <= k <= name@.len(),
                        e@ == name@.subrange(i + 1, k as int),
                    decreases name@.len() - k,
                {
                    e.push(name[k]);
                    k += 1;
                }
                Some(e)
            }
        },
        None => None,
    }
}

/// Holds where `c` is a canonical form that `Path::canonicalize` gave for `p`.
/// It is a relation, not a function: what the call gives depends on the file
/// system at the time, so a path may have had several canonical forms.
pub uninterp spec fn canonical_of(p: Seq<char>, c: Seq<char>) -> bool;

/// `Path::canonicalize`, then `Path::to_str`: the canonical, absolute form of
/// `path` with symbolic links resolved, or `None` where the path does not exist
/// or its canonical form is not valid UTF-8. What it returns depends on the
/// file system; the contract ties the result to the path it was given, and
/// states that it is not empty (an absolute path never is, on any platform).
/// Which absolute form it takes (a leading `/`, or a Windows prefix) is left
/// unsaid.
#[verifier::external_body]
pub(crate) fn canonicalize(path: &str) -> (r: Option<String>)
    ensures
        r matches Some(c) ==> canonical_of(path@, c@) && c@.len() > 0,
{
    std::path::Path::new(path).canonicalize().ok().and_then(|p| p.to_str().map(|s| s.to_string()))
}

/// The directory part of `s`: what precedes its last `/` (`/` itself where
/// that is the first character), or the empty path where it has none.
pub open spec fn parent_path(s: Seq<char>) -> Seq<char> {
    let i = last_index_of(s, '/');
    if i < 0 {
        Seq::empty()
    } else if i == 0 {
        seq!['/']
    } else {
        s.subrange(0, i)
    }
}

/// The directory part of `s` (see [`parent_path`]).
pub fn parent_of(s: &[char]) -> (r: Vec<char>)
    ensures
        r@ == parent_path(s@),
{
    match last_index(s, '/') {
        None => Vec::new(),
        Some(i) => {
            if i == 0 {
                let mut r: Vec<char> = Vec::new();
                r.push('/');
                assert(r@ =~= seq!['/']);
                r
            } else {
                sub_chars(s, 0, i)
            }
        },
    }
}

/// The components of `p` after those of `base`, joined with `/`, where `p`
/// lies within `base` (`Path::strip_prefix`); `None` otherwise.
pub open spec fn strip_prefix_spec(p: Seq<char>, base: Seq<char>) -> Option<Seq<char>> {
    if path_within(p, base) {
        Some(joined_components(components(p).skip(components(base).len() as int)))
    } else {
        None
    }
}

/// Components joined with `/` between them.
pub open spec fn joined_components(cs: Seq<Seq<char>>) -> Seq<char>
    decreases cs.len(),
{
    if cs.len() == 0 {
        Seq::empty()
    } else if cs.len() == 1 {
        cs[0]
    } else {
        joined_components(cs.drop_last()) + seq!['/'] + cs.last()
    }
}

/// The part of `p` below `base` (see [`strip_prefix_spec`]).
pub fn strip_path_prefix(p: &[char], base: &[char]) -> (r: Option<Vec<char>>)
    ensures
        match strip_prefix_spec(p@, base@) {
            Some(rest) => r matches Some(v) && v@ == rest,
            None => r is None,
        },
{
    if !path_starts_with(p, base) {
        return None;
    }
    let cp = path_components(p);
    let cb = path_components(base);
    let ghost rest = part_views(cp@).skip(cb@.len() as int);
    let mut out: Vec<char> = Vec::new();
    let mut k: usize = cb.len();
    assert(rest.take(0) =~= Seq::<Seq<char>>::empty());
    while k < cp.len()
        invariant
            cb@.len() <= k <= cp@.len(),
            rest == part_views(cp@).skip(cb@.len() as int),
            out@ == joined_components(rest.take(k - cb@.len())),
        decreases cp@.len() - k,
    {
        let ghost before = out@;
        let ghost t = rest.take(k + 1 - cb@.len());
        assert(t.drop_last() =~= rest.take(k - cb@.len()));
        assert(t.last() == cp@[k as int]@);
        if k > cb.len() {
            out.push('/');
        }
        let piece = cp[k].as_slice();
        let mut j: usize = 0;
        let ghost mid = out@;
        while j < piece.len()
            invariant
                j <= piece@.len(),
                out@ == mid + piece@.take(j as int),
            decreases piece@.len() - j,
        {
            out.push(piece[j]);
            assert(mid + piece@.take(j + 1) =~= (mid + piece@.take(j as int)).push(piece@[j as int]));
            j += 1;
        }
        assert(piece@.take(piece@.len() as int) =~= piece@);
        if k == cb.len() {
            assert(joined_components(rest.take(0)) =~= Seq::<char>::empty());
            assert(out@ =~= joined_components(t));
        } else {
            assert(out@ =~= joined_components(t));
        }
        k += 1;
    }
    assert(rest.take(cp@.len() - cb@.len()) =~= rest);
    Some(out)
}

} // verus!
