//! Validation of the names and paths that clients send, and the sandbox checks
//! that keep every file operation inside the configured root and project
//! directories.

use vstd::prelude::*;
use vstd::utf8::encode_utf8;
use crate::paths::{components, file_name, keep_components, last_index_of, lemma_join_components, canonicalize, canonical_of, extension_of, is_absolute, join, parent_path, join_path, lemma_join_within, parent_of, path_extension, path_within, path_starts_with};
use crate::text::hex_digit;
use crate::text::{ascii_lowercase, chars_eq, chars_of, contains, contains_char, ends_with, has_char, has_suffix, contains_seq, hex, hex_chars, alnum, alphanumeric, lower, split, split_char, string_of, sub_chars, opt_view, opt_str_view};

verus! {

/// Longest project name accepted, in bytes.
pub const MAX_PROJECT_NAME_LEN: usize = 256;

/// Largest project configuration file that is read, in bytes.
pub const MAX_CONFIG_SIZE: usize = 10000;

/// Longest entrypoint name accepted, in bytes.
pub const MAX_ENTRYPOINT_LEN: usize = 256;

/// A character allowed in a project name.
pub open spec fn project_name_char(c: char) -> bool {
    alphanumeric(c) || c == '_' || c == '-'
}

/// A valid project name: non-empty, at most [`MAX_PROJECT_NAME_LEN`] bytes in
/// UTF-8, and made of alphanumeric characters, `_` and `-`.
pub open spec fn valid_project_name(s: Seq<char>) -> bool {
    &&& s.len() > 0
    &&& encode_utf8(s).len() <= MAX_PROJECT_NAME_LEN
    &&& forall|i: int| 0 <= i < s.len() ==> project_name_char(#[trigger] s[i])
}

/// Whether `name` is a valid project name.
pub fn is_valid_project_name(name: &str) -> (r: bool)
    ensures
        r == valid_project_name(name@),
{
    if name.is_empty() || name.as_bytes().len() > MAX_PROJECT_NAME_LEN {
        return false;
    }
    let cs = chars_of(name);
    let mut i: usize = 0;
    while i < cs.len()
        invariant
            i <= cs@.len(),
            cs@ == name@,
            forall|k: int| 0 <= k < i ==> project_name_char(#[trigger] cs@[k]),
        decreases cs@.len() - i,
    {
        let c = cs[i];
        if !(alnum(c) || c == '_' || c == '-') {
            assert(!project_name_char(cs@[i as int]));
            return false;
        }
        i += 1;
    }
    true
}

/// A character allowed in an entrypoint file name.
pub open spec fn entrypoint_char(c: char) -> bool {
    alphanumeric(c) || c == '_' || c == '-' || c == '.'
}

/// A valid entrypoint: non-empty, at most [`MAX_ENTRYPOINT_LEN`] bytes, not
/// starting with `.`, made of alphanumeric characters, `_`, `-` and `.`, with
/// no `..`, and ending in `.tex`.
pub open spec fn valid_entrypoint(s: Seq<char>) -> bool {
    &&& s.len() > 0
    &&& encode_utf8(s).len() <= MAX_ENTRYPOINT_LEN
    &&& s[0] != '.'
    &&& forall|i: int| 0 <= i < s.len() ==> entrypoint_char(#[trigger] s[i])
    &&& !contains_seq(s, ".."@)
    &&& has_suffix(s, ".tex"@)
}

/// Whether `entrypoint` names a valid LaTeX entrypoint file.
pub fn is_valid_entrypoint(entrypoint: &str) -> (r: bool)
    ensures
        r == valid_entrypoint(entrypoint@),
{
    if entrypoint.is_empty() || entrypoint.as_bytes().len() > MAX_ENTRYPOINT_LEN {
        return false;
    }
    let cs = chars_of(entrypoint);
    if cs[0] == '.' {
        return false;
    }
    let mut i: usize = 0;
    while i < cs.len()
        invariant
            i <= cs@.len(),
            cs@ == entrypoint@,
            forall|k: int| 0 <= k < i ==> entrypoint_char(#[trigger] cs@[k]),
        decreases cs@.len() - i,
    {
        let c = cs[i];
        if !(alnum(c) || c == '_' || c == '-' || c == '.') {
            assert(!entrypoint_char(cs@[i as int]));
            return false;
        }
        i += 1;
    }
    let dots = chars_of("..");
    let tex = chars_of(".tex");
    !contains(cs.as_slice(), dots.as_slice()) && ends_with(cs.as_slice(), tex.as_slice())
}

/// File extensions that may be opened and edited, compared in ASCII lower case.
pub open spec fn editable_extension(e: Seq<char>) -> bool {
    let l = lower(e);
    ||| l == "tex"@
    ||| l == "toml"@
    ||| l == "bib"@
    ||| l == "sty"@
    ||| l == "cls"@
    ||| l == "tikz"@
    ||| l == "txt"@
    ||| l == "md"@
    ||| l == "svg"@
}

/// A `/`-separated piece that no editable path may hold: an empty piece
/// (covering `//` and a trailing `/`) or one that starts with `.` (covering
/// `.`, `..` and hidden files).
pub open spec fn forbidden_piece(p: Seq<char>) -> bool {
    p.len() == 0 || p[0] == '.'
}

/// A path that a client may open and edit inside a project: relative, with no
/// `:` or `\\`, no empty, dot or hidden piece, and an editable extension.
pub open spec fn editable_path(p: Seq<char>) -> bool {
    &&& p.len() > 0
    &&& p[0] != '/'
    &&& p[0] != '.'
    &&& !has_char(p, ':')
    &&& !has_char(p, '\\')
    &&& forall|k: int| 0 <= k < split(p, '/').len() ==> !forbidden_piece(#[trigger] split(p, '/')[k])
    &&& match path_extension(p) {
        Some(e) => editable_extension(e),
        None => false,
    }
}

/// Whether the extension `e` is one of the editable ones.
fn is_editable_extension(e: &[char]) -> (r: bool)
    ensures
        r == editable_extension(e@),
{
    let l = ascii_lowercase(e);
    let s = l.as_slice();
    chars_eq(s, chars_of("tex").as_slice()) || chars_eq(s, chars_of("toml").as_slice())
        || chars_eq(s, chars_of("bib").as_slice()) || chars_eq(s, chars_of("sty").as_slice())
        || chars_eq(s, chars_of("cls").as_slice()) || chars_eq(s, chars_of("tikz").as_slice())
        || chars_eq(s, chars_of("txt").as_slice()) || chars_eq(s, chars_of("md").as_slice())
        || chars_eq(s, chars_of("svg").as_slice())
}

/// Whether `path` may be opened and edited inside a project.
pub fn is_editable_project_file(path: &str) -> (r: bool)
    ensures
        r == editable_path(path@),
{
    let cs = chars_of(path);
    if cs.len() == 0 || cs[0] == '/' || cs[0] == '.' || contains_char(cs.as_slice(), ':')
        || contains_char(cs.as_slice(), '\\') {
        return false;
    }
    let pieces = split_char(cs.as_slice(), '/');
    let mut i: usize = 0;
    while i < pieces.len()
        invariant
            i <= pieces@.len() == split(cs@, '/').len(),
            cs@ == path@,
            forall|k: int| 0 <= k < pieces@.len() ==> #[trigger] pieces@[k]@ == split(cs@, '/')[k],
            forall|k: int| 0 <= k < i ==> !forbidden_piece(#[trigger] split(cs@, '/')[k]),
        decreases pieces@.len() - i,
    {
        let p = &pieces[i];
        assert(p@ == split(cs@, '/')[i as int]);
        if p.len() == 0 || p[0] == '.' {
            return false;
        }
        i += 1;
    }
    match extension_of(cs.as_slice()) {
        Some(e) => is_editable_extension(e.as_slice()),
        None => false,
    }
}

/// `o` is what resolving `p` on disk gave: `None` where it did not resolve, or
/// a canonical form of `p`.
pub open spec fn resolved_as(p: Seq<char>, o: Option<Seq<char>>) -> bool {
    o matches Some(c) ==> canonical_of(p, c) && c.len() > 0
}

/// What [`safe_project_file`] answers for a relative path, given the canonical
/// project directory and the canonical directory of the requested file: the
/// joined path where the path is editable and its directory lies within the
/// project directory.
pub open spec fn project_file_choice(
    rel: Seq<char>,
    root: Option<Seq<char>>,
    parent: Option<Seq<char>>,
) -> Option<Seq<char>> {
    if !editable_path(rel) {
        None
    } else {
        match (root, parent) {
            (Some(r), Some(pc)) => if path_within(pc, r) {
                Some(join(r, rel))
            } else {
                None
            },
            _ => None,
        }
    }
}

/// The decision of [`safe_project_file`] once the two canonical paths are known:
/// `root_canon` is the canonical project directory and `parent_canon` the
/// canonical directory of the requested file (`None` where either could not be
/// resolved).
pub fn confine_project_file(
    relative_path: &str,
    root_canon: Option<&str>,
    parent_canon: Option<&str>,
) -> (r: Option<String>)
    ensures
        opt_view(r) == project_file_choice(relative_path@, opt_str_view(root_canon), opt_str_view(parent_canon)),
        r is Some && root_canon is Some && root_canon.unwrap()@.len() > 0 ==> path_within(
            r.unwrap()@,
            root_canon.unwrap()@,
        ),
{
    if !is_editable_project_file(relative_path) {
        return None;
    }
    match (root_canon, parent_canon) {
        (Some(root), Some(parent)) => {
            let rc = chars_of(root);
            let pc = chars_of(parent);
            if path_starts_with(pc.as_slice(), rc.as_slice()) {
                let rel = chars_of(relative_path);
                let candidate = join_path(rc.as_slice(), rel.as_slice());
                proof {
                    if rc@.len() > 0 {
                        lemma_join_within(rc@, rel@);
                    }
                }
                Some(string_of(candidate.as_slice()))
            } else {
                None
            }
        },
        _ => None,
    }
}

/// `o` is what [`safe_project_file`] may answer for `rel` in `project_dir`:
/// the decision of [`project_file_choice`] on the project directory as it
/// resolved on disk and on the directory of the requested file as it resolved.
pub open spec fn project_file_resolution(project_dir: Seq<char>, rel: Seq<char>, o: Option<Seq<char>>) -> bool {
    exists|rc: Option<Seq<char>>, pc: Option<Seq<char>>|
        #![trigger project_file_choice(rel, rc, pc)]
        resolved_as(project_dir, rc) && (rc matches Some(x) ==> resolved_as(parent_path(join(x, rel)), pc))
            && o == project_file_choice(rel, rc, pc)
}

/// Resolves a file of a project: `Some` path inside `project_dir` where
/// `relative_path` is editable and the file's directory, resolved on disk,
/// lies within the resolved project directory.
///
/// Which paths exist, and where symbolic links lead, is read from the file
/// system: the contract states what holds of every answer, which is the
/// decision of [`project_file_choice`] on the paths as they were resolved.
pub fn safe_project_file(project_dir: &str, relative_path: &str) -> (r: Option<String>)
    ensures
        !editable_path(relative_path@) ==> r is None,
        r matches Some(c) ==> exists|root: Seq<char>|
            #![trigger join(root, relative_path@)]
            canonical_of(project_dir@, root) && c@ == join(root, relative_path@) && path_within(
                c@,
                root,
            ),
        project_file_resolution(project_dir@, relative_path@, opt_view(r)),
{
    let ghost none: Option<Seq<char>> = None;
    if !is_editable_project_file(relative_path) {
        assert(project_file_choice(relative_path@, none, none) is None);
        return None;
    }
    let root = match canonicalize(project_dir) {
        Some(root) => root,
        None => {
            assert(project_file_choice(relative_path@, none, none) is None);
            return None;
        },
    };
    let rc = chars_of(root.as_str());
    let rel = chars_of(relative_path);
    let candidate = join_path(rc.as_slice(), rel.as_slice());
    let parent = parent_of(candidate.as_slice());
    let parent_canon = canonicalize(string_of(parent.as_slice()).as_str());
    let ghost mut pcv: Option<Seq<char>> = None;
    let r = match parent_canon {
        Some(pc) => {
            proof {
                pcv = Some(pc@);
            }
            confine_project_file(relative_path, Some(root.as_str()), Some(pc.as_str()))
        },
        None => confine_project_file(relative_path, Some(root.as_str()), None),
    };
    proof {
        if r is Some {
            assert(join(root@, relative_path@) == r.unwrap()@);
        }
        assert(resolved_as(project_dir@, Some(root@)));
        assert(resolved_as(parent_path(join(root@, relative_path@)), pcv));
        assert(opt_view(r) == project_file_choice(relative_path@, Some(root@), pcv));
    }
    r
}

/// What [`safe_path`] answers for a project name, given the canonical root,
/// the canonical form of the project directory, and that of its parent.
pub open spec fn project_dir_choice(
    name: Seq<char>,
    root: Option<Seq<char>>,
    candidate: Option<Seq<char>>,
    parent: Option<Seq<char>>,
) -> Option<Seq<char>> {
    if !valid_project_name(name) {
        None
    } else {
        match root {
            None => None,
            Some(r) => match candidate {
                Some(c) => if path_within(c, r) {
                    Some(c)
                } else {
                    None
                },
                None => match parent {
                    Some(pc) => if pc == r || path_within(pc, r) {
                        Some(join(r, name))
                    } else {
                        None
                    },
                    None => None,
                },
            },
        }
    }
}

/// The decision of [`safe_path`] once the canonical paths are known:
/// `root_canon` is the canonical root, `candidate_canon` the canonical project
/// directory (`None` where it does not exist yet) and `parent_canon` the
/// canonical directory that would hold it.
pub fn confine_project_dir(
    name: &str,
    root_canon: Option<&str>,
    candidate_canon: Option<&str>,
    parent_canon: Option<&str>,
) -> (r: Option<String>)
    ensures
        opt_view(r) == project_dir_choice(
            name@,
            opt_str_view(root_canon),
            opt_str_view(candidate_canon),
            opt_str_view(parent_canon),
        ),
        r is Some && root_canon is Some && root_canon.unwrap()@.len() > 0 ==> path_within(
            r.unwrap()@,
            root_canon.unwrap()@,
        ),
{
    if !is_valid_project_name(name) {
        return None;
    }
    let root = match root_canon {
        Some(root) => root,
        None => return None,
    };
    let rc = chars_of(root);
    match candidate_canon {
        Some(c) => {
            let cc = chars_of(c);
            if path_starts_with(cc.as_slice(), rc.as_slice()) {
                Some(string_of(cc.as_slice()))
            } else {
                None
            }
        },
        None => match parent_canon {
            Some(p) => {
                let pc = chars_of(p);
                if chars_eq(pc.as_slice(), rc.as_slice()) || path_starts_with(pc.as_slice(), rc.as_slice()) {
                    let nc = chars_of(name);
                    let joined = join_path(rc.as_slice(), nc.as_slice());
                    proof {
                        if rc@.len() > 0 {
                            lemma_join_within(rc@, nc@);
                        }
                    }
                    Some(string_of(joined.as_slice()))
                } else {
                    None
                }
            },
            None => None,
        },
    }
}

/// Resolves a project directory under `root`: `Some` path within the resolved
/// root where `name` is a valid project name and the directory, or, where it
/// does not exist yet, the directory that would hold it, resolves inside the
/// root.
///
/// Which paths exist is read from the file system: the contract states what
/// holds of every answer, which is the decision of [`project_dir_choice`] on
/// the paths as they were resolved.
pub fn safe_path(root: &str, name: &str) -> (r: Option<String>)
    ensures
        !valid_project_name(name@) ==> r is None,
        r matches Some(p) ==> exists|rc: Seq<char>|
            #![trigger path_within(p@, rc)]
            canonical_of(root@, rc) && path_within(p@, rc),
        exists|rc: Option<Seq<char>>, cc: Option<Seq<char>>, pc: Option<Seq<char>>|
            #![trigger project_dir_choice(name@, rc, cc, pc)]
            resolved_as(root@, rc) && (rc matches Some(x) ==> resolved_as(join(x, name@), cc)
                && resolved_as(parent_path(join(x, name@)), pc)) && opt_view(r)
                == project_dir_choice(name@, rc, cc, pc),
{
    let ghost none: Option<Seq<char>> = None;
    if !is_valid_project_name(name) {
        assert(project_dir_choice(name@, none, none, none) is None);
        return None;
    }
    let root_canon = match canonicalize(root) {
        Some(rc) => rc,
        None => {
            assert(project_dir_choice(name@, none, none, none) is None);
            return None;
        },
    };
    let rc = chars_of(root_canon.as_str());
    let nc = chars_of(name);
    let candidate = join_path(rc.as_slice(), nc.as_slice());
    let candidate_str = string_of(candidate.as_slice());
    let ghost mut cc: Option<Seq<char>> = None;
    let ghost mut pc: Option<Seq<char>> = None;
    let r = match canonicalize(candidate_str.as_str()) {
        Some(c) => {
            proof {
                cc = Some(c@);
            }
            confine_project_dir(name, Some(root_canon.as_str()), Some(c.as_str()), None)
        },
        None => {
            let parent = parent_of(candidate.as_slice());
            match canonicalize(string_of(parent.as_slice()).as_str()) {
                Some(p) => {
                    proof {
                        pc = Some(p@);
                    }
                    confine_project_dir(name, Some(root_canon.as_str()), None, Some(p.as_str()))
                },
                None => confine_project_dir(name, Some(root_canon.as_str()), None, None),
            }
        },
    };
    proof {
        if r is Some {
            assert(path_within(r.unwrap()@, root_canon@));
        }
        assert(resolved_as(root@, Some(root_canon@)));
        assert(resolved_as(join(root_canon@, name@), cc));
        assert(resolved_as(parent_path(join(root_canon@, name@)), pc));
        assert(opt_view(r) == project_dir_choice(name@, Some(root_canon@), cc, pc));
    }
    r
}

/// `s` brought to exactly `len` characters: its last `len` characters where
/// it is longer, `0`s put in front where it is shorter.
pub open spec fn fixed_width(s: Seq<char>, len: nat) -> Seq<char> {
    if s.len() >= len {
        s.subrange(s.len() - len, s.len() as int)
    } else {
        Seq::new((len - s.len()) as nat, |i: int| '0') + s
    }
}

/// A lower-case hexadecimal digit.
pub open spec fn is_hex_char(c: char) -> bool {
    ('0' <= c <= '9') || ('a' <= c <= 'f')
}

/// Every character of a hexadecimal form is a lower-case hexadecimal digit.
proof fn lemma_hex_chars(n: nat)
    ensures
        forall|i: int| 0 <= i < hex(n).len() ==> is_hex_char(#[trigger] hex(n)[i]),
    decreases n,
{
    if n < 16 {
        lemma_hex_digit(n);
    } else {
        lemma_hex_chars(n / 16);
        lemma_hex_digit(n % 16);
        let h = hex(n / 16);
        assert forall|i: int| 0 <= i < hex(n).len() implies is_hex_char(#[trigger] hex(n)[i]) by {
            if i < h.len() {
                assert(hex(n)[i] == h[i]);
            }
        }
    }
}

/// A digit below 16 is written as a lower-case hexadecimal digit.
proof fn lemma_hex_digit(d: nat)
    requires
        d < 16,
    ensures
        is_hex_char(hex_digit(d)),
{
    let c = hex_digit(d);
    if d < 10 {
        assert(c as u32 == 48 + d);
    } else {
        assert(c as u32 == 97 + d - 10);
    }
}

/// The lower-case hexadecimal form of `n` in exactly `len` digits: its last
/// `len` digits, with leading zeros where it has fewer.
pub fn hex_tail(n: u128, len: usize) -> (r: String)
    ensures
        r@ == fixed_width(hex(n as nat), len as nat),
        r@.len() == len,
        forall|i: int| 0 <= i < r@.len() ==> is_hex_char(#[trigger] r@[i]),
{
    let h = hex_chars(n);
    proof {
        lemma_hex_chars(n as nat);
    }
    if h.len() >= len {
        string_of(sub_chars(h.as_slice(), h.len() - len, h.len()).as_slice())
    } else {
        let pad = len - h.len();
        let mut out: Vec<char> = Vec::new();
        while out.len() < pad
            invariant
                out@.len() <= pad,
                out@ =~= Seq::new(out@.len(), |i: int| '0'),
            decreases pad - out@.len(),
        {
            out.push('0');
        }
        let mut k: usize = 0;
        while k < h.len()
            invariant
                k <= h@.len(),
                pad == len - h@.len(),
                out@ =~= Seq::new(pad as nat, |i: int| '0') + h@.take(k as int),
            decreases h@.len() - k,
        {
            out.push(h[k]);
            assert(h@.take(k + 1) =~= h@.take(k as int).push(h@[k as int]));
            k += 1;
        }
        assert(h@.take(h@.len() as int) =~= h@);
        string_of(out.as_slice())
    }
}

/// Nanoseconds since the Unix epoch on the system clock (`SystemTime::now`),
/// or 0 where the clock reads earlier. It reads the clock, so nothing is
/// stated of it.
#[verifier::external_body]
fn timestamp_suffix() -> (r: u128) {
    std::time::SystemTime::now().duration_since(std::time::UNIX_EPOCH).map(|d| d.as_nanos()).unwrap_or(0)
}

/// A hexadecimal string of exactly `len` lower-case digits taken from the
/// system clock, used to name temporary files.
pub fn rand_hex_string(len: usize) -> (r: String)
    ensures
        r@.len() == len,
        forall|i: int| 0 <= i < r@.len() ==> is_hex_char(#[trigger] r@[i]),
        exists|n: nat| #[trigger] fixed_width(hex(n), len as nat) == r@,
{
    let n = timestamp_suffix();
    hex_tail(n, len)
}

/// A string without the separator splits into itself alone.
proof fn lemma_split_without_sep(s: Seq<char>, sep: char)
    requires
        !has_char(s, sep),
    ensures
        split(s, sep) == seq![s],
    decreases s.len(),
{
    if s.len() > 0 {
        let t = s.drop_last();
        assert(!has_char(t, sep)) by {
            if has_char(t, sep) {
                let i = choose|i: int| 0 <= i < t.len() && t[i] == sep;
                assert(s[i] == sep);
            }
        }
        lemma_split_without_sep(t, sep);
        assert(s[s.len() - 1] != sep);
        assert(t.push(s.last()) =~= s);
        assert(seq![t].update(0, t.push(s.last())) =~= seq![s]);
    } else {
        assert(s =~= Seq::<char>::empty());
    }
}

/// The last index of `c` is `j` where `s[j]` is `c` and no later character is.
proof fn lemma_last_index_at(s: Seq<char>, c: char, j: int)
    requires
        0 <= j < s.len(),
        s[j] == c,
        forall|k: int| j < k < s.len() ==> s[k] != c,
    ensures
        last_index_of(s, c) == j,
    decreases s.len(),
{
    if s.last() != c {
        assert(s.len() - 1 != j);
        lemma_last_index_at(s.drop_last(), c, j);
    }
}

/// A single path component that is neither empty nor `.` has itself as its
/// only component.
proof fn lemma_single_component(s: Seq<char>)
    requires
        s.len() > 0,
        s[0] != '.',
        !has_char(s, '/'),
    ensures
        components(s) == seq![s],
{
    reveal_strlit(".");
    lemma_split_without_sep(s, '/');
    let parts = split(s, '/');
    assert(parts.drop_last() =~= Seq::<Seq<char>>::empty());
    assert(keep_components(parts.drop_last()) =~= Seq::<Seq<char>>::empty());
    assert(parts.last() == s);
    assert(s != "."@) by {
        if s == "."@ {
            assert(s[0] == '.');
        }
    }
    assert(Seq::<Seq<char>>::empty().push(s) =~= seq![s]);
}

/// A valid project name is a single component: joined onto a directory it
/// names a direct child of that directory, which lies within it.
pub proof fn lemma_project_dir_is_child(root: Seq<char>, name: Seq<char>)
    requires
        valid_project_name(name),
    ensures
        components(join(root, name)) == components(root).push(name),
        root.len() > 0 ==> path_within(join(root, name), root),
{
    assert(!has_char(name, '/')) by {
        if has_char(name, '/') {
            let i = choose|i: int| 0 <= i < name.len() && name[i] == '/';
            assert(project_name_char(name[i]));
        }
    }
    assert(name[0] != '.') by {
        assert(project_name_char(name[0]));
    }
    lemma_single_component(name);
    lemma_join_components(root, name);
    assert(components(root) + seq![name] =~= components(root).push(name));
    if root.len() > 0 {
        lemma_join_within(root, name);
    }
}

/// Every valid entrypoint is a file that may be opened and edited.
pub proof fn lemma_entrypoint_is_editable(e: Seq<char>)
    requires
        valid_entrypoint(e),
    ensures
        editable_path(e),
{
    reveal_strlit(".tex");
    reveal_strlit("tex");
    reveal_strlit("..");
    let n = e.len() as int;
    assert forall|c: char| c == '/' || c == ':' || c == '\\' implies !has_char(e, c) by {
        if has_char(e, c) {
            let i = choose|i: int| 0 <= i < e.len() && e[i] == c;
            assert(entrypoint_char(e[i]));
        }
    }
    assert(e[0] != '/') by {
        assert(entrypoint_char(e[0]));
    }
    lemma_single_component(e);
    lemma_split_without_sep(e, '/');
    assert forall|k: int| 0 <= k < split(e, '/').len() implies !forbidden_piece(#[trigger] split(e, '/')[k]) by {
        assert(split(e, '/')[k] == e);
    }
    assert(n >= 4);
    let tail = e.subrange(n - 4, n);
    assert(tail == ".tex"@);
    assert(e[n - 4] == tail[0]);
    assert(e[n - 3] == tail[1] && e[n - 2] == tail[2] && e[n - 1] == tail[3]);
    lemma_last_index_at(e, '.', n - 4);
    assert(n - 4 != 0);
    assert(e != ".."@) by {
        if e == ".."@ {
            assert(e[0] == '.');
        }
    }
    assert(file_name(e) == Some(e));
    assert(e.subrange(n - 3, n) =~= "tex"@);
    assert(path_extension(e) == Some("tex"@));
    assert(lower("tex"@) =~= "tex"@);
}

/// A plain file name: a stem that is not hidden and holds no `/`, `:` or `\\`,
/// a `.`, and an extension without `.`, `/`, `:` or `\\`.
pub open spec fn plain_file(stem: Seq<char>, ext: Seq<char>) -> bool {
    &&& stem.len() > 0
    &&& stem[0] != '.'
    &&& !has_char(stem, '/') && !has_char(stem, ':') && !has_char(stem, '\\')
    &&& ext.len() > 0
    &&& !has_char(ext, '.') && !has_char(ext, '/') && !has_char(ext, ':') && !has_char(ext, '\\')
}

/// A plain file name is a single path component whose extension is the part
/// after its last `.`.
pub proof fn lemma_plain_file_name(stem: Seq<char>, ext: Seq<char>)
    requires
        plain_file(stem, ext),
    ensures
        ({
            let name = stem + seq!['.'] + ext;
            &&& !has_char(name, '/') && !has_char(name, ':') && !has_char(name, '\\')
            &&& split(name, '/') == seq![name]
            &&& components(name) == seq![name]
            &&& file_name(name) == Some(name)
            &&& path_extension(name) == Some(ext)
        }),
{
    let name = stem + seq!['.'] + ext;
    let n = name.len() as int;
    let d = stem.len() as int;
    assert forall|c: char| c == '/' || c == ':' || c == '\\' implies !has_char(name, c) by {
        if has_char(name, c) {
            let i = choose|i: int| 0 <= i < name.len() && name[i] == c;
            if i < d {
                assert(stem[i] == c);
            } else if i > d {
                assert(ext[i - d - 1] == c);
            }
        }
    }
    assert(name[0] == stem[0]);
    lemma_split_without_sep(name, '/');
    lemma_single_component(name);
    assert(name[d] == '.');
    assert forall|k: int| d < k < n implies name[k] != '.' by {
        assert(name[k] == ext[k - d - 1]);
        if name[k] == '.' {
            assert(has_char(ext, '.'));
        }
    }
    lemma_last_index_at(name, '.', d);
    assert(name != ".."@) by {
        if name == ".."@ {
            reveal_strlit("..");
            assert(name[0] == '.');
        }
    }
    assert(name.subrange(d + 1, n) =~= ext);
}

/// Which plain files may be opened and edited: exactly those whose extension,
/// in ASCII lower case, is one of the nine of LaTeX sources, settings and
/// related text (`tex`, `toml`, `bib`, `sty`, `cls`, `tikz`, `txt`, `md`,
/// `svg`). So the settings file `EasyTex.toml` is editable, and so is a plain
/// file anywhere that ends in `.toml`.
pub proof fn lemma_editable_plain_files(stem: Seq<char>, ext: Seq<char>)
    requires
        plain_file(stem, ext),
    ensures
        editable_path(stem + seq!['.'] + ext) <==> {
            let l = lower(ext);
            ||| l == "tex"@
            ||| l == "toml"@
            ||| l == "bib"@
            ||| l == "sty"@
            ||| l == "cls"@
            ||| l == "tikz"@
            ||| l == "txt"@
            ||| l == "md"@
            ||| l == "svg"@
        },
{
    let name = stem + seq!['.'] + ext;
    lemma_plain_file_name(stem, ext);
    assert(name[0] == stem[0]);
    assert forall|k: int| 0 <= k < split(name, '/').len() implies !forbidden_piece(
        #[trigger] split(name, '/')[k],
    ) by {
        assert(split(name, '/')[k] == name);
    }
}

} // verus!
