//! The embedded dashboard bundle: a gzip-compressed archive of the frontend's
//! files, decoded once at startup into an in-memory table of path to bytes.
//!
//! Archive format, for each file entry in turn:
//! * the byte length of the path, 4 bytes little-endian;
//! * the byte length of the contents, 8 bytes little-endian;
//! * the path, UTF-8 encoded;
//! * the contents.

use vstd::prelude::*;
use vstd::slice::slice_to_vec;
use vstd::utf8::{decode_utf8, valid_utf8};
use crate::text::{chars_eq, chars_of};

verus! {

/// Why an archive could not be decoded.
#[derive(Debug, Clone)]
pub enum ArchiveError {
    /// The compressed archive could not be decompressed.
    Decompress,
    /// An entry header (the two lengths) runs past the end of the archive.
    Truncated,
    /// An entry's path runs past the end of the archive.
    TruncatedPath,
    /// An entry's path is not valid UTF-8.
    InvalidPath,
    /// The contents of the entry with this path run past the end of the archive.
    TruncatedContent(String),
    /// The archive holds no `index.html`.
    MissingIndex,
}

/// [`ArchiveError`] with its path taken as characters.
pub enum ArchiveFault {
    Decompress,
    Truncated,
    TruncatedPath,
    InvalidPath,
    TruncatedContent(Seq<char>),
    MissingIndex,
}

impl View for ArchiveError {
    type V = ArchiveFault;

    open spec fn view(&self) -> ArchiveFault {
        match self {
            ArchiveError::Decompress => ArchiveFault::Decompress,
            ArchiveError::Truncated => ArchiveFault::Truncated,
            ArchiveError::TruncatedPath => ArchiveFault::TruncatedPath,
            ArchiveError::InvalidPath => ArchiveFault::InvalidPath,
            ArchiveError::TruncatedContent(p) => ArchiveFault::TruncatedContent(p@),
            ArchiveError::MissingIndex => ArchiveFault::MissingIndex,
        }
    }
}

impl ArchiveError {
    /// The human-readable description of the failure.
    pub fn message(&self) -> (r: String)
        ensures
            r@ == archive_error_message(self@),
    {
        match self {
            ArchiveError::Decompress => String::from_str(
                "failed to decompress embedded frontend archive",
            ),
            ArchiveError::Truncated => String::from_str("embedded frontend archive is truncated"),
            ArchiveError::TruncatedPath => String::from_str(
                "embedded frontend archive has a truncated path",
            ),
            ArchiveError::InvalidPath => String::from_str(
                "embedded frontend archive contains an invalid UTF-8 path",
            ),
            ArchiveError::TruncatedContent(p) => String::from_str(
                "embedded frontend archive has truncated content for ",
            ).concat(p.as_str()),
            ArchiveError::MissingIndex => String::from_str(
                "embedded frontend archive is missing index.html",
            ),
        }
    }
}

/// The description of each archive failure.
pub open spec fn archive_error_message(e: ArchiveFault) -> Seq<char> {
    match e {
        ArchiveFault::Decompress => "failed to decompress embedded frontend archive"@,
        ArchiveFault::Truncated => "embedded frontend archive is truncated"@,
        ArchiveFault::TruncatedPath => "embedded frontend archive has a truncated path"@,
        ArchiveFault::InvalidPath => "embedded frontend archive contains an invalid UTF-8 path"@,
        ArchiveFault::TruncatedContent(p) => "embedded frontend archive has truncated content for "@
            + p,
        ArchiveFault::MissingIndex => "embedded frontend archive is missing index.html"@,
    }
}

/// The value of little-endian bytes (`u32::from_le_bytes`, `u64::from_le_bytes`).
pub open spec fn le_value(b: Seq<u8>) -> nat
    decreases b.len(),
{
    if b.len() == 0 {
        0
    } else {
        b[0] as nat + 256 * le_value(b.drop_first())
    }
}

/// Size of an entry header: two lengths.
pub open spec fn header_len() -> int {
    12
}

/// The entries of an archive, in order, or the first failure met.
pub open spec fn archive_entries(b: Seq<u8>) -> Result<Seq<(Seq<char>, Seq<u8>)>, ArchiveFault>
    decreases b.len(),
{
    if b.len() == 0 {
        Ok(Seq::empty())
    } else if b.len() < header_len() {
        Err(ArchiveFault::Truncated)
    } else {
        let path_len = le_value(b.subrange(0, 4)) as int;
        let content_len = ((le_value(b.subrange(4, 12)) as u64) as usize) as int;
        if header_len() + path_len > b.len() {
            Err(ArchiveFault::TruncatedPath)
        } else if !valid_utf8(b.subrange(header_len(), header_len() + path_len)) {
            Err(ArchiveFault::InvalidPath)
        } else {
            let path = decode_utf8(b.subrange(header_len(), header_len() + path_len));
            let end = header_len() + path_len + content_len;
            if end > b.len() {
                Err(ArchiveFault::TruncatedContent(path))
            } else {
                let content = b.subrange(header_len() + path_len, end);
                match archive_entries(b.subrange(end, b.len() as int)) {
                    Ok(rest) => Ok(seq![(path, content)] + rest),
                    Err(e) => Err(e),
                }
            }
        }
    }
}

/// The table that a sequence of entries builds: a later entry for a path
/// replaces an earlier one.
pub open spec fn entries_map(es: Seq<(Seq<char>, Seq<u8>)>) -> Map<Seq<char>, Seq<u8>>
    decreases es.len(),
{
    if es.len() == 0 {
        Map::empty()
    } else {
        entries_map(es.drop_last()).insert(es.last().0, es.last().1)
    }
}

/// The file table that a decompressed archive decodes to, or why it does not.
pub open spec fn decode_archive_spec(b: Seq<u8>) -> Result<Map<Seq<char>, Seq<u8>>, ArchiveFault> {
    match archive_entries(b) {
        Ok(es) => if entries_map(es).dom().contains("index.html"@) {
            Ok(entries_map(es))
        } else {
            Err(ArchiveFault::MissingIndex)
        },
        Err(e) => Err(e),
    }
}

/// Thread-safe manager holding the decompressed frontend asset files.
pub struct FrontendAssets {
    paths: Vec<Vec<char>>,
    contents: Vec<Vec<u8>>,
}

/// The table held by parallel vectors of paths and contents.
pub open spec fn table(paths: Seq<Seq<char>>, contents: Seq<Seq<u8>>) -> Map<Seq<char>, Seq<u8>>
    decreases paths.len(),
{
    if paths.len() == 0 || contents.len() == 0 {
        Map::empty()
    } else {
        table(paths.drop_last(), contents.drop_last()).insert(paths.last(), contents.last())
    }
}

/// The character strings held by a vector of character vectors.
pub open spec fn char_views(s: Seq<Vec<char>>) -> Seq<Seq<char>> {
    s.map_values(|v: Vec<char>| v@)
}

/// The byte strings held by a vector of byte vectors.
pub open spec fn byte_views(s: Seq<Vec<u8>>) -> Seq<Seq<u8>> {
    s.map_values(|v: Vec<u8>| v@)
}

impl FrontendAssets {
    /// Each path is held once, beside its contents.
    #[verifier::type_invariant]
    spec fn well_formed(&self) -> bool {
        &&& self.paths@.len() == self.contents@.len()
        &&& char_views(self.paths@).no_duplicates()
    }
}

impl View for FrontendAssets {
    type V = Map<Seq<char>, Seq<u8>>;

    closed spec fn view(&self) -> Map<Seq<char>, Seq<u8>> {
        table(char_views(self.paths@), byte_views(self.contents@))
    }
}

/// Replacing the contents of a path that is held once updates the table at that path.
proof fn lemma_table_update(
    paths: Seq<Seq<char>>,
    contents: Seq<Seq<u8>>,
    j: int,
    v: Seq<u8>,
)
    requires
        paths.len() == contents.len(),
        paths.no_duplicates(),
        0 <= j < paths.len(),
    ensures
        table(paths, contents.update(j, v)) == table(paths, contents).insert(paths[j], v),
    decreases paths.len(),
{
    let n = paths.len();
    let upd = contents.update(j, v);
    if j == n - 1 {
        assert(upd.drop_last() =~= contents.drop_last());
        assert(table(paths, upd) =~= table(paths, contents).insert(paths[j], v));
    } else {
        assert(upd.drop_last() =~= contents.drop_last().update(j, v));
        lemma_table_update(paths.drop_last(), contents.drop_last(), j, v);
        assert(paths[n - 1] != paths[j]);
        assert(table(paths, upd) =~= table(paths, contents).insert(paths[j], v));
    }
}

/// A path is in the table exactly when it is held, and maps to its contents.
proof fn lemma_table_lookup(paths: Seq<Seq<char>>, contents: Seq<Seq<u8>>)
    requires
        paths.len() == contents.len(),
        paths.no_duplicates(),
    ensures
        forall|k: Seq<char>| #[trigger]
            table(paths, contents).dom().contains(k) <==> paths.contains(k),
        forall|j: int| 0 <= j < paths.len() ==> #[trigger] table(paths, contents)[paths[j]] == contents[j],
        table(paths, contents).dom().finite(),
        table(paths, contents).dom().len() == paths.len(),
    decreases paths.len(),
{
    let n = paths.len();
    if n > 0 {
        let dp = paths.drop_last();
        lemma_table_lookup(dp, contents.drop_last());
        assert forall|k: Seq<char>| #[trigger]
            table(paths, contents).dom().contains(k) <==> paths.contains(k) by {
            if paths.contains(k) && k != paths.last() {
                let i = choose|i: int| 0 <= i < n && paths[i] == k;
                assert(dp[i] == k);
            }
            if dp.contains(k) {
                let i = choose|i: int| 0 <= i < dp.len() && dp[i] == k;
                assert(paths[i] == k);
            }
        }
        assert(!dp.contains(paths.last())) by {
            if dp.contains(paths.last()) {
                let i = choose|i: int| 0 <= i < dp.len() && dp[i] == paths.last();
                assert(paths[i] == paths[n - 1]);
            }
        }
        assert forall|j: int| 0 <= j < n implies #[trigger] table(paths, contents)[paths[j]]
            == contents[j] by {
            if j < n - 1 {
                assert(dp[j] == paths[j]);
                assert(paths[j] != paths[n - 1]);
            }
        }
    }
}

/// Reads `bytes[at..at + len]` as a little-endian number of up to eight bytes.
fn read_le(bytes: &[u8], at: usize, len: usize) -> (r: u64)
    requires
        len <= 8,
        at + len <= bytes.len(),
    ensures
        r as nat == le_value(bytes@.subrange(at as int, at + len)),
        r < pow256(len as nat),
{
    let mut r: u64 = 0;
    let mut k = len;
    while k > 0
        invariant
            k <= len <= 8,
            at + len <= bytes.len(),
            r as nat == le_value(bytes@.subrange(at + k, at + len)),
            r < pow256((len - k) as nat),
        decreases k,
    {
        k -= 1;
        let b = bytes[at + k];
        proof {
            assert(bytes@.subrange(at + k, at + len).drop_first() =~= bytes@.subrange(
                at + k + 1,
                at + len,
            ));
            lemma_pow256_step((len - k - 1) as nat);
            assert(r * 256 + b < pow256((len - k) as nat)) by (nonlinear_arith)
                requires
                    r < pow256((len - k - 1) as nat),
                    b < 256,
                    pow256((len - k) as nat) == 256 * pow256((len - k - 1) as nat),
            ;
            lemma_pow256_bound((len - k) as nat);
        }
        r = r * 256 + b as u64;
    }
    r
}

/// Reads the 4-byte little-endian number at `*cursor` and moves the cursor
/// past it; `None`, with the cursor unchanged, where fewer bytes remain.
fn read_u32(bytes: &[u8], cursor: &mut usize) -> (r: Option<u32>)
    ensures
        *old(cursor) + 4 <= bytes@.len() ==> (r matches Some(v) && v as nat == le_value(
            bytes@.subrange(*old(cursor) as int, *old(cursor) + 4),
        ) && *final(cursor) == *old(cursor) + 4),
        *old(cursor) + 4 > bytes@.len() ==> r is None && *final(cursor) == *old(cursor),
{
    if *cursor > bytes.len() || bytes.len() - *cursor < 4 {
        return None;
    }
    let v = read_le(bytes, *cursor, 4);
    proof {
        reveal_with_fuel(pow256, 5);
    }
    *cursor = *cursor + 4;
    Some(v as u32)
}

/// Reads the 8-byte little-endian number at `*cursor` and moves the cursor
/// past it; `None`, with the cursor unchanged, where fewer bytes remain.
fn read_u64(bytes: &[u8], cursor: &mut usize) -> (r: Option<u64>)
    ensures
        *old(cursor) + 8 <= bytes@.len() ==> (r matches Some(v) && v as nat == le_value(
            bytes@.subrange(*old(cursor) as int, *old(cursor) + 8),
        ) && *final(cursor) == *old(cursor) + 8),
        *old(cursor) + 8 > bytes@.len() ==> r is None && *final(cursor) == *old(cursor),
{
    if *cursor > bytes.len() || bytes.len() - *cursor < 8 {
        return None;
    }
    let v = read_le(bytes, *cursor, 8);
    *cursor = *cursor + 8;
    Some(v)
}

/// `256` to the power `n`.
pub open spec fn pow256(n: nat) -> nat
    decreases n,
{
    if n == 0 {
        1
    } else {
        256 * pow256((n - 1) as nat)
    }
}

proof fn lemma_pow256_step(n: nat)
    ensures
        pow256(n + 1) == 256 * pow256(n),
{
}

proof fn lemma_pow256_bound(n: nat)
    requires
        n <= 8,
    ensures
        pow256(n) <= 0x1_0000_0000_0000_0000,
    decreases n,
{
    reveal_with_fuel(pow256, 9);
}

/// `std::str::from_utf8`, owning the result: `Some` exactly when the bytes are
/// valid UTF-8, holding the characters they encode.
#[verifier::external_body]
fn utf8_string(bytes: &[u8]) -> (r: Option<String>)
    ensures
        r is Some <==> valid_utf8(bytes@),
        r matches Some(s) ==> s@ == decode_utf8(bytes@),
{
    std::str::from_utf8(bytes).ok().map(|s| s.to_string())
}

/// What `flate2`'s gzip decoder yields for the given compressed bytes, or `None`
/// where it reports an error.
pub uninterp spec fn gunzip(b: Seq<u8>) -> Option<Seq<u8>>;

/// Decompresses a gzip stream with `flate2::read::GzDecoder` (reading to the
/// end); the result is named [`gunzip`].
#[verifier::external_body]
fn gunzip_bytes(compressed: &[u8]) -> (r: Option<Vec<u8>>)
    ensures
        match r {
            Some(v) => gunzip(compressed@) == Some(v@),
            None => gunzip(compressed@) is None,
        },
{
    let mut decoder = flate2::read::GzDecoder::new(compressed);
    let mut out = Vec::new();
    match std::io::Read::read_to_end(&mut decoder, &mut out) {
        Ok(_) => Some(out),
        Err(_) => None,
    }
}

impl FrontendAssets {
    /// An empty table.
    fn empty() -> (r: Self)
        ensures
            r@ == Map::<Seq<char>, Seq<u8>>::empty(),
    {
        let r = FrontendAssets { paths: Vec::new(), contents: Vec::new() };
        assert(char_views(r.paths@) =~= Seq::<Seq<char>>::empty());
        r
    }

    /// Index of `path` among the held paths.
    fn position(&self, path: &[char]) -> (r: Option<usize>)
        ensures
            match r {
                Some(j) => j < self.paths@.len() && self.paths@[j as int]@ == path@,
                None => !char_views(self.paths@).contains(path@),
            },
    {
        let mut j: usize = 0;
        while j < self.paths.len()
            invariant
                j <= self.paths@.len(),
                forall|k: int| 0 <= k < j ==> self.paths@[k]@ != path@,
            decreases self.paths@.len() - j,
        {
            if chars_eq(self.paths[j].as_slice(), path) {
                return Some(j);
            }
            j += 1;
        }
        assert(!char_views(self.paths@).contains(path@)) by {
            if char_views(self.paths@).contains(path@) {
                let k = choose|k: int|
                    0 <= k < self.paths@.len() && char_views(self.paths@)[k] == path@;
                assert(self.paths@[k]@ == path@);
            }
        }
        None
    }

    /// Stores `content` under `path`, replacing what was there.
    fn insert(self, path: Vec<char>, content: Vec<u8>) -> (r: Self)
        ensures
            r@ == self@.insert(path@, content@),
    {
        proof {
            use_type_invariant(&self);
        }
        let found = self.position(path.as_slice());
        let FrontendAssets { mut paths, mut contents } = self;
        let ghost pv = char_views(paths@);
        let ghost cv = byte_views(contents@);
        match found {
            Some(j) => {
                proof {
                    lemma_table_update(pv, cv, j as int, content@);
                }
                contents.set(j, content);
                assert(byte_views(contents@) =~= cv.update(j as int, content@));
            },
            None => {
                let ghost p = path@;
                paths.push(path);
                contents.push(content);
                assert(char_views(paths@) =~= pv.push(p));
                assert(byte_views(contents@) =~= cv.push(content@));
                assert(char_views(paths@).drop_last() =~= pv);
                assert(byte_views(contents@).drop_last() =~= cv);
                assert(char_views(paths@).no_duplicates()) by {
                    assert forall|a: int, b: int|
                        0 <= a < char_views(paths@).len() && 0 <= b < char_views(paths@).len()
                            && a != b implies char_views(paths@)[a] != char_views(paths@)[b] by {
                        if a < pv.len() && b < pv.len() {
                        } else if a == pv.len() {
                            assert(pv[b] != p);
                        } else {
                            assert(pv[a] != p);
                        }
                    }
                }
            },
        }
        FrontendAssets { paths, contents }
    }

    /// Queries the in-memory files map and returns the bytes stored under `path`.
    ///
    /// Returns `None` if the asset path does not exist.
    pub fn get(&self, path: &str) -> (r: Option<&[u8]>)
        ensures
            match r {
                Some(b) => self@.dom().contains(path@) && b@ == self@[path@],
                None => !self@.dom().contains(path@),
            },
    {
        proof {
            use_type_invariant(self);
            lemma_table_lookup(char_views(self.paths@), byte_views(self.contents@));
        }
        let p = chars_of(path);
        match self.position(p.as_slice()) {
            Some(j) => {
                assert(char_views(self.paths@)[j as int] == path@);
                Some(self.contents[j].as_slice())
            },
            None => None,
        }
    }

    /// Returns the total count of assets held.
    pub fn len(&self) -> (r: usize)
        ensures
            r == self@.dom().len(),
    {
        proof {
            use_type_invariant(self);
            lemma_table_lookup(char_views(self.paths@), byte_views(self.contents@));
        }
        self.paths.len()
    }

    /// Decompresses a gzip archive and decodes the file table it holds.
    pub fn load(archive: &[u8]) -> (r: Result<FrontendAssets, ArchiveError>)
        ensures
            match gunzip(archive@) {
                None => r matches Err(e) && e@ == ArchiveFault::Decompress,
                Some(decoded) => match decode_archive_spec(decoded) {
                    Ok(m) => r matches Ok(a) && a@ == m,
                    Err(f) => r matches Err(e) && e@ == f,
                },
            },
    {
        match gunzip_bytes(archive) {
            Some(decoded) => decode_archive(decoded.as_slice()),
            None => Err(ArchiveError::Decompress),
        }
    }
}

/// Decodes a decompressed archive into its file table (see [`decode_archive_spec`]).
pub fn decode_archive(bytes: &[u8]) -> (r: Result<FrontendAssets, ArchiveError>)
    ensures
        match decode_archive_spec(bytes@) {
            Ok(m) => r matches Ok(a) && a@ == m,
            Err(f) => r matches Err(e) && e@ == f,
        },
{
    let n = bytes.len();
    let mut cursor: usize = 0;
    let mut files = FrontendAssets::empty();
    let ghost mut done: Seq<(Seq<char>, Seq<u8>)> = Seq::empty();
    assert(bytes@.subrange(0, n as int) =~= bytes@);
    while cursor < n
        invariant
            cursor <= n == bytes@.len(),
            files@ == entries_map(done),
            match archive_entries(bytes@.subrange(cursor as int, n as int)) {
                Ok(rest) => archive_entries(bytes@) == Ok::<
                    Seq<(Seq<char>, Seq<u8>)>,
                    ArchiveFault,
                >(done + rest),
                Err(e) => archive_entries(bytes@) == Err::<
                    Seq<(Seq<char>, Seq<u8>)>,
                    ArchiveFault,
                >(e),
            },
        decreases n - cursor,
    {
        let ghost b = bytes@.subrange(cursor as int, n as int);
        let mut pos = cursor;
        let path_len = match read_u32(bytes, &mut pos) {
            Some(v) => v as usize,
            None => {
                assert(archive_entries(b) == Err::<Seq<(Seq<char>, Seq<u8>)>, ArchiveFault>(
                    ArchiveFault::Truncated,
                ));
                return Err(ArchiveError::Truncated);
            },
        };
        let content_len = match read_u64(bytes, &mut pos) {
            Some(v) => v as usize,
            None => {
                assert(archive_entries(b) == Err::<Seq<(Seq<char>, Seq<u8>)>, ArchiveFault>(
                    ArchiveFault::Truncated,
                ));
                return Err(ArchiveError::Truncated);
            },
        };
        assert(b.subrange(0, 4) =~= bytes@.subrange(cursor as int, cursor + 4));
        assert(b.subrange(4, 12) =~= bytes@.subrange(cursor + 4, cursor + 12));
        if n - cursor - 12 < path_len {
            return Err(ArchiveError::TruncatedPath);
        }
        let start = cursor + 12;
        let path_end = start + path_len;
        assert(b.subrange(12, 12 + path_len as int) =~= bytes@.subrange(
            start as int,
            path_end as int,
        ));
        let path = match utf8_string(&bytes[start..path_end]) {
            Some(p) => p,
            None => {
                return Err(ArchiveError::InvalidPath);
            },
        };
        if n - path_end < content_len {
            return Err(ArchiveError::TruncatedContent(path));
        }
        let end = path_end + content_len;
        assert(b.subrange(12 + path_len as int, 12 + path_len + content_len) =~= bytes@.subrange(
            path_end as int,
            end as int,
        ));
        assert(b.subrange(12 + path_len + content_len, b.len() as int) =~= bytes@.subrange(
            end as int,
            n as int,
        ));
        let content = slice_to_vec(&bytes[path_end..end]);
        let key = chars_of(path.as_str());
        proof {
            let entry = (key@, content@);
            match archive_entries(bytes@.subrange(end as int, n as int)) {
                Ok(rest) => {
                    assert(done + (seq![entry] + rest) =~= done.push(entry) + rest);
                },
                Err(e) => {},
            }
            assert(done.push(entry).drop_last() =~= done);
            done = done.push(entry);
        }
        files = files.insert(key, content);
        cursor = end;
    }
    assert(bytes@.subrange(n as int, n as int) =~= Seq::<u8>::empty());
    assert(done + Seq::<(Seq<char>, Seq<u8>)>::empty() =~= done);
    let index = chars_of("index.html");
    match files.position_of_str(index.as_slice()) {
        true => Ok(files),
        false => Err(ArchiveError::MissingIndex),
    }
}

impl FrontendAssets {
    /// Whether `path` is held.
    fn position_of_str(&self, path: &[char]) -> (r: bool)
        ensures
            r == self@.dom().contains(path@),
    {
        proof {
            use_type_invariant(self);
            lemma_table_lookup(char_views(self.paths@), byte_views(self.contents@));
        }
        match self.position(path) {
            Some(j) => {
                assert(char_views(self.paths@)[j as int] == path@);
                true
            },
            None => false,
        }
    }
}

} // verus!
