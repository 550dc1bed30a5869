//! Pack, verify and inspect `.atool` / `.aagent` archives.
//!
//! Wire format: a gzipped tar whose first entry is `atool.json`, holding the
//! manifest with every `files[]` entry's `sha256` filled in, followed by the
//! declared files in `files[]` order; an entry's mode is `0o755` when the file
//! is executable, else `0o644`. This module holds what is decided about the
//! archive; reading and writing the tar stream is left to the caller.
use vstd::prelude::*;

use crate::builders::opt_seq;
use crate::error::Error;
use crate::manifest::{opt_member, FileEntry, Manifest, ToJson};
use crate::json::{get, Json, is_first_key, lemma_key_pos_found, lemma_key_pos_range, lemma_same_keys_get};
use crate::schema::{assert_valid, schema_text, valid_manifest, violations};

verus! {

/// The name of the manifest entry.
pub open spec fn manifest_name() -> Seq<char> {
    "atool.json"@
}

/// The lowercase hex digit of `n` (below 16).
pub open spec fn hex_digit(n: u8) -> char {
    if n < 10 {
        (48 + n) as char
    } else {
        (87 + n) as char
    }
}

/// Lowercase hex encoding: two digits per byte, high nibble first.
pub open spec fn hex_lower(data: Seq<u8>) -> Seq<char>
    decreases data.len(),
{
    if data.len() == 0 {
        Seq::empty()
    } else {
        seq![hex_digit(data[0] / 16), hex_digit(data[0] % 16)] + hex_lower(data.drop_first())
    }
}

/// Names the SHA-256 digest of a byte string.
pub uninterp spec fn sha256_of(data: Seq<u8>) -> Seq<u8>;

/// Calls `<sha2::Sha256 as sha2::Digest>::digest`. Claims that the result is
/// the SHA-256 digest of `data`, a function of `data` alone, and that it is 32
/// bytes long (the output size of SHA-256).
#[verifier::external_body]
fn sha256_digest(data: &[u8]) -> (r: Vec<u8>)
    ensures
        r@ == sha256_of(data@),
        r@.len() == 32,
{
    <sha2::Sha256 as sha2::Digest>::digest(data).to_vec()
}

/// Calls `hex::encode`. Claims what its documentation states: two lowercase
/// hex digits per byte, in order.
#[verifier::external_body]
fn hex_encode(data: &[u8]) -> (r: String)
    ensures
        r@ == hex_lower(data@),
{
    hex::encode(data)
}

pub proof fn lemma_hex_lower_len(data: Seq<u8>)
    ensures
        hex_lower(data).len() == 2 * data.len(),
    decreases data.len(),
{
    if data.len() > 0 {
        lemma_hex_lower_len(data.drop_first());
    }
}

/// A lowercase hex digit: `0`-`9` or `a`-`f`.
pub open spec fn is_lower_hex(c: char) -> bool {
    ('0' <= c && c <= '9') || ('a' <= c && c <= 'f')
}

pub proof fn lemma_hex_lower_chars(data: Seq<u8>)
    ensures
        forall|i: int| 0 <= i < hex_lower(data).len() ==> is_lower_hex(#[trigger] hex_lower(data)[i]),
    decreases data.len(),
{
    lemma_hex_lower_len(data);
    if data.len() > 0 {
        lemma_hex_lower_chars(data.drop_first());
        let h = seq![hex_digit(data[0] / 16), hex_digit(data[0] % 16)];
        let t = hex_lower(data.drop_first());
        assert(hex_lower(data) == h + t);
        assert(is_lower_hex(h[0]) && is_lower_hex(h[1]));
        assert forall|i: int| 0 <= i < hex_lower(data).len() implies is_lower_hex(#[trigger] hex_lower(data)[i]) by {
            if i >= 2 {
                assert(hex_lower(data)[i] == t[i - 2]);
            }
        }
    }
}

/// The hex form of a byte string's SHA-256 digest.
pub open spec fn digest_hex(data: Seq<u8>) -> Seq<char> {
    hex_lower(sha256_of(data))
}

/// The lowercase hex SHA-256 digest of `bytes` (64 characters).
pub fn sha256_bytes(bytes: &[u8]) -> (r: String)
    ensures
        r@ == digest_hex(bytes@),
        r@.len() == 64,
        forall|i: int| 0 <= i < 64 ==> is_lower_hex(#[trigger] r@[i]),
{
    let d = sha256_digest(bytes);
    proof {
        lemma_hex_lower_len(d@);
        lemma_hex_lower_chars(d@);
    }
    hex_encode(d.as_slice())
}


/// `b` is the file list `a` with each entry's `sha256` set to the hex digest of
/// the matching content (64 lowercase hex digits), everything else kept.
pub open spec fn hashed_files(a: Seq<FileEntry>, b: Seq<FileEntry>, contents: Seq<Vec<u8>>) -> bool {
    &&& b.len() == a.len()
    &&& contents.len() == a.len()
    &&& forall|i: int|
        0 <= i < a.len() ==> {
            &&& (#[trigger] b[i]) == (FileEntry { sha256: b[i].sha256, ..a[i] })
            &&& b[i].sha256 matches Some(s) && s@ == digest_hex(contents[i]@) && s@.len() == 64
                && forall|j: int| 0 <= j < 64 ==> is_lower_hex(#[trigger] s@[j])
        }
}

/// `m2` is `m` with every declared file's digest filled in from `contents`.
pub open spec fn hashed(m: Manifest, m2: Manifest, contents: Seq<Vec<u8>>) -> bool {
    &&& m2 == (Manifest { files: m2.files, ..m })
    &&& match (m.files, m2.files) {
        (None, None) => contents.len() == 0,
        (Some(a), Some(b)) => hashed_files(a@, b@, contents),
        _ => false,
    }
}

/// Fill in the digest of every declared file; `contents[i]` is the content of
/// the `i`-th declared file.
pub fn fill_hashes(m: Manifest, contents: &Vec<Vec<u8>>) -> (r: Manifest)
    requires
        contents@.len() == opt_seq(m.files).len(),
    ensures
        hashed(m, r, contents@),
{
    let ghost m0 = m;
    let Manifest {
        schema_version,
        name,
        version,
        kind,
        description,
        author,
        license,
        requires_alexandria,
        dependencies,
        extends,
        lockfile,
        files,
        permissions,
        config,
        components,
        install,
        signature,
    } = m;
    let new_files = match files {
        None => None,
        Some(mut old) => {
            let ghost a = old@;
            let n = old.len();
            let mut out: Vec<FileEntry> = Vec::new();
            let mut i: usize = 0;
            while i < n
                invariant
                    n == a.len(),
                    contents@.len() == n,
                    i <= n,
                    old@ == a.skip(i as int),
                    out@.len() == i,
                    forall|j: int|
                        0 <= j < i ==> {
                            &&& (#[trigger] out@[j]) == (FileEntry { sha256: out@[j].sha256, ..a[j] })
                            &&& out@[j].sha256 matches Some(s) && s@ == digest_hex(contents@[j]@)
                                && s@.len() == 64 && forall|k: int| 0 <= k < 64 ==> is_lower_hex(#[trigger] s@[k])
                        },
                decreases n - i,
            {
                let f = old.remove(0);
                assert(a.skip(i as int).drop_first() =~= a.skip(i + 1));
                let d = sha256_bytes(contents[i].as_slice());
                out.push(FileEntry { sha256: Some(d), ..f });
                i = i + 1;
            }
            Some(out)
        },
    };
    Manifest {
        schema_version,
        name,
        version,
        kind,
        description,
        author,
        license,
        requires_alexandria,
        dependencies,
        extends,
        lockfile,
        files: new_files,
        permissions,
        config,
        components,
        install,
        signature,
    }
}

/// Two fillings of the same manifest from the same contents have the same
/// JSON form.
pub proof fn lemma_hashed_json_unique(m: Manifest, a: Manifest, b: Manifest, contents: Seq<Vec<u8>>)
    requires
        hashed(m, a, contents),
        hashed(m, b, contents),
    ensures
        a.json() == b.json(),
{
    if let (Some(fa), Some(fb)) = (a.files, b.files) {
        assert forall|i: int| 0 <= i < fa@.len() implies #[trigger] fa@[i].json() == fb@[i].json() by {
            assert(fa@[i].members() =~= fb@[i].members());
        }
        assert(Seq::new(fa@.len(), |i: int| fa@[i].json()) =~= Seq::new(fb@.len(), |i: int| fb@[i].json()));
        assert(fa.json() == fb.json());
        assert(a.members() =~= b.members());
    } else {
        assert(a == b);
    }
}

/// Fill in the file digests and validate the result: what `pack` writes as
/// `atool.json`. `contents[i]` is the content of the `i`-th declared file.
pub fn pack(manifest: Manifest, contents: &Vec<Vec<u8>>) -> (r: Result<Manifest, Error>)
    requires
        contents@.len() == opt_seq(manifest.files).len(),
    ensures
        r matches Ok(m2) ==> hashed(manifest, m2, contents@) && valid_manifest(m2.json()),
        r matches Err(e) ==> e is Schema && forall|m2: Manifest|
            #[trigger] hashed(manifest, m2, contents@) ==> !valid_manifest(m2.json())
                && e->Schema_0@ == schema_text(violations(m2.json())),
{
    let m2 = fill_hashes(manifest, contents);
    let j = m2.to_json();
    match assert_valid(&j) {
        Ok(()) => Ok(m2),
        Err(e) => {
            assert forall|m3: Manifest| #[trigger] hashed(manifest, m3, contents@) implies !valid_manifest(m3.json())
                && e->Schema_0@ == schema_text(violations(m3.json())) by {
                lemma_hashed_json_unique(manifest, m2, m3, contents@);
            }
            Err(e)
        },
    }
}


/// One entry of the tar stream.
#[derive(Debug, Clone, PartialEq)]
pub struct ArchiveEntry {
    pub path: String,
    pub data: Vec<u8>,
    pub mode: u32,
}

/// The mode of a packed file: `0o755` when executable, else `0o644`.
pub open spec fn file_mode(f: FileEntry) -> u32 {
    if f.executable == Some(true) {
        0o755
    } else {
        0o644
    }
}

/// The model of a list of archive entries.
pub open spec fn entries_view(s: Seq<ArchiveEntry>) -> Seq<(Seq<char>, Seq<u8>, u32)> {
    Seq::new(s.len(), |i: int| (s[i].path@, s[i].data@, s[i].mode))
}

/// The entries of the archive: the manifest first, then the declared files in
/// order.
pub open spec fn archive_model(files: Seq<FileEntry>, manifest_bytes: Seq<u8>, contents: Seq<Vec<u8>>) -> Seq<(Seq<char>, Seq<u8>, u32)> {
    seq![(manifest_name(), manifest_bytes, 0o644u32)] + Seq::new(
        files.len(),
        |i: int| (files[i].archive_path@, contents[i]@, file_mode(files[i])),
    )
}

/// The entries to write: `atool.json` holding `manifest_bytes`, then each
/// declared file with its content `contents[i]` and its mode.
pub fn archive_entries(m: &Manifest, manifest_bytes: Vec<u8>, contents: Vec<Vec<u8>>) -> (r: Vec<ArchiveEntry>)
    requires
        contents@.len() == opt_seq(m.files).len(),
    ensures
        entries_view(r@) == archive_model(opt_seq(m.files), manifest_bytes@, contents@),
{
    let ghost c0 = contents@;
    let ghost mb = manifest_bytes@;
    let ghost files = opt_seq(m.files);
    let mut out: Vec<ArchiveEntry> = Vec::new();
    out.push(ArchiveEntry { path: String::from_str("atool.json"), data: manifest_bytes, mode: 0o644 });
    let mut contents = contents;
    match &m.files {
        Some(fs) => {
            let n = fs.len();
            let mut i: usize = 0;
            while i < n
                invariant
                    n == fs@.len(),
                    files == fs@,
                    c0.len() == n,
                    i <= n,
                    contents@ == c0.skip(i as int),
                    entries_view(out@) == archive_model(files.take(i as int), mb, c0.take(i as int)),
                decreases n - i,
            {
                let data = contents.remove(0);
                assert(c0.skip(i as int).drop_first() =~= c0.skip(i + 1));
                let f = &fs[i];
                let mode: u32 = match f.executable {
                    Some(true) => 0o755,
                    _ => 0o644,
                };
                let ghost before = entries_view(out@);
                out.push(ArchiveEntry { path: f.archive_path.clone(), data, mode });
                assert(entries_view(out@) =~= before.push((f.archive_path@, c0[i as int]@, file_mode(*f))));
                assert(archive_model(files.take(i + 1), mb, c0.take(i + 1)) =~= archive_model(
                    files.take(i as int),
                    mb,
                    c0.take(i as int),
                ).push((f.archive_path@, c0[i as int]@, file_mode(*f))));
                i = i + 1;
            }
            assert(files.take(n as int) =~= files);
            assert(c0.take(n as int) =~= c0);
        },
        None => {
            assert(entries_view(out@) =~= archive_model(files, mb, c0));
        },
    }
    out
}

/// The model of a list of `(path, bytes)` pairs.
pub open spec fn pairs_view(s: Seq<(String, Vec<u8>)>) -> Seq<(Seq<char>, Seq<u8>)> {
    Seq::new(s.len(), |i: int| (s[i].0@, s[i].1@))
}

/// The bytes of the last entry named `atool.json`.
pub open spec fn last_manifest(es: Seq<(Seq<char>, Seq<u8>)>) -> Option<Seq<u8>>
    decreases es.len(),
{
    if es.len() == 0 {
        None
    } else if es.last().0 == manifest_name() {
        Some(es.last().1)
    } else {
        last_manifest(es.drop_last())
    }
}

/// The entries other than `atool.json`, in order.
pub open spec fn non_manifest(es: Seq<(Seq<char>, Seq<u8>)>) -> Seq<(Seq<char>, Seq<u8>)>
    decreases es.len(),
{
    if es.len() == 0 {
        Seq::empty()
    } else if es.last().0 == manifest_name() {
        non_manifest(es.drop_last())
    } else {
        non_manifest(es.drop_last()).push(es.last())
    }
}

/// The size of every entry, in order.
pub open spec fn entry_sizes(es: Seq<(Seq<char>, Seq<u8>)>) -> Seq<(Seq<char>, int)> {
    Seq::new(es.len(), |i: int| (es[i].0, es[i].1.len() as int))
}

/// The model of a list of `(path, size)` pairs.
pub open spec fn sizes_view(s: Seq<(String, u64)>) -> Seq<(Seq<char>, int)> {
    Seq::new(s.len(), |i: int| (s[i].0@, s[i].1 as int))
}

/// What is read out of an archive's entries.
#[derive(Debug)]
pub struct ArchiveParts {
    /// The content of `atool.json`.
    pub manifest_bytes: Vec<u8>,
    /// `(path, bytes)` of the other entries, when asked for.
    pub file_bytes: Vec<(String, Vec<u8>)>,
    /// `(path, size)` of every entry.
    pub sizes: Vec<(String, u64)>,
}

/// Sort an archive's entries (`(path, bytes)` in stream order): the last
/// `atool.json` entry is the manifest, the others are files (kept only when
/// `keep_bytes`), and every entry's size is listed.
pub fn split_archive(entries: Vec<(String, Vec<u8>)>, keep_bytes: bool) -> (r: Result<ArchiveParts, Error>)
    ensures
        r is Err <==> last_manifest(pairs_view(entries@)) is None,
        r matches Err(e) ==> e is MissingManifest,
        r matches Ok(p) ==> {
            &&& Some(p.manifest_bytes@) == last_manifest(pairs_view(entries@))
            &&& pairs_view(p.file_bytes@) == if keep_bytes {
                non_manifest(pairs_view(entries@))
            } else {
                Seq::empty()
            }
            &&& sizes_view(p.sizes@) == entry_sizes(pairs_view(entries@))
        },
{
    let ghost ev = pairs_view(entries@);
    let n = entries.len();
    let mut entries = entries;
    let mut manifest: Option<Vec<u8>> = None;
    let mut file_bytes: Vec<(String, Vec<u8>)> = Vec::new();
    let mut sizes: Vec<(String, u64)> = Vec::new();
    let mut i: usize = 0;
    while i < n
        invariant
            n == ev.len(),
            i <= n,
            pairs_view(entries@) == ev.skip(i as int),
            entries@.len() == n - i,
            match manifest {
                Some(b) => last_manifest(ev.take(i as int)) == Some(b@),
                None => last_manifest(ev.take(i as int)) is None,
            },
            pairs_view(file_bytes@) == if keep_bytes {
                non_manifest(ev.take(i as int))
            } else {
                Seq::empty()
            },
            sizes_view(sizes@) == entry_sizes(ev.take(i as int)),
        decreases n - i,
    {
        let ghost rest = entries@;
        let (path, buf) = entries.remove(0);
        assert(pairs_view(entries@) =~= pairs_view(rest).drop_first());
        assert(ev.skip(i as int).drop_first() =~= ev.skip(i + 1));
        assert(pairs_view(rest)[0] == (path@, buf@));
        assert(ev.skip(i as int)[0] == ev[i as int]);
        assert(ev[i as int] == (path@, buf@));
        let ghost t = ev.take(i + 1);
        assert(t.drop_last() =~= ev.take(i as int));
        let ghost sz0 = sizes@;
        sizes.push((path.clone(), buf.len() as u64));
        assert(sizes_view(sizes@) =~= sizes_view(sz0).push((path@, buf@.len() as int)));
        assert(entry_sizes(t) =~= entry_sizes(ev.take(i as int)).push((path@, buf@.len() as int)));
        assert(sizes_view(sizes@) =~= entry_sizes(t));
        if str_eq_manifest(&path) {
            manifest = Some(buf);
            if keep_bytes {
                assert(non_manifest(t) == non_manifest(ev.take(i as int)));
            }
        } else if keep_bytes {
            let ghost fb0 = file_bytes@;
            file_bytes.push((path, buf));
            assert(pairs_view(file_bytes@) =~= pairs_view(fb0).push(t.last()));
        }
        i = i + 1;
    }
    assert(ev.take(n as int) =~= ev);
    match manifest {
        Some(manifest_bytes) => Ok(ArchiveParts { manifest_bytes, file_bytes, sizes }),
        None => Err(Error::MissingManifest),
    }
}

fn str_eq_manifest(p: &String) -> (r: bool)
    ensures
        r == (p@ == manifest_name()),
{
    crate::json::str_eq(p.as_str(), "atool.json")
}

/// The bytes of the first entry named `p`.
pub open spec fn find_bytes(fb: Seq<(Seq<char>, Seq<u8>)>, p: Seq<char>) -> Option<Seq<u8>>
    decreases fb.len(),
{
    if fb.len() == 0 {
        None
    } else if fb[0].0 == p {
        Some(fb[0].1)
    } else {
        find_bytes(fb.drop_first(), p)
    }
}

/// How a declared file fares against the archive's files.
pub enum FileStatus {
    /// No digest is declared (absent or empty): nothing to check.
    Unchecked,
    /// The file is there and hashes to the declared digest.
    Matches,
    /// No entry carries the file's path.
    Missing,
    /// The file hashes to this other digest.
    Mismatch(Seq<char>),
}

pub open spec fn file_status(f: FileEntry, fb: Seq<(Seq<char>, Seq<u8>)>) -> FileStatus {
    match f.sha256 {
        Some(want) => if want@.len() == 0 {
            FileStatus::Unchecked
        } else {
            match find_bytes(fb, f.archive_path@) {
                None => FileStatus::Missing,
                Some(bytes) => if digest_hex(bytes) == want@ {
                    FileStatus::Matches
                } else {
                    FileStatus::Mismatch(digest_hex(bytes))
                },
            }
        },
        None => FileStatus::Unchecked,
    }
}

pub open spec fn file_bad(f: FileEntry, fb: Seq<(Seq<char>, Seq<u8>)>) -> bool {
    file_status(f, fb) is Missing || file_status(f, fb) is Mismatch
}

/// `e` is the error that reports file `f`'s problem.
pub open spec fn reports(e: Error, f: FileEntry, fb: Seq<(Seq<char>, Seq<u8>)>) -> bool {
    match file_status(f, fb) {
        FileStatus::Missing => e matches Error::MissingFile(p) && p@ == f.archive_path@,
        FileStatus::Mismatch(got) => e matches Error::Sha256Mismatch { path, want, got: g } && path@
            == f.archive_path@ && want@ == f.sha256->Some_0@ && g@ == got,
        _ => false,
    }
}

fn lookup_bytes<'a>(fb: &'a Vec<(String, Vec<u8>)>, p: &String) -> (r: Option<&'a Vec<u8>>)
    ensures
        match r {
            Some(b) => find_bytes(pairs_view(fb@), p@) == Some(b@),
            None => find_bytes(pairs_view(fb@), p@) is None,
        },
{
    let ghost v = pairs_view(fb@);
    assert(v.skip(0) =~= v);
    let mut i: usize = 0;
    while i < fb.len()
        invariant
            v == pairs_view(fb@),
            i <= fb@.len(),
            find_bytes(v, p@) == find_bytes(v.skip(i as int), p@),
        decreases fb@.len() - i,
    {
        assert(v.skip(i as int)[0] == v[i as int]);
        if fb[i].0 == *p {
            return Some(&fb[i].1);
        }
        assert(v.skip(i as int).drop_first() =~= v.skip(i + 1));
        i = i + 1;
    }
    None
}

/// The archive passes the check of [`verify`]: the manifest is valid and no
/// declared file is missing or hashes to another digest than it declares.
pub open spec fn archive_ok(m: Manifest, fb: Seq<(Seq<char>, Seq<u8>)>) -> bool {
    &&& valid_manifest(m.json())
    &&& forall|i: int| 0 <= i < opt_seq(m.files).len() ==> !file_bad(#[trigger] opt_seq(m.files)[i], fb)
}

/// `e` is the error [`verify`] gives: the schema violations of an invalid
/// manifest, else the report of the first failing file in declaration order.
pub open spec fn verify_error(m: Manifest, fb: Seq<(Seq<char>, Seq<u8>)>, e: Error) -> bool {
    if valid_manifest(m.json()) {
        exists|i: int|
            0 <= i < opt_seq(m.files).len() && reports(e, #[trigger] opt_seq(m.files)[i], fb)
                && forall|j: int| 0 <= j < i ==> !file_bad(opt_seq(m.files)[j], fb)
    } else {
        e is Schema && e->Schema_0@ == schema_text(violations(m.json()))
    }
}

/// Every declared file that carries a non-empty digest is among the entries
/// `fb` (`(path, bytes)`), and the first entry of its path hashes to that
/// digest.
pub open spec fn every_digest_matches(files: Seq<FileEntry>, fb: Seq<(Seq<char>, Seq<u8>)>) -> bool {
    forall|i: int|
        0 <= i < files.len() && (#[trigger] files[i]).sha256 is Some && files[i].sha256->Some_0@.len()
            > 0 ==> exists|j: int|
            0 <= j < fb.len() && (#[trigger] fb[j]).0 == files[i].archive_path@ && digest_hex(fb[j].1)
                == files[i].sha256->Some_0@ && forall|k: int|
                0 <= k < j ==> fb[k].0 != files[i].archive_path@
}

proof fn lemma_find_bytes_some(fb: Seq<(Seq<char>, Seq<u8>)>, p: Seq<char>) -> (i: int)
    requires
        find_bytes(fb, p) is Some,
    ensures
        0 <= i < fb.len(),
        fb[i].0 == p,
    decreases fb.len(),
{
    if fb[0].0 == p {
        0
    } else {
        let k = lemma_find_bytes_some(fb.drop_first(), p);
        assert(fb.drop_first()[k] == fb[k + 1]);
        k + 1
    }
}

/// The check of [`verify`] is the one the wire format asks for: the manifest
/// is valid, and every declared file with a non-empty digest, at every place
/// in the list, is present and the first entry of its path hashes to that
/// digest.
pub proof fn law_verify_checks_every_file(m: Manifest, fb: Seq<(Seq<char>, Seq<u8>)>)
    ensures
        archive_ok(m, fb) <==> valid_manifest(m.json()) && every_digest_matches(opt_seq(m.files), fb),
{
    let fs = opt_seq(m.files);
    if archive_ok(m, fb) {
        assert forall|i: int|
            0 <= i < fs.len() && (#[trigger] fs[i]).sha256 is Some && fs[i].sha256->Some_0@.len()
                > 0 implies exists|j: int|
            0 <= j < fb.len() && (#[trigger] fb[j]).0 == fs[i].archive_path@ && digest_hex(fb[j].1)
                == fs[i].sha256->Some_0@ && forall|k: int|
                0 <= k < j ==> fb[k].0 != fs[i].archive_path@ by {
            assert(!file_bad(fs[i], fb));
            let p = fs[i].archive_path@;
            let i0 = lemma_find_bytes_some(fb, p);
            let j = lemma_find_bytes_first(fb, p, i0);
            assert(fb[j].0 == p);
        }
    }
    if valid_manifest(m.json()) && every_digest_matches(fs, fb) {
        assert forall|i: int| 0 <= i < fs.len() implies !file_bad(#[trigger] fs[i], fb) by {
            if fs[i].sha256 is Some && fs[i].sha256->Some_0@.len() > 0 {
                let p = fs[i].archive_path@;
                let j = choose|j: int|
                    0 <= j < fb.len() && (#[trigger] fb[j]).0 == p && digest_hex(fb[j].1)
                        == fs[i].sha256->Some_0@ && forall|k: int| 0 <= k < j ==> fb[k].0 != p;
                lemma_find_bytes_at(fb, p, j);
            }
        }
    }
}

/// Check a manifest read from an archive against the archive's other entries
/// (`file_bytes`, `(path, bytes)`): the manifest must be valid, and every
/// declared file with a non-empty digest must be present and hash to it. The
/// first failing file in declaration order is reported.
pub fn verify(manifest: Manifest, file_bytes: &Vec<(String, Vec<u8>)>) -> (r: Result<Manifest, Error>)
    ensures
        r is Ok <==> archive_ok(manifest, pairs_view(file_bytes@)),
        r is Ok <==> valid_manifest(manifest.json()) && every_digest_matches(
            opt_seq(manifest.files),
            pairs_view(file_bytes@),
        ),
        r matches Ok(m) ==> m == manifest,
        r matches Err(e) ==> verify_error(manifest, pairs_view(file_bytes@), e),
{
    proof {
        law_verify_checks_every_file(manifest, pairs_view(file_bytes@));
    }
    let ghost fbv = pairs_view(file_bytes@);
    let j = manifest.to_json();
    match assert_valid(&j) {
        Err(e) => return Err(e),
        Ok(()) => {},
    }
    let ghost files = opt_seq(manifest.files);
    match &manifest.files {
        Some(fs) => {
            let mut i: usize = 0;
            while i < fs.len()
                invariant
                    files == fs@,
                    files == opt_seq(manifest.files),
                    valid_manifest(manifest.json()),
                    fbv == pairs_view(file_bytes@),
                    i <= fs@.len(),
                    forall|j: int| 0 <= j < i ==> !file_bad(#[trigger] files[j], fbv),
                    archive_ok(manifest, fbv) <==> valid_manifest(manifest.json())
                        && every_digest_matches(files, fbv),
                decreases fs@.len() - i,
            {
                let f = &fs[i];
                match &f.sha256 {
                    Some(want) => {
                        if want.as_str().unicode_len() > 0 {
                            match lookup_bytes(file_bytes, &f.archive_path) {
                                None => {
                                    let e = Error::MissingFile(f.archive_path.clone());
                                    assert(reports(e, files[i as int], fbv));
                                    assert(file_bad(files[i as int], fbv));
                                    return Err(e);
                                },
                                Some(bytes) => {
                                    let got = sha256_bytes(bytes.as_slice());
                                    if got != *want {
                                        let e = Error::Sha256Mismatch {
                                            path: f.archive_path.clone(),
                                            want: want.clone(),
                                            got,
                                        };
                                        assert(reports(e, files[i as int], fbv));
                                        assert(file_bad(files[i as int], fbv));
                                        return Err(e);
                                    }
                                },
                            }
                        }
                    },
                    None => {},
                }
                i = i + 1;
            }
        },
        None => {},
    }
    Ok(manifest)
}


/// Per-entry summary returned from [`inspect`].
#[derive(Debug, Clone, PartialEq)]
pub struct InspectedFile {
    pub name: String,
    pub size: u64,
}

/// A light look at an archive's contents.
#[derive(Debug)]
pub struct InspectResult {
    pub manifest: Manifest,
    pub files: Vec<InspectedFile>,
    pub total_bytes: u64,
}

/// The sum of the sizes.
pub open spec fn total_size(s: Seq<(Seq<char>, int)>) -> int
    decreases s.len(),
{
    if s.len() == 0 {
        0
    } else {
        total_size(s.drop_last()) + s.last().1
    }
}

/// The model of a list of inspected files.
pub open spec fn inspected_view(s: Seq<InspectedFile>) -> Seq<(Seq<char>, int)> {
    Seq::new(s.len(), |i: int| (s[i].name@, s[i].size as int))
}

proof fn lemma_total_size_prefix(s: Seq<(Seq<char>, int)>, i: int)
    requires
        0 <= i <= s.len(),
        forall|j: int| 0 <= j < s.len() ==> #[trigger] s[j].1 >= 0,
    ensures
        0 <= total_size(s.take(i)) <= total_size(s),
    decreases s.len(),
{
    if s.len() > 0 {
        if i == s.len() {
            assert(s.take(i) =~= s);
            lemma_total_size_prefix(s.drop_last(), s.len() - 1);
            assert(s.drop_last().take(s.len() - 1) =~= s.drop_last());
        } else {
            lemma_total_size_prefix(s.drop_last(), i);
            assert(s.drop_last().take(i) =~= s.take(i));
        }
    }
}

/// Summarise an archive from its manifest and its entries' sizes (in stream
/// order): one line per entry, and the total size.
pub fn inspect(manifest: Manifest, sizes: Vec<(String, u64)>) -> (r: InspectResult)
    requires
        total_size(sizes_view(sizes@)) <= u64::MAX,
    ensures
        r.manifest == manifest,
        inspected_view(r.files@) == sizes_view(sizes@),
        r.total_bytes == total_size(sizes_view(sizes@)),
{
    let ghost sv = sizes_view(sizes@);
    let n = sizes.len();
    let mut sizes = sizes;
    let mut files: Vec<InspectedFile> = Vec::new();
    let mut total: u64 = 0;
    let mut i: usize = 0;
    while i < n
        invariant
            n == sv.len(),
            i <= n,
            sizes_view(sizes@) == sv.skip(i as int),
            sizes@.len() == n - i,
            total_size(sv) <= u64::MAX,
            forall|j: int| 0 <= j < sv.len() ==> #[trigger] sv[j].1 >= 0,
            inspected_view(files@) == sv.take(i as int),
            total == total_size(sv.take(i as int)),
        decreases n - i,
    {
        let ghost rest = sizes@;
        let (name, size) = sizes.remove(0);
        assert(sizes_view(sizes@) =~= sizes_view(rest).drop_first());
        assert(sv.skip(i as int).drop_first() =~= sv.skip(i + 1));
        assert(sizes_view(rest)[0] == (name@, size as int));
        assert(sv.skip(i as int)[0] == sv[i as int]);
        assert(sv.take(i + 1).drop_last() =~= sv.take(i as int));
        proof {
            lemma_total_size_prefix(sv, i + 1);
        }
        total = total + size;
        let ghost f0 = files@;
        files.push(InspectedFile { name, size });
        assert(inspected_view(files@) =~= inspected_view(f0).push(sv[i as int]));
        assert(sv.take(i + 1) =~= sv.take(i as int).push(sv[i as int]));
        i = i + 1;
    }
    assert(sv.take(n as int) =~= sv);
    InspectResult { manifest, files, total_bytes: total }
}

/// The `(path, bytes)` pairs of archive entries.
pub open spec fn without_modes(es: Seq<(Seq<char>, Seq<u8>, u32)>) -> Seq<(Seq<char>, Seq<u8>)> {
    Seq::new(es.len(), |i: int| (es[i].0, es[i].1))
}

/// Declared files that share an archive path have equal contents, and no
/// declared file is `atool.json`.
pub open spec fn archive_paths_ok(files: Seq<FileEntry>, contents: Seq<Vec<u8>>) -> bool {
    &&& forall|i: int, j: int|
        0 <= i < j < files.len() && (#[trigger] files[i]).archive_path@ == (
        #[trigger] files[j]).archive_path@ ==> contents[i]@ == contents[j]@
    &&& forall|i: int| 0 <= i < files.len() ==> (#[trigger] files[i]).archive_path@ != manifest_name()
}

proof fn lemma_manifest_first(x: (Seq<char>, Seq<u8>), t: Seq<(Seq<char>, Seq<u8>)>)
    requires
        x.0 == manifest_name(),
        forall|j: int| 0 <= j < t.len() ==> (#[trigger] t[j]).0 != manifest_name(),
    ensures
        non_manifest(seq![x] + t) == t,
        last_manifest(seq![x] + t) == Some(x.1),
    decreases t.len(),
{
    let s = seq![x] + t;
    if t.len() == 0 {
        assert(s.drop_last() =~= Seq::<(Seq<char>, Seq<u8>)>::empty());
        assert(t =~= Seq::<(Seq<char>, Seq<u8>)>::empty());
        assert(non_manifest(s) == non_manifest(s.drop_last()));
    } else {
        assert(s.drop_last() =~= seq![x] + t.drop_last());
        assert(s.last() == t.last());
        assert(t[t.len() - 1].0 != manifest_name());
        assert forall|j: int| 0 <= j < t.drop_last().len() implies (#[trigger] t.drop_last()[j]).0 != manifest_name() by {
            assert(t.drop_last()[j] == t[j]);
        }
        lemma_manifest_first(x, t.drop_last());
        assert(non_manifest(s) == non_manifest(s.drop_last()).push(s.last()));
        assert(t.drop_last().push(t.last()) =~= t);
    }
}

proof fn lemma_find_bytes_at(fb: Seq<(Seq<char>, Seq<u8>)>, p: Seq<char>, i: int)
    requires
        0 <= i < fb.len(),
        fb[i].0 == p,
        forall|j: int| 0 <= j < i ==> (#[trigger] fb[j]).0 != p,
    ensures
        find_bytes(fb, p) == Some(fb[i].1),
    decreases i,
{
    if i > 0 {
        assert forall|j: int| 0 <= j < i - 1 implies (#[trigger] fb.drop_first()[j]).0 != p by {
            assert(fb.drop_first()[j] == fb[j + 1]);
        }
        lemma_find_bytes_at(fb.drop_first(), p, i - 1);
    }
}

proof fn lemma_find_bytes_first(fb: Seq<(Seq<char>, Seq<u8>)>, p: Seq<char>, i: int) -> (j: int)
    requires
        0 <= i < fb.len(),
        fb[i].0 == p,
    ensures
        0 <= j <= i,
        fb[j].0 == p,
        find_bytes(fb, p) == Some(fb[j].1),
        forall|k: int| 0 <= k < j ==> fb[k].0 != p,
    decreases i,
{
    if fb[0].0 == p {
        0
    } else {
        assert(fb.drop_first()[i - 1] == fb[i]);
        let k = lemma_find_bytes_first(fb.drop_first(), p, i - 1);
        assert(fb.drop_first()[k] == fb[k + 1]);
        assert forall|k2: int| 0 <= k2 < k + 1 implies fb[k2].0 != p by {
            if k2 > 0 {
                assert(fb.drop_first()[k2 - 1] == fb[k2]);
            }
        }
        k + 1
    }
}

/// The JSON form of every declared file follows the file rule.
pub proof fn lemma_file_entry_ok(f: FileEntry)
    ensures
        crate::schema::file_ok(f.json()),
{
    let o = f.members();
    reveal_strlit("archive_path");
    reveal_strlit("install_path");
    assert("archive_path"@[0] != "install_path"@[0]);
    assert(is_first_key(o, "archive_path"@, 0));
    lemma_key_pos_found(o, "archive_path"@, 0);
    assert(is_first_key(o, "install_path"@, 1));
    lemma_key_pos_found(o, "install_path"@, 1);
}

proof fn lemma_rule_keys_not_files()
    ensures
        "schema_version"@ != "files"@,
        "name"@ != "files"@,
        "version"@ != "files"@,
        "description"@ != "files"@,
        "kind"@ != "files"@,
        "config"@ != "files"@,
        "extends"@ != "files"@,
        "lockfile"@ != "files"@,
        "components"@ != "files"@,
        "install"@ != "files"@,
        "dependencies"@ != "files"@,
        "signature"@ != "files"@,
{
    reveal_strlit("files");
    reveal_strlit("schema_version");
    reveal_strlit("name");
    reveal_strlit("version");
    reveal_strlit("description");
    reveal_strlit("kind");
    reveal_strlit("config");
    reveal_strlit("extends");
    reveal_strlit("lockfile");
    reveal_strlit("components");
    reveal_strlit("install");
    reveal_strlit("dependencies");
    reveal_strlit("signature");
    assert("files"@.len() == 5);
    assert("schema_version"@.len() == 14);
    assert("name"@.len() == 4);
    assert("version"@.len() == 7);
    assert("description"@.len() == 11);
    assert("kind"@.len() == 4);
    assert("config"@.len() == 6);
    assert("extends"@.len() == 7);
    assert("lockfile"@.len() == 8);
    assert("components"@.len() == 10);
    assert("install"@.len() == 7);
    assert("dependencies"@.len() == 12);
    assert("signature"@.len() == 9);
}

/// Two member lists that differ only in the value at place `q`, named
/// `files`: the rules other than the file rule hold of both alike.
proof fn lemma_valid_same_but_files(o1: Seq<(Seq<char>, Json)>, o2: Seq<(Seq<char>, Json)>, q: int)
    requires
        valid_manifest(Json::Obj(o1)),
        o1.len() == o2.len(),
        0 <= q < o1.len(),
        o1[q].0 == "files"@,
        forall|i: int| 0 <= i < o1.len() ==> (#[trigger] o1[i]).0 == o2[i].0,
        forall|i: int| 0 <= i < o1.len() && i != q ==> (#[trigger] o1[i]).1 == o2[i].1,
        o2[q].1 matches Json::Arr(items) && crate::schema::all_items(items, crate::schema::ItemRule::File),
    ensures
        valid_manifest(Json::Obj(o2)),
{
    lemma_rule_keys_not_files();
    let ks = seq![
        "schema_version"@,
        "name"@,
        "version"@,
        "description"@,
        "kind"@,
        "config"@,
        "extends"@,
        "lockfile"@,
        "components"@,
        "install"@,
        "dependencies"@,
        "signature"@,
    ];
    assert forall|i: int| 0 <= i < ks.len() implies get(o2, #[trigger] ks[i]) == get(o1, ks[i]) by {
        lemma_same_keys_get(o1, o2, q, ks[i]);
        lemma_key_pos_range(o1, ks[i]);
    }
    assert(ks[0] == "schema_version"@ && ks[1] == "name"@ && ks[2] == "version"@ && ks[3]
        == "description"@ && ks[4] == "kind"@ && ks[5] == "config"@ && ks[6] == "extends"@ && ks[7]
        == "lockfile"@ && ks[8] == "components"@ && ks[9] == "install"@ && ks[10]
        == "dependencies"@ && ks[11] == "signature"@);
    lemma_same_keys_get(o1, o2, q, "files"@);
    assert(crate::schema::each_item(get(o2, "files"@), crate::schema::ItemRule::File));
}

/// Filling in the file digests keeps a valid manifest valid: a manifest that
/// builds also packs.
pub proof fn law_hashing_keeps_valid(m: Manifest, m2: Manifest, contents: Seq<Vec<u8>>)
    requires
        valid_manifest(m.json()),
        hashed(m, m2, contents),
    ensures
        valid_manifest(m2.json()),
{
    if m.files is None {
        assert(m2 == m);
    } else {
        let a = Seq::empty() + seq![("schema_version"@, m.schema_version.json())] + seq![
            ("name"@, m.name.json()),
        ] + seq![("version"@, m.version.json())] + seq![("kind"@, m.kind.json())] + seq![
            ("description"@, m.description.json()),
        ] + opt_member("author"@, m.author) + opt_member("license"@, m.license) + opt_member(
            "requires_alexandria"@,
            m.requires_alexandria,
        ) + opt_member("dependencies"@, m.dependencies) + opt_member("extends"@, m.extends)
            + opt_member("lockfile"@, m.lockfile);
        let b = opt_member("permissions"@, m.permissions) + seq![("config"@, m.config.json())]
            + opt_member("components"@, m.components) + opt_member("install"@, m.install)
            + opt_member("signature"@, m.signature);
        let x1 = opt_member("files"@, m.files);
        let x2 = opt_member("files"@, m2.files);
        let o1 = m.members();
        let o2 = m2.members();
        assert(o1 =~= a + x1 + b);
        assert(o2 =~= a + x2 + b);
        let q = a.len() as int;
        let f2 = m2.files->Some_0@;
        let items = Seq::new(f2.len(), |j: int| f2[j].json());
        assert forall|i: int| 0 <= i < items.len() implies crate::schema::item_holds(
            crate::schema::ItemRule::File,
            #[trigger] items[i],
        ) by {
            lemma_file_entry_ok(f2[i]);
        }
        assert(o2[q].1 == Json::Arr(items));
        lemma_valid_same_but_files(o1, o2, q);
    }
}

/// Packing, then reading back: when `m2` is `m` with its file digests filled
/// in from `contents` (what [`pack`] returns), declared files that share an
/// archive path have equal contents, and none is `atool.json`, the entries that
/// [`archive_entries`] lays out read back (by [`split_archive`]) to the
/// manifest bytes, every declared file passes the check of [`verify`] against
/// the other entries, and so a valid `m2` passes [`verify`].
pub proof fn law_pack_then_verify(
    m: Manifest,
    m2: Manifest,
    contents: Seq<Vec<u8>>,
    manifest_bytes: Seq<u8>,
)
    requires
        hashed(m, m2, contents),
        archive_paths_ok(opt_seq(m.files), contents),
    ensures
        ({
            let es = without_modes(archive_model(opt_seq(m2.files), manifest_bytes, contents));
            &&& last_manifest(es) == Some(manifest_bytes)
            &&& forall|i: int|
                0 <= i < opt_seq(m2.files).len() ==> !file_bad(
                    #[trigger] opt_seq(m2.files)[i],
                    non_manifest(es),
                )
            &&& valid_manifest(m2.json()) ==> archive_ok(m2, non_manifest(es))
        }),
{
    let f1 = opt_seq(m.files);
    let f2 = opt_seq(m2.files);
    let es = without_modes(archive_model(f2, manifest_bytes, contents));
    let t = Seq::new(f2.len(), |i: int| (f2[i].archive_path@, contents[i]@));
    assert(f2.len() == f1.len());
    assert(forall|i: int| 0 <= i < f2.len() ==> (#[trigger] f2[i]).archive_path == f1[i].archive_path);
    assert(es =~= seq![(manifest_name(), manifest_bytes)] + t);
    assert forall|j: int| 0 <= j < t.len() implies (#[trigger] t[j]).0 != manifest_name() by {
        assert(f2[j].archive_path == f1[j].archive_path);
    }
    lemma_manifest_first((manifest_name(), manifest_bytes), t);
    assert forall|i: int| 0 <= i < f2.len() implies !file_bad(#[trigger] f2[i], non_manifest(es)) by {
        let j = lemma_find_bytes_first(t, f2[i].archive_path@, i);
        assert(f2[j].archive_path == f1[j].archive_path);
        assert(f2[i].archive_path == f1[i].archive_path);
        if j < i {
            assert(contents[j]@ == contents[i]@);
        }
        assert(find_bytes(t, f2[i].archive_path@) == Some(contents[i]@));
    }
}


/// The sum of the contents' lengths.
pub open spec fn content_total(contents: Seq<Vec<u8>>) -> int
    decreases contents.len(),
{
    if contents.len() == 0 {
        0
    } else {
        content_total(contents.drop_last()) + contents.last()@.len()
    }
}

/// What [`inspect`] lists of a packed archive: `atool.json` with the manifest's
/// size, then each declared file with its content's size.
pub open spec fn pack_listing(files: Seq<FileEntry>, manifest_bytes: Seq<u8>, contents: Seq<Vec<u8>>) -> Seq<(Seq<char>, int)> {
    seq![(manifest_name(), manifest_bytes.len() as int)] + Seq::new(
        files.len(),
        |i: int| (files[i].archive_path@, contents[i]@.len() as int),
    )
}

proof fn lemma_total_prefixed(x: (Seq<char>, int), t: Seq<(Seq<char>, int)>)
    ensures
        total_size(seq![x] + t) == x.1 + total_size(t),
    decreases t.len(),
{
    let s = seq![x] + t;
    if t.len() == 0 {
        assert(s.drop_last() =~= Seq::<(Seq<char>, int)>::empty());
        assert(s.last() == x);
        assert(total_size(s) == total_size(s.drop_last()) + s.last().1);
    } else {
        assert(s.drop_last() =~= seq![x] + t.drop_last());
        assert(s.last() == t.last());
        lemma_total_prefixed(x, t.drop_last());
        assert(total_size(s) == total_size(s.drop_last()) + s.last().1);
    }
}

proof fn lemma_total_contents(t: Seq<(Seq<char>, int)>, contents: Seq<Vec<u8>>)
    requires
        t.len() == contents.len(),
        forall|i: int| 0 <= i < t.len() ==> (#[trigger] t[i]).1 == contents[i]@.len(),
    ensures
        total_size(t) == content_total(contents),
    decreases t.len(),
{
    if t.len() > 0 {
        lemma_total_contents(t.drop_last(), contents.drop_last());
    }
}

/// Packing, then inspecting: when `m2` is `m` with its file digests filled in
/// from `contents` (what [`pack`] returns), the entries that
/// [`archive_entries`] lays out have the sizes [`split_archive`] and
/// [`inspect`] report: `atool.json` first with the manifest's size, then each
/// declared file in declaration order with its content's size; and the total
/// is the manifest's size plus the contents' sizes.
pub proof fn law_pack_then_inspect(
    m: Manifest,
    m2: Manifest,
    contents: Seq<Vec<u8>>,
    manifest_bytes: Seq<u8>,
)
    requires
        hashed(m, m2, contents),
    ensures
        entry_sizes(without_modes(archive_model(opt_seq(m2.files), manifest_bytes, contents)))
            == pack_listing(opt_seq(m.files), manifest_bytes, contents),
        total_size(pack_listing(opt_seq(m.files), manifest_bytes, contents)) == manifest_bytes.len()
            + content_total(contents),
{
    let f1 = opt_seq(m.files);
    let f2 = opt_seq(m2.files);
    assert(f2.len() == f1.len());
    assert(forall|i: int| 0 <= i < f2.len() ==> (#[trigger] f2[i]).archive_path == f1[i].archive_path);
    assert(entry_sizes(without_modes(archive_model(f2, manifest_bytes, contents))) =~= pack_listing(
        f1,
        manifest_bytes,
        contents,
    ));
    let t = Seq::new(f1.len(), |i: int| (f1[i].archive_path@, contents[i]@.len() as int));
    assert(pack_listing(f1, manifest_bytes, contents) == seq![(manifest_name(), manifest_bytes.len() as int)] + t);
    lemma_total_prefixed((manifest_name(), manifest_bytes.len() as int), t);
    lemma_total_contents(t, contents);
}

/// Staging, then packing: when each declared file of `m` came from staging
/// (`staged[j]` is `(archive path, source path)`, as a builder's
/// `staged_spec` lists them, in the same order as the declared files) and
/// `m2` is `m` filled in from `contents` (`contents[j]` read from the `j`-th
/// source), then the `j`-th declared file of `m2` is the staged one with the
/// 64-digit hex digest of its content, and the archive's entry after
/// `atool.json` at that place holds the staged path, the content and mode
/// `0o755` exactly when the file is executable.
pub proof fn law_stage_then_pack(
    m: Manifest,
    staged: Seq<(Seq<char>, Seq<char>)>,
    m2: Manifest,
    contents: Seq<Vec<u8>>,
    manifest_bytes: Seq<u8>,
)
    requires
        opt_seq(m.files).len() == staged.len(),
        forall|j: int| 0 <= j < staged.len() ==> (#[trigger] opt_seq(m.files)[j]).archive_path@ == staged[j].0,
        hashed(m, m2, contents),
    ensures
        opt_seq(m2.files).len() == staged.len(),
        forall|j: int|
            0 <= j < staged.len() ==> {
                &&& (#[trigger] opt_seq(m2.files)[j]) == (FileEntry {
                    sha256: opt_seq(m2.files)[j].sha256,
                    ..opt_seq(m.files)[j]
                })
                &&& opt_seq(m2.files)[j].sha256 matches Some(d) && d@ == digest_hex(contents[j]@)
                    && d@.len() == 64
                &&& archive_model(opt_seq(m2.files), manifest_bytes, contents)[j + 1] == (
                    staged[j].0,
                    contents[j]@,
                    if opt_seq(m.files)[j].executable == Some(true) {
                        0o755u32
                    } else {
                        0o644u32
                    },
                )
            },
{
    let f1 = opt_seq(m.files);
    let f2 = opt_seq(m2.files);
    assert forall|j: int| 0 <= j < staged.len() implies {
        &&& (#[trigger] f2[j]) == (FileEntry { sha256: f2[j].sha256, ..f1[j] })
        &&& f2[j].sha256 matches Some(d) && d@ == digest_hex(contents[j]@) && d@.len() == 64
        &&& archive_model(f2, manifest_bytes, contents)[j + 1] == (
            staged[j].0,
            contents[j]@,
            if f1[j].executable == Some(true) {
                0o755u32
            } else {
                0o644u32
            },
        )
    } by {
        assert(f2[j] == (FileEntry { sha256: f2[j].sha256, ..f1[j] }));
        assert(archive_model(f2, manifest_bytes, contents)[j + 1] == (
            f2[j].archive_path@,
            contents[j]@,
            file_mode(f2[j]),
        ));
    }
}

/// The part of `s` after its last `/` (all of `s` when it has none).
pub open spec fn last_segment(s: Seq<char>) -> Seq<char>
    decreases s.len(),
{
    if s.len() == 0 {
        s
    } else if s.last() == '/' {
        Seq::empty()
    } else {
        last_segment(s.drop_last()).push(s.last())
    }
}

/// The archive extension of a kind: `aagent` for agents, `atool` otherwise.
pub open spec fn archive_extension(k: crate::manifest::Kind) -> Seq<char> {
    if k == crate::manifest::Kind::Aagent {
        "aagent"@
    } else {
        "atool"@
    }
}

/// The default archive name of a package: `<short name>-<version>.<ext>`, the
/// short name being the part of the name after its last `/`.
pub open spec fn default_archive_name(m: Manifest) -> Seq<char> {
    last_segment(m.name@) + "-"@ + m.version@ + "."@ + archive_extension(m.kind)
}

/// The default output path of `pack` for a manifest.
pub fn default_out_path(manifest: &Manifest) -> (r: String)
    ensures
        r@ == default_archive_name(*manifest),
{
    let name = manifest.name.as_str();
    let n = name.unicode_len();
    let mut start = n;
    assert(name@.subrange(0, n as int) =~= name@);
    assert(name@.subrange(n as int, n as int) =~= Seq::<char>::empty());
    assert(last_segment(name@) + Seq::<char>::empty() =~= last_segment(name@));
    while start > 0 && name.get_char(start - 1) != '/'
        invariant
            start <= n,
            n == name@.len(),
            last_segment(name@) == last_segment(name@.subrange(0, start as int)) + name@.subrange(
                start as int,
                n as int,
            ),
        decreases start,
    {
        let ghost pre = name@.subrange(0, start as int);
        assert(pre.drop_last() =~= name@.subrange(0, start - 1));
        assert(name@.subrange(start - 1, n as int) =~= seq![pre.last()] + name@.subrange(start as int, n as int));
        assert(last_segment(pre) == last_segment(pre.drop_last()).push(pre.last()));
        assert(last_segment(pre.drop_last()).push(pre.last()) + name@.subrange(start as int, n as int)
            =~= last_segment(pre.drop_last()) + name@.subrange(start - 1, n as int));
        start = start - 1;
    }
    proof {
        let pre = name@.subrange(0, start as int);
        if start > 0 {
            assert(pre.last() == '/');
        }
        assert(last_segment(pre) =~= Seq::<char>::empty());
        assert(last_segment(name@) =~= name@.subrange(start as int, n as int));
    }
    let short = name.substring_char(start, n);
    let mut r = String::from_str(short);
    r.append("-");
    r.append(manifest.version.as_str());
    r.append(".");
    match manifest.kind {
        crate::manifest::Kind::Aagent => r.append("aagent"),
        _ => r.append("atool"),
    }
    r
}

} // verus!
