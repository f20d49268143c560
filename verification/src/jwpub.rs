//! Publication (`.jwpub`) container and the rules that turn its rows into
//! meeting weeks.
//!
//! A publication is a ZIP whose `contents` entry is itself a ZIP holding one
//! SQLite database and the embedded pictures. Ciphertext document content is
//! never decrypted: when a document is not readable HTML, its media still
//! land in a "Media" row.

use std::io::Read;

use vstd::prelude::*;
use vstd::string::*;
use vstd::utf8::*;

use crate::calendar::{add_days, in_range, unix_days, unix_days_spec, valid_date, CivilDate};
use crate::error::AppError;
use crate::template::{flat_items, ids_of, leftover_media, leftover_spec};
use crate::text::{
    ascii_lower, chars_of, contains_seq, dec, ends_with_seq, ends_with_vec, int_text,
    owned, parse_i32, parse_i32_exec, parse_u8, parse_u8_exec, push_padded, push_padded_int,
    push_str, starts_with_seq, str_starts_with, trim, trim_is_empty, trim_seq,
};
use crate::week::{
    iso_text, items_view, normalize_issue_tag, normalized_tag, parse_iso_spec,
    parts_view, MediaItem, MediaItemV, MediaKind, MediaRef, MediaRefV, MediaStatus, MeetingKind,
    MeetingPart, MeetingPartV, MeetingWeek, MeetingWeekV,
};

verus! {

// ---------------------------------------------------------------------------
// What the `zip` crate reports of an archive held in memory.
// ---------------------------------------------------------------------------

/// Number of entries of the archive `bytes`, as `ZipArchive::new(..).len()` reports it.
pub uninterp spec fn zip_count_of(bytes: Seq<u8>) -> Result<usize, AppError>;

/// Name and directory flag of entry `index`, as `ZipArchive::by_index`
/// reports them (an entry on which `by_index` would panic counts as refused).
pub uninterp spec fn zip_header_of(bytes: Seq<u8>, index: usize) -> Result<(Seq<char>, bool), AppError>;

/// Decompressed data of entry `index`, read through `ZipArchive::by_index`.
pub uninterp spec fn zip_data_at_of(bytes: Seq<u8>, index: usize) -> Result<Seq<u8>, AppError>;

/// Decompressed data of the entry called `name`, read through `ZipArchive::by_name`.
pub uninterp spec fn zip_data_named_of(bytes: Seq<u8>, name: Seq<char>) -> Result<Seq<u8>, AppError>;

/// Opens the archive with `zip::ZipArchive::new` and returns `len()`.
/// Claimed: the count depends on the bytes alone; a refused archive is
/// `UnreadablePub`.
#[verifier::external_body]
fn zip_count(bytes: &[u8]) -> (r: Result<usize, AppError>)
    ensures
        r == zip_count_of(bytes@),
        r is Err ==> r->Err_0 is UnreadablePub,
{
    match zip::ZipArchive::new(std::io::Cursor::new(bytes)) {
        Ok(archive) => Ok(archive.len()),
        Err(_) => Err(AppError::UnreadablePub),
    }
}

/// `ZipArchive::by_index(index)` followed by `name()` and `is_dir()`.
/// `by_index` unwraps the answer of `by_index_decrypt` with no password,
/// which panics on an unencrypted entry carrying AES data; so the entry is
/// first opened with `by_index_decrypt(index, b"")`, which answers in a
/// `Result` (the password is dropped for an unencrypted entry), and
/// `by_index` is called only once that succeeded, when it cannot panic.
/// Claimed: the answer depends on the bytes and the index alone; an entry
/// that `by_index` refuses, or on which it would panic, is `UnreadablePub`.
#[verifier::external_body]
fn zip_header_at(bytes: &[u8], index: usize) -> (r: Result<(String, bool), AppError>)
    ensures
        match r {
            Ok((name, dir)) => zip_header_of(bytes@, index) == Ok::<(Seq<char>, bool), AppError>((name@, dir)),
            Err(e) => zip_header_of(bytes@, index) == Err::<(Seq<char>, bool), AppError>(e) && e is UnreadablePub,
        },
{
    let mut archive = match zip::ZipArchive::new(std::io::Cursor::new(bytes)) { Ok(a) => a, Err(_) => return Err(AppError::UnreadablePub) };
    match archive.by_index_decrypt(index, b"") {
        Ok(Ok(_)) => {},
        Ok(Err(_)) | Err(_) => return Err(AppError::UnreadablePub),
    }
    let header = match archive.by_index(index) {
        Ok(file) => Ok((file.name().to_string(), file.is_dir())),
        Err(_) => Err(AppError::UnreadablePub),
    };
    header
}

/// `ZipArchive::by_index(index)` followed by `read_to_end`, guarded as in
/// `zip_header_at`. Claimed: the answer depends on the bytes and the index
/// alone; an entry that `by_index` refuses, or on which it would panic, is
/// `UnreadablePub`, a failed read is `Io` with the reader's message.
#[verifier::external_body]
fn zip_read_at(bytes: &[u8], index: usize) -> (r: Result<Vec<u8>, AppError>)
    ensures
        match r {
            Ok(data) => zip_data_at_of(bytes@, index) == Ok::<Seq<u8>, AppError>(data@),
            Err(e) => zip_data_at_of(bytes@, index) == Err::<Seq<u8>, AppError>(e) && (e is UnreadablePub || e is Io),
        },
{
    let mut archive = match zip::ZipArchive::new(std::io::Cursor::new(bytes)) { Ok(a) => a, Err(_) => return Err(AppError::UnreadablePub) };
    match archive.by_index_decrypt(index, b"") {
        Ok(Ok(_)) => {},
        Ok(Err(_)) | Err(_) => return Err(AppError::UnreadablePub),
    }
    let mut buf = Vec::new();
    let read = match archive.by_index(index) {
        Ok(mut file) => match file.read_to_end(&mut buf) {
            Ok(_) => Ok(buf),
            Err(e) => Err(AppError::Io(e.to_string())),
        },
        Err(_) => Err(AppError::UnreadablePub),
    };
    read
}

/// `ZipArchive::by_name(name)` followed by `read_to_end`, guarded as in
/// `zip_header_at` with `by_name_decrypt(name, b"")`. Claimed: the answer
/// depends on the bytes and the name alone; a missing entry, or one that
/// `by_name` refuses or would panic on, is `UnreadablePub`, a failed read is
/// `Io`.
#[verifier::external_body]
fn zip_read_named(bytes: &[u8], name: &str) -> (r: Result<Vec<u8>, AppError>)
    ensures
        match r {
            Ok(data) => zip_data_named_of(bytes@, name@) == Ok::<Seq<u8>, AppError>(data@),
            Err(e) => zip_data_named_of(bytes@, name@) == Err::<Seq<u8>, AppError>(e) && (e is UnreadablePub || e is Io),
        },
{
    let mut archive = match zip::ZipArchive::new(std::io::Cursor::new(bytes)) { Ok(a) => a, Err(_) => return Err(AppError::UnreadablePub) };
    match archive.by_name_decrypt(name, b"") {
        Ok(Ok(_)) => {},
        Ok(Err(_)) | Err(_) => return Err(AppError::UnreadablePub),
    }
    let mut buf = Vec::new();
    let read = match archive.by_name(name) {
        Ok(mut file) => match file.read_to_end(&mut buf) {
            Ok(_) => Ok(buf),
            Err(e) => Err(AppError::Io(e.to_string())),
        },
        Err(_) => Err(AppError::UnreadablePub),
    };
    read
}

/// `std::str::from_utf8`, owned. Claimed as its documentation states: it
/// succeeds exactly on valid UTF-8, and the text is what the bytes encode.
#[verifier::external_body]
fn utf8_text(bytes: &[u8]) -> (r: Option<String>)
    ensures
        r is Some <==> valid_utf8(bytes@),
        r is Some ==> r->0@ == decode_utf8(bytes@),
{
    match std::str::from_utf8(bytes) {
        Ok(s) => Some(s.to_string()),
        Err(_) => None,
    }
}

// ---------------------------------------------------------------------------
// Container rules.
// ---------------------------------------------------------------------------

/// `SQLite format 3` followed by a NUL byte.
pub open spec fn sqlite_magic() -> Seq<u8> {
    seq![83u8, 81u8, 76u8, 105u8, 116u8, 101u8, 32u8, 102u8, 111u8, 114u8, 109u8, 97u8, 116u8, 32u8, 51u8, 0u8]
}

/// Whether bytes start with the SQLite header.
pub fn is_sqlite(bytes: &[u8]) -> (b: bool)
    ensures
        b == (bytes@.len() >= 16 && bytes@.subrange(0, 16) == sqlite_magic()),
{
    let magic: Vec<u8> = vec![83, 81, 76, 105, 116, 101, 32, 102, 111, 114, 109, 97, 116, 32, 51, 0];
    assert(magic@ =~= sqlite_magic());
    if bytes.len() < 16 {
        return false;
    }
    let mut i: usize = 0;
    while i < 16
        invariant
            i <= 16,
            bytes@.len() >= 16,
            magic@ == sqlite_magic(),
            forall|k: int| 0 <= k < i ==> bytes@[k] == sqlite_magic()[k],
        decreases 16 - i,
    {
        if bytes[i] != magic[i] {
            assert(bytes@.subrange(0, 16)[i as int] != sqlite_magic()[i as int]);
            return false;
        }
        i = i + 1;
    }
    assert(bytes@.subrange(0, 16) =~= sqlite_magic());
    true
}

/// A top-level `*.db` entry name.
pub open spec fn is_db_name(name: Seq<char>) -> bool {
    ends_with_seq(name, ".db"@) && !name.contains('/') && !name.contains('\\')
}

/// Whether a character is one of the two path separators.
pub open spec fn is_sep(c: char) -> bool {
    c == '/' || c == '\\'
}

/// First top-level database entry at index `i` or later.
pub open spec fn first_db_from(c: Seq<u8>, i: nat, n: nat) -> Result<Seq<char>, AppError>
    decreases n - i,
{
    if i >= n {
        Err(AppError::UnreadablePub)
    } else {
        match zip_header_of(c, i as usize) {
            Err(e) => Err(e),
            Ok(h) => if is_db_name(h.0) {
                Ok(h.0)
            } else {
                first_db_from(c, i + 1, n)
            },
        }
    }
}

/// Name of the database entry of the inner archive.
pub open spec fn inner_db_spec(c: Seq<u8>) -> Result<Seq<char>, AppError> {
    match zip_count_of(c) {
        Err(e) => Err(e),
        Ok(n) => first_db_from(c, 0, n as nat),
    }
}

/// Whether `name` contains `c`.
fn has_char(name: &Vec<char>, c: char) -> (b: bool)
    ensures
        b == name@.contains(c),
{
    let mut i: usize = 0;
    while i < name.len()
        invariant
            i <= name@.len(),
            forall|k: int| 0 <= k < i ==> name@[k] != c,
        decreases name@.len() - i,
    {
        if name[i] == c {
            return true;
        }
        i = i + 1;
    }
    false
}

/// Whether an entry name is a top-level `*.db`.
pub fn db_name_ok(name: &str) -> (b: bool)
    ensures
        b == is_db_name(name@),
{
    let v = chars_of(name);
    ends_with_vec(&v, &chars_of(".db")) && !has_char(&v, '/') && !has_char(&v, '\\')
}

/// Name of the first top-level `*.db` entry of the inner archive.
pub fn inner_db_name(contents: &[u8]) -> (r: Result<String, AppError>)
    ensures
        match r {
            Ok(name) => inner_db_spec(contents@) == Ok::<Seq<char>, AppError>(name@),
            Err(e) => inner_db_spec(contents@) == Err::<Seq<char>, AppError>(e),
        },
{
    let n = match zip_count(contents) {
        Ok(n) => n,
        Err(e) => return Err(e),
    };
    let mut i: usize = 0;
    while i < n
        invariant
            i <= n,
            zip_count_of(contents@) == Ok::<usize, AppError>(n),
            first_db_from(contents@, 0, n as nat) == first_db_from(contents@, i as nat, n as nat),
        decreases n - i,
    {
        match zip_header_at(contents, i) {
            Err(e) => return Err(e),
            Ok((name, _)) => {
                if db_name_ok(name.as_str()) {
                    return Ok(name);
                }
            },
        }
        i = i + 1;
    }
    Err(AppError::UnreadablePub)
}

/// The parts of a publication that the reader needs.
pub struct JwpubContainer {
    /// The inner archive.
    pub contents: Vec<u8>,
    /// Name of the database entry.
    pub db_name: String,
    /// The database file, starting with the SQLite header.
    pub db_bytes: Vec<u8>,
}

/// Outcome of opening a publication: inner archive, database name, database bytes.
pub open spec fn open_jwpub_spec(bytes: Seq<u8>) -> Result<(Seq<u8>, Seq<char>, Seq<u8>), AppError> {
    match zip_data_named_of(bytes, "contents"@) {
        Err(e) => Err(e),
        Ok(c) => match inner_db_spec(c) {
            Err(e) => Err(e),
            Ok(name) => match zip_data_named_of(c, name) {
                Err(e) => Err(e),
                Ok(db) => if db.len() >= 16 && db.subrange(0, 16) == sqlite_magic() {
                    Ok((c, name, db))
                } else {
                    Err(AppError::UnreadablePub)
                },
            },
        },
    }
}

/// Opens the outer archive, its `contents` archive and the database inside.
/// Fails with `UnreadablePub` when a layer is missing or the database lacks
/// the SQLite header.
pub fn open_jwpub(bytes: &[u8]) -> (r: Result<JwpubContainer, AppError>)
    ensures
        match r {
            Ok(c) => open_jwpub_spec(bytes@) == Ok::<(Seq<u8>, Seq<char>, Seq<u8>), AppError>(
                (c.contents@, c.db_name@, c.db_bytes@),
            ),
            Err(e) => open_jwpub_spec(bytes@) == Err::<(Seq<u8>, Seq<char>, Seq<u8>), AppError>(e),
        },
{
    let contents = match zip_read_named(bytes, "contents") {
        Ok(c) => c,
        Err(e) => return Err(e),
    };
    let db_name = match inner_db_name(contents.as_slice()) {
        Ok(n) => n,
        Err(e) => return Err(e),
    };
    let db_bytes = match zip_read_named(contents.as_slice(), db_name.as_str()) {
        Ok(b) => b,
        Err(e) => return Err(e),
    };
    if !is_sqlite(db_bytes.as_slice()) {
        return Err(AppError::UnreadablePub);
    }
    Ok(JwpubContainer { contents, db_name, db_bytes })
}


// ---------------------------------------------------------------------------
// File names inside the archive.
// ---------------------------------------------------------------------------

/// The text after the last `d1` or `d2` (all of it when there is none).
pub open spec fn tail_after(s: Seq<char>, d1: char, d2: char) -> Seq<char>
    decreases s.len(),
{
    if s.len() == 0 {
        s
    } else if s.last() == d1 || s.last() == d2 {
        Seq::empty()
    } else {
        tail_after(s.drop_last(), d1, d2).push(s.last())
    }
}

/// Last path segment, split on `/` or `\\`.
pub open spec fn file_name_spec(path: Seq<char>) -> Seq<char> {
    tail_after(path, '/', '\\')
}

/// The text after the last `d1` or `d2`.
pub fn tail_after_exec(v: &Vec<char>, d1: char, d2: char) -> (r: Vec<char>)
    ensures
        r@ == tail_after(v@, d1, d2),
{
    let mut start: usize = 0;
    let mut i: usize = 0;
    while i < v.len()
        invariant
            start <= i <= v@.len(),
            tail_after(v@.take(i as int), d1, d2) == v@.subrange(start as int, i as int),
        decreases v@.len() - i,
    {
        assert(v@.take(i + 1).drop_last() =~= v@.take(i as int));
        if v[i] == d1 || v[i] == d2 {
            start = i + 1;
            assert(v@.subrange(start as int, i + 1) =~= Seq::<char>::empty());
        } else {
            assert(v@.subrange(start as int, i + 1) =~= v@.subrange(start as int, i as int).push(v@[i as int]));
        }
        i = i + 1;
    }
    assert(v@.take(v@.len() as int) =~= v@);
    let mut r: Vec<char> = Vec::new();
    let mut k: usize = start;
    while k < v.len()
        invariant
            start <= k <= v@.len(),
            r@ == v@.subrange(start as int, k as int),
        decreases v@.len() - k,
    {
        r.push(v[k]);
        assert(r@ =~= v@.subrange(start as int, k + 1));
        k = k + 1;
    }
    r
}

/// Last path segment of `path`.
pub fn file_name(path: &str) -> (r: String)
    ensures
        r@ == file_name_spec(path@),
{
    let t = tail_after_exec(&chars_of(path), '/', '\\');
    crate::text::string_from_chars(t.as_slice())
}

/// Extensions of entries that are copied out as media.
pub open spec fn is_media_ext(ext: Seq<char>) -> bool {
    ext == "jpg"@ || ext == "jpeg"@ || ext == "png"@ || ext == "webp"@ || ext == "gif"@
        || ext == "mp4"@ || ext == "webm"@
}

/// Lower-cased extension of an entry name (the whole last segment when it has no dot).
pub open spec fn ext_of(name: Seq<char>) -> Seq<char> {
    crate::text::ascii_lower(tail_after(file_name_spec(name), '.', '.'))
}

/// Whether an archive entry is copied out as media.
pub open spec fn is_media_entry(name: Seq<char>, dir: bool) -> bool {
    !dir && is_media_ext(ext_of(name))
}

/// Whether a lower-cased extension is a media extension.
fn media_ext_ok(ext: &str) -> (b: bool)
    ensures
        b == is_media_ext(ext@),
{
    crate::text::str_eq(ext, "jpg") || crate::text::str_eq(ext, "jpeg") || crate::text::str_eq(ext, "png")
        || crate::text::str_eq(ext, "webp") || crate::text::str_eq(ext, "gif")
        || crate::text::str_eq(ext, "mp4") || crate::text::str_eq(ext, "webm")
}

/// Whether an archive entry is copied out as media.
pub fn media_entry_ok(name: &str, dir: bool) -> (b: bool)
    ensures
        b == is_media_entry(name@, dir),
{
    if dir {
        return false;
    }
    let base = tail_after_exec(&chars_of(name), '/', '\\');
    let ext = tail_after_exec(&base, '.', '.');
    let lower = crate::text::ascii_lower_vec(&ext);
    let s = crate::text::string_from_chars(lower.as_slice());
    media_ext_ok(s.as_str())
}

/// One media file taken out of a publication.
pub struct MediaFile {
    /// Last segment of the entry name.
    pub name: String,
    /// Decompressed bytes.
    pub data: Vec<u8>,
}

/// Media files of the inner archive from entry `i` on, in entry order.
pub open spec fn media_from(c: Seq<u8>, i: nat, n: nat) -> Result<Seq<(Seq<char>, Seq<u8>)>, AppError>
    decreases n - i,
{
    if i >= n {
        Ok(Seq::empty())
    } else {
        match zip_header_of(c, i as usize) {
            Err(e) => Err(e),
            Ok(h) => if !is_media_entry(h.0, h.1) {
                media_from(c, i + 1, n)
            } else {
                match zip_data_at_of(c, i as usize) {
                    Err(e) => Err(e),
                    Ok(d) => match media_from(c, i + 1, n) {
                        Err(e) => Err(e),
                        Ok(rest) => Ok(seq![(file_name_spec(h.0), d)] + rest),
                    },
                }
            },
        }
    }
}

/// The media files of a publication, or why it cannot be read.
pub open spec fn media_files_spec(bytes: Seq<u8>) -> Result<Seq<(Seq<char>, Seq<u8>)>, AppError> {
    match zip_data_named_of(bytes, "contents"@) {
        Err(e) => Err(e),
        Ok(c) => match zip_count_of(c) {
            Err(e) => Err(e),
            Ok(n) => media_from(c, 0, n as nat),
        },
    }
}

/// View of a list of media files.
pub open spec fn media_files_view(v: Seq<MediaFile>) -> Seq<(Seq<char>, Seq<u8>)> {
    v.map_values(|f: MediaFile| (f.name@, f.data@))
}

/// Images and videos of the inner archive, named by their last path
/// segment; databases and other entries are skipped.
pub fn jwpub_media_files(bytes: &[u8]) -> (r: Result<Vec<MediaFile>, AppError>)
    ensures
        match r {
            Ok(v) => media_files_spec(bytes@) == Ok::<Seq<(Seq<char>, Seq<u8>)>, AppError>(media_files_view(v@)),
            Err(e) => media_files_spec(bytes@) == Err::<Seq<(Seq<char>, Seq<u8>)>, AppError>(e),
        },
{
    let contents = match zip_read_named(bytes, "contents") {
        Ok(c) => c,
        Err(e) => return Err(e),
    };
    let n = match zip_count(contents.as_slice()) {
        Ok(n) => n,
        Err(e) => return Err(e),
    };
    let ghost c = contents@;
    let mut out: Vec<MediaFile> = Vec::new();
    let mut i: usize = 0;
    while i < n
        invariant
            i <= n,
            c == contents@,
            zip_count_of(c) == Ok::<usize, AppError>(n),
            zip_data_named_of(bytes@, "contents"@) == Ok::<Seq<u8>, AppError>(c),
            media_from(c, 0, n as nat) == match media_from(c, i as nat, n as nat) {
                Ok(rest) => Ok(media_files_view(out@) + rest),
                Err(e) => Err::<Seq<(Seq<char>, Seq<u8>)>, AppError>(e),
            },
        decreases n - i,
    {
        let (name, dir) = match zip_header_at(contents.as_slice(), i) {
            Ok(h) => h,
            Err(e) => {
                assert(media_from(c, i as nat, n as nat) == Err::<Seq<(Seq<char>, Seq<u8>)>, AppError>(e));
                return Err(e);
            },
        };
        if media_entry_ok(name.as_str(), dir) {
            let data = match zip_read_at(contents.as_slice(), i) {
                Ok(d) => d,
                Err(e) => {
                    assert(media_from(c, i as nat, n as nat) == Err::<Seq<(Seq<char>, Seq<u8>)>, AppError>(e));
                    return Err(e);
                },
            };
            let ghost before = media_files_view(out@);
            let f = MediaFile { name: file_name(name.as_str()), data };
            out.push(f);
            proof {
                assert(media_files_view(out@) =~= before.push((f.name@, f.data@)));
                match media_from(c, (i + 1) as nat, n as nat) {
                    Ok(rest) => {
                        assert(before + (seq![(f.name@, f.data@)] + rest) =~= before.push(
                            (f.name@, f.data@),
                        ) + rest);
                    },
                    Err(_) => {},
                }
            }
        }
        i = i + 1;
    }
    assert(media_files_view(out@) + Seq::<(Seq<char>, Seq<u8>)>::empty() =~= media_files_view(out@));
    Ok(out)
}

// ---------------------------------------------------------------------------
// Song numbers named in a document.
// ---------------------------------------------------------------------------

/// First occurrence of `needle` in `hay` at `from` or later.
pub open spec fn find_from(hay: Seq<char>, needle: Seq<char>, from: int) -> Option<int>
    decreases hay.len() + 1 - from,
{
    if from < 0 || from + needle.len() > hay.len() {
        None
    } else if crate::text::occurs_at(hay, needle, from) {
        Some(from)
    } else {
        find_from(hay, needle, from + 1)
    }
}

/// An ASCII digit.
pub open spec fn is_digit(c: char) -> bool {
    '0' <= c && c <= '9'
}

/// Length of the run of ASCII digits starting at `p`.
pub open spec fn digit_run(s: Seq<char>, p: int) -> nat
    decreases s.len() - p,
{
    if p < 0 || p >= s.len() || !is_digit(s[p]) {
        0
    } else {
        1 + digit_run(s, p + 1)
    }
}

/// Value of a run of ASCII digits.
pub open spec fn digits_num(s: Seq<char>) -> nat
    decreases s.len(),
{
    if s.len() == 0 {
        0
    } else {
        digits_num(s.drop_last()) * 10 + ((s.last() as int - 48) as nat)
    }
}

/// The `u32` spelled by the digits at `p`, when there are some and it fits.
pub open spec fn number_at(s: Seq<char>, p: int) -> Option<u32> {
    let k = digit_run(s, p);
    if k == 0 {
        None
    } else {
        let v = digits_num(s.subrange(p, p + k));
        if v <= u32::MAX {
            Some(v as u32)
        } else {
            None
        }
    }
}

/// Song numbers found after each occurrence of `key` from `pos` on, added to
/// `out` when in 1..=163 and new.
pub open spec fn scan_key(lower: Seq<char>, key: Seq<char>, pos: int, out: Seq<u32>) -> Seq<u32>
    decreases lower.len() - pos,
{
    if key.len() == 0 {
        out
    } else {
        match find_from(lower, key, pos) {
            None => out,
            Some(idx) => {
                let p = idx + key.len();
                let out2 = match number_at(lower, p) {
                    Some(n) => if 1 <= n <= 163 && !out.contains(n) {
                        out.push(n)
                    } else {
                        out
                    },
                    None => out,
                };
                if p <= pos || p > lower.len() {
                    out
                } else {
                    scan_key(lower, key, p, out2)
                }
            },
        }
    }
}

/// Song numbers named in a document, in the order the five keys find them.
pub open spec fn song_numbers_spec(html: Seq<char>) -> Seq<u32> {
    let l = crate::text::ascii_lower(html);
    let a = scan_key(l, "song "@, 0, Seq::empty());
    let b = scan_key(l, "canción "@, 0, a);
    let c = scan_key(l, "cancion "@, 0, b);
    let d = scan_key(l, "cántico "@, 0, c);
    scan_key(l, "cantico "@, 0, d)
}

proof fn lemma_find_from_bounds(hay: Seq<char>, needle: Seq<char>, from: int)
    ensures
        match find_from(hay, needle, from) {
            Some(i) => from <= i && i + needle.len() <= hay.len() && crate::text::occurs_at(hay, needle, i),
            None => true,
        },
    decreases hay.len() + 1 - from,
{
    if !(from < 0 || from + needle.len() > hay.len()) && !crate::text::occurs_at(hay, needle, from) {
        lemma_find_from_bounds(hay, needle, from + 1);
    }
}

/// First occurrence of `needle` at `from` or later.
fn find_from_exec(hay: &Vec<char>, needle: &Vec<char>, from: usize) -> (r: Option<usize>)
    ensures
        match find_from(hay@, needle@, from as int) {
            Some(i) => r == Some(i as usize),
            None => r is None,
        },
{
    let mut i: usize = from;
    while i <= hay.len() && needle.len() <= hay.len() - i
        invariant
            from <= i,
            find_from(hay@, needle@, from as int) == find_from(hay@, needle@, i as int),
        decreases hay@.len() + 1 - i,
    {
        if i == hay.len() {
            assert(hay@.subrange(i as int, i as int) =~= needle@);
        }
        if crate::text::occurs_at_exec(hay, needle, i) {
            return Some(i);
        }
        i = i + 1;
    }
    None
}

/// Whether `v` holds `n`.
fn has_u32(v: &Vec<u32>, n: u32) -> (b: bool)
    ensures
        b == v@.contains(n),
{
    let mut i: usize = 0;
    while i < v.len()
        invariant
            i <= v@.len(),
            forall|k: int| 0 <= k < i ==> v@[k] != n,
        decreases v@.len() - i,
    {
        if v[i] == n {
            return true;
        }
        i = i + 1;
    }
    false
}

/// The number spelled by the digits at `p`, if any and if it fits in `u32`.
fn number_at_exec(s: &Vec<char>, p: usize) -> (r: Option<u32>)
    requires
        p <= s@.len(),
    ensures
        r == number_at(s@, p as int),
{
    let mut i: usize = p;
    let mut acc: u64 = 0;
    let mut big: bool = false;
    assert(s@.subrange(p as int, p as int) =~= Seq::<char>::empty());
    while i < s.len() && '0' <= s[i] && s[i] <= '9'
        invariant
            p <= i <= s@.len(),
            digit_run(s@, p as int) == (i - p) + digit_run(s@, i as int),
            big <==> digits_num(s@.subrange(p as int, i as int)) > u32::MAX,
            !big ==> acc == digits_num(s@.subrange(p as int, i as int)),
        decreases s@.len() - i,
    {
        let c = s[i];
        let d = (c as u32) - 48;
        assert(s@.subrange(p as int, i + 1).drop_last() =~= s@.subrange(p as int, i as int));
        if !big {
            acc = acc * 10 + (d as u64);
            if acc > 4294967295 {
                big = true;
            }
        }
        i = i + 1;
    }
    if i == p {
        return None;
    }
    if big {
        None
    } else {
        Some(acc as u32)
    }
}

/// Runs `scan_key` for one key.
fn scan_key_exec(lower: &Vec<char>, key: &Vec<char>, out: &mut Vec<u32>)
    requires
        key@.len() > 0,
    ensures
        final(out)@ == scan_key(lower@, key@, 0, old(out)@),
{
    let mut pos: usize = 0;
    while pos <= lower.len()
        invariant
            key@.len() > 0,
            pos <= lower@.len() + 1,
            scan_key(lower@, key@, 0, old(out)@) == scan_key(lower@, key@, pos as int, out@),
        decreases lower@.len() + 1 - pos,
    {
        proof {
            lemma_find_from_bounds(lower@, key@, pos as int);
        }
        match find_from_exec(lower, key, pos) {
            None => {
                return;
            },
            Some(idx) => {
                let p = idx + key.len();
                match number_at_exec(lower, p) {
                    Some(n) => {
                        if 1 <= n && n <= 163 && !has_u32(out, n) {
                            out.push(n);
                        }
                    },
                    None => {},
                }
                pos = p;
            },
        }
    }
}

/// Song numbers named in a document: after each "song ", "canción ",
/// "cancion ", "cántico " or "cantico " (any ASCII case), the number that
/// follows, when it is between 1 and 163 and not already listed.
pub fn extract_song_numbers(html: &str) -> (r: Vec<u32>)
    ensures
        r@ == song_numbers_spec(html@),
        forall|key: Seq<char>, i: int, n: u32|
            #![trigger crate::text::occurs_at(ascii_lower(html@), key, i), r@.contains(n)]
            song_key(key) && crate::text::occurs_at(ascii_lower(html@), key, i) && number_at(
                ascii_lower(html@),
                i + key.len(),
            ) == Some(n) && 1 <= n <= 163 ==> r@.contains(n),
{
    let lower = crate::text::ascii_lower_vec(&chars_of(html));
    let mut out: Vec<u32> = Vec::new();
    proof {
        reveal_strlit("song ");
        reveal_strlit("canción ");
        reveal_strlit("cancion ");
        reveal_strlit("cántico ");
        reveal_strlit("cantico ");
    }
    scan_key_exec(&lower, &chars_of("song "), &mut out);
    scan_key_exec(&lower, &chars_of("canción "), &mut out);
    scan_key_exec(&lower, &chars_of("cancion "), &mut out);
    scan_key_exec(&lower, &chars_of("cántico "), &mut out);
    scan_key_exec(&lower, &chars_of("cantico "), &mut out);
    proof {
        assert forall|key: Seq<char>, i: int, n: u32|
            #![trigger crate::text::occurs_at(ascii_lower(html@), key, i), out@.contains(n)]
            song_key(key) && crate::text::occurs_at(ascii_lower(html@), key, i) && number_at(
                ascii_lower(html@),
                i + key.len(),
            ) == Some(n) && 1 <= n <= 163 implies out@.contains(n) by {
            law_every_named_song_is_read(html@, key, i, n);
        }
    }
    out
}


// ---------------------------------------------------------------------------
// Database rows to meeting weeks.
// ---------------------------------------------------------------------------

/// The `CivilDate` spelled by an eight-digit `YYYYMMDD` dated-text offset.
pub open spec fn monday_from_offset_spec(offset: int) -> Option<CivilDate> {
    let b = encode_utf8(int_text(offset));
    if b.len() != 8 {
        None
    } else {
        match parse_i32(b.subrange(0, 4)) {
            None => None,
            Some(y) => match parse_u8(b.subrange(4, 6)) {
                None => None,
                Some(m) => match parse_u8(b.subrange(6, 8)) {
                    None => None,
                    Some(d) => Some(CivilDate { year: y, month: m, day: d }),
                },
            },
        }
    }
}

/// Reads a `FirstDateOffset` such as `20260907` as a date.
pub fn monday_from_offset(offset: i64) -> (r: Option<CivilDate>)
    ensures
        r == monday_from_offset_spec(offset as int),
{
    let mut raw = String::new();
    push_padded_int(&mut raw, offset, 0);
    assert(raw@ =~= int_text(offset as int));
    let b = raw.as_str().as_bytes();
    if b.len() != 8 {
        return None;
    }
    let year = match parse_i32_exec(&b[0..4]) {
        Some(y) => y,
        None => return None,
    };
    let month = match parse_u8_exec(&b[4..6]) {
        Some(m) => m,
        None => return None,
    };
    let day = match parse_u8_exec(&b[6..8]) {
        Some(d) => d,
        None => return None,
    };
    Some(CivilDate { year, month, day })
}

/// First entry that is not blank, or `Media`.
pub open spec fn first_nonempty_spec(parts: Seq<Seq<char>>) -> Seq<char>
    decreases parts.len(),
{
    if parts.len() == 0 {
        "Media"@
    } else if trim_seq(parts[0]).len() != 0 {
        parts[0]
    } else {
        first_nonempty_spec(parts.drop_first())
    }
}

/// First entry that is not blank, or `Media`.
pub fn first_nonempty(parts: &Vec<String>) -> (r: String)
    ensures
        r@ == first_nonempty_spec(crate::week::strings_view(parts@)),
{
    let ghost ps = crate::week::strings_view(parts@);
    let mut i: usize = 0;
    assert(ps.skip(0) =~= ps);
    while i < parts.len()
        invariant
            i <= parts@.len(),
            ps == crate::week::strings_view(parts@),
            first_nonempty_spec(ps) == first_nonempty_spec(ps.skip(i as int)),
        decreases parts@.len() - i,
    {
        assert(ps.skip(i as int).drop_first() =~= ps.skip(i + 1));
        assert(ps.skip(i as int)[0] == parts@[i as int]@);
        if !trim_is_empty(parts[i].as_str()) {
            return parts[i].clone();
        }
        i = i + 1;
    }
    assert(ps.skip(i as int) =~= Seq::<Seq<char>>::empty());
    owned("Media")
}

/// Whether decoded document text reads as HTML.
pub open spec fn looks_like_html_spec(text: Seq<char>) -> bool {
    let lower = ascii_lower(text);
    starts_with_seq(lower, "<"@) || contains_seq(lower, "<html"@) || contains_seq(lower, "<h1"@)
}

/// Whether decoded document text reads as HTML.
pub fn looks_like_html(text: &str) -> (b: bool)
    ensures
        b == looks_like_html_spec(text@),
{
    let lower = crate::text::ascii_lower_vec(&chars_of(text));
    crate::text::starts_with_vec(&lower, &chars_of("<")) || crate::text::contains_vec(
        &lower,
        &chars_of("<html"),
    ) || crate::text::contains_vec(&lower, &chars_of("<h1"))
}

/// The trimmed HTML of a document's content, when it is UTF-8 that reads as HTML.
pub open spec fn document_html_spec(blob: Seq<u8>) -> Option<Seq<char>> {
    if valid_utf8(blob) && looks_like_html_spec(trim_seq(decode_utf8(blob))) {
        Some(trim_seq(decode_utf8(blob)))
    } else {
        None
    }
}

/// The trimmed HTML of a document's content, when it is UTF-8 that reads
/// as HTML; ciphertext gives `None`.
pub fn document_html(blob: &[u8]) -> (r: Option<String>)
    ensures
        crate::week::opt_view(r) == document_html_spec(blob@),
{
    let text = match utf8_text(blob) {
        Some(t) => t,
        None => return None,
    };
    let t = trim(text.as_str());
    if looks_like_html(t.as_str()) {
        Some(t)
    } else {
        None
    }
}

/// A document title kept only when it is not blank.
pub open spec fn document_title_spec(title: Option<Seq<char>>) -> Option<Seq<char>> {
    match title {
        Some(t) => if trim_seq(t).len() != 0 {
            Some(t)
        } else {
            None
        },
        None => None,
    }
}

/// A document title kept only when it is not blank.
pub fn document_title(title: Option<String>) -> (r: Option<String>)
    ensures
        crate::week::opt_view(r) == document_title_spec(crate::week::opt_view(title)),
{
    match title {
        Some(t) => if trim_is_empty(t.as_str()) {
            None
        } else {
            Some(t)
        },
        None => None,
    }
}

/// The undated symbol of a meeting kind when the publication row is missing.
pub open spec fn fallback_symbol(kind: MeetingKind) -> Seq<char> {
    match kind {
        MeetingKind::Midweek => "mwb"@,
        MeetingKind::Weekend => "w"@,
    }
}

/// Undated symbol and issue of a publication from its first `Publication`
/// row (symbol, issue tag), if any.
pub open spec fn publication_meta_spec(row: Option<(Seq<char>, i64)>, kind: MeetingKind) -> (Seq<char>, Seq<char>) {
    match row {
        Some((symbol, tag)) => {
            let undated = if starts_with_seq(symbol, "mwb"@) {
                "mwb"@
            } else if starts_with_seq(symbol, "w"@) {
                "w"@
            } else {
                fallback_symbol(kind)
            };
            (undated, normalized_tag(tag))
        },
        None => (fallback_symbol(kind), Seq::empty()),
    }
}

/// Undated symbol and issue of a publication from its first `Publication` row.
pub fn publication_meta(row: Option<(String, i64)>, kind: MeetingKind) -> (r: (String, String))
    ensures
        (r.0@, r.1@) == publication_meta_spec(
            match row {
                Some((s, t)) => Some((s@, t)),
                None => None,
            },
            kind,
        ),
{
    let fallback = match kind {
        MeetingKind::Midweek => owned("mwb"),
        MeetingKind::Weekend => owned("w"),
    };
    match row {
        Some((symbol, tag)) => {
            let undated = if str_starts_with(symbol.as_str(), "mwb") {
                owned("mwb")
            } else if str_starts_with(symbol.as_str(), "w") {
                owned("w")
            } else {
                fallback
            };
            (undated, normalize_issue_tag(tag))
        },
        None => (fallback, String::new()),
    }
}

/// One `Multimedia` row linked to a document.
pub struct RawMedia {
    pub id: i64,
    pub mime: String,
    pub file_path: String,
    pub key_symbol: String,
    pub track: u32,
    pub label: String,
    pub caption: String,
    pub lang_meps: i64,
    pub issue_tag: i64,
    pub paragraph: i64,
}

/// `{document_id}:{multimedia_id}`.
pub open spec fn media_id(document_id: int, id: int) -> Seq<char> {
    int_text(document_id) + ":"@ + int_text(id)
}

/// The item a multimedia row becomes. `cache` is where an embedded file was
/// written, when it was.
pub open spec fn materialise_spec(raw: RawMedia, document_id: int, cache: Option<Seq<char>>) -> MediaItemV {
    let id = media_id(document_id, raw.id as int);
    let title = first_nonempty_spec(seq![raw.label@, raw.caption@, raw.file_path@, raw.key_symbol@]);
    if raw.file_path@.len() != 0 {
        MediaItemV {
            id,
            title,
            media_kind: MediaKind::Image,
            status: if cache is Some {
                MediaStatus::Embedded
            } else {
                MediaStatus::Failed
            },
            mime: if raw.mime@.len() == 0 {
                "image/jpeg"@
            } else {
                raw.mime@
            },
            media_ref: MediaRefV::Embedded { path: raw.file_path@ },
            cache_path: cache,
        }
    } else {
        let is_song = crate::text::eq_ignore_ascii_case_seq(raw.key_symbol@, "sjjm"@);
        MediaItemV {
            id,
            title: if is_song && raw.track > 0 {
                dec(raw.track as nat)
            } else {
                title
            },
            media_kind: if is_song {
                MediaKind::Song
            } else if starts_with_seq(raw.mime@, "image/"@) {
                MediaKind::Image
            } else {
                MediaKind::Video
            },
            status: if is_song {
                MediaStatus::PendingHymnal
            } else {
                MediaStatus::Pending
            },
            mime: if raw.mime@.len() == 0 {
                "video/mp4"@
            } else {
                raw.mime@
            },
            media_ref: MediaRefV::Catalog {
                key_symbol: raw.key_symbol@,
                track: raw.track,
                lang_meps: raw.lang_meps,
                issue_tag: raw.issue_tag,
                mime: raw.mime@,
            },
            cache_path: None,
        }
    }
}

/// `{document_id}:{multimedia_id}`.
fn make_media_id(document_id: i64, id: i64) -> (s: String)
    ensures
        s@ == media_id(document_id as int, id as int),
{
    let mut s = String::new();
    push_padded_int(&mut s, document_id, 0);
    push_str(&mut s, ":");
    push_padded_int(&mut s, id, 0);
    s
}

/// Turns a multimedia row into a media item. An embedded file (non-empty
/// `file_path`) becomes an image, `Embedded` when it was written to `cache`
/// and `Failed` otherwise; anything else is addressed through the catalog,
/// songs (`sjjm`) waiting for the hymnal.
pub fn materialise_item(raw: &RawMedia, document_id: i64, cache_path: Option<String>) -> (r: MediaItem)
    ensures
        r@ == materialise_spec(*raw, document_id as int, crate::week::opt_view(cache_path)),
{
    let id = make_media_id(document_id, raw.id);
    let mut names: Vec<String> = Vec::new();
    names.push(raw.label.clone());
    names.push(raw.caption.clone());
    names.push(raw.file_path.clone());
    names.push(raw.key_symbol.clone());
    assert(crate::week::strings_view(names@) =~= seq![raw.label@, raw.caption@, raw.file_path@, raw.key_symbol@]);
    let title = first_nonempty(&names);
    if !raw.file_path.as_str().is_empty() {
        let status = if cache_path.is_some() {
            MediaStatus::Embedded
        } else {
            MediaStatus::Failed
        };
        let mime = if raw.mime.as_str().is_empty() {
            owned("image/jpeg")
        } else {
            raw.mime.clone()
        };
        return MediaItem {
            id,
            title,
            media_kind: MediaKind::Image,
            status,
            mime,
            media_ref: MediaRef::Embedded { path: raw.file_path.clone() },
            cache_path,
        };
    }
    let is_song = crate::text::str_eq_ignore_ascii_case(raw.key_symbol.as_str(), "sjjm");
    let media_kind = if is_song {
        MediaKind::Song
    } else if str_starts_with(raw.mime.as_str(), "image/") {
        MediaKind::Image
    } else {
        MediaKind::Video
    };
    let status = if is_song {
        MediaStatus::PendingHymnal
    } else {
        MediaStatus::Pending
    };
    let title = if is_song && raw.track > 0 {
        let d = crate::text::dec_chars(raw.track as u64);
        crate::text::string_from_chars(d.as_slice())
    } else {
        title
    };
    let mime = if raw.mime.as_str().is_empty() {
        owned("video/mp4")
    } else {
        raw.mime.clone()
    };
    MediaItem {
        id,
        title,
        media_kind,
        status,
        mime,
        media_ref: MediaRef::Catalog {
            key_symbol: raw.key_symbol.clone(),
            track: raw.track,
            lang_meps: raw.lang_meps,
            issue_tag: raw.issue_tag,
            mime: raw.mime.clone(),
        },
        cache_path: None,
    }
}

/// Bytes of an embedded file: the entry at `file_path`, else the entry
/// named by its last segment.
pub open spec fn embedded_bytes_spec(contents: Seq<u8>, file_path: Seq<char>) -> Option<Seq<u8>> {
    match zip_data_named_of(contents, file_path) {
        Ok(b) => Some(b),
        Err(_) => match zip_data_named_of(contents, file_name_spec(file_path)) {
            Ok(b) => Some(b),
            Err(_) => None,
        },
    }
}

/// Bytes of an embedded file of the inner archive, if it is there.
pub fn embedded_bytes(contents: &[u8], file_path: &str) -> (r: Option<Vec<u8>>)
    ensures
        match r {
            Some(b) => embedded_bytes_spec(contents@, file_path@) == Some(b@),
            None => embedded_bytes_spec(contents@, file_path@) is None,
        },
{
    match zip_read_named(contents, file_path) {
        Ok(b) => Some(b),
        Err(_) => {
            let name = file_name(file_path);
            match zip_read_named(contents, name.as_str()) {
                Ok(b) => Some(b),
                Err(_) => None,
            }
        },
    }
}

/// First media item that is the catalog song `track`.
pub open spec fn song_item_for(items: Seq<MediaItemV>, track: u32) -> Option<MediaItemV>
    decreases items.len(),
{
    if items.len() == 0 {
        None
    } else if (match items[0].media_ref {
        MediaRefV::Catalog { key_symbol, track: t, .. } => key_symbol == "sjjm"@ && t == track,
        MediaRefV::Embedded { .. } => false,
    }) {
        Some(items[0])
    } else {
        song_item_for(items.drop_first(), track)
    }
}

/// The timer row of a song named in a document.
pub open spec fn song_part_spec(document_id: int, track: u32, item: MediaItemV) -> MeetingPartV {
    MeetingPartV {
        id: int_text(document_id) + ":song:"@ + dec(track as nat),
        title: "Song "@ + dec(track as nat),
        minutes: Some(5),
        tone: "song"@,
        items: seq![item],
    }
}

/// Song rows for the named tracks that have a matching item, in order.
pub open spec fn song_parts_spec(tracks: Seq<u32>, items: Seq<MediaItemV>, document_id: int) -> Seq<MeetingPartV>
    decreases tracks.len(),
{
    if tracks.len() == 0 {
        Seq::empty()
    } else {
        let r = song_parts_spec(tracks.drop_last(), items, document_id);
        match song_item_for(items, tracks.last()) {
            Some(it) => r.push(song_part_spec(document_id, tracks.last(), it)),
            None => r,
        }
    }
}

/// The row that collects the media no song row uses.
pub open spec fn media_part_spec(document_id: int, items: Seq<MediaItemV>) -> MeetingPartV {
    MeetingPartV {
        id: int_text(document_id) + ":media"@,
        title: "Media"@,
        minutes: None,
        tone: "other"@,
        items,
    }
}

/// Rows of a document: one per song it names (with its song item), then a
/// "Media" row with the remaining items when there are any or when there is
/// no song row.
pub open spec fn parts_from_html_spec(html: Option<Seq<char>>, items: Seq<MediaItemV>, document_id: int) -> Seq<MeetingPartV> {
    let songs = match html {
        Some(h) => song_parts_spec(song_numbers_spec(h), items, document_id),
        None => Seq::empty(),
    };
    let left = leftover_spec(ids_of(flat_items(songs)), items);
    if left.len() > 0 || songs.len() == 0 {
        songs.push(media_part_spec(document_id, left))
    } else {
        songs
    }
}

/// First media item that is the catalog song `track`.
fn find_song_item(items: &Vec<MediaItem>, track: u32) -> (r: Option<MediaItem>)
    ensures
        match song_item_for(items_view(items@), track) {
            Some(it) => r is Some && r->0@ == it,
            None => r is None,
        },
{
    let ghost iv = items_view(items@);
    let mut i: usize = 0;
    assert(iv.skip(0) =~= iv);
    while i < items.len()
        invariant
            i <= items@.len(),
            iv == items_view(items@),
            song_item_for(iv, track) == song_item_for(iv.skip(i as int), track),
        decreases items@.len() - i,
    {
        assert(iv.skip(i as int).drop_first() =~= iv.skip(i + 1));
        assert(iv.skip(i as int)[0] == items@[i as int]@);
        let hit = match &items[i].media_ref {
            MediaRef::Catalog { key_symbol, track: t, .. } => crate::text::str_eq(key_symbol.as_str(), "sjjm") && *t == track,
            MediaRef::Embedded { .. } => false,
        };
        if hit {
            return Some(items[i].copy());
        }
        i = i + 1;
    }
    assert(iv.skip(i as int) =~= Seq::<MediaItemV>::empty());
    None
}

/// Rows of a document: a song row for each song the HTML names that has a
/// matching song item, then a "Media" row with what is left.
pub fn parts_from_html(html: Option<&str>, items: &Vec<MediaItem>, document_id: i64) -> (r: Vec<MeetingPart>)
    ensures
        parts_view(r@) == parts_from_html_spec(
            match html {
                Some(h) => Some(h@),
                None => None,
            },
            items_view(items@),
            document_id as int,
        ),
{
    let mut parts: Vec<MeetingPart> = Vec::new();
    let ghost iv = items_view(items@);
    let ghost tracks: Seq<u32> = Seq::empty();
    match html {
        Some(h) => {
            let numbers = extract_song_numbers(h);
            proof {
                tracks = numbers@;
            }
            let mut i: usize = 0;
            while i < numbers.len()
                invariant
                    i <= numbers@.len(),
                    iv == items_view(items@),
                    parts_view(parts@) == song_parts_spec(numbers@.take(i as int), iv, document_id as int),
                decreases numbers@.len() - i,
            {
                let track = numbers[i];
                assert(numbers@.take(i + 1).drop_last() =~= numbers@.take(i as int));
                match find_song_item(items, track) {
                    Some(item) => {
                        let mut id = String::new();
                        push_padded_int(&mut id, document_id, 0);
                        push_str(&mut id, ":song:");
                        push_padded(&mut id, track as u64, 0);
                        let mut title = owned("Song ");
                        push_padded(&mut title, track as u64, 0);
                        let mut its: Vec<MediaItem> = Vec::new();
                        its.push(item);
                        let part = MeetingPart { id, title, minutes: Some(5), tone: owned("song"), items: its };
                        let ghost before = parts@;
                        parts.push(part);
                        proof {
                            crate::text::lemma_pad_dec_zero(track as nat);
                            assert(items_view(part.items@) =~= seq![item@]);
                            assert(parts_view(parts@) =~= parts_view(before).push(part@));
                        }
                    },
                    None => {},
                }
                i = i + 1;
            }
            assert(numbers@.take(numbers@.len() as int) =~= numbers@);
        },
        None => {},
    }
    let left = leftover_media(&parts, items);
    if left.len() > 0 || parts.len() == 0 {
        let mut id = String::new();
        push_padded_int(&mut id, document_id, 0);
        push_str(&mut id, ":media");
        let part = MeetingPart { id, title: owned("Media"), minutes: None, tone: owned("other"), items: left };
        let ghost before = parts@;
        parts.push(part);
        assert(parts_view(parts@) =~= parts_view(before).push(part@));
    }
    parts
}


/// The week a dated document becomes, when its first offset is a date.
pub open spec fn week_from_document_spec(
    kind: MeetingKind,
    langwritten: Seq<char>,
    symbol: Seq<char>,
    issue: Seq<char>,
    first_offset: int,
    title: Option<Seq<char>>,
    content: Option<Seq<u8>>,
    items: Seq<MediaItemV>,
    document_id: int,
) -> Option<MeetingWeekV> {
    match monday_from_offset_spec(first_offset) {
        None => None,
        Some(monday) => Some(MeetingWeekV {
            monday: iso_text(monday),
            kind,
            title: match document_title_spec(title) {
                Some(t) => t,
                None => iso_text(monday),
            },
            langwritten,
            pub_symbol: symbol,
            issue,
            parts: parts_from_html_spec(
                match content {
                    Some(b) => document_html_spec(b),
                    None => None,
                },
                items,
                document_id,
            ),
            media: Seq::empty(),
        }),
    }
}

/// Builds the week of one dated document from its row values: the Monday
/// from `first_offset`, the title (or the Monday when blank), rows from the
/// content when it is HTML. `None` when the offset is not a date.
pub fn week_from_document(
    kind: MeetingKind,
    langwritten: &str,
    symbol: &str,
    issue: &str,
    first_offset: i64,
    title: Option<String>,
    content: Option<Vec<u8>>,
    items: &Vec<MediaItem>,
    document_id: i64,
) -> (r: Option<MeetingWeek>)
    ensures
        match week_from_document_spec(
            kind,
            langwritten@,
            symbol@,
            issue@,
            first_offset as int,
            crate::week::opt_view(title),
            match content {
                Some(b) => Some(b@),
                None => None,
            },
            items_view(items@),
            document_id as int,
        ) {
            Some(w) => r is Some && r->0@ == w,
            None => r is None,
        },
{
    let monday = match monday_from_offset(first_offset) {
        Some(m) => m,
        None => return None,
    };
    let title = match document_title(title) {
        Some(t) => t,
        None => monday.to_iso(),
    };
    let html = match content {
        Some(b) => document_html(b.as_slice()),
        None => None,
    };
    let parts = match &html {
        Some(h) => parts_from_html(Some(h.as_str()), items, document_id),
        None => parts_from_html(None, items, document_id),
    };
    let w = MeetingWeek {
        monday: monday.to_iso(),
        kind,
        title,
        langwritten: owned(langwritten),
        pub_symbol: owned(symbol),
        issue: owned(issue),
        parts,
        media: Vec::new(),
    };
    assert(items_view(w.media@) =~= Seq::<MediaItemV>::empty());
    Some(w)
}

/// One publication parsed from a `.jwpub` (several calendar weeks).
pub struct ParsedPublication {
    pub symbol: String,
    pub issue: String,
    pub weeks: Vec<MeetingWeek>,
}

/// `YYYYMMDD` as a number.
pub open spec fn yyyymmdd(d: CivilDate) -> int {
    d.year * 10_000 + d.month * 100 + d.day
}

/// The real date `k` days after `d`.
pub open spec fn date_after(d: CivilDate, k: int) -> CivilDate {
    choose|r: CivilDate| valid_date(r) && unix_days_spec(r) == unix_days_spec(d) + k
}

/// Whether a week's Monday..Sunday overlaps the dates `start..=end` (as `YYYYMMDD`).
pub open spec fn covers(w: MeetingWeekV, start: int, end: int) -> bool {
    match parse_iso_spec(encode_utf8(w.monday)) {
        Ok(m) => yyyymmdd(m) <= end && yyyymmdd(date_after(m, 6)) >= start,
        Err(_) => false,
    }
}

/// `YYYYMMDD` in 64 bits.
fn yyyymmdd_exec(d: CivilDate) -> (n: i64)
    ensures
        n == yyyymmdd(d),
{
    (d.year as i64) * 10_000 + (d.month as i64) * 100 + (d.day as i64)
}

/// The date six days after `d`, with its identity as `date_after`.
fn sunday_after(d: CivilDate) -> (r: CivilDate)
    requires
        in_range(d),
    ensures
        r == date_after(d, 6),
{
    let z = unix_days(d);
    let r = add_days(d, 6);
    proof {
        let c = date_after(d, 6);
        assert(valid_date(c) && unix_days_spec(c) == unix_days_spec(d) + 6);
        crate::calendar::law_day_number_injective(r, c);
    }
    r
}

/// The Monday and the Sunday after it both spell as 32-bit `YYYYMMDD`
/// numbers, the form dated texts use.
pub open spec fn dated_week(monday: CivilDate) -> bool {
    &&& i32::MIN <= yyyymmdd(monday) <= i32::MAX
    &&& i32::MIN <= yyyymmdd(date_after(monday, 6)) <= i32::MAX
}

/// A dated week lies within the calendar's range.
proof fn lemma_dated_week_in_range(monday: CivilDate)
    requires
        dated_week(monday),
    ensures
        in_range(monday),
        -214_751 <= monday.year <= 214_748,
{
}

/// Whether the Monday's week spells as 32-bit `YYYYMMDD` numbers.
pub fn is_dated_week(monday: CivilDate) -> (b: bool)
    ensures
        b == dated_week(monday),
{
    if monday.year < -300_000 || monday.year > 300_000 {
        return false;
    }
    let first = yyyymmdd_exec(monday);
    let last = yyyymmdd_exec(sunday_after(monday));
    i32::MIN as i64 <= first && first <= i32::MAX as i64 && i32::MIN as i64 <= last && last <= i32::MAX as i64
}

/// The week whose Monday..Sunday overlaps `monday`..`monday + 6`, first in
/// publication order.
pub fn week_covering(pubn: &ParsedPublication, monday: CivilDate) -> (r: Option<&MeetingWeek>)
    requires
        dated_week(monday),
    ensures
        ({
            let start = yyyymmdd(monday);
            let end = yyyymmdd(date_after(monday, 6));
            let ws = pubn.weeks@;
            match r {
                Some(w) => exists|i: int|
                    0 <= i < ws.len() && ws[i]@ == w@ && covers(ws[i]@, start, end) && forall|j: int|
                        0 <= j < i ==> !covers(#[trigger] ws[j]@, start, end),
                None => forall|j: int| 0 <= j < ws.len() ==> !covers(#[trigger] ws[j]@, start, end),
            }
        }),
{
    proof {
        lemma_dated_week_in_range(monday);
    }
    let start = yyyymmdd_exec(monday);
    let end = yyyymmdd_exec(sunday_after(monday));
    let mut i: usize = 0;
    while i < pubn.weeks.len()
        invariant
            i <= pubn.weeks@.len(),
            start == yyyymmdd(monday),
            end == yyyymmdd(date_after(monday, 6)),
            forall|j: int| 0 <= j < i ==> !covers(#[trigger] pubn.weeks@[j]@, start as int, end as int),
        decreases pubn.weeks@.len() - i,
    {
        let w = &pubn.weeks[i];
        match CivilDate::parse_iso(w.monday.as_str()) {
            Ok(wm) => {
                proof {
                    crate::text::lemma_digit_field_bound(encode_utf8(w.monday@).subrange(0, 4));
                }
                let first = yyyymmdd_exec(wm);
                let last = yyyymmdd_exec(sunday_after(wm));
                if first <= end && last >= start {
                    return Some(w);
                }
            },
            Err(_) => {},
        }
        i = i + 1;
    }
    None
}

/// Song numbers that are all meeting songs (1..=163) and all different.
pub open spec fn distinct_meeting_songs(s: Seq<u32>) -> bool {
    &&& forall|i: int| 0 <= i < s.len() ==> 1 <= #[trigger] s[i] <= 163
    &&& forall|i: int, j: int| 0 <= i < j < s.len() ==> #[trigger] s[i] != #[trigger] s[j]
}

proof fn lemma_scan_key_keeps(lower: Seq<char>, key: Seq<char>, pos: int, out: Seq<u32>)
    requires
        distinct_meeting_songs(out),
    ensures
        distinct_meeting_songs(scan_key(lower, key, pos, out)),
    decreases lower.len() - pos,
{
    if key.len() > 0 {
        match find_from(lower, key, pos) {
            None => {},
            Some(idx) => {
                let p = idx + key.len();
                let out2 = match number_at(lower, p) {
                    Some(n) => if 1 <= n <= 163 && !out.contains(n) {
                        out.push(n)
                    } else {
                        out
                    },
                    None => out,
                };
                assert(distinct_meeting_songs(out2)) by {
                    if out2 != out {
                        let n = number_at(lower, p)->0;
                        assert forall|i: int, j: int| 0 <= i < j < out2.len() implies #[trigger] out2[i] != #[trigger] out2[j] by {
                            if j == out.len() {
                                assert(out2[i] == out[i]);
                                assert(out.contains(out[i]));
                            }
                        }
                    }
                }
                if !(p <= pos || p > lower.len()) {
                    lemma_scan_key_keeps(lower, key, p, out2);
                }
            },
        }
    }
}

/// The song numbers read from a document are meeting songs (1..=163), each
/// listed once.
pub proof fn law_song_numbers_are_distinct_meeting_songs(html: Seq<char>)
    ensures
        distinct_meeting_songs(song_numbers_spec(html)),
{
    let l = ascii_lower(html);
    let e = Seq::<u32>::empty();
    lemma_scan_key_keeps(l, "song "@, 0, e);
    let a = scan_key(l, "song "@, 0, e);
    lemma_scan_key_keeps(l, "canción "@, 0, a);
    let b = scan_key(l, "canción "@, 0, a);
    lemma_scan_key_keeps(l, "cancion "@, 0, b);
    let c = scan_key(l, "cancion "@, 0, b);
    lemma_scan_key_keeps(l, "cántico "@, 0, c);
    let d = scan_key(l, "cántico "@, 0, c);
    lemma_scan_key_keeps(l, "cantico "@, 0, d);
}

/// A key whose last character appears nowhere else in it (the song keys end
/// with their only space), so two of its occurrences never overlap.
pub open spec fn end_marked(key: Seq<char>) -> bool {
    key.len() > 0 && forall|m: int| 0 <= m < key.len() - 1 ==> #[trigger] key[m] != key.last()
}

/// The five keys after which a song number is read.
pub open spec fn song_key(key: Seq<char>) -> bool {
    key == "song "@ || key == "canción "@ || key == "cancion "@ || key == "cántico "@ || key
        == "cantico "@
}

proof fn lemma_no_overlap(h: Seq<char>, k: Seq<char>, i: int, j: int)
    requires
        end_marked(k),
        crate::text::occurs_at(h, k, i),
        crate::text::occurs_at(h, k, j),
        i < j,
    ensures
        j >= i + k.len(),
{
    if j < i + k.len() {
        let q = i + k.len() - 1;
        assert(h.subrange(i, i + k.len())[k.len() - 1] == h[q]);
        assert(h.subrange(j, j + k.len())[q - j] == h[q]);
        assert(k[q - j] != k.last());
    }
}

proof fn lemma_find_from_first(h: Seq<char>, k: Seq<char>, from: int, j: int)
    requires
        0 <= from <= j,
        crate::text::occurs_at(h, k, j),
    ensures
        find_from(h, k, from) matches Some(idx) && from <= idx <= j,
    decreases h.len() + 1 - from,
{
    if !crate::text::occurs_at(h, k, from) {
        assert(from != j);
        lemma_find_from_first(h, k, from + 1, j);
    }
}

proof fn lemma_scan_key_grows(l: Seq<char>, k: Seq<char>, pos: int, out: Seq<u32>, x: u32)
    requires
        out.contains(x),
    ensures
        scan_key(l, k, pos, out).contains(x),
    decreases l.len() - pos,
{
    if k.len() > 0 {
        match find_from(l, k, pos) {
            None => {},
            Some(idx) => {
                let p = idx + k.len();
                let out2 = match number_at(l, p) {
                    Some(n) => if 1 <= n <= 163 && !out.contains(n) {
                        out.push(n)
                    } else {
                        out
                    },
                    None => out,
                };
                assert(out2.contains(x)) by {
                    if out2 != out {
                        let w = choose|w: int| 0 <= w < out.len() && out[w] == x;
                        assert(out2[w] == x);
                    }
                }
                if !(p <= pos || p > l.len()) {
                    lemma_scan_key_grows(l, k, p, out2, x);
                }
            },
        }
    }
}

/// Scanning from `pos` reads the number after every occurrence of the key at
/// `pos` or later.
proof fn lemma_scan_key_reads(l: Seq<char>, k: Seq<char>, pos: int, out: Seq<u32>, i: int, n: u32)
    requires
        end_marked(k),
        0 <= pos <= i,
        crate::text::occurs_at(l, k, i),
        number_at(l, i + k.len()) == Some(n),
        1 <= n <= 163,
    ensures
        scan_key(l, k, pos, out).contains(n),
    decreases l.len() - pos,
{
    lemma_find_from_first(l, k, pos, i);
    lemma_find_from_bounds(l, k, pos);
    let idx = find_from(l, k, pos)->0;
    let p = idx + k.len();
    let out2 = match number_at(l, p) {
        Some(m) => if 1 <= m <= 163 && !out.contains(m) {
            out.push(m)
        } else {
            out
        },
        None => out,
    };
    assert(p > pos && p <= l.len());
    if idx == i {
        assert(out2.contains(n)) by {
            if !out.contains(n) {
                assert(out2 == out.push(n));
                assert(out2[out.len() as int] == n);
            }
        }
        lemma_scan_key_grows(l, k, p, out2, n);
    } else {
        lemma_no_overlap(l, k, idx, i);
        lemma_scan_key_reads(l, k, p, out2, i, n);
    }
}

/// Every song named in a document is read: wherever one of the five keys
/// occurs in the lower-cased text followed by a number from 1 to 163, that
/// number is among the song numbers.
pub proof fn law_every_named_song_is_read(html: Seq<char>, key: Seq<char>, i: int, n: u32)
    requires
        song_key(key),
        crate::text::occurs_at(ascii_lower(html), key, i),
        number_at(ascii_lower(html), i + key.len()) == Some(n),
        1 <= n <= 163,
    ensures
        song_numbers_spec(html).contains(n),
{
    reveal_strlit("song ");
    reveal_strlit("canción ");
    reveal_strlit("cancion ");
    reveal_strlit("cántico ");
    reveal_strlit("cantico ");
    let l = ascii_lower(html);
    assert(end_marked(key));
    let e = Seq::<u32>::empty();
    let a = scan_key(l, "song "@, 0, e);
    let b = scan_key(l, "canción "@, 0, a);
    let c = scan_key(l, "cancion "@, 0, b);
    let d = scan_key(l, "cántico "@, 0, c);
    let f = scan_key(l, "cantico "@, 0, d);
    assert(0 <= i);
    if key == "song "@ {
        lemma_scan_key_reads(l, key, 0, e, i, n);
        lemma_scan_key_grows(l, "canción "@, 0, a, n);
        lemma_scan_key_grows(l, "cancion "@, 0, b, n);
        lemma_scan_key_grows(l, "cántico "@, 0, c, n);
        lemma_scan_key_grows(l, "cantico "@, 0, d, n);
    } else if key == "canción "@ {
        lemma_scan_key_reads(l, key, 0, a, i, n);
        lemma_scan_key_grows(l, "cancion "@, 0, b, n);
        lemma_scan_key_grows(l, "cántico "@, 0, c, n);
        lemma_scan_key_grows(l, "cantico "@, 0, d, n);
    } else if key == "cancion "@ {
        lemma_scan_key_reads(l, key, 0, b, i, n);
        lemma_scan_key_grows(l, "cántico "@, 0, c, n);
        lemma_scan_key_grows(l, "cantico "@, 0, d, n);
    } else if key == "cántico "@ {
        lemma_scan_key_reads(l, key, 0, c, i, n);
        lemma_scan_key_grows(l, "cantico "@, 0, d, n);
    } else {
        lemma_scan_key_reads(l, key, 0, d, i, n);
    }
}

/// No medium of a document is lost: every item linked to it is in one of
/// its rows (a song row or the "Media" row), found by its id.
pub proof fn law_document_media_kept(html: Option<Seq<char>>, items: Seq<MediaItemV>, document_id: int)
    ensures
        forall|k: int|
            0 <= k < items.len() ==> ids_of(flat_items(parts_from_html_spec(html, items, document_id))).contains(
                #[trigger] items[k].id,
            ),
{
    let songs = match html {
        Some(h) => song_parts_spec(song_numbers_spec(h), items, document_id),
        None => Seq::empty(),
    };
    let used = ids_of(flat_items(songs));
    let left = leftover_spec(used, items);
    let r = parts_from_html_spec(html, items, document_id);
    assert forall|k: int| 0 <= k < items.len() implies ids_of(flat_items(r)).contains(#[trigger] items[k].id) by {
        let id = items[k].id;
        if used.contains(id) {
            let j = choose|j: int| 0 <= j < used.len() && used[j] == id;
            if r == songs {
                assert(ids_of(flat_items(r))[j] == id);
            } else {
                let m = media_part_spec(document_id, left);
                assert(r == songs.push(m));
                assert(r.drop_last() =~= songs);
                assert(flat_items(r) == flat_items(songs) + m.items);
                assert(ids_of(flat_items(r))[j] == id);
            }
        } else {
            crate::template::lemma_leftover_keeps(used, items, k);
            let j = choose|j: int| 0 <= j < left.len() && left[j] == items[k];
            let m = media_part_spec(document_id, left);
            assert(r == songs.push(m));
            assert(r.drop_last() =~= songs);
            assert(flat_items(r) == flat_items(songs) + m.items);
            assert(ids_of(flat_items(r))[flat_items(songs).len() + j] == id);
        }
    }
}

} // verus!
