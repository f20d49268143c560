//! Publication catalog: choosing a file from a catalog answer, checksums,
//! and an in-memory catalog. The HTTP client lives with the shell.

use md5::Digest;

use vstd::prelude::*;
use vstd::utf8::*;

use crate::error::AppError;
use crate::hymnal::HymnalCatalogTrack;
use crate::media::{
    format_token, CatalogFormat, CatalogHit, CatalogHitV, CatalogKey, CatalogKeyV, MediaResolver,
    PublicationCatalog,
};
use crate::text::{
    ascii_lower, chars_of, owned, parse_u32, parse_u32_exec, push_char, push_padded, push_str,
    str_eq,
};

verus! {

// ---------------------------------------------------------------------------
// Catalog answers.
// ---------------------------------------------------------------------------

/// Download location and checksum of one catalog file.
pub struct CatalogFileUrl {
    pub url: String,
    pub checksum: String,
}

/// One file offered by the catalog.
pub struct CatalogFile {
    pub label: String,
    pub filesize: u64,
    pub file: CatalogFileUrl,
}

/// The files of one format (`JWPUB`, `MP4`).
pub struct FormatFiles {
    pub format: String,
    pub files: Vec<CatalogFile>,
}

/// The formats offered for one language.
pub struct LangFiles {
    pub langwritten: String,
    pub formats: Vec<FormatFiles>,
}

/// A catalog answer: per language, per format, the files. Languages and
/// formats are listed in the order the answer's maps are walked.
pub struct CatalogResponse {
    pub files: Vec<LangFiles>,
}

/// The ASCII digits of a text, in order.
pub open spec fn digits_of(s: Seq<char>) -> Seq<char>
    decreases s.len(),
{
    if s.len() == 0 {
        s
    } else if '0' <= s.last() && s.last() <= '9' {
        digits_of(s.drop_last()).push(s.last())
    } else {
        digits_of(s.drop_last())
    }
}

/// Quality rank of a label: the number its digits spell (`720p` is 720),
/// 0 when there are none or it does not fit.
#[verifier::opaque]
pub open spec fn rank_spec(label: Seq<char>) -> u32 {
    match parse_u32(encode_utf8(digits_of(label))) {
        Some(v) => v,
        None => 0,
    }
}

/// Quality rank of a label.
pub fn label_rank(label: &str) -> (r: u32)
    ensures
        r == rank_spec(label@),
{
    let v = chars_of(label);
    let mut d = String::new();
    let mut i: usize = 0;
    while i < v.len()
        invariant
            i <= v@.len(),
            d@ == digits_of(v@.take(i as int)),
        decreases v@.len() - i,
    {
        assert(v@.take(i + 1).drop_last() =~= v@.take(i as int));
        if '0' <= v[i] && v[i] <= '9' {
            push_char(&mut d, v[i]);
        }
        i = i + 1;
    }
    assert(v@.take(v@.len() as int) =~= v@);
    reveal(rank_spec);
    match parse_u32_exec(d.as_str().as_bytes()) {
        Some(n) => n,
        None => 0,
    }
}

/// Index of the file with the highest rank; the last one among equals.
pub open spec fn best_index(files: Seq<CatalogFile>) -> int
    decreases files.len(),
{
    if files.len() <= 1 {
        0
    } else {
        let j = best_index(files.drop_last());
        if rank_spec(files.last().label@) >= rank_spec(files[j].label@) {
            files.len() - 1
        } else {
            j
        }
    }
}

/// The file at the best index outranks or equals every file, and every file
/// after it ranks strictly lower (the last of the top-ranked files is taken).
pub proof fn law_best_file_is_top_ranked(files: Seq<CatalogFile>)
    requires
        files.len() > 0,
    ensures
        0 <= best_index(files) < files.len(),
        forall|j: int|
            0 <= j < files.len() ==> #[trigger] rank_spec(files[j].label@) <= rank_spec(
                files[best_index(files)].label@,
            ),
        forall|j: int|
            best_index(files) < j < files.len() ==> #[trigger] rank_spec(files[j].label@) < rank_spec(
                files[best_index(files)].label@,
            ),
    decreases files.len(),
{
    if files.len() > 1 {
        let init = files.drop_last();
        law_best_file_is_top_ranked(init);
        let j0 = best_index(init);
        assert(init[j0] == files[j0]);
        assert forall|j: int| 0 <= j < files.len() - 1 implies #[trigger] rank_spec(files[j].label@)
            <= rank_spec(files[j0].label@) by {
            assert(init[j] == files[j]);
        }
        assert forall|j: int| j0 < j < files.len() - 1 implies #[trigger] rank_spec(files[j].label@)
            < rank_spec(files[j0].label@) by {
            assert(init[j] == files[j]);
        }
    }
}

/// For a video key, the chosen file is one of the files of the chosen
/// language and format, and no file there ranks higher.
pub proof fn law_chosen_video_is_top_ranked(body: Seq<LangFiles>, key: CatalogKeyV)
    requires
        key.format == CatalogFormat::Mp4,
        chosen_file(body, key) is Some,
    ensures
        ({
            let li = lang_index(body, key.langwritten)->0;
            let fi = format_index(body[li].formats@, format_token(key.format))->0;
            let list = body[li].formats@[fi].files@;
            let f = chosen_file(body, key)->0;
            &&& exists|k: int| 0 <= k < list.len() && list[k] == f
            &&& forall|j: int| 0 <= j < list.len() ==> #[trigger] rank_spec(list[j].label@) <= rank_spec(f.label@)
        }),
{
    let li = lang_index(body, key.langwritten)->0;
    let fi = format_index(body[li].formats@, format_token(key.format))->0;
    let list = body[li].formats@[fi].files@;
    law_best_file_is_top_ranked(list);
    let b = best_index(list);
    assert(0 <= b < list.len() && list[b] == chosen_file(body, key)->0);
}

/// The language entry for `lang`, else the first one.
pub open spec fn lang_index(files: Seq<LangFiles>, lang: Seq<char>) -> Option<int> {
    if exists|i: int| 0 <= i < files.len() && files[i].langwritten@ == lang {
        Some(choose|i: int| 0 <= i < files.len() && files[i].langwritten@ == lang && forall|j: int| 0 <= j < i ==> files[j].langwritten@ != lang)
    } else if files.len() > 0 {
        Some(0)
    } else {
        None
    }
}

/// The format entry for `token`, if any (the first one).
pub open spec fn format_index(formats: Seq<FormatFiles>, token: Seq<char>) -> Option<int> {
    if exists|i: int| 0 <= i < formats.len() && formats[i].format@ == token {
        Some(choose|i: int| 0 <= i < formats.len() && formats[i].format@ == token && forall|j: int| 0 <= j < i ==> formats[j].format@ != token)
    } else {
        None
    }
}

/// The file chosen for a key: the key's language (else the first listed),
/// the key's format, then the first file for a publication or the highest
/// ranked video. `None` when any of these is missing or the list is empty.
pub open spec fn chosen_file(body: Seq<LangFiles>, key: CatalogKeyV) -> Option<CatalogFile> {
    match lang_index(body, key.langwritten) {
        None => None,
        Some(li) => match format_index(body[li].formats@, format_token(key.format)) {
            None => None,
            Some(fi) => {
                let list = body[li].formats@[fi].files@;
                if list.len() == 0 {
                    None
                } else {
                    match key.format {
                        CatalogFormat::Jwpub => Some(list[0]),
                        CatalogFormat::Mp4 => Some(list[best_index(list)]),
                    }
                }
            },
        },
    }
}

/// First language entry for `lang`, else the first entry.
fn find_lang(files: &Vec<LangFiles>, lang: &str) -> (r: Option<usize>)
    ensures
        match r {
            Some(i) => lang_index(files@, lang@) == Some(i as int) && i < files@.len(),
            None => lang_index(files@, lang@) is None,
        },
{
    let mut i: usize = 0;
    while i < files.len()
        invariant
            i <= files@.len(),
            forall|j: int| 0 <= j < i ==> files@[j].langwritten@ != lang@,
        decreases files@.len() - i,
    {
        if str_eq(files[i].langwritten.as_str(), lang) {
            assert(exists|k: int| 0 <= k < files@.len() && files@[k].langwritten@ == lang@);
            let ghost c = choose|k: int| 0 <= k < files@.len() && files@[k].langwritten@ == lang@ && forall|j: int| 0 <= j < k ==> files@[j].langwritten@ != lang@;
            assert(c == i) by {
                if c < i {
                    assert(files@[c].langwritten@ != lang@);
                }
                if i < c {
                    assert(files@[i as int].langwritten@ != lang@);
                }
            }
            return Some(i);
        }
        i = i + 1;
    }
    if files.len() > 0 {
        Some(0)
    } else {
        None
    }
}

/// First format entry for `token`.
fn find_format(formats: &Vec<FormatFiles>, token: &str) -> (r: Option<usize>)
    ensures
        match r {
            Some(i) => format_index(formats@, token@) == Some(i as int) && i < formats@.len(),
            None => format_index(formats@, token@) is None,
        },
{
    let mut i: usize = 0;
    while i < formats.len()
        invariant
            i <= formats@.len(),
            forall|j: int| 0 <= j < i ==> formats@[j].format@ != token@,
        decreases formats@.len() - i,
    {
        if str_eq(formats[i].format.as_str(), token) {
            let ghost c = choose|k: int| 0 <= k < formats@.len() && formats@[k].format@ == token@ && forall|j: int| 0 <= j < k ==> formats@[j].format@ != token@;
            assert(c == i) by {
                if c < i {
                    assert(formats@[c].format@ != token@);
                }
                if i < c {
                    assert(formats@[i as int].format@ != token@);
                }
            }
            return Some(i);
        }
        i = i + 1;
    }
    None
}

/// Index of the highest-ranked file, the last among equals.
#[verifier::rlimit(40)]
fn best_file(files: &Vec<CatalogFile>) -> (r: usize)
    requires
        files@.len() > 0,
    ensures
        r == best_index(files@),
        r < files@.len(),
        forall|j: int|
            0 <= j < files@.len() ==> #[trigger] rank_spec(files@[j].label@) <= rank_spec(files@[r as int].label@),
        forall|j: int|
            r < j < files@.len() ==> #[trigger] rank_spec(files@[j].label@) < rank_spec(files@[r as int].label@),
{
    let mut best: usize = 0;
    let mut best_rank: u32 = label_rank(files[0].label.as_str());
    let mut i: usize = 1;
    assert(files@.take(1).len() == 1);
    while i < files.len()
        invariant
            1 <= i <= files@.len(),
            best == best_index(files@.take(i as int)),
            best < i,
            best_rank == rank_spec(files@[best as int].label@),
        decreases files@.len() - i,
    {
        let r = label_rank(files[i].label.as_str());
        assert(files@.take(i + 1).drop_last() =~= files@.take(i as int));
        assert(files@.take(i + 1).last() == files@[i as int]);
        assert(files@.take(i + 1)[best as int] == files@[best as int]);
        if r >= best_rank {
            best = i;
            best_rank = r;
        }
        i = i + 1;
    }
    assert(files@.take(files@.len() as int) =~= files@);
    proof {
        law_best_file_is_top_ranked(files@);
    }
    best
}

/// Picks the file for a key from a catalog answer: its hit (key, checksum,
/// size) and its URL. `CatalogNotFound` when the answer offers nothing for
/// the key's language and format.
pub fn pick_file(body: &CatalogResponse, key: &CatalogKey) -> (r: Result<(CatalogHit, String), AppError>)
    ensures
        match chosen_file(body.files@, key@) {
            Some(f) => r is Ok && r->Ok_0.0@ == (CatalogHitV {
                key: key@,
                checksum: f.file.checksum@,
                size: f.filesize,
            }) && r->Ok_0.1@ == f.file.url@,
            None => r is Err && r->Err_0 is CatalogNotFound,
        },
{
    let li = match find_lang(&body.files, key.langwritten.as_str()) {
        Some(i) => i,
        None => {
            assert(lang_index(body.files@, key@.langwritten) is None);
            return Err(AppError::CatalogNotFound);
        },
    };
    assert(lang_index(body.files@, key@.langwritten) == Some(li as int));
    let by_lang = &body.files[li];
    let fi = match find_format(&by_lang.formats, key.format.as_str()) {
        Some(i) => i,
        None => {
            assert(format_index(body.files@[li as int].formats@, format_token(key@.format)) is None);
            return Err(AppError::CatalogNotFound);
        },
    };
    assert(format_index(body.files@[li as int].formats@, format_token(key@.format)) == Some(fi as int));
    let list = &by_lang.formats[fi].files;
    if list.len() == 0 {
        assert(body.files@[li as int].formats@[fi as int].files@.len() == 0);
        return Err(AppError::CatalogNotFound);
    }
    let ci = match key.format {
        CatalogFormat::Jwpub => 0,
        CatalogFormat::Mp4 => best_file(list),
    };
    let chosen = &list[ci];
    let hit = CatalogHit { key: key.copy(), checksum: chosen.file.checksum.clone(), size: chosen.filesize };
    Ok((hit, chosen.file.url.clone()))
}

// ---------------------------------------------------------------------------
// Requests and replies.
// ---------------------------------------------------------------------------

/// The query pairs of a catalog request, in order: `output=json`, the
/// language, the publication, the file format, then the issue and the
/// track when the key has them.
pub open spec fn catalog_query_spec(k: CatalogKeyV) -> Seq<(Seq<char>, Seq<char>)> {
    seq![("output"@, "json"@), ("langwritten"@, k.langwritten), ("pub"@, k.pub_symbol), ("fileformat"@, format_token(k.format))]
        + (match k.issue {
        Some(i) => seq![("issue"@, i)],
        None => Seq::empty(),
    }) + (match k.track {
        Some(t) => seq![("track"@, crate::text::dec(t as nat))],
        None => Seq::empty(),
    })
}

/// Views of query pairs.
pub open spec fn pairs_view(v: Seq<(String, String)>) -> Seq<(Seq<char>, Seq<char>)> {
    v.map_values(|p: (String, String)| (p.0@, p.1@))
}

/// The query pairs to send for a catalog key.
pub fn catalog_query(key: &CatalogKey) -> (r: Vec<(String, String)>)
    ensures
        pairs_view(r@) == catalog_query_spec(key@),
{
    let mut r: Vec<(String, String)> = Vec::new();
    r.push((owned("output"), owned("json")));
    r.push((owned("langwritten"), key.langwritten.clone()));
    r.push((owned("pub"), key.pub_symbol.clone()));
    r.push((owned("fileformat"), owned(key.format.as_str())));
    let ghost base = pairs_view(r@);
    match &key.issue {
        Some(issue) => r.push((owned("issue"), issue.clone())),
        None => {},
    }
    let ghost with_issue = pairs_view(r@);
    match key.track {
        Some(track) => {
            let mut t = String::new();
            push_padded(&mut t, track as u64, 0);
            proof {
                crate::text::lemma_pad_dec_zero(track as nat);
            }
            r.push((owned("track"), t));
        },
        None => {},
    }
    assert(pairs_view(r@) =~= catalog_query_spec(key@));
    r
}

/// How the catalog's HTTP status is read: 404 is a missing entry, another
/// status outside 200–299 a network error quoting the status.
pub fn check_catalog_status(code: u16, status_text: &str) -> (r: Result<(), AppError>)
    ensures
        code == 404 ==> r == Err::<(), AppError>(AppError::CatalogNotFound),
        code != 404 && 200 <= code <= 299 ==> r is Ok,
        code != 404 && !(200 <= code <= 299) ==> (r matches Err(AppError::Network(m)) && m@ == "catalog HTTP "@ + status_text@),
{
    if code == 404 {
        return Err(AppError::CatalogNotFound);
    }
    if code < 200 || code > 299 {
        return Err(AppError::Network(crate::text::concat2("catalog HTTP ", status_text)));
    }
    Ok(())
}

/// How a file download's HTTP status is read: outside 200–299 it is a
/// network error quoting the status.
pub fn check_download_status(code: u16, status_text: &str) -> (r: Result<(), AppError>)
    ensures
        200 <= code <= 299 ==> r is Ok,
        !(200 <= code <= 299) ==> (r matches Err(AppError::Network(m)) && m@ == "download HTTP "@ + status_text@),
{
    if code < 200 || code > 299 {
        return Err(AppError::Network(crate::text::concat2("download HTTP ", status_text)));
    }
    Ok(())
}

// ---------------------------------------------------------------------------
// Checksums.
// ---------------------------------------------------------------------------

/// Lower-case hex MD5 of some bytes, as the `md-5` crate computes it.
pub uninterp spec fn md5_hex_of(bytes: Seq<u8>) -> Seq<char>;

/// A lower-case hexadecimal digit.
pub open spec fn is_lower_hex(c: char) -> bool {
    ('0' <= c && c <= '9') || ('a' <= c && c <= 'f')
}

/// Hex MD5 used to compare catalog checksums with disk: `Md5::digest`
/// formatted with `{:x}`. Claimed: the text depends on the bytes alone and
/// is 32 lower-case hex digits (16 digest bytes, two digits each).
#[verifier::external_body]
pub fn md5_hex(bytes: &[u8]) -> (r: String)
    ensures
        r@ == md5_hex_of(bytes@),
        r@.len() == 32,
        forall|i: int| 0 <= i < 32 ==> is_lower_hex(#[trigger] r@[i]),
{
    format!("{:x}", md5::Md5::digest(bytes))
}

/// Whether downloaded bytes match a catalog checksum: an empty checksum
/// accepts anything; otherwise the MD5 must equal it up to ASCII case.
pub open spec fn checksum_ok(bytes: Seq<u8>, checksum: Seq<char>) -> bool {
    checksum.len() == 0 || md5_hex_of(bytes) == ascii_lower(checksum)
}

/// Whether downloaded bytes match a catalog checksum.
pub fn checksum_matches(bytes: &[u8], checksum: &str) -> (b: bool)
    ensures
        b == checksum_ok(bytes@, checksum@),
{
    if checksum.is_empty() {
        return true;
    }
    let h = md5_hex(bytes);
    let lower = crate::text::ascii_lower_vec(&chars_of(checksum));
    let ls = crate::text::string_from_chars(lower.as_slice());
    str_eq(h.as_str(), ls.as_str())
}

/// Bytes recorded with their own MD5 (as `md5_hex` writes it) as checksum
/// are accepted, and so is any file when no checksum was recorded.
pub proof fn law_own_checksum_accepted(bytes: Seq<u8>)
    requires
        md5_hex_of(bytes).len() == 32,
        forall|i: int| 0 <= i < 32 ==> is_lower_hex(#[trigger] md5_hex_of(bytes)[i]),
    ensures
        checksum_ok(bytes, md5_hex_of(bytes)),
        checksum_ok(bytes, Seq::<char>::empty()),
{
    let h = md5_hex_of(bytes);
    assert(ascii_lower(h) =~= h);
}

// ---------------------------------------------------------------------------
// In-memory catalog.
// ---------------------------------------------------------------------------

/// `{lang}:{pub}:{issue or -}:{track or 0}:{FORMAT}`.
pub open spec fn memory_id_spec(k: CatalogKeyV) -> Seq<char> {
    k.langwritten + ":"@ + k.pub_symbol + ":"@ + (match k.issue {
        Some(i) => i,
        None => "-"@,
    }) + ":"@ + crate::text::dec(
        match k.track {
            Some(t) => t as nat,
            None => 0,
        },
    ) + ":"@ + format_token(k.format)
}

/// The in-memory id of a key.
pub fn memory_id(key: &CatalogKey) -> (s: String)
    ensures
        s@ == memory_id_spec(key@),
{
    let mut s = key.langwritten.clone();
    push_str(&mut s, ":");
    push_str(&mut s, key.pub_symbol.as_str());
    push_str(&mut s, ":");
    match &key.issue {
        Some(i) => push_str(&mut s, i.as_str()),
        None => push_str(&mut s, "-"),
    }
    push_str(&mut s, ":");
    let t: u32 = match key.track {
        Some(t) => t,
        None => 0,
    };
    push_padded(&mut s, t as u64, 0);
    proof {
        crate::text::lemma_pad_dec_zero(t as nat);
    }
    push_str(&mut s, ":");
    push_str(&mut s, key.format.as_str());
    s
}

/// One stored file.
struct MemoryFile {
    id: String,
    hit: CatalogHit,
    bytes: Vec<u8>,
}

/// Contents of an in-memory catalog: stored files in insertion order (a
/// later one shadows an earlier one with the same id) and the ids whose
/// next lookup fails, one failure per mark.
pub struct MemoryCatalogV {
    pub files: Seq<(Seq<char>, CatalogHitV, Seq<u8>)>,
    pub missing: Seq<Seq<char>>,
    pub hymnal: Seq<(Seq<char>, Seq<HymnalCatalogTrack>)>,
}

/// In-memory catalog for tests. Maps a key to bytes and checksum.
pub struct MemoryCatalog {
    files: Vec<MemoryFile>,
    missing: Vec<String>,
    hymnal: Vec<(String, Vec<HymnalCatalogTrack>)>,
}

impl View for MemoryCatalog {
    type V = MemoryCatalogV;

    closed spec fn view(&self) -> MemoryCatalogV {
        MemoryCatalogV {
            files: self.files@.map_values(|f: MemoryFile| (f.id@, f.hit@, f.bytes@)),
            missing: self.missing@.map_values(|m: String| m@),
            hymnal: self.hymnal@.map_values(|h: (String, Vec<HymnalCatalogTrack>)| (h.0@, h.1@)),
        }
    }
}

/// The stored hit and bytes of an id: the latest stored under it.
pub open spec fn stored(files: Seq<(Seq<char>, CatalogHitV, Seq<u8>)>, id: Seq<char>) -> Option<(CatalogHitV, Seq<u8>)>
    decreases files.len(),
{
    if files.len() == 0 {
        None
    } else if files.last().0 == id {
        Some((files.last().1, files.last().2))
    } else {
        stored(files.drop_last(), id)
    }
}

/// The contents after storing `bytes` under `key` with `checksum`.
pub open spec fn insert_spec(c: MemoryCatalogV, key: CatalogKeyV, bytes: Seq<u8>, checksum: Seq<char>) -> MemoryCatalogV {
    MemoryCatalogV {
        files: c.files.push(
            (memory_id_spec(key), CatalogHitV { key, checksum, size: bytes.len() as u64 }, bytes),
        ),
        ..c
    }
}

/// The contents after marking `key` missing once more.
pub open spec fn mark_missing_spec(c: MemoryCatalogV, key: CatalogKeyV) -> MemoryCatalogV {
    MemoryCatalogV { missing: c.missing.push(memory_id_spec(key)), ..c }
}

/// First position of `id` among the missing marks.
pub open spec fn missing_pos(missing: Seq<Seq<char>>, id: Seq<char>) -> Option<int> {
    if missing.contains(id) {
        Some(choose|i: int| 0 <= i < missing.len() && missing[i] == id && forall|j: int| 0 <= j < i ==> missing[j] != id)
    } else {
        None
    }
}

/// The first songbook listing stored for a language, if any.
pub open spec fn hymnal_listing(hymnal: Seq<(Seq<char>, Seq<HymnalCatalogTrack>)>, langwritten: Seq<char>) -> Option<Seq<HymnalCatalogTrack>> {
    if exists|k: int| 0 <= k < hymnal.len() && hymnal[k].0 == langwritten {
        let k = choose|k: int| 0 <= k < hymnal.len() && hymnal[k].0 == langwritten && forall|j: int| 0 <= j < k ==> hymnal[j].0 != langwritten;
        Some(hymnal[k].1)
    } else {
        None
    }
}

/// Answer and contents after a lookup: a pending mark is used up and
/// answers `CatalogNotFound`; otherwise the stored hit, if any.
pub open spec fn lookup_spec(c: MemoryCatalogV, key: CatalogKeyV) -> (Result<CatalogHitV, AppError>, MemoryCatalogV) {
    let id = memory_id_spec(key);
    match missing_pos(c.missing, id) {
        Some(p) => (Err(AppError::CatalogNotFound), MemoryCatalogV { missing: c.missing.remove(p), ..c }),
        None => match stored(c.files, id) {
            Some((hit, _)) => (Ok(hit), c),
            None => (Err(AppError::CatalogNotFound), c),
        },
    }
}

/// Answer of a fetch: the stored bytes, if any.
pub open spec fn fetch_spec(c: MemoryCatalogV, key: CatalogKeyV) -> Result<Seq<u8>, AppError> {
    match stored(c.files, memory_id_spec(key)) {
        Some((_, bytes)) => Ok(bytes),
        None => Err(AppError::CatalogNotFound),
    }
}

impl MemoryCatalog {
    /// Empty fake catalog.
    pub fn new() -> (r: MemoryCatalog)
        ensures
            r@.files.len() == 0,
            r@.missing.len() == 0,
            r@.hymnal.len() == 0,
    {
        let r = MemoryCatalog { files: Vec::new(), missing: Vec::new(), hymnal: Vec::new() };
        assert(r@.files =~= Seq::<(Seq<char>, CatalogHitV, Seq<u8>)>::empty());
        assert(r@.missing =~= Seq::<Seq<char>>::empty());
        assert(r@.hymnal =~= Seq::<(Seq<char>, Seq<HymnalCatalogTrack>)>::empty());
        r
    }

    /// Stores a blob under a key; its hit carries `checksum` and the blob's length.
    pub fn insert(&mut self, key: CatalogKey, bytes: Vec<u8>, checksum: String)
        ensures
            final(self)@ == insert_spec(old(self)@, key@, bytes@, checksum@),
    {
        let id = memory_id(&key);
        let size = bytes.len() as u64;
        let hit = CatalogHit { key, checksum, size };
        let f = MemoryFile { id, hit, bytes };
        let ghost before = self.files@;
        self.files.push(f);
        assert(self@.files =~= old(self)@.files.push((f.id@, f.hit@, f.bytes@)));
    }

    /// The next lookup of this key answers `CatalogNotFound`, once.
    pub fn mark_missing(&mut self, key: &CatalogKey)
        ensures
            final(self)@ == mark_missing_spec(old(self)@, key@),
    {
        let id = memory_id(key);
        self.missing.push(id);
        assert(self@.missing =~= old(self)@.missing.push(id@));
        assert(self@.files =~= old(self)@.files);
    }

    /// Stores the songbook listing of a language (after any earlier one).
    pub fn insert_hymnal_tracks(&mut self, langwritten: &str, tracks: Vec<HymnalCatalogTrack>)
        ensures
            final(self)@ == (MemoryCatalogV { hymnal: old(self)@.hymnal.push((langwritten@, tracks@)), ..old(self)@ }),
    {
        let entry = (owned(langwritten), tracks);
        self.hymnal.push(entry);
        assert(self@.hymnal =~= old(self)@.hymnal.push((langwritten@, entry.1@)));
        assert(self@.files =~= old(self)@.files);
        assert(self@.missing =~= old(self)@.missing);
    }

    /// Position of the latest stored file with this id.
    fn find_stored(&self, id: &str) -> (r: Option<usize>)
        ensures
            match stored(self@.files, id@) {
                Some(v) => r is Some && r->0 < self.files@.len() && (self.files@[r->0 as int].hit@, self.files@[r->0 as int].bytes@) == v,
                None => r is None,
            },
    {
        let ghost fs = self@.files;
        let mut i: usize = self.files.len();
        assert(fs.take(i as int) =~= fs);
        while i > 0
            invariant
                i <= self.files@.len(),
                fs == self@.files,
                stored(fs, id@) == stored(fs.take(i as int), id@),
            decreases i,
        {
            let f = &self.files[i - 1];
            assert(fs[i - 1] == (f.id@, f.hit@, f.bytes@));
            assert(fs.take(i as int).drop_last() =~= fs.take(i - 1));
            if str_eq(f.id.as_str(), id) {
                return Some(i - 1);
            }
            i = i - 1;
        }
        None
    }

    /// Position of the first missing mark for this id.
    fn find_missing(&self, id: &str) -> (r: Option<usize>)
        ensures
            match r {
                Some(p) => missing_pos(self@.missing, id@) == Some(p as int) && p < self.missing@.len(),
                None => missing_pos(self@.missing, id@) is None,
            },
    {
        let ghost ms = self@.missing;
        let mut i: usize = 0;
        while i < self.missing.len()
            invariant
                i <= self.missing@.len(),
                ms == self@.missing,
                forall|j: int| 0 <= j < i ==> ms[j] != id@,
            decreases self.missing@.len() - i,
        {
            assert(ms[i as int] == self.missing@[i as int]@);
            if str_eq(self.missing[i].as_str(), id) {
                assert(ms.contains(id@));
                let ghost c = choose|k: int| 0 <= k < ms.len() && ms[k] == id@ && forall|j: int| 0 <= j < k ==> ms[j] != id@;
                assert(c == i) by {
                    if i < c {
                        assert(ms[i as int] != id@);
                    }
                }
                return Some(i);
            }
            i = i + 1;
        }
        assert(!ms.contains(id@));
        None
    }
}

impl PublicationCatalog for MemoryCatalog {
    fn lookup(&mut self, key: &CatalogKey) -> (r: Result<CatalogHit, AppError>)
        ensures
            (match r {
                Ok(h) => Ok::<CatalogHitV, AppError>(h@),
                Err(e) => Err::<CatalogHitV, AppError>(e),
            }, final(self)@) == lookup_spec(old(self)@, key@),
    {
        let id = memory_id(key);
        match self.find_missing(id.as_str()) {
            Some(p) => {
                let ghost before = self@;
                self.missing.remove(p);
                assert(self@.missing =~= before.missing.remove(p as int));
                assert(self@.files =~= before.files);
                assert(self@ == MemoryCatalogV { missing: old(self)@.missing.remove(p as int), ..old(self)@ });
                return Err(AppError::CatalogNotFound);
            },
            None => {},
        }
        match self.find_stored(id.as_str()) {
            Some(i) => Ok(self.files[i].hit.copy()),
            None => Err(AppError::CatalogNotFound),
        }
    }

    fn list_hymnal_tracks(&mut self, langwritten: &str) -> (r: Result<Vec<HymnalCatalogTrack>, AppError>)
        ensures
            final(self)@ == old(self)@,
            match hymnal_listing(old(self)@.hymnal, langwritten@) {
                Some(ts) => r is Ok && r->Ok_0@.len() == ts.len() && forall|i: int|
                    0 <= i < ts.len() ==> crate::hymnal::same_track(#[trigger] r->Ok_0@[i], ts[i]),
                None => r is Err && r->Err_0 is CatalogNotFound,
            },
    {
        let ghost hs = self@.hymnal;
        let mut i: usize = 0;
        while i < self.hymnal.len()
            invariant
                i <= self.hymnal@.len(),
                hs == self@.hymnal,
                forall|k: int| 0 <= k < i ==> hs[k].0 != langwritten@,
            decreases self.hymnal@.len() - i,
        {
            assert(hs[i as int] == (self.hymnal@[i as int].0@, self.hymnal@[i as int].1@));
            if str_eq(self.hymnal[i].0.as_str(), langwritten) {
                proof {
                    let c = choose|k: int| 0 <= k < hs.len() && hs[k].0 == langwritten@ && forall|j: int| 0 <= j < k ==> hs[j].0 != langwritten@;
                    assert(c == i) by {
                        if c < i {
                            assert(hs[c].0 != langwritten@);
                        }
                        if i < c {
                            assert(hs[i as int].0 != langwritten@);
                        }
                    }
                }
                return Ok(crate::hymnal::copy_tracks(&self.hymnal[i].1));
            }
            i = i + 1;
        }
        Err(AppError::CatalogNotFound)
    }
}

impl MediaResolver for MemoryCatalog {
    fn fetch(&mut self, key: &CatalogKey) -> (r: Result<Vec<u8>, AppError>)
        ensures
            final(self)@ == old(self)@,
            match r {
                Ok(b) => fetch_spec(old(self)@, key@) == Ok::<Seq<u8>, AppError>(b@),
                Err(e) => fetch_spec(old(self)@, key@) == Err::<Seq<u8>, AppError>(e),
            },
    {
        let id = memory_id(key);
        match self.find_stored(id.as_str()) {
            Some(i) => Ok(self.files[i].bytes.clone()),
            None => Err(AppError::CatalogNotFound),
        }
    }
}

/// A read gives back what the latest write stored under the same key.
pub proof fn law_fetch_after_insert(c: MemoryCatalogV, key: CatalogKeyV, bytes: Seq<u8>, checksum: Seq<char>)
    ensures
        fetch_spec(insert_spec(c, key, bytes, checksum), key) == Ok::<Seq<u8>, AppError>(bytes),
{
}

/// A lookup after a write, with no missing mark pending, answers the hit
/// with the written checksum and size.
pub proof fn law_lookup_after_insert(c: MemoryCatalogV, key: CatalogKeyV, bytes: Seq<u8>, checksum: Seq<char>)
    requires
        !c.missing.contains(memory_id_spec(key)),
    ensures
        lookup_spec(insert_spec(c, key, bytes, checksum), key) == (
            Ok::<CatalogHitV, AppError>(CatalogHitV { key, checksum, size: bytes.len() as u64 }),
            insert_spec(c, key, bytes, checksum),
        ),
{
}

/// A missing mark fails exactly one lookup: the first answers
/// `CatalogNotFound`, the next one (with no other mark for the key) finds
/// what was stored.
pub proof fn law_missing_fails_once(c: MemoryCatalogV, key: CatalogKeyV)
    requires
        !c.missing.contains(memory_id_spec(key)),
    ensures
        lookup_spec(mark_missing_spec(c, key), key).0 == Err::<CatalogHitV, AppError>(AppError::CatalogNotFound),
        lookup_spec(mark_missing_spec(c, key), key).1 == c,
{
    let id = memory_id_spec(key);
    let m = mark_missing_spec(c, key);
    assert(m.missing[c.missing.len() as int] == id);
    assert(m.missing.contains(id));
    let p = missing_pos(m.missing, id)->0;
    assert(p == c.missing.len()) by {
        if p < c.missing.len() {
            assert(c.missing[p] == id);
        }
    }
    assert(m.missing.remove(p) =~= c.missing);
}

} // verus!
