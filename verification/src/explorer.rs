//! File explorer of the operator's Multimedia tab: which files are shown,
//! in what order, which folders may be opened, and staging names.

use vstd::prelude::*;

use crate::error::AppError;
use crate::jwpub::{tail_after, tail_after_exec};
use crate::text::{
    ascii_lower, ascii_lower_vec, chars_of, dec, owned, push_padded, push_str, starts_with_seq,
    str_eq, string_from_chars, trim_seq, utf8_len,
};
use crate::week::{err_says, strings_view};

verus! {

/// Per-profile extra folders the explorer may list.
#[derive(Debug, Clone)]
pub struct ExplorerSetting {
    pub roots: Vec<String>,
}

impl Default for ExplorerSetting {
    fn default() -> (r: ExplorerSetting)
        ensures
            r.roots@.len() == 0,
    {
        ExplorerSetting { roots: Vec::new() }
    }
}

/// What the operator sees for one directory entry.
#[derive(Debug, Clone, Copy, PartialEq, Eq, Structural)]
pub enum ExplorerKind {
    Dir,
    Image,
    Video,
    Jwpub,
}

/// One row of the explorer list.
#[derive(Debug)]
pub struct ExplorerEntryDto {
    pub name: String,
    pub path: String,
    pub kind: ExplorerKind,
}

/// A listed directory (or the list of starting folders).
#[derive(Debug)]
pub struct ExplorerListDto {
    pub path: String,
    pub parent: Option<String>,
    pub entries: Vec<ExplorerEntryDto>,
}

/// Lower-cased text after the last dot of a name (the whole name when it has none).
pub open spec fn name_ext(name: Seq<char>) -> Seq<char> {
    ascii_lower(tail_after(name, '.', '.'))
}

/// Kind of a file by its extension; `None` for anything not shown.
pub open spec fn classify_spec(name: Seq<char>) -> Option<ExplorerKind> {
    let e = name_ext(name);
    if e == "jpg"@ || e == "jpeg"@ || e == "png"@ || e == "webp"@ || e == "gif"@ {
        Some(ExplorerKind::Image)
    } else if e == "mp4"@ || e == "webm"@ {
        Some(ExplorerKind::Video)
    } else if e == "jwpub"@ {
        Some(ExplorerKind::Jwpub)
    } else {
        None
    }
}

/// The picture extensions a listing shows.
pub open spec fn picture_ext(e: Seq<char>) -> bool {
    e == "jpg"@ || e == "jpeg"@ || e == "png"@ || e == "webp"@ || e == "gif"@
}

/// The video extensions a listing shows.
pub open spec fn video_ext(e: Seq<char>) -> bool {
    e == "mp4"@ || e == "webm"@
}

proof fn lemma_tail_after_last_dot(base: Seq<char>, ext: Seq<char>)
    requires
        forall|i: int| 0 <= i < ext.len() ==> #[trigger] ext[i] != '.',
    ensures
        tail_after(base + seq!['.'] + ext, '.', '.') == ext,
    decreases ext.len(),
{
    let name = base + seq!['.'] + ext;
    if ext.len() == 0 {
        assert(name.last() == '.');
    } else {
        lemma_tail_after_last_dot(base, ext.drop_last());
        assert(name.drop_last() =~= base + seq!['.'] + ext.drop_last());
        assert(name.last() == ext.last());
        assert(ext.drop_last().push(ext.last()) =~= ext);
    }
}

/// A file is classified by the lower-cased text after its last dot: a
/// picture extension (jpg, jpeg, png, webp, gif, in any ASCII case) makes it
/// a picture, a video extension (mp4, webm) a video, `jwpub` a publication,
/// and any other extension hides it.
pub proof fn law_files_classify_by_extension(base: Seq<char>, ext: Seq<char>)
    requires
        forall|i: int| 0 <= i < ext.len() ==> #[trigger] ext[i] != '.',
    ensures
        picture_ext(ascii_lower(ext)) ==> classify_spec(base + seq!['.'] + ext) == Some(ExplorerKind::Image),
        video_ext(ascii_lower(ext)) ==> classify_spec(base + seq!['.'] + ext) == Some(ExplorerKind::Video),
        ascii_lower(ext) == "jwpub"@ ==> classify_spec(base + seq!['.'] + ext) == Some(ExplorerKind::Jwpub),
        !picture_ext(ascii_lower(ext)) && !video_ext(ascii_lower(ext)) && ascii_lower(ext) != "jwpub"@
            ==> classify_spec(base + seq!['.'] + ext) is None,
{
    reveal_strlit("jpg");
    reveal_strlit("jpeg");
    reveal_strlit("png");
    reveal_strlit("webp");
    reveal_strlit("gif");
    reveal_strlit("mp4");
    reveal_strlit("webm");
    reveal_strlit("jwpub");
    lemma_tail_after_last_dot(base, ext);
    let e = ascii_lower(ext);
    assert(name_ext(base + seq!['.'] + ext) == e);
    assert("jpg"@.len() == 3 && "jpg"@[0] == 'j');
    assert("jpeg"@.len() == 4 && "jpeg"@[0] == 'j');
    assert("png"@.len() == 3 && "png"@[0] == 'p');
    assert("webp"@.len() == 4 && "webp"@[3] == 'p');
    assert("gif"@.len() == 3 && "gif"@[0] == 'g');
    assert("mp4"@.len() == 3 && "mp4"@[0] == 'm');
    assert("webm"@.len() == 4 && "webm"@[3] == 'm' && "webm"@[0] == 'w');
    assert("jwpub"@.len() == 5);
    if video_ext(e) || e == "jwpub"@ {
        assert(!picture_ext(e));
    }
    if e == "jwpub"@ {
        assert(!video_ext(e));
    }
}

/// Lower-cased extension of a name.
fn ext_of(name: &str) -> (s: String)
    ensures
        s@ == name_ext(name@),
{
    let t = tail_after_exec(&chars_of(name), '.', '.');
    let l = ascii_lower_vec(&t);
    string_from_chars(l.as_slice())
}

/// Classifies a file name. Directories are `Dir` (the caller checks that).
pub fn classify_file(name: &str) -> (r: Option<ExplorerKind>)
    ensures
        r == classify_spec(name@),
{
    let e = ext_of(name);
    let e = e.as_str();
    if str_eq(e, "jpg") || str_eq(e, "jpeg") || str_eq(e, "png") || str_eq(e, "webp") || str_eq(e, "gif") {
        Some(ExplorerKind::Image)
    } else if str_eq(e, "mp4") || str_eq(e, "webm") {
        Some(ExplorerKind::Video)
    } else if str_eq(e, "jwpub") {
        Some(ExplorerKind::Jwpub)
    } else {
        None
    }
}

/// MIME of a classified file.
pub open spec fn mime_spec(kind: ExplorerKind, name: Seq<char>) -> Seq<char> {
    let e = name_ext(name);
    match kind {
        ExplorerKind::Image => if e == "png"@ {
            "image/png"@
        } else if e == "webp"@ {
            "image/webp"@
        } else if e == "gif"@ {
            "image/gif"@
        } else {
            "image/jpeg"@
        },
        ExplorerKind::Video => if e == "webm"@ {
            "video/webm"@
        } else {
            "video/mp4"@
        },
        _ => "application/octet-stream"@,
    }
}

/// MIME for a classified file.
pub fn mime_for(kind: ExplorerKind, name: &str) -> (m: &'static str)
    ensures
        m@ == mime_spec(kind, name@),
{
    let e = ext_of(name);
    let e = e.as_str();
    match kind {
        ExplorerKind::Image => if str_eq(e, "png") {
            "image/png"
        } else if str_eq(e, "webp") {
            "image/webp"
        } else if str_eq(e, "gif") {
            "image/gif"
        } else {
            "image/jpeg"
        },
        ExplorerKind::Video => if str_eq(e, "webm") {
            "video/webm"
        } else {
            "video/mp4"
        },
        _ => "application/octet-stream",
    }
}

/// A text without its leading dots.
pub open spec fn strip_dots(s: Seq<char>) -> Seq<char>
    decreases s.len(),
{
    if s.len() > 0 && s[0] == '.' {
        strip_dots(s.drop_first())
    } else {
        s
    }
}

/// Staging copy name: `{rev}.{ext}` with the extension's leading dots removed.
pub open spec fn stage_name_spec(rev: u64, ext: Seq<char>) -> Seq<char> {
    dec(rev as nat) + "."@ + strip_dots(ext)
}

/// Staging copy name. Unique per snapshot so webviews do not reuse a cached URL.
pub fn stage_file_name(rev: u64, ext: &str) -> (s: String)
    ensures
        s@ == stage_name_spec(rev, ext@),
{
    let v = chars_of(ext);
    let mut i: usize = 0;
    assert(v@.skip(0) =~= v@);
    while i < v.len() && v[i] == '.'
        invariant
            i <= v@.len(),
            strip_dots(v@) == strip_dots(v@.skip(i as int)),
        decreases v@.len() - i,
    {
        assert(v@.skip(i as int).drop_first() =~= v@.skip(i + 1));
        i = i + 1;
    }
    let mut s = String::new();
    push_padded(&mut s, rev, 0);
    proof {
        crate::text::lemma_pad_dec_zero(rev as nat);
    }
    push_str(&mut s, ".");
    let rest = string_from_chars(&v.as_slice()[i..v.len()]);
    assert(rest@ == v@.skip(i as int));
    push_str(&mut s, rest.as_str());
    s
}

/// Two different revisions never share a staging name.
pub proof fn law_stage_names_differ(a: u64, b: u64, ext: Seq<char>)
    requires
        a != b,
    ensures
        stage_name_spec(a, ext) != stage_name_spec(b, ext),
{
    crate::text::lemma_dec_injective(a as nat, b as nat);
    let t = strip_dots(ext);
    let xa = dec(a as nat) + "."@;
    let xb = dec(b as nat) + "."@;
    if xa + t == xb + t {
        lemma_same_tail(xa, xb, t);
        lemma_same_tail(dec(a as nat), dec(b as nat), "."@);
    }
}

proof fn lemma_same_tail(x: Seq<char>, y: Seq<char>, t: Seq<char>)
    requires
        x + t == y + t,
    ensures
        x == y,
{
    assert((x + t).len() == x.len() + t.len());
    assert((y + t).len() == y.len() + t.len());
    assert forall|i: int| 0 <= i < x.len() implies x[i] == y[i] by {
        assert((x + t)[i] == x[i]);
        assert((y + t)[i] == y[i]);
    }
    assert(x =~= y);
}

/// Adds a starting folder unless one with the same path is listed.
pub fn push_root(entries: &mut Vec<ExplorerEntryDto>, name: &str, path: &str)
    ensures
        (exists|i: int| 0 <= i < old(entries)@.len() && old(entries)@[i].path@ == path@) ==> final(entries)@ == old(entries)@,
        !(exists|i: int| 0 <= i < old(entries)@.len() && old(entries)@[i].path@ == path@) ==> {
            &&& final(entries)@.len() == old(entries)@.len() + 1
            &&& final(entries)@.take(old(entries)@.len() as int) == old(entries)@
            &&& final(entries)@.last().name@ == name@
            &&& final(entries)@.last().path@ == path@
            &&& final(entries)@.last().kind == ExplorerKind::Dir
        },
{
    let mut i: usize = 0;
    while i < entries.len()
        invariant
            i <= entries@.len(),
            entries@ == old(entries)@,
            forall|k: int| 0 <= k < i ==> entries@[k].path@ != path@,
        decreases entries@.len() - i,
    {
        if str_eq(entries[i].path.as_str(), path) {
            return;
        }
        i = i + 1;
    }
    entries.push(ExplorerEntryDto { name: owned(name), path: owned(path), kind: ExplorerKind::Dir });
    assert(entries@.take(old(entries)@.len() as int) =~= old(entries)@);
}

/// Whether `path` starts with `root`, component by component, as
/// `Path::starts_with` answers on this platform (with its separators).
pub uninterp spec fn path_starts_with_of(path: Seq<char>, root: Seq<char>) -> bool;

/// `Path::new(path).starts_with(root)`. Claimed: the answer depends on the
/// two texts alone.
#[verifier::external_body]
fn path_starts_with(path: &str, root: &str) -> (b: bool)
    ensures
        b == path_starts_with_of(path@, root@),
{
    std::path::Path::new(path).starts_with(root)
}

/// Whether a canonical path lies under one of the canonical prefixes.
pub open spec fn allowed_spec(path: Seq<char>, prefixes: Seq<Seq<char>>) -> bool {
    exists|i: int| 0 <= i < prefixes.len() && path_starts_with_of(path, prefixes[i])
}

/// True when a canonical path is inside one of the canonical allowed
/// prefixes (media root, profile roots, default local roots).
pub fn path_allowed(canon: &str, prefixes: &Vec<String>) -> (b: bool)
    ensures
        b == allowed_spec(canon@, strings_view(prefixes@)),
{
    let mut i: usize = 0;
    while i < prefixes.len()
        invariant
            i <= prefixes@.len(),
            forall|k: int| 0 <= k < i ==> !path_starts_with_of(canon@, #[trigger] strings_view(prefixes@)[k]),
        decreases prefixes@.len() - i,
    {
        assert(strings_view(prefixes@)[i as int] == prefixes@[i as int]@);
        if path_starts_with(canon, prefixes[i].as_str()) {
            return true;
        }
        i = i + 1;
    }
    false
}

/// Lower-cased text as `str::to_lowercase` computes it (full Unicode case folding).
pub uninterp spec fn unicode_lower_of(s: Seq<char>) -> Seq<char>;

/// `str::to_lowercase`. Claimed: the result depends on the text alone.
#[verifier::external_body]
fn unicode_lower(s: &str) -> (r: String)
    ensures
        r@ == unicode_lower_of(s@),
{
    s.to_lowercase()
}

/// Code-point order of two texts (`a` before or equal to `b`).
pub open spec fn text_le(a: Seq<char>, b: Seq<char>) -> bool
    decreases a.len(),
{
    if a.len() == 0 {
        true
    } else if b.len() == 0 {
        false
    } else if (a[0] as u32) != (b[0] as u32) {
        (a[0] as u32) < (b[0] as u32)
    } else {
        text_le(a.drop_first(), b.drop_first())
    }
}

/// Listing order: folders first, then by lower-cased name.
pub open spec fn entry_le(a: (bool, Seq<char>), b: (bool, Seq<char>)) -> bool {
    (a.0 && !b.0) || (a.0 == b.0 && text_le(unicode_lower_of(a.1), unicode_lower_of(b.1)))
}

/// Sort key of an entry: is it a folder, and its name.
pub open spec fn entry_key(e: ExplorerEntryDto) -> (bool, Seq<char>) {
    (e.kind == ExplorerKind::Dir, e.name@)
}

/// Number of leading entries of a sorted list that do not come after `x`.
pub open spec fn insert_pos(sorted: Seq<(bool, Seq<char>)>, x: (bool, Seq<char>)) -> nat
    decreases sorted.len(),
{
    if sorted.len() == 0 {
        0
    } else if entry_le(sorted[0], x) {
        1 + insert_pos(sorted.drop_first(), x)
    } else {
        0
    }
}

/// Whether `a` comes before or with `b` by code points.
fn text_le_exec(a: &Vec<char>, b: &Vec<char>) -> (r: bool)
    ensures
        r == text_le(a@, b@),
{
    let mut i: usize = 0;
    assert(a@.skip(0) =~= a@);
    assert(b@.skip(0) =~= b@);
    while i < a.len()
        invariant
            i <= a@.len(),
            i <= b@.len(),
            text_le(a@, b@) == text_le(a@.skip(i as int), b@.skip(i as int)),
        decreases a@.len() - i,
    {
        if i >= b.len() {
            return false;
        }
        assert(a@.skip(i as int)[0] == a@[i as int]);
        assert(b@.skip(i as int)[0] == b@[i as int]);
        let x = a[i] as u32;
        let y = b[i] as u32;
        if x != y {
            return x < y;
        }
        assert(a@.skip(i as int).drop_first() =~= a@.skip(i + 1));
        assert(b@.skip(i as int).drop_first() =~= b@.skip(i + 1));
        i = i + 1;
    }
    true
}

/// Whether the entry with key `keys[k]` comes before or with one of key
/// (`is_dir`, lower-cased name `low`).
fn key_before(keys: &Vec<(bool, Vec<char>)>, k: usize, is_dir: bool, low: &Vec<char>) -> (b: bool)
    requires
        k < keys@.len(),
    ensures
        b == ((keys@[k as int].0 && !is_dir) || (keys@[k as int].0 == is_dir && text_le(keys@[k as int].1@, low@))),
{
    if keys[k].0 && !is_dir {
        true
    } else if keys[k].0 == is_dir {
        text_le_exec(&keys[k].1, low)
    } else {
        false
    }
}

/// A list entry for one directory item: hidden names are skipped, folders
/// are `Dir`, files are kept only when their extension is known.
pub open spec fn listing_spec(name: Seq<char>, is_dir: bool) -> Option<ExplorerKind> {
    if starts_with_seq(name, "."@) {
        None
    } else if is_dir {
        Some(ExplorerKind::Dir)
    } else {
        classify_spec(name)
    }
}

/// The list entry for one directory item, if it is shown.
pub fn listing_entry(name: String, path: String, is_dir: bool) -> (r: Option<ExplorerEntryDto>)
    ensures
        match listing_spec(name@, is_dir) {
            Some(k) => r is Some && r->0.name@ == name@ && r->0.path@ == path@ && r->0.kind == k,
            None => r is None,
        },
{
    if crate::text::str_starts_with(name.as_str(), ".") {
        return None;
    }
    let kind = if is_dir {
        ExplorerKind::Dir
    } else {
        match classify_file(name.as_str()) {
            Some(k) => k,
            None => return None,
        }
    };
    Some(ExplorerEntryDto { name, path, kind })
}

proof fn lemma_text_le_total(a: Seq<char>, b: Seq<char>)
    ensures
        text_le(a, b) || text_le(b, a),
    decreases a.len(),
{
    if a.len() > 0 && b.len() > 0 && (a[0] as u32) == (b[0] as u32) {
        lemma_text_le_total(a.drop_first(), b.drop_first());
    }
}

proof fn lemma_text_le_trans(a: Seq<char>, b: Seq<char>, c: Seq<char>)
    requires
        text_le(a, b),
        text_le(b, c),
    ensures
        text_le(a, c),
    decreases a.len(),
{
    if a.len() > 0 && b.len() > 0 && c.len() > 0 && (a[0] as u32) == (b[0] as u32) && (b[0] as u32) == (c[0] as u32) {
        lemma_text_le_trans(a.drop_first(), b.drop_first(), c.drop_first());
    }
}

proof fn lemma_entry_le_total(a: (bool, Seq<char>), b: (bool, Seq<char>))
    ensures
        entry_le(a, b) || entry_le(b, a),
{
    lemma_text_le_total(unicode_lower_of(a.1), unicode_lower_of(b.1));
}

proof fn lemma_entry_le_trans(a: (bool, Seq<char>), b: (bool, Seq<char>), c: (bool, Seq<char>))
    requires
        entry_le(a, b),
        entry_le(b, c),
    ensures
        entry_le(a, c),
{
    if a.0 == b.0 && b.0 == c.0 {
        lemma_text_le_trans(unicode_lower_of(a.1), unicode_lower_of(b.1), unicode_lower_of(c.1));
    }
}

/// What an entry shows: name, path and kind.
pub open spec fn entries_view(s: Seq<ExplorerEntryDto>) -> Seq<(Seq<char>, Seq<char>, ExplorerKind)> {
    s.map_values(|e: ExplorerEntryDto| (e.name@, e.path@, e.kind))
}

/// Entries in listing order: every entry comes before or with the next ones.
pub open spec fn sorted_entries(s: Seq<ExplorerEntryDto>) -> bool {
    forall|i: int, j: int| 0 <= i < j < s.len() ==> entry_le(entry_key(#[trigger] s[i]), entry_key(#[trigger] s[j]))
}

/// Sorts entries folders first, then by lower-cased name (code-point order
/// of `str::to_lowercase`); the result holds the same entries.
pub fn sort_entries(entries: Vec<ExplorerEntryDto>) -> (r: Vec<ExplorerEntryDto>)
    ensures
        sorted_entries(r@),
        entries_view(r@).to_multiset() == entries_view(entries@).to_multiset(),
{
    broadcast use vstd::seq_lib::group_to_multiset_ensures;

    let mut out: Vec<ExplorerEntryDto> = Vec::new();
    let mut keys: Vec<(bool, Vec<char>)> = Vec::new();
    let mut rest = entries;
    let ghost orig = entries_view(rest@).to_multiset();
    assert(entries_view(out@) =~= Seq::<(Seq<char>, Seq<char>, ExplorerKind)>::empty());
    while rest.len() > 0
        invariant
            keys@.len() == out@.len(),
            forall|k: int| 0 <= k < out@.len() ==> (#[trigger] keys@[k]).0 == entry_key(out@[k]).0 && keys@[k].1@ == unicode_lower_of(out@[k].name@),
            sorted_entries(out@),
            entries_view(out@).to_multiset().add(entries_view(rest@).to_multiset()) == orig,
        decreases rest@.len(),
    {
        let ghost rest_before = rest@;
        let e = rest.remove(0);
        proof {
            assert(rest_before =~= rest@.insert(0, e));
        }
        let is_dir = match e.kind {
            ExplorerKind::Dir => true,
            _ => false,
        };
        let low = chars_of(unicode_lower(e.name.as_str()).as_str());
        let ghost ekey = entry_key(e);
        let mut k: usize = 0;
        while k < out.len() && key_before(&keys, k, is_dir, &low)
            invariant
                k <= out@.len(),
                keys@.len() == out@.len(),
                ekey == entry_key(e),
                is_dir == ekey.0,
                low@ == unicode_lower_of(ekey.1),
                forall|m: int| 0 <= m < out@.len() ==> (#[trigger] keys@[m]).0 == entry_key(out@[m]).0 && keys@[m].1@ == unicode_lower_of(out@[m].name@),
                forall|m: int| 0 <= m < k ==> entry_le(entry_key(#[trigger] out@[m]), ekey),
            decreases out@.len() - k,
        {
            assert(keys@[k as int].0 == entry_key(out@[k as int]).0);
            k = k + 1;
        }
        let pos = k;
        proof {
            if pos < out@.len() {
                assert(keys@[pos as int].0 == entry_key(out@[pos as int]).0);
                assert(!entry_le(entry_key(out@[pos as int]), ekey));
            }
        }
        let ghost out_before = out@;
        proof {
            assert forall|j: int| pos <= j < out_before.len() implies entry_le(ekey, entry_key(#[trigger] out_before[j])) by {
                lemma_entry_le_total(entry_key(out_before[pos as int]), ekey);
                if j > pos {
                    assert(entry_le(entry_key(out_before[pos as int]), entry_key(out_before[j])));
                    lemma_entry_le_trans(ekey, entry_key(out_before[pos as int]), entry_key(out_before[j]));
                }
            }
        }
        out.insert(pos, e);
        keys.insert(pos, (is_dir, low));
        proof {
            assert(out@ =~= out_before.insert(pos as int, e));
            assert forall|i: int, j: int| 0 <= i < j < out@.len() implies entry_le(entry_key(#[trigger] out@[i]), entry_key(#[trigger] out@[j])) by {
                if j < pos {
                    assert(out@[i] == out_before[i] && out@[j] == out_before[j]);
                } else if j == pos {
                    assert(out@[i] == out_before[i]);
                } else if i < pos {
                    assert(out@[i] == out_before[i] && out@[j] == out_before[j - 1]);
                    lemma_entry_le_trans(entry_key(out_before[i]), ekey, entry_key(out_before[j - 1]));
                } else if i == pos {
                    assert(out@[j] == out_before[j - 1]);
                } else {
                    assert(out@[i] == out_before[i - 1] && out@[j] == out_before[j - 1]);
                }
            }
            assert(entries_view(out@) =~= entries_view(out_before).insert(pos as int, (e.name@, e.path@, e.kind)));
            let ve = (e.name@, e.path@, e.kind);
            broadcast use vstd::multiset::group_multiset_axioms;
            vstd::seq_lib::to_multiset_insert(entries_view(out_before), pos as int, ve);
            assert(entries_view(rest_before) =~= entries_view(rest@).insert(0, ve));
            vstd::seq_lib::to_multiset_insert(entries_view(rest@), 0, ve);
            assert(entries_view(out@).to_multiset().add(entries_view(rest@).to_multiset()) =~= entries_view(out_before).to_multiset().add(entries_view(rest_before).to_multiset()));
            assert forall|m: int| 0 <= m < out@.len() implies (#[trigger] keys@[m]).0 == entry_key(out@[m]).0 && keys@[m].1@ == unicode_lower_of(out@[m].name@) by {
                if m < pos {
                    assert(out@[m] == out_before[m]);
                } else if m > pos {
                    assert(out@[m] == out_before[m - 1]);
                }
            }
        }
    }
    assert(entries_view(rest@) =~= Seq::<(Seq<char>, Seq<char>, ExplorerKind)>::empty());
    out
}

/// The complaint about explorer roots, if any: at most 20; each non-blank,
/// at most 512 bytes, absolute and an existing directory (`dirs[i]` tells
/// whether root `i` names one).
pub open spec fn roots_problem(roots: Seq<Seq<char>>, dirs: Seq<bool>) -> Option<Seq<char>> {
    if roots.len() > 20 {
        Some("too many explorer roots"@)
    } else {
        root_problem_from(roots, dirs, 0)
    }
}

/// Whether a path is absolute as `Path::is_absolute` answers on this platform.
pub uninterp spec fn absolute_path(path: Seq<char>) -> bool;

/// `Path::is_absolute`. Claimed: the answer depends on the text alone.
#[verifier::external_body]
fn is_absolute(path: &str) -> (b: bool)
    ensures
        b == absolute_path(path@),
{
    std::path::Path::new(path).is_absolute()
}

/// First complaint about the roots from index `i` on.
pub open spec fn root_problem_from(roots: Seq<Seq<char>>, dirs: Seq<bool>, i: int) -> Option<Seq<char>>
    decreases roots.len() - i,
{
    if i < 0 || i >= roots.len() {
        None
    } else if trim_seq(roots[i]).len() == 0 || utf8_len(roots[i]) > 512 {
        Some("invalid explorer root"@)
    } else if !absolute_path(roots[i]) {
        Some("explorer root must be absolute"@)
    } else if !(i < dirs.len() && dirs[i]) {
        Some("explorer root must be an existing directory"@)
    } else {
        root_problem_from(roots, dirs, i + 1)
    }
}

/// Validates explorer roots (at most 20, non-blank, at most 512 bytes,
/// absolute, existing directories). Whether root `i` names an existing
/// directory is `existing_dirs[i]`, which the caller reads from the disk.
pub fn validate_explorer(value: &ExplorerSetting, existing_dirs: &Vec<bool>) -> (r: Result<(), AppError>)
    ensures
        match roots_problem(strings_view(value.roots@), existing_dirs@) {
            None => r is Ok,
            Some(msg) => r is Err && err_says(r->Err_0, msg),
        },
{
    if value.roots.len() > 20 {
        return Err(AppError::rule("too many explorer roots"));
    }
    let ghost rs = strings_view(value.roots@);
    let mut i: usize = 0;
    while i < value.roots.len()
        invariant
            i <= value.roots@.len(),
            value.roots@.len() <= 20,
            rs == strings_view(value.roots@),
            roots_problem(rs, existing_dirs@) == root_problem_from(rs, existing_dirs@, i as int),
        decreases value.roots@.len() - i,
    {
        let root = value.roots[i].as_str();
        assert(rs[i as int] == root@);
        let cs = chars_of(root);
        if crate::text::trim_is_empty(root) {
            return Err(AppError::rule("invalid explorer root"));
        }
        match crate::text::utf8_len_within(&cs, 512) {
            None => return Err(AppError::rule("invalid explorer root")),
            Some(_) => {},
        }
        if !is_absolute(root) {
            return Err(AppError::rule("explorer root must be absolute"));
        }
        if i >= existing_dirs.len() || !existing_dirs[i] {
            return Err(AppError::rule("explorer root must be an existing directory"));
        }
        i = i + 1;
    }
    Ok(())
}

/// The parent of a path as `Path::parent` computes it.
pub uninterp spec fn parent_of(path: Seq<char>) -> Option<Seq<char>>;

/// `Path::parent`, as a string. Claimed: the answer depends on the text alone.
#[verifier::external_body]
pub fn parent_string(path: &str) -> (r: Option<String>)
    ensures
        crate::week::opt_view(r) == parent_of(path@),
{
    std::path::Path::new(path).parent().map(|p| p.to_string_lossy().into_owned())
}

/// Last component of a path as `Path::file_name` reads it.
pub uninterp spec fn path_file_name_of(path: Seq<char>) -> Option<Seq<char>>;

/// `Path::file_name`, as a string. Claimed: the answer depends on the text alone.
#[verifier::external_body]
fn path_file_name(path: &str) -> (r: Option<String>)
    ensures
        crate::week::opt_view(r) == path_file_name_of(path@),
{
    std::path::Path::new(path).file_name().map(|n| n.to_string_lossy().into_owned())
}

/// What an entry shows, as characters.
pub open spec fn entry_view(e: ExplorerEntryDto) -> (Seq<char>, Seq<char>, ExplorerKind) {
    (e.name@, e.path@, e.kind)
}

/// Profile roots added after the listed entries: a root already listed by
/// path is skipped; the others are named by their last component (or the
/// whole path when there is none).
pub open spec fn with_roots(listed: Seq<(Seq<char>, Seq<char>, ExplorerKind)>, roots: Seq<Seq<char>>) -> Seq<(Seq<char>, Seq<char>, ExplorerKind)>
    decreases roots.len(),
{
    if roots.len() == 0 {
        listed
    } else {
        let before = with_roots(listed, roots.drop_last());
        let root = roots.last();
        if exists|i: int| 0 <= i < before.len() && before[i].1 == root {
            before
        } else {
            before.push(
                (
                    match path_file_name_of(root) {
                        Some(n) => n,
                        None => root,
                    },
                    root,
                    ExplorerKind::Dir,
                ),
            )
        }
    }
}

/// Whether some entry has this path.
fn listed_path(entries: &Vec<ExplorerEntryDto>, path: &str) -> (b: bool)
    ensures
        b == exists|i: int| 0 <= i < entries@.len() && entries@[i].path@ == path@,
{
    let mut i: usize = 0;
    while i < entries.len()
        invariant
            i <= entries@.len(),
            forall|k: int| 0 <= k < i ==> entries@[k].path@ != path@,
        decreases entries@.len() - i,
    {
        if str_eq(entries[i].path.as_str(), path) {
            return true;
        }
        i = i + 1;
    }
    false
}

/// The starting folders: this week's and next week's cache folders, the
/// local folders, then the profile's roots not already listed.
pub fn virtual_roots(this_week: String, next_week: String, local: Vec<ExplorerEntryDto>, roots: &Vec<String>) -> (r: ExplorerListDto)
    ensures
        r.path@.len() == 0,
        r.parent is None,
        r.entries@.map_values(|e: ExplorerEntryDto| entry_view(e)) == with_roots(
            seq![("This week"@, this_week@, ExplorerKind::Dir), ("Next week"@, next_week@, ExplorerKind::Dir)]
                + local@.map_values(|e: ExplorerEntryDto| entry_view(e)),
            strings_view(roots@),
        ),
{
    let mut entries: Vec<ExplorerEntryDto> = Vec::new();
    entries.push(ExplorerEntryDto { name: owned("This week"), path: this_week, kind: ExplorerKind::Dir });
    entries.push(ExplorerEntryDto { name: owned("Next week"), path: next_week, kind: ExplorerKind::Dir });
    let ghost head = entries@.map_values(|e: ExplorerEntryDto| entry_view(e));
    assert(head =~= seq![("This week"@, this_week@, ExplorerKind::Dir), ("Next week"@, next_week@, ExplorerKind::Dir)]);
    let ghost lv = local@.map_values(|e: ExplorerEntryDto| entry_view(e));
    let mut local = local;
    let ghost n = local@.len();
    let ghost mut taken: int = 0;
    while local.len() > 0
        invariant
            0 <= taken,
            taken + local@.len() == n,
            lv.len() == n,
            forall|k: int| 0 <= k < local@.len() ==> entry_view(#[trigger] local@[k]) == lv[taken + k],
            entries@.map_values(|e: ExplorerEntryDto| entry_view(e)) == head + lv.take(taken),
        decreases local@.len(),
    {
        let e = local.remove(0);
        let ghost before = entries@;
        entries.push(e);
        proof {
            assert(entry_view(e) == lv[taken]);
            assert(lv.take(taken + 1) =~= lv.take(taken).push(lv[taken]));
            assert(entries@.map_values(|e: ExplorerEntryDto| entry_view(e)) =~= before.map_values(|e: ExplorerEntryDto| entry_view(e)).push(entry_view(e)));
            taken = taken + 1;
        }
    }
    assert(lv.take(n as int) =~= lv);
    let ghost rs = strings_view(roots@);
    let ghost base = head + lv;
    let mut i: usize = 0;
    while i < roots.len()
        invariant
            i <= roots@.len(),
            rs == strings_view(roots@),
            entries@.map_values(|e: ExplorerEntryDto| entry_view(e)) == with_roots(base, rs.take(i as int)),
        decreases roots@.len() - i,
    {
        let root = roots[i].as_str();
        let ghost cur = entries@.map_values(|e: ExplorerEntryDto| entry_view(e));
        assert(rs.take(i + 1).drop_last() =~= rs.take(i as int));
        assert(rs.take(i + 1).last() == root@);
        let seen = listed_path(&entries, root);
        proof {
            if seen {
                let k = choose|k: int| 0 <= k < entries@.len() && entries@[k].path@ == root@;
                assert(cur[k].1 == root@);
            } else {
                assert forall|k: int| 0 <= k < cur.len() implies cur[k].1 != root@ by {
                    assert(cur[k] == entry_view(entries@[k]));
                }
            }
        }
        if !seen {
            let name = match path_file_name(root) {
                Some(n) => n,
                None => owned(root),
            };
            let e = ExplorerEntryDto { name, path: owned(root), kind: ExplorerKind::Dir };
            let ghost before = entries@;
            entries.push(e);
            assert(entries@.map_values(|e: ExplorerEntryDto| entry_view(e)) =~= before.map_values(|e: ExplorerEntryDto| entry_view(e)).push(entry_view(e)));
        }
        i = i + 1;
    }
    assert(rs.take(rs.len() as int) =~= rs);
    ExplorerListDto { path: String::new(), parent: None, entries }
}

} // verus!
