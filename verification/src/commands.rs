//! Payloads of the console commands, and the rules a command applies that
//! are not I/O: which item a preview shows and how bytes become base64.

use vstd::prelude::*;

use crate::error::AppError;
use crate::explorer::{classify_file, classify_spec, mime_for, mime_spec, stage_file_name, stage_name_spec, ExplorerKind};
use crate::jwpub::{tail_after, tail_after_exec};
use crate::output::{next_rev, StageKind};
use crate::template::flat_items;
use crate::week::{items_view, parts_view, MediaItem, MediaItemV, MediaKind, MediaStatus, MeetingPart};
use crate::week_service::{first_item, find_item, WeekBundleDto, WeekBundleV};

verus! {

/// Path to list. Empty lists the starting folders.
#[derive(Debug)]
pub struct ExplorerPathDto {
    pub path: String,
}

/// Preview of a local image.
#[derive(Debug)]
pub struct FilePreviewDto {
    pub mime: String,
    pub data_base64: String,
}

/// One songbook track.
#[derive(Debug)]
pub struct HymnalTrackRequestDto {
    pub track: u32,
}

/// The three meeting song slots to store.
#[derive(Debug)]
pub struct HymnalSetSlotsRequestDto {
    pub start: Option<u32>,
    pub middle: Option<u32>,
    pub end: Option<u32>,
}

/// Create or update a user template.
#[derive(Debug)]
pub struct SaveTemplateDto {
    pub id: Option<String>,
    pub name: String,
    pub kind: String,
    pub parts: Vec<MeetingPart>,
}

/// Delete a user template.
#[derive(Debug)]
pub struct TemplateIdDto {
    pub id: String,
}

/// Apply a template to this/next week's midweek or weekend meeting.
#[derive(Debug)]
pub struct ApplyTemplateDto {
    pub which: String,
    pub meeting: String,
    pub template_id: String,
}

/// Replace the rows of one meeting.
#[derive(Debug)]
pub struct SetPartsDto {
    pub which: String,
    pub meeting: String,
    pub parts: Vec<MeetingPart>,
}

/// `which`: `this` or `next`.
#[derive(Debug)]
pub struct WeekScopeDto {
    pub which: String,
}

/// Preview request for one tree item.
#[derive(Debug)]
pub struct WeekPreviewRequestDto {
    pub which: String,
    pub item_id: String,
}

/// Picture bytes as a data-URL payload. Never a CDN URL.
#[derive(Debug)]
pub struct WeekPreviewDto {
    pub mime: String,
    pub data_base64: String,
}

// ---------------------------------------------------------------------------
// Week preview.
// ---------------------------------------------------------------------------

/// The row items of both meetings, midweek first.
pub open spec fn bundle_row_items(b: WeekBundleV) -> Seq<MediaItemV> {
    flat_items(b.midweek.parts) + flat_items(b.weekend.parts)
}

/// What a preview shows for an item id: the first row item with the id,
/// when it is a picture on disk (embedded or downloaded) — its MIME
/// (`image/jpeg` when blank) and its file.
pub open spec fn preview_spec(b: WeekBundleV, item_id: Seq<char>) -> Option<(Seq<char>, Seq<char>)> {
    let items = bundle_row_items(b);
    match first_item(items, item_id) {
        None => None,
        Some(k) => {
            let it = items[k];
            if it.media_kind == MediaKind::Image && (it.status == MediaStatus::Embedded || it.status
                == MediaStatus::Ready) && it.cache_path is Some {
                Some(
                    (
                        if it.mime.len() == 0 {
                            "image/jpeg"@
                        } else {
                            it.mime
                        },
                        it.cache_path->0,
                    ),
                )
            } else {
                None
            }
        },
    }
}

/// Copies of the items of some rows, in order.
fn row_items(parts: &Vec<MeetingPart>, out: &mut Vec<MediaItem>)
    ensures
        items_view(final(out)@) == items_view(old(out)@) + flat_items(parts_view(parts@)),
{
    let ghost ps = parts_view(parts@);
    let mut i: usize = 0;
    while i < parts.len()
        invariant
            i <= parts@.len(),
            ps == parts_view(parts@),
            items_view(out@) == items_view(old(out)@) + flat_items(ps.take(i as int)),
        decreases parts@.len() - i,
    {
        let ghost before = items_view(out@);
        crate::template::append_items(out, &parts[i].items);
        assert(ps.take(i + 1).drop_last() =~= ps.take(i as int));
        assert(items_view(out@) =~= items_view(old(out)@) + flat_items(ps.take(i + 1)));
        i = i + 1;
    }
    assert(ps.take(ps.len() as int) =~= ps);
}

/// The MIME and file a preview shows for an item id, if it shows one.
pub fn preview_item(bundle: &WeekBundleDto, item_id: &str) -> (r: Option<(String, String)>)
    ensures
        match r {
            Some((m, p)) => preview_spec(bundle@, item_id@) == Some((m@, p@)),
            None => preview_spec(bundle@, item_id@) is None,
        },
{
    let mut items: Vec<MediaItem> = Vec::new();
    row_items(&bundle.midweek.parts, &mut items);
    row_items(&bundle.weekend.parts, &mut items);
    assert(items_view(items@) =~= bundle_row_items(bundle@));
    let k = match find_item(&items, item_id) {
        Some(k) => k,
        None => return None,
    };
    let it = &items[k];
    assert(items_view(items@)[k as int] == it@);
    let is_image = match it.media_kind {
        MediaKind::Image => true,
        _ => false,
    };
    let on_disk = match it.status {
        MediaStatus::Embedded | MediaStatus::Ready => true,
        _ => false,
    };
    if !is_image || !on_disk {
        return None;
    }
    let path = match &it.cache_path {
        Some(p) => p.clone(),
        None => return None,
    };
    let mime = if it.mime.as_str().is_empty() {
        crate::text::owned("image/jpeg")
    } else {
        it.mime.clone()
    };
    Some((mime, path))
}

// ---------------------------------------------------------------------------
// Base64.
// ---------------------------------------------------------------------------

/// The base64 alphabet letter for a six-bit value.
pub open spec fn b64_char(i: u8) -> char {
    if i < 26 {
        (65 + i) as char
    } else if i < 52 {
        (97 + (i - 26)) as char
    } else if i < 62 {
        (48 + (i - 52)) as char
    } else if i == 62 {
        '+'
    } else {
        '/'
    }
}

/// The four letters of the group of up to three bytes starting at `i`
/// (missing bytes read as zero; padded with `=`).
pub open spec fn b64_group(b: Seq<u8>, i: int) -> Seq<char> {
    let b0 = b[i];
    let b1: u8 = if i + 1 < b.len() { b[i + 1] } else { 0 };
    let b2: u8 = if i + 2 < b.len() { b[i + 2] } else { 0 };
    seq![
        b64_char(b0 >> 2),
        b64_char(((b0 & 3) << 4) | (b1 >> 4)),
        if i + 1 < b.len() { b64_char(((b1 & 15) << 2) | (b2 >> 6)) } else { '=' },
        if i + 2 < b.len() { b64_char(b2 & 63) } else { '=' },
    ]
}

/// Base64 of the bytes from `i` on, group by group.
pub open spec fn b64_from(b: Seq<u8>, i: int) -> Seq<char>
    decreases b.len() + 3 - i,
{
    if i < 0 || i >= b.len() {
        Seq::empty()
    } else {
        b64_group(b, i) + b64_from(b, i + 3)
    }
}

/// Standard padded base64 of some bytes.
pub open spec fn base64_spec(b: Seq<u8>) -> Seq<char> {
    b64_from(b, 0)
}

/// The base64 letter of a six-bit value.
fn b64_letter(i: u8) -> (c: char)
    requires
        i < 64,
    ensures
        c == b64_char(i),
{
    if i < 26 {
        (65 + i) as char
    } else if i < 52 {
        (97 + (i - 26)) as char
    } else if i < 62 {
        (48 + (i - 52)) as char
    } else if i == 62 {
        '+'
    } else {
        '/'
    }
}

/// Standard padded base64 (RFC 4648 alphabet) of some bytes.
pub fn encode_base64(bytes: &[u8]) -> (s: String)
    ensures
        s@ == base64_spec(bytes@),
{
    let mut out = String::new();
    let mut i: usize = 0;
    let ghost b = bytes@;
    while i < bytes.len()
        invariant
            b == bytes@,
            i <= bytes@.len(),
            base64_spec(b) == out@ + b64_from(b, i as int),
        decreases bytes@.len() - i,
    {
        let rem = bytes.len() - i;
        let b0 = bytes[i];
        let b1: u8 = if rem > 1 { bytes[i + 1] } else { 0 };
        let b2: u8 = if rem > 2 { bytes[i + 2] } else { 0 };
        let x0: u8 = b0 >> 2;
        let x1: u8 = ((b0 & 3) << 4) | (b1 >> 4);
        let x2: u8 = ((b1 & 15) << 2) | (b2 >> 6);
        let x3: u8 = b2 & 63;
        assert(x0 < 64) by (bit_vector)
            requires
                x0 == b0 >> 2,
        ;
        assert(x1 < 64) by (bit_vector)
            requires
                x1 == ((b0 & 3) << 4) | (b1 >> 4),
        ;
        assert(x2 < 64) by (bit_vector)
            requires
                x2 == ((b1 & 15) << 2) | (b2 >> 6),
        ;
        assert(x3 < 64) by (bit_vector)
            requires
                x3 == b2 & 63,
        ;
        let ghost before = out@;
        crate::text::push_char(&mut out, b64_letter(x0));
        crate::text::push_char(&mut out, b64_letter(x1));
        if rem > 1 {
            crate::text::push_char(&mut out, b64_letter(x2));
        } else {
            crate::text::push_char(&mut out, '=');
        }
        if rem > 2 {
            crate::text::push_char(&mut out, b64_letter(x3));
        } else {
            crate::text::push_char(&mut out, '=');
        }
        proof {
            assert(out@ =~= before + b64_group(b, i as int));
            assert(b64_from(b, i as int) == b64_group(b, i as int) + b64_from(b, i + 3));
            if rem <= 3 {
                assert(b64_from(b, i + 3) =~= Seq::<char>::empty());
                assert(b64_from(b, bytes@.len() as int) =~= Seq::<char>::empty());
            }
        }
        i = if rem > 3 { i + 3 } else { bytes.len() };
    }
    assert(b64_from(b, i as int) =~= Seq::<char>::empty());
    out
}

/// Base64 has four letters for every started group of three bytes.
pub proof fn law_base64_length(b: Seq<u8>)
    ensures
        base64_spec(b).len() == 4 * ((b.len() + 2) / 3),
{
    lemma_b64_from_len(b, 0);
}

proof fn lemma_b64_from_len(b: Seq<u8>, i: int)
    requires
        0 <= i,
    ensures
        i < b.len() ==> b64_from(b, i).len() == 4 * ((b.len() - i + 2) / 3),
        i >= b.len() ==> b64_from(b, i).len() == 0,
    decreases b.len() + 3 - i,
{
    if i < b.len() {
        lemma_b64_from_len(b, i + 3);
    }
}

// ---------------------------------------------------------------------------
// Staging a local file.
// ---------------------------------------------------------------------------

/// How a local file goes on the stage: its stage kind, the name of its
/// staging copy, and its MIME.
pub struct StagePlan {
    pub kind: StageKind,
    pub file_name: String,
    pub mime: String,
}

/// The plan for staging a file named `name` when the stage is at `rev`:
/// pictures and videos only (a publication must be opened first); the
/// copy is named after the next revision and keeps the extension.
pub open spec fn stage_plan_spec(name: Seq<char>, rev: u64) -> Result<(StageKind, Seq<char>, Seq<char>), Seq<char>> {
    match classify_spec(name) {
        None => Err("not a stageable file"@),
        Some(ExplorerKind::Image) => Ok((StageKind::Image, stage_name_spec(next_rev(rev), tail_after(name, '.', '.')), mime_spec(ExplorerKind::Image, name))),
        Some(ExplorerKind::Video) => Ok((StageKind::Video, stage_name_spec(next_rev(rev), tail_after(name, '.', '.')), mime_spec(ExplorerKind::Video, name))),
        Some(_) => Err("open the package first, then pick a file"@),
    }
}

/// Plans staging a local file named `name` on a stage at revision `rev`.
pub fn stage_plan(name: &str, rev: u64) -> (r: Result<StagePlan, AppError>)
    ensures
        match stage_plan_spec(name@, rev) {
            Ok((k, f, m)) => r is Ok && r->Ok_0.kind == k && r->Ok_0.file_name@ == f && r->Ok_0.mime@ == m,
            Err(msg) => r is Err && crate::week::err_says(r->Err_0, msg),
        },
{
    let kind = match classify_file(name) {
        Some(k) => k,
        None => return Err(AppError::rule("not a stageable file")),
    };
    let stage_kind = match kind {
        ExplorerKind::Image => StageKind::Image,
        ExplorerKind::Video => StageKind::Video,
        _ => return Err(AppError::rule("open the package first, then pick a file")),
    };
    let ext = tail_after_exec(&crate::text::chars_of(name), '.', '.');
    let ext = crate::text::string_from_chars(ext.as_slice());
    let file_name = stage_file_name(rev.saturating_add(1), ext.as_str());
    let mime = crate::text::owned(mime_for(kind, name));
    Ok(StagePlan { kind: stage_kind, file_name, mime })
}

} // verus!
