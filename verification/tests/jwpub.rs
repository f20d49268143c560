use std::io::Write;

use jpresentation::error::AppError;
use jpresentation::jwpub::{
    document_html, document_title, embedded_bytes, extract_song_numbers, file_name, first_nonempty,
    jwpub_media_files, looks_like_html, materialise_item, monday_from_offset, open_jwpub,
    is_dated_week, parts_from_html, publication_meta, week_covering, week_from_document, ParsedPublication,
    RawMedia,
};
use jpresentation::calendar::CivilDate;
use jpresentation::week::{MediaItem, MediaKind, MediaRef, MediaStatus, MeetingKind};

fn zip_of(entries: &[(&str, &[u8])]) -> Vec<u8> {
    let mut w = zip::ZipWriter::new(std::io::Cursor::new(Vec::new()));
    let opts = zip::write::FileOptions::default();
    for (name, data) in entries {
        w.start_file(*name, opts).expect("start");
        w.write_all(data).expect("write");
    }
    w.finish().expect("finish").into_inner()
}

fn sample(db: &[u8]) -> Vec<u8> {
    let inner = zip_of(&[("mwb_S_202609.db", db), ("test.jpg", &[0xFF, 0xD8, 0xFF, 0xD9]), ("sub/clip.MP4", b"mp4")]);
    zip_of(&[("publication.json", b"{}"), ("contents", &inner)])
}

#[test]
fn opens_nested_archive_and_checks_header() {
    let mut db = b"SQLite format 3\0".to_vec();
    db.extend_from_slice(b"rest");
    let c = open_jwpub(&sample(&db)).expect("open");
    assert_eq!(c.db_name, "mwb_S_202609.db");
    assert_eq!(c.db_bytes, db);
    assert!(matches!(open_jwpub(&sample(b"NOTSQLITE")), Err(AppError::UnreadablePub)));
    assert!(matches!(open_jwpub(b"not a zip"), Err(AppError::UnreadablePub)));
}

#[test]
fn media_files_skip_the_database() {
    let files = jwpub_media_files(&sample(b"SQLite format 3\0")).expect("media");
    let names: Vec<&str> = files.iter().map(|f| f.name.as_str()).collect();
    assert_eq!(names, vec!["test.jpg", "clip.MP4"]);
    assert_eq!(files[1].data, b"mp4".to_vec());
}

#[test]
fn song_numbers_in_order_without_repeats() {
    let html = "<h3>Song 1</h3> canción 128 <p>SONG 1</p> Cántico 200 cantico 7x song";
    assert_eq!(extract_song_numbers(html), vec![1, 128, 7]);
    assert_eq!(extract_song_numbers("song 0 song 163 song 164"), vec![163]);
}

#[test]
fn offsets_become_dates() {
    assert_eq!(monday_from_offset(20260907), Some(CivilDate { year: 2026, month: 9, day: 7 }));
    assert_eq!(monday_from_offset(2026090), None);
    assert_eq!(monday_from_offset(20261399), Some(CivilDate { year: 2026, month: 13, day: 99 }));
}

#[test]
fn text_helpers() {
    assert_eq!(file_name("a/b\\c.jpg"), "c.jpg");
    assert_eq!(file_name("dir/"), "");
    assert_eq!(first_nonempty(&vec!["  ".into(), "".into(), "Cap".into()]), "Cap");
    assert_eq!(first_nonempty(&vec![" ".into()]), "Media");
    assert!(looks_like_html("<p>x"));
    assert!(!looks_like_html("  <p>x"));
    assert!(looks_like_html("text <H1>t</h1>"));
    assert!(!looks_like_html("plain"));
    assert_eq!(document_html(b"  <html>x</html> ").as_deref(), Some("<html>x</html>"));
    assert_eq!(document_html(&[0xff, 0x00, 0xae]), None);
    assert_eq!(document_title(Some("  ".into())), None);
    assert_eq!(publication_meta(Some(("mwb26".into(), 20260900)), MeetingKind::Midweek), ("mwb".to_string(), "202609".to_string()));
    assert_eq!(publication_meta(None, MeetingKind::Weekend), ("w".to_string(), String::new()));
}

fn raw(id: i64, mime: &str, file: &str, symbol: &str, track: u32, label: &str) -> RawMedia {
    RawMedia {
        id,
        mime: mime.into(),
        file_path: file.into(),
        key_symbol: symbol.into(),
        track,
        label: label.into(),
        caption: String::new(),
        lang_meps: 1,
        issue_tag: 0,
        paragraph: 0,
    }
}

#[test]
fn rows_become_items_and_parts() {
    let img = materialise_item(&raw(1, "image/jpeg", "test.jpg", "", 0, "Illustration"), 1, Some("/img/test.jpg".into()));
    assert_eq!(img.status, MediaStatus::Embedded);
    assert!(matches!(img.media_ref, MediaRef::Embedded { .. }));
    let missing = materialise_item(&raw(1, "", "x.jpg", "", 0, ""), 1, None);
    assert_eq!(missing.status, MediaStatus::Failed);
    assert_eq!(missing.mime, "image/jpeg");
    let vid = materialise_item(&raw(2, "video/mp4", "", "mwbv", 1, "Video 1"), 1, None);
    assert_eq!(vid.status, MediaStatus::Pending);
    assert_eq!(vid.media_kind, MediaKind::Video);
    let song = materialise_item(&raw(3, "video/mp4", "", "SJJM", 1, "Song 1"), 1, None);
    assert_eq!(song.media_kind, MediaKind::Song);
    assert_eq!(song.status, MediaStatus::PendingHymnal);
    assert_eq!(song.title, "1");
    assert_eq!(song.id, "1:3");

    let items = vec![img, vid, materialise_item(&raw(3, "video/mp4", "", "sjjm", 1, "Song 1"), 1, None)];
    let parts = parts_from_html(Some("<h3>Song 1</h3>"), &items, 1);
    assert_eq!(parts.len(), 2);
    assert_eq!(parts[0].title, "Song 1");
    assert_eq!(parts[0].id, "1:song:1");
    assert_eq!(parts[1].title, "Media");
    assert_eq!(parts[1].items.len(), 2);
    let no_html = parts_from_html(None, &items, 1);
    assert_eq!(no_html.len(), 1);
    assert_eq!(no_html[0].items.len(), 3);
    let nothing = parts_from_html(None, &Vec::new(), 9);
    assert_eq!(nothing.len(), 1);
    assert_eq!(nothing[0].id, "9:media");
}

#[test]
fn dated_document_becomes_a_week() {
    let w = week_from_document(MeetingKind::Midweek, "S", "mwb", "202609", 20260907, Some("September 7-13".into()), Some(b"<html><h3>Song 1</h3></html>".to_vec()), &Vec::new(), 1).expect("week");
    assert_eq!(w.monday, "2026-09-07");
    assert_eq!(w.title, "September 7-13");
    assert_eq!(w.parts.len(), 1);
    let untitled = week_from_document(MeetingKind::Midweek, "S", "mwb", "202609", 20260907, None, None, &Vec::new(), 1).expect("week");
    assert_eq!(untitled.title, "2026-09-07");
    assert!(week_from_document(MeetingKind::Midweek, "S", "mwb", "", 123, None, None, &Vec::new(), 1).is_none());
}

fn minimal_jpeg() -> Vec<u8> {
    vec![
        0xFF, 0xD8, 0xFF, 0xE0, 0x00, 0x10, 0x4A, 0x46, 0x49, 0x46, 0x00, 0x01, 0x01, 0x00, 0x00, 0x01, 0x00,
        0x01, 0x00, 0x00, 0xFF, 0xD9,
    ]
}

/// The sample publication: a database and one picture in `contents`.
fn sample_pub(db: &[u8]) -> Vec<u8> {
    let jpeg = minimal_jpeg();
    let inner = zip_of(&[("mwb_S_202609.db", db), ("test.jpg", &jpeg)]);
    zip_of(&[("publication.json", br#"{"publication":{"symbol":"mwb26"}}"#), ("contents", &inner)])
}

/// The three multimedia rows of the sample document, as the database lists them.
fn sample_items(contents: &[u8]) -> Vec<MediaItem> {
    let rows = vec![
        (raw(3, "video/mp4", "", "sjjm", 1, "Song 1"), None),
        (raw(1, "image/jpeg", "test.jpg", "", 0, "Illustration"), embedded_bytes(contents, "test.jpg").map(|_| "img/test.jpg".to_string())),
        (raw(2, "video/mp4", "", "mwbv", 1, "Video 1"), None),
    ];
    rows.into_iter().map(|(r, cache)| materialise_item(&r, 1, cache)).collect()
}

fn sample_publication(content: &[u8]) -> ParsedPublication {
    let mut db = b"SQLite format 3\0".to_vec();
    db.extend_from_slice(b"tables");
    let container = open_jwpub(&sample_pub(&db)).expect("open");
    let items = sample_items(&container.contents);
    let (symbol, issue) = publication_meta(Some(("mwb26".into(), 20260900)), MeetingKind::Midweek);
    let week = week_from_document(
        MeetingKind::Midweek,
        "S",
        &symbol,
        &issue,
        20260907,
        Some("September 7-13, 2026".into()),
        Some(content.to_vec()),
        &items,
        1,
    )
    .expect("dated");
    ParsedPublication { symbol, issue, weeks: vec![week] }
}

#[test]
fn parses_sample_week_and_extracts_jpeg() {
    let parsed = sample_publication(b"<html><h1>September 7-13</h1><h3>Song 1</h3><p>Treasures (10 min)</p></html>");
    assert_eq!(parsed.symbol, "mwb");
    assert_eq!(parsed.issue, "202609");
    let monday = CivilDate { year: 2026, month: 9, day: 7 };
    let week = week_covering(&parsed, monday).expect("week");
    assert_eq!(week.monday, "2026-09-07");
    let items: Vec<&MediaItem> = week.parts.iter().flat_map(|p| p.items.iter()).collect();
    assert!(items
        .iter()
        .any(|i| i.status == MediaStatus::Embedded && matches!(i.media_ref, MediaRef::Embedded { .. })));
    assert!(items.iter().any(|i| {
        matches!(
            &i.media_ref,
            MediaRef::Catalog { key_symbol, track, .. } if key_symbol == "mwbv" && *track == 1
        ) && i.status == MediaStatus::Pending
    }));
    assert!(items.iter().any(|i| i.media_kind == MediaKind::Song && i.status == MediaStatus::PendingHymnal));
    let container = open_jwpub(&sample_pub(b"SQLite format 3\0")).expect("open");
    assert_eq!(embedded_bytes(&container.contents, "test.jpg"), Some(minimal_jpeg()));
    assert!(week.parts.iter().any(|p| p.title.starts_with("Song")));
}

#[test]
fn ciphertext_content_still_yields_media_folder() {
    let parsed = sample_publication(&[0xff, 0x00, 0xae, 0x11]);
    let week = &parsed.weeks[0];
    assert!(week.parts.iter().any(|p| p.title == "Media"));
    assert!(week.parts.iter().flat_map(|p| p.items.iter()).count() > 0);
}

#[test]
fn extract_media_skips_sqlite() {
    let files = jwpub_media_files(&sample_pub(b"SQLite format 3\0")).expect("extract");
    assert_eq!(files.len(), 1);
    assert_eq!(files[0].name, "test.jpg");
    assert!(files.iter().all(|f| f.name != "mwb_S_202609.db"));
}

#[test]
fn garbage_db_is_unreadable() {
    let inner = zip_of(&[("mwb_S_202609.db", b"NOTSQLITE")]);
    let bytes = zip_of(&[("publication.json", b"{\"symbol\":\"mwb\"}"), ("contents", &inner)]);
    let err = open_jwpub(&bytes).err().expect("unreadable");
    assert!(matches!(err, AppError::UnreadablePub));
}

/// One stored entry whose central header carries the AES extra field
/// although the entry is not flagged as encrypted.
fn zip_with_aes_field(name: &str, data: &[u8]) -> Vec<u8> {
    one_entry_zip(name, data, 0, &[0x01, 0x99, 0x07, 0x00, 0x02, 0x00, 0x41, 0x45, 0x03, 0x00, 0x00])
}

/// One stored entry with the given general-purpose flags and central extra field.
fn one_entry_zip(name: &str, data: &[u8], flags: u16, extra: &[u8]) -> Vec<u8> {
    fn u16le(v: &mut Vec<u8>, x: u16) {
        v.extend_from_slice(&x.to_le_bytes());
    }
    fn u32le(v: &mut Vec<u8>, x: u32) {
        v.extend_from_slice(&x.to_le_bytes());
    }
    let mut z = Vec::new();
    u32le(&mut z, 0x04034b50);
    for x in [20u16, flags, 0, 0, 0] {
        u16le(&mut z, x);
    }
    u32le(&mut z, 0);
    u32le(&mut z, data.len() as u32);
    u32le(&mut z, data.len() as u32);
    u16le(&mut z, name.len() as u16);
    u16le(&mut z, 0);
    z.extend_from_slice(name.as_bytes());
    z.extend_from_slice(data);
    let cd_start = z.len() as u32;
    u32le(&mut z, 0x02014b50);
    for x in [20u16, 20, flags, 0, 0, 0] {
        u16le(&mut z, x);
    }
    u32le(&mut z, 0);
    u32le(&mut z, data.len() as u32);
    u32le(&mut z, data.len() as u32);
    u16le(&mut z, name.len() as u16);
    u16le(&mut z, extra.len() as u16);
    for x in [0u16, 0, 0] {
        u16le(&mut z, x);
    }
    u32le(&mut z, 0);
    u32le(&mut z, 0);
    z.extend_from_slice(name.as_bytes());
    z.extend_from_slice(extra);
    let cd_size = z.len() as u32 - cd_start;
    u32le(&mut z, 0x06054b50);
    for x in [0u16, 0, 1, 1] {
        u16le(&mut z, x);
    }
    u32le(&mut z, cd_size);
    u32le(&mut z, cd_start);
    u16le(&mut z, 0);
    z
}

#[test]
fn aes_field_on_plain_entry_is_unreadable() {
    let bytes = zip_with_aes_field("contents", b"inner");
    assert!(matches!(open_jwpub(&bytes), Err(AppError::UnreadablePub)));
    assert!(matches!(jwpub_media_files(&bytes), Err(AppError::UnreadablePub)));
    let inner = zip_with_aes_field("pic.jpg", b"jpeg");
    let outer = zip_of(&[("contents", &inner)]);
    assert!(jwpub_media_files(&outer).is_err());
    assert_eq!(embedded_bytes(&inner, "pic.jpg"), None);
}

#[test]
fn dated_weeks_are_those_that_fit_32_bits() {
    assert!(is_dated_week(CivilDate { year: 2026, month: 9, day: 7 }));
    assert!(is_dated_week(CivilDate { year: 214_748, month: 12, day: 20 }));
    assert!(!is_dated_week(CivilDate { year: 214_748, month: 12, day: 30 }));
    assert!(!is_dated_week(CivilDate { year: 5_000_000, month: 1, day: 1 }));
    assert!(is_dated_week(CivilDate { year: -214_747, month: 1, day: 1 }));
    let far = ParsedPublication { symbol: "mwb".into(), issue: String::new(), weeks: Vec::new() };
    assert!(week_covering(&far, CivilDate { year: 214_000, month: 3, day: 4 }).is_none());
}

#[test]
fn encrypted_entry_is_unreadable() {
    let bytes = one_entry_zip("contents", b"0123456789abcdef", 1, &[]);
    assert!(matches!(open_jwpub(&bytes), Err(AppError::UnreadablePub)));
    let plain = one_entry_zip("contents", b"0123456789abcdef", 0, &[]);
    assert!(matches!(open_jwpub(&plain), Err(AppError::Io(_))));
}
