use jpresentation::calendar::CivilDate;
use jpresentation::jwpub::{week_covering, ParsedPublication};
use jpresentation::media::{CatalogFormat, CatalogKey};
use jpresentation::week::{MediaItem, MediaKind, MediaRef, MediaStatus, MeetingKind, MeetingWeek};
use jpresentation::week_service::{
    collect_pending_ids, fetch_pub_keys, fetched_week, mark_item, parse_meeting_kind,
    restore_from_cache, set_bundle_parts, verify_download, video_file_name, weekend_or_empty, WeekBundleDto,
};
use jpresentation::error::AppError;
use jpresentation::template::part;

fn video(id: &str) -> MediaItem {
    MediaItem {
        id: id.into(),
        title: "Video".into(),
        media_kind: MediaKind::Video,
        status: MediaStatus::Pending,
        mime: "video/mp4".into(),
        media_ref: MediaRef::Catalog { key_symbol: "mwbv".into(), track: 1, lang_meps: 1, issue_tag: 20260900, mime: "video/mp4".into() },
        cache_path: None,
    }
}

fn monday() -> CivilDate {
    CivilDate { year: 2026, month: 9, day: 7 }
}

fn parsed() -> ParsedPublication {
    let mut w = MeetingWeek::empty(monday(), MeetingKind::Midweek, "S");
    w.title = "September 7-13".into();
    let mut row = part("1:media", "Media", 0, "other");
    row.minutes = None;
    row.items = vec![video("1:2")];
    w.parts = vec![row];
    ParsedPublication { symbol: "mwb".into(), issue: "202609".into(), weeks: vec![w] }
}

#[test]
fn retry_tries_every_issue() {
    let issues = vec!["202609".to_string(), "202608".to_string()];
    let keys = fetch_pub_keys("S", MeetingKind::Midweek, &issues, true);
    assert_eq!(keys.len(), 2);
    assert_eq!(keys[1].issue.as_deref(), Some("202608"));
    assert_eq!(keys[0].format, CatalogFormat::Jwpub);
    assert_eq!(fetch_pub_keys("S", MeetingKind::Weekend, &issues, false).len(), 1);
}

#[test]
fn covering_week_is_found_by_overlap() {
    let p = parsed();
    assert!(week_covering(&p, monday()).is_some());
    assert!(week_covering(&p, CivilDate { year: 2026, month: 9, day: 13 }).is_some());
    assert!(week_covering(&p, CivilDate { year: 2026, month: 9, day: 14 }).is_none());
    let w = fetched_week(&p, monday(), MeetingKind::Midweek, "S", "202609");
    assert_eq!(w.title, "September 7-13");
    let other = fetched_week(&p, CivilDate { year: 2026, month: 10, day: 5 }, MeetingKind::Midweek, "S", "202610");
    assert_eq!(other.title, "mwb");
    assert_eq!(other.issue, "202610");
    assert!(!other.parts.is_empty());
}

#[test]
fn pending_items_are_marked_after_download() {
    let p = parsed();
    let mut bundle = restore_from_cache("S", monday(), Some(&p), None);
    let mut ids = Vec::new();
    collect_pending_ids(&bundle.midweek, &mut ids);
    collect_pending_ids(&bundle.weekend, &mut ids);
    assert_eq!(ids, vec!["1:2".to_string()]);
    assert!(mark_item(&mut bundle, "1:2", MediaStatus::Ready, Some(Some("/vid/mwbv_202609_1.mp4".into()))));
    let mut again = Vec::new();
    collect_pending_ids(&bundle.midweek, &mut again);
    assert!(again.is_empty());
    assert!(!mark_item(&mut bundle, "nope", MediaStatus::Failed, None));
}

#[test]
fn video_names_and_checks() {
    let key = CatalogKey { langwritten: "S".into(), pub_symbol: "mwbv".into(), issue: Some("202609".into()), track: Some(1), format: CatalogFormat::Mp4 };
    assert_eq!(video_file_name(&key), "mwbv_202609_1.mp4");
    let bare = CatalogKey { issue: None, track: None, ..key };
    assert_eq!(video_file_name(&bare), "mwbv_0_0.mp4");
    assert!(verify_download(b"abc", "").is_ok());
    assert!(verify_download(b"abc", "ffff").is_err());
}

#[test]
fn meeting_kind_and_parts_edit() {
    assert_eq!(parse_meeting_kind("weekend").expect("we"), MeetingKind::Weekend);
    assert!(parse_meeting_kind("sunday").is_err());
    let mut bundle = WeekBundleDto {
        monday: "2026-09-07".into(),
        langwritten: "S".into(),
        midweek: MeetingWeek::empty(monday(), MeetingKind::Midweek, "S"),
        weekend: MeetingWeek::empty(monday(), MeetingKind::Weekend, "S"),
    };
    assert!(set_bundle_parts(&mut bundle, MeetingKind::Weekend, vec![part("x", "", 10, "other")]).is_err());
    assert!(bundle.weekend.parts.is_empty());
    set_bundle_parts(&mut bundle, MeetingKind::Weekend, vec![part("x", "Talk", 30, "living")]).expect("ok");
    assert_eq!(bundle.weekend.parts.len(), 1);
    assert!(bundle.midweek.parts.is_empty());
}

#[test]
fn missing_weekend_issue_becomes_an_empty_week() {
    let monday = CivilDate { year: 2026, month: 9, day: 7 };
    let empty = weekend_or_empty(Err(AppError::CatalogNotFound), monday, "S").expect("empty week");
    assert_eq!(empty.kind, MeetingKind::Weekend);
    assert_eq!(empty.monday, "2026-09-07");
    assert_eq!(empty.issue, "202609");
    assert!(empty.parts.is_empty());
    let fetched = MeetingWeek::empty(monday, MeetingKind::Weekend, "E");
    let kept = weekend_or_empty(Ok(fetched), monday, "S").expect("kept");
    assert_eq!(kept.langwritten, "E");
    assert!(matches!(weekend_or_empty(Err(AppError::Busy), monday, "S"), Err(AppError::Busy)));
}
