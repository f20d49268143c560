use jpresentation::commands::stage_plan;
use jpresentation::calendar::CivilDate;
use jpresentation::commands::{encode_base64, preview_item};
use jpresentation::output::{OutputState, StageKind};
use jpresentation::template::part;
use jpresentation::week::{MediaItem, MediaKind, MediaRef, MediaStatus, MeetingKind, MeetingWeek};
use jpresentation::week_service::WeekBundleDto;

#[test]
fn base64_matches_the_standard() {
    assert_eq!(encode_base64(b""), "");
    assert_eq!(encode_base64(b"f"), "Zg==");
    assert_eq!(encode_base64(b"fo"), "Zm8=");
    assert_eq!(encode_base64(b"foo"), "Zm9v");
    assert_eq!(encode_base64(b"foobar"), "Zm9vYmFy");
    assert_eq!(encode_base64(&[0xFF, 0xD8, 0xFF]), "/9j/");
}

fn picture(id: &str, status: MediaStatus) -> MediaItem {
    MediaItem {
        id: id.into(),
        title: "Pic".into(),
        media_kind: MediaKind::Image,
        status,
        mime: String::new(),
        media_ref: MediaRef::Embedded { path: "test.jpg".into() },
        cache_path: Some("/w/img/test.jpg".into()),
    }
}

#[test]
fn preview_only_for_pictures_on_disk() {
    let monday = CivilDate { year: 2026, month: 9, day: 7 };
    let mut mw = MeetingWeek::empty(monday, MeetingKind::Midweek, "S");
    let mut row = part("r", "Media", 5, "other");
    row.items = vec![picture("a", MediaStatus::Embedded), picture("b", MediaStatus::Failed)];
    mw.parts = vec![row];
    let bundle = WeekBundleDto {
        monday: "2026-09-07".into(),
        langwritten: "S".into(),
        midweek: mw,
        weekend: MeetingWeek::empty(monday, MeetingKind::Weekend, "S"),
    };
    assert_eq!(preview_item(&bundle, "a"), Some(("image/jpeg".to_string(), "/w/img/test.jpg".to_string())));
    assert_eq!(preview_item(&bundle, "b"), None);
    assert_eq!(preview_item(&bundle, "zzz"), None);
}

#[test]
fn stage_revision_moves_on_open_and_close() {
    let mut out = OutputState::idle();
    let a = out.open_media(StageKind::Image, "pic".into(), "image/png".into(), "/s/1.png".into());
    assert_eq!(a.rev, 1);
    assert_eq!(a.kind, StageKind::Image);
    let b = out.close_media();
    assert_eq!(b.rev, 2);
    assert_eq!(b.kind, StageKind::Black);
    assert!(b.path.is_none());
}

#[test]
fn staging_plans_pictures_and_videos_only() {
    let plan = stage_plan("Photo.PNG", 4).expect("png");
    assert_eq!(plan.kind, StageKind::Image);
    assert_eq!(plan.file_name, "5.PNG");
    assert_eq!(plan.mime, "image/png");
    let clip = stage_plan("clip.webm", u64::MAX).expect("webm");
    assert_eq!(clip.file_name, format!("{}.webm", u64::MAX));
    assert!(stage_plan("w.jwpub", 0).is_err());
    assert!(stage_plan("notes.txt", 0).is_err());
}
