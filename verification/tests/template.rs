use jpresentation::calendar::CivilDate;
use jpresentation::template::{
    apply_template, check_template_delete, check_template_save, ensure_outline, is_cbs,
    labels_for, midweek_parts, part, skeleton_parts, system_template, system_templates,
    validate_parts, validate_template_name, TemplateKind, SYS_CIRCUIT_MIDWEEK, SYS_MIDWEEK,
};
use jpresentation::week::{MediaItem, MediaKind, MediaRef, MediaStatus, MeetingKind, MeetingWeek};

fn song_item(track: u32) -> MediaItem {
    MediaItem {
        id: format!("sjjm:{track}"),
        title: format!("{track}"),
        media_kind: MediaKind::Song,
        status: MediaStatus::PendingHymnal,
        mime: "video/mp4".into(),
        media_ref: MediaRef::Catalog {
            key_symbol: "sjjm".into(),
            track,
            lang_meps: 1,
            issue_tag: 0,
            mime: "video/mp4".into(),
        },
        cache_path: None,
    }
}

fn monday() -> CivilDate {
    CivilDate { year: 2026, month: 9, day: 14 }
}

#[test]
fn spanish_skeleton_has_no_songs() {
    let mut week = MeetingWeek::empty(monday(), MeetingKind::Midweek, "S");
    week.media = vec![song_item(1), song_item(128), song_item(143)];
    ensure_outline(&mut week);
    assert!(week.parts.iter().any(|p| p.title.contains("Tesoros") && p.minutes == Some(10)));
    assert!(week.parts.iter().any(|p| p.title.contains("perlas")));
    assert!(!week.parts.iter().any(|p| p.tone == "song"));
    assert!(!week.parts.iter().any(|p| p.title.to_ascii_lowercase().contains("song")));
    assert!(week.media.iter().any(|i| i.media_kind == MediaKind::Song));
}

#[test]
fn english_skeleton_when_not_spanish() {
    let parts = skeleton_parts(MeetingKind::Midweek, "x", "E");
    assert!(parts.iter().any(|p| p.title.contains("Treasures")));
    assert!(!parts.iter().any(|p| p.tone == "song"));
}

#[test]
fn html_parts_are_not_replaced() {
    let mut week = MeetingWeek::empty(monday(), MeetingKind::Midweek, "S");
    week.parts = vec![part("a", "Treasures from God's Word", 10, "treasures")];
    ensure_outline(&mut week);
    assert_eq!(week.parts.len(), 1);
    assert_eq!(week.parts[0].title, "Treasures from God's Word");
}

#[test]
fn circuit_drops_cbs_and_inserts_service_talk() {
    let mut week = MeetingWeek::empty(monday(), MeetingKind::Midweek, "S");
    week.parts = midweek_parts("mw", &labels_for("S"));
    let tpl = system_template(SYS_CIRCUIT_MIDWEEK, "S").expect("tpl");
    apply_template(&mut week, &tpl);
    assert!(!week.parts.iter().any(|p| is_cbs(&p.title)));
    assert!(week.parts.iter().any(|p| p.title.contains("servicio") && p.minutes == Some(30)));
    assert!(week.parts.iter().any(|p| p.title.contains("Tesoros")));
}

#[test]
fn rejects_empty_template_name() {
    assert!(validate_template_name("").is_err());
    assert!(validate_template_name("Memorial").is_ok());
}

#[test]
fn four_system_templates_in_order() {
    let all = system_templates("E");
    let ids: Vec<&str> = all.iter().map(|t| t.id.as_str()).collect();
    assert_eq!(ids, vec!["sys:midweek", "sys:weekend", "sys:circuit-midweek", "sys:circuit-weekend"]);
    assert!(system_template("sys:nope", "E").is_none());
}

#[test]
fn applying_a_template_keeps_media_as_leftovers() {
    let mut week = MeetingWeek::empty(monday(), MeetingKind::Midweek, "E");
    let mut row = part("a", "Talk", 10, "living");
    row.items = vec![song_item(5)];
    week.parts = vec![row];
    let tpl = system_template(SYS_MIDWEEK, "E").expect("tpl");
    apply_template(&mut week, &tpl);
    assert!(week.media.iter().any(|i| i.id == "sjjm:5"));
    assert!(!week.parts.iter().any(|p| p.tone == "song"));
    assert!(week.parts.iter().all(|p| p.id.starts_with("sys:midweek:") || !p.id.starts_with("sys:")));
}

#[test]
fn song_rows_move_their_media_to_leftovers() {
    let mut week = MeetingWeek::empty(monday(), MeetingKind::Weekend, "E");
    let mut song_row = part("s", "Song 3", 5, "song");
    song_row.items = vec![song_item(3)];
    week.parts = vec![part("t", "Public talk", 30, "living"), song_row];
    ensure_outline(&mut week);
    assert_eq!(week.parts.len(), 1);
    assert_eq!(week.media.len(), 1);
    assert_eq!(week.media[0].id, "sjjm:3");
}

#[test]
fn validate_parts_reports_each_rule() {
    assert!(validate_parts(&vec![part("a", "Talk", 10, "living")]).is_ok());
    assert!(validate_parts(&vec![part("a", "  ", 10, "living")]).is_err());
    assert!(validate_parts(&vec![part("a", "Talk", 181, "living")]).is_err());
    assert!(validate_parts(&vec![part("a", "Talk", 10, "music")]).is_err());
    let many: Vec<_> = (0..41).map(|i| part(&format!("{i}"), "Talk", 1, "other")).collect();
    assert!(validate_parts(&many).is_err());
}

#[test]
fn system_templates_cannot_be_saved_over_or_deleted() {
    assert!(check_template_save("Memorial", &vec![part("a", "Talk", 10, "other")], Some("sys:midweek")).is_err());
    assert!(check_template_save("Memorial", &vec![part("a", "Talk", 10, "other")], Some("abc")).is_ok());
    assert!(check_template_delete("sys:midweek").is_err());
    assert!(check_template_delete("abc").is_ok());
    assert_eq!(TemplateKind::parse("event").expect("event"), TemplateKind::Event);
    assert!(TemplateKind::parse("party").is_err());
}

#[test]
fn cannot_delete_system() {
    let err = check_template_delete("sys:midweek").expect_err("sys");
    assert!(matches!(err, jpresentation::error::AppError::Invariant(_)));
}
