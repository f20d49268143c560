use jpresentation::calendar::{add_days, iso_weekday, monday_of, unix_days, CivilDate};
use jpresentation::week::{
    mwb_issue_candidates, monday_for, normalize_issue_tag, previous_month_issue,
    should_fetch_to_week, w_issue, week_dir, MediaItem, MediaKind, MediaRef, MediaStatus,
    MeetingKind, MeetingWeek, WeekWhich,
};

#[test]
fn monday_of_wednesday_is_that_week() {
    let wed = CivilDate { year: 2026, month: 9, day: 9 };
    assert_eq!(monday_of(wed).to_iso(), "2026-09-07");
    assert_eq!(monday_of(wed).to_yyyymmdd(), 20260907);
}

#[test]
fn next_week_is_plus_seven() {
    let today = CivilDate { year: 2026, month: 9, day: 16 };
    assert_eq!(monday_for(WeekWhich::This, today).to_iso(), "2026-09-14");
    assert_eq!(monday_for(WeekWhich::Next, today).to_iso(), "2026-09-21");
}

#[test]
fn mwb_retries_previous_month() {
    let monday = CivilDate { year: 2026, month: 9, day: 7 };
    assert_eq!(mwb_issue_candidates(monday), vec!["202609", "202608"]);
    assert_eq!(w_issue(monday), "202609");
    assert_eq!(previous_month_issue("202601").expect("jan"), "202512");
}

#[test]
fn issue_tag_strips_trailing_zeros_pair() {
    assert_eq!(normalize_issue_tag(20260900), "202609");
    assert_eq!(normalize_issue_tag(202609), "202609");
}

#[test]
fn sjjm_is_not_fetched_into_week() {
    let song = MediaItem {
        id: "sjjm:1".into(),
        title: "1".into(),
        media_kind: MediaKind::Song,
        status: MediaStatus::PendingHymnal,
        mime: "video/mp4".into(),
        media_ref: MediaRef::Catalog {
            key_symbol: "sjjm".into(),
            track: 1,
            lang_meps: 1,
            issue_tag: 0,
            mime: "video/mp4".into(),
        },
        cache_path: None,
    };
    assert!(!should_fetch_to_week(&song));
    let video = MediaItem {
        id: "mwbv:1".into(),
        title: "Video".into(),
        media_kind: MediaKind::Video,
        status: MediaStatus::Pending,
        mime: "video/mp4".into(),
        media_ref: MediaRef::Catalog {
            key_symbol: "mwbv".into(),
            track: 1,
            lang_meps: 1,
            issue_tag: 20260900,
            mime: "video/mp4".into(),
        },
        cache_path: None,
    };
    assert!(should_fetch_to_week(&video));
}

#[test]
fn epoch_thursday() {
    let epoch = CivilDate { year: 1970, month: 1, day: 1 };
    assert_eq!(iso_weekday(unix_days(epoch)), 4);
    assert_eq!(monday_of(epoch).to_iso(), "1969-12-29");
}

#[test]
fn january_steps_back_to_december() {
    let monday = CivilDate { year: 2026, month: 1, day: 5 };
    assert_eq!(mwb_issue_candidates(monday), vec!["202601", "202512"]);
}

#[test]
fn previous_month_rejects_short_issue() {
    assert!(previous_month_issue("2026").is_err());
}

#[test]
fn parse_iso_round_trips() {
    let d = CivilDate::parse_iso("2024-02-29").expect("leap day");
    assert_eq!(d, CivilDate { year: 2024, month: 2, day: 29 });
    assert_eq!(d.to_iso(), "2024-02-29");
    assert!(CivilDate::parse_iso("2024-13-01").is_err());
    assert!(CivilDate::parse_iso("2024/01/01").is_err());
}

#[test]
fn add_days_crosses_year_end() {
    let d = CivilDate { year: 2025, month: 12, day: 29 };
    assert_eq!(add_days(d, 6).to_iso(), "2026-01-04");
    assert_eq!(add_days(d, -365).to_iso(), "2024-12-29");
}

#[test]
fn which_parses_this_and_next() {
    assert_eq!(WeekWhich::parse("this").expect("this"), WeekWhich::This);
    assert_eq!(WeekWhich::parse("next").expect("next"), WeekWhich::Next);
    assert!(WeekWhich::parse("later").is_err());
}

#[test]
fn empty_week_uses_first_issue() {
    let monday = CivilDate { year: 2026, month: 9, day: 7 };
    let mw = MeetingWeek::empty(monday, MeetingKind::Midweek, "S");
    assert_eq!(mw.monday, "2026-09-07");
    assert_eq!(mw.pub_symbol, "mwb");
    assert_eq!(mw.issue, "202609");
    assert!(mw.parts.is_empty());
    let we = MeetingWeek::empty(monday, MeetingKind::Weekend, "S");
    assert_eq!(we.pub_symbol, "w");
    assert_eq!(week_dir("S", monday), vec!["week", "S", "2026-09-07"]);
}

#[test]
fn iso_dates_read_back_and_only_digits_parse() {
    for d in [
        CivilDate { year: 2026, month: 9, day: 7 },
        CivilDate { year: 0, month: 1, day: 1 },
        CivilDate { year: 9999, month: 12, day: 31 },
        CivilDate { year: 812, month: 2, day: 30 },
    ] {
        let text = d.to_iso();
        assert_eq!(CivilDate::parse_iso(&text).expect("reads back"), d);
    }
    assert!(CivilDate::parse_iso("2026-+9-07").is_err());
    assert!(CivilDate::parse_iso("+026-09-07").is_err());
    assert!(CivilDate::parse_iso("-200-09-07").is_err());
    assert!(CivilDate::parse_iso("2026-09- 7").is_err());
}

#[test]
fn previous_issue_needs_six_digits() {
    assert_eq!(previous_month_issue("202601").expect("jan"), "202512");
    assert_eq!(previous_month_issue("202609").expect("sep"), "202608");
    assert!(previous_month_issue("+20209").is_err());
    assert!(previous_month_issue("2026+9").is_err());
    assert_eq!(previous_month_issue("000001").expect("year zero"), "-00112");
}

#[test]
fn every_day_of_a_week_has_its_monday() {
    let monday = CivilDate { year: 2026, month: 12, day: 28 };
    for k in 0..7 {
        let day = add_days(monday, k);
        assert_eq!(monday_of(day), monday);
    }
    assert_eq!(monday_of(monday), monday);
    assert_eq!(monday_of(add_days(monday, 7)), add_days(monday, 7));
}

#[test]
fn monday_of_new_year_days_is_in_the_old_year() {
    let d = CivilDate { year: 2027, month: 1, day: 1 };
    assert_eq!(monday_of(d), CivilDate { year: 2026, month: 12, day: 28 });
    let same = CivilDate { year: 2026, month: 1, day: 5 };
    assert_eq!(monday_of(same), same);
}
