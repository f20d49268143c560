use jpresentation::schedule::{validate_meeting_schedule, MeetingScheduleSetting};

#[test]
fn default_is_tuesday_evening_sunday_morning() {
    let value = MeetingScheduleSetting::default();
    assert_eq!(value.midweek_weekday, 2);
    assert_eq!(value.midweek_time, "19:00");
    assert_eq!(value.weekend_weekday, 7);
    assert_eq!(value.weekend_time, "10:00");
    validate_meeting_schedule(&value).expect("default");
}

#[test]
fn rejects_weekday_out_of_range() {
    let mut value = MeetingScheduleSetting::default();
    value.midweek_weekday = 0;
    assert!(validate_meeting_schedule(&value).is_err());
    value.midweek_weekday = 8;
    assert!(validate_meeting_schedule(&value).is_err());
}

#[test]
fn rejects_unpadded_and_invalid_times() {
    let mut value = MeetingScheduleSetting::default();
    value.midweek_time = "9:00".into();
    assert!(validate_meeting_schedule(&value).is_err());
    value.midweek_time = "24:00".into();
    assert!(validate_meeting_schedule(&value).is_err());
    value.midweek_time = "19:00".into();
    assert!(validate_meeting_schedule(&value).is_ok());
}

#[test]
fn minutes_past_59_are_refused() {
    let mut value = MeetingScheduleSetting::default();
    value.weekend_time = "10:60".into();
    assert!(validate_meeting_schedule(&value).is_err());
    value.weekend_time = "23:59".into();
    assert!(validate_meeting_schedule(&value).is_ok());
}

#[test]
fn signed_or_spaced_times_are_refused() {
    let mut value = MeetingScheduleSetting::default();
    value.midweek_time = "+9:00".into();
    assert!(validate_meeting_schedule(&value).is_err());
    value.midweek_time = "19:+5".into();
    assert!(validate_meeting_schedule(&value).is_err());
    value.midweek_time = "09:05".into();
    assert!(validate_meeting_schedule(&value).is_ok());
}
