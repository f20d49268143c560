use jpresentation::hymnal::{
    apply_disk_status, fallback_songs, format_default_title, format_duration,
    is_cached_song_name, is_meeting_song_track, normalize_duration_text, song_file_name,
    songs_from_tracks, CachedSong, HymnalCatalogTrack, SongStatus,
};
use jpresentation::hymnal_service::{play_song_on_stage, verify_song_bytes};
use jpresentation::hymnal::ready_song;
use jpresentation::output::{OutputState, StageKind};

#[test]
fn meeting_song_tracks_are_1_to_163() {
    assert!(is_meeting_song_track(1));
    assert!(is_meeting_song_track(163));
    assert!(!is_meeting_song_track(0));
    assert!(!is_meeting_song_track(164));
    assert!(!is_meeting_song_track(601));
}

#[test]
fn format_duration_handles_seconds() {
    assert_eq!(format_duration(0), "00:00");
    assert_eq!(format_duration(65), "01:05");
    assert_eq!(format_duration(140), "02:20");
}

#[test]
fn fallback_songs_contain_163_items() {
    let songs = fallback_songs("S");
    assert_eq!(songs.len(), 163);
    assert_eq!(songs[0].track, 1);
    assert_eq!(songs[0].title, "Cántico 1");
    assert_eq!(songs[162].track, 163);
}

#[test]
fn normalize_duration_text_forms() {
    assert_eq!(normalize_duration_text("2:20").as_deref(), Some("02:20"));
    assert_eq!(normalize_duration_text("03:45").as_deref(), Some("03:45"));
    assert_eq!(normalize_duration_text(" about 3 min ").as_deref(), Some("about 3 min"));
    assert_eq!(normalize_duration_text("1:2:3").as_deref(), Some("1:2:3"));
    assert_eq!(normalize_duration_text("   "), None);
}

fn track(n: u32) -> HymnalCatalogTrack {
    HymnalCatalogTrack {
        track: n,
        title: format!("{n}. Song"),
        duration_secs: Some(140),
        duration_formatted: "02:20".into(),
        label: "720p".into(),
        filesize: 1024,
        checksum: "abc".into(),
        url: "http://example.com/1.mp4".into(),
    }
}

#[test]
fn catalog_listing_keeps_meeting_songs_and_marks_cache() {
    let songs = songs_from_tracks(&vec![track(1), track(600), track(2)]);
    assert_eq!(songs.len(), 2);
    assert_eq!(songs[1].track, 2);
    let marked = apply_disk_status(
        songs,
        &vec![Some(CachedSong { path: "/h/sjjm_1_720p.mp4".into(), size: Some(7) }), None],
    );
    assert_eq!(marked[0].status, SongStatus::Ready);
    assert_eq!(marked[0].cache_path.as_deref(), Some("/h/sjjm_1_720p.mp4"));
    assert_eq!(marked[0].filesize, 1024);
    assert_eq!(marked[1].status, SongStatus::Pending);
}

#[test]
fn download_names_are_found_again() {
    let name = song_file_name(38, "720p");
    assert_eq!(name, "sjjm_38_720p.mp4");
    assert!(is_cached_song_name(&name, 38));
    assert!(is_cached_song_name("sjjm_38.mp4", 38));
    assert!(!is_cached_song_name("sjjm_3_720p.mp4", 38));
    assert!(!is_cached_song_name("sjjm_38_720p.webm", 38));
}

#[test]
fn titles_follow_language() {
    assert_eq!(format_default_title("S", 151), "151. Cántico 151");
    assert_eq!(format_default_title("E", 3), "3. Song 3");
}

#[test]
fn play_song_opens_video_stage() {
    let mut output = OutputState::idle();
    let song = ready_song("S", 151, "/h/sjjm_151_720p.mp4".into(), 10);
    let snap = play_song_on_stage("S", 151, &song, &mut output).expect("play");
    assert_eq!(snap.kind, StageKind::Video);
    assert_eq!(snap.rev, 1);
    assert!(snap.path.is_some());
    assert_eq!(snap.title.as_deref(), Some("151. Cántico 151"));
}

#[test]
fn song_checksum_is_checked() {
    assert!(verify_song_bytes(b"abc", "900150983cd24fb0d6963f7d28e17f72").is_ok());
    assert!(verify_song_bytes(b"abc", "0000").is_err());
}
