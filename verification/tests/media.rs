use jpresentation::media::{catalog_key_for_item, CatalogFormat, ProviderRegistry};
use jpresentation::week::{MediaItem, MediaKind, MediaRef, MediaStatus};

#[test]
fn starts_empty() {
    assert!(ProviderRegistry::new().is_empty());
}

fn item(symbol: &str, issue_tag: i64) -> MediaItem {
    MediaItem {
        id: "s".into(),
        title: "1".into(),
        media_kind: MediaKind::Song,
        status: MediaStatus::PendingHymnal,
        mime: "video/mp4".into(),
        media_ref: MediaRef::Catalog {
            key_symbol: symbol.into(),
            track: 1,
            lang_meps: 1,
            issue_tag,
            mime: "video/mp4".into(),
        },
        cache_path: None,
    }
}

#[test]
fn sjjm_has_no_week_catalog_key() {
    assert!(catalog_key_for_item(&item("sjjm", 0), "S").is_none());
}

#[test]
fn video_key_carries_issue_and_track() {
    let key = catalog_key_for_item(&item("mwbv", 20260900), "S").expect("key");
    assert_eq!(key.pub_symbol, "mwbv");
    assert_eq!(key.issue.as_deref(), Some("202609"));
    assert_eq!(key.track, Some(1));
    assert_eq!(key.format, CatalogFormat::Mp4);
    assert_eq!(key.format.as_str(), "MP4");
    let no_issue = catalog_key_for_item(&item("mwbv", 0), "S").expect("key");
    assert!(no_issue.issue.is_none());
}
