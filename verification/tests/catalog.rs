use jpresentation::hymnal::HymnalCatalogTrack;
use jpresentation::catalog::{
    catalog_query, check_catalog_status, check_download_status, checksum_matches, label_rank, md5_hex,
    pick_file, CatalogFile, CatalogFileUrl,
    CatalogResponse, FormatFiles, LangFiles, MemoryCatalog,
};
use jpresentation::error::AppError;
use jpresentation::media::{CatalogFormat, CatalogKey, MediaResolver, PublicationCatalog};

fn file(label: &str, size: u64, url: &str, checksum: &str) -> CatalogFile {
    CatalogFile {
        label: label.into(),
        filesize: size,
        file: CatalogFileUrl { url: url.into(), checksum: checksum.into() },
    }
}

fn key(format: CatalogFormat) -> CatalogKey {
    CatalogKey {
        langwritten: "S".into(),
        pub_symbol: "mwbv".into(),
        issue: Some("202609".into()),
        track: Some(1),
        format,
    }
}

#[test]
fn pick_best_mp4_by_label() {
    let body = CatalogResponse {
        files: vec![LangFiles {
            langwritten: "S".into(),
            formats: vec![FormatFiles {
                format: "MP4".into(),
                files: vec![file("240p", 1, "http://x/240", "a"), file("720p", 2, "http://x/720", "b")],
            }],
        }],
    };
    let (hit, url) = pick_file(&body, &key(CatalogFormat::Mp4)).expect("pick");
    assert_eq!(url, "http://x/720");
    assert_eq!(hit.size, 2);
}

#[test]
fn pick_first_publication_and_fall_back_to_first_language() {
    let body = CatalogResponse {
        files: vec![LangFiles {
            langwritten: "E".into(),
            formats: vec![FormatFiles {
                format: "JWPUB".into(),
                files: vec![file("", 10, "http://x/a", "c1"), file("", 20, "http://x/b", "c2")],
            }],
        }],
    };
    let (hit, url) = pick_file(&body, &key(CatalogFormat::Jwpub)).expect("pick");
    assert_eq!(url, "http://x/a");
    assert_eq!(hit.checksum, "c1");
    assert!(matches!(pick_file(&body, &key(CatalogFormat::Mp4)), Err(AppError::CatalogNotFound)));
    let empty = CatalogResponse { files: vec![] };
    assert!(matches!(pick_file(&empty, &key(CatalogFormat::Jwpub)), Err(AppError::CatalogNotFound)));
}

#[test]
fn label_rank_reads_digits() {
    assert_eq!(label_rank("720p"), 720);
    assert_eq!(label_rank("1080p HD"), 1080);
    assert_eq!(label_rank("hd"), 0);
    assert_eq!(label_rank("99999999999p"), 0);
}

#[test]
fn md5_of_known_text() {
    assert_eq!(md5_hex(b""), "d41d8cd98f00b204e9800998ecf8427e");
    assert_eq!(md5_hex(b"abc"), "900150983cd24fb0d6963f7d28e17f72");
    assert!(checksum_matches(b"abc", "900150983CD24FB0D6963F7D28E17F72"));
    assert!(checksum_matches(b"abc", ""));
    assert!(!checksum_matches(b"abd", "900150983cd24fb0d6963f7d28e17f72"));
}

#[test]
fn memory_catalog_reads_back_writes() {
    let mut c = MemoryCatalog::new();
    c.insert(key(CatalogFormat::Mp4), b"video".to_vec(), md5_hex(b"video"));
    let hit = c.lookup(&key(CatalogFormat::Mp4)).expect("hit");
    assert_eq!(hit.size, 5);
    assert_eq!(hit.checksum, md5_hex(b"video"));
    assert_eq!(c.fetch(&key(CatalogFormat::Mp4)).expect("bytes"), b"video".to_vec());
    assert!(matches!(c.fetch(&key(CatalogFormat::Jwpub)), Err(AppError::CatalogNotFound)));
}

#[test]
fn memory_catalog_missing_fails_once() {
    let mut c = MemoryCatalog::new();
    c.insert(key(CatalogFormat::Mp4), b"v".to_vec(), String::new());
    c.mark_missing(&key(CatalogFormat::Mp4));
    assert!(matches!(c.lookup(&key(CatalogFormat::Mp4)), Err(AppError::CatalogNotFound)));
    assert!(c.lookup(&key(CatalogFormat::Mp4)).is_ok());
}

#[test]
fn memory_catalog_lists_stored_songbook() {
    let mut c = MemoryCatalog::new();
    assert!(matches!(c.list_hymnal_tracks("S"), Err(AppError::CatalogNotFound)));
    let track = HymnalCatalogTrack {
        track: 1,
        title: "1. Las cualidades de Jehová".into(),
        duration_secs: Some(140),
        duration_formatted: "02:20".into(),
        label: "720p".into(),
        filesize: 1024,
        checksum: "abc".into(),
        url: "http://example.com/1.mp4".into(),
    };
    c.insert_hymnal_tracks("S", vec![track]);
    let listed = c.list_hymnal_tracks("S").expect("listing");
    assert_eq!(listed.len(), 1);
    assert_eq!(listed[0].title, "1. Las cualidades de Jehová");
}

#[test]
fn catalog_query_lists_the_key() {
    let key = CatalogKey {
        langwritten: "S".into(),
        pub_symbol: "sjjm".into(),
        issue: None,
        track: Some(38),
        format: CatalogFormat::Mp4,
    };
    let q = catalog_query(&key);
    let expect: Vec<(String, String)> = vec![
        ("output".into(), "json".into()),
        ("langwritten".into(), "S".into()),
        ("pub".into(), "sjjm".into()),
        ("fileformat".into(), "MP4".into()),
        ("track".into(), "38".into()),
    ];
    assert_eq!(q, expect);
    let issue_key = CatalogKey {
        langwritten: "E".into(),
        pub_symbol: "mwb".into(),
        issue: Some("202601".into()),
        track: None,
        format: CatalogFormat::Jwpub,
    };
    let q = catalog_query(&issue_key);
    assert_eq!(q[3], ("fileformat".to_string(), "JWPUB".to_string()));
    assert_eq!(q[4], ("issue".to_string(), "202601".to_string()));
    assert_eq!(q.len(), 5);
}

#[test]
fn catalog_status_codes() {
    assert!(check_catalog_status(200, "200 OK").is_ok());
    assert!(matches!(check_catalog_status(404, "404 Not Found"), Err(AppError::CatalogNotFound)));
    match check_catalog_status(503, "503 Service Unavailable") {
        Err(AppError::Network(m)) => assert_eq!(m, "catalog HTTP 503 Service Unavailable"),
        other => panic!("unexpected {other:?}"),
    }
    match check_download_status(404, "404 Not Found") {
        Err(AppError::Network(m)) => assert_eq!(m, "download HTTP 404 Not Found"),
        other => panic!("unexpected {other:?}"),
    }
    assert!(check_download_status(206, "206 Partial Content").is_ok());
}
