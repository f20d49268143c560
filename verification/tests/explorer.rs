use jpresentation::error::AppError;
use jpresentation::explorer::{parent_string, virtual_roots};
use jpresentation::explorer::{
    classify_file, listing_entry, mime_for, path_allowed, push_root, sort_entries,
    stage_file_name, validate_explorer, ExplorerEntryDto, ExplorerKind, ExplorerSetting,
};

#[test]
fn classifies_media_and_skips_db() {
    assert_eq!(classify_file("a.JPG"), Some(ExplorerKind::Image));
    assert_eq!(classify_file("clip.mp4"), Some(ExplorerKind::Video));
    assert_eq!(classify_file("w.jwpub"), Some(ExplorerKind::Jwpub));
    assert_eq!(classify_file("mwb.db"), None);
    assert_eq!(classify_file("notes.txt"), None);
}

#[test]
fn stage_file_names_differ_by_rev() {
    assert_ne!(stage_file_name(1, "jpg"), stage_file_name(2, "jpg"));
    assert_eq!(stage_file_name(3, ".png"), "3.png");
}

#[test]
fn mime_by_kind_and_extension() {
    assert_eq!(mime_for(ExplorerKind::Image, "a.PNG"), "image/png");
    assert_eq!(mime_for(ExplorerKind::Image, "a.jpeg"), "image/jpeg");
    assert_eq!(mime_for(ExplorerKind::Video, "a.webm"), "video/webm");
    assert_eq!(mime_for(ExplorerKind::Video, "a.mp4"), "video/mp4");
    assert_eq!(mime_for(ExplorerKind::Jwpub, "a.jwpub"), "application/octet-stream");
}

#[test]
fn hidden_and_unknown_entries_are_skipped() {
    assert!(listing_entry(".secret.jpg".into(), "/x/.secret.jpg".into(), false).is_none());
    assert!(listing_entry("notes.txt".into(), "/x/notes.txt".into(), false).is_none());
    let dir = listing_entry("sub".into(), "/x/sub".into(), true).expect("dir");
    assert_eq!(dir.kind, ExplorerKind::Dir);
    let pic = listing_entry("pic.jpg".into(), "/x/pic.jpg".into(), false).expect("pic");
    assert_eq!(pic.kind, ExplorerKind::Image);
}

fn entry(name: &str, kind: ExplorerKind) -> ExplorerEntryDto {
    ExplorerEntryDto { name: name.into(), path: format!("/x/{name}"), kind }
}

#[test]
fn folders_first_then_names_without_case() {
    let sorted = sort_entries(vec![
        entry("b.jpg", ExplorerKind::Image),
        entry("Zeta", ExplorerKind::Dir),
        entry("A.mp4", ExplorerKind::Video),
        entry("alpha", ExplorerKind::Dir),
    ]);
    let names: Vec<&str> = sorted.iter().map(|e| e.name.as_str()).collect();
    assert_eq!(names, vec!["alpha", "Zeta", "A.mp4", "b.jpg"]);
}

#[test]
fn roots_are_not_listed_twice() {
    let mut entries = Vec::new();
    push_root(&mut entries, "Home", "/home/u");
    push_root(&mut entries, "Again", "/home/u");
    push_root(&mut entries, "Pictures", "/home/u/Pictures");
    assert_eq!(entries.len(), 2);
    assert_eq!(entries[0].name, "Home");
}

#[test]
fn paths_are_jailed_by_components() {
    let roots = vec!["/home/u/media".to_string(), "/srv".to_string()];
    assert!(path_allowed("/home/u/media/pic.jpg", &roots));
    assert!(path_allowed("/home/u/media", &roots));
    assert!(!path_allowed("/home/u/media2/pic.jpg", &roots));
    assert!(!path_allowed("/etc", &roots));
    assert!(path_allowed("/etc/passwd", &vec!["/".to_string()]));
}

#[test]
fn explorer_roots_are_validated() {
    assert!(validate_explorer(&ExplorerSetting { roots: vec!["/home/u".into()] }, &vec![true]).is_ok());
    assert!(validate_explorer(&ExplorerSetting { roots: vec!["relative/dir".into()] }, &vec![true]).is_err());
    assert!(validate_explorer(&ExplorerSetting { roots: vec!["   ".into()] }, &vec![true]).is_err());
    let many = ExplorerSetting { roots: (0..21).map(|i| format!("/r{i}")).collect() };
    assert!(validate_explorer(&many, &vec![true; 21]).is_err());
    match validate_explorer(&ExplorerSetting { roots: vec!["/home/u".into(), "/gone".into()] }, &vec![true, false]) {
        Err(AppError::Invariant(m)) => assert_eq!(m, "explorer root must be an existing directory"),
        other => panic!("unexpected {other:?}"),
    }
    assert!(validate_explorer(&ExplorerSetting { roots: vec!["/home/u".into()] }, &Vec::new()).is_err());
    assert!(validate_explorer(&ExplorerSetting { roots: Vec::new() }, &Vec::new()).is_ok());
}

#[test]
fn starting_folders_skip_listed_roots() {
    let local = vec![entry("Home", ExplorerKind::Dir)];
    let list = virtual_roots("/m/week/S/a".into(), "/m/week/S/b".into(), local, &vec!["/x/Home".to_string(), "/data/talks".to_string()]);
    let names: Vec<&str> = list.entries.iter().map(|e| e.name.as_str()).collect();
    assert_eq!(names, vec!["This week", "Next week", "Home", "talks"]);
    assert!(list.parent.is_none());
    assert_eq!(list.path, "");
}

#[test]
fn parent_of_a_path() {
    assert_eq!(parent_string("/home/u/pic.jpg").as_deref(), Some("/home/u"));
    assert_eq!(parent_string("/"), None);
}
