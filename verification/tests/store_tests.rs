use popcorn_hero::media::{
    scan_media_folders, scan_walks, MediaConfig, MediaEntry, ScanError, StoredLibrary,
};
use popcorn_hero::store::{assign_known_ids, scan_library, sort_dedup_by_path};

fn entry(id: &str, path: &str, size: u64) -> MediaEntry {
    let filename = path.rsplit('/').next().unwrap_or("unknown").to_string();
    let extension = filename.rsplit('.').next().unwrap_or("").to_string();
    MediaEntry {
        id: id.to_string(),
        path: path.to_string(),
        filename,
        extension,
        size_bytes: size,
    }
}

#[test]
fn sort_dedup_sorts_by_path_and_keeps_first_of_equal_paths() {
    let out = sort_dedup_by_path(vec![
        entry("1", "/m/b.mkv", 1),
        entry("2", "/m/a.mkv", 2),
        entry("3", "/m/b.mkv", 3),
        entry("4", "/m/c.mkv", 4),
        entry("5", "/m/a.mkv", 5),
    ]);
    assert_eq!(
        out,
        vec![entry("2", "/m/a.mkv", 2), entry("1", "/m/b.mkv", 1), entry("4", "/m/c.mkv", 4)]
    );
}

#[test]
fn sort_is_by_bytes() {
    let out = sort_dedup_by_path(vec![
        entry("1", "/m/b.mkv", 1),
        entry("2", "/m/B.mkv", 1),
        entry("3", "/m/é.mkv", 1),
        entry("4", "/m/a.mkv", 1),
        entry("5", "/m/a", 1),
    ]);
    let paths: Vec<&str> = out.iter().map(|e| e.path.as_str()).collect();
    assert_eq!(paths, vec!["/m/B.mkv", "/m/a", "/m/a.mkv", "/m/b.mkv", "/m/é.mkv"]);
}

#[test]
fn sort_dedup_of_nothing() {
    assert_eq!(sort_dedup_by_path(vec![]), vec![]);
}

#[test]
fn known_ids_come_from_the_last_entry_with_an_id() {
    let existing = vec![
        entry("old-1", "/m/a.mkv", 1),
        entry("old-2", "/m/a.mkv", 1),
        entry("", "/m/a.mkv", 1),
        entry("", "/m/b.mkv", 1),
    ];
    let out = assign_known_ids(
        vec![entry("n1", "/m/a.mkv", 9), entry("n2", "/m/b.mkv", 9), entry("n3", "/m/c.mkv", 9)],
        &existing,
    );
    assert_eq!(
        out,
        vec![entry("old-2", "/m/a.mkv", 9), entry("n2", "/m/b.mkv", 9), entry("n3", "/m/c.mkv", 9)]
    );
}

#[test]
fn scan_preserves_ids_of_known_paths() {
    let existing = vec![entry("keep", "/m/a.mkv", 1), entry("gone", "/m/q.mkv", 1)];
    let out = scan_library(vec![entry("n1", "/m/z.mkv", 5), entry("n2", "/m/a.mkv", 7)], &existing);
    assert_eq!(out, vec![entry("keep", "/m/a.mkv", 7), entry("n1", "/m/z.mkv", 5)]);
}

#[test]
fn rescan_without_changes_is_idempotent() {
    let first = scan_library(
        vec![entry("id-1", "/m/b.mkv", 1), entry("id-2", "/m/a.mkv", 2), entry("id-3", "/m/c.mkv", 3)],
        &vec![],
    );
    let second = scan_library(
        vec![entry("id-4", "/m/b.mkv", 1), entry("id-5", "/m/a.mkv", 2), entry("id-6", "/m/c.mkv", 3)],
        &first,
    );
    assert_eq!(second, first);
    let third = scan_library(
        vec![entry("id-7", "/m/c.mkv", 3), entry("id-8", "/m/b.mkv", 1), entry("id-9", "/m/a.mkv", 2)],
        &second,
    );
    assert_eq!(third, first);
}

#[test]
fn renamed_file_gets_new_id_and_edited_file_keeps_its_id() {
    let library = scan_library(
        vec![entry("id-a", "/m/a.mkv", 1), entry("id-b", "/m/b.mkv", 2)],
        &vec![],
    );
    // a.mkv was edited (its size changed); b.mkv was renamed to c.mkv
    let next = scan_library(
        vec![entry("fresh-1", "/m/a.mkv", 100), entry("fresh-2", "/m/c.mkv", 2)],
        &library,
    );
    assert_eq!(next, vec![entry("id-a", "/m/a.mkv", 100), entry("fresh-2", "/m/c.mkv", 2)]);
}

#[test]
fn scan_without_folders_is_empty_and_writes_nothing() {
    let config = MediaConfig { folders: vec![] };
    let (result, persist) =
        scan_media_folders(&config, vec![entry("x", "/m/a.mkv", 1)], &StoredLibrary::Absent)
            .unwrap();
    assert_eq!(result.total_found, 0);
    assert!(result.media_entries.is_empty());
    assert!(!persist);
    let (result, persist) =
        scan_media_folders(&config, vec![], &StoredLibrary::Unreadable).unwrap();
    assert_eq!(result.total_found, 0);
    assert!(!persist);
}

#[test]
fn scan_with_folders_replaces_the_library() {
    let config = MediaConfig { folders: vec!["/m".to_string()] };
    let (result, persist) = scan_media_folders(
        &config,
        vec![entry("x", "/m/b.mkv", 1), entry("y", "/m/a.mkv", 1), entry("z", "/m/b.mkv", 1)],
        &StoredLibrary::Entries(vec![entry("old", "/m/b.mkv", 0)]),
    )
    .unwrap();
    assert!(persist);
    assert_eq!(result.total_found, 2);
    assert_eq!(result.media_entries, vec![entry("y", "/m/a.mkv", 1), entry("old", "/m/b.mkv", 1)]);
}

#[test]
fn first_scan_has_no_library_to_go_by() {
    let config = MediaConfig { folders: vec!["/m".to_string()] };
    let (result, persist) =
        scan_media_folders(&config, vec![entry("x", "/m/b.mkv", 1)], &StoredLibrary::Absent)
            .unwrap();
    assert!(persist);
    assert_eq!(result.media_entries, vec![entry("x", "/m/b.mkv", 1)]);
}

#[test]
fn scan_over_an_unreadable_library_fails() {
    let config = MediaConfig { folders: vec!["/m".to_string()] };
    let r = scan_media_folders(&config, vec![entry("x", "/m/b.mkv", 1)], &StoredLibrary::Unreadable);
    assert_eq!(r, Err(ScanError::LibraryUnreadable));
    assert_eq!(
        ScanError::LibraryUnreadable.message(),
        "The media library file cannot be read; it was left as it is."
    );
}

#[test]
fn scan_walks_only_where_it_can_take_effect() {
    let folders = MediaConfig { folders: vec!["/m".to_string()] };
    let none = MediaConfig { folders: vec![] };
    assert!(scan_walks(&folders, &StoredLibrary::Absent));
    assert!(scan_walks(&folders, &StoredLibrary::Entries(vec![])));
    assert!(!scan_walks(&folders, &StoredLibrary::Unreadable));
    assert!(!scan_walks(&none, &StoredLibrary::Absent));
    assert!(!scan_walks(&none, &StoredLibrary::Unreadable));
}
