use lsr::{
    build_listing, check_path, collect_entries, is_hidden, DirItem, EntryMeta, FSError,
    FileMetadata, OpenFailure, PathKind,
};

fn file_meta(size: u64, mode: u32) -> EntryMeta {
    EntryMeta {
        is_dir: false,
        is_symlink: false,
        size,
        created_at: None,
        mode,
    }
}

fn file(name: &str, size: u64, mode: u32) -> DirItem {
    DirItem::Entry(name.to_string(), Some(file_meta(size, mode)))
}

fn special(name: &str) -> FileMetadata {
    FileMetadata {
        name: name.to_string(),
        is_dir: true,
        is_symlink: false,
        size: 0,
        created_at: None,
        permission: None,
    }
}

fn regular(name: &str, size: u64, permission: &str) -> FileMetadata {
    FileMetadata {
        name: name.to_string(),
        is_dir: false,
        is_symlink: false,
        size,
        created_at: None,
        permission: Some(permission.to_string()),
    }
}

fn names(v: &[FileMetadata]) -> Vec<&str> {
    v.iter().map(|e| e.name.as_str()).collect()
}

#[test]
fn missing_path_is_not_found() {
    let r = check_path("/missingpath", PathKind::Missing);
    assert_eq!(r, Err(FSError::PathNotFound("/missingpath".to_string())));
}

#[test]
fn regular_file_is_not_a_directory() {
    let r = check_path("not_a_directory.txt", PathKind::NotADirectory);
    assert_eq!(
        r,
        Err(FSError::PathIsNotADirectory("not_a_directory.txt".to_string()))
    );
}

#[test]
fn directory_path_is_accepted() {
    assert_eq!(check_path(".", PathKind::Directory), Ok(()));
}

#[test]
fn one_visible_file_without_hidden() {
    let items = vec![
        file("note.txt", 12, 0o100644),
        file(".note.txt", 5, 0o100644),
    ];
    let r = build_listing("dir", false, Ok(items)).unwrap();
    assert_eq!(r, vec![regular("note.txt", 12, "644")]);
}

#[test]
fn one_visible_and_one_hidden_file_with_hidden() {
    let items = vec![
        file("note.txt", 12, 0o100644),
        file(".note.txt", 5, 0o100644),
    ];
    let r = build_listing("dir", true, Ok(items)).unwrap();
    assert_eq!(
        r,
        vec![
            special("."),
            special(".."),
            regular(".note.txt", 5, "644"),
            regular("note.txt", 12, "644"),
        ]
    );
}

#[test]
fn empty_directory_with_hidden_holds_dot_entries() {
    let r = collect_entries(true, Vec::new()).unwrap();
    assert_eq!(r, vec![special("."), special("..")]);
    let r = collect_entries(false, Vec::new()).unwrap();
    assert!(r.is_empty());
}

#[test]
fn entries_are_in_byte_order() {
    let items = vec![
        file("b", 1, 0o644),
        file("a", 2, 0o644),
        file("B", 3, 0o644),
        file("_", 4, 0o644),
        file("ab", 5, 0o644),
        file("é", 6, 0o644),
    ];
    let r = collect_entries(false, items).unwrap();
    assert_eq!(names(&r), vec!["B", "_", "a", "ab", "b", "é"]);
    for w in r.windows(2) {
        assert!(w[0].name.as_bytes() <= w[1].name.as_bytes());
    }
}

#[test]
fn without_hidden_no_dot_names() {
    let items = vec![
        file(".a", 1, 0o600),
        file("..b", 1, 0o600),
        file("c.", 1, 0o600),
    ];
    let r = collect_entries(false, items).unwrap();
    assert_eq!(names(&r), vec!["c."]);
}

#[test]
fn unreadable_items_are_passed_over() {
    let items = vec![DirItem::Unreadable, file("x", 7, 0o755), DirItem::Unreadable];
    let r = collect_entries(false, items).unwrap();
    assert_eq!(r, vec![regular("x", 7, "755")]);
}

#[test]
fn missing_metadata_fails_the_listing() {
    let items = vec![file("a", 1, 0o644), DirItem::Entry("b".to_string(), None)];
    let r = collect_entries(false, items);
    assert_eq!(
        r,
        Err(FSError::UnknownError("Failed to retrieve metadata".to_string()))
    );
}

#[test]
fn missing_metadata_of_a_left_out_entry_is_ignored() {
    let items = vec![file("a", 1, 0o644), DirItem::Entry(".b".to_string(), None)];
    let r = collect_entries(false, items).unwrap();
    assert_eq!(names(&r), vec!["a"]);
    let items = vec![file("a", 1, 0o644), DirItem::Entry(".b".to_string(), None)];
    assert!(collect_entries(true, items).is_err());
}

#[test]
fn directories_and_links_keep_their_flags() {
    let items = vec![DirItem::Entry(
        "sub".to_string(),
        Some(EntryMeta {
            is_dir: true,
            is_symlink: true,
            size: 4096,
            created_at: Some(std::time::SystemTime::UNIX_EPOCH),
            mode: 0o40751,
        }),
    )];
    let r = collect_entries(false, items).unwrap();
    assert_eq!(
        r,
        vec![FileMetadata {
            name: "sub".to_string(),
            is_dir: true,
            is_symlink: true,
            size: 4096,
            created_at: Some(std::time::SystemTime::UNIX_EPOCH),
            permission: Some("751".to_string()),
        }]
    );
}

#[test]
fn open_failures_map_to_errors() {
    assert_eq!(
        build_listing("/p", false, Err(OpenFailure::NotFound)),
        Err(FSError::PathNotFound("/p".to_string()))
    );
    assert_eq!(
        build_listing("/p", true, Err(OpenFailure::PermissionDenied)),
        Err(FSError::PermissionError("/p".to_string()))
    );
    assert_eq!(
        build_listing("/p", false, Err(OpenFailure::Other("disk on fire".to_string()))),
        Err(FSError::UnknownError("disk on fire".to_string()))
    );
}

#[test]
fn hidden_names_start_with_a_dot() {
    assert!(is_hidden(".git"));
    assert!(is_hidden("."));
    assert!(!is_hidden("a.b"));
    assert!(!is_hidden(""));
}

#[test]
fn error_messages() {
    assert_eq!(
        FSError::PathNotFound("/x".to_string()).to_string(),
        "Path not found: /x"
    );
    assert_eq!(
        FSError::PathIsNotADirectory("f".to_string()).to_string(),
        "Path is not a directory: f"
    );
    assert_eq!(
        FSError::PermissionError("d".to_string()).to_string(),
        "Permission denied: d"
    );
    assert_eq!(
        FSError::PathEncodingError("d".to_string()).to_string(),
        "Path encoding error: Path contains invalid UTF-8: d"
    );
    assert_eq!(
        FSError::UnknownError("boom".to_string()).to_string(),
        "Unknown error: boom"
    );
}
