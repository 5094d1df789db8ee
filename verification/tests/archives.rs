use gitarena::archive::{attachment, path_key, path_step, tar_entry, zip_entry, PathStep, TarEntry, ZipEntry};
use gitarena::tree::{join_path, EntryKind};

#[test]
fn archive_paths_join_names_below_their_directory() {
    assert_eq!(path_step("", EntryKind::Tree, b"src"), Some(PathStep::Directory("src".to_string())));
    assert_eq!(path_step("src", EntryKind::Blob, b"main.rs"), Some(PathStep::File("src/main.rs".to_string())));
    assert_eq!(path_step("src", EntryKind::Link, b"link"), Some(PathStep::File("src/link".to_string())));
    assert_eq!(path_step("src", EntryKind::Commit, b"vendor"), Some(PathStep::Skip));
    assert_eq!(path_step("src", EntryKind::Blob, b"bad\xff"), None);
}

#[test]
fn time_stamp_keys_drop_the_leading_dot_slash() {
    assert_eq!(path_key("./src/lib.rs"), "src/lib.rs");
    assert_eq!(path_key("src/lib.rs"), "src/lib.rs");
    assert_eq!(path_key("."), ".");
    assert_eq!(path_key(".//x"), "/x");
    assert_eq!(path_key(""), "");
}

#[test]
fn tar_entries_by_kind() {
    assert_eq!(tar_entry(EntryKind::Tree, Some(5)), TarEntry::Descend);
    assert_eq!(tar_entry(EntryKind::Commit, Some(5)), TarEntry::Skip);
    assert_eq!(tar_entry(EntryKind::Blob, Some(1_700_000_000)), TarEntry::Append { mode: 0o664, mtime: 1_700_000_000, symlink: false });
    assert_eq!(tar_entry(EntryKind::BlobExecutable, None), TarEntry::Append { mode: 0o775, mtime: 0, symlink: false });
    assert_eq!(tar_entry(EntryKind::Link, Some(-20)), TarEntry::Append { mode: 0o664, mtime: 0, symlink: true });
}

#[test]
fn zip_entries_by_kind() {
    assert_eq!(zip_entry(EntryKind::Tree, true, 0), ZipEntry::Directory);
    assert_eq!(zip_entry(EntryKind::Blob, true, 10), ZipEntry::File { unix_permissions: 0o664, large_file: false });
    assert_eq!(zip_entry(EntryKind::BlobExecutable, false, 4_294_967_000), ZipEntry::File { unix_permissions: 0o775, large_file: true });
    assert_eq!(zip_entry(EntryKind::Blob, false, 4_294_966_999), ZipEntry::File { unix_permissions: 0o664, large_file: false });
    assert_eq!(zip_entry(EntryKind::Link, true, 4_294_967_000), ZipEntry::File { unix_permissions: 0o120_777, large_file: false });
    assert_eq!(zip_entry(EntryKind::Link, false, 3), ZipEntry::Skip);
    assert_eq!(zip_entry(EntryKind::Commit, true, 0), ZipEntry::Skip);
}

#[test]
fn download_names() {
    assert_eq!(attachment("gitarena", Some("main"), "tar.gz"), "attachment; filename=\"gitarena-main.tar.gz\"");
    assert_eq!(attachment("gitarena", None, "zip"), "attachment; filename=\"gitarena.zip\"");
}

#[test]
fn tar_entries_find_the_time_stamps_of_their_paths() {
    let dir = match path_step("", EntryKind::Tree, b"src") {
        Some(PathStep::Directory(p)) => p,
        other => panic!("{other:?}"),
    };
    let file = match path_step(&dir, EntryKind::Blob, b"lib.rs") {
        Some(PathStep::File(p)) => p,
        other => panic!("{other:?}"),
    };
    let tar_dir = join_path(".", "src");
    let tar_file = join_path(&tar_dir, "lib.rs");
    assert_eq!(tar_file, "./src/lib.rs");
    assert_eq!(path_key(&tar_file), file);
}
