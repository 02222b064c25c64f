use rgh::resolver::{resolve_files, DirEntry, PathProbe};

fn entry(path: &str, is_regular_file: bool) -> DirEntry {
    DirEntry { path: path.to_string(), is_regular_file }
}

#[test]
fn regular_file_resolves_to_itself() {
    let files = resolve_files("pkg/a.tar.gz".to_string(), PathProbe::RegularFile);
    assert_eq!(files, vec!["pkg/a.tar.gz".to_string()]);
}

#[test]
fn relative_file_path_is_kept_verbatim() {
    let files = resolve_files("./x".to_string(), PathProbe::RegularFile);
    assert_eq!(files, vec!["./x".to_string()]);
}

#[test]
fn directory_keeps_regular_files_only() {
    let probe = PathProbe::Directory(vec![
        entry("pkg/a.tar.gz", true),
        entry("pkg/b.tar.gz", true),
        entry("pkg/nested", false),
    ]);
    let files = resolve_files("pkg".to_string(), probe);
    assert_eq!(files, vec!["pkg/a.tar.gz".to_string(), "pkg/b.tar.gz".to_string()]);
}

#[test]
fn directory_keeps_iteration_order() {
    let probe = PathProbe::Directory(vec![
        entry("d/z", true),
        entry("d/sub", false),
        entry("d/a", true),
        entry("d/m", true),
    ]);
    let files = resolve_files("d".to_string(), probe);
    assert_eq!(files, vec!["d/z".to_string(), "d/a".to_string(), "d/m".to_string()]);
}

#[test]
fn empty_directory_resolves_to_nothing() {
    let files = resolve_files("pkg".to_string(), PathProbe::Directory(vec![]));
    assert!(files.is_empty());
}

#[test]
fn directory_of_subdirectories_resolves_to_nothing() {
    let probe = PathProbe::Directory(vec![entry("d/one", false), entry("d/two", false)]);
    let files = resolve_files("d".to_string(), probe);
    assert!(files.is_empty());
}

#[test]
fn absent_path_resolves_to_nothing() {
    let files = resolve_files("no/such/path".to_string(), PathProbe::Absent);
    assert!(files.is_empty());
}
