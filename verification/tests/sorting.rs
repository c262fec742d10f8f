use ram_fileserver::sorting::{arrange, sort_paths, sort_paths_by_name, PathItem, PathType, SortKey};

fn item(path_type: PathType, name: &str, mtime: u64, size: u64) -> PathItem {
    PathItem { path_type, name: name.to_owned(), mtime, size, size_known: true }
}

fn names(paths: &[PathItem]) -> Vec<&str> {
    paths.iter().map(|item| item.name.as_str()).collect()
}

fn sample() -> Vec<PathItem> {
    vec![
        item(PathType::File, "file10", 3, 5),
        item(PathType::Dir, "zoo", 1, 0),
        item(PathType::File, "File2", 9, 7),
        item(PathType::SymlinkDir, "Alpha", 2, 0),
        item(PathType::SymlinkFile, "file1", 4, 6),
    ]
}

#[test]
fn names_are_ordered_naturally_without_regard_to_case() {
    let mut paths = sample();
    sort_paths_by_name(&mut paths);
    assert_eq!(names(&paths), ["Alpha", "zoo", "file1", "File2", "file10"]);
}

#[test]
fn times_and_sizes_order_within_the_groups() {
    let paths = sort_paths(&sample(), SortKey::Mtime, false);
    assert_eq!(names(&paths), ["zoo", "Alpha", "file10", "file1", "File2"]);
    let paths = sort_paths(&sample(), SortKey::Size, false);
    assert_eq!(names(&paths)[2..], ["file10", "file1", "File2"]);
}

#[test]
fn requests_choose_the_order() {
    let paths = arrange(sample(), None, None);
    assert_eq!(names(&paths), ["Alpha", "zoo", "file1", "File2", "file10"]);
    let paths = arrange(sample(), Some("name"), Some("desc"));
    assert_eq!(names(&paths), ["file10", "File2", "file1", "zoo", "Alpha"]);
    let paths = arrange(sample(), Some("unknown"), None);
    assert_eq!(names(&paths), ["file10", "zoo", "File2", "Alpha", "file1"]);
}

#[test]
fn kinds_are_told_apart() {
    assert!(PathType::of(true, true).is_dir());
    assert_eq!(PathType::of(true, false), PathType::SymlinkFile);
    assert_eq!(PathType::of(false, true), PathType::Dir);
    assert_eq!(PathType::Dir.sort_group(), PathType::SymlinkDir.sort_group());
}
