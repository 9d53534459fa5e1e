use vitax::traversal::{
    check_path_type, entry_less, name_less, sort_entries, DirectoryEntry, DirectoryWalk, PathType,
};

fn strings(v: &[&str]) -> Vec<String> {
    v.iter().map(|s| s.to_string()).collect()
}

fn entry(path: &str, dir: bool) -> DirectoryEntry {
    DirectoryEntry {
        name: path.rsplit('/').next().unwrap().to_string(),
        path: path.to_string(),
        is_directory: dir,
        is_file: !dir,
        size: if dir { None } else { Some(1) },
    }
}

#[test]
fn walk_is_depth_first_and_bounded() {
    let mut walk = DirectoryWalk::new("r", Some(2));
    assert_eq!(walk.next_directory(), Some("r".to_string()));
    walk.supply(&vec![entry("r/a", true), entry("r/b.txt", false)]);
    assert_eq!(walk.next_directory(), Some("r/a".to_string()));
    walk.supply(&vec![entry("r/a/deep", true), entry("r/a/c.txt", false)]);
    // r/a/deep is at the depth bound: it is not listed
    assert_eq!(walk.next_directory(), None);
    assert_eq!(walk.into_files(), strings(&["r/a/c.txt", "r/b.txt"]));
}

#[test]
fn walk_with_zero_depth_lists_nothing() {
    let mut walk = DirectoryWalk::new("r", Some(0));
    assert_eq!(walk.next_directory(), None);
    assert!(walk.into_files().is_empty());
}

#[test]
fn path_types() {
    assert_eq!(check_path_type("/"), Ok(PathType::Directory));
    assert_eq!(
        check_path_type("/no/such/path/for/this/test"),
        Err("Path does not exist".to_string())
    );
}

#[test]
fn listing_order_puts_directories_first() {
    let sorted = sort_entries(vec![
        entry("d/b", false),
        entry("d/z", true),
        entry("d/a", false),
        entry("d/c", true),
    ]);
    let names: Vec<String> = sorted.iter().map(|e| e.name.clone()).collect();
    assert_eq!(names, strings(&["c", "z", "a", "b"]));
    assert!(entry_less(&entry("d/z", true), &entry("d/a", false)));
    assert!(!entry_less(&entry("d/a", false), &entry("d/a", false)));
}

#[test]
fn names_compare_by_code_point() {
    assert!(name_less("Zebra", "apple"));
    assert!(name_less("app", "apple"));
    assert!(!name_less("apple", "app"));
    assert!(!name_less("same", "same"));
    assert!(name_less("", "a"));
    assert!(name_less("z", "é"));
}
