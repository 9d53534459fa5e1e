use vitax::filter::FileFilter;
use vitax::pathname::{path_basename, path_extension, split_path};

fn strings(v: &[&str]) -> Vec<String> {
    v.iter().map(|s| s.to_string()).collect()
}

#[test]
fn test_extension_filtering() {
    let filter = FileFilter::new(
        vec!["rs".to_string(), "toml".to_string()],
        vec![],
        false,
    );

    assert!(filter.matches_extension("main.rs"));
    assert!(filter.matches_extension("Cargo.toml"));
    assert!(filter.matches_extension("Main.RS"));
    assert!(!filter.matches_extension("README.md"));
    assert!(!filter.matches_extension("no_extension"));
}

#[test]
fn test_ignore_patterns() {
    let filter = FileFilter::new(
        vec![],
        vec!["*.tmp".to_string(), "target".to_string()],
        false,
    );

    assert!(filter.should_ignore("file.tmp"));
    assert!(filter.should_ignore("target/debug/build"));
    assert!(filter.should_ignore(".hidden_file"));
    assert!(!filter.should_ignore("main.rs"));
}

#[test]
fn test_combined_filters() {
    let filter = FileFilter::new(
        vec!["rs".to_string()],
        vec!["*_test.rs".to_string()],
        false,
    );

    assert!(filter.should_process("main.rs"));
    assert!(!filter.should_process("main_test.rs"));
    assert!(!filter.should_process("README.md"));
    assert!(!filter.should_process(".hidden.rs"));
}

#[test]
fn test_show_hidden() {
    let filter_hide = FileFilter::new(vec![], vec![], false);
    let filter_show = FileFilter::new(vec![], vec![], true);

    assert!(filter_hide.should_ignore(".gitignore"));
    assert!(!filter_show.should_ignore(".gitignore"));
}

#[test]
fn uppercase_extension_matches_lowercase_list() {
    let filter = FileFilter::new(strings(&["rs"]), vec![], false);
    assert!(filter.matches_extension("FILE.RS"));
    let upper_list = FileFilter::new(strings(&["RS"]), vec![], false);
    assert!(upper_list.matches_extension("file.rs"));
}

#[test]
fn ignore_wins_over_extension() {
    let filter = FileFilter::new(strings(&["rs"]), strings(&["*_test.rs"]), false);
    assert!(filter.matches_extension("main_test.rs"));
    assert!(!filter.should_process("main_test.rs"));
    assert!(!filter.should_process_entry("main_test.rs", false));
    assert!(!filter.should_process_entry("main_test.rs", true));
}

#[test]
fn hidden_directory_component_is_rejected() {
    let hide = FileFilter::new(vec![], vec![], false);
    assert!(hide.should_ignore(".git/config"));
    assert!(!hide.should_process_entry(".git/config", false));
    let show = FileFilter::new(vec![], vec![], true);
    assert!(!show.should_ignore(".git/config"));
    // `.` and `..` are not hidden names
    assert!(!hide.should_ignore("./src/main.rs"));
    assert!(!hide.should_ignore("../src/main.rs"));
}

#[test]
fn directory_listing_keeps_only_rust_sources() {
    let filter = FileFilter::new(strings(&["rs"]), vec![], false);
    assert!(filter.should_process_entry("src/main.rs", false));
    assert!(!filter.should_process_entry("src/.hidden", false));
    assert!(!filter.should_process_entry("src/README.md", false));
    // a directory passes without an extension
    assert!(filter.should_process_entry("src", true));
}

#[test]
fn pattern_on_whole_path_and_component() {
    let filter = FileFilter::new(vec![], strings(&["node_modules", "build/*.o"]), true);
    assert!(filter.should_ignore("web/node_modules/x.js"));
    assert!(filter.should_ignore("build/a.o"));
    assert!(!filter.should_ignore("src/a.o"));
    assert!(filter.matches_ignore_pattern("node_modules"));
    assert!(!filter.matches_ignore_pattern("modules"));
}

#[test]
fn malformed_pattern_matches_nothing() {
    let filter = FileFilter::new(vec![], strings(&["***"]), true);
    assert!(!filter.should_ignore("anything"));
    assert!(!filter.matches_ignore_pattern("***"));
}

#[test]
fn describe_and_has_filters() {
    let none = FileFilter::new(vec![], vec![], true);
    assert!(!none.has_filters());
    assert_eq!(none.describe(), "no filters applied");

    let all = FileFilter::new(strings(&["rs", "toml"]), strings(&["target", "*.tmp"]), false);
    assert!(all.has_filters());
    assert_eq!(
        all.describe(),
        "Filters: extensions: rs, toml; ignoring: target, *.tmp; hiding hidden files"
    );
    assert_eq!(all.extensions(), &["rs".to_string(), "toml".to_string()][..]);

    let hidden_only = FileFilter::new(vec![], vec![], false);
    assert!(hidden_only.has_filters());
    assert_eq!(hidden_only.describe(), "Filters: hiding hidden files");
}

#[test]
fn path_pieces() {
    let (comps, name) = split_path("./a//b/../c.txt/");
    assert_eq!(comps, strings(&["a", "b", "c.txt"]));
    assert_eq!(name, Some("c.txt".to_string()));
    assert_eq!(split_path("a/..").1, None);
    assert_eq!(split_path("/").1, None);
    assert_eq!(path_basename("dir/file.rs"), "file.rs");
    assert_eq!(path_basename(".."), "..");
    assert_eq!(path_extension("x/archive.tar.gz"), Some("gz".to_string()));
    assert_eq!(path_extension(".gitignore"), None);
    assert_eq!(path_extension("noext"), None);
    assert_eq!(path_extension("trailing."), Some(String::new()));
}
