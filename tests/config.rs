use vitax::cli::Args;
use vitax::config::{Config, ConfigError};

fn strings(v: &[&str]) -> Vec<String> {
    v.iter().map(|s| s.to_string()).collect()
}

fn args(paths: &[&str], depth: usize, exts: &[&str]) -> Args {
    Args {
        paths: strings(paths),
        max_depth: depth,
        extensions: strings(exts),
        ignore: vec![],
        show_hidden: false,
        verbose: false,
    }
}

#[test]
fn args_validation() {
    assert_eq!(args(&[], 10, &[]).validate(), Err("no input files".to_string()));
    assert_eq!(args(&["."], 0, &[]).validate(), Err("depth must be at least 1".to_string()));
    assert_eq!(args(&["."], 1, &[]).validate(), Ok(()));
}

#[test]
fn args_ignore_rules() {
    let mut a = args(&["."], 1, &[]);
    a.ignore = strings(&["*.c"]);
    assert!(a.should_ignore("src/x.c"));
    assert!(a.should_ignore("src/.cache/y"));
    assert!(!a.should_ignore("src/y.h"));
    a.show_hidden = true;
    assert!(!a.should_ignore("src/.cache/y"));
}

#[test]
fn extension_checks() {
    assert!(Config::validate_extensions(&strings(&["rs", "toml"])).is_ok());
    assert!(matches!(
        Config::validate_extensions(&strings(&["rs", ""])),
        Err(ConfigError::EmptyExtension)
    ));
    match Config::validate_extensions(&strings(&[".rs"])) {
        Err(ConfigError::InvalidExtension(e, why)) => {
            assert_eq!(e, ".rs");
            assert_eq!(why, "should not contain dots (use 'rs' not '.rs')");
        }
        _ => panic!("expected a dot error"),
    }
    match Config::validate_extensions(&strings(&["r*"])) {
        Err(ConfigError::InvalidExtension(e, why)) => {
            assert_eq!(e, "r*");
            assert_eq!(why, "should not contain wildcards");
        }
        _ => panic!("expected a wildcard error"),
    }
}

#[test]
fn argument_checks_in_order() {
    let a = args(&[], 0, &[""]);
    assert!(matches!(Config::validate_with_presence(&a, &vec![]), Err(ConfigError::NoInputFiles)));
    let a = args(&["x"], 0, &[""]);
    assert!(matches!(
        Config::validate_with_presence(&a, &vec![false]),
        Err(ConfigError::InvalidDepth)
    ));
    let a = args(&["x", "y", "z"], 3, &[""]);
    match Config::validate_with_presence(&a, &vec![true, false, false]) {
        Err(ConfigError::PathNotFound(p)) => assert_eq!(p, "y"),
        _ => panic!("expected the first missing path"),
    }
    assert!(matches!(
        Config::validate_with_presence(&a, &vec![true, true, true]),
        Err(ConfigError::EmptyExtension)
    ));
}

#[test]
fn config_from_args() {
    match Config::from_args(args(&["/no/such/path/for/this/test"], 2, &[])) {
        Err(ConfigError::PathNotFound(p)) => assert_eq!(p, "/no/such/path/for/this/test"),
        _ => panic!("expected a missing path"),
    }
    let mut a = args(&["/"], 4, &["rs"]);
    a.verbose = true;
    let c = Config::from_args(a).ok().unwrap();
    assert_eq!(c.paths, strings(&["/"]));
    assert_eq!(c.max_depth, 4);
    assert!(c.verbose);
    assert!(c.has_filters());
    assert_eq!(c.describe_filters(), "Filters: extensions: rs; hiding hidden files");
}

#[test]
fn config_error_messages() {
    assert_eq!(ConfigError::NoInputFiles.message(), "no input files");
    assert_eq!(ConfigError::InvalidDepth.message(), "depth must be at least 1");
    assert_eq!(ConfigError::PathNotFound("p".to_string()).message(), "path not found: p");
    assert_eq!(ConfigError::EmptyExtension.message(), "empty extension is not allowed");
    assert_eq!(
        ConfigError::InvalidExtension("r*".to_string(), "bad".to_string()).message(),
        "invalid extension 'r*': bad"
    );
}
