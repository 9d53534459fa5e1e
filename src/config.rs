//! The configuration of a run, checked and built from its arguments.

use vstd::prelude::*;
use crate::cli::Args;
use crate::filter::{views, FileFilter};
use crate::foreign::path_exists;
use crate::text::str_contains_char;

verus! {

/// The configuration of a run.
#[derive(Debug)]
pub struct Config {
    /// Paths to process.
    pub paths: Vec<String>,
    /// Maximum recursion depth.
    pub max_depth: usize,
    /// The filter that decides which paths are shown.
    pub filter: FileFilter,
    /// Whether skipped files and read errors are reported.
    pub verbose: bool,
}

/// Why a configuration is refused.
#[derive(Debug, Clone)]
pub enum ConfigError {
    /// No input path was given.
    NoInputFiles,
    /// The depth is zero.
    InvalidDepth,
    /// An input path does not exist.
    PathNotFound(String),
    /// An extension is empty.
    EmptyExtension,
    /// An extension is malformed: the extension, and the reason.
    InvalidExtension(String, String),
}

impl ConfigError {
    /// A sentence describing the error.
    pub fn message(&self) -> (r: String)
        ensures
            match self {
                ConfigError::NoInputFiles => r@ == "no input files"@,
                ConfigError::InvalidDepth => r@ == "depth must be at least 1"@,
                ConfigError::PathNotFound(p) => r@ == "path not found: "@ + p@,
                ConfigError::EmptyExtension => r@ == "empty extension is not allowed"@,
                ConfigError::InvalidExtension(e, why) => r@ == "invalid extension '"@ + e@
                    + "': "@ + why@,
            },
    {
        match self {
            ConfigError::NoInputFiles => "no input files".to_string(),
            ConfigError::InvalidDepth => "depth must be at least 1".to_string(),
            ConfigError::PathNotFound(p) => {
                let mut r = "path not found: ".to_string();
                r.append(p.as_str());
                r
            },
            ConfigError::EmptyExtension => "empty extension is not allowed".to_string(),
            ConfigError::InvalidExtension(e, why) => {
                let mut r = "invalid extension '".to_string();
                r.append(e.as_str());
                r.append("': ");
                r.append(why.as_str());
                r
            },
        }
    }
}

/// What is wrong with an extension: 0 nothing, 1 it is empty, 2 it holds a
/// dot, 3 it holds a wildcard. The first that applies counts.
pub open spec fn extension_fault(e: Seq<char>) -> nat {
    if e.len() == 0 {
        1
    } else if e.contains('.') {
        2
    } else if e.contains('*') {
        3
    } else {
        0
    }
}

/// `err` is the error that reports `fault` of extension `e`.
pub open spec fn reports_fault(e: Seq<char>, fault: nat, err: ConfigError) -> bool {
    match err {
        ConfigError::EmptyExtension => fault == 1,
        ConfigError::InvalidExtension(x, why) => x@ == e && ((fault == 2 && why@
            == "should not contain dots (use 'rs' not '.rs')"@) || (fault == 3 && why@
            == "should not contain wildcards"@)),
        _ => false,
    }
}

/// `r` is the outcome of checking the extensions in order: the first faulty
/// one is reported, and all are fine when none is.
pub open spec fn extensions_outcome(exts: Seq<Seq<char>>, r: Result<(), ConfigError>) -> bool {
    match r {
        Ok(()) => forall|i: int| 0 <= i < exts.len() ==> extension_fault(#[trigger] exts[i]) == 0,
        Err(err) => exists|i: int|
            0 <= i < exts.len() && (forall|k: int|
                0 <= k < i ==> extension_fault(#[trigger] exts[k]) == 0) && extension_fault(
                #[trigger] exts[i],
            ) != 0 && reports_fault(exts[i], extension_fault(exts[i]), err),
    }
}

/// `r` is the outcome of checking arguments in order: paths given, depth
/// positive, every path present (`present` says which are), extensions
/// well-formed.
pub open spec fn validation_outcome(
    paths: Seq<Seq<char>>,
    max_depth: usize,
    exts: Seq<Seq<char>>,
    present: Seq<bool>,
    r: Result<(), ConfigError>,
) -> bool {
    if paths.len() == 0 {
        r == Err::<(), ConfigError>(ConfigError::NoInputFiles)
    } else if max_depth == 0 {
        r == Err::<(), ConfigError>(ConfigError::InvalidDepth)
    } else if exists|i: int| 0 <= i < present.len() && !#[trigger] present[i] {
        exists|i: int|
            0 <= i < present.len() && !#[trigger] present[i] && (forall|k: int|
                0 <= k < i ==> #[trigger] present[k]) && (r matches Err(
                ConfigError::PathNotFound(p),
            ) && p@ == paths[i])
    } else {
        extensions_outcome(exts, r)
    }
}

/// The outcome of building a configuration, without the configuration.
pub open spec fn outcome_of(r: Result<Config, ConfigError>) -> Result<(), ConfigError> {
    match r {
        Ok(_) => Ok(()),
        Err(e) => Err(e),
    }
}

impl Config {
    /// Checks the extensions in order and reports the first faulty one.
    pub fn validate_extensions(exts: &Vec<String>) -> (r: Result<(), ConfigError>)
        ensures
            extensions_outcome(views(exts@), r),
    {
        let ghost v = views(exts@);
        let mut i: usize = 0;
        while i < exts.len()
            invariant
                i <= exts@.len(),
                v == views(exts@),
                forall|k: int| 0 <= k < i ==> extension_fault(#[trigger] v[k]) == 0,
            decreases exts@.len() - i,
        {
            let e = exts[i].as_str();
            assert(v[i as int] == e@);
            if e.unicode_len() == 0 {
                return Err(ConfigError::EmptyExtension);
            }
            if str_contains_char(e, '.') {
                return Err(
                    ConfigError::InvalidExtension(
                        e.to_string(),
                        "should not contain dots (use 'rs' not '.rs')".to_string(),
                    ),
                );
            }
            if str_contains_char(e, '*') {
                return Err(
                    ConfigError::InvalidExtension(
                        e.to_string(),
                        "should not contain wildcards".to_string(),
                    ),
                );
            }
            i += 1;
        }
        Ok(())
    }

    /// Checks arguments given which of their paths are present.
    pub fn validate_with_presence(args: &Args, present: &Vec<bool>) -> (r: Result<
        (),
        ConfigError,
    >)
        requires
            present@.len() == args.paths@.len(),
        ensures
            validation_outcome(
                views(args.paths@),
                args.max_depth,
                views(args.extensions@),
                present@,
                r,
            ),
    {
        if args.paths.len() == 0 {
            return Err(ConfigError::NoInputFiles);
        }
        if args.max_depth == 0 {
            return Err(ConfigError::InvalidDepth);
        }
        let mut i: usize = 0;
        while i < present.len()
            invariant
                i <= present@.len(),
                present@.len() == args.paths@.len(),
                args.paths@.len() > 0,
                args.max_depth > 0,
                forall|k: int| 0 <= k < i ==> #[trigger] present@[k],
            decreases present@.len() - i,
        {
            if !present[i] {
                let r = Err(ConfigError::PathNotFound(args.paths[i].clone()));
                assert(views(args.paths@)[i as int] == args.paths@[i as int]@);
                assert(!present@[i as int]);
                return r;
            }
            i += 1;
        }
        Self::validate_extensions(&args.extensions)
    }

    /// Checks arguments, asking the file system whether each path exists.
    pub fn validate(args: &Args) -> (r: Result<(), ConfigError>)
        ensures
            exists|present: Seq<bool>|
                present.len() == args.paths@.len() && #[trigger] validation_outcome(
                    views(args.paths@),
                    args.max_depth,
                    views(args.extensions@),
                    present,
                    r,
                ),
    {
        let mut present: Vec<bool> = Vec::new();
        let mut i: usize = 0;
        while i < args.paths.len()
            invariant
                i <= args.paths@.len(),
                present@.len() == i,
            decreases args.paths@.len() - i,
        {
            present.push(path_exists(args.paths[i].as_str()));
            i += 1;
        }
        let r = Self::validate_with_presence(args, &present);
        assert(validation_outcome(
            views(args.paths@),
            args.max_depth,
            views(args.extensions@),
            present@,
            r,
        ));
        r
    }

    /// Builds the configuration from checked arguments.
    pub fn from_args(args: Args) -> (r: Result<Self, ConfigError>)
        ensures
            exists|present: Seq<bool>|
                present.len() == args.paths@.len() && #[trigger] validation_outcome(
                    views(args.paths@),
                    args.max_depth,
                    views(args.extensions@),
                    present,
                    outcome_of(r),
                ),
            r matches Ok(c) ==> {
                &&& c.paths@ == args.paths@
                &&& c.max_depth == args.max_depth
                &&& c.verbose == args.verbose
                &&& c.filter.spec_extensions() == views(args.extensions@)
                &&& c.filter.spec_ignore_patterns() == views(args.ignore@)
                &&& c.filter.spec_show_hidden() == args.show_hidden
            },
    {
        let checked = Self::validate(&args);
        let ghost present = choose|present: Seq<bool>|
            present.len() == args.paths@.len() && #[trigger] validation_outcome(
                views(args.paths@),
                args.max_depth,
                views(args.extensions@),
                present,
                checked,
            );
        match checked {
            Ok(()) => {
                let ghost paths = views(args.paths@);
                let ghost exts = views(args.extensions@);
                let filter = FileFilter::new(args.extensions, args.ignore, args.show_hidden);
                let r = Ok(
                    Config {
                        paths: args.paths,
                        max_depth: args.max_depth,
                        filter,
                        verbose: args.verbose,
                    },
                );
                assert(validation_outcome(paths, args.max_depth, exts, present, outcome_of(r)));
                r
            },
            Err(e) => {
                let r = Err(e);
                assert(outcome_of(r) == checked);
                assert(validation_outcome(
                    views(args.paths@),
                    args.max_depth,
                    views(args.extensions@),
                    present,
                    outcome_of(r),
                ));
                r
            },
        }
    }

    /// Whether any filter is active.
    pub fn has_filters(&self) -> (r: bool)
        ensures
            r == self.filter.spec_has_filters(),
    {
        self.filter.has_filters()
    }

    /// A description of the active filters.
    pub fn describe_filters(&self) -> (r: String)
        ensures
            r@ == crate::filter::describe_text(
                self.filter.spec_extensions(),
                self.filter.spec_ignore_patterns(),
                self.filter.spec_show_hidden(),
            ),
    {
        self.filter.describe()
    }
}

} // verus!
