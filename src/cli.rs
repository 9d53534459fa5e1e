//! The arguments of a run, and their first checks.

use vstd::prelude::*;
use crate::filter::{ignored, path_is_ignored, views};

verus! {

/// The arguments of a run.
pub struct Args {
    /// Input paths to analyse.
    pub paths: Vec<String>,
    /// Maximum recursion depth.
    pub max_depth: usize,
    /// File extensions to include; empty includes all.
    pub extensions: Vec<String>,
    /// Glob patterns of paths to ignore.
    pub ignore: Vec<String>,
    /// Whether hidden files and directories are shown.
    pub show_hidden: bool,
    /// Whether skipped files and read errors are reported.
    pub verbose: bool,
}

impl Args {
    /// Fails when no path is given, or when the depth is zero.
    pub fn validate(&self) -> (r: Result<(), String>)
        ensures
            self.paths@.len() == 0 ==> (r matches Err(m) && m@ == "no input files"@),
            self.paths@.len() > 0 && self.max_depth == 0 ==> (r matches Err(m) && m@
                == "depth must be at least 1"@),
            self.paths@.len() > 0 && self.max_depth > 0 ==> r is Ok,
    {
        if self.paths.len() == 0 {
            return Err("no input files".to_string());
        }
        if self.max_depth == 0 {
            return Err("depth must be at least 1".to_string());
        }
        Ok(())
    }

    /// Whether a path is ignored by the ignore patterns or, unless hidden
    /// entries are shown, by a component that starts with a dot.
    pub fn should_ignore(&self, path: &str) -> (r: bool)
        ensures
            r == ignored(views(self.ignore@), self.show_hidden, path@),
    {
        path_is_ignored(&self.ignore, self.show_hidden, path)
    }
}

} // verus!
