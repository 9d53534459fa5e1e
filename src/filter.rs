//! Deciding which paths are shown: an extension allow-list, glob patterns to
//! ignore, and a rule for hidden entries.

use vstd::prelude::*;
use crate::foreign::{glob_match, glob_matches, lowercase_of, path_is_dir, to_lowercase};
use crate::text::{join, join_strings};
use crate::pathname::{basename, components, extension, path_basename, path_extension, split_path};

verus! {

/// The views of a list of strings.
pub open spec fn views(v: Seq<String>) -> Seq<Seq<char>> {
    v.map_values(|s: String| s@)
}

/// Some pattern of `patterns` matches `text`.
pub open spec fn matches_any(patterns: Seq<Seq<char>>, text: Seq<char>) -> bool {
    exists|i: int| 0 <= i < patterns.len() && glob_match(#[trigger] patterns[i], text)
}

/// A name that starts with a dot.
pub open spec fn is_hidden_name(name: Seq<char>) -> bool {
    name.len() > 0 && name[0] == '.'
}

/// A component of `path` that a pattern matches, or that is hidden while
/// hidden entries are not shown.
pub open spec fn has_rejected_component(
    patterns: Seq<Seq<char>>,
    show_hidden: bool,
    path: Seq<char>,
) -> bool {
    exists|j: int|
        0 <= j < components(path).len() && (matches_any(patterns, #[trigger] components(path)[j])
            || (!show_hidden && is_hidden_name(components(path)[j])))
}

/// A path is ignored when one of its components is rejected, or a pattern
/// matches the whole path or its base name.
pub open spec fn ignored(patterns: Seq<Seq<char>>, show_hidden: bool, path: Seq<char>) -> bool {
    has_rejected_component(patterns, show_hidden, path) || matches_any(patterns, path)
        || matches_any(patterns, basename(path))
}

/// The allow-list admits the path: it is empty, or the path's extension equals
/// one of its entries once both are lowercased.
pub open spec fn extension_allowed(extensions: Seq<Seq<char>>, path: Seq<char>) -> bool {
    extensions.len() == 0 || match extension(path) {
        Some(e) => exists|i: int|
            0 <= i < extensions.len() && lowercase_of(#[trigger] extensions[i]) == lowercase_of(e),
        None => false,
    }
}

/// The clauses that describe active filters, in order.
pub open spec fn describe_parts(
    extensions: Seq<Seq<char>>,
    ignore_patterns: Seq<Seq<char>>,
    show_hidden: bool,
) -> Seq<Seq<char>> {
    let a: Seq<Seq<char>> = if extensions.len() > 0 {
        seq!["extensions: "@ + join(extensions, ", "@)]
    } else {
        Seq::empty()
    };
    let b: Seq<Seq<char>> = if ignore_patterns.len() > 0 {
        seq!["ignoring: "@ + join(ignore_patterns, ", "@)]
    } else {
        Seq::empty()
    };
    let c: Seq<Seq<char>> = if !show_hidden {
        seq!["hiding hidden files"@]
    } else {
        Seq::empty()
    };
    a + b + c
}

/// A one-line description of the active filters.
pub open spec fn describe_text(
    extensions: Seq<Seq<char>>,
    ignore_patterns: Seq<Seq<char>>,
    show_hidden: bool,
) -> Seq<char> {
    let parts = describe_parts(extensions, ignore_patterns, show_hidden);
    if parts.len() == 0 {
        "no filters applied"@
    } else {
        "Filters: "@ + join(parts, "; "@)
    }
}

/// Whether some pattern matches `text`.
pub fn matches_any_pattern(patterns: &Vec<String>, text: &str) -> (r: bool)
    ensures
        r == matches_any(views(patterns@), text@),
{
    let mut i: usize = 0;
    while i < patterns.len()
        invariant
            i <= patterns@.len(),
            forall|k: int| 0 <= k < i ==> !glob_match(#[trigger] views(patterns@)[k], text@),
        decreases patterns@.len() - i,
    {
        if glob_matches(patterns[i].as_str(), text) {
            assert(views(patterns@)[i as int] == patterns@[i as int]@);
            return true;
        }
        assert(views(patterns@)[i as int] == patterns@[i as int]@);
        i += 1;
    }
    false
}

/// Whether a path is ignored by `patterns` and the hidden-entry rule.
pub fn path_is_ignored(patterns: &Vec<String>, show_hidden: bool, path: &str) -> (r: bool)
    ensures
        r == ignored(views(patterns@), show_hidden, path@),
{
    let ghost pats = views(patterns@);
    let (comps, _) = split_path(path);
    let mut j: usize = 0;
    while j < comps.len()
        invariant
            j <= comps@.len(),
            pats == views(patterns@),
            comps@.len() == components(path@).len(),
            forall|k: int| 0 <= k < comps@.len() ==> #[trigger] comps@[k]@ == components(path@)[k],
            forall|k: int|
                0 <= k < j ==> !(matches_any(pats, #[trigger] components(path@)[k]) || (
                !show_hidden && is_hidden_name(components(path@)[k]))),
        decreases comps@.len() - j,
    {
        let name = comps[j].as_str();
        assert(name@ == components(path@)[j as int]);
        if matches_any_pattern(patterns, name) {
            return true;
        }
        if !show_hidden && name.unicode_len() > 0 && name.get_char(0) == '.' {
            return true;
        }
        j += 1;
    }
    let base = path_basename(path);
    matches_any_pattern(patterns, path) || matches_any_pattern(patterns, base.as_str())
}

/// Filters paths by extension, ignore patterns and hidden-entry visibility.
#[derive(Debug, Clone)]
pub struct FileFilter {
    extensions: Vec<String>,
    ignore_patterns: Vec<String>,
    show_hidden: bool,
}

impl FileFilter {
    /// The extension allow-list; empty admits every extension.
    pub closed spec fn spec_extensions(&self) -> Seq<Seq<char>> {
        views(self.extensions@)
    }

    /// The glob patterns of paths to ignore.
    pub closed spec fn spec_ignore_patterns(&self) -> Seq<Seq<char>> {
        views(self.ignore_patterns@)
    }

    /// Whether entries whose name starts with a dot are shown.
    pub closed spec fn spec_show_hidden(&self) -> bool {
        self.show_hidden
    }

    /// The path is rejected by the ignore patterns or the hidden-entry rule.
    pub open spec fn spec_ignores(&self, path: Seq<char>) -> bool {
        ignored(self.spec_ignore_patterns(), self.spec_show_hidden(), path)
    }

    /// The decision for a path, given whether it is a directory.
    pub open spec fn spec_admits(&self, path: Seq<char>, is_dir: bool) -> bool {
        !self.spec_ignores(path) && (is_dir || extension_allowed(self.spec_extensions(), path))
    }

    /// Any filter is active.
    pub open spec fn spec_has_filters(&self) -> bool {
        self.spec_extensions().len() > 0 || self.spec_ignore_patterns().len() > 0
            || !self.spec_show_hidden()
    }

    /// A filter with the given allow-list, ignore patterns and hidden-entry
    /// visibility.
    pub fn new(extensions: Vec<String>, ignore_patterns: Vec<String>, show_hidden: bool) -> (r:
        Self)
        ensures
            r.spec_extensions() == views(extensions@),
            r.spec_ignore_patterns() == views(ignore_patterns@),
            r.spec_show_hidden() == show_hidden,
    {
        FileFilter { extensions, ignore_patterns, show_hidden }
    }

    /// Whether a path is processed, given whether it is a directory: it must
    /// not be ignored, and a file must pass the extension allow-list.
    pub fn should_process_entry(&self, path: &str, is_dir: bool) -> (r: bool)
        ensures
            r == self.spec_admits(path@, is_dir),
    {
        if self.should_ignore(path) {
            return false;
        }
        if is_dir {
            return true;
        }
        self.matches_extension(path)
    }

    /// Whether a path is processed. Whether it is a directory is asked of the
    /// file system; an ignored path is always rejected, and a path that passes
    /// the allow-list and is not ignored is always accepted.
    pub fn should_process(&self, path: &str) -> (r: bool)
        ensures
            self.spec_ignores(path@) ==> !r,
            !self.spec_ignores(path@) && extension_allowed(self.spec_extensions(), path@) ==> r,
            r == self.spec_admits(path@, true) || r == self.spec_admits(path@, false),
    {
        let is_dir = path_is_dir(path);
        self.should_process_entry(path, is_dir)
    }

    /// Whether the path's extension passes the allow-list, ignoring case.
    pub fn matches_extension(&self, path: &str) -> (r: bool)
        ensures
            r == extension_allowed(self.spec_extensions(), path@),
    {
        if self.extensions.len() == 0 {
            return true;
        }
        let ext = match path_extension(path) {
            Some(e) => e,
            None => {
                return false;
            },
        };
        let lower = to_lowercase(ext.as_str());
        let ghost exts = self.spec_extensions();
        let mut i: usize = 0;
        while i < self.extensions.len()
            invariant
                i <= self.extensions@.len(),
                exts == views(self.extensions@),
                lower@ == lowercase_of(ext@),
                extension(path@) == Some(ext@),
                forall|k: int| 0 <= k < i ==> lowercase_of(#[trigger] exts[k]) != lowercase_of(ext@),
            decreases self.extensions@.len() - i,
        {
            let candidate = to_lowercase(self.extensions[i].as_str());
            assert(exts[i as int] == self.extensions@[i as int]@);
            if candidate == lower {
                return true;
            }
            i += 1;
        }
        false
    }

    /// Whether the path is ignored by the patterns or the hidden-entry rule.
    pub fn should_ignore(&self, path: &str) -> (r: bool)
        ensures
            r == self.spec_ignores(path@),
    {
        path_is_ignored(&self.ignore_patterns, self.show_hidden, path)
    }

    /// Whether some ignore pattern matches `text`.
    pub fn matches_ignore_pattern(&self, text: &str) -> (r: bool)
        ensures
            r == matches_any(self.spec_ignore_patterns(), text@),
    {
        matches_any_pattern(&self.ignore_patterns, text)
    }

    /// A one-line description of the active filters.
    pub fn describe(&self) -> (r: String)
        ensures
            r@ == describe_text(
                self.spec_extensions(),
                self.spec_ignore_patterns(),
                self.spec_show_hidden(),
            ),
    {
        let ghost e = self.spec_extensions();
        let ghost g = self.spec_ignore_patterns();
        let mut parts: Vec<String> = Vec::new();
        let ghost mut expect: Seq<Seq<char>> = Seq::empty();
        if self.extensions.len() > 0 {
            let mut part = "extensions: ".to_string();
            let list = join_strings(&self.extensions, ", ");
            part.append(list.as_str());
            parts.push(part);
            proof {
                expect = expect + seq!["extensions: "@ + join(e, ", "@)];
            }
        }
        assert(parts@.map_values(|s: String| s@) =~= expect);
        if self.ignore_patterns.len() > 0 {
            let mut part = "ignoring: ".to_string();
            let list = join_strings(&self.ignore_patterns, ", ");
            part.append(list.as_str());
            parts.push(part);
            proof {
                expect = expect + seq!["ignoring: "@ + join(g, ", "@)];
            }
        }
        assert(parts@.map_values(|s: String| s@) =~= expect);
        if !self.show_hidden {
            parts.push("hiding hidden files".to_string());
            proof {
                expect = expect + seq!["hiding hidden files"@];
            }
        }
        assert(parts@.map_values(|s: String| s@) =~= expect);
        assert(expect =~= describe_parts(e, g, self.show_hidden));
        if parts.len() == 0 {
            "no filters applied".to_string()
        } else {
            let mut r = "Filters: ".to_string();
            let body = join_strings(&parts, "; ");
            r.append(body.as_str());
            r
        }
    }

    /// Whether any filter is active.
    pub fn has_filters(&self) -> (r: bool)
        ensures
            r == self.spec_has_filters(),
    {
        self.extensions.len() > 0 || self.ignore_patterns.len() > 0 || !self.show_hidden
    }

    /// The extension allow-list.
    pub fn extensions(&self) -> (r: &[String])
        ensures
            views(r@) == self.spec_extensions(),
    {
        self.extensions.as_slice()
    }
}

/// Extension matching ignores case: two paths whose extensions lowercase to
/// the same text are admitted by an allow-list alike.
pub proof fn law_extension_case_insensitive(
    extensions: Seq<Seq<char>>,
    p1: Seq<char>,
    p2: Seq<char>,
    e1: Seq<char>,
    e2: Seq<char>,
)
    requires
        extension(p1) == Some(e1),
        extension(p2) == Some(e2),
        lowercase_of(e1) == lowercase_of(e2),
    ensures
        extension_allowed(extensions, p1) == extension_allowed(extensions, p2),
{
}

/// Rejection by an ignore pattern or by the hidden-entry rule wins over the
/// extension allow-list, for files and directories alike.
pub proof fn law_ignore_dominates(f: FileFilter, path: Seq<char>, is_dir: bool)
    requires
        f.spec_ignores(path),
    ensures
        !f.spec_admits(path, is_dir),
{
}

/// A hidden component anywhere along the path, not only its last one, makes
/// the path ignored while hidden entries are not shown.
pub proof fn law_hidden_component_rejected(f: FileFilter, path: Seq<char>, j: int)
    requires
        !f.spec_show_hidden(),
        0 <= j < components(path).len(),
        is_hidden_name(components(path)[j]),
    ensures
        f.spec_ignores(path),
        !f.spec_admits(path, true),
        !f.spec_admits(path, false),
{
    assert(has_rejected_component(f.spec_ignore_patterns(), f.spec_show_hidden(), path));
}

} // verus!
