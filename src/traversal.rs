//! Walking a directory tree to a bounded depth. The walk is a state machine:
//! it says which directory to list next, is handed that directory's entries,
//! and collects the files in depth-first order, each directory's entries in
//! the order given.

use vstd::prelude::*;
use vstd::multiset::Multiset;
use crate::foreign::{path_exists, path_is_dir, path_is_file};

verus! {

/// The depth bound when none is given.
pub const DEFAULT_WALK_DEPTH: usize = 100;

/// One entry of a directory listing.
#[derive(Debug, Clone)]
pub struct DirectoryEntry {
    pub name: String,
    pub path: String,
    pub is_directory: bool,
    pub is_file: bool,
    pub size: Option<u64>,
}

/// What a path names on disk.
#[derive(Debug, Clone, Copy, PartialEq, Eq, Structural)]
pub enum PathType {
    File,
    Directory,
    Other,
}

/// The kind of a path from what the file system says of it; `None` where it
/// does not exist.
pub open spec fn path_type_of(found: bool, is_dir: bool, is_file: bool) -> Option<PathType> {
    if !found {
        None
    } else if is_dir {
        Some(PathType::Directory)
    } else if is_file {
        Some(PathType::File)
    } else {
        Some(PathType::Other)
    }
}

/// Classifies a path from what the file system says of it.
pub fn classify_path(found: bool, is_dir: bool, is_file: bool) -> (r: Option<PathType>)
    ensures
        r == path_type_of(found, is_dir, is_file),
{
    if !found {
        None
    } else if is_dir {
        Some(PathType::Directory)
    } else if is_file {
        Some(PathType::File)
    } else {
        Some(PathType::Other)
    }
}

/// Asks the file system what `path` names; fails where it does not exist.
pub fn check_path_type(path: &str) -> (r: Result<PathType, String>)
    ensures
        r matches Err(m) ==> m@ == "Path does not exist"@,
{
    let found = path_exists(path);
    if !found {
        return Err("Path does not exist".to_string());
    }
    let is_dir = path_is_dir(path);
    let is_file = path_is_file(path);
    match classify_path(found, is_dir, is_file) {
        Some(t) => Ok(t),
        None => Err("Path does not exist".to_string()),
    }
}

/// `a` comes before `b` in code-point order, a proper prefix first.
pub open spec fn name_lt(a: Seq<char>, b: Seq<char>) -> bool
    decreases a.len(),
{
    if a.len() == 0 {
        b.len() > 0
    } else if b.len() == 0 {
        false
    } else if a[0] != b[0] {
        (a[0] as u32) < (b[0] as u32)
    } else {
        name_lt(a.skip(1), b.skip(1))
    }
}

/// Listing order: directories before everything else, then by name.
pub open spec fn entry_lt(a: DirectoryEntry, b: DirectoryEntry) -> bool {
    (a.is_directory && !b.is_directory) || (a.is_directory == b.is_directory && name_lt(
        a.name@,
        b.name@,
    ))
}

/// No entry comes before one that precedes it in `s`.
pub open spec fn entries_sorted(s: Seq<DirectoryEntry>) -> bool {
    forall|i: int, k: int| 0 <= i < k < s.len() ==> !entry_lt(#[trigger] s[k], #[trigger] s[i])
}

proof fn lemma_name_lt_transitive(a: Seq<char>, b: Seq<char>, c: Seq<char>)
    requires
        name_lt(a, b),
        name_lt(b, c),
    ensures
        name_lt(a, c),
    decreases a.len(),
{
    if a.len() > 0 && b.len() > 0 && c.len() > 0 && a[0] == b[0] && b[0] == c[0] {
        lemma_name_lt_transitive(a.skip(1), b.skip(1), c.skip(1));
    }
}

proof fn lemma_name_lt_asymmetric(a: Seq<char>, b: Seq<char>)
    requires
        name_lt(a, b),
    ensures
        !name_lt(b, a),
    decreases a.len(),
{
    if a.len() > 0 && b.len() > 0 && a[0] == b[0] {
        lemma_name_lt_asymmetric(a.skip(1), b.skip(1));
    }
}

proof fn lemma_entry_lt_asymmetric(a: DirectoryEntry, b: DirectoryEntry)
    requires
        entry_lt(a, b),
    ensures
        !entry_lt(b, a),
{
    if a.is_directory == b.is_directory {
        lemma_name_lt_asymmetric(a.name@, b.name@);
    }
}

proof fn lemma_entry_lt_transitive(a: DirectoryEntry, b: DirectoryEntry, c: DirectoryEntry)
    requires
        entry_lt(a, b),
        entry_lt(b, c),
    ensures
        entry_lt(a, c),
{
    if a.is_directory == b.is_directory && b.is_directory == c.is_directory {
        lemma_name_lt_transitive(a.name@, b.name@, c.name@);
    }
}

/// Whether name `a` comes before name `b`.
pub fn name_less(a: &str, b: &str) -> (r: bool)
    ensures
        r == name_lt(a@, b@),
{
    let n = a.unicode_len();
    let m = b.unicode_len();
    let mut i: usize = 0;
    assert(a@.skip(0) =~= a@);
    assert(b@.skip(0) =~= b@);
    while i < n && i < m
        invariant
            n == a@.len(),
            m == b@.len(),
            i <= n,
            i <= m,
            name_lt(a@, b@) == name_lt(a@.skip(i as int), b@.skip(i as int)),
        decreases n - i,
    {
        let x = a.get_char(i);
        let y = b.get_char(i);
        if x != y {
            return (x as u32) < (y as u32);
        }
        assert(a@.skip(i as int).skip(1) =~= a@.skip(i + 1));
        assert(b@.skip(i as int).skip(1) =~= b@.skip(i + 1));
        i += 1;
    }
    i == n && i < m
}

/// Whether entry `a` comes before entry `b` in listing order.
pub fn entry_less(a: &DirectoryEntry, b: &DirectoryEntry) -> (r: bool)
    ensures
        r == entry_lt(*a, *b),
{
    if a.is_directory != b.is_directory {
        a.is_directory
    } else {
        name_less(a.name.as_str(), b.name.as_str())
    }
}

/// Puts a listing in order: directories first, each group by name; entries
/// that tie keep their order.
pub fn sort_entries(entries: Vec<DirectoryEntry>) -> (r: Vec<DirectoryEntry>)
    ensures
        entries_sorted(r@),
        r@.to_multiset() == entries@.to_multiset(),
{
    broadcast use vstd::seq_lib::group_to_multiset_ensures, vstd::seq_lib::to_multiset_insert;

    let mut input = entries;
    let mut out: Vec<DirectoryEntry> = Vec::new();
    assert(out@.to_multiset() =~= Multiset::<DirectoryEntry>::empty());
    while input.len() > 0
        invariant
            entries_sorted(out@),
            out@.to_multiset().add(input@.to_multiset()) == entries@.to_multiset(),
        decreases input@.len(),
    {
        let ghost old_out = out@;
        let ghost old_in = input@;
        let e = input.remove(0);
        let mut j: usize = 0;
        while j < out.len() && !entry_less(&e, &out[j])
            invariant
                out@ == old_out,
                old_in.len() > 0,
                e == old_in[0],
                input@ == old_in.remove(0),
                old_out.to_multiset().add(old_in.to_multiset()) == entries@.to_multiset(),
                entries_sorted(old_out),
                j <= out@.len(),
                forall|i: int| 0 <= i < j ==> !entry_lt(e, #[trigger] out@[i]),
            decreases out@.len() - j,
        {
            j += 1;
        }
        proof {
            assert forall|k: int| j <= k < old_out.len() implies !entry_lt(
                #[trigger] old_out[k],
                e,
            ) by {
                if entry_lt(old_out[k], e) {
                    if k == j {
                        lemma_entry_lt_asymmetric(e, old_out[k]);
                    }
                    if k > j {
                        assert(!entry_lt(old_out[k], old_out[j as int]));
                    }
                    lemma_entry_lt_transitive(old_out[k], e, old_out[j as int]);
                }
            }
        }
        out.insert(j, e);
        proof {
            let s = out@;
            assert(s == old_out.insert(j as int, e));
            assert forall|i: int, k: int| 0 <= i < k < s.len() implies !entry_lt(
                #[trigger] s[k],
                #[trigger] s[i],
            ) by {
                if i < j && k == j {
                } else if i < j && k > j {
                    assert(s[k] == old_out[k - 1]);
                } else if i == j {
                    assert(s[k] == old_out[k - 1]);
                } else if i > j {
                    assert(s[i] == old_out[i - 1]);
                    assert(s[k] == old_out[k - 1]);
                }
            }
            vstd::seq_lib::to_multiset_remove(old_in, 0);
            vstd::seq_lib::to_multiset_insert(old_out, j as int, e);
            assert(old_in.contains(e));
            vstd::seq_lib::to_multiset_contains(old_in, e);
            assert(out@.to_multiset().add(input@.to_multiset()) =~= entries@.to_multiset());
        }
    }
    proof {
        assert(input@.len() == 0);
        assert(input@.to_multiset() =~= Multiset::<DirectoryEntry>::empty());
        assert(out@.to_multiset().add(Multiset::<DirectoryEntry>::empty()) =~= out@.to_multiset());
    }
    out
}

/// A pending task: whether it is a directory, its path, and its depth.
pub type TaskView = (bool, Seq<char>, usize);

pub open spec fn task_view(t: (bool, String, usize)) -> TaskView {
    (t.0, t.1@, t.2)
}

/// The tasks that a listing at `depth` adds, in push order: the first entry
/// ends on top. Files become file tasks, directories directory tasks one
/// level deeper, anything else nothing.
pub open spec fn entry_tasks(entries: Seq<DirectoryEntry>, depth: usize) -> Seq<TaskView>
    decreases entries.len(),
{
    if entries.len() == 0 {
        Seq::empty()
    } else {
        let e = entries[0];
        let rest = entry_tasks(entries.skip(1), depth);
        if e.is_file {
            rest.push((false, e.path@, 0usize))
        } else if e.is_directory {
            rest.push((true, e.path@, (depth + 1) as usize))
        } else {
            rest
        }
    }
}

/// Takes tasks off the top of `stack`: files join `files`, directories at the
/// depth bound or deeper are dropped, and the first directory above it
/// stops the advance and is the next one to list.
pub open spec fn advance(stack: Seq<TaskView>, files: Seq<Seq<char>>, max_depth: usize) -> (
    Seq<TaskView>,
    Seq<Seq<char>>,
    Option<(Seq<char>, usize)>,
)
    decreases stack.len(),
{
    if stack.len() == 0 {
        (stack, files, None)
    } else {
        let t = stack.last();
        let rest = stack.drop_last();
        if !t.0 {
            advance(rest, files.push(t.1), max_depth)
        } else if t.2 < max_depth {
            (rest, files, Some((t.1, t.2)))
        } else {
            advance(rest, files, max_depth)
        }
    }
}

/// The files under directory `path` at `depth`, in walk order, where
/// `listing` gives each directory's entries.
pub open spec fn expand_dir(
    listing: spec_fn(Seq<char>) -> Seq<DirectoryEntry>,
    path: Seq<char>,
    depth: usize,
    max_depth: usize,
) -> Seq<Seq<char>>
    decreases max_depth - depth, 1int, 0int,
{
    if depth < max_depth {
        expand_entries(listing, listing(path), depth, max_depth)
    } else {
        Seq::empty()
    }
}

/// The files that the entries `es` of a directory at `depth` contribute.
pub open spec fn expand_entries(
    listing: spec_fn(Seq<char>) -> Seq<DirectoryEntry>,
    es: Seq<DirectoryEntry>,
    depth: usize,
    max_depth: usize,
) -> Seq<Seq<char>>
    decreases max_depth - depth, 0int, es.len(),
{
    if es.len() == 0 || depth >= max_depth {
        Seq::empty()
    } else {
        let e = es[0];
        let first: Seq<Seq<char>> = if e.is_file {
            seq![e.path@]
        } else if e.is_directory {
            expand_dir(listing, e.path@, (depth + 1) as usize, max_depth)
        } else {
            Seq::empty()
        };
        first + expand_entries(listing, es.skip(1), depth, max_depth)
    }
}

/// The files that a pending task contributes.
pub open spec fn expand_task(
    listing: spec_fn(Seq<char>) -> Seq<DirectoryEntry>,
    t: TaskView,
    max_depth: usize,
) -> Seq<Seq<char>> {
    if t.0 {
        expand_dir(listing, t.1, t.2, max_depth)
    } else {
        seq![t.1]
    }
}

/// The files that a stack of pending tasks contributes, top first.
pub open spec fn pending_files(
    listing: spec_fn(Seq<char>) -> Seq<DirectoryEntry>,
    stack: Seq<TaskView>,
    max_depth: usize,
) -> Seq<Seq<char>>
    decreases stack.len(),
{
    if stack.len() == 0 {
        Seq::empty()
    } else {
        expand_task(listing, stack.last(), max_depth) + pending_files(
            listing,
            stack.drop_last(),
            max_depth,
        )
    }
}

/// A walk starts with its whole tree pending.
pub proof fn law_walk_starts_with_whole_tree(
    listing: spec_fn(Seq<char>) -> Seq<DirectoryEntry>,
    root: Seq<char>,
    max_depth: usize,
)
    ensures
        pending_files(listing, seq![(true, root, 0usize)], max_depth) == expand_dir(
            listing,
            root,
            0,
            max_depth,
        ),
{
    let s = seq![(true, root, 0usize)];
    assert(s.drop_last() =~= Seq::<TaskView>::empty());
    assert(pending_files(listing, s.drop_last(), max_depth) == Seq::<Seq<char>>::empty());
    assert(s.last() == (true, root, 0usize));
    assert(expand_dir(listing, root, 0, max_depth) + Seq::<Seq<char>>::empty() =~= expand_dir(
        listing,
        root,
        0,
        max_depth,
    ));
}

/// Advancing moves files from the pending tasks to the found ones without
/// loss or reordering; the directory it stops at is above the depth bound
/// and its files come next; when it stops at none, nothing is pending.
pub proof fn law_advance_keeps_files(
    listing: spec_fn(Seq<char>) -> Seq<DirectoryEntry>,
    stack: Seq<TaskView>,
    files: Seq<Seq<char>>,
    max_depth: usize,
)
    ensures
        ({
            let (s, f, req) = advance(stack, files, max_depth);
            match req {
                None => s.len() == 0 && f == files + pending_files(listing, stack, max_depth),
                Some((p, d)) => d < max_depth && f + expand_dir(listing, p, d, max_depth)
                    + pending_files(listing, s, max_depth) == files + pending_files(
                    listing,
                    stack,
                    max_depth,
                ),
            }
        }),
    decreases stack.len(),
{
    if stack.len() == 0 {
        assert(files + Seq::<Seq<char>>::empty() =~= files);
    } else {
        let t = stack.last();
        let rest = stack.drop_last();
        let tail = pending_files(listing, rest, max_depth);
        if !t.0 {
            law_advance_keeps_files(listing, rest, files.push(t.1), max_depth);
            assert(files.push(t.1) + tail =~= files + (seq![t.1] + tail));
        } else if t.2 < max_depth {
            assert(files + expand_dir(listing, t.1, t.2, max_depth) + tail =~= files + (
            expand_dir(listing, t.1, t.2, max_depth) + tail));
        } else {
            law_advance_keeps_files(listing, rest, files, max_depth);
            assert(Seq::<Seq<char>>::empty() + tail =~= tail);
        }
    }
}

/// Handing a directory's listing to the walk puts exactly that directory's
/// files on top of what was pending.
pub proof fn law_supply_adds_directory(
    listing: spec_fn(Seq<char>) -> Seq<DirectoryEntry>,
    base: Seq<TaskView>,
    path: Seq<char>,
    depth: usize,
    max_depth: usize,
)
    requires
        depth < max_depth,
    ensures
        pending_files(listing, base + entry_tasks(listing(path), depth), max_depth) == expand_dir(
            listing,
            path,
            depth,
            max_depth,
        ) + pending_files(listing, base, max_depth),
{
    lemma_pending_entry_tasks(listing, base, listing(path), depth, max_depth);
}

proof fn lemma_pending_entry_tasks(
    listing: spec_fn(Seq<char>) -> Seq<DirectoryEntry>,
    base: Seq<TaskView>,
    es: Seq<DirectoryEntry>,
    depth: usize,
    max_depth: usize,
)
    requires
        depth < max_depth,
    ensures
        pending_files(listing, base + entry_tasks(es, depth), max_depth) == expand_entries(
            listing,
            es,
            depth,
            max_depth,
        ) + pending_files(listing, base, max_depth),
    decreases es.len(),
{
    let pb = pending_files(listing, base, max_depth);
    if es.len() == 0 {
        assert(base + Seq::<TaskView>::empty() =~= base);
        assert(Seq::<Seq<char>>::empty() + pb =~= pb);
    } else {
        let e = es[0];
        let rest_tasks = entry_tasks(es.skip(1), depth);
        lemma_pending_entry_tasks(listing, base, es.skip(1), depth, max_depth);
        let inner = expand_entries(listing, es.skip(1), depth, max_depth);
        if e.is_file || e.is_directory {
            let t: TaskView = if e.is_file {
                (false, e.path@, 0usize)
            } else {
                (true, e.path@, (depth + 1) as usize)
            };
            let whole = base + rest_tasks.push(t);
            assert(whole =~= (base + rest_tasks).push(t));
            assert(whole.drop_last() =~= base + rest_tasks);
            assert(whole.last() == t);
            let first = expand_task(listing, t, max_depth);
            assert(first + (inner + pb) =~= (first + inner) + pb);
        } else {
            assert(Seq::<Seq<char>>::empty() + inner =~= inner);
        }
    }
}

/// A walk of a directory tree in progress.
pub struct DirectoryWalk {
    max_depth: usize,
    stack: Vec<(bool, String, usize)>,
    files: Vec<String>,
    listing_depth: Option<usize>,
}

impl DirectoryWalk {
    /// The depth bound.
    pub closed spec fn spec_max_depth(&self) -> usize {
        self.max_depth
    }

    /// The pending tasks, the top last.
    pub closed spec fn spec_stack(&self) -> Seq<TaskView> {
        self.stack@.map_values(|t: (bool, String, usize)| task_view(t))
    }

    /// The files found so far, in order.
    pub closed spec fn spec_files(&self) -> Seq<Seq<char>> {
        self.files@.map_values(|f: String| f@)
    }

    /// The depth of the directory whose listing is awaited, if any.
    pub closed spec fn spec_listing_depth(&self) -> Option<usize> {
        self.listing_depth
    }

    /// An awaited listing is of a directory above the depth bound.
    pub closed spec fn wf(&self) -> bool {
        self.listing_depth matches Some(d) ==> d < self.max_depth
    }

    /// A walk from `root`, to `max_depth` levels (100 when none is given).
    pub fn new(root: &str, max_depth: Option<usize>) -> (r: Self)
        ensures
            r.wf(),
            r.spec_max_depth() == match max_depth {
                Some(m) => m,
                None => DEFAULT_WALK_DEPTH,
            },
            r.spec_stack() == seq![(true, root@, 0usize)],
            r.spec_files() == Seq::<Seq<char>>::empty(),
            r.spec_listing_depth() is None,
    {
        let max = match max_depth {
            Some(m) => m,
            None => DEFAULT_WALK_DEPTH,
        };
        let mut stack: Vec<(bool, String, usize)> = Vec::new();
        stack.push((true, root.to_string(), 0));
        let r = DirectoryWalk { max_depth: max, stack, files: Vec::new(), listing_depth: None };
        assert(r.spec_stack() =~= seq![(true, root@, 0usize)]);
        assert(r.spec_files() =~= Seq::<Seq<char>>::empty());
        r
    }

    /// Advances the walk to the next directory to list and returns its path,
    /// or `None` when the walk is over.
    pub fn next_directory(&mut self) -> (r: Option<String>)
        requires
            old(self).wf(),
            old(self).spec_listing_depth() is None,
        ensures
            final(self).wf(),
            final(self).spec_max_depth() == old(self).spec_max_depth(),
            ({
                let (s, f, req) = advance(
                    old(self).spec_stack(),
                    old(self).spec_files(),
                    old(self).spec_max_depth(),
                );
                &&& final(self).spec_stack() == s
                &&& final(self).spec_files() == f
                &&& r is Some <==> req is Some
                &&& r matches Some(p) ==> req == Some((p@, final(self).spec_listing_depth()->0))
                &&& r is None ==> final(self).spec_listing_depth() is None
            }),
    {
        loop
            invariant
                self.wf(),
                self.listing_depth is None,
                self.max_depth == old(self).max_depth,
                advance(self.spec_stack(), self.spec_files(), self.max_depth) == advance(
                    old(self).spec_stack(),
                    old(self).spec_files(),
                    old(self).spec_max_depth(),
                ),
            decreases self.stack@.len(),
        {
            let ghost before_stack = self.spec_stack();
            let ghost before_files = self.spec_files();
            match self.stack.pop() {
                None => {
                    assert(before_stack.len() == 0);
                    return None;
                },
                Some(t) => {
                    assert(self.spec_stack() =~= before_stack.drop_last());
                    assert(task_view(t) == before_stack.last());
                    let (is_dir, path, depth) = t;
                    if !is_dir {
                        self.files.push(path);
                        assert(self.spec_files() =~= before_files.push(task_view(t).1));
                    } else if depth < self.max_depth {
                        self.listing_depth = Some(depth);
                        return Some(path);
                    }
                },
            }
        }
    }

    /// Hands the walk the entries of the directory it asked for.
    pub fn supply(&mut self, entries: &Vec<DirectoryEntry>)
        requires
            old(self).wf(),
            old(self).spec_listing_depth() is Some,
        ensures
            final(self).wf(),
            final(self).spec_max_depth() == old(self).spec_max_depth(),
            final(self).spec_files() == old(self).spec_files(),
            final(self).spec_listing_depth() is None,
            final(self).spec_stack() == old(self).spec_stack() + entry_tasks(
                entries@,
                old(self).spec_listing_depth()->0,
            ),
    {
        let depth = match self.listing_depth {
            Some(d) => d,
            None => 0,
        };
        let ghost base = self.spec_stack();
        let mut i: usize = entries.len();
        assert(entries@.skip(i as int) =~= Seq::<DirectoryEntry>::empty());
        assert(base + Seq::<TaskView>::empty() =~= base);
        while i > 0
            invariant
                i <= entries@.len(),
                depth < self.max_depth,
                self.max_depth == old(self).max_depth,
                self.files == old(self).files,
                base == old(self).spec_stack(),
                self.spec_stack() == base + entry_tasks(entries@.skip(i as int), depth),
            decreases i,
        {
            i -= 1;
            let e = &entries[i];
            let ghost before = self.spec_stack();
            assert(entries@.skip(i as int).skip(1) =~= entries@.skip(i + 1));
            assert(entries@.skip(i as int)[0] == entries@[i as int]);
            if e.is_file {
                self.stack.push((false, e.path.clone(), 0));
                assert(self.spec_stack() =~= before.push((false, e.path@, 0usize)));
            } else if e.is_directory {
                self.stack.push((true, e.path.clone(), depth + 1));
                assert(self.spec_stack() =~= before.push((true, e.path@, (depth + 1) as usize)));
            }
            assert(self.spec_stack() =~= base + entry_tasks(entries@.skip(i as int), depth));
        }
        assert(entries@.skip(0) =~= entries@);
        self.listing_depth = None;
    }

    /// The files found so far, in order.
    pub fn into_files(self) -> (r: Vec<String>)
        ensures
            r@.map_values(|f: String| f@) == self.spec_files(),
    {
        self.files
    }
}

} // verus!
