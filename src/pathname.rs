//! Splitting a `/`-separated path into its components, its file name and
//! its extension.

use vstd::prelude::*;

verus! {

/// The pieces of `s` between `/` separators, empty pieces included.
pub open spec fn split_slash(s: Seq<char>) -> Seq<Seq<char>>
    decreases s.len(),
{
    if s.len() == 0 {
        seq![Seq::<char>::empty()]
    } else {
        let r = split_slash(s.drop_last());
        if s.last() == '/' {
            r.push(Seq::<char>::empty())
        } else {
            r.update(r.len() - 1, r.last().push(s.last()))
        }
    }
}

pub open spec fn is_dot(seg: Seq<char>) -> bool {
    seg.len() == 1 && seg[0] == '.'
}

pub open spec fn is_dot_dot(seg: Seq<char>) -> bool {
    seg.len() == 2 && seg[0] == '.' && seg[1] == '.'
}

/// A piece that names an entry: neither empty, nor `.`, nor `..`.
pub open spec fn is_normal(seg: Seq<char>) -> bool {
    seg.len() > 0 && !is_dot(seg) && !is_dot_dot(seg)
}

/// The normal pieces of `segs`, in order.
pub open spec fn keep_normal(segs: Seq<Seq<char>>) -> Seq<Seq<char>>
    decreases segs.len(),
{
    if segs.len() == 0 {
        Seq::empty()
    } else {
        let r = keep_normal(segs.drop_last());
        if is_normal(segs.last()) {
            r.push(segs.last())
        } else {
            r
        }
    }
}

/// The last piece of `segs` that is neither empty nor `.`.
pub open spec fn last_meaningful(segs: Seq<Seq<char>>) -> Option<Seq<char>>
    decreases segs.len(),
{
    if segs.len() == 0 {
        None
    } else if segs.last().len() == 0 || is_dot(segs.last()) {
        last_meaningful(segs.drop_last())
    } else {
        Some(segs.last())
    }
}

/// The names of the entries along a path.
pub open spec fn components(path: Seq<char>) -> Seq<Seq<char>> {
    keep_normal(split_slash(path))
}

/// The final entry name of a path, unless the path ends in `..` or names
/// no entry.
pub open spec fn file_name(path: Seq<char>) -> Option<Seq<char>> {
    match last_meaningful(split_slash(path)) {
        Some(seg) => if is_dot_dot(seg) {
            None
        } else {
            Some(seg)
        },
        None => None,
    }
}

/// The file name, or the whole path where there is none.
pub open spec fn basename(path: Seq<char>) -> Seq<char> {
    match file_name(path) {
        Some(n) => n,
        None => path,
    }
}

/// Index of the last `c` in `s`, or -1.
pub open spec fn last_index_of(s: Seq<char>, c: char) -> int
    decreases s.len(),
{
    if s.len() == 0 {
        -1
    } else if s.last() == c {
        s.len() - 1
    } else {
        last_index_of(s.drop_last(), c)
    }
}

/// The part of a file name after its last dot; none where the name has no
/// dot, or its only dot comes first.
pub open spec fn extension_of_name(name: Seq<char>) -> Option<Seq<char>> {
    let k = last_index_of(name, '.');
    if k <= 0 {
        None
    } else {
        Some(name.subrange(k + 1, name.len() as int))
    }
}

/// The extension of a path's file name.
pub open spec fn extension(path: Seq<char>) -> Option<Seq<char>> {
    match file_name(path) {
        Some(n) => extension_of_name(n),
        None => None,
    }
}

/// Whether a piece is `.`.
fn seg_is_dot(seg: &str) -> (r: bool)
    ensures
        r == is_dot(seg@),
{
    seg.unicode_len() == 1 && seg.get_char(0) == '.'
}

/// Whether a piece is `..`.
fn seg_is_dot_dot(seg: &str) -> (r: bool)
    ensures
        r == is_dot_dot(seg@),
{
    seg.unicode_len() == 2 && seg.get_char(0) == '.' && seg.get_char(1) == '.'
}

/// The normal components of `path` and its file name.
pub fn split_path(path: &str) -> (r: (Vec<String>, Option<String>))
    ensures
        r.0@.len() == components(path@).len(),
        forall|j: int| 0 <= j < r.0@.len() ==> #[trigger] r.0@[j]@ == components(path@)[j],
        r.1 is Some <==> file_name(path@) is Some,
        r.1 matches Some(n) ==> file_name(path@) == Some(n@),
{
    let n = path.unicode_len();
    let mut comps: Vec<String> = Vec::new();
    let mut last: Option<String> = None;
    let ghost mut done: Seq<Seq<char>> = Seq::empty();
    let mut start: usize = 0;
    let mut i: usize = 0;
    assert(path@.take(0) =~= Seq::<char>::empty());
    assert(path@.subrange(0, 0) =~= Seq::<char>::empty());
    while i < n
        invariant
            n == path@.len(),
            start <= i <= n,
            split_slash(path@.take(i as int)) == done.push(path@.subrange(start as int, i as int)),
            comps@.len() == keep_normal(done).len(),
            forall|j: int| 0 <= j < comps@.len() ==> #[trigger] comps@[j]@ == keep_normal(done)[j],
            last is Some <==> last_meaningful(done) is Some,
            last matches Some(s) ==> last_meaningful(done) == Some(s@),
        decreases n - i,
    {
        let c = path.get_char(i);
        assert(path@.take(i + 1).drop_last() =~= path@.take(i as int));
        assert(path@.take(i + 1).last() == c);
        if c == '/' {
            let seg = path.substring_char(start, i);
            let ghost old_done = done;
            proof {
                done = done.push(seg@);
                assert(done.drop_last() =~= old_done);
            }
            if seg_is_dot(seg) {
            } else if seg.unicode_len() == 0 {
            } else {
                last = Some(seg.to_string());
            }
            if seg.unicode_len() > 0 && !seg_is_dot(seg) && !seg_is_dot_dot(seg) {
                comps.push(seg.to_string());
            }
            start = i + 1;
            assert(path@.subrange(start as int, start as int) =~= Seq::<char>::empty());
        } else {
            assert(path@.subrange(start as int, i as int).push(c) =~= path@.subrange(
                start as int,
                i + 1,
            ));
        }
        i += 1;
    }
    assert(path@.take(n as int) =~= path@);
    let seg = path.substring_char(start, n);
    let ghost all = done.push(seg@);
    assert(all.drop_last() =~= done);
    if seg.unicode_len() > 0 && !seg_is_dot(seg) {
        last = Some(seg.to_string());
    }
    if seg.unicode_len() > 0 && !seg_is_dot(seg) && !seg_is_dot_dot(seg) {
        comps.push(seg.to_string());
    }
    let name = match last {
        Some(s) => {
            if seg_is_dot_dot(s.as_str()) {
                None
            } else {
                Some(s)
            }
        },
        None => None,
    };
    (comps, name)
}

/// The extension of a file name, as `extension_of_name` states.
pub fn name_extension(name: &str) -> (r: Option<String>)
    ensures
        r is Some <==> extension_of_name(name@) is Some,
        r matches Some(e) ==> extension_of_name(name@) == Some(e@),
{
    let n = name.unicode_len();
    let mut k: usize = 0;
    let mut found = false;
    let mut i: usize = 0;
    assert(name@.take(0) =~= Seq::<char>::empty());
    while i < n
        invariant
            n == name@.len(),
            i <= n,
            k < n || !found,
            found ==> last_index_of(name@.take(i as int), '.') == k,
            !found ==> last_index_of(name@.take(i as int), '.') == -1,
        decreases n - i,
    {
        assert(name@.take(i + 1).drop_last() =~= name@.take(i as int));
        if name.get_char(i) == '.' {
            k = i;
            found = true;
        }
        i += 1;
    }
    assert(name@.take(n as int) =~= name@);
    if !found || k == 0 {
        None
    } else {
        Some(name.substring_char(k + 1, n).to_string())
    }
}

/// The extension of a path's file name.
pub fn path_extension(path: &str) -> (r: Option<String>)
    ensures
        r is Some <==> extension(path@) is Some,
        r matches Some(e) ==> extension(path@) == Some(e@),
{
    let (_, name) = split_path(path);
    match name {
        Some(n) => name_extension(n.as_str()),
        None => None,
    }
}

/// The file name of a path, or the path itself where it has none.
pub fn path_basename(path: &str) -> (r: String)
    ensures
        r@ == basename(path@),
{
    let (_, name) = split_path(path);
    match name {
        Some(n) => n,
        None => path.to_string(),
    }
}

} // verus!
