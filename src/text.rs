//! Joining strings with a separator.

use vstd::prelude::*;

verus! {

/// The pieces of `v` with `sep` between each two neighbours.
pub open spec fn join(v: Seq<Seq<char>>, sep: Seq<char>) -> Seq<char>
    decreases v.len(),
{
    if v.len() == 0 {
        Seq::empty()
    } else if v.len() == 1 {
        v[0]
    } else {
        join(v.drop_last(), sep) + sep + v.last()
    }
}

/// Joins the strings of `v` with `sep` between each two neighbours.
pub fn join_strings(v: &Vec<String>, sep: &str) -> (r: String)
    ensures
        r@ == join(v@.map_values(|s: String| s@), sep@),
{
    let ghost w = v@.map_values(|s: String| s@);
    if v.len() == 0 {
        return String::new();
    }
    let mut acc = v[0].clone();
    let mut i: usize = 1;
    assert(w.take(1).drop_last().len() == 0);
    assert(join(w.take(1), sep@) == w[0]);
    while i < v.len()
        invariant
            1 <= i <= v@.len(),
            w == v@.map_values(|s: String| s@),
            acc@ == join(w.take(i as int), sep@),
        decreases v@.len() - i,
    {
        assert(w.take(i + 1).drop_last() =~= w.take(i as int));
        acc.append(sep);
        acc.append(v[i].as_str());
        i += 1;
    }
    assert(w.take(v@.len() as int) =~= w);
    acc
}

/// Whether `s` holds the character `c`.
pub fn str_contains_char(s: &str, c: char) -> (r: bool)
    ensures
        r == s@.contains(c),
{
    let n = s.unicode_len();
    let mut i: usize = 0;
    while i < n
        invariant
            n == s@.len(),
            i <= n,
            forall|k: int| 0 <= k < i ==> s@[k] != c,
        decreases n - i,
    {
        if s.get_char(i) == c {
            return true;
        }
        i += 1;
    }
    false
}

} // verus!
