//! Small helpers on strings and on vectors of strings.

use vstd::prelude::*;
use vstd::string::*;

verus! {

/// The views of a sequence of strings.
pub open spec fn views(v: Seq<String>) -> Seq<Seq<char>> {
    v.map_values(|s: String| s@)
}

/// `base` and `rel` joined by one path separator.
pub open spec fn joined(base: Seq<char>, rel: Seq<char>) -> Seq<char> {
    base + "/"@ + rel
}

/// A new string holding `a` followed by `b`.
pub fn catenate(a: &str, b: &str) -> (r: String)
    ensures
        r@ == a@ + b@,
{
    let mut r = a.to_owned();
    r.append(b);
    r
}

/// The path `rel` below the directory `base`.
pub fn join(base: &str, rel: &str) -> (r: String)
    ensures
        r@ == joined(base@, rel@),
{
    let mut r = a_then_separator(base);
    r.append(rel);
    r
}

fn a_then_separator(base: &str) -> (r: String)
    ensures
        r@ == base@ + "/"@,
{
    catenate(base, "/")
}

/// Appends `s` to `v`, keeping track of the views.
pub fn push_string(v: &mut Vec<String>, s: String)
    ensures
        views(final(v)@) == views(old(v)@).push(s@),
        final(v)@ == old(v)@.push(s),
{
    v.push(s);
    assert(views(v@) =~= views(old(v)@).push(s@));
}

} // verus!
