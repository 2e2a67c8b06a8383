//! Lists of names: membership and the all/none checks gates are made of.

use vstd::prelude::*;

verus! {

/// `x` occurs in `s`.
pub open spec fn listed(s: Seq<String>, x: Seq<char>) -> bool {
    exists|i: int| 0 <= i < s.len() && #[trigger] s[i]@ == x
}

/// Every name of `req` occurs in `have`.
pub open spec fn all_in(req: Seq<String>, have: Seq<String>) -> bool {
    forall|i: int| 0 <= i < req.len() ==> listed(have, #[trigger] req[i]@)
}

/// Some name of `req` occurs in `have`.
pub open spec fn any_in(req: Seq<String>, have: Seq<String>) -> bool {
    exists|i: int| 0 <= i < req.len() && listed(have, #[trigger] req[i]@)
}

/// String equality by content.
pub fn same(a: &String, b: &String) -> (r: bool)
    ensures
        r == (a@ == b@),
{
    *a == *b
}

/// Whether `x` occurs in `v`.
pub fn contains(v: &Vec<String>, x: &String) -> (r: bool)
    ensures
        r == listed(v@, x@),
{
    let mut i: usize = 0;
    while i < v.len()
        invariant
            i <= v.len(),
            forall|j: int| 0 <= j < i ==> v@[j]@ != x@,
        decreases v.len() - i,
    {
        if same(&v[i], x) {
            return true;
        }
        i = i + 1;
    }
    false
}

/// Whether every name of `req` occurs in `have`.
pub fn contains_all(req: &Vec<String>, have: &Vec<String>) -> (r: bool)
    ensures
        r == all_in(req@, have@),
{
    let mut i: usize = 0;
    while i < req.len()
        invariant
            i <= req.len(),
            forall|j: int| 0 <= j < i ==> listed(have@, #[trigger] req@[j]@),
        decreases req.len() - i,
    {
        if !contains(have, &req[i]) {
            return false;
        }
        i = i + 1;
    }
    true
}

/// Whether some name of `req` occurs in `have`.
pub fn contains_any(req: &Vec<String>, have: &Vec<String>) -> (r: bool)
    ensures
        r == any_in(req@, have@),
{
    let mut i: usize = 0;
    while i < req.len()
        invariant
            i <= req.len(),
            forall|j: int| 0 <= j < i ==> !listed(have@, #[trigger] req@[j]@),
        decreases req.len() - i,
    {
        if contains(have, &req[i]) {
            return true;
        }
        i = i + 1;
    }
    false
}

} // verus!

verus! {

/// `a` followed by `b`.
pub fn join2(a: &str, b: &str) -> (r: String)
    ensures
        r@ == a@ + b@,
{
    let s = String::from_str(a);
    s.concat(b)
}

/// `a`, `b`, then `c`.
pub fn join3(a: &str, b: &str, c: &str) -> (r: String)
    ensures
        r@ == a@ + b@ + c@,
{
    let s = String::from_str(a);
    let s = s.concat(b);
    s.concat(c)
}

} // verus!

verus! {

/// Whether `s` is the empty string.
pub fn is_blank(s: &String) -> (r: bool)
    ensures
        r == (s@.len() == 0),
{
    s.as_str().is_empty()
}

} // verus!

verus! {

/// `a`, `b`, `c`, then `d`.
pub fn join4(a: &str, b: &str, c: &str, d: &str) -> (r: String)
    ensures
        r@ == a@ + b@ + c@ + d@,
{
    let s = String::from_str(a);
    let s = s.concat(b);
    let s = s.concat(c);
    s.concat(d)
}

} // verus!
