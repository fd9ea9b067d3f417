//! Character-level helpers on strings, stated over `Seq<char>`.

use vstd::prelude::*;

verus! {

/// `p` is a prefix of `s`.
pub open spec fn has_prefix(s: Seq<char>, p: Seq<char>) -> bool {
    p.len() <= s.len() && s.subrange(0, p.len() as int) == p
}

/// What is left of `s` once the prefix `p` is taken off; `s` itself when `p`
/// is not a prefix of it.
pub open spec fn after_prefix(s: Seq<char>, p: Seq<char>) -> Seq<char> {
    if has_prefix(s, p) {
        s.subrange(p.len() as int, s.len() as int)
    } else {
        s
    }
}

/// Relies on `str::chars` collected into a `Vec`: the characters of `s`, in order.
#[verifier::external_body]
pub(crate) fn chars_of(s: &str) -> (r: Vec<char>)
    ensures
        r@ == s@,
{
    s.chars().collect()
}

/// Relies on `String`'s `FromIterator<&char>`: the string made of `cs`, in order.
#[verifier::external_body]
pub(crate) fn string_of(cs: &[char]) -> (r: String)
    ensures
        r@ == cs@,
{
    cs.iter().collect()
}

/// Whether the characters `p` start the characters `s`.
pub(crate) fn chars_start_with(s: &[char], p: &[char]) -> (r: bool)
    ensures
        r == has_prefix(s@, p@),
{
    if p.len() > s.len() {
        return false;
    }
    let mut i: usize = 0;
    while i < p.len()
        invariant
            p@.len() <= s@.len(),
            i <= p@.len(),
            forall|j: int| 0 <= j < i ==> s@[j] == p@[j],
        decreases p@.len() - i,
    {
        if s[i] != p[i] {
            assert(s@.subrange(0, p@.len() as int)[i as int] != p@[i as int]);
            return false;
        }
        i = i + 1;
    }
    assert(s@.subrange(0, p@.len() as int) =~= p@);
    true
}

/// Whether `s` starts with `p`, compared character by character.
pub fn starts_with(s: &str, p: &str) -> (r: bool)
    ensures
        r == has_prefix(s@, p@),
{
    let sc = chars_of(s);
    let pc = chars_of(p);
    chars_start_with(sc.as_slice(), pc.as_slice())
}

/// `s` without the prefix `p`, or `s` unchanged when it does not start with `p`.
pub fn strip_prefix_or_keep(s: &str, p: &str) -> (r: String)
    ensures
        r@ == after_prefix(s@, p@),
{
    let sc = chars_of(s);
    let pc = chars_of(p);
    if chars_start_with(sc.as_slice(), pc.as_slice()) {
        let mut rest: Vec<char> = Vec::new();
        let mut i: usize = pc.len();
        while i < sc.len()
            invariant
                pc@.len() <= i <= sc@.len(),
                rest@ == sc@.subrange(pc@.len() as int, i as int),
            decreases sc@.len() - i,
        {
            rest.push(sc[i]);
            i = i + 1;
            assert(rest@ =~= sc@.subrange(pc@.len() as int, i as int));
        }
        string_of(rest.as_slice())
    } else {
        string_of(sc.as_slice())
    }
}

/// The characters of `a` followed by those of `b`.
pub fn concatenate(a: &str, b: &str) -> (r: String)
    ensures
        r@ == a@ + b@,
{
    let mut out = chars_of(a);
    let bc = chars_of(b);
    let mut i: usize = 0;
    while i < bc.len()
        invariant
            i <= bc@.len(),
            out@ == a@ + bc@.subrange(0, i as int),
        decreases bc@.len() - i,
    {
        out.push(bc[i]);
        i = i + 1;
        assert(out@ =~= a@ + bc@.subrange(0, i as int));
    }
    assert(bc@.subrange(0, bc@.len() as int) =~= bc@);
    string_of(out.as_slice())
}

/// Whether `a` and `b` hold the same characters.
pub fn same_text(a: &str, b: &str) -> (r: bool)
    ensures
        r == (a@ == b@),
{
    let ac = chars_of(a);
    let bc = chars_of(b);
    if ac.len() != bc.len() {
        return false;
    }
    let r = chars_start_with(ac.as_slice(), bc.as_slice());
    assert(ac@ =~= ac@.subrange(0, bc@.len() as int));
    r
}

} // verus!
