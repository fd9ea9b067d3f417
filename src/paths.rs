//! Mapping of repository-relative paths to paths under the production root.

use vstd::prelude::*;
use crate::text::{after_prefix, chars_of, has_prefix, string_of};

verus! {

/// `rest` placed under the directory `base`: a separator goes between the two
/// unless `base` is empty or already ends with one.
pub open spec fn join_path(base: Seq<char>, rest: Seq<char>) -> Seq<char> {
    if base.len() == 0 || base.last() == '/' {
        base + rest
    } else {
        base.push('/') + rest
    }
}

/// Where a repository path lands under the production root: the source
/// prefix is taken off and the remainder is placed under the destination
/// subfolder.
pub open spec fn local_path(path: Seq<char>, source_prefix: Seq<char>, dest_subfolder: Seq<char>) -> Seq<char> {
    join_path(dest_subfolder, after_prefix(path, source_prefix))
}

fn push_all(out: &mut Vec<char>, s: &[char])
    ensures
        final(out)@ == old(out)@ + s@,
{
    let mut i: usize = 0;
    while i < s.len()
        invariant
            i <= s@.len(),
            out@ == old(out)@ + s@.subrange(0, i as int),
        decreases s@.len() - i,
    {
        out.push(s[i]);
        i = i + 1;
        assert(out@ =~= old(out)@ + s@.subrange(0, i as int));
    }
    assert(s@.subrange(0, s@.len() as int) =~= s@);
}

/// Path, relative to the production root, that the repository path `path`
/// is promoted to.
pub fn remap(path: &str, source_prefix: &str, dest_subfolder: &str) -> (r: String)
    ensures
        r@ == local_path(path@, source_prefix@, dest_subfolder@),
{
    let rest = crate::text::strip_prefix_or_keep(path, source_prefix);
    let base = chars_of(dest_subfolder);
    let tail = chars_of(rest.as_str());
    let mut out: Vec<char> = Vec::new();
    push_all(&mut out, base.as_slice());
    if base.len() != 0 && base[base.len() - 1] != '/' {
        out.push('/');
    }
    push_all(&mut out, tail.as_slice());
    assert(out@ =~= join_path(base@, tail@));
    string_of(out.as_slice())
}

/// A path under the source prefix lands directly below the destination
/// subfolder, with the prefix taken off and one separator in between.
pub proof fn lemma_remap_strips_prefix(path: Seq<char>, source_prefix: Seq<char>, dest_subfolder: Seq<char>)
    requires
        has_prefix(path, source_prefix),
        dest_subfolder.len() > 0,
        dest_subfolder.last() != '/',
    ensures
        local_path(path, source_prefix, dest_subfolder)
            == dest_subfolder + seq!['/'] + path.subrange(source_prefix.len() as int, path.len() as int),
{
    assert(dest_subfolder.push('/') =~= dest_subfolder + seq!['/']);
}

/// Two paths under the same source prefix land on the same production path
/// only if they are the same path.
pub proof fn lemma_local_path_injective(p: Seq<char>, q: Seq<char>, source_prefix: Seq<char>, dest_subfolder: Seq<char>)
    requires
        has_prefix(p, source_prefix),
        has_prefix(q, source_prefix),
        local_path(p, source_prefix, dest_subfolder) == local_path(q, source_prefix, dest_subfolder),
    ensures
        p == q,
{
    let n = source_prefix.len() as int;
    let rp = p.subrange(n, p.len() as int);
    let rq = q.subrange(n, q.len() as int);
    let base = if dest_subfolder.len() == 0 || dest_subfolder.last() == '/' {
        dest_subfolder
    } else {
        dest_subfolder.push('/')
    };
    assert(local_path(p, source_prefix, dest_subfolder) == base + rp);
    assert(local_path(q, source_prefix, dest_subfolder) == base + rq);
    assert(rp =~= (base + rp).subrange(base.len() as int, (base + rp).len() as int));
    assert(rq =~= (base + rq).subrange(base.len() as int, (base + rq).len() as int));
    assert(p =~= source_prefix + rp);
    assert(q =~= source_prefix + rq);
}

} // verus!
