use vstd::prelude::*;

verus! {

/// The directory part of a `/`-separated path: everything before the last
/// `/`, or the empty path when there is no separator.
pub open spec fn spec_path_parent(p: Seq<char>) -> Seq<char>
    decreases p.len(),
{
    if p.len() == 0 {
        p
    } else if p.last() == '/' {
        p.drop_last()
    } else {
        spec_path_parent(p.drop_last())
    }
}

/// Joining a relative path onto a base directory: an empty base or an
/// absolute right-hand side leaves `rel` alone; otherwise the two are glued
/// with a single `/`.
pub open spec fn spec_path_join(base: Seq<char>, rel: Seq<char>) -> Seq<char> {
    if base.len() == 0 {
        rel
    } else if rel.len() > 0 && rel[0] == '/' {
        rel
    } else if base.last() == '/' {
        base + rel
    } else {
        base + seq!['/'] + rel
    }
}

proof fn lemma_path_parent_at(p: Seq<char>, j: int)
    requires
        0 <= j < p.len(),
        p[j] == '/',
        forall|k: int| j < k < p.len() ==> p[k] != '/',
    ensures
        spec_path_parent(p) == p.take(j),
    decreases p.len(),
{
    if j == p.len() - 1 {
        assert(p.drop_last() =~= p.take(j));
    } else {
        assert(p.last() != '/');
        assert(forall|k: int| j < k < p.drop_last().len() ==> p.drop_last()[k] != '/');
        lemma_path_parent_at(p.drop_last(), j);
        assert(p.drop_last().take(j) =~= p.take(j));
    }
}

proof fn lemma_path_parent_none(p: Seq<char>)
    requires
        forall|k: int| 0 <= k < p.len() ==> p[k] != '/',
    ensures
        spec_path_parent(p).len() == 0,
    decreases p.len(),
{
    if p.len() > 0 {
        lemma_path_parent_none(p.drop_last());
    }
}

/// The directory a path lies in, as [`spec_path_parent`] describes.
#[verifier::loop_isolation(false)]
pub fn path_parent(p: &str) -> (r: String)
    ensures
        r@ == spec_path_parent(p@),
{
    let n = p.unicode_len();
    let mut i: usize = n;
    while i > 0
        invariant
            i <= n,
            forall|k: int| i <= k < n ==> p@[k] != '/',
        decreases i,
    {
        if p.get_char(i - 1) == '/' {
            proof {
                lemma_path_parent_at(p@, i - 1);
            }
            return String::from_str(p.substring_char(0, i - 1));
        }
        i = i - 1;
    }
    let r = String::new();
    proof {
        lemma_path_parent_none(p@);
        assert(r@ =~= spec_path_parent(p@));
    }
    r
}

/// Joins a relative path onto a base directory, as [`spec_path_join`]
/// describes.
pub fn path_join(base: &str, rel: &str) -> (r: String)
    ensures
        r@ == spec_path_join(base@, rel@),
{
    proof {
        reveal_strlit("/");
    }
    let nb = base.unicode_len();
    let nr = rel.unicode_len();
    if nb == 0 {
        String::from_str(rel)
    } else if nr > 0 && rel.get_char(0) == '/' {
        String::from_str(rel)
    } else if base.get_char(nb - 1) == '/' {
        String::from_str(base).concat(rel)
    } else {
        let r = String::from_str(base).concat("/").concat(rel);
        proof {
            assert(base@ + "/"@ + rel@ =~= spec_path_join(base@, rel@));
        }
        r
    }
}

} // verus!
