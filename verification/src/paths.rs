//! Local filesystem paths as the commands handle them: carried as
//! `PathBuf`, and rendered relative to a root with `/` separators from their
//! component lists.

use std::path::PathBuf;
use vstd::prelude::*;
use crate::text::{join_with_slash, seq_join, str_eq, string_views};

verus! {

#[verifier::external_type_specification]
#[verifier::external_body]
pub struct ExPathBuf(PathBuf);

/// Calls `PathBuf::clone`; the contract claims that the copy is the same
/// path.
#[verifier::external_body]
pub(crate) fn clone_path(p: &PathBuf) -> (r: PathBuf)
    ensures
        r == *p,
{
    p.clone()
}

/// `pre` is a prefix of `s`, component by component.
pub open spec fn components_prefix(pre: Seq<Seq<char>>, s: Seq<Seq<char>>) -> bool {
    pre.len() <= s.len() && s.take(pre.len() as int) == pre
}

/// The components of `full` below `root` (all of `full` where `root` is not
/// a prefix of it), joined by `/`.
pub open spec fn rel_unix_spec(full: Seq<Seq<char>>, root: Seq<Seq<char>>) -> Seq<char> {
    seq_join(
        if components_prefix(root, full) {
            full.skip(root.len() as int)
        } else {
            full
        },
        seq!['/'],
    )
}

/// The part of a path below `root` as a `/`-separated string, given both
/// paths as their component lists (as `Path::components` gives them): the
/// components after `root`'s, or all of them where `root` is not a prefix,
/// joined by `/`.
pub fn rel_unix(full: &Vec<String>, root: &Vec<String>) -> (r: String)
    ensures
        r@ == rel_unix_spec(string_views(full@), string_views(root@)),
{
    let ghost fv = string_views(full@);
    let ghost rv = string_views(root@);
    let n = full.len();
    let m = root.len();
    let mut is_prefix = m <= n;
    let mut i: usize = 0;
    while is_prefix && i < m
        invariant
            n == full@.len(),
            m == root@.len(),
            fv == string_views(full@),
            rv == string_views(root@),
            i <= m,
            is_prefix ==> m <= n && forall|j: int| 0 <= j < i ==> fv[j] == rv[j],
            !is_prefix ==> !components_prefix(rv, fv),
        decreases m - i,
    {
        if !str_eq(full[i].as_str(), root[i].as_str()) {
            proof {
                assert(fv.take(m as int)[i as int] != rv[i as int]);
            }
            is_prefix = false;
        }
        i = i + 1;
    }
    proof {
        if is_prefix {
            assert(fv.take(m as int) =~= rv);
        }
    }
    let start: usize = if is_prefix {
        m
    } else {
        0
    };
    let mut tail: Vec<String> = Vec::new();
    let mut k: usize = start;
    while k < n
        invariant
            n == full@.len(),
            start <= k <= n,
            fv == string_views(full@),
            string_views(tail@) =~= fv.subrange(start as int, k as int),
        decreases n - k,
    {
        let ghost old_t = tail@;
        tail.push(full[k].clone());
        proof {
            assert(tail@ =~= old_t.push(full@[k as int]));
            assert(fv.subrange(start as int, k + 1) =~= fv.subrange(start as int, k as int).push(
                full@[k as int]@,
            ));
        }
        k = k + 1;
    }
    proof {
        assert(fv.subrange(start as int, n as int) =~= fv.skip(start as int));
        assert(fv.skip(0) =~= fv);
    }
    join_with_slash(&tail)
}

/// Rendering a path relative to `root` undoes joining components onto
/// `root`: the result is the joined components, `/`-separated.
pub proof fn lemma_rel_unix_undoes_join(root: Seq<Seq<char>>, rel: Seq<Seq<char>>)
    ensures
        rel_unix_spec(root + rel, root) == seq_join(rel, seq!['/']),
{
    assert((root + rel).take(root.len() as int) =~= root);
    assert((root + rel).skip(root.len() as int) =~= rel);
}

} // verus!
