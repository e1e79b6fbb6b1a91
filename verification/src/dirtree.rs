//! A model of the destination directory tree, for stating what ensuring
//! a directory does. The tree is the set of directory paths that exist;
//! ensuring a path adds it and its ancestors. Concurrent tasks may ensure
//! the same day directory: existence afterwards is the success condition,
//! not exclusivity of creation.

use vstd::prelude::*;

verus! {

/// The path itself and every prefix of it that ends just before a
/// separator: the directories that must exist for `p` to exist.
pub open spec fn spec_ancestors(p: Seq<char>) -> Set<Seq<char>> {
    Set::new(
        |q: Seq<char>|
            q == p || (exists|i: int| 0 < i < p.len() && p[i] == '/' && q == #[trigger] p.take(i)),
    )
}

/// The directory tree after the directory `p` is ensured: every
/// directory that existed still exists, and `p` and its ancestors exist.
pub open spec fn spec_ensured(dirs: Set<Seq<char>>, p: Seq<char>) -> Set<Seq<char>> {
    dirs.union(spec_ancestors(p))
}

/// Ensuring a directory makes it exist and removes nothing.
pub proof fn lemma_ensured_exists(dirs: Set<Seq<char>>, p: Seq<char>)
    ensures
        spec_ensured(dirs, p).contains(p),
        forall|q: Seq<char>| dirs.contains(q) ==> spec_ensured(dirs, p).contains(q),
{
}

/// Ensuring a directory is idempotent: ensuring the same path twice
/// leaves exactly the tree one ensuring leaves — it never fails on an
/// existing directory and never duplicates one.
pub proof fn lemma_ensured_idempotent(dirs: Set<Seq<char>>, p: Seq<char>)
    ensures
        spec_ensured(spec_ensured(dirs, p), p) == spec_ensured(dirs, p),
{
    assert(spec_ensured(spec_ensured(dirs, p), p) =~= spec_ensured(dirs, p));
}

} // verus!
