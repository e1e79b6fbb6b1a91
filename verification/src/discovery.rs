//! Discovery: which of the entries found under the source directory are
//! taken as tasks. The walk itself is filesystem work and happens
//! outside; each entry it yields — a path, its depth below the source
//! root, and whether it is a regular file — is judged here.

use vstd::prelude::*;

use crate::pathname::matches_extensions;
use crate::pathname::spec_matches_extensions;

verus! {

/// The immutable run parameters: the two directories, the recursion
/// flag, and the extension set, read once at startup.
pub struct Config {
    pub source_dir: String,
    pub dest_dir: String,
    pub recursive: bool,
    pub extensions: Vec<String>,
}

/// The walk's depth bound as a function of the recursion flag: direct
/// children of the source root are at depth one.
pub open spec fn spec_depth_limit(recursive: bool) -> usize {
    if recursive {
        5usize
    } else {
        1usize
    }
}

/// The depth limit of the source-directory walk: direct children only
/// when `recursive` is off, at most five levels below the root otherwise.
pub fn depth_limit(recursive: bool) -> (r: usize)
    ensures
        r == spec_depth_limit(recursive),
{
    if recursive {
        5
    } else {
        1
    }
}

/// One entry the walk yielded: its path, its depth below the source root
/// (a direct child is at depth one), and whether it is a regular file.
pub struct WalkEntry {
    pub path: String,
    pub depth: usize,
    pub is_file: bool,
}

/// Whether an entry becomes a task: a regular file, within the depth
/// bound, with a matching extension.
pub open spec fn spec_keep(e: WalkEntry, exts: Seq<Seq<char>>, limit: usize) -> bool {
    e.is_file && e.depth <= limit && spec_matches_extensions(e.path@, exts)
}

/// The paths of the kept entries, in the order the walk yielded them.
pub open spec fn spec_selected(s: Seq<WalkEntry>, exts: Seq<Seq<char>>, limit: usize) -> Seq<
    Seq<char>,
>
    decreases s.len(),
{
    if s.len() == 0 {
        Seq::empty()
    } else {
        spec_selected(s.drop_last(), exts, limit) + if spec_keep(s.last(), exts, limit) {
            seq![s.last().path@]
        } else {
            Seq::empty()
        }
    }
}

/// Discovery never reaches past the depth bound: a path carried only by
/// entries deeper than the bound — more than one level below the source
/// root without recursion, more than five with it — is not discovered.
pub proof fn lemma_nothing_discovered_beyond_depth(
    s: Seq<WalkEntry>,
    exts: Seq<Seq<char>>,
    limit: usize,
    p: Seq<char>,
)
    requires
        forall|i: int| 0 <= i < s.len() && (#[trigger] s[i]).path@ == p ==> s[i].depth > limit,
    ensures
        !spec_selected(s, exts, limit).contains(p),
    decreases s.len(),
{
    if s.len() == 0 {
    } else {
        assert(forall|i: int| 0 <= i < s.len() - 1 ==> s.drop_last()[i] == s[i]);
        lemma_nothing_discovered_beyond_depth(s.drop_last(), exts, limit, p);
        let sel = spec_selected(s, exts, limit);
        let pre = spec_selected(s.drop_last(), exts, limit);
        assert forall|j: int| 0 <= j < sel.len() implies sel[j] != p by {
            if j < pre.len() {
                assert(sel[j] == pre[j]);
                if pre[j] == p {
                    assert(pre.contains(p));
                }
            } else {
                assert(spec_keep(s.last(), exts, limit));
                assert(sel[j] == s.last().path@);
                assert(s[s.len() - 1] == s.last());
            }
        }
    }
}

/// Discovery reaches the whole depth bound: every regular file the walk
/// yields within it whose extension matches is discovered.
pub proof fn lemma_within_depth_is_discovered(
    s: Seq<WalkEntry>,
    exts: Seq<Seq<char>>,
    limit: usize,
    k: int,
)
    requires
        0 <= k < s.len(),
        spec_keep(s[k], exts, limit),
    ensures
        spec_selected(s, exts, limit).contains(s[k].path@),
    decreases s.len(),
{
    let sel = spec_selected(s, exts, limit);
    let pre = spec_selected(s.drop_last(), exts, limit);
    if k == s.len() - 1 {
        assert(s[k] == s.last());
        assert(sel[pre.len() as int] == s.last().path@);
    } else {
        assert(forall|i: int| 0 <= i < s.len() - 1 ==> s.drop_last()[i] == s[i]);
        lemma_within_depth_is_discovered(s.drop_last(), exts, limit, k);
        let j = choose|j: int| 0 <= j < pre.len() && pre[j] == s[k].path@;
        assert(sel[j] == s[k].path@);
    }
}

/// Filters the walk's entries down to the discovered files: exactly the
/// regular files within the configured depth bound whose extension is in
/// the configured set (compared ASCII-case-insensitively), in walk
/// order. An empty result is not an error.
pub fn select_files(entries: &Vec<WalkEntry>, config: &Config) -> (r: Vec<String>)
    ensures
        r.deep_view() == spec_selected(
            entries@,
            config.extensions.deep_view(),
            spec_depth_limit(config.recursive),
        ),
{
    let limit = depth_limit(config.recursive);
    let mut r: Vec<String> = Vec::new();
    let n = entries.len();
    let mut i: usize = 0;
    proof {
        assert(entries@.take(0) =~= Seq::<WalkEntry>::empty());
        assert(r.deep_view() =~= spec_selected(
            entries@.take(0),
            config.extensions.deep_view(),
            limit,
        ));
    }
    while i < n
        invariant
            i <= n,
            n == entries@.len(),
            limit == spec_depth_limit(config.recursive),
            r.deep_view() == spec_selected(
                entries@.take(i as int),
                config.extensions.deep_view(),
                limit,
            ),
        decreases n - i,
    {
        let e = &entries[i];
        let ghost old_dv = r.deep_view();
        if e.is_file && e.depth <= limit && matches_extensions(
            e.path.as_str(),
            &config.extensions,
        ) {
            r.push(e.path.clone());
            proof {
                assert(r.deep_view() =~= old_dv + seq![entries@[i as int].path@]);
            }
        }
        proof {
            assert(entries@.take(i + 1).drop_last() =~= entries@.take(i as int));
            assert(entries@.take(i + 1).last() == entries@[i as int]);
        }
        i = i + 1;
    }
    proof {
        assert(entries@.take(n as int) =~= entries@);
    }
    r
}

} // verus!
