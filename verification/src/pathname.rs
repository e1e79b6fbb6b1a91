//! Path-string manipulation: file names, extensions, extension
//! normalization and joining, all on `/`-separated path strings.
//!
//! A path is modelled as its sequence of characters. The file name is the
//! part after the last separator; the extension is the part of the file
//! name after its last dot, provided that dot is neither the file name's
//! first character (a leading dot hides a file, it does not start an
//! extension) nor in the directory part.

use vstd::prelude::*;
use vstd::string::StrSliceExecFns;
use vstd::string::StringExecFns;

use crate::text::lower_str;
use crate::text::spec_lower_seq;
use crate::text::str_eq;

verus! {

/// The index of the last occurrence of `c` in `s`, or `-1` when `c` does
/// not occur.
pub open spec fn spec_last_pos(s: Seq<char>, c: char) -> int
    decreases s.len(),
{
    if s.len() == 0 {
        -1
    } else if s[s.len() - 1] == c {
        s.len() - 1
    } else {
        spec_last_pos(s.drop_last(), c)
    }
}

/// `spec_last_pos` is a position in the sequence (or `-1`), holds `c`
/// where it points, and nothing after it holds `c`.
pub proof fn lemma_last_pos_props(s: Seq<char>, c: char)
    ensures
        -1 <= spec_last_pos(s, c) < s.len(),
        spec_last_pos(s, c) >= 0 ==> s[spec_last_pos(s, c)] == c,
        forall|j: int| spec_last_pos(s, c) < j < s.len() ==> s[j] != c,
    decreases s.len(),
{
    if s.len() == 0 {
    } else if s[s.len() - 1] == c {
    } else {
        lemma_last_pos_props(s.drop_last(), c);
        assert(forall|j: int| 0 <= j < s.len() - 1 ==> s.drop_last()[j] == s[j]);
    }
}

/// Where the file name of the path starts: just after the last separator,
/// or at the start when there is none.
pub open spec fn spec_name_start(p: Seq<char>) -> int {
    spec_last_pos(p, '/') + 1
}

/// The file-name part of the path: everything after the last separator.
pub open spec fn spec_file_name(p: Seq<char>) -> Seq<char> {
    p.subrange(spec_name_start(p), p.len() as int)
}

/// The extension of the path's file name: the part after the last dot,
/// when that dot lies strictly inside the file name. `Some(empty)` is the
/// extension of a name that ends in a dot; a name without a dot, or with
/// only a leading dot, has none.
pub open spec fn spec_extension_of(p: Seq<char>) -> Option<Seq<char>> {
    let dot = spec_last_pos(p, '.');
    if dot > spec_name_start(p) {
        Some(p.subrange(dot + 1, p.len() as int))
    } else {
        None
    }
}

/// The path with its extension replaced by the ASCII-lowercase of that
/// extension; a path without an extension is unchanged, and a trailing
/// dot with an empty extension is removed.
pub open spec fn spec_lowered_path(p: Seq<char>) -> Seq<char> {
    let dot = spec_last_pos(p, '.');
    if dot > spec_name_start(p) {
        if dot + 1 < p.len() {
            p.take(dot + 1) + spec_lower_seq(p.subrange(dot + 1, p.len() as int))
        } else {
            p.take(dot)
        }
    } else {
        p
    }
}

/// The index of the last occurrence of `c` in `s`, if any.
pub fn last_pos(s: &str, c: char) -> (r: Option<usize>)
    ensures
        match r {
            Some(i) => spec_last_pos(s@, c) == i as int,
            None => spec_last_pos(s@, c) == -1,
        },
{
    let n = s.unicode_len();
    let mut i: usize = n;
    proof {
        assert(s@.take(n as int) =~= s@);
    }
    while i > 0
        invariant
            i <= n,
            n == s@.len(),
            spec_last_pos(s@, c) == spec_last_pos(s@.take(i as int), c),
        decreases i,
    {
        let j = i - 1;
        if s.get_char(j) == c {
            proof {
                assert(s@.take(i as int)[i - 1] == c);
            }
            return Some(j);
        }
        proof {
            assert(s@.take(i as int).drop_last() =~= s@.take(j as int));
        }
        i = j;
    }
    None
}

/// The file-name part of the path: everything after the last `/`, or the
/// whole path when it has no `/`.
pub fn file_name_part(p: &str) -> (r: String)
    ensures
        r@ == spec_file_name(p@),
{
    let n = p.unicode_len();
    let sep = last_pos(p, '/');
    proof {
        lemma_last_pos_props(p@, '/');
    }
    let start: usize = match sep {
        Some(i) => i + 1,
        None => 0,
    };
    String::from_str(p.substring_char(start, n))
}

/// The extension of the path's file name, if it has one (see
/// `spec_extension_of`).
pub fn extension_of(p: &str) -> (r: Option<String>)
    ensures
        match r {
            Some(e) => spec_extension_of(p@) == Some(e@),
            None => spec_extension_of(p@) is None,
        },
{
    let n = p.unicode_len();
    let sep = last_pos(p, '/');
    let dot = last_pos(p, '.');
    proof {
        lemma_last_pos_props(p@, '/');
        lemma_last_pos_props(p@, '.');
    }
    let ns: usize = match sep {
        Some(i) => i + 1,
        None => 0,
    };
    match dot {
        Some(d) => {
            if d > ns {
                Some(String::from_str(p.substring_char(d + 1, n)))
            } else {
                None
            }
        },
        None => None,
    }
}

/// The path with its extension lowered (see `spec_lowered_path`).
pub fn lowered_path(p: &str) -> (r: String)
    ensures
        r@ == spec_lowered_path(p@),
{
    let n = p.unicode_len();
    let sep = last_pos(p, '/');
    let dot = last_pos(p, '.');
    proof {
        lemma_last_pos_props(p@, '/');
        lemma_last_pos_props(p@, '.');
    }
    let ns: usize = match sep {
        Some(i) => i + 1,
        None => 0,
    };
    match dot {
        Some(d) => {
            if d > ns {
                if d + 1 < n {
                    let mut s = String::from_str(p.substring_char(0, d + 1));
                    let ext = lower_str(p.substring_char(d + 1, n));
                    s.append(ext.as_str());
                    proof {
                        assert(p@.subrange(0, d + 1) =~= p@.take(d + 1));
                    }
                    s
                } else {
                    proof {
                        assert(p@.subrange(0, d as int) =~= p@.take(d as int));
                    }
                    String::from_str(p.substring_char(0, d))
                }
            } else {
                String::from_str(p)
            }
        },
        None => String::from_str(p),
    }
}

/// Joining a path and a following component: the two separated by one
/// `/`, with no separator added after an empty or `/`-terminated prefix.
pub open spec fn spec_join(a: Seq<char>, b: Seq<char>) -> Seq<char> {
    if a.len() == 0 {
        b
    } else if a[a.len() - 1] == '/' {
        a + b
    } else {
        a + seq!['/'] + b
    }
}

/// Appends `b` to the directory path `a`, inserting a `/` where needed.
pub fn join_path(a: &str, b: &str) -> (r: String)
    ensures
        r@ == spec_join(a@, b@),
{
    let na = a.unicode_len();
    if na == 0 {
        String::from_str(b)
    } else {
        let mut s = String::from_str(a);
        if a.get_char(na - 1) != '/' {
            s.push('/');
        }
        s.append(b);
        proof {
            assert(s@ =~= spec_join(a@, b@));
        }
        s
    }
}

/// Whether the path's file name carries one of the configured extensions,
/// compared without regard to ASCII case on either side. A file without
/// an extension matches nothing.
pub open spec fn spec_matches_extensions(p: Seq<char>, exts: Seq<Seq<char>>) -> bool {
    match spec_extension_of(p) {
        Some(e) => exists|i: int|
            0 <= i < exts.len() && spec_lower_seq(e) == spec_lower_seq(exts[i]),
        None => false,
    }
}

/// Whether the file at `p` matches one of the configured extensions,
/// ASCII-case-insensitively.
pub fn matches_extensions(p: &str, exts: &Vec<String>) -> (r: bool)
    ensures
        r == spec_matches_extensions(p@, exts.deep_view()),
{
    let ext = extension_of(p);
    match ext {
        None => false,
        Some(e) => {
            let le = lower_str(e.as_str());
            let n = exts.len();
            let mut i: usize = 0;
            while i < n
                invariant
                    i <= n,
                    n == exts@.len(),
                    le@ == spec_lower_seq(e@),
                    spec_extension_of(p@) == Some(e@),
                    forall|j: int|
                        0 <= j < i ==> spec_lower_seq(e@) != spec_lower_seq(
                            exts.deep_view()[j],
                        ),
                decreases n - i,
            {
                let li = lower_str(exts[i].as_str());
                if str_eq(le.as_str(), li.as_str()) {
                    proof {
                        assert(exts.deep_view()[i as int] == exts@[i as int]@);
                    }
                    return true;
                }
                proof {
                    assert(exts.deep_view()[i as int] == exts@[i as int]@);
                }
                i = i + 1;
            }
            false
        },
    }
}

/// Extension matching is case-insensitive: two paths whose extensions
/// agree up to ASCII case match exactly the same extension sets.
pub proof fn lemma_match_case_insensitive(p1: Seq<char>, p2: Seq<char>, exts: Seq<Seq<char>>)
    requires
        spec_extension_of(p1) is Some,
        spec_extension_of(p2) is Some,
        spec_lower_seq(spec_extension_of(p1)->Some_0) == spec_lower_seq(
            spec_extension_of(p2)->Some_0,
        ),
    ensures
        spec_matches_extensions(p1, exts) == spec_matches_extensions(p2, exts),
{
}

} // verus!
