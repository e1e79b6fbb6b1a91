//! Per-file outcomes and their aggregation. A file's relocation fails on
//! its own: the error is recorded for that file and the run continues
//! over the others.

use vstd::prelude::*;

verus! {

/// Why one file's relocation failed. Each failure concerns that file
/// alone; none aborts the run.
#[derive(Clone, Copy, PartialEq, Eq, Structural, Debug)]
pub enum RelocateError {
    /// The file's attributes or creation time could not be read, or no
    /// valid date could be derived from them.
    Metadata,
    /// The destination directory could not be created.
    DirectoryCreate,
    /// The file or one of its sidecars could not be renamed.
    Move,
}

/// The label a failure is reported under.
pub open spec fn spec_error_label(e: RelocateError) -> Seq<char> {
    match e {
        RelocateError::Metadata => "cannot read creation time"@,
        RelocateError::DirectoryCreate => "cannot create destination directory"@,
        RelocateError::Move => "cannot move file"@,
    }
}

impl RelocateError {
    pub fn label(&self) -> (r: &'static str)
        ensures
            r@ == spec_error_label(*self),
    {
        match self {
            RelocateError::Metadata => "cannot read creation time",
            RelocateError::DirectoryCreate => "cannot create destination directory",
            RelocateError::Move => "cannot move file",
        }
    }
}

/// How a run went: how many files were moved and how many failed.
#[derive(Clone, Copy, PartialEq, Eq, Structural, Debug)]
pub struct RunSummary {
    pub moved: usize,
    pub failed: usize,
}

/// The number of failed outcomes in a run.
pub open spec fn spec_failed_count(s: Seq<Result<(), RelocateError>>) -> int
    decreases s.len(),
{
    if s.len() == 0 {
        0
    } else {
        spec_failed_count(s.drop_last()) + if s.last() is Err {
            1int
        } else {
            0int
        }
    }
}

/// A run in which every file was moved reports no failure.
pub proof fn lemma_all_ok_no_failures(s: Seq<Result<(), RelocateError>>)
    requires
        forall|i: int| 0 <= i < s.len() ==> s[i] is Ok,
    ensures
        spec_failed_count(s) == 0,
    decreases s.len(),
{
    if s.len() > 0 {
        assert(forall|i: int| 0 <= i < s.len() - 1 ==> s.drop_last()[i] == s[i]);
        lemma_all_ok_no_failures(s.drop_last());
    }
}

/// Failures are isolated: in a run where exactly the file at position `k`
/// failed, exactly one failure is reported, so (with `summarize`) every
/// one of the other files is accounted as moved.
pub proof fn lemma_one_failure_counts_once(s: Seq<Result<(), RelocateError>>, k: int)
    requires
        0 <= k < s.len(),
        s[k] is Err,
        forall|j: int| 0 <= j < s.len() && j != k ==> s[j] is Ok,
    ensures
        spec_failed_count(s) == 1,
    decreases s.len(),
{
    assert(forall|i: int| 0 <= i < s.len() - 1 ==> s.drop_last()[i] == s[i]);
    if k == s.len() - 1 {
        lemma_all_ok_no_failures(s.drop_last());
    } else {
        lemma_one_failure_counts_once(s.drop_last(), k);
    }
}

/// Aggregates the per-file outcomes of a run: each failed file counts
/// once under `failed`, every other file was moved, and together they
/// account for every task.
pub fn summarize(results: &Vec<Result<(), RelocateError>>) -> (s: RunSummary)
    ensures
        s.failed == spec_failed_count(results@),
        s.moved + s.failed == results@.len(),
{
    let n = results.len();
    let mut moved: usize = 0;
    let mut failed: usize = 0;
    let mut i: usize = 0;
    proof {
        assert(results@.take(0) =~= Seq::<Result<(), RelocateError>>::empty());
    }
    while i < n
        invariant
            i <= n,
            n == results@.len(),
            failed == spec_failed_count(results@.take(i as int)),
            moved + failed == i,
        decreases n - i,
    {
        proof {
            assert(results@.take(i + 1).drop_last() =~= results@.take(i as int));
            assert(results@.take(i + 1).last() == results@[i as int]);
        }
        match &results[i] {
            Ok(_) => {
                moved = moved + 1;
            },
            Err(_) => {
                failed = failed + 1;
            },
        }
        i = i + 1;
    }
    proof {
        assert(results@.take(n as int) =~= results@);
    }
    RunSummary { moved, failed }
}

} // verus!
