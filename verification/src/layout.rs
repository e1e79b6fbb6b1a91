//! The destination layout: where a file of a given creation date goes
//! under the destination root, and which sidecar files travel with it.
//!
//! A file created on date `(Y, M, D)` is moved to
//! `root/Y/MM - MonthName/Y-MM-DD/name`, where `MM` and `DD` are
//! zero-padded to two digits, the year of the day directory to four, and
//! `name` is the original file name with its extension lowered. For each
//! of the sidecar extensions `dop` and `xmp`, a file named like the moved
//! file (extension already lowered) with that extension appended is, when
//! present beside the original, moved into the same day directory.

use vstd::prelude::*;
use vstd::string::StringExecFns;

use crate::date::Date;
use crate::date::month_name;
use crate::date::spec_month_name;
use crate::pathname::file_name_part;
use crate::pathname::join_path;
use crate::pathname::lowered_path;
use crate::pathname::spec_file_name;
use crate::pathname::spec_join;
use crate::pathname::spec_lowered_path;
use crate::text::decimal_string;
use crate::text::pad2_string;
use crate::text::pad4_string;
use crate::text::spec_decimal;
use crate::text::spec_pad2;
use crate::text::spec_pad4;

verus! {

/// The month directory name: the zero-padded month number and the month
/// name, as in `03 - March`.
pub open spec fn spec_month_dir(m: int) -> Seq<char> {
    spec_pad2(m) + " - "@ + spec_month_name(m)
}

/// The day directory name, as in `2023-03-05`.
pub open spec fn spec_day_dir(d: Date) -> Seq<char> {
    spec_pad4(d.year as int) + "-"@ + spec_pad2(d.month as int) + "-"@ + spec_pad2(d.day as int)
}

/// The directory every file created on date `d` is moved into:
/// `root/Y/MM - MonthName/Y-MM-DD`. It depends on the root and the date
/// alone, so files of one creation date share one leaf directory.
pub open spec fn spec_dest_dir(root: Seq<char>, d: Date) -> Seq<char> {
    spec_join(
        spec_join(spec_join(root, spec_decimal(d.year as int)), spec_month_dir(d.month as int)),
        spec_day_dir(d),
    )
}

/// The full destination of the file at `p` created on `d`: the day
/// directory, then the file's name with its extension lowered.
pub open spec fn spec_dest_path(root: Seq<char>, p: Seq<char>, d: Date) -> Seq<char> {
    spec_join(spec_dest_dir(root, d), spec_file_name(spec_lowered_path(p)))
}

/// Where a sidecar of the file at `p` is looked for: the path of the
/// moved file's name at the original location (extension already
/// lowered), with `.` and the sidecar extension appended.
pub open spec fn spec_sidecar_source(p: Seq<char>, ext: Seq<char>) -> Seq<char> {
    spec_lowered_path(p) + seq!['.'] + ext
}

/// Where that sidecar goes: the same day directory, under its own name.
pub open spec fn spec_sidecar_dest(root: Seq<char>, p: Seq<char>, d: Date, ext: Seq<char>) -> Seq<
    char,
> {
    spec_join(spec_dest_dir(root, d), spec_file_name(spec_sidecar_source(p, ext)))
}

/// One pending rename: a sidecar's current path and its destination.
pub struct SidecarMove {
    pub source: String,
    pub dest: String,
}

/// Everything the relocation of one file needs: the directory to ensure,
/// the target path of the rename, and the two candidate sidecar renames.
pub struct RelocationPlan {
    pub final_dir: String,
    pub final_path: String,
    pub sidecars: Vec<SidecarMove>,
}

/// Computes the relocation of the file at `original`, created on `date`,
/// into the tree under `dest_root`: the day directory, the file's target
/// path, and the two candidate sidecar moves (`dop`, then `xmp`).
pub fn plan_relocation(dest_root: &str, original: &str, date: Date) -> (plan: RelocationPlan)
    requires
        date.valid(),
    ensures
        plan.final_dir@ == spec_dest_dir(dest_root@, date),
        plan.final_path@ == spec_dest_path(dest_root@, original@, date),
        plan.sidecars@.len() == 2,
        plan.sidecars@[0].source@ == spec_sidecar_source(original@, seq!['d', 'o', 'p']),
        plan.sidecars@[0].dest@ == spec_sidecar_dest(
            dest_root@,
            original@,
            date,
            seq!['d', 'o', 'p'],
        ),
        plan.sidecars@[1].source@ == spec_sidecar_source(original@, seq!['x', 'm', 'p']),
        plan.sidecars@[1].dest@ == spec_sidecar_dest(
            dest_root@,
            original@,
            date,
            seq!['x', 'm', 'p'],
        ),
{
    let year_dir = decimal_string(date.year);
    let level1 = join_path(dest_root, year_dir.as_str());

    let mut month_dir = pad2_string(date.month);
    month_dir.append(" - ");
    month_dir.append(month_name(date.month));
    proof {
        assert(month_dir@ =~= spec_month_dir(date.month as int));
    }
    let level2 = join_path(level1.as_str(), month_dir.as_str());

    let mut day_dir = pad4_string(date.year);
    day_dir.append("-");
    let month2 = pad2_string(date.month);
    day_dir.append(month2.as_str());
    day_dir.append("-");
    let day2 = pad2_string(date.day);
    day_dir.append(day2.as_str());
    proof {
        assert(day_dir@ =~= spec_day_dir(date));
    }
    let final_dir = join_path(level2.as_str(), day_dir.as_str());

    let lowered = lowered_path(original);
    let name = file_name_part(lowered.as_str());
    let final_path = join_path(final_dir.as_str(), name.as_str());

    let mut sidecars: Vec<SidecarMove> = Vec::new();

    let mut dop_source = lowered.clone();
    dop_source.append(".dop");
    proof {
        reveal_strlit(".dop");
        assert(dop_source@ =~= spec_sidecar_source(original@, seq!['d', 'o', 'p']));
    }
    let dop_name = file_name_part(dop_source.as_str());
    let dop_dest = join_path(final_dir.as_str(), dop_name.as_str());
    sidecars.push(SidecarMove { source: dop_source, dest: dop_dest });

    let mut xmp_source = lowered.clone();
    xmp_source.append(".xmp");
    proof {
        reveal_strlit(".xmp");
        assert(xmp_source@ =~= spec_sidecar_source(original@, seq!['x', 'm', 'p']));
    }
    let xmp_name = file_name_part(xmp_source.as_str());
    let xmp_dest = join_path(final_dir.as_str(), xmp_name.as_str());
    sidecars.push(SidecarMove { source: xmp_source, dest: xmp_dest });

    RelocationPlan { final_dir, final_path, sidecars }
}

/// The sidecar moves to perform: of the candidate moves, exactly those
/// whose source file is present, in the order given.
pub open spec fn spec_present_moves(moves: Seq<SidecarMove>, present: Seq<bool>) -> Seq<SidecarMove>
    recommends
        moves.len() == present.len(),
    decreases moves.len(),
{
    if moves.len() == 0 {
        Seq::empty()
    } else {
        spec_present_moves(moves.drop_last(), present.drop_last()) + if present.last() {
            seq![moves.last()]
        } else {
            Seq::empty()
        }
    }
}

/// Keeps the sidecar moves whose source exists: `present[i]` says whether
/// the file at `plan.sidecars[i].source` was found beside the original.
/// A sidecar is moved if and only if it is present; an absent one is no
/// error.
pub fn sidecar_moves_to_perform(plan: &RelocationPlan, present: &Vec<bool>) -> (r: Vec<SidecarMove>)
    requires
        present@.len() == plan.sidecars@.len(),
    ensures
        r@ == spec_present_moves(plan.sidecars@, present@),
{
    let mut r: Vec<SidecarMove> = Vec::new();
    let n = plan.sidecars.len();
    let mut i: usize = 0;
    proof {
        assert(plan.sidecars@.take(0) =~= Seq::<SidecarMove>::empty());
        assert(present@.take(0) =~= Seq::<bool>::empty());
    }
    while i < n
        invariant
            i <= n,
            n == plan.sidecars@.len(),
            n == present@.len(),
            r@ == spec_present_moves(plan.sidecars@.take(i as int), present@.take(i as int)),
        decreases n - i,
    {
        if present[i] {
            let m = SidecarMove {
                source: plan.sidecars[i].source.clone(),
                dest: plan.sidecars[i].dest.clone(),
            };
            proof {
                assert(m == plan.sidecars@[i as int]);
            }
            r.push(m);
        }
        proof {
            assert(plan.sidecars@.take(i + 1).drop_last() =~= plan.sidecars@.take(i as int));
            assert(present@.take(i + 1).drop_last() =~= present@.take(i as int));
            assert(plan.sidecars@.take(i + 1).last() == plan.sidecars@[i as int]);
            assert(present@.take(i + 1).last() == present@[i as int]);
        }
        i = i + 1;
    }
    proof {
        assert(plan.sidecars@.take(n as int) =~= plan.sidecars@);
        assert(present@.take(n as int) =~= present@);
    }
    r
}

} // verus!
