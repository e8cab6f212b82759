//! The items of other crates and of the standard library that the verified
//! code relies on without proof.

use crate::engine::{report_entry, report_matches};
use crate::item::FileSystemItem;
use crate::walk::{total_file_size, WalkEntry};
use rayon::iter::{IntoParallelIterator, IntoParallelRefIterator, ParallelIterator};
use std::time::SystemTime;
use vstd::prelude::*;

verus! {

/// `std::time::SystemTime`, a point in time as the system clock reports it.
/// Nothing is claimed of its contents: the library only carries such values
/// from an entry to the item reported for it.
#[verifier::external_type_specification]
#[verifier::external_body]
pub struct ExSystemTime(std::time::SystemTime);

/// `Clone::clone` of `std::time::SystemTime`. The type is `Copy`, so the clone
/// is the same point in time.
pub assume_specification[ <std::time::SystemTime as Clone>::clone ](
    time: &std::time::SystemTime,
) -> (copy: std::time::SystemTime)
    ensures
        copy == *time,
;

/// The sum of a sequence of byte counts.
pub open spec fn sum_of(sizes: Seq<u64>) -> nat
    decreases sizes.len(),
{
    if sizes.len() == 0 {
        0
    } else {
        sum_of(sizes.drop_last()) + sizes.last() as nat
    }
}

/// Adds up byte counts on rayon's thread pool, with `ParallelIterator::sum`
/// over `par_iter` of the slice. rayon splits the items among its workers,
/// adds each share with `+` and adds the partial sums with `+`, in an order it
/// does not fix. Where the whole sum fits in a `u64` no partial sum can
/// overflow, and since `+` on integers is associative and commutative the
/// result is the sum whatever the order.
#[verifier::external_body]
pub(crate) fn parallel_sum(sizes: &Vec<u64>) -> (total: u64)
    requires
        sum_of(sizes@) <= u64::MAX,
    ensures
        total == sum_of(sizes@),
{
    sizes.par_iter().sum()
}

/// Decides on every entry of a walk on rayon's thread pool: `into_par_iter`
/// over the positions of the walk, `ParallelIterator::map` with the verified
/// `report_entry`, and `collect` into a `Vec`. rayon calls the function once
/// for each position, on whichever worker is free, and `collect` puts the
/// results in the order of the positions. So the result is as long as the
/// walk, and at each position stands what `report_entry` returns for the
/// entry there; the call returns when all of them are in.
#[verifier::external_body]
pub(crate) fn parallel_reports(walk: &[WalkEntry], size_limit: u64, now: SystemTime) -> (reports:
    Vec<Option<FileSystemItem>>)
    requires
        total_file_size(walk@) <= u64::MAX,
    ensures
        reports@.len() == walk@.len(),
        forall|i: int|
            0 <= i < walk@.len() ==> report_matches(walk@, i, size_limit, now, #[trigger] reports@[i]),
{
    (0..walk.len()).into_par_iter().map(|i| report_entry(walk, i, size_limit, now)).collect()
}

} // verus!
