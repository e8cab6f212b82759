//! What holds of every rendering, of every scan and of every deletion plan,
//! proved from the definitions that the contracts use.

use crate::deletion::{dir_plan, file_steps, subdir_steps, Node, RemovalView};
use crate::engine::{
    is_reported, item_for, lemma_reported_size_fits, lemma_subtree_end, scan_prefix, scan_result,
    subtree, subtree_end,
};
use crate::formatter::{hundredths, round_half_even, unit_index, unit_size};
use crate::item::ItemView;
use crate::walk::{lemma_total_splits, total_file_size, EntryKind, WalkEntry};
use std::time::SystemTime;
use vstd::arithmetic::div_mod::{lemma_fundamental_div_mod, lemma_mod_bound};
use vstd::prelude::*;

verus! {

/// The number of reported entries among the first `n` of a walk. For a
/// reported entry `n` this is the place of its item in the result.
pub open spec fn reported_before(walk: Seq<WalkEntry>, n: int, size_limit: u64) -> nat
    decreases n,
{
    if n <= 0 {
        0
    } else if is_reported(walk, n - 1, size_limit) {
        reported_before(walk, n - 1, size_limit) + 1
    } else {
        reported_before(walk, n - 1, size_limit)
    }
}

/// Whether place `k` of a result belongs to a reported entry among the first
/// `n` of the walk.
pub open spec fn has_source(walk: Seq<WalkEntry>, n: int, size_limit: u64, k: int) -> bool {
    exists|i: int|
        #![trigger reported_before(walk, i, size_limit)]
        0 <= i < n && is_reported(walk, i, size_limit) && reported_before(walk, i, size_limit) == k
}

/// The paths and sizes of a list of items, in order.
pub open spec fn paths_and_sizes(items: Seq<ItemView>) -> Seq<(Seq<char>, u64)> {
    items.map_values(|item: ItemView| (item.path, item.size))
}

/// The count of reported entries never falls as the walk goes on, and rises
/// past every reported entry.
pub proof fn lemma_reported_before_grows(walk: Seq<WalkEntry>, i: int, j: int, size_limit: u64)
    requires
        0 <= i <= j,
    ensures
        reported_before(walk, i, size_limit) <= reported_before(walk, j, size_limit),
        i < j && is_reported(walk, i, size_limit) ==> reported_before(walk, i, size_limit)
            < reported_before(walk, j, size_limit),
    decreases j - i,
{
    if i < j {
        lemma_reported_before_grows(walk, i, j - 1, size_limit);
    }
}

/// The items for the first `n` entries: there is one for each reported entry,
/// at the place that the count of reported entries before it gives, and none
/// besides.
pub proof fn lemma_prefix_inclusion(walk: Seq<WalkEntry>, n: int, size_limit: u64, now: SystemTime)
    requires
        0 <= n <= walk.len(),
    ensures
        scan_prefix(walk, n, size_limit, now).len() == reported_before(walk, n, size_limit),
        forall|i: int|
            0 <= i < n && is_reported(walk, i, size_limit) ==> {
                &&& (#[trigger] reported_before(walk, i, size_limit)) < scan_prefix(
                    walk,
                    n,
                    size_limit,
                    now,
                ).len()
                &&& scan_prefix(walk, n, size_limit, now)[reported_before(walk, i, size_limit) as int]
                    == item_for(walk, i, now)
            },
        forall|k: int|
            0 <= k < scan_prefix(walk, n, size_limit, now).len() ==> #[trigger] has_source(
                walk,
                n,
                size_limit,
                k,
            ),
    decreases n,
{
    if n > 0 {
        lemma_prefix_inclusion(walk, n - 1, size_limit, now);
        let shorter = scan_prefix(walk, n - 1, size_limit, now);
        let longer = scan_prefix(walk, n, size_limit, now);
        assert forall|i: int| 0 <= i < n && is_reported(walk, i, size_limit) implies {
            &&& (#[trigger] reported_before(walk, i, size_limit)) < longer.len()
            &&& longer[reported_before(walk, i, size_limit) as int] == item_for(walk, i, now)
        } by {
            if i < n - 1 {
                assert(reported_before(walk, i, size_limit) < shorter.len());
            }
        }
        assert forall|k: int| 0 <= k < longer.len() implies #[trigger] has_source(
            walk,
            n,
            size_limit,
            k,
        ) by {
            if k < shorter.len() {
                assert(has_source(walk, n - 1, size_limit, k));
                let i = choose|i: int|
                    #![trigger reported_before(walk, i, size_limit)]
                    0 <= i < n - 1 && is_reported(walk, i, size_limit) && reported_before(
                        walk,
                        i,
                        size_limit,
                    ) == k;
                assert(0 <= i < n && is_reported(walk, i, size_limit) && reported_before(
                    walk,
                    i,
                    size_limit,
                ) == k);
            } else {
                assert(is_reported(walk, n - 1, size_limit));
                assert(reported_before(walk, n - 1, size_limit) == k);
            }
        }
    }
}

/// Threshold inclusion. Every file whose size, and every directory whose
/// total, is at least the threshold has its item in the result, at the place
/// that the count of reported entries before it gives; two such entries have
/// different places, so each appears once; and every item of the result is
/// the item of such an entry, so an entry below the threshold, or one that is
/// neither file nor directory, does not appear.
pub proof fn lemma_threshold_inclusion(walk: Seq<WalkEntry>, size_limit: u64, now: SystemTime)
    ensures
        scan_result(walk, size_limit, now).len() == reported_before(
            walk,
            walk.len() as int,
            size_limit,
        ),
        forall|i: int|
            0 <= i < walk.len() && is_reported(walk, i, size_limit) ==> {
                &&& (#[trigger] reported_before(walk, i, size_limit)) < scan_result(
                    walk,
                    size_limit,
                    now,
                ).len()
                &&& scan_result(walk, size_limit, now)[reported_before(walk, i, size_limit) as int]
                    == item_for(walk, i, now)
            },
        forall|i: int, j: int|
            0 <= i < j < walk.len() && is_reported(walk, i, size_limit) ==> (
            #[trigger] reported_before(walk, i, size_limit)) < (#[trigger] reported_before(
                walk,
                j,
                size_limit,
            )),
        forall|k: int|
            0 <= k < scan_result(walk, size_limit, now).len() ==> #[trigger] has_source(
                walk,
                walk.len() as int,
                size_limit,
                k,
            ),
{
    lemma_prefix_inclusion(walk, walk.len() as int, size_limit, now);
    assert forall|i: int, j: int|
        0 <= i < j < walk.len() && is_reported(walk, i, size_limit) implies (
    #[trigger] reported_before(walk, i, size_limit)) < (#[trigger] reported_before(
        walk,
        j,
        size_limit,
    )) by {
        lemma_reported_before_grows(walk, i, j, size_limit);
    }
}

/// Directory totals. The item of a reported directory is no file item, and
/// its size is the sum of the sizes of the regular files among the entries
/// below the directory: those from the directory up to the end of its subtree.
pub proof fn lemma_directory_total(walk: Seq<WalkEntry>, i: int, size_limit: u64, now: SystemTime)
    requires
        0 <= i < walk.len(),
        walk[i].kind == EntryKind::Dir,
        is_reported(walk, i, size_limit),
        total_file_size(walk) <= u64::MAX,
    ensures
        reported_before(walk, i, size_limit) < scan_result(walk, size_limit, now).len(),
        !scan_result(walk, size_limit, now)[reported_before(walk, i, size_limit) as int].is_file,
        scan_result(walk, size_limit, now)[reported_before(walk, i, size_limit) as int].size
            == total_file_size(walk.subrange(i, subtree_end(walk, i))),
        total_file_size(walk.subrange(i, subtree_end(walk, i))) == total_file_size(
            walk.subrange(i + 1, subtree_end(walk, i)),
        ),
{
    lemma_threshold_inclusion(walk, size_limit, now);
    lemma_reported_size_fits(walk, i);
    lemma_subtree_end(walk, i);
    let below = subtree(walk, i);
    lemma_total_splits(below, 1);
    assert(below.skip(1) =~= walk.subrange(i + 1, subtree_end(walk, i)));
    assert(below.take(1).drop_last() =~= Seq::<WalkEntry>::empty());
    assert(total_file_size(below.take(1).drop_last()) == 0);
    assert(below.take(1).last() == walk[i]);
}

/// A scan repeated. Two scans of the same walk with the same threshold give
/// the same paths with the same sizes, in the same order, at whatever times
/// they are made.
pub proof fn lemma_scan_repeats(
    walk: Seq<WalkEntry>,
    size_limit: u64,
    first_now: SystemTime,
    second_now: SystemTime,
)
    ensures
        paths_and_sizes(scan_result(walk, size_limit, first_now)) == paths_and_sizes(
            scan_result(walk, size_limit, second_now),
        ),
{
    lemma_prefix_repeats(walk, walk.len() as int, size_limit, first_now, second_now);
}

/// The step of `lemma_scan_repeats`, for the first `n` entries.
pub proof fn lemma_prefix_repeats(
    walk: Seq<WalkEntry>,
    n: int,
    size_limit: u64,
    first_now: SystemTime,
    second_now: SystemTime,
)
    ensures
        paths_and_sizes(scan_prefix(walk, n, size_limit, first_now)) == paths_and_sizes(
            scan_prefix(walk, n, size_limit, second_now),
        ),
    decreases n,
{
    if n > 0 {
        lemma_prefix_repeats(walk, n - 1, size_limit, first_now, second_now);
        let first = scan_prefix(walk, n - 1, size_limit, first_now);
        let second = scan_prefix(walk, n - 1, size_limit, second_now);
        if is_reported(walk, n - 1, size_limit) {
            let a = item_for(walk, n - 1, first_now);
            let b = item_for(walk, n - 1, second_now);
            assert(paths_and_sizes(first.push(a)) =~= paths_and_sizes(first).push((a.path, a.size)));
            assert(paths_and_sizes(second.push(b)) =~= paths_and_sizes(second).push(
                (b.path, b.size),
            ));
        }
    } else {
        assert(paths_and_sizes(scan_prefix(walk, n, size_limit, first_now)) =~= paths_and_sizes(
            scan_prefix(walk, n, size_limit, second_now),
        ));
    }
}

/// No double counting. Where entry `j` lies below entry `i`, all that lies
/// below `j` lies below `i` too, and the total below `i` is the total of the
/// entries before `j`, plus the total below `j`, plus the total of the entries
/// after those of `j`: what lies below `j` is counted once.
pub proof fn lemma_subdirectory_counted_once(walk: Seq<WalkEntry>, i: int, j: int)
    requires
        0 <= i < j < subtree_end(walk, i),
        i < walk.len(),
    ensures
        j < subtree_end(walk, j) <= subtree_end(walk, i) <= walk.len(),
        total_file_size(subtree(walk, i)) == total_file_size(walk.subrange(i, j))
            + total_file_size(subtree(walk, j)) + total_file_size(
            walk.subrange(subtree_end(walk, j), subtree_end(walk, i)),
        ),
{
    lemma_subtree_end(walk, i);
    lemma_subtree_end(walk, j);
    let outer_end = subtree_end(walk, i);
    let inner_end = subtree_end(walk, j);
    assert(walk[j].depth > walk[i].depth);
    if inner_end > outer_end {
        assert(walk[outer_end].depth > walk[j].depth);
    }
    let outer = subtree(walk, i);
    lemma_total_splits(outer, j - i);
    assert(outer.take(j - i) =~= walk.subrange(i, j));
    let rest = outer.skip(j - i);
    lemma_total_splits(rest, inner_end - j);
    assert(rest.take(inner_end - j) =~= subtree(walk, j));
    assert(rest.skip(inner_end - j) =~= walk.subrange(inner_end, outer_end));
}

/// The number of entries among the first `n` children, each directory counted
/// with all that it holds.
pub open spec fn entries_in(children: Seq<Node>, n: int) -> nat
    decreases children, n,
{
    if n <= 0 || n > children.len() {
        0
    } else {
        match children[n - 1] {
            Node::File { .. } => entries_in(children, n - 1) + 1,
            Node::Dir { children: inner, .. } => entries_in(children, n - 1) + entries_in(
                inner@,
                inner@.len() as int,
            ) + 1,
        }
    }
}

/// The removals for the first `n` children are as many as the entries among
/// them.
pub proof fn lemma_steps_count(children: Seq<Node>, n: int)
    requires
        0 <= n <= children.len(),
    ensures
        file_steps(children, n).len() + subdir_steps(children, n).len() == entries_in(children, n),
    decreases children, n,
{
    if n > 0 {
        lemma_steps_count(children, n - 1);
        match children[n - 1] {
            Node::File { .. } => {},
            Node::Dir { path, children: inner } => {
                lemma_steps_count(inner@, inner@.len() as int);
                assert(dir_plan(path@, inner@).len() == entries_in(inner@, inner@.len() as int)
                    + 1);
            },
        }
    }
}

/// Depth-first deletion. The plan for a directory removes each entry below
/// the directory once and then the directory: it is one longer than the
/// number of entries below the directory, and its last removal is that of the
/// directory itself.
pub proof fn lemma_directory_goes_last(path: Seq<char>, children: Seq<Node>)
    ensures
        dir_plan(path, children).len() == entries_in(children, children.len() as int) + 1,
        dir_plan(path, children).last() == RemovalView::Dir(path),
{
    lemma_steps_count(children, children.len() as int);
}

/// Files before subdirectories. The plan for a directory starts with the
/// removals of its own files, in the order of the listing.
pub proof fn lemma_files_go_first(path: Seq<char>, children: Seq<Node>)
    ensures
        file_steps(children, children.len() as int).len() <= dir_plan(path, children).len(),
        dir_plan(path, children).take(file_steps(children, children.len() as int).len() as int)
            == file_steps(children, children.len() as int),
{
    let files = file_steps(children, children.len() as int);
    assert(dir_plan(path, children).take(files.len() as int) =~= files);
}

/// The unit of a rendering. A size below 1024 is shown in bytes; any other
/// size is shown in a unit that it reaches, and, short of the largest unit,
/// does not reach the next one: 1024 times the unit.
pub proof fn lemma_unit_fits(size: nat)
    ensures
        unit_index(size) <= 4,
        size < 1024 <==> unit_index(size) == 0,
        unit_index(size) > 0 ==> unit_size(unit_index(size)) <= size,
        unit_index(size) < 4 ==> size < 1024 * unit_size(unit_index(size)),
        unit_index(size) < 4 ==> unit_size(unit_index(size) + 1) == 1024 * unit_size(
            unit_index(size),
        ),
{
}

/// Rounding to the nearest. A quotient rounded half to even differs from the
/// exact quotient by at most one half.
pub proof fn lemma_round_nearest(numerator: nat, denominator: nat)
    requires
        denominator > 0,
    ensures
        2 * (round_half_even(numerator, denominator) * denominator - numerator) <= denominator,
        2 * (numerator - round_half_even(numerator, denominator) * denominator) <= denominator,
{
    let quotient = numerator / denominator;
    let remainder = numerator % denominator;
    lemma_fundamental_div_mod(numerator as int, denominator as int);
    lemma_mod_bound(numerator as int, denominator as int);
    assert(numerator == quotient * denominator + remainder) by (nonlinear_arith)
        requires
            numerator == denominator * quotient + remainder,
    ;
    assert((quotient + 1) * denominator == quotient * denominator + denominator)
        by (nonlinear_arith);
}

/// The number of a rendering. The hundredths shown are the nearest to the
/// exact quotient of the size by its unit: they differ from it by at most
/// half a hundredth. Short of the largest unit they are at most 1024.00.
pub proof fn lemma_hundredths_nearest(size: nat)
    ensures
        2 * (hundredths(size) * unit_size(unit_index(size)) - 100 * size) <= unit_size(
            unit_index(size),
        ),
        2 * (100 * size - hundredths(size) * unit_size(unit_index(size))) <= unit_size(
            unit_index(size),
        ),
        unit_index(size) < 4 ==> hundredths(size) <= 102400,
{
    lemma_round_nearest(size * 100, unit_size(unit_index(size)));
}

} // verus!
