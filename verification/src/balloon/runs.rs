//! Runs of host pages: as few releases as the pages allow.
use crate::balloon::reclaim;
use crate::balloon::reclaim::{ReclaimCoalescer, Run};
use vstd::prelude::*;
use vstd::relations::{sorted_by, total_ordering};

verus! {

/// Runs in order of their host address, then of the other two.
pub open spec fn run_le(a: Run, b: Run) -> bool {
    a.0 < b.0 || (a.0 == b.0 && (a.1 < b.1 || (a.1 == b.1 && a.2 <= b.2)))
}

/// The run follows another in both address spaces.
pub open spec fn follows(a: Run, b: Run) -> bool {
    a.0 + a.2 == b.0 && a.1 + a.2 == b.1
}

/// Runs joined, each with those that follow it.
pub open spec fn merged(runs: Seq<Run>) -> Seq<Run>
    decreases runs.len(),
{
    if runs.len() == 0 {
        Seq::empty()
    } else {
        let before = merged(runs.drop_last());
        let run = runs.last();
        if before.len() > 0 && follows(before.last(), run) {
            let last = before.last();
            before.update(before.len() - 1, (last.0, last.1, (last.2 + run.2) as usize))
        } else {
            before.push(run)
        }
    }
}

/// The run does not reach over the top of the host's address space.
pub open spec fn in_range(r: Run) -> bool {
    r.0 + r.2 <= usize::MAX
}

/// `inner` lies in `outer`, at the same place in both address spaces.
pub open spec fn inside(inner: Run, outer: Run) -> bool {
    &&& outer.0 <= inner.0
    &&& inner.0 + inner.2 <= outer.0 + outer.2
    &&& inner.0 - outer.0 == inner.1 - outer.1
}

/// Sorts runs by `slice::sort_unstable`: the same runs, in the order of their three numbers.
#[verifier::external_body]
fn sort_runs(runs: &mut Vec<Run>)
    ensures
        sorted_by(final(runs)@, |a: Run, b: Run| run_le(a, b)),
        final(runs)@.to_multiset() == old(runs)@.to_multiset(),
{
    runs.sort_unstable();
}

proof fn lemma_run_order()
    ensures
        total_ordering(|a: Run, b: Run| run_le(a, b)),
{
}

/// The runs in order.
pub open spec fn in_order(runs: Seq<Run>) -> Seq<Run> {
    runs.sort_by(|a: Run, b: Run| run_le(a, b))
}

/// Joining keeps runs inside the address space.
proof fn lemma_merged_in_range(runs: Seq<Run>)
    requires
        forall|i: int| 0 <= i < runs.len() ==> in_range(#[trigger] runs[i]),
    ensures
        forall|i: int| 0 <= i < merged(runs).len() ==> in_range(#[trigger] merged(runs)[i]),
    decreases runs.len(),
{
    if runs.len() > 0 {
        assert forall|i: int| 0 <= i < runs.drop_last().len() implies in_range(
            #[trigger] runs.drop_last()[i],
        ) by {
            assert(runs.drop_last()[i] == runs[i]);
        }
        lemma_merged_in_range(runs.drop_last());
        let before = merged(runs.drop_last());
        assert(in_range(runs[runs.len() - 1]));
        assert forall|i: int| 0 <= i < merged(runs).len() implies in_range(
            #[trigger] merged(runs)[i],
        ) by {
            if i < before.len() {
                assert(in_range(before[i]));
            }
        }
    }
}

/// Joins runs that follow each other in both address spaces into as few as they make.
pub fn merge_runs(pages: Vec<Run>) -> (out: Vec<Run>)
    requires
        forall|i: int| 0 <= i < pages@.len() ==> in_range(#[trigger] pages@[i]),
    ensures
        out@ == merged(in_order(pages@)),
        forall|i: int| 0 <= i < out@.len() ==> in_range(#[trigger] out@[i]),
{
    let mut runs: Vec<Run> = pages;
    sort_runs(&mut runs);
    proof {
        lemma_run_order();
        pages@.lemma_sort_by_ensures(|a: Run, b: Run| run_le(a, b));
        vstd::seq_lib::lemma_sorted_unique(
            runs@,
            in_order(pages@),
            |a: Run, b: Run| run_le(a, b),
        );
        lemma_same_runs(pages@, runs@);
    }
    let mut out: Vec<Run> = Vec::new();
    let mut i: usize = 0;
    assert(runs@.take(0) =~= Seq::empty());
    while i < runs.len()
        invariant
            i <= runs@.len(),
            forall|j: int| 0 <= j < runs@.len() ==> in_range(#[trigger] runs@[j]),
            out@ == merged(runs@.take(i as int)),
            forall|j: int| 0 <= j < out@.len() ==> in_range(#[trigger] out@[j]),
        decreases runs@.len() - i,
    {
        let run: Run = runs[i];
        let n: usize = out.len();
        proof {
            assert(runs@.take(i + 1).drop_last() =~= runs@.take(i as int));
            assert(in_range(runs@[i as int]));
        }
        let joins: bool = if n > 0 {
            let last: Run = out[n - 1];
            last.0 + last.2 == run.0 && last.1 as u128 + last.2 as u128 == run.1 as u128
        } else {
            false
        };
        if joins {
            let last: Run = out[n - 1];
            out.set(n - 1, (last.0, last.1, last.2 + run.2));
        } else {
            out.push(run);
        }
        i = i + 1;
    }
    assert(runs@.take(runs@.len() as int) =~= runs@);
    out
}

/// A reordering holds the same runs.
proof fn lemma_same_runs(a: Seq<Run>, b: Seq<Run>)
    requires
        a.to_multiset() == b.to_multiset(),
    ensures
        a.len() == b.len(),
        forall|i: int| 0 <= i < b.len() ==> a.contains(#[trigger] b[i]),
        forall|i: int| 0 <= i < a.len() ==> b.contains(#[trigger] a[i]),
{
    broadcast use vstd::seq_lib::group_to_multiset_ensures;

    assert(a.to_multiset().len() == a.len());
    assert(b.to_multiset().len() == b.len());
    assert forall|i: int| 0 <= i < b.len() implies a.contains(#[trigger] b[i]) by {
        assert(b.to_multiset().count(b[i]) > 0);
    }
    assert forall|i: int| 0 <= i < a.len() implies b.contains(#[trigger] a[i]) by {
        assert(a.to_multiset().count(a[i]) > 0);
    }
}

/// Joining loses nothing and moves nothing: every page lies in a run, at the same place in both
/// address spaces.
pub proof fn law_merge_covers(runs: Seq<Run>, i: int)
    requires
        0 <= i < runs.len(),
        forall|j: int| 0 <= j < runs.len() ==> in_range(#[trigger] runs[j]),
    ensures
        exists|k: int| 0 <= k < merged(runs).len() && inside(runs[i], #[trigger] merged(runs)[k]),
    decreases runs.len(),
{
    let short = runs.drop_last();
    assert forall|j: int| 0 <= j < short.len() implies in_range(#[trigger] short[j]) by {
        assert(short[j] == runs[j]);
    }
    lemma_merged_in_range(short);
    lemma_merged_in_range(runs);
    assert(in_range(runs[runs.len() - 1]));
    if i < runs.len() - 1 {
        law_merge_covers(short, i);
        let k = choose|k: int|
            0 <= k < merged(short).len() && inside(short[i], #[trigger] merged(short)[k]);
        assert(inside(runs[i], merged(runs)[k]));
    } else {
        let k = merged(runs).len() - 1;
        assert(inside(runs[i], merged(runs)[k]));
    }
}

/// Joining adds nothing: every byte of a run comes from one of the pages, which lies in it at the
/// same place in both address spaces.
pub proof fn law_merge_adds_nothing(runs: Seq<Run>, k: int, p: int)
    requires
        0 <= k < merged(runs).len(),
        forall|j: int| 0 <= j < runs.len() ==> in_range(#[trigger] runs[j]),
        merged(runs)[k].0 <= p < merged(runs)[k].0 + merged(runs)[k].2,
    ensures
        exists|i: int|
            0 <= i < runs.len() && (#[trigger] runs[i]).0 <= p < runs[i].0 + runs[i].2 && inside(
                runs[i],
                merged(runs)[k],
            ),
    decreases runs.len(),
{
    let short = runs.drop_last();
    let last = runs.len() - 1;
    lemma_merged_in_range(runs);
    assert forall|j: int| 0 <= j < short.len() implies in_range(#[trigger] short[j]) by {
        assert(short[j] == runs[j]);
    }
    lemma_merged_in_range(short);
    assert(in_range(runs[last]));
    if k == merged(runs).len() - 1 && runs[last].0 <= p < runs[last].0 + runs[last].2 {
        assert(inside(runs[last], merged(runs)[k]));
    } else {
        assert(k < merged(short).len() && merged(short)[k].0 <= p < merged(short)[k].0 + merged(
            short,
        )[k].2);
        law_merge_adds_nothing(short, k, p);
        let i = choose|i: int|
            0 <= i < short.len() && (#[trigger] short[i]).0 <= p < short[i].0 + short[i].2
                && inside(short[i], merged(short)[k]);
        assert(runs[i] == short[i]);
        assert(inside(runs[i], merged(runs)[k]));
    }
}

/// No run is empty.
pub open spec fn nonempty(runs: Seq<Run>) -> bool {
    forall|i: int| 0 <= i < runs.len() ==> (#[trigger] runs[i]).2 > 0
}

/// No two of the runs share a host address.
pub open spec fn disjoint(runs: Seq<Run>) -> bool {
    forall|i: int, j: int|
        0 <= i < j < runs.len() ==> (#[trigger] runs[i]).0 + runs[i].2 <= (#[trigger] runs[j]).0
            || runs[j].0 + runs[j].2 <= runs[i].0
}

/// Each run ends before the next one begins.
pub open spec fn apart(runs: Seq<Run>) -> bool {
    forall|i: int, j: int|
        0 <= i < j < runs.len() ==> (#[trigger] runs[i]).0 + runs[i].2 <= (#[trigger] runs[j]).0
}

/// Every run is made of whole host pages.
pub open spec fn whole_pages(host_page: usize, runs: Seq<Run>) -> bool {
    forall|i: int|
        0 <= i < runs.len() ==> {
            &&& (#[trigger] runs[i]).2 > 0
            &&& runs[i].0 % host_page == 0
            &&& runs[i].2 % host_page == 0
        }
}

/// One of the runs puts host address `host` at guest-physical address `gpa`.
pub open spec fn maps(runs: Seq<Run>, host: int, gpa: int) -> bool {
    exists|i: int|
        0 <= i < runs.len() && (#[trigger] runs[i]).0 <= host < runs[i].0 + runs[i].2 && gpa
            - runs[i].1 == host - runs[i].0
}

/// Runs that do not overlap are joined into runs that increase, of which none follows another, and
/// which put the same host addresses at the same places in the guest. The order in which the runs
/// came does not matter.
pub proof fn law_merged_runs_are_maximal(pages: Seq<Run>, other: Seq<Run>, host: int, gpa: int)
    requires
        nonempty(pages),
        disjoint(pages),
        forall|i: int| 0 <= i < pages.len() ==> in_range(#[trigger] pages[i]),
        other.to_multiset() == pages.to_multiset(),
    ensures
        ({
            let out = merged(in_order(pages));
            &&& nonempty(out)
            &&& apart(out)
            &&& forall|i: int, j: int|
                0 <= i < out.len() && 0 <= j < out.len() ==> !follows(
                    #[trigger] out[i],
                    #[trigger] out[j],
                )
            &&& maps(out, host, gpa) == maps(pages, host, gpa)
            &&& merged(in_order(other)) == out
        }),
{
    let runs = in_order(pages);
    let out = merged(runs);
    lemma_in_order(pages);
    lemma_order_is_lost(pages, other);
    lemma_merged_apart(runs);
    assert forall|i: int, j: int| 0 <= i < out.len() && 0 <= j < out.len() implies !follows(
        #[trigger] out[i],
        #[trigger] out[j],
    ) by {
        if follows(out[i], out[j]) {
            assert(i < j) by {
                if j < i {
                    assert(out[j].0 + out[j].2 <= out[i].0);
                }
            }
            assert(!follows(out[i], out[i + 1]));
            if i + 1 < j {
                assert(out[i].0 + out[i].2 <= out[i + 1].0);
                assert(out[i + 1].0 + out[i + 1].2 <= out[j].0);
            }
        }
    }
    if maps(pages, host, gpa) {
        let i = choose|i: int|
            0 <= i < pages.len() && (#[trigger] pages[i]).0 <= host < pages[i].0 + pages[i].2 && gpa
                - pages[i].1 == host - pages[i].0;
        assert(runs.contains(pages[i]));
        let j = choose|j: int| 0 <= j < runs.len() && runs[j] == pages[i];
        law_merge_covers(runs, j);
        let k = choose|k: int| 0 <= k < out.len() && inside(runs[j], #[trigger] out[k]);
        assert(out[k].0 <= host < out[k].0 + out[k].2);
    }
    if maps(out, host, gpa) {
        let k = choose|k: int|
            0 <= k < out.len() && (#[trigger] out[k]).0 <= host < out[k].0 + out[k].2 && gpa
                - out[k].1 == host - out[k].0;
        law_merge_adds_nothing(runs, k, host);
        let i = choose|i: int|
            0 <= i < runs.len() && (#[trigger] runs[i]).0 <= host < runs[i].0 + runs[i].2 && inside(
                runs[i],
                out[k],
            );
        assert(pages.contains(runs[i]));
        let j = choose|j: int| 0 <= j < pages.len() && pages[j] == runs[i];
        assert(pages[j].0 <= host < pages[j].0 + pages[j].2);
    }
}

/// The same runs in another order are sorted the same.
proof fn lemma_order_is_lost(a: Seq<Run>, b: Seq<Run>)
    requires
        a.to_multiset() == b.to_multiset(),
    ensures
        in_order(a) == in_order(b),
{
    let leq = |x: Run, y: Run| run_le(x, y);
    lemma_run_order();
    a.lemma_sort_by_ensures(leq);
    b.lemma_sort_by_ensures(leq);
    vstd::seq_lib::lemma_sorted_unique(in_order(a), in_order(b), leq);
}

/// Runs that do not overlap, in order.
proof fn lemma_in_order(pages: Seq<Run>)
    requires
        nonempty(pages),
        disjoint(pages),
        forall|i: int| 0 <= i < pages.len() ==> in_range(#[trigger] pages[i]),
    ensures
        nonempty(in_order(pages)),
        apart(in_order(pages)),
        forall|i: int| 0 <= i < in_order(pages).len() ==> in_range(#[trigger] in_order(pages)[i]),
        forall|i: int| 0 <= i < in_order(pages).len() ==> pages.contains(#[trigger] in_order(pages)[i]),
        forall|i: int| 0 <= i < pages.len() ==> in_order(pages).contains(#[trigger] pages[i]),
{
    let leq = |x: Run, y: Run| run_le(x, y);
    let runs = in_order(pages);
    lemma_run_order();
    pages.lemma_sort_by_ensures(leq);
    lemma_same_runs(pages, runs);
    assert forall|i: int| 0 <= i < runs.len() implies in_range(#[trigger] runs[i]) && runs[i].2
        > 0 by {
        assert(pages.contains(runs[i]));
    }
    assert(pages.no_duplicates()) by {
        assert forall|i: int, j: int|
            0 <= i < pages.len() && 0 <= j < pages.len() && i != j implies pages[i] != pages[j] by {
            if i < j {
                assert(pages[i].2 > 0 && pages[j].2 > 0);
            } else {
                assert(pages[j].2 > 0 && pages[i].2 > 0);
            }
        }
    }
    pages.lemma_multiset_has_no_duplicates();
    runs.lemma_multiset_has_no_duplicates_conv();
    assert forall|i: int, j: int| 0 <= i < j < runs.len() implies (#[trigger] runs[i]).0 + runs[i].2
        <= (#[trigger] runs[j]).0 by {
        assert(pages.contains(runs[i]));
        assert(pages.contains(runs[j]));
        let a = choose|a: int| 0 <= a < pages.len() && pages[a] == runs[i];
        let b = choose|b: int| 0 <= b < pages.len() && pages[b] == runs[j];
        assert(runs[i] != runs[j]);
        assert(a != b);
        assert(leq(runs[i], runs[j]));
        assert(runs[j].2 > 0);
        if a < b {
            assert(pages[a].0 + pages[a].2 <= pages[b].0 || pages[b].0 + pages[b].2 <= pages[a].0);
        } else {
            assert(pages[b].0 + pages[b].2 <= pages[a].0 || pages[a].0 + pages[a].2 <= pages[b].0);
        }
    }
}

/// Joining runs in order: they stay apart, and none follows the one before it.
proof fn lemma_merged_apart(runs: Seq<Run>)
    requires
        nonempty(runs),
        apart(runs),
        forall|i: int| 0 <= i < runs.len() ==> in_range(#[trigger] runs[i]),
    ensures
        nonempty(merged(runs)),
        apart(merged(runs)),
        (merged(runs).len() > 0) == (runs.len() > 0),
        runs.len() > 0 ==> merged(runs).last().0 + merged(runs).last().2 == runs.last().0
            + runs.last().2,
        forall|i: int|
            0 <= i < merged(runs).len() - 1 ==> !follows(
                #[trigger] merged(runs)[i],
                merged(runs)[i + 1],
            ),
    decreases runs.len(),
{
    if runs.len() > 0 {
        let short = runs.drop_last();
        let run = runs[runs.len() - 1];
        assert forall|i: int| 0 <= i < short.len() implies (#[trigger] short[i]).2 > 0 && in_range(
            short[i],
        ) && short[i].0 + short[i].2 <= run.0 by {
            assert(short[i] == runs[i]);
        }
        assert forall|i: int, j: int| 0 <= i < j < short.len() implies (#[trigger] short[i]).0
            + short[i].2 <= (#[trigger] short[j]).0 by {
            assert(runs[i].0 + runs[i].2 <= runs[j].0);
        }
        lemma_merged_apart(short);
        lemma_merged_in_range(short);
        let before = merged(short);
        let out = merged(runs);
        assert(in_range(run) && run.2 > 0);
        let n = before.len() as int;
        if n > 0 {
            assert(short.len() > 0);
            assert(short[short.len() - 1].0 + short[short.len() - 1].2 <= run.0);
            assert(before[n - 1].0 + before[n - 1].2 <= run.0);
            assert(before[n - 1].2 > 0);
        }
        assert forall|i: int| 0 <= i < out.len() implies (#[trigger] out[i]).2 > 0 by {
            if i < n {
                assert(before[i].2 > 0);
            }
        }
        assert forall|i: int, j: int| 0 <= i < j < out.len() implies (#[trigger] out[i]).0
            + out[i].2 <= (#[trigger] out[j]).0 by {
            if j < n {
                assert(before[i].0 + before[i].2 <= before[j].0);
            } else if i < n - 1 {
                assert(before[i].0 + before[i].2 <= before[n - 1].0);
            }
        }
        assert forall|i: int| 0 <= i < out.len() - 1 implies !follows(
            #[trigger] out[i],
            out[i + 1],
        ) by {
            if i < n - 1 {
                assert(!follows(before[i], before[i + 1]));
            }
        }
    }
}

/// Joining whole host pages makes runs of whole host pages.
proof fn lemma_merged_whole(host_page: usize, runs: Seq<Run>)
    requires
        reclaim::valid_host_page(host_page),
        whole_pages(host_page, runs),
        forall|i: int| 0 <= i < runs.len() ==> in_range(#[trigger] runs[i]),
    ensures
        whole_pages(host_page, merged(runs)),
    decreases runs.len(),
{
    if runs.len() > 0 {
        let short = runs.drop_last();
        let run = runs[runs.len() - 1];
        assert forall|i: int| 0 <= i < short.len() implies {
            &&& in_range(#[trigger] short[i])
            &&& short[i].2 > 0
            &&& short[i].0 % host_page == 0
            &&& short[i].2 % host_page == 0
        } by {
            assert(short[i] == runs[i]);
        }
        lemma_merged_whole(host_page, short);
        lemma_merged_in_range(short);
        let before = merged(short);
        let out = merged(runs);
        assert(in_range(run) && run.2 % host_page == 0);
        assert forall|i: int| 0 <= i < out.len() implies {
            &&& (#[trigger] out[i]).2 > 0
            &&& out[i].0 % host_page == 0
            &&& out[i].2 % host_page == 0
        } by {
            if i < before.len() {
                assert(before[i].2 > 0 && before[i].2 % host_page == 0);
                vstd::arithmetic::div_mod::lemma_add_mod_noop(
                    before[i].2 as int,
                    run.2 as int,
                    host_page as int,
                );
            }
        }
    }
}

/// The runs to release for a report: exactly the host pages that it calls free all over, in order
/// and joined.
pub open spec fn reclaims(host_page: usize, free: Seq<Run>, out: Seq<Run>) -> bool {
    exists|pages: Seq<Run>| #[trigger]
        reclaim::free_pages(host_page, free, pages) && out == merged(in_order(pages))
}

/// What one report frees: the runs to release. They hold whole host pages only, and exactly those
/// whose every guest page the report calls free.
pub fn reclaim_report(host_page: usize, free: &Vec<Run>) -> (out: Vec<Run>)
    requires
        reclaim::valid_host_page(host_page),
        forall|i: int| 0 <= i < free@.len() ==> reclaim::fits(host_page, #[trigger] free@[i]),
    ensures
        reclaims(host_page, free@, out@),
        whole_pages(host_page, out@),
        apart(out@),
{
    let mut c: ReclaimCoalescer = ReclaimCoalescer::new(host_page);
    let mut i: usize = 0;
    assert(free@.take(0) =~= Seq::empty());
    while i < free.len()
        invariant
            i <= free@.len(),
            c.inv(),
            c@.host_page == host_page,
            forall|j: int| 0 <= j < free@.len() ==> reclaim::fits(host_page, #[trigger] free@[j]),
            c@.collected(free@.take(i as int)),
        decreases free@.len() - i,
    {
        let ghost before = c@;
        let r: Run = free[i];
        assert(reclaim::fits(host_page, free@[i as int]));
        c.add(r.0, r.1, r.2);
        proof {
            reclaim::lemma_collected(before, c@, free@.take(i as int), r);
            assert(free@.take(i as int).push(r) =~= free@.take(i + 1));
        }
        i = i + 1;
    }
    assert(free@.take(free@.len() as int) =~= free@);
    proof {
        c.lemma_wf();
    }
    let ghost v = c@;
    let pages: Vec<Run> = c.take_full_pages();
    proof {
        reclaim::lemma_taken(v, free@, pages@);
    }
    let ghost ps = pages@;
    let out: Vec<Run> = merge_runs(pages);
    proof {
        lemma_free_pages(host_page, free@, ps);
        assert(reclaim::free_pages(host_page, free@, ps) && out@ == merged(in_order(ps)));
    }
    out
}

/// The free host pages, joined.
proof fn lemma_free_pages(host_page: usize, free: Seq<Run>, pages: Seq<Run>)
    requires
        reclaim::valid_host_page(host_page),
        reclaim::free_pages(host_page, free, pages),
        forall|i: int| 0 <= i < pages.len() ==> in_range(#[trigger] pages[i]),
    ensures
        nonempty(pages),
        disjoint(pages),
        whole_pages(host_page, merged(in_order(pages))),
        apart(merged(in_order(pages))),
{
    assert forall|i: int, j: int| 0 <= i < j < pages.len() implies (#[trigger] pages[i]).0
        + pages[i].2 <= (#[trigger] pages[j]).0 || pages[j].0 + pages[j].2 <= pages[i].0 by {
        let a = pages[i].0 as int;
        let b = pages[j].0 as int;
        assert(reclaim::page_reported(host_page, free, a));
        assert(reclaim::page_reported(host_page, free, b));
        if a <= b < a + host_page {
            reclaim::lemma_in_page(host_page, a, b);
        }
        if b <= a < b + host_page {
            reclaim::lemma_in_page(host_page, b, a);
        }
    }
    assert(nonempty(pages));
    lemma_in_order(pages);
    let runs = in_order(pages);
    assert forall|i: int| 0 <= i < runs.len() implies {
        &&& (#[trigger] runs[i]).2 > 0
        &&& runs[i].0 % host_page == 0
        &&& runs[i].2 % host_page == 0
    } by {
        assert(pages.contains(runs[i]));
        let j = choose|j: int| 0 <= j < pages.len() && pages[j] == runs[i];
        assert(reclaim::page_reported(host_page, free, pages[j].0 as int));
    }
    lemma_merged_whole(host_page, runs);
    lemma_merged_apart(runs);
}

/// No memory that is in use goes with a report: every guest page of a run that is released lies
/// whole in one of the stretches that the report calls free, and every host page that lies whole in
/// them is released.
pub proof fn law_report_releases_the_free_pages(
    host_page: usize,
    free: Seq<Run>,
    out: Seq<Run>,
    b: int,
)
    requires
        reclaim::valid_host_page(host_page),
        forall|i: int| 0 <= i < free.len() ==> reclaim::fits(host_page, #[trigger] free[i]),
        reclaims(host_page, free, out),
        b >= 0,
        b % (host_page as int) == 0,
    ensures
        whole_pages(host_page, out),
        apart(out),
        reclaim::page_reported(host_page, free, b) <==> exists|k: int|
            0 <= k < out.len() && (#[trigger] out[k]).0 <= b && b + host_page <= out[k].0 + out[k].2,
        reclaim::page_reported(host_page, free, b) ==> maps(
            out,
            b,
            reclaim::place_of(host_page, free, b),
        ),
{
    let pages = choose|pages: Seq<Run>| #[trigger]
        reclaim::free_pages(host_page, free, pages) && out == merged(in_order(pages));
    lemma_pages_in_range(host_page, free, pages);
    lemma_free_pages(host_page, free, pages);
    lemma_in_order(pages);
    let runs = in_order(pages);
    if reclaim::page_reported(host_page, free, b) {
        let j = choose|j: int| 0 <= j < pages.len() && (#[trigger] pages[j]).0 == b;
        assert(runs.contains(pages[j]));
        let i = choose|i: int| 0 <= i < runs.len() && runs[i] == pages[j];
        law_merge_covers(runs, i);
        let k = choose|k: int| 0 <= k < out.len() && inside(runs[i], #[trigger] out[k]);
        assert(out[k].0 <= b && b + host_page <= out[k].0 + out[k].2);
    }
    if exists|k: int|
        0 <= k < out.len() && (#[trigger] out[k]).0 <= b && b + host_page <= out[k].0 + out[k].2 {
        let k = choose|k: int|
            0 <= k < out.len() && (#[trigger] out[k]).0 <= b && b + host_page <= out[k].0
                + out[k].2;
        law_merge_adds_nothing(runs, k, b);
        let i = choose|i: int|
            0 <= i < runs.len() && (#[trigger] runs[i]).0 <= b < runs[i].0 + runs[i].2 && inside(
                runs[i],
                out[k],
            );
        assert(pages.contains(runs[i]));
        let j = choose|j: int| 0 <= j < pages.len() && pages[j] == runs[i];
        assert(reclaim::page_reported(host_page, free, pages[j].0 as int));
        reclaim::lemma_in_page(host_page, pages[j].0 as int, b);
        reclaim::lemma_in_page(host_page, b, b);
    }
}

/// A report says which runs are released: no two rows of runs are both right.
pub proof fn law_report_decides(host_page: usize, free: Seq<Run>, a: Seq<Run>, b: Seq<Run>)
    requires
        reclaims(host_page, free, a),
        reclaims(host_page, free, b),
    ensures
        a == b,
{
    let p = choose|pages: Seq<Run>| #[trigger]
        reclaim::free_pages(host_page, free, pages) && a == merged(in_order(pages));
    let q = choose|pages: Seq<Run>| #[trigger]
        reclaim::free_pages(host_page, free, pages) && b == merged(in_order(pages));
    lemma_same_pages(host_page, free, p, q);
    lemma_same_pages(host_page, free, q, p);
    assert(p.no_duplicates());
    assert(q.no_duplicates());
    p.lemma_multiset_has_no_duplicates();
    q.lemma_multiset_has_no_duplicates();
    broadcast use vstd::seq_lib::group_to_multiset_ensures;

    assert forall|x: Run| p.to_multiset().count(x) == q.to_multiset().count(x) by {
        assert(p.contains(x) == q.contains(x));
        if p.contains(x) {
            assert(p.to_multiset().contains(x));
            assert(q.to_multiset().contains(x));
        }
    }
    assert(p.to_multiset() =~= q.to_multiset());
    lemma_order_is_lost(p, q);
}

proof fn lemma_same_pages(host_page: usize, free: Seq<Run>, p: Seq<Run>, q: Seq<Run>)
    requires
        reclaim::free_pages(host_page, free, p),
        reclaim::free_pages(host_page, free, q),
    ensures
        forall|x: Run| #[trigger] p.contains(x) ==> q.contains(x),
{
    assert forall|x: Run| #[trigger] p.contains(x) implies q.contains(x) by {
        let i = choose|i: int| 0 <= i < p.len() && p[i] == x;
        assert(reclaim::page_reported(host_page, free, p[i].0 as int));
        let k = choose|k: int| 0 <= k < q.len() && (#[trigger] q[k]).0 == p[i].0 as int;
        assert(q[k] == x);
    }
}

/// Host pages that are free all over end in the address space.
proof fn lemma_pages_in_range(host_page: usize, free: Seq<Run>, pages: Seq<Run>)
    requires
        reclaim::valid_host_page(host_page),
        forall|i: int| 0 <= i < free.len() ==> reclaim::fits(host_page, #[trigger] free[i]),
        reclaim::free_pages(host_page, free, pages),
    ensures
        forall|i: int| 0 <= i < pages.len() ==> in_range(#[trigger] pages[i]),
{
    assert forall|i: int| 0 <= i < pages.len() implies in_range(#[trigger] pages[i]) by {
        let b = pages[i].0 as int;
        assert(reclaim::page_reported(host_page, free, b));
        let p = b + host_page - 4096;
        assert(reclaim::reported(free, p));
        let j = choose|j: int| 0 <= j < free.len() && reclaim::has_page(#[trigger] free[j], p);
        assert(reclaim::fits(host_page, free[j]));
    }
}

} // verus!
