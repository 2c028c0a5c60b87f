//! What moving a report in the guest changes, and what it does not.
use crate::balloon::reclaim;
use crate::balloon::reclaim::Run;
use vstd::prelude::*;

verus! {

/// The same runs, as far from their places in the guest as `by` says.
pub open spec fn moved(runs: Seq<Run>, other: Seq<Run>, by: int) -> bool {
    &&& runs.len() == other.len()
    &&& forall|i: int|
        0 <= i < runs.len() ==> {
            &&& (#[trigger] other[i]).0 == runs[i].0
            &&& other[i].1 == runs[i].1 + by
            &&& other[i].2 == runs[i].2
        }
}

/// One of the pages begins at `b`.
pub open spec fn begins(pages: Seq<Run>, b: int) -> bool {
    exists|k: int| 0 <= k < pages.len() && (#[trigger] pages[k]).0 == b
}

proof fn lemma_begins(host_page: usize, runs: Seq<Run>, pages: Seq<Run>, b: int)
    requires
        reclaim::free_pages(host_page, runs, pages),
    ensures
        begins(pages, b) <==> reclaim::page_reported(host_page, runs, b),
{
    if begins(pages, b) {
        let k = choose|k: int| 0 <= k < pages.len() && (#[trigger] pages[k]).0 == b;
        assert(reclaim::page_reported(host_page, runs, pages[k].0 as int));
    }
}

/// Where the runs lie in the guest does not decide which host pages are free all over: moving all
/// of them by one distance gives the same host pages, moved by that distance.
pub proof fn law_distance_does_not_matter(
    host_page: usize,
    runs: Seq<Run>,
    other: Seq<Run>,
    by: int,
    pages: Seq<Run>,
    others: Seq<Run>,
)
    requires
        reclaim::valid_host_page(host_page),
        moved(runs, other, by),
        reclaim::free_pages(host_page, runs, pages),
        reclaim::free_pages(host_page, other, others),
    ensures
        forall|b: int| #[trigger]
            reclaim::page_reported(host_page, runs, b) <==> reclaim::page_reported(host_page, other, b),
        forall|b: int| #[trigger] begins(pages, b) <==> begins(others, b),
        forall|j: int, k: int|
            0 <= j < pages.len() && 0 <= k < others.len() && (#[trigger] others[k]).0 == (
            #[trigger] pages[j]).0 ==> others[k].1 == pages[j].1 + by && others[k].2 == pages[j].2,
{
    assert forall|p: int| #[trigger] reclaim::reported(runs, p) == reclaim::reported(other, p) by {
        if reclaim::reported(runs, p) {
            let i = choose|i: int| 0 <= i < runs.len() && reclaim::has_page(#[trigger] runs[i], p);
            assert(reclaim::has_page(other[i], p));
        }
        if reclaim::reported(other, p) {
            let i = choose|i: int| 0 <= i < other.len() && reclaim::has_page(#[trigger] other[i], p);
            assert(reclaim::has_page(runs[i], p));
        }
    }
    assert forall|b: int| #[trigger]
        reclaim::page_reported(host_page, runs, b) <==> reclaim::page_reported(host_page, other, b) by {
        if reclaim::page_reported(host_page, other, b) {
            assert forall|p: int| b <= p < b + host_page && p % 4096 == 0 implies #[trigger] reclaim::reported(
                runs,
                p,
            ) by {
                assert(reclaim::reported(other, p));
            }
        }
        if reclaim::page_reported(host_page, runs, b) {
            assert forall|p: int| b <= p < b + host_page && p % 4096 == 0 implies #[trigger] reclaim::reported(
                other,
                p,
            ) by {
                assert(reclaim::reported(runs, p));
            }
        }
    }
    assert forall|b: int| #[trigger] begins(pages, b) <==> begins(others, b) by {
        assert(reclaim::page_reported(host_page, runs, b) <==> reclaim::page_reported(host_page, other, b));
        lemma_begins(host_page, runs, pages, b);
        lemma_begins(host_page, other, others, b);
    }
    assert forall|j: int, k: int|
        0 <= j < pages.len() && 0 <= k < others.len() && (#[trigger] others[k]).0 == (
        #[trigger] pages[j]).0 implies others[k].1 == pages[j].1 + by && others[k].2
        == pages[j].2 by {
        let b = pages[j].0 as int;
        assert(reclaim::page_reported(host_page, runs, b));
        reclaim::lemma_in_page(host_page, b, b);
        reclaim::lemma_page(host_page, b);
        assert(reclaim::reported(runs, b));
        let i = choose|i: int| 0 <= i < runs.len() && reclaim::has_page(#[trigger] runs[i], b);
        assert(reclaim::touches(host_page, runs[i], b));
        lemma_place_moves(host_page, runs, other, by, b);
    }
}

proof fn lemma_place_moves(host_page: usize, runs: Seq<Run>, other: Seq<Run>, by: int, b: int)
    requires
        moved(runs, other, by),
        reclaim::touched(host_page, runs, b),
    ensures
        reclaim::touched(host_page, other, b),
        reclaim::place_of(host_page, other, b) == reclaim::place_of(host_page, runs, b) + by,
    decreases runs.len(),
{
    let i = choose|i: int| 0 <= i < runs.len() && reclaim::touches(host_page, #[trigger] runs[i], b);
    let p = choose|p: int| #[trigger] reclaim::has_page(runs[i], p) && reclaim::page_base(host_page, p) == b;
    assert(reclaim::has_page(other[i], p));
    assert(reclaim::touches(host_page, other[i], b));
    let short = runs.drop_last();
    let rest = other.drop_last();
    let n = runs.len() - 1;
    assert(other[n].1 == runs[n].1 + by);
    assert forall|j: int| 0 <= j < short.len() implies {
        &&& (#[trigger] rest[j]).0 == short[j].0
        &&& rest[j].1 == short[j].1 + by
        &&& rest[j].2 == short[j].2
    } by {
        assert(rest[j] == other[j]);
    }
    if reclaim::touched(host_page, short, b) {
        lemma_place_moves(host_page, short, rest, by, b);
    } else if reclaim::touched(host_page, rest, b) {
        let k = choose|k: int| 0 <= k < rest.len() && reclaim::touches(host_page, #[trigger] rest[k], b);
        let q = choose|q: int| #[trigger] reclaim::has_page(rest[k], q) && reclaim::page_base(host_page, q) == b;
        assert(rest[k].0 == short[k].0);
        assert(reclaim::has_page(short[k], q));
        assert(reclaim::touches(host_page, short[k], b));
    }
}

} // verus!
