//! Which entries a walk visits.
//!
//! A listing holds the entries of a tree in the order of a walk that reports
//! each directory before what it contains, each entry with its depth. In such
//! a listing, what lies below an entry is the run of deeper entries that
//! follows it.

use vstd::prelude::*;
use crate::config::ScanConfig;
use crate::entry::{found_views, shown, visited_views, FoundEntry, FoundView, VisitedEntry, VisitedView};
use crate::hidden::{hidden_name, is_excluded};

verus! {

/// Whether an entry cuts the walk off: a hidden one, where hidden entries are
/// skipped.
pub open spec fn prunes(skip_hidden: bool, entry: FoundView) -> bool {
    skip_hidden && hidden_name(entry.name)
}

/// Every entry after `top` and before `end` lies deeper than `top`.
pub open spec fn deeper_run(listing: Seq<FoundView>, top: int, end: int) -> bool {
    forall|k: int| top < k < end ==> (#[trigger] listing[k]).depth > listing[top].depth
}

/// Entry `i` is entry `top` or lies below it.
pub open spec fn within(listing: Seq<FoundView>, top: int, i: int) -> bool {
    0 <= top <= i < listing.len() && deeper_run(listing, top, i + 1)
}

/// Entry `i` is cut off: it is, or lies below, an entry that cuts the walk
/// off.
pub open spec fn pruned(listing: Seq<FoundView>, skip_hidden: bool, i: int) -> bool {
    exists|top: int| #[trigger] within(listing, top, i) && prunes(skip_hidden, listing[top])
}

/// Entry `i` is visited: it lies no deeper than the limit and is not cut off.
pub open spec fn visited(
    listing: Seq<FoundView>,
    max_depth: usize,
    skip_hidden: bool,
    i: int,
) -> bool {
    listing[i].depth <= max_depth && !pruned(listing, skip_hidden, i)
}

/// The positions of the visited entries among the first `n` of the listing, in
/// the listing's order.
pub open spec fn visits(
    listing: Seq<FoundView>,
    max_depth: usize,
    skip_hidden: bool,
    n: int,
) -> Seq<usize>
    decreases n,
{
    if n <= 0 {
        Seq::empty()
    } else if visited(listing, max_depth, skip_hidden, n - 1) {
        visits(listing, max_depth, skip_hidden, n - 1).push((n - 1) as usize)
    } else {
        visits(listing, max_depth, skip_hidden, n - 1)
    }
}

/// Picks from a listing the positions of the entries that a walk visits which
/// goes no deeper than `max_depth` and, where `skip_hidden` is set, turns back
/// at every hidden entry. The root is an entry like any other: where it is
/// hidden and hidden entries are skipped, nothing is visited.
pub fn visited_indices(listing: &Vec<FoundEntry>, max_depth: usize, skip_hidden: bool) -> (picks:
    Vec<usize>)
    ensures
        picks@ == visits(found_views(listing@), max_depth, skip_hidden, listing@.len() as int),
{
    let ghost views = found_views(listing@);
    let mut picks: Vec<usize> = Vec::new();
    // The depth of the entry that cut the walk off, while the walk is below it.
    let mut barrier: Option<usize> = None;
    let ghost mut top: int = 0;
    let mut i: usize = 0;
    while i < listing.len()
        invariant
            i <= listing.len(),
            views == found_views(listing@),
            picks@ == visits(views, max_depth, skip_hidden, i as int),
            barrier is Some ==> 0 <= top < i && prunes(skip_hidden, views[top]) && views[top].depth
                == barrier->0 && deeper_run(views, top, i as int),
            forall|j: int|
                0 <= j < i && #[trigger] prunes(skip_hidden, views[j]) && deeper_run(
                    views,
                    j,
                    i as int,
                ) ==> barrier is Some && views[j].depth >= views[top].depth,
        decreases listing.len() - i,
    {
        let entry = &listing[i];
        assert(views[i as int] == entry@);
        let below_barrier = match barrier {
            Some(depth) => entry.depth > depth,
            None => false,
        };
        if below_barrier {
            proof {
                assert(within(views, top, i as int));
            }
        } else if is_excluded(skip_hidden, entry.name.as_str()) {
            proof {
                lemma_no_open_cut(views, skip_hidden, i as int, barrier, top);
                top = i as int;
                assert(within(views, top, i as int));
            }
            barrier = Some(entry.depth);
        } else {
            proof {
                lemma_no_open_cut(views, skip_hidden, i as int, barrier, top);
                assert forall|j: int| #[trigger]
                    within(views, j, i as int) implies !prunes(skip_hidden, views[j]) by {
                    if j < i && prunes(skip_hidden, views[j]) {
                        assert(deeper_run(views, j, i as int + 1));
                    }
                }
            }
            barrier = None;
            if entry.depth <= max_depth {
                picks.push(i);
            }
        }
        i += 1;
    }
    picks
}

/// Where entry `i` does not lie below the entry that last cut the walk off, it
/// lies below no earlier entry that cuts the walk off.
proof fn lemma_no_open_cut(
    listing: Seq<FoundView>,
    skip_hidden: bool,
    i: int,
    barrier: Option<usize>,
    top: int,
)
    requires
        0 <= i < listing.len(),
        barrier is Some ==> 0 <= top < i && listing[top].depth == barrier->0
            && listing[i].depth <= barrier->0,
        forall|j: int|
            0 <= j < i && #[trigger] prunes(skip_hidden, listing[j]) && deeper_run(listing, j, i)
                ==> barrier is Some && listing[j].depth >= listing[top].depth,
    ensures
        forall|j: int|
            0 <= j < i && #[trigger] prunes(skip_hidden, listing[j]) ==> !deeper_run(
                listing,
                j,
                i + 1,
            ),
{
    assert forall|j: int| 0 <= j < i && #[trigger] prunes(skip_hidden, listing[j]) implies !deeper_run(
        listing,
        j,
        i + 1,
    ) by {
        if deeper_run(listing, j, i + 1) {
            assert(deeper_run(listing, j, i));
            assert(listing[i].depth > listing[j].depth);
        }
    }
}

/// The positions picked among the first `n` entries are exactly those of the
/// visited entries among them, each once and in ascending order.
pub proof fn lemma_visits_exact(
    listing: Seq<FoundView>,
    max_depth: usize,
    skip_hidden: bool,
    n: int,
)
    requires
        0 <= n <= listing.len() <= usize::MAX,
    ensures
        forall|r: int|
            0 <= r < visits(listing, max_depth, skip_hidden, n).len() ==> {
                let pick = #[trigger] visits(listing, max_depth, skip_hidden, n)[r];
                0 <= pick < n && visited(listing, max_depth, skip_hidden, pick as int)
            },
        forall|r: int, s: int|
            0 <= r < s < visits(listing, max_depth, skip_hidden, n).len() ==> visits(
                listing,
                max_depth,
                skip_hidden,
                n,
            )[r] < visits(listing, max_depth, skip_hidden, n)[s],
        forall|i: int|
            0 <= i < n && visited(listing, max_depth, skip_hidden, i) ==> visits(
                listing,
                max_depth,
                skip_hidden,
                n,
            ).contains(i as usize),
    decreases n,
{
    if n > 0 {
        lemma_visits_exact(listing, max_depth, skip_hidden, n - 1);
        let before = visits(listing, max_depth, skip_hidden, n - 1);
        let now = visits(listing, max_depth, skip_hidden, n);
        assert forall|i: int|
            0 <= i < n && visited(listing, max_depth, skip_hidden, i) implies now.contains(
            i as usize,
        ) by {
            if i < n - 1 {
                let r = choose|r: int| 0 <= r < before.len() && before[r] == i as usize;
                assert(now[r] == i as usize);
            } else {
                assert(now[now.len() - 1] == i as usize);
            }
        }
    }
}

/// A walk never visits an entry that lies deeper than its limit.
pub proof fn lemma_never_beyond_depth(
    listing: Seq<FoundView>,
    max_depth: usize,
    skip_hidden: bool,
    r: int,
)
    requires
        listing.len() <= usize::MAX,
        0 <= r < visits(listing, max_depth, skip_hidden, listing.len() as int).len(),
    ensures
        listing[visits(listing, max_depth, skip_hidden, listing.len() as int)[r] as int].depth
            <= max_depth,
{
    lemma_visits_exact(listing, max_depth, skip_hidden, listing.len() as int);
}

/// A walk that skips hidden entries visits no entry that is hidden, nor one
/// that lies below a hidden entry.
pub proof fn lemma_hidden_never_visited(
    listing: Seq<FoundView>,
    max_depth: usize,
    r: int,
    top: int,
)
    requires
        listing.len() <= usize::MAX,
        0 <= r < visits(listing, max_depth, true, listing.len() as int).len(),
        within(listing, top, visits(listing, max_depth, true, listing.len() as int)[r] as int),
    ensures
        !hidden_name(listing[top].name),
        !hidden_name(
            listing[visits(listing, max_depth, true, listing.len() as int)[r] as int].name,
        ),
{
    lemma_visits_exact(listing, max_depth, true, listing.len() as int);
    let pick = visits(listing, max_depth, true, listing.len() as int)[r] as int;
    assert(within(listing, pick, pick));
}

/// A walk that does not skip hidden entries visits every entry within its
/// depth limit.
pub proof fn lemma_all_visited_unless_skipping(listing: Seq<FoundView>, max_depth: usize, i: int)
    requires
        0 <= i < listing.len(),
    ensures
        visited(listing, max_depth, false, i) == (listing[i].depth <= max_depth),
{
}

/// Where no entry of a listing lies deeper than the limit and none cuts the
/// walk off, the walk visits all of them: what a walk has chosen, choosing
/// again leaves as it is.
pub proof fn lemma_clean_listing_all_visited(
    listing: Seq<FoundView>,
    max_depth: usize,
    skip_hidden: bool,
    n: int,
)
    requires
        0 <= n <= listing.len() <= usize::MAX,
        forall|i: int|
            0 <= i < listing.len() ==> (#[trigger] listing[i]).depth <= max_depth && !prunes(
                skip_hidden,
                listing[i],
            ),
    ensures
        visits(listing, max_depth, skip_hidden, n).len() == n,
        forall|r: int| 0 <= r < n ==> #[trigger] visits(listing, max_depth, skip_hidden, n)[r] == r,
    decreases n,
{
    if n > 0 {
        lemma_clean_listing_all_visited(listing, max_depth, skip_hidden, n - 1);
        assert(!pruned(listing, skip_hidden, n - 1));
    }
}

/// What a walk does after an entry could not be reached.
#[derive(Clone, Copy, Debug, PartialEq, Eq, Structural)]
pub enum ErrorAction {
    /// The survey ends with a failure.
    Abort,
    /// The entry is passed over and the walk goes on.
    PassOver,
}

/// What a walk does after an entry at this depth could not be reached: a root
/// that cannot be reached ends the survey, anything below it is passed over.
pub fn on_walk_error(depth: usize) -> (action: ErrorAction)
    ensures
        action == if depth == 0 {
            ErrorAction::Abort
        } else {
            ErrorAction::PassOver
        },
{
    if depth == 0 {
        ErrorAction::Abort
    } else {
        ErrorAction::PassOver
    }
}

/// What a survey of a listing shows: the entries that the walk visits, in the
/// listing's order, each as the report shows it.
pub open spec fn survey_model(listing: Seq<FoundView>, max_depth: usize, skip_hidden: bool) -> Seq<
    VisitedView,
> {
    visits(listing, max_depth, skip_hidden, listing.len() as int).map_values(
        |pick: usize| shown(listing[pick as int]),
    )
}

/// Surveys a listing: the entries that a walk with these settings visits, in
/// the listing's order, each as the report shows it. None of them lies deeper
/// than the limit; where hidden entries are skipped, none of them is hidden.
pub fn survey(config: &ScanConfig, listing: &Vec<FoundEntry>) -> (rows: Vec<VisitedEntry>)
    ensures
        visited_views(rows@) == survey_model(
            found_views(listing@),
            config.max_depth,
            config.skip_hidden,
        ),
        forall|r: int| 0 <= r < rows@.len() ==> (#[trigger] rows@[r]).depth <= config.max_depth,
        config.skip_hidden ==> forall|r: int|
            0 <= r < rows@.len() ==> !hidden_name((#[trigger] rows@[r]).display_name@),
{
    let ghost views = found_views(listing@);
    let picks = visited_indices(listing, config.max_depth, config.skip_hidden);
    proof {
        assert(listing.len() <= usize::MAX);
        lemma_visits_exact(views, config.max_depth, config.skip_hidden, views.len() as int);
    }
    let mut rows: Vec<VisitedEntry> = Vec::new();
    let mut r: usize = 0;
    while r < picks.len()
        invariant
            r <= picks.len(),
            rows@.len() == r,
            views == found_views(listing@),
            forall|q: int|
                0 <= q < picks@.len() ==> 0 <= #[trigger] picks@[q] < listing@.len() && visited(
                    views,
                    config.max_depth,
                    config.skip_hidden,
                    picks@[q] as int,
                ),
            forall|q: int| 0 <= q < r ==> (#[trigger] rows@[q])@ == shown(views[picks@[q] as int]),
        decreases picks.len() - r,
    {
        let entry = listing[picks[r]].visit();
        rows.push(entry);
        r += 1;
    }
    proof {
        assert forall|q: int| 0 <= q < rows@.len() implies !prunes(
            config.skip_hidden,
            views[picks@[q] as int],
        ) by {
            assert(within(views, picks@[q] as int, picks@[q] as int));
        }
        assert(visited_views(rows@) =~= survey_model(
            views,
            config.max_depth,
            config.skip_hidden,
        ));
    }
    rows
}

} // verus!
