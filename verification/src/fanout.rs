//! The order in which the detail fetches end does not show in the catalog.

use vstd::prelude::*;
use crate::builder::{BuilderModel, abandoned, accepted, complete, started, well_formed};
use crate::detail::with_details;
use crate::listing::listed_filters;
use crate::model::FilterModel;

verus! {

/// How the detail fetch of one filter ended: with the report, or without.
pub type Outcome = Option<Seq<char>>;

/// The builder after the detail fetch of the filter at `index` ended.
pub open spec fn concluded(b: BuilderModel, index: int, outcome: Outcome) -> BuilderModel {
    match outcome {
        Some(report) => accepted(b, index, report),
        None => abandoned(b, index),
    }
}

/// The filter after its detail fetch ended: enriched by the report, or as
/// it was where there is none.
pub open spec fn with_outcome(f: FilterModel, outcome: Outcome) -> FilterModel {
    match outcome {
        Some(report) => with_details(f, report),
        None => f,
    }
}

/// The builder after the detail fetches ended in the given order of
/// indices, where `outcomes[i]` is how the fetch for the filter at index `i`
/// ended.
pub open spec fn delivered(b: BuilderModel, order: Seq<int>, outcomes: Seq<Outcome>) -> BuilderModel
    decreases order.len(),
{
    if order.len() == 0 {
        b
    } else {
        let index = order.last();
        concluded(delivered(b, order.drop_last(), outcomes), index, outcomes[index])
    }
}

/// The catalog in which each filter is enriched by its own report, where
/// it has one.
pub open spec fn enriched(filters: Seq<FilterModel>, outcomes: Seq<Outcome>) -> Seq<FilterModel> {
    Seq::new(filters.len(), |i: int| with_outcome(filters[i], outcomes[i]))
}

/// The detail fetches of two different filters may end in either order.
pub proof fn lemma_conclusions_commute(
    b: BuilderModel,
    i: int,
    outcome_i: Outcome,
    j: int,
    outcome_j: Outcome,
)
    requires
        well_formed(b),
        i != j,
    ensures
        concluded(concluded(b, i, outcome_i), j, outcome_j) == concluded(
            concluded(b, j, outcome_j),
            i,
            outcome_i,
        ),
{
    let left = concluded(concluded(b, i, outcome_i), j, outcome_j);
    let right = concluded(concluded(b, j, outcome_j), i, outcome_i);
    assert(left.filters =~= right.filters);
    assert(left.settled =~= right.settled);
}

/// What holds of each filter after detail fetches ended in some order,
/// starting from a builder in which no filter is settled: a filter whose
/// index is in the order is settled, and enriched by its own report where
/// it has one; every other filter is as it was.
proof fn lemma_delivered_slots(b: BuilderModel, order: Seq<int>, outcomes: Seq<Outcome>)
    requires
        well_formed(b),
        forall|i: int| 0 <= i < b.settled.len() ==> !b.settled[i],
    ensures
        delivered(b, order, outcomes).filters.len() == b.filters.len(),
        delivered(b, order, outcomes).settled.len() == b.filters.len(),
        forall|i: int|
            0 <= i < b.filters.len() ==> #[trigger] delivered(b, order, outcomes).settled[i]
                == order.contains(i),
        forall|i: int|
            0 <= i < b.filters.len() ==> #[trigger] delivered(b, order, outcomes).filters[i] == (
            if order.contains(i) {
                with_outcome(b.filters[i], outcomes[i])
            } else {
                b.filters[i]
            }),
    decreases order.len(),
{
    if order.len() > 0 {
        let before = order.drop_last();
        let index = order.last();
        lemma_delivered_slots(b, before, outcomes);
        let prev = delivered(b, before, outcomes);
        let next = delivered(b, order, outcomes);
        assert forall|i: int| 0 <= i < b.filters.len() implies order.contains(i) == (
        before.contains(i) || index == i) by {
            if before.contains(i) {
                let k = choose|k: int| 0 <= k < before.len() && before[k] == i;
                assert(order[k] == i);
            }
            if index == i {
                assert(order[order.len() - 1] == i);
            }
            if order.contains(i) {
                let k = choose|k: int| 0 <= k < order.len() && order[k] == i;
                if k < order.len() - 1 {
                    assert(before[k] == i);
                }
            }
        }
        assert forall|i: int| 0 <= i < b.filters.len() implies #[trigger] next.settled[i]
            == order.contains(i) by {
            assert(prev.settled[i] == before.contains(i));
        }
        assert forall|i: int| 0 <= i < b.filters.len() implies #[trigger] next.filters[i] == (
        if order.contains(i) {
            with_outcome(b.filters[i], outcomes[i])
        } else {
            b.filters[i]
        }) by {
            assert(prev.settled[i] == before.contains(i));
            assert(prev.filters[i] == (if before.contains(i) {
                with_outcome(b.filters[i], outcomes[i])
            } else {
                b.filters[i]
            }));
        }
    } else {
        assert forall|i: int| 0 <= i < b.filters.len() implies !order.contains(i) by {}
    }
}

/// Detail fetches that end leave the builder with one entry and one flag
/// for each filter.
pub proof fn lemma_delivered_bounds(b: BuilderModel, order: Seq<int>, outcomes: Seq<Outcome>)
    requires
        well_formed(b),
    ensures
        well_formed(delivered(b, order, outcomes)),
        delivered(b, order, outcomes).filters.len() == b.filters.len(),
    decreases order.len(),
{
    if order.len() > 0 {
        lemma_delivered_bounds(b, order.drop_last(), outcomes);
    }
}

/// Whatever the order in which the detail fetches end, once the fetch of
/// every listed filter has ended the catalog is complete, has exactly one
/// entry for each listed filter in the order of the listing, and each entry
/// is the listed filter enriched by its own report, or as listed where the
/// fetch gave none. A fetch that ends twice, or for an index outside the
/// listing, changes nothing.
pub proof fn lemma_any_order_same_catalog(
    listing: Seq<char>,
    order: Seq<int>,
    outcomes: Seq<Outcome>,
)
    requires
        forall|i: int| 0 <= i < listed_filters(listing).len() ==> order.contains(i),
    ensures
        complete(delivered(started(listing), order, outcomes)),
        delivered(started(listing), order, outcomes).filters.len() == listed_filters(
            listing,
        ).len(),
        delivered(started(listing), order, outcomes).filters == enriched(
            listed_filters(listing),
            outcomes,
        ),
{
    let b = started(listing);
    lemma_delivered_slots(b, order, outcomes);
    let end = delivered(b, order, outcomes);
    assert(end.filters =~= enriched(listed_filters(listing), outcomes));
}

/// Two builds from the same listing and the same reports end in the same
/// catalog, whatever the two orders in which the fetches ended.
pub proof fn lemma_rebuild_is_identical(
    listing: Seq<char>,
    first: Seq<int>,
    second: Seq<int>,
    outcomes: Seq<Outcome>,
)
    requires
        forall|i: int| 0 <= i < listed_filters(listing).len() ==> first.contains(i),
        forall|i: int| 0 <= i < listed_filters(listing).len() ==> second.contains(i),
    ensures
        delivered(started(listing), first, outcomes).filters == delivered(
            started(listing),
            second,
            outcomes,
        ).filters,
{
    lemma_any_order_same_catalog(listing, first, outcomes);
    lemma_any_order_same_catalog(listing, second, outcomes);
}

} // verus!
