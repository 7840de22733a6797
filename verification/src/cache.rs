//! What a whole query does, told over the events it meets: a stored catalog
//! is reused as it is; an empty cache is filled once.

use vstd::prelude::*;
use crate::builder::{awaits, complete, started, well_formed};
use crate::fanout::{Outcome, delivered, enriched, lemma_any_order_same_catalog};
use crate::listing::listed_filters;
use crate::session::{ActionModel, EventModel, SessionModel, next, settled_or_waiting};

verus! {

/// The session after the given events, and the actions it asked for, one
/// for each event.
pub open spec fn run(s: SessionModel, events: Seq<EventModel>) -> (SessionModel, Seq<ActionModel>)
    decreases events.len(),
{
    if events.len() == 0 {
        (s, Seq::empty())
    } else {
        let (t, actions) = run(s, events.drop_last());
        let (u, action) = next(t, events.last());
        (u, actions.push(action))
    }
}

/// Whether the action calls on the engine.
pub open spec fn asks_engine(a: ActionModel) -> bool {
    a is FetchListing || a is FetchDetails
}

/// What the cache holds after the action was carried out.
pub open spec fn stored_after(stored: Option<Seq<char>>, a: ActionModel) -> Option<Seq<char>> {
    match a {
        ActionModel::StoreAndReturn(text) => Some(text),
        _ => stored,
    }
}

/// The answer to the query that the action gives, if it gives one.
pub open spec fn answer_of(a: ActionModel) -> Option<Seq<char>> {
    match a {
        ActionModel::StoreAndReturn(text) => Some(text),
        ActionModel::Return(text) => Some(text),
        _ => None,
    }
}

/// The event that tells how the detail fetch for the filter at `index`
/// ended.
pub open spec fn arrival(index: int, outcome: Outcome) -> EventModel {
    match outcome {
        Some(report) => EventModel::Detail(index, report),
        None => EventModel::DetailFailed(index),
    }
}

/// The events of the detail fetches ending in the given order of indices,
/// where `outcomes[i]` is how the fetch for the filter at index `i` ended.
pub open spec fn arrivals(order: Seq<int>, outcomes: Seq<Outcome>) -> Seq<EventModel> {
    Seq::new(order.len(), |k: int| arrival(order[k], outcomes[order[k]]))
}

/// The events of a query that finds the cache empty: the empty cache, the
/// listing, the detail fetches as they end, the serialized catalog.
pub open spec fn build_events(
    listing: Seq<char>,
    order: Seq<int>,
    outcomes: Seq<Outcome>,
    encoded: Seq<char>,
) -> Seq<EventModel> {
    seq![EventModel::CacheRead(None), EventModel::Listing(listing)] + arrivals(order, outcomes)
        + seq![EventModel::Encoded(encoded)]
}

/// Running two stretches of events is running the second from where the
/// first ended.
pub proof fn lemma_run_concat(s: SessionModel, a: Seq<EventModel>, b: Seq<EventModel>)
    ensures
        run(s, a + b).0 == run(run(s, a).0, b).0,
        run(s, a + b).1 == run(s, a).1 + run(run(s, a).0, b).1,
    decreases b.len(),
{
    if b.len() == 0 {
        assert(a + b =~= a);
        assert(run(s, a).1 + run(run(s, a).0, b).1 =~= run(s, a).1);
    } else {
        assert((a + b).drop_last() =~= a + b.drop_last());
        assert((a + b).last() == b.last());
        lemma_run_concat(s, a, b.drop_last());
        assert(run(s, a + b).1 =~= run(s, a).1 + run(run(s, a).0, b).1);
    }
}

/// An answered query stays answered and asks for nothing more.
pub proof fn lemma_done_is_final(events: Seq<EventModel>)
    ensures
        run(SessionModel::Done, events).0 == SessionModel::Done,
        run(SessionModel::Done, events).1.len() == events.len(),
        forall|k: int|
            0 <= k < events.len() ==> #[trigger] run(SessionModel::Done, events).1[k]
                == ActionModel::Wait,
    decreases events.len(),
{
    if events.len() > 0 {
        lemma_done_is_final(events.drop_last());
    }
}

/// A query that finds a catalog in the cache answers with the stored text
/// exactly, at once. Whatever events follow, it never calls on the engine
/// and never writes to the cache.
pub proof fn lemma_hit_returns_stored(stored: Seq<char>, later: Seq<EventModel>)
    ensures
        ({
            let (end, actions) = run(
                SessionModel::AwaitCache,
                seq![EventModel::CacheRead(Some(stored))] + later,
            );
            &&& end == SessionModel::Done
            &&& actions.len() == 1 + later.len()
            &&& actions[0] == ActionModel::Return(stored)
            &&& forall|k: int|
                0 <= k < actions.len() ==> !asks_engine(#[trigger] actions[k]) && stored_after(
                    Some(stored),
                    actions[k],
                ) == Some(stored)
        }),
{
    let first = seq![EventModel::CacheRead(Some(stored))];
    assert(first.drop_last() =~= Seq::<EventModel>::empty());
    assert(run(SessionModel::AwaitCache, first.drop_last()).0 == SessionModel::AwaitCache);
    let (mid, head) = run(SessionModel::AwaitCache, first);
    assert(mid == SessionModel::Done);
    assert(head =~= seq![ActionModel::Return(stored)]);
    lemma_run_concat(SessionModel::AwaitCache, first, later);
    lemma_done_is_final(later);
    let actions = run(SessionModel::AwaitCache, first + later).1;
    assert forall|k: int| 0 <= k < actions.len() implies !asks_engine(#[trigger] actions[k])
        && stored_after(Some(stored), actions[k]) == Some(stored) by {
        if k > 0 {
            assert(actions[k] == run(SessionModel::Done, later).1[k - 1]);
        }
    }
}

/// While the detail fetches of a listing with at least one filter end:
/// the session waits until the last filter is settled, then asks once for
/// the catalog to be serialized, and waits again.
proof fn lemma_run_arrivals(listing: Seq<char>, order: Seq<int>, outcomes: Seq<Outcome>)
    requires
        !complete(started(listing)),
    ensures
        ({
            let (end, actions) = run(
                SessionModel::AwaitDetails(started(listing)),
                arrivals(order, outcomes),
            );
            let b = delivered(started(listing), order, outcomes);
            &&& actions.len() == order.len()
            &&& well_formed(b)
            &&& forall|k: int|
                0 <= k < actions.len() ==> #[trigger] actions[k] == ActionModel::Wait
                    || actions[k] == ActionModel::Encode(b.filters)
            &&& if complete(b) {
                &&& end == SessionModel::AwaitEncoding
                &&& exists|k: int|
                    0 <= k < actions.len() && #[trigger] actions[k] == ActionModel::Encode(
                        b.filters,
                    )
            } else {
                &&& end == SessionModel::AwaitDetails(b)
                &&& forall|k: int|
                    0 <= k < actions.len() ==> #[trigger] actions[k] == ActionModel::Wait
            }
        }),
    decreases order.len(),
{
    let start = SessionModel::AwaitDetails(started(listing));
    let events = arrivals(order, outcomes);
    crate::fanout::lemma_delivered_bounds(started(listing), order, outcomes);
    if order.len() > 0 {
        let before = order.drop_last();
        let index = order.last();
        lemma_run_arrivals(listing, before, outcomes);
        assert(events.drop_last() =~= arrivals(before, outcomes));
        assert(events.last() == arrival(index, outcomes[index]));
        let (mid, head) = run(start, arrivals(before, outcomes));
        let prev = delivered(started(listing), before, outcomes);
        let b = delivered(started(listing), order, outcomes);
        let (end, actions) = run(start, events);
        assert(actions == head.push(next(mid, events.last()).1));
        if complete(prev) {
            assert(!awaits(prev, index)) by {
                if 0 <= index < prev.filters.len() {
                    assert(prev.settled[index]);
                }
            }
            assert(b == prev);
            let k = choose|k: int|
                0 <= k < head.len() && #[trigger] head[k] == ActionModel::Encode(prev.filters);
            assert(actions[k] == ActionModel::Encode(b.filters));
            assert forall|j: int| 0 <= j < actions.len() implies #[trigger] actions[j]
                == ActionModel::Wait || actions[j] == ActionModel::Encode(b.filters) by {
                if j < head.len() {
                    assert(actions[j] == head[j]);
                }
            }
        } else {
            assert(next(mid, events.last()) == settled_or_waiting(b));
            assert forall|j: int| 0 <= j < actions.len() implies #[trigger] actions[j]
                == ActionModel::Wait || actions[j] == ActionModel::Encode(b.filters) by {
                if j < head.len() {
                    assert(actions[j] == head[j]);
                }
            }
            if complete(b) {
                assert(actions[actions.len() - 1] == ActionModel::Encode(b.filters));
            } else {
                assert forall|j: int| 0 <= j < actions.len() implies #[trigger] actions[j]
                    == ActionModel::Wait by {
                    if j < head.len() {
                        assert(actions[j] == head[j]);
                    }
                }
            }
        }
    } else {
        assert(events =~= Seq::<EventModel>::empty());
    }
}

/// A query that finds the cache empty builds the catalog in full: it asks
/// for the listing first, asks once for the catalog of the listed filters,
/// each enriched by its own report, to be serialized, and ends by storing
/// and returning the serialized text. This holds whatever the order in
/// which the detail fetches end, once each has ended.
pub proof fn lemma_miss_builds_and_stores(
    listing: Seq<char>,
    order: Seq<int>,
    outcomes: Seq<Outcome>,
    encoded: Seq<char>,
)
    requires
        forall|i: int| 0 <= i < listed_filters(listing).len() ==> order.contains(i),
    ensures
        ({
            let (end, actions) = run(
                SessionModel::AwaitCache,
                build_events(listing, order, outcomes, encoded),
            );
            &&& end == SessionModel::Done
            &&& actions.len() == order.len() + 3
            &&& actions[0] == ActionModel::FetchListing
            &&& exists|k: int|
                0 < k < actions.len() - 1 && #[trigger] actions[k] == ActionModel::Encode(
                    enriched(listed_filters(listing), outcomes),
                )
            &&& actions.last() == ActionModel::StoreAndReturn(encoded)
            &&& stored_after(None, actions.last()) == Some(encoded)
            &&& answer_of(actions.last()) == Some(encoded)
        }),
{
    let b0 = started(listing);
    let catalog = enriched(listed_filters(listing), outcomes);
    lemma_any_order_same_catalog(listing, order, outcomes);
    let opening = seq![EventModel::CacheRead(None), EventModel::Listing(listing)];
    let closing = seq![EventModel::Encoded(encoded)];
    let middle = arrivals(order, outcomes);
    // The opening: the empty cache, then the listing.
    let one = seq![EventModel::CacheRead(None)];
    assert(opening.drop_last() =~= one);
    assert(one.drop_last() =~= Seq::<EventModel>::empty());
    assert(run(SessionModel::AwaitCache, one.drop_last()).0 == SessionModel::AwaitCache);
    assert(run(SessionModel::AwaitCache, one).0 == SessionModel::AwaitListing);
    assert(run(SessionModel::AwaitCache, one).1 =~= seq![ActionModel::FetchListing]);
    let (s1, a1) = run(SessionModel::AwaitCache, opening);
    assert(a1.len() == 2 && a1[0] == ActionModel::FetchListing);
    // The arrivals.
    let (s2, a2) = run(s1, middle);
    if complete(b0) {
        assert(s1 == SessionModel::AwaitEncoding);
        assert(a1[1] == ActionModel::Encode(b0.filters));
        assert(b0.filters =~= catalog) by {
            assert(b0.settled.len() == b0.filters.len());
            if b0.filters.len() > 0 {
                assert(!b0.settled[0]);
            }
        }
        lemma_encoding_ignores_arrivals(order, outcomes);
    } else {
        assert(s1 == SessionModel::AwaitDetails(b0));
        lemma_run_arrivals(listing, order, outcomes);
    }
    assert(s2 == SessionModel::AwaitEncoding);
    assert(a2.len() == order.len());
    lemma_run_concat(SessionModel::AwaitCache, opening, middle);
    // The closing: the serialized catalog.
    assert(closing.drop_last() =~= Seq::<EventModel>::empty());
    assert(run(s2, closing.drop_last()).0 == s2);
    assert(run(s2, closing).1 =~= seq![ActionModel::StoreAndReturn(encoded)]);
    lemma_run_concat(SessionModel::AwaitCache, opening + middle, closing);
    let actions = run(SessionModel::AwaitCache, opening + middle + closing).1;
    assert(actions =~= a1 + a2 + seq![ActionModel::StoreAndReturn(encoded)]);
    if complete(b0) {
        assert(actions[1] == ActionModel::Encode(catalog));
    } else {
        let k = choose|k: int|
            0 <= k < a2.len() && #[trigger] a2[k] == ActionModel::Encode(catalog);
        assert(actions[k + 2] == ActionModel::Encode(catalog));
    }
}

/// A session that waits for the serialized catalog passes over detail
/// fetches that still end.
proof fn lemma_encoding_ignores_arrivals(order: Seq<int>, outcomes: Seq<Outcome>)
    ensures
        run(SessionModel::AwaitEncoding, arrivals(order, outcomes)).0
            == SessionModel::AwaitEncoding,
        run(SessionModel::AwaitEncoding, arrivals(order, outcomes)).1.len() == order.len(),
    decreases order.len(),
{
    if order.len() > 0 {
        lemma_encoding_ignores_arrivals(order.drop_last(), outcomes);
        assert(arrivals(order, outcomes).drop_last() =~= arrivals(order.drop_last(), outcomes));
    } else {
        assert(arrivals(order, outcomes) =~= Seq::<EventModel>::empty());
    }
}

/// The first query on an empty cache builds, stores and returns the
/// serialized catalog; a second query, which finds what the first stored,
/// returns the same text and calls on the engine for nothing.
pub proof fn lemma_second_query_reuses_first(
    listing: Seq<char>,
    order: Seq<int>,
    outcomes: Seq<Outcome>,
    encoded: Seq<char>,
)
    requires
        forall|i: int| 0 <= i < listed_filters(listing).len() ==> order.contains(i),
    ensures
        ({
            let first = run(
                SessionModel::AwaitCache,
                build_events(listing, order, outcomes, encoded),
            ).1;
            let stored = stored_after(None, first.last());
            let second = run(SessionModel::AwaitCache, seq![EventModel::CacheRead(stored)]).1;
            &&& asks_engine(first[0])
            &&& stored == Some(encoded)
            &&& second.len() == 1
            &&& answer_of(second[0]) == answer_of(first.last())
            &&& answer_of(second[0]) == Some(encoded)
            &&& !asks_engine(second[0])
        }),
{
    lemma_miss_builds_and_stores(listing, order, outcomes, encoded);
    lemma_hit_returns_stored(encoded, Seq::empty());
    assert(seq![EventModel::CacheRead(Some(encoded))] + Seq::<EventModel>::empty() =~= seq![
        EventModel::CacheRead(Some(encoded)),
    ]);
}

} // verus!
