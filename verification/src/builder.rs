//! Building a catalog: the filters of the listing, each to be enriched by
//! its own detail report, in whatever order the reports arrive.

use vstd::prelude::*;
use crate::detail::{read_details, with_details};
use crate::listing::{listed_filters, parse_filter_list};
use crate::model::{Catalog, Filter, FilterModel, filter_models};
use crate::text::texts;

verus! {

/// One filter of the listing and whether its details have been settled.
#[derive(Debug)]
struct Slot {
    filter: Filter,
    settled: bool,
}

/// A catalog in the making.
#[derive(Debug)]
pub struct CatalogBuilder {
    slots: Vec<Slot>,
}

/// What a `CatalogBuilder` holds: the filters in the order of the listing,
/// and for each whether its details have been settled.
pub struct BuilderModel {
    pub filters: Seq<FilterModel>,
    pub settled: Seq<bool>,
}

impl View for CatalogBuilder {
    type V = BuilderModel;

    closed spec fn view(&self) -> BuilderModel {
        BuilderModel {
            filters: slot_filters(self.slots@),
            settled: slot_flags(self.slots@),
        }
    }
}

/// The filters of the slots, in order.
spec fn slot_filters(slots: Seq<Slot>) -> Seq<FilterModel> {
    slots.map_values(|s: Slot| s.filter@)
}

/// Which of the slots are settled, in order.
spec fn slot_flags(slots: Seq<Slot>) -> Seq<bool> {
    slots.map_values(|s: Slot| s.settled)
}

/// A builder that holds one entry for each filter.
pub open spec fn well_formed(b: BuilderModel) -> bool {
    b.filters.len() == b.settled.len()
}

/// The builder right after the listing was read: every filter of the
/// listing, none of them settled.
pub open spec fn started(listing: Seq<char>) -> BuilderModel {
    BuilderModel {
        filters: listed_filters(listing),
        settled: Seq::new(listed_filters(listing).len(), |i: int| false),
    }
}

/// Whether the filter at `index` exists and still waits for its details.
pub open spec fn awaits(b: BuilderModel, index: int) -> bool {
    0 <= index < b.filters.len() && !b.settled[index]
}

/// The builder after the detail report of the filter at `index` arrived:
/// a filter that waits is enriched by the report and settled; otherwise
/// nothing changes.
pub open spec fn accepted(b: BuilderModel, index: int, report: Seq<char>) -> BuilderModel {
    if awaits(b, index) {
        BuilderModel {
            filters: b.filters.update(index, with_details(b.filters[index], report)),
            settled: b.settled.update(index, true),
        }
    } else {
        b
    }
}

/// The builder after the details of the filter at `index` were given up: a
/// filter that waits is settled as it stands; otherwise nothing changes.
pub open spec fn abandoned(b: BuilderModel, index: int) -> BuilderModel {
    if awaits(b, index) {
        BuilderModel { filters: b.filters, settled: b.settled.update(index, true) }
    } else {
        b
    }
}

/// Whether every filter is settled.
pub open spec fn complete(b: BuilderModel) -> bool {
    forall|i: int| 0 <= i < b.settled.len() ==> b.settled[i]
}

/// The names of the filters, in order.
pub open spec fn names_of(filters: Seq<FilterModel>) -> Seq<Seq<char>> {
    filters.map_values(|f: FilterModel| f.name)
}

impl CatalogBuilder {
    /// Starts a catalog from the engine's filter listing.
    pub fn begin(listing: &str) -> (b: CatalogBuilder)
        ensures
            b@ == started(listing@),
    {
        let filters = parse_filter_list(listing);
        let ghost all = filter_models(filters@);
        let mut slots: Vec<Slot> = Vec::new();
        for f in it: filters.into_iter()
            invariant
                filter_models(it.seq()) == all,
                slot_filters(slots@) == all.take(it.index() as int),
                slot_flags(slots@) == Seq::new(it.index() as nat, |i: int| false),
        {
            let ghost before = slots@;
            let ghost n = it.index() as int;
            assert(f@ == all[n]);
            slots.push(Slot { filter: f, settled: false });
            assert(slot_filters(slots@) =~= slot_filters(before).push(f@));
            assert(slot_flags(slots@) =~= slot_flags(before).push(false));
            assert(all.take(n + 1) =~= all.take(n).push(all[n]));
            assert(Seq::new((n + 1) as nat, |i: int| false) =~= Seq::new(n as nat, |i: int| false).push(
                false,
            ));
        }
        assert(all.take(all.len() as int) =~= all);
        CatalogBuilder { slots }
    }

    /// The builder always holds one flag for each filter.
    pub proof fn lemma_well_formed(&self)
        ensures
            well_formed(self@),
    {
    }

    /// The number of filters in the catalog.
    pub fn len(&self) -> (n: usize)
        ensures
            n == self@.filters.len(),
    {
        self.slots.len()
    }

    /// The names of the filters, in the order of the listing: the detail
    /// report of the filter at an index is asked for by the name at that
    /// index.
    pub fn names(&self) -> (r: Vec<String>)
        ensures
            texts(r@) == names_of(self@.filters),
    {
        let mut r: Vec<String> = Vec::new();
        let mut i: usize = 0;
        while i < self.slots.len()
            invariant
                i <= self.slots.len(),
                texts(r@) == names_of(slot_filters(self.slots@)).take(i as int),
            decreases self.slots.len() - i,
        {
            let ghost before = r@;
            let name = self.slots[i].filter.name.clone();
            r.push(name);
            proof {
                let all = names_of(slot_filters(self.slots@));
                assert(texts(r@) =~= texts(before).push(name@));
                assert(all.take(i + 1) =~= all.take(i as int).push(all[i as int]));
            }
            i += 1;
        }
        proof {
            let all = names_of(slot_filters(self.slots@));
            assert(all.take(self.slots.len() as int) =~= all);
        }
        r
    }

    /// Takes in the detail report of the filter at `index`. A filter that
    /// waits for its details is enriched and settled, and the result is
    /// `true`. For an index outside the catalog or a filter that is already
    /// settled nothing changes, and the result is `false`.
    pub fn accept(&mut self, index: usize, report: &str) -> (taken: bool)
        ensures
            taken == awaits(old(self)@, index as int),
            final(self)@ == accepted(old(self)@, index as int, report@),
    {
        if index < self.slots.len() && !self.slots[index].settled {
            let ghost before = self.slots@;
            let slot = &mut self.slots[index];
            read_details(&mut slot.filter, report);
            slot.settled = true;
            proof {
                let i = index as int;
                assert(slot_filters(self.slots@) =~= slot_filters(before).update(
                    i,
                    with_details(before[i].filter@, report@),
                ));
                assert(slot_flags(self.slots@) =~= slot_flags(before).update(i, true));
            }
            true
        } else {
            false
        }
    }

    /// Gives up the details of the filter at `index`, whose report could
    /// not be had. A filter that waits is settled as the listing gave it,
    /// and the result is `true`; otherwise nothing changes, and the result
    /// is `false`.
    pub fn abandon(&mut self, index: usize) -> (taken: bool)
        ensures
            taken == awaits(old(self)@, index as int),
            final(self)@ == abandoned(old(self)@, index as int),
    {
        if index < self.slots.len() && !self.slots[index].settled {
            let ghost before = self.slots@;
            let slot = &mut self.slots[index];
            slot.settled = true;
            proof {
                let i = index as int;
                assert(slot_filters(self.slots@) =~= slot_filters(before));
                assert(slot_flags(self.slots@) =~= slot_flags(before).update(i, true));
            }
            true
        } else {
            false
        }
    }

    /// Whether every filter is settled.
    pub fn is_complete(&self) -> (r: bool)
        ensures
            r == complete(self@),
    {
        let mut i: usize = 0;
        while i < self.slots.len()
            invariant
                i <= self.slots.len(),
                forall|k: int| 0 <= k < i ==> slot_flags(self.slots@)[k],
            decreases self.slots.len() - i,
        {
            if !self.slots[i].settled {
                assert(!self@.settled[i as int]);
                return false;
            }
            i += 1;
        }
        true
    }

    /// Hands out the catalog: the filters in the order of the listing, once
    /// every one of them is settled. Before that there is no catalog, and
    /// the builder comes back as it was.
    pub fn finish(self) -> (r: Result<Catalog, CatalogBuilder>)
        ensures
            r.is_ok() == complete(self@),
            r.is_ok() ==> filter_models(r.unwrap()@) == self@.filters,
            r.is_err() ==> r.unwrap_err()@ == self@,
    {
        if !self.is_complete() {
            return Err(self);
        }
        let ghost all = slot_filters(self.slots@);
        let mut out: Catalog = Vec::new();
        for slot in it: self.slots.into_iter()
            invariant
                slot_filters(it.seq()) == all,
                filter_models(out@) == all.take(it.index() as int),
        {
            let ghost before = out@;
            let ghost n = it.index() as int;
            assert(slot.filter@ == all[n]);
            out.push(slot.filter);
            assert(filter_models(out@) =~= filter_models(before).push(all[n]));
            assert(all.take(n + 1) =~= all.take(n).push(all[n]));
        }
        assert(all.take(all.len() as int) =~= all);
        Ok(out)
    }
}

} // verus!
