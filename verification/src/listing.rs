//! The filter listing: one report, one row per filter.

use vstd::prelude::*;
use crate::classify::{is_summary, parse_summary_chars, stripped, summary_filter, words};
use crate::model::{Catalog, FilterModel, filter_models};
use crate::scan::{split, split_chars, trim_chars};
use crate::text::{CharClass, rows, to_chars};

verus! {

/// The filters that the given lines list, in the order of the lines. A line
/// that is no listing row adds nothing.
pub open spec fn listed_in(lines: Seq<Seq<char>>) -> Seq<FilterModel>
    decreases lines.len(),
{
    if lines.len() == 0 {
        Seq::empty()
    } else {
        let before = listed_in(lines.drop_last());
        let line = stripped(lines.last());
        if is_summary(line) {
            before.push(summary_filter(words(line)))
        } else {
            before
        }
    }
}

/// The filters that a listing report lists, in the order of its lines.
pub open spec fn listed_filters(report: Seq<char>) -> Seq<FilterModel> {
    listed_in(split(report, CharClass::LineBreak))
}

/// Reads the engine's filter listing: one filter for each line that is a
/// listing row, in the order of the report, each without pads or options.
/// Every other line is passed over.
pub fn parse_filter_list(report: &str) -> (r: Catalog)
    ensures
        filter_models(r@) == listed_filters(report@),
{
    let lines = split_chars(&to_chars(report), CharClass::LineBreak);
    let mut out: Catalog = Vec::new();
    let mut i: usize = 0;
    assert(filter_models(out@) =~= Seq::empty());
    while i < lines.len()
        invariant
            i <= lines.len(),
            filter_models(out@) == listed_in(rows(lines@).take(i as int)),
        decreases lines.len() - i,
    {
        let line = trim_chars(&lines[i], CharClass::Whitespace);
        proof {
            let upto = rows(lines@).take(i + 1);
            assert(upto.drop_last() =~= rows(lines@).take(i as int));
            assert(upto.last() == lines@[i as int]@);
        }
        match parse_summary_chars(&line) {
            Some(filter) => {
                assert(filter_models(out@.push(filter)) =~= filter_models(out@).push(filter@));
                out.push(filter);
            },
            None => {},
        }
        i += 1;
    }
    assert(rows(lines@).take(lines.len() as int) =~= rows(lines@));
    out
}

} // verus!
