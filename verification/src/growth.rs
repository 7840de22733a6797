//! A detail report only adds to a filter: what the listing said of it, and
//! what was read before, stays.

use vstd::prelude::*;
use crate::classify::{Section, stripped};
use crate::detail::{detail_fold, detail_step, with_details};
use crate::model::{FilterModel, OptionModel};

verus! {

/// Whether `long` begins with `short`.
pub open spec fn begins_with<T>(long: Seq<T>, short: Seq<T>) -> bool {
    short.len() <= long.len() && forall|i: int| 0 <= i < short.len() ==> long[i] == short[i]
}

/// Whether `new` is the option `old` with, at most, more values at the end.
pub open spec fn option_grown(old: OptionModel, new: OptionModel) -> bool {
    &&& new.name == old.name
    &&& new.type_tag == old.type_tag
    &&& new.description == old.description
    &&& new.stream_support == old.stream_support
    &&& new.default == old.default
    &&& new.current_value == old.current_value
    &&& begins_with(new.values, old.values)
}

/// Whether `new` is the filter `old` with, at most, more pads, more options
/// and more values of its options, each added at the end.
pub open spec fn filter_grown(old: FilterModel, new: FilterModel) -> bool {
    &&& new.name == old.name
    &&& new.timeline_support == old.timeline_support
    &&& new.slice_threading == old.slice_threading
    &&& new.command_support == old.command_support
    &&& new.description == old.description
    &&& begins_with(new.inputs, old.inputs)
    &&& begins_with(new.outputs, old.outputs)
    &&& old.options.len() <= new.options.len()
    &&& forall|i: int|
        0 <= i < old.options.len() ==> option_grown(old.options[i], #[trigger] new.options[i])
}

/// Whether the current value of every option is its default.
pub open spec fn at_defaults(f: FilterModel) -> bool {
    forall|i: int|
        0 <= i < f.options.len() ==> (#[trigger] f.options[i]).current_value
            == f.options[i].default
}

/// One line only adds to the filter.
pub proof fn lemma_step_grows(section: Section, f: FilterModel, line: Seq<char>)
    ensures
        filter_grown(f, detail_step(section, f, line).1),
        at_defaults(f) ==> at_defaults(detail_step(section, f, line).1),
{
    let g = detail_step(section, f, line).1;
    assert forall|i: int| 0 <= i < f.options.len() implies option_grown(
        f.options[i],
        #[trigger] g.options[i],
    ) by {}
}

/// Growing is transitive.
pub proof fn lemma_grown_twice(a: FilterModel, b: FilterModel, c: FilterModel)
    requires
        filter_grown(a, b),
        filter_grown(b, c),
    ensures
        filter_grown(a, c),
{
    assert forall|i: int| 0 <= i < a.options.len() implies option_grown(
        a.options[i],
        #[trigger] c.options[i],
    ) by {
        assert(option_grown(a.options[i], b.options[i]));
        assert(option_grown(b.options[i], c.options[i]));
    }
}

/// Any run of lines only adds to the filter.
pub proof fn lemma_fold_grows(section: Section, f: FilterModel, lines: Seq<Seq<char>>)
    ensures
        filter_grown(f, detail_fold(section, f, lines).1),
        at_defaults(f) ==> at_defaults(detail_fold(section, f, lines).1),
    decreases lines.len(),
{
    if lines.len() > 0 {
        let (s, g) = detail_fold(section, f, lines.drop_last());
        lemma_fold_grows(section, f, lines.drop_last());
        lemma_step_grows(s, g, stripped(lines.last()));
        lemma_grown_twice(f, g, detail_step(s, g, stripped(lines.last())).1);
    } else {
        assert forall|i: int| 0 <= i < f.options.len() implies option_grown(
            f.options[i],
            #[trigger] f.options[i],
        ) by {}
    }
}

/// Enriching a filter by a detail report keeps its name, its flags and its
/// description, keeps every pad, option and value it had, in place, and
/// adds the new ones behind them. Where every option stood at its default
/// before, every option stands at its default afterwards: reading a report
/// sets the current value of an option once, to its default.
pub proof fn lemma_details_only_add(f: FilterModel, report: Seq<char>)
    ensures
        filter_grown(f, with_details(f, report)),
        at_defaults(f) ==> at_defaults(with_details(f, report)),
{
    lemma_fold_grows(
        Section::Outside,
        f,
        crate::scan::split(report, crate::text::CharClass::LineBreak),
    );
}

} // verus!
