//! The detail report of one filter: its pads and its options.

use vstd::prelude::*;
use crate::classify::{
    Section, declared_option, default_of, is_declaration, is_header, is_header_chars,
    is_option_declaration, is_pad, is_pad_chars, option_from_words, pad_from_words, pad_of,
    rest_of, stripped, value_from_words, value_of, words,
};
use crate::model::{
    Filter, FilterModel, OptionModel, OptionValue, PadModel, ValueModel, option_models,
    pad_models,
};
use crate::scan::{split, split_chars, split_fields, trim_chars};
use crate::text::{CharClass, rows, to_chars};

verus! {

/// The filter with one more input pad, where there is one to add.
pub open spec fn with_input(f: FilterModel, pad: Option<PadModel>) -> FilterModel {
    match pad {
        Some(p) => FilterModel { inputs: f.inputs.push(p), ..f },
        None => f,
    }
}

/// The filter with one more output pad, where there is one to add.
pub open spec fn with_output(f: FilterModel, pad: Option<PadModel>) -> FilterModel {
    match pad {
        Some(p) => FilterModel { outputs: f.outputs.push(p), ..f },
        None => f,
    }
}

/// The filter with one more option, where there is one to add.
pub open spec fn with_option(f: FilterModel, option: Option<OptionModel>) -> FilterModel {
    match option {
        Some(o) => FilterModel { options: f.options.push(o), ..f },
        None => f,
    }
}

/// The filter with one more value on its last option. Nothing changes where
/// there is no value to add or no option to add it to.
pub open spec fn with_value(f: FilterModel, value: Option<ValueModel>) -> FilterModel {
    match value {
        Some(v) => if f.options.len() > 0 {
            let last = f.options.last();
            let grown = OptionModel { values: last.values.push(v), ..last };
            FilterModel { options: f.options.update(f.options.len() - 1, grown), ..f }
        } else {
            f
        },
        None => f,
    }
}

/// What one stripped line of a detail report does to the section and to the
/// filter read so far. The tests are made in this order: the inputs header;
/// a pad entry among the inputs; the outputs header; a pad entry among the
/// outputs; the options header; a non-empty line among the options, which
/// is a declaration or else a value row of the last option. Any other line
/// changes nothing.
pub open spec fn detail_step(section: Section, f: FilterModel, line: Seq<char>) -> (
    Section,
    FilterModel,
) {
    let w = words(line);
    if is_header(line, Section::Inputs) {
        (Section::Inputs, f)
    } else if section == Section::Inputs && is_pad(line) {
        (section, with_input(f, pad_of(w)))
    } else if is_header(line, Section::Outputs) {
        (Section::Outputs, f)
    } else if section == Section::Outputs && is_pad(line) {
        (section, with_output(f, pad_of(w)))
    } else if is_header(line, Section::Options) {
        (Section::Options, f)
    } else if section == Section::Options && line.len() > 0 {
        if is_declaration(w) {
            (section, with_option(f, declared_option(w, default_of(rest_of(w, 3)))))
        } else {
            (section, with_value(f, value_of(w)))
        }
    } else {
        (section, f)
    }
}

/// What the given lines, taken in order, do to the section and the filter.
pub open spec fn detail_fold(section: Section, f: FilterModel, lines: Seq<Seq<char>>) -> (
    Section,
    FilterModel,
)
    decreases lines.len(),
{
    if lines.len() == 0 {
        (section, f)
    } else {
        let (s, g) = detail_fold(section, f, lines.drop_last());
        detail_step(s, g, stripped(lines.last()))
    }
}

/// The filter enriched by its detail report, read from before any section.
pub open spec fn with_details(f: FilterModel, report: Seq<char>) -> FilterModel {
    detail_fold(Section::Outside, f, split(report, CharClass::LineBreak)).1
}

/// Appends a value to the last option of the filter, if it has an option.
fn push_value(filter: &mut Filter, value: OptionValue)
    ensures
        final(filter)@ == with_value(old(filter)@, Some(value@)),
{
    match filter.options.pop() {
        Some(last) => {
            let ghost rest = filter.options@;
            let mut grown = last;
            grown.values.push(value);
            filter.options.push(grown);
            proof {
                let before = old(filter).options@;
                assert(before =~= rest.push(last));
                assert(grown@.values =~= last@.values.push(value@));
                assert(option_models(filter.options@) =~= option_models(before).update(
                    before.len() - 1,
                    grown@,
                ));
                assert(option_models(before).last() == last@);
            }
        },
        None => {},
    }
}

/// Takes one stripped line of a detail report into the filter and returns
/// the section that the next line belongs to.
pub fn absorb_line(section: Section, filter: &mut Filter, line: &Vec<char>) -> (next: Section)
    ensures
        (next, final(filter)@) == detail_step(section, old(filter)@, line@),
{
    if is_header_chars(line, Section::Inputs) {
        Section::Inputs
    } else if section == Section::Inputs && is_pad_chars(line) {
        match pad_from_words(&split_fields(line, CharClass::Whitespace)) {
            Some(pad) => {
                assert(pad_models(filter.inputs@.push(pad)) =~= pad_models(filter.inputs@).push(
                    pad@,
                ));
                filter.inputs.push(pad);
            },
            None => {},
        }
        section
    } else if is_header_chars(line, Section::Outputs) {
        Section::Outputs
    } else if section == Section::Outputs && is_pad_chars(line) {
        match pad_from_words(&split_fields(line, CharClass::Whitespace)) {
            Some(pad) => {
                assert(pad_models(filter.outputs@.push(pad)) =~= pad_models(
                    filter.outputs@,
                ).push(pad@));
                filter.outputs.push(pad);
            },
            None => {},
        }
        section
    } else if is_header_chars(line, Section::Options) {
        Section::Options
    } else if section == Section::Options && line.len() > 0 {
        let w = split_fields(line, CharClass::Whitespace);
        if is_option_declaration(&w) {
            match option_from_words(&w) {
                Some(option) => {
                    assert(option_models(filter.options@.push(option)) =~= option_models(
                        filter.options@,
                    ).push(option@));
                    filter.options.push(option);
                },
                None => {},
            }
        } else {
            match value_from_words(&w) {
                Some(value) => {
                    push_value(filter, value);
                },
                None => {},
            }
        }
        section
    } else {
        section
    }
}

/// Reads one filter's detail report into the filter: the pads listed under
/// the inputs and outputs headers and the options declared under an options
/// header, each with its values and its default, are appended in the order
/// of the report. Lines that fit nowhere are passed over.
pub fn read_details(filter: &mut Filter, report: &str)
    ensures
        final(filter)@ == with_details(old(filter)@, report@),
{
    let lines = split_chars(&to_chars(report), CharClass::LineBreak);
    let mut section = Section::Outside;
    let mut i: usize = 0;
    while i < lines.len()
        invariant
            i <= lines.len(),
            (section, filter@) == detail_fold(
                Section::Outside,
                old(filter)@,
                rows(lines@).take(i as int),
            ),
        decreases lines.len() - i,
    {
        let line = trim_chars(&lines[i], CharClass::Whitespace);
        proof {
            let upto = rows(lines@).take(i + 1);
            assert(upto.drop_last() =~= rows(lines@).take(i as int));
            assert(upto.last() == lines@[i as int]@);
        }
        section = absorb_line(section, filter, &line);
        i += 1;
    }
    assert(rows(lines@).take(lines.len() as int) =~= rows(lines@));
}

/// The filter enriched by its detail report: `read_details` on a filter
/// that is handed over and back.
pub fn parse_filter_details(filter: Filter, report: &str) -> (r: Filter)
    ensures
        r@ == with_details(filter@, report@),
{
    let mut filter = filter;
    read_details(&mut filter, report);
    filter
}

} // verus!
