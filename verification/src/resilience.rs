//! Lines that fit no grammar leave the reading of the lines around them
//! untouched, in the listing and in a detail report.

use vstd::prelude::*;
use crate::classify::{
    Section, is_declaration, is_header, is_pad, is_summary, pad_of, stripped, value_of, words,
};
use crate::detail::{detail_fold, detail_step, with_details};
use crate::listing::{listed_filters, listed_in};
use crate::model::FilterModel;
use crate::rejoin::lemma_split_concat;
use crate::scan::split;
use crate::text::CharClass;

verus! {

/// The filters listed in two runs of lines are those of the first run, then
/// those of the second.
pub proof fn lemma_listed_in_concat(a: Seq<Seq<char>>, b: Seq<Seq<char>>)
    ensures
        listed_in(a + b) == listed_in(a) + listed_in(b),
    decreases b.len(),
{
    if b.len() == 0 {
        assert(a + b =~= a);
        assert(listed_in(a) + listed_in(b) =~= listed_in(a));
    } else {
        assert((a + b).drop_last() =~= a + b.drop_last());
        assert((a + b).last() == b.last());
        lemma_listed_in_concat(a, b.drop_last());
        let line = stripped(b.last());
        if is_summary(line) {
            assert(listed_in(a + b) =~= listed_in(a) + listed_in(b));
        }
    }
}

/// A line of the listing that is no listing row, wherever it stands, does
/// not change what is read from the lines before and after it.
pub proof fn lemma_listing_skips_line(
    before: Seq<Seq<char>>,
    line: Seq<char>,
    after: Seq<Seq<char>>,
)
    requires
        !is_summary(stripped(line)),
    ensures
        listed_in(before.push(line) + after) == listed_in(before + after),
        listed_in(before.push(line) + after) == listed_in(before) + listed_in(after),
{
    lemma_listed_in_concat(before.push(line), after);
    lemma_listed_in_concat(before, after);
    assert(before.push(line).drop_last() =~= before);
}

/// The same for the report as a text: a whole line that is no listing row
/// can be taken out of the report without changing the filters read.
pub proof fn lemma_listing_report_skips_line(before: Seq<char>, line: Seq<char>, after: Seq<char>)
    requires
        forall|k: int| 0 <= k < line.len() ==> line[k] != '\n',
        !is_summary(stripped(line)),
    ensures
        listed_filters(before + seq!['\n'] + line + seq!['\n'] + after) == listed_filters(
            before + seq!['\n'] + after,
        ),
{
    let class = CharClass::LineBreak;
    lemma_line_is_one_piece(line);
    lemma_split_concat(line, '\n', after, class);
    lemma_split_concat(before, '\n', line + seq!['\n'] + after, class);
    lemma_split_concat(before, '\n', after, class);
    assert(before + seq!['\n'] + (line + seq!['\n'] + after) =~= before + seq!['\n'] + line
        + seq!['\n'] + after);
    assert(split(before, class) + (seq![line] + split(after, class)) =~= split(
        before,
        class,
    ).push(line) + split(after, class));
    lemma_listing_skips_line(split(before, class), line, split(after, class));
}

/// A text without a line feed is a single line.
pub proof fn lemma_line_is_one_piece(line: Seq<char>)
    requires
        forall|k: int| 0 <= k < line.len() ==> line[k] != '\n',
    ensures
        split(line, CharClass::LineBreak) == seq![line],
{
    crate::scan::lemma_run_len_is(line, CharClass::LineBreak, line.len());
}

/// Whether a stripped line of a detail report fits no grammar in the given
/// section: it is no header; among the inputs or outputs it is no pad entry
/// of three words or more; among the options it is empty, a declaration of
/// fewer than three words, or a row that is no value row or has no option
/// to belong to.
pub open spec fn unrecognized(section: Section, f: FilterModel, line: Seq<char>) -> bool {
    let w = words(line);
    &&& !is_header(line, Section::Inputs)
    &&& !is_header(line, Section::Outputs)
    &&& !is_header(line, Section::Options)
    &&& match section {
        Section::Outside => true,
        Section::Inputs | Section::Outputs => !is_pad(line) || pad_of(w).is_none(),
        Section::Options => {
            ||| line.len() == 0
            ||| is_declaration(w) && w.len() < 3
            ||| !is_declaration(w) && (value_of(w).is_none() || f.options.len() == 0)
        },
    }
}

/// A line that fits no grammar changes neither the section nor the filter.
pub proof fn lemma_unrecognized_changes_nothing(section: Section, f: FilterModel, line: Seq<char>)
    requires
        unrecognized(section, f, line),
    ensures
        detail_step(section, f, line) == (section, f),
{
}

/// Reading two runs of lines is reading the second from where the first
/// ended.
pub proof fn lemma_detail_fold_concat(
    section: Section,
    f: FilterModel,
    a: Seq<Seq<char>>,
    b: Seq<Seq<char>>,
)
    ensures
        detail_fold(section, f, a + b) == detail_fold(
            detail_fold(section, f, a).0,
            detail_fold(section, f, a).1,
            b,
        ),
    decreases b.len(),
{
    if b.len() == 0 {
        assert(a + b =~= a);
    } else {
        assert((a + b).drop_last() =~= a + b.drop_last());
        assert((a + b).last() == b.last());
        lemma_detail_fold_concat(section, f, a, b.drop_last());
    }
}

/// A line of a detail report that fits no grammar where it stands does not
/// change what is read from the lines before and after it.
pub proof fn lemma_detail_skips_line(
    section: Section,
    f: FilterModel,
    before: Seq<Seq<char>>,
    line: Seq<char>,
    after: Seq<Seq<char>>,
)
    requires
        unrecognized(
            detail_fold(section, f, before).0,
            detail_fold(section, f, before).1,
            stripped(line),
        ),
    ensures
        detail_fold(section, f, before.push(line) + after) == detail_fold(
            section,
            f,
            before + after,
        ),
{
    let reached = detail_fold(section, f, before);
    lemma_unrecognized_changes_nothing(reached.0, reached.1, stripped(line));
    assert(before.push(line).drop_last() =~= before);
    assert(detail_fold(section, f, before.push(line)) == reached);
    lemma_detail_fold_concat(section, f, before.push(line), after);
    lemma_detail_fold_concat(section, f, before, after);
}

/// The same for the report as a text: a whole line that fits no grammar
/// where it stands can be taken out of the report without changing the
/// filter read.
pub proof fn lemma_detail_report_skips_line(
    f: FilterModel,
    before: Seq<char>,
    line: Seq<char>,
    after: Seq<char>,
)
    requires
        forall|k: int| 0 <= k < line.len() ==> line[k] != '\n',
        unrecognized(
            detail_fold(Section::Outside, f, split(before, CharClass::LineBreak)).0,
            detail_fold(Section::Outside, f, split(before, CharClass::LineBreak)).1,
            stripped(line),
        ),
    ensures
        with_details(f, before + seq!['\n'] + line + seq!['\n'] + after) == with_details(
            f,
            before + seq!['\n'] + after,
        ),
{
    let class = CharClass::LineBreak;
    lemma_line_is_one_piece(line);
    lemma_split_concat(line, '\n', after, class);
    lemma_split_concat(before, '\n', line + seq!['\n'] + after, class);
    lemma_split_concat(before, '\n', after, class);
    assert(before + seq!['\n'] + (line + seq!['\n'] + after) =~= before + seq!['\n'] + line
        + seq!['\n'] + after);
    assert(split(before, class) + (seq![line] + split(after, class)) =~= split(
        before,
        class,
    ).push(line) + split(after, class));
    lemma_detail_skips_line(Section::Outside, f, split(before, class), line, split(after, class));
}

} // verus!
