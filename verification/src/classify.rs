//! Recognising single lines of the engine's reports.
//!
//! The specifications speak of a line from which surrounding whitespace has
//! been stripped, and of its words: the fields between whitespace.

use vstd::prelude::*;
use crate::model::{
    Filter, FilterModel, FilterOption, OptionModel, OptionValue, PadDescriptor, PadModel,
    ValueModel,
};
use crate::pattern::{capture, regex_group, regex_search, search, text_of};
use crate::rejoin::lemma_words_of_stripped;
use crate::scan::{fields, join, join_rows, remove_chars, split_fields, trim, trim_chars, without};
use crate::text::{CharClass, rows, same_chars, slice_chars, to_chars, to_text};

verus! {

/// The words of a line.
pub open spec fn words(line: Seq<char>) -> Seq<Seq<char>> {
    fields(line, CharClass::Whitespace)
}

/// A line without the whitespace around it.
pub open spec fn stripped(line: Seq<char>) -> Seq<char> {
    trim(line, CharClass::Whitespace)
}

/// The words from index `from` on, joined by single spaces.
pub open spec fn rest_of(w: Seq<Seq<char>>, from: int) -> Seq<char> {
    join(w.skip(from), ' ')
}

/// The pattern of a row of the filter listing: the three capability flags,
/// the filter's name, its pad signature and its description.
pub open spec fn summary_pattern() -> Seq<char> {
    "^[T.][S.][C.]\\s+[^=]\\S+\\s+\\S+\\s+.+$"@
}

/// Whether `word` is a flag word: three characters, each the letter of its
/// position (`T`, `S`, `C`) or a dot.
pub open spec fn is_flag_word(word: Seq<char>) -> bool {
    &&& word.len() == 3
    &&& (word[0] == 'T' || word[0] == '.')
    &&& (word[1] == 'S' || word[1] == '.')
    &&& (word[2] == 'C' || word[2] == '.')
}

/// What the words of a listing row must satisfy beside the pattern: a flag
/// word, then a name that does not begin with `=`, a pad signature and at
/// least one word of description.
pub open spec fn summary_shape(w: Seq<Seq<char>>) -> bool {
    &&& w.len() >= 4
    &&& is_flag_word(w[0])
    &&& w[1].len() > 0
    &&& w[1][0] != '='
}

/// Whether a stripped line is a row of the filter listing, given whether the
/// listing pattern was found in it.
pub open spec fn summary_accepted(matched: bool, line: Seq<char>) -> bool {
    matched && summary_shape(words(line))
}

/// Whether a stripped line is a row of the filter listing.
pub open spec fn is_summary(line: Seq<char>) -> bool {
    summary_accepted(regex_search(summary_pattern(), line) == Some(true), line)
}

/// The filter that the words of a listing row describe: the flags are read
/// by position from the first word, each set by its own letter; the second
/// word is the name; the words after the third are the description.
pub open spec fn summary_filter(w: Seq<Seq<char>>) -> FilterModel {
    FilterModel {
        name: w[1],
        timeline_support: w[0][0] == 'T',
        slice_threading: w[0][1] == 'S',
        command_support: w[0][2] == 'C',
        description: rest_of(w, 3),
        inputs: Seq::empty(),
        outputs: Seq::empty(),
        options: Seq::empty(),
    }
}

/// Whether `word` is a flag word.
pub fn is_flags(word: &Vec<char>) -> (r: bool)
    ensures
        r == is_flag_word(word@),
{
    word.len() == 3 && (word[0] == 'T' || word[0] == '.') && (word[1] == 'S' || word[1] == '.') && (
    word[2] == 'C' || word[2] == '.')
}

/// Builds the filter of a listing row from the stripped line and the outcome
/// of the pattern search on it; `None` where the line is no listing row.
pub fn summary_of(matched: bool, line: &Vec<char>) -> (r: Option<Filter>)
    ensures
        r.is_some() == summary_accepted(matched, line@),
        r.is_some() ==> r.unwrap()@ == summary_filter(words(line@)),
{
    if !matched {
        return None;
    }
    let w = split_fields(line, CharClass::Whitespace);
    if w.len() < 4 {
        return None;
    }
    assert(rows(w@)[0] == w@[0]@);
    assert(rows(w@)[1] == w@[1]@);
    if !is_flags(&w[0]) || w[1].len() == 0 || w[1][0] == '=' {
        return None;
    }
    let flags = &w[0];
    let filter = Filter {
        name: to_text(&w[1]),
        timeline_support: flags[0] == 'T',
        slice_threading: flags[1] == 'S',
        command_support: flags[2] == 'C',
        description: to_text(&join_rows(&w, 3, ' ')),
        inputs: Vec::new(),
        outputs: Vec::new(),
        options: Vec::new(),
    };
    assert(filter@.inputs =~= Seq::empty());
    assert(filter@.outputs =~= Seq::empty());
    assert(filter@.options =~= Seq::empty());
    Some(filter)
}

/// Whether the line, once stripped, is a row of the filter listing.
pub fn is_filter_summary(line: &str) -> (r: bool)
    ensures
        r == is_summary(stripped(line@)),
{
    parse_summary(line).is_some()
}

/// Reads a row of the filter listing: the filter with its name, flags and
/// description and without pads or options; `None` where the line, once
/// stripped, is no listing row.
pub fn parse_summary(line: &str) -> (r: Option<Filter>)
    ensures
        r.is_some() == is_summary(stripped(line@)),
        r.is_some() ==> r.unwrap()@ == summary_filter(words(line@)),
{
    let t = trim_chars(&to_chars(line), CharClass::Whitespace);
    proof {
        lemma_words_of_stripped(line@);
    }
    parse_summary_chars(&t)
}

/// `parse_summary` for a line that is already stripped.
pub fn parse_summary_chars(line: &Vec<char>) -> (r: Option<Filter>)
    ensures
        r.is_some() == is_summary(line@),
        r.is_some() ==> r.unwrap()@ == summary_filter(words(line@)),
{
    let text = to_text(line);
    let found = search("^[T.][S.][C.]\\s+[^=]\\S+\\s+\\S+\\s+.+$", text.as_str());
    let matched = match found {
        Some(m) => m,
        None => false,
    };
    summary_of(matched, line)
}

/// The part of a detail report that the lines belong to.
#[derive(Clone, Copy, Debug, PartialEq, Eq, Structural)]
pub enum Section {
    /// Before the first header.
    Outside,
    Inputs,
    Outputs,
    Options,
}

/// Whether `s` ends in `suffix`.
pub open spec fn ends_with(s: Seq<char>, suffix: Seq<char>) -> bool {
    s.len() >= suffix.len() && s.skip(s.len() - suffix.len()) == suffix
}

/// Whether a stripped line is the header that opens `kind`: the inputs and
/// the outputs by their exact markers; the options by any line that ends in
/// the options marker, whatever stands before it.
pub open spec fn is_header(line: Seq<char>, kind: Section) -> bool {
    match kind {
        Section::Outside => false,
        Section::Inputs => line == "Inputs:"@,
        Section::Outputs => line == "Outputs:"@,
        Section::Options => ends_with(line, "AVOptions:"@),
    }
}

/// Whether a stripped line is a pad entry: it begins with `#`.
pub open spec fn is_pad(line: Seq<char>) -> bool {
    line.len() > 0 && line[0] == '#'
}

/// The pad that the words of a pad entry describe: the second word is its
/// name, the third its media kind, from which the brackets are taken out.
/// An entry of fewer than three words describes none.
pub open spec fn pad_of(w: Seq<Seq<char>>) -> Option<PadModel> {
    if w.len() >= 3 {
        Some(PadModel { name: w[1], stream_type: without(w[2], CharClass::Paren) })
    } else {
        None
    }
}

/// Whether the words declare an option: the second one begins with `<`.
pub open spec fn is_declaration(w: Seq<Seq<char>>) -> bool {
    w.len() >= 2 && w[1].len() > 0 && w[1][0] == '<'
}

/// The pattern of a default in an option's description.
pub open spec fn default_pattern() -> Seq<char> {
    "\\(default ([^)\\\"]+|\\\"[^\\\"]+\\\")\\)"@
}

/// The default that a captured value stands for: the value without the
/// double quotes around it, or the empty text where nothing was captured.
pub open spec fn default_text(captured: Option<Seq<char>>) -> Seq<char> {
    match captured {
        Some(c) => trim(c, CharClass::Quote),
        None => Seq::empty(),
    }
}

/// The default that a description states, empty where it states none.
pub open spec fn default_of(description: Seq<char>) -> Seq<char> {
    default_text(regex_group(default_pattern(), description, 1))
}

/// The option that the words of a declaration describe, with its default:
/// name, type tag and stream support are the first three words, the
/// description the rest; it has no values yet and its current value is the
/// default. A declaration of fewer than three words describes none.
pub open spec fn declared_option(w: Seq<Seq<char>>, default: Seq<char>) -> Option<OptionModel> {
    if is_declaration(w) && w.len() >= 3 {
        Some(
            OptionModel {
                name: w[0],
                type_tag: w[1],
                stream_support: w[2],
                description: rest_of(w, 3),
                values: Seq::empty(),
                default: default,
                current_value: default,
            },
        )
    } else {
        None
    }
}

/// The value that the words of a value row describe: three words are label,
/// literal and stream support; two words are literal and stream support,
/// with an empty label; any other number of words describes none.
pub open spec fn value_of(w: Seq<Seq<char>>) -> Option<ValueModel> {
    if w.len() == 3 {
        Some(ValueModel { label: w[0], literal: w[1], stream_support: w[2] })
    } else if w.len() == 2 {
        Some(ValueModel { label: Seq::empty(), literal: w[0], stream_support: w[1] })
    } else {
        None
    }
}

/// Whether `s` ends in `suffix`.
pub fn has_suffix(s: &Vec<char>, suffix: &Vec<char>) -> (r: bool)
    ensures
        r == ends_with(s@, suffix@),
{
    if s.len() < suffix.len() {
        return false;
    }
    let tail = slice_chars(s, s.len() - suffix.len(), s.len());
    assert(s@.subrange(s.len() - suffix.len(), s.len() as int) =~= s@.skip(
        s.len() - suffix.len(),
    ));
    same_chars(&tail, suffix)
}

/// Whether a stripped line is the header that opens `kind`.
pub fn is_header_chars(line: &Vec<char>, kind: Section) -> (r: bool)
    ensures
        r == is_header(line@, kind),
{
    match kind {
        Section::Outside => false,
        Section::Inputs => same_chars(line, &to_chars("Inputs:")),
        Section::Outputs => same_chars(line, &to_chars("Outputs:")),
        Section::Options => has_suffix(line, &to_chars("AVOptions:")),
    }
}

/// Whether the line, once stripped, is the header that opens `kind`.
pub fn is_section_header(line: &str, kind: Section) -> (r: bool)
    ensures
        r == is_header(stripped(line@), kind),
{
    let t = trim_chars(&to_chars(line), CharClass::Whitespace);
    is_header_chars(&t, kind)
}

/// Whether a stripped line is a pad entry.
pub fn is_pad_chars(line: &Vec<char>) -> (r: bool)
    ensures
        r == is_pad(line@),
{
    line.len() > 0 && line[0] == '#'
}

/// Whether the line, once stripped, is a pad entry.
pub fn is_pad_entry(line: &str) -> (r: bool)
    ensures
        r == is_pad(stripped(line@)),
{
    let t = trim_chars(&to_chars(line), CharClass::Whitespace);
    is_pad_chars(&t)
}

/// Reads the pad that the words of a pad entry describe.
pub fn pad_from_words(w: &Vec<Vec<char>>) -> (r: Option<PadDescriptor>)
    ensures
        r.is_some() == pad_of(rows(w@)).is_some(),
        r.is_some() ==> r.unwrap()@ == pad_of(rows(w@)).unwrap(),
{
    if w.len() < 3 {
        return None;
    }
    assert(rows(w@)[1] == w@[1]@);
    assert(rows(w@)[2] == w@[2]@);
    Some(
        PadDescriptor {
            name: to_text(&w[1]),
            stream_type: to_text(&remove_chars(&w[2], CharClass::Paren)),
        },
    )
}

/// Reads a pad entry; `None` where the line, once stripped, does not begin
/// with `#` or has fewer than three words.
pub fn parse_pad(line: &str) -> (r: Option<PadDescriptor>)
    ensures
        r.is_some() == (is_pad(stripped(line@)) && pad_of(words(line@)).is_some()),
        r.is_some() ==> r.unwrap()@ == pad_of(words(line@)).unwrap(),
{
    let t = trim_chars(&to_chars(line), CharClass::Whitespace);
    proof {
        lemma_words_of_stripped(line@);
    }
    if !is_pad_chars(&t) {
        return None;
    }
    pad_from_words(&split_fields(&t, CharClass::Whitespace))
}

/// Whether the words declare an option.
pub fn is_option_declaration(entries: &Vec<Vec<char>>) -> (r: bool)
    ensures
        r == is_declaration(rows(entries@)),
{
    if entries.len() < 2 {
        return false;
    }
    assert(rows(entries@)[1] == entries@[1]@);
    entries[1].len() > 0 && entries[1][0] == '<'
}

/// Turns what the default pattern captured in a description into the
/// default: strips the double quotes; nothing captured gives the empty text.
pub fn default_from(captured: Option<String>) -> (r: String)
    ensures
        r@ == default_text(text_of(captured)),
{
    match captured {
        Some(c) => to_text(&trim_chars(&to_chars(c.as_str()), CharClass::Quote)),
        None => String::new(),
    }
}

/// The default that an option's description states: the value in its first
/// `(default ...)`, without double quotes; empty where there is none.
pub fn extract_default(description: &str) -> (r: String)
    ensures
        r@ == default_of(description@),
{
    let captured = capture("\\(default ([^)\\\"]+|\\\"[^\\\"]+\\\")\\)", description, 1);
    default_from(captured)
}

/// Reads the option that the words of a declaration describe.
pub fn option_from_words(w: &Vec<Vec<char>>) -> (r: Option<FilterOption>)
    ensures
        r.is_some() == (is_declaration(rows(w@)) && w.len() >= 3),
        r.is_some() ==> Some(r.unwrap()@) == declared_option(
            rows(w@),
            default_of(rest_of(rows(w@), 3)),
        ),
{
    if !is_option_declaration(w) || w.len() < 3 {
        return None;
    }
    assert(rows(w@)[0] == w@[0]@);
    assert(rows(w@)[1] == w@[1]@);
    assert(rows(w@)[2] == w@[2]@);
    let description = to_text(&join_rows(w, 3, ' '));
    let default = extract_default(description.as_str());
    let option = FilterOption {
        name: to_text(&w[0]),
        type_tag: to_text(&w[1]),
        description: description,
        stream_support: to_text(&w[2]),
        values: Vec::new(),
        current_value: default.clone(),
        default: default,
    };
    assert(option@.values =~= Seq::empty());
    Some(option)
}

/// Reads the value that the words of a value row describe.
pub fn value_from_words(w: &Vec<Vec<char>>) -> (r: Option<OptionValue>)
    ensures
        r.is_some() == value_of(rows(w@)).is_some(),
        r.is_some() ==> r.unwrap()@ == value_of(rows(w@)).unwrap(),
{
    if w.len() == 3 {
        assert(rows(w@)[0] == w@[0]@);
        assert(rows(w@)[1] == w@[1]@);
        assert(rows(w@)[2] == w@[2]@);
        Some(
            OptionValue {
                label: to_text(&w[0]),
                literal: to_text(&w[1]),
                stream_support: to_text(&w[2]),
            },
        )
    } else if w.len() == 2 {
        assert(rows(w@)[0] == w@[0]@);
        assert(rows(w@)[1] == w@[1]@);
        Some(
            OptionValue {
                label: String::new(),
                literal: to_text(&w[0]),
                stream_support: to_text(&w[1]),
            },
        )
    } else {
        None
    }
}

} // verus!
