//! The records of a filter catalog and their mathematical views.

use vstd::prelude::*;
use crate::text::{same_chars, to_chars};

verus! {

/// The kind of media that flows through a pad.
#[derive(Clone, Copy, Debug, PartialEq, Eq)]
pub enum MediaType {
    Video,
    Audio,
    Other,
}

/// One input or output connection point of a filter.
#[derive(Clone, Debug, PartialEq, Eq)]
pub struct PadDescriptor {
    pub name: String,
    /// The media kind as the report words it, without brackets.
    pub stream_type: String,
}

/// What a `PadDescriptor` holds.
pub struct PadModel {
    pub name: Seq<char>,
    pub stream_type: Seq<char>,
}

/// One legal value of an enumerated option.
#[derive(Clone, Debug, PartialEq, Eq)]
pub struct OptionValue {
    /// The value's symbolic name; empty where the report gives none.
    pub label: String,
    pub literal: String,
    pub stream_support: String,
}

/// What an `OptionValue` holds.
pub struct ValueModel {
    pub label: Seq<char>,
    pub literal: Seq<char>,
    pub stream_support: Seq<char>,
}

/// One configurable parameter of a filter.
#[derive(Clone, Debug, PartialEq, Eq)]
pub struct FilterOption {
    pub name: String,
    pub type_tag: String,
    pub description: String,
    pub stream_support: String,
    /// The legal values in the order of their declaration.
    pub values: Vec<OptionValue>,
    pub default: String,
    /// Starts out equal to `default`; parsing never changes it afterwards.
    pub current_value: String,
}

/// What a `FilterOption` holds.
pub struct OptionModel {
    pub name: Seq<char>,
    pub type_tag: Seq<char>,
    pub description: Seq<char>,
    pub stream_support: Seq<char>,
    pub values: Seq<ValueModel>,
    pub default: Seq<char>,
    pub current_value: Seq<char>,
}

/// One processing unit of the engine.
#[derive(Clone, Debug, PartialEq, Eq)]
pub struct Filter {
    pub name: String,
    pub timeline_support: bool,
    pub slice_threading: bool,
    pub command_support: bool,
    pub description: String,
    pub inputs: Vec<PadDescriptor>,
    pub outputs: Vec<PadDescriptor>,
    pub options: Vec<FilterOption>,
}

/// The filters of one engine installation, in the order of its listing.
pub type Catalog = Vec<Filter>;

/// What a `Filter` holds.
pub struct FilterModel {
    pub name: Seq<char>,
    pub timeline_support: bool,
    pub slice_threading: bool,
    pub command_support: bool,
    pub description: Seq<char>,
    pub inputs: Seq<PadModel>,
    pub outputs: Seq<PadModel>,
    pub options: Seq<OptionModel>,
}

impl View for PadDescriptor {
    type V = PadModel;

    open spec fn view(&self) -> PadModel {
        PadModel { name: self.name@, stream_type: self.stream_type@ }
    }
}

impl View for OptionValue {
    type V = ValueModel;

    open spec fn view(&self) -> ValueModel {
        ValueModel {
            label: self.label@,
            literal: self.literal@,
            stream_support: self.stream_support@,
        }
    }
}

impl View for FilterOption {
    type V = OptionModel;

    open spec fn view(&self) -> OptionModel {
        OptionModel {
            name: self.name@,
            type_tag: self.type_tag@,
            description: self.description@,
            stream_support: self.stream_support@,
            values: value_models(self.values@),
            default: self.default@,
            current_value: self.current_value@,
        }
    }
}

impl View for Filter {
    type V = FilterModel;

    open spec fn view(&self) -> FilterModel {
        FilterModel {
            name: self.name@,
            timeline_support: self.timeline_support,
            slice_threading: self.slice_threading,
            command_support: self.command_support,
            description: self.description@,
            inputs: pad_models(self.inputs@),
            outputs: pad_models(self.outputs@),
            options: option_models(self.options@),
        }
    }
}

/// The views of a sequence of pads.
pub open spec fn pad_models(v: Seq<PadDescriptor>) -> Seq<PadModel> {
    v.map_values(|p: PadDescriptor| p@)
}

/// The views of a sequence of option values.
pub open spec fn value_models(v: Seq<OptionValue>) -> Seq<ValueModel> {
    v.map_values(|x: OptionValue| x@)
}

/// The views of a sequence of options.
pub open spec fn option_models(v: Seq<FilterOption>) -> Seq<OptionModel> {
    v.map_values(|o: FilterOption| o@)
}

/// The views of a sequence of filters.
pub open spec fn filter_models(v: Seq<Filter>) -> Seq<FilterModel> {
    v.map_values(|f: Filter| f@)
}

/// The media kind that a pad's wording stands for.
pub open spec fn media_type_of(stream_type: Seq<char>) -> MediaType {
    if stream_type == "video"@ {
        MediaType::Video
    } else if stream_type == "audio"@ {
        MediaType::Audio
    } else {
        MediaType::Other
    }
}

impl PadDescriptor {
    /// The media kind of the pad: video, audio, or anything else.
    pub fn media_type(&self) -> (kind: MediaType)
        ensures
            kind == media_type_of(self@.stream_type),
    {
        let word = to_chars(self.stream_type.as_str());
        if same_chars(&word, &to_chars("video")) {
            MediaType::Video
        } else if same_chars(&word, &to_chars("audio")) {
            MediaType::Audio
        } else {
            MediaType::Other
        }
    }
}

} // verus!
