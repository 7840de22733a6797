use filter_catalog::classify::{
    default_from, extract_default, has_suffix, is_filter_summary, is_option_declaration,
    is_pad_entry, is_section_header, option_from_words, pad_from_words, parse_pad,
    parse_summary, summary_of, value_from_words, Section,
};
use filter_catalog::model::{Filter, MediaType, OptionValue, PadDescriptor};

fn chars(s: &str) -> Vec<char> {
    s.chars().collect()
}

fn words(s: &str) -> Vec<Vec<char>> {
    s.split_whitespace().map(|w| w.chars().collect()).collect()
}

fn flags_of(word: &str) -> (bool, bool, bool) {
    let line = format!("{} scale V->V Scale the input.", word);
    let f = parse_summary(&line).unwrap();
    (f.timeline_support, f.slice_threading, f.command_support)
}

#[test]
fn flags_are_decoded_by_position() {
    assert_eq!(flags_of("T.C"), (true, false, true));
    assert_eq!(flags_of("..."), (false, false, false));
    assert_eq!(flags_of("TSC"), (true, true, true));
    assert_eq!(flags_of(".S."), (false, true, false));
}

#[test]
fn summary_row_gives_name_and_description() {
    let f = parse_summary(" T.C acrusher          A->A       Reduce audio bit   resolution.\r").unwrap();
    let want = Filter {
        name: "acrusher".to_string(),
        timeline_support: true,
        slice_threading: false,
        command_support: true,
        description: "Reduce audio bit resolution.".to_string(),
        inputs: Vec::new(),
        outputs: Vec::new(),
        options: Vec::new(),
    };
    assert_eq!(f, want);
}

#[test]
fn summary_rejects_legend_and_headers() {
    assert!(!is_filter_summary("Filters:"));
    assert!(!is_filter_summary("  T.. = Timeline support"));
    assert!(!is_filter_summary("  .S. = Slice threading"));
    assert!(!is_filter_summary("  A = Audio input/output"));
    assert!(!is_filter_summary(""));
    assert!(!is_filter_summary("T.C scale V->V"));
    assert!(!is_filter_summary("X.C scale V->V Scale the input."));
    assert!(!is_filter_summary("T.CC scale V->V Scale the input."));
    assert!(is_filter_summary("... scale V->V Scale the input."));
    assert!(is_filter_summary("  .S. yadif   V->V   Deinterlace the input image.  "));
}

#[test]
fn summary_rejects_a_name_that_begins_with_equals() {
    assert!(!is_filter_summary("T.C =x V->V words"));
    assert!(!is_filter_summary("T.C  =x V->V words"));
    assert!(parse_summary("T.C  =x V->V words").is_none());
}

#[test]
fn summary_of_follows_the_search_outcome() {
    let line = chars("T.. blend VV->V Blend two video frames into each other.");
    assert!(summary_of(false, &line).is_none());
    let f = summary_of(true, &line).unwrap();
    assert_eq!(f.name, "blend");
    assert_eq!(f.description, "Blend two video frames into each other.");
    assert!(f.timeline_support && !f.slice_threading && !f.command_support);
    assert!(summary_of(true, &chars("T.. blend VV->V")).is_none());
    assert!(summary_of(true, &chars("T... blend VV->V Blend.")).is_none());
    assert!(summary_of(true, &chars("T.. =blend VV->V Blend.")).is_none());
    assert!(summary_of(true, &chars("")).is_none());
}

#[test]
fn section_headers_are_recognised() {
    assert!(is_section_header("    Inputs:", Section::Inputs));
    assert!(!is_section_header("Inputs: 2", Section::Inputs));
    assert!(!is_section_header("Inputs:", Section::Outputs));
    assert!(is_section_header("    Outputs:\r", Section::Outputs));
    assert!(is_section_header("scale AVOptions:", Section::Options));
    assert!(is_section_header("AVOptions:", Section::Options));
    assert!(is_section_header("SWScaler AVOptions:", Section::Options));
    assert!(!is_section_header("AVOptions", Section::Options));
    assert!(!is_section_header("AVOptions: x", Section::Options));
    assert!(!is_section_header("Inputs:", Section::Outside));
    assert!(!is_section_header("", Section::Outside));
}

#[test]
fn suffix_test() {
    assert!(has_suffix(&chars("abc"), &chars("bc")));
    assert!(has_suffix(&chars("abc"), &chars("")));
    assert!(has_suffix(&chars("abc"), &chars("abc")));
    assert!(!has_suffix(&chars("bc"), &chars("abc")));
    assert!(!has_suffix(&chars("abc"), &chars("ab")));
}

#[test]
fn pad_entry_is_parsed() {
    assert!(is_pad_entry("# input0 (video)"));
    assert!(is_pad_entry("       #0: default (video)"));
    assert!(!is_pad_entry("input0 (video)"));
    assert!(!is_pad_entry(""));
    let pad = parse_pad("# input0 (video)").unwrap();
    assert_eq!(pad, PadDescriptor { name: "input0".to_string(), stream_type: "video".to_string() });
    assert_eq!(pad.media_type(), MediaType::Video);
    let pad = parse_pad("       #1: sidechain (audio)").unwrap();
    assert_eq!(pad.name, "sidechain");
    assert_eq!(pad.stream_type, "audio");
    assert_eq!(pad.media_type(), MediaType::Audio);
    let pad = parse_pad("#0: data (subtitle) trailing").unwrap();
    assert_eq!(pad.stream_type, "subtitle");
    assert_eq!(pad.media_type(), MediaType::Other);
}

#[test]
fn pad_entry_with_too_few_words_gives_none() {
    assert!(parse_pad("#").is_none());
    assert!(parse_pad("#input0 (video)").is_none());
    assert!(parse_pad("# input0").is_none());
    assert!(parse_pad("x # input0 (video)").is_none());
    assert!(pad_from_words(&words("# a")).is_none());
    assert!(pad_from_words(&words("a b (c)")).is_some());
}

#[test]
fn option_declaration_is_recognised_by_its_type_tag() {
    assert!(is_option_declaration(&words("mode <int> ..FV....... set mode")));
    assert!(is_option_declaration(&words("mode <int>")));
    assert!(!is_option_declaration(&words("mode int ..FV....... set mode")));
    assert!(!is_option_declaration(&words("<int> mode")));
    assert!(!is_option_declaration(&words("mode")));
    assert!(!is_option_declaration(&words("")));
}

#[test]
fn option_declaration_is_parsed() {
    let o = option_from_words(&words(
        "  mode    <int>   ..FV.....T. set the   mode (from 0 to 2) (default \"auto\")",
    ))
    .unwrap();
    assert_eq!(o.name, "mode");
    assert_eq!(o.type_tag, "<int>");
    assert_eq!(o.stream_support, "..FV.....T.");
    assert_eq!(o.description, "set the mode (from 0 to 2) (default \"auto\")");
    assert_eq!(o.default, "auto");
    assert_eq!(o.current_value, "auto");
    assert!(o.values.is_empty());
}

#[test]
fn option_declaration_without_description() {
    let o = option_from_words(&words("w <string> ..FV")).unwrap();
    assert_eq!(o.description, "");
    assert_eq!(o.default, "");
    assert_eq!(o.current_value, "");
    assert!(option_from_words(&words("w <string>")).is_none());
    assert!(option_from_words(&words("w string ..FV text")).is_none());
}

#[test]
fn value_rows_of_three_and_two_words() {
    let v = value_from_words(&words("mode 0 (audio)")).unwrap();
    assert_eq!(
        v,
        OptionValue {
            label: "mode".to_string(),
            literal: "0".to_string(),
            stream_support: "(audio)".to_string(),
        }
    );
    let v = value_from_words(&words("     1            ..FV....... ")).unwrap();
    assert_eq!(
        v,
        OptionValue {
            label: "".to_string(),
            literal: "1".to_string(),
            stream_support: "..FV.......".to_string(),
        }
    );
    assert!(value_from_words(&words("one")).is_none());
    assert!(value_from_words(&words("a b c d")).is_none());
    assert!(value_from_words(&words("")).is_none());
}

#[test]
fn default_is_extracted() {
    assert_eq!(extract_default("set mode (default \"auto\")"), "auto");
    assert_eq!(extract_default("set mode"), "");
    assert_eq!(extract_default("set level (from 0 to 10) (default 5)"), "5");
    assert_eq!(extract_default("set size (default \"hd720\") (default 3)"), "hd720");
    assert_eq!(extract_default("set expr (default \"a)b\")"), "a)b");
    assert_eq!(extract_default("set flags (default bilinear+accurate_rnd)"), "bilinear+accurate_rnd");
    assert_eq!(extract_default("(default )"), "");
    assert_eq!(extract_default("(default  )"), " ");
    assert_eq!(extract_default("(default)"), "");
    assert_eq!(extract_default("(default \"\")"), "");
    assert_eq!(extract_default(""), "");
}

#[test]
fn default_from_capture_strips_quotes() {
    assert_eq!(default_from(Some("\"auto\"".to_string())), "auto");
    assert_eq!(default_from(Some("5".to_string())), "5");
    assert_eq!(default_from(Some("\"\"x\"".to_string())), "x");
    assert_eq!(default_from(None), "");
}

#[test]
fn summary_agrees_with_the_pattern_but_for_the_equals_rule() {
    let pattern = regex::Regex::new(r"^[T.][S.][C.]\s+[^=]\S+\s+\S+\s+.+$").unwrap();
    let lines = [
        "T.C acrusher A->A Reduce audio bit resolution.",
        "... a A->A One-letter name after one space.",
        "...  a A->A One-letter name after two spaces.",
        "TSC\tblend\tVV->V\tTabs between the words.",
        "T.. = Timeline support",
        "..C = Command support",
        "A = Audio input/output",
        "Filters:",
        "",
        "T.C",
        "T.C x",
        "T.C xy",
        "T.C xy zz",
        "T.C xy zz w",
        ".S. yadif V->V Deinterlace.",
        ".SS yadif V->V Deinterlace.",
        "tsc yadif V->V Deinterlace.",
        "T.Cyadif V->V Deinterlace the image.",
        "T.C\u{a0}yadif V->V Deinterlace the image.",
    ];
    for line in lines {
        assert_eq!(is_filter_summary(line), pattern.is_match(line.trim()), "line {:?}", line);
    }
    // The pattern lets a name begin with `=` after two blanks; the rule on
    // the second word does not.
    assert!(pattern.is_match("T.C  =x V->V words"));
    assert!(!is_filter_summary("T.C  =x V->V words"));
}
