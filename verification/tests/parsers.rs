use filter_catalog::classify::Section;
use filter_catalog::detail::{absorb_line, parse_filter_details, read_details};
use filter_catalog::listing::parse_filter_list;
use filter_catalog::model::{Filter, FilterOption, OptionValue, PadDescriptor};

const LISTING: &str = "Filters:\n  T.. = Timeline support\n  .S. = Slice threading\n  ..C = Command support\n  A = Audio input/output\n  V = Video input/output\n  N = Dynamic number and/or type of input/output\n  | = Source or sink filter\n ... abench            A->A       Benchmark part of a filtergraph.\n ..C acompressor       A->A       Audio compressor.\n TSC amix              N->A       Audio mixing.\n\n T.. scale             V->V       Scale the input video size and/or convert the image format.\n";

const DETAIL: &str = "Filter scale\n  Scale the input video size and/or convert the image format.\n    Inputs:\n       #0: default (video)\n    Outputs:\n       #0: default (video)\nscale AVOptions:\n   width             <string>     ..FV.....T. Output video width\n   flags             <string>     ..FV....... Flags to pass to libswscale (default \"\")\n   interl            <boolean>    ..FV....... set interlacing (default false)\n   in_color_matrix   <int>        ..FV....... set input YCbCr type (from -1 to 17) (default auto)\n     auto            -1           ..FV.......\n     bt601           5            ..FV.......\n   eval              <int>        ..FV....... specify when to evaluate expressions (from 0 to 1) (default init)\n     init            0            ..FV....... eval expressions once during initialization\n     frame           1            ..FV.......\n\nThis filter has support for timeline through the 'enable' option.\n";

fn chars(s: &str) -> Vec<char> {
    s.chars().collect()
}

fn bare(name: &str) -> Filter {
    Filter {
        name: name.to_string(),
        timeline_support: false,
        slice_threading: false,
        command_support: false,
        description: "d".to_string(),
        inputs: Vec::new(),
        outputs: Vec::new(),
        options: Vec::new(),
    }
}

fn pad(name: &str, kind: &str) -> PadDescriptor {
    PadDescriptor { name: name.to_string(), stream_type: kind.to_string() }
}

fn value(label: &str, literal: &str, support: &str) -> OptionValue {
    OptionValue {
        label: label.to_string(),
        literal: literal.to_string(),
        stream_support: support.to_string(),
    }
}

#[test]
fn listing_gives_the_rows_in_order() {
    let filters = parse_filter_list(LISTING);
    let names: Vec<&str> = filters.iter().map(|f| f.name.as_str()).collect();
    assert_eq!(names, vec!["abench", "acompressor", "amix", "scale"]);
    assert_eq!(filters[0].description, "Benchmark part of a filtergraph.");
    assert!(!filters[0].timeline_support && !filters[0].slice_threading && !filters[0].command_support);
    assert!(!filters[1].timeline_support && !filters[1].slice_threading && filters[1].command_support);
    assert!(filters[2].timeline_support && filters[2].slice_threading && filters[2].command_support);
    assert_eq!(
        filters[3].description,
        "Scale the input video size and/or convert the image format."
    );
    for f in &filters {
        assert!(f.inputs.is_empty() && f.outputs.is_empty() && f.options.is_empty());
    }
}

#[test]
fn listing_of_nothing_is_empty() {
    assert!(parse_filter_list("").is_empty());
    assert!(parse_filter_list("\n\n\n").is_empty());
    assert!(parse_filter_list("Filters:\n  T.. = Timeline support\n").is_empty());
}

#[test]
fn listing_handles_carriage_returns() {
    let filters = parse_filter_list(" T.. scale V->V Scale it.\r\n ... null V->V Pass on.\r\n");
    assert_eq!(filters.len(), 2);
    assert_eq!(filters[0].description, "Scale it.");
    assert_eq!(filters[1].name, "null");
}

#[test]
fn listing_passes_over_unrecognized_lines() {
    let clean = parse_filter_list(" T.. scale V->V Scale it.\n ... null V->V Pass on.\n");
    let noisy = parse_filter_list(
        "garbage\n T.. scale V->V Scale it.\n\n???\n T.C\n ... null V->V Pass on.\nend of report",
    );
    assert_eq!(clean, noisy);
    assert_eq!(noisy.len(), 2);
}

#[test]
fn detail_report_is_read() {
    let f = parse_filter_details(bare("scale"), DETAIL);
    assert_eq!(f.name, "scale");
    assert_eq!(f.description, "d");
    assert_eq!(f.inputs, vec![pad("default", "video")]);
    assert_eq!(f.outputs, vec![pad("default", "video")]);
    let names: Vec<&str> = f.options.iter().map(|o| o.name.as_str()).collect();
    assert_eq!(names, vec!["width", "flags", "interl", "in_color_matrix", "eval"]);
    let width = &f.options[0];
    assert_eq!(width.type_tag, "<string>");
    assert_eq!(width.stream_support, "..FV.....T.");
    assert_eq!(width.description, "Output video width");
    assert_eq!(width.default, "");
    assert_eq!(width.current_value, "");
    assert!(width.values.is_empty());
    assert_eq!(f.options[1].default, "");
    assert_eq!(f.options[2].default, "false");
    assert_eq!(f.options[2].current_value, "false");
    let matrix = &f.options[3];
    assert_eq!(matrix.description, "set input YCbCr type (from -1 to 17) (default auto)");
    assert_eq!(matrix.default, "auto");
    assert_eq!(
        matrix.values,
        vec![value("auto", "-1", "..FV......."), value("bt601", "5", "..FV.......")]
    );
    let eval = &f.options[4];
    assert_eq!(eval.default, "init");
    // A value row with a description has more than three words and is passed over.
    assert_eq!(eval.values, vec![value("frame", "1", "..FV.......")]);
}

#[test]
fn detail_whole_option_record() {
    let f = parse_filter_details(
        bare("x"),
        "x AVOptions:\n  mode <int> ..FA set mode (default \"auto\")\n  mode 0 (audio)\n  1 ..FA\n",
    );
    assert_eq!(
        f.options,
        vec![FilterOption {
            name: "mode".to_string(),
            type_tag: "<int>".to_string(),
            description: "set mode (default \"auto\")".to_string(),
            stream_support: "..FA".to_string(),
            values: vec![value("mode", "0", "(audio)"), value("", "1", "..FA")],
            default: "auto".to_string(),
            current_value: "auto".to_string(),
        }]
    );
}

#[test]
fn detail_pads_only_count_in_their_section() {
    let f = parse_filter_details(
        bare("x"),
        "#0: early (video)\nInputs:\n#0: a (audio)\n#1: b (video)\nOutputs:\n#0: c (audio)\nx AVOptions:\n#0: late (video)\n",
    );
    assert_eq!(f.inputs, vec![pad("a", "audio"), pad("b", "video")]);
    assert_eq!(f.outputs, vec![pad("c", "audio")]);
    // Among the options a pad line is a row like any other; with no option
    // declared yet it is passed over.
    assert!(f.options.is_empty());
}

#[test]
fn detail_lines_that_fit_nowhere_are_passed_over() {
    let f = parse_filter_details(
        bare("x"),
        "Inputs:\n#\n#0:\n#0: only\nnone (source filter)\nOutputs:\n#lonely (video)\nx AVOptions:\nsingle\nname <int>\n0 ..F\nw <int> ..F width\nsingle\na b c d\n",
    );
    assert!(f.inputs.is_empty());
    assert!(f.outputs.is_empty());
    assert_eq!(f.options.len(), 1);
    assert_eq!(f.options[0].name, "w");
    assert!(f.options[0].values.is_empty());
}

#[test]
fn detail_nested_options_are_absorbed() {
    let f = parse_filter_details(
        bare("scale"),
        "scale AVOptions:\n  w <string> ..FV width\nSWScaler AVOptions:\n  sws_flags <flags> E..V (default bicubic)\n    fast_bilinear E..V fast bilinear\n    bilinear E..V\n",
    );
    let names: Vec<&str> = f.options.iter().map(|o| o.name.as_str()).collect();
    assert_eq!(names, vec!["w", "sws_flags"]);
    assert_eq!(f.options[1].default, "bicubic");
    assert_eq!(f.options[1].values, vec![value("", "bilinear", "E..V")]);
}

#[test]
fn detail_appends_to_what_the_filter_holds() {
    let mut f = bare("x");
    f.inputs.push(pad("kept", "video"));
    read_details(&mut f, "Inputs:\n#0: more (audio)\n");
    assert_eq!(f.inputs, vec![pad("kept", "video"), pad("more", "audio")]);
}

#[test]
fn detail_of_an_empty_report_changes_nothing() {
    assert_eq!(parse_filter_details(bare("x"), ""), bare("x"));
    assert_eq!(parse_filter_details(bare("x"), "no sections here\n\n"), bare("x"));
}

#[test]
fn absorb_line_moves_between_sections() {
    let mut f = bare("x");
    assert_eq!(absorb_line(Section::Outside, &mut f, &chars("Inputs:")), Section::Inputs);
    assert_eq!(absorb_line(Section::Options, &mut f, &chars("Inputs:")), Section::Inputs);
    assert_eq!(absorb_line(Section::Inputs, &mut f, &chars("Outputs:")), Section::Outputs);
    assert_eq!(absorb_line(Section::Outside, &mut f, &chars("x AVOptions:")), Section::Options);
    assert_eq!(absorb_line(Section::Outside, &mut f, &chars("#0: a (video)")), Section::Outside);
    assert_eq!(absorb_line(Section::Outputs, &mut f, &chars("")), Section::Outputs);
    assert_eq!(f, bare("x"));
    assert_eq!(absorb_line(Section::Inputs, &mut f, &chars("#0: a (video)")), Section::Inputs);
    assert_eq!(absorb_line(Section::Outputs, &mut f, &chars("#0: b (audio)")), Section::Outputs);
    assert_eq!(f.inputs, vec![pad("a", "video")]);
    assert_eq!(f.outputs, vec![pad("b", "audio")]);
}

#[test]
fn value_row_without_an_option_is_passed_over() {
    let mut f = bare("x");
    assert_eq!(absorb_line(Section::Options, &mut f, &chars("auto -1 ..FV")), Section::Options);
    assert_eq!(f, bare("x"));
}

#[test]
fn parsing_twice_gives_the_same_filter() {
    assert_eq!(parse_filter_list(LISTING), parse_filter_list(LISTING));
    assert_eq!(
        parse_filter_details(bare("scale"), DETAIL),
        parse_filter_details(bare("scale"), DETAIL)
    );
}
