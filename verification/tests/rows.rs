use state_tables::entry::Condition;
use state_tables::error::ParseError;
use state_tables::row::{divide, expand, Dialect, Expanded, RawRow};
use state_tables::text::{to_chars, to_string};

fn row(get_value: &str, type_: &str, get_cmnd: &str, description: &str, section: &str) -> RawRow {
    RawRow {
        condition: None,
        get_value: to_chars(get_value),
        type_: to_chars(type_),
        get_cmnd: to_chars(get_cmnd),
        initial_value: to_chars("0"),
        description: to_chars(description),
        section: to_chars(section),
        attribute: to_chars("--"),
    }
}

fn rows(dialect: Dialect, row: &RawRow) -> Vec<RawRow> {
    match expand(dialect, row) {
        Ok(Expanded::Rows(rows)) => rows,
        other => panic!("the row does not expand: {:?}", other),
    }
}

fn names(rows: &[RawRow]) -> Vec<String> {
    rows.iter().map(|r| to_string(&r.get_value)).collect()
}

#[test]
fn divide_takes_the_factor_away() {
    assert_eq!(to_string(&divide(&to_chars("$3 \\times Z+$"), 3)), "$Z+$");
    assert_eq!(to_string(&divide(&to_chars("$3 \\times Z+$"), 2)), "$3 \\times Z+$");
    assert_eq!(to_string(&divide(&to_chars("$10 \\times 2 \\times B$"), 10)), "$2 \\times B$");
    assert_eq!(to_string(&divide(&to_chars("$B$"), 4)), "$B$");
}

#[test]
fn a_plain_row_stands_as_it_is() {
    let r = row("MAX\\_LIGHTS", "$Z+$", "\\glr{GetIntegerv}", "Lights", "\\ref{x}");
    match expand(Dialect::Gl, &r) {
        Ok(Expanded::Plain(gv)) => assert_eq!(to_string(&gv), "MAX_LIGHTS"),
        other => panic!("the row expands: {:?}", other),
    }
}

#[test]
fn three_dimensions_in_the_desktop_document() {
    let r = row(
        "TEXTURE\\_BINDING\\_$x$D",
        "$3 \\times 2* \\times Z+$",
        "\\glr{GetIntegerv}",
        "Texture bound to $x$D target; $x$ is 1, 2, or 3",
        "\\ref{tex}",
    );
    let out = rows(Dialect::Gl, &r);
    assert_eq!(
        names(&out),
        vec!["TEXTURE_BINDING_1D", "TEXTURE_BINDING_2D", "TEXTURE_BINDING_3D"]
    );
    for (r, d) in out.iter().zip(["1", "2", "3"]) {
        assert_eq!(to_string(&r.type_), "$2* \\times Z+$");
        assert_eq!(to_string(&r.description), format!("Texture bound to {}D target", d));
        assert_eq!(r.condition, None);
        assert_eq!(to_string(&r.get_cmnd), "\\glr{GetIntegerv}");
    }
}

#[test]
fn two_dimensions_in_the_embedded_documents() {
    for dialect in [Dialect::Es, Dialect::Es11] {
        let r = row(
            "TEXTURE\\_$x$D",
            "$2 \\times B$",
            "\\glr{IsEnabled}",
            "True if $x$D texturing is enabled",
            "\\ref{tex}",
        );
        let out = rows(dialect, &r);
        assert_eq!(names(&out), vec!["TEXTURE_2D", "TEXTURE_3D"]);
        assert_eq!(to_string(&out[0].type_), "$B$");
        assert_eq!(to_string(&out[1].type_), "$B$");
        assert_eq!(to_string(&out[0].description), "True if 2D texturing is enabled");
        assert_eq!(to_string(&out[1].description), "True if 3D texturing is enabled");
    }
}

#[test]
fn a_deprecated_clause_gives_one_row_for_each_profile() {
    let r = row("FOO", "$Z$", "\\glr{GetIntegerv}", "Value\\dep{ or index} of foo", "\\ref{x}");
    let out = rows(Dialect::Gl, &r);
    assert_eq!(out.len(), 2);
    assert_eq!(out[0].condition, Some(Condition::Compatibility));
    assert_eq!(to_string(&out[0].description), "Value or index of foo");
    assert_eq!(out[1].condition, Some(Condition::Core));
    assert_eq!(to_string(&out[1].description), "Value of foo");
    for r in &out {
        assert_eq!(to_string(&r.get_value), "FOO");
        assert_eq!(to_string(&r.type_), "$Z$");
        assert_eq!(to_string(&r.get_cmnd), "\\glr{GetIntegerv}");
        assert_eq!(to_string(&r.attribute), "--");
    }
}

#[test]
fn under_a_condition_only_the_matching_branch_is_taken() {
    let mut r = row("FOO", "$Z$", "\\glr{GetIntegerv}", "a\\dep{b}c", "\\ref{x}");
    r.condition = Some(Condition::Compatibility);
    let out = rows(Dialect::Gl, &r);
    assert_eq!(out.len(), 1);
    assert_eq!(out[0].condition, Some(Condition::Compatibility));
    assert_eq!(to_string(&out[0].description), "abc");
    r.condition = Some(Condition::Core);
    let out = rows(Dialect::Gl, &r);
    assert_eq!(out.len(), 1);
    assert_eq!(out[0].condition, Some(Condition::Core));
    assert_eq!(to_string(&out[0].description), "ac");
}

#[test]
fn the_imaging_subset_takes_no_deprecated_clause() {
    let mut r = row("FOO", "$Z$", "\\glr{GetIntegerv}", "a\\dep{b}c", "\\ref{x}");
    r.condition = Some(Condition::ImagingSubset);
    assert!(matches!(expand(Dialect::Gl, &r), Err(ParseError::UnsupportedCondition)));
}

#[test]
fn an_open_deprecated_clause_is_refused() {
    let r = row("FOO", "$Z$", "\\glr{GetIntegerv}", "a\\dep{b", "\\ref{x}");
    assert!(matches!(expand(Dialect::Gl, &r), Err(ParseError::UnbalancedSpan)));
}

#[test]
fn an_open_group_in_the_name_is_refused() {
    let r = row("{\\change FOO", "$Z$", "\\glr{GetIntegerv}", "d", "\\ref{x}");
    assert!(matches!(expand(Dialect::Gl, &r), Err(ParseError::UnbalancedSpan)));
}

#[test]
fn bias_and_scale_give_a_row_for_each_component() {
    let r = row("$x$\\_SCALE", "$R$", "\\glr{GetFloatv}", "Value of $x$ scale", "\\ref{pix:xfer}");
    let out = rows(Dialect::Gl, &r);
    assert_eq!(names(&out), vec!["RED_SCALE", "GREEN_SCALE", "BLUE_SCALE", "ALPHA_SCALE"]);
    assert_eq!(to_string(&out[2].description), "Value of BLUE scale");
    assert_eq!(to_string(&out[2].type_), "$R$");
    let other = row("$x$\\_BIAS", "$R$", "\\glr{GetFloatv}", "Value of $x$ bias", "\\ref{other}");
    assert!(matches!(expand(Dialect::Gl, &other), Ok(Expanded::Plain(_))));
}

#[test]
fn pixel_maps_give_a_row_for_each_map() {
    let r = row(
        "$x$",
        "$8 \\times 32* \\times R$",
        "\\glr{GetPixelMap}",
        "RGBA \\glr{PixelMap} lookup tables; $x$ is a map name",
        "\\ref{pix:xfer}",
    );
    let out = rows(Dialect::Gl, &r);
    assert_eq!(
        names(&out),
        vec![
            "PIXEL_MAP_I_TO_R",
            "PIXEL_MAP_I_TO_G",
            "PIXEL_MAP_I_TO_B",
            "PIXEL_MAP_I_TO_A",
            "PIXEL_MAP_R_TO_R",
            "PIXEL_MAP_G_TO_G",
            "PIXEL_MAP_B_TO_B",
            "PIXEL_MAP_A_TO_A"
        ]
    );
    assert_eq!(to_string(&out[0].type_), "$32* \\times R$");
    assert_eq!(to_string(&out[0].description), "RGBA \\glr{PixelMap} lookup table");
    let index = row(
        "$x$",
        "$2 \\times 32* \\times Z$",
        "\\glr{GetPixelMap}",
        "Index \\glr{PixelMap} lookup tables; $x$ is a map name",
        "\\ref{pix:xfer}",
    );
    let out = rows(Dialect::Gl, &index);
    assert_eq!(names(&out), vec!["PIXEL_MAP_I_TO_I", "PIXEL_MAP_S_TO_S"]);
    assert_eq!(to_string(&out[1].type_), "$32* \\times Z$");
}

#[test]
fn pixel_maps_of_no_kind_are_refused() {
    let r = row("$x$", "$R$", "\\glr{GetPixelMap}", "tables; $x$ is a map", "\\ref{pix:xfer}");
    assert!(matches!(expand(Dialect::Gl, &r), Err(ParseError::Malformed)));
    let r = row("$x$", "$R$", "\\glr{GetPixelMap}", "RGBA table", "\\ref{pix:xfer}");
    assert!(matches!(expand(Dialect::Gl, &r), Err(ParseError::Malformed)));
}

#[test]
fn pixel_map_sizes_give_a_row_for_each_map() {
    let r = row(
        "$x$\\_SIZE",
        "$Z+$",
        "\\glr{GetIntegerv}",
        "Size of table $x$",
        "\\ref{pix:xfer}",
    );
    let out = rows(Dialect::Gl, &r);
    assert_eq!(out.len(), 10);
    assert_eq!(to_string(&out[0].get_value), "PIXEL_MAP_I_TO_R_SIZE");
    assert_eq!(to_string(&out[8].get_value), "PIXEL_MAP_I_TO_I_SIZE");
    assert_eq!(to_string(&out[9].get_value), "PIXEL_MAP_S_TO_S_SIZE");
    assert_eq!(to_string(&out[9].description), "Size of table PIXEL_MAP_S_TO_S");
    assert_eq!(to_string(&out[9].type_), "$Z+$");
}

#[test]
fn evaluator_enables_give_a_row_for_each_target() {
    let r = row(
        "MAP1\\_$x$",
        "$9 \\times B$",
        "\\glr{IsEnabled}",
        "1d map enables: $x$ is map type",
        "\\ref{eval}",
    );
    let out = rows(Dialect::Gl, &r);
    assert_eq!(
        names(&out),
        vec![
            "MAP1_VERTEX_3",
            "MAP1_VERTEX_4",
            "MAP1_INDEX",
            "MAP1_COLOR_4",
            "MAP1_NORMAL",
            "MAP1_TEXTURE_COORD_1",
            "MAP1_TEXTURE_COORD_2",
            "MAP1_TEXTURE_COORD_3",
            "MAP1_TEXTURE_COORD_4"
        ]
    );
    assert_eq!(to_string(&out[0].type_), "$B$");
    assert_eq!(to_string(&out[0].description), "1d map enable");
    let bad = row("MAP2\\_$x$", "$9 \\times B$", "\\glr{IsEnabled}", "2d map", "\\ref{eval}");
    assert!(matches!(expand(Dialect::Gl, &bad), Err(ParseError::Malformed)));
}

#[test]
fn a_list_in_the_description_gives_a_row_for_each_name() {
    let r = row(
        "$x$\\_BUFFER\\_BINDING",
        "$3 \\times Z+$",
        "\\glr{GetIntegerv}",
        "Buffer bound to $x$; $x$ is one of \\glc{ARRAY}, \\glc{ELEMENT_ARRAY}, or \\glc{UNIFORM}",
        "\\ref{buf}",
    );
    let out = rows(Dialect::Es, &r);
    assert_eq!(
        names(&out),
        vec!["ARRAY_BUFFER_BINDING", "ELEMENT_ARRAY_BUFFER_BINDING", "UNIFORM_BUFFER_BINDING"]
    );
    assert_eq!(to_string(&out[1].description), "Buffer bound to ELEMENT_ARRAY");
    assert_eq!(to_string(&out[1].type_), "$Z+$");
}

#[test]
fn a_list_in_brackets_loses_the_closing_bracket() {
    let r = row(
        "FOO\\_$x$",
        "$2 \\times B$",
        "\\glr{IsEnabled}",
        "Foo ($x$ is S, T)",
        "\\ref{tex}",
    );
    let out = rows(Dialect::Gl, &r);
    assert_eq!(names(&out), vec!["FOO_S", "FOO_T"]);
    assert_eq!(to_string(&out[0].description), "Foo");
    assert_eq!(to_string(&out[0].type_), "$B$");
}

#[test]
fn the_base_format_factor_is_taken_from_the_type() {
    let r = row(
        "TEXTURE\\_$x$\\_SIZE",
        "$\\mtexbasefmt \\times n \\times Z+$",
        "\\glr{GetTexLevelParameter}",
        "Size of $x$; $x$ is RED, GREEN",
        "\\ref{tex}",
    );
    let out = rows(Dialect::Gl, &r);
    assert_eq!(names(&out), vec!["TEXTURE_RED_SIZE", "TEXTURE_GREEN_SIZE"]);
    assert_eq!(to_string(&out[0].type_), "$n \\times Z+$");
}

#[test]
fn a_placeholder_without_list_stands_as_it_is() {
    let r = row("FOO\\_$x$", "$B$", "\\glr{IsEnabled}", "Foo; $x$ is one", "\\ref{tex}");
    assert!(matches!(expand(Dialect::Gl, &r), Ok(Expanded::Plain(_))));
    let r = row("FOO\\_$x$", "$B$", "\\glr{IsEnabled}", "Foo, bar", "\\ref{tex}");
    assert!(matches!(expand(Dialect::Gl, &r), Ok(Expanded::Plain(_))));
}
