use state_tables::entry::{Condition, Entry, Table};
use state_tables::error::ParseError;
use state_tables::normalize::{normalize, substitute, Constant};
use state_tables::process::process_row;
use state_tables::row::{Dialect, RawRow};
use state_tables::table::{new_table, open_table, table_kind, Header, TableKind};
use state_tables::text::{to_chars, to_string};
use state_tables::types::{BasicType, MaybeParsed, Quantity};

fn row(get_value: &str, type_: &str, get_cmnd: &str, initial: &str, description: &str) -> RawRow {
    RawRow {
        condition: None,
        get_value: to_chars(get_value),
        type_: to_chars(type_),
        get_cmnd: to_chars(get_cmnd),
        initial_value: to_chars(initial),
        description: to_chars(description),
        section: to_chars("\\ref{x}"),
        attribute: to_chars("--"),
    }
}

fn table(footnotes: &[&str]) -> Table {
    Table {
        title: "T".to_string(),
        caption: None,
        label: "t".to_string(),
        footnotes: footnotes.iter().map(|f| f.to_string()).collect(),
        entries: Vec::new(),
    }
}

fn constants() -> Vec<Constant> {
    vec![
        Constant { name: to_chars("\\mdrawbuf"), value: to_chars("8") },
        Constant { name: to_chars("\\mtexunit"), value: to_chars("96") },
    ]
}

fn entry(dialect: Dialect, r: &RawRow, footnotes: &[&str]) -> Result<Entry, ParseError> {
    let notes: Vec<String> = footnotes.iter().map(|f| f.to_string()).collect();
    let gv = state_tables::unescape::unescape(&r.get_value)?;
    normalize(dialect, r, gv, &constants(), &notes).map(|(e, _)| e)
}

#[test]
fn a_plain_row_becomes_an_entry() {
    let mut r = row("MAX\\_LIGHTS", "$Z+$", "\\glr{GetIntegerv}", "8", "Number of   lights");
    r.attribute = to_chars("lighting");
    r.condition = Some(Condition::Core);
    let e = entry(Dialect::Gl, &r, &[]).unwrap();
    assert_eq!(e.condition, Some(Condition::Core));
    assert_eq!(e.get_value.as_deref(), Some("MAX_LIGHTS"));
    assert_eq!(e.alt_get_value, None);
    assert!(e.series.is_none());
    match e.type_ {
        Some(MaybeParsed::Parsed(t)) => {
            assert!(matches!(t.basic_type, BasicType::NonNegativeInteger));
            assert!(t.quantity.is_empty());
        }
        other => panic!("the type is not parsed: {:?}", other),
    }
    assert_eq!(e.type_footnote, None);
    assert_eq!(e.get_cmnd.as_deref(), Some("GetIntegerv"));
    assert_eq!(e.initial_value.as_deref(), Some("8"));
    assert_eq!(e.initial_value_footnote, None);
    assert_eq!(e.description, "Number of lights");
    assert_eq!(e.description_footnote, None);
    assert_eq!(e.attribute.as_deref(), Some("lighting"));
}

#[test]
fn dashes_mark_absent_fields() {
    let r = row("--", "$-$", "--", "-", "The description");
    let e = entry(Dialect::Gl, &r, &[]).unwrap();
    assert_eq!(e.get_value, None);
    assert!(e.type_.is_none());
    assert_eq!(e.get_cmnd, None);
    assert_eq!(e.initial_value, None);
    assert_eq!(e.attribute, None);
    assert_eq!(e.description, "The description");
    let r = row("-", "$Z$", "-", "--", "--");
    let e = entry(Dialect::Es, &r, &[]).unwrap();
    assert_eq!(e.get_value, None);
    assert_eq!(e.get_cmnd, None);
    assert_eq!(e.initial_value, None);
    assert_eq!(e.description, "--");
}

#[test]
fn an_index_placeholder_marks_a_series() {
    let r = row("TEXTURE$i$", "$\\mtexunit* \\times 3 \\times Z$", "--", "0", "Units");
    let e = entry(Dialect::Gl, &r, &[]).unwrap();
    assert_eq!(e.get_value.as_deref(), Some("TEXTURE0"));
    assert_eq!(e.alt_get_value, None);
    assert!(matches!(e.series, Some(Quantity::Constant("MAX_TEXTURE_UNITS"))));
    match e.type_ {
        Some(MaybeParsed::Parsed(t)) => {
            assert!(matches!(t.basic_type, BasicType::Integer));
            assert_eq!(t.quantity.len(), 1);
            assert!(matches!(t.quantity[0], MaybeParsed::Parsed((Quantity::Integer(3), false))));
        }
        other => panic!("the type is not parsed: {:?}", other),
    }
}

#[test]
fn the_count_of_a_series_may_stand_in_braces() {
    let r = row("CLIP\\_PLANE$i$", "${6*} \\times B$", "\\glr{IsEnabled}", "--", "Planes");
    let e = entry(Dialect::Gl, &r, &[]).unwrap();
    assert_eq!(e.get_value.as_deref(), Some("CLIP_PLANE0"));
    assert!(matches!(e.series, Some(Quantity::Integer(6))));
}

#[test]
fn a_series_without_count_is_refused() {
    for type_ in ["$B$", "$6 \\times B$", "6* \\times B$", "$n* \\times B$", "$-$"] {
        let r = row("LIGHT$i$", type_, "--", "--", "Lights");
        assert!(matches!(entry(Dialect::Gl, &r, &[]), Err(ParseError::Malformed)), "{}", type_);
    }
}

#[test]
fn a_name_in_brackets_is_the_other_name() {
    let r = row(
        "MODELVIEW\\_MATRIX \\hbox{(TRANSPOSE\\_MODELVIEW\\_MATRIX)}",
        "$M^{4}$",
        "\\glr{GetFloatv}",
        "Identity",
        "Matrix",
    );
    let e = entry(Dialect::Gl, &r, &[]).unwrap();
    assert_eq!(e.get_value.as_deref(), Some("MODELVIEW_MATRIX"));
    assert_eq!(e.alt_get_value.as_deref(), Some("TRANSPOSE_MODELVIEW_MATRIX"));
    assert!(e.series.is_none());
    let bad = row("A \\hbox{(B)", "$Z$", "--", "--", "d");
    assert!(matches!(entry(Dialect::Gl, &bad, &[]), Err(ParseError::Malformed)));
}

#[test]
fn the_first_embedded_document_writes_types_and_commands_bare() {
    let r = row("FOG\\_MODE", "Z_3", "GetIntegerv", "EXP", "Fog mode");
    let e = entry(Dialect::Es11, &r, &[]).unwrap();
    assert_eq!(e.get_cmnd.as_deref(), Some("GetIntegerv"));
    assert!(matches!(
        e.type_,
        Some(MaybeParsed::Parsed(t)) if matches!(
            t.basic_type,
            BasicType::KValuedInteger { k: Quantity::Integer(3), minimum: false }
        )
    ));
    let none = row("FOG\\_MODE", "$-$", "GetIntegerv", "EXP", "Fog mode");
    match entry(Dialect::Es11, &none, &[]).unwrap().type_ {
        Some(MaybeParsed::Unparsed(text)) => assert_eq!(text, "$$-$$"),
        other => panic!("the type is parsed: {:?}", other),
    }
}

#[test]
fn a_command_loses_the_macro_around_it() {
    let r = row("FOO", "$Z$", "\\glr{Get\\-Integerv}", "0", "d");
    assert_eq!(entry(Dialect::Es, &r, &[]).unwrap().get_cmnd.as_deref(), Some("GetIntegerv"));
    let r = row("FOO", "$Z$", "\\glr{GetFloatv}", "0", "d");
    assert_eq!(entry(Dialect::Es11, &r, &[]).unwrap().get_cmnd.as_deref(), Some("GetFloatv"));
    let r = row("FOO", "$Z$", "GetIntegerv", "0", "d");
    assert_eq!(entry(Dialect::Gl, &r, &[]).unwrap().get_cmnd.as_deref(), Some("GetIntegerv"));
    let r = row("FOO", "$Z$", "\\glr{GetIntegerv", "0", "d");
    assert_eq!(
        entry(Dialect::Es, &r, &[]).unwrap().get_cmnd.as_deref(),
        Some("\\glr{GetIntegerv")
    );
}

#[test]
fn the_cell_with_two_commands_stands_for_the_second() {
    let two = "\\vbox{\\hbox{{\\bf GetIntegerv},}\\hbox{\\bf GetFloatv}}";
    let r = row("CURRENT\\_COLOR", "C", two, "1,1,1,1", "Current color");
    assert_eq!(entry(Dialect::Es11, &r, &[]).unwrap().get_cmnd.as_deref(), Some("GetFloatv"));
    assert!(matches!(entry(Dialect::Gl, &r, &[]), Err(ParseError::Malformed)));
    let other = row("CURRENT\\_NORMAL", "N", two, "0,0,1", "Current normal");
    assert!(matches!(entry(Dialect::Es11, &other, &[]), Err(ParseError::Malformed)));
    let none = row("--", "N", two, "0,0,1", "Current normal");
    assert!(matches!(entry(Dialect::Es11, &none, &[]), Err(ParseError::Malformed)));
}

#[test]
fn named_constants_are_put_into_the_initial_value() {
    let r = row("MAX\\_DRAW\\_BUFFERS", "$Z+$", "\\glr{GetIntegerv}", "\\mdrawbuf*", "d");
    assert_eq!(entry(Dialect::Gl, &r, &[]).unwrap().initial_value.as_deref(), Some("8*"));
    let out = substitute(to_chars("\\mtexunit+\\mdrawbuf+\\mtexunit"), &constants());
    assert_eq!(to_string(&out), "96+8+96");
    let chained = vec![
        Constant { name: to_chars("a"), value: to_chars("b") },
        Constant { name: to_chars("b"), value: to_chars("c") },
    ];
    assert_eq!(to_string(&substitute(to_chars("ab"), &chained)), "cc");
}

#[test]
fn footnote_references_are_taken_off() {
    let r = row("FOO", "$Z$ \\fnb", "\\glr{GetIntegerv}", "0\\fn1", "The foo \\fn1");
    let e = entry(Dialect::Gl, &r, &["one", "two"]).unwrap();
    assert_eq!(e.description, "The foo");
    assert_eq!(e.description_footnote, Some(0));
    assert_eq!(e.initial_value.as_deref(), Some("0"));
    assert_eq!(e.initial_value_footnote, Some(0));
    assert!(matches!(e.type_, Some(MaybeParsed::Parsed(_))));
    assert_eq!(e.type_footnote, Some(1));
}

#[test]
fn a_cell_may_be_a_footnote_reference_alone() {
    let r = row("FOO", "$Z$", "\\glr{GetIntegerv}", "\\fn1", "The foo");
    let e = entry(Dialect::Gl, &r, &["one"]).unwrap();
    assert_eq!(e.initial_value, None);
    assert_eq!(e.initial_value_footnote, Some(0));
    let r = row("FOO", "$Z$", "\\glr{GetIntegerv}", "0", "\\fn1");
    assert!(matches!(entry(Dialect::Gl, &r, &["one"]), Err(ParseError::Malformed)));
}

#[test]
fn a_reference_to_a_missing_footnote_is_refused() {
    let r = row("FOO", "$Z$", "\\glr{GetIntegerv}", "0", "The foo\\fn1");
    assert!(matches!(entry(Dialect::Gl, &r, &[]), Err(ParseError::MissingFootnote)));
    let r = row("FOO", "$Z$\\fnb", "\\glr{GetIntegerv}", "0", "The foo");
    assert!(matches!(entry(Dialect::Gl, &r, &["one"]), Err(ParseError::MissingFootnote)));
}

#[test]
fn a_description_may_define_the_first_footnote() {
    let r = row("FOO", "$Z$", "\\glr{GetIntegerv}", "0\\fn1", "The foo \\fn1 See there.");
    let mut t = table(&[]);
    assert_eq!(process_row(Dialect::Gl, &r, &constants(), &mut t), Ok(()));
    assert_eq!(t.footnotes, vec!["See there.".to_string()]);
    assert_eq!(t.entries.len(), 1);
    assert_eq!(t.entries[0].description, "The foo");
    assert_eq!(t.entries[0].description_footnote, None);
    assert_eq!(t.entries[0].initial_value_footnote, Some(0));
}

#[test]
fn a_description_defines_no_footnote_beside_the_caption() {
    let r = row("FOO", "$Z$", "\\glr{GetIntegerv}", "0", "The foo \\footnotemark[1] See there.");
    let mut t = table(&["from the caption"]);
    assert_eq!(
        process_row(Dialect::Gl, &r, &constants(), &mut t),
        Err(ParseError::FootnoteConflict)
    );
}

#[test]
fn a_type_without_delimiters_is_refused() {
    let r = row("FOO", "Z", "\\glr{GetIntegerv}", "0", "d");
    assert!(matches!(entry(Dialect::Gl, &r, &[]), Err(ParseError::Malformed)));
    let r = row("FOO", "$", "\\glr{GetIntegerv}", "0", "d");
    assert!(matches!(entry(Dialect::Gl, &r, &[]), Err(ParseError::Malformed)));
}

#[test]
fn an_unknown_code_keeps_the_type_as_text() {
    let r = row("FOO", "$2 \\times Q$", "\\glr{GetIntegerv}", "0", "d");
    match entry(Dialect::Gl, &r, &[]).unwrap().type_ {
        Some(MaybeParsed::Unparsed(text)) => assert_eq!(text, "$2 \\times Q$"),
        other => panic!("the type is parsed: {:?}", other),
    }
}

#[test]
fn a_deprecated_clause_makes_two_entries() {
    let r = row("FOO", "$Z$", "\\glr{GetIntegerv}", "0", "Value\\dep{ or index} of foo");
    let mut t = table(&[]);
    assert_eq!(process_row(Dialect::Gl, &r, &constants(), &mut t), Ok(()));
    assert_eq!(t.entries.len(), 2);
    assert_eq!(t.entries[0].condition, Some(Condition::Compatibility));
    assert_eq!(t.entries[0].description, "Value or index of foo");
    assert_eq!(t.entries[1].condition, Some(Condition::Core));
    assert_eq!(t.entries[1].description, "Value of foo");
    for e in &t.entries {
        assert_eq!(e.get_value.as_deref(), Some("FOO"));
        assert_eq!(e.get_cmnd.as_deref(), Some("GetIntegerv"));
        assert_eq!(e.attribute, None);
        assert!(matches!(&e.type_, Some(MaybeParsed::Parsed(t)) if t.quantity.is_empty()));
    }
}

#[test]
fn an_empty_deprecated_clause_makes_one_entry() {
    let r = row("FOO", "$Z$", "\\glr{GetIntegerv}", "0", "Value\\dep{} of foo");
    let mut t = table(&[]);
    assert_eq!(process_row(Dialect::Gl, &r, &constants(), &mut t), Ok(()));
    assert_eq!(t.entries.len(), 1);
    assert_eq!(t.entries[0].condition, None);
    assert_eq!(t.entries[0].description, "Value of foo");
}

#[test]
fn expansions_nest() {
    let r = row(
        "TEXTURE\\_$x$D",
        "$3 \\times B$",
        "\\glr{IsEnabled}",
        "0",
        "True if $x$D texturing is enabled\\dep{ (legacy)}; $x$ is 1, 2, or 3",
    );
    let mut t = table(&[]);
    assert_eq!(process_row(Dialect::Gl, &r, &constants(), &mut t), Ok(()));
    let seen: Vec<(Option<Condition>, String, String)> = t
        .entries
        .iter()
        .map(|e| (e.condition, e.get_value.clone().unwrap(), e.description.clone()))
        .collect();
    let compat = Some(Condition::Compatibility);
    assert_eq!(
        seen,
        vec![
            (compat, "TEXTURE_1D".into(), "True if 1D texturing is enabled (legacy)".into()),
            (compat, "TEXTURE_2D".into(), "True if 2D texturing is enabled (legacy)".into()),
            (compat, "TEXTURE_3D".into(), "True if 3D texturing is enabled (legacy)".into()),
            (Some(Condition::Core), "TEXTURE_1D".into(), "True if 1D texturing is enabled".into()),
            (Some(Condition::Core), "TEXTURE_2D".into(), "True if 2D texturing is enabled".into()),
            (Some(Condition::Core), "TEXTURE_3D".into(), "True if 3D texturing is enabled".into()),
        ]
    );
}

#[test]
fn rows_that_expand_to_the_same_entry_merge() {
    let r = row(
        "TEXTURE\\_$x$D",
        "$3 \\times B$",
        "\\glr{IsEnabled}",
        "0",
        "True if texturing is enabled\\dep{}; $x$ is 1, 2, or 3",
    );
    let mut t = table(&[]);
    assert_eq!(process_row(Dialect::Gl, &r, &constants(), &mut t), Ok(()));
    let seen: Vec<(Option<Condition>, String)> =
        t.entries.iter().map(|e| (e.condition, e.get_value.clone().unwrap())).collect();
    assert_eq!(
        seen,
        vec![
            (None, "TEXTURE_1D".to_string()),
            (None, "TEXTURE_2D".to_string()),
            (None, "TEXTURE_3D".to_string()),
        ]
    );
}

#[test]
fn an_expansion_that_goes_too_deep_is_refused() {
    let mut description = String::from("d");
    for _ in 0..65 {
        description.push_str("\\dep{x}");
    }
    let mut r = row("FOO", "$Z$", "\\glr{GetIntegerv}", "0", &description);
    r.condition = Some(Condition::Core);
    let mut t = table(&[]);
    assert_eq!(
        process_row(Dialect::Gl, &r, &constants(), &mut t),
        Err(ParseError::ExpansionTooDeep)
    );
    let mut shallow = String::from("d");
    for _ in 0..64 {
        shallow.push_str("\\dep{x}");
    }
    r.description = to_chars(&shallow);
    let mut t = table(&[]);
    assert_eq!(process_row(Dialect::Gl, &r, &constants(), &mut t), Ok(()));
    assert_eq!(t.entries.len(), 1);
    assert_eq!(t.entries[0].description, "d");
}

fn opened(text: &str) -> Result<(Option<Table>, String), ParseError> {
    let chars = to_chars(text);
    open_table(&chars).map(|(t, rest)| (t, to_string(rest)))
}

#[test]
fn names_the_kinds_of_table() {
    assert_eq!(table_kind(&to_chars("statetable")), Some(TableKind::Plain));
    assert_eq!(table_kind(&to_chars("statetableindex")), Some(TableKind::Index));
    assert_eq!(
        table_kind(&to_chars("statetabledifferentindexcaption")),
        Some(TableKind::DifferentIndexCaption)
    );
    assert_eq!(table_kind(&to_chars("center")), None);
}

#[test]
fn another_block_opens_no_table() {
    let (t, rest) = opened("\\begin{center} text").unwrap();
    assert!(t.is_none());
    assert_eq!(rest, " text");
}

#[test]
fn a_plain_table_has_title_and_label() {
    let (t, rest) = opened("\\begin{statetable}{Vertex  Array}{vtx\\_array}\nrest").unwrap();
    let t = t.unwrap();
    assert_eq!(t.title, "Vertex Array");
    assert_eq!(t.caption, None);
    assert_eq!(t.label, "vtx\\_array");
    assert!(t.footnotes.is_empty());
    assert!(t.entries.is_empty());
    assert_eq!(rest, "\nrest");
}

#[test]
fn a_line_break_divides_title_and_caption() {
    let (t, _) = opened("\\begin{statetable}[\\dobar]{Pixels\n(cont.)}{pix}").unwrap();
    let t = t.unwrap();
    assert_eq!(t.title, "Pixels");
    assert_eq!(t.caption.as_deref(), Some("(cont.)"));
    assert_eq!(t.label, "pix");
}

#[test]
fn a_reference_to_another_table_is_caption() {
    let (t, _) = opened("\\begin{statetable}{Lighting (see also table 6.8)}{light}").unwrap();
    let t = t.unwrap();
    assert_eq!(t.title, "Lighting");
    assert_eq!(t.caption.as_deref(), Some("(see also table 6.8)"));
}

#[test]
fn an_indexed_table_has_three_cells() {
    let (t, rest) = opened("\\begin{statetableindex}{Title}{Caption text}{lab}x").unwrap();
    let t = t.unwrap();
    assert_eq!(t.title, "Title");
    assert_eq!(t.caption.as_deref(), Some("Caption text"));
    assert_eq!(t.label, "lab");
    assert_eq!(rest, "x");
}

#[test]
fn a_caption_that_repeats_the_title_loses_it() {
    let text = "\\begin{statetabledifferentindexcaption}{Title (cont.)}{lab}{Title}";
    let (t, _) = opened(text).unwrap();
    let t = t.unwrap();
    assert_eq!(t.title, "Title");
    assert_eq!(t.caption.as_deref(), Some(" (cont.)"));
    assert_eq!(t.label, "lab");
    let bad = "\\begin{statetabledifferentindexcaption}{Other}{lab}{Title}";
    assert!(matches!(opened(bad), Err(ParseError::Malformed)));
}

#[test]
fn the_caption_may_define_footnotes() {
    let text = "\\begin{statetableindex}{Title}{\\par \\fn1 First note. \\par\\fnb Second}{lab}";
    let (t, _) = opened(text).unwrap();
    let t = t.unwrap();
    assert_eq!(t.caption, None);
    assert_eq!(t.footnotes, vec!["First note. ".to_string(), "Second".to_string()]);
}

#[test]
fn a_footnote_may_stand_in_a_cell() {
    let header = Header {
        title: to_chars("Title"),
        caption: Some(to_chars("{\\par \\fn1 In a cell } {\\par\\fnb  Second }")),
        label: to_chars("lab"),
    };
    let t = new_table(header).unwrap();
    assert_eq!(t.caption, None);
    assert_eq!(t.footnotes, vec!["In a cell".to_string(), "Second".to_string()]);
}

#[test]
fn a_third_footnote_is_refused() {
    let header = Header {
        title: to_chars("Title"),
        caption: Some(to_chars("\\par\\fn1 a\\par\\fnb b\\par\\fnb c")),
        label: to_chars("lab"),
    };
    assert!(matches!(new_table(header), Err(ParseError::TooManyFootnotes)));
}

#[test]
fn a_caption_with_anything_else_beside_footnotes_is_refused() {
    for caption in ["text \\par\\fn1 a", "\\par\\fnb a", "\\par a \\fn1", "{\\par\\fn1 a"] {
        let header = Header {
            title: to_chars("Title"),
            caption: Some(to_chars(caption)),
            label: to_chars("lab"),
        };
        let expected = if caption.starts_with('{') {
            ParseError::UnbalancedSpan
        } else {
            ParseError::Malformed
        };
        assert_eq!(new_table(header).err(), Some(expected), "{}", caption);
    }
}

#[test]
fn an_opening_without_its_cells_is_refused() {
    assert!(matches!(opened("\\begin"), Err(ParseError::Malformed)));
    assert!(matches!(opened("\\begin{statetable}{Title}"), Err(ParseError::UnbalancedSpan)));
    assert!(matches!(opened("\\begin{statetable"), Err(ParseError::UnbalancedSpan)));
}
