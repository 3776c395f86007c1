use state_tables::document::{clean_line, constants, split_document, strip_comment};
use state_tables::entry::Condition;
use state_tables::error::ParseError;
use state_tables::row::Dialect;
use state_tables::scan::{entry_condition, event, parse_spec, read_cells, step, Event};
use state_tables::text::{to_chars, to_string};
use state_tables::types::{BasicType, MaybeParsed};

const DIVIDER: &str =
    "%%%%%%%%%%%%%%%%%%%%%%%%%%%%%%%%%%%%%%%%%%%%%%%%%%%%%%%%%%%%%%%%%%%%%%%%%%%%%%%%";

fn document(defs: &str, body: &str) -> String {
    format!("% First\n% Second\n% Third\n{}\n{}\n{}\n", defs, DIVIDER, body)
}

#[test]
fn the_tracker_follows_a_region() {
    let compat = Some(Condition::Compatibility);
    let core = Some(Condition::Core);
    assert_eq!(step(None, Event::Begin), Ok(compat));
    assert_eq!(step(compat, Event::Else), Ok(core));
    assert_eq!(step(core, Event::End), Ok(None));
    assert_eq!(step(compat, Event::End), Ok(None));
}

#[test]
fn the_tracker_refuses_misuse() {
    let compat = Some(Condition::Compatibility);
    let core = Some(Condition::Core);
    let imaging = Some(Condition::ImagingSubset);
    assert_eq!(step(compat, Event::Begin), Err(ParseError::ConditionMisuse));
    assert_eq!(step(core, Event::Begin), Err(ParseError::ConditionMisuse));
    assert_eq!(step(None, Event::Else), Err(ParseError::ConditionMisuse));
    assert_eq!(step(core, Event::Else), Err(ParseError::ConditionMisuse));
    assert_eq!(step(imaging, Event::Else), Err(ParseError::ConditionMisuse));
    assert_eq!(step(None, Event::End), Err(ParseError::ConditionMisuse));
}

#[test]
fn conditional_macros_are_events() {
    assert_eq!(event(&to_chars("\\ifnum\\specdep=1 x")), Some(Event::Begin));
    assert_eq!(event(&to_chars("\\else")), Some(Event::Else));
    assert_eq!(event(&to_chars("\\fi\n")), Some(Event::End));
    assert_eq!(event(&to_chars("\\ifnum\\specdep=0")), None);
    assert_eq!(event(&to_chars("\\end{x}")), None);
}

#[test]
fn entry_macros_give_the_condition() {
    let core = Some(Condition::Core);
    assert_eq!(entry_condition(&to_chars("\\doentry{"), core), Some(core));
    assert_eq!(entry_condition(&to_chars("\\cbentry{"), None), Some(None));
    assert_eq!(entry_condition(&to_chars("\\ocbentry{"), core), Some(core));
    assert_eq!(
        entry_condition(&to_chars("\\depentry{"), core),
        Some(Some(Condition::Compatibility))
    );
    assert_eq!(
        entry_condition(&to_chars("\\graydepentry{"), None),
        Some(Some(Condition::ImagingSubset))
    );
    assert_eq!(entry_condition(&to_chars("\\begin{"), core), None);
}

#[test]
fn reads_so_many_cells() {
    let text = to_chars("{a} {b}\n{c}{d}");
    let (cells, rest) = read_cells(&text, 3).unwrap();
    let cells: Vec<String> = cells.into_iter().map(to_string).collect();
    assert_eq!(cells, vec!["a", "b", "c"]);
    assert_eq!(to_string(rest), "{d}");
    assert!(matches!(read_cells(&text, 5), Err(ParseError::UnbalancedSpan)));
    let (none, rest) = read_cells(&text, 0).unwrap();
    assert!(none.is_empty());
    assert_eq!(rest.len(), text.len());
}

#[test]
fn comments_end_a_line() {
    assert_eq!(to_string(strip_comment(&to_chars("a % b % c"))), "a ");
    assert_eq!(to_string(strip_comment(&to_chars("100\\% sure % not"))), "100\\% sure ");
    assert_eq!(to_string(strip_comment(&to_chars("% all"))), "");
    assert_eq!(to_string(strip_comment(&to_chars("none"))), "none");
    assert_eq!(to_string(clean_line(&to_chars("  \\doentry{A}  % tail"))), "\\doentry{A}");
    assert_eq!(to_string(clean_line(&to_chars("   "))), "");
}

#[test]
fn a_document_has_three_parts() {
    let text = format!(
        "% One\r\n% Two\n% Three\n\\def\\ma{{1}} % c\n\n  \\def\\mb{{2}}\n{}\nbody one\n   \n% c\nbody two",
        DIVIDER
    );
    let doc = split_document(&to_chars(&text)).unwrap();
    assert_eq!(to_string(&doc.copyright), "One\nTwo\nThree\n");
    assert_eq!(to_string(&doc.defs), "\\def\\ma{1}\n\\def\\mb{2}\n");
    assert_eq!(to_string(&doc.body), "body one\nbody two\n");
}

#[test]
fn a_document_without_divider_has_no_body() {
    let doc = split_document(&to_chars("% a\n% b\n% c\ndefs\n")).unwrap();
    assert_eq!(to_string(&doc.defs), "defs\n");
    assert_eq!(to_string(&doc.body), "");
    let short = split_document(&to_chars("% a\n")).unwrap();
    assert_eq!(to_string(&short.copyright), "a\n");
    let empty = split_document(&to_chars("")).unwrap();
    assert_eq!(to_string(&empty.copyright), "");
}

#[test]
fn an_attribution_without_comment_marker_is_refused() {
    assert!(matches!(split_document(&to_chars("% a\nb\n% c\n")), Err(ParseError::Malformed)));
    assert!(matches!(split_document(&to_chars("%a\n")), Err(ParseError::Malformed)));
}

#[test]
fn definitions_give_named_constants() {
    let defs = "\\def\\mdrawbuf{8}\n\\def\\other{x}\n\\def\\mtexunit{ 96 }\n\\ifnum\\a=1\n\\def\\mlate{1}\\fi\n";
    let found = constants(&to_chars(defs)).unwrap();
    let found: Vec<(String, String)> =
        found.iter().map(|c| (to_string(&c.name), to_string(&c.value))).collect();
    assert_eq!(
        found,
        vec![
            ("\\mdrawbuf".to_string(), "8".to_string()),
            ("\\mtexunit".to_string(), "96".to_string()),
        ]
    );
}

#[test]
fn a_definition_without_value_is_refused() {
    assert!(matches!(constants(&to_chars("\\def\\mfoo 8")), Err(ParseError::Malformed)));
    assert!(matches!(constants(&to_chars("\\def\\mfoo{8")), Err(ParseError::UnbalancedSpan)));
}

fn gl_body() -> &'static str {
    "\\begin{statetable}{Title}{lab}\n\
     \\doentry{FOO}{$Z+$}{\\glr{GetIntegerv}}{\\mdrawbuf}{The foo}{\\ref{sec}}{--}\n\
     \\ifnum\\specdep=1\n\
     \\doentry{BAR}{$B$}{\\glr{IsEnabled}}{\\glc{FALSE}}{Bar}{\\ref{sec}}{enable}\n\
     \\doentry{OLD}{$Z$}{\\glr{GetIntegerv}}{0}{Old}{\\ref{sec}}{--}\n\
     \\else\n\
     \\doentry{BAR}{$B$}{\\glr{IsEnabled}}{\\glc{FALSE}}{Bar}{\\ref{sec}}{enable}\n\
     \\doentry{NEW}{$Z$}{\\glr{GetIntegerv}}{0}{New}{\\ref{sec}}{--}\n\
     \\fi\n\
     \\depentry{GONE}{$Q$}{--}{--}{Gone}{\\ref{sec}}{--}\n\
     \\end{statetable}\n\
     \\begin{center}x\\end{center}\n\
     \\begin{statetableindex}{Second}{Caption}{two}\n\
     \\graydepentry{IMG}{$3 \\times R$}{\\glr{GetFloatv}}{0}{Imaging}{\\ref{img}}{pixel}\n"
}

#[test]
fn reads_a_desktop_document() {
    let text = document("\\def\\mdrawbuf{8}", gl_body());
    let (copyright, tables) = parse_spec(Dialect::Gl, &text).unwrap();
    assert_eq!(copyright, "First\nSecond\nThird\n");
    assert_eq!(tables.len(), 2);
    let first = &tables[0];
    assert_eq!(first.title, "Title");
    assert_eq!(first.label, "lab");
    let seen: Vec<(Option<Condition>, &str)> =
        first.entries.iter().map(|e| (e.condition, e.get_value.as_deref().unwrap())).collect();
    assert_eq!(
        seen,
        vec![
            (None, "FOO"),
            (Some(Condition::Compatibility), "BAR"),
            (Some(Condition::Compatibility), "OLD"),
            (Some(Condition::Core), "BAR"),
            (Some(Condition::Core), "NEW"),
            (Some(Condition::Compatibility), "GONE"),
        ]
    );
    assert_eq!(first.entries[0].initial_value.as_deref(), Some("8"));
    assert_eq!(first.entries[1].initial_value.as_deref(), Some("\\glc{FALSE}"));
    assert_eq!(first.entries[1].attribute.as_deref(), Some("enable"));
    assert!(matches!(&first.entries[5].type_, Some(MaybeParsed::Unparsed(t)) if t == "$Q$"));
    assert_eq!(first.entries[5].get_cmnd, None);
    let second = &tables[1];
    assert_eq!(second.title, "Second");
    assert_eq!(second.caption.as_deref(), Some("Caption"));
    assert_eq!(second.entries.len(), 1);
    assert_eq!(second.entries[0].condition, Some(Condition::ImagingSubset));
    assert!(matches!(
        &second.entries[0].type_,
        Some(MaybeParsed::Parsed(t)) if matches!(t.basic_type, BasicType::Float)
    ));
}

#[test]
fn adjacent_rows_for_the_two_profiles_merge() {
    let body = "\\begin{statetable}{Title}{lab}\n\
                \\ifnum\\specdep=1\n\
                \\doentry{BAR}{$B$}{\\glr{IsEnabled}}{0}{Bar}{\\ref{sec}}{enable}\n\
                \\else\n\
                \\doentry{BAR}{$B$}{\\glr{IsEnabled}}{0}{Bar}{\\ref{sec}}{enable}\n\
                \\fi\n";
    let (_, tables) = parse_spec(Dialect::Es, &document("", body)).unwrap();
    assert_eq!(tables[0].entries.len(), 1);
    assert_eq!(tables[0].entries[0].condition, None);
    assert_eq!(tables[0].entries[0].get_value.as_deref(), Some("BAR"));
}

#[test]
fn reads_the_first_embedded_document() {
    let body = "\\begin{statetable}{Title}{lab}\n\
                \\doentry{x}{Z_3}{EXP}{GetIntegerv}{FOG\\_MODE}{Fog mode}{3.8}{fog}\n";
    let (_, tables) = parse_spec(Dialect::Es11, &document("", body)).unwrap();
    let e = &tables[0].entries[0];
    assert_eq!(e.get_value.as_deref(), Some("FOG_MODE"));
    assert_eq!(e.get_cmnd.as_deref(), Some("GetIntegerv"));
    assert_eq!(e.initial_value.as_deref(), Some("EXP"));
    assert_eq!(e.description, "Fog mode");
    assert_eq!(e.attribute.as_deref(), Some("fog"));
    assert!(matches!(&e.type_, Some(MaybeParsed::Parsed(_))));
}

#[test]
fn an_unbalanced_cell_ends_the_scan() {
    let body = "\\begin{statetable}{Title}{lab}\n\
                \\doentry{A}{$Z$}{--}{0}{First}{\\ref{s}}{--}\n\
                \\doentry{B}{$Z$}{--}{0}{Second{\\ref{s}}{--}\n";
    assert!(matches!(
        parse_spec(Dialect::Gl, &document("", body)),
        Err(ParseError::UnbalancedSpan)
    ));
}

#[test]
fn regions_do_not_nest() {
    for body in [
        "\\ifnum\\specdep=1 \\ifnum\\specdep=1 \\fi \\fi",
        "\\else",
        "\\fi",
        "\\ifnum\\specdep=1 \\else \\else \\fi",
    ] {
        assert!(
            matches!(
                parse_spec(Dialect::Gl, &document("", body)),
                Err(ParseError::ConditionMisuse)
            ),
            "{}",
            body
        );
    }
}

#[test]
fn an_entry_needs_a_table() {
    let body = "\\doentry{A}{$Z$}{--}{0}{First}{\\ref{s}}{--}\n";
    assert!(matches!(parse_spec(Dialect::Gl, &document("", body)), Err(ParseError::Malformed)));
    assert!(matches!(
        parse_spec(Dialect::Gl, &document("", "\\doentry")),
        Err(ParseError::Malformed)
    ));
}

#[test]
fn the_imaging_subset_with_a_deprecated_clause_ends_the_scan() {
    let body = "\\begin{statetable}{Title}{lab}\n\
                \\graydepentry{A}{$Z$}{--}{0}{First\\dep{ x}}{\\ref{s}}{--}\n";
    assert!(matches!(
        parse_spec(Dialect::Gl, &document("", body)),
        Err(ParseError::UnsupportedCondition)
    ));
}

#[test]
fn a_document_without_macros_has_no_tables() {
    let (copyright, tables) = parse_spec(Dialect::Es, &document("", "plain text")).unwrap();
    assert_eq!(copyright, "First\nSecond\nThird\n");
    assert!(tables.is_empty());
}
