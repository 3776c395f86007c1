use state_tables::cell::{read_cell, read_group};
use state_tables::error::ParseError;
use state_tables::text::{to_chars, to_string};

fn cell(text: &str) -> Result<(String, String), ParseError> {
    let chars = to_chars(text);
    read_cell(&chars).map(|(c, r)| (to_string(c), to_string(r)))
}

fn pair(a: &str, b: &str) -> Result<(String, String), ParseError> {
    Ok((a.to_string(), b.to_string()))
}

#[test]
fn reads_a_simple_cell() {
    assert_eq!(cell("{abc}def"), pair("abc", "def"));
}

#[test]
fn reads_nested_cells_as_one() {
    assert_eq!(cell("{a{b}{c{d}}e}{f}"), pair("a{b}{c{d}}e", "{f}"));
}

#[test]
fn skips_escaped_delimiters() {
    assert_eq!(cell("{a\\}b\\{c}rest"), pair("a\\}b\\{c", "rest"));
}

#[test]
fn allows_white_space_in_front_of_the_cell() {
    assert_eq!(cell(" \n\t{x} y"), pair("x", " y"));
}

#[test]
fn trims_the_content_of_a_cell() {
    assert_eq!(cell("{  a b \n}"), pair("a b", ""));
}

#[test]
fn a_group_keeps_its_white_space() {
    let chars = to_chars("{ a }b");
    let (inner, rest) = read_group(&chars).unwrap();
    assert_eq!(to_string(inner), " a ");
    assert_eq!(to_string(rest), "b");
}

#[test]
fn reads_an_empty_cell() {
    assert_eq!(cell("{}"), pair("", ""));
}

#[test]
fn refuses_a_span_that_never_closes() {
    assert_eq!(cell("{abc"), Err(ParseError::UnbalancedSpan));
    assert_eq!(cell("{a{b}"), Err(ParseError::UnbalancedSpan));
    assert_eq!(cell("{a\\}"), Err(ParseError::UnbalancedSpan));
}

#[test]
fn refuses_text_without_a_span() {
    assert_eq!(cell(""), Err(ParseError::UnbalancedSpan));
    assert_eq!(cell("abc"), Err(ParseError::UnbalancedSpan));
}

#[test]
fn refuses_a_close_without_an_open() {
    assert_eq!(cell("}{a}"), Err(ParseError::UnbalancedSpan));
}

#[test]
fn refuses_text_in_front_of_the_span() {
    assert_eq!(cell("a{b}"), Err(ParseError::UnbalancedSpan));
    assert_eq!(cell("\\{{b}"), Err(ParseError::UnbalancedSpan));
}
