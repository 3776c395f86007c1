use state_tables::entry::{Condition, Entry, Table};
use state_tables::render::{is_printable, print_basic_type, print_quantity, print_table, print_type};
use state_tables::types::{parse_basic_type, parse_type, unmatched_code, MaybeParsed, Quantity};

#[test]
fn a_number_is_written_as_its_numeral() {
    assert_eq!(print_quantity(&Quantity::Integer(0)), "0");
    assert_eq!(print_quantity(&Quantity::Integer(4096)), "4096");
    assert_eq!(Quantity::Integer(4096).to_text(), "4096");
}

#[test]
fn a_limit_is_written_as_code() {
    let q = Quantity::Constant("MAX_DRAW_BUFFERS");
    assert_eq!(print_quantity(&q), "<code>MAX_DRAW_BUFFERS</code>");
    assert_eq!(q.to_text(), "MAX_DRAW_BUFFERS");
}

#[test]
fn a_basic_type_is_written_with_its_title() {
    let html = |code: &str| print_basic_type(&parse_basic_type(code).unwrap());
    assert_eq!(html("B"), "<abbr title=\"Boolean\">B</abbr>");
    assert_eq!(html("\\Enum"), "<abbr title=\"Enumerated value\">E</abbr>");
    assert_eq!(html("Z+"), "<abbr title=\"Non-negative integer\">Z<sup>+</sup></abbr>");
    assert_eq!(html("Z_8"), "<abbr title=\"8-valued integer\">Z<sub>8</sub></abbr>");
    assert_eq!(
        html("Z_{8*}"),
        "<abbr title=\"8-valued integer (8 is a minimum)\">Z<sub>8*</sub></abbr>"
    );
    assert_eq!(
        html("Z_\\mtexunit"),
        "<abbr title=\"MAX_TEXTURE_UNITS-valued integer\">Z<sub><code>MAX_TEXTURE_UNITS</code></sub></abbr>"
    );
    assert_eq!(
        html("R^4"),
        "<abbr title=\"4-tuple of floating-point numbers\">R<sup>4</sup></abbr>"
    );
    assert_eq!(
        html("R_2"),
        "<abbr title=\"2-valued floating-point number\">R<sub>2</sub></abbr>"
    );
    assert_eq!(
        html("M^{4}"),
        "<abbr title=\"4 \u{d7} 4 floating-point matrix\">M<sup>4</sup></abbr>"
    );
    assert_eq!(html("\\glt{char}"), "<code>char</code>");
}

#[test]
fn a_type_is_written_with_its_factors() {
    let t = parse_type("$2 \\times 3* \\times n \\times \\mdrawbuf \\times Z$").unwrap();
    assert_eq!(
        print_type(&t),
        "2 \u{d7} 3<abbr title=\"quantity is a minimum\">*</abbr> \u{d7} <code>n</code> \u{d7} \
         <code>MAX_DRAW_BUFFERS</code> \u{d7} <abbr title=\"Integer\">Z</abbr>"
    );
    assert_eq!(print_type(&parse_type("$B$").unwrap()), "<abbr title=\"Boolean\">B</abbr>");
}

#[test]
fn the_code_that_is_not_read_is_named() {
    assert_eq!(unmatched_code("$2 \\times Q$"), Some("Q".to_string()));
    assert_eq!(unmatched_code("$-$"), Some("-".to_string()));
    assert_eq!(unmatched_code("$2 \\times Z$"), None);
}

fn entry(name: &str) -> Entry {
    Entry {
        condition: None,
        get_value: Some(name.to_string()),
        alt_get_value: None,
        series: None,
        type_: Some(MaybeParsed::Parsed(parse_type("$B$").unwrap())),
        type_footnote: None,
        get_cmnd: Some("IsEnabled".to_string()),
        initial_value: Some("FALSE".to_string()),
        initial_value_footnote: None,
        description: "Described".to_string(),
        description_footnote: None,
        attribute: Some("enable".to_string()),
    }
}

#[test]
fn a_table_is_written_as_rows() {
    let mut first = entry("TEXTURE0");
    first.condition = Some(Condition::Core);
    first.series = Some(Quantity::Integer(2));
    first.type_footnote = Some(1);
    let mut second = entry("MATRIX");
    second.condition = Some(Condition::Core);
    second.alt_get_value = Some("TRANSPOSE_MATRIX".to_string());
    second.type_ = Some(MaybeParsed::Unparsed("$Q$".to_string()));
    second.get_cmnd = None;
    second.initial_value = None;
    second.initial_value_footnote = Some(0);
    second.attribute = None;
    let mut third = entry("GONE");
    third.condition = Some(Condition::Compatibility);
    third.get_value = None;
    third.type_ = None;
    third.initial_value = None;
    third.description_footnote = Some(0);
    let table = Table {
        title: "Title".to_string(),
        caption: Some("Caption".to_string()),
        label: "lab".to_string(),
        footnotes: vec!["One".to_string(), "Two".to_string()],
        entries: vec![first, second, third],
    };
    assert!(is_printable(&table));
    let expected = "\
<tr class=\"section-header  has-core-only has-compatibility-only\">
<td colspan=6>
<h2 name=\"lab\">Title</h2>
<p>Caption</p>
<ol>
<li id=\"lab-fn-0\">\u{2020} One</li>
<li id=\"lab-fn-1\">\u{2021} Two</li>
</ol>
</td>
</tr>
<tr class=core-only>
<td><code>TEXTURE0</code> \u{2026}<br><code>TEXTURE0</code> + (<var>n</var>-1)<br>where <var>n</var> \u{2265} 2</td>
<td><var>n</var> \u{d7} <abbr title=\"Boolean\">B</abbr><sup><a href=\"#lab-fn-1\">\u{2021}</a></sup></td>
<td><code>IsEnabled</code></td>
<td>FALSE</td>
<td>Described</td>
<td>enable</td>
</tr>
<tr class=core-only>
<td><code>MATRIX</code> <em>or</em><br> <code>TRANSPOSE_MATRIX</code></td>
<td>$Q$</td>
<td>\u{2014}</td>
<td><sup><a href=\"#lab-fn-0\">\u{2020}</a></sup></td>
<td>Described</td>
<td>\u{2014}</td>
</tr>
<tr class=compatibility-only>
<td>\u{2014}</td>
<td>\u{2014}</td>
<td><code>IsEnabled</code></td>
<td>\u{2014}</td>
<td>Described<sup><a href=\"#lab-fn-0\">\u{2020}</a></sup></td>
<td>enable</td>
</tr>
";
    assert_eq!(print_table(&table), expected);
}

#[test]
fn a_table_without_entries_is_one_row() {
    let table = Table {
        title: "T".to_string(),
        caption: None,
        label: "l".to_string(),
        footnotes: Vec::new(),
        entries: Vec::new(),
    };
    assert!(is_printable(&table));
    assert_eq!(
        print_table(&table),
        "<tr class=\"section-header \">\n<td colspan=6>\n<h2 name=\"l\">T</h2>\n</td>\n</tr>\n"
    );
}

#[test]
fn a_table_that_refers_to_a_missing_sign_cannot_be_written() {
    let mut e = entry("A");
    e.description_footnote = Some(2);
    let mut table = Table {
        title: "T".to_string(),
        caption: None,
        label: "l".to_string(),
        footnotes: Vec::new(),
        entries: vec![e],
    };
    assert!(!is_printable(&table));
    table.entries[0].description_footnote = Some(1);
    assert!(is_printable(&table));
    table.entries[0].get_value = None;
    table.entries[0].series = Some(Quantity::Integer(1));
    assert!(!is_printable(&table));
    table.entries[0].series = None;
    table.footnotes = vec!["a".into(), "b".into(), "c".into()];
    assert!(!is_printable(&table));
}
