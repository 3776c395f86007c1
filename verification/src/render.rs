//! The tables as rows of a page: quantities, types and tables written
//! out as markup.

use crate::entry::{
    class_for_condition, spec_class_for_condition, Entry, EntryModel, Table, TableModel,
};
use crate::number::{decimal_digits, push_decimal};
use crate::text::{append_str, contains, spec_contains, to_string};
use crate::types::{
    BasicType, BasicTypeModel, MaybeParsed, MaybeParsedModel, Quantity, QuantityModel, Term,
    TermModel, Type, TypeModel,
};
use vstd::prelude::*;

verus! {

// ---------------------------------------------------------------------------
// Quantities
// ---------------------------------------------------------------------------

/// The plain text of a quantity: the numeral of a number, the name of a
/// limit.
pub open spec fn spec_quantity_text(q: QuantityModel) -> Seq<char> {
    match q {
        QuantityModel::Integer(n) => decimal_digits(n as nat),
        QuantityModel::Constant(name) => name,
    }
}

/// `out` with a quantity behind it: the numeral of a number, the name of
/// a limit as code.
pub open spec fn spec_push_quantity(out: Seq<char>, q: QuantityModel) -> Seq<char> {
    match q {
        QuantityModel::Integer(n) => out + decimal_digits(n as nat),
        QuantityModel::Constant(name) => out + "<code>"@ + name + "</code>"@,
    }
}

/// The markup of a quantity.
pub open spec fn spec_print_quantity(q: QuantityModel) -> Seq<char> {
    spec_push_quantity(Seq::empty(), q)
}

/// Appends the plain text of a quantity.
fn push_quantity_text(out: &mut Vec<char>, q: &Quantity)
    ensures
        final(out)@ == old(out)@ + spec_quantity_text(q.deep_view()),
{
    match q {
        Quantity::Integer(n) => push_decimal(out, *n as u64),
        Quantity::Constant(name) => append_str(out, name),
    }
}

/// Appends the markup of a quantity.
fn push_quantity(out: &mut Vec<char>, q: &Quantity)
    ensures
        final(out)@ == spec_push_quantity(old(out)@, q.deep_view()),
{
    match q {
        Quantity::Integer(n) => push_decimal(out, *n as u64),
        Quantity::Constant(name) => {
            append_str(out, "<code>");
            append_str(out, name);
            append_str(out, "</code>");
        },
    }
}

impl Quantity {
    /// The plain text of the quantity: the numeral of a number, the name
    /// of a limit.
    pub fn to_text(&self) -> (r: String)
        ensures
            r@ == spec_quantity_text(self.deep_view()),
    {
        let mut out: Vec<char> = Vec::new();
        push_quantity_text(&mut out, self);
        assert(out@ =~= spec_quantity_text(self.deep_view()));
        to_string(out.as_slice())
    }
}

/// The markup of a quantity: the numeral of a number, the name of a limit
/// as code.
pub fn print_quantity(quantity: &Quantity) -> (r: String)
    ensures
        r@ == spec_print_quantity(quantity.deep_view()),
{
    let mut out: Vec<char> = Vec::new();
    push_quantity(&mut out, quantity);
    to_string(out.as_slice())
}

// ---------------------------------------------------------------------------
// Basic types
// ---------------------------------------------------------------------------

/// `out` with the markup of a `k`-valued integer behind it.
pub open spec fn spec_push_k_valued_integer(out: Seq<char>, k: QuantityModel, minimum: bool) -> Seq<
    char,
> {
    if minimum {
        spec_push_quantity(
            out + "<abbr title=\""@ + spec_quantity_text(k) + "-valued integer ("@
                + spec_quantity_text(k) + " is a minimum)\">Z<sub>"@,
            k,
        ) + "*</sub></abbr>"@
    } else {
        spec_push_quantity(
            out + "<abbr title=\""@ + spec_quantity_text(k) + "-valued integer\">Z<sub>"@,
            k,
        ) + "</sub></abbr>"@
    }
}

/// `out` with the markup of a basic type behind it: its code, with its
/// name as title.
pub open spec fn spec_push_basic_type(out: Seq<char>, b: BasicTypeModel) -> Seq<char> {
    match b {
        BasicTypeModel::Boolean => out + "<abbr title=\"Boolean\">B</abbr>"@,
        BasicTypeModel::Bmu => out + "<abbr title=\"Basic machine units\">BMU</abbr>"@,
        BasicTypeModel::Color => out + "<abbr title=\"Color\">C</abbr>"@,
        BasicTypeModel::Enum => out + "<abbr title=\"Enumerated value\">E</abbr>"@,
        BasicTypeModel::ColorIndex => out + "<abbr title=\"Color index\">CI</abbr>"@,
        BasicTypeModel::TexCoords => out + "<abbr title=\"Texture coordinates\">T</abbr>"@,
        BasicTypeModel::NormalCoords => out + "<abbr title=\"Normal coordinates\">N</abbr>"@,
        BasicTypeModel::Vertex => out + "<abbr title=\"Vertex\">V</abbr>"@,
        BasicTypeModel::Integer => out + "<abbr title=\"Integer\">Z</abbr>"@,
        BasicTypeModel::NonNegativeInteger => out
            + "<abbr title=\"Non-negative integer\">Z<sup>+</sup></abbr>"@,
        BasicTypeModel::KValuedInteger { k, minimum } => spec_push_k_valued_integer(
            out,
            k,
            minimum,
        ),
        BasicTypeModel::Float => out + "<abbr title=\"Floating-point number\">R</abbr>"@,
        BasicTypeModel::NonNegativeFloat => out
            + "<abbr title=\"Non-negative floating-point number\">R<sup>+</sup></abbr>"@,
        BasicTypeModel::ZeroOneRangeFloat => out
            + "<abbr title=\"Floating-point number in the range [0,1]\">R<sup>[0,1]</sup></abbr>"@,
        BasicTypeModel::FloatTuple { k } => out + "<abbr title=\""@ + decimal_digits(k as nat)
            + "-tuple of floating-point numbers\">R<sup>"@ + decimal_digits(k as nat)
            + "</sup></abbr>"@,
        BasicTypeModel::KValuedFloat { k } => out + "<abbr title=\""@ + decimal_digits(k as nat)
            + "-valued floating-point number\">R<sub>"@ + decimal_digits(k as nat)
            + "</sub></abbr>"@,
        BasicTypeModel::Position => out + "<abbr title=\"Position\">P</abbr>"@,
        BasicTypeModel::Direction => out + "<abbr title=\"Direction\">D</abbr>"@,
        BasicTypeModel::Matrix => out
            + "<abbr title=\"4 \u{d7} 4 floating-point matrix\">M<sup>4</sup></abbr>"@,
        BasicTypeModel::String => out + "<abbr title=\"Null-terminated string\">S</abbr>"@,
        BasicTypeModel::Image => out + "<abbr title=\"Image\">I</abbr>"@,
        BasicTypeModel::AttributeStackEntry => out
            + "<abbr title=\"Attribute stack entry\">A</abbr>"@,
        BasicTypeModel::Pointer => out + "<abbr title=\"Pointer\">Y</abbr>"@,
        BasicTypeModel::Char => out + "<code>char</code>"@,
    }
}

/// The markup of a basic type.
pub open spec fn spec_print_basic_type(b: BasicTypeModel) -> Seq<char> {
    spec_push_basic_type(Seq::empty(), b)
}

/// Appends the markup of a basic type.
fn push_basic_type(out: &mut Vec<char>, b: &BasicType)
    ensures
        final(out)@ == spec_push_basic_type(old(out)@, b.deep_view()),
{
    match b {
        BasicType::Boolean => append_str(out, "<abbr title=\"Boolean\">B</abbr>"),
        BasicType::Bmu => append_str(out, "<abbr title=\"Basic machine units\">BMU</abbr>"),
        BasicType::Color => append_str(out, "<abbr title=\"Color\">C</abbr>"),
        BasicType::Enum => append_str(out, "<abbr title=\"Enumerated value\">E</abbr>"),
        BasicType::ColorIndex => append_str(out, "<abbr title=\"Color index\">CI</abbr>"),
        BasicType::TexCoords => append_str(out, "<abbr title=\"Texture coordinates\">T</abbr>"),
        BasicType::NormalCoords => append_str(out, "<abbr title=\"Normal coordinates\">N</abbr>"),
        BasicType::Vertex => append_str(out, "<abbr title=\"Vertex\">V</abbr>"),
        BasicType::Integer => append_str(out, "<abbr title=\"Integer\">Z</abbr>"),
        BasicType::NonNegativeInteger => append_str(
            out,
            "<abbr title=\"Non-negative integer\">Z<sup>+</sup></abbr>",
        ),
        BasicType::KValuedInteger { k, minimum } => {
            append_str(out, "<abbr title=\"");
            push_quantity_text(out, k);
            if *minimum {
                append_str(out, "-valued integer (");
                push_quantity_text(out, k);
                append_str(out, " is a minimum)\">Z<sub>");
                push_quantity(out, k);
                append_str(out, "*</sub></abbr>");
            } else {
                append_str(out, "-valued integer\">Z<sub>");
                push_quantity(out, k);
                append_str(out, "</sub></abbr>");
            }
        },
        BasicType::Float => append_str(out, "<abbr title=\"Floating-point number\">R</abbr>"),
        BasicType::NonNegativeFloat => append_str(
            out,
            "<abbr title=\"Non-negative floating-point number\">R<sup>+</sup></abbr>",
        ),
        BasicType::ZeroOneRangeFloat => append_str(
            out,
            "<abbr title=\"Floating-point number in the range [0,1]\">R<sup>[0,1]</sup></abbr>",
        ),
        BasicType::FloatTuple { k } => {
            append_str(out, "<abbr title=\"");
            push_decimal(out, *k as u64);
            append_str(out, "-tuple of floating-point numbers\">R<sup>");
            push_decimal(out, *k as u64);
            append_str(out, "</sup></abbr>");
        },
        BasicType::KValuedFloat { k } => {
            append_str(out, "<abbr title=\"");
            push_decimal(out, *k as u64);
            append_str(out, "-valued floating-point number\">R<sub>");
            push_decimal(out, *k as u64);
            append_str(out, "</sub></abbr>");
        },
        BasicType::Position => append_str(out, "<abbr title=\"Position\">P</abbr>"),
        BasicType::Direction => append_str(out, "<abbr title=\"Direction\">D</abbr>"),
        BasicType::Matrix => append_str(
            out,
            "<abbr title=\"4 \u{d7} 4 floating-point matrix\">M<sup>4</sup></abbr>",
        ),
        BasicType::String => append_str(out, "<abbr title=\"Null-terminated string\">S</abbr>"),
        BasicType::Image => append_str(out, "<abbr title=\"Image\">I</abbr>"),
        BasicType::AttributeStackEntry => append_str(
            out,
            "<abbr title=\"Attribute stack entry\">A</abbr>",
        ),
        BasicType::Pointer => append_str(out, "<abbr title=\"Pointer\">Y</abbr>"),
        BasicType::Char => append_str(out, "<code>char</code>"),
    }
}

/// The markup of a basic type: its code, with its name as title.
pub fn print_basic_type(basic_type: &BasicType) -> (r: String)
    ensures
        r@ == spec_print_basic_type(basic_type.deep_view()),
{
    let mut out: Vec<char> = Vec::new();
    push_basic_type(&mut out, basic_type);
    to_string(out.as_slice())
}

// ---------------------------------------------------------------------------
// Types
// ---------------------------------------------------------------------------

/// `out` with a factor and the multiplication sign behind it. A quantity
/// that is a minimum has an asterisk; a factor that is kept as text is
/// code.
pub open spec fn spec_push_term(out: Seq<char>, term: TermModel) -> Seq<char> {
    match term {
        MaybeParsedModel::Parsed((q, minimum)) => {
            if minimum {
                spec_push_quantity(out, q) + "<abbr title=\"quantity is a minimum\">*</abbr>"@
                    + " \u{d7} "@
            } else {
                spec_push_quantity(out, q) + " \u{d7} "@
            }
        },
        MaybeParsedModel::Unparsed(text) => out + "<code>"@ + text + "</code>"@ + " \u{d7} "@,
    }
}

/// `out` with the factors from index `i` on behind it.
pub open spec fn spec_push_terms(out: Seq<char>, terms: Seq<TermModel>, i: int) -> Seq<char>
    decreases terms.len() - i,
{
    if 0 <= i < terms.len() {
        spec_push_terms(spec_push_term(out, terms[i]), terms, i + 1)
    } else {
        out
    }
}

/// `out` with the markup of a type behind it: its factors, each followed
/// by the multiplication sign, then its basic type.
pub open spec fn spec_push_type(out: Seq<char>, t: TypeModel) -> Seq<char> {
    spec_push_basic_type(spec_push_terms(out, t.quantity, 0), t.basic_type)
}

/// The markup of a type.
pub open spec fn spec_print_type(t: TypeModel) -> Seq<char> {
    spec_push_type(Seq::empty(), t)
}

/// Appends a factor and the multiplication sign.
fn push_term(out: &mut Vec<char>, term: &Term)
    ensures
        final(out)@ == spec_push_term(old(out)@, term.deep_view()),
{
    match term {
        MaybeParsed::Parsed(p) => {
            push_quantity(out, &p.0);
            if p.1 {
                append_str(out, "<abbr title=\"quantity is a minimum\">*</abbr>");
            }
        },
        MaybeParsed::Unparsed(text) => {
            append_str(out, "<code>");
            append_str(out, text.as_str());
            append_str(out, "</code>");
        },
    }
    append_str(out, " \u{d7} ");
}

/// Appends the markup of a type.
fn push_type(out: &mut Vec<char>, t: &Type)
    ensures
        final(out)@ == spec_push_type(old(out)@, t.deep_view()),
{
    let mut i: usize = 0;
    let ghost terms = t.quantity.deep_view();
    while i < t.quantity.len()
        invariant
            i <= t.quantity.len(),
            terms == t.quantity.deep_view(),
            spec_push_terms(out@, terms, i as int) == spec_push_terms(old(out)@, terms, 0),
        decreases t.quantity.len() - i,
    {
        assert(terms[i as int] == t.quantity[i as int].deep_view());
        push_term(out, &t.quantity[i]);
        i += 1;
    }
    push_basic_type(out, &t.basic_type);
}

/// The markup of a type: its factors, each followed by the multiplication
/// sign, then its basic type.
pub fn print_type(type_: &Type) -> (r: String)
    ensures
        r@ == spec_print_type(type_.deep_view()),
{
    let mut out: Vec<char> = Vec::new();
    push_type(&mut out, type_);
    to_string(out.as_slice())
}

// ---------------------------------------------------------------------------
// Footnotes
// ---------------------------------------------------------------------------

/// The sign of the footnote with the given index.
pub open spec fn spec_footnote_symbol(index: nat) -> Seq<char> {
    if index == 0 {
        "\u{2020}"@
    } else {
        "\u{2021}"@
    }
}

/// `out` with the name of a footnote behind it: the label of the table and
/// the index of the footnote.
pub open spec fn spec_push_footnote_name(out: Seq<char>, label: Seq<char>, index: nat) -> Seq<
    char,
> {
    out + label + "-fn-"@ + decimal_digits(index)
}

/// `out` with a reference to a footnote behind it.
pub open spec fn spec_push_reference(out: Seq<char>, label: Seq<char>, index: nat) -> Seq<char> {
    spec_push_footnote_name(out + "<sup><a href=\"#"@, label, index) + "\">"@
        + spec_footnote_symbol(index) + "</a></sup>"@
}

/// `out` with a reference to a footnote behind it, where there is one.
pub open spec fn spec_push_opt_reference(
    out: Seq<char>,
    label: Seq<char>,
    reference: Option<usize>,
) -> Seq<char> {
    match reference {
        Some(index) => spec_push_reference(out, label, index as nat),
        None => out,
    }
}

/// Appends the sign of a footnote.
fn push_footnote_symbol(out: &mut Vec<char>, index: usize)
    ensures
        final(out)@ == old(out)@ + spec_footnote_symbol(index as nat),
{
    if index == 0 {
        append_str(out, "\u{2020}");
    } else {
        append_str(out, "\u{2021}");
    }
}

/// Appends the name of a footnote.
fn push_footnote_name(out: &mut Vec<char>, label: &str, index: usize)
    ensures
        final(out)@ == spec_push_footnote_name(old(out)@, label@, index as nat),
{
    append_str(out, label);
    append_str(out, "-fn-");
    push_decimal(out, index as u64);
}

/// Appends a reference to a footnote, where there is one.
fn push_opt_reference(out: &mut Vec<char>, label: &str, reference: Option<usize>)
    ensures
        final(out)@ == spec_push_opt_reference(old(out)@, label@, reference),
{
    match reference {
        Some(index) => {
            append_str(out, "<sup><a href=\"#");
            push_footnote_name(out, label, index);
            append_str(out, "\">");
            push_footnote_symbol(out, index);
            append_str(out, "</a></sup>");
        },
        None => {},
    }
}

// ---------------------------------------------------------------------------
// The head of a table
// ---------------------------------------------------------------------------

/// The classes of the head of a table after the entries from index `i` on
/// have been looked at: for each condition that an entry stands under,
/// one class, added where the classes do not hold its name yet.
pub open spec fn spec_section_classes(classes: Seq<char>, entries: Seq<EntryModel>, i: int) -> Seq<
    char,
>
    decreases entries.len() - i,
{
    if 0 <= i < entries.len() {
        let class = spec_class_for_condition(entries[i].condition);
        if spec_contains(classes, class) {
            spec_section_classes(classes, entries, i + 1)
        } else {
            spec_section_classes(classes + " "@ + "has-"@ + class, entries, i + 1)
        }
    } else {
        classes
    }
}

/// `out` with the footnotes from index `i` on behind it, one list item
/// each.
pub open spec fn spec_push_footnotes(
    out: Seq<char>,
    label: Seq<char>,
    footnotes: Seq<Seq<char>>,
    i: int,
) -> Seq<char>
    decreases footnotes.len() - i,
{
    if 0 <= i < footnotes.len() {
        spec_push_footnotes(
            spec_push_footnote_name(out + "<li id=\""@, label, i as nat) + "\">"@
                + spec_footnote_symbol(i as nat) + " "@ + footnotes[i] + "</li>\n"@,
            label,
            footnotes,
            i + 1,
        )
    } else {
        out
    }
}

/// `out` with the caption behind it, where there is one.
pub open spec fn spec_push_caption(out: Seq<char>, caption: Option<Seq<char>>) -> Seq<char> {
    match caption {
        Some(c) => out + "<p>"@ + c + "</p>\n"@,
        None => out,
    }
}

/// `out` with the list of footnotes behind it, where there are any.
pub open spec fn spec_push_footnote_list(
    out: Seq<char>,
    label: Seq<char>,
    footnotes: Seq<Seq<char>>,
) -> Seq<char> {
    if footnotes.len() == 0 {
        out
    } else {
        spec_push_footnotes(out + "<ol>\n"@, label, footnotes, 0) + "</ol>\n"@
    }
}

/// `out` with the head of a table behind it: one row with the title, the
/// caption and the footnotes, whose classes say which conditions occur in
/// the table.
pub open spec fn spec_push_head(out: Seq<char>, table: TableModel) -> Seq<char> {
    spec_push_footnote_list(
        spec_push_caption(
            out + "<tr class=\""@ + spec_section_classes("section-header "@, table.entries, 0)
                + "\">\n"@ + "<td colspan=6>\n"@ + "<h2 name=\""@ + table.label + "\">"@
                + table.title + "</h2>\n"@,
            table.caption,
        ),
        table.label,
        table.footnotes,
    ) + "</td>\n"@ + "</tr>\n"@
}

/// The classes of the head of a table.
fn section_classes(entries: &Vec<Entry>) -> (classes: Vec<char>)
    ensures
        classes@ == spec_section_classes("section-header "@, entries.deep_view(), 0),
{
    let mut classes: Vec<char> = Vec::new();
    append_str(&mut classes, "section-header ");
    assert(classes@ =~= "section-header "@);
    let mut i: usize = 0;
    while i < entries.len()
        invariant
            i <= entries.len(),
            spec_section_classes(classes@, entries.deep_view(), i as int) == spec_section_classes(
                "section-header "@,
                entries.deep_view(),
                0,
            ),
        decreases entries.len() - i,
    {
        assert(entries.deep_view()[i as int] == entries[i as int].deep_view());
        let class = class_for_condition(&entries[i].condition);
        if !contains(classes.as_slice(), class) {
            append_str(&mut classes, " ");
            append_str(&mut classes, "has-");
            append_str(&mut classes, class);
        }
        i += 1;
    }
    classes
}

/// Appends the head of a table.
fn push_head(out: &mut Vec<char>, table: &Table)
    requires
        table.footnotes.len() <= 2,
    ensures
        final(out)@ == spec_push_head(old(out)@, table.deep_view()),
{
    let classes = section_classes(&table.entries);
    append_str(out, "<tr class=\"");
    crate::text::append(out, classes.as_slice());
    append_str(out, "\">\n");
    append_str(out, "<td colspan=6>\n");
    append_str(out, "<h2 name=\"");
    append_str(out, table.label.as_str());
    append_str(out, "\">");
    append_str(out, table.title.as_str());
    append_str(out, "</h2>\n");
    match &table.caption {
        Some(c) => {
            append_str(out, "<p>");
            append_str(out, c.as_str());
            append_str(out, "</p>\n");
        },
        None => {},
    }
    let ghost start = out@;
    let ghost footnotes = table.footnotes.deep_view();
    if table.footnotes.len() > 0 {
        append_str(out, "<ol>\n");
        let ghost listed = out@;
        let mut i: usize = 0;
        while i < table.footnotes.len()
            invariant
                i <= table.footnotes.len(),
                footnotes == table.footnotes.deep_view(),
                spec_push_footnotes(out@, table.label@, footnotes, i as int) == spec_push_footnotes(
                    listed,
                    table.label@,
                    footnotes,
                    0,
                ),
            decreases table.footnotes.len() - i,
        {
            assert(footnotes[i as int] == table.footnotes[i as int]@);
            append_str(out, "<li id=\"");
            push_footnote_name(out, table.label.as_str(), i);
            append_str(out, "\">");
            push_footnote_symbol(out, i);
            append_str(out, " ");
            append_str(out, table.footnotes[i].as_str());
            append_str(out, "</li>\n");
            i += 1;
        }
        append_str(out, "</ol>\n");
    }
    assert(out@ == spec_push_footnote_list(start, table.label@, footnotes));
    append_str(out, "</td>\n");
    append_str(out, "</tr>\n");
}

// ---------------------------------------------------------------------------
// The rows of a table
// ---------------------------------------------------------------------------

/// A dash for a field that is absent.
pub open spec fn dash() -> Seq<char> {
    "\u{2014}"@
}

/// `out` with the cell for the name of an entry behind it: the name, the
/// other name, and for the first of a series what the series holds.
pub open spec fn spec_push_name_cell(out: Seq<char>, e: EntryModel) -> Seq<char> {
    let out = out + "<td>"@;
    let out = match e.get_value {
        Some(name) => out + "<code>"@ + name + "</code>"@,
        None => out + dash(),
    };
    let out = match e.alt_get_value {
        Some(alt) => out + " <em>or</em><br> <code>"@ + alt + "</code>"@,
        None => out,
    };
    let out = match e.series {
        Some(q) => spec_push_quantity(
            out + " \u{2026}<br><code>"@ + e.get_value.unwrap()
                + "</code> + (<var>n</var>-1)<br>where <var>n</var> \u{2265} "@,
            q,
        ),
        None => out,
    };
    out + "</td>\n"@
}

/// `out` with the cell for the type of an entry behind it.
pub open spec fn spec_push_type_cell(out: Seq<char>, label: Seq<char>, e: EntryModel) -> Seq<char> {
    let out = out + "<td>"@;
    let out = if e.series is Some {
        out + "<var>n</var> \u{d7} "@
    } else {
        out
    };
    let out = match e.type_ {
        Some(MaybeParsedModel::Parsed(t)) => spec_push_type(out, t),
        Some(MaybeParsedModel::Unparsed(text)) => out + text,
        None => if e.type_footnote is None {
            out + dash()
        } else {
            out
        },
    };
    spec_push_opt_reference(out, label, e.type_footnote) + "</td>\n"@
}

/// `out` with the cell for a text that may be absent behind it.
pub open spec fn spec_push_opt_cell(out: Seq<char>, text: Option<Seq<char>>, code: bool) -> Seq<
    char,
> {
    match text {
        Some(t) => {
            if code {
                out + "<td><code>"@ + t + "</code></td>\n"@
            } else {
                out + "<td>"@ + t + "</td>\n"@
            }
        },
        None => out + "<td>"@ + dash() + "</td>\n"@,
    }
}

/// `out` with the cell for the initial value of an entry behind it.
pub open spec fn spec_push_value_cell(out: Seq<char>, label: Seq<char>, e: EntryModel) -> Seq<
    char,
> {
    let out = out + "<td>"@;
    let out = match e.initial_value {
        Some(v) => out + v,
        None => if e.initial_value_footnote is None {
            out + dash()
        } else {
            out
        },
    };
    spec_push_opt_reference(out, label, e.initial_value_footnote) + "</td>\n"@
}

/// `out` with the row of an entry behind it: its class says the condition
/// of the entry, and its cells hold the name, the type, the command, the
/// initial value, the description and the attribute.
pub open spec fn spec_push_entry_row(out: Seq<char>, label: Seq<char>, e: EntryModel) -> Seq<char> {
    let out = out + "<tr class="@ + spec_class_for_condition(e.condition) + ">\n"@;
    let out = spec_push_name_cell(out, e);
    let out = spec_push_type_cell(out, label, e);
    let out = spec_push_opt_cell(out, e.get_cmnd, true);
    let out = spec_push_value_cell(out, label, e);
    let out = spec_push_opt_reference(out + "<td>"@ + e.description, label, e.description_footnote)
        + "</td>\n"@;
    let out = spec_push_opt_cell(out, e.attribute, false);
    out + "</tr>\n"@
}

/// `out` with the rows of the entries from index `i` on behind it.
pub open spec fn spec_push_entry_rows(
    out: Seq<char>,
    label: Seq<char>,
    entries: Seq<EntryModel>,
    i: int,
) -> Seq<char>
    decreases entries.len() - i,
{
    if 0 <= i < entries.len() {
        spec_push_entry_rows(spec_push_entry_row(out, label, entries[i]), label, entries, i + 1)
    } else {
        out
    }
}

/// The markup of a table: its head, then one row for each entry.
pub open spec fn spec_print_table(table: TableModel) -> Seq<char> {
    spec_push_entry_rows(spec_push_head(Seq::empty(), table), table.label, table.entries, 0)
}

/// Whether an entry can be written out: it has a name where it is the
/// first of a series, and the footnotes that it refers to have a sign.
pub open spec fn printable_entry(e: EntryModel) -> bool {
    &&& e.series is Some ==> e.get_value is Some
    &&& crate::entry::footnote_in_range(e.type_footnote, 2)
    &&& crate::entry::footnote_in_range(e.initial_value_footnote, 2)
    &&& crate::entry::footnote_in_range(e.description_footnote, 2)
}

/// Whether a table can be written out.
pub open spec fn printable(table: TableModel) -> bool {
    &&& table.footnotes.len() <= 2
    &&& forall|i: int| 0 <= i < table.entries.len() ==> printable_entry(#[trigger] table.entries[i])
}

/// A sound table can be written out.
pub proof fn lemma_sound_is_printable(table: TableModel)
    requires
        table.wf(),
    ensures
        printable(table),
{
    assert forall|i: int| 0 <= i < table.entries.len() implies printable_entry(
        #[trigger] table.entries[i],
    ) by {
        assert(table.entries[i].wf(table.footnotes.len()));
    }
}

/// Whether a footnote reference has a sign.
fn reference_has_sign(reference: Option<usize>) -> (r: bool)
    ensures
        r == crate::entry::footnote_in_range(reference, 2),
{
    match reference {
        Some(index) => index < 2,
        None => true,
    }
}

/// Whether a table can be written out: it has no more footnotes than
/// there are signs, no entry refers to a footnote without a sign, and each
/// first of a series has a name.
pub fn is_printable(table: &Table) -> (r: bool)
    ensures
        r == printable(table.deep_view()),
{
    if table.footnotes.len() > 2 {
        return false;
    }
    let mut i: usize = 0;
    while i < table.entries.len()
        invariant
            i <= table.entries.len(),
            forall|k: int|
                0 <= k < i ==> printable_entry(#[trigger] table.entries.deep_view()[k]),
        decreases table.entries.len() - i,
    {
        let e = &table.entries[i];
        assert(table.entries.deep_view()[i as int] == e.deep_view());
        let ok = (e.series.is_none() || e.get_value.is_some()) && reference_has_sign(e.type_footnote) && reference_has_sign(e.initial_value_footnote)
            && reference_has_sign(e.description_footnote);
        if !ok {
            assert(!printable_entry(table.deep_view().entries[i as int]));
            return false;
        }
        i += 1;
    }
    true
}

/// Appends the cell for the name of an entry.
fn push_name_cell(out: &mut Vec<char>, e: &Entry)
    requires
        e.series is Some ==> e.get_value is Some,
    ensures
        final(out)@ == spec_push_name_cell(old(out)@, e.deep_view()),
{
    append_str(out, "<td>");
    match &e.get_value {
        Some(name) => {
            append_str(out, "<code>");
            append_str(out, name.as_str());
            append_str(out, "</code>");
        },
        None => append_str(out, "\u{2014}"),
    }
    match &e.alt_get_value {
        Some(alt) => {
            append_str(out, " <em>or</em><br> <code>");
            append_str(out, alt.as_str());
            append_str(out, "</code>");
        },
        None => {},
    }
    match &e.series {
        Some(q) => {
            append_str(out, " \u{2026}<br><code>");
            match &e.get_value {
                Some(name) => append_str(out, name.as_str()),
                None => {},
            }
            append_str(out, "</code> + (<var>n</var>-1)<br>where <var>n</var> \u{2265} ");
            push_quantity(out, q);
        },
        None => {},
    }
    append_str(out, "</td>\n");
}

/// Appends the cell for the type of an entry.
fn push_type_cell(out: &mut Vec<char>, label: &str, e: &Entry)
    ensures
        final(out)@ == spec_push_type_cell(old(out)@, label@, e.deep_view()),
{
    append_str(out, "<td>");
    if e.series.is_some() {
        append_str(out, "<var>n</var> \u{d7} ");
    }
    match &e.type_ {
        Some(MaybeParsed::Parsed(t)) => push_type(out, t),
        Some(MaybeParsed::Unparsed(text)) => append_str(out, text.as_str()),
        None => {
            if e.type_footnote.is_none() {
                append_str(out, "\u{2014}");
            }
        },
    }
    push_opt_reference(out, label, e.type_footnote);
    append_str(out, "</td>\n");
}

/// Appends the cell for a text that may be absent.
fn push_opt_cell(out: &mut Vec<char>, text: &Option<String>, code: bool)
    ensures
        final(out)@ == spec_push_opt_cell(old(out)@, text.deep_view(), code),
{
    match text {
        Some(t) => {
            if code {
                append_str(out, "<td><code>");
                append_str(out, t.as_str());
                append_str(out, "</code></td>\n");
            } else {
                append_str(out, "<td>");
                append_str(out, t.as_str());
                append_str(out, "</td>\n");
            }
        },
        None => {
            append_str(out, "<td>");
            append_str(out, "\u{2014}");
            append_str(out, "</td>\n");
        },
    }
}

/// Appends the cell for the initial value of an entry.
fn push_value_cell(out: &mut Vec<char>, label: &str, e: &Entry)
    ensures
        final(out)@ == spec_push_value_cell(old(out)@, label@, e.deep_view()),
{
    append_str(out, "<td>");
    match &e.initial_value {
        Some(v) => append_str(out, v.as_str()),
        None => {
            if e.initial_value_footnote.is_none() {
                append_str(out, "\u{2014}");
            }
        },
    }
    push_opt_reference(out, label, e.initial_value_footnote);
    append_str(out, "</td>\n");
}

/// Appends the row of an entry.
fn push_entry_row(out: &mut Vec<char>, label: &str, e: &Entry)
    requires
        e.series is Some ==> e.get_value is Some,
    ensures
        final(out)@ == spec_push_entry_row(old(out)@, label@, e.deep_view()),
{
    append_str(out, "<tr class=");
    append_str(out, class_for_condition(&e.condition));
    append_str(out, ">\n");
    push_name_cell(out, e);
    push_type_cell(out, label, e);
    push_opt_cell(out, &e.get_cmnd, true);
    push_value_cell(out, label, e);
    append_str(out, "<td>");
    append_str(out, e.description.as_str());
    push_opt_reference(out, label, e.description_footnote);
    append_str(out, "</td>\n");
    push_opt_cell(out, &e.attribute, false);
    append_str(out, "</tr>\n");
}

/// The markup of a table: a row for its head, with the title, the caption
/// and the footnotes, then one row for each entry.
pub fn print_table(table: &Table) -> (r: String)
    requires
        printable(table.deep_view()),
    ensures
        r@ == spec_print_table(table.deep_view()),
{
    let mut out: Vec<char> = Vec::new();
    assert(table.footnotes.deep_view().len() == table.footnotes.len());
    push_head(&mut out, table);
    let ghost head = out@;
    let ghost entries = table.entries.deep_view();
    let mut i: usize = 0;
    while i < table.entries.len()
        invariant
            i <= table.entries.len(),
            entries == table.entries.deep_view(),
            printable(table.deep_view()),
            spec_push_entry_rows(out@, table.label@, entries, i as int) == spec_push_entry_rows(
                head,
                table.label@,
                entries,
                0,
            ),
        decreases table.entries.len() - i,
    {
        assert(entries[i as int] == table.entries[i as int].deep_view());
        assert(printable_entry(table.deep_view().entries[i as int]));
        push_entry_row(&mut out, table.label.as_str(), &table.entries[i]);
        i += 1;
    }
    to_string(out.as_slice())
}

} // verus!
