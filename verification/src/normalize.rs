//! The normalisation of a row to which no expansion applies: from its raw
//! cells to an entry of the table.

use crate::entry::{
    extract_footnote_ref, footnote_in_range, spec_extract_footnote_ref, Entry, EntryModel,
};
use crate::error::ParseError;
use crate::row::{Dialect, RawRow, RawRowModel};
use crate::text::{
    append, append_str, is_text, replace_chars, spec_replace, spec_split_once,
    spec_strip_prefix, spec_strip_suffix, spec_trim, split_once, strip_prefix, strip_suffix,
    to_chars, to_string, to_vec, trim,
};
use crate::types::{
    is_inline_math, parse_quantity_chars, parse_type_chars, spec_is_inline_math,
    spec_parse_quantity, spec_parse_type, spec_unbraced, times, MaybeParsed, MaybeParsedModel,
    Quantity, QuantityModel, Type, TypeModel,
};
use crate::unescape::{spec_unescape, unescape};
use vstd::prelude::*;
use vstd::slice::slice_subrange;

verus! {

/// A named constant of a document: the macro that names it and the text
/// that it stands for.
#[derive(Debug)]
pub struct Constant {
    pub name: Vec<char>,
    pub value: Vec<char>,
}

/// What a `Constant` stands for.
pub struct ConstantModel {
    pub name: Seq<char>,
    pub value: Seq<char>,
}

impl DeepView for Constant {
    type V = ConstantModel;

    open spec fn deep_view(&self) -> ConstantModel {
        ConstantModel { name: self.name@, value: self.value@ }
    }
}

/// The text that an optional vector of characters holds.
pub open spec fn opt_text(o: Option<Vec<char>>) -> Option<Seq<char>> {
    match o {
        Some(v) => Some(v@),
        None => None,
    }
}

/// Whether a cell holds nothing but the dash that marks it as empty.
pub open spec fn spec_is_dash(s: Seq<char>) -> bool {
    s == "-"@ || s == "--"@
}

/// Whether a cell holds nothing but the dash that marks it as empty.
pub fn is_dash(s: &[char]) -> (r: bool)
    ensures
        r == spec_is_dash(s@),
{
    is_text(s, "-") || is_text(s, "--")
}

// ---------------------------------------------------------------------------
// The type cell
// ---------------------------------------------------------------------------

/// The type of a row as inline math. The first embedded document leaves the
/// delimiters out; elsewhere a dash between them says that there is no
/// type.
pub open spec fn spec_row_type(dialect: Dialect, type_: Seq<char>) -> Option<Seq<char>> {
    if dialect == Dialect::Es11 {
        Some("$"@ + type_ + "$"@)
    } else if type_ == "$-$"@ {
        None
    } else {
        Some(type_)
    }
}

/// The type of a row as inline math.
fn row_type(dialect: Dialect, type_: &[char]) -> (r: Option<Vec<char>>)
    ensures
        opt_text(r) == spec_row_type(dialect, type_@),
{
    if dialect == Dialect::Es11 {
        let mut out = to_chars("$");
        append(&mut out, type_);
        append_str(&mut out, "$");
        Some(out)
    } else if is_text(type_, "$-$") {
        None
    } else {
        Some(to_vec(type_))
    }
}

// ---------------------------------------------------------------------------
// The name
// ---------------------------------------------------------------------------

/// What the `get_value` of a row says, and the type that is left.
pub struct NameModel {
    pub get_value: Option<Seq<char>>,
    pub alt_get_value: Option<Seq<char>>,
    pub series: Option<QuantityModel>,
    pub type_: Option<Seq<char>>,
}

/// What the `get_value` of a row says, and the type that is left.
#[derive(Debug)]
pub struct Name {
    pub get_value: Option<Vec<char>>,
    pub alt_get_value: Option<Vec<char>>,
    pub series: Option<Quantity>,
    pub type_: Option<Vec<char>>,
}

impl DeepView for Name {
    type V = NameModel;

    open spec fn deep_view(&self) -> NameModel {
        NameModel {
            get_value: opt_text(self.get_value),
            alt_get_value: opt_text(self.alt_get_value),
            series: self.series.deep_view(),
            type_: opt_text(self.type_),
        }
    }
}

/// The least count of a series and the type of its members, read from the
/// type of the series: the first factor of that type, which stands behind
/// the opening delimiter, may stand in braces and ends in an asterisk, is
/// the count; the rest, behind a new opening delimiter, is the type.
pub open spec fn spec_series_count(type_: Seq<char>) -> Result<
    (QuantityModel, Seq<char>),
    ParseError,
> {
    match spec_split_once(type_, times()) {
        None => Err(ParseError::Malformed),
        Some((count, rest)) => match spec_strip_prefix(count, "$"@) {
            None => Err(ParseError::Malformed),
            Some(count) => match spec_strip_suffix(spec_unbraced(count), "*"@) {
                None => Err(ParseError::Malformed),
                Some(count) => match spec_parse_quantity(count) {
                    None => Err(ParseError::Malformed),
                    Some(q) => Ok((q, "$"@ + rest)),
                },
            },
        },
    }
}

/// What the plain `get_value` of a row says. A dash says that there is no
/// name. A name that ends in the index placeholder is the first of a
/// series: the placeholder becomes `0`, and the least count of the series
/// comes from the type. A name with a second name in brackets behind it
/// has that as its other name. Any other text is the name.
pub open spec fn spec_row_name(gv: Seq<char>, type_: Option<Seq<char>>) -> Result<
    NameModel,
    ParseError,
> {
    if spec_is_dash(gv) {
        Ok(NameModel { get_value: None, alt_get_value: None, series: None, type_ })
    } else {
        match spec_strip_suffix(gv, "$i$"@) {
            Some(prefix) => match type_ {
                None => Err(ParseError::Malformed),
                Some(t) => match spec_series_count(t) {
                    Err(e) => Err(e),
                    Ok((q, t)) => Ok(
                        NameModel {
                            get_value: Some(prefix + "0"@),
                            alt_get_value: None,
                            series: Some(q),
                            type_: Some(t),
                        },
                    ),
                },
            },
            None => match spec_split_once(gv, " \\hbox{("@) {
                Some((name, alt)) => match spec_strip_suffix(alt, ")}"@) {
                    None => Err(ParseError::Malformed),
                    Some(alt) => Ok(
                        NameModel {
                            get_value: Some(name),
                            alt_get_value: Some(alt),
                            series: None,
                            type_,
                        },
                    ),
                },
                None => Ok(
                    NameModel { get_value: Some(gv), alt_get_value: None, series: None, type_ },
                ),
            },
        }
    }
}

/// The view of a count and a type.
pub open spec fn count_view(r: Result<(Quantity, Vec<char>), ParseError>) -> Result<
    (QuantityModel, Seq<char>),
    ParseError,
> {
    match r {
        Ok((q, t)) => Ok((q.deep_view(), t@)),
        Err(e) => Err(e),
    }
}

/// Reads the least count of a series and the type of its members from the
/// type of the series.
fn series_count(type_: &[char]) -> (r: Result<(Quantity, Vec<char>), ParseError>)
    ensures
        count_view(r) == spec_series_count(type_@),
{
    match split_once(type_, " \\times ") {
        None => Err(ParseError::Malformed),
        Some((count, rest)) => match strip_prefix(count, "$") {
            None => Err(ParseError::Malformed),
            Some(count) => {
                let count = if count.len() >= 2 && count[0] == '{' && count[count.len() - 1]
                    == '}' {
                    slice_subrange(count, 1, count.len() - 1)
                } else {
                    count
                };
                match strip_suffix(count, "*") {
                    None => Err(ParseError::Malformed),
                    Some(count) => match parse_quantity_chars(count) {
                        None => Err(ParseError::Malformed),
                        Some(q) => {
                            let mut t = to_chars("$");
                            append(&mut t, rest);
                            Ok((q, t))
                        },
                    },
                }
            },
        },
    }
}

/// The view of a name that may have been refused.
pub open spec fn name_view(r: Result<Name, ParseError>) -> Result<NameModel, ParseError> {
    match r {
        Ok(n) => Ok(n.deep_view()),
        Err(e) => Err(e),
    }
}

/// Reads what the plain `get_value` of a row says.
fn row_name(gv: Vec<char>, type_: Option<Vec<char>>) -> (r: Result<Name, ParseError>)
    ensures
        name_view(r) == spec_row_name(gv@, opt_text(type_)),
{
    if is_dash(gv.as_slice()) {
        return Ok(Name { get_value: None, alt_get_value: None, series: None, type_ });
    }
    match strip_suffix(gv.as_slice(), "$i$") {
        Some(prefix) => match type_ {
            None => Err(ParseError::Malformed),
            Some(t) => match series_count(t.as_slice()) {
                Err(e) => Err(e),
                Ok((q, t)) => {
                    let mut first = to_vec(prefix);
                    append_str(&mut first, "0");
                    Ok(
                        Name {
                            get_value: Some(first),
                            alt_get_value: None,
                            series: Some(q),
                            type_: Some(t),
                        },
                    )
                },
            },
        },
        None => match split_once(gv.as_slice(), " \\hbox{(") {
            Some((name, alt)) => match strip_suffix(alt, ")}") {
                None => Err(ParseError::Malformed),
                Some(alt) => Ok(
                    Name {
                        get_value: Some(to_vec(name)),
                        alt_get_value: Some(to_vec(alt)),
                        series: None,
                        type_,
                    },
                ),
            },
            None => Ok(Name { get_value: Some(gv), alt_get_value: None, series: None, type_ }),
        },
    }
}

// ---------------------------------------------------------------------------
// The command
// ---------------------------------------------------------------------------

/// The one cell that names two commands.
pub open spec fn two_commands() -> Seq<char> {
    "\\vbox{\\hbox{{\\bf GetIntegerv},}\\hbox{\\bf GetFloatv}}"@
}

/// A command without the command macro around it, where it stands in
/// one.
pub open spec fn spec_unwrapped_command(get_cmnd: Seq<char>) -> Seq<char> {
    match spec_strip_prefix(get_cmnd, "\\glr{"@) {
        Some(c) => match spec_strip_suffix(c, "}"@) {
            Some(c) => c,
            None => get_cmnd,
        },
        None => get_cmnd,
    }
}

/// The command of a row, before it is made plain. The cell that names two
/// commands stands for the second of them, and is taken in the first
/// embedded document for the current colour only. A dash says that there is
/// no command. Any other cell is the command, without the command macro
/// around it where it stands in one.
pub open spec fn spec_raw_command(
    dialect: Dialect,
    get_cmnd: Seq<char>,
    get_value: Option<Seq<char>>,
) -> Result<Option<Seq<char>>, ParseError> {
    if get_cmnd == two_commands() {
        if dialect == Dialect::Es11 && get_value == Some("CURRENT_COLOR"@) {
            Ok(Some("GetFloatv"@))
        } else {
            Err(ParseError::Malformed)
        }
    } else if spec_is_dash(get_cmnd) {
        Ok(None)
    } else {
        Ok(Some(spec_unwrapped_command(get_cmnd)))
    }
}

/// A text made plain, where there is one.
pub open spec fn spec_unescape_opt(cell: Result<Option<Seq<char>>, ParseError>) -> Result<
    Option<Seq<char>>,
    ParseError,
> {
    match cell {
        Err(e) => Err(e),
        Ok(None) => Ok(None),
        Ok(Some(c)) => match spec_unescape(c) {
            None => Err(ParseError::UnbalancedSpan),
            Some(c) => Ok(Some(c)),
        },
    }
}

/// The command of a row, made plain.
pub open spec fn spec_row_command(
    dialect: Dialect,
    get_cmnd: Seq<char>,
    get_value: Option<Seq<char>>,
) -> Result<Option<Seq<char>>, ParseError> {
    spec_unescape_opt(spec_raw_command(dialect, get_cmnd, get_value))
}

/// The view of an optional text that may have been refused.
pub open spec fn opt_text_view(r: Result<Option<Vec<char>>, ParseError>) -> Result<
    Option<Seq<char>>,
    ParseError,
> {
    match r {
        Ok(o) => Ok(opt_text(o)),
        Err(e) => Err(e),
    }
}

/// Reads the command of a row.
fn row_command(dialect: Dialect, get_cmnd: &[char], get_value: &Option<Vec<char>>) -> (r: Result<
    Option<Vec<char>>,
    ParseError,
>)
    ensures
        opt_text_view(r) == spec_row_command(dialect, get_cmnd@, opt_text(*get_value)),
{
    let raw: Vec<char> = if is_text(
        get_cmnd,
        "\\vbox{\\hbox{{\\bf GetIntegerv},}\\hbox{\\bf GetFloatv}}",
    ) {
        let current = match get_value {
            Some(v) => is_text(v.as_slice(), "CURRENT_COLOR"),
            None => false,
        };
        if dialect == Dialect::Es11 && current {
            to_chars("GetFloatv")
        } else {
            return Err(ParseError::Malformed);
        }
    } else if is_dash(get_cmnd) {
        return Ok(None);
    } else {
        match strip_prefix(get_cmnd, "\\glr{") {
            None => to_vec(get_cmnd),
            Some(c) => match strip_suffix(c, "}") {
                None => to_vec(get_cmnd),
                Some(c) => to_vec(c),
            },
        }
    };
    match unescape(raw.as_slice()) {
        Ok(c) => Ok(Some(c)),
        Err(e) => Err(e),
    }
}

// ---------------------------------------------------------------------------
// The initial value
// ---------------------------------------------------------------------------

/// `s` with the named constants from index `i` on put in, one after the
/// other: each name gives way to its text wherever it occurs.
pub open spec fn spec_substitute_from(s: Seq<char>, constants: Seq<ConstantModel>, i: int) -> Seq<
    char,
>
    decreases constants.len() - i,
{
    if 0 <= i < constants.len() {
        spec_substitute_from(
            spec_replace(s, constants[i].name, constants[i].value),
            constants,
            i + 1,
        )
    } else {
        s
    }
}

/// `s` with the named constants put in, one after the other.
pub open spec fn spec_substitute(s: Seq<char>, constants: Seq<ConstantModel>) -> Seq<char> {
    spec_substitute_from(s, constants, 0)
}

/// The initial value of a row: none where the cell holds a dash, else the
/// plain text of the cell with the named constants put in.
pub open spec fn spec_row_initial_value(
    initial_value: Seq<char>,
    constants: Seq<ConstantModel>,
) -> Result<Option<Seq<char>>, ParseError> {
    if spec_is_dash(initial_value) {
        Ok(None)
    } else {
        match spec_unescape(initial_value) {
            None => Err(ParseError::UnbalancedSpan),
            Some(v) => Ok(Some(spec_substitute(v, constants))),
        }
    }
}

/// `s` with the named constants put in, one after the other.
pub fn substitute(s: Vec<char>, constants: &Vec<Constant>) -> (out: Vec<char>)
    ensures
        out@ == spec_substitute(s@, constants.deep_view()),
{
    let mut out = s;
    let mut i: usize = 0;
    while i < constants.len()
        invariant
            i <= constants.len(),
            spec_substitute_from(out@, constants.deep_view(), i as int) == spec_substitute(
                s@,
                constants.deep_view(),
            ),
        decreases constants.len() - i,
    {
        assert(constants.deep_view()[i as int] == constants[i as int].deep_view());
        out = replace_chars(
            out.as_slice(),
            constants[i].name.as_slice(),
            constants[i].value.as_slice(),
        );
        i += 1;
    }
    out
}

/// Reads the initial value of a row.
fn row_initial_value(initial_value: &[char], constants: &Vec<Constant>) -> (r: Result<
    Option<Vec<char>>,
    ParseError,
>)
    ensures
        opt_text_view(r) == spec_row_initial_value(initial_value@, constants.deep_view()),
{
    if is_dash(initial_value) {
        Ok(None)
    } else {
        match unescape(initial_value) {
            Err(e) => Err(e),
            Ok(v) => Ok(Some(substitute(v, constants))),
        }
    }
}

// ---------------------------------------------------------------------------
// The description
// ---------------------------------------------------------------------------

/// What the description of a row says: its text, the footnote it refers
/// to, and the footnotes of the table behind it.
pub struct DescriptionModel {
    pub text: Seq<char>,
    pub footnote: Option<usize>,
    pub footnotes: Seq<Seq<char>>,
}

/// What the description of a row says: its text, the footnote it refers
/// to, and the footnote that it defines.
#[derive(Debug)]
pub struct Description {
    pub text: Vec<char>,
    pub footnote: Option<usize>,
    pub definition: Option<Vec<char>>,
}

/// The footnotes of a table behind a description.
pub open spec fn footnotes_behind(footnotes: Seq<Seq<char>>, definition: Option<Vec<char>>) -> Seq<
    Seq<char>,
> {
    match definition {
        Some(note) => footnotes.push(note@),
        None => footnotes,
    }
}

/// A description split at the mark of the first footnote, where it holds
/// one: into its text and the text of the footnote.
pub open spec fn spec_footnote_definition(d: Seq<char>) -> Option<(Seq<char>, Seq<char>)> {
    match spec_split_once(d, "\\fn1"@) {
        Some(p) => Some(p),
        None => spec_split_once(d, "\\footnotemark[1]"@),
    }
}

/// What the description of a row says, in a table with `footnotes`. The
/// cell is made plain, and a reference to a footnote at its end is taken
/// off first; a description that is nothing but such a reference is
/// refused. What is left may define the first footnote of the table, which
/// is then taken out of the description and added to the table; that is
/// refused where the table has footnotes already.
pub open spec fn spec_row_description(description: Seq<char>, footnotes: Seq<Seq<char>>) -> Result<
    DescriptionModel,
    ParseError,
> {
    match spec_unescape(description) {
        None => Err(ParseError::UnbalancedSpan),
        Some(d) => match spec_extract_footnote_ref(d, footnotes.len()) {
            Err(e) => Err(e),
            Ok((None, footnote)) => Err(ParseError::Malformed),
            Ok((Some(d), footnote)) => match spec_footnote_definition(d) {
                Some((text, note)) => {
                    if footnotes.len() > 0 {
                        Err(ParseError::FootnoteConflict)
                    } else {
                        Ok(
                            DescriptionModel {
                                text: spec_trim(text),
                                footnote,
                                footnotes: footnotes.push(spec_trim(note)),
                            },
                        )
                    }
                },
                None => Ok(DescriptionModel { text: d, footnote, footnotes }),
            },
        },
    }
}

/// The view of a description in a table with `footnotes`.
pub open spec fn description_view(
    r: Result<Description, ParseError>,
    footnotes: Seq<Seq<char>>,
) -> Result<DescriptionModel, ParseError> {
    match r {
        Ok(d) => Ok(
            DescriptionModel {
                text: d.text@,
                footnote: d.footnote,
                footnotes: footnotes_behind(footnotes, d.definition),
            },
        ),
        Err(e) => Err(e),
    }
}

/// Reads the description of a row, in a table with the given footnotes.
fn row_description(description: &[char], footnotes: &Vec<String>) -> (r: Result<
    Description,
    ParseError,
>)
    ensures
        description_view(r, footnotes.deep_view()) == spec_row_description(
            description@,
            footnotes.deep_view(),
        ),
{
    let plain = match unescape(description) {
        Err(e) => {
            return Err(e);
        },
        Ok(d) => d,
    };
    let (d, footnote) = match extract_footnote_ref(plain.as_slice(), footnotes.len()) {
        Err(e) => {
            return Err(e);
        },
        Ok((None, _)) => {
            return Err(ParseError::Malformed);
        },
        Ok((Some(d), footnote)) => (d, footnote),
    };
    let definition = match split_once(d, "\\fn1") {
        Some(p) => Some(p),
        None => split_once(d, "\\footnotemark[1]"),
    };
    match definition {
        Some((text, note)) => {
            if footnotes.len() > 0 {
                Err(ParseError::FootnoteConflict)
            } else {
                Ok(
                    Description {
                        text: to_vec(trim(text)),
                        footnote,
                        definition: Some(to_vec(trim(note))),
                    },
                )
            }
        },
        None => Ok(Description { text: to_vec(d), footnote, definition: None }),
    }
}

// ---------------------------------------------------------------------------
// Footnote references and the parsed type
// ---------------------------------------------------------------------------

/// A cell that may be absent, split into what it says and the footnote it
/// refers to.
pub open spec fn spec_opt_footnote_ref(cell: Option<Seq<char>>, footnotes: nat) -> Result<
    (Option<Seq<char>>, Option<usize>),
    ParseError,
> {
    match cell {
        None => Ok((None, None)),
        Some(c) => spec_extract_footnote_ref(c, footnotes),
    }
}

/// The view of a cell split into text and footnote reference.
pub open spec fn opt_ref_view(r: Result<(Option<Vec<char>>, Option<usize>), ParseError>) -> Result<
    (Option<Seq<char>>, Option<usize>),
    ParseError,
> {
    match r {
        Ok((text, footnote)) => Ok((opt_text(text), footnote)),
        Err(e) => Err(e),
    }
}

/// Splits a cell that may be absent into what it says and the footnote it
/// refers to.
fn opt_footnote_ref(cell: &Option<Vec<char>>, footnotes: usize) -> (r: Result<
    (Option<Vec<char>>, Option<usize>),
    ParseError,
>)
    ensures
        opt_ref_view(r) == spec_opt_footnote_ref(opt_text(*cell), footnotes as nat),
{
    match cell {
        None => Ok((None, None)),
        Some(c) => match extract_footnote_ref(c.as_slice(), footnotes) {
            Err(e) => Err(e),
            Ok((Some(text), footnote)) => Ok((Some(to_vec(text)), footnote)),
            Ok((None, footnote)) => Ok((None, footnote)),
        },
    }
}

/// The type field of an entry: absent where the row has no type; else the
/// type that the text writes, or the text itself where it writes none. A
/// text that does not stand between inline-math delimiters is refused.
pub open spec fn spec_row_parsed_type(type_: Option<Seq<char>>) -> Result<
    Option<MaybeParsedModel<TypeModel>>,
    ParseError,
> {
    match type_ {
        None => Ok(None),
        Some(t) => {
            if !spec_is_inline_math(t) {
                Err(ParseError::Malformed)
            } else {
                match spec_parse_type(t) {
                    Some(parsed) => Ok(Some(MaybeParsedModel::Parsed(parsed))),
                    None => Ok(Some(MaybeParsedModel::Unparsed(t))),
                }
            }
        },
    }
}

/// The view of a type field that may have been refused.
pub open spec fn parsed_type_view(r: Result<Option<MaybeParsed<Type>>, ParseError>) -> Result<
    Option<MaybeParsedModel<TypeModel>>,
    ParseError,
> {
    match r {
        Ok(t) => Ok(t.deep_view()),
        Err(e) => Err(e),
    }
}

/// Reads the type field of an entry.
fn row_parsed_type(type_: &Option<Vec<char>>) -> (r: Result<Option<MaybeParsed<Type>>, ParseError>)
    ensures
        parsed_type_view(r) == spec_row_parsed_type(opt_text(*type_)),
{
    match type_ {
        None => Ok(None),
        Some(t) => {
            if !is_inline_math(t.as_slice()) {
                Err(ParseError::Malformed)
            } else {
                match parse_type_chars(t.as_slice()) {
                    Some(parsed) => Ok(Some(MaybeParsed::Parsed(parsed))),
                    None => Ok(Some(MaybeParsed::Unparsed(to_string(t.as_slice())))),
                }
            }
        },
    }
}

// ---------------------------------------------------------------------------
// The entry
// ---------------------------------------------------------------------------

/// The attribute group of a row: none where the cell holds a dash.
pub open spec fn spec_row_attribute(attribute: Seq<char>) -> Option<Seq<char>> {
    if spec_is_dash(attribute) {
        None
    } else {
        Some(attribute)
    }
}

/// The entry that a row to which no expansion applies stands for, and the
/// footnotes of the table behind it. `gv` is the plain text of the
/// `get_value`. The cells are read in this order: type and name, command,
/// initial value, description, the footnote references of initial value
/// and type, then the type itself; the first cell that is refused decides.
pub open spec fn spec_normalize(
    dialect: Dialect,
    row: RawRowModel,
    gv: Seq<char>,
    constants: Seq<ConstantModel>,
    footnotes: Seq<Seq<char>>,
) -> Result<(EntryModel, Seq<Seq<char>>), ParseError> {
    match spec_row_name(gv, spec_row_type(dialect, row.type_)) {
        Err(e) => Err(e),
        Ok(name) => match spec_row_command(dialect, row.get_cmnd, name.get_value) {
            Err(e) => Err(e),
            Ok(get_cmnd) => match spec_row_initial_value(row.initial_value, constants) {
                Err(e) => Err(e),
                Ok(initial_value) => match spec_row_description(row.description, footnotes) {
                    Err(e) => Err(e),
                    Ok(d) => match spec_opt_footnote_ref(initial_value, d.footnotes.len()) {
                        Err(e) => Err(e),
                        Ok((initial_value, initial_value_footnote)) => match spec_opt_footnote_ref(
                            name.type_,
                            d.footnotes.len(),
                        ) {
                            Err(e) => Err(e),
                            Ok((type_, type_footnote)) => match spec_row_parsed_type(type_) {
                                Err(e) => Err(e),
                                Ok(type_) => Ok(
                                    (
                                        EntryModel {
                                            condition: row.condition,
                                            get_value: name.get_value,
                                            alt_get_value: name.alt_get_value,
                                            series: name.series,
                                            type_,
                                            type_footnote,
                                            get_cmnd,
                                            initial_value,
                                            initial_value_footnote,
                                            description: d.text,
                                            description_footnote: d.footnote,
                                            attribute: spec_row_attribute(row.attribute),
                                        },
                                        d.footnotes,
                                    ),
                                ),
                            },
                        },
                    },
                },
            },
        },
    }
}

/// A footnote reference that a cell gives names a footnote of the table.
pub proof fn lemma_footnote_ref_in_range(cell: Seq<char>, footnotes: nat)
    ensures
        spec_extract_footnote_ref(cell, footnotes) matches Ok((text, reference))
            ==> footnote_in_range(reference, footnotes),
{
}

/// An entry that a row gives is sound for the table behind it: it is not
/// both the first of a series and known under another name, and each
/// footnote that it refers to is one of the table's. The table behind it
/// has the footnotes that it had, and at most one more, which is then its
/// first.
pub proof fn lemma_normalize_wf(
    dialect: Dialect,
    row: RawRowModel,
    gv: Seq<char>,
    constants: Seq<ConstantModel>,
    footnotes: Seq<Seq<char>>,
)
    ensures
        spec_normalize(dialect, row, gv, constants, footnotes) matches Ok((entry, behind)) ==> {
            &&& entry.wf(behind.len())
            &&& entry.condition == row.condition
            &&& (behind == footnotes || (footnotes.len() == 0 && behind.len() == 1))
        },
{
    if let Ok(name) = spec_row_name(gv, spec_row_type(dialect, row.type_)) {
        if let Ok(initial_value) = spec_row_initial_value(row.initial_value, constants) {
            if let Ok(d) = spec_row_description(row.description, footnotes) {
                let plain = spec_unescape(row.description).unwrap();
                lemma_footnote_ref_in_range(plain, footnotes.len());
                if let Some(v) = initial_value {
                    lemma_footnote_ref_in_range(v, d.footnotes.len());
                }
                if let Some(t) = name.type_ {
                    lemma_footnote_ref_in_range(t, d.footnotes.len());
                }
            }
        }
    }
}

/// The view of an entry and the footnote that its description defines, in
/// a table with `footnotes`.
pub open spec fn normalized_view(
    r: Result<(Entry, Option<Vec<char>>), ParseError>,
    footnotes: Seq<Seq<char>>,
) -> Result<(EntryModel, Seq<Seq<char>>), ParseError> {
    match r {
        Ok((entry, definition)) => Ok((entry.deep_view(), footnotes_behind(footnotes, definition))),
        Err(e) => Err(e),
    }
}

/// The string that holds an optional text.
fn opt_string(o: &Option<Vec<char>>) -> (r: Option<String>)
    ensures
        r.deep_view() == opt_text(*o),
{
    match o {
        Some(v) => Some(to_string(v.as_slice())),
        None => None,
    }
}

/// Makes the entry that a row to which no expansion applies stands for, in
/// a table with the given footnotes, and hands out with it the footnote
/// that the description defines.
pub fn normalize(
    dialect: Dialect,
    row: &RawRow,
    gv: Vec<char>,
    constants: &Vec<Constant>,
    footnotes: &Vec<String>,
) -> (r: Result<(Entry, Option<Vec<char>>), ParseError>)
    ensures
        normalized_view(r, footnotes.deep_view()) == spec_normalize(
            dialect,
            row.deep_view(),
            gv@,
            constants.deep_view(),
            footnotes.deep_view(),
        ),
{
    let type_ = row_type(dialect, row.type_.as_slice());
    let name = match row_name(gv, type_) {
        Err(e) => {
            return Err(e);
        },
        Ok(name) => name,
    };
    let get_cmnd = match row_command(dialect, row.get_cmnd.as_slice(), &name.get_value) {
        Err(e) => {
            return Err(e);
        },
        Ok(c) => c,
    };
    let initial_value = match row_initial_value(row.initial_value.as_slice(), constants) {
        Err(e) => {
            return Err(e);
        },
        Ok(v) => v,
    };
    let d = match row_description(row.description.as_slice(), footnotes) {
        Err(e) => {
            return Err(e);
        },
        Ok(d) => d,
    };
    let count: usize = match d.definition {
        Some(_) => 1,
        None => footnotes.len(),
    };
    assert(count == footnotes_behind(footnotes.deep_view(), d.definition).len());
    let (initial_value, initial_value_footnote) = match opt_footnote_ref(&initial_value, count) {
        Err(e) => {
            return Err(e);
        },
        Ok(p) => p,
    };
    let (type_, type_footnote) = match opt_footnote_ref(&name.type_, count) {
        Err(e) => {
            return Err(e);
        },
        Ok(p) => p,
    };
    let type_ = match row_parsed_type(&type_) {
        Err(e) => {
            return Err(e);
        },
        Ok(t) => t,
    };
    let attribute = if is_dash(row.attribute.as_slice()) {
        None
    } else {
        Some(to_string(row.attribute.as_slice()))
    };
    let entry = Entry {
        condition: row.condition,
        get_value: opt_string(&name.get_value),
        alt_get_value: opt_string(&name.alt_get_value),
        series: name.series,
        type_,
        type_footnote,
        get_cmnd: opt_string(&get_cmnd),
        initial_value: opt_string(&initial_value),
        initial_value_footnote,
        description: to_string(d.text.as_slice()),
        description_footnote: d.footnote,
        attribute,
    };
    Ok((entry, d.definition))
}

} // verus!
