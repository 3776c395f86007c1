//! Raw rows and their expansion: a row that stands for a family of state
//! variables gives way to one row for each member of the family.

use crate::cell::{read_group, spec_read_group};
use crate::entry::Condition;
use crate::error::ParseError;
use crate::number::{decimal_digits, push_decimal};
use crate::text::{
    append, append_str, contains, find, is_text, replace_chars, slices_view, spec_contains,
    spec_find, spec_replace, spec_split, spec_split_once, spec_strip_prefix, spec_trim,
    spec_without_prefix, spec_without_suffix, split, split_once, strip_prefix, texts, to_chars,
    to_vec, trim, without_prefix, without_suffix,
};
use crate::unescape::{spec_unescape, unescape};
use vstd::prelude::*;
use vstd::slice::slice_subrange;

verus! {

/// The three documents that share the macro dialect.
#[derive(Clone, Copy, Debug, PartialEq, Eq, Structural)]
pub enum Dialect {
    /// The desktop document, with three texture dimensions.
    Gl,
    /// The current embedded document.
    Es,
    /// The first embedded document, with eight cells to a row and the whole
    /// type in inline math without delimiters.
    Es11,
}

/// A row as the document has it: the condition it stands under and its
/// cells, not yet expanded or normalised.
#[derive(Debug)]
pub struct RawRow {
    pub condition: Option<Condition>,
    pub get_value: Vec<char>,
    pub type_: Vec<char>,
    pub get_cmnd: Vec<char>,
    pub initial_value: Vec<char>,
    pub description: Vec<char>,
    pub section: Vec<char>,
    pub attribute: Vec<char>,
}

/// What a `RawRow` stands for.
pub struct RawRowModel {
    pub condition: Option<Condition>,
    pub get_value: Seq<char>,
    pub type_: Seq<char>,
    pub get_cmnd: Seq<char>,
    pub initial_value: Seq<char>,
    pub description: Seq<char>,
    pub section: Seq<char>,
    pub attribute: Seq<char>,
}

impl DeepView for RawRow {
    type V = RawRowModel;

    open spec fn deep_view(&self) -> RawRowModel {
        RawRowModel {
            condition: self.condition,
            get_value: self.get_value@,
            type_: self.type_@,
            get_cmnd: self.get_cmnd@,
            initial_value: self.initial_value@,
            description: self.description@,
            section: self.section@,
            attribute: self.attribute@,
        }
    }
}

/// What the expansion makes of a row.
pub enum Expansion {
    /// The row gives way to these rows, in this order.
    Rows(Seq<RawRowModel>),
    /// No rule applies: the row stands as it is, with this as the plain
    /// text of its `get_value`.
    Plain(Seq<char>),
    /// The row cannot be read.
    Fail(ParseError),
}

/// What the expansion makes of a row that can be read.
#[derive(Debug)]
pub enum Expanded {
    /// The row gives way to these rows, in this order.
    Rows(Vec<RawRow>),
    /// No rule applies: the row stands as it is, with this as the plain
    /// text of its `get_value`.
    Plain(Vec<char>),
}

/// What a rule that was tried on a row has come to.
pub open spec fn rule_view(r: Option<Result<Vec<RawRow>, ParseError>>) -> Option<Expansion> {
    match r {
        None => None,
        Some(Ok(rows)) => Some(Expansion::Rows(rows.deep_view())),
        Some(Err(e)) => Some(Expansion::Fail(e)),
    }
}

// ---------------------------------------------------------------------------
// Building rows
// ---------------------------------------------------------------------------

/// The placeholder for the member of a family.
pub open spec fn placeholder() -> Seq<char> {
    "$x$"@
}

/// `type_` without the factor `by` in front.
pub open spec fn spec_divide(type_: Seq<char>, by: nat) -> Seq<char> {
    spec_replace(type_, decimal_digits(by) + " \\times "@, Seq::empty())
}

/// The row for one member of a family: `name` takes the place of the
/// placeholder in `get_value`, and in the description where `fill` is set.
pub open spec fn spec_instance(
    row: RawRowModel,
    get_value: Seq<char>,
    name: Seq<char>,
    type_: Seq<char>,
    description: Seq<char>,
    fill: bool,
) -> RawRowModel {
    RawRowModel {
        get_value: spec_replace(get_value, placeholder(), name),
        type_,
        description: if fill {
            spec_replace(description, placeholder(), name)
        } else {
            description
        },
        ..row
    }
}

/// One row for each of `names`, in their order.
pub open spec fn spec_instances(
    row: RawRowModel,
    get_value: Seq<char>,
    names: Seq<Seq<char>>,
    type_: Seq<char>,
    description: Seq<char>,
    fill: bool,
) -> Seq<RawRowModel> {
    Seq::new(
        names.len(),
        |i: int| spec_instance(row, get_value, names[i], type_, description, fill),
    )
}

/// `type_` without the factor `by` in front.
pub fn divide(type_: &[char], by: usize) -> (out: Vec<char>)
    ensures
        out@ == spec_divide(type_@, by as nat),
{
    let mut pat: Vec<char> = Vec::new();
    push_decimal(&mut pat, by as u64);
    append_str(&mut pat, " \\times ");
    let empty: Vec<char> = Vec::new();
    assert(pat@ == decimal_digits(by as nat) + " \\times "@);
    replace_chars(type_, pat.as_slice(), empty.as_slice())
}

/// A copy of `row` under `condition` with another description.
fn with_description(row: &RawRow, condition: Option<Condition>, description: Vec<char>) -> (r:
    RawRow)
    ensures
        r.deep_view() == (RawRowModel { condition, description: description@, ..row.deep_view() }),
{
    RawRow {
        condition,
        get_value: to_vec(row.get_value.as_slice()),
        type_: to_vec(row.type_.as_slice()),
        get_cmnd: to_vec(row.get_cmnd.as_slice()),
        initial_value: to_vec(row.initial_value.as_slice()),
        description,
        section: to_vec(row.section.as_slice()),
        attribute: to_vec(row.attribute.as_slice()),
    }
}

/// The row for one member of a family.
fn instance(
    row: &RawRow,
    get_value: &[char],
    name: &[char],
    type_: &[char],
    description: &[char],
    fill: bool,
) -> (r: RawRow)
    ensures
        r.deep_view() == spec_instance(
            row.deep_view(),
            get_value@,
            name@,
            type_@,
            description@,
            fill,
        ),
{
    let x = to_chars("$x$");
    let description = if fill {
        replace_chars(description, x.as_slice(), name)
    } else {
        to_vec(description)
    };
    RawRow {
        condition: row.condition,
        get_value: replace_chars(get_value, x.as_slice(), name),
        type_: to_vec(type_),
        get_cmnd: to_vec(row.get_cmnd.as_slice()),
        initial_value: to_vec(row.initial_value.as_slice()),
        description,
        section: to_vec(row.section.as_slice()),
        attribute: to_vec(row.attribute.as_slice()),
    }
}

/// One row for each of `names`, in their order.
fn instances(
    row: &RawRow,
    get_value: &[char],
    names: &Vec<Vec<char>>,
    type_: &[char],
    description: &[char],
    fill: bool,
) -> (rows: Vec<RawRow>)
    ensures
        rows.deep_view() == spec_instances(
            row.deep_view(),
            get_value@,
            texts(names@),
            type_@,
            description@,
            fill,
        ),
{
    let mut rows: Vec<RawRow> = Vec::new();
    let mut i: usize = 0;
    let ghost all = spec_instances(
        row.deep_view(),
        get_value@,
        texts(names@),
        type_@,
        description@,
        fill,
    );
    assert(rows.deep_view() =~= all.take(0));
    while i < names.len()
        invariant
            i <= names.len(),
            all == spec_instances(
                row.deep_view(),
                get_value@,
                texts(names@),
                type_@,
                description@,
                fill,
            ),
            rows.deep_view() == all.take(i as int),
        decreases names.len() - i,
    {
        let ghost before = rows.deep_view();
        let r = instance(row, get_value, names[i].as_slice(), type_, description, fill);
        rows.push(r);
        assert(rows.deep_view() =~= before.push(r.deep_view()));
        assert(before.push(all[i as int]) =~= all.take(i + 1));
        i += 1;
    }
    assert(all.take(names.len() as int) =~= all);
    rows
}

// ---------------------------------------------------------------------------
// The families
// ---------------------------------------------------------------------------

/// The texture dimensions of a document.
pub open spec fn spec_dimensions(dialect: Dialect) -> Seq<Seq<char>> {
    if dialect == Dialect::Gl {
        seq!["1"@, "2"@, "3"@]
    } else {
        seq!["2"@, "3"@]
    }
}

/// The colour components that have a bias and a scale.
pub open spec fn spec_components() -> Seq<Seq<char>> {
    seq!["RED"@, "GREEN"@, "BLUE"@, "ALPHA"@]
}

/// The pixel maps that map to colour components.
pub open spec fn spec_rgba_maps() -> Seq<Seq<char>> {
    seq![
        "PIXEL_MAP_I_TO_R"@,
        "PIXEL_MAP_I_TO_G"@,
        "PIXEL_MAP_I_TO_B"@,
        "PIXEL_MAP_I_TO_A"@,
        "PIXEL_MAP_R_TO_R"@,
        "PIXEL_MAP_G_TO_G"@,
        "PIXEL_MAP_B_TO_B"@,
        "PIXEL_MAP_A_TO_A"@,
    ]
}

/// The pixel maps that map to indices.
pub open spec fn spec_index_maps() -> Seq<Seq<char>> {
    seq!["PIXEL_MAP_I_TO_I"@, "PIXEL_MAP_S_TO_S"@]
}

/// The targets of the evaluators.
pub open spec fn spec_map_targets() -> Seq<Seq<char>> {
    seq![
        "VERTEX_3"@,
        "VERTEX_4"@,
        "INDEX"@,
        "COLOR_4"@,
        "NORMAL"@,
        "TEXTURE_COORD_1"@,
        "TEXTURE_COORD_2"@,
        "TEXTURE_COORD_3"@,
        "TEXTURE_COORD_4"@,
    ]
}

/// Appends the characters of `name` to `names` as one more text.
fn push_name(names: &mut Vec<Vec<char>>, name: &str)
    ensures
        texts(final(names)@) == texts(old(names)@).push(name@),
{
    names.push(to_chars(name));
    assert(texts(names@) =~= texts(old(names)@).push(name@));
}

/// The texture dimensions of a document.
fn dimensions(dialect: Dialect) -> (names: Vec<Vec<char>>)
    ensures
        texts(names@) == spec_dimensions(dialect),
{
    let mut names: Vec<Vec<char>> = Vec::new();
    assert(texts(names@) =~= Seq::<Seq<char>>::empty());
    if dialect == Dialect::Gl {
        push_name(&mut names, "1");
    }
    push_name(&mut names, "2");
    push_name(&mut names, "3");
    assert(texts(names@) =~= spec_dimensions(dialect));
    names
}

/// The colour components that have a bias and a scale.
fn components() -> (names: Vec<Vec<char>>)
    ensures
        texts(names@) == spec_components(),
{
    let mut names: Vec<Vec<char>> = Vec::new();
    assert(texts(names@) =~= Seq::<Seq<char>>::empty());
    push_name(&mut names, "RED");
    push_name(&mut names, "GREEN");
    push_name(&mut names, "BLUE");
    push_name(&mut names, "ALPHA");
    assert(texts(names@) =~= spec_components());
    names
}

/// Appends the pixel maps that map to colour components.
fn push_rgba_maps(names: &mut Vec<Vec<char>>)
    ensures
        texts(final(names)@) == texts(old(names)@) + spec_rgba_maps(),
{
    push_name(names, "PIXEL_MAP_I_TO_R");
    push_name(names, "PIXEL_MAP_I_TO_G");
    push_name(names, "PIXEL_MAP_I_TO_B");
    push_name(names, "PIXEL_MAP_I_TO_A");
    push_name(names, "PIXEL_MAP_R_TO_R");
    push_name(names, "PIXEL_MAP_G_TO_G");
    push_name(names, "PIXEL_MAP_B_TO_B");
    push_name(names, "PIXEL_MAP_A_TO_A");
    assert(texts(names@) =~= texts(old(names)@) + spec_rgba_maps());
}

/// Appends the pixel maps that map to indices.
fn push_index_maps(names: &mut Vec<Vec<char>>)
    ensures
        texts(final(names)@) == texts(old(names)@) + spec_index_maps(),
{
    push_name(names, "PIXEL_MAP_I_TO_I");
    push_name(names, "PIXEL_MAP_S_TO_S");
    assert(texts(names@) =~= texts(old(names)@) + spec_index_maps());
}

/// The targets of the evaluators.
fn map_targets() -> (names: Vec<Vec<char>>)
    ensures
        texts(names@) == spec_map_targets(),
{
    let mut names: Vec<Vec<char>> = Vec::new();
    assert(texts(names@) =~= Seq::<Seq<char>>::empty());
    push_name(&mut names, "VERTEX_3");
    push_name(&mut names, "VERTEX_4");
    push_name(&mut names, "INDEX");
    push_name(&mut names, "COLOR_4");
    push_name(&mut names, "NORMAL");
    push_name(&mut names, "TEXTURE_COORD_1");
    push_name(&mut names, "TEXTURE_COORD_2");
    push_name(&mut names, "TEXTURE_COORD_3");
    push_name(&mut names, "TEXTURE_COORD_4");
    assert(texts(names@) =~= spec_map_targets());
    names
}

// ---------------------------------------------------------------------------
// The rules
// ---------------------------------------------------------------------------

/// The text in front of the first occurrence of `pat` in `s`, or `s` itself
/// where `pat` does not occur.
pub open spec fn spec_before(s: Seq<char>, pat: Seq<char>) -> Seq<char> {
    match spec_split_once(s, pat) {
        Some((before, after)) => before,
        None => s,
    }
}

/// The rule for a description with a deprecation-conditional span. Such a
/// row gives way to a row for the compatibility profile, which keeps the
/// text of the span, and a row for the core profile, which loses it. A row
/// that stands under one of the two conditions already gives way to the row
/// for that condition alone. Under the imaging-subset condition the row is
/// refused.
pub open spec fn spec_rule_deprecation(row: RawRowModel) -> Option<Expansion> {
    let d = row.description;
    match spec_find(d, "\\dep{"@) {
        None => None,
        Some(i) => Some(
            match spec_read_group(d.subrange(i + "\\dep"@.len(), d.len() as int)) {
                None => Expansion::Fail(ParseError::UnbalancedSpan),
                Some((inner, rest)) => {
                    let kept = RawRowModel {
                        condition: Some(Condition::Compatibility),
                        description: d.subrange(0, i) + inner + rest,
                        ..row
                    };
                    let removed = RawRowModel {
                        condition: Some(Condition::Core),
                        description: d.subrange(0, i) + rest,
                        ..row
                    };
                    match row.condition {
                        Some(Condition::Compatibility) => Expansion::Rows(seq![kept]),
                        Some(Condition::Core) => Expansion::Rows(seq![removed]),
                        Some(Condition::ImagingSubset) => Expansion::Fail(
                            ParseError::UnsupportedCondition,
                        ),
                        None => Expansion::Rows(seq![kept, removed]),
                    }
                },
            },
        ),
    }
}

/// The rule for a `get_value` with a dimension placeholder: one row for
/// each texture dimension of the document, with the number of dimensions
/// taken from the front of the type and the list of dimensions taken from
/// the end of the description.
pub open spec fn spec_rule_dimension(dialect: Dialect, row: RawRowModel, gv: Seq<char>) -> Option<
    Expansion,
> {
    if spec_contains(gv, "$x$D"@) {
        let names = spec_dimensions(dialect);
        Some(
            Expansion::Rows(
                spec_instances(
                    row,
                    gv,
                    names,
                    spec_divide(row.type_, names.len()),
                    spec_before(row.description, "; $x$ is"@),
                    true,
                ),
            ),
        )
    } else {
        None
    }
}

/// The rule for the bias and scale of the pixel transfer: one row for each
/// colour component.
pub open spec fn spec_rule_components(row: RawRowModel, gv: Seq<char>) -> Option<Expansion> {
    if row.section == "\\ref{pix:xfer}"@ && (spec_contains(gv, "$x$_BIAS"@) || spec_contains(
        gv,
        "$x$_SCALE"@,
    )) && !spec_contains(row.description, ","@) {
        Some(
            Expansion::Rows(
                spec_instances(row, gv, spec_components(), row.type_, row.description, true),
            ),
        )
    } else {
        None
    }
}

/// The rule for the pixel maps: one row for each map of the kind that the
/// description speaks of, with the number of maps taken from the front of
/// the type and the explanation taken from the end of the description. A
/// description that names no kind, or has no explanation, is refused.
pub open spec fn spec_rule_pixel_maps(row: RawRowModel, gv: Seq<char>) -> Option<Expansion> {
    if row.section == "\\ref{pix:xfer}"@ && gv == placeholder() && spec_contains(
        row.get_cmnd,
        "GetPixelMap"@,
    ) {
        let rgba = spec_contains(row.description, "RGBA"@);
        let names = if rgba {
            spec_rgba_maps()
        } else {
            spec_index_maps()
        };
        Some(
            if !rgba && !spec_contains(row.description, "Index"@) {
                Expansion::Fail(ParseError::Malformed)
            } else {
                match spec_split_once(row.description, "s; $x$ is"@) {
                    None => Expansion::Fail(ParseError::Malformed),
                    Some((before, after)) => Expansion::Rows(
                        spec_instances(
                            row,
                            gv,
                            names,
                            spec_divide(row.type_, names.len()),
                            before,
                            false,
                        ),
                    ),
                }
            },
        )
    } else {
        None
    }
}

/// The rule for the sizes of the pixel maps: one row for each map of
/// either kind.
pub open spec fn spec_rule_pixel_map_sizes(row: RawRowModel, gv: Seq<char>) -> Option<Expansion> {
    if row.section == "\\ref{pix:xfer}"@ && gv == "$x$_SIZE"@ && spec_contains(
        row.get_cmnd,
        "GetIntegerv"@,
    ) {
        Some(
            Expansion::Rows(
                spec_instances(
                    row,
                    gv,
                    spec_rgba_maps() + spec_index_maps(),
                    row.type_,
                    row.description,
                    true,
                ),
            ),
        )
    } else {
        None
    }
}

/// The rule for the enables of the evaluators: one row for each target,
/// with the number of targets taken from the front of the type and the
/// explanation taken from the end of the description. A description
/// without the explanation is refused.
pub open spec fn spec_rule_map_targets(row: RawRowModel, gv: Seq<char>) -> Option<Expansion> {
    if (gv == "MAP1_$x$"@ || gv == "MAP2_$x$"@) && row.get_cmnd == "\\glr{IsEnabled}"@ {
        let names = spec_map_targets();
        Some(
            match spec_split_once(row.description, "s: $x$ is"@) {
                None => Expansion::Fail(ParseError::Malformed),
                Some((before, after)) => Expansion::Rows(
                    spec_instances(
                        row,
                        gv,
                        names,
                        spec_divide(row.type_, names.len()),
                        before,
                        false,
                    ),
                ),
            },
        )
    } else {
        None
    }
}

/// A description split where it begins to list what the placeholder
/// stands for: at the first of the known openings of such a list that
/// occurs in it.
pub open spec fn spec_choice_split(d: Seq<char>) -> Option<(Seq<char>, Seq<char>)> {
    match spec_split_once(d, "; $x$ is one of "@) {
        Some(p) => Some(p),
        None => match spec_split_once(d, ";\n$x$ is one of "@) {
            Some(p) => Some(p),
            None => match spec_split_once(d, ".    $x$ is one of "@) {
                Some(p) => Some(p),
                None => match spec_split_once(d, ". $x$ is one of "@) {
                    Some(p) => Some(p),
                    None => match spec_split_once(d, "; $x$ is "@) {
                        Some(p) => Some(p),
                        None => spec_split_once(d, " ($x$ is "@),
                    },
                },
            },
        },
    }
}

/// The name that one piece of such a list gives: the piece without the
/// white space around it, without `or ` and the opening of a constant
/// macro in front, and without the close of the macro behind.
pub open spec fn spec_choice_name(piece: Seq<char>) -> Seq<char> {
    spec_without_suffix(
        spec_without_prefix(spec_without_prefix(spec_trim(piece), "or "@), "\\glc{"@),
        "}"@,
    )
}

/// The names that such a list gives, one for each of its pieces between
/// commas. A closing bracket at the end of the list does not count.
pub open spec fn spec_choice_names(list: Seq<char>) -> Seq<Seq<char>> {
    let pieces = spec_split(spec_without_suffix(list, ")"@), ',');
    Seq::new(pieces.len(), |i: int| spec_choice_name(pieces[i]))
}

/// The type of the rows that a list of `count` names gives: the type of
/// the row without the base-format factor where it begins with it, else
/// without the factor `count`.
pub open spec fn spec_choice_type(type_: Seq<char>, count: nat) -> Seq<char> {
    match spec_strip_prefix(type_, "$\\mtexbasefmt \\times "@) {
        Some(rest) => "$"@ + rest,
        None => spec_divide(type_, count),
    }
}

/// The rule for a `get_value` with a placeholder whose description lists,
/// with commas, what the placeholder stands for: one row for each name of
/// the list.
pub open spec fn spec_rule_choices(row: RawRowModel, gv: Seq<char>) -> Option<Expansion> {
    if spec_contains(gv, placeholder()) {
        match spec_choice_split(row.description) {
            Some((before, list)) => {
                if spec_contains(list, ","@) {
                    let names = spec_choice_names(list);
                    Some(
                        Expansion::Rows(
                            spec_instances(
                                row,
                                gv,
                                names,
                                spec_choice_type(row.type_, names.len()),
                                before,
                                true,
                            ),
                        ),
                    )
                } else {
                    None
                }
            },
            None => None,
        }
    } else {
        None
    }
}

/// What the rules that read the plain text `gv` of the `get_value` make of
/// a row: the first of them that applies decides.
pub open spec fn spec_expand_value(dialect: Dialect, row: RawRowModel, gv: Seq<char>) -> Expansion {
    match spec_rule_dimension(dialect, row, gv) {
        Some(x) => x,
        None => match spec_rule_components(row, gv) {
            Some(x) => x,
            None => match spec_rule_pixel_maps(row, gv) {
                Some(x) => x,
                None => match spec_rule_pixel_map_sizes(row, gv) {
                    Some(x) => x,
                    None => match spec_rule_map_targets(row, gv) {
                        Some(x) => x,
                        None => match spec_rule_choices(row, gv) {
                            Some(x) => x,
                            None => Expansion::Plain(gv),
                        },
                    },
                },
            },
        },
    }
}

/// What the expansion makes of a row. The rule for deprecation-conditional
/// descriptions comes first. Then the `get_value` is made plain, and the
/// rules that read it follow in their order; the first rule that applies
/// decides, and a row to which none applies stands as it is.
pub open spec fn spec_expand(dialect: Dialect, row: RawRowModel) -> Expansion {
    match spec_rule_deprecation(row) {
        Some(x) => x,
        None => match spec_unescape(row.get_value) {
            None => Expansion::Fail(ParseError::UnbalancedSpan),
            Some(gv) => spec_expand_value(dialect, row, gv),
        },
    }
}

/// Tries the rule for deprecation-conditional descriptions.
fn rule_deprecation(row: &RawRow) -> (r: Option<Result<Vec<RawRow>, ParseError>>)
    ensures
        rule_view(r) == spec_rule_deprecation(row.deep_view()),
{
    let d = row.description.as_slice();
    proof {
        reveal_strlit("\\dep{");
        reveal_strlit("\\dep");
    }
    match find(d, "\\dep{") {
        None => None,
        Some(i) => {
            assert(i + "\\dep{"@.len() <= d@.len());
            assert(d@.len() == d.len());
            match read_group(slice_subrange(d, i + 4, d.len())) {
                Err(e) => Some(Err(e)),
                Ok((inner, rest)) => {
                    let mut kept = to_vec(slice_subrange(d, 0, i));
                    append(&mut kept, inner);
                    append(&mut kept, rest);
                    let mut removed = to_vec(slice_subrange(d, 0, i));
                    append(&mut removed, rest);
                    let mut rows: Vec<RawRow> = Vec::new();
                    match row.condition {
                        Some(Condition::Compatibility) => {
                            let k = with_description(row, Some(Condition::Compatibility), kept);
                            rows.push(k);
                            assert(rows.deep_view() =~= seq![k.deep_view()]);
                        },
                        Some(Condition::Core) => {
                            let c = with_description(row, Some(Condition::Core), removed);
                            rows.push(c);
                            assert(rows.deep_view() =~= seq![c.deep_view()]);
                        },
                        Some(Condition::ImagingSubset) => {
                            return Some(Err(ParseError::UnsupportedCondition));
                        },
                        None => {
                            let k = with_description(row, Some(Condition::Compatibility), kept);
                            let c = with_description(row, Some(Condition::Core), removed);
                            rows.push(k);
                            rows.push(c);
                            assert(rows.deep_view() =~= seq![k.deep_view(), c.deep_view()]);
                        },
                    }
                    Some(Ok(rows))
                },
            }
        },
    }
}

/// The text in front of the first occurrence of `pat` in `s`, or `s` itself.
fn before<'a>(s: &'a [char], pat: &str) -> (r: &'a [char])
    ensures
        r@ == spec_before(s@, pat@),
{
    match split_once(s, pat) {
        Some((b, _)) => b,
        None => s,
    }
}

/// Tries the rule for dimension placeholders.
fn rule_dimension(dialect: Dialect, row: &RawRow, gv: &[char]) -> (r: Option<
    Result<Vec<RawRow>, ParseError>,
>)
    ensures
        rule_view(r) == spec_rule_dimension(dialect, row.deep_view(), gv@),
{
    if contains(gv, "$x$D") {
        let names = dimensions(dialect);
        let type_ = divide(row.type_.as_slice(), names.len());
        let description = before(row.description.as_slice(), "; $x$ is");
        Some(Ok(instances(row, gv, &names, type_.as_slice(), description, true)))
    } else {
        None
    }
}

/// Tries the rule for the bias and scale of the pixel transfer.
fn rule_components(row: &RawRow, gv: &[char]) -> (r: Option<Result<Vec<RawRow>, ParseError>>)
    ensures
        rule_view(r) == spec_rule_components(row.deep_view(), gv@),
{
    if is_text(row.section.as_slice(), "\\ref{pix:xfer}") && (contains(gv, "$x$_BIAS") || contains(
        gv,
        "$x$_SCALE",
    )) && !contains(row.description.as_slice(), ",") {
        let names = components();
        Some(
            Ok(
                instances(
                    row,
                    gv,
                    &names,
                    row.type_.as_slice(),
                    row.description.as_slice(),
                    true,
                ),
            ),
        )
    } else {
        None
    }
}

/// Tries the rule for the pixel maps.
fn rule_pixel_maps(row: &RawRow, gv: &[char]) -> (r: Option<Result<Vec<RawRow>, ParseError>>)
    ensures
        rule_view(r) == spec_rule_pixel_maps(row.deep_view(), gv@),
{
    if is_text(row.section.as_slice(), "\\ref{pix:xfer}") && is_text(gv, "$x$") && contains(
        row.get_cmnd.as_slice(),
        "GetPixelMap",
    ) {
        let d = row.description.as_slice();
        let mut names: Vec<Vec<char>> = Vec::new();
        assert(texts(names@) =~= Seq::<Seq<char>>::empty());
        if contains(d, "RGBA") {
            push_rgba_maps(&mut names);
        } else if contains(d, "Index") {
            push_index_maps(&mut names);
        } else {
            return Some(Err(ParseError::Malformed));
        }
        assert(texts(names@) =~= if spec_contains(d@, "RGBA"@) {
            spec_rgba_maps()
        } else {
            spec_index_maps()
        });
        match split_once(d, "s; $x$ is") {
            None => Some(Err(ParseError::Malformed)),
            Some((b, _)) => {
                let type_ = divide(row.type_.as_slice(), names.len());
                Some(Ok(instances(row, gv, &names, type_.as_slice(), b, false)))
            },
        }
    } else {
        None
    }
}

/// Tries the rule for the sizes of the pixel maps.
fn rule_pixel_map_sizes(row: &RawRow, gv: &[char]) -> (r: Option<Result<Vec<RawRow>, ParseError>>)
    ensures
        rule_view(r) == spec_rule_pixel_map_sizes(row.deep_view(), gv@),
{
    if is_text(row.section.as_slice(), "\\ref{pix:xfer}") && is_text(gv, "$x$_SIZE") && contains(
        row.get_cmnd.as_slice(),
        "GetIntegerv",
    ) {
        let mut names: Vec<Vec<char>> = Vec::new();
        assert(texts(names@) =~= Seq::<Seq<char>>::empty());
        push_rgba_maps(&mut names);
        push_index_maps(&mut names);
        assert(texts(names@) =~= spec_rgba_maps() + spec_index_maps());
        Some(
            Ok(
                instances(
                    row,
                    gv,
                    &names,
                    row.type_.as_slice(),
                    row.description.as_slice(),
                    true,
                ),
            ),
        )
    } else {
        None
    }
}

/// Tries the rule for the enables of the evaluators.
fn rule_map_targets(row: &RawRow, gv: &[char]) -> (r: Option<Result<Vec<RawRow>, ParseError>>)
    ensures
        rule_view(r) == spec_rule_map_targets(row.deep_view(), gv@),
{
    if (is_text(gv, "MAP1_$x$") || is_text(gv, "MAP2_$x$")) && is_text(
        row.get_cmnd.as_slice(),
        "\\glr{IsEnabled}",
    ) {
        let names = map_targets();
        match split_once(row.description.as_slice(), "s: $x$ is") {
            None => Some(Err(ParseError::Malformed)),
            Some((b, _)) => {
                let type_ = divide(row.type_.as_slice(), names.len());
                Some(Ok(instances(row, gv, &names, type_.as_slice(), b, false)))
            },
        }
    } else {
        None
    }
}

/// Splits a description where it begins to list what the placeholder
/// stands for.
fn choice_split<'a>(d: &'a [char]) -> (r: Option<(&'a [char], &'a [char])>)
    ensures
        crate::text::slice_pair_view(r) == spec_choice_split(d@),
{
    match split_once(d, "; $x$ is one of ") {
        Some(p) => Some(p),
        None => match split_once(d, ";\n$x$ is one of ") {
            Some(p) => Some(p),
            None => match split_once(d, ".    $x$ is one of ") {
                Some(p) => Some(p),
                None => match split_once(d, ". $x$ is one of ") {
                    Some(p) => Some(p),
                    None => match split_once(d, "; $x$ is ") {
                        Some(p) => Some(p),
                        None => split_once(d, " ($x$ is "),
                    },
                },
            },
        },
    }
}

/// The names that a list of what the placeholder stands for gives.
fn choice_names(list: &[char]) -> (names: Vec<Vec<char>>)
    ensures
        texts(names@) == spec_choice_names(list@),
{
    let pieces = split(without_suffix(list, ")"), ',');
    let mut names: Vec<Vec<char>> = Vec::new();
    let mut i: usize = 0;
    let ghost all = spec_choice_names(list@);
    assert(texts(names@) =~= all.take(0));
    while i < pieces.len()
        invariant
            i <= pieces.len(),
            slices_view(pieces@) == spec_split(spec_without_suffix(list@, ")"@), ','),
            all == spec_choice_names(list@),
            texts(names@) == all.take(i as int),
        decreases pieces.len() - i,
    {
        let ghost before = texts(names@);
        assert(slices_view(pieces@)[i as int] == pieces@[i as int]@);
        let name = without_suffix(
            without_prefix(without_prefix(trim(pieces[i]), "or "), "\\glc{"),
            "}",
        );
        names.push(to_vec(name));
        assert(texts(names@) =~= before.push(name@));
        assert(before.push(all[i as int]) =~= all.take(i + 1));
        i += 1;
    }
    assert(all.take(pieces.len() as int) =~= all);
    names
}

/// The type of the rows that a list of `count` names gives.
fn choice_type(type_: &[char], count: usize) -> (out: Vec<char>)
    ensures
        out@ == spec_choice_type(type_@, count as nat),
{
    match strip_prefix(type_, "$\\mtexbasefmt \\times ") {
        Some(rest) => {
            let mut out = to_chars("$");
            append(&mut out, rest);
            out
        },
        None => divide(type_, count),
    }
}

/// Tries the rule for descriptions that list what the placeholder stands
/// for.
fn rule_choices(row: &RawRow, gv: &[char]) -> (r: Option<Result<Vec<RawRow>, ParseError>>)
    ensures
        rule_view(r) == spec_rule_choices(row.deep_view(), gv@),
{
    if contains(gv, "$x$") {
        match choice_split(row.description.as_slice()) {
            Some((b, list)) => {
                if contains(list, ",") {
                    let names = choice_names(list);
                    let type_ = choice_type(row.type_.as_slice(), names.len());
                    Some(Ok(instances(row, gv, &names, type_.as_slice(), b, true)))
                } else {
                    None
                }
            },
            None => None,
        }
    } else {
        None
    }
}

/// Expands a row by one step: tries the rules in their order, and hands out
/// what the first rule that applies makes of the row, or the plain text of
/// the `get_value` of a row to which none applies.
pub fn expand(dialect: Dialect, row: &RawRow) -> (r: Result<Expanded, ParseError>)
    ensures
        match r {
            Ok(Expanded::Rows(rows)) => spec_expand(dialect, row.deep_view()) == Expansion::Rows(
                rows.deep_view(),
            ),
            Ok(Expanded::Plain(gv)) => spec_expand(dialect, row.deep_view()) == Expansion::Plain(
                gv@,
            ),
            Err(e) => spec_expand(dialect, row.deep_view()) == Expansion::Fail(e),
        },
{
    match rule_deprecation(row) {
        Some(Ok(rows)) => {
            return Ok(Expanded::Rows(rows));
        },
        Some(Err(e)) => {
            return Err(e);
        },
        None => {},
    }
    let gv = match unescape(row.get_value.as_slice()) {
        Ok(gv) => gv,
        Err(e) => {
            return Err(e);
        },
    };
    let g = gv.as_slice();
    let mut r = rule_dimension(dialect, row, g);
    if r.is_none() {
        r = rule_components(row, g);
    }
    if r.is_none() {
        r = rule_pixel_maps(row, g);
    }
    if r.is_none() {
        r = rule_pixel_map_sizes(row, g);
    }
    if r.is_none() {
        r = rule_map_targets(row, g);
    }
    if r.is_none() {
        r = rule_choices(row, g);
    }
    match r {
        Some(Ok(rows)) => Ok(Expanded::Rows(rows)),
        Some(Err(e)) => Err(e),
        None => Ok(Expanded::Plain(gv)),
    }
}

} // verus!
