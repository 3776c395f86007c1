//! What holds of the expansion of rows.

use crate::cell::spec_read_group;
use crate::entry::{merge_target, Condition, TableModel};
use crate::error::ParseError;
use crate::normalize::{
    spec_normalize, spec_opt_footnote_ref, spec_row_description, spec_row_name, spec_row_type,
    ConstantModel,
};
use crate::process::{spec_finish_row, spec_process_row, spec_process_rows};
use crate::row::{
    placeholder, spec_dimensions, spec_divide, spec_expand, Dialect, Expansion, RawRowModel,
};
use crate::text::{spec_contains, spec_find, spec_replace};
use crate::unescape::spec_unescape;
use vstd::prelude::*;

verus! {

/// A row whose `get_value` holds the dimension placeholder, and whose
/// description holds no deprecation-conditional span, gives way to one row
/// for each texture dimension: three in the desktop document, two in the
/// others. The rows have the dimension in place of the placeholder, and
/// the type of the row without the number of dimensions in front.
pub proof fn lemma_dimension_rows(dialect: Dialect, row: RawRowModel, gv: Seq<char>)
    requires
        spec_find(row.description, "\\dep{"@) is None,
        spec_unescape(row.get_value) == Some(gv),
        spec_contains(gv, "$x$D"@),
    ensures
        spec_expand(dialect, row) matches Expansion::Rows(rows) && {
            &&& rows.len() == spec_dimensions(dialect).len()
            &&& rows.len() == if dialect == Dialect::Gl {
                3nat
            } else {
                2nat
            }
            &&& forall|i: int|
                0 <= i < rows.len() ==> {
                    &&& (#[trigger] rows[i]).type_ == spec_divide(row.type_, rows.len())
                    &&& rows[i].get_value == spec_replace(
                        gv,
                        placeholder(),
                        spec_dimensions(dialect)[i],
                    )
                    &&& rows[i].condition == row.condition
                }
        },
{
}

/// A row under no condition whose description holds a
/// deprecation-conditional span gives way to two rows: one for the
/// compatibility profile, which keeps the text of the span, and one for
/// the core profile, which loses it. The two differ in nothing else.
pub proof fn lemma_deprecation_rows(dialect: Dialect, row: RawRowModel, i: int)
    requires
        row.condition is None,
        spec_find(row.description, "\\dep{"@) == Some(i),
        spec_read_group(row.description.subrange(i + 4, row.description.len() as int)) is Some,
    ensures
        spec_expand(dialect, row) matches Expansion::Rows(rows) && {
            let (inner, rest) = spec_read_group(
                row.description.subrange(i + 4, row.description.len() as int),
            ).unwrap();
            &&& rows.len() == 2
            &&& rows[0] == (RawRowModel {
                condition: Some(Condition::Compatibility),
                description: row.description.subrange(0, i) + inner + rest,
                ..row
            })
            &&& rows[1] == (RawRowModel {
                condition: Some(Condition::Core),
                description: row.description.subrange(0, i) + rest,
                ..row
            })
        },
{
    reveal_strlit("\\dep");
}

/// A reference to a footnote that is read against two counts of footnotes
/// is the same both times, where it is not refused.
proof fn lemma_footnote_ref_any_count(cell: Option<Seq<char>>, a: nat, b: nat)
    ensures
        spec_opt_footnote_ref(cell, a) is Ok && spec_opt_footnote_ref(cell, b) is Ok
            ==> spec_opt_footnote_ref(cell, a) == spec_opt_footnote_ref(cell, b),
{
}

/// In a table without entries, a row under no condition that gives way to
/// a row for each profile, neither of which expands further, makes two
/// entries, where the two have different descriptions: first the entry
/// for the compatibility profile, then the entry for the core profile.
/// The two have the same name, type, command and attribute.
pub proof fn lemma_deprecation_entries(
    dialect: Dialect,
    row: RawRowModel,
    constants: Seq<ConstantModel>,
    table: TableModel,
    depth: nat,
    gv: Seq<char>,
)
    requires
        depth >= 1,
        table.entries.len() == 0,
        row.condition is None,
        spec_expand(dialect, row) matches Expansion::Rows(rows) && rows.len() == 2 && rows[0]
            == (RawRowModel { condition: Some(Condition::Compatibility), ..rows[0] }) && rows[1]
            == (RawRowModel {
            condition: Some(Condition::Core),
            description: rows[1].description,
            ..rows[0]
        }) && spec_expand(dialect, rows[0]) == Expansion::Plain(gv) && spec_expand(
            dialect,
            rows[1],
        ) == Expansion::Plain(gv),
        spec_process_row(dialect, row, constants, table, depth) is Ok,
    ensures
        ({
            let rows = spec_expand(dialect, row)->Rows_0;
            let after = spec_process_row(dialect, row, constants, table, depth).unwrap();
            let first = spec_normalize(dialect, rows[0], gv, constants, table.footnotes).unwrap().0;
            let behind = spec_normalize(
                dialect,
                rows[0],
                gv,
                constants,
                table.footnotes,
            ).unwrap().1;
            let second = spec_normalize(dialect, rows[1], gv, constants, behind).unwrap().0;
            &&& first.condition == Some(Condition::Compatibility)
            &&& second.condition == Some(Condition::Core)
            &&& first.get_value == second.get_value
            &&& first.alt_get_value == second.alt_get_value
            &&& first.get_cmnd == second.get_cmnd
            &&& first.attribute == second.attribute
            &&& first.type_ == second.type_
            &&& (first.description != second.description ==> after.entries == seq![first, second])
        }),
{
    let rows = spec_expand(dialect, row)->Rows_0;
    let d = (depth - 1) as nat;
    let t1 = spec_process_row(dialect, rows[0], constants, table, d);
    assert(spec_process_rows(dialect, rows, 0, constants, table, d) is Ok);
    assert(t1 is Ok);
    assert(t1 == spec_finish_row(dialect, rows[0], gv, constants, table));
    let (first, behind) = spec_normalize(dialect, rows[0], gv, constants, table.footnotes).unwrap();
    let table1 = t1.unwrap();
    assert(merge_target(table.entries, first, 0) is None);
    assert(table1.entries == table.entries.push(first));
    assert(table1.footnotes == behind);
    let t2 = spec_process_row(dialect, rows[1], constants, table1, d);
    assert(spec_process_rows(dialect, rows, 1, constants, table1, d) is Ok);
    assert(t2 is Ok);
    assert(spec_process_rows(dialect, rows, 2, constants, t2.unwrap(), d) == Ok::<
        TableModel,
        ParseError,
    >(t2.unwrap()));
    assert(t2 == spec_finish_row(dialect, rows[1], gv, constants, table1));
    let (second, behind2) = spec_normalize(dialect, rows[1], gv, constants, behind).unwrap();
    let name = spec_row_name(gv, spec_row_type(dialect, rows[0].type_)).unwrap();
    let d1 = spec_row_description(rows[0].description, table.footnotes).unwrap();
    let d2 = spec_row_description(rows[1].description, behind).unwrap();
    lemma_footnote_ref_any_count(name.type_, d1.footnotes.len(), d2.footnotes.len());
    if first.description != second.description {
        let one = table1.entries;
        assert(one.len() == 1);
        assert(one[0] == first);
        assert(merge_target(one, second, 1) is None);
        assert(t2.unwrap().entries == one.push(second));
        assert(one.push(second) =~= seq![first, second]);
    }
}

} // verus!
