//! The processing of one raw row: expansion, step by step, down to the rows
//! that are normalised and added to the table.

use crate::entry::{entries_wf, push_entry, spec_push_entry, EntryModel, Table, TableModel};
use crate::error::ParseError;
use crate::normalize::{
    footnotes_behind, lemma_normalize_wf, normalize, spec_normalize, Constant, ConstantModel,
};
use crate::row::{expand, spec_expand, Dialect, Expanded, Expansion, RawRow, RawRowModel};
use crate::text::to_string;
use vstd::prelude::*;

verus! {

/// The number of steps of expansion that a row may go through.
pub const MAX_EXPANSION_DEPTH: usize = 64;

/// The table after a row to which no expansion applies has been added: the
/// row is normalised, the footnote that its description defines joins the
/// footnotes of the table, and the entry is added to the entries or merged
/// into the entry that it complements.
pub open spec fn spec_finish_row(
    dialect: Dialect,
    row: RawRowModel,
    gv: Seq<char>,
    constants: Seq<ConstantModel>,
    table: TableModel,
) -> Result<TableModel, ParseError> {
    match spec_normalize(dialect, row, gv, constants, table.footnotes) {
        Err(e) => Err(e),
        Ok((entry, footnotes)) => match spec_push_entry(table.entries, entry) {
            Err(e) => Err(e),
            Ok(entries) => Ok(TableModel { footnotes, entries, ..table }),
        },
    }
}

/// The table after a row has been processed with `depth` steps of
/// expansion left. A row to which no rule applies is finished. A row that
/// a rule expands gives way to its replacements, which are processed in
/// their order with one step less; where no step is left, the row is
/// refused.
pub open spec fn spec_process_row(
    dialect: Dialect,
    row: RawRowModel,
    constants: Seq<ConstantModel>,
    table: TableModel,
    depth: nat,
) -> Result<TableModel, ParseError>
    decreases depth, 0nat,
{
    match spec_expand(dialect, row) {
        Expansion::Fail(e) => Err(e),
        Expansion::Plain(gv) => spec_finish_row(dialect, row, gv, constants, table),
        Expansion::Rows(rows) => {
            if depth == 0 {
                Err(ParseError::ExpansionTooDeep)
            } else {
                spec_process_rows(dialect, rows, 0, constants, table, (depth - 1) as nat)
            }
        },
    }
}

/// The table after the rows from index `i` on have been processed in
/// their order, each with `depth` steps of expansion left. The first row
/// that is refused ends it.
pub open spec fn spec_process_rows(
    dialect: Dialect,
    rows: Seq<RawRowModel>,
    i: int,
    constants: Seq<ConstantModel>,
    table: TableModel,
    depth: nat,
) -> Result<TableModel, ParseError>
    decreases depth, 1 + rows.len() - i,
{
    if 0 <= i < rows.len() {
        match spec_process_row(dialect, rows[i], constants, table, depth) {
            Err(e) => Err(e),
            Ok(t) => spec_process_rows(dialect, rows, i + 1, constants, t, depth),
        }
    } else {
        Ok(table)
    }
}

/// Adding an entry that is sound for a table leaves the entries of the
/// table sound.
pub proof fn lemma_push_entry_wf(entries: Seq<EntryModel>, n: EntryModel, footnotes: nat)
    requires
        entries_wf(entries, footnotes),
        n.wf(footnotes),
    ensures
        spec_push_entry(entries, n) matches Ok(after) ==> entries_wf(after, footnotes),
{
    if let Ok(after) = spec_push_entry(entries, n) {
        if n.condition is Some {
            crate::entry::lemma_merge_target(entries, n, entries.len() as int);
        }
        assert forall|i: int| 0 <= i < after.len() implies (#[trigger] after[i]).wf(footnotes) by {
            if i < entries.len() {
                assert(entries[i].wf(footnotes));
            }
        }
    }
}

/// A sound table is sound after a row has been finished: none of its
/// entries is both the first of a series and known under another name, and
/// each footnote that an entry refers to is one of the table's.
pub proof fn lemma_finish_row_wf(
    dialect: Dialect,
    row: RawRowModel,
    gv: Seq<char>,
    constants: Seq<ConstantModel>,
    table: TableModel,
)
    requires
        table.wf(),
    ensures
        spec_finish_row(dialect, row, gv, constants, table) matches Ok(after) ==> after.wf(),
{
    lemma_normalize_wf(dialect, row, gv, constants, table.footnotes);
    if let Ok((entry, footnotes)) = spec_normalize(dialect, row, gv, constants, table.footnotes) {
        assert forall|i: int| 0 <= i < table.entries.len() implies (#[trigger] table.entries[i]).wf(
            footnotes.len(),
        ) by {
            assert(table.entries[i].wf(table.footnotes.len()));
        }
        lemma_push_entry_wf(table.entries, entry, footnotes.len());
    }
}

/// A sound table is sound after a row has been processed.
pub proof fn lemma_process_row_wf(
    dialect: Dialect,
    row: RawRowModel,
    constants: Seq<ConstantModel>,
    table: TableModel,
    depth: nat,
)
    requires
        table.wf(),
    ensures
        spec_process_row(dialect, row, constants, table, depth) matches Ok(after) ==> after.wf(),
    decreases depth, 0nat,
{
    match spec_expand(dialect, row) {
        Expansion::Fail(e) => {},
        Expansion::Plain(gv) => {
            lemma_finish_row_wf(dialect, row, gv, constants, table);
        },
        Expansion::Rows(rows) => {
            if depth > 0 {
                lemma_process_rows_wf(dialect, rows, 0, constants, table, (depth - 1) as nat);
            }
        },
    }
}

/// A sound table is sound after rows have been processed.
pub proof fn lemma_process_rows_wf(
    dialect: Dialect,
    rows: Seq<RawRowModel>,
    i: int,
    constants: Seq<ConstantModel>,
    table: TableModel,
    depth: nat,
)
    requires
        table.wf(),
    ensures
        spec_process_rows(dialect, rows, i, constants, table, depth) matches Ok(after)
            ==> after.wf(),
    decreases depth, 1 + rows.len() - i,
{
    if 0 <= i < rows.len() {
        lemma_process_row_wf(dialect, rows[i], constants, table, depth);
        if let Ok(t) = spec_process_row(dialect, rows[i], constants, table, depth) {
            lemma_process_rows_wf(dialect, rows, i + 1, constants, t, depth);
        }
    }
}

/// The view of a table that a step may have refused.
pub open spec fn outcome(r: Result<(), ParseError>, table: TableModel) -> Result<
    TableModel,
    ParseError,
> {
    match r {
        Ok(()) => Ok(table),
        Err(e) => Err(e),
    }
}

/// Normalises a row to which no expansion applies, and adds it to the
/// table.
pub fn finish_row(
    dialect: Dialect,
    row: &RawRow,
    gv: Vec<char>,
    constants: &Vec<Constant>,
    table: &mut Table,
) -> (r: Result<(), ParseError>)
    ensures
        outcome(r, final(table).deep_view()) == spec_finish_row(
            dialect,
            row.deep_view(),
            gv@,
            constants.deep_view(),
            old(table).deep_view(),
        ),
{
    let (entry, definition) = match normalize(dialect, row, gv, constants, &table.footnotes) {
        Err(e) => {
            return Err(e);
        },
        Ok(p) => p,
    };
    let ghost before = table.footnotes.deep_view();
    match definition {
        Some(note) => {
            let s = to_string(note.as_slice());
            table.footnotes.push(s);
            assert(table.footnotes.deep_view() =~= before.push(note@));
        },
        None => {},
    }
    assert(table.footnotes.deep_view() == footnotes_behind(before, definition));
    push_entry(&mut table.entries, entry)
}

/// Processes a row with `depth` steps of expansion left.
pub fn process_row_within(
    dialect: Dialect,
    row: &RawRow,
    constants: &Vec<Constant>,
    table: &mut Table,
    depth: usize,
) -> (r: Result<(), ParseError>)
    ensures
        outcome(r, final(table).deep_view()) == spec_process_row(
            dialect,
            row.deep_view(),
            constants.deep_view(),
            old(table).deep_view(),
            depth as nat,
        ),
    decreases depth,
{
    match expand(dialect, row) {
        Err(e) => Err(e),
        Ok(Expanded::Plain(gv)) => finish_row(dialect, row, gv, constants, table),
        Ok(Expanded::Rows(rows)) => {
            if depth == 0 {
                return Err(ParseError::ExpansionTooDeep);
            }
            let mut i: usize = 0;
            while i < rows.len()
                invariant
                    i <= rows.len(),
                    depth > 0,
                    spec_expand(dialect, row.deep_view()) == Expansion::Rows(rows.deep_view()),
                    spec_process_rows(
                        dialect,
                        rows.deep_view(),
                        i as int,
                        constants.deep_view(),
                        table.deep_view(),
                        (depth - 1) as nat,
                    ) == spec_process_rows(
                        dialect,
                        rows.deep_view(),
                        0,
                        constants.deep_view(),
                        old(table).deep_view(),
                        (depth - 1) as nat,
                    ),
                decreases rows.len() - i,
            {
                assert(rows.deep_view()[i as int] == rows[i as int].deep_view());
                let ghost before = table.deep_view();
                let ghost all = spec_process_rows(
                    dialect,
                    rows.deep_view(),
                    i as int,
                    constants.deep_view(),
                    before,
                    (depth - 1) as nat,
                );
                match process_row_within(dialect, &rows[i], constants, table, depth - 1) {
                    Err(e) => {
                        assert(all == Err::<TableModel, ParseError>(e));
                        return Err(e);
                    },
                    Ok(()) => {
                        assert(all == spec_process_rows(
                            dialect,
                            rows.deep_view(),
                            i + 1,
                            constants.deep_view(),
                            table.deep_view(),
                            (depth - 1) as nat,
                        ));
                    },
                }
                i += 1;
            }
            Ok(())
        },
    }
}

/// Processes one raw row of a table: expands it as far as the rules ask,
/// normalises each row that comes of it, and adds the entries to the
/// table, merging complementary ones. A sound table stays sound.
pub fn process_row(
    dialect: Dialect,
    row: &RawRow,
    constants: &Vec<Constant>,
    table: &mut Table,
) -> (r: Result<(), ParseError>)
    ensures
        outcome(r, final(table).deep_view()) == spec_process_row(
            dialect,
            row.deep_view(),
            constants.deep_view(),
            old(table).deep_view(),
            MAX_EXPANSION_DEPTH as nat,
        ),
        old(table).deep_view().wf() && r is Ok ==> final(table).deep_view().wf(),
{
    proof {
        if table.deep_view().wf() {
            lemma_process_row_wf(
                dialect,
                row.deep_view(),
                constants.deep_view(),
                table.deep_view(),
                MAX_EXPANSION_DEPTH as nat,
            );
        }
    }
    process_row_within(dialect, row, constants, table, MAX_EXPANSION_DEPTH)
}

} // verus!
