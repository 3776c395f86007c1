//! The scan of a document: the tracker for conditional regions, the
//! macros that introduce entries, and the pass over the body that builds
//! the tables.

use crate::cell::{read_cell, spec_read_cell};
use crate::document::{
    constants, lemma_read_cell_len, spec_constants, spec_split_document, split_document,
};
use crate::entry::{Condition, Table, TableModel};
use crate::error::ParseError;
use crate::normalize::{Constant, ConstantModel};
use crate::process::{process_row, spec_process_row, MAX_EXPANSION_DEPTH};
use crate::row::{Dialect, RawRow, RawRowModel};
use crate::table::{open_table, spec_open_table};
use crate::text::{
    find, slices_view, spec_find, spec_starts_with, starts_with, to_chars, to_string, to_vec,
};
use vstd::prelude::*;
use vstd::slice::slice_subrange;

verus! {

// ---------------------------------------------------------------------------
// Conditional regions
// ---------------------------------------------------------------------------

/// What a conditional macro does to the region that is open.
#[derive(Clone, Copy, Debug, PartialEq, Eq, Structural)]
pub enum Event {
    /// A region for the compatibility profile begins.
    Begin,
    /// The region for the compatibility profile gives way to the region for
    /// the core profile.
    Else,
    /// The region ends.
    End,
}

/// The condition that holds behind an event. A region begins only where
/// none is open; it turns only where it is the region for the
/// compatibility profile; it ends only where one is open. Any other event
/// is refused: regions do not nest.
pub open spec fn spec_step(current: Option<Condition>, event: Event) -> Result<
    Option<Condition>,
    ParseError,
> {
    match event {
        Event::Begin => {
            if current is None {
                Ok(Some(Condition::Compatibility))
            } else {
                Err(ParseError::ConditionMisuse)
            }
        },
        Event::Else => {
            if current == Some(Condition::Compatibility) {
                Ok(Some(Condition::Core))
            } else {
                Err(ParseError::ConditionMisuse)
            }
        },
        Event::End => {
            if current is Some {
                Ok(None)
            } else {
                Err(ParseError::ConditionMisuse)
            }
        },
    }
}

/// The condition that holds behind an event.
pub fn step(current: Option<Condition>, event: Event) -> (r: Result<Option<Condition>, ParseError>)
    ensures
        r == spec_step(current, event),
{
    match event {
        Event::Begin => match current {
            None => Ok(Some(Condition::Compatibility)),
            Some(_) => Err(ParseError::ConditionMisuse),
        },
        Event::Else => match current {
            Some(Condition::Compatibility) => Ok(Some(Condition::Core)),
            _ => Err(ParseError::ConditionMisuse),
        },
        Event::End => match current {
            Some(_) => Ok(None),
            None => Err(ParseError::ConditionMisuse),
        },
    }
}

/// The event that the macro at the start of `text` stands for, if it is a
/// conditional macro.
pub open spec fn spec_event(text: Seq<char>) -> Option<Event> {
    if spec_starts_with(text, "\\ifnum\\specdep=1"@) {
        Some(Event::Begin)
    } else if spec_starts_with(text, "\\else"@) {
        Some(Event::Else)
    } else if spec_starts_with(text, "\\fi"@) {
        Some(Event::End)
    } else {
        None
    }
}

/// The condition that holds behind the macro at the start of `text`: the
/// one that held in front of it, unless the macro is a conditional macro.
pub open spec fn spec_track(text: Seq<char>, current: Option<Condition>) -> Result<
    Option<Condition>,
    ParseError,
> {
    match spec_event(text) {
        Some(event) => spec_step(current, event),
        None => Ok(current),
    }
}

/// The event that the macro at the start of `text` stands for.
pub fn event(text: &[char]) -> (r: Option<Event>)
    ensures
        r == spec_event(text@),
{
    if starts_with(text, "\\ifnum\\specdep=1") {
        Some(Event::Begin)
    } else if starts_with(text, "\\else") {
        Some(Event::Else)
    } else if starts_with(text, "\\fi") {
        Some(Event::End)
    } else {
        None
    }
}

// ---------------------------------------------------------------------------
// Entries
// ---------------------------------------------------------------------------

/// The condition of the entry that the macro at the start of `text`
/// introduces, if it introduces one. The plain entry macros take the
/// condition of the region that is open. The macro for deprecated entries
/// always gives the compatibility profile, and the one for entries of the
/// imaging subset always gives that.
pub open spec fn spec_entry_condition(text: Seq<char>, current: Option<Condition>) -> Option<
    Option<Condition>,
> {
    if spec_starts_with(text, "\\doentry"@) || spec_starts_with(text, "\\cbentry"@)
        || spec_starts_with(text, "\\ocbentry"@) {
        Some(current)
    } else if spec_starts_with(text, "\\graydepentry"@) {
        Some(Some(Condition::ImagingSubset))
    } else if spec_starts_with(text, "\\depentry"@) {
        Some(Some(Condition::Compatibility))
    } else {
        None
    }
}

/// The condition of the entry that the macro at the start of `text`
/// introduces.
pub fn entry_condition(text: &[char], current: Option<Condition>) -> (r: Option<Option<Condition>>)
    ensures
        r == spec_entry_condition(text@, current),
{
    if starts_with(text, "\\doentry") || starts_with(text, "\\cbentry") || starts_with(
        text,
        "\\ocbentry",
    ) {
        Some(current)
    } else if starts_with(text, "\\graydepentry") {
        Some(Some(Condition::ImagingSubset))
    } else if starts_with(text, "\\depentry") {
        Some(Some(Condition::Compatibility))
    } else {
        None
    }
}

/// The number of cells that an entry of a document has.
pub open spec fn spec_columns(dialect: Dialect) -> nat {
    if dialect == Dialect::Es11 {
        8
    } else {
        7
    }
}

/// The next `count` cells of `text`, behind the cells `found` so far, and
/// the text behind them.
pub open spec fn spec_read_cells(text: Seq<char>, count: nat, found: Seq<Seq<char>>) -> Result<
    (Seq<Seq<char>>, Seq<char>),
    ParseError,
>
    decreases count,
{
    if count == 0 {
        Ok((found, text))
    } else {
        match spec_read_cell(text) {
            None => Err(ParseError::UnbalancedSpan),
            Some((cell, rest)) => spec_read_cells(rest, (count - 1) as nat, found.push(cell)),
        }
    }
}

/// The raw row that the cells of an entry make. The first embedded
/// document has one cell more than the others, which does not count, and
/// another order.
pub open spec fn spec_raw_row(
    dialect: Dialect,
    condition: Option<Condition>,
    cells: Seq<Seq<char>>,
) -> RawRowModel {
    if dialect == Dialect::Es11 {
        RawRowModel {
            condition,
            get_value: cells[4],
            type_: cells[1],
            get_cmnd: cells[3],
            initial_value: cells[2],
            description: cells[5],
            section: cells[6],
            attribute: cells[7],
        }
    } else {
        RawRowModel {
            condition,
            get_value: cells[0],
            type_: cells[1],
            get_cmnd: cells[2],
            initial_value: cells[3],
            description: cells[4],
            section: cells[5],
            attribute: cells[6],
        }
    }
}

/// The view of cells and the text behind them.
pub open spec fn cells_view(r: Result<(Vec<&[char]>, &[char]), ParseError>) -> Result<
    (Seq<Seq<char>>, Seq<char>),
    ParseError,
> {
    match r {
        Ok((cells, rest)) => Ok((slices_view(cells@), rest@)),
        Err(e) => Err(e),
    }
}

/// Reads the next `count` cells of `text`.
pub fn read_cells(text: &[char], count: usize) -> (r: Result<(Vec<&[char]>, &[char]), ParseError>)
    ensures
        cells_view(r) == spec_read_cells(text@, count as nat, Seq::empty()),
        r matches Ok((cells, rest)) ==> cells.len() == count && rest@.len() <= text@.len() && (count
            > 0 ==> rest@.len() < text@.len()),
{
    let mut cells: Vec<&[char]> = Vec::new();
    let mut rest: &[char] = text;
    let mut i: usize = 0;
    assert(slices_view(cells@) =~= Seq::<Seq<char>>::empty());
    while i < count
        invariant
            i <= count,
            cells.len() == i,
            rest@.len() <= text@.len(),
            i > 0 ==> rest@.len() < text@.len(),
            spec_read_cells(rest@, (count - i) as nat, slices_view(cells@)) == spec_read_cells(
                text@,
                count as nat,
                Seq::empty(),
            ),
        decreases count - i,
    {
        proof {
            lemma_read_cell_len(rest@);
        }
        match read_cell(rest) {
            Err(e) => {
                return Err(e);
            },
            Ok((cell, behind)) => {
                let ghost before = slices_view(cells@);
                cells.push(cell);
                assert(slices_view(cells@) =~= before.push(cell@));
                rest = behind;
            },
        }
        i += 1;
    }
    Ok((cells, rest))
}

/// Makes the raw row of an entry from its cells.
fn raw_row(dialect: Dialect, condition: Option<Condition>, cells: &Vec<&[char]>) -> (r: RawRow)
    requires
        cells.len() == spec_columns(dialect),
    ensures
        r.deep_view() == spec_raw_row(dialect, condition, slices_view(cells@)),
{
    if dialect == Dialect::Es11 {
        RawRow {
            condition,
            get_value: to_vec(cells[4]),
            type_: to_vec(cells[1]),
            get_cmnd: to_vec(cells[3]),
            initial_value: to_vec(cells[2]),
            description: to_vec(cells[5]),
            section: to_vec(cells[6]),
            attribute: to_vec(cells[7]),
        }
    } else {
        RawRow {
            condition,
            get_value: to_vec(cells[0]),
            type_: to_vec(cells[1]),
            get_cmnd: to_vec(cells[2]),
            initial_value: to_vec(cells[3]),
            description: to_vec(cells[4]),
            section: to_vec(cells[5]),
            attribute: to_vec(cells[6]),
        }
    }
}

// ---------------------------------------------------------------------------
// The body
// ---------------------------------------------------------------------------

/// Whether each of `tables` is sound.
pub open spec fn tables_wf(tables: Seq<TableModel>) -> bool {
    forall|k: int| 0 <= k < tables.len() ==> (#[trigger] tables[k]).wf()
}

/// The tables of a body, behind the `tables` so far and with the region
/// `current` open. The body is read from macro to macro. A macro that
/// introduces an entry is followed by the cells of the entry, which make a
/// raw row; the row is processed into the last table, and is refused where
/// there is no table yet. The opening of a table block adds a table.
/// A conditional macro moves the tracker. Every other macro is passed over.
/// The test on the lengths in it always passes, since what is left to read
/// is shorter than what was read; it is there to show that the reading
/// ends.
pub open spec fn spec_scan_body(
    dialect: Dialect,
    text: Seq<char>,
    constants: Seq<ConstantModel>,
    tables: Seq<TableModel>,
    current: Option<Condition>,
) -> Result<Seq<TableModel>, ParseError>
    decreases text.len(),
{
    match spec_find(text, "\\"@) {
        None => Ok(tables),
        Some(i) => {
            let t = text.subrange(i, text.len() as int);
            match spec_entry_condition(t, current) {
                Some(condition) => match spec_find(t, "{"@) {
                    None => Err(ParseError::Malformed),
                    Some(j) => match spec_read_cells(
                        t.subrange(j, t.len() as int),
                        spec_columns(dialect),
                        Seq::empty(),
                    ) {
                        Err(e) => Err(e),
                        Ok((cells, rest)) => {
                            if tables.len() == 0 || rest.len() >= text.len() {
                                Err(ParseError::Malformed)
                            } else {
                                match spec_process_row(
                                    dialect,
                                    spec_raw_row(dialect, condition, cells),
                                    constants,
                                    tables.last(),
                                    MAX_EXPANSION_DEPTH as nat,
                                ) {
                                    Err(e) => Err(e),
                                    Ok(table) => spec_scan_body(
                                        dialect,
                                        rest,
                                        constants,
                                        tables.drop_last().push(table),
                                        current,
                                    ),
                                }
                            }
                        },
                    },
                },
                None => {
                    if spec_starts_with(t, "\\begin"@) {
                        match spec_open_table(t) {
                            Err(e) => Err(e),
                            Ok((opened, rest)) => {
                                if rest.len() >= text.len() {
                                    Err(ParseError::Malformed)
                                } else {
                                    spec_scan_body(
                                        dialect,
                                        rest,
                                        constants,
                                        match opened {
                                            Some(table) => tables.push(table),
                                            None => tables,
                                        },
                                        current,
                                    )
                                }
                            },
                        }
                    } else {
                        match spec_track(t, current) {
                            Err(e) => Err(e),
                            Ok(next) => {
                                if 0 < t.len() <= text.len() {
                                    spec_scan_body(
                                        dialect,
                                        t.subrange(1, t.len() as int),
                                        constants,
                                        tables,
                                        next,
                                    )
                                } else {
                                    Err(ParseError::Malformed)
                                }
                            },
                        }
                    }
                },
            }
        },
    }
}

/// An entry whose cells are not balanced spans ends the scan: whatever
/// tables have been read, none is handed out.
pub proof fn lemma_unbalanced_entry_ends_scan(
    dialect: Dialect,
    text: Seq<char>,
    constants: Seq<ConstantModel>,
    tables: Seq<TableModel>,
    current: Option<Condition>,
    i: int,
    j: int,
)
    requires
        spec_find(text, "\\"@) == Some(i),
        spec_entry_condition(text.subrange(i, text.len() as int), current) is Some,
        spec_find(text.subrange(i, text.len() as int), "{"@) == Some(j),
        spec_read_cells(
            text.subrange(i, text.len() as int).subrange(j, text.len() - i),
            spec_columns(dialect),
            Seq::empty(),
        ) is Err,
    ensures
        spec_scan_body(dialect, text, constants, tables, current) == Err::<
            Seq<TableModel>,
            ParseError,
        >(ParseError::UnbalancedSpan),
{
    lemma_read_cells_error(
        text.subrange(i, text.len() as int).subrange(j, text.len() - i),
        spec_columns(dialect),
        Seq::empty(),
    );
}

/// Cells are refused for one reason only: a span that is not balanced.
pub proof fn lemma_read_cells_error(text: Seq<char>, count: nat, found: Seq<Seq<char>>)
    ensures
        spec_read_cells(text, count, found) matches Err(e) ==> e == ParseError::UnbalancedSpan,
    decreases count,
{
    if count > 0 {
        if let Some((cell, rest)) = spec_read_cell(text) {
            lemma_read_cells_error(rest, (count - 1) as nat, found.push(cell));
        }
    }
}

/// The view of tables that may have been refused.
pub open spec fn tables_view(r: Result<Vec<Table>, ParseError>) -> Result<
    Seq<TableModel>,
    ParseError,
> {
    match r {
        Ok(t) => Ok(t.deep_view()),
        Err(e) => Err(e),
    }
}

/// Reads the tables of a body.
pub fn scan_body(dialect: Dialect, body: &[char], constants: &Vec<Constant>) -> (r: Result<
    Vec<Table>,
    ParseError,
>)
    ensures
        tables_view(r) == spec_scan_body(
            dialect,
            body@,
            constants.deep_view(),
            Seq::empty(),
            None,
        ),
        r matches Ok(tables) ==> tables_wf(tables.deep_view()),
{
    let mut tables: Vec<Table> = Vec::new();
    let mut current: Option<Condition> = None;
    let mut text: &[char] = body;
    let columns: usize = if dialect == Dialect::Es11 {
        8
    } else {
        7
    };
    assert(tables.deep_view() =~= Seq::<TableModel>::empty());
    proof {
        reveal_strlit("\\");
        reveal_strlit("{");
    }
    loop
        invariant
            columns == spec_columns(dialect),
            tables_wf(tables.deep_view()),
            "\\"@.len() == 1,
            "{"@.len() == 1,
            spec_scan_body(dialect, text@, constants.deep_view(), tables.deep_view(), current)
                == spec_scan_body(dialect, body@, constants.deep_view(), Seq::empty(), None),
        ensures
            tables_wf(tables.deep_view()),
            tables_view(Ok(tables)) == spec_scan_body(
                dialect,
                body@,
                constants.deep_view(),
                Seq::empty(),
                None,
            ),
        decreases text@.len(),
    {
        let i = match find(text, "\\") {
            None => {
                break ;
            },
            Some(i) => i,
        };
        assert(i < text@.len());
        let t = slice_subrange(text, i, text.len());
        let ghost before = tables.deep_view();
        match entry_condition(t, current) {
            Some(condition) => {
                let j = match find(t, "{") {
                    None => {
                        return Err(ParseError::Malformed);
                    },
                    Some(j) => j,
                };
                assert(j < t@.len());
                let (cells, rest) = match read_cells(slice_subrange(t, j, t.len()), columns) {
                    Err(e) => {
                        return Err(e);
                    },
                    Ok(p) => p,
                };
                let row = raw_row(dialect, condition, &cells);
                let mut table = match tables.pop() {
                    None => {
                        return Err(ParseError::Malformed);
                    },
                    Some(table) => table,
                };
                assert(table.deep_view() == before.last());
                assert(tables.deep_view() =~= before.drop_last());
                match process_row(dialect, &row, constants, &mut table) {
                    Err(e) => {
                        return Err(e);
                    },
                    Ok(()) => {},
                }
                let ghost shorter = tables.deep_view();
                tables.push(table);
                assert(tables.deep_view() =~= shorter.push(table.deep_view()));
                assert forall|k: int| 0 <= k < tables.deep_view().len() implies (
                #[trigger] tables.deep_view()[k]).wf() by {
                    if k < shorter.len() {
                        assert(before[k].wf());
                    }
                }
                text = rest;
            },
            None => {
                if starts_with(t, "\\begin") {
                    let (opened, rest) = match open_table(t) {
                        Err(e) => {
                            return Err(e);
                        },
                        Ok(p) => p,
                    };
                    match opened {
                        Some(table) => {
                            tables.push(table);
                            assert(tables.deep_view() =~= before.push(table.deep_view()));
                            assert forall|k: int| 0 <= k < tables.deep_view().len() implies (
                            #[trigger] tables.deep_view()[k]).wf() by {
                                if k < before.len() {
                                    assert(before[k].wf());
                                }
                            }
                        },
                        None => {},
                    }
                    text = rest;
                } else {
                    match event(t) {
                        Some(e) => match step(current, e) {
                            Err(e) => {
                                return Err(e);
                            },
                            Ok(next) => {
                                current = next;
                            },
                        },
                        None => {},
                    }
                    text = slice_subrange(t, 1, t.len());
                }
            },
        }
    }
    Ok(tables)
}

// ---------------------------------------------------------------------------
// The document
// ---------------------------------------------------------------------------

/// The attribution and the tables of a document: the text is split into
/// its parts, the macro definitions give the named constants, and the body
/// gives the tables. Whatever is refused on the way, the document is
/// refused, and no table of it is handed out.
pub open spec fn spec_parse_spec(dialect: Dialect, text: Seq<char>) -> Result<
    (Seq<char>, Seq<TableModel>),
    ParseError,
> {
    match spec_split_document(text) {
        Err(e) => Err(e),
        Ok(doc) => match spec_constants(doc.defs) {
            Err(e) => Err(e),
            Ok(constants) => match spec_scan_body(
                dialect,
                doc.body,
                constants,
                Seq::empty(),
                None,
            ) {
                Err(e) => Err(e),
                Ok(tables) => Ok((doc.copyright, tables)),
            },
        },
    }
}

/// The view of what a document gives.
pub open spec fn parsed_view(r: Result<(String, Vec<Table>), ParseError>) -> Result<
    (Seq<char>, Seq<TableModel>),
    ParseError,
> {
    match r {
        Ok((copyright, tables)) => Ok((copyright@, tables.deep_view())),
        Err(e) => Err(e),
    }
}

/// Reads a document of the given dialect: hands out its attribution and
/// its tables, or the reason why it is refused. Each table that is handed
/// out is sound: none of its entries is both the first of a series and
/// known under another name, and each footnote that an entry refers to is
/// one of the footnotes of its table.
pub fn parse_spec(dialect: Dialect, text: &str) -> (r: Result<(String, Vec<Table>), ParseError>)
    ensures
        parsed_view(r) == spec_parse_spec(dialect, text@),
        r matches Ok((copyright, tables)) ==> tables_wf(tables.deep_view()),
{
    let chars = to_chars(text);
    let doc = match split_document(chars.as_slice()) {
        Err(e) => {
            return Err(e);
        },
        Ok(doc) => doc,
    };
    let found = match constants(doc.defs.as_slice()) {
        Err(e) => {
            return Err(e);
        },
        Ok(found) => found,
    };
    match scan_body(dialect, doc.body.as_slice(), &found) {
        Err(e) => Err(e),
        Ok(tables) => Ok((to_string(doc.copyright.as_slice()), tables)),
    }
}

} // verus!
