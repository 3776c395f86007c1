//! Tables, their entries, and the merging of complementary entries.

use crate::error::ParseError;
use crate::text::{
    spec_strip_suffix, spec_trim, strip_suffix, trim,
};
use crate::types::{
    same_opt_string, same_opt_type, same_str, MaybeParsed, MaybeParsedModel, Quantity,
    QuantityModel, Type, TypeModel,
};
use vstd::prelude::*;

verus! {

/// The condition under which an entry is defined.
#[derive(Clone, Copy, Debug, PartialEq, Eq, Structural)]
pub enum Condition {
    /// In the core profile only.
    Core,
    /// In the compatibility profile only.
    Compatibility,
    /// In the imaging subset only, which belongs to the compatibility
    /// profile.
    ImagingSubset,
}

/// One row of a state table: a state variable.
#[derive(Debug)]
pub struct Entry {
    /// The condition under which the entry is defined, if there is one.
    pub condition: Option<Condition>,
    /// The symbolic constant that names the variable.
    pub get_value: Option<String>,
    /// Another symbolic constant for it. Never present beside `series`.
    pub alt_get_value: Option<String>,
    /// Where present, `get_value` names the first of a series of at least
    /// this many variables.
    pub series: Option<Quantity>,
    /// The type, parsed or as text.
    pub type_: Option<MaybeParsed<Type>>,
    /// The footnote that the type refers to.
    pub type_footnote: Option<usize>,
    /// The command that queries the variable; absent where none does.
    pub get_cmnd: Option<String>,
    /// The initial value.
    pub initial_value: Option<String>,
    /// The footnote that the initial value refers to.
    pub initial_value_footnote: Option<usize>,
    /// The description.
    pub description: String,
    /// The footnote that the description refers to.
    pub description_footnote: Option<usize>,
    /// The attribute group.
    pub attribute: Option<String>,
}

/// What an `Entry` stands for.
pub struct EntryModel {
    pub condition: Option<Condition>,
    pub get_value: Option<Seq<char>>,
    pub alt_get_value: Option<Seq<char>>,
    pub series: Option<QuantityModel>,
    pub type_: Option<MaybeParsedModel<TypeModel>>,
    pub type_footnote: Option<usize>,
    pub get_cmnd: Option<Seq<char>>,
    pub initial_value: Option<Seq<char>>,
    pub initial_value_footnote: Option<usize>,
    pub description: Seq<char>,
    pub description_footnote: Option<usize>,
    pub attribute: Option<Seq<char>>,
}

impl DeepView for Entry {
    type V = EntryModel;

    open spec fn deep_view(&self) -> EntryModel {
        EntryModel {
            condition: self.condition,
            get_value: self.get_value.deep_view(),
            alt_get_value: self.alt_get_value.deep_view(),
            series: self.series.deep_view(),
            type_: self.type_.deep_view(),
            type_footnote: self.type_footnote,
            get_cmnd: self.get_cmnd.deep_view(),
            initial_value: self.initial_value.deep_view(),
            initial_value_footnote: self.initial_value_footnote,
            description: self.description@,
            description_footnote: self.description_footnote,
            attribute: self.attribute.deep_view(),
        }
    }
}

/// Whether a footnote reference, where present, names one of `footnotes`
/// footnotes.
pub open spec fn footnote_in_range(reference: Option<usize>, footnotes: nat) -> bool {
    reference matches Some(index) ==> index < footnotes
}

impl EntryModel {
    /// An entry is sound for a table with `footnotes` footnotes when it is
    /// not both the first of a series and known under another name, has a
    /// name where it is the first of a series, and each footnote that it
    /// refers to is one of the table's.
    pub open spec fn wf(self, footnotes: nat) -> bool {
        &&& !(self.series is Some && self.alt_get_value is Some)
        &&& (self.series is Some ==> self.get_value is Some)
        &&& footnote_in_range(self.type_footnote, footnotes)
        &&& footnote_in_range(self.initial_value_footnote, footnotes)
        &&& footnote_in_range(self.description_footnote, footnotes)
    }

    /// This entry without its condition.
    pub open spec fn unconditioned(self) -> EntryModel {
        EntryModel { condition: None, ..self }
    }
}

/// A state table.
#[derive(Debug)]
pub struct Table {
    /// The text that describes the table in the index.
    pub title: String,
    /// More text behind the title.
    pub caption: Option<String>,
    /// The label of the table inside the document.
    pub label: String,
    /// The footnotes that entries refer to.
    pub footnotes: Vec<String>,
    /// The rows of the table, in the order of the document.
    pub entries: Vec<Entry>,
}

/// What a `Table` stands for.
pub struct TableModel {
    pub title: Seq<char>,
    pub caption: Option<Seq<char>>,
    pub label: Seq<char>,
    pub footnotes: Seq<Seq<char>>,
    pub entries: Seq<EntryModel>,
}

impl DeepView for Table {
    type V = TableModel;

    open spec fn deep_view(&self) -> TableModel {
        TableModel {
            title: self.title@,
            caption: self.caption.deep_view(),
            label: self.label@,
            footnotes: self.footnotes.deep_view(),
            entries: self.entries.deep_view(),
        }
    }
}

/// The number of footnotes that a table can hold.
pub open spec fn max_footnotes() -> nat {
    2
}

/// Whether each of `entries` is sound for a table with `footnotes`
/// footnotes.
pub open spec fn entries_wf(entries: Seq<EntryModel>, footnotes: nat) -> bool {
    forall|i: int| 0 <= i < entries.len() ==> (#[trigger] entries[i]).wf(footnotes)
}

impl TableModel {
    /// A table is sound when it holds no more footnotes than it can, and
    /// each of its entries is sound for it.
    pub open spec fn wf(self) -> bool {
        &&& self.footnotes.len() <= max_footnotes()
        &&& entries_wf(self.entries, self.footnotes.len())
    }
}

// ---------------------------------------------------------------------------
// Conditions
// ---------------------------------------------------------------------------

/// The name of the class of rows under a condition.
pub open spec fn spec_class_for_condition(condition: Option<Condition>) -> Seq<char> {
    match condition {
        Some(Condition::Compatibility) => "compatibility-only"@,
        Some(Condition::Core) => "core-only"@,
        Some(Condition::ImagingSubset) => "imaging-subset"@,
        None => "no-condition"@,
    }
}

/// The name of the class of rows under a condition.
pub fn class_for_condition(condition: &Option<Condition>) -> (r: &'static str)
    ensures
        r@ == spec_class_for_condition(*condition),
{
    match condition {
        Some(Condition::Compatibility) => "compatibility-only",
        Some(Condition::Core) => "core-only",
        Some(Condition::ImagingSubset) => "imaging-subset",
        None => "no-condition",
    }
}

// ---------------------------------------------------------------------------
// Footnote references
// ---------------------------------------------------------------------------

/// The text in front of the footnote mark that `s` ends with, and the
/// footnote that the mark names.
pub open spec fn spec_footnote_mark(s: Seq<char>) -> Option<(Seq<char>, usize)> {
    match spec_strip_suffix(s, "\\fn1"@) {
        Some(text) => Some((text, 0usize)),
        None => match spec_strip_suffix(s, "\\footnotemark[1]"@) {
            Some(text) => Some((text, 0usize)),
            None => match spec_strip_suffix(s, "\\fnb"@) {
                Some(text) => Some((text, 1usize)),
                None => None,
            },
        },
    }
}

/// A cell split into what it says and the footnote it refers to. A cell
/// that ends in no footnote mark is handed back whole. Else the mark goes,
/// and the white space around the rest; nothing is left where the cell was
/// the mark alone. A mark that names a footnote that the table does not have
/// is refused.
pub open spec fn spec_extract_footnote_ref(cell: Seq<char>, footnotes: nat) -> Result<
    (Option<Seq<char>>, Option<usize>),
    ParseError,
> {
    match spec_footnote_mark(cell) {
        None => Ok((Some(cell), None)),
        Some((text, index)) => {
            if index >= footnotes {
                Err(ParseError::MissingFootnote)
            } else {
                let text = spec_trim(text);
                if text.len() == 0 {
                    Ok((None, Some(index)))
                } else {
                    Ok((Some(text), Some(index)))
                }
            }
        },
    }
}

/// The view of a cell split into text and footnote reference.
pub open spec fn footnote_ref_view(r: (Option<&[char]>, Option<usize>)) -> (
    Option<Seq<char>>,
    Option<usize>,
) {
    (crate::text::slice_opt_view(r.0), r.1)
}

/// Splits a cell into what it says and the footnote it refers to, for a
/// table with `footnotes` footnotes.
pub fn extract_footnote_ref(cell: &[char], footnotes: usize) -> (r: Result<
    (Option<&[char]>, Option<usize>),
    ParseError,
>)
    ensures
        match r {
            Ok(pair) => spec_extract_footnote_ref(cell@, footnotes as nat) == Ok::<
                (Option<Seq<char>>, Option<usize>),
                ParseError,
            >(footnote_ref_view(pair)),
            Err(e) => spec_extract_footnote_ref(cell@, footnotes as nat) == Err::<
                (Option<Seq<char>>, Option<usize>),
                ParseError,
            >(e),
        },
        r matches Ok(pair) ==> footnote_in_range(pair.1, footnotes as nat),
{
    let (text, index): (&[char], usize) = match strip_suffix(cell, "\\fn1") {
        Some(text) => (text, 0),
        None => match strip_suffix(cell, "\\footnotemark[1]") {
            Some(text) => (text, 0),
            None => match strip_suffix(cell, "\\fnb") {
                Some(text) => (text, 1),
                None => {
                    return Ok((Some(cell), None));
                },
            },
        },
    };
    if index >= footnotes {
        return Err(ParseError::MissingFootnote);
    }
    let text = trim(text);
    if text.len() == 0 {
        Ok((None, Some(index)))
    } else {
        Ok((Some(text), Some(index)))
    }
}

// ---------------------------------------------------------------------------
// Merging
// ---------------------------------------------------------------------------

/// Whether the entry `e` of a table continues the run of entries that a new
/// entry `n` may be merged into: it stands under a condition, and has the
/// type, the command, the initial value, the description and the attribute
/// of `n`.
pub open spec fn similar(e: EntryModel, n: EntryModel) -> bool {
    &&& e.condition is Some
    &&& e.type_ == n.type_
    &&& e.get_cmnd == n.get_cmnd
    &&& e.initial_value == n.initial_value
    &&& e.description == n.description
    &&& e.attribute == n.attribute
}

/// Looking back from the entry in front of index `k`: the index of the entry
/// that `n` is merged into. The search passes entries that are similar to
/// `n`, stops at the first that is not, and finds the first that has the
/// `get_value` of `n`.
pub open spec fn merge_target(entries: Seq<EntryModel>, n: EntryModel, k: int) -> Option<int>
    decreases k,
{
    if k <= 0 || k > entries.len() {
        None
    } else if !similar(entries[k - 1], n) {
        None
    } else if entries[k - 1].get_value == n.get_value {
        Some(k - 1)
    } else {
        merge_target(entries, n, k - 1)
    }
}

/// The entries of a table after a new entry has arrived. An entry under no
/// condition is appended. An entry under a condition is merged into the
/// entry that the search finds: that entry loses its condition, and the new
/// one is dropped; where the search finds none, it is appended. Two entries
/// to be merged under one and the same condition are refused.
pub open spec fn spec_push_entry(entries: Seq<EntryModel>, n: EntryModel) -> Result<
    Seq<EntryModel>,
    ParseError,
> {
    if n.condition is None {
        Ok(entries.push(n))
    } else {
        match merge_target(entries, n, entries.len() as int) {
            Some(k) => {
                if entries[k].condition == n.condition {
                    Err(ParseError::DuplicateEntry)
                } else {
                    Ok(entries.update(k, entries[k].unconditioned()))
                }
            },
            None => Ok(entries.push(n)),
        }
    }
}

/// A merge target is an entry of the table, under a condition.
pub proof fn lemma_merge_target(entries: Seq<EntryModel>, n: EntryModel, k: int)
    ensures
        merge_target(entries, n, k) matches Some(t) ==> 0 <= t < k <= entries.len() && similar(
            entries[t],
            n,
        ) && entries[t].get_value == n.get_value,
    decreases k,
{
    if k <= 0 || k > entries.len() {
    } else if !similar(entries[k - 1], n) {
    } else if entries[k - 1].get_value == n.get_value {
    } else {
        lemma_merge_target(entries, n, k - 1);
    }
}

/// Whether an entry of a table continues the run of entries that a new
/// entry may be merged into.
fn is_similar(e: &Entry, n: &Entry) -> (r: bool)
    ensures
        r == similar(e.deep_view(), n.deep_view()),
{
    e.condition.is_some() && same_opt_type(&e.type_, &n.type_) && same_opt_string(
        &e.get_cmnd,
        &n.get_cmnd,
    ) && same_opt_string(&e.initial_value, &n.initial_value) && same_str(
        e.description.as_str(),
        n.description.as_str(),
    ) && same_opt_string(&e.attribute, &n.attribute)
}

/// The index of the entry that a new entry is merged into, if there is one.
pub fn find_merge_target(entries: &Vec<Entry>, new_entry: &Entry) -> (r: Option<usize>)
    ensures
        match r {
            Some(k) => merge_target(
                entries.deep_view(),
                new_entry.deep_view(),
                entries.len() as int,
            ) == Some(k as int) && k < entries.len(),
            None => merge_target(entries.deep_view(), new_entry.deep_view(), entries.len() as int)
                is None,
        },
{
    let mut k: usize = entries.len();
    while k > 0
        invariant
            k <= entries.len(),
            merge_target(entries.deep_view(), new_entry.deep_view(), k as int) == merge_target(
                entries.deep_view(),
                new_entry.deep_view(),
                entries.len() as int,
            ),
        decreases k,
    {
        let e = &entries[k - 1];
        assert(entries.deep_view()[k - 1] == e.deep_view());
        if !is_similar(e, new_entry) {
            return None;
        }
        if same_opt_string(&e.get_value, &new_entry.get_value) {
            return Some(k - 1);
        }
        k -= 1;
    }
    None
}

/// Whether two optional conditions are the same.
fn same_condition(a: Option<Condition>, b: Option<Condition>) -> (r: bool)
    ensures
        r == (a == b),
{
    match (a, b) {
        (Some(x), Some(y)) => x == y,
        (None, None) => true,
        _ => false,
    }
}

/// Adds a new entry to the entries of a table, or merges it into the entry
/// that it complements.
pub fn push_entry(entries: &mut Vec<Entry>, new_entry: Entry) -> (r: Result<(), ParseError>)
    ensures
        match r {
            Ok(()) => spec_push_entry(old(entries).deep_view(), new_entry.deep_view()) == Ok::<
                Seq<EntryModel>,
                ParseError,
            >(final(entries).deep_view()),
            Err(e) => spec_push_entry(old(entries).deep_view(), new_entry.deep_view()) == Err::<
                Seq<EntryModel>,
                ParseError,
            >(e),
        },
{
    if new_entry.condition.is_some() {
        match find_merge_target(entries, &new_entry) {
            Some(k) => {
                if same_condition(entries[k].condition, new_entry.condition) {
                    return Err(ParseError::DuplicateEntry);
                }
                let mut merged = entries.remove(k);
                merged.condition = None;
                entries.insert(k, merged);
                assert(entries.deep_view() =~= old(entries).deep_view().update(
                    k as int,
                    old(entries).deep_view()[k as int].unconditioned(),
                ));
                return Ok(());
            },
            None => {},
        }
    }
    entries.push(new_entry);
    assert(entries.deep_view() =~= old(entries).deep_view().push(new_entry.deep_view()));
    Ok(())
}

} // verus!
