//! The opening of a table: its title, caption and label, and the footnotes
//! that its caption defines.

use crate::cell::{read_cell, spec_read_cell};
use crate::document::lemma_read_cell_len;
use crate::entry::{max_footnotes, EntryModel, Table, TableModel};
use crate::error::ParseError;
use crate::text::{
    contains, find, is_text, lemma_trim_start, spec_contains, spec_find, spec_split_once,
    spec_starts_with, spec_strip_prefix, spec_trim_start, spec_without_prefix, split_once,
    starts_with, strip_prefix, to_string, to_vec, trim_start, without_prefix,
};
use crate::unescape::{spec_unescape, unescape};
use vstd::prelude::*;
use vstd::slice::slice_subrange;

verus! {

/// The three macros that open a table. They differ in the cells that
/// follow them.
#[derive(Clone, Copy, Debug, PartialEq, Eq, Structural)]
pub enum TableKind {
    /// Title and caption in one cell, then the label.
    Plain,
    /// Title, caption and label.
    Index,
    /// Caption, label and title; the caption begins with the title.
    DifferentIndexCaption,
}

/// The kind of table that the name of a block opens, if any.
pub open spec fn spec_table_kind(name: Seq<char>) -> Option<TableKind> {
    if name == "statetable"@ {
        Some(TableKind::Plain)
    } else if name == "statetableindex"@ {
        Some(TableKind::Index)
    } else if name == "statetabledifferentindexcaption"@ {
        Some(TableKind::DifferentIndexCaption)
    } else {
        None
    }
}

/// The kind of table that the name of a block opens, if any.
pub fn table_kind(name: &[char]) -> (r: Option<TableKind>)
    ensures
        r == spec_table_kind(name@),
{
    if is_text(name, "statetable") {
        Some(TableKind::Plain)
    } else if is_text(name, "statetableindex") {
        Some(TableKind::Index)
    } else if is_text(name, "statetabledifferentindexcaption") {
        Some(TableKind::DifferentIndexCaption)
    } else {
        None
    }
}

// ---------------------------------------------------------------------------
// Title, caption and label
// ---------------------------------------------------------------------------

/// What stands at the head of a table.
pub struct HeaderModel {
    pub title: Seq<char>,
    pub caption: Option<Seq<char>>,
    pub label: Seq<char>,
}

/// What stands at the head of a table.
#[derive(Debug)]
pub struct Header {
    pub title: Vec<char>,
    pub caption: Option<Vec<char>>,
    pub label: Vec<char>,
}

impl DeepView for Header {
    type V = HeaderModel;

    open spec fn deep_view(&self) -> HeaderModel {
        HeaderModel {
            title: self.title@,
            caption: crate::normalize::opt_text(self.caption),
            label: self.label@,
        }
    }
}

/// A title and a caption made plain, with a label.
pub open spec fn spec_plain_header(title: Seq<char>, caption: Option<Seq<char>>, label: Seq<char>) -> Result<
    HeaderModel,
    ParseError,
> {
    match spec_unescape(title) {
        None => Err(ParseError::UnbalancedSpan),
        Some(title) => match caption {
            None => Ok(HeaderModel { title, caption: None, label }),
            Some(c) => match spec_unescape(c) {
                None => Err(ParseError::UnbalancedSpan),
                Some(c) => Ok(HeaderModel { title, caption: Some(c), label }),
            },
        },
    }
}

/// The head of a table whose title and caption stand in one cell. A line
/// break divides the two. A cell without one that refers to another table
/// is divided at its first blank. Any other cell is all title.
pub open spec fn spec_split_title(cell: Seq<char>, label: Seq<char>) -> Result<
    HeaderModel,
    ParseError,
> {
    match spec_split_once(cell, "\n"@) {
        Some((title, caption)) => spec_plain_header(title, Some(caption), label),
        None => {
            if spec_contains(cell, " (see also"@) {
                match spec_split_once(cell, " "@) {
                    Some((title, caption)) => spec_plain_header(title, Some(caption), label),
                    None => Err(ParseError::Malformed),
                }
            } else {
                spec_plain_header(cell, None, label)
            }
        },
    }
}

/// The head of a table whose caption repeats the title: the caption
/// without the title in front. A caption that does not begin with the
/// title is refused.
pub open spec fn spec_cut_caption(title: Seq<char>, caption: Seq<char>, label: Seq<char>) -> Result<
    HeaderModel,
    ParseError,
> {
    match spec_plain_header(title, Some(caption), label) {
        Err(e) => Err(e),
        Ok(h) => match spec_strip_prefix(h.caption.unwrap(), h.title) {
            None => Err(ParseError::Malformed),
            Some(c) => Ok(HeaderModel { caption: Some(c), ..h }),
        },
    }
}

/// The head of a table of the given kind, read from the cells that `text`
/// begins with, and the text behind these cells.
pub open spec fn spec_read_header(kind: TableKind, text: Seq<char>) -> Result<
    (HeaderModel, Seq<char>),
    ParseError,
> {
    match spec_read_cell(text) {
        None => Err(ParseError::UnbalancedSpan),
        Some((first, text)) => match spec_read_cell(text) {
            None => Err(ParseError::UnbalancedSpan),
            Some((second, text)) => match kind {
                TableKind::Plain => match spec_split_title(first, second) {
                    Err(e) => Err(e),
                    Ok(h) => Ok((h, text)),
                },
                TableKind::Index => match spec_read_cell(text) {
                    None => Err(ParseError::UnbalancedSpan),
                    Some((third, text)) => match spec_plain_header(first, Some(second), third) {
                        Err(e) => Err(e),
                        Ok(h) => Ok((h, text)),
                    },
                },
                TableKind::DifferentIndexCaption => match spec_read_cell(text) {
                    None => Err(ParseError::UnbalancedSpan),
                    Some((third, text)) => match spec_cut_caption(third, first, second) {
                        Err(e) => Err(e),
                        Ok(h) => Ok((h, text)),
                    },
                },
            },
        },
    }
}

/// The view of a header that may have been refused.
pub open spec fn header_view(r: Result<Header, ParseError>) -> Result<HeaderModel, ParseError> {
    match r {
        Ok(h) => Ok(h.deep_view()),
        Err(e) => Err(e),
    }
}

/// Makes a title and a caption plain.
fn plain_header(title: &[char], caption: Option<&[char]>, label: &[char]) -> (r: Result<
    Header,
    ParseError,
>)
    ensures
        header_view(r) == spec_plain_header(title@, crate::text::slice_opt_view(caption), label@),
{
    let title = match unescape(title) {
        Err(e) => {
            return Err(e);
        },
        Ok(t) => t,
    };
    match caption {
        None => Ok(Header { title, caption: None, label: to_vec(label) }),
        Some(c) => match unescape(c) {
            Err(e) => Err(e),
            Ok(c) => Ok(Header { title, caption: Some(c), label: to_vec(label) }),
        },
    }
}

/// Reads the head of a table whose title and caption stand in one cell.
fn split_title(cell: &[char], label: &[char]) -> (r: Result<Header, ParseError>)
    ensures
        header_view(r) == spec_split_title(cell@, label@),
{
    match split_once(cell, "\n") {
        Some((title, caption)) => plain_header(title, Some(caption), label),
        None => {
            if contains(cell, " (see also") {
                match split_once(cell, " ") {
                    Some((title, caption)) => plain_header(title, Some(caption), label),
                    None => Err(ParseError::Malformed),
                }
            } else {
                plain_header(cell, None, label)
            }
        },
    }
}

/// Reads the head of a table whose caption repeats the title.
fn cut_caption(title: &[char], caption: &[char], label: &[char]) -> (r: Result<Header, ParseError>)
    ensures
        header_view(r) == spec_cut_caption(title@, caption@, label@),
{
    match plain_header(title, Some(caption), label) {
        Err(e) => Err(e),
        Ok(h) => {
            let Header { title, caption, label } = h;
            let c = match caption {
                Some(c) => c,
                None => {
                    return Err(ParseError::Malformed);
                },
            };
            if crate::text::occurs_at(c.as_slice(), title.as_slice(), 0) {
                let rest = to_vec(slice_subrange(c.as_slice(), title.len(), c.len()));
                Ok(Header { title, caption: Some(rest), label })
            } else {
                Err(ParseError::Malformed)
            }
        },
    }
}

/// The view of a header and the text behind it.
pub open spec fn read_header_view(r: Result<(Header, &[char]), ParseError>) -> Result<
    (HeaderModel, Seq<char>),
    ParseError,
> {
    match r {
        Ok((h, rest)) => Ok((h.deep_view(), rest@)),
        Err(e) => Err(e),
    }
}

/// Reads the head of a table of the given kind from the cells that `text`
/// begins with.
pub fn read_header(kind: TableKind, text: &[char]) -> (r: Result<(Header, &[char]), ParseError>)
    ensures
        read_header_view(r) == spec_read_header(kind, text@),
        r matches Ok((h, rest)) ==> rest@.len() < text@.len(),
{
    proof {
        lemma_read_cell_len(text@);
    }
    let (first, text) = match read_cell(text) {
        Err(e) => {
            return Err(e);
        },
        Ok(p) => p,
    };
    proof {
        lemma_read_cell_len(text@);
    }
    let (second, text) = match read_cell(text) {
        Err(e) => {
            return Err(e);
        },
        Ok(p) => p,
    };
    proof {
        lemma_read_cell_len(text@);
    }
    match kind {
        TableKind::Plain => match split_title(first, second) {
            Err(e) => Err(e),
            Ok(h) => Ok((h, text)),
        },
        TableKind::Index => match read_cell(text) {
            Err(e) => Err(e),
            Ok((third, text)) => match plain_header(first, Some(second), third) {
                Err(e) => Err(e),
                Ok(h) => Ok((h, text)),
            },
        },
        TableKind::DifferentIndexCaption => match read_cell(text) {
            Err(e) => Err(e),
            Ok((third, text)) => match cut_caption(third, first, second) {
                Err(e) => Err(e),
                Ok(h) => Ok((h, text)),
            },
        },
    }
}

// ---------------------------------------------------------------------------
// Footnotes in the caption
// ---------------------------------------------------------------------------

/// The mark that the footnote with the given index begins with.
pub open spec fn footnote_sign(index: nat) -> Seq<char> {
    if index == 0 {
        "\\fn1"@
    } else {
        "\\fnb"@
    }
}

/// The text of the footnote with the given index, read from a paragraph of
/// the caption: what stands behind the paragraph mark and the mark of the
/// footnote. A paragraph without these is refused, and so is a footnote
/// behind the last that a table can hold.
pub open spec fn spec_footnote_text(paragraph: Seq<char>, index: nat) -> Result<
    Seq<char>,
    ParseError,
> {
    match spec_strip_prefix(paragraph, "\\par"@) {
        None => Err(ParseError::Malformed),
        Some(t) => {
            if index >= max_footnotes() {
                Err(ParseError::TooManyFootnotes)
            } else {
                match spec_strip_prefix(spec_trim_start(t), footnote_sign(index)) {
                    None => Err(ParseError::Malformed),
                    Some(t) => Ok(spec_trim_start(t)),
                }
            }
        },
    }
}

/// The paragraph that `r` begins with, and the text behind it. A paragraph
/// is a cell that begins with the paragraph mark, or the text from a
/// paragraph mark up to the next.
pub open spec fn spec_next_paragraph(r: Seq<char>) -> Result<
    Option<(Seq<char>, Seq<char>)>,
    ParseError,
> {
    if spec_starts_with(r, "{\\par"@) {
        match spec_read_cell(r) {
            None => Err(ParseError::UnbalancedSpan),
            Some(p) => Ok(Some(p)),
        }
    } else if spec_starts_with(r, "\\par"@) {
        let end = match spec_find(r.subrange(1, r.len() as int), "\\par"@) {
            Some(i) => i + 1,
            None => r.len() as int,
        };
        Ok(Some((r.subrange(0, end), r.subrange(end, r.len() as int))))
    } else if r.len() == 0 {
        Ok(None)
    } else {
        Err(ParseError::Malformed)
    }
}

/// The footnotes that the paragraphs of `remaining` define, behind the
/// footnotes `found` so far.
/// The test on the lengths in it always passes, since what is left to read
/// is shorter than what was read; it is there to show that the reading
/// ends.
pub open spec fn spec_read_footnotes(remaining: Seq<char>, found: Seq<Seq<char>>) -> Result<
    Seq<Seq<char>>,
    ParseError,
>
    decreases remaining.len(),
{
    match spec_next_paragraph(spec_trim_start(remaining)) {
        Err(e) => Err(e),
        Ok(None) => Ok(found),
        Ok(Some((paragraph, rest))) => match spec_footnote_text(paragraph, found.len()) {
            Err(e) => Err(e),
            Ok(text) => {
                if rest.len() < remaining.len() {
                    spec_read_footnotes(rest, found.push(text))
                } else {
                    Err(ParseError::Malformed)
                }
            },
        },
    }
}

/// The caption of a table and its footnotes. A caption that holds a
/// footnote mark is read as footnotes and is then no caption any more.
pub open spec fn spec_caption_footnotes(caption: Option<Seq<char>>) -> Result<
    (Option<Seq<char>>, Seq<Seq<char>>),
    ParseError,
> {
    match caption {
        Some(c) => {
            if spec_contains(c, "\\fn"@) {
                match spec_read_footnotes(c, Seq::empty()) {
                    Err(e) => Err(e),
                    Ok(found) => Ok((None, found)),
                }
            } else {
                Ok((caption, Seq::empty()))
            }
        },
        None => Ok((None, Seq::empty())),
    }
}

/// The view of a footnote text that may have been refused.
pub open spec fn slice_result_view(r: Result<&[char], ParseError>) -> Result<Seq<char>, ParseError> {
    match r {
        Ok(s) => Ok(s@),
        Err(e) => Err(e),
    }
}

/// Reads the text of the footnote with the given index from a paragraph.
fn footnote_text(paragraph: &[char], index: usize) -> (r: Result<&[char], ParseError>)
    ensures
        slice_result_view(r) == spec_footnote_text(paragraph@, index as nat),
{
    match strip_prefix(paragraph, "\\par") {
        None => Err(ParseError::Malformed),
        Some(t) => {
            if index >= 2 {
                Err(ParseError::TooManyFootnotes)
            } else {
                let t = trim_start(t);
                let stripped = if index == 0 {
                    strip_prefix(t, "\\fn1")
                } else {
                    strip_prefix(t, "\\fnb")
                };
                match stripped {
                    None => Err(ParseError::Malformed),
                    Some(t) => Ok(trim_start(t)),
                }
            }
        },
    }
}

/// The view of a paragraph and the text behind it.
pub open spec fn paragraph_view(r: Result<Option<(&[char], &[char])>, ParseError>) -> Result<
    Option<(Seq<char>, Seq<char>)>,
    ParseError,
> {
    match r {
        Ok(p) => Ok(crate::text::slice_pair_view(p)),
        Err(e) => Err(e),
    }
}

/// Reads the paragraph that `r` begins with.
fn next_paragraph(r: &[char]) -> (out: Result<Option<(&[char], &[char])>, ParseError>)
    ensures
        paragraph_view(out) == spec_next_paragraph(r@),
        out matches Ok(Some((p, rest))) ==> rest@.len() < r@.len(),
{
    proof {
        reveal_strlit("\\par");
        lemma_read_cell_len(r@);
    }
    if starts_with(r, "{\\par") {
        match read_cell(r) {
            Err(e) => Err(e),
            Ok(p) => Ok(Some(p)),
        }
    } else if starts_with(r, "\\par") {
        let tail = slice_subrange(r, 1, r.len());
        let end: usize = match find(tail, "\\par") {
            Some(i) => i + 1,
            None => r.len(),
        };
        Ok(Some((slice_subrange(r, 0, end), slice_subrange(r, end, r.len()))))
    } else if r.len() == 0 {
        Ok(None)
    } else {
        Err(ParseError::Malformed)
    }
}

/// The view of footnotes that may have been refused.
pub open spec fn footnotes_view(r: Result<Vec<String>, ParseError>) -> Result<
    Seq<Seq<char>>,
    ParseError,
> {
    match r {
        Ok(f) => Ok(f.deep_view()),
        Err(e) => Err(e),
    }
}

/// Reads the footnotes that the paragraphs of a caption define.
fn read_footnotes(caption: &[char]) -> (r: Result<Vec<String>, ParseError>)
    ensures
        footnotes_view(r) == spec_read_footnotes(caption@, Seq::empty()),
        r matches Ok(f) ==> f.len() <= max_footnotes(),
{
    let mut found: Vec<String> = Vec::new();
    let mut remaining: &[char] = caption;
    assert(found.deep_view() =~= Seq::<Seq<char>>::empty());
    loop
        invariant
            found.len() <= max_footnotes(),
            spec_read_footnotes(remaining@, found.deep_view()) == spec_read_footnotes(
                caption@,
                Seq::empty(),
            ),
        ensures
            found.len() <= max_footnotes(),
            footnotes_view(Ok(found)) == spec_read_footnotes(caption@, Seq::empty()),
        decreases remaining@.len(),
    {
        proof {
            lemma_trim_start(remaining@);
        }
        let r = trim_start(remaining);
        match next_paragraph(r) {
            Err(e) => {
                return Err(e);
            },
            Ok(None) => {
                break ;
            },
            Ok(Some((paragraph, rest))) => match footnote_text(paragraph, found.len()) {
                Err(e) => {
                    return Err(e);
                },
                Ok(text) => {
                    let ghost before = found.deep_view();
                    found.push(to_string(text));
                    assert(found.deep_view() =~= before.push(text@));
                    remaining = rest;
                },
            },
        }
    }
    Ok(found)
}

// ---------------------------------------------------------------------------
// The table
// ---------------------------------------------------------------------------

/// The table that a header opens: without entries, and with the footnotes
/// that the caption defines.
pub open spec fn spec_new_table(header: HeaderModel) -> Result<TableModel, ParseError> {
    match spec_caption_footnotes(header.caption) {
        Err(e) => Err(e),
        Ok((caption, footnotes)) => Ok(
            TableModel {
                title: header.title,
                caption,
                label: header.label,
                footnotes,
                entries: Seq::empty(),
            },
        ),
    }
}

/// The view of a table that may have been refused.
pub open spec fn table_view(r: Result<Table, ParseError>) -> Result<TableModel, ParseError> {
    match r {
        Ok(t) => Ok(t.deep_view()),
        Err(e) => Err(e),
    }
}

/// Makes the table that a header opens.
pub fn new_table(header: Header) -> (r: Result<Table, ParseError>)
    ensures
        table_view(r) == spec_new_table(header.deep_view()),
        r matches Ok(t) ==> t.deep_view().wf(),
{
    let Header { title, caption, label } = header;
    let (caption, footnotes): (Option<String>, Vec<String>) = match caption {
        Some(c) => {
            if contains(c.as_slice(), "\\fn") {
                match read_footnotes(c.as_slice()) {
                    Err(e) => {
                        return Err(e);
                    },
                    Ok(found) => (None, found),
                }
            } else {
                (Some(to_string(c.as_slice())), Vec::new())
            }
        },
        None => (None, Vec::new()),
    };
    let table = Table {
        title: to_string(title.as_slice()),
        caption,
        label: to_string(label.as_slice()),
        footnotes,
        entries: Vec::new(),
    };
    assert(table.entries.deep_view() =~= Seq::<EntryModel>::empty());
    assert(table.footnotes.deep_view().len() == table.footnotes.len());
    assert(footnotes.len() == 0 ==> footnotes.deep_view() =~= Seq::<Seq<char>>::empty());
    Ok(table)
}

/// What the opening of a block gives.
pub open spec fn spec_open_table(text: Seq<char>) -> Result<
    (Option<TableModel>, Seq<char>),
    ParseError,
> {
    match spec_find(text, "{"@) {
        None => Err(ParseError::Malformed),
        Some(i) => match spec_read_cell(text.subrange(i, text.len() as int)) {
            None => Err(ParseError::UnbalancedSpan),
            Some((name, rest)) => match spec_table_kind(name) {
                None => Ok((None, rest)),
                Some(kind) => match spec_read_header(
                    kind,
                    spec_without_prefix(rest, "[\\dobar]"@),
                ) {
                    Err(e) => Err(e),
                    Ok((header, rest)) => match spec_new_table(header) {
                        Err(e) => Err(e),
                        Ok(table) => Ok((Some(table), rest)),
                    },
                },
            },
        },
    }
}

/// The view of what the opening of a block gives.
pub open spec fn open_table_view(r: Result<(Option<Table>, &[char]), ParseError>) -> Result<
    (Option<TableModel>, Seq<char>),
    ParseError,
> {
    match r {
        Ok((t, rest)) => Ok((t.deep_view(), rest@)),
        Err(e) => Err(e),
    }
}

/// Reads the opening of a block, which `text` begins with: the name
/// of the block, and the head of the table where the block is
/// a table. Hands out the table, if it is one, and the text behind what
/// was read.
pub fn open_table(text: &[char]) -> (r: Result<(Option<Table>, &[char]), ParseError>)
    ensures
        open_table_view(r) == spec_open_table(text@),
        r matches Ok((t, rest)) ==> rest@.len() < text@.len(),
        r matches Ok((Some(t), rest)) ==> t.deep_view().wf(),
{
    let i = match find(text, "{") {
        None => {
            return Err(ParseError::Malformed);
        },
        Some(i) => i,
    };
    proof {
        reveal_strlit("{");
        reveal_strlit("[\\dobar]");
    }
    assert(i < text@.len());
    let cell = slice_subrange(text, i, text.len());
    proof {
        lemma_read_cell_len(cell@);
    }
    let (name, rest) = match read_cell(cell) {
        Err(e) => {
            return Err(e);
        },
        Ok(p) => p,
    };
    match table_kind(name) {
        None => Ok((None, rest)),
        Some(kind) => {
            let rest = without_prefix(rest, "[\\dobar]");
            match read_header(kind, rest) {
                Err(e) => Err(e),
                Ok((header, rest)) => match new_table(header) {
                    Err(e) => Err(e),
                    Ok(table) => Ok((Some(table), rest)),
                },
            }
        },
    }
}

} // verus!
