//! A document as it is read: the attribution at its head, its macro
//! definitions and its body, and the named constants that the definitions
//! give.

use crate::cell::{lemma_read_group_len, read_cell, spec_read_cell, spec_read_group};
use crate::error::ParseError;
use crate::normalize::{Constant, ConstantModel};
use crate::text::{
    append, append_str, find, is_text, lemma_trim_end, spec_find, spec_split, spec_starts_with,
    spec_strip_prefix, spec_trim_end, spec_trim_start, spec_without_suffix, split, starts_with,
    strip_prefix, to_chars, to_vec, trim_end, trim_start, without_suffix,
};
use vstd::prelude::*;
use vstd::slice::slice_subrange;

verus! {

// ---------------------------------------------------------------------------
// Lines
// ---------------------------------------------------------------------------

/// The lines of a text. A line ends at a line feed, and a carriage return
/// in front of the line feed belongs to the end of the line. What stands
/// behind the last line feed is a line too, unless it is empty.
pub open spec fn spec_lines(text: Seq<char>) -> Seq<Seq<char>> {
    let pieces = spec_split(text, '\n');
    let count = if pieces.len() > 0 && pieces.last().len() == 0 {
        pieces.len() - 1
    } else {
        pieces.len() as int
    };
    Seq::new(
        count as nat,
        |i: int|
            if i < pieces.len() - 1 {
                spec_without_suffix(pieces[i], "\r"@)
            } else {
                pieces[i]
            },
    )
}

/// The index of the first comment marker in `s` at or behind `i` that no
/// escape marker stands in front of, or the length of `s` where there is
/// none.
pub open spec fn spec_comment_start(s: Seq<char>, i: int) -> int
    decreases s.len() - i,
{
    if 0 <= i < s.len() && !(s[i] == '%' && !(i > 0 && s[i - 1] == '\\')) {
        spec_comment_start(s, i + 1)
    } else {
        i
    }
}

/// `s` without the comment at its end.
pub open spec fn spec_strip_comment(s: Seq<char>) -> Seq<char> {
    s.subrange(0, spec_comment_start(s, 0))
}

/// What a line says: the line without the white space in front, without
/// the comment at its end, and without the white space in front of that.
pub open spec fn spec_clean_line(line: Seq<char>) -> Seq<char> {
    spec_trim_end(spec_strip_comment(spec_trim_start(line)))
}

/// `s` without the comment at its end.
pub fn strip_comment(s: &[char]) -> (r: &[char])
    ensures
        r@ == spec_strip_comment(s@),
{
    let mut i: usize = 0;
    while i < s.len() && !(s[i] == '%' && !(i > 0 && s[i - 1] == '\\'))
        invariant
            i <= s.len(),
            spec_comment_start(s@, i as int) == spec_comment_start(s@, 0),
        decreases s.len() - i,
    {
        i += 1;
    }
    slice_subrange(s, 0, i)
}

/// What a line says.
pub fn clean_line(line: &[char]) -> (r: &[char])
    ensures
        r@ == spec_clean_line(line@),
{
    trim_end(strip_comment(trim_start(line)))
}

// ---------------------------------------------------------------------------
// The parts of a document
// ---------------------------------------------------------------------------

/// The parts of a document.
#[derive(Debug)]
pub struct Document {
    /// The attribution at the head of the document.
    pub copyright: Vec<char>,
    /// The macro definitions: what the lines in front of the divider say.
    pub defs: Vec<char>,
    /// The body: what the lines from the divider on say.
    pub body: Vec<char>,
}

/// What a `Document` stands for.
pub struct DocumentModel {
    pub copyright: Seq<char>,
    pub defs: Seq<char>,
    pub body: Seq<char>,
}

impl DeepView for Document {
    type V = DocumentModel;

    open spec fn deep_view(&self) -> DocumentModel {
        DocumentModel { copyright: self.copyright@, defs: self.defs@, body: self.body@ }
    }
}

/// The line that divides the macro definitions from the body.
pub open spec fn divider() -> Seq<char> {
    "%%%%%%%%%%%%%%%%%%%%%%%%%%%%%%%%%%%%%%%%%%%%%%%%%%%%%%%%%%%%%%%%%%%%%%%%%%%%%%%%"@
}

/// The number of lines that the attribution takes.
pub open spec fn attribution_lines() -> int {
    3
}

/// A document after the line with the given index has been read, and
/// whether the divider has been met. A line of the attribution begins with
/// a comment marker and a blank, which do not belong to it. Of the other
/// lines, each that says something goes to the body where the divider has
/// been met, and to the macro definitions where it has not.
pub open spec fn spec_add_line(doc: DocumentModel, met: bool, index: int, line: Seq<char>) -> Result<
    (DocumentModel, bool),
    ParseError,
> {
    if index < attribution_lines() {
        match spec_strip_prefix(line, "% "@) {
            None => Err(ParseError::Malformed),
            Some(t) => Ok((DocumentModel { copyright: doc.copyright + t + "\n"@, ..doc }, met)),
        }
    } else {
        let met = met || line == divider();
        let clean = spec_clean_line(line);
        if clean.len() == 0 {
            Ok((doc, met))
        } else if met {
            Ok((DocumentModel { body: doc.body + clean + "\n"@, ..doc }, met))
        } else {
            Ok((DocumentModel { defs: doc.defs + clean + "\n"@, ..doc }, met))
        }
    }
}

/// A document after the lines from index `i` on have been read.
pub open spec fn spec_add_lines(doc: DocumentModel, met: bool, lines: Seq<Seq<char>>, i: int) -> Result<
    DocumentModel,
    ParseError,
>
    decreases lines.len() - i,
{
    if 0 <= i < lines.len() {
        match spec_add_line(doc, met, i, lines[i]) {
            Err(e) => Err(e),
            Ok((doc, met)) => spec_add_lines(doc, met, lines, i + 1),
        }
    } else {
        Ok(doc)
    }
}

/// The parts of the document that a text holds.
pub open spec fn spec_split_document(text: Seq<char>) -> Result<DocumentModel, ParseError> {
    spec_add_lines(
        DocumentModel { copyright: Seq::empty(), defs: Seq::empty(), body: Seq::empty() },
        false,
        spec_lines(text),
        0,
    )
}

/// The view of a document that may have been refused.
pub open spec fn document_view(r: Result<Document, ParseError>) -> Result<
    DocumentModel,
    ParseError,
> {
    match r {
        Ok(d) => Ok(d.deep_view()),
        Err(e) => Err(e),
    }
}

/// Splits the text of a document into its parts.
pub fn split_document(text: &[char]) -> (r: Result<Document, ParseError>)
    ensures
        document_view(r) == spec_split_document(text@),
{
    let pieces = split(text, '\n');
    let count: usize = if pieces.len() > 0 && pieces[pieces.len() - 1].len() == 0 {
        pieces.len() - 1
    } else {
        pieces.len()
    };
    let ghost lines = spec_lines(text@);
    assert(crate::text::slices_view(pieces@).last() == pieces@.last()@ || pieces.len() == 0);
    assert(lines.len() == count);
    let mut doc = Document { copyright: Vec::new(), defs: Vec::new(), body: Vec::new() };
    let mut met = false;
    let mut i: usize = 0;
    while i < count
        invariant
            i <= count <= pieces.len(),
            lines == spec_lines(text@),
            lines.len() == count,
            crate::text::slices_view(pieces@) == spec_split(text@, '\n'),
            spec_add_lines(doc.deep_view(), met, lines, i as int) == spec_split_document(text@),
        decreases count - i,
    {
        assert(crate::text::slices_view(pieces@)[i as int] == pieces@[i as int]@);
        let line: &[char] = if i + 1 < pieces.len() {
            without_suffix(pieces[i], "\r")
        } else {
            pieces[i]
        };
        assert(line@ == lines[i as int]);
        let ghost before = doc.deep_view();
        if i < 3 {
            match strip_prefix(line, "% ") {
                None => {
                    return Err(ParseError::Malformed);
                },
                Some(t) => {
                    append(&mut doc.copyright, t);
                    append_str(&mut doc.copyright, "\n");
                },
            }
        } else {
            if !met && is_text(
                line,
                "%%%%%%%%%%%%%%%%%%%%%%%%%%%%%%%%%%%%%%%%%%%%%%%%%%%%%%%%%%%%%%%%%%%%%%%%%%%%%%%%",
            ) {
                met = true;
            }
            let clean = clean_line(line);
            if clean.len() > 0 {
                if met {
                    append(&mut doc.body, clean);
                    append_str(&mut doc.body, "\n");
                } else {
                    append(&mut doc.defs, clean);
                    append_str(&mut doc.defs, "\n");
                }
            }
        }
        i += 1;
    }
    Ok(doc)
}

// ---------------------------------------------------------------------------
// Named constants
// ---------------------------------------------------------------------------

/// The named constants that the macro definitions in `text` give, behind
/// the constants `found` so far. The text is read from macro to macro. A
/// definition of a macro whose name begins with `m` gives a constant: the
/// name runs up to the opening delimiter, and the cell behind it is the
/// text that the constant stands for. The first conditional ends the
/// reading. Every other macro is passed over.
/// The test on the lengths in it always passes, since what is left to read
/// is shorter than what was read; it is there to show that the reading
/// ends.
pub open spec fn spec_scan_constants(text: Seq<char>, found: Seq<ConstantModel>) -> Result<
    Seq<ConstantModel>,
    ParseError,
>
    decreases text.len(),
{
    match spec_find(text, "\\"@) {
        None => Ok(found),
        Some(i) => {
            let t = text.subrange(i, text.len() as int);
            match spec_strip_prefix(t, "\\def\\m"@) {
                Some(def) => match spec_find(def, "{"@) {
                    None => Err(ParseError::Malformed),
                    Some(j) => match spec_read_cell(def.subrange(j, def.len() as int)) {
                        None => Err(ParseError::UnbalancedSpan),
                        Some((value, rest)) => {
                            if rest.len() < text.len() {
                                spec_scan_constants(
                                    rest,
                                    found.push(
                                        ConstantModel {
                                            name: "\\m"@ + def.subrange(0, j),
                                            value,
                                        },
                                    ),
                                )
                            } else {
                                Err(ParseError::Malformed)
                            }
                        },
                    },
                },
                None => {
                    if spec_starts_with(t, "\\if"@) {
                        Ok(found)
                    } else if 0 < t.len() <= text.len() {
                        spec_scan_constants(t.subrange(1, t.len() as int), found)
                    } else {
                        Err(ParseError::Malformed)
                    }
                },
            }
        },
    }
}

/// The named constants that macro definitions give.
pub open spec fn spec_constants(defs: Seq<char>) -> Result<Seq<ConstantModel>, ParseError> {
    spec_scan_constants(defs, Seq::empty())
}

/// The view of constants that may have been refused.
pub open spec fn constants_view(r: Result<Vec<Constant>, ParseError>) -> Result<
    Seq<ConstantModel>,
    ParseError,
> {
    match r {
        Ok(c) => Ok(c.deep_view()),
        Err(e) => Err(e),
    }
}

/// What is left of a cell and the text behind it is shorter than the text
/// they were read from.
pub proof fn lemma_read_cell_len(s: Seq<char>)
    ensures
        spec_read_cell(s) matches Some((cell, rest)) ==> cell.len() + rest.len() + 2 <= s.len(),
{
    lemma_read_group_len(s);
    if let Some((inner, rest)) = spec_read_group(s) {
        crate::text::lemma_trim_start(inner);
        lemma_trim_end(spec_trim_start(inner));
    }
}

/// Reads the named constants that macro definitions give.
pub fn constants(defs: &[char]) -> (r: Result<Vec<Constant>, ParseError>)
    ensures
        constants_view(r) == spec_constants(defs@),
{
    let mut found: Vec<Constant> = Vec::new();
    let mut text: &[char] = defs;
    assert(found.deep_view() =~= Seq::<ConstantModel>::empty());
    proof {
        reveal_strlit("\\");
        reveal_strlit("\\def\\m");
        reveal_strlit("{");
    }
    loop
        invariant
            spec_scan_constants(text@, found.deep_view()) == spec_constants(defs@),
            "\\"@.len() == 1,
            "\\def\\m"@.len() == 6,
            "{"@.len() == 1,
        ensures
            constants_view(Ok(found)) == spec_constants(defs@),
        decreases text@.len(),
    {
        let i = match find(text, "\\") {
            None => {
                break ;
            },
            Some(i) => i,
        };
        assert(i < text@.len());
        let t = slice_subrange(text, i, text.len());
        match strip_prefix(t, "\\def\\m") {
            Some(def) => {
                let j = match find(def, "{") {
                    None => {
                        return Err(ParseError::Malformed);
                    },
                    Some(j) => j,
                };
                assert(j < def@.len());
                let cell = slice_subrange(def, j, def.len());
                match read_cell(cell) {
                    Err(e) => {
                        return Err(e);
                    },
                    Ok((value, rest)) => {
                        proof {
                            lemma_read_cell_len(cell@);
                        }
                        let ghost before = found.deep_view();
                        let mut name = to_chars("\\m");
                        append(&mut name, slice_subrange(def, 0, j));
                        let c = Constant { name, value: to_vec(value) };
                        found.push(c);
                        assert(found.deep_view() =~= before.push(c.deep_view()));
                        text = rest;
                    },
                }
            },
            None => {
                if starts_with(t, "\\if") {
                    break ;
                }
                text = slice_subrange(t, 1, t.len());
            },
        }
    }
    Ok(found)
}

} // verus!
