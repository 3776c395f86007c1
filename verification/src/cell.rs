//! The reader for brace-delimited spans.

use crate::error::ParseError;
use crate::text::{spec_trim, trim};
use vstd::prelude::*;
use vstd::slice::slice_subrange;

verus! {

/// Whether the character at index `k` of `s` follows an escape marker.
pub open spec fn is_escaped(s: Seq<char>, k: int) -> bool {
    k > 0 && s[k - 1] == '\\'
}

/// Whether an opening delimiter that counts stands at index `k` of `s`.
pub open spec fn is_open(s: Seq<char>, k: int) -> bool {
    0 <= k < s.len() && s[k] == '{' && !is_escaped(s, k)
}

/// Whether a closing delimiter that counts stands at index `k` of `s`.
pub open spec fn is_close(s: Seq<char>, k: int) -> bool {
    0 <= k < s.len() && s[k] == '}' && !is_escaped(s, k)
}

/// Reading on from index `i` of `s` with `depth` spans open: the index just
/// behind the delimiter that closes the outermost span. There is none where
/// the text ends first, or where a span closes that was never opened.
pub open spec fn span_end(s: Seq<char>, i: int, depth: nat) -> Option<int>
    decreases s.len() - i,
{
    if i < 0 || i >= s.len() {
        None
    } else if is_open(s, i) {
        span_end(s, i + 1, depth + 1)
    } else if is_close(s, i) {
        if depth == 0 {
            None
        } else if depth == 1 {
            Some(i + 1)
        } else {
            span_end(s, i + 1, (depth - 1) as nat)
        }
    } else {
        span_end(s, i + 1, depth)
    }
}

/// The text strictly between the delimiters of the span that `s` begins
/// with, and the text behind that span. The span may follow white space, and
/// nothing else.
pub open spec fn spec_read_group(s: Seq<char>) -> Option<(Seq<char>, Seq<char>)> {
    match span_end(s, 0, 0) {
        Some(end) => {
            let span = spec_trim(s.subrange(0, end));
            if span.len() >= 2 && span[0] == '{' {
                Some((span.subrange(1, span.len() - 1), s.subrange(end, s.len() as int)))
            } else {
                None
            }
        },
        None => None,
    }
}

/// The content of the cell that `s` begins with, without the white space
/// around it, and the text behind the cell.
pub open spec fn spec_read_cell(s: Seq<char>) -> Option<(Seq<char>, Seq<char>)> {
    match spec_read_group(s) {
        Some((inner, rest)) => Some((spec_trim(inner), rest)),
        None => None,
    }
}

/// The end of a span lies in the text, behind its start.
pub proof fn lemma_span_end_bounds(s: Seq<char>, i: int, depth: nat)
    ensures
        span_end(s, i, depth) matches Some(end) ==> i < end <= s.len() && 0 <= i && s[end - 1]
            == '}',
    decreases s.len() - i,
{
    if i < 0 || i >= s.len() {
    } else if is_open(s, i) {
        lemma_span_end_bounds(s, i + 1, depth + 1);
    } else if is_close(s, i) {
        if depth > 1 {
            lemma_span_end_bounds(s, i + 1, (depth - 1) as nat);
        }
    } else {
        lemma_span_end_bounds(s, i + 1, depth);
    }
}

/// A span and the text behind it are shorter than the text they were read
/// from, by the two delimiters at least.
pub proof fn lemma_read_group_len(s: Seq<char>)
    ensures
        spec_read_group(s) matches Some((inner, rest)) ==> inner.len() + rest.len() + 2 <= s.len(),
{
    if let Some(end) = span_end(s, 0, 0) {
        lemma_span_end_bounds(s, 0, 0);
        let head = s.subrange(0, end);
        crate::text::lemma_trim_start(head);
        crate::text::lemma_trim_end(crate::text::spec_trim_start(head));
    }
}

/// The index just behind the delimiter that closes the span that `s` begins
/// with.
fn find_span_end(s: &[char]) -> (r: Option<usize>)
    ensures
        match r {
            Some(end) => span_end(s@, 0, 0) == Some(end as int) && end <= s.len(),
            None => span_end(s@, 0, 0) is None,
        },
{
    let mut i: usize = 0;
    let mut depth: usize = 0;
    while i < s.len()
        invariant
            i <= s.len(),
            depth <= i,
            span_end(s@, i as int, depth as nat) == span_end(s@, 0, 0),
        decreases s.len() - i,
    {
        let c = s[i];
        let escaped = i > 0 && s[i - 1] == '\\';
        if c == '{' && !escaped {
            depth += 1;
        } else if c == '}' && !escaped {
            if depth == 0 {
                return None;
            } else if depth == 1 {
                return Some(i + 1);
            }
            depth -= 1;
        }
        i += 1;
    }
    None
}

/// Reads the span that `s` begins with: the text strictly between its
/// delimiters, and the text behind it.
pub fn read_group(s: &[char]) -> (r: Result<(&[char], &[char]), ParseError>)
    ensures
        match r {
            Ok((inner, rest)) => spec_read_group(s@) == Some((inner@, rest@)),
            Err(e) => e == ParseError::UnbalancedSpan && spec_read_group(s@) is None,
        },
{
    match find_span_end(s) {
        Some(end) => {
            let span = trim(slice_subrange(s, 0, end));
            if span.len() >= 2 && span[0] == '{' {
                Ok((slice_subrange(span, 1, span.len() - 1), slice_subrange(s, end, s.len())))
            } else {
                Err(ParseError::UnbalancedSpan)
            }
        },
        None => Err(ParseError::UnbalancedSpan),
    }
}

/// Reads the cell that `s` begins with: its content without the white space
/// around it, and the text behind it. Text that does not begin with a
/// balanced span is refused.
pub fn read_cell(s: &[char]) -> (r: Result<(&[char], &[char]), ParseError>)
    ensures
        match r {
            Ok((cell, rest)) => spec_read_cell(s@) == Some((cell@, rest@)),
            Err(e) => e == ParseError::UnbalancedSpan && spec_read_cell(s@) is None,
        },
{
    match read_group(s) {
        Ok((inner, rest)) => Ok((trim(inner), rest)),
        Err(e) => Err(e),
    }
}

} // verus!
