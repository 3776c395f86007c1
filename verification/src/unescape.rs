//! Turning the text of a cell into plain text.

use crate::cell::{lemma_read_group_len, read_group, spec_read_group};
use crate::error::ParseError;
use crate::text::{
    append, find, is_space, replace, spec_find, spec_is_space, spec_replace, to_vec,
};
use vstd::prelude::*;
use vstd::slice::slice_subrange;

verus! {

// ---------------------------------------------------------------------------
// White space
// ---------------------------------------------------------------------------

/// The index of the first character of `s` at or behind `i` that is no
/// white space, or the length of `s` where there is none.
pub open spec fn spec_skip_space(s: Seq<char>, i: int) -> int
    decreases s.len() - i,
{
    if 0 <= i < s.len() && spec_is_space(s[i]) {
        spec_skip_space(s, i + 1)
    } else {
        i
    }
}

/// The index of the first character of `s` at or behind `i` that is white
/// space, or the length of `s` where there is none.
pub open spec fn spec_word_end(s: Seq<char>, i: int) -> int
    decreases s.len() - i,
{
    if 0 <= i < s.len() && !spec_is_space(s[i]) {
        spec_word_end(s, i + 1)
    } else {
        i
    }
}

/// Two texts with one blank between them, where neither is empty.
pub open spec fn spec_glue(a: Seq<char>, b: Seq<char>) -> Seq<char> {
    if a.len() == 0 {
        b
    } else if b.len() == 0 {
        a
    } else {
        a + seq![' '] + b
    }
}

/// The words of `s` from index `i` on, with one blank between each two. A
/// word is a longest run of characters that are no white space.
pub open spec fn spec_collapse_from(s: Seq<char>, i: int) -> Seq<char>
    decreases s.len() - i,
{
    let start = spec_skip_space(s, i);
    let end = spec_word_end(s, start);
    if i <= start < end <= s.len() {
        spec_glue(s.subrange(start, end), spec_collapse_from(s, end))
    } else {
        Seq::empty()
    }
}

/// The words of `s` with one blank between each two: every run of white
/// space becomes one blank, and none is left at either end.
pub open spec fn spec_collapse(s: Seq<char>) -> Seq<char> {
    spec_collapse_from(s, 0)
}

/// The words of `s` with one blank between each two.
pub fn collapse(s: &[char]) -> (out: Vec<char>)
    ensures
        out@ == spec_collapse(s@),
{
    let mut out: Vec<char> = Vec::new();
    let mut i: usize = 0;
    loop
        invariant
            i <= s.len(),
            spec_collapse(s@) == spec_glue(out@, spec_collapse_from(s@, i as int)),
        ensures
            out@ == spec_collapse(s@),
        decreases s.len() - i,
    {
        let ghost from = i;
        while i < s.len() && is_space(s[i])
            invariant
                from <= i <= s.len(),
                spec_skip_space(s@, i as int) == spec_skip_space(s@, from as int),
            decreases s.len() - i,
        {
            i += 1;
        }
        if i >= s.len() {
            break ;
        }
        let start = i;
        while i < s.len() && !is_space(s[i])
            invariant
                start <= i <= s.len(),
                start < s.len(),
                !spec_is_space(s@[start as int]),
                spec_word_end(s@, i as int) == spec_word_end(s@, start as int),
            decreases s.len() - i,
        {
            i += 1;
        }
        let ghost before = out@;
        let ghost word = s@.subrange(start as int, i as int);
        let ghost rest = spec_collapse_from(s@, i as int);
        assert(start < i);
        if out.len() > 0 {
            out.push(' ');
        }
        append(&mut out, slice_subrange(s, start, i));
        assert(out@ =~= spec_glue(before, word));
        assert(spec_glue(before, spec_glue(word, rest)) =~= spec_glue(spec_glue(before, word), rest));
    }
    out
}

// ---------------------------------------------------------------------------
// Markup
// ---------------------------------------------------------------------------

/// `s` without its change markers, with its white space collapsed, its
/// escaped underscores plain, its hyphenation marks gone, its pairs of
/// straight quotes made curly, and its small-font marks gone.
pub open spec fn spec_plain(s: Seq<char>) -> Seq<char> {
    let s = spec_replace(s, "\\change"@, ""@);
    let s = spec_replace(s, "\\ochange"@, ""@);
    let s = spec_collapse(s);
    let s = spec_replace(s, "\\_"@, "_"@);
    let s = spec_replace(s, "\\-"@, ""@);
    let s = spec_replace(s, "``"@, "\u{201c}"@);
    let s = spec_replace(s, "''"@, "\u{201d}"@);
    spec_replace(s, "\\small "@, ""@)
}

/// The index at which the first group around a change marker begins: the
/// first group of the older kind where there is one, else the first of the
/// newer kind.
pub open spec fn spec_find_change_group(s: Seq<char>) -> Option<int> {
    match spec_find(s, "{\\ochange"@) {
        Some(i) => Some(i),
        None => spec_find(s, "{\\change"@),
    }
}

/// The plain text of a cell. A group around a change marker gives way to
/// its content; a change marker with an issue reference goes, and the
/// reference with it; then the rest is made plain. There is no plain text
/// where such a group or reference is not a balanced span.
/// The test on the lengths in it always passes, since what is left to read
/// is shorter than what was read; it is there to show that the reading
/// ends.
pub open spec fn spec_unescape(s: Seq<char>) -> Option<Seq<char>>
    decreases s.len(),
{
    match spec_find_change_group(s) {
        Some(i) => match spec_read_group(s.subrange(i, s.len() as int)) {
            Some((inner, rest)) => {
                let next = s.subrange(0, i) + inner + rest;
                if next.len() < s.len() {
                    spec_unescape(next)
                } else {
                    None
                }
            },
            None => None,
        },
        None => match spec_find(s, "\\change\\cbext{"@) {
            Some(i) => match spec_read_group(
                s.subrange(i + "\\change\\cbext"@.len(), s.len() as int),
            ) {
                Some((inner, rest)) => {
                    let next = s.subrange(0, i) + rest;
                    if next.len() < s.len() {
                        spec_unescape(next)
                    } else {
                        None
                    }
                },
                None => None,
            },
            None => Some(spec_plain(s)),
        },
    }
}

/// `s` made plain.
pub fn plain(s: &[char]) -> (out: Vec<char>)
    ensures
        out@ == spec_plain(s@),
{
    let s1 = replace(s, "\\change", "");
    let s2 = replace(s1.as_slice(), "\\ochange", "");
    let s3 = collapse(s2.as_slice());
    let s4 = replace(s3.as_slice(), "\\_", "_");
    let s5 = replace(s4.as_slice(), "\\-", "");
    let s6 = replace(s5.as_slice(), "``", "\u{201c}");
    let s7 = replace(s6.as_slice(), "''", "\u{201d}");
    replace(s7.as_slice(), "\\small ", "")
}

/// The index at which the first group around a change marker begins.
fn find_change_group(s: &[char]) -> (r: Option<usize>)
    ensures
        match r {
            Some(i) => spec_find_change_group(s@) == Some(i as int) && i < s.len(),
            None => spec_find_change_group(s@) is None,
        },
{
    proof {
        reveal_strlit("{\\ochange");
        reveal_strlit("{\\change");
    }
    match find(s, "{\\ochange") {
        Some(i) => Some(i),
        None => find(s, "{\\change"),
    }
}

/// The plain text of a cell.
pub fn unescape(cell: &[char]) -> (r: Result<Vec<char>, ParseError>)
    ensures
        match r {
            Ok(out) => spec_unescape(cell@) == Some(out@),
            Err(e) => e == ParseError::UnbalancedSpan && spec_unescape(cell@) is None,
        },
    decreases cell@.len(),
{
    match find_change_group(cell) {
        Some(i) => {
            let after = slice_subrange(cell, i, cell.len());
            match read_group(after) {
                Ok((inner, rest)) => {
                    proof {
                        lemma_read_group_len(after@);
                    }
                    let mut next = to_vec(slice_subrange(cell, 0, i));
                    append(&mut next, inner);
                    append(&mut next, rest);
                    unescape(next.as_slice())
                },
                Err(e) => Err(e),
            }
        },
        None => {
            proof {
                reveal_strlit("\\change\\cbext{");
                reveal_strlit("\\change\\cbext");
            }
            match find(cell, "\\change\\cbext{") {
                Some(i) => {
                    assert(i + "\\change\\cbext{"@.len() <= cell@.len());
                    assert(cell@.len() == cell.len());
                    let after = slice_subrange(cell, i + 13, cell.len());
                    match read_group(after) {
                        Ok((_inner, rest)) => {
                            proof {
                                lemma_read_group_len(after@);
                            }
                            let mut next = to_vec(slice_subrange(cell, 0, i));
                            append(&mut next, rest);
                            unescape(next.as_slice())
                        },
                        Err(e) => Err(e),
                    }
                },
                None => Ok(plain(cell)),
            }
        },
    }
}

} // verus!
