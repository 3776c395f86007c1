//! Text as sequences of characters: searching, splitting, trimming and
//! rewriting, each with an exact contract over `Seq<char>`.

use vstd::prelude::*;
use vstd::slice::slice_subrange;

verus! {

// ---------------------------------------------------------------------------
// Conversions between strings and character sequences
// ---------------------------------------------------------------------------

/// Appends one character to a string.
///
/// Wraps `String::push`, which the standard library documents as appending
/// the given character to the end of the string. Nothing here is proved.
#[verifier::external_body]
fn push_char(s: &mut String, c: char)
    ensures
        final(s)@ == old(s)@.push(c),
{
    s.push(c)
}

/// The characters of a string slice, in order.
pub fn to_chars(s: &str) -> (out: Vec<char>)
    ensures
        out@ == s@,
{
    let mut out: Vec<char> = Vec::new();
    for c in it: s.chars()
        invariant
            out@ == it.seq().take(it.index()),
            it.seq() == s@,
    {
        out.push(c);
    }
    out
}

/// The string made of the given characters, in order.
pub fn to_string(chars: &[char]) -> (out: String)
    ensures
        out@ == chars@,
{
    let mut out = String::new();
    let mut i: usize = 0;
    while i < chars.len()
        invariant
            i <= chars.len(),
            out@ == chars@.take(i as int),
        decreases chars.len() - i,
    {
        push_char(&mut out, chars[i]);
        i += 1;
    }
    out
}

/// A fresh vector holding the characters of a slice.
pub fn to_vec(s: &[char]) -> (out: Vec<char>)
    ensures
        out@ == s@,
{
    let mut out: Vec<char> = Vec::new();
    append(&mut out, s);
    out
}

/// Appends the characters of `s` to `out`.
pub fn append(out: &mut Vec<char>, s: &[char])
    ensures
        final(out)@ == old(out)@ + s@,
{
    let mut i: usize = 0;
    while i < s.len()
        invariant
            i <= s.len(),
            out@ == old(out)@ + s@.take(i as int),
        decreases s.len() - i,
    {
        out.push(s[i]);
        i += 1;
    }
}

/// Appends the characters of a string slice to `out`.
pub fn append_str(out: &mut Vec<char>, s: &str)
    ensures
        final(out)@ == old(out)@ + s@,
{
    let chars = to_chars(s);
    append(out, chars.as_slice());
}

/// Whether two character slices hold the same text.
pub fn same_text(a: &[char], b: &[char]) -> (r: bool)
    ensures
        r == (a@ == b@),
{
    if a.len() != b.len() {
        return false;
    }
    let mut i: usize = 0;
    while i < a.len()
        invariant
            i <= a.len(),
            a.len() == b.len(),
            a@.take(i as int) == b@.take(i as int),
        decreases a.len() - i,
    {
        if a[i] != b[i] {
            return false;
        }
        assert(a@.take(i + 1) == a@.take(i as int).push(a@[i as int]));
        assert(b@.take(i + 1) == b@.take(i as int).push(b@[i as int]));
        i += 1;
    }
    assert(a@ == a@.take(a.len() as int));
    assert(b@ == b@.take(b.len() as int));
    true
}

/// Whether a character slice holds exactly the text of a string slice.
pub fn is_text(a: &[char], b: &str) -> (r: bool)
    ensures
        r == (a@ == b@),
{
    let chars = to_chars(b);
    same_text(a, chars.as_slice())
}

// ---------------------------------------------------------------------------
// White space
// ---------------------------------------------------------------------------

/// The characters that count as white space: those that Unicode marks as
/// `White_Space`.
pub open spec fn spec_is_space(c: char) -> bool {
    let n = c as u32;
    ||| 0x09 <= n <= 0x0d
    ||| n == 0x20
    ||| n == 0x85
    ||| n == 0xa0
    ||| n == 0x1680
    ||| 0x2000 <= n <= 0x200a
    ||| n == 0x2028
    ||| n == 0x2029
    ||| n == 0x202f
    ||| n == 0x205f
    ||| n == 0x3000
}

/// Whether `c` is white space.
pub fn is_space(c: char) -> (r: bool)
    ensures
        r == spec_is_space(c),
{
    let n: u32 = c as u32;
    (0x09 <= n && n <= 0x0d) || n == 0x20 || n == 0x85 || n == 0xa0 || n == 0x1680 || (0x2000 <= n
        && n <= 0x200a) || n == 0x2028 || n == 0x2029 || n == 0x202f || n == 0x205f || n == 0x3000
}

/// `s` without its leading white space.
pub open spec fn spec_trim_start(s: Seq<char>) -> Seq<char>
    decreases s.len(),
{
    if s.len() > 0 && spec_is_space(s[0]) {
        spec_trim_start(s.drop_first())
    } else {
        s
    }
}

/// `s` without its trailing white space.
pub open spec fn spec_trim_end(s: Seq<char>) -> Seq<char>
    decreases s.len(),
{
    if s.len() > 0 && spec_is_space(s.last()) {
        spec_trim_end(s.drop_last())
    } else {
        s
    }
}

/// `s` without its leading and trailing white space.
pub open spec fn spec_trim(s: Seq<char>) -> Seq<char> {
    spec_trim_end(spec_trim_start(s))
}

/// Trimming at the start leaves a suffix of the text that is empty or starts
/// with a character that is no white space.
pub proof fn lemma_trim_start(s: Seq<char>)
    ensures
        spec_trim_start(s).len() <= s.len(),
        spec_trim_start(s) == s.subrange(s.len() - spec_trim_start(s).len(), s.len() as int),
        spec_trim_start(s).len() > 0 ==> !spec_is_space(spec_trim_start(s)[0]),
        forall|i: int| 0 <= i < s.len() - spec_trim_start(s).len() ==> spec_is_space(s[i]),
    decreases s.len(),
{
    if s.len() > 0 && spec_is_space(s[0]) {
        let t = s.drop_first();
        lemma_trim_start(t);
        let r = spec_trim_start(t);
        assert(r == s.subrange(s.len() - r.len(), s.len() as int));
        assert forall|i: int| 0 <= i < s.len() - r.len() implies spec_is_space(s[i]) by {
            if i > 0 {
                assert(s[i] == t[i - 1]);
            }
        }
    } else {
        assert(s == s.subrange(0, s.len() as int));
    }
}

/// Trimming at the end leaves a prefix of the text that is empty or ends
/// with a character that is no white space.
pub proof fn lemma_trim_end(s: Seq<char>)
    ensures
        spec_trim_end(s).len() <= s.len(),
        spec_trim_end(s) == s.subrange(0, spec_trim_end(s).len() as int),
        spec_trim_end(s).len() > 0 ==> !spec_is_space(spec_trim_end(s).last()),
        forall|i: int| spec_trim_end(s).len() <= i < s.len() ==> spec_is_space(s[i]),
    decreases s.len(),
{
    if s.len() > 0 && spec_is_space(s.last()) {
        let t = s.drop_last();
        lemma_trim_end(t);
        let r = spec_trim_end(t);
        assert(r == s.subrange(0, r.len() as int));
        assert forall|i: int| r.len() <= i < s.len() implies spec_is_space(s[i]) by {
            if i < s.len() - 1 {
                assert(s[i] == t[i]);
            }
        }
    } else {
        assert(s == s.subrange(0, s.len() as int));
    }
}

/// The index of the first character of `s` that is no white space, or the
/// length of `s` where there is none.
pub fn leading_space(s: &[char]) -> (n: usize)
    ensures
        n <= s.len(),
        spec_trim_start(s@) == s@.subrange(n as int, s@.len() as int),
{
    let mut i: usize = 0;
    assert(s@ == s@.subrange(0, s@.len() as int));
    while i < s.len() && is_space(s[i])
        invariant
            i <= s.len(),
            spec_trim_start(s@) == spec_trim_start(s@.subrange(i as int, s@.len() as int)),
        decreases s.len() - i,
    {
        assert(s@.subrange(i as int, s@.len() as int).drop_first() == s@.subrange(
            i + 1,
            s@.len() as int,
        ));
        i += 1;
    }
    proof {
        assert(s@ == s@.subrange(0, s@.len() as int));
    }
    i
}

/// `s` without its leading white space.
pub fn trim_start(s: &[char]) -> (r: &[char])
    ensures
        r@ == spec_trim_start(s@),
{
    let n = leading_space(s);
    slice_subrange(s, n, s.len())
}

/// `s` without its trailing white space.
pub fn trim_end(s: &[char]) -> (r: &[char])
    ensures
        r@ == spec_trim_end(s@),
{
    let mut n: usize = s.len();
    assert(s@ == s@.subrange(0, s@.len() as int));
    while n > 0 && is_space(s[n - 1])
        invariant
            n <= s.len(),
            spec_trim_end(s@) == spec_trim_end(s@.subrange(0, n as int)),
        decreases n,
    {
        assert(s@.subrange(0, n as int).drop_last() == s@.subrange(0, n - 1));
        n -= 1;
    }
    proof {
        assert(s@ == s@.subrange(0, s@.len() as int));
    }
    slice_subrange(s, 0, n)
}

/// `s` without its leading and trailing white space.
pub fn trim(s: &[char]) -> (r: &[char])
    ensures
        r@ == spec_trim(s@),
{
    trim_end(trim_start(s))
}

// ---------------------------------------------------------------------------
// Searching
// ---------------------------------------------------------------------------

/// Whether `pat` occurs in `s` at index `i`.
pub open spec fn matches_at(s: Seq<char>, pat: Seq<char>, i: int) -> bool {
    &&& 0 <= i
    &&& i + pat.len() <= s.len()
    &&& s.subrange(i, i + pat.len()) == pat
}

/// Whether `i` is the index of the first occurrence of `pat` in `s`.
pub open spec fn first_match(s: Seq<char>, pat: Seq<char>, i: int) -> bool {
    &&& matches_at(s, pat, i)
    &&& forall|j: int| 0 <= j < i ==> !matches_at(s, pat, j)
}

/// The index of the first occurrence of `pat` in `s`, if there is one.
pub open spec fn spec_find(s: Seq<char>, pat: Seq<char>) -> Option<int> {
    if exists|i: int| first_match(s, pat, i) {
        Some(choose|i: int| first_match(s, pat, i))
    } else {
        None
    }
}

/// Whether `pat` occurs in `s`.
pub open spec fn spec_contains(s: Seq<char>, pat: Seq<char>) -> bool {
    spec_find(s, pat) is Some
}

/// A first occurrence is the one that `spec_find` names.
pub proof fn lemma_find_first(s: Seq<char>, pat: Seq<char>, i: int)
    requires
        first_match(s, pat, i),
    ensures
        spec_find(s, pat) == Some(i),
{
    let k = choose|k: int| first_match(s, pat, k);
    assert(first_match(s, pat, k));
    if k < i {
        assert(!matches_at(s, pat, k));
    }
    if i < k {
        assert(!matches_at(s, pat, i));
    }
}

/// Where `pat` occurs at index `i`, it has a first occurrence, at `i` or in
/// front of it.
proof fn lemma_first_match_exists(s: Seq<char>, pat: Seq<char>, i: int)
    requires
        matches_at(s, pat, i),
    ensures
        exists|k: int| 0 <= k <= i && first_match(s, pat, k),
    decreases i,
{
    if exists|j: int| 0 <= j < i && matches_at(s, pat, j) {
        let j = choose|j: int| 0 <= j < i && matches_at(s, pat, j);
        lemma_first_match_exists(s, pat, j);
    } else {
        assert(first_match(s, pat, i));
    }
}

/// `spec_find` is `None` exactly when `pat` occurs nowhere in `s`, and names
/// a first occurrence otherwise.
pub proof fn lemma_find(s: Seq<char>, pat: Seq<char>)
    ensures
        spec_find(s, pat) matches Some(i) ==> first_match(s, pat, i),
        spec_find(s, pat) is None ==> forall|j: int| !matches_at(s, pat, j),
{
    if spec_find(s, pat) is None {
        assert forall|j: int| !matches_at(s, pat, j) by {
            if matches_at(s, pat, j) {
                lemma_first_match_exists(s, pat, j);
            }
        }
    }
}

/// Whether `pat` occurs in `s` at index `i`.
pub fn occurs_at(s: &[char], pat: &[char], i: usize) -> (r: bool)
    ensures
        r == matches_at(s@, pat@, i as int),
{
    if pat.len() > s.len() || i > s.len() - pat.len() {
        return false;
    }
    let mut k: usize = 0;
    while k < pat.len()
        invariant
            k <= pat.len(),
            i + pat.len() <= s.len(),
            s@.subrange(i as int, i + k) == pat@.take(k as int),
        decreases pat.len() - k,
    {
        if s[i + k] != pat[k] {
            assert(s@.subrange(i as int, i + pat.len())[k as int] != pat@[k as int]);
            return false;
        }
        assert(s@.subrange(i as int, i + k + 1) == s@.subrange(i as int, i + k).push(
            s@[i + k],
        ));
        assert(pat@.take(k + 1) == pat@.take(k as int).push(pat@[k as int]));
        k += 1;
    }
    assert(pat@ == pat@.take(pat.len() as int));
    true
}

/// The index of the first occurrence of `pat` in `s` at or after `from`.
fn find_from(s: &[char], pat: &[char], from: usize) -> (r: Option<usize>)
    requires
        from <= s.len(),
    ensures
        match r {
            Some(i) => from <= i && matches_at(s@, pat@, i as int) && forall|j: int|
                from <= j < i ==> !matches_at(s@, pat@, j),
            None => forall|j: int| from <= j ==> !matches_at(s@, pat@, j),
        },
{
    let mut i: usize = from;
    while i < s.len()
        invariant
            from <= i <= s.len(),
            forall|j: int| from <= j < i ==> !matches_at(s@, pat@, j),
        decreases s.len() - i,
    {
        if occurs_at(s, pat, i) {
            return Some(i);
        }
        i += 1;
    }
    if occurs_at(s, pat, i) {
        Some(i)
    } else {
        None
    }
}

/// The index of the first occurrence of `pat` in `s`.
pub fn find_chars(s: &[char], pat: &[char]) -> (r: Option<usize>)
    ensures
        match r {
            Some(i) => spec_find(s@, pat@) == Some(i as int) && first_match(s@, pat@, i as int),
            None => spec_find(s@, pat@) is None,
        },
{
    let r = find_from(s, pat, 0);
    proof {
        match r {
            Some(i) => {
                lemma_find_first(s@, pat@, i as int);
            },
            None => {},
        }
    }
    r
}

/// The index of the first occurrence of the text `pat` in `s`.
pub fn find(s: &[char], pat: &str) -> (r: Option<usize>)
    ensures
        match r {
            Some(i) => spec_find(s@, pat@) == Some(i as int) && first_match(s@, pat@, i as int),
            None => spec_find(s@, pat@) is None,
        },
{
    let chars = to_chars(pat);
    find_chars(s, chars.as_slice())
}

/// Whether the text `pat` occurs in `s`.
pub fn contains(s: &[char], pat: &str) -> (r: bool)
    ensures
        r == spec_contains(s@, pat@),
{
    find(s, pat).is_some()
}

// ---------------------------------------------------------------------------
// Prefixes and suffixes
// ---------------------------------------------------------------------------

/// Whether `s` begins with `pat`.
pub open spec fn spec_starts_with(s: Seq<char>, pat: Seq<char>) -> bool {
    matches_at(s, pat, 0)
}

/// Whether `s` ends with `pat`.
pub open spec fn spec_ends_with(s: Seq<char>, pat: Seq<char>) -> bool {
    matches_at(s, pat, s.len() - pat.len())
}

/// `s` without the prefix `pat`, where it begins with it.
pub open spec fn spec_strip_prefix(s: Seq<char>, pat: Seq<char>) -> Option<Seq<char>> {
    if spec_starts_with(s, pat) {
        Some(s.subrange(pat.len() as int, s.len() as int))
    } else {
        None
    }
}

/// `s` without the suffix `pat`, where it ends with it.
pub open spec fn spec_strip_suffix(s: Seq<char>, pat: Seq<char>) -> Option<Seq<char>> {
    if spec_ends_with(s, pat) {
        Some(s.subrange(0, s.len() - pat.len()))
    } else {
        None
    }
}

/// `s` without the prefix `pat`, or `s` itself where it does not begin with it.
pub open spec fn spec_without_prefix(s: Seq<char>, pat: Seq<char>) -> Seq<char> {
    match spec_strip_prefix(s, pat) {
        Some(rest) => rest,
        None => s,
    }
}

/// `s` without the suffix `pat`, or `s` itself where it does not end with it.
pub open spec fn spec_without_suffix(s: Seq<char>, pat: Seq<char>) -> Seq<char> {
    match spec_strip_suffix(s, pat) {
        Some(rest) => rest,
        None => s,
    }
}

/// The view of an optional slice.
pub open spec fn slice_opt_view(o: Option<&[char]>) -> Option<Seq<char>> {
    match o {
        Some(s) => Some(s@),
        None => None,
    }
}

/// Whether `s` begins with the text `pat`.
pub fn starts_with(s: &[char], pat: &str) -> (r: bool)
    ensures
        r == spec_starts_with(s@, pat@),
{
    let chars = to_chars(pat);
    occurs_at(s, chars.as_slice(), 0)
}

/// Whether `s` ends with the text `pat`.
pub fn ends_with(s: &[char], pat: &str) -> (r: bool)
    ensures
        r == spec_ends_with(s@, pat@),
{
    let chars = to_chars(pat);
    if chars.len() > s.len() {
        return false;
    }
    occurs_at(s, chars.as_slice(), s.len() - chars.len())
}

/// `s` without the prefix `pat`, where it begins with it.
pub fn strip_prefix<'a>(s: &'a [char], pat: &str) -> (r: Option<&'a [char]>)
    ensures
        slice_opt_view(r) == spec_strip_prefix(s@, pat@),
{
    let chars = to_chars(pat);
    if occurs_at(s, chars.as_slice(), 0) {
        Some(slice_subrange(s, chars.len(), s.len()))
    } else {
        None
    }
}

/// `s` without the suffix `pat`, where it ends with it.
pub fn strip_suffix<'a>(s: &'a [char], pat: &str) -> (r: Option<&'a [char]>)
    ensures
        slice_opt_view(r) == spec_strip_suffix(s@, pat@),
{
    let chars = to_chars(pat);
    if chars.len() <= s.len() && occurs_at(s, chars.as_slice(), s.len() - chars.len()) {
        Some(slice_subrange(s, 0, s.len() - chars.len()))
    } else {
        None
    }
}

/// `s` without the prefix `pat`, or `s` itself where it does not begin with it.
pub fn without_prefix<'a>(s: &'a [char], pat: &str) -> (r: &'a [char])
    ensures
        r@ == spec_without_prefix(s@, pat@),
{
    match strip_prefix(s, pat) {
        Some(rest) => rest,
        None => s,
    }
}

/// `s` without the suffix `pat`, or `s` itself where it does not end with it.
pub fn without_suffix<'a>(s: &'a [char], pat: &str) -> (r: &'a [char])
    ensures
        r@ == spec_without_suffix(s@, pat@),
{
    match strip_suffix(s, pat) {
        Some(rest) => rest,
        None => s,
    }
}

// ---------------------------------------------------------------------------
// Splitting
// ---------------------------------------------------------------------------

/// The text before and the text after the first occurrence of `pat` in `s`.
pub open spec fn spec_split_once(s: Seq<char>, pat: Seq<char>) -> Option<(Seq<char>, Seq<char>)> {
    match spec_find(s, pat) {
        Some(i) => Some((s.subrange(0, i), s.subrange(i + pat.len(), s.len() as int))),
        None => None,
    }
}

/// The view of an optional pair of slices.
pub open spec fn slice_pair_view(o: Option<(&[char], &[char])>) -> Option<(Seq<char>, Seq<char>)> {
    match o {
        Some((a, b)) => Some((a@, b@)),
        None => None,
    }
}

/// The text before and the text after the first occurrence of `pat` in `s`.
pub fn split_once<'a>(s: &'a [char], pat: &str) -> (r: Option<(&'a [char], &'a [char])>)
    ensures
        slice_pair_view(r) == spec_split_once(s@, pat@),
{
    let chars = to_chars(pat);
    match find_chars(s, chars.as_slice()) {
        Some(i) => {
            assert(i + chars@.len() <= s@.len());
            assert(chars@.len() == chars.len() && s@.len() == s.len());
            Some((slice_subrange(s, 0, i), slice_subrange(s, i + chars.len(), s.len())))
        },
        None => None,
    }
}

/// The index of the first `c` in `s` at or behind `i`, or the length of `s`
/// where there is none.
pub open spec fn spec_next_char(s: Seq<char>, c: char, i: int) -> int
    decreases s.len() - i,
{
    if 0 <= i < s.len() && s[i] != c {
        spec_next_char(s, c, i + 1)
    } else {
        i
    }
}

/// The pieces of `s` from index `i` on that stand between the occurrences
/// of `c`: one more piece than there are occurrences.
pub open spec fn spec_split_from(s: Seq<char>, c: char, i: int) -> Seq<Seq<char>>
    decreases s.len() - i,
{
    let j = spec_next_char(s, c, i);
    if 0 <= i <= j < s.len() {
        seq![s.subrange(i, j)] + spec_split_from(s, c, j + 1)
    } else {
        seq![s.subrange(i, s.len() as int)]
    }
}

/// The pieces of `s` that stand between the occurrences of `c`.
pub open spec fn spec_split(s: Seq<char>, c: char) -> Seq<Seq<char>> {
    spec_split_from(s, c, 0)
}

/// The texts that a sequence of slices holds.
pub open spec fn slices_view(v: Seq<&[char]>) -> Seq<Seq<char>> {
    Seq::new(v.len(), |i: int| v[i]@)
}

/// The texts that a sequence of vectors holds.
pub open spec fn texts(v: Seq<Vec<char>>) -> Seq<Seq<char>> {
    Seq::new(v.len(), |i: int| v[i]@)
}

/// The pieces of `s` that stand between the occurrences of `c`.
pub fn split<'a>(s: &'a [char], c: char) -> (out: Vec<&'a [char]>)
    ensures
        slices_view(out@) == spec_split(s@, c),
{
    let mut out: Vec<&'a [char]> = Vec::new();
    let mut start: usize = 0;
    let mut i: usize = 0;
    assert(slices_view(out@) =~= Seq::<Seq<char>>::empty());
    while i < s.len()
        invariant
            start <= i <= s.len(),
            spec_next_char(s@, c, i as int) == spec_next_char(s@, c, start as int),
            spec_split(s@, c) == slices_view(out@) + spec_split_from(s@, c, start as int),
        decreases s.len() - i,
    {
        if s[i] == c {
            let ghost before = slices_view(out@);
            let piece = slice_subrange(s, start, i);
            out.push(piece);
            assert(slices_view(out@) =~= before.push(piece@));
            assert(before.push(piece@) + spec_split_from(s@, c, i + 1) =~= before + (seq![piece@]
                + spec_split_from(s@, c, i + 1)));
            start = i + 1;
        }
        i += 1;
    }
    let ghost before = slices_view(out@);
    let piece = slice_subrange(s, start, s.len());
    out.push(piece);
    assert(slices_view(out@) =~= before.push(piece@));
    assert(before.push(piece@) =~= before + seq![piece@]);
    out
}

// ---------------------------------------------------------------------------
// Rewriting
// ---------------------------------------------------------------------------

/// The text of `s` from index `i` on, with every occurrence of `from` that
/// does not overlap an earlier one replaced by `to`, read from left to
/// right. With an empty `from`, `to` is put before every character and at
/// the end.
pub open spec fn spec_replace_from(s: Seq<char>, from: Seq<char>, to: Seq<char>, i: int) -> Seq<
    char,
>
    decreases s.len() - i,
{
    if i < 0 || i > s.len() {
        Seq::empty()
    } else if i == s.len() {
        if from.len() == 0 {
            to
        } else {
            Seq::empty()
        }
    } else if matches_at(s, from, i) {
        if from.len() == 0 {
            to + seq![s[i]] + spec_replace_from(s, from, to, i + 1)
        } else {
            to + spec_replace_from(s, from, to, i + from.len())
        }
    } else {
        seq![s[i]] + spec_replace_from(s, from, to, i + 1)
    }
}

/// `s` with every occurrence of `from` replaced by `to`.
pub open spec fn spec_replace(s: Seq<char>, from: Seq<char>, to: Seq<char>) -> Seq<char> {
    spec_replace_from(s, from, to, 0)
}

/// `s` with every occurrence of `from` replaced by `to`.
pub fn replace_chars(s: &[char], from: &[char], to: &[char]) -> (out: Vec<char>)
    ensures
        out@ == spec_replace(s@, from@, to@),
{
    let mut out: Vec<char> = Vec::new();
    let mut i: usize = 0;
    while i < s.len()
        invariant
            i <= s.len(),
            out@ + spec_replace_from(s@, from@, to@, i as int) == spec_replace(s@, from@, to@),
        decreases s.len() - i,
    {
        let ghost before = out@;
        let ghost rest = spec_replace_from(s@, from@, to@, i as int);
        if occurs_at(s, from, i) {
            append(&mut out, to);
            if from.len() == 0 {
                out.push(s[i]);
                assert(out@ + spec_replace_from(s@, from@, to@, i + 1) == before + rest);
                i += 1;
            } else {
                assert(out@ + spec_replace_from(s@, from@, to@, i + from.len()) == before + rest);
                i += from.len();
            }
        } else {
            out.push(s[i]);
            assert(out@ + spec_replace_from(s@, from@, to@, i + 1) == before + rest);
            i += 1;
        }
    }
    if from.len() == 0 {
        let ghost before = out@;
        append(&mut out, to);
        assert(out@ == before + spec_replace_from(s@, from@, to@, i as int));
    } else {
        assert(out@ == out@ + spec_replace_from(s@, from@, to@, i as int));
    }
    out
}

/// `s` with every occurrence of the text `from` replaced by the text `to`.
pub fn replace(s: &[char], from: &str, to: &str) -> (out: Vec<char>)
    ensures
        out@ == spec_replace(s@, from@, to@),
{
    let f = to_chars(from);
    let t = to_chars(to);
    replace_chars(s, f.as_slice(), t.as_slice())
}

} // verus!
