//! The compact form of a type: the text that writes it, and the proof that
//! reading the text gives the type again.

use crate::number::{
    decimal_digits, lemma_decimal_round_trip, push_decimal, spec_is_digit, spec_parse_u32,
};
use crate::text::{
    append, append_str, first_match, lemma_find, lemma_find_first, matches_at, spec_find,
    spec_split_once, to_string,
};
use crate::types::{
    same_str, spec_float_tuple, spec_k_valued_float, spec_k_valued_integer, spec_named_quantity,
    spec_parse_basic_type, spec_parse_quantity, spec_parse_term, spec_parse_terms,
    spec_parse_type, spec_plain_basic_type, spec_unbraced, spec_unstarred, times, BasicType,
    BasicTypeModel, MaybeParsed, MaybeParsedModel, Quantity, QuantityModel, Term, TermModel, Type,
    TypeModel,
};
use vstd::prelude::*;

verus! {

// ---------------------------------------------------------------------------
// The compact form
// ---------------------------------------------------------------------------

/// The macro that writes the limit of the given name, for the names that a
/// macro writes.
pub open spec fn spec_limit_macro(name: Seq<char>) -> Option<Seq<char>> {
    if name == "MAX_TEXTURE_COORDS"@ {
        Some("\\mtexcoord"@)
    } else if name == "MAX_TEXTURE_UNITS"@ {
        Some("\\mtexunit"@)
    } else if name == "MAX_COMBINED_TEXTURE_IMAGE_UNITS"@ {
        Some("\\mteximage"@)
    } else if name == "MAX_IMAGE_UNITS"@ {
        Some("\\mimageunit"@)
    } else if name == "MAX_VERTEX_ATTRIBS"@ {
        Some("\\mvtxattr"@)
    } else if name == "MAX_DRAW_BUFFERS"@ {
        Some("\\mdrawbuf"@)
    } else if name == "MAX_VERTEX_UNIFORM_BLOCKS"@ {
        Some("\\mblockstage"@)
    } else if name == "MAX_COMBINED_UNIFORM_BLOCKS"@ {
        Some("\\mblockcombined"@)
    } else {
        None
    }
}

/// The token that writes a quantity: the numeral of a number, the macro of
/// a limit. A limit that no macro writes is written by its name.
pub open spec fn spec_compact_quantity(q: QuantityModel) -> Seq<char> {
    match q {
        QuantityModel::Integer(n) => decimal_digits(n as nat),
        QuantityModel::Constant(name) => match spec_limit_macro(name) {
            Some(m) => m,
            None => name,
        },
    }
}

/// A quantity with the asterisk behind it where it is a minimum.
pub open spec fn spec_compact_starred(q: QuantityModel, minimum: bool) -> Seq<char> {
    if minimum {
        spec_compact_quantity(q) + "*"@
    } else {
        spec_compact_quantity(q)
    }
}

/// The text that writes a factor.
pub open spec fn spec_compact_term(term: TermModel) -> Seq<char> {
    match term {
        MaybeParsedModel::Parsed((q, minimum)) => spec_compact_starred(q, minimum),
        MaybeParsedModel::Unparsed(text) => text,
    }
}

/// The code that writes a basic type.
pub open spec fn spec_compact_basic_type(b: BasicTypeModel) -> Seq<char> {
    match b {
        BasicTypeModel::Boolean => "B"@,
        BasicTypeModel::Bmu => "BMU"@,
        BasicTypeModel::Color => "C"@,
        BasicTypeModel::Enum => "\\Enum"@,
        BasicTypeModel::ColorIndex => "CI"@,
        BasicTypeModel::TexCoords => "T"@,
        BasicTypeModel::NormalCoords => "N"@,
        BasicTypeModel::Vertex => "V"@,
        BasicTypeModel::Integer => "Z"@,
        BasicTypeModel::NonNegativeInteger => "Z^{+}"@,
        BasicTypeModel::KValuedInteger { k, minimum } => "Z_{"@ + spec_compact_starred(k, minimum)
            + "}"@,
        BasicTypeModel::Float => "R"@,
        BasicTypeModel::NonNegativeFloat => "R^{+}"@,
        BasicTypeModel::ZeroOneRangeFloat => "R^{[0,1]}"@,
        BasicTypeModel::FloatTuple { k } => "R^{"@ + decimal_digits(k as nat) + "}"@,
        BasicTypeModel::KValuedFloat { k } => "R_"@ + decimal_digits(k as nat),
        BasicTypeModel::Position => "P"@,
        BasicTypeModel::Direction => "D"@,
        BasicTypeModel::Matrix => "M^{4}"@,
        BasicTypeModel::String => "S"@,
        BasicTypeModel::Image => "I"@,
        BasicTypeModel::AttributeStackEntry => "A"@,
        BasicTypeModel::Pointer => "Y"@,
        BasicTypeModel::Char => "\\glt{char}"@,
    }
}

/// The factors from index `i` on, each followed by the multiplication
/// sign, and the code behind them.
pub open spec fn spec_compact_terms(terms: Seq<TermModel>, i: int, code: Seq<char>) -> Seq<char>
    decreases terms.len() - i,
{
    if 0 <= i < terms.len() {
        spec_compact_term(terms[i]) + times() + spec_compact_terms(terms, i + 1, code)
    } else {
        code
    }
}

/// The compact form of a type: its factors, each followed by the
/// multiplication sign, then the code of its basic type, all between
/// inline-math delimiters.
pub open spec fn spec_compact_type(t: TypeModel) -> Seq<char> {
    "$"@ + spec_compact_terms(t.quantity, 0, spec_compact_basic_type(t.basic_type)) + "$"@
}

// ---------------------------------------------------------------------------
// What reading hands out
// ---------------------------------------------------------------------------

/// Whether a quantity is one that reading hands out: a number, or a limit
/// that a macro writes.
pub open spec fn canonical_quantity(q: QuantityModel) -> bool {
    q matches QuantityModel::Constant(name) ==> spec_limit_macro(name) is Some
}

/// Whether a quantity with its mark is one that reading hands out: only a
/// number is marked as a minimum.
pub open spec fn canonical_starred(q: QuantityModel, minimum: bool) -> bool {
    canonical_quantity(q) && (minimum ==> q is Integer)
}

/// Whether a factor is one that reading hands out. A factor that is kept
/// as text writes no quantity, and the multiplication sign behind it is
/// the first in what it makes with that sign.
pub open spec fn canonical_term(term: TermModel) -> bool {
    match term {
        MaybeParsedModel::Parsed((q, minimum)) => canonical_starred(q, minimum),
        MaybeParsedModel::Unparsed(text) => spec_parse_term(text) == term && first_match(
            text + times(),
            times(),
            text.len() as int,
        ),
    }
}

/// Whether a basic type is one that reading hands out.
pub open spec fn canonical_basic_type(b: BasicTypeModel) -> bool {
    b matches BasicTypeModel::KValuedInteger { k, minimum } ==> canonical_starred(k, minimum)
}

/// Whether a type is one that reading hands out.
pub open spec fn canonical_type(t: TypeModel) -> bool {
    &&& canonical_basic_type(t.basic_type)
    &&& forall|i: int| 0 <= i < t.quantity.len() ==> canonical_term(#[trigger] t.quantity[i])
}

/// Whether a text is not empty and holds no blank, no asterisk and no
/// brace.
pub open spec fn is_token(s: Seq<char>) -> bool {
    &&& s.len() > 0
    &&& forall|i: int|
        0 <= i < s.len() ==> (#[trigger] s[i]) != ' ' && s[i] != '*' && s[i] != '{' && s[i] != '}'
}

// ---------------------------------------------------------------------------
// Quantities
// ---------------------------------------------------------------------------

/// The macro of a limit is a token that is no numeral, and names that
/// limit.
pub proof fn lemma_limit_macro(name: Seq<char>)
    requires
        spec_limit_macro(name) is Some,
    ensures
        is_token(spec_limit_macro(name).unwrap()),
        spec_parse_u32(spec_limit_macro(name).unwrap()) is None,
        spec_named_quantity(spec_limit_macro(name).unwrap()) == Some(QuantityModel::Constant(name)),
{
    reveal_strlit("\\mtexcoord");
    reveal_strlit("\\mtexnum");
    reveal_strlit("\\mtexunit");
    reveal_strlit("\\mteximage");
    reveal_strlit("\\mimageunit");
    reveal_strlit("\\mvtxattr");
    reveal_strlit("\\mdrawbuf");
    reveal_strlit("\\mblockstage");
    reveal_strlit("\\mblockcombined");
    reveal_strlit("\\mprogstage");
    let m = spec_limit_macro(name).unwrap();
    assert(m[0] == '\\');
    assert(!spec_is_digit(m[0]));
    assert("\\mtexcoord"@[5] == 'c' && "\\mteximage"@[5] == 'i');
    assert("\\mtexunit"@[2] == 't' && "\\mvtxattr"@[2] == 'v' && "\\mdrawbuf"@[2] == 'd');
    assert("\\mimageunit"@[2] == 'i' && "\\mprogstage"@[2] == 'p');
}

/// The numeral of a number is a token.
pub proof fn lemma_digits_token(n: nat)
    ensures
        is_token(decimal_digits(n)),
{
    lemma_decimal_round_trip(n);
    let s = decimal_digits(n);
    assert forall|i: int| 0 <= i < s.len() implies (#[trigger] s[i]) != ' ' && s[i] != '*' && s[i]
        != '{' && s[i] != '}' by {
        assert(spec_is_digit(s[i]));
    }
}

/// Reading the token that writes a quantity gives the quantity.
pub proof fn lemma_quantity_round_trip(q: QuantityModel)
    requires
        canonical_quantity(q),
    ensures
        spec_parse_quantity(spec_compact_quantity(q)) == Some(q),
        is_token(spec_compact_quantity(q)),
{
    match q {
        QuantityModel::Integer(n) => {
            lemma_decimal_round_trip(n as nat);
            lemma_digits_token(n as nat);
        },
        QuantityModel::Constant(name) => {
            lemma_limit_macro(name);
        },
    }
}

/// Taking the asterisk off a quantity with its mark gives the quantity
/// and the mark.
pub proof fn lemma_starred_round_trip(q: QuantityModel, minimum: bool)
    requires
        canonical_starred(q, minimum),
    ensures
        spec_unstarred(spec_compact_starred(q, minimum)) == (spec_compact_quantity(q), minimum),
        spec_parse_quantity(spec_compact_quantity(q)) == Some(q),
        forall|i: int|
            0 <= i < spec_compact_starred(q, minimum).len() ==> (#[trigger] spec_compact_starred(
                q,
                minimum,
            )[i]) != ' ',
        spec_compact_starred(q, minimum).len() > 0,
{
    reveal_strlit("*");
    lemma_quantity_round_trip(q);
    let c = spec_compact_quantity(q);
    let s = spec_compact_starred(q, minimum);
    if minimum {
        assert(s.drop_last() =~= c);
        assert(s.last() == '*');
    } else {
        assert(s.last() == c[c.len() - 1]);
    }
    assert forall|i: int| 0 <= i < s.len() implies (#[trigger] s[i]) != ' ' by {
        if i < c.len() {
            assert(s[i] == c[i]);
        }
    }
}

// ---------------------------------------------------------------------------
// Factors
// ---------------------------------------------------------------------------

/// Reading the text that writes a factor gives the factor, and the
/// multiplication sign behind that text is the first in what the two
/// make.
pub proof fn lemma_term_round_trip(term: TermModel)
    requires
        canonical_term(term),
    ensures
        spec_parse_term(spec_compact_term(term)) == term,
        first_match(
            spec_compact_term(term) + times(),
            times(),
            spec_compact_term(term).len() as int,
        ),
{
    match term {
        MaybeParsedModel::Parsed((q, minimum)) => {
            lemma_starred_round_trip(q, minimum);
            reveal_strlit(" \\times ");
            let s = spec_compact_term(term);
            let all = s + times();
            assert(all.subrange(s.len() as int, s.len() + times().len() as int) =~= times());
            assert forall|j: int| 0 <= j < s.len() implies !matches_at(all, times(), j) by {
                if matches_at(all, times(), j) {
                    assert(all.subrange(j, j + times().len() as int)[0] == times()[0]);
                    assert(all[j] == s[j]);
                }
            }
        },
        MaybeParsedModel::Unparsed(text) => {},
    }
}

/// Where the multiplication sign behind a text is the first in what the
/// two make, it is the first in what they make with any text behind them.
pub proof fn lemma_first_sign(head: Seq<char>, tail: Seq<char>)
    requires
        first_match(head + times(), times(), head.len() as int),
    ensures
        spec_split_once(head + times() + tail, times()) == Some((head, tail)),
{
    let short = head + times();
    let all = head + times() + tail;
    let n = times().len() as int;
    assert(all.subrange(head.len() as int, head.len() + n) =~= times());
    assert forall|j: int| 0 <= j < head.len() implies !matches_at(all, times(), j) by {
        assert(!matches_at(short, times(), j));
        assert(all.subrange(j, j + n) =~= short.subrange(j, j + n));
    }
    lemma_find_first(all, times(), head.len() as int);
    assert(all.subrange(0, head.len() as int) =~= head);
    assert(all.subrange(head.len() + n, all.len() as int) =~= tail);
}

/// Reading the factors that are written in front of a code gives the
/// factors and the code, where the code holds no multiplication sign.
pub proof fn lemma_terms_round_trip(terms: Seq<TermModel>, i: int, code: Seq<char>)
    requires
        0 <= i <= terms.len(),
        forall|k: int| 0 <= k < terms.len() ==> canonical_term(#[trigger] terms[k]),
        spec_find(code, times()) is None,
    ensures
        spec_parse_terms(spec_compact_terms(terms, i, code)) == (
            terms.subrange(i, terms.len() as int),
            code,
        ),
    decreases terms.len() - i,
{
    if i < terms.len() {
        let head = spec_compact_term(terms[i]);
        let tail = spec_compact_terms(terms, i + 1, code);
        lemma_term_round_trip(terms[i]);
        lemma_first_sign(head, tail);
        lemma_terms_round_trip(terms, i + 1, code);
        reveal_strlit(" \\times ");
        assert(tail.len() < (head + times() + tail).len());
        assert(seq![terms[i]] + terms.subrange(i + 1, terms.len() as int) =~= terms.subrange(
            i,
            terms.len() as int,
        ));
    } else {
        assert(terms.subrange(i, terms.len() as int) =~= Seq::<TermModel>::empty());
    }
}

// ---------------------------------------------------------------------------
// Basic types
// ---------------------------------------------------------------------------

/// A text without a blank holds no multiplication sign.
pub proof fn lemma_no_sign(s: Seq<char>)
    requires
        forall|i: int| 0 <= i < s.len() ==> (#[trigger] s[i]) != ' ',
    ensures
        spec_find(s, times()) is None,
{
    reveal_strlit(" \\times ");
    lemma_find(s, times());
    if let Some(i) = spec_find(s, times()) {
        assert(s.subrange(i, i + times().len() as int)[0] == times()[0]);
        assert(s[i] == ' ');
    }
}

/// Reveals what the codes without a parameter hold.
proof fn lemma_plain_codes()
    ensures
        "B"@ == seq!['B'],
        "BMU"@ == seq!['B', 'M', 'U'],
        "C"@ == seq!['C'],
        "\\Enum"@ == seq!['\\', 'E', 'n', 'u', 'm'],
        "CI"@ == seq!['C', 'I'],
        "T"@ == seq!['T'],
        "N"@ == seq!['N'],
        "V"@ == seq!['V'],
        "Z"@ == seq!['Z'],
        "Z+"@ == seq!['Z', '+'],
        "Z^+"@ == seq!['Z', '^', '+'],
        "Z^{+}"@ == seq!['Z', '^', '{', '+', '}'],
        "\\Zplus"@ == seq!['\\', 'Z', 'p', 'l', 'u', 's'],
        "R"@ == seq!['R'],
        "R^{+}"@ == seq!['R', '^', '{', '+', '}'],
        "R^{[0,1]}"@ == seq!['R', '^', '{', '[', '0', ',', '1', ']', '}'],
        "P"@ == seq!['P'],
        "D"@ == seq!['D'],
        "M^{4}"@ == seq!['M', '^', '{', '4', '}'],
        "S"@ == seq!['S'],
        "I"@ == seq!['I'],
        "A"@ == seq!['A'],
        "Y"@ == seq!['Y'],
        "\\glt{char}"@ == seq!['\\', 'g', 'l', 't', '{', 'c', 'h', 'a', 'r', '}'],
        "Z_"@ == seq!['Z', '_'],
        "Z_{"@ == seq!['Z', '_', '{'],
        "R_"@ == seq!['R', '_'],
        "R^"@ == seq!['R', '^'],
        "R^{"@ == seq!['R', '^', '{'],
        "}"@ == seq!['}'],
{
    reveal_strlit("B");
    reveal_strlit("BMU");
    reveal_strlit("C");
    reveal_strlit("\\Enum");
    reveal_strlit("CI");
    reveal_strlit("T");
    reveal_strlit("N");
    reveal_strlit("V");
    reveal_strlit("Z");
    reveal_strlit("Z+");
    reveal_strlit("Z^+");
    reveal_strlit("Z^{+}");
    reveal_strlit("\\Zplus");
    reveal_strlit("R");
    reveal_strlit("R^{+}");
    reveal_strlit("R^{[0,1]}");
    reveal_strlit("P");
    reveal_strlit("D");
    reveal_strlit("M^{4}");
    reveal_strlit("S");
    reveal_strlit("I");
    reveal_strlit("A");
    reveal_strlit("Y");
    reveal_strlit("\\glt{char}");
    reveal_strlit("Z_");
    reveal_strlit("Z_{");
    reveal_strlit("R_");
    reveal_strlit("R^");
    reveal_strlit("R^{");
    reveal_strlit("}");
    assert("B"@ =~= seq!['B']);
    assert("BMU"@ =~= seq!['B', 'M', 'U']);
    assert("C"@ =~= seq!['C']);
    assert("\\Enum"@ =~= seq!['\\', 'E', 'n', 'u', 'm']);
    assert("CI"@ =~= seq!['C', 'I']);
    assert("T"@ =~= seq!['T']);
    assert("N"@ =~= seq!['N']);
    assert("V"@ =~= seq!['V']);
    assert("Z"@ =~= seq!['Z']);
    assert("Z+"@ =~= seq!['Z', '+']);
    assert("Z^+"@ =~= seq!['Z', '^', '+']);
    assert("Z^{+}"@ =~= seq!['Z', '^', '{', '+', '}']);
    assert("\\Zplus"@ =~= seq!['\\', 'Z', 'p', 'l', 'u', 's']);
    assert("R"@ =~= seq!['R']);
    assert("R^{+}"@ =~= seq!['R', '^', '{', '+', '}']);
    assert("R^{[0,1]}"@ =~= seq!['R', '^', '{', '[', '0', ',', '1', ']', '}']);
    assert("P"@ =~= seq!['P']);
    assert("D"@ =~= seq!['D']);
    assert("M^{4}"@ =~= seq!['M', '^', '{', '4', '}']);
    assert("S"@ =~= seq!['S']);
    assert("I"@ =~= seq!['I']);
    assert("A"@ =~= seq!['A']);
    assert("Y"@ =~= seq!['Y']);
    assert("\\glt{char}"@ =~= seq!['\\', 'g', 'l', 't', '{', 'c', 'h', 'a', 'r', '}']);
    assert("Z_"@ =~= seq!['Z', '_']);
    assert("Z_{"@ =~= seq!['Z', '_', '{']);
    assert("R_"@ =~= seq!['R', '_']);
    assert("R^"@ =~= seq!['R', '^']);
    assert("R^{"@ =~= seq!['R', '^', '{']);
    assert("}"@ =~= seq!['}']);
}

/// A text of two characters or more that begins with `Z_`, `R_` or `R^`
/// followed by an opening brace or a digit is none of the codes without a
/// parameter, unless it is one of the two such codes for floats.
proof fn lemma_not_plain(code: Seq<char>)
    requires
        code.len() >= 3,
        (code[0] == 'Z' && code[1] == '_') || (code[0] == 'R' && code[1] == '_') || (code[0] == 'R'
            && code[1] == '^' && code[2] == '{' && code.len() >= 4 && spec_is_digit(code[3])),
    ensures
        spec_plain_basic_type(code) is None,
{
    lemma_plain_codes();
    if code[0] == 'R' && code[1] == '^' {
        assert(code != "R^{+}"@) by {
            assert("R^{+}"@[3] == '+');
        }
        assert(code != "R^{[0,1]}"@) by {
            assert("R^{[0,1]}"@[3] == '[');
        }
    }
    assert(code != "Z+"@) by {
        assert("Z+"@[1] == '+');
    }
    assert(code != "Z^+"@) by {
        assert("Z^+"@[1] == '^');
    }
    assert(code != "Z^{+}"@) by {
        assert("Z^{+}"@[1] == '^');
    }
    assert(code != "BMU"@) by {
        assert("BMU"@[0] == 'B');
    }
    assert(code != "\\Enum"@) by {
        assert("\\Enum"@[0] == '\\');
    }
    assert(code != "\\Zplus"@) by {
        assert("\\Zplus"@[0] == '\\');
    }
    assert(code != "M^{4}"@) by {
        assert("M^{4}"@[0] == 'M');
    }
    assert(code != "\\glt{char}"@) by {
        assert("\\glt{char}"@[0] == '\\');
    }
}

/// The code of a basic type without a parameter holds no blank, and
/// reading it gives the basic type.
proof fn lemma_plain_round_trip(b: BasicTypeModel)
    requires
        !(b is KValuedInteger),
        !(b is FloatTuple),
        !(b is KValuedFloat),
    ensures
        spec_plain_basic_type(spec_compact_basic_type(b)) == Some(b),
        forall|i: int|
            0 <= i < spec_compact_basic_type(b).len() ==> (#[trigger] spec_compact_basic_type(
                b,
            )[i]) != ' ',
{
    lemma_plain_codes();
    let code = spec_compact_basic_type(b);
    assert(code.len() <= 10);
    assert("BMU"@[1] == 'M' && "CI"@[1] == 'I' && "Z+"@[1] == '+' && "Z^+"@[1] == '^' && "Z^{+}"@[1]
        == '^' && "R^{+}"@[3] == '+' && "R^{[0,1]}"@[3] == '[' && "\\Enum"@[1] == 'E'
        && "\\Zplus"@[1] == 'Z' && "\\glt{char}"@[1] == 'g' && "M^{4}"@[0] == 'M');
    assert("B"@[0] == 'B' && "C"@[0] == 'C' && "T"@[0] == 'T' && "N"@[0] == 'N' && "V"@[0] == 'V'
        && "Z"@[0] == 'Z' && "R"@[0] == 'R' && "P"@[0] == 'P' && "D"@[0] == 'D' && "S"@[0] == 'S'
        && "I"@[0] == 'I' && "A"@[0] == 'A' && "Y"@[0] == 'Y' && "BMU"@[0] == 'B' && "CI"@[0]
        == 'C' && "\\Enum"@[0] == '\\' && "\\Zplus"@[0] == '\\' && "\\glt{char}"@[0] == '\\');
}

/// The code of a basic type holds no multiplication sign, and reading it
/// gives the basic type.
pub proof fn lemma_basic_type_round_trip(b: BasicTypeModel)
    requires
        canonical_basic_type(b),
    ensures
        spec_parse_basic_type(spec_compact_basic_type(b)) == Some(b),
        spec_find(spec_compact_basic_type(b), times()) is None,
{
    let code = spec_compact_basic_type(b);
    lemma_plain_codes();
    match b {
        BasicTypeModel::KValuedInteger { k, minimum } => {
            lemma_starred_round_trip(k, minimum);
            let inner = spec_compact_starred(k, minimum);
            assert(code[0] == 'Z' && code[1] == '_' && code[2] == '{');
            lemma_not_plain(code);
            let rest = code.subrange(2, code.len() as int);
            assert(code.subrange(0, 2) =~= "Z_"@);
            assert(rest =~= seq!['{'] + inner + seq!['}']);
            assert(rest.subrange(1, rest.len() - 1) =~= inner);
            assert(spec_unbraced(rest) == inner);
            assert(spec_k_valued_integer(code) == Some(b));
            assert forall|i: int| 0 <= i < code.len() implies (#[trigger] code[i]) != ' ' by {
                if 3 <= i < 3 + inner.len() {
                    assert(code[i] == inner[i - 3]);
                }
            }
            lemma_no_sign(code);
        },
        BasicTypeModel::FloatTuple { k } => {
            lemma_decimal_round_trip(k as nat);
            lemma_digits_token(k as nat);
            let digits = decimal_digits(k as nat);
            assert(code[0] == 'R' && code[1] == '^' && code[2] == '{');
            assert(code[3] == digits[0]);
            lemma_not_plain(code);
            assert(code.subrange(0, 2) =~= "R^"@);
            let rest = code.subrange(2, code.len() as int);
            assert(rest =~= seq!['{'] + digits + seq!['}']);
            assert(rest.subrange(1, rest.len() - 1) =~= digits);
            assert(spec_unbraced(rest) == digits);
            assert(!matches_at(code, "Z_"@, 0)) by {
                if matches_at(code, "Z_"@, 0) {
                    assert(code.subrange(0, 2)[0] == 'Z');
                }
            }
            assert(!matches_at(code, "R_"@, 0)) by {
                if matches_at(code, "R_"@, 0) {
                    assert(code.subrange(0, 2)[1] == '_');
                }
            }
            assert(spec_k_valued_integer(code) is None);
            assert(spec_k_valued_float(code) is None);
            assert(spec_float_tuple(code) == Some(b));
            assert forall|i: int| 0 <= i < code.len() implies (#[trigger] code[i]) != ' ' by {
                if 3 <= i < 3 + digits.len() {
                    assert(code[i] == digits[i - 3]);
                }
            }
            lemma_no_sign(code);
        },
        BasicTypeModel::KValuedFloat { k } => {
            lemma_decimal_round_trip(k as nat);
            lemma_digits_token(k as nat);
            let digits = decimal_digits(k as nat);
            assert(code[0] == 'R' && code[1] == '_');
            assert(code[2] == digits[0]);
            lemma_not_plain(code);
            assert(code.subrange(0, 2) =~= "R_"@);
            assert(code.subrange(2, code.len() as int) =~= digits);
            assert(!matches_at(code, "Z_"@, 0)) by {
                if matches_at(code, "Z_"@, 0) {
                    assert(code.subrange(0, 2)[0] == 'Z');
                }
            }
            assert(spec_k_valued_integer(code) is None);
            assert(spec_k_valued_float(code) == Some(b));
            assert forall|i: int| 0 <= i < code.len() implies (#[trigger] code[i]) != ' ' by {
                if 2 <= i {
                    assert(code[i] == digits[i - 2]);
                }
            }
            lemma_no_sign(code);
        },
        _ => {
            lemma_plain_round_trip(b);
            lemma_no_sign(code);
        },
    }
}

// ---------------------------------------------------------------------------
// Types
// ---------------------------------------------------------------------------

/// Reading the compact form of a type gives the type.
pub proof fn lemma_compact_round_trip(t: TypeModel)
    requires
        canonical_type(t),
    ensures
        spec_parse_type(spec_compact_type(t)) == Some(t),
{
    reveal_strlit("$");
    let code = spec_compact_basic_type(t.basic_type);
    let body = spec_compact_terms(t.quantity, 0, code);
    let s = spec_compact_type(t);
    lemma_basic_type_round_trip(t.basic_type);
    lemma_terms_round_trip(t.quantity, 0, code);
    assert(s.subrange(1, s.len() - 1) =~= body);
    assert(t.quantity.subrange(0, t.quantity.len() as int) =~= t.quantity);
}

/// A quantity that reading hands out is a number, or a limit that a macro
/// writes.
pub proof fn lemma_parsed_quantity_canonical(s: Seq<char>)
    ensures
        spec_parse_quantity(s) matches Some(q) ==> canonical_quantity(q),
{
}

/// A factor that reading hands out from the text in front of the first
/// multiplication sign is one that reading hands out.
pub proof fn lemma_parsed_term_canonical(s: Seq<char>, i: int)
    requires
        first_match(s, times(), i),
    ensures
        canonical_term(spec_parse_term(s.subrange(0, i))),
{
    let text = s.subrange(0, i);
    let (k, starred) = spec_unstarred(text);
    lemma_parsed_quantity_canonical(k);
    if spec_parse_quantity(k) is None {
        let short = text + times();
        let n = times().len() as int;
        assert(short.subrange(i, i + n) =~= times());
        assert forall|j: int| 0 <= j < i implies !matches_at(short, times(), j) by {
            assert(!matches_at(s, times(), j));
            assert(s.subrange(j, j + n) =~= short.subrange(j, j + n));
        }
    }
}

/// The factors that reading hands out are ones that reading hands out.
pub proof fn lemma_parsed_terms_canonical(s: Seq<char>)
    ensures
        forall|k: int|
            0 <= k < spec_parse_terms(s).0.len() ==> canonical_term(
                #[trigger] spec_parse_terms(s).0[k],
            ),
    decreases s.len(),
{
    lemma_find(s, times());
    match spec_split_once(s, times()) {
        Some((term, rest)) => {
            if rest.len() < s.len() {
                let i = spec_find(s, times()).unwrap();
                lemma_parsed_term_canonical(s, i);
                lemma_parsed_terms_canonical(rest);
                let tail = spec_parse_terms(rest).0;
                let all = spec_parse_terms(s).0;
                assert(all == seq![spec_parse_term(term)] + tail);
                assert forall|k: int| 0 <= k < all.len() implies canonical_term(
                    #[trigger] all[k],
                ) by {
                    if k > 0 {
                        assert(all[k] == tail[k - 1]);
                    }
                }
            }
        },
        None => {},
    }
}

/// A type that reading hands out is one that reading hands out from its
/// compact form too.
pub proof fn lemma_parsed_type_canonical(s: Seq<char>)
    ensures
        spec_parse_type(s) matches Some(t) ==> canonical_type(t),
{
    let inner = s.subrange(1, s.len() - 1);
    lemma_parsed_terms_canonical(inner);
    let code = spec_parse_terms(inner).1;
    if let Some(b) = spec_parse_basic_type(code) {
        if let Some(k) = crate::text::spec_strip_prefix(code, "Z_"@) {
            lemma_parsed_quantity_canonical(spec_unstarred(spec_unbraced(k)).0);
        }
        lemma_plain_codes();
    }
}

/// The round trip: reading a type expression and writing the type in its
/// compact form gives an expression that reads as the same type, with the
/// same factors and the same basic type.
pub proof fn lemma_type_round_trip(s: Seq<char>)
    ensures
        spec_parse_type(s) matches Some(t) ==> spec_parse_type(spec_compact_type(t)) == Some(t),
{
    lemma_parsed_type_canonical(s);
    if let Some(t) = spec_parse_type(s) {
        lemma_compact_round_trip(t);
    }
}

// ---------------------------------------------------------------------------
// Writing
// ---------------------------------------------------------------------------

/// The macro that writes the limit of the given name.
fn limit_macro(name: &str) -> (r: Option<&'static str>)
    ensures
        match r {
            Some(m) => spec_limit_macro(name@) == Some(m@),
            None => spec_limit_macro(name@) is None,
        },
{
    if same_str(name, "MAX_TEXTURE_COORDS") {
        Some("\\mtexcoord")
    } else if same_str(name, "MAX_TEXTURE_UNITS") {
        Some("\\mtexunit")
    } else if same_str(name, "MAX_COMBINED_TEXTURE_IMAGE_UNITS") {
        Some("\\mteximage")
    } else if same_str(name, "MAX_IMAGE_UNITS") {
        Some("\\mimageunit")
    } else if same_str(name, "MAX_VERTEX_ATTRIBS") {
        Some("\\mvtxattr")
    } else if same_str(name, "MAX_DRAW_BUFFERS") {
        Some("\\mdrawbuf")
    } else if same_str(name, "MAX_VERTEX_UNIFORM_BLOCKS") {
        Some("\\mblockstage")
    } else if same_str(name, "MAX_COMBINED_UNIFORM_BLOCKS") {
        Some("\\mblockcombined")
    } else {
        None
    }
}

/// Appends a quantity with the asterisk behind it where it is a minimum.
fn push_starred(out: &mut Vec<char>, q: &Quantity, minimum: bool)
    ensures
        final(out)@ == old(out)@ + spec_compact_starred(q.deep_view(), minimum),
{
    let ghost before = out@;
    match q {
        Quantity::Integer(n) => {
            push_decimal(out, *n as u64);
        },
        Quantity::Constant(name) => match limit_macro(name) {
            Some(m) => {
                append_str(out, m);
            },
            None => {
                append_str(out, name);
            },
        },
    }
    assert(out@ == before + spec_compact_quantity(q.deep_view()));
    if minimum {
        append_str(out, "*");
        assert(out@ =~= before + (spec_compact_quantity(q.deep_view()) + "*"@));
    }
}

/// Appends the code of a basic type.
fn push_basic_type(out: &mut Vec<char>, b: &BasicType)
    ensures
        final(out)@ == old(out)@ + spec_compact_basic_type(b.deep_view()),
{
    let ghost before = out@;
    match b {
        BasicType::Boolean => append_str(out, "B"),
        BasicType::Bmu => append_str(out, "BMU"),
        BasicType::Color => append_str(out, "C"),
        BasicType::Enum => append_str(out, "\\Enum"),
        BasicType::ColorIndex => append_str(out, "CI"),
        BasicType::TexCoords => append_str(out, "T"),
        BasicType::NormalCoords => append_str(out, "N"),
        BasicType::Vertex => append_str(out, "V"),
        BasicType::Integer => append_str(out, "Z"),
        BasicType::NonNegativeInteger => append_str(out, "Z^{+}"),
        BasicType::KValuedInteger { k, minimum } => {
            append_str(out, "Z_{");
            push_starred(out, k, *minimum);
            append_str(out, "}");
            assert(out@ =~= before + ("Z_{"@ + spec_compact_starred(k.deep_view(), *minimum)
                + "}"@));
        },
        BasicType::Float => append_str(out, "R"),
        BasicType::NonNegativeFloat => append_str(out, "R^{+}"),
        BasicType::ZeroOneRangeFloat => append_str(out, "R^{[0,1]}"),
        BasicType::FloatTuple { k } => {
            append_str(out, "R^{");
            push_decimal(out, *k as u64);
            append_str(out, "}");
            assert(out@ =~= before + ("R^{"@ + decimal_digits(*k as nat) + "}"@));
        },
        BasicType::KValuedFloat { k } => {
            append_str(out, "R_");
            push_decimal(out, *k as u64);
            assert(out@ =~= before + ("R_"@ + decimal_digits(*k as nat)));
        },
        BasicType::Position => append_str(out, "P"),
        BasicType::Direction => append_str(out, "D"),
        BasicType::Matrix => append_str(out, "M^{4}"),
        BasicType::String => append_str(out, "S"),
        BasicType::Image => append_str(out, "I"),
        BasicType::AttributeStackEntry => append_str(out, "A"),
        BasicType::Pointer => append_str(out, "Y"),
        BasicType::Char => append_str(out, "\\glt{char}"),
    }
}

/// Appends the text that writes a factor.
fn push_term(out: &mut Vec<char>, term: &Term)
    ensures
        final(out)@ == old(out)@ + spec_compact_term(term.deep_view()),
{
    match term {
        MaybeParsed::Parsed(p) => push_starred(out, &p.0, p.1),
        MaybeParsed::Unparsed(text) => append_str(out, text.as_str()),
    }
}

/// Writes a type in its compact form: its factors, each followed by the
/// multiplication sign, then the code of its basic type, all between
/// inline-math delimiters. Reading what is written gives the type again,
/// where the type is one that reading hands out.
pub fn compact_type(t: &Type) -> (r: String)
    ensures
        r@ == spec_compact_type(t.deep_view()),
{
    let mut code: Vec<char> = Vec::new();
    push_basic_type(&mut code, &t.basic_type);
    assert(code@ =~= spec_compact_basic_type(t.basic_type.deep_view()));
    let mut body: Vec<char> = Vec::new();
    append(&mut body, code.as_slice());
    let mut i: usize = t.quantity.len();
    let ghost terms = t.quantity.deep_view();
    assert(body@ =~= spec_compact_terms(terms, i as int, code@));
    while i > 0
        invariant
            i <= t.quantity.len(),
            terms == t.quantity.deep_view(),
            body@ == spec_compact_terms(terms, i as int, code@),
        decreases i,
    {
        i -= 1;
        let mut head: Vec<char> = Vec::new();
        push_term(&mut head, &t.quantity[i]);
        append_str(&mut head, " \\times ");
        append(&mut head, body.as_slice());
        assert(terms[i as int] == t.quantity[i as int].deep_view());
        assert(head@ =~= spec_compact_term(terms[i as int]) + times() + body@);
        body = head;
    }
    let mut out: Vec<char> = Vec::new();
    append_str(&mut out, "$");
    append(&mut out, body.as_slice());
    append_str(&mut out, "$");
    assert(out@ =~= "$"@ + body@ + "$"@);
    to_string(out.as_slice())
}

} // verus!
