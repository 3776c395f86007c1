//! The compact type language: quantities, basic type codes and types.

use crate::number::{parse_u32, spec_parse_u32};
use crate::text::{
    is_text, same_text, spec_split_once, spec_strip_prefix, split_once, strip_prefix, to_chars,
    to_string,
};
use vstd::prelude::*;
use vstd::slice::slice_subrange;

verus! {

// ---------------------------------------------------------------------------
// Data
// ---------------------------------------------------------------------------

/// A field that is held in parsed form where it could be parsed, and as
/// the text it was found as where it could not.
#[derive(Debug)]
pub enum MaybeParsed<T> {
    Parsed(T),
    Unparsed(String),
}

/// What a `MaybeParsed` stands for.
pub enum MaybeParsedModel<V> {
    Parsed(V),
    Unparsed(Seq<char>),
}

impl<T: DeepView> DeepView for MaybeParsed<T> {
    type V = MaybeParsedModel<T::V>;

    open spec fn deep_view(&self) -> MaybeParsedModel<T::V> {
        match self {
            MaybeParsed::Parsed(t) => MaybeParsedModel::Parsed(t.deep_view()),
            MaybeParsed::Unparsed(s) => MaybeParsedModel::Unparsed(s@),
        }
    }
}

/// A count: a number, or a limit that each implementation defines.
#[derive(Debug)]
pub enum Quantity {
    /// A plain number.
    Integer(u32),
    /// The name of a limit, such as `MAX_DRAW_BUFFERS`.
    Constant(&'static str),
}

/// What a `Quantity` stands for.
pub enum QuantityModel {
    Integer(u32),
    Constant(Seq<char>),
}

impl DeepView for Quantity {
    type V = QuantityModel;

    open spec fn deep_view(&self) -> QuantityModel {
        match self {
            Quantity::Integer(n) => QuantityModel::Integer(*n),
            Quantity::Constant(name) => QuantityModel::Constant(name@),
        }
    }
}

/// A basic type code.
#[derive(Debug)]
#[allow(inconsistent_fields)]
pub enum BasicType {
    /// `B`: Boolean
    Boolean,
    /// `BMU`: basic machine units
    Bmu,
    /// `C`: colour (floating-point R, G, B and A values)
    Color,
    /// `E`: enumerated value
    Enum,
    /// `CI`: colour index (floating-point index value)
    ColorIndex,
    /// `T`: texture coordinates (floating-point s, t, r, q values)
    TexCoords,
    /// `N`: normal coordinates (floating-point x, y, z values)
    NormalCoords,
    /// `V`: vertex, including associated data
    Vertex,
    /// `Z`: integer
    Integer,
    /// `Z` with a superscript plus sign: non-negative integer
    NonNegativeInteger,
    /// `Z` with a subscript `k`: `k`-valued integer; with an asterisk behind
    /// the `k`, `k` is a minimum
    KValuedInteger { k: Quantity, minimum: bool },
    /// `R`: floating-point number
    Float,
    /// `R` with a superscript plus sign: non-negative floating-point number
    NonNegativeFloat,
    /// `R` with a superscript `[0,1]`: floating-point number between 0 and 1
    ZeroOneRangeFloat,
    /// `R` with a superscript `k`: `k`-tuple of floating-point numbers
    FloatTuple { k: u32 },
    /// `R` with a subscript `k`: `k`-valued floating-point number
    KValuedFloat { k: u32 },
    /// `P`: position (x, y, z, w floating-point coordinates)
    Position,
    /// `D`: direction (x, y, z floating-point coordinates)
    Direction,
    /// `M` with a superscript 4: 4 by 4 floating-point matrix
    Matrix,
    /// `S`: null-terminated string
    String,
    /// `I`: image
    Image,
    /// `A`: attribute stack entry, including mask
    AttributeStackEntry,
    /// `Y`: pointer (data type unspecified)
    Pointer,
    /// `char`
    Char,
}

/// What a `BasicType` stands for.
#[allow(inconsistent_fields)]
pub enum BasicTypeModel {
    Boolean,
    Bmu,
    Color,
    Enum,
    ColorIndex,
    TexCoords,
    NormalCoords,
    Vertex,
    Integer,
    NonNegativeInteger,
    KValuedInteger { k: QuantityModel, minimum: bool },
    Float,
    NonNegativeFloat,
    ZeroOneRangeFloat,
    FloatTuple { k: u32 },
    KValuedFloat { k: u32 },
    Position,
    Direction,
    Matrix,
    String,
    Image,
    AttributeStackEntry,
    Pointer,
    Char,
}

impl DeepView for BasicType {
    type V = BasicTypeModel;

    open spec fn deep_view(&self) -> BasicTypeModel {
        match self {
            BasicType::Boolean => BasicTypeModel::Boolean,
            BasicType::Bmu => BasicTypeModel::Bmu,
            BasicType::Color => BasicTypeModel::Color,
            BasicType::Enum => BasicTypeModel::Enum,
            BasicType::ColorIndex => BasicTypeModel::ColorIndex,
            BasicType::TexCoords => BasicTypeModel::TexCoords,
            BasicType::NormalCoords => BasicTypeModel::NormalCoords,
            BasicType::Vertex => BasicTypeModel::Vertex,
            BasicType::Integer => BasicTypeModel::Integer,
            BasicType::NonNegativeInteger => BasicTypeModel::NonNegativeInteger,
            BasicType::KValuedInteger { k, minimum } => BasicTypeModel::KValuedInteger {
                k: k.deep_view(),
                minimum: *minimum,
            },
            BasicType::Float => BasicTypeModel::Float,
            BasicType::NonNegativeFloat => BasicTypeModel::NonNegativeFloat,
            BasicType::ZeroOneRangeFloat => BasicTypeModel::ZeroOneRangeFloat,
            BasicType::FloatTuple { k } => BasicTypeModel::FloatTuple { k: *k },
            BasicType::KValuedFloat { k } => BasicTypeModel::KValuedFloat { k: *k },
            BasicType::Position => BasicTypeModel::Position,
            BasicType::Direction => BasicTypeModel::Direction,
            BasicType::Matrix => BasicTypeModel::Matrix,
            BasicType::String => BasicTypeModel::String,
            BasicType::Image => BasicTypeModel::Image,
            BasicType::AttributeStackEntry => BasicTypeModel::AttributeStackEntry,
            BasicType::Pointer => BasicTypeModel::Pointer,
            BasicType::Char => BasicTypeModel::Char,
        }
    }
}

/// One factor in front of a basic type: a quantity with the mark that says
/// whether it is a minimum, or the text that could not be read as one.
pub type Term = MaybeParsed<(Quantity, bool)>;

/// What a `Term` stands for.
pub type TermModel = MaybeParsedModel<(QuantityModel, bool)>;

/// A type: so many copies of a basic type. The factors multiply: with the
/// factors `a`, `b` the type is `a` times `b` copies of the basic type, and
/// with none it is the basic type itself.
#[derive(Debug)]
pub struct Type {
    /// The basic type.
    pub basic_type: BasicType,
    /// The factors, in the order in which they are written.
    pub quantity: Vec<Term>,
}

/// What a `Type` stands for.
pub struct TypeModel {
    pub basic_type: BasicTypeModel,
    pub quantity: Seq<TermModel>,
}

impl DeepView for Type {
    type V = TypeModel;

    open spec fn deep_view(&self) -> TypeModel {
        TypeModel {
            basic_type: self.basic_type.deep_view(),
            quantity: self.quantity.deep_view(),
        }
    }
}

// ---------------------------------------------------------------------------
// Comparison
// ---------------------------------------------------------------------------

/// Whether two strings hold the same text.
pub fn same_str(a: &str, b: &str) -> (r: bool)
    ensures
        r == (a@ == b@),
{
    let x = to_chars(a);
    let y = to_chars(b);
    same_text(x.as_slice(), y.as_slice())
}

/// Whether two optional strings hold the same text, or are both absent.
pub fn same_opt_string(a: &Option<String>, b: &Option<String>) -> (r: bool)
    ensures
        r == (a.deep_view() == b.deep_view()),
{
    match (a, b) {
        (Some(x), Some(y)) => same_str(x.as_str(), y.as_str()),
        (None, None) => true,
        _ => false,
    }
}

impl Quantity {
    /// Whether two quantities stand for the same count.
    pub fn same(&self, other: &Quantity) -> (r: bool)
        ensures
            r == (self.deep_view() == other.deep_view()),
    {
        match (self, other) {
            (Quantity::Integer(a), Quantity::Integer(b)) => *a == *b,
            (Quantity::Constant(a), Quantity::Constant(b)) => same_str(a, b),
            _ => false,
        }
    }
}

impl BasicType {
    /// Whether two basic types are the same.
    pub fn same(&self, other: &BasicType) -> (r: bool)
        ensures
            r == (self.deep_view() == other.deep_view()),
    {
        match (self, other) {
            (BasicType::Boolean, BasicType::Boolean) => true,
            (BasicType::Bmu, BasicType::Bmu) => true,
            (BasicType::Color, BasicType::Color) => true,
            (BasicType::Enum, BasicType::Enum) => true,
            (BasicType::ColorIndex, BasicType::ColorIndex) => true,
            (BasicType::TexCoords, BasicType::TexCoords) => true,
            (BasicType::NormalCoords, BasicType::NormalCoords) => true,
            (BasicType::Vertex, BasicType::Vertex) => true,
            (BasicType::Integer, BasicType::Integer) => true,
            (BasicType::NonNegativeInteger, BasicType::NonNegativeInteger) => true,
            (
                BasicType::KValuedInteger { k: a, minimum: m },
                BasicType::KValuedInteger { k: b, minimum: n },
            ) => a.same(b) && *m == *n,
            (BasicType::Float, BasicType::Float) => true,
            (BasicType::NonNegativeFloat, BasicType::NonNegativeFloat) => true,
            (BasicType::ZeroOneRangeFloat, BasicType::ZeroOneRangeFloat) => true,
            (BasicType::FloatTuple { k: a }, BasicType::FloatTuple { k: b }) => *a == *b,
            (BasicType::KValuedFloat { k: a }, BasicType::KValuedFloat { k: b }) => *a == *b,
            (BasicType::Position, BasicType::Position) => true,
            (BasicType::Direction, BasicType::Direction) => true,
            (BasicType::Matrix, BasicType::Matrix) => true,
            (BasicType::String, BasicType::String) => true,
            (BasicType::Image, BasicType::Image) => true,
            (BasicType::AttributeStackEntry, BasicType::AttributeStackEntry) => true,
            (BasicType::Pointer, BasicType::Pointer) => true,
            (BasicType::Char, BasicType::Char) => true,
            _ => false,
        }
    }
}

/// Whether two factors are the same.
pub fn same_term(a: &Term, b: &Term) -> (r: bool)
    ensures
        r == (a.deep_view() == b.deep_view()),
{
    match (a, b) {
        (MaybeParsed::Parsed(x), MaybeParsed::Parsed(y)) => x.0.same(&y.0) && x.1 == y.1,
        (MaybeParsed::Unparsed(x), MaybeParsed::Unparsed(y)) => same_str(x.as_str(), y.as_str()),
        _ => false,
    }
}

impl Type {
    /// Whether two types are the same: the same basic type behind the same
    /// factors.
    pub fn same(&self, other: &Type) -> (r: bool)
        ensures
            r == (self.deep_view() == other.deep_view()),
    {
        if !self.basic_type.same(&other.basic_type) {
            return false;
        }
        if self.quantity.len() != other.quantity.len() {
            assert(self.quantity.deep_view().len() != other.quantity.deep_view().len());
            return false;
        }
        let mut i: usize = 0;
        while i < self.quantity.len()
            invariant
                i <= self.quantity.len(),
                self.quantity.len() == other.quantity.len(),
                forall|j: int|
                    0 <= j < i ==> self.quantity.deep_view()[j] == other.quantity.deep_view()[j],
            decreases self.quantity.len() - i,
        {
            if !same_term(&self.quantity[i], &other.quantity[i]) {
                assert(self.quantity.deep_view()[i as int] != other.quantity.deep_view()[i as int]);
                return false;
            }
            i += 1;
        }
        assert(self.quantity.deep_view() =~= other.quantity.deep_view());
        true
    }
}

/// Whether two optional type fields are the same: both absent, the same
/// type, or the same text.
pub fn same_opt_type(a: &Option<MaybeParsed<Type>>, b: &Option<MaybeParsed<Type>>) -> (r: bool)
    ensures
        r == (a.deep_view() == b.deep_view()),
{
    match (a, b) {
        (Some(MaybeParsed::Parsed(x)), Some(MaybeParsed::Parsed(y))) => x.same(y),
        (Some(MaybeParsed::Unparsed(x)), Some(MaybeParsed::Unparsed(y))) => same_str(
            x.as_str(),
            y.as_str(),
        ),
        (None, None) => true,
        _ => false,
    }
}

// ---------------------------------------------------------------------------
// Quantities
// ---------------------------------------------------------------------------

/// The limit that a macro names, or the number that it stands for.
pub open spec fn spec_named_quantity(s: Seq<char>) -> Option<QuantityModel> {
    if s == "\\mtexcoord"@ {
        Some(QuantityModel::Constant("MAX_TEXTURE_COORDS"@))
    } else if s == "\\mtexnum"@ || s == "\\mtexunit"@ {
        Some(QuantityModel::Constant("MAX_TEXTURE_UNITS"@))
    } else if s == "\\mteximage"@ {
        Some(QuantityModel::Constant("MAX_COMBINED_TEXTURE_IMAGE_UNITS"@))
    } else if s == "\\mimageunit"@ {
        Some(QuantityModel::Constant("MAX_IMAGE_UNITS"@))
    } else if s == "\\mvtxattr"@ {
        Some(QuantityModel::Constant("MAX_VERTEX_ATTRIBS"@))
    } else if s == "\\mdrawbuf"@ {
        Some(QuantityModel::Constant("MAX_DRAW_BUFFERS"@))
    } else if s == "\\mblockstage"@ {
        Some(QuantityModel::Constant("MAX_VERTEX_UNIFORM_BLOCKS"@))
    } else if s == "\\mblockcombined"@ {
        Some(QuantityModel::Constant("MAX_COMBINED_UNIFORM_BLOCKS"@))
    } else if s == "\\mprogstage"@ {
        Some(QuantityModel::Integer(6))
    } else {
        None
    }
}

/// The quantity that a token writes: the number, where the token is a
/// numeral; else what the macro of that name stands for.
pub open spec fn spec_parse_quantity(s: Seq<char>) -> Option<QuantityModel> {
    match spec_parse_u32(s) {
        Some(n) => Some(QuantityModel::Integer(n)),
        None => spec_named_quantity(s),
    }
}

/// A token that names a limit is read as that limit and never as a number,
/// and a token that is a numeral is read as its number.
pub proof fn lemma_parse_quantity(s: Seq<char>)
    ensures
        spec_named_quantity(s) is Some ==> spec_parse_u32(s) is None && spec_parse_quantity(s)
            == spec_named_quantity(s),
        spec_parse_u32(s) matches Some(n) ==> spec_parse_quantity(s) == Some(
            QuantityModel::Integer(n),
        ),
{
    reveal_strlit("\\mtexcoord");
    reveal_strlit("\\mtexnum");
    reveal_strlit("\\mtexunit");
    reveal_strlit("\\mteximage");
    reveal_strlit("\\mimageunit");
    reveal_strlit("\\mvtxattr");
    reveal_strlit("\\mdrawbuf");
    reveal_strlit("\\mblockstage");
    reveal_strlit("\\mblockcombined");
    reveal_strlit("\\mprogstage");
    if spec_named_quantity(s) is Some {
        assert(s[0] == '\\');
        assert(!crate::number::spec_is_digit(s[0]));
    }
}

/// Reads a quantity token.
pub fn parse_quantity_chars(s: &[char]) -> (r: Option<Quantity>)
    ensures
        r.deep_view() == spec_parse_quantity(s@),
{
    match parse_u32(s) {
        Some(n) => Some(Quantity::Integer(n)),
        None => {
            if is_text(s, "\\mtexcoord") {
                Some(Quantity::Constant("MAX_TEXTURE_COORDS"))
            } else if is_text(s, "\\mtexnum") || is_text(s, "\\mtexunit") {
                Some(Quantity::Constant("MAX_TEXTURE_UNITS"))
            } else if is_text(s, "\\mteximage") {
                Some(Quantity::Constant("MAX_COMBINED_TEXTURE_IMAGE_UNITS"))
            } else if is_text(s, "\\mimageunit") {
                Some(Quantity::Constant("MAX_IMAGE_UNITS"))
            } else if is_text(s, "\\mvtxattr") {
                Some(Quantity::Constant("MAX_VERTEX_ATTRIBS"))
            } else if is_text(s, "\\mdrawbuf") {
                Some(Quantity::Constant("MAX_DRAW_BUFFERS"))
            } else if is_text(s, "\\mblockstage") {
                Some(Quantity::Constant("MAX_VERTEX_UNIFORM_BLOCKS"))
            } else if is_text(s, "\\mblockcombined") {
                Some(Quantity::Constant("MAX_COMBINED_UNIFORM_BLOCKS"))
            } else if is_text(s, "\\mprogstage") {
                Some(Quantity::Integer(6))
            } else {
                None
            }
        },
    }
}

/// Reads a quantity token: a numeral gives its number, the macro of a named
/// limit gives that limit, and any other token gives nothing.
pub fn parse_quantity(quantity: &str) -> (r: Option<Quantity>)
    ensures
        r.deep_view() == spec_parse_quantity(quantity@),
{
    let chars = to_chars(quantity);
    parse_quantity_chars(chars.as_slice())
}

// ---------------------------------------------------------------------------
// Basic type codes
// ---------------------------------------------------------------------------

/// `k` without the braces around it, where it stands in braces.
pub open spec fn spec_unbraced(k: Seq<char>) -> Seq<char> {
    if k.len() >= 2 && k[0] == '{' && k.last() == '}' {
        k.subrange(1, k.len() - 1)
    } else {
        k
    }
}

/// `k` without the asterisk at its end, and whether it had one.
pub open spec fn spec_unstarred(k: Seq<char>) -> (Seq<char>, bool) {
    if k.len() >= 1 && k.last() == '*' {
        (k.drop_last(), true)
    } else {
        (k, false)
    }
}

/// The basic type that one of the codes without a parameter writes.
pub open spec fn spec_plain_basic_type(code: Seq<char>) -> Option<BasicTypeModel> {
    if code == "B"@ {
        Some(BasicTypeModel::Boolean)
    } else if code == "BMU"@ {
        Some(BasicTypeModel::Bmu)
    } else if code == "C"@ {
        Some(BasicTypeModel::Color)
    } else if code == "\\Enum"@ {
        Some(BasicTypeModel::Enum)
    } else if code == "CI"@ {
        Some(BasicTypeModel::ColorIndex)
    } else if code == "T"@ {
        Some(BasicTypeModel::TexCoords)
    } else if code == "N"@ {
        Some(BasicTypeModel::NormalCoords)
    } else if code == "V"@ {
        Some(BasicTypeModel::Vertex)
    } else if code == "Z"@ {
        Some(BasicTypeModel::Integer)
    } else if code == "Z+"@ || code == "Z^+"@ || code == "Z^{+}"@ || code == "\\Zplus"@ {
        Some(BasicTypeModel::NonNegativeInteger)
    } else if code == "R"@ {
        Some(BasicTypeModel::Float)
    } else if code == "R^{+}"@ {
        Some(BasicTypeModel::NonNegativeFloat)
    } else if code == "R^{[0,1]}"@ {
        Some(BasicTypeModel::ZeroOneRangeFloat)
    } else if code == "P"@ {
        Some(BasicTypeModel::Position)
    } else if code == "D"@ {
        Some(BasicTypeModel::Direction)
    } else if code == "M^{4}"@ {
        Some(BasicTypeModel::Matrix)
    } else if code == "S"@ {
        Some(BasicTypeModel::String)
    } else if code == "I"@ {
        Some(BasicTypeModel::Image)
    } else if code == "A"@ {
        Some(BasicTypeModel::AttributeStackEntry)
    } else if code == "Y"@ {
        Some(BasicTypeModel::Pointer)
    } else if code == "\\glt{char}"@ {
        Some(BasicTypeModel::Char)
    } else {
        None
    }
}

/// The `k`-valued integer that a code writes: `Z_`, then the size, which may
/// stand in braces and may end in an asterisk. The asterisk marks a number
/// as a minimum; behind a named limit it says nothing.
pub open spec fn spec_k_valued_integer(code: Seq<char>) -> Option<BasicTypeModel> {
    match spec_strip_prefix(code, "Z_"@) {
        Some(k) => {
            let (k, starred) = spec_unstarred(spec_unbraced(k));
            match spec_parse_quantity(k) {
                Some(q) => Some(
                    BasicTypeModel::KValuedInteger { k: q, minimum: starred && !(q is Constant) },
                ),
                None => None,
            }
        },
        None => None,
    }
}

/// The `k`-valued float that a code writes: `R_`, then a size that is a
/// number.
pub open spec fn spec_k_valued_float(code: Seq<char>) -> Option<BasicTypeModel> {
    match spec_strip_prefix(code, "R_"@) {
        Some(k) => match spec_parse_quantity(k) {
            Some(QuantityModel::Integer(n)) => Some(BasicTypeModel::KValuedFloat { k: n }),
            _ => None,
        },
        None => None,
    }
}

/// The tuple of floats that a code writes: `R^`, then a size that is a
/// number and may stand in braces.
pub open spec fn spec_float_tuple(code: Seq<char>) -> Option<BasicTypeModel> {
    match spec_strip_prefix(code, "R^"@) {
        Some(k) => match spec_parse_quantity(spec_unbraced(k)) {
            Some(QuantityModel::Integer(n)) => Some(BasicTypeModel::FloatTuple { k: n }),
            _ => None,
        },
        None => None,
    }
}

/// The basic type that a code writes: one of the codes without a parameter,
/// else a `k`-valued integer, else a `k`-valued float, else a tuple of
/// floats.
pub open spec fn spec_parse_basic_type(code: Seq<char>) -> Option<BasicTypeModel> {
    match spec_plain_basic_type(code) {
        Some(b) => Some(b),
        None => match spec_k_valued_integer(code) {
            Some(b) => Some(b),
            None => match spec_k_valued_float(code) {
                Some(b) => Some(b),
                None => spec_float_tuple(code),
            },
        },
    }
}

/// `k` without the braces around it, where it stands in braces.
fn unbraced(k: &[char]) -> (r: &[char])
    ensures
        r@ == spec_unbraced(k@),
{
    if k.len() >= 2 && k[0] == '{' && k[k.len() - 1] == '}' {
        slice_subrange(k, 1, k.len() - 1)
    } else {
        k
    }
}

/// `k` without the asterisk at its end, and whether it had one.
fn unstarred(k: &[char]) -> (r: (&[char], bool))
    ensures
        (r.0@, r.1) == spec_unstarred(k@),
{
    if k.len() >= 1 && k[k.len() - 1] == '*' {
        (slice_subrange(k, 0, k.len() - 1), true)
    } else {
        (k, false)
    }
}

/// Reads one of the basic type codes without a parameter.
fn parse_plain_basic_type(code: &[char]) -> (r: Option<BasicType>)
    ensures
        r.deep_view() == spec_plain_basic_type(code@),
{
    if is_text(code, "B") {
        Some(BasicType::Boolean)
    } else if is_text(code, "BMU") {
        Some(BasicType::Bmu)
    } else if is_text(code, "C") {
        Some(BasicType::Color)
    } else if is_text(code, "\\Enum") {
        Some(BasicType::Enum)
    } else if is_text(code, "CI") {
        Some(BasicType::ColorIndex)
    } else if is_text(code, "T") {
        Some(BasicType::TexCoords)
    } else if is_text(code, "N") {
        Some(BasicType::NormalCoords)
    } else if is_text(code, "V") {
        Some(BasicType::Vertex)
    } else if is_text(code, "Z") {
        Some(BasicType::Integer)
    } else if is_text(code, "Z+") || is_text(code, "Z^+") || is_text(code, "Z^{+}") || is_text(
        code,
        "\\Zplus",
    ) {
        Some(BasicType::NonNegativeInteger)
    } else if is_text(code, "R") {
        Some(BasicType::Float)
    } else if is_text(code, "R^{+}") {
        Some(BasicType::NonNegativeFloat)
    } else if is_text(code, "R^{[0,1]}") {
        Some(BasicType::ZeroOneRangeFloat)
    } else if is_text(code, "P") {
        Some(BasicType::Position)
    } else if is_text(code, "D") {
        Some(BasicType::Direction)
    } else if is_text(code, "M^{4}") {
        Some(BasicType::Matrix)
    } else if is_text(code, "S") {
        Some(BasicType::String)
    } else if is_text(code, "I") {
        Some(BasicType::Image)
    } else if is_text(code, "A") {
        Some(BasicType::AttributeStackEntry)
    } else if is_text(code, "Y") {
        Some(BasicType::Pointer)
    } else if is_text(code, "\\glt{char}") {
        Some(BasicType::Char)
    } else {
        None
    }
}

/// Reads the code of a `k`-valued integer.
fn parse_k_valued_integer(code: &[char]) -> (r: Option<BasicType>)
    ensures
        r.deep_view() == spec_k_valued_integer(code@),
{
    match strip_prefix(code, "Z_") {
        Some(k) => {
            let (k, starred) = unstarred(unbraced(k));
            match parse_quantity_chars(k) {
                Some(q) => {
                    let minimum = match q {
                        Quantity::Integer(_) => starred,
                        Quantity::Constant(_) => false,
                    };
                    Some(BasicType::KValuedInteger { k: q, minimum })
                },
                None => None,
            }
        },
        None => None,
    }
}

/// Reads the code of a `k`-valued float.
fn parse_k_valued_float(code: &[char]) -> (r: Option<BasicType>)
    ensures
        r.deep_view() == spec_k_valued_float(code@),
{
    match strip_prefix(code, "R_") {
        Some(k) => match parse_quantity_chars(k) {
            Some(Quantity::Integer(n)) => Some(BasicType::KValuedFloat { k: n }),
            _ => None,
        },
        None => None,
    }
}

/// Reads the code of a tuple of floats.
fn parse_float_tuple(code: &[char]) -> (r: Option<BasicType>)
    ensures
        r.deep_view() == spec_float_tuple(code@),
{
    match strip_prefix(code, "R^") {
        Some(k) => match parse_quantity_chars(unbraced(k)) {
            Some(Quantity::Integer(n)) => Some(BasicType::FloatTuple { k: n }),
            _ => None,
        },
        None => None,
    }
}

/// Reads a basic type code. A code outside the vocabulary gives nothing.
pub fn parse_basic_type_chars(code: &[char]) -> (r: Option<BasicType>)
    ensures
        r.deep_view() == spec_parse_basic_type(code@),
{
    match parse_plain_basic_type(code) {
        Some(b) => Some(b),
        None => match parse_k_valued_integer(code) {
            Some(b) => Some(b),
            None => match parse_k_valued_float(code) {
                Some(b) => Some(b),
                None => parse_float_tuple(code),
            },
        },
    }
}

/// Reads a basic type code. A code outside the vocabulary gives nothing.
pub fn parse_basic_type(basic_type: &str) -> (r: Option<BasicType>)
    ensures
        r.deep_view() == spec_parse_basic_type(basic_type@),
{
    let chars = to_chars(basic_type);
    parse_basic_type_chars(chars.as_slice())
}

// ---------------------------------------------------------------------------
// Types
// ---------------------------------------------------------------------------

/// The sign that stands between the factors of a type and in front of its
/// basic type.
pub open spec fn times() -> Seq<char> {
    " \\times "@
}

/// The factor that a term writes. An asterisk at its end marks a number as a
/// minimum; behind a named limit it says nothing. A term that writes no
/// quantity is kept as it stands.
pub open spec fn spec_parse_term(term: Seq<char>) -> TermModel {
    let (k, starred) = spec_unstarred(term);
    match spec_parse_quantity(k) {
        Some(q) => MaybeParsedModel::Parsed((q, starred && !(q is Constant))),
        None => MaybeParsedModel::Unparsed(term),
    }
}

/// The factors that `s` begins with, each followed by the multiplication
/// sign, and the text behind the last sign.
/// The test on the lengths in it always passes, since what is left to read
/// is shorter than what was read; it is there to show that the reading
/// ends.
pub open spec fn spec_parse_terms(s: Seq<char>) -> (Seq<TermModel>, Seq<char>)
    decreases s.len(),
{
    match spec_split_once(s, times()) {
        Some((term, rest)) => {
            if rest.len() < s.len() {
                let (terms, code) = spec_parse_terms(rest);
                (seq![spec_parse_term(term)] + terms, code)
            } else {
                (Seq::empty(), s)
            }
        },
        None => (Seq::empty(), s),
    }
}

/// Whether `s` stands between two inline-math delimiters.
pub open spec fn spec_is_inline_math(s: Seq<char>) -> bool {
    s.len() >= 2 && s[0] == '$' && s.last() == '$'
}

/// The type that an expression between inline-math delimiters writes:
/// factors, each followed by the multiplication sign, then a basic type
/// code. An expression whose code is outside the vocabulary writes none.
pub open spec fn spec_parse_type(s: Seq<char>) -> Option<TypeModel> {
    let (terms, code) = spec_parse_terms(s.subrange(1, s.len() - 1));
    match spec_parse_basic_type(code) {
        Some(basic_type) => Some(TypeModel { basic_type, quantity: terms }),
        None => None,
    }
}

/// Whether `s` stands between two inline-math delimiters.
pub fn is_inline_math(s: &[char]) -> (r: bool)
    ensures
        r == spec_is_inline_math(s@),
{
    s.len() >= 2 && s[0] == '$' && s[s.len() - 1] == '$'
}

/// Reads one factor of a type.
fn parse_term(term: &[char]) -> (r: Term)
    ensures
        r.deep_view() == spec_parse_term(term@),
{
    let (k, starred) = unstarred(term);
    match parse_quantity_chars(k) {
        Some(q) => {
            let minimum = match q {
                Quantity::Integer(_) => starred,
                Quantity::Constant(_) => false,
            };
            MaybeParsed::Parsed((q, minimum))
        },
        None => MaybeParsed::Unparsed(to_string(term)),
    }
}

/// Reads the factors that `s` begins with, and hands out the text behind
/// them.
fn parse_terms(s: &[char]) -> (r: (Vec<Term>, &[char]))
    ensures
        (r.0.deep_view(), r.1@) == spec_parse_terms(s@),
{
    let mut terms: Vec<Term> = Vec::new();
    let mut rest: &[char] = s;
    assert(terms.deep_view() =~= Seq::<TermModel>::empty());
    loop
        invariant
            spec_parse_terms(s@) == (
                terms.deep_view() + spec_parse_terms(rest@).0,
                spec_parse_terms(rest@).1,
            ),
        ensures
            (terms.deep_view(), rest@) == spec_parse_terms(s@),
        decreases rest@.len(),
    {
        match split_once(rest, " \\times ") {
            Some((term, after)) => {
                proof {
                    crate::text::lemma_find(rest@, times());
                    reveal_strlit(" \\times ");
                }
                let ghost before = terms.deep_view();
                let t = parse_term(term);
                terms.push(t);
                assert(terms.deep_view() =~= before.push(spec_parse_term(term@)));
                assert(before.push(spec_parse_term(term@)) + spec_parse_terms(after@).0
                    =~= before + (seq![spec_parse_term(term@)] + spec_parse_terms(after@).0));
                rest = after;
            },
            None => {
                assert(terms.deep_view() + Seq::<TermModel>::empty() =~= terms.deep_view());
                break ;
            },
        }
    }
    (terms, rest)
}

/// Reads a type expression that stands between inline-math delimiters.
pub fn parse_type_chars(s: &[char]) -> (r: Option<Type>)
    requires
        spec_is_inline_math(s@),
    ensures
        r.deep_view() == spec_parse_type(s@),
{
    let inner = slice_subrange(s, 1, s.len() - 1);
    let (terms, code) = parse_terms(inner);
    match parse_basic_type_chars(code) {
        Some(basic_type) => Some(Type { basic_type, quantity: terms }),
        None => None,
    }
}

/// The basic type code of a type expression, where that code is outside
/// the vocabulary.
pub open spec fn spec_unmatched_code(s: Seq<char>) -> Option<Seq<char>> {
    let code = spec_parse_terms(s.subrange(1, s.len() - 1)).1;
    if spec_parse_basic_type(code) is None {
        Some(code)
    } else {
        None
    }
}

/// The basic type code of a type expression that stands between
/// inline-math delimiters, where that code is outside the vocabulary: the
/// reason why the expression gives no type.
pub fn unmatched_code(type_: &str) -> (r: Option<String>)
    requires
        spec_is_inline_math(type_@),
    ensures
        r.deep_view() == spec_unmatched_code(type_@),
{
    let chars = to_chars(type_);
    let inner = slice_subrange(chars.as_slice(), 1, chars.len() - 1);
    let (_, code) = parse_terms(inner);
    match parse_basic_type_chars(code) {
        Some(_) => None,
        None => Some(to_string(code)),
    }
}

/// Reads a type expression that stands between inline-math delimiters:
/// factors, each followed by the multiplication sign, then a basic type
/// code. A factor that writes no quantity is kept as text. An expression
/// whose basic type code is outside the vocabulary gives no type.
pub fn parse_type(type_: &str) -> (r: Option<Type>)
    requires
        spec_is_inline_math(type_@),
    ensures
        r.deep_view() == spec_parse_type(type_@),
{
    let chars = to_chars(type_);
    parse_type_chars(chars.as_slice())
}

} // verus!
