use state_tables::compact::compact_type;
use state_tables::types::{
    parse_basic_type, parse_quantity, parse_type, BasicType, MaybeParsed, Quantity, Type,
};

fn constant(q: Option<Quantity>) -> Option<&'static str> {
    match q {
        Some(Quantity::Constant(name)) => Some(name),
        _ => None,
    }
}

fn integer(q: Option<Quantity>) -> Option<u32> {
    match q {
        Some(Quantity::Integer(n)) => Some(n),
        _ => None,
    }
}

#[test]
fn a_numeral_is_a_number() {
    assert_eq!(integer(parse_quantity("0")), Some(0));
    assert_eq!(integer(parse_quantity("16")), Some(16));
    assert_eq!(integer(parse_quantity("+3")), Some(3));
    assert_eq!(integer(parse_quantity("4294967295")), Some(u32::MAX));
}

#[test]
fn a_macro_is_a_named_limit() {
    assert_eq!(constant(parse_quantity("\\mtexcoord")), Some("MAX_TEXTURE_COORDS"));
    assert_eq!(constant(parse_quantity("\\mtexnum")), Some("MAX_TEXTURE_UNITS"));
    assert_eq!(constant(parse_quantity("\\mtexunit")), Some("MAX_TEXTURE_UNITS"));
    assert_eq!(
        constant(parse_quantity("\\mteximage")),
        Some("MAX_COMBINED_TEXTURE_IMAGE_UNITS")
    );
    assert_eq!(constant(parse_quantity("\\mimageunit")), Some("MAX_IMAGE_UNITS"));
    assert_eq!(constant(parse_quantity("\\mvtxattr")), Some("MAX_VERTEX_ATTRIBS"));
    assert_eq!(constant(parse_quantity("\\mdrawbuf")), Some("MAX_DRAW_BUFFERS"));
    assert_eq!(constant(parse_quantity("\\mblockstage")), Some("MAX_VERTEX_UNIFORM_BLOCKS"));
    assert_eq!(
        constant(parse_quantity("\\mblockcombined")),
        Some("MAX_COMBINED_UNIFORM_BLOCKS")
    );
}

#[test]
fn the_number_of_stages_is_a_number() {
    assert_eq!(integer(parse_quantity("\\mprogstage")), Some(6));
}

#[test]
fn other_tokens_are_no_quantity() {
    assert!(parse_quantity("").is_none());
    assert!(parse_quantity("n").is_none());
    assert!(parse_quantity("4294967296").is_none());
    assert!(parse_quantity("\\mtex").is_none());
    assert!(parse_quantity("\\mtexcoord ").is_none());
    assert!(parse_quantity("3*").is_none());
}

#[test]
fn reads_the_plain_codes() {
    assert!(matches!(parse_basic_type("B"), Some(BasicType::Boolean)));
    assert!(matches!(parse_basic_type("BMU"), Some(BasicType::Bmu)));
    assert!(matches!(parse_basic_type("C"), Some(BasicType::Color)));
    assert!(matches!(parse_basic_type("\\Enum"), Some(BasicType::Enum)));
    assert!(matches!(parse_basic_type("CI"), Some(BasicType::ColorIndex)));
    assert!(matches!(parse_basic_type("T"), Some(BasicType::TexCoords)));
    assert!(matches!(parse_basic_type("N"), Some(BasicType::NormalCoords)));
    assert!(matches!(parse_basic_type("V"), Some(BasicType::Vertex)));
    assert!(matches!(parse_basic_type("Z"), Some(BasicType::Integer)));
    assert!(matches!(parse_basic_type("Z+"), Some(BasicType::NonNegativeInteger)));
    assert!(matches!(parse_basic_type("Z^+"), Some(BasicType::NonNegativeInteger)));
    assert!(matches!(parse_basic_type("Z^{+}"), Some(BasicType::NonNegativeInteger)));
    assert!(matches!(parse_basic_type("\\Zplus"), Some(BasicType::NonNegativeInteger)));
    assert!(matches!(parse_basic_type("R"), Some(BasicType::Float)));
    assert!(matches!(parse_basic_type("R^{+}"), Some(BasicType::NonNegativeFloat)));
    assert!(matches!(parse_basic_type("R^{[0,1]}"), Some(BasicType::ZeroOneRangeFloat)));
    assert!(matches!(parse_basic_type("P"), Some(BasicType::Position)));
    assert!(matches!(parse_basic_type("D"), Some(BasicType::Direction)));
    assert!(matches!(parse_basic_type("M^{4}"), Some(BasicType::Matrix)));
    assert!(matches!(parse_basic_type("S"), Some(BasicType::String)));
    assert!(matches!(parse_basic_type("I"), Some(BasicType::Image)));
    assert!(matches!(parse_basic_type("A"), Some(BasicType::AttributeStackEntry)));
    assert!(matches!(parse_basic_type("Y"), Some(BasicType::Pointer)));
    assert!(matches!(parse_basic_type("\\glt{char}"), Some(BasicType::Char)));
}

#[test]
fn reads_the_codes_with_a_size() {
    assert!(matches!(
        parse_basic_type("Z_8"),
        Some(BasicType::KValuedInteger { k: Quantity::Integer(8), minimum: false })
    ));
    assert!(matches!(
        parse_basic_type("Z_{11}"),
        Some(BasicType::KValuedInteger { k: Quantity::Integer(11), minimum: false })
    ));
    assert!(matches!(
        parse_basic_type("Z_{2*}"),
        Some(BasicType::KValuedInteger { k: Quantity::Integer(2), minimum: true })
    ));
    assert!(matches!(
        parse_basic_type("Z_4*"),
        Some(BasicType::KValuedInteger { k: Quantity::Integer(4), minimum: true })
    ));
    assert!(matches!(
        parse_basic_type("Z_{\\mtexunit*}"),
        Some(BasicType::KValuedInteger {
            k: Quantity::Constant("MAX_TEXTURE_UNITS"),
            minimum: false
        })
    ));
    assert!(matches!(parse_basic_type("R_4"), Some(BasicType::KValuedFloat { k: 4 })));
    assert!(matches!(parse_basic_type("R^3"), Some(BasicType::FloatTuple { k: 3 })));
    assert!(matches!(parse_basic_type("R^{16}"), Some(BasicType::FloatTuple { k: 16 })));
}

#[test]
fn codes_outside_the_vocabulary_give_nothing() {
    assert!(parse_basic_type("").is_none());
    assert!(parse_basic_type("Q").is_none());
    assert!(parse_basic_type("b").is_none());
    assert!(parse_basic_type("Z_").is_none());
    assert!(parse_basic_type("Z_k").is_none());
    assert!(parse_basic_type("R_{4}").is_none());
    assert!(parse_basic_type("R_\\mtexunit").is_none());
    assert!(parse_basic_type("R^\\mtexunit").is_none());
    assert!(parse_basic_type("R^{x}").is_none());
    assert!(parse_basic_type(" B").is_none());
}

#[test]
fn reads_a_type_without_factors() {
    let t = parse_type("$B$").unwrap();
    assert!(matches!(t.basic_type, BasicType::Boolean));
    assert!(t.quantity.is_empty());
}

#[test]
fn reads_the_factors_of_a_type() {
    let t = parse_type("$2 \\times 3* \\times \\mtexunit* \\times n \\times R^{4}$").unwrap();
    assert!(matches!(t.basic_type, BasicType::FloatTuple { k: 4 }));
    assert_eq!(t.quantity.len(), 4);
    assert!(matches!(t.quantity[0], MaybeParsed::Parsed((Quantity::Integer(2), false))));
    assert!(matches!(t.quantity[1], MaybeParsed::Parsed((Quantity::Integer(3), true))));
    assert!(matches!(
        t.quantity[2],
        MaybeParsed::Parsed((Quantity::Constant("MAX_TEXTURE_UNITS"), false))
    ));
    match &t.quantity[3] {
        MaybeParsed::Unparsed(text) => assert_eq!(text, "n"),
        _ => panic!("the factor is no quantity"),
    }
}

#[test]
fn a_factor_that_is_no_quantity_keeps_its_asterisk() {
    let t = parse_type("$n* \\times Z$").unwrap();
    match &t.quantity[0] {
        MaybeParsed::Unparsed(text) => assert_eq!(text, "n*"),
        _ => panic!("the factor is no quantity"),
    }
}

#[test]
fn an_unknown_code_gives_no_type() {
    assert!(parse_type("$2 \\times Q$").is_none());
    assert!(parse_type("$$").is_none());
    assert!(parse_type("$-$").is_none());
}

#[test]
fn writes_a_type_in_its_compact_form() {
    let t = Type {
        basic_type: BasicType::KValuedInteger { k: Quantity::Integer(5), minimum: true },
        quantity: vec![
            MaybeParsed::Parsed((Quantity::Integer(2), true)),
            MaybeParsed::Parsed((Quantity::Constant("MAX_DRAW_BUFFERS"), false)),
            MaybeParsed::Unparsed("n".to_string()),
        ],
    };
    assert_eq!(compact_type(&t), "$2* \\times \\mdrawbuf \\times n \\times Z_{5*}$");
    let plain = Type { basic_type: BasicType::Matrix, quantity: Vec::new() };
    assert_eq!(compact_type(&plain), "$M^{4}$");
}

#[test]
fn reading_the_compact_form_gives_the_type_again() {
    for text in [
        "$B$",
        "$Z+$",
        "$\\Zplus$",
        "$3 \\times Z_{8*}$",
        "$\\mtexnum \\times 2* \\times R^4$",
        "$n \\times k* \\times R_2$",
        "$\\mprogstage \\times \\glt{char}$",
        "$007 \\times +4* \\times Z_\\mvtxattr*$",
        "$R^{[0,1]}$",
    ] {
        let first = parse_type(text).unwrap();
        let written = compact_type(&first);
        let second = parse_type(&written).unwrap();
        assert!(first.same(&second), "{} reads back as {}", text, written);
        assert_eq!(compact_type(&second), written);
    }
}

#[test]
fn same_tells_types_apart() {
    let a = parse_type("$2 \\times Z$").unwrap();
    let b = parse_type("$2* \\times Z$").unwrap();
    let c = parse_type("$2 \\times Z+$").unwrap();
    let d = parse_type("$+2 \\times Z$").unwrap();
    assert!(a.same(&a));
    assert!(!a.same(&b));
    assert!(!a.same(&c));
    assert!(a.same(&d));
}
