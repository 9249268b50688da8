use prost_amino_derive::default_value::{DefaultValue, OwnedExpr, TypedExpr};
use prost_amino_derive::error::{Category, Error};
use prost_amino_derive::literal::Lit;
use prost_amino_derive::meta::{Meta, NestedMeta};
use prost_amino_derive::ty::Ty;

fn integer(digits: &str, suffix: &str) -> Lit {
    Lit::Int { digits: digits.to_string(), suffix: suffix.to_string() }
}

fn decimal(digits: &str, suffix: &str) -> Lit {
    Lit::Float { digits: digits.to_string(), suffix: suffix.to_string() }
}

fn string(s: &str) -> Lit {
    Lit::Str(s.to_string())
}

fn enumeration() -> Ty {
    Ty::Enumeration("Kind".to_string())
}

fn all_types() -> Vec<Ty> {
    vec![
        Ty::Double,
        Ty::Float,
        Ty::Int32,
        Ty::Int64,
        Ty::Uint32,
        Ty::Uint64,
        Ty::Sint32,
        Ty::Sint64,
        Ty::Fixed32,
        Ty::Fixed64,
        Ty::Sfixed32,
        Ty::Sfixed64,
        Ty::Bool,
        Ty::String,
        Ty::Bytes,
        enumeration(),
    ]
}

#[test]
fn without_a_literal_the_default_is_the_zero_of_the_type() {
    assert_eq!(DefaultValue::new(&Ty::Float), DefaultValue::F32("0.0".to_string()));
    assert_eq!(DefaultValue::new(&Ty::Double), DefaultValue::F64("0.0".to_string()));
    for ty in [Ty::Int32, Ty::Sint32, Ty::Sfixed32].iter() {
        assert_eq!(DefaultValue::new(ty), DefaultValue::I32(0));
    }
    for ty in [Ty::Int64, Ty::Sint64, Ty::Sfixed64].iter() {
        assert_eq!(DefaultValue::new(ty), DefaultValue::I64(0));
    }
    for ty in [Ty::Uint32, Ty::Fixed32].iter() {
        assert_eq!(DefaultValue::new(ty), DefaultValue::U32(0));
    }
    for ty in [Ty::Uint64, Ty::Fixed64].iter() {
        assert_eq!(DefaultValue::new(ty), DefaultValue::U64(0));
    }
    assert_eq!(DefaultValue::new(&Ty::Bool), DefaultValue::Bool(false));
    assert_eq!(DefaultValue::new(&Ty::String), DefaultValue::String(String::new()));
    assert_eq!(DefaultValue::new(&Ty::Bytes), DefaultValue::Bytes(Vec::new()));
    assert_eq!(
        DefaultValue::new(&enumeration()),
        DefaultValue::Enumeration { path: "Kind".to_string(), variant: None }
    );
}

#[test]
fn the_zero_written_out_is_the_default_without_a_literal() {
    for ty in all_types() {
        let zero = DefaultValue::new(&ty);
        match zero.literal() {
            Some(lit) => assert_eq!(DefaultValue::from_lit(&ty, lit), Ok(zero)),
            None => assert_eq!(ty, enumeration()),
        }
    }
}

#[test]
fn an_integer_literal_gives_an_integer_of_the_type() {
    assert_eq!(DefaultValue::from_lit(&Ty::Int32, integer("42", "")), Ok(DefaultValue::I32(42)));
    assert_eq!(DefaultValue::from_lit(&Ty::Sint32, integer("42", "i32")), Ok(DefaultValue::I32(42)));
    assert_eq!(DefaultValue::from_lit(&Ty::Sfixed32, integer("-42", "")), Ok(DefaultValue::I32(-42)));
    assert_eq!(DefaultValue::from_lit(&Ty::Int64, integer("42", "i64")), Ok(DefaultValue::I64(42)));
    assert_eq!(
        DefaultValue::from_lit(&Ty::Sint64, integer("-9223372036854775808", "")),
        Ok(DefaultValue::I64(i64::MIN))
    );
    assert_eq!(DefaultValue::from_lit(&Ty::Uint32, integer("42", "u32")), Ok(DefaultValue::U32(42)));
    assert_eq!(
        DefaultValue::from_lit(&Ty::Fixed32, integer("4294967295", "")),
        Ok(DefaultValue::U32(u32::MAX))
    );
    assert_eq!(
        DefaultValue::from_lit(&Ty::Uint64, integer("18446744073709551615", "u64")),
        Ok(DefaultValue::U64(u64::MAX))
    );
    assert_eq!(DefaultValue::from_lit(&Ty::Fixed64, integer("0", "")), Ok(DefaultValue::U64(0)));
}

#[test]
fn an_integer_out_of_range_does_not_parse() {
    let refused = Err(Error::ParseError);
    assert_eq!(DefaultValue::from_lit(&Ty::Int32, integer("2147483648", "")), refused);
    assert_eq!(DefaultValue::from_lit(&Ty::Int32, integer("-2147483649", "")), refused);
    assert_eq!(DefaultValue::from_lit(&Ty::Int64, integer("9223372036854775808", "")), refused);
    assert_eq!(DefaultValue::from_lit(&Ty::Uint32, integer("4294967296", "")), refused);
    assert_eq!(DefaultValue::from_lit(&Ty::Uint32, integer("-1", "")), refused);
    assert_eq!(DefaultValue::from_lit(&Ty::Uint64, integer("18446744073709551616", "")), refused);
    assert_eq!(DefaultValue::from_lit(&Ty::Uint64, integer("-0", "")), refused);
    assert_eq!(DefaultValue::from_lit(&Ty::Int32, integer("", "")), refused);
    assert_eq!(DefaultValue::from_lit(&Ty::Int32, integer("1x", "")), refused);
}

#[test]
fn a_suffix_must_be_that_of_the_representation() {
    let refused = Err(Error::TypeMismatch);
    assert_eq!(DefaultValue::from_lit(&Ty::Int32, integer("1", "i64")), refused);
    assert_eq!(DefaultValue::from_lit(&Ty::Int32, integer("1", "u32")), refused);
    assert_eq!(DefaultValue::from_lit(&Ty::Int64, integer("1", "i32")), refused);
    assert_eq!(DefaultValue::from_lit(&Ty::Uint32, integer("1", "i32")), refused);
    assert_eq!(DefaultValue::from_lit(&Ty::Uint64, integer("1", "u32")), refused);
    assert_eq!(DefaultValue::from_lit(&Ty::Float, decimal("1.0", "f64")), refused);
    assert_eq!(DefaultValue::from_lit(&Ty::Double, decimal("1.0", "f32")), refused);
    assert_eq!(DefaultValue::from_lit(&Ty::Float, integer("1", "u8")), refused);
    assert_eq!(DefaultValue::from_lit(&Ty::Double, integer("1", "f32")), refused);
}

#[test]
fn a_float_is_held_by_its_numeral() {
    assert_eq!(
        DefaultValue::from_lit(&Ty::Float, decimal("1.5", "")),
        Ok(DefaultValue::F32("1.5".to_string()))
    );
    assert_eq!(
        DefaultValue::from_lit(&Ty::Float, decimal("1.5e3", "f32")),
        Ok(DefaultValue::F32("1.5e3".to_string()))
    );
    assert_eq!(
        DefaultValue::from_lit(&Ty::Double, decimal("-2.5", "f64")),
        Ok(DefaultValue::F64("-2.5".to_string()))
    );
    assert_eq!(DefaultValue::from_lit(&Ty::Float, integer("3", "")), Ok(DefaultValue::F32("3".to_string())));
    assert_eq!(
        DefaultValue::from_lit(&Ty::Float, integer("3", "f32")),
        Ok(DefaultValue::F32("3".to_string()))
    );
    assert_eq!(DefaultValue::from_lit(&Ty::Double, integer("3", "")), Ok(DefaultValue::F64("3".to_string())));
}

#[test]
fn each_other_literal_serves_the_type_of_its_kind() {
    assert_eq!(DefaultValue::from_lit(&Ty::Bool, Lit::Bool(true)), Ok(DefaultValue::Bool(true)));
    assert_eq!(
        DefaultValue::from_lit(&Ty::String, string(" as it is ")),
        Ok(DefaultValue::String(" as it is ".to_string()))
    );
    assert_eq!(DefaultValue::from_lit(&Ty::String, string("-5")), Ok(DefaultValue::String("-5".to_string())));
    assert_eq!(
        DefaultValue::from_lit(&Ty::Bytes, Lit::ByteStr(vec![1, 2, 3])),
        Ok(DefaultValue::Bytes(vec![1, 2, 3]))
    );
}

#[test]
fn a_literal_of_another_kind_is_a_mismatch() {
    let refused = Err(Error::TypeMismatch);
    assert_eq!(DefaultValue::from_lit(&Ty::Int32, Lit::Bool(true)), refused);
    assert_eq!(DefaultValue::from_lit(&Ty::Int32, decimal("1.0", "")), refused);
    assert_eq!(DefaultValue::from_lit(&Ty::Int32, Lit::ByteStr(vec![1])), refused);
    assert_eq!(DefaultValue::from_lit(&Ty::Int32, Lit::Other), refused);
    assert_eq!(DefaultValue::from_lit(&Ty::Bool, integer("1", "")), refused);
    assert_eq!(DefaultValue::from_lit(&Ty::String, integer("1", "")), refused);
    assert_eq!(DefaultValue::from_lit(&Ty::String, Lit::ByteStr(vec![1])), refused);
    assert_eq!(DefaultValue::from_lit(&Ty::Bytes, Lit::Bool(false)), refused);
    assert_eq!(DefaultValue::from_lit(&Ty::Float, Lit::Bool(false)), refused);
    assert_eq!(DefaultValue::from_lit(&enumeration(), integer("1", "")), refused);
    assert_eq!(DefaultValue::from_lit(&enumeration(), Lit::Bool(true)), refused);
    assert_eq!(DefaultValue::from_literal(&Ty::Int32, string("1")), refused);
    assert_eq!(
        DefaultValue::from_literal(&Ty::String, string("1")),
        Ok(DefaultValue::String("1".to_string()))
    );
}

#[test]
fn a_string_names_the_variant_of_an_enumeration() {
    assert_eq!(
        DefaultValue::from_lit(&enumeration(), string(" Second ")),
        Ok(DefaultValue::Enumeration {
            path: "Kind".to_string(),
            variant: Some("Second".to_string())
        })
    );
}

#[test]
fn the_least_i32_can_be_written() {
    assert_eq!(
        DefaultValue::from_lit(&Ty::Int32, string("-2147483648")),
        Ok(DefaultValue::I32(i32::MIN))
    );
    assert_eq!(DefaultValue::from_lit(&Ty::Int32, string("-2147483649")), Err(Error::ParseError));
    assert_eq!(
        DefaultValue::from_negated(&Ty::Int32, integer("2147483648", "")),
        Some(Ok(DefaultValue::I32(i32::MIN)))
    );
    assert_eq!(
        DefaultValue::from_negated(&Ty::Int32, integer("2147483649", "")),
        Some(Err(Error::ParseError))
    );
}

#[test]
fn the_least_i64_can_be_written() {
    assert_eq!(
        DefaultValue::from_lit(&Ty::Sint64, string("-9223372036854775808")),
        Ok(DefaultValue::I64(i64::MIN))
    );
    assert_eq!(
        DefaultValue::from_lit(&Ty::Sint64, string("-9223372036854775809")),
        Err(Error::ParseError)
    );
    assert_eq!(
        DefaultValue::from_negated(&Ty::Int64, integer("9223372036854775807", "i64")),
        Some(Ok(DefaultValue::I64(-i64::MAX)))
    );
}

#[test]
fn a_minus_turns_the_sign() {
    assert_eq!(DefaultValue::from_lit(&Ty::Int32, string("-5")), Ok(DefaultValue::I32(-5)));
    assert_eq!(DefaultValue::from_lit(&Ty::Int32, string(" -5i32 ")), Ok(DefaultValue::I32(-5)));
    assert_eq!(DefaultValue::from_lit(&Ty::Int32, string("--5")), Ok(DefaultValue::I32(5)));
    assert_eq!(
        DefaultValue::from_negated(&Ty::Int32, integer("-2147483647", "")),
        Some(Ok(DefaultValue::I32(i32::MAX)))
    );
    assert_eq!(
        DefaultValue::from_negated(&Ty::Int32, integer("-2147483648", "")),
        Some(Err(Error::ParseError))
    );
    assert_eq!(
        DefaultValue::from_lit(&Ty::Float, string("-1.5")),
        Ok(DefaultValue::F32("-1.5".to_string()))
    );
    assert_eq!(
        DefaultValue::from_lit(&Ty::Double, string("-3")),
        Ok(DefaultValue::F64("-3".to_string()))
    );
    assert_eq!(
        DefaultValue::from_lit(&Ty::Double, string("--2.5e3")),
        Ok(DefaultValue::F64("2.5e3".to_string()))
    );
    assert_eq!(
        DefaultValue::from_negated(&Ty::Float, decimal("-0.5", "f32")),
        Some(Ok(DefaultValue::F32("0.5".to_string())))
    );
    assert_eq!(
        DefaultValue::from_negated(&Ty::Float, integer("7", "f32")),
        Some(Ok(DefaultValue::F32("-7".to_string())))
    );
}

#[test]
fn a_minus_is_not_taken_by_every_type() {
    assert_eq!(DefaultValue::from_negated(&Ty::Uint32, integer("5", "")), None);
    assert_eq!(DefaultValue::from_negated(&Ty::Uint64, integer("5", "")), None);
    assert_eq!(DefaultValue::from_negated(&Ty::Int32, integer("5", "i64")), None);
    assert_eq!(DefaultValue::from_negated(&Ty::Int32, decimal("5.0", "")), None);
    assert_eq!(DefaultValue::from_negated(&Ty::Float, decimal("5.0", "f64")), None);
    assert_eq!(DefaultValue::from_negated(&Ty::Float, integer("5", "u8")), None);
    assert_eq!(DefaultValue::from_negated(&Ty::Bool, Lit::Bool(true)), None);
    assert_eq!(DefaultValue::from_negated(&Ty::Int32, Lit::Bool(true)), None);
    assert_eq!(DefaultValue::from_lit(&Ty::Uint32, string("-5")), Err(Error::ParseError));
    assert_eq!(DefaultValue::from_lit(&Ty::Bool, string("-true")), Err(Error::ParseError));
}

fn bits_of(path: &str) -> u64 {
    match path {
        "::core::f32::INFINITY" => u64::from(f32::INFINITY.to_bits()),
        "::core::f32::NEG_INFINITY" => u64::from(f32::NEG_INFINITY.to_bits()),
        "::core::f32::NAN" => u64::from(f32::NAN.to_bits()),
        "::core::f64::INFINITY" => f64::INFINITY.to_bits(),
        "::core::f64::NEG_INFINITY" => f64::NEG_INFINITY.to_bits(),
        "::core::f64::NAN" => f64::NAN.to_bits(),
        _ => panic!("no constant of a float: {}", path),
    }
}

fn constant(ty: &Ty, text: &str) -> u64 {
    match DefaultValue::from_lit(ty, string(text)) {
        Ok(DefaultValue::Path(path)) => bits_of(&path),
        other => panic!("no constant: {:?}", other),
    }
}

#[test]
fn the_floats_that_no_numeral_writes_are_named() {
    assert_eq!(constant(&Ty::Float, "inf"), 0x7f80_0000);
    assert_eq!(constant(&Ty::Float, "-inf"), 0xff80_0000);
    assert_eq!(constant(&Ty::Float, "nan"), u64::from(f32::NAN.to_bits()));
    assert_eq!(constant(&Ty::Double, "inf"), 0x7ff0_0000_0000_0000);
    assert_eq!(constant(&Ty::Double, "-inf"), 0xfff0_0000_0000_0000);
    assert_eq!(constant(&Ty::Double, "nan"), f64::NAN.to_bits());
    assert_eq!(
        DefaultValue::from_lit(&Ty::Float, string("inf")),
        Ok(DefaultValue::Path("::core::f32::INFINITY".to_string()))
    );
}

#[test]
fn the_names_of_those_floats_are_read_in_either_case() {
    assert_eq!(constant(&Ty::Float, " Inf "), 0x7f80_0000);
    assert_eq!(constant(&Ty::Float, "-INF"), 0xff80_0000);
    assert_eq!(constant(&Ty::Double, "NaN"), f64::NAN.to_bits());
    assert_eq!(DefaultValue::from_lit(&Ty::Float, string("infinity")), Err(Error::ParseError));
    assert_eq!(DefaultValue::from_lit(&Ty::Int32, string("inf")), Err(Error::ParseError));
}

#[test]
fn a_string_that_is_a_literal_is_resolved_as_that_literal() {
    assert_eq!(DefaultValue::from_lit(&Ty::Int32, string("5")), Ok(DefaultValue::I32(5)));
    assert_eq!(DefaultValue::from_lit(&Ty::Uint64, string(" 0x10 ")), Ok(DefaultValue::U64(16)));
    assert_eq!(DefaultValue::from_lit(&Ty::Bool, string("true")), Ok(DefaultValue::Bool(true)));
    assert_eq!(
        DefaultValue::from_lit(&Ty::Bytes, string("b\"a\\x00\"")),
        Ok(DefaultValue::Bytes(vec![b'a', 0]))
    );
    assert_eq!(
        DefaultValue::from_lit(&Ty::Float, string("2.5")),
        Ok(DefaultValue::F32("2.5".to_string()))
    );
    assert_eq!(DefaultValue::from_lit(&Ty::Int32, string("5u8")), Err(Error::TypeMismatch));
    assert_eq!(DefaultValue::from_lit(&Ty::Int32, string("true")), Err(Error::TypeMismatch));
    assert_eq!(DefaultValue::from_lit(&Ty::Bool, string("5")), Err(Error::TypeMismatch));
}

#[test]
fn a_string_that_is_nothing_of_these_does_not_parse() {
    let refused = Err(Error::ParseError);
    assert_eq!(DefaultValue::from_lit(&Ty::Int32, string("five")), refused);
    assert_eq!(DefaultValue::from_lit(&Ty::Int32, string("")), refused);
    assert_eq!(DefaultValue::from_lit(&Ty::Int32, string("\"5\"")), refused);
    assert_eq!(DefaultValue::from_lit(&Ty::Bytes, string("abc")), refused);
    assert_eq!(DefaultValue::from_lit(&Ty::Bool, string("yes")), refused);
    assert_eq!(DefaultValue::from_lit(&Ty::Int32, string("5 5")), refused);
    assert_eq!(DefaultValue::from_lit(&Ty::Int32, string("99999999999")), refused);
    assert_eq!(DefaultValue::from_text(&Ty::Int32, " 5"), refused);
    assert_eq!(DefaultValue::from_text(&Ty::Int32, "5"), Ok(DefaultValue::I32(5)));
}

#[test]
fn a_resolved_default_written_out_resolves_to_itself() {
    let cases: Vec<(Ty, Lit)> = vec![
        (Ty::Int32, integer("007", "")),
        (Ty::Int32, integer("-2147483648", "")),
        (Ty::Sint32, integer("2147483647", "i32")),
        (Ty::Int64, integer("-9223372036854775808", "")),
        (Ty::Sfixed64, integer("9223372036854775807", "i64")),
        (Ty::Uint32, integer("4294967295", "")),
        (Ty::Fixed64, integer("18446744073709551615", "")),
        (Ty::Float, decimal("1.5e3", "")),
        (Ty::Float, integer("3", "")),
        (Ty::Double, decimal("-0.25", "f64")),
        (Ty::Bool, Lit::Bool(true)),
        (Ty::String, string("text")),
        (Ty::Bytes, Lit::ByteStr(vec![0, 255])),
    ];
    for (ty, lit) in cases {
        let first = DefaultValue::from_lit(&ty, lit).unwrap();
        let written = first.literal().unwrap();
        assert_eq!(DefaultValue::from_lit(&ty, written), Ok(first));
    }
}

#[test]
fn a_default_is_written_as_a_literal_of_its_type() {
    assert_eq!(DefaultValue::I32(-5).literal(), Some(integer("-5", "i32")));
    assert_eq!(DefaultValue::I64(5).literal(), Some(integer("5", "i64")));
    assert_eq!(DefaultValue::U32(0).literal(), Some(integer("0", "u32")));
    assert_eq!(DefaultValue::U64(u64::MAX).literal(), Some(integer("18446744073709551615", "u64")));
    assert_eq!(DefaultValue::F32("1.5".to_string()).literal(), Some(decimal("1.5", "f32")));
    assert_eq!(DefaultValue::F64("1.5".to_string()).literal(), Some(decimal("1.5", "f64")));
    assert_eq!(DefaultValue::Bool(false).literal(), Some(Lit::Bool(false)));
    assert_eq!(DefaultValue::String("s".to_string()).literal(), Some(string("s")));
    assert_eq!(DefaultValue::Bytes(vec![7]).literal(), Some(Lit::ByteStr(vec![7])));
    assert_eq!(DefaultValue::Path("p".to_string()).literal(), None);
    assert_eq!(
        DefaultValue::Enumeration { path: "Kind".to_string(), variant: None }.literal(),
        None
    );
}

#[test]
fn how_a_default_stands_in_code() {
    assert_eq!(DefaultValue::String(String::new()).owned(), OwnedExpr::EmptyString);
    assert_eq!(DefaultValue::String("a".to_string()).owned(), OwnedExpr::OwnedString);
    assert_eq!(DefaultValue::Bytes(Vec::new()).owned(), OwnedExpr::EmptyVec);
    assert_eq!(DefaultValue::Bytes(vec![1]).owned(), OwnedExpr::OwnedBytes);
    assert_eq!(DefaultValue::I32(1).owned(), OwnedExpr::Typed(TypedExpr::Value));
    assert_eq!(DefaultValue::Path("p".to_string()).owned(), OwnedExpr::Typed(TypedExpr::Value));
    let variant = DefaultValue::Enumeration {
        path: "Kind".to_string(),
        variant: Some("A".to_string()),
    };
    assert_eq!(variant.owned(), OwnedExpr::Typed(TypedExpr::EnumAsI32));
    assert_eq!(variant.typed(), TypedExpr::EnumAsI32);
    assert_eq!(DefaultValue::String(String::new()).typed(), TypedExpr::Value);
    assert_eq!(DefaultValue::Bool(true).typed(), TypedExpr::Value);
}

#[test]
fn the_literal_of_a_default_annotation() {
    let annotation = Meta::NameValue { path: "default".to_string(), lit: integer("5", "") };
    assert_eq!(DefaultValue::from_attr(&annotation), Ok(Some(integer("5", ""))));
    assert_eq!(DefaultValue::from_attr(&Meta::Path("int32".to_string())), Ok(None));
    let refused = Err(Error::InvalidAttribute(Category::Default));
    assert_eq!(DefaultValue::from_attr(&Meta::Path("default".to_string())), refused);
    let list = Meta::List {
        path: "default".to_string(),
        nested: vec![NestedMeta::Lit(integer("5", ""))],
    };
    assert_eq!(DefaultValue::from_attr(&list), refused);
}

#[test]
fn a_default_is_cloned_whole() {
    let defaults = [
        DefaultValue::F64("1".to_string()),
        DefaultValue::F32("1".to_string()),
        DefaultValue::I32(1),
        DefaultValue::I64(1),
        DefaultValue::U32(1),
        DefaultValue::U64(1),
        DefaultValue::Bool(true),
        DefaultValue::String("s".to_string()),
        DefaultValue::Bytes(vec![1]),
        DefaultValue::Enumeration { path: "K".to_string(), variant: Some("A".to_string()) },
        DefaultValue::Enumeration { path: "K".to_string(), variant: None },
        DefaultValue::Path("p".to_string()),
    ];
    for d in defaults.iter() {
        assert_eq!(&d.clone(), d);
    }
}

#[test]
fn a_numeral_that_writes_no_float_does_not_parse() {
    let refused = Err(Error::ParseError);
    assert_eq!(DefaultValue::from_lit(&Ty::Float, decimal("1.5.2", "")), refused);
    assert_eq!(DefaultValue::from_lit(&Ty::Float, decimal("", "f32")), refused);
    assert_eq!(DefaultValue::from_lit(&Ty::Double, decimal("1e", "")), refused);
    assert_eq!(DefaultValue::from_lit(&Ty::Double, integer("1_0", "")), refused);
    assert_eq!(DefaultValue::from_lit(&Ty::Float, integer("x", "f32")), refused);
    assert_eq!(DefaultValue::from_negated(&Ty::Float, decimal("--1", "")), Some(refused.clone()));
    assert_eq!(DefaultValue::from_negated(&Ty::Double, integer("", "")), Some(refused));
    assert_eq!(DefaultValue::from_lit(&Ty::Float, decimal("x", "f64")), Err(Error::TypeMismatch));
}

#[test]
fn a_plus_gives_way_to_a_minus() {
    assert_eq!(
        DefaultValue::from_negated(&Ty::Float, decimal("+1.5", "")),
        Some(Ok(DefaultValue::F32("-1.5".to_string())))
    );
    assert_eq!(
        DefaultValue::from_negated(&Ty::Double, decimal("1.5", "")),
        Some(Ok(DefaultValue::F64("-1.5".to_string())))
    );
    assert_eq!(
        DefaultValue::from_negated(&Ty::Double, decimal("-.5e+3", "f64")),
        Some(Ok(DefaultValue::F64(".5e+3".to_string())))
    );
}

#[test]
fn the_sign_of_a_numeral_is_that_of_its_float() {
    let numerals = ["1.5", "-1.5", "+1.5", "0", "-0.0", "1e10", "-2.5e-3", ".5", "5."];
    for n in numerals.iter() {
        let lit = decimal(n, "");
        let turned = match DefaultValue::from_negated(&Ty::Double, lit) {
            Some(Ok(DefaultValue::F64(t))) => t,
            other => panic!("not negated: {:?}", other),
        };
        let before: f64 = n.parse().unwrap();
        let after: f64 = turned.parse().unwrap();
        assert_eq!(after.to_bits(), (-before).to_bits(), "{:?}", n);
    }
}

#[test]
fn white_space_behind_a_minus_is_passed_over() {
    assert_eq!(DefaultValue::from_lit(&Ty::Int32, string("- 5")), Ok(DefaultValue::I32(-5)));
    assert_eq!(DefaultValue::from_lit(&Ty::Int64, string(" -\t7i64 ")), Ok(DefaultValue::I64(-7)));
    assert_eq!(
        DefaultValue::from_lit(&Ty::Double, string("- 1.5")),
        Ok(DefaultValue::F64("-1.5".to_string()))
    );
}

#[test]
fn a_number_that_lexers_cut_apart_does_not_parse() {
    let refused = Err(Error::ParseError);
    for text in ["0b1.0", "0x1.8", "0o7.", "1e+", "1.5e-", "0b1e+5", "-0b1.0", "-1e+"].iter() {
        assert_eq!(DefaultValue::from_lit(&Ty::Int32, string(text)), refused, "{:?}", text);
        assert_eq!(DefaultValue::from_lit(&Ty::Double, string(text)), refused, "{:?}", text);
    }
}

#[test]
fn the_variant_of_an_enumeration_is_an_identifier() {
    let refused = Err(Error::ParseError);
    assert_eq!(DefaultValue::from_lit(&enumeration(), string("")), refused);
    assert_eq!(DefaultValue::from_lit(&enumeration(), string("not one")), refused);
    assert_eq!(DefaultValue::from_lit(&enumeration(), string("1st")), refused);
    assert_eq!(DefaultValue::from_lit(&enumeration(), string("a-b")), refused);
    assert_eq!(DefaultValue::from_lit(&enumeration(), string("Kind::A")), refused);
    assert_eq!(DefaultValue::from_lit(&enumeration(), string("caf\u{e9}")), refused);
    for name in ["A", "_", "_a1", "Second_2", "snake_case"].iter() {
        assert_eq!(
            DefaultValue::from_lit(&enumeration(), string(name)),
            Ok(DefaultValue::Enumeration {
                path: "Kind".to_string(),
                variant: Some(name.to_string())
            })
        );
    }
}
