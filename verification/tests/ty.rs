use prost_amino_derive::error::{Category, Error};
use prost_amino_derive::literal::Lit;
use prost_amino_derive::meta::{Meta, NestedMeta};
use prost_amino_derive::ty::{Codec, RustType, Ty};

fn scalars() -> Vec<(Ty, &'static str)> {
    vec![
        (Ty::Double, "double"),
        (Ty::Float, "float"),
        (Ty::Int32, "int32"),
        (Ty::Int64, "int64"),
        (Ty::Uint32, "uint32"),
        (Ty::Uint64, "uint64"),
        (Ty::Sint32, "sint32"),
        (Ty::Sint64, "sint64"),
        (Ty::Fixed32, "fixed32"),
        (Ty::Fixed64, "fixed64"),
        (Ty::Sfixed32, "sfixed32"),
        (Ty::Sfixed64, "sfixed64"),
        (Ty::Bool, "bool"),
        (Ty::String, "string"),
        (Ty::Bytes, "bytes"),
    ]
}

fn enumeration(path: &str) -> Ty {
    Ty::Enumeration(path.to_string())
}

#[test]
fn every_scalar_has_its_name() {
    for (ty, name) in scalars() {
        assert_eq!(ty.as_str(), name);
        assert_eq!(Ty::named(name), Some(ty.clone()));
        assert_eq!(Ty::from_str(name), Ok(ty.clone()));
        assert_eq!(Ty::from_attr(&Meta::Path(name.to_string())), Ok(Some(ty)));
    }
    assert_eq!(enumeration("Kind").as_str(), "enum");
    assert_eq!(Ty::named("enum"), None);
    assert_eq!(Ty::named("enumeration"), None);
    assert_eq!(Ty::named("Int32"), None);
    assert_eq!(Ty::named(""), None);
}

#[test]
fn a_name_may_stand_in_white_space() {
    assert_eq!(Ty::from_str("  int32\n"), Ok(Ty::Int32));
    assert_eq!(Ty::from_str("\u{3000}bytes"), Ok(Ty::Bytes));
}

#[test]
fn an_enumeration_is_named_with_its_path_in_brackets() {
    assert_eq!(Ty::from_str("enumeration(Kind)"), Ok(enumeration("Kind")));
    assert_eq!(Ty::from_str("enumeration<Kind>"), Ok(enumeration("Kind")));
    assert_eq!(Ty::from_str(" enumeration ( foo::Kind ) "), Ok(enumeration("foo::Kind")));
    assert_eq!(Ty::from_str("enumeration(Kind>"), Ok(enumeration("Kind")));
    assert_eq!(Ty::from_str("enumeration<super::super::Kind>"), Ok(enumeration("super::super::Kind")));
}

#[test]
fn text_that_names_no_type_is_refused() {
    let refused = Err(Error::InvalidType);
    assert_eq!(Ty::from_str(""), refused);
    assert_eq!(Ty::from_str("int"), refused);
    assert_eq!(Ty::from_str("int32 int32"), refused);
    assert_eq!(Ty::from_str("enumeration"), refused);
    assert_eq!(Ty::from_str("enumeration "), refused);
    assert_eq!(Ty::from_str("enumerationKind"), refused);
    assert_eq!(Ty::from_str("enumeration(Kind"), refused);
    assert_eq!(Ty::from_str("enumeration Kind)"), refused);
    assert_eq!(Ty::from_str("enumeration("), refused);
    assert_eq!(Ty::from_str("enumeration)"), refused);
    assert_eq!(Ty::from_str("enumeratio\u{e9}"), refused);
    assert_eq!(Ty::from_str("enum(Kind)"), refused);
}

#[test]
fn an_enumeration_without_a_path_does_not_parse() {
    assert_eq!(Ty::from_str("enumeration()"), Err(Error::ParseError));
    assert_eq!(Ty::from_str("enumeration<>"), Err(Error::ParseError));
    assert_eq!(Ty::from_str("enumeration(1)"), Err(Error::ParseError));
    assert_eq!(Ty::from_str("enumeration(a b)"), Err(Error::ParseError));
    assert_eq!(Ty::from_str("enumeration(\"Kind\")"), Err(Error::ParseError));
    assert_eq!(Ty::from_str("enumeration(A<(/*ERROR*/)>)"), Err(Error::ParseError));
    assert_eq!(Ty::from_str("enumeration<Kind<A>>"), Err(Error::ParseError));
    assert_eq!(Ty::from_str("enumeration(caf\u{e9})"), Err(Error::ParseError));
}

#[test]
fn an_enumeration_is_marked_by_a_string_or_a_list() {
    let by_string = Meta::NameValue {
        path: "enumeration".to_string(),
        lit: Lit::Str("foo::Kind".to_string()),
    };
    assert_eq!(Ty::from_attr(&by_string), Ok(Some(enumeration("foo::Kind"))));
    let by_list = Meta::List {
        path: "enumeration".to_string(),
        nested: vec![NestedMeta::Path("Kind".to_string())],
    };
    assert_eq!(Ty::from_attr(&by_list), Ok(Some(enumeration("Kind"))));
}

#[test]
fn a_marker_in_another_shape_is_refused_or_none() {
    let bad_path = Meta::NameValue {
        path: "enumeration".to_string(),
        lit: Lit::Str("not a path".to_string()),
    };
    assert_eq!(Ty::from_attr(&bad_path), Err(Error::ParseError));
    let no_literal = Meta::NameValue {
        path: "enumeration".to_string(),
        lit: Lit::Str("A<(/*ERROR*/)>".to_string()),
    };
    assert_eq!(Ty::from_attr(&no_literal), Err(Error::ParseError));
    let empty = Meta::List { path: "enumeration".to_string(), nested: vec![] };
    assert_eq!(Ty::from_attr(&empty), Err(Error::InvalidAttribute(Category::Type)));
    let two = Meta::List {
        path: "enumeration".to_string(),
        nested: vec![NestedMeta::Path("A".to_string()), NestedMeta::Path("B".to_string())],
    };
    assert_eq!(Ty::from_attr(&two), Err(Error::InvalidAttribute(Category::Type)));
    let literal = Meta::List {
        path: "enumeration".to_string(),
        nested: vec![NestedMeta::Lit(Lit::Str("A".to_string()))],
    };
    assert_eq!(Ty::from_attr(&literal), Err(Error::InvalidAttribute(Category::Type)));
    let other = Meta::List { path: "enumeration".to_string(), nested: vec![NestedMeta::Other] };
    assert_eq!(Ty::from_attr(&other), Err(Error::InvalidAttribute(Category::Type)));
    let number = Meta::NameValue {
        path: "enumeration".to_string(),
        lit: Lit::Int { digits: "1".to_string(), suffix: String::new() },
    };
    assert_eq!(Ty::from_attr(&number), Ok(None));
    assert_eq!(Ty::from_attr(&Meta::Path("enumeration".to_string())), Ok(None));
    assert_eq!(Ty::from_attr(&Meta::Path("packed".to_string())), Ok(None));
    let int32_list = Meta::List { path: "int32".to_string(), nested: vec![] };
    assert_eq!(Ty::from_attr(&int32_list), Ok(None));
    let int32_value = Meta::NameValue { path: "int32".to_string(), lit: Lit::Bool(true) };
    assert_eq!(Ty::from_attr(&int32_value), Ok(None));
}

#[test]
fn all_but_string_and_bytes_are_numeric() {
    for (ty, _) in scalars() {
        assert_eq!(ty.is_numeric(), ty != Ty::String && ty != Ty::Bytes);
    }
    assert!(enumeration("Kind").is_numeric());
}

#[test]
fn each_type_has_its_codec() {
    let codecs = [
        Codec::Double,
        Codec::Float,
        Codec::Int32,
        Codec::Int64,
        Codec::Uint32,
        Codec::Uint64,
        Codec::Sint32,
        Codec::Sint64,
        Codec::Fixed32,
        Codec::Fixed64,
        Codec::Sfixed32,
        Codec::Sfixed64,
        Codec::Bool,
        Codec::String,
        Codec::Bytes,
    ];
    for ((ty, name), codec) in scalars().into_iter().zip(codecs.iter()) {
        assert_eq!(ty.module(), *codec);
        assert_eq!(codec.as_str(), name);
    }
    assert_eq!(enumeration("Kind").module(), Codec::Int32);
}

#[test]
fn each_type_is_held_and_lent_by_a_rust_type() {
    let lent = [
        RustType::F64,
        RustType::F32,
        RustType::I32,
        RustType::I64,
        RustType::U32,
        RustType::U64,
        RustType::I32,
        RustType::I64,
        RustType::U32,
        RustType::U64,
        RustType::I32,
        RustType::I64,
        RustType::Bool,
        RustType::Str,
        RustType::ByteSlice,
    ];
    for ((ty, _), r) in scalars().into_iter().zip(lent.iter()) {
        assert_eq!(ty.rust_ref_type(), *r);
        let held = match ty {
            Ty::String => RustType::String,
            Ty::Bytes => RustType::ByteVec,
            _ => *r,
        };
        assert_eq!(ty.rust_type(), held);
    }
    assert_eq!(enumeration("Kind").rust_ref_type(), RustType::I32);
    assert_eq!(enumeration("Kind").rust_type(), RustType::I32);
}

#[test]
fn the_representation_of_each_type() {
    assert!(Ty::Int32.is_i32() && Ty::Sint32.is_i32() && Ty::Sfixed32.is_i32());
    assert!(Ty::Int64.is_i64() && Ty::Sint64.is_i64() && Ty::Sfixed64.is_i64());
    assert!(Ty::Uint32.is_u32() && Ty::Fixed32.is_u32());
    assert!(Ty::Uint64.is_u64() && Ty::Fixed64.is_u64());
    assert!(!Ty::Uint32.is_i32() && !Ty::Int32.is_u32() && !Ty::Int64.is_i32());
    assert!(!enumeration("Kind").is_i32());
    assert!(!Ty::Float.is_u64() && !Ty::Bool.is_i64());
}
