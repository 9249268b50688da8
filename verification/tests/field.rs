use prost_amino_derive::default_value::DefaultValue;
use prost_amino_derive::error::{Category, Error, OneofError, PackedError};
use prost_amino_derive::field::{resolve_prefix, Annotation, Annotations, Field, Kind};
use prost_amino_derive::literal::Lit;
use prost_amino_derive::meta::{Label, Meta, NestedMeta};
use prost_amino_derive::ty::Ty;

fn word(name: &str) -> Meta {
    Meta::Path(name.to_string())
}

fn name_value(name: &str, lit: Lit) -> Meta {
    Meta::NameValue { path: name.to_string(), lit }
}

fn integer(digits: &str) -> Lit {
    Lit::Int { digits: digits.to_string(), suffix: String::new() }
}

fn string(s: &str) -> Lit {
    Lit::Str(s.to_string())
}

fn tag(n: &str) -> Meta {
    name_value("tag", integer(n))
}

fn packed(b: bool) -> Meta {
    name_value("packed", Lit::Bool(b))
}

fn default(lit: Lit) -> Meta {
    name_value("default", lit)
}

fn disfix(name: &str) -> (Vec<u8>, Vec<u8>) {
    let bytes = name.as_bytes();
    (vec![bytes.len() as u8, 1, 2], vec![bytes[0], 0xaa, 0xbb, 0xcc])
}

fn build(attrs: &[Meta]) -> Result<Option<Field>, Error> {
    Field::new(attrs, None, disfix)
}

fn field(ty: Ty, kind: Kind, tag: u32) -> Field {
    Field { ty, kind, tag, amino_prefix: Vec::new() }
}

#[test]
fn a_plain_field() {
    assert_eq!(
        build(&[word("int32"), tag("1")]),
        Ok(Some(field(Ty::Int32, Kind::Plain(DefaultValue::I32(0)), 1)))
    );
    assert_eq!(
        build(&[tag("7"), default(string("hello")), word("string")]),
        Ok(Some(field(Ty::String, Kind::Plain(DefaultValue::String("hello".to_string())), 7)))
    );
}

#[test]
fn without_a_type_there_is_no_scalar_field() {
    assert_eq!(build(&[]), Ok(None));
    assert_eq!(build(&[tag("1")]), Ok(None));
    assert_eq!(build(&[word("message"), tag("1")]), Ok(None));
    assert_eq!(build(&[word("message"), word("what"), packed(true)]), Ok(None));
}

#[test]
fn the_label_gives_the_kind() {
    assert_eq!(
        build(&[word("bool"), tag("1"), word("optional")]),
        Ok(Some(field(Ty::Bool, Kind::Optional(DefaultValue::Bool(false)), 1)))
    );
    assert_eq!(
        build(&[word("bool"), tag("1"), word("required"), default(Lit::Bool(true))]),
        Ok(Some(field(Ty::Bool, Kind::Required(DefaultValue::Bool(true)), 1)))
    );
    assert_eq!(
        build(&[word("string"), tag("1"), word("repeated")]),
        Ok(Some(field(Ty::String, Kind::Repeated, 1)))
    );
}

#[test]
fn a_repeated_field_of_numbers_is_packed_unless_told_otherwise() {
    assert_eq!(
        build(&[word("int32"), tag("1"), word("repeated")]),
        Ok(Some(field(Ty::Int32, Kind::Packed, 1)))
    );
    assert_eq!(
        build(&[word("int32"), tag("1"), word("repeated"), packed(false)]),
        Ok(Some(field(Ty::Int32, Kind::Repeated, 1)))
    );
    assert_eq!(
        build(&[word("bytes"), tag("1"), word("repeated"), packed(false)]),
        Ok(Some(field(Ty::Bytes, Kind::Repeated, 1)))
    );
    let kinds = Meta::List {
        path: "enumeration".to_string(),
        nested: vec![NestedMeta::Path("Kind".to_string())],
    };
    assert_eq!(
        build(&[kinds, tag("1"), word("repeated")]),
        Ok(Some(field(Ty::Enumeration("Kind".to_string()), Kind::Packed, 1)))
    );
}

#[test]
fn packed_is_for_repeated_numbers() {
    assert_eq!(
        build(&[word("int32"), tag("1"), word("repeated"), word("packed")]),
        Ok(Some(field(Ty::Int32, Kind::Packed, 1)))
    );
    assert_eq!(
        build(&[word("string"), tag("1"), word("repeated"), word("packed")]),
        Err(Error::InvalidPacked(PackedError::NotNumeric))
    );
    assert_eq!(
        build(&[word("bytes"), tag("1"), word("repeated"), packed(true)]),
        Err(Error::InvalidPacked(PackedError::NotNumeric))
    );
    let not_repeated = Err(Error::InvalidPacked(PackedError::NotRepeated));
    assert_eq!(build(&[word("int32"), tag("1"), word("packed")]), not_repeated);
    assert_eq!(build(&[word("int32"), tag("1"), word("optional"), word("packed")]), not_repeated);
    assert_eq!(build(&[word("int32"), tag("1"), word("required"), word("packed")]), not_repeated);
    assert_eq!(build(&[word("string"), tag("1"), word("packed")]), not_repeated);
    assert_eq!(
        build(&[word("int32"), tag("1"), packed(false)]),
        Ok(Some(field(Ty::Int32, Kind::Plain(DefaultValue::I32(0)), 1)))
    );
}

#[test]
fn a_repeated_field_has_no_default() {
    assert_eq!(
        build(&[word("int32"), tag("1"), word("repeated"), default(integer("1"))]),
        Err(Error::RepeatedWithDefault)
    );
    assert_eq!(
        build(&[word("string"), tag("1"), word("repeated"), default(string("a"))]),
        Err(Error::RepeatedWithDefault)
    );
    assert_eq!(
        build(&[word("string"), tag("1"), word("repeated"), word("packed"), default(string("a"))]),
        Err(Error::InvalidPacked(PackedError::NotNumeric))
    );
    assert_eq!(
        build(&[word("int32"), tag("1"), word("repeated"), default(string("x"))]),
        Err(Error::ParseError)
    );
}

#[test]
fn a_second_annotation_of_a_category_is_refused() {
    assert_eq!(
        build(&[word("int32"), word("int64"), tag("1")]),
        Err(Error::DuplicateAttribute(Category::Type))
    );
    assert_eq!(
        build(&[word("int32"), tag("1"), tag("1")]),
        Err(Error::DuplicateAttribute(Category::Tag))
    );
    assert_eq!(
        build(&[word("int32"), packed(false), word("packed")]),
        Err(Error::DuplicateAttribute(Category::Packed))
    );
    assert_eq!(
        build(&[word("optional"), word("repeated")]),
        Err(Error::DuplicateAttribute(Category::Label))
    );
    assert_eq!(
        build(&[default(integer("1")), default(integer("1"))]),
        Err(Error::DuplicateAttribute(Category::Default))
    );
    assert_eq!(
        build(&[name_value("amino_name", string("a")), name_value("amino_name", string("b"))]),
        Err(Error::DuplicateAttribute(Category::AminoName))
    );
}

#[test]
fn the_first_annotation_refused_decides() {
    assert_eq!(
        build(&[tag("1"), tag("2"), word("packed"), word("packed")]),
        Err(Error::DuplicateAttribute(Category::Tag))
    );
    assert_eq!(
        build(&[word("tag"), word("int32"), word("int32")]),
        Err(Error::InvalidAttribute(Category::Tag))
    );
    assert_eq!(
        build(&[word("what"), name_value("tag", string("x")), word("default")]),
        Err(Error::ParseError)
    );
}

#[test]
fn an_annotation_of_no_category_is_refused_where_there_is_a_type() {
    assert_eq!(
        build(&[word("int32"), word("what"), tag("1")]),
        Err(Error::UnknownAttribute { first: 1, count: 1 })
    );
    assert_eq!(
        build(&[word("what"), word("int32"), name_value("why", integer("1")), tag("1"), word("how")]),
        Err(Error::UnknownAttribute { first: 0, count: 3 })
    );
    assert_eq!(
        build(&[word("int32"), word("what")]),
        Err(Error::UnknownAttribute { first: 1, count: 1 })
    );
}

#[test]
fn a_field_needs_a_tag() {
    assert_eq!(build(&[word("int32")]), Err(Error::MissingTag));
    assert_eq!(
        Field::new(&[word("int32")], Some(4), disfix),
        Ok(Some(field(Ty::Int32, Kind::Plain(DefaultValue::I32(0)), 4)))
    );
    assert_eq!(
        Field::new(&[word("int32"), tag("9")], Some(4), disfix),
        Ok(Some(field(Ty::Int32, Kind::Plain(DefaultValue::I32(0)), 9)))
    );
    assert_eq!(
        build(&[word("int32"), default(string("x"))]),
        Err(Error::MissingTag)
    );
}

#[test]
fn a_default_that_does_not_resolve_is_refused() {
    assert_eq!(
        build(&[word("int32"), tag("1"), default(Lit::Bool(true))]),
        Err(Error::TypeMismatch)
    );
    assert_eq!(
        build(&[word("int32"), tag("1"), default(string("x"))]),
        Err(Error::ParseError)
    );
    assert_eq!(
        build(&[word("int32"), tag("1"), default(string("x")), word("packed")]),
        Err(Error::ParseError)
    );
    assert_eq!(
        build(&[word("int32"), tag("1"), default(string("-7"))]),
        Ok(Some(field(Ty::Int32, Kind::Plain(DefaultValue::I32(-7)), 1)))
    );
}

#[test]
fn a_registered_name_gives_the_prefix_of_the_service() {
    let attrs = [word("bytes"), tag("1"), name_value("amino_name", string("tendermint/PubKey"))];
    let built = build(&attrs).unwrap().unwrap();
    assert_eq!(built.amino_prefix, vec![b't', 0xaa, 0xbb, 0xcc]);
    assert_eq!(built.ty, Ty::Bytes);
    assert_eq!(built.kind, Kind::Plain(DefaultValue::Bytes(Vec::new())));
    let plain = build(&[word("bytes"), tag("1")]).unwrap().unwrap();
    assert_eq!(plain.amino_prefix, Vec::<u8>::new());
}

#[test]
fn the_prefix_is_what_the_service_gives_for_the_name() {
    let name = "cosmos-sdk/Msg".to_string();
    assert_eq!(resolve_prefix(Some(&name), disfix), vec![b'c', 0xaa, 0xbb, 0xcc]);
    assert_eq!(resolve_prefix(None, disfix), Vec::<u8>::new());
    let empty = |_: &str| (Vec::new(), Vec::new());
    assert_eq!(resolve_prefix(Some(&name), empty), Vec::<u8>::new());
}

#[test]
fn a_plain_field_becomes_a_required_alternative() {
    assert_eq!(
        Field::new_oneof(&[word("int32"), tag("1"), default(integer("5"))], disfix),
        Ok(Some(field(Ty::Int32, Kind::Required(DefaultValue::I32(5)), 1)))
    );
    let plain = field(Ty::String, Kind::Plain(DefaultValue::String("a".to_string())), 2);
    assert_eq!(
        plain.into_oneof(),
        Ok(field(Ty::String, Kind::Required(DefaultValue::String("a".to_string())), 2))
    );
    let registered = Field::new_oneof(
        &[word("bytes"), tag("1"), name_value("amino_name", string("x"))],
        disfix,
    )
    .unwrap()
    .unwrap();
    assert_eq!(registered.kind, Kind::Required(DefaultValue::Bytes(Vec::new())));
    assert_eq!(registered.amino_prefix, vec![b'x', 0xaa, 0xbb, 0xcc]);
}

#[test]
fn a_field_of_another_kind_is_no_alternative() {
    assert_eq!(
        Field::new_oneof(&[word("int32"), tag("1"), word("optional")], disfix),
        Err(Error::InvalidOneofField(OneofError::Optional))
    );
    assert_eq!(
        Field::new_oneof(&[word("int32"), tag("1"), word("required")], disfix),
        Err(Error::InvalidOneofField(OneofError::Required))
    );
    assert_eq!(
        Field::new_oneof(&[word("int32"), tag("1"), word("repeated")], disfix),
        Err(Error::InvalidOneofField(OneofError::Repeated))
    );
    assert_eq!(
        Field::new_oneof(&[word("string"), tag("1"), word("repeated")], disfix),
        Err(Error::InvalidOneofField(OneofError::Repeated))
    );
    assert_eq!(
        field(Ty::Int32, Kind::Packed, 1).into_oneof(),
        Err(Error::InvalidOneofField(OneofError::Repeated))
    );
    assert_eq!(
        field(Ty::Int32, Kind::Optional(DefaultValue::I32(0)), 1).into_oneof(),
        Err(Error::InvalidOneofField(OneofError::Optional))
    );
}

#[test]
fn an_alternative_needs_its_own_tag() {
    assert_eq!(Field::new_oneof(&[word("int32")], disfix), Err(Error::MissingTag));
    assert_eq!(Field::new_oneof(&[word("message")], disfix), Ok(None));
    assert_eq!(
        Field::new_oneof(&[word("int32"), word("int32")], disfix),
        Err(Error::DuplicateAttribute(Category::Type))
    );
}

#[test]
fn each_annotation_is_read_by_its_category() {
    assert_eq!(Annotation::from_attr(&word("sint64")), Ok(Annotation::Type(Ty::Sint64)));
    assert_eq!(Annotation::from_attr(&word("packed")), Ok(Annotation::Packed(true)));
    assert_eq!(Annotation::from_attr(&tag("3")), Ok(Annotation::Tag(3)));
    assert_eq!(
        Annotation::from_attr(&name_value("amino_name", string("n"))),
        Ok(Annotation::AminoName("n".to_string()))
    );
    assert_eq!(Annotation::from_attr(&word("repeated")), Ok(Annotation::Label(Label::Repeated)));
    assert_eq!(
        Annotation::from_attr(&default(Lit::Bool(true))),
        Ok(Annotation::Default(Lit::Bool(true)))
    );
    assert_eq!(Annotation::from_attr(&word("message")), Ok(Annotation::Unknown));
    assert_eq!(
        Annotation::from_attr(&word("default")),
        Err(Error::InvalidAttribute(Category::Default))
    );
    assert_eq!(
        Annotation::from_attr(&word("amino_name")),
        Err(Error::InvalidAttribute(Category::AminoName))
    );
}

#[test]
fn annotations_are_gathered_by_category() {
    let attrs = [
        word("what"),
        word("uint32"),
        word("optional"),
        packed(false),
        default(integer("3")),
        tag("2"),
        name_value("amino_name", string("n")),
        word("else"),
    ];
    assert_eq!(
        Annotations::scan(&attrs),
        Ok(Annotations {
            ty: Some(Ty::Uint32),
            label: Some(Label::Optional),
            packed: Some(false),
            default: Some(integer("3")),
            tag: Some(2),
            amino_name: Some("n".to_string()),
            unknown: 2,
            first_unknown: 0,
        })
    );
    assert_eq!(
        Annotations::scan(&[]),
        Ok(Annotations {
            ty: None,
            label: None,
            packed: None,
            default: None,
            tag: None,
            amino_name: None,
            unknown: 0,
            first_unknown: 0,
        })
    );
}

#[test]
fn a_field_is_cloned_whole() {
    let built = build(&[
        word("bytes"),
        tag("1"),
        word("optional"),
        name_value("amino_name", string("n")),
        default(Lit::ByteStr(vec![1, 2])),
    ])
    .unwrap()
    .unwrap();
    assert_eq!(built.clone(), built);
    assert_eq!(built.kind, Kind::Optional(DefaultValue::Bytes(vec![1, 2])));
    for kind in [Kind::Repeated, Kind::Packed, Kind::Plain(DefaultValue::I32(1))].iter() {
        assert_eq!(&kind.clone(), kind);
    }
}

#[test]
fn the_order_of_the_annotations_decides_nothing() {
    let attrs = [
        word("sint64"),
        tag("5"),
        word("optional"),
        default(string("-3")),
        name_value("amino_name", string("n")),
        packed(false),
    ];
    let expected = build(&attrs);
    assert_eq!(
        expected,
        Ok(Some(Field {
            ty: Ty::Sint64,
            kind: Kind::Optional(DefaultValue::I64(-3)),
            tag: 5,
            amino_prefix: vec![b'n', 0xaa, 0xbb, 0xcc],
        }))
    );
    let mut order: Vec<usize> = (0..attrs.len()).collect();
    let mut count = 0;
    loop {
        let rearranged: Vec<Meta> = order.iter().map(|i| attrs[*i].clone()).collect();
        assert_eq!(build(&rearranged), expected);
        count += 1;
        let mut i = order.len() - 1;
        while i > 0 && order[i - 1] >= order[i] {
            i -= 1;
        }
        if i == 0 {
            break;
        }
        let mut j = order.len() - 1;
        while order[j] <= order[i - 1] {
            j -= 1;
        }
        order.swap(i - 1, j);
        order[i..].reverse();
    }
    assert_eq!(count, 720);
}

#[test]
fn a_refusal_stays_a_refusal_in_any_order() {
    let attrs = [word("int32"), tag("1"), tag("2"), word("what")];
    assert_eq!(build(&attrs), Err(Error::DuplicateAttribute(Category::Tag)));
    let other = [word("what"), tag("2"), word("int32"), tag("1")];
    assert_eq!(build(&other), Err(Error::DuplicateAttribute(Category::Tag)));
    let unknown_first = [word("repeated"), word("what"), word("string"), word("packed")];
    assert_eq!(build(&unknown_first), Err(Error::UnknownAttribute { first: 1, count: 1 }));
    let unknown_last = [word("packed"), word("string"), word("repeated"), word("what")];
    assert_eq!(build(&unknown_last), Err(Error::UnknownAttribute { first: 3, count: 1 }));
}
