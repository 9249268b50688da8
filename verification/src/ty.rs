//! The scalar types of a field.
use crate::error::{Category, Error};
use crate::literal::{Lit, LitView};
use crate::meta::{only_item, viewed, Meta, MetaView, NestedMeta, NestedMetaView};
use crate::path::{parse_path, path_of_text};
use crate::text::{skip_chars, str_eq, to_chars, trim, trimmed};
use vstd::prelude::*;
use vstd::string::*;

verus! {

/// The type of a scalar field.
#[derive(Debug, PartialEq, Eq)]
pub enum Ty {
    Double,
    Float,
    Int32,
    Int64,
    Uint32,
    Uint64,
    Sint32,
    Sint64,
    Fixed32,
    Fixed64,
    Sfixed32,
    Sfixed64,
    Bool,
    String,
    Bytes,
    /// An enumeration, by the path of its type: its segments with `::`
    /// between them.
    Enumeration(String),
}

/// What a [`Ty`] holds.
pub ghost enum TyView {
    Double,
    Float,
    Int32,
    Int64,
    Uint32,
    Uint64,
    Sint32,
    Sint64,
    Fixed32,
    Fixed64,
    Sfixed32,
    Sfixed64,
    Bool,
    String,
    Bytes,
    Enumeration(Seq<char>),
}

impl DeepView for Ty {
    type V = TyView;

    open spec fn deep_view(&self) -> TyView {
        match self {
            Ty::Double => TyView::Double,
            Ty::Float => TyView::Float,
            Ty::Int32 => TyView::Int32,
            Ty::Int64 => TyView::Int64,
            Ty::Uint32 => TyView::Uint32,
            Ty::Uint64 => TyView::Uint64,
            Ty::Sint32 => TyView::Sint32,
            Ty::Sint64 => TyView::Sint64,
            Ty::Fixed32 => TyView::Fixed32,
            Ty::Fixed64 => TyView::Fixed64,
            Ty::Sfixed32 => TyView::Sfixed32,
            Ty::Sfixed64 => TyView::Sfixed64,
            Ty::Bool => TyView::Bool,
            Ty::String => TyView::String,
            Ty::Bytes => TyView::Bytes,
            Ty::Enumeration(path) => TyView::Enumeration(path@),
        }
    }
}

impl View for Ty {
    type V = TyView;

    open spec fn view(&self) -> TyView {
        self.deep_view()
    }
}

impl Clone for Ty {
    fn clone(&self) -> (r: Self)
        ensures
            r@ == self@,
    {
        match self {
            Ty::Double => Ty::Double,
            Ty::Float => Ty::Float,
            Ty::Int32 => Ty::Int32,
            Ty::Int64 => Ty::Int64,
            Ty::Uint32 => Ty::Uint32,
            Ty::Uint64 => Ty::Uint64,
            Ty::Sint32 => Ty::Sint32,
            Ty::Sint64 => Ty::Sint64,
            Ty::Fixed32 => Ty::Fixed32,
            Ty::Fixed64 => Ty::Fixed64,
            Ty::Sfixed32 => Ty::Sfixed32,
            Ty::Sfixed64 => Ty::Sfixed64,
            Ty::Bool => Ty::Bool,
            Ty::String => Ty::String,
            Ty::Bytes => Ty::Bytes,
            Ty::Enumeration(path) => Ty::Enumeration(path.clone()),
        }
    }
}

/// The primitive codec that the values of a type are written with.
#[derive(Clone, Copy, Debug, PartialEq, Eq, Structural)]
pub enum Codec {
    Double,
    Float,
    Int32,
    Int64,
    Uint32,
    Uint64,
    Sint32,
    Sint64,
    Fixed32,
    Fixed64,
    Sfixed32,
    Sfixed64,
    Bool,
    String,
    Bytes,
}

/// The Rust type that holds or lends a value of a scalar type.
#[derive(Clone, Copy, Debug, PartialEq, Eq, Structural)]
pub enum RustType {
    F64,
    F32,
    I32,
    I64,
    U32,
    U64,
    Bool,
    /// `&str`.
    Str,
    /// `&[u8]`.
    ByteSlice,
    /// `String`.
    String,
    /// `Vec<u8>`.
    ByteVec,
}

/// The scalar type that a word names, if it names one. No word names an
/// enumeration.
pub open spec fn scalar_named(name: Seq<char>) -> Option<TyView> {
    if name == "float"@ {
        Some(TyView::Float)
    } else if name == "double"@ {
        Some(TyView::Double)
    } else if name == "int32"@ {
        Some(TyView::Int32)
    } else if name == "int64"@ {
        Some(TyView::Int64)
    } else if name == "uint32"@ {
        Some(TyView::Uint32)
    } else if name == "uint64"@ {
        Some(TyView::Uint64)
    } else if name == "sint32"@ {
        Some(TyView::Sint32)
    } else if name == "sint64"@ {
        Some(TyView::Sint64)
    } else if name == "fixed32"@ {
        Some(TyView::Fixed32)
    } else if name == "fixed64"@ {
        Some(TyView::Fixed64)
    } else if name == "sfixed32"@ {
        Some(TyView::Sfixed32)
    } else if name == "sfixed64"@ {
        Some(TyView::Sfixed64)
    } else if name == "bool"@ {
        Some(TyView::Bool)
    } else if name == "string"@ {
        Some(TyView::String)
    } else if name == "bytes"@ {
        Some(TyView::Bytes)
    } else {
        None
    }
}

/// The type that an annotation marks, if it is a type marker: a bare
/// scalar name, `enumeration = "path"` or `enumeration(path)`. The path
/// in quotes must be plain: ASCII identifiers and `::`, no arguments.
pub open spec fn ty_of_attr(attr: MetaView) -> Result<Option<TyView>, Error> {
    match attr {
        MetaView::Path(name) => Ok(scalar_named(name)),
        MetaView::NameValue { path, lit: LitView::Str(text) } => if path == "enumeration"@ {
            match path_of_text(text) {
                Some(p) => Ok(Some(TyView::Enumeration(p))),
                None => Err(Error::ParseError),
            }
        } else {
            Ok(None)
        },
        MetaView::NameValue { .. } => Ok(None),
        MetaView::List { path, nested } => if path == "enumeration"@ {
            match only_item(nested) {
                Some(NestedMetaView::Path(p)) => Ok(Some(TyView::Enumeration(p))),
                _ => Err(Error::InvalidAttribute(Category::Type)),
            }
        } else {
            Ok(None)
        },
    }
}

/// The enumeration that the text behind the word `enumeration` names: a
/// path between `<` or `(` and `>` or `)`, with white space wherever.
/// The path must be plain: ASCII identifiers and `::`, no arguments.
pub open spec fn enumeration_of_text(rest: Seq<char>) -> Result<TyView, Error> {
    let rest = trimmed(rest);
    if rest.len() > 0 && (rest.first() == '<' || rest.first() == '(') && (rest.last() == '>'
        || rest.last() == ')') {
        match path_of_text(trimmed(rest.subrange(1, rest.len() - 1))) {
            Some(p) => Ok(TyView::Enumeration(p)),
            None => Err(Error::ParseError),
        }
    } else {
        Err(Error::InvalidType)
    }
}

/// The type that a text names: a scalar name, or `enumeration` with a
/// path in brackets behind it.
pub open spec fn ty_of_text(s: Seq<char>) -> Result<TyView, Error> {
    let t = trimmed(s);
    match scalar_named(t) {
        Some(ty) => Ok(ty),
        None => if t.len() > 11 && t.take(11) == "enumeration"@ {
            enumeration_of_text(t.skip(11))
        } else {
            Err(Error::InvalidType)
        },
    }
}

impl TyView {
    /// The name of the type in a field declaration.
    pub open spec fn name(self) -> Seq<char> {
        match self {
            TyView::Double => "double"@,
            TyView::Float => "float"@,
            TyView::Int32 => "int32"@,
            TyView::Int64 => "int64"@,
            TyView::Uint32 => "uint32"@,
            TyView::Uint64 => "uint64"@,
            TyView::Sint32 => "sint32"@,
            TyView::Sint64 => "sint64"@,
            TyView::Fixed32 => "fixed32"@,
            TyView::Fixed64 => "fixed64"@,
            TyView::Sfixed32 => "sfixed32"@,
            TyView::Sfixed64 => "sfixed64"@,
            TyView::Bool => "bool"@,
            TyView::String => "string"@,
            TyView::Bytes => "bytes"@,
            TyView::Enumeration(_) => "enum"@,
        }
    }

    /// Every type but `string` and `bytes`.
    pub open spec fn is_numeric(self) -> bool {
        !(self is String) && !(self is Bytes)
    }

    /// The codec of the type; an enumeration goes as `int32`.
    pub open spec fn codec(self) -> Codec {
        match self {
            TyView::Double => Codec::Double,
            TyView::Float => Codec::Float,
            TyView::Int32 => Codec::Int32,
            TyView::Int64 => Codec::Int64,
            TyView::Uint32 => Codec::Uint32,
            TyView::Uint64 => Codec::Uint64,
            TyView::Sint32 => Codec::Sint32,
            TyView::Sint64 => Codec::Sint64,
            TyView::Fixed32 => Codec::Fixed32,
            TyView::Fixed64 => Codec::Fixed64,
            TyView::Sfixed32 => Codec::Sfixed32,
            TyView::Sfixed64 => Codec::Sfixed64,
            TyView::Bool => Codec::Bool,
            TyView::String => Codec::String,
            TyView::Bytes => Codec::Bytes,
            TyView::Enumeration(_) => Codec::Int32,
        }
    }

    /// The type by which a value is lent: the integer or float of its
    /// width and sign, `&str` or `&[u8]`.
    pub open spec fn ref_type(self) -> RustType {
        match self {
            TyView::Double => RustType::F64,
            TyView::Float => RustType::F32,
            TyView::Int32 | TyView::Sint32 | TyView::Sfixed32 | TyView::Enumeration(_) => RustType::I32,
            TyView::Int64 | TyView::Sint64 | TyView::Sfixed64 => RustType::I64,
            TyView::Uint32 | TyView::Fixed32 => RustType::U32,
            TyView::Uint64 | TyView::Fixed64 => RustType::U64,
            TyView::Bool => RustType::Bool,
            TyView::String => RustType::Str,
            TyView::Bytes => RustType::ByteSlice,
        }
    }

    /// The type by which a value is held: as it is lent, but `String` and
    /// `Vec<u8>`.
    pub open spec fn owned_type(self) -> RustType {
        match self {
            TyView::String => RustType::String,
            TyView::Bytes => RustType::ByteVec,
            _ => self.ref_type(),
        }
    }
}

impl Codec {
    /// The name of the codec's module.
    pub fn as_str(&self) -> (r: &'static str)
        ensures
            r@ == codec_name(*self),
    {
        match self {
            Codec::Double => "double",
            Codec::Float => "float",
            Codec::Int32 => "int32",
            Codec::Int64 => "int64",
            Codec::Uint32 => "uint32",
            Codec::Uint64 => "uint64",
            Codec::Sint32 => "sint32",
            Codec::Sint64 => "sint64",
            Codec::Fixed32 => "fixed32",
            Codec::Fixed64 => "fixed64",
            Codec::Sfixed32 => "sfixed32",
            Codec::Sfixed64 => "sfixed64",
            Codec::Bool => "bool",
            Codec::String => "string",
            Codec::Bytes => "bytes",
        }
    }
}

/// The name of a codec's module.
pub open spec fn codec_name(codec: Codec) -> Seq<char> {
    match codec {
        Codec::Double => "double"@,
        Codec::Float => "float"@,
        Codec::Int32 => "int32"@,
        Codec::Int64 => "int64"@,
        Codec::Uint32 => "uint32"@,
        Codec::Uint64 => "uint64"@,
        Codec::Sint32 => "sint32"@,
        Codec::Sint64 => "sint64"@,
        Codec::Fixed32 => "fixed32"@,
        Codec::Fixed64 => "fixed64"@,
        Codec::Sfixed32 => "sfixed32"@,
        Codec::Sfixed64 => "sfixed64"@,
        Codec::Bool => "bool"@,
        Codec::String => "string"@,
        Codec::Bytes => "bytes"@,
    }
}

impl Ty {
    /// The scalar type that a word names.
    pub fn named(name: &str) -> (r: Option<Ty>)
        ensures
            r.deep_view() == scalar_named(name@),
    {
        if str_eq(name, "float") {
            Some(Ty::Float)
        } else if str_eq(name, "double") {
            Some(Ty::Double)
        } else if str_eq(name, "int32") {
            Some(Ty::Int32)
        } else if str_eq(name, "int64") {
            Some(Ty::Int64)
        } else if str_eq(name, "uint32") {
            Some(Ty::Uint32)
        } else if str_eq(name, "uint64") {
            Some(Ty::Uint64)
        } else if str_eq(name, "sint32") {
            Some(Ty::Sint32)
        } else if str_eq(name, "sint64") {
            Some(Ty::Sint64)
        } else if str_eq(name, "fixed32") {
            Some(Ty::Fixed32)
        } else if str_eq(name, "fixed64") {
            Some(Ty::Fixed64)
        } else if str_eq(name, "sfixed32") {
            Some(Ty::Sfixed32)
        } else if str_eq(name, "sfixed64") {
            Some(Ty::Sfixed64)
        } else if str_eq(name, "bool") {
            Some(Ty::Bool)
        } else if str_eq(name, "string") {
            Some(Ty::String)
        } else if str_eq(name, "bytes") {
            Some(Ty::Bytes)
        } else {
            None
        }
    }

    /// Reads the type from an annotation that marks one. The path behind
    /// `enumeration =` is read where it is written with ASCII identifiers
    /// and `::` alone; a path with arguments in `<` and `>`, with a
    /// comment or with an identifier outside ASCII is refused as one that
    /// does not parse.
    pub fn from_attr(attr: &Meta) -> (r: Result<Option<Ty>, Error>)
        ensures
            viewed(r) == ty_of_attr(attr@),
    {
        match attr {
            Meta::Path(name) => Ok(Ty::named(name.as_str())),
            Meta::NameValue { path, lit: Lit::Str(text) } => {
                if str_eq(path.as_str(), "enumeration") {
                    match parse_path(text.as_str()) {
                        Some(p) => Ok(Some(Ty::Enumeration(p))),
                        None => Err(Error::ParseError),
                    }
                } else {
                    Ok(None)
                }
            },
            Meta::NameValue { .. } => Ok(None),
            Meta::List { path, nested } => {
                if str_eq(path.as_str(), "enumeration") {
                    if nested.len() == 1 {
                        if let NestedMeta::Path(p) = &nested[0] {
                            return Ok(Some(Ty::Enumeration(p.clone())));
                        }
                    }
                    Err(Error::InvalidAttribute(Category::Type))
                } else {
                    Ok(None)
                }
            },
        }
    }

    /// Reads the type from its name. The path of an enumeration is read
    /// where it is written with ASCII identifiers and `::` alone; a path
    /// with arguments in `<` and `>`, with a comment or with an
    /// identifier outside ASCII is refused as one that does not parse.
    pub fn from_str(s: &str) -> (r: Result<Ty, Error>)
        ensures
            viewed(r) == ty_of_text(s@),
    {
        let t = trim(s);
        if let Some(ty) = Ty::named(t) {
            return Ok(ty);
        }
        let n: usize = t.unicode_len();
        if n <= 11 {
            return Err(Error::InvalidType);
        }
        proof {
            reveal_strlit("enumeration");
            assert(t@.take(11) =~= t@.subrange(0, 11));
        }
        if !str_eq(t.substring_char(0, 11), "enumeration") {
            return Err(Error::InvalidType);
        }
        let rest = trim(skip_chars(t, 11));
        let cs = to_chars(rest);
        let m: usize = cs.len();
        if m == 0 {
            return Err(Error::InvalidType);
        }
        let first: char = cs[0];
        let last: char = cs[m - 1];
        if !(first == '<' || first == '(') || !(last == '>' || last == ')') {
            return Err(Error::InvalidType);
        }
        match parse_path(trim(rest.substring_char(1, m - 1))) {
            Some(p) => Ok(Ty::Enumeration(p)),
            None => Err(Error::ParseError),
        }
    }

    /// The name of the type in a field declaration.
    pub fn as_str(&self) -> (r: &'static str)
        ensures
            r@ == self@.name(),
    {
        match self {
            Ty::Double => "double",
            Ty::Float => "float",
            Ty::Int32 => "int32",
            Ty::Int64 => "int64",
            Ty::Uint32 => "uint32",
            Ty::Uint64 => "uint64",
            Ty::Sint32 => "sint32",
            Ty::Sint64 => "sint64",
            Ty::Fixed32 => "fixed32",
            Ty::Fixed64 => "fixed64",
            Ty::Sfixed32 => "sfixed32",
            Ty::Sfixed64 => "sfixed64",
            Ty::Bool => "bool",
            Ty::String => "string",
            Ty::Bytes => "bytes",
            Ty::Enumeration(_) => "enum",
        }
    }

    /// The type by which a value of this type is held.
    pub fn rust_type(&self) -> (r: RustType)
        ensures
            r == self@.owned_type(),
    {
        match self {
            Ty::String => RustType::String,
            Ty::Bytes => RustType::ByteVec,
            _ => self.rust_ref_type(),
        }
    }

    /// The type by which a value of this type is lent.
    pub fn rust_ref_type(&self) -> (r: RustType)
        ensures
            r == self@.ref_type(),
    {
        match self {
            Ty::Double => RustType::F64,
            Ty::Float => RustType::F32,
            Ty::Int32 => RustType::I32,
            Ty::Int64 => RustType::I64,
            Ty::Uint32 => RustType::U32,
            Ty::Uint64 => RustType::U64,
            Ty::Sint32 => RustType::I32,
            Ty::Sint64 => RustType::I64,
            Ty::Fixed32 => RustType::U32,
            Ty::Fixed64 => RustType::U64,
            Ty::Sfixed32 => RustType::I32,
            Ty::Sfixed64 => RustType::I64,
            Ty::Bool => RustType::Bool,
            Ty::String => RustType::Str,
            Ty::Bytes => RustType::ByteSlice,
            Ty::Enumeration(_) => RustType::I32,
        }
    }

    /// The codec that values of this type are written with.
    pub fn module(&self) -> (r: Codec)
        ensures
            r == self@.codec(),
    {
        match self {
            Ty::Double => Codec::Double,
            Ty::Float => Codec::Float,
            Ty::Int32 => Codec::Int32,
            Ty::Int64 => Codec::Int64,
            Ty::Uint32 => Codec::Uint32,
            Ty::Uint64 => Codec::Uint64,
            Ty::Sint32 => Codec::Sint32,
            Ty::Sint64 => Codec::Sint64,
            Ty::Fixed32 => Codec::Fixed32,
            Ty::Fixed64 => Codec::Fixed64,
            Ty::Sfixed32 => Codec::Sfixed32,
            Ty::Sfixed64 => Codec::Sfixed64,
            Ty::Bool => Codec::Bool,
            Ty::String => Codec::String,
            Ty::Bytes => Codec::Bytes,
            Ty::Enumeration(_) => Codec::Int32,
        }
    }

    /// Whether the type is a number: any type but `string` and `bytes`.
    pub fn is_numeric(&self) -> (r: bool)
        ensures
            r == self@.is_numeric(),
    {
        !matches!(self, Ty::String) && !matches!(self, Ty::Bytes)
    }
}

/// Every scalar type but an enumeration is the one that its name names,
/// as a word and as a text.
pub proof fn lemma_name_names_type(ty: TyView)
    requires
        !(ty is Enumeration),
    ensures
        scalar_named(ty.name()) == Some(ty),
        ty_of_text(ty.name()) == Ok::<TyView, Error>(ty),
{
    reveal_strlit("float");
    reveal_strlit("double");
    reveal_strlit("int32");
    reveal_strlit("int64");
    reveal_strlit("uint32");
    reveal_strlit("uint64");
    reveal_strlit("sint32");
    reveal_strlit("sint64");
    reveal_strlit("fixed32");
    reveal_strlit("fixed64");
    reveal_strlit("sfixed32");
    reveal_strlit("sfixed64");
    reveal_strlit("bool");
    reveal_strlit("string");
    reveal_strlit("bytes");
    let name = ty.name();
    assert(!crate::text::is_white_space(name.first()));
    assert(!crate::text::is_white_space(name.last()));
}

} // verus!
