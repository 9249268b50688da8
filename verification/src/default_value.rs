//! The default value of a field, and its resolution from a literal.
use crate::decimal::{
    format_integer, integer_text, integer_value, is_float_numeral, is_float_text, parse_integer,
    without_sign,
};
use crate::error::{Category, Error};
use crate::literal::{literal_of_text, Lit, LitView};
use crate::meta::{viewed, Meta, MetaView};
use crate::path::{parse_path, path_of_text};
use crate::shape::{is_identifier, is_identifier_text};
use crate::text::{eq_ignore_case, same_ignoring_case, skip_chars, str_eq, to_chars, trim, trimmed};
use crate::ty::{Ty, TyView};
use vstd::prelude::*;
use vstd::string::*;

verus! {

/// The default value of a scalar field.
#[derive(Debug, PartialEq, Eq)]
pub enum DefaultValue {
    /// A `double`, by its numeral in base ten.
    F64(String),
    /// A `float`, by its numeral in base ten.
    F32(String),
    I32(i32),
    I64(i64),
    U32(u32),
    U64(u64),
    Bool(bool),
    String(String),
    Bytes(Vec<u8>),
    /// A variant of the enumeration at `path`, by its name, or with no
    /// variant named, the enumeration's own default.
    Enumeration { path: String, variant: Option<String> },
    /// A constant by its path, for the floats that no numeral writes.
    Path(String),
}

/// What a [`DefaultValue`] holds.
pub ghost enum DefaultView {
    F64(Seq<char>),
    F32(Seq<char>),
    I32(i32),
    I64(i64),
    U32(u32),
    U64(u64),
    Bool(bool),
    String(Seq<char>),
    Bytes(Seq<u8>),
    Enumeration { path: Seq<char>, variant: Option<Seq<char>> },
    Path(Seq<char>),
}

impl DeepView for DefaultValue {
    type V = DefaultView;

    open spec fn deep_view(&self) -> DefaultView {
        match self {
            DefaultValue::F64(t) => DefaultView::F64(t@),
            DefaultValue::F32(t) => DefaultView::F32(t@),
            DefaultValue::I32(v) => DefaultView::I32(*v),
            DefaultValue::I64(v) => DefaultView::I64(*v),
            DefaultValue::U32(v) => DefaultView::U32(*v),
            DefaultValue::U64(v) => DefaultView::U64(*v),
            DefaultValue::Bool(v) => DefaultView::Bool(*v),
            DefaultValue::String(s) => DefaultView::String(s@),
            DefaultValue::Bytes(b) => DefaultView::Bytes(b@),
            DefaultValue::Enumeration { path, variant } => DefaultView::Enumeration {
                path: path@,
                variant: variant.deep_view(),
            },
            DefaultValue::Path(p) => DefaultView::Path(p@),
        }
    }
}

impl View for DefaultValue {
    type V = DefaultView;

    open spec fn view(&self) -> DefaultView {
        self.deep_view()
    }
}

impl Clone for DefaultValue {
    fn clone(&self) -> (r: Self)
        ensures
            r@ == self@,
    {
        match self {
            DefaultValue::F64(t) => DefaultValue::F64(t.clone()),
            DefaultValue::F32(t) => DefaultValue::F32(t.clone()),
            DefaultValue::I32(v) => DefaultValue::I32(*v),
            DefaultValue::I64(v) => DefaultValue::I64(*v),
            DefaultValue::U32(v) => DefaultValue::U32(*v),
            DefaultValue::U64(v) => DefaultValue::U64(*v),
            DefaultValue::Bool(v) => DefaultValue::Bool(*v),
            DefaultValue::String(s) => DefaultValue::String(s.clone()),
            DefaultValue::Bytes(b) => DefaultValue::Bytes(b.clone()),
            DefaultValue::Enumeration { path, variant } => DefaultValue::Enumeration {
                path: path.clone(),
                variant: match variant {
                    Some(v) => Some(v.clone()),
                    None => None,
                },
            },
            DefaultValue::Path(p) => DefaultValue::Path(p.clone()),
        }
    }
}

/// How the tokens of a default stand where a value of the field's type
/// is compared or assigned.
#[derive(Clone, Copy, Debug, PartialEq, Eq, Structural)]
pub enum TypedExpr {
    /// The default's own tokens.
    Value,
    /// The enumeration's variant, cast to `i32`.
    EnumAsI32,
}

/// How the tokens of a default stand where the field's value is made.
#[derive(Clone, Copy, Debug, PartialEq, Eq, Structural)]
pub enum OwnedExpr {
    /// `String::new()`.
    EmptyString,
    /// The string literal, made owned.
    OwnedString,
    /// `Vec::new()`.
    EmptyVec,
    /// The byte string literal, made owned.
    OwnedBytes,
    /// As where a value is compared.
    Typed(TypedExpr),
}

impl TyView {
    /// The types held in an `i32`.
    pub open spec fn is_i32(self) -> bool {
        self is Int32 || self is Sint32 || self is Sfixed32
    }

    /// The types held in an `i64`.
    pub open spec fn is_i64(self) -> bool {
        self is Int64 || self is Sint64 || self is Sfixed64
    }

    /// The types held in a `u32`.
    pub open spec fn is_u32(self) -> bool {
        self is Uint32 || self is Fixed32
    }

    /// The types held in a `u64`.
    pub open spec fn is_u64(self) -> bool {
        self is Uint64 || self is Fixed64
    }
}

impl DefaultView {
    /// The default is of the one variant that the type takes; a constant
    /// is one of the type's own width.
    pub open spec fn fits(self, ty: TyView) -> bool {
        match self {
            DefaultView::F64(_) => ty is Double,
            DefaultView::F32(_) => ty is Float,
            DefaultView::I32(_) => ty.is_i32(),
            DefaultView::I64(_) => ty.is_i64(),
            DefaultView::U32(_) => ty.is_u32(),
            DefaultView::U64(_) => ty.is_u64(),
            DefaultView::Bool(_) => ty is Bool,
            DefaultView::String(_) => ty is String,
            DefaultView::Bytes(_) => ty is Bytes,
            DefaultView::Enumeration { path, .. } => ty == TyView::Enumeration(path),
            DefaultView::Path(p) => exists|name: Seq<char>| #[trigger] names_constant(ty, name, p),
        }
    }

    /// A float is held by a numeral that writes one, and the variant of
    /// an enumeration by an identifier.
    pub open spec fn wf(self) -> bool {
        match self {
            DefaultView::F64(t) => is_float_numeral(t),
            DefaultView::F32(t) => is_float_numeral(t),
            DefaultView::Enumeration { variant: Some(name), .. } => is_identifier(name),
            _ => true,
        }
    }

    /// How the default stands where a value is compared.
    pub open spec fn typed(self) -> TypedExpr {
        if self is Enumeration {
            TypedExpr::EnumAsI32
        } else {
            TypedExpr::Value
        }
    }

    /// How the default stands where the field's value is made.
    pub open spec fn owned(self) -> OwnedExpr {
        match self {
            DefaultView::String(s) => if s.len() == 0 {
                OwnedExpr::EmptyString
            } else {
                OwnedExpr::OwnedString
            },
            DefaultView::Bytes(b) => if b.len() == 0 {
                OwnedExpr::EmptyVec
            } else {
                OwnedExpr::OwnedBytes
            },
            _ => OwnedExpr::Typed(self.typed()),
        }
    }
}

/// The zero of a type: `0`, `0.0`, `false`, nothing, or the enumeration's
/// own default.
pub open spec fn zero_value(ty: TyView) -> DefaultView {
    match ty {
        TyView::Float => DefaultView::F32("0.0"@),
        TyView::Double => DefaultView::F64("0.0"@),
        TyView::Int32 | TyView::Sint32 | TyView::Sfixed32 => DefaultView::I32(0),
        TyView::Int64 | TyView::Sint64 | TyView::Sfixed64 => DefaultView::I64(0),
        TyView::Uint32 | TyView::Fixed32 => DefaultView::U32(0),
        TyView::Uint64 | TyView::Fixed64 => DefaultView::U64(0),
        TyView::Bool => DefaultView::Bool(false),
        TyView::String => DefaultView::String(Seq::empty()),
        TyView::Bytes => DefaultView::Bytes(Seq::empty()),
        TyView::Enumeration(path) => DefaultView::Enumeration { path, variant: None },
    }
}

/// The literal of a `default` annotation, if the annotation is one:
/// `default = literal`. Any other shape is refused.
pub open spec fn default_literal_of(attr: MetaView) -> Result<Option<LitView>, Error> {
    if attr.path() != "default"@ {
        Ok(None)
    } else {
        match attr {
            MetaView::NameValue { lit, .. } => Ok(Some(lit)),
            _ => Err(Error::InvalidAttribute(Category::Default)),
        }
    }
}

/// A suffix is the expected one or there is none.
pub open spec fn suffix_fits(expected: Seq<char>, actual: Seq<char>) -> bool {
    actual == expected || actual.len() == 0
}

/// The integer that `text` writes, where it lies between `min` and `max`.
pub open spec fn integer_within(text: Seq<char>, signed: bool, min: int, max: int) -> Option<int> {
    match integer_value(text, signed) {
        Some(v) => if min <= v <= max {
            Some(v)
        } else {
            None
        },
        None => None,
    }
}

/// The default that a numeral gives a float type: the numeral itself,
/// where it is one that writes a float. A suffix must be that of the type.
pub open spec fn float_of_numeral(ty: TyView, digits: Seq<char>, suffix: Seq<char>) -> Result<
    DefaultView,
    Error,
> {
    if ty is Float && suffix_fits("f32"@, suffix) {
        if is_float_numeral(digits) {
            Ok(DefaultView::F32(digits))
        } else {
            Err(Error::ParseError)
        }
    } else if ty is Double && suffix_fits("f64"@, suffix) {
        if is_float_numeral(digits) {
            Ok(DefaultView::F64(digits))
        } else {
            Err(Error::ParseError)
        }
    } else {
        Err(Error::TypeMismatch)
    }
}

/// The default that a literal gives a type, the literal taken as it
/// stands. An integer literal serves the integer types and the floats, a
/// float literal the floats, and each other literal the one type of its
/// kind. A suffix must be that of the type's representation.
pub open spec fn default_of_literal(ty: TyView, lit: LitView) -> Result<DefaultView, Error> {
    match lit {
        LitView::Int { digits, suffix } => {
            if ty.is_i32() && suffix_fits("i32"@, suffix) {
                match integer_within(digits, true, i32::MIN as int, i32::MAX as int) {
                    Some(v) => Ok(DefaultView::I32(v as i32)),
                    None => Err(Error::ParseError),
                }
            } else if ty.is_i64() && suffix_fits("i64"@, suffix) {
                match integer_within(digits, true, i64::MIN as int, i64::MAX as int) {
                    Some(v) => Ok(DefaultView::I64(v as i64)),
                    None => Err(Error::ParseError),
                }
            } else if ty.is_u32() && suffix_fits("u32"@, suffix) {
                match integer_within(digits, false, 0, u32::MAX as int) {
                    Some(v) => Ok(DefaultView::U32(v as u32)),
                    None => Err(Error::ParseError),
                }
            } else if ty.is_u64() && suffix_fits("u64"@, suffix) {
                match integer_within(digits, false, 0, u64::MAX as int) {
                    Some(v) => Ok(DefaultView::U64(v as u64)),
                    None => Err(Error::ParseError),
                }
            } else {
                float_of_numeral(ty, digits, suffix)
            }
        },
        LitView::Float { digits, suffix } => float_of_numeral(ty, digits, suffix),
        LitView::Bool(b) => if ty is Bool {
            Ok(DefaultView::Bool(b))
        } else {
            Err(Error::TypeMismatch)
        },
        LitView::Str(s) => if ty is String {
            Ok(DefaultView::String(s))
        } else {
            Err(Error::TypeMismatch)
        },
        LitView::ByteStr(b) => if ty is Bytes {
            Ok(DefaultView::Bytes(b))
        } else {
            Err(Error::TypeMismatch)
        },
        LitView::Other => Err(Error::TypeMismatch),
    }
}

/// A numeral with its sign turned: a `-` in front is taken off, and
/// without one a `-` is put in front, in the place of a `+` if there is
/// one.
pub open spec fn negated_numeral(digits: Seq<char>) -> Seq<char> {
    if digits.len() > 0 && digits[0] == '-' {
        digits.skip(1)
    } else {
        seq!['-'] + without_sign(digits)
    }
}

/// The default that a `-` in front of a numeral gives a float type, where
/// the suffix is that of the type.
pub open spec fn float_of_negated(ty: TyView, digits: Seq<char>, suffix: Seq<char>) -> Option<
    Result<DefaultView, Error>,
> {
    if ty is Float && suffix_fits("f32"@, suffix) {
        Some(
            if is_float_numeral(digits) {
                Ok(DefaultView::F32(negated_numeral(digits)))
            } else {
                Err(Error::ParseError)
            },
        )
    } else if ty is Double && suffix_fits("f64"@, suffix) {
        Some(
            if is_float_numeral(digits) {
                Ok(DefaultView::F64(negated_numeral(digits)))
            } else {
                Err(Error::ParseError)
            },
        )
    } else {
        None
    }
}

/// The default that a `-` in front of a literal gives a type, where the
/// type takes a negative of that literal at all: the signed integer
/// types and the floats do. The integer is negated before it is held to
/// the type's range, so that the least value of the type can be written.
pub open spec fn default_of_negated(ty: TyView, lit: LitView) -> Option<Result<DefaultView, Error>> {
    match lit {
        LitView::Int { digits, suffix } => {
            if ty.is_i32() && suffix_fits("i32"@, suffix) {
                Some(
                    match integer_within(digits, true, -(i32::MAX as int), -(i32::MIN as int)) {
                        Some(v) => Ok(DefaultView::I32((-v) as i32)),
                        None => Err(Error::ParseError),
                    },
                )
            } else if ty.is_i64() && suffix_fits("i64"@, suffix) {
                Some(
                    match integer_within(digits, true, -(i64::MAX as int), -(i64::MIN as int)) {
                        Some(v) => Ok(DefaultView::I64((-v) as i64)),
                        None => Err(Error::ParseError),
                    },
                )
            } else {
                float_of_negated(ty, digits, suffix)
            }
        },
        LitView::Float { digits, suffix } => float_of_negated(ty, digits, suffix),
        _ => None,
    }
}

/// The path of the constant that `text` names for a float type: `inf`,
/// `-inf` or `nan`, in either case of letters.
pub open spec fn float_constant(ty: TyView, text: Seq<char>) -> Option<Seq<char>> {
    if ty is Float {
        if same_ignoring_case(text, "inf"@) {
            Some("::core::f32::INFINITY"@)
        } else if same_ignoring_case(text, "-inf"@) {
            Some("::core::f32::NEG_INFINITY"@)
        } else if same_ignoring_case(text, "nan"@) {
            Some("::core::f32::NAN"@)
        } else {
            None
        }
    } else if ty is Double {
        if same_ignoring_case(text, "inf"@) {
            Some("::core::f64::INFINITY"@)
        } else if same_ignoring_case(text, "-inf"@) {
            Some("::core::f64::NEG_INFINITY"@)
        } else if same_ignoring_case(text, "nan"@) {
            Some("::core::f64::NAN"@)
        } else {
            None
        }
    } else {
        None
    }
}

/// `path` is the path of the constant that `name` names for the type.
pub open spec fn names_constant(ty: TyView, name: Seq<char>, path: Seq<char>) -> bool {
    match float_constant(ty, name) {
        Some(constant) => path_of_text(constant) == Some(path),
        None => false,
    }
}

/// The default that text behind a `-` gives a type, where that text,
/// the white space at its ends taken off, is a literal and the type takes
/// its negative.
pub open spec fn default_of_minus(ty: TyView, text: Seq<char>) -> Option<Result<DefaultView, Error>> {
    if text.len() > 0 && text[0] == '-' {
        match literal_of_text(trimmed(text.skip(1))) {
            Some(lit) => default_of_negated(ty, lit),
            None => None,
        }
    } else {
        None
    }
}

/// The default that the text of a string literal gives a type other
/// than `string`, the white space at its ends taken off before. For an
/// enumeration the text names the variant, and must be an identifier of
/// ASCII characters. For a float it may name a constant. It may be a
/// literal behind a `-`. Else it is read as a literal, which may not be
/// a string again.
pub open spec fn default_of_text(ty: TyView, text: Seq<char>) -> Result<DefaultView, Error> {
    if let TyView::Enumeration(path) = ty {
        if is_identifier(text) {
            Ok(DefaultView::Enumeration { path, variant: Some(text) })
        } else {
            Err(Error::ParseError)
        }
    } else if let Some(constant) = float_constant(ty, text) {
        match path_of_text(constant) {
            Some(p) => Ok(DefaultView::Path(p)),
            None => Err(Error::ParseError),
        }
    } else if let Some(r) = default_of_minus(ty, text) {
        r
    } else {
        match literal_of_text(text) {
            Some(LitView::Str(_)) => Err(Error::ParseError),
            Some(lit) => default_of_literal(ty, lit),
            None => Err(Error::ParseError),
        }
    }
}

/// The default that a literal gives a type.
pub open spec fn default_of(ty: TyView, lit: LitView) -> Result<DefaultView, Error> {
    match lit {
        LitView::Str(s) => if ty is String {
            Ok(DefaultView::String(s))
        } else {
            default_of_text(ty, trimmed(s))
        },
        _ => default_of_literal(ty, lit),
    }
}

/// The literal that writes a default, for the defaults that a literal
/// can write: not a variant of an enumeration, nor a constant.
pub open spec fn literal_of_default(d: DefaultView) -> Option<LitView> {
    match d {
        DefaultView::F64(t) => Some(LitView::Float { digits: t, suffix: "f64"@ }),
        DefaultView::F32(t) => Some(LitView::Float { digits: t, suffix: "f32"@ }),
        DefaultView::I32(v) => Some(LitView::Int { digits: integer_text(v as int), suffix: "i32"@ }),
        DefaultView::I64(v) => Some(LitView::Int { digits: integer_text(v as int), suffix: "i64"@ }),
        DefaultView::U32(v) => Some(LitView::Int { digits: integer_text(v as int), suffix: "u32"@ }),
        DefaultView::U64(v) => Some(LitView::Int { digits: integer_text(v as int), suffix: "u64"@ }),
        DefaultView::Bool(b) => Some(LitView::Bool(b)),
        DefaultView::String(s) => Some(LitView::Str(s)),
        DefaultView::Bytes(b) => Some(LitView::ByteStr(b)),
        DefaultView::Enumeration { .. } => None,
        DefaultView::Path(_) => None,
    }
}

/// Whether a suffix is the expected one or there is none.
fn suffix_ok(expected: &str, actual: &str) -> (r: bool)
    ensures
        r == suffix_fits(expected@, actual@),
{
    str_eq(actual, expected) || actual.is_empty()
}

fn integer_in(text: &str, signed: bool, min: i128, max: i128) -> (r: Option<i128>)
    ensures
        match r {
            Some(v) => integer_within(text@, signed, min as int, max as int) == Some(v as int),
            None => integer_within(text@, signed, min as int, max as int) is None,
        },
{
    match parse_integer(text, signed) {
        Some(v) => if min <= v && v <= max {
            Some(v)
        } else {
            None
        },
        None => None,
    }
}

fn negate_numeral(digits: &str) -> (r: String)
    ensures
        r@ == negated_numeral(digits@),
{
    let cs = to_chars(digits);
    if cs.len() > 0 && cs[0] == '-' {
        skip_chars(digits, 1).to_owned()
    } else {
        proof {
            reveal_strlit("-");
        }
        let body = if cs.len() > 0 && cs[0] == '+' {
            skip_chars(digits, 1)
        } else {
            digits
        };
        let mut out = "-".to_owned();
        out.append(body);
        assert(out@ =~= seq!['-'] + without_sign(digits@));
        out
    }
}

fn float_from_numeral(ty: &Ty, digits: String, suffix: &str) -> (r: Result<DefaultValue, Error>)
    ensures
        viewed(r) == float_of_numeral(ty@, digits@, suffix@),
{
    if matches!(ty, Ty::Float) && suffix_ok("f32", suffix) {
        if is_float_text(digits.as_str()) {
            Ok(DefaultValue::F32(digits))
        } else {
            Err(Error::ParseError)
        }
    } else if matches!(ty, Ty::Double) && suffix_ok("f64", suffix) {
        if is_float_text(digits.as_str()) {
            Ok(DefaultValue::F64(digits))
        } else {
            Err(Error::ParseError)
        }
    } else {
        Err(Error::TypeMismatch)
    }
}

fn float_from_negated(ty: &Ty, digits: &str, suffix: &str) -> (r: Option<Result<DefaultValue, Error>>)
    ensures
        match r {
            Some(res) => float_of_negated(ty@, digits@, suffix@) == Some(viewed(res)),
            None => float_of_negated(ty@, digits@, suffix@) is None,
        },
{
    if matches!(ty, Ty::Float) && suffix_ok("f32", suffix) {
        if is_float_text(digits) {
            Some(Ok(DefaultValue::F32(negate_numeral(digits))))
        } else {
            Some(Err(Error::ParseError))
        }
    } else if matches!(ty, Ty::Double) && suffix_ok("f64", suffix) {
        if is_float_text(digits) {
            Some(Ok(DefaultValue::F64(negate_numeral(digits))))
        } else {
            Some(Err(Error::ParseError))
        }
    } else {
        None
    }
}

fn constant_of(ty: &Ty, text: &str) -> (r: Option<&'static str>)
    ensures
        match r {
            Some(p) => float_constant(ty@, text@) == Some(p@),
            None => float_constant(ty@, text@) is None,
        },
{
    match ty {
        Ty::Float => {
            if eq_ignore_case(text, "inf") {
                Some("::core::f32::INFINITY")
            } else if eq_ignore_case(text, "-inf") {
                Some("::core::f32::NEG_INFINITY")
            } else if eq_ignore_case(text, "nan") {
                Some("::core::f32::NAN")
            } else {
                None
            }
        },
        Ty::Double => {
            if eq_ignore_case(text, "inf") {
                Some("::core::f64::INFINITY")
            } else if eq_ignore_case(text, "-inf") {
                Some("::core::f64::NEG_INFINITY")
            } else if eq_ignore_case(text, "nan") {
                Some("::core::f64::NAN")
            } else {
                None
            }
        },
        _ => None,
    }
}

impl Ty {
    /// Whether values of the type are held in an `i32`.
    pub fn is_i32(&self) -> (r: bool)
        ensures
            r == self@.is_i32(),
    {
        matches!(self, Ty::Int32 | Ty::Sint32 | Ty::Sfixed32)
    }

    /// Whether values of the type are held in an `i64`.
    pub fn is_i64(&self) -> (r: bool)
        ensures
            r == self@.is_i64(),
    {
        matches!(self, Ty::Int64 | Ty::Sint64 | Ty::Sfixed64)
    }

    /// Whether values of the type are held in a `u32`.
    pub fn is_u32(&self) -> (r: bool)
        ensures
            r == self@.is_u32(),
    {
        matches!(self, Ty::Uint32 | Ty::Fixed32)
    }

    /// Whether values of the type are held in a `u64`.
    pub fn is_u64(&self) -> (r: bool)
        ensures
            r == self@.is_u64(),
    {
        matches!(self, Ty::Uint64 | Ty::Fixed64)
    }
}

impl DefaultValue {
    /// Reads the literal of a `default` annotation.
    pub fn from_attr(attr: &Meta) -> (r: Result<Option<Lit>, Error>)
        ensures
            viewed(r) == default_literal_of(attr@),
    {
        if !str_eq(attr.path(), "default") {
            return Ok(None);
        }
        match attr {
            Meta::NameValue { lit, .. } => Ok(Some(lit.clone())),
            _ => Err(Error::InvalidAttribute(Category::Default)),
        }
    }

    /// Resolves the default that a literal gives a type, the literal
    /// taken as it stands.
    pub fn from_literal(ty: &Ty, lit: Lit) -> (r: Result<DefaultValue, Error>)
        ensures
            viewed(r) == default_of_literal(ty@, lit@),
    {
        match lit {
            Lit::Int { digits, suffix } => {
                if ty.is_i32() && suffix_ok("i32", suffix.as_str()) {
                    match integer_in(digits.as_str(), true, -0x8000_0000, 0x7fff_ffff) {
                        Some(v) => Ok(DefaultValue::I32(v as i32)),
                        None => Err(Error::ParseError),
                    }
                } else if ty.is_i64() && suffix_ok("i64", suffix.as_str()) {
                    match integer_in(
                        digits.as_str(),
                        true,
                        -0x8000_0000_0000_0000,
                        0x7fff_ffff_ffff_ffff,
                    ) {
                        Some(v) => Ok(DefaultValue::I64(v as i64)),
                        None => Err(Error::ParseError),
                    }
                } else if ty.is_u32() && suffix_ok("u32", suffix.as_str()) {
                    match integer_in(digits.as_str(), false, 0, 0xffff_ffff) {
                        Some(v) => Ok(DefaultValue::U32(v as u32)),
                        None => Err(Error::ParseError),
                    }
                } else if ty.is_u64() && suffix_ok("u64", suffix.as_str()) {
                    match integer_in(digits.as_str(), false, 0, 0xffff_ffff_ffff_ffff) {
                        Some(v) => Ok(DefaultValue::U64(v as u64)),
                        None => Err(Error::ParseError),
                    }
                } else {
                    float_from_numeral(ty, digits, suffix.as_str())
                }
            },
            Lit::Float { digits, suffix } => float_from_numeral(ty, digits, suffix.as_str()),
            Lit::Bool(b) => if matches!(ty, Ty::Bool) {
                Ok(DefaultValue::Bool(b))
            } else {
                Err(Error::TypeMismatch)
            },
            Lit::Str(s) => if matches!(ty, Ty::String) {
                Ok(DefaultValue::String(s))
            } else {
                Err(Error::TypeMismatch)
            },
            Lit::ByteStr(b) => if matches!(ty, Ty::Bytes) {
                Ok(DefaultValue::Bytes(b))
            } else {
                Err(Error::TypeMismatch)
            },
            Lit::Other => Err(Error::TypeMismatch),
        }
    }

    /// Resolves the default that a `-` in front of a literal gives a
    /// type, where the type takes a negative of that literal.
    pub fn from_negated(ty: &Ty, lit: Lit) -> (r: Option<Result<DefaultValue, Error>>)
        ensures
            match r {
                Some(res) => default_of_negated(ty@, lit@) == Some(viewed(res)),
                None => default_of_negated(ty@, lit@) is None,
            },
    {
        match lit {
            Lit::Int { digits, suffix } => {
                if ty.is_i32() && suffix_ok("i32", suffix.as_str()) {
                    match integer_in(digits.as_str(), true, -0x7fff_ffff, 0x8000_0000) {
                        Some(v) => Some(Ok(DefaultValue::I32((-v) as i32))),
                        None => Some(Err(Error::ParseError)),
                    }
                } else if ty.is_i64() && suffix_ok("i64", suffix.as_str()) {
                    match integer_in(
                        digits.as_str(),
                        true,
                        -0x7fff_ffff_ffff_ffff,
                        0x8000_0000_0000_0000,
                    ) {
                        Some(v) => Some(Ok(DefaultValue::I64((-v) as i64))),
                        None => Some(Err(Error::ParseError)),
                    }
                } else {
                    float_from_negated(ty, digits.as_str(), suffix.as_str())
                }
            },
            Lit::Float { digits, suffix } => float_from_negated(
                ty,
                digits.as_str(),
                suffix.as_str(),
            ),
            _ => None,
        }
    }

    /// Resolves the default that the text of a string literal gives a
    /// type other than `string`. The variant of an enumeration must be an
    /// identifier of ASCII characters. A literal is read from the text
    /// where `Lit::parse` reads one.
    pub fn from_text(ty: &Ty, text: &str) -> (r: Result<DefaultValue, Error>)
        ensures
            viewed(r) == default_of_text(ty@, text@),
    {
        if let Ty::Enumeration(path) = ty {
            if !is_identifier_text(text) {
                return Err(Error::ParseError);
            }
            return Ok(
                DefaultValue::Enumeration { path: path.clone(), variant: Some(text.to_owned()) },
            );
        }
        if let Some(constant) = constant_of(ty, text) {
            return match parse_path(constant) {
                Some(p) => Ok(DefaultValue::Path(p)),
                None => Err(Error::ParseError),
            };
        }
        let cs = to_chars(text);
        if cs.len() > 0 && cs[0] == '-' {
            if let Some(lit) = Lit::parse(trim(skip_chars(text, 1))) {
                if let Some(r) = DefaultValue::from_negated(ty, lit) {
                    return r;
                }
            }
        }
        match Lit::parse(text) {
            Some(Lit::Str(_)) => Err(Error::ParseError),
            Some(lit) => DefaultValue::from_literal(ty, lit),
            None => Err(Error::ParseError),
        }
    }

    /// Resolves the default that a literal gives a type.
    pub fn from_lit(ty: &Ty, lit: Lit) -> (r: Result<DefaultValue, Error>)
        ensures
            viewed(r) == default_of(ty@, lit@),
            r matches Ok(d) ==> d@.fits(ty@) && d@.wf(),
    {
        proof {
            lemma_default_fits(ty@, lit@);
        }
        match lit {
            Lit::Str(s) => {
                if matches!(ty, Ty::String) {
                    Ok(DefaultValue::String(s))
                } else {
                    DefaultValue::from_text(ty, trim(s.as_str()))
                }
            },
            other => DefaultValue::from_literal(ty, other),
        }
    }

    /// The default of a field without a `default` annotation: the zero of
    /// its type.
    pub fn new(ty: &Ty) -> (r: DefaultValue)
        ensures
            r@ == zero_value(ty@),
            r@.fits(ty@),
            r@.wf(),
    {
        proof {
            lemma_zero_is_default(ty@);
        }
        match ty {
            Ty::Float => DefaultValue::F32("0.0".to_owned()),
            Ty::Double => DefaultValue::F64("0.0".to_owned()),
            Ty::Int32 | Ty::Sint32 | Ty::Sfixed32 => DefaultValue::I32(0),
            Ty::Int64 | Ty::Sint64 | Ty::Sfixed64 => DefaultValue::I64(0),
            Ty::Uint32 | Ty::Fixed32 => DefaultValue::U32(0),
            Ty::Uint64 | Ty::Fixed64 => DefaultValue::U64(0),
            Ty::Bool => DefaultValue::Bool(false),
            Ty::String => DefaultValue::String(String::new()),
            Ty::Bytes => DefaultValue::Bytes(Vec::new()),
            Ty::Enumeration(path) => DefaultValue::Enumeration {
                path: path.clone(),
                variant: None,
            },
        }
    }

    /// How the default stands where the field's value is made.
    pub fn owned(&self) -> (r: OwnedExpr)
        ensures
            r == self@.owned(),
    {
        match self {
            DefaultValue::String(value) => if value.as_str().is_empty() {
                OwnedExpr::EmptyString
            } else {
                OwnedExpr::OwnedString
            },
            DefaultValue::Bytes(value) => if value.len() == 0 {
                OwnedExpr::EmptyVec
            } else {
                OwnedExpr::OwnedBytes
            },
            other => OwnedExpr::Typed(other.typed()),
        }
    }

    /// How the default stands where a value is compared.
    pub fn typed(&self) -> (r: TypedExpr)
        ensures
            r == self@.typed(),
    {
        if let DefaultValue::Enumeration { .. } = self {
            TypedExpr::EnumAsI32
        } else {
            TypedExpr::Value
        }
    }

    /// The literal that writes the default, where one can.
    pub fn literal(&self) -> (r: Option<Lit>)
        ensures
            r.deep_view() == literal_of_default(self@),
    {
        match self {
            DefaultValue::F64(t) => Some(Lit::Float { digits: t.clone(), suffix: "f64".to_owned() }),
            DefaultValue::F32(t) => Some(Lit::Float { digits: t.clone(), suffix: "f32".to_owned() }),
            DefaultValue::I32(v) => Some(
                Lit::Int { digits: format_integer(*v as i128), suffix: "i32".to_owned() },
            ),
            DefaultValue::I64(v) => Some(
                Lit::Int { digits: format_integer(*v as i128), suffix: "i64".to_owned() },
            ),
            DefaultValue::U32(v) => Some(
                Lit::Int { digits: format_integer(*v as i128), suffix: "u32".to_owned() },
            ),
            DefaultValue::U64(v) => Some(
                Lit::Int { digits: format_integer(*v as i128), suffix: "u64".to_owned() },
            ),
            DefaultValue::Bool(b) => Some(Lit::Bool(*b)),
            DefaultValue::String(s) => Some(Lit::Str(s.clone())),
            DefaultValue::Bytes(b) => Some(Lit::ByteStr(b.clone())),
            DefaultValue::Enumeration { .. } => None,
            DefaultValue::Path(_) => None,
        }
    }
}

/// A `-` in front of the text of an integer gives that integer with its
/// sign turned, for every value of the type: for the least one too,
/// whose positive the type does not hold.
pub proof fn lemma_minus_turns_the_sign(ty: TyView, v: int)
    ensures
        ty.is_i32() && i32::MIN <= v <= i32::MAX ==> default_of_negated(
            ty,
            LitView::Int { digits: integer_text(-v), suffix: Seq::empty() },
        ) == Some(Ok::<DefaultView, Error>(DefaultView::I32(v as i32))),
        ty.is_i64() && i64::MIN <= v <= i64::MAX ==> default_of_negated(
            ty,
            LitView::Int { digits: integer_text(-v), suffix: Seq::empty() },
        ) == Some(Ok::<DefaultView, Error>(DefaultView::I64(v as i64))),
{
    crate::decimal::lemma_integer_text_reads_back(-v, true);
}

/// Turning the sign of a float numeral gives a float numeral.
pub proof fn lemma_negated_is_numeral(digits: Seq<char>)
    requires
        is_float_numeral(digits),
    ensures
        is_float_numeral(negated_numeral(digits)),
{
    reveal_strlit("inf");
    reveal_strlit("infinity");
    reveal_strlit("nan");
    let body = without_sign(digits);
    assert(body.len() > 0);
    assert(body[0] != '+' && body[0] != '-') by {
        if crate::decimal::is_number(body) {
            reveal_with_fuel(crate::decimal::leading_digits, 2);
        }
    }
    if digits.len() > 0 && digits[0] == '-' {
        assert(without_sign(body) == body);
    } else {
        assert(without_sign(seq!['-'] + body) =~= body);
    }
}

/// A resolved default is of the variant that its type takes, and where
/// it is a float, its numeral writes one.
pub proof fn lemma_default_fits(ty: TyView, lit: LitView)
    ensures
        default_of(ty, lit) matches Ok(d) ==> d.fits(ty) && d.wf(),
{
    if let LitView::Str(s) = lit {
        let text = trimmed(s);
        if let Ok(DefaultView::Path(p)) = default_of(ty, lit) {
            assert(names_constant(ty, text, p));
        }
        if text.len() > 0 && text[0] == '-' {
            match literal_of_text(trimmed(text.skip(1))) {
                Some(LitView::Int { digits, .. }) => if is_float_numeral(digits) {
                    lemma_negated_is_numeral(digits);
                },
                Some(LitView::Float { digits, .. }) => if is_float_numeral(digits) {
                    lemma_negated_is_numeral(digits);
                },
                _ => {},
            }
        }
    }
}

/// The zero of a type is of the variant that the type takes, and where a
/// literal writes it, that literal resolves to it: a field without a
/// default and a field with its zero written out have the same default.
pub proof fn lemma_zero_is_default(ty: TyView)
    ensures
        zero_value(ty).fits(ty),
        zero_value(ty).wf(),
        literal_of_default(zero_value(ty)) matches Some(lit) ==> default_of(ty, lit) == Ok::<
            DefaultView,
            Error,
        >(zero_value(ty)),
{
    crate::decimal::lemma_integer_text_reads_back(0, true);
    crate::decimal::lemma_integer_text_reads_back(0, false);
    lemma_zero_numeral();
}

/// `0.0` writes a float.
proof fn lemma_zero_numeral()
    ensures
        is_float_numeral("0.0"@),
{
    reveal_strlit("0.0");
    let s = "0.0"@;
    assert(without_sign(s) == s);
    assert(s.skip(1) =~= seq!['.', '0']);
    crate::decimal::lemma_leading_digits(s, 1);
    let rest = s.skip(1);
    assert(rest.skip(1) =~= seq!['0']);
    crate::decimal::lemma_leading_digits(rest.skip(1), 1);
    assert(rest.skip(2).len() == 0);
    assert(crate::decimal::is_number(s));
}

/// Writing a resolved default as a literal and resolving that literal
/// gives the same default, for every default that a literal can write:
/// for all but a variant of an enumeration and a constant.
pub proof fn lemma_default_round_trips(ty: TyView, lit: LitView)
    ensures
        default_of(ty, lit) matches Ok(d) ==> match literal_of_default(d) {
            Some(again) => default_of(ty, again) == Ok::<DefaultView, Error>(d),
            None => d is Enumeration || d is Path,
        },
{
    lemma_default_fits(ty, lit);
    if let Ok(d) = default_of(ty, lit) {
        lemma_written_default_resolves(ty, d);
    }
}

/// A default of a type, written as a literal, resolves to itself.
pub proof fn lemma_written_default_resolves(ty: TyView, d: DefaultView)
    requires
        d.fits(ty),
        d.wf(),
    ensures
        literal_of_default(d) matches Some(written) ==> default_of(ty, written) == Ok::<
            DefaultView,
            Error,
        >(d),
{
    match d {
        DefaultView::I32(v) => {
            crate::decimal::lemma_integer_text_reads_back(v as int, true);
        },
        DefaultView::I64(v) => {
            crate::decimal::lemma_integer_text_reads_back(v as int, true);
        },
        DefaultView::U32(v) => {
            crate::decimal::lemma_integer_text_reads_back(v as int, false);
        },
        DefaultView::U64(v) => {
            crate::decimal::lemma_integer_text_reads_back(v as int, false);
        },
        _ => {},
    }
}

} // verus!
