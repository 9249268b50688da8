//! The descriptor of a scalar field, and its construction from the
//! field's annotations.
use crate::default_value::{default_of, zero_value, DefaultValue, DefaultView};
use crate::error::{Category, Error, OneofError, PackedError};
use crate::literal::{Lit, LitView};
use crate::meta::{
    amino_name_attr, amino_name_of, label_of, packed_attr, packed_of, set_option, tag_attr, tag_of,
    viewed, Label, Meta, MetaView,
};
use crate::ty::{ty_of_attr, Ty, TyView};
use vstd::prelude::*;

verus! {

/// How many values a field holds, and with which default.
#[derive(Debug, PartialEq, Eq)]
pub enum Kind {
    /// One value, left out of the encoding where it is the default.
    Plain(DefaultValue),
    /// A value or none.
    Optional(DefaultValue),
    /// One value, always encoded.
    Required(DefaultValue),
    /// Any number of values, each encoded by itself.
    Repeated,
    /// Any number of values, encoded in one run.
    Packed,
}

/// What a [`Kind`] holds.
pub ghost enum KindView {
    Plain(DefaultView),
    Optional(DefaultView),
    Required(DefaultView),
    Repeated,
    Packed,
}

impl DeepView for Kind {
    type V = KindView;

    open spec fn deep_view(&self) -> KindView {
        match self {
            Kind::Plain(d) => KindView::Plain(d@),
            Kind::Optional(d) => KindView::Optional(d@),
            Kind::Required(d) => KindView::Required(d@),
            Kind::Repeated => KindView::Repeated,
            Kind::Packed => KindView::Packed,
        }
    }
}

impl View for Kind {
    type V = KindView;

    open spec fn view(&self) -> KindView {
        self.deep_view()
    }
}

impl Clone for Kind {
    fn clone(&self) -> (r: Self)
        ensures
            r@ == self@,
    {
        match self {
            Kind::Plain(d) => Kind::Plain(d.clone()),
            Kind::Optional(d) => Kind::Optional(d.clone()),
            Kind::Required(d) => Kind::Required(d.clone()),
            Kind::Repeated => Kind::Repeated,
            Kind::Packed => Kind::Packed,
        }
    }
}

impl KindView {
    /// The default that the kind carries, if it carries one.
    pub open spec fn default(self) -> Option<DefaultView> {
        match self {
            KindView::Plain(d) => Some(d),
            KindView::Optional(d) => Some(d),
            KindView::Required(d) => Some(d),
            KindView::Repeated => None,
            KindView::Packed => None,
        }
    }
}

/// A scalar field.
#[derive(Debug, PartialEq, Eq)]
pub struct Field {
    pub ty: Ty,
    pub kind: Kind,
    pub tag: u32,
    /// The prefix of the name that the field's type is registered under;
    /// empty where it is registered under none.
    pub amino_prefix: Vec<u8>,
}

/// What a [`Field`] holds.
pub ghost struct FieldView {
    pub ty: TyView,
    pub kind: KindView,
    pub tag: u32,
    pub amino_prefix: Seq<u8>,
}

impl DeepView for Field {
    type V = FieldView;

    open spec fn deep_view(&self) -> FieldView {
        FieldView {
            ty: self.ty@,
            kind: self.kind@,
            tag: self.tag,
            amino_prefix: self.amino_prefix@,
        }
    }
}

impl View for Field {
    type V = FieldView;

    open spec fn view(&self) -> FieldView {
        self.deep_view()
    }
}

impl Clone for Field {
    fn clone(&self) -> (r: Self)
        ensures
            r@ == self@,
    {
        Field {
            ty: self.ty.clone(),
            kind: self.kind.clone(),
            tag: self.tag,
            amino_prefix: self.amino_prefix.clone(),
        }
    }
}

impl FieldView {
    /// A packed field is numeric, and a default is of the variant that
    /// the field's type takes: a float held by a numeral that writes one,
    /// a variant of an enumeration by an identifier.
    pub open spec fn wf(self) -> bool {
        &&& self.kind is Packed ==> self.ty.is_numeric()
        &&& self.kind.default() matches Some(d) ==> d.fits(self.ty) && d.wf()
    }

    /// Whether the field's type is registered under a name.
    pub open spec fn is_registered(self) -> bool {
        self.amino_prefix.len() > 0
    }
}

/// One annotation, read.
#[derive(Debug, PartialEq, Eq)]
pub enum Annotation {
    Type(Ty),
    Packed(bool),
    Tag(u32),
    AminoName(String),
    Label(Label),
    Default(Lit),
    /// An annotation of no category.
    Unknown,
}

/// What an [`Annotation`] holds.
pub ghost enum AnnotationView {
    Type(TyView),
    Packed(bool),
    Tag(u32),
    AminoName(Seq<char>),
    Label(Label),
    Default(LitView),
    Unknown,
}

impl DeepView for Annotation {
    type V = AnnotationView;

    open spec fn deep_view(&self) -> AnnotationView {
        match self {
            Annotation::Type(t) => AnnotationView::Type(t@),
            Annotation::Packed(b) => AnnotationView::Packed(*b),
            Annotation::Tag(t) => AnnotationView::Tag(*t),
            Annotation::AminoName(n) => AnnotationView::AminoName(n@),
            Annotation::Label(l) => AnnotationView::Label(*l),
            Annotation::Default(l) => AnnotationView::Default(l@),
            Annotation::Unknown => AnnotationView::Unknown,
        }
    }
}

impl View for Annotation {
    type V = AnnotationView;

    open spec fn view(&self) -> AnnotationView {
        self.deep_view()
    }
}

/// What an annotation says. The categories are tried in one order: type,
/// `packed`, `tag`, `amino_name`, label, `default`. The first that the
/// annotation belongs to reads it, or refuses its shape.
pub open spec fn annotation_of(attr: MetaView) -> Result<AnnotationView, Error> {
    match ty_of_attr(attr) {
        Err(e) => Err(e),
        Ok(Some(ty)) => Ok(AnnotationView::Type(ty)),
        Ok(None) => match packed_of(attr) {
            Err(e) => Err(e),
            Ok(Some(b)) => Ok(AnnotationView::Packed(b)),
            Ok(None) => match tag_of(attr) {
                Err(e) => Err(e),
                Ok(Some(t)) => Ok(AnnotationView::Tag(t)),
                Ok(None) => match amino_name_of(attr) {
                    Err(e) => Err(e),
                    Ok(Some(n)) => Ok(AnnotationView::AminoName(n)),
                    Ok(None) => match label_of(attr) {
                        Some(l) => Ok(AnnotationView::Label(l)),
                        None => match crate::default_value::default_literal_of(attr) {
                            Err(e) => Err(e),
                            Ok(Some(lit)) => Ok(AnnotationView::Default(lit)),
                            Ok(None) => Ok(AnnotationView::Unknown),
                        },
                    },
                },
            },
        },
    }
}

impl Annotation {
    /// Reads one annotation.
    pub fn from_attr(attr: &Meta) -> (r: Result<Annotation, Error>)
        ensures
            viewed(r) == annotation_of(attr@),
    {
        if let Some(t) = Ty::from_attr(attr)? {
            Ok(Annotation::Type(t))
        } else if let Some(p) = packed_attr(attr)? {
            Ok(Annotation::Packed(p))
        } else if let Some(t) = tag_attr(attr)? {
            Ok(Annotation::Tag(t))
        } else if let Some(n) = amino_name_attr(attr)? {
            Ok(Annotation::AminoName(n))
        } else if let Some(l) = Label::from_attr(attr) {
            Ok(Annotation::Label(l))
        } else if let Some(d) = DefaultValue::from_attr(attr)? {
            Ok(Annotation::Default(d))
        } else {
            Ok(Annotation::Unknown)
        }
    }
}

/// The annotations of one field, by category.
#[derive(Debug, PartialEq, Eq)]
pub struct Annotations {
    pub ty: Option<Ty>,
    pub label: Option<Label>,
    pub packed: Option<bool>,
    pub default: Option<Lit>,
    pub tag: Option<u32>,
    pub amino_name: Option<String>,
    /// How many annotations belong to no category.
    pub unknown: usize,
    /// The position of the first of them, where there is one.
    pub first_unknown: usize,
}

/// What [`Annotations`] hold.
pub ghost struct AnnotationsView {
    pub ty: Option<TyView>,
    pub label: Option<Label>,
    pub packed: Option<bool>,
    pub default: Option<LitView>,
    pub tag: Option<u32>,
    pub amino_name: Option<Seq<char>>,
    pub unknown: usize,
    pub first_unknown: usize,
}

impl DeepView for Annotations {
    type V = AnnotationsView;

    open spec fn deep_view(&self) -> AnnotationsView {
        AnnotationsView {
            ty: self.ty.deep_view(),
            label: self.label,
            packed: self.packed,
            default: self.default.deep_view(),
            tag: self.tag,
            amino_name: self.amino_name.deep_view(),
            unknown: self.unknown,
            first_unknown: self.first_unknown,
        }
    }
}

impl View for Annotations {
    type V = AnnotationsView;

    open spec fn view(&self) -> AnnotationsView {
        self.deep_view()
    }
}

impl AnnotationsView {
    /// No annotation at all.
    pub open spec fn empty() -> AnnotationsView {
        AnnotationsView {
            ty: None,
            label: None,
            packed: None,
            default: None,
            tag: None,
            amino_name: None,
            unknown: 0,
            first_unknown: 0,
        }
    }

    /// These annotations and one more, found at position `at`. A second
    /// annotation of a category is refused; one of no category is counted.
    pub open spec fn with(self, a: AnnotationView, at: usize) -> Result<AnnotationsView, Error> {
        match a {
            AnnotationView::Type(t) => if self.ty is Some {
                Err(Error::DuplicateAttribute(Category::Type))
            } else {
                Ok(AnnotationsView { ty: Some(t), ..self })
            },
            AnnotationView::Packed(b) => if self.packed is Some {
                Err(Error::DuplicateAttribute(Category::Packed))
            } else {
                Ok(AnnotationsView { packed: Some(b), ..self })
            },
            AnnotationView::Tag(t) => if self.tag is Some {
                Err(Error::DuplicateAttribute(Category::Tag))
            } else {
                Ok(AnnotationsView { tag: Some(t), ..self })
            },
            AnnotationView::AminoName(n) => if self.amino_name is Some {
                Err(Error::DuplicateAttribute(Category::AminoName))
            } else {
                Ok(AnnotationsView { amino_name: Some(n), ..self })
            },
            AnnotationView::Label(l) => if self.label is Some {
                Err(Error::DuplicateAttribute(Category::Label))
            } else {
                Ok(AnnotationsView { label: Some(l), ..self })
            },
            AnnotationView::Default(d) => if self.default is Some {
                Err(Error::DuplicateAttribute(Category::Default))
            } else {
                Ok(AnnotationsView { default: Some(d), ..self })
            },
            AnnotationView::Unknown => Ok(
                AnnotationsView {
                    unknown: (self.unknown + 1) as usize,
                    first_unknown: if self.unknown == 0 {
                        at
                    } else {
                        self.first_unknown
                    },
                    ..self
                },
            ),
        }
    }
}

/// The first `n` annotations of a field, by category: read one after the
/// other, up to the first that is refused.
pub open spec fn scanned(attrs: Seq<MetaView>, n: nat) -> Result<AnnotationsView, Error>
    decreases n,
{
    if n == 0 {
        Ok(AnnotationsView::empty())
    } else {
        match scanned(attrs, (n - 1) as nat) {
            Err(e) => Err(e),
            Ok(found) => match annotation_of(attrs[n - 1]) {
                Err(e) => Err(e),
                Ok(a) => found.with(a, (n - 1) as usize),
            },
        }
    }
}

/// Once an annotation is refused, what follows it changes nothing.
pub proof fn lemma_refusal_stays(attrs: Seq<MetaView>, k: nat, n: nat)
    requires
        k <= n,
        scanned(attrs, k) is Err,
    ensures
        scanned(attrs, n) == scanned(attrs, k),
    decreases n,
{
    if k < n {
        lemma_refusal_stays(attrs, k, (n - 1) as nat);
    }
}

/// No more annotations are counted than were read.
pub proof fn lemma_unknown_counted(attrs: Seq<MetaView>, n: nat)
    requires
        n <= usize::MAX,
    ensures
        scanned(attrs, n) matches Ok(found) ==> found.unknown <= n,
    decreases n,
{
    if n > 0 {
        lemma_unknown_counted(attrs, (n - 1) as nat);
    }
}

impl Annotations {
    /// Reads the annotations of a field.
    pub fn scan(attrs: &[Meta]) -> (r: Result<Annotations, Error>)
        ensures
            viewed(r) == scanned(attrs.deep_view(), attrs@.len()),
    {
        let mut found = Annotations {
            ty: None,
            label: None,
            packed: None,
            default: None,
            tag: None,
            amino_name: None,
            unknown: 0,
            first_unknown: 0,
        };
        let ghost all = attrs.deep_view();
        let mut i: usize = 0;
        while i < attrs.len()
            invariant
                i <= attrs@.len(),
                all == attrs.deep_view(),
                scanned(all, i as nat) == Ok::<AnnotationsView, Error>(found@),
            decreases attrs.len() - i,
        {
            proof {
                lemma_unknown_counted(all, i as nat);
                assert(all[i as int] == attrs@[i as int]@);
            }
            let step: Result<(), Error> = match Annotation::from_attr(&attrs[i]) {
                Err(e) => Err(e),
                Ok(Annotation::Type(t)) => set_option(&mut found.ty, t, Category::Type),
                Ok(Annotation::Packed(p)) => set_option(&mut found.packed, p, Category::Packed),
                Ok(Annotation::Tag(t)) => set_option(&mut found.tag, t, Category::Tag),
                Ok(Annotation::AminoName(n)) => set_option(
                    &mut found.amino_name,
                    n,
                    Category::AminoName,
                ),
                Ok(Annotation::Label(l)) => set_option(&mut found.label, l, Category::Label),
                Ok(Annotation::Default(d)) => set_option(&mut found.default, d, Category::Default),
                Ok(Annotation::Unknown) => {
                    if found.unknown == 0 {
                        found.first_unknown = i;
                    }
                    found.unknown = found.unknown + 1;
                    Ok(())
                },
            };
            if let Err(e) = step {
                proof {
                    assert(scanned(all, (i + 1) as nat) == Err::<AnnotationsView, Error>(e));
                    lemma_refusal_stays(all, (i + 1) as nat, attrs@.len());
                }
                return Err(e);
            }
            i = i + 1;
        }
        Ok(found)
    }
}

/// The kind that a label, a `packed` annotation and a default give a
/// field of a type. `packed` may be set on a repeated field of a numeric
/// type only, and a repeated field has no default. Without `packed`, a
/// repeated field is packed where its type is numeric.
pub open spec fn kind_of(
    ty: TyView,
    label: Option<Label>,
    packed: Option<bool>,
    has_default: bool,
    default: DefaultView,
) -> Result<KindView, Error> {
    if packed == Some(true) && label != Some(Label::Repeated) {
        Err(Error::InvalidPacked(PackedError::NotRepeated))
    } else if packed == Some(true) && !ty.is_numeric() {
        Err(Error::InvalidPacked(PackedError::NotNumeric))
    } else if label == Some(Label::Repeated) && has_default {
        Err(Error::RepeatedWithDefault)
    } else {
        match label {
            None => Ok(KindView::Plain(default)),
            Some(Label::Optional) => Ok(KindView::Optional(default)),
            Some(Label::Required) => Ok(KindView::Required(default)),
            Some(Label::Repeated) => if packed == Some(true) || (packed is None && ty.is_numeric()) {
                Ok(KindView::Packed)
            } else {
                Ok(KindView::Repeated)
            },
        }
    }
}

/// The tag of a field: the one annotated, else the one inferred.
pub open spec fn effective_tag(annotated: Option<u32>, inferred: Option<u32>) -> Option<u32> {
    if annotated is Some {
        annotated
    } else {
        inferred
    }
}

/// The default of a field of a type: the one that the annotated literal
/// gives the type, else the zero of the type.
pub open spec fn resolved_default(ty: TyView, annotated: Option<LitView>) -> Result<
    DefaultView,
    Error,
> {
    match annotated {
        Some(lit) => default_of(ty, lit),
        None => Ok(zero_value(ty)),
    }
}

/// The field that annotations describe, with the prefix that its name
/// is registered with; no field where no annotation marks a type. With a
/// type, an annotation of no category is refused, then a missing tag,
/// then a default that does not resolve, then a kind that cannot be.
pub open spec fn field_of(found: AnnotationsView, inferred_tag: Option<u32>, prefix: Seq<u8>) -> Result<
    Option<FieldView>,
    Error,
> {
    match found.ty {
        None => Ok(None),
        Some(ty) => {
            if found.unknown > 0 {
                Err(Error::UnknownAttribute { first: found.first_unknown, count: found.unknown })
            } else {
                match effective_tag(found.tag, inferred_tag) {
                    None => Err(Error::MissingTag),
                    Some(tag) => match resolved_default(ty, found.default) {
                        Err(e) => Err(e),
                        Ok(default) => match kind_of(
                            ty,
                            found.label,
                            found.packed,
                            found.default is Some,
                            default,
                        ) {
                            Err(e) => Err(e),
                            Ok(kind) => Ok(Some(FieldView { ty, kind, tag, amino_prefix: prefix })),
                        },
                    },
                }
            }
        },
    }
}

/// The field that the annotations of a field describe.
pub open spec fn descriptor_of(attrs: Seq<MetaView>, inferred_tag: Option<u32>, prefix: Seq<u8>) -> Result<
    Option<FieldView>,
    Error,
> {
    match scanned(attrs, attrs.len()) {
        Err(e) => Err(e),
        Ok(found) => field_of(found, inferred_tag, prefix),
    }
}

/// The name that the annotations register the field's type under.
pub open spec fn registered_name(attrs: Seq<MetaView>) -> Option<Seq<char>> {
    match scanned(attrs, attrs.len()) {
        Err(_) => None,
        Ok(found) => found.amino_name,
    }
}

/// A prefix is the one that the service gave for the name; without a
/// name it is empty.
pub open spec fn prefix_resolved<F: Fn(&str) -> (Vec<u8>, Vec<u8>)>(
    name: Option<Seq<char>>,
    disfix: F,
    prefix: Seq<u8>,
) -> bool {
    match name {
        None => prefix.len() == 0,
        Some(n) => exists|s: &str, disamb: Vec<u8>, bytes: Vec<u8>|
            s@ == n && bytes@ == prefix && #[trigger] call_ensures(disfix, (s,), (disamb, bytes)),
    }
}

/// Resolves the prefix of a registered name. `disfix` is the service
/// that gives the disambiguation bytes and the prefix bytes of a name;
/// only the prefix is kept.
pub fn resolve_prefix<F: Fn(&str) -> (Vec<u8>, Vec<u8>)>(name: Option<&String>, disfix: F) -> (r: Vec<
    u8,
>)
    requires
        forall|n: &str| call_requires(disfix, (n,)),
    ensures
        prefix_resolved(name.deep_view(), disfix, r@),
{
    match name {
        None => Vec::new(),
        Some(n) => {
            let s = n.as_str();
            let (disamb, prefix) = disfix(s);
            assert(call_ensures(disfix, (s,), (disamb, prefix)));
            prefix
        },
    }
}

/// The field as an alternative of a one-of group: a plain field becomes
/// required, and a field of any other kind is refused.
pub open spec fn oneof_of(field: FieldView) -> Result<FieldView, Error> {
    match field.kind {
        KindView::Plain(d) => Ok(FieldView { kind: KindView::Required(d), ..field }),
        KindView::Optional(_) => Err(Error::InvalidOneofField(OneofError::Optional)),
        KindView::Required(_) => Err(Error::InvalidOneofField(OneofError::Required)),
        KindView::Repeated => Err(Error::InvalidOneofField(OneofError::Repeated)),
        KindView::Packed => Err(Error::InvalidOneofField(OneofError::Repeated)),
    }
}

/// The alternative of a one-of group that annotations describe.
pub open spec fn oneof_descriptor_of(attrs: Seq<MetaView>, prefix: Seq<u8>) -> Result<
    Option<FieldView>,
    Error,
> {
    match descriptor_of(attrs, None, prefix) {
        Err(e) => Err(e),
        Ok(None) => Ok(None),
        Ok(Some(field)) => match oneof_of(field) {
            Err(e) => Err(e),
            Ok(promoted) => Ok(Some(promoted)),
        },
    }
}

/// `packed` set on a field gives a packed field where the field is
/// repeated, of a numeric type and without a default, and is refused
/// anywhere else.
pub proof fn lemma_packed_is_for_repeated_numbers(
    ty: TyView,
    label: Option<Label>,
    has_default: bool,
    default: DefaultView,
)
    ensures
        kind_of(ty, label, Some(true), has_default, default) == (if label != Some(Label::Repeated) {
            Err::<KindView, Error>(Error::InvalidPacked(PackedError::NotRepeated))
        } else if !ty.is_numeric() {
            Err(Error::InvalidPacked(PackedError::NotNumeric))
        } else if has_default {
            Err(Error::RepeatedWithDefault)
        } else {
            Ok(KindView::Packed)
        }),
{
}

/// Only a plain field becomes an alternative of a one-of group, and it
/// becomes a required field that is the same in all else. A field of
/// any other kind is refused as no alternative.
pub proof fn lemma_only_plain_is_promoted(field: FieldView)
    ensures
        oneof_of(field) is Ok <==> field.kind is Plain,
        oneof_of(field) matches Ok(promoted) ==> {
            &&& promoted.kind == KindView::Required(field.kind->Plain_0)
            &&& promoted.ty == field.ty
            &&& promoted.tag == field.tag
            &&& promoted.amino_prefix == field.amino_prefix
            &&& field.wf() ==> promoted.wf()
        },
        oneof_of(field) matches Err(e) ==> e is InvalidOneofField,
{
}

/// A field that was built is well formed.
pub proof fn lemma_built_is_well_formed(
    found: AnnotationsView,
    inferred_tag: Option<u32>,
    prefix: Seq<u8>,
)
    ensures
        field_of(found, inferred_tag, prefix) matches Ok(Some(field)) ==> field.wf(),
{
    if let Some(ty) = found.ty {
        if let Some(lit) = found.default {
            crate::default_value::lemma_default_fits(ty, lit);
        } else {
            crate::default_value::lemma_zero_is_default(ty);
        }
    }
}

/// The prefix decides nothing but itself: with another prefix the same
/// annotations are refused for the same reason, or describe the same
/// field but for its prefix.
pub proof fn lemma_prefix_decides_nothing(
    attrs: Seq<MetaView>,
    inferred_tag: Option<u32>,
    p: Seq<u8>,
    q: Seq<u8>,
)
    ensures
        match descriptor_of(attrs, inferred_tag, p) {
            Err(e) => descriptor_of(attrs, inferred_tag, q) == Err::<Option<FieldView>, Error>(e),
            Ok(None) => descriptor_of(attrs, inferred_tag, q) == Ok::<Option<FieldView>, Error>(
                None,
            ),
            Ok(Some(field)) => descriptor_of(attrs, inferred_tag, q) == Ok::<
                Option<FieldView>,
                Error,
            >(Some(FieldView { amino_prefix: q, ..field })),
        },
{
}

impl Field {
    /// Builds the descriptor of a field from its annotations, or none
    /// where no annotation marks a scalar type. `inferred_tag` is the tag
    /// of a field without a `tag` annotation, and `disfix` the service
    /// that gives the prefix of a registered name.
    pub fn new<F: Fn(&str) -> (Vec<u8>, Vec<u8>)>(
        attrs: &[Meta],
        inferred_tag: Option<u32>,
        disfix: F,
    ) -> (r: Result<Option<Field>, Error>)
        requires
            forall|n: &str| call_requires(disfix, (n,)),
        ensures
            match r {
                Ok(Some(field)) => {
                    &&& descriptor_of(attrs.deep_view(), inferred_tag, field.amino_prefix@) == Ok::<
                        Option<FieldView>,
                        Error,
                    >(Some(field@))
                    &&& prefix_resolved(
                        registered_name(attrs.deep_view()),
                        disfix,
                        field.amino_prefix@,
                    )
                    &&& field@.wf()
                },
                Ok(None) => descriptor_of(attrs.deep_view(), inferred_tag, Seq::empty()) == Ok::<
                    Option<FieldView>,
                    Error,
                >(None),
                Err(e) => descriptor_of(attrs.deep_view(), inferred_tag, Seq::empty()) == Err::<
                    Option<FieldView>,
                    Error,
                >(e),
            },
    {
        let found = Annotations::scan(attrs)?;
        let ghost seen = found@;
        let Annotations { ty, label, packed, default, tag, amino_name, unknown, first_unknown } =
            found;
        let ty = match ty {
            Some(ty) => ty,
            None => return Ok(None),
        };
        if unknown > 0 {
            return Err(Error::UnknownAttribute { first: first_unknown, count: unknown });
        }
        let tag = match tag {
            Some(tag) => tag,
            None => match inferred_tag {
                Some(tag) => tag,
                None => return Err(Error::MissingTag),
            },
        };
        let has_default = default.is_some();
        let default = match default {
            Some(lit) => DefaultValue::from_lit(&ty, lit)?,
            None => DefaultValue::new(&ty),
        };
        let numeric = ty.is_numeric();
        let kind = match (label, packed) {
            (None, Some(true)) | (Some(Label::Optional), Some(true)) | (
                Some(Label::Required),
                Some(true),
            ) => {
                return Err(Error::InvalidPacked(PackedError::NotRepeated));
            },
            (Some(Label::Repeated), Some(true)) if !numeric => {
                return Err(Error::InvalidPacked(PackedError::NotNumeric));
            },
            (Some(Label::Repeated), _) if has_default => {
                return Err(Error::RepeatedWithDefault);
            },
            (None, _) => Kind::Plain(default),
            (Some(Label::Optional), _) => Kind::Optional(default),
            (Some(Label::Required), _) => Kind::Required(default),
            (Some(Label::Repeated), packed) => {
                let run = match packed {
                    Some(p) => p,
                    None => numeric,
                };
                if run {
                    Kind::Packed
                } else {
                    Kind::Repeated
                }
            },
        };
        let amino_prefix = resolve_prefix(amino_name.as_ref(), disfix);
        proof {
            lemma_built_is_well_formed(seen, inferred_tag, amino_prefix@);
        }
        Ok(Some(Field { ty, kind, tag, amino_prefix }))
    }

    /// Makes the field an alternative of a one-of group.
    pub fn into_oneof(self) -> (r: Result<Field, Error>)
        ensures
            viewed(r) == oneof_of(self@),
            self@.wf() ==> (r matches Ok(field) ==> field@.wf()),
    {
        let Field { ty, kind, tag, amino_prefix } = self;
        match kind {
            Kind::Plain(default) => Ok(Field { ty, kind: Kind::Required(default), tag, amino_prefix }),
            Kind::Optional(_) => Err(Error::InvalidOneofField(OneofError::Optional)),
            Kind::Required(_) => Err(Error::InvalidOneofField(OneofError::Required)),
            Kind::Packed | Kind::Repeated => Err(Error::InvalidOneofField(OneofError::Repeated)),
        }
    }

    /// Builds the descriptor of an alternative of a one-of group from its
    /// annotations. Its tag must be annotated.
    pub fn new_oneof<F: Fn(&str) -> (Vec<u8>, Vec<u8>)>(attrs: &[Meta], disfix: F) -> (r: Result<
        Option<Field>,
        Error,
    >)
        requires
            forall|n: &str| call_requires(disfix, (n,)),
        ensures
            match r {
                Ok(Some(field)) => {
                    &&& oneof_descriptor_of(attrs.deep_view(), field.amino_prefix@) == Ok::<
                        Option<FieldView>,
                        Error,
                    >(Some(field@))
                    &&& prefix_resolved(
                        registered_name(attrs.deep_view()),
                        disfix,
                        field.amino_prefix@,
                    )
                    &&& field@.wf()
                    &&& field@.kind is Required
                },
                Ok(None) => oneof_descriptor_of(attrs.deep_view(), Seq::empty()) == Ok::<
                    Option<FieldView>,
                    Error,
                >(None),
                Err(e) => oneof_descriptor_of(attrs.deep_view(), Seq::empty()) == Err::<
                    Option<FieldView>,
                    Error,
                >(e),
            },
    {
        match Field::new(attrs, None, disfix) {
            Err(e) => Err(e),
            Ok(None) => Ok(None),
            Ok(Some(field)) => {
                proof {
                    lemma_prefix_decides_nothing(
                        attrs.deep_view(),
                        None,
                        field.amino_prefix@,
                        Seq::empty(),
                    );
                }
                match field.into_oneof() {
                    Err(e) => Err(e),
                    Ok(promoted) => Ok(Some(promoted)),
                }
            },
        }
    }
}

} // verus!
