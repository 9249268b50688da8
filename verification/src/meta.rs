//! The annotations of one field, and the readers of each category but the
//! type marker and the default, which stand with their types.
use crate::decimal::{integer_value, parse_integer};
use crate::error::{Category, Error};
use crate::literal::{Lit, LitView};
use crate::text::str_eq;
use vstd::prelude::*;

verus! {

/// An item inside the parentheses of a list annotation.
#[derive(Debug, PartialEq, Eq)]
pub enum NestedMeta {
    /// A bare path: its segments with `::` between them.
    Path(String),
    /// A literal.
    Lit(Lit),
    /// An annotation that is more than a path.
    Other,
}

/// What a [`NestedMeta`] holds.
pub ghost enum NestedMetaView {
    Path(Seq<char>),
    Lit(LitView),
    Other,
}

impl DeepView for NestedMeta {
    type V = NestedMetaView;

    open spec fn deep_view(&self) -> NestedMetaView {
        match self {
            NestedMeta::Path(p) => NestedMetaView::Path(p@),
            NestedMeta::Lit(l) => NestedMetaView::Lit(l@),
            NestedMeta::Other => NestedMetaView::Other,
        }
    }
}

impl View for NestedMeta {
    type V = NestedMetaView;

    open spec fn view(&self) -> NestedMetaView {
        self.deep_view()
    }
}

/// One annotation of a field. Every path is held as its segments with
/// `::` between them, so that a path of one identifier is that
/// identifier.
#[derive(Debug, PartialEq, Eq)]
pub enum Meta {
    /// A bare path, such as `int32`.
    Path(String),
    /// A path with items in parentheses, such as `enumeration(Kind)`.
    List { path: String, nested: Vec<NestedMeta> },
    /// A path with a literal, such as `tag = 3`.
    NameValue { path: String, lit: Lit },
}

/// What a [`Meta`] holds.
pub ghost enum MetaView {
    Path(Seq<char>),
    List { path: Seq<char>, nested: Seq<NestedMetaView> },
    NameValue { path: Seq<char>, lit: LitView },
}

impl MetaView {
    /// The path that the annotation begins with.
    pub open spec fn path(self) -> Seq<char> {
        match self {
            MetaView::Path(p) => p,
            MetaView::List { path, .. } => path,
            MetaView::NameValue { path, .. } => path,
        }
    }
}

impl DeepView for Meta {
    type V = MetaView;

    open spec fn deep_view(&self) -> MetaView {
        match self {
            Meta::Path(p) => MetaView::Path(p@),
            Meta::List { path, nested } => MetaView::List {
                path: path@,
                nested: nested.deep_view(),
            },
            Meta::NameValue { path, lit } => MetaView::NameValue { path: path@, lit: lit@ },
        }
    }
}

impl View for Meta {
    type V = MetaView;

    open spec fn view(&self) -> MetaView {
        self.deep_view()
    }
}

impl Clone for NestedMeta {
    fn clone(&self) -> (r: Self)
        ensures
            r@ == self@,
    {
        match self {
            NestedMeta::Path(p) => NestedMeta::Path(p.clone()),
            NestedMeta::Lit(l) => NestedMeta::Lit(l.clone()),
            NestedMeta::Other => NestedMeta::Other,
        }
    }
}

impl Clone for Meta {
    fn clone(&self) -> (r: Self)
        ensures
            r@ == self@,
    {
        match self {
            Meta::Path(p) => Meta::Path(p.clone()),
            Meta::List { path, nested } => {
                let mut items: Vec<NestedMeta> = Vec::new();
                let mut i: usize = 0;
                while i < nested.len()
                    invariant
                        i <= nested@.len(),
                        items@.len() == i,
                        forall|k: int| 0 <= k < i ==> items@[k]@ == nested@[k]@,
                    decreases nested.len() - i,
                {
                    items.push(nested[i].clone());
                    i = i + 1;
                }
                assert(items.deep_view() =~= nested.deep_view());
                Meta::List { path: path.clone(), nested: items }
            },
            Meta::NameValue { path, lit } => Meta::NameValue {
                path: path.clone(),
                lit: lit.clone(),
            },
        }
    }
}

impl Meta {
    /// The path that the annotation begins with.
    pub fn path(&self) -> (r: &str)
        ensures
            r@ == self@.path(),
    {
        match self {
            Meta::Path(p) => p.as_str(),
            Meta::List { path, .. } => path.as_str(),
            Meta::NameValue { path, .. } => path.as_str(),
        }
    }
}

/// A result with its value taken by its view.
pub open spec fn viewed<T: DeepView>(r: Result<T, Error>) -> Result<T::V, Error> {
    match r {
        Ok(t) => Ok(t.deep_view()),
        Err(e) => Err(e),
    }
}

/// The cardinality that a label gives a field.
#[derive(Clone, Copy, Debug, PartialEq, Eq, Structural)]
pub enum Label {
    /// At most one value, with its presence kept.
    Optional,
    /// Exactly one value.
    Required,
    /// Any number of values.
    Repeated,
}

/// The label that an annotation is, if it is one: the bare word
/// `optional`, `required` or `repeated`.
pub open spec fn label_of(attr: MetaView) -> Option<Label> {
    match attr {
        MetaView::Path(p) => if p == "optional"@ {
            Some(Label::Optional)
        } else if p == "required"@ {
            Some(Label::Required)
        } else if p == "repeated"@ {
            Some(Label::Repeated)
        } else {
            None
        },
        _ => None,
    }
}

impl Label {
    /// Reads a label from an annotation that is one.
    pub fn from_attr(attr: &Meta) -> (r: Option<Label>)
        ensures
            r == label_of(attr@),
    {
        match attr {
            Meta::Path(p) => {
                if str_eq(p.as_str(), "optional") {
                    Some(Label::Optional)
                } else if str_eq(p.as_str(), "required") {
                    Some(Label::Required)
                } else if str_eq(p.as_str(), "repeated") {
                    Some(Label::Repeated)
                } else {
                    None
                }
            },
            _ => None,
        }
    }
}

/// The item of a list that holds exactly one.
pub open spec fn only_item(nested: Seq<NestedMetaView>) -> Option<NestedMetaView> {
    if nested.len() == 1 {
        Some(nested[0])
    } else {
        None
    }
}

/// The boolean that `text` spells.
pub open spec fn bool_of_text(text: Seq<char>) -> Option<bool> {
    if text == "true"@ {
        Some(true)
    } else if text == "false"@ {
        Some(false)
    } else {
        None
    }
}

/// What a `packed` annotation says. The bare word says `true`; so does
/// `packed(true)`, `packed = true` and `packed = "true"`, and the same
/// with `false`. Any other shape is refused.
pub open spec fn packed_of(attr: MetaView) -> Result<Option<bool>, Error> {
    if attr.path() != "packed"@ {
        Ok(None)
    } else {
        match attr {
            MetaView::Path(_) => Ok(Some(true)),
            MetaView::List { nested, .. } => match only_item(nested) {
                Some(NestedMetaView::Lit(LitView::Bool(b))) => Ok(Some(b)),
                _ => Err(Error::InvalidAttribute(Category::Packed)),
            },
            MetaView::NameValue { lit: LitView::Str(s), .. } => match bool_of_text(s) {
                Some(b) => Ok(Some(b)),
                None => Err(Error::ParseError),
            },
            MetaView::NameValue { lit: LitView::Bool(b), .. } => Ok(Some(b)),
            MetaView::NameValue { .. } => Err(Error::InvalidAttribute(Category::Packed)),
        }
    }
}

/// Reads a `packed` annotation.
pub fn packed_attr(attr: &Meta) -> (r: Result<Option<bool>, Error>)
    ensures
        r == packed_of(attr@),
{
    if !str_eq(attr.path(), "packed") {
        return Ok(None);
    }
    match attr {
        Meta::Path(_) => Ok(Some(true)),
        Meta::List { nested, .. } => {
            if nested.len() == 1 {
                if let NestedMeta::Lit(Lit::Bool(b)) = &nested[0] {
                    return Ok(Some(*b));
                }
            }
            Err(Error::InvalidAttribute(Category::Packed))
        },
        Meta::NameValue { lit: Lit::Str(s), .. } => {
            if str_eq(s.as_str(), "true") {
                Ok(Some(true))
            } else if str_eq(s.as_str(), "false") {
                Ok(Some(false))
            } else {
                Err(Error::ParseError)
            }
        },
        Meta::NameValue { lit: Lit::Bool(b), .. } => Ok(Some(*b)),
        Meta::NameValue { .. } => Err(Error::InvalidAttribute(Category::Packed)),
    }
}

/// The tag that `text` writes: an unsigned integer of 32 bits.
pub open spec fn tag_of_text(text: Seq<char>) -> Result<Option<u32>, Error> {
    match integer_value(text, false) {
        Some(v) => if v <= u32::MAX {
            Ok(Some(v as u32))
        } else {
            Err(Error::ParseError)
        },
        None => Err(Error::ParseError),
    }
}

/// What a `tag` annotation says: `tag(3)`, `tag = 3` or `tag = "3"`. Any
/// other shape is refused, and so is a number that is no tag.
pub open spec fn tag_of(attr: MetaView) -> Result<Option<u32>, Error> {
    if attr.path() != "tag"@ {
        Ok(None)
    } else {
        match attr {
            MetaView::List { nested, .. } => match only_item(nested) {
                Some(NestedMetaView::Lit(LitView::Int { digits, .. })) => tag_of_text(digits),
                _ => Err(Error::InvalidAttribute(Category::Tag)),
            },
            MetaView::NameValue { lit: LitView::Str(s), .. } => tag_of_text(s),
            MetaView::NameValue { lit: LitView::Int { digits, .. }, .. } => tag_of_text(digits),
            _ => Err(Error::InvalidAttribute(Category::Tag)),
        }
    }
}

fn parse_tag(text: &str) -> (r: Result<Option<u32>, Error>)
    ensures
        r == tag_of_text(text@),
{
    match parse_integer(text, false) {
        Some(v) => {
            if 0 <= v && v <= 0xffff_ffff {
                Ok(Some(v as u32))
            } else {
                proof {
                    crate::decimal::lemma_unsigned_is_not_negative(text@);
                }
                Err(Error::ParseError)
            }
        },
        None => {
            proof {
                crate::decimal::lemma_unsigned_is_not_negative(text@);
            }
            Err(Error::ParseError)
        },
    }
}

/// Reads a `tag` annotation.
pub fn tag_attr(attr: &Meta) -> (r: Result<Option<u32>, Error>)
    ensures
        r == tag_of(attr@),
{
    if !str_eq(attr.path(), "tag") {
        return Ok(None);
    }
    match attr {
        Meta::List { nested, .. } => {
            if nested.len() == 1 {
                if let NestedMeta::Lit(Lit::Int { digits, .. }) = &nested[0] {
                    return parse_tag(digits.as_str());
                }
            }
            Err(Error::InvalidAttribute(Category::Tag))
        },
        Meta::NameValue { lit: Lit::Str(s), .. } => parse_tag(s.as_str()),
        Meta::NameValue { lit: Lit::Int { digits, .. }, .. } => parse_tag(digits.as_str()),
        _ => Err(Error::InvalidAttribute(Category::Tag)),
    }
}

/// What an `amino_name` annotation says: the name in `amino_name = ".."`.
/// Any other shape is refused.
pub open spec fn amino_name_of(attr: MetaView) -> Result<Option<Seq<char>>, Error> {
    if attr.path() != "amino_name"@ {
        Ok(None)
    } else {
        match attr {
            MetaView::NameValue { lit: LitView::Str(s), .. } => Ok(Some(s)),
            _ => Err(Error::InvalidAttribute(Category::AminoName)),
        }
    }
}

/// Reads an `amino_name` annotation.
pub fn amino_name_attr(attr: &Meta) -> (r: Result<Option<String>, Error>)
    ensures
        viewed(r) == amino_name_of(attr@),
{
    if !str_eq(attr.path(), "amino_name") {
        return Ok(None);
    }
    match attr {
        Meta::NameValue { lit: Lit::Str(s), .. } => Ok(Some(s.clone())),
        _ => Err(Error::InvalidAttribute(Category::AminoName)),
    }
}

/// Keeps the first value of a category and refuses a second one.
pub fn set_option<T>(option: &mut Option<T>, value: T, category: Category) -> (r: Result<(), Error>)
    ensures
        *old(option) is Some ==> r == Err::<(), Error>(Error::DuplicateAttribute(category))
            && *final(option) == *old(option),
        *old(option) is None ==> r is Ok && *final(option) == Some(value),
{
    if option.is_some() {
        return Err(Error::DuplicateAttribute(category));
    }
    *option = Some(value);
    Ok(())
}

} // verus!
