//! The errors of descriptor construction and default resolution.
use vstd::prelude::*;

verus! {

/// The categories of annotation that a scalar field understands.
#[derive(Clone, Copy, Debug, PartialEq, Eq, Structural)]
pub enum Category {
    /// The scalar type marker (`int32`, `string`, `enumeration = ".."`, ...).
    Type,
    /// `packed`.
    Packed,
    /// `tag`.
    Tag,
    /// `amino_name`, the name a type is registered under.
    AminoName,
    /// `optional`, `required` or `repeated`.
    Label,
    /// `default`.
    Default,
}

/// Why a `packed` annotation is refused.
#[derive(Clone, Copy, Debug, PartialEq, Eq, Structural)]
pub enum PackedError {
    /// `packed` was set on a field that is not repeated.
    NotRepeated,
    /// `packed` was set on a repeated field of `string` or `bytes`.
    NotNumeric,
}

/// Which annotation keeps a scalar field out of a one-of group.
#[derive(Clone, Copy, Debug, PartialEq, Eq, Structural)]
pub enum OneofError {
    /// The field is `optional`.
    Optional,
    /// The field is `required`.
    Required,
    /// The field is `repeated`, packed or not.
    Repeated,
}

/// Everything that can go wrong while a field descriptor is built.
#[derive(Clone, Copy, Debug, PartialEq, Eq, Structural)]
pub enum Error {
    /// A category of annotation occurs a second time.
    DuplicateAttribute(Category),
    /// Annotations that belong to no category: the position of the first one
    /// and how many there are.
    UnknownAttribute { first: usize, count: usize },
    /// Neither a `tag` annotation nor an inferred tag.
    MissingTag,
    /// `packed` where it cannot apply.
    InvalidPacked(PackedError),
    /// A repeated field with a `default` annotation.
    RepeatedWithDefault,
    /// A field that cannot be an alternative of a one-of group.
    InvalidOneofField(OneofError),
    /// A default literal of a kind that the field's type does not admit.
    TypeMismatch,
    /// Text that does not parse, or a number out of the type's range.
    ParseError,
    /// An annotation of a known category in a shape that category does not have.
    InvalidAttribute(Category),
    /// Text that names no scalar type.
    InvalidType,
}

} // verus!
