//! What a field does with its value: how it is encoded, merged,
//! measured, cleared, made and shown. Each is a plan that names the
//! primitive to call and the condition to call it on; the primitives
//! themselves belong to the codec of the field's type.
use crate::default_value::{OwnedExpr, TypedExpr};
use crate::field::{Field, FieldView, Kind, KindView};
use crate::ty::{Codec, RustType, Ty};
use vstd::prelude::*;

verus! {

/// The condition on which a field's value is written or counted.
#[derive(Clone, Copy, Debug, PartialEq, Eq, Structural)]
pub enum Guard {
    /// The value is not the field's default.
    NotDefault,
    /// There is a value.
    Present,
    /// Always.
    Always,
}

/// The primitives that write a value.
#[derive(Clone, Copy, Debug, PartialEq, Eq, Structural)]
pub enum EncodeFn {
    Encode,
    EncodeWithPrefix,
    EncodeRepeated,
    EncodePacked,
}

/// How a field is encoded.
#[derive(Clone, Copy, Debug, PartialEq, Eq, Structural)]
pub struct EncodePlan {
    pub codec: Codec,
    pub function: EncodeFn,
    pub tag: u32,
    pub guard: Guard,
    /// Whether the field's prefix is handed to the primitive.
    pub passes_prefix: bool,
}

/// The primitives that read a value.
#[derive(Clone, Copy, Debug, PartialEq, Eq, Structural)]
pub enum MergeFn {
    Merge,
    MergeRepeated,
    MergeWithPrefix,
}

/// What a value is merged into.
#[derive(Clone, Copy, Debug, PartialEq, Eq, Structural)]
pub enum MergeTarget {
    /// The field's value.
    Value,
    /// The value of an optional field, made from the type's default
    /// first where there is none.
    ValueOrDefault,
}

/// How a field is merged.
#[derive(Clone, Copy, Debug, PartialEq, Eq, Structural)]
pub struct MergePlan {
    pub codec: Codec,
    pub function: MergeFn,
    pub target: MergeTarget,
    /// Whether the field's prefix is handed to the primitive.
    pub passes_prefix: bool,
}

/// The primitives that measure a value.
#[derive(Clone, Copy, Debug, PartialEq, Eq, Structural)]
pub enum LenFn {
    EncodedLen,
    EncodedLenRepeated,
    EncodedLenPacked,
}

/// How the encoded length of a field is found.
#[derive(Clone, Copy, Debug, PartialEq, Eq, Structural)]
pub struct LenPlan {
    pub codec: Codec,
    pub function: LenFn,
    pub tag: u32,
    pub guard: Guard,
    /// What is added to the primitive's length for the prefix.
    pub allowance: usize,
}

/// How a field is cleared.
#[derive(Clone, Copy, Debug, PartialEq, Eq, Structural)]
pub enum ClearPlan {
    /// The value is emptied in place.
    Clear,
    /// The default is assigned.
    Assign(TypedExpr),
    /// `None` is assigned.
    AssignNone,
}

/// The value that a field is made with.
#[derive(Clone, Copy, Debug, PartialEq, Eq, Structural)]
pub enum DefaultExpr {
    /// The field's default.
    Value(OwnedExpr),
    /// `None`, the value of an optional field.
    Absent,
    /// `Vec::new()`.
    EmptyVec,
}

/// How one value is shown.
#[derive(Clone, Copy, Debug, PartialEq, Eq, Structural)]
pub enum DebugInner {
    /// By the variant that the number stands for, or by the number where
    /// it stands for none.
    EnumName,
    /// As it is.
    Identity,
}

/// How a field is shown.
#[derive(Clone, Copy, Debug, PartialEq, Eq, Structural)]
pub enum DebugPlan {
    /// The one value.
    Scalar(DebugInner),
    /// `None`, or `Some` of the value of the given type.
    Optional(DebugInner, RustType),
    /// The list of the values of the given type.
    List(DebugInner, RustType),
}

/// The length of the prefix of a registered type with its own length
/// in front.
pub const PREFIX_ALLOWANCE: usize = 5;

impl Guard {
    /// Whether the guard lets a value through: `present` says that there
    /// is a value, `is_default` that it is the field's default.
    pub open spec fn admits(self, present: bool, is_default: bool) -> bool {
        match self {
            Guard::NotDefault => !is_default,
            Guard::Present => present,
            Guard::Always => true,
        }
    }

    /// Decides whether a value is written or counted.
    pub fn lets(self, present: bool, is_default: bool) -> (r: bool)
        ensures
            r == self.admits(present, is_default),
    {
        match self {
            Guard::NotDefault => !is_default,
            Guard::Present => present,
            Guard::Always => true,
        }
    }
}

impl LenPlan {
    /// The encoded length of a value that the primitive measures as
    /// `primitive_len`: nothing where the guard keeps the value out.
    pub open spec fn length(self, present: bool, is_default: bool, primitive_len: int) -> int {
        if self.guard.admits(present, is_default) {
            primitive_len + self.allowance
        } else {
            0
        }
    }

    /// Finds the encoded length of a value from what the primitive
    /// measures.
    pub fn total(&self, present: bool, is_default: bool, primitive_len: usize) -> (r: usize)
        requires
            primitive_len + self.allowance <= usize::MAX,
        ensures
            r == self.length(present, is_default, primitive_len as int),
    {
        if self.guard.lets(present, is_default) {
            primitive_len + self.allowance
        } else {
            0
        }
    }
}

impl FieldView {
    /// How the field is encoded. A plain field is written unless it is
    /// its default, an optional one where it is there, any other always.
    /// A registered plain or required field goes through the primitive
    /// that writes the prefix in front of the value, and hands it the
    /// prefix. An optional field goes through the primitive without.
    pub open spec fn encode_plan(self) -> EncodePlan {
        EncodePlan {
            codec: self.ty.codec(),
            function: match self.kind {
                KindView::Plain(_) | KindView::Required(_) => if self.is_registered() {
                    EncodeFn::EncodeWithPrefix
                } else {
                    EncodeFn::Encode
                },
                KindView::Optional(_) => EncodeFn::Encode,
                KindView::Repeated => EncodeFn::EncodeRepeated,
                KindView::Packed => EncodeFn::EncodePacked,
            },
            tag: self.tag,
            guard: match self.kind {
                KindView::Plain(_) => Guard::NotDefault,
                KindView::Optional(_) => Guard::Present,
                _ => Guard::Always,
            },
            passes_prefix: (self.kind is Plain || self.kind is Required) && self.is_registered(),
        }
    }

    /// Whether the field is merged by the primitive that checks the
    /// prefix: a registered field of `bytes` is.
    pub open spec fn merges_with_prefix(self) -> bool {
        self.is_registered() && self.ty.codec() == Codec::Bytes
    }

    /// How the field is merged. A registered field of `bytes`, of any
    /// kind, goes through the primitive that checks the prefix before it
    /// reads the value, and hands it the prefix. An optional field is
    /// merged into its value, made first where there is none.
    pub open spec fn merge_plan(self) -> MergePlan {
        MergePlan {
            codec: self.ty.codec(),
            function: if self.merges_with_prefix() {
                MergeFn::MergeWithPrefix
            } else {
                match self.kind {
                    KindView::Repeated | KindView::Packed => MergeFn::MergeRepeated,
                    _ => MergeFn::Merge,
                }
            },
            target: if self.kind is Optional {
                MergeTarget::ValueOrDefault
            } else {
                MergeTarget::Value
            },
            passes_prefix: self.merges_with_prefix(),
        }
    }

    /// How the field's encoded length is found. A plain field counts for
    /// nothing where it is its default, an optional one where it is not
    /// there. A registered plain field counts for the allowance more.
    pub open spec fn len_plan(self) -> LenPlan {
        LenPlan {
            codec: self.ty.codec(),
            function: match self.kind {
                KindView::Repeated => LenFn::EncodedLenRepeated,
                KindView::Packed => LenFn::EncodedLenPacked,
                _ => LenFn::EncodedLen,
            },
            tag: self.tag,
            guard: match self.kind {
                KindView::Plain(_) => Guard::NotDefault,
                KindView::Optional(_) => Guard::Present,
                _ => Guard::Always,
            },
            allowance: if self.kind is Plain && self.is_registered() {
                PREFIX_ALLOWANCE
            } else {
                0
            },
        }
    }

    /// How the field is cleared: a plain or required field takes its
    /// default, but a `string` or `bytes` is emptied in place; an
    /// optional field takes `None`; a repeated field is emptied in place.
    pub open spec fn clear_plan(self) -> ClearPlan {
        match self.kind {
            KindView::Plain(d) | KindView::Required(d) => if self.ty.is_numeric() {
                ClearPlan::Assign(d.typed())
            } else {
                ClearPlan::Clear
            },
            KindView::Optional(_) => ClearPlan::AssignNone,
            KindView::Repeated | KindView::Packed => ClearPlan::Clear,
        }
    }

    /// The value that the field is made with.
    pub open spec fn default_expr(self) -> DefaultExpr {
        match self.kind {
            KindView::Plain(d) | KindView::Required(d) => DefaultExpr::Value(d.owned()),
            KindView::Optional(_) => DefaultExpr::Absent,
            KindView::Repeated | KindView::Packed => DefaultExpr::EmptyVec,
        }
    }

    /// How one value of the field is shown.
    pub open spec fn debug_inner(self) -> DebugInner {
        if self.ty is Enumeration {
            DebugInner::EnumName
        } else {
            DebugInner::Identity
        }
    }

    /// How the field is shown.
    pub open spec fn debug_plan(self) -> DebugPlan {
        match self.kind {
            KindView::Plain(_) | KindView::Required(_) => DebugPlan::Scalar(self.debug_inner()),
            KindView::Optional(_) => DebugPlan::Optional(self.debug_inner(), self.ty.owned_type()),
            KindView::Repeated | KindView::Packed => DebugPlan::List(
                self.debug_inner(),
                self.ty.owned_type(),
            ),
        }
    }
}

impl Field {
    /// Whether the field's type is registered under a name.
    pub fn is_registered(&self) -> (r: bool)
        ensures
            r == self@.is_registered(),
    {
        self.amino_prefix.len() > 0
    }

    /// How the field is encoded.
    pub fn encode(&self) -> (r: EncodePlan)
        ensures
            r == self@.encode_plan(),
    {
        let registered = self.is_registered();
        let function = match self.kind {
            Kind::Plain(_) | Kind::Required(_) => {
                if registered {
                    EncodeFn::EncodeWithPrefix
                } else {
                    EncodeFn::Encode
                }
            },
            Kind::Optional(_) => EncodeFn::Encode,
            Kind::Repeated => EncodeFn::EncodeRepeated,
            Kind::Packed => EncodeFn::EncodePacked,
        };
        let (guard, passes_prefix) = match self.kind {
            Kind::Plain(_) => (Guard::NotDefault, registered),
            Kind::Optional(_) => (Guard::Present, false),
            Kind::Required(_) => (Guard::Always, registered),
            Kind::Repeated | Kind::Packed => (Guard::Always, false),
        };
        EncodePlan { codec: self.ty.module(), function, tag: self.tag, guard, passes_prefix }
    }

    /// How a decoded value is merged into the field.
    pub fn merge(&self) -> (r: MergePlan)
        ensures
            r == self@.merge_plan(),
    {
        let codec = self.ty.module();
        let with_prefix = self.is_registered() && matches!(codec, Codec::Bytes);
        let function = if with_prefix {
            MergeFn::MergeWithPrefix
        } else {
            match self.kind {
                Kind::Plain(_) | Kind::Optional(_) | Kind::Required(_) => MergeFn::Merge,
                Kind::Repeated | Kind::Packed => MergeFn::MergeRepeated,
            }
        };
        let target = match self.kind {
            Kind::Plain(_) | Kind::Required(_) | Kind::Repeated | Kind::Packed => MergeTarget::Value,
            Kind::Optional(_) => MergeTarget::ValueOrDefault,
        };
        MergePlan { codec, function, target, passes_prefix: with_prefix }
    }

    /// How the encoded length of the field is found.
    pub fn encoded_len(&self) -> (r: LenPlan)
        ensures
            r == self@.len_plan(),
    {
        let function = match self.kind {
            Kind::Plain(_) | Kind::Optional(_) | Kind::Required(_) => LenFn::EncodedLen,
            Kind::Repeated => LenFn::EncodedLenRepeated,
            Kind::Packed => LenFn::EncodedLenPacked,
        };
        let (guard, allowance) = match self.kind {
            Kind::Plain(_) => (
                Guard::NotDefault,
                if self.is_registered() {
                    PREFIX_ALLOWANCE
                } else {
                    0
                },
            ),
            Kind::Optional(_) => (Guard::Present, 0),
            Kind::Required(_) | Kind::Repeated | Kind::Packed => (Guard::Always, 0),
        };
        LenPlan { codec: self.ty.module(), function, tag: self.tag, guard, allowance }
    }

    /// How the field is cleared.
    pub fn clear(&self) -> (r: ClearPlan)
        ensures
            r == self@.clear_plan(),
    {
        match &self.kind {
            Kind::Plain(default) | Kind::Required(default) => match self.ty {
                Ty::String | Ty::Bytes => ClearPlan::Clear,
                _ => ClearPlan::Assign(default.typed()),
            },
            Kind::Optional(_) => ClearPlan::AssignNone,
            Kind::Repeated | Kind::Packed => ClearPlan::Clear,
        }
    }

    /// The value that the field is made with.
    pub fn default(&self) -> (r: DefaultExpr)
        ensures
            r == self@.default_expr(),
    {
        match &self.kind {
            Kind::Plain(value) | Kind::Required(value) => DefaultExpr::Value(value.owned()),
            Kind::Optional(_) => DefaultExpr::Absent,
            Kind::Repeated | Kind::Packed => DefaultExpr::EmptyVec,
        }
    }

    /// How one value of the field is shown.
    pub fn debug_inner(&self) -> (r: DebugInner)
        ensures
            r == self@.debug_inner(),
    {
        if let Ty::Enumeration(_) = self.ty {
            DebugInner::EnumName
        } else {
            DebugInner::Identity
        }
    }

    /// How the field is shown.
    pub fn debug(&self) -> (r: DebugPlan)
        ensures
            r == self@.debug_plan(),
    {
        let inner = self.debug_inner();
        let inner_ty = self.ty.rust_type();
        match self.kind {
            Kind::Plain(_) | Kind::Required(_) => DebugPlan::Scalar(inner),
            Kind::Optional(_) => DebugPlan::Optional(inner, inner_ty),
            Kind::Repeated | Kind::Packed => DebugPlan::List(inner, inner_ty),
        }
    }
}

/// The methods that a message gets for a field called `ident`.
#[derive(Debug, PartialEq, Eq)]
pub enum Methods {
    /// For a plain or required enumeration: a getter that gives the
    /// variant of the number held, or the default where the number stands
    /// for none; and a setter of this name.
    Enumeration { setter: String },
    /// For an optional enumeration: the same, the getter giving the
    /// default also where no number is held.
    OptionalEnumeration { setter: String },
    /// For a repeated enumeration: a getter that gives the variants of
    /// the numbers held, in order and as they are asked for, leaving out
    /// the numbers that stand for none; and an appender of this name.
    RepeatedEnumeration { pusher: String },
    /// For any other optional field: a getter that gives the value held
    /// or the default, of the given type, by value or by reference.
    OptionalGetter { result: RustType, by_value: bool },
}

/// What [`Methods`] hold.
pub ghost enum MethodsView {
    Enumeration { setter: Seq<char> },
    OptionalEnumeration { setter: Seq<char> },
    RepeatedEnumeration { pusher: Seq<char> },
    OptionalGetter { result: RustType, by_value: bool },
}

impl DeepView for Methods {
    type V = MethodsView;

    open spec fn deep_view(&self) -> MethodsView {
        match self {
            Methods::Enumeration { setter } => MethodsView::Enumeration { setter: setter@ },
            Methods::OptionalEnumeration { setter } => MethodsView::OptionalEnumeration {
                setter: setter@,
            },
            Methods::RepeatedEnumeration { pusher } => MethodsView::RepeatedEnumeration {
                pusher: pusher@,
            },
            Methods::OptionalGetter { result, by_value } => MethodsView::OptionalGetter {
                result: *result,
                by_value: *by_value,
            },
        }
    }
}

impl View for Methods {
    type V = MethodsView;

    open spec fn view(&self) -> MethodsView {
        self.deep_view()
    }
}

impl FieldView {
    /// The methods of a field called `ident`: an enumeration has them
    /// whatever its kind, any other type where the field is optional.
    pub open spec fn methods_plan(self, ident: Seq<char>) -> Option<MethodsView> {
        if self.ty is Enumeration {
            Some(
                match self.kind {
                    KindView::Plain(_) | KindView::Required(_) => MethodsView::Enumeration {
                        setter: "set_"@ + ident,
                    },
                    KindView::Optional(_) => MethodsView::OptionalEnumeration {
                        setter: "set_"@ + ident,
                    },
                    KindView::Repeated | KindView::Packed => MethodsView::RepeatedEnumeration {
                        pusher: "push_"@ + ident,
                    },
                },
            )
        } else if self.kind is Optional {
            Some(
                MethodsView::OptionalGetter {
                    result: self.ty.ref_type(),
                    by_value: self.ty.is_numeric(),
                },
            )
        } else {
            None
        }
    }
}

fn prefixed(prefix: &str, ident: &str) -> (r: String)
    ensures
        r@ == prefix@ + ident@,
{
    let mut out = prefix.to_owned();
    out.append(ident);
    out
}

impl Field {
    /// The methods that a message gets for the field, called `ident`.
    pub fn methods(&self, ident: &str) -> (r: Option<Methods>)
        ensures
            r.deep_view() == self@.methods_plan(ident@),
    {
        if let Ty::Enumeration(_) = self.ty {
            Some(
                match self.kind {
                    Kind::Plain(_) | Kind::Required(_) => Methods::Enumeration {
                        setter: prefixed("set_", ident),
                    },
                    Kind::Optional(_) => Methods::OptionalEnumeration {
                        setter: prefixed("set_", ident),
                    },
                    Kind::Repeated | Kind::Packed => Methods::RepeatedEnumeration {
                        pusher: prefixed("push_", ident),
                    },
                },
            )
        } else if let Kind::Optional(_) = self.kind {
            Some(
                Methods::OptionalGetter {
                    result: self.ty.rust_ref_type(),
                    by_value: self.ty.is_numeric(),
                },
            )
        } else {
            None
        }
    }
}

/// A plain field that holds its default is not written and counts for
/// nothing. With any other value it is written by the scalar primitive
/// of its codec under its tag, and counts for what that primitive
/// measures, and for the allowance more where its type is registered.
pub proof fn lemma_plain_omits_default(field: FieldView, is_default: bool, primitive_len: int)
    requires
        field.kind is Plain,
    ensures
        field.encode_plan().guard.admits(true, is_default) == !is_default,
        field.encode_plan().codec == field.ty.codec(),
        field.encode_plan().tag == field.tag,
        field.encode_plan().function == (if field.is_registered() {
            EncodeFn::EncodeWithPrefix
        } else {
            EncodeFn::Encode
        }),
        field.len_plan().length(true, is_default, primitive_len) == (if is_default {
            0
        } else if field.is_registered() {
            primitive_len + 5
        } else {
            primitive_len
        }),
{
}

/// A field counts for something only where it is written, and is
/// measured by the codec and under the tag that it is written with. None
/// but a plain field that is written with its prefix counts for more
/// than its primitive measures.
pub proof fn lemma_length_follows_encoding(field: FieldView)
    ensures
        field.len_plan().guard == field.encode_plan().guard,
        field.len_plan().codec == field.encode_plan().codec,
        field.len_plan().tag == field.encode_plan().tag,
        field.len_plan().allowance > 0 ==> field.encode_plan().passes_prefix,
        field.len_plan().function == match field.encode_plan().function {
            EncodeFn::EncodeRepeated => LenFn::EncodedLenRepeated,
            EncodeFn::EncodePacked => LenFn::EncodedLenPacked,
            _ => LenFn::EncodedLen,
        },
{
}

/// A field is merged by the codec that it is encoded with. Where the
/// merge is not the one that checks a prefix, a field written value by
/// value or in one run is read by the repeated merge, and any other by
/// the scalar one.
pub proof fn lemma_merge_follows_encoding(field: FieldView)
    ensures
        field.merge_plan().codec == field.encode_plan().codec,
        !field.merges_with_prefix() ==> (field.merge_plan().function == MergeFn::MergeRepeated <==> (
            field.encode_plan().function == EncodeFn::EncodeRepeated
                || field.encode_plan().function == EncodeFn::EncodePacked)),
{
}

/// The prefix is handed to the primitives that take one, and to no
/// other: on encoding to `encode_with_prefix`, on merging to
/// `merge_with_prefix`, which reads every registered field of `bytes`.
pub proof fn lemma_prefix_goes_where_it_is_taken(field: FieldView)
    ensures
        field.encode_plan().passes_prefix <==> field.encode_plan().function
            == EncodeFn::EncodeWithPrefix,
        field.merge_plan().passes_prefix <==> field.merge_plan().function
            == MergeFn::MergeWithPrefix,
        field.merge_plan().function == MergeFn::MergeWithPrefix <==> field.is_registered()
            && field.ty.codec() == Codec::Bytes,
        field.encode_plan().passes_prefix ==> field.is_registered(),
        field.merge_plan().passes_prefix ==> field.is_registered(),
{
}

} // verus!
