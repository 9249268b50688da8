//! Merging what a field encoded gives back what the field held, wherever
//! the primitives of its codec undo one another. The primitives are not
//! the library's; here they are any two functions, and the law says what
//! the plans add to them.
use crate::codec::{EncodeFn, MergeFn};
use crate::field::{FieldView, KindView};
use crate::ty::Codec;
use vstd::prelude::*;

verus! {

/// What the primitives of one codec do to values of a type `V`. What a
/// field holds is a sequence: one value for a plain or required field,
/// at most one for an optional field, any number for a repeated one.
#[verifier::reject_recursive_types(V)]
pub ghost struct Primitives<V> {
    /// The bytes that a primitive writes for what is held, under a tag,
    /// with the prefix handed to it.
    pub encode: spec_fn(EncodeFn, u32, Seq<u8>, Seq<V>) -> Seq<u8>,
    /// What is held after a primitive has merged bytes into what was
    /// held, with the prefix handed to it.
    pub merge: spec_fn(MergeFn, Seq<u8>, Seq<u8>, Seq<V>) -> Seq<V>,
}

/// The primitive that reads what a primitive writes.
pub open spec fn reader_of(write: EncodeFn) -> MergeFn {
    match write {
        EncodeFn::Encode => MergeFn::Merge,
        EncodeFn::EncodeWithPrefix => MergeFn::MergeWithPrefix,
        EncodeFn::EncodeRepeated => MergeFn::MergeRepeated,
        EncodeFn::EncodePacked => MergeFn::MergeRepeated,
    }
}

impl<V> Primitives<V> {
    /// The primitives undo one another: the reader of a primitive, given
    /// the same prefix, takes from what was written what was held. A
    /// scalar merge puts it in the place of what it is merged into, and a
    /// repeated merge puts it behind. And what is written for a value is
    /// not empty.
    pub open spec fn undo(self) -> bool {
        &&& forall|write: EncodeFn, tag: u32, prefix: Seq<u8>, held: Seq<V>, into: Seq<V>|
            #![trigger (self.merge)(reader_of(write), prefix, (self.encode)(write, tag, prefix, held), into)]
            (self.merge)(reader_of(write), prefix, (self.encode)(write, tag, prefix, held), into)
                == (if reader_of(write) == MergeFn::MergeRepeated {
                into + held
            } else {
                held
            })
        &&& forall|write: EncodeFn, tag: u32, prefix: Seq<u8>, held: Seq<V>|
            held.len() > 0 ==> (#[trigger] (self.encode)(write, tag, prefix, held)).len() > 0
    }
}

impl FieldView {
    /// The prefix that a plan hands on: the field's, or none.
    pub open spec fn handed(self, passes_prefix: bool) -> Seq<u8> {
        if passes_prefix {
            self.amino_prefix
        } else {
            Seq::empty()
        }
    }

    /// Whether what is held is what a field of the kind can hold.
    pub open spec fn can_hold<V>(self, held: Seq<V>) -> bool {
        match self.kind {
            KindView::Plain(_) | KindView::Required(_) => held.len() == 1,
            KindView::Optional(_) => held.len() <= 1,
            KindView::Repeated | KindView::Packed => true,
        }
    }

    /// What a field holds before anything is merged into it: its default
    /// where it is plain or required, nothing otherwise.
    pub open spec fn fresh<V>(self, default: V) -> Seq<V> {
        match self.kind {
            KindView::Plain(_) | KindView::Required(_) => seq![default],
            _ => Seq::empty(),
        }
    }

    /// The bytes that encoding the field writes: what the primitive of
    /// its plan writes where the guard lets the value through, nothing
    /// otherwise.
    pub open spec fn written<V>(self, primitives: Primitives<V>, held: Seq<V>, is_default: bool) -> Seq<
        u8,
    > {
        let plan = self.encode_plan();
        if plan.guard.admits(held.len() > 0, is_default) {
            (primitives.encode)(plan.function, plan.tag, self.handed(plan.passes_prefix), held)
        } else {
            Seq::empty()
        }
    }

    /// What the field holds after the bytes were merged into it: where
    /// there are none, no merge runs.
    pub open spec fn merged<V>(self, primitives: Primitives<V>, bytes: Seq<u8>, into: Seq<V>) -> Seq<
        V,
    > {
        let plan = self.merge_plan();
        if bytes.len() == 0 {
            into
        } else {
            (primitives.merge)(plan.function, self.handed(plan.passes_prefix), bytes, into)
        }
    }

    /// The field is merged by the reader of the primitive that it is
    /// encoded by, with the same prefix.
    pub open spec fn reads_what_it_writes(self) -> bool {
        &&& self.merge_plan().function == reader_of(self.encode_plan().function)
        &&& self.merge_plan().passes_prefix == self.encode_plan().passes_prefix
    }
}

/// Which fields are merged by the reader of the primitive that encodes
/// them: every field whose type is not registered; of the registered, a
/// plain or required field of `bytes`, and an optional or repeated field
/// of any other type. A registered plain or required field of another
/// type is written with its prefix and read without, and a registered
/// optional or repeated field of `bytes` the other way round.
pub proof fn lemma_which_fields_read_what_they_write(field: FieldView)
    ensures
        field.reads_what_it_writes() <==> !field.is_registered() || (if field.ty.codec()
            == Codec::Bytes {
            field.kind is Plain || field.kind is Required
        } else {
            !(field.kind is Plain) && !(field.kind is Required)
        }),
{
}

/// Merging what a field encoded gives back what the field held: the one
/// value of a plain or required field, also where it is the default and
/// nothing was written; the value of an optional field or none, a value
/// that is the default kept apart from none; the values of a repeated
/// field, as many and in their order. It holds where the primitives undo
/// one another and the field is merged by the reader of the primitive
/// that encodes it.
pub proof fn lemma_merge_undoes_encode<V>(
    field: FieldView,
    primitives: Primitives<V>,
    held: Seq<V>,
    default: V,
    is_default: bool,
)
    requires
        primitives.undo(),
        field.reads_what_it_writes(),
        field.can_hold(held),
        field.kind is Plain ==> (is_default <==> held[0] == default),
    ensures
        field.merged(primitives, field.written(primitives, held, is_default), field.fresh(default))
            == held,
{
    let write = field.encode_plan();
    let into = field.fresh(default);
    if write.guard.admits(held.len() > 0, is_default) {
        let prefix = field.handed(write.passes_prefix);
        let bytes = (primitives.encode)(write.function, write.tag, prefix, held);
        let read = (primitives.merge)(reader_of(write.function), prefix, bytes, into);
        if bytes.len() > 0 {
            if reader_of(write.function) == MergeFn::MergeRepeated {
                assert(into + held =~= held);
            }
        } else {
            assert(held.len() == 0);
            assert(into =~= held);
        }
    } else {
        assert(into =~= held);
    }
}

} // verus!
