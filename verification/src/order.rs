//! The annotations of a field are a set: their order decides nothing
//! about the field that they describe.
use crate::error::{Category, Error};
use crate::field::{annotation_of, descriptor_of, scanned, AnnotationView, AnnotationsView, FieldView};
use crate::meta::MetaView;
use vstd::prelude::*;

verus! {

/// An annotation as it was read, or the reason it was refused for.
pub type Read = Result<AnnotationView, Error>;

impl AnnotationView {
    /// The category of the annotation; none for one of no category.
    pub open spec fn category(self) -> Option<Category> {
        match self {
            AnnotationView::Type(_) => Some(Category::Type),
            AnnotationView::Packed(_) => Some(Category::Packed),
            AnnotationView::Tag(_) => Some(Category::Tag),
            AnnotationView::AminoName(_) => Some(Category::AminoName),
            AnnotationView::Label(_) => Some(Category::Label),
            AnnotationView::Default(_) => Some(Category::Default),
            AnnotationView::Unknown => None,
        }
    }
}

impl AnnotationsView {
    /// The annotation of a category, where there is one.
    pub open spec fn slot(self, category: Category) -> Option<AnnotationView> {
        match category {
            Category::Type => match self.ty {
                Some(t) => Some(AnnotationView::Type(t)),
                None => None,
            },
            Category::Packed => match self.packed {
                Some(b) => Some(AnnotationView::Packed(b)),
                None => None,
            },
            Category::Tag => match self.tag {
                Some(t) => Some(AnnotationView::Tag(t)),
                None => None,
            },
            Category::AminoName => match self.amino_name {
                Some(n) => Some(AnnotationView::AminoName(n)),
                None => None,
            },
            Category::Label => match self.label {
                Some(l) => Some(AnnotationView::Label(l)),
                None => None,
            },
            Category::Default => match self.default {
                Some(d) => Some(AnnotationView::Default(d)),
                None => None,
            },
        }
    }
}

/// The annotations, each one read.
pub open spec fn read(attrs: Seq<MetaView>) -> Seq<Read> {
    Seq::new(attrs.len(), |i: int| annotation_of(attrs[i]))
}

/// The first `n` annotations that were read, by category.
pub open spec fn gathered(items: Seq<Read>, n: nat) -> Result<AnnotationsView, Error>
    decreases n,
{
    if n == 0 {
        Ok(AnnotationsView::empty())
    } else {
        match gathered(items, (n - 1) as nat) {
            Err(e) => Err(e),
            Ok(found) => match items[n - 1] {
                Err(e) => Err(e),
                Ok(a) => found.with(a, (n - 1) as usize),
            },
        }
    }
}

/// To scan annotations is to read each and gather them.
pub proof fn lemma_scan_gathers(attrs: Seq<MetaView>, n: nat)
    requires
        n <= attrs.len(),
    ensures
        scanned(attrs, n) == gathered(read(attrs), n),
    decreases n,
{
    if n > 0 {
        lemma_scan_gathers(attrs, (n - 1) as nat);
    }
}

/// What one more annotation changes: it takes the free place of its
/// category and leaves the others as they are, or it is counted.
proof fn lemma_one_more(before: AnnotationsView, a: AnnotationView, at: usize)
    requires
        before.unknown < usize::MAX,
    ensures
        match a.category() {
            Some(c) => match before.with(a, at) {
                Ok(found) => {
                    &&& before.slot(c) is None
                    &&& found.slot(c) == Some(a)
                    &&& forall|d: Category| d != c ==> #[trigger] found.slot(d) == before.slot(d)
                    &&& found.unknown == before.unknown
                },
                Err(_) => before.slot(c) is Some,
            },
            None => {
                &&& before.with(a, at) matches Ok(found)
                &&& forall|d: Category| #[trigger] found.slot(d) == before.slot(d)
                &&& found.unknown == before.unknown + 1
            },
        },
{
}

/// Every one of the first `n` annotations is read.
pub open spec fn all_read(items: Seq<Read>, n: nat) -> bool {
    forall|i: int| 0 <= i < n ==> (#[trigger] items[i]) is Ok
}

/// `a` is among the first `n` annotations.
pub open spec fn occurs(items: Seq<Read>, n: nat, a: AnnotationView) -> bool {
    exists|i: int| 0 <= i < n && #[trigger] items[i] == Ok::<AnnotationView, Error>(a)
}

/// No two of the first `n` annotations are of one category.
pub open spec fn no_category_twice(items: Seq<Read>, n: nat) -> bool {
    forall|i: int, j: int|
        0 <= i < n && 0 <= j < n && i != j && (#[trigger] items[i]) is Ok && (#[trigger] items[j]) is Ok
            && items[i]->Ok_0.category() is Some ==> items[i]->Ok_0.category()
            != items[j]->Ok_0.category()
}

/// Each of the first `n` annotations is found in its category, or is
/// counted; and what is found is among them.
pub open spec fn holds(items: Seq<Read>, n: nat, found: AnnotationsView) -> bool {
    &&& forall|i: int|
        0 <= i < n ==> match #[trigger] items[i] {
            Ok(a) => match a.category() {
                Some(c) => found.slot(c) == Some(a),
                None => found.unknown > 0,
            },
            Err(_) => false,
        }
    &&& forall|c: Category| #[trigger]
        found.slot(c) is Some ==> occurs(items, n, found.slot(c)->0)
    &&& found.unknown > 0 ==> occurs(items, n, AnnotationView::Unknown)
    &&& found.unknown <= n
}

/// An annotation among the first of them is among them all.
proof fn lemma_occurs_on(items: Seq<Read>, m: nat, n: nat, a: AnnotationView)
    requires
        m <= n,
        occurs(items, m, a),
    ensures
        occurs(items, n, a),
{
    let i = choose|i: int| 0 <= i < m && #[trigger] items[i] == Ok::<AnnotationView, Error>(a);
    assert(0 <= i < n && items[i] == Ok::<AnnotationView, Error>(a));
}

/// What is gathered is what the annotations hold, and no category is
/// gathered twice.
proof fn lemma_gathered_holds(items: Seq<Read>, n: nat)
    requires
        n <= items.len(),
        n <= usize::MAX,
    ensures
        gathered(items, n) matches Ok(found) ==> holds(items, n, found) && no_category_twice(
            items,
            n,
        ),
    decreases n,
{
    if n > 0 {
        let m = (n - 1) as nat;
        lemma_gathered_holds(items, m);
        if let Ok(found) = gathered(items, n) {
            let before = gathered(items, m)->Ok_0;
            let last = items[m as int]->Ok_0;
            lemma_one_more(before, last, m as usize);
            assert(items[m as int] == Ok::<AnnotationView, Error>(last));
            assert forall|c: Category| #[trigger] found.slot(c) is Some implies occurs(
                items,
                n,
                found.slot(c)->0,
            ) by {
                if last.category() == Some(c) {
                    assert(occurs(items, n, last));
                } else {
                    lemma_occurs_on(items, m, n, before.slot(c)->0);
                }
            }
            if found.unknown > 0 {
                if last is Unknown {
                    assert(occurs(items, n, last));
                } else {
                    lemma_occurs_on(items, m, n, AnnotationView::Unknown);
                }
            }
            assert forall|i: int, j: int|
                0 <= i < n && 0 <= j < n && i != j && (#[trigger] items[i]) is Ok && (
                #[trigger] items[j]) is Ok && items[i]->Ok_0.category() is Some implies items[i]->Ok_0.category()
                != items[j]->Ok_0.category() by {
                if i == m {
                    assert(items[j] is Ok);
                } else if j == m {
                    assert(items[i] is Ok);
                }
            }
        }
    }
}

/// Annotations that are all read, no two of one category, are gathered
/// without a refusal.
proof fn lemma_gathering_succeeds(items: Seq<Read>, n: nat)
    requires
        n <= items.len(),
        n <= usize::MAX,
        all_read(items, n),
        no_category_twice(items, n),
    ensures
        gathered(items, n) is Ok,
    decreases n,
{
    if n > 0 {
        let m = (n - 1) as nat;
        lemma_gathering_succeeds(items, m);
        lemma_gathered_holds(items, m);
        let before = gathered(items, m)->Ok_0;
        assert(items[m as int] is Ok);
        let last = items[m as int]->Ok_0;
        lemma_one_more(before, last, m as usize);
        if let Some(c) = last.category() {
            if before.slot(c) is Some {
                let a = before.slot(c)->0;
                let i = choose|i: int|
                    0 <= i < m && #[trigger] items[i] == Ok::<AnnotationView, Error>(a);
                assert(items[i]->Ok_0.category() == Some(c));
                assert(false);
            }
        }
    }
}

/// `b` holds what `a` holds in another order: what is at `i` in `a` is
/// at `to[i]` in `b`, and what is at `j` in `b` is at `back[j]` in `a`.
pub open spec fn rearranged<T>(a: Seq<T>, b: Seq<T>, to: Seq<int>, back: Seq<int>) -> bool {
    &&& a.len() == b.len()
    &&& to.len() == a.len()
    &&& back.len() == a.len()
    &&& forall|i: int|
        0 <= i < a.len() ==> 0 <= #[trigger] to[i] < a.len() && back[to[i]] == i && b[to[i]]
            == a[i]
    &&& forall|j: int|
        0 <= j < a.len() ==> 0 <= #[trigger] back[j] < a.len() && to[back[j]] == j && a[back[j]]
            == b[j]
}

/// What is gathered from annotations is gathered from them in any order,
/// but for the count of those of no category and the place of the first.
proof fn lemma_gathered_in_any_order(a: Seq<Read>, b: Seq<Read>, to: Seq<int>, back: Seq<int>)
    requires
        rearranged(a, b, to, back),
        a.len() <= usize::MAX,
        gathered(a, a.len()) is Ok,
    ensures
        gathered(b, b.len()) matches Ok(found) && {
            let first = gathered(a, a.len())->Ok_0;
            &&& forall|c: Category| #[trigger] found.slot(c) == first.slot(c)
            &&& found.unknown > 0 <==> first.unknown > 0
        },
{
    let n = a.len();
    let first = gathered(a, n)->Ok_0;
    lemma_gathered_holds(a, n);
    assert forall|j: int| 0 <= j < n implies (#[trigger] b[j]) is Ok by {
        assert(a[back[j]] is Ok);
    }
    assert forall|i: int, j: int|
        0 <= i < n && 0 <= j < n && i != j && (#[trigger] b[i]) is Ok && (#[trigger] b[j]) is Ok
            && b[i]->Ok_0.category() is Some implies b[i]->Ok_0.category()
        != b[j]->Ok_0.category() by {
        let p = back[i];
        let q = back[j];
        assert(p != q);
        assert(a[p] == b[i] && a[q] == b[j]);
    }
    lemma_gathering_succeeds(b, n);
    lemma_gathered_holds(b, n);
    let found = gathered(b, n)->Ok_0;
    assert forall|c: Category| #[trigger] found.slot(c) == first.slot(c) by {
        if first.slot(c) is Some {
            let x = first.slot(c)->0;
            let i = choose|i: int| 0 <= i < n && #[trigger] a[i] == Ok::<AnnotationView, Error>(x);
            assert(b[to[i]] == Ok::<AnnotationView, Error>(x));
            assert(x.category() == Some(c));
        } else if found.slot(c) is Some {
            let y = found.slot(c)->0;
            let j = choose|j: int| 0 <= j < n && #[trigger] b[j] == Ok::<AnnotationView, Error>(y);
            assert(a[back[j]] == Ok::<AnnotationView, Error>(y));
            assert(y.category() == Some(c));
        }
    }
    if first.unknown > 0 {
        let i = choose|i: int|
            0 <= i < n && #[trigger] a[i] == Ok::<AnnotationView, Error>(AnnotationView::Unknown);
        assert(b[to[i]] == Ok::<AnnotationView, Error>(AnnotationView::Unknown));
    }
    if found.unknown > 0 {
        let j = choose|j: int|
            0 <= j < n && #[trigger] b[j] == Ok::<AnnotationView, Error>(AnnotationView::Unknown);
        assert(a[back[j]] == Ok::<AnnotationView, Error>(AnnotationView::Unknown));
    }
}

/// Annotations in another order are, each one read, what was read in
/// another order.
proof fn lemma_read_rearranged(a: Seq<MetaView>, b: Seq<MetaView>, to: Seq<int>, back: Seq<int>)
    requires
        rearranged(a, b, to, back),
    ensures
        rearranged(read(a), read(b), to, back),
{
    let x = read(a);
    let y = read(b);
    assert forall|i: int| 0 <= i < x.len() implies 0 <= #[trigger] to[i] < x.len() && back[to[i]]
        == i && y[to[i]] == x[i] by {
        assert(b[to[i]] == a[i]);
    }
    assert forall|j: int| 0 <= j < x.len() implies 0 <= #[trigger] back[j] < x.len()
        && to[back[j]] == j && x[back[j]] == y[j] by {
        assert(a[back[j]] == b[j]);
    }
}

/// Two gatherings with the same annotation in every category hold the
/// same in every field but the count and the place of what is unknown.
proof fn lemma_same_slots(x: AnnotationsView, y: AnnotationsView)
    requires
        forall|c: Category| #[trigger] x.slot(c) == y.slot(c),
    ensures
        x.ty == y.ty,
        x.label == y.label,
        x.packed == y.packed,
        x.default == y.default,
        x.tag == y.tag,
        x.amino_name == y.amino_name,
{
    assert(x.slot(Category::Type) == y.slot(Category::Type));
    assert(x.slot(Category::Packed) == y.slot(Category::Packed));
    assert(x.slot(Category::Tag) == y.slot(Category::Tag));
    assert(x.slot(Category::AminoName) == y.slot(Category::AminoName));
    assert(x.slot(Category::Label) == y.slot(Category::Label));
    assert(x.slot(Category::Default) == y.slot(Category::Default));
}

/// The order of the annotations decides nothing about the field: in any
/// order they describe the same field, or no field, or are refused. Only
/// the reason of a refusal may be another, for it goes by the first
/// annotation that is refused.
pub proof fn lemma_order_decides_nothing(
    a: Seq<MetaView>,
    b: Seq<MetaView>,
    to: Seq<int>,
    back: Seq<int>,
    inferred_tag: Option<u32>,
    prefix: Seq<u8>,
)
    requires
        rearranged(a, b, to, back),
        a.len() <= usize::MAX,
    ensures
        match descriptor_of(a, inferred_tag, prefix) {
            Ok(field) => descriptor_of(b, inferred_tag, prefix) == Ok::<Option<FieldView>, Error>(
                field,
            ),
            Err(_) => descriptor_of(b, inferred_tag, prefix) is Err,
        },
{
    lemma_scan_gathers(a, a.len());
    lemma_scan_gathers(b, b.len());
    lemma_read_rearranged(a, b, to, back);
    if scanned(a, a.len()) is Ok {
        lemma_gathered_in_any_order(read(a), read(b), to, back);
        lemma_same_slots(scanned(a, a.len())->Ok_0, scanned(b, b.len())->Ok_0);
    } else if scanned(b, b.len()) is Ok {
        assert(rearranged(read(b), read(a), back, to));
        lemma_gathered_in_any_order(read(b), read(a), back, to);
    }
}

} // verus!
