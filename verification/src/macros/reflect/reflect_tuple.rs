//! Planning of the `Reflect` derive for tuple structs.
use vstd::prelude::*;
use crate::macros::syntax::Field;
use crate::macros::reflect::attributes::{field_accepted, field_kept, ignore_field};
use crate::macros::reflect::{FieldInit, TupleArm, fields_accepted, kept, kept_count, lemma_kept_take_step};

verus! {

/// How `from_reflect` fills the member at position `i`: its default when
/// ignored, otherwise converted from the reflected field at the same position.
pub open spec fn spec_tuple_init(f: Field, i: int) -> FieldInit {
    if field_kept(f) {
        FieldInit::Index(i as usize)
    } else {
        FieldInit::Default
    }
}

/// The member initializers of `from_reflect`, in order.
pub fn from_reflect(fields: &Vec<Field>) -> (r: Vec<FieldInit>)
    requires
        fields_accepted(fields@),
    ensures
        r@.len() == fields@.len(),
        forall|i: int| 0 <= i < r@.len() ==> r@[i] == spec_tuple_init(#[trigger] fields@[i], i),
{
    let mut r: Vec<FieldInit> = Vec::new();
    let mut i: usize = 0;
    while i < fields.len()
        invariant
            i <= fields@.len(),
            fields_accepted(fields@),
            r@.len() == i,
            forall|j: int| 0 <= j < i ==> r@[j] == spec_tuple_init(#[trigger] fields@[j], j),
        decreases fields@.len() - i,
    {
        assert(field_accepted(fields@[i as int]));
        if ignore_field(&fields[i]) {
            r.push(FieldInit::Index(i));
        } else {
            r.push(FieldInit::Default);
        }
        i = i + 1;
    }
    r
}

/// The arms of the lookup by position: index `i` maps to member `i`, for
/// each `i` below the number of kept members. (An ignored member ahead of
/// kept ones shifts which members are reachable.)
pub fn field(fields: &Vec<Field>) -> (r: Vec<TupleArm>)
    requires
        fields_accepted(fields@),
    ensures
        r@.len() == kept(fields@).len(),
        forall|i: int| 0 <= i < r@.len() ==> #[trigger] r@[i] == (TupleArm { index: i as usize, member: i as usize }),
{
    let n = kept_count(fields);
    let mut r: Vec<TupleArm> = Vec::new();
    let mut i: usize = 0;
    while i < n
        invariant
            i <= n,
            r@.len() == i,
            forall|j: int| 0 <= j < i ==> #[trigger] r@[j] == (TupleArm { index: j as usize, member: j as usize }),
        decreases n - i,
    {
        r.push(TupleArm { index: i, member: i });
        i = i + 1;
    }
    r
}

/// The arms of the mutable lookup by position; the same as [`field`].
pub fn field_mut(fields: &Vec<Field>) -> (r: Vec<TupleArm>)
    requires
        fields_accepted(fields@),
    ensures
        r@.len() == kept(fields@).len(),
        forall|i: int| 0 <= i < r@.len() ==> #[trigger] r@[i] == (TupleArm { index: i as usize, member: i as usize }),
{
    field(fields)
}

/// What the `FromReflect` and `ReflectTuple` impls of a tuple struct contain.
pub struct TupleReflectPlan {
    pub ident: String,
    pub from_reflect: Vec<FieldInit>,
    pub field: Vec<TupleArm>,
    pub field_mut: Vec<TupleArm>,
    pub field_len: usize,
}

/// The plan is the one the planners above give for `ident` and `fields`.
pub open spec fn spec_tuple_plan(ident: String, fields: Seq<Field>, p: TupleReflectPlan) -> bool {
    &&& p.ident == ident
    &&& p.from_reflect@.len() == fields.len()
    &&& forall|i: int| 0 <= i < fields.len() ==> p.from_reflect@[i] == spec_tuple_init(#[trigger] fields[i], i)
    &&& p.field@.len() == kept(fields).len()
    &&& forall|i: int| 0 <= i < p.field@.len() ==> #[trigger] p.field@[i] == (TupleArm { index: i as usize, member: i as usize })
    &&& p.field_mut@ == p.field@
    &&& p.field_len == kept(fields).len()
}

/// Plans the `FromReflect` and `ReflectTuple` impls of tuple struct `ident`.
pub fn impl_reflect_tuple(ident: &String, fields: &Vec<Field>) -> (p: TupleReflectPlan)
    requires
        fields_accepted(fields@),
    ensures
        spec_tuple_plan(*ident, fields@, p),
{
    let from_reflect = from_reflect(fields);
    let field = field(fields);
    let field_mut = field_mut(fields);
    let field_len = kept_count(fields);
    let p = TupleReflectPlan { ident: ident.clone(), from_reflect, field, field_mut, field_len };
    assert(p.field_mut@ =~= p.field@);
    p
}

/// No ignored member comes before a kept one.
pub open spec fn ignored_members_trail(fields: Seq<Field>) -> bool {
    forall|i: int, j: int| 0 <= i < j < fields.len() && field_kept(#[trigger] fields[j]) ==> field_kept(
        #[trigger] fields[i],
    )
}

proof fn lemma_kept_prefix_len(fields: Seq<Field>, i: int)
    requires
        ignored_members_trail(fields),
        0 <= i < fields.len(),
        field_kept(fields[i]),
    ensures
        kept(fields).len() > i,
{
    assert forall|m: int| 0 <= m <= i + 1 implies kept(fields.take(m)).len() == m by {
        lemma_kept_prefix_step(fields, i, m);
    }
    let rest = fields.skip(i + 1);
    assert(fields =~= fields.take(i + 1) + rest);
    Seq::filter_distributes_over_add(fields.take(i + 1), rest, |f: Field| field_kept(f));
}

proof fn lemma_kept_prefix_step(fields: Seq<Field>, i: int, m: int)
    requires
        ignored_members_trail(fields),
        0 <= i < fields.len(),
        field_kept(fields[i]),
        0 <= m <= i + 1,
    ensures
        kept(fields.take(m)).len() == m,
    decreases m,
{
    if m == 0 {
        assert(fields.take(0) =~= Seq::<Field>::empty());
        reveal_with_fuel(Seq::<Field>::filter, 1);
    } else {
        lemma_kept_prefix_step(fields, i, m - 1);
        lemma_kept_take_step(fields, m - 1);
        if m - 1 < i {
            assert(field_kept(fields[m - 1]));
        }
    }
}

/// When no ignored member precedes a kept one, the derived `from_reflect`
/// only reads indices that the derived `field` lookup answers. (With an
/// ignored member ahead of a kept one it reads past them.)
pub proof fn lemma_tuple_from_reflect_reads_exposed(ident: String, fields: Seq<Field>, p: TupleReflectPlan)
    requires
        spec_tuple_plan(ident, fields, p),
        ignored_members_trail(fields),
    ensures
        forall|i: int|
            0 <= i < fields.len() && (#[trigger] p.from_reflect@[i]) is Index ==> {
                let k = p.from_reflect@[i]->Index_0;
                k < p.field_len && p.field@[k as int] == (TupleArm { index: k, member: k })
            },
{
    assert forall|i: int|
        0 <= i < fields.len() && (#[trigger] p.from_reflect@[i]) is Index implies {
            let k = p.from_reflect@[i]->Index_0;
            k < p.field_len && p.field@[k as int] == (TupleArm { index: k, member: k })
        } by {
        assert(p.from_reflect@[i] == spec_tuple_init(fields[i], i));
        assert(field_kept(fields[i]));
        lemma_kept_prefix_len(fields, i);
    }
}

} // verus!
