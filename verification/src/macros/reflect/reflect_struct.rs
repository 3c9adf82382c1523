//! Planning of the `Reflect` derive for structs with named fields.
use vstd::prelude::*;
use crate::macros::syntax::Field;
use crate::macros::reflect::attributes::{field_accepted, field_kept, ignore_field};
use crate::macros::reflect::{
    FieldInit, IndexArm, IndexName, NameArm, NamedInit, fields_accepted, fields_named, ident_of,
    kept, kept_idents,
};

verus! {

/// How `from_reflect` fills field `f`: ignored fields get their default,
/// the others are converted from the reflected field of the same name.
pub open spec fn spec_struct_init(f: Field) -> NamedInit {
    NamedInit {
        ident: ident_of(f),
        init: if field_kept(f) {
            FieldInit::Named(ident_of(f))
        } else {
            FieldInit::Default
        },
    }
}

/// The initializers of `from_reflect`, one per field in declaration order.
pub fn from_reflect(fields: &Vec<Field>) -> (r: Vec<NamedInit>)
    requires
        fields_accepted(fields@),
        fields_named(fields@),
    ensures
        r@.len() == fields@.len(),
        forall|i: int| 0 <= i < r@.len() ==> r@[i] == spec_struct_init(#[trigger] fields@[i]),
{
    let mut r: Vec<NamedInit> = Vec::new();
    let mut i: usize = 0;
    while i < fields.len()
        invariant
            i <= fields@.len(),
            fields_accepted(fields@),
            fields_named(fields@),
            r@.len() == i,
            forall|j: int| 0 <= j < i ==> r@[j] == spec_struct_init(#[trigger] fields@[j]),
        decreases fields@.len() - i,
    {
        let f = &fields[i];
        assert(field_accepted(fields@[i as int]));
        assert(f.ident is Some);
        let ident = match &f.ident {
            Some(s) => s.clone(),
            None => String::new(),
        };
        let init = if ignore_field(f) {
            FieldInit::Named(ident.clone())
        } else {
            FieldInit::Default
        };
        r.push(NamedInit { ident, init });
        i = i + 1;
    }
    r
}

/// The arms of the lookup by name: one per kept field, its name mapped to it.
pub fn field(fields: &Vec<Field>) -> (r: Vec<NameArm>)
    requires
        fields_accepted(fields@),
        fields_named(fields@),
    ensures
        r@.len() == kept(fields@).len(),
        forall|i: int|
            0 <= i < r@.len() ==> r@[i] == (NameArm {
                name: ident_of(#[trigger] kept(fields@)[i]),
                ident: ident_of(kept(fields@)[i]),
            }),
{
    let idents = kept_idents(fields);
    let mut r: Vec<NameArm> = Vec::new();
    let mut i: usize = 0;
    while i < idents.len()
        invariant
            i <= idents@.len(),
            idents@.len() == kept(fields@).len(),
            forall|j: int| 0 <= j < idents@.len() ==> idents@[j] == ident_of(#[trigger] kept(fields@)[j]),
            r@.len() == i,
            forall|j: int|
                0 <= j < i ==> r@[j] == (NameArm {
                    name: ident_of(#[trigger] kept(fields@)[j]),
                    ident: ident_of(kept(fields@)[j]),
                }),
        decreases idents@.len() - i,
    {
        let s = &idents[i];
        r.push(NameArm { name: s.clone(), ident: s.clone() });
        i = i + 1;
    }
    r
}

/// The arms of the mutable lookup by name; the same as [`field`].
pub fn field_mut(fields: &Vec<Field>) -> (r: Vec<NameArm>)
    requires
        fields_accepted(fields@),
        fields_named(fields@),
    ensures
        r@.len() == kept(fields@).len(),
        forall|i: int|
            0 <= i < r@.len() ==> r@[i] == (NameArm {
                name: ident_of(#[trigger] kept(fields@)[i]),
                ident: ident_of(kept(fields@)[i]),
            }),
{
    field(fields)
}

/// The arms of the lookup by position: the `i`-th kept field at index `i`.
pub fn field_at(fields: &Vec<Field>) -> (r: Vec<IndexArm>)
    requires
        fields_accepted(fields@),
        fields_named(fields@),
    ensures
        r@.len() == kept(fields@).len(),
        forall|i: int|
            0 <= i < r@.len() ==> r@[i] == (IndexArm {
                index: i as usize,
                ident: ident_of(#[trigger] kept(fields@)[i]),
            }),
{
    let idents = kept_idents(fields);
    let mut r: Vec<IndexArm> = Vec::new();
    let mut i: usize = 0;
    while i < idents.len()
        invariant
            i <= idents@.len(),
            idents@.len() == kept(fields@).len(),
            forall|j: int| 0 <= j < idents@.len() ==> idents@[j] == ident_of(#[trigger] kept(fields@)[j]),
            r@.len() == i,
            forall|j: int|
                0 <= j < i ==> r@[j] == (IndexArm {
                    index: j as usize,
                    ident: ident_of(#[trigger] kept(fields@)[j]),
                }),
        decreases idents@.len() - i,
    {
        r.push(IndexArm { index: i, ident: idents[i].clone() });
        i = i + 1;
    }
    r
}

/// The arms of the mutable lookup by position; the same as [`field_at`].
pub fn field_at_mut(fields: &Vec<Field>) -> (r: Vec<IndexArm>)
    requires
        fields_accepted(fields@),
        fields_named(fields@),
    ensures
        r@.len() == kept(fields@).len(),
        forall|i: int|
            0 <= i < r@.len() ==> r@[i] == (IndexArm {
                index: i as usize,
                ident: ident_of(#[trigger] kept(fields@)[i]),
            }),
{
    field_at(fields)
}

/// The arms giving the name of the field at each position.
pub fn name_at(fields: &Vec<Field>) -> (r: Vec<IndexName>)
    requires
        fields_accepted(fields@),
        fields_named(fields@),
    ensures
        r@.len() == kept(fields@).len(),
        forall|i: int|
            0 <= i < r@.len() ==> r@[i] == (IndexName {
                index: i as usize,
                name: ident_of(#[trigger] kept(fields@)[i]),
            }),
{
    let idents = kept_idents(fields);
    let mut r: Vec<IndexName> = Vec::new();
    let mut i: usize = 0;
    while i < idents.len()
        invariant
            i <= idents@.len(),
            idents@.len() == kept(fields@).len(),
            forall|j: int| 0 <= j < idents@.len() ==> idents@[j] == ident_of(#[trigger] kept(fields@)[j]),
            r@.len() == i,
            forall|j: int|
                0 <= j < i ==> r@[j] == (IndexName {
                    index: j as usize,
                    name: ident_of(#[trigger] kept(fields@)[j]),
                }),
        decreases idents@.len() - i,
    {
        r.push(IndexName { index: i, name: idents[i].clone() });
        i = i + 1;
    }
    r
}

/// The number of reflected fields: the kept ones.
pub fn field_len(fields: &Vec<Field>) -> (n: usize)
    requires
        fields_accepted(fields@),
    ensures
        n == kept(fields@).len(),
{
    crate::macros::reflect::kept_count(fields)
}

/// What the `FromReflect` and `ReflectStruct` impls of a struct contain.
pub struct StructReflectPlan {
    pub ident: String,
    pub from_reflect: Vec<NamedInit>,
    pub field: Vec<NameArm>,
    pub field_mut: Vec<NameArm>,
    pub field_at: Vec<IndexArm>,
    pub field_at_mut: Vec<IndexArm>,
    pub name_at: Vec<IndexName>,
    pub field_len: usize,
}

/// The plan is the one the planners above give for `ident` and `fields`.
pub open spec fn spec_struct_plan(ident: String, fields: Seq<Field>, p: StructReflectPlan) -> bool {
    let k = kept(fields);
    &&& p.ident == ident
    &&& p.from_reflect@.len() == fields.len()
    &&& forall|i: int| 0 <= i < fields.len() ==> p.from_reflect@[i] == spec_struct_init(#[trigger] fields[i])
    &&& p.field@.len() == k.len()
    &&& p.field_mut@ == p.field@
    &&& p.field_at@.len() == k.len()
    &&& p.field_at_mut@ == p.field_at@
    &&& p.name_at@.len() == k.len()
    &&& forall|i: int|
        0 <= i < k.len() ==> {
            &&& p.field@[i] == (NameArm { name: ident_of(#[trigger] k[i]), ident: ident_of(k[i]) })
            &&& p.field_at@[i] == (IndexArm { index: i as usize, ident: ident_of(k[i]) })
            &&& p.name_at@[i] == (IndexName { index: i as usize, name: ident_of(k[i]) })
        }
    &&& p.field_len == k.len()
}

/// Plans the `FromReflect` and `ReflectStruct` impls of struct `ident`.
pub fn impl_reflect_struct(ident: &String, fields: &Vec<Field>) -> (p: StructReflectPlan)
    requires
        fields_accepted(fields@),
        fields_named(fields@),
    ensures
        spec_struct_plan(*ident, fields@, p),
{
    let from_reflect = from_reflect(fields);
    let field = field(fields);
    let field_mut = field_mut(fields);
    let field_at = field_at(fields);
    let field_at_mut = field_at_mut(fields);
    let name_at = name_at(fields);
    let field_len = field_len(fields);
    let p = StructReflectPlan {
        ident: ident.clone(),
        from_reflect,
        field,
        field_mut,
        field_at,
        field_at_mut,
        name_at,
        field_len,
    };
    assert forall|i: int| 0 <= i < kept(fields@).len() implies p.field_mut@[i] == p.field@[i]
        && p.field_at_mut@[i] == p.field_at@[i] by {
        let _ = kept(fields@)[i];
    }
    assert(p.field_mut@ =~= p.field@);
    assert(p.field_at_mut@ =~= p.field_at@);
    p
}

/// In a derived `ReflectStruct` impl the three lookups agree: below
/// `field_len`, `field_at(i)` returns the field that `name_at(i)` names and
/// that `field` returns for that name.
pub proof fn lemma_struct_lookups_agree(ident: String, fields: Seq<Field>, p: StructReflectPlan)
    requires
        spec_struct_plan(ident, fields, p),
    ensures
        p.field@.len() == p.field_len && p.field_at@.len() == p.field_len && p.name_at@.len()
            == p.field_len,
        forall|i: int|
            0 <= i < p.field_len ==> {
                &&& (#[trigger] p.field_at@[i]).index == i
                &&& p.name_at@[i].index == i
                &&& p.field@[i].name == p.name_at@[i].name
                &&& p.field@[i].ident == p.field_at@[i].ident
            },
{
    assert forall|i: int| 0 <= i < p.field_len implies {
        &&& (#[trigger] p.field_at@[i]).index == i
        &&& p.name_at@[i].index == i
        &&& p.field@[i].name == p.name_at@[i].name
        &&& p.field@[i].ident == p.field_at@[i].ident
    } by {
        let _ = kept(fields)[i];
    }
}

/// The derived `from_reflect` only reads fields that the derived `field`
/// lookup answers, so rebuilding a struct from its own reflection never
/// finds a field missing.
pub proof fn lemma_struct_from_reflect_reads_exposed(ident: String, fields: Seq<Field>, p: StructReflectPlan)
    requires
        spec_struct_plan(ident, fields, p),
    ensures
        forall|i: int|
            0 <= i < fields.len() && (#[trigger] p.from_reflect@[i]).init is Named ==> exists|j: int|
                0 <= j < p.field@.len() && (#[trigger] p.field@[j]).name
                    == p.from_reflect@[i].init->Named_0,
{
    let pred = |f: Field| field_kept(f);
    assert forall|i: int|
        0 <= i < fields.len() && (#[trigger] p.from_reflect@[i]).init is Named implies exists|j: int|
            0 <= j < p.field@.len() && (#[trigger] p.field@[j]).name
                == p.from_reflect@[i].init->Named_0 by {
        assert(p.from_reflect@[i] == spec_struct_init(fields[i]));
        assert(field_kept(fields[i]));
        fields.lemma_filter_contains(pred, i);
        let j = choose|j: int| 0 <= j < kept(fields).len() && kept(fields)[j] == fields[i];
        assert(p.field@[j].name == ident_of(kept(fields)[j]));
    }
}

} // verus!
