//! Planning of the `Reflect` derive: which fields the generated impls expose,
//! under which names and indices, and how `from_reflect` rebuilds a value.
pub mod attributes;
pub mod reflect_struct;
pub mod reflect_tuple;
pub mod reflect_enum;

use vstd::prelude::*;
use crate::macros::syntax::{Data, Field, Fields, Variant};
use crate::macros::reflect::reflect_struct::{StructReflectPlan, impl_reflect_struct, spec_struct_plan};
use crate::macros::reflect::reflect_tuple::{TupleReflectPlan, impl_reflect_tuple, spec_tuple_plan};
use crate::macros::reflect::reflect_enum::{EnumReflectPlan, impl_reflect_enum, spec_enum_plan, variants_accepted};
use crate::macros::reflect::attributes::{field_accepted, field_kept, ignore_field};




verus! {

/// The shape under which a value is reflected.
#[derive(Clone, Copy, Debug, PartialEq, Eq)]
pub enum ReflectKind {
    Struct,
    Tuple,
    Enum,
}

/// How `from_reflect` fills one field of the rebuilt value.
#[derive(Clone, Debug, PartialEq, Eq)]
pub enum FieldInit {
    /// `Default::default()`, for an ignored field.
    Default,
    /// `label: Default::default()`: what an ignored field of a tuple variant
    /// is given, labelled with the variant's name.
    LabelledDefault(String),
    /// Converted from the reflected field of this name.
    Named(String),
    /// Converted from the reflected field at this index.
    Index(usize),
}

/// An initializer of a named field: `ident: init`.
#[derive(Clone, Debug, PartialEq, Eq)]
pub struct NamedInit {
    pub ident: String,
    pub init: FieldInit,
}

/// A match arm `name => Some(&self.ident)` of a lookup by name.
#[derive(Clone, Debug, PartialEq, Eq)]
pub struct NameArm {
    pub name: String,
    pub ident: String,
}

/// A match arm `index => Some(&self.ident)` of a lookup by position.
#[derive(Clone, Debug, PartialEq, Eq)]
pub struct IndexArm {
    pub index: usize,
    pub ident: String,
}

/// A match arm `index => Some(name)` giving the name of the field at a position.
#[derive(Clone, Debug, PartialEq, Eq)]
pub struct IndexName {
    pub index: usize,
    pub name: String,
}

/// A match arm `index => Some(&self.member)` over tuple members.
#[derive(Clone, Copy, Debug, PartialEq, Eq)]
pub struct TupleArm {
    pub index: usize,
    pub member: usize,
}

/// The fields that take part in reflection, in declaration order.
pub open spec fn kept(fields: Seq<Field>) -> Seq<Field> {
    fields.filter(|f: Field| field_kept(f))
}

/// Every field's attributes are accepted.
pub open spec fn fields_accepted(fields: Seq<Field>) -> bool {
    forall|i: int| 0 <= i < fields.len() ==> field_accepted(#[trigger] fields[i])
}

/// Every field carries an identifier, as the fields of a named struct do.
pub open spec fn fields_named(fields: Seq<Field>) -> bool {
    forall|i: int| 0 <= i < fields.len() ==> (#[trigger] fields[i]).ident is Some
}

/// The identifier of a named field.
pub open spec fn ident_of(f: Field) -> String {
    match f.ident {
        Some(s) => s,
        None => arbitrary(),
    }
}

pub proof fn lemma_kept_push(s: Seq<Field>, x: Field)
    ensures
        kept(s.push(x)) == if field_kept(x) {
            kept(s).push(x)
        } else {
            kept(s)
        },
{
    reveal_with_fuel(Seq::<Field>::filter, 1);
    assert(s.push(x).drop_last() =~= s);
}

pub proof fn lemma_kept_take_step(s: Seq<Field>, i: int)
    requires
        0 <= i < s.len(),
    ensures
        kept(s.take(i + 1)) == if field_kept(s[i]) {
            kept(s.take(i)).push(s[i])
        } else {
            kept(s.take(i))
        },
{
    assert(s.take(i + 1) =~= s.take(i).push(s[i]));
    lemma_kept_push(s.take(i), s[i]);
}

pub proof fn lemma_kept_len(s: Seq<Field>)
    ensures
        kept(s).len() <= s.len(),
{
    s.lemma_filter_len(|f: Field| field_kept(f));
}

/// The identifiers of the kept fields of a named struct, in order.
pub fn kept_idents(fields: &Vec<Field>) -> (r: Vec<String>)
    requires
        fields_accepted(fields@),
        fields_named(fields@),
    ensures
        r@.len() == kept(fields@).len(),
        forall|i: int| 0 <= i < r@.len() ==> r@[i] == ident_of(#[trigger] kept(fields@)[i]),
{
    let mut r: Vec<String> = Vec::new();
    let mut i: usize = 0;
    while i < fields.len()
        invariant
            i <= fields@.len(),
            fields_accepted(fields@),
            fields_named(fields@),
            r@.len() == kept(fields@.take(i as int)).len(),
            forall|j: int|
                0 <= j < r@.len() ==> r@[j] == ident_of(#[trigger] kept(fields@.take(i as int))[j]),
        decreases fields@.len() - i,
    {
        proof {
            lemma_kept_take_step(fields@, i as int);
        }
        let f = &fields[i];
        assert(field_accepted(fields@[i as int]));
        if ignore_field(f) {
            match &f.ident {
                Some(s) => r.push(s.clone()),
                None => {
                    assert((fields@[i as int]).ident is Some);
                },
            }
        }
        i = i + 1;
    }
    assert(fields@.take(fields@.len() as int) =~= fields@);
    r
}

/// The number of kept fields.
pub fn kept_count(fields: &Vec<Field>) -> (n: usize)
    requires
        fields_accepted(fields@),
    ensures
        n == kept(fields@).len(),
{
    let mut n: usize = 0;
    let mut i: usize = 0;
    while i < fields.len()
        invariant
            i <= fields@.len(),
            fields_accepted(fields@),
            n == kept(fields@.take(i as int)).len(),
        decreases fields@.len() - i,
    {
        proof {
            lemma_kept_take_step(fields@, i as int);
            lemma_kept_len(fields@.take(i as int));
        }
        assert(field_accepted(fields@[i as int]));
        if ignore_field(&fields[i]) {
            n = n + 1;
        }
        i = i + 1;
    }
    assert(fields@.take(fields@.len() as int) =~= fields@);
    n
}

/// A type body the `Reflect` derive accepts: not a union, with accepted
/// field attributes and identifiers on named fields.
pub open spec fn data_accepted(d: Data) -> bool {
    match d {
        Data::Struct(Fields::Named(fs)) => fields_accepted(fs@) && fields_named(fs@),
        Data::Struct(Fields::Unnamed(fs)) => fields_accepted(fs@),
        Data::Struct(Fields::Unit) => true,
        Data::Enum(vs) => variants_accepted(vs@),
        Data::Union => false,
    }
}

/// The kind a derived `Reflect` impl reports: enums are enums, tuple
/// structs tuples, other structs structs.
pub open spec fn spec_reflect_type(d: Data) -> ReflectKind {
    match d {
        Data::Enum(_) => ReflectKind::Enum,
        Data::Struct(Fields::Unnamed(_)) => ReflectKind::Tuple,
        _ => ReflectKind::Struct,
    }
}

/// The kind the derived `reflect_ref` and `reflect_mut` report.
pub fn reflect_type(data: &Data) -> (k: ReflectKind)
    requires
        !(data is Union),
    ensures
        k == spec_reflect_type(*data),
{
    match data {
        Data::Enum(_) => ReflectKind::Enum,
        Data::Struct(Fields::Unnamed(_)) => ReflectKind::Tuple,
        _ => ReflectKind::Struct,
    }
}

/// The plan of the shape-specific reflection impls.
pub enum ReflectPlan {
    Enum(EnumReflectPlan),
    Tuple(TupleReflectPlan),
    Struct(StructReflectPlan),
    /// A unit struct, which has no fields to plan.
    UnitStruct(String),
}

/// `p` is the plan for type `ident` with body `d`.
pub open spec fn spec_reflect_impl(ident: String, d: Data, p: ReflectPlan) -> bool {
    match d {
        Data::Enum(vs) => p matches ReflectPlan::Enum(ep) && spec_enum_plan(ident, vs@, ep),
        Data::Struct(Fields::Unnamed(fs)) => p matches ReflectPlan::Tuple(tp) && spec_tuple_plan(ident, fs@, tp),
        Data::Struct(Fields::Named(fs)) => p matches ReflectPlan::Struct(sp) && spec_struct_plan(ident, fs@, sp),
        Data::Struct(Fields::Unit) => p == ReflectPlan::UnitStruct(ident),
        Data::Union => false,
    }
}

/// Plans the shape-specific reflection impls of type `ident`.
pub fn reflect_impl(ident: &String, data: &Data) -> (p: ReflectPlan)
    requires
        data_accepted(*data),
    ensures
        spec_reflect_impl(*ident, *data, p),
{
    match data {
        Data::Enum(vs) => ReflectPlan::Enum(impl_reflect_enum(ident, vs)),
        Data::Struct(Fields::Unnamed(fs)) => ReflectPlan::Tuple(impl_reflect_tuple(ident, fs)),
        Data::Struct(Fields::Named(fs)) => ReflectPlan::Struct(impl_reflect_struct(ident, fs)),
        Data::Struct(Fields::Unit) => ReflectPlan::UnitStruct(ident.clone()),
        Data::Union => ReflectPlan::UnitStruct(ident.clone()),
    }
}

/// Everything the `Reflect` derive generates for a type, but for its generics.
pub struct DeriveReflectPlan {
    pub kind: ReflectKind,
    pub plan: ReflectPlan,
}

/// Plans the `Reflect` derive of type `ident` with body `data`.
pub fn derive_reflect(ident: &String, data: &Data) -> (p: DeriveReflectPlan)
    requires
        data_accepted(*data),
    ensures
        p.kind == spec_reflect_type(*data),
        spec_reflect_impl(*ident, *data, p.plan),
{
    let plan = reflect_impl(ident, data);
    let kind = reflect_type(data);
    DeriveReflectPlan { kind, plan }
}

} // verus!
