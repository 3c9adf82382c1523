//! Planning of the `Reflect` derive for enums.
use vstd::prelude::*;
use crate::macros::syntax::{Field, Fields, Variant};
use crate::macros::reflect::attributes::{field_accepted, field_kept, ignore_field};
use crate::macros::reflect::reflect_struct::{self, spec_struct_init};
use crate::macros::reflect::{
    FieldInit, IndexArm, IndexName, NameArm, NamedInit, ReflectKind, TupleArm, fields_accepted,
    fields_named, ident_of, kept, kept_count, kept_idents,
};

verus! {

/// The variant's fields are accepted, and named fields carry identifiers.
pub open spec fn variant_accepted(v: Variant) -> bool {
    match v.fields {
        Fields::Named(fs) => fields_accepted(fs@) && fields_named(fs@),
        Fields::Unnamed(fs) => fields_accepted(fs@),
        Fields::Unit => true,
    }
}

pub open spec fn variants_accepted(vs: Seq<Variant>) -> bool {
    forall|i: int| 0 <= i < vs.len() ==> variant_accepted(#[trigger] vs[i])
}

/// The bindings a variant's match pattern introduces.
#[derive(Clone, Debug, PartialEq, Eq)]
pub enum Bindings {
    /// `Self::V { a, b, }`: the kept named fields.
    Named(Vec<String>),
    /// `Self::V(_0, _1, ..)`: this many bindings.
    Unnamed(usize),
    /// `Self::V`.
    Unit,
}

/// The match pattern of a variant.
#[derive(Clone, Debug, PartialEq, Eq)]
pub struct VariantPattern {
    pub ident: String,
    pub bindings: Bindings,
}

/// The initializers of a variant in `from_reflect`.
#[derive(Clone, Debug, PartialEq, Eq)]
pub enum VariantFields {
    Named(Vec<NamedInit>),
    Unnamed(Vec<FieldInit>),
    Unit,
}

/// The `from_reflect` arm of a variant: its name and how it is rebuilt.
#[derive(Clone, Debug, PartialEq, Eq)]
pub struct VariantInit {
    pub name: String,
    pub fields: VariantFields,
}

/// The kind under which a variant is reflected.
pub open spec fn spec_var_type(v: Variant) -> ReflectKind {
    match v.fields {
        Fields::Unnamed(_) => ReflectKind::Tuple,
        _ => ReflectKind::Struct,
    }
}

/// `p` is the match pattern of `v`.
pub open spec fn var_pat_of(v: Variant, p: VariantPattern) -> bool {
    &&& p.ident == v.ident
    &&& match v.fields {
        Fields::Named(fs) => p.bindings matches Bindings::Named(ids) && ids@.len() == kept(fs@).len()
            && forall|i: int| 0 <= i < ids@.len() ==> ids@[i] == ident_of(#[trigger] kept(fs@)[i]),
        Fields::Unnamed(fs) => p.bindings == Bindings::Unnamed(kept(fs@).len() as usize),
        Fields::Unit => p.bindings == Bindings::Unit,
    }
}

/// How `from_reflect` fills member `i` of tuple variant `v`.
pub open spec fn spec_variant_tuple_init(v: Variant, f: Field, i: int) -> FieldInit {
    if field_kept(f) {
        FieldInit::Index(i as usize)
    } else {
        FieldInit::LabelledDefault(v.ident)
    }
}

/// `a` is the `from_reflect` arm of `v`.
pub open spec fn var_init_of(v: Variant, a: VariantInit) -> bool {
    &&& a.name == v.ident
    &&& match v.fields {
        Fields::Named(fs) => a.fields matches VariantFields::Named(inits) && inits@.len() == fs@.len()
            && forall|i: int| 0 <= i < fs@.len() ==> inits@[i] == spec_struct_init(#[trigger] fs@[i]),
        Fields::Unnamed(fs) => a.fields matches VariantFields::Unnamed(inits) && inits@.len()
            == fs@.len() && forall|i: int|
            0 <= i < fs@.len() ==> inits@[i] == spec_variant_tuple_init(v, #[trigger] fs@[i], i),
        Fields::Unit => a.fields == VariantFields::Unit,
    }
}

/// `o` is the lookup-by-name of `v`: the kept named fields for a variant
/// with named fields, nothing otherwise.
pub open spec fn struct_field_of(v: Variant, o: Option<Vec<NameArm>>) -> bool {
    match v.fields {
        Fields::Named(fs) => o matches Some(arms) && arms@.len() == kept(fs@).len() && forall|i: int|
            0 <= i < arms@.len() ==> arms@[i] == (NameArm {
                name: ident_of(#[trigger] kept(fs@)[i]),
                ident: ident_of(kept(fs@)[i]),
            }),
        _ => o is None,
    }
}

/// `o` is the lookup-by-position of `v`'s named fields.
pub open spec fn struct_field_at_of(v: Variant, o: Option<Vec<IndexArm>>) -> bool {
    match v.fields {
        Fields::Named(fs) => o matches Some(arms) && arms@.len() == kept(fs@).len() && forall|i: int|
            0 <= i < arms@.len() ==> arms@[i] == (IndexArm {
                index: i as usize,
                ident: ident_of(#[trigger] kept(fs@)[i]),
            }),
        _ => o is None,
    }
}

/// `o` gives the names of `v`'s named fields by position.
pub open spec fn struct_name_at_of(v: Variant, o: Option<Vec<IndexName>>) -> bool {
    match v.fields {
        Fields::Named(fs) => o matches Some(arms) && arms@.len() == kept(fs@).len() && forall|i: int|
            0 <= i < arms@.len() ==> arms@[i] == (IndexName {
                index: i as usize,
                name: ident_of(#[trigger] kept(fs@)[i]),
            }),
        _ => o is None,
    }
}

/// The number of reflected named fields of `v`.
pub open spec fn spec_struct_field_len(v: Variant) -> nat {
    match v.fields {
        Fields::Named(fs) => kept(fs@).len(),
        _ => 0,
    }
}

/// `o` is the lookup-by-position of `v`'s tuple members: binding `_i` at index `i`.
pub open spec fn tuple_field_of(v: Variant, o: Option<Vec<TupleArm>>) -> bool {
    match v.fields {
        Fields::Unnamed(fs) => o matches Some(arms) && arms@.len() == kept(fs@).len() && forall|i: int|
            0 <= i < arms@.len() ==> #[trigger] arms@[i] == (TupleArm { index: i as usize, member: i as usize }),
        _ => o is None,
    }
}

/// The number of reflected tuple members of `v`.
pub open spec fn spec_tuple_field_len(v: Variant) -> nat {
    match v.fields {
        Fields::Unnamed(fs) => kept(fs@).len(),
        _ => 0,
    }
}

/// The reflection kind of each variant: tuple for tuple variants, struct
/// for the others.
pub fn var_type(variants: &Vec<Variant>) -> (r: Vec<ReflectKind>)
    ensures
        r@.len() == variants@.len(),
        forall|i: int| 0 <= i < r@.len() ==> r@[i] == spec_var_type(#[trigger] variants@[i]),
{
    let mut r: Vec<ReflectKind> = Vec::new();
    let mut i: usize = 0;
    while i < variants.len()
        invariant
            i <= variants@.len(),
            r@.len() == i,
            forall|j: int| 0 <= j < i ==> r@[j] == spec_var_type(#[trigger] variants@[j]),
        decreases variants@.len() - i,
    {
        let k = match &variants[i].fields {
            Fields::Unnamed(_) => ReflectKind::Tuple,
            _ => ReflectKind::Struct,
        };
        r.push(k);
        i = i + 1;
    }
    r
}

/// The name of each variant.
pub fn var_name(variants: &Vec<Variant>) -> (r: Vec<String>)
    ensures
        r@.len() == variants@.len(),
        forall|i: int| 0 <= i < r@.len() ==> r@[i] == (#[trigger] variants@[i]).ident,
{
    let mut r: Vec<String> = Vec::new();
    let mut i: usize = 0;
    while i < variants.len()
        invariant
            i <= variants@.len(),
            r@.len() == i,
            forall|j: int| 0 <= j < i ==> r@[j] == (#[trigger] variants@[j]).ident,
        decreases variants@.len() - i,
    {
        r.push(variants[i].ident.clone());
        i = i + 1;
    }
    r
}

/// The match pattern of each variant, binding its kept fields.
pub fn var_pat(variants: &Vec<Variant>) -> (r: Vec<VariantPattern>)
    requires
        variants_accepted(variants@),
    ensures
        r@.len() == variants@.len(),
        forall|i: int| 0 <= i < r@.len() ==> var_pat_of(#[trigger] variants@[i], r@[i]),
{
    let mut r: Vec<VariantPattern> = Vec::new();
    let mut i: usize = 0;
    while i < variants.len()
        invariant
            i <= variants@.len(),
            variants_accepted(variants@),
            r@.len() == i,
            forall|j: int| 0 <= j < i ==> var_pat_of(#[trigger] variants@[j], r@[j]),
        decreases variants@.len() - i,
    {
        let v = &variants[i];
        assert(variant_accepted(variants@[i as int]));
        let bindings = match &v.fields {
            Fields::Named(fs) => Bindings::Named(kept_idents(fs)),
            Fields::Unnamed(fs) => Bindings::Unnamed(kept_count(fs)),
            Fields::Unit => Bindings::Unit,
        };
        r.push(VariantPattern { ident: v.ident.clone(), bindings });
        i = i + 1;
    }
    r
}

/// The tuple member initializers of variant `v`.
fn variant_tuple_inits(v: &Variant, fs: &Vec<Field>) -> (r: Vec<FieldInit>)
    requires
        fields_accepted(fs@),
    ensures
        r@.len() == fs@.len(),
        forall|i: int| 0 <= i < fs@.len() ==> r@[i] == spec_variant_tuple_init(*v, #[trigger] fs@[i], i),
{
    let mut r: Vec<FieldInit> = Vec::new();
    let mut i: usize = 0;
    while i < fs.len()
        invariant
            i <= fs@.len(),
            fields_accepted(fs@),
            r@.len() == i,
            forall|j: int| 0 <= j < i ==> r@[j] == spec_variant_tuple_init(*v, #[trigger] fs@[j], j),
        decreases fs@.len() - i,
    {
        assert(field_accepted(fs@[i as int]));
        if ignore_field(&fs[i]) {
            r.push(FieldInit::Index(i));
        } else {
            r.push(FieldInit::LabelledDefault(v.ident.clone()));
        }
        i = i + 1;
    }
    r
}

/// The `from_reflect` arm of each variant.
pub fn from_reflect(variants: &Vec<Variant>) -> (r: Vec<VariantInit>)
    requires
        variants_accepted(variants@),
    ensures
        r@.len() == variants@.len(),
        forall|i: int| 0 <= i < r@.len() ==> var_init_of(#[trigger] variants@[i], r@[i]),
{
    let mut r: Vec<VariantInit> = Vec::new();
    let mut i: usize = 0;
    while i < variants.len()
        invariant
            i <= variants@.len(),
            variants_accepted(variants@),
            r@.len() == i,
            forall|j: int| 0 <= j < i ==> var_init_of(#[trigger] variants@[j], r@[j]),
        decreases variants@.len() - i,
    {
        let v = &variants[i];
        assert(variant_accepted(variants@[i as int]));
        let fields = match &v.fields {
            Fields::Named(fs) => VariantFields::Named(reflect_struct::from_reflect(fs)),
            Fields::Unnamed(fs) => VariantFields::Unnamed(variant_tuple_inits(v, fs)),
            Fields::Unit => VariantFields::Unit,
        };
        r.push(VariantInit { name: v.ident.clone(), fields });
        i = i + 1;
    }
    r
}

/// The lookup-by-name arms of each variant.
pub fn struct_field(variants: &Vec<Variant>) -> (r: Vec<Option<Vec<NameArm>>>)
    requires
        variants_accepted(variants@),
    ensures
        r@.len() == variants@.len(),
        forall|i: int| 0 <= i < r@.len() ==> struct_field_of(#[trigger] variants@[i], r@[i]),
{
    let mut r: Vec<Option<Vec<NameArm>>> = Vec::new();
    let mut i: usize = 0;
    while i < variants.len()
        invariant
            i <= variants@.len(),
            variants_accepted(variants@),
            r@.len() == i,
            forall|j: int| 0 <= j < i ==> struct_field_of(#[trigger] variants@[j], r@[j]),
        decreases variants@.len() - i,
    {
        assert(variant_accepted(variants@[i as int]));
        let o = match &variants[i].fields {
            Fields::Named(fs) => Some(reflect_struct::field(fs)),
            _ => None,
        };
        r.push(o);
        i = i + 1;
    }
    r
}

/// The lookup-by-position arms of each variant's named fields.
pub fn struct_field_at(variants: &Vec<Variant>) -> (r: Vec<Option<Vec<IndexArm>>>)
    requires
        variants_accepted(variants@),
    ensures
        r@.len() == variants@.len(),
        forall|i: int| 0 <= i < r@.len() ==> struct_field_at_of(#[trigger] variants@[i], r@[i]),
{
    let mut r: Vec<Option<Vec<IndexArm>>> = Vec::new();
    let mut i: usize = 0;
    while i < variants.len()
        invariant
            i <= variants@.len(),
            variants_accepted(variants@),
            r@.len() == i,
            forall|j: int| 0 <= j < i ==> struct_field_at_of(#[trigger] variants@[j], r@[j]),
        decreases variants@.len() - i,
    {
        assert(variant_accepted(variants@[i as int]));
        let o = match &variants[i].fields {
            Fields::Named(fs) => Some(reflect_struct::field_at(fs)),
            _ => None,
        };
        r.push(o);
        i = i + 1;
    }
    r
}

/// The name-by-position arms of each variant's named fields.
pub fn struct_name_at(variants: &Vec<Variant>) -> (r: Vec<Option<Vec<IndexName>>>)
    requires
        variants_accepted(variants@),
    ensures
        r@.len() == variants@.len(),
        forall|i: int| 0 <= i < r@.len() ==> struct_name_at_of(#[trigger] variants@[i], r@[i]),
{
    let mut r: Vec<Option<Vec<IndexName>>> = Vec::new();
    let mut i: usize = 0;
    while i < variants.len()
        invariant
            i <= variants@.len(),
            variants_accepted(variants@),
            r@.len() == i,
            forall|j: int| 0 <= j < i ==> struct_name_at_of(#[trigger] variants@[j], r@[j]),
        decreases variants@.len() - i,
    {
        assert(variant_accepted(variants@[i as int]));
        let o = match &variants[i].fields {
            Fields::Named(fs) => Some(reflect_struct::name_at(fs)),
            _ => None,
        };
        r.push(o);
        i = i + 1;
    }
    r
}

/// The number of reflected named fields of each variant.
pub fn struct_field_len(variants: &Vec<Variant>) -> (r: Vec<usize>)
    requires
        variants_accepted(variants@),
    ensures
        r@.len() == variants@.len(),
        forall|i: int| 0 <= i < r@.len() ==> r@[i] == spec_struct_field_len(#[trigger] variants@[i]),
{
    let mut r: Vec<usize> = Vec::new();
    let mut i: usize = 0;
    while i < variants.len()
        invariant
            i <= variants@.len(),
            variants_accepted(variants@),
            r@.len() == i,
            forall|j: int| 0 <= j < i ==> r@[j] == spec_struct_field_len(#[trigger] variants@[j]),
        decreases variants@.len() - i,
    {
        assert(variant_accepted(variants@[i as int]));
        let n = match &variants[i].fields {
            Fields::Named(fs) => kept_count(fs),
            _ => 0,
        };
        r.push(n);
        i = i + 1;
    }
    r
}

/// The tuple lookup arms of each variant.
pub fn tuple_field(variants: &Vec<Variant>) -> (r: Vec<Option<Vec<TupleArm>>>)
    requires
        variants_accepted(variants@),
    ensures
        r@.len() == variants@.len(),
        forall|i: int| 0 <= i < r@.len() ==> tuple_field_of(#[trigger] variants@[i], r@[i]),
{
    let mut r: Vec<Option<Vec<TupleArm>>> = Vec::new();
    let mut i: usize = 0;
    while i < variants.len()
        invariant
            i <= variants@.len(),
            variants_accepted(variants@),
            r@.len() == i,
            forall|j: int| 0 <= j < i ==> tuple_field_of(#[trigger] variants@[j], r@[j]),
        decreases variants@.len() - i,
    {
        assert(variant_accepted(variants@[i as int]));
        let o = match &variants[i].fields {
            Fields::Unnamed(fs) => Some(crate::macros::reflect::reflect_tuple::field(fs)),
            _ => None,
        };
        r.push(o);
        i = i + 1;
    }
    r
}

/// The number of reflected tuple members of each variant.
pub fn tuple_field_len(variants: &Vec<Variant>) -> (r: Vec<usize>)
    requires
        variants_accepted(variants@),
    ensures
        r@.len() == variants@.len(),
        forall|i: int| 0 <= i < r@.len() ==> r@[i] == spec_tuple_field_len(#[trigger] variants@[i]),
{
    let mut r: Vec<usize> = Vec::new();
    let mut i: usize = 0;
    while i < variants.len()
        invariant
            i <= variants@.len(),
            variants_accepted(variants@),
            r@.len() == i,
            forall|j: int| 0 <= j < i ==> r@[j] == spec_tuple_field_len(#[trigger] variants@[j]),
        decreases variants@.len() - i,
    {
        assert(variant_accepted(variants@[i as int]));
        let n = match &variants[i].fields {
            Fields::Unnamed(fs) => kept_count(fs),
            _ => 0,
        };
        r.push(n);
        i = i + 1;
    }
    r
}

/// What the `FromReflect`, `ReflectStruct`, `ReflectTuple` and `ReflectEnum`
/// impls of an enum contain: one entry per variant in each list.
pub struct EnumReflectPlan {
    pub ident: String,
    pub var_pat: Vec<VariantPattern>,
    pub var_type: Vec<ReflectKind>,
    pub var_name: Vec<String>,
    pub from_reflect: Vec<VariantInit>,
    pub struct_field: Vec<Option<Vec<NameArm>>>,
    pub struct_field_at: Vec<Option<Vec<IndexArm>>>,
    pub struct_name_at: Vec<Option<Vec<IndexName>>>,
    pub struct_field_len: Vec<usize>,
    pub tuple_field: Vec<Option<Vec<TupleArm>>>,
    pub tuple_field_len: Vec<usize>,
}

/// The plan is the one the planners above give for `ident` and `variants`.
pub open spec fn spec_enum_plan(ident: String, vs: Seq<Variant>, p: EnumReflectPlan) -> bool {
    &&& p.ident == ident
    &&& p.var_pat@.len() == vs.len()
    &&& p.var_type@.len() == vs.len()
    &&& p.var_name@.len() == vs.len()
    &&& p.from_reflect@.len() == vs.len()
    &&& p.struct_field@.len() == vs.len()
    &&& p.struct_field_at@.len() == vs.len()
    &&& p.struct_name_at@.len() == vs.len()
    &&& p.struct_field_len@.len() == vs.len()
    &&& p.tuple_field@.len() == vs.len()
    &&& p.tuple_field_len@.len() == vs.len()
    &&& forall|i: int|
        0 <= i < vs.len() ==> {
            &&& var_pat_of(#[trigger] vs[i], p.var_pat@[i])
            &&& p.var_type@[i] == spec_var_type(vs[i])
            &&& p.var_name@[i] == vs[i].ident
            &&& var_init_of(vs[i], p.from_reflect@[i])
            &&& struct_field_of(vs[i], p.struct_field@[i])
            &&& struct_field_at_of(vs[i], p.struct_field_at@[i])
            &&& struct_name_at_of(vs[i], p.struct_name_at@[i])
            &&& p.struct_field_len@[i] == spec_struct_field_len(vs[i])
            &&& tuple_field_of(vs[i], p.tuple_field@[i])
            &&& p.tuple_field_len@[i] == spec_tuple_field_len(vs[i])
        }
}

/// Plans the reflection impls of enum `ident`.
pub fn impl_reflect_enum(ident: &String, variants: &Vec<Variant>) -> (p: EnumReflectPlan)
    requires
        variants_accepted(variants@),
    ensures
        spec_enum_plan(*ident, variants@, p),
{
    EnumReflectPlan {
        ident: ident.clone(),
        var_pat: var_pat(variants),
        var_type: var_type(variants),
        var_name: var_name(variants),
        from_reflect: from_reflect(variants),
        struct_field: struct_field(variants),
        struct_field_at: struct_field_at(variants),
        struct_name_at: struct_name_at(variants),
        struct_field_len: struct_field_len(variants),
        tuple_field: tuple_field(variants),
        tuple_field_len: tuple_field_len(variants),
    }
}

} // verus!
