use ike::macros::component::{DerivedTraits, Registration};
use ike::macros::get_ike::{find_shiv, get_crate, get_ike, ike_crate_name, CratePath, FoundCrate};
use ike::macros::label::raw_label;
use ike::macros::node::NodeFunction;
use ike::macros::reflect::attributes::{ignore_field, ContainerAttrs, FieldAttrs};
use ike::macros::reflect::reflect_enum::{impl_reflect_enum, Bindings, VariantFields};
use ike::macros::reflect::reflect_struct::impl_reflect_struct;
use ike::macros::reflect::reflect_tuple::impl_reflect_tuple;
use ike::macros::reflect::{
    derive_reflect, kept_count, kept_idents, reflect_type, FieldInit, IndexArm, IndexName, NameArm, NamedInit,
    ReflectKind, ReflectPlan, TupleArm,
};
use ike::macros::syntax::{is_ident_token, is_named, path_is_ident, AttrInput, Attribute, Data, Field, Fields, Token, Variant};
use ike::macros::system_param::{fetch_ident, item_lifetimes, system_param_fields, LifetimeParam};
use ike::macros::type_uuid::{type_uuid, type_uuid_from, TypeUuidPlan};

fn s(x: &str) -> String {
    x.to_string()
}

fn ident(x: &str) -> Token {
    Token::Ident(s(x))
}

fn reflect(tokens: Vec<Token>) -> Attribute {
    Attribute { path_ident: Some(s("reflect")), input: AttrInput::Delimited(tokens) }
}

fn ignore() -> Attribute {
    reflect(vec![ident("ignore")])
}

fn doc() -> Attribute {
    Attribute { path_ident: Some(s("doc")), input: AttrInput::Other }
}

fn named(name: &str, attrs: Vec<Attribute>) -> Field {
    Field { ident: Some(s(name)), attrs }
}

fn unnamed(attrs: Vec<Attribute>) -> Field {
    Field { ident: None, attrs }
}

fn path(leading_colon: bool, segments: &[&str]) -> CratePath {
    CratePath { leading_colon, segments: segments.iter().map(|x| s(x)).collect() }
}

#[test]
fn syntax_helpers_compare_names() {
    assert!(is_named(&s("reflect"), "reflect"));
    assert!(!is_named(&s("reflect"), "Reflect"));
    assert!(is_ident_token(&ident("ignore"), "ignore"));
    assert!(!is_ident_token(&Token::LitStr(s("ignore")), "ignore"));
    assert!(path_is_ident(&ignore(), "reflect"));
    assert!(!path_is_ident(&Attribute { path_ident: None, input: AttrInput::Empty }, "reflect"));
}

#[test]
fn field_attrs_ignore() {
    assert_eq!(FieldAttrs::parse(&vec![doc(), ignore()]), Some(FieldAttrs { ignore: true }));
    assert_eq!(FieldAttrs::parse(&vec![reflect(vec![])]), Some(FieldAttrs { ignore: false }));
    assert_eq!(FieldAttrs::parse(&vec![doc()]), Some(FieldAttrs { ignore: false }));
    assert_eq!(FieldAttrs::new(&vec![ignore()]), FieldAttrs { ignore: true });
    assert!(!ignore_field(&named("a", vec![ignore()])));
    assert!(ignore_field(&named("a", vec![])));
}

#[test]
fn field_attrs_rejected() {
    assert_eq!(FieldAttrs::parse(&vec![reflect(vec![ident("skip")])]), None);
    assert_eq!(FieldAttrs::parse(&vec![reflect(vec![ident("ignore"), Token::Punct(',')])]), None);
    assert_eq!(FieldAttrs::parse(&vec![Attribute { path_ident: Some(s("reflect")), input: AttrInput::Empty }]), None);
}

#[test]
fn container_attrs() {
    let c = ContainerAttrs::parse(&vec![reflect(vec![ident("Component")])]).unwrap();
    assert!(c.component);
    assert!(c.bound.is_none());
    let b = ContainerAttrs::parse(&vec![reflect(vec![ident("bound"), Token::Punct('='), Token::LitStr(s("T: Clone, U: Default"))])]).unwrap();
    assert!(!b.component);
    assert_eq!(b.bound.as_ref().map(|p| p.len()), Some(2));
    let both = ContainerAttrs::new(&vec![doc(), reflect(vec![ident("bound"), Token::Punct('='), Token::LitStr(s("T: Clone")), ident("Component")])]);
    assert!(both.component && both.bound.is_some());
    let none = ContainerAttrs::parse(&vec![]).unwrap();
    assert!(!none.component && none.bound.is_none());
}

#[test]
fn container_attrs_rejected() {
    assert!(ContainerAttrs::parse(&vec![reflect(vec![ident("Clone")])]).is_none());
    assert!(ContainerAttrs::parse(&vec![reflect(vec![ident("bound"), Token::Punct('='), Token::LitStr(s("T: :"))])]).is_none());
    assert!(ContainerAttrs::parse(&vec![reflect(vec![ident("Component"), ident("Component")])]).is_none());
}

#[test]
fn kept_fields() {
    let fields = vec![named("a", vec![]), named("b", vec![ignore()]), named("c", vec![doc()])];
    assert_eq!(kept_idents(&fields), vec![s("a"), s("c")]);
    assert_eq!(kept_count(&fields), 2);
}

#[test]
fn reflect_type_by_shape() {
    assert_eq!(reflect_type(&Data::Enum(vec![])), ReflectKind::Enum);
    assert_eq!(reflect_type(&Data::Struct(Fields::Unnamed(vec![]))), ReflectKind::Tuple);
    assert_eq!(reflect_type(&Data::Struct(Fields::Named(vec![]))), ReflectKind::Struct);
    assert_eq!(reflect_type(&Data::Struct(Fields::Unit)), ReflectKind::Struct);
}

#[test]
fn struct_plan_skips_ignored_fields() {
    let fields = vec![named("a", vec![]), named("b", vec![ignore()]), named("c", vec![])];
    let p = impl_reflect_struct(&s("Foo"), &fields);
    assert_eq!(p.ident, "Foo");
    assert_eq!(
        p.from_reflect,
        vec![
            NamedInit { ident: s("a"), init: FieldInit::Named(s("a")) },
            NamedInit { ident: s("b"), init: FieldInit::Default },
            NamedInit { ident: s("c"), init: FieldInit::Named(s("c")) },
        ]
    );
    assert_eq!(p.field, vec![NameArm { name: s("a"), ident: s("a") }, NameArm { name: s("c"), ident: s("c") }]);
    assert_eq!(p.field_mut, p.field);
    assert_eq!(p.field_at, vec![IndexArm { index: 0, ident: s("a") }, IndexArm { index: 1, ident: s("c") }]);
    assert_eq!(p.field_at_mut, p.field_at);
    assert_eq!(p.name_at, vec![IndexName { index: 0, name: s("a") }, IndexName { index: 1, name: s("c") }]);
    assert_eq!(p.field_len, 2);
}

#[test]
fn tuple_plan_indexes_kept_members() {
    let fields = vec![unnamed(vec![]), unnamed(vec![ignore()]), unnamed(vec![])];
    let p = impl_reflect_tuple(&s("T"), &fields);
    assert_eq!(p.from_reflect, vec![FieldInit::Index(0), FieldInit::Default, FieldInit::Index(2)]);
    assert_eq!(p.field, vec![TupleArm { index: 0, member: 0 }, TupleArm { index: 1, member: 1 }]);
    assert_eq!(p.field_mut, p.field);
    assert_eq!(p.field_len, 2);
}

#[test]
fn tuple_plan_leading_ignored_member() {
    // The lookup of index `i` reaches member `i`, though member 0 is ignored.
    let fields = vec![unnamed(vec![ignore()]), unnamed(vec![])];
    let p = impl_reflect_tuple(&s("T"), &fields);
    assert_eq!(p.from_reflect, vec![FieldInit::Default, FieldInit::Index(1)]);
    assert_eq!(p.field, vec![TupleArm { index: 0, member: 0 }]);
    assert_eq!(p.field_len, 1);
}

#[test]
fn enum_plan_per_variant() {
    let variants = vec![
        Variant { ident: s("A"), fields: Fields::Unit },
        Variant { ident: s("B"), fields: Fields::Named(vec![named("x", vec![]), named("y", vec![ignore()])]) },
        Variant { ident: s("C"), fields: Fields::Unnamed(vec![unnamed(vec![ignore()]), unnamed(vec![])]) },
    ];
    let p = impl_reflect_enum(&s("E"), &variants);
    assert_eq!(p.var_name, vec![s("A"), s("B"), s("C")]);
    assert_eq!(p.var_type, vec![ReflectKind::Struct, ReflectKind::Struct, ReflectKind::Tuple]);
    assert_eq!(p.var_pat[0].bindings, Bindings::Unit);
    assert_eq!(p.var_pat[1].bindings, Bindings::Named(vec![s("x")]));
    assert_eq!(p.var_pat[2].bindings, Bindings::Unnamed(1));
    assert_eq!(p.from_reflect[0].fields, VariantFields::Unit);
    assert_eq!(
        p.from_reflect[1].fields,
        VariantFields::Named(vec![
            NamedInit { ident: s("x"), init: FieldInit::Named(s("x")) },
            NamedInit { ident: s("y"), init: FieldInit::Default },
        ])
    );
    assert_eq!(p.from_reflect[2].fields, VariantFields::Unnamed(vec![FieldInit::LabelledDefault(s("C")), FieldInit::Index(1)]));
    assert_eq!(p.struct_field[0], None);
    assert_eq!(p.struct_field[1], Some(vec![NameArm { name: s("x"), ident: s("x") }]));
    assert_eq!(p.struct_field_at[1], Some(vec![IndexArm { index: 0, ident: s("x") }]));
    assert_eq!(p.struct_name_at[1], Some(vec![IndexName { index: 0, name: s("x") }]));
    assert_eq!(p.struct_field_len, vec![0, 1, 0]);
    assert_eq!(p.tuple_field[2], Some(vec![TupleArm { index: 0, member: 0 }]));
    assert_eq!(p.tuple_field[1], None);
    assert_eq!(p.tuple_field_len, vec![0, 0, 1]);
}

#[test]
fn derive_reflect_unit_struct() {
    let p = derive_reflect(&s("U"), &Data::Struct(Fields::Unit));
    assert_eq!(p.kind, ReflectKind::Struct);
    match p.plan {
        ReflectPlan::UnitStruct(name) => assert_eq!(name, "U"),
        _ => panic!("expected a unit struct plan"),
    }
    let t = derive_reflect(&s("T"), &Data::Struct(Fields::Unnamed(vec![unnamed(vec![])])));
    assert_eq!(t.kind, ReflectKind::Tuple);
    assert!(matches!(t.plan, ReflectPlan::Tuple(_)));
}

#[test]
fn raw_label_of_unit_enums() {
    let e = Data::Enum(vec![Variant { ident: s("Update"), fields: Fields::Unit }, Variant { ident: s("Render"), fields: Fields::Unit }]);
    assert_eq!(raw_label(&e), Some(vec![s("Update"), s("Render")]));
    let not_unit = Data::Enum(vec![Variant { ident: s("A"), fields: Fields::Unnamed(vec![unnamed(vec![])]) }]);
    assert_eq!(raw_label(&not_unit), None);
    assert_eq!(raw_label(&Data::Struct(Fields::Unit)), None);
    assert_eq!(raw_label(&Data::Enum(vec![])), Some(vec![]));
}

#[test]
fn crate_paths() {
    assert_eq!(get_crate(&FoundCrate::Itself), path(false, &["crate"]));
    assert_eq!(get_crate(&FoundCrate::Name(s("ike_ecs"))), path(true, &["ike_ecs"]));
    assert_eq!(ike_crate_name("ecs"), "ike-ecs");
    assert_eq!(get_ike("ecs", &Some(FoundCrate::Name(s("ike_ecs"))), &None), path(true, &["ike_ecs"]));
    assert_eq!(get_ike("ecs", &None, &Some(FoundCrate::Name(s("ike")))), path(true, &["ike", "ecs"]));
    assert_eq!(get_ike("util", &None, &Some(FoundCrate::Itself)), path(false, &["crate", "util"]));
}

#[test]
fn shiv_paths() {
    assert_eq!(find_shiv(&Some(FoundCrate::Name(s("shiv"))), &None, &None), path(true, &["shiv"]));
    assert_eq!(find_shiv(&None, &Some(FoundCrate::Name(s("ike_ecs"))), &None), path(true, &["ike_ecs"]));
    assert_eq!(find_shiv(&None, &None, &Some(FoundCrate::Name(s("engine")))), path(true, &["engine", "ecs"]));
    assert_eq!(find_shiv(&None, &None, &Some(FoundCrate::Itself)), path(false, &["ike", "ecs"]));
    assert_eq!(find_shiv(&None, &None, &None), path(false, &["ike", "ecs"]));
}

#[test]
fn type_uuid_parses_text() {
    assert_eq!(
        type_uuid("936DA01F-9ABD-4D9D-80C7-02AF85C822A8"),
        TypeUuidPlan::Valid(0x936DA01F_9ABD_4D9D_80C7_02AF85C822A8)
    );
    assert_eq!(type_uuid("00000000-0000-0000-0000-000000000001"), TypeUuidPlan::Valid(1));
    assert_eq!(type_uuid("not-a-uuid"), TypeUuidPlan::Invalid(s("invalid uuid 'not-a-uuid'")));
}

#[test]
fn type_uuid_from_parsed_value() {
    assert_eq!(type_uuid_from("x", Some(5)), TypeUuidPlan::Valid(5));
    assert_eq!(type_uuid_from("x", None), TypeUuidPlan::Invalid(s("invalid uuid 'x'")));
}

#[test]
fn node_function_names() {
    let f = NodeFunction::new(&s("update"), true);
    assert_eq!(f.name, "update");
    assert_eq!(f.node_ident, "__node_update");
}

#[test]
fn system_param_names() {
    assert_eq!(fetch_ident(&s("Physics")), "PhysicsFetch");
    let params = vec![
        LifetimeParam { name: s("w"), bare: true },
        LifetimeParam { name: s("s"), bare: true },
        LifetimeParam { name: s("a"), bare: true },
        LifetimeParam { name: s("w"), bare: false },
    ];
    assert_eq!(item_lifetimes(&params), vec![s("__w"), s("__s"), s("a"), s("w")]);
    let data = Data::Struct(Fields::Named(vec![named("query", vec![]), named("time", vec![])]));
    assert_eq!(system_param_fields(&data), vec![s("query"), s("time")]);
}

#[test]
fn component_registrations_from_derives() {
    let lists = vec![
        vec![Some(s("Clone")), Some(s("Reflect")), None],
        vec![],
        vec![Some(s("Reflect"))],
    ];
    assert_eq!(DerivedTraits::new(&lists).registrations, vec![Registration::ReflectComponent, Registration::ReflectComponent]);
    assert!(DerivedTraits::new(&vec![vec![Some(s("Debug"))]]).registrations.is_empty());
}
