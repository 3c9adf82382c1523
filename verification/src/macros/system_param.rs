//! Planning of the `SystemParam` derive.
use vstd::prelude::*;
use vstd::string::*;
use crate::macros::syntax::{Data, Fields};
use crate::macros::reflect::{fields_named, ident_of};

verus! {

/// The name of the fetch type generated for `ident`: `<ident>Fetch`.
pub fn fetch_ident(ident: &String) -> (r: String)
    ensures
        r@ == ident@ + "Fetch"@,
{
    ident.clone().concat("Fetch")
}

/// A lifetime parameter: its name (without the apostrophe) and whether it
/// is bare, with no attributes and no bounds.
#[derive(Clone, Debug, PartialEq, Eq)]
pub struct LifetimeParam {
    pub name: String,
    pub bare: bool,
}

/// The name the item type uses for lifetime `l`: a bare `'w` becomes `'__w`,
/// a bare `'s` becomes `'__s`, any other keeps its name.
pub open spec fn spec_item_lifetime(l: LifetimeParam) -> Seq<char> {
    if l.bare && l.name@ == "w"@ {
        "__w"@
    } else if l.bare && l.name@ == "s"@ {
        "__s"@
    } else {
        l.name@
    }
}

/// The lifetime names of the fetch's item type; see [`spec_item_lifetime`].
pub fn item_lifetimes(params: &Vec<LifetimeParam>) -> (r: Vec<String>)
    ensures
        r@.len() == params@.len(),
        forall|i: int| 0 <= i < r@.len() ==> (#[trigger] r@[i])@ == spec_item_lifetime(params@[i]),
{
    let mut r: Vec<String> = Vec::new();
    let mut i: usize = 0;
    while i < params.len()
        invariant
            i <= params@.len(),
            r@.len() == i,
            forall|j: int| 0 <= j < i ==> (#[trigger] r@[j])@ == spec_item_lifetime(params@[j]),
        decreases params@.len() - i,
    {
        let l = &params[i];
        let name = if l.bare && crate::macros::syntax::is_named(&l.name, "w") {
            "__w".to_owned()
        } else if l.bare && crate::macros::syntax::is_named(&l.name, "s") {
            "__s".to_owned()
        } else {
            l.name.clone()
        };
        r.push(name);
        i = i + 1;
    }
    r
}

/// The fields the fetch type holds, one per field of the struct, in order.
/// Only structs with named fields are supported (others make the derive panic).
pub fn system_param_fields(data: &Data) -> (r: Vec<String>)
    requires
        data matches Data::Struct(Fields::Named(fs)) && fields_named(fs@),
    ensures
        match *data {
            Data::Struct(Fields::Named(fs)) => r@.len() == fs@.len() && forall|i: int|
                0 <= i < r@.len() ==> r@[i] == ident_of(#[trigger] fs@[i]),
            _ => false,
        },
{
    let mut r: Vec<String> = Vec::new();
    match data {
        Data::Struct(Fields::Named(fs)) => {
            let mut i: usize = 0;
            while i < fs.len()
                invariant
                    i <= fs@.len(),
                    fields_named(fs@),
                    r@.len() == i,
                    forall|j: int| 0 <= j < i ==> r@[j] == ident_of(#[trigger] fs@[j]),
                decreases fs@.len() - i,
            {
                assert(fs@[i as int].ident is Some);
                match &fs[i].ident {
                    Some(s) => r.push(s.clone()),
                    None => r.push(String::new()),
                }
                i = i + 1;
            }
        },
        _ => {},
    }
    r
}

} // verus!
