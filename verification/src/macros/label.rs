//! Planning of the label derives.
use vstd::prelude::*;
use crate::macros::syntax::{Data, Fields, Variant};

verus! {

/// The variant names a label derive matches on: for an enum whose variants
/// are all unit variants, their names in order; for anything else nothing,
/// in which case the label is built from the value's hash.
pub open spec fn spec_raw_label(d: Data) -> Option<Seq<String>> {
    match d {
        Data::Enum(vs) => if forall|i: int| 0 <= i < vs@.len() ==> (#[trigger] vs@[i]).fields is Unit {
            Some(vs@.map_values(|v: Variant| v.ident))
        } else {
            None
        },
        _ => None,
    }
}

/// The variant names a label derive matches on; see [`spec_raw_label`].
pub fn raw_label(data: &Data) -> (r: Option<Vec<String>>)
    ensures
        r is Some <==> spec_raw_label(*data) is Some,
        r matches Some(names) ==> spec_raw_label(*data) == Some(names@),
{
    match data {
        Data::Enum(vs) => {
            let mut names: Vec<String> = Vec::new();
            let mut i: usize = 0;
            while i < vs.len()
                invariant
                    i <= vs@.len(),
                    *data == Data::Enum(*vs),
                    names@.len() == i,
                    forall|j: int| 0 <= j < i ==> (#[trigger] vs@[j]).fields is Unit,
                    forall|j: int| 0 <= j < i ==> names@[j] == (#[trigger] vs@[j]).ident,
                decreases vs@.len() - i,
            {
                match &vs[i].fields {
                    Fields::Unit => {},
                    _ => {
                        assert(!((vs@[i as int]).fields is Unit));
                        return None;
                    },
                }
                names.push(vs[i].ident.clone());
                i = i + 1;
            }
            assert(names@ =~= vs@.map_values(|v: Variant| v.ident));
            Some(names)
        },
        _ => None,
    }
}

} // verus!
