//! Planning of the `Component` derive: which reflection registrations a
//! component's type registration receives.
use vstd::prelude::*;

verus! {

/// A type data entry added to a component's registration.
#[derive(Clone, Copy, Debug, PartialEq, Eq)]
pub enum Registration {
    /// The component can be reflected.
    ReflectComponent,
}

/// The number of plain `Reflect` entries in one `#[derive(..)]` list, each
/// entry given by its identifier when it is a bare identifier.
pub open spec fn reflect_count(list: Seq<Option<String>>) -> nat
    decreases list.len(),
{
    if list.len() == 0 {
        0
    } else {
        reflect_count(list.drop_last()) + if list.last() matches Some(s) && s@ == "Reflect"@ {
            1nat
        } else {
            0nat
        }
    }
}

/// The number of `Reflect` entries over all `#[derive(..)]` lists.
pub open spec fn reflect_count_all(lists: Seq<Vec<Option<String>>>) -> nat
    decreases lists.len(),
{
    if lists.len() == 0 {
        0
    } else {
        reflect_count_all(lists.drop_last()) + reflect_count(lists.last()@)
    }
}

/// The registrations implied by a type's derives.
#[derive(Clone, Debug, PartialEq, Eq)]
pub struct DerivedTraits {
    pub registrations: Vec<Registration>,
}

impl DerivedTraits {
    /// Reads the type's `#[derive(..)]` lists in order: each `Reflect` entry
    /// adds a `ReflectComponent` registration.
    pub fn new(derive_lists: &Vec<Vec<Option<String>>>) -> (t: DerivedTraits)
        ensures
            t.registrations@.len() == reflect_count_all(derive_lists@),
            forall|i: int| 0 <= i < t.registrations@.len() ==> #[trigger] t.registrations@[i]
                == Registration::ReflectComponent,
    {
        let mut registrations: Vec<Registration> = Vec::new();
        let mut i: usize = 0;
        while i < derive_lists.len()
            invariant
                i <= derive_lists@.len(),
                registrations@.len() == reflect_count_all(derive_lists@.take(i as int)),
                forall|k: int| 0 <= k < registrations@.len() ==> #[trigger] registrations@[k]
                    == Registration::ReflectComponent,
            decreases derive_lists@.len() - i,
        {
            let list = &derive_lists[i];
            let mut j: usize = 0;
            let ghost base = registrations@.len();
            while j < list.len()
                invariant
                    j <= list@.len(),
                    registrations@.len() == base + reflect_count(list@.take(j as int)),
                    forall|k: int| 0 <= k < registrations@.len() ==> #[trigger] registrations@[k]
                        == Registration::ReflectComponent,
                decreases list@.len() - j,
            {
                assert(list@.take(j + 1).drop_last() =~= list@.take(j as int));
                let is_reflect = match &list[j] {
                    Some(s) => crate::macros::syntax::is_named(s, "Reflect"),
                    None => false,
                };
                if is_reflect {
                    registrations.push(Registration::ReflectComponent);
                }
                j = j + 1;
            }
            assert(list@.take(list@.len() as int) =~= list@);
            assert(derive_lists@.take(i + 1).drop_last() =~= derive_lists@.take(i as int));
            i = i + 1;
        }
        assert(derive_lists@.take(derive_lists@.len() as int) =~= derive_lists@);
        DerivedTraits { registrations }
    }
}

} // verus!
