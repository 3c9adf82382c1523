//! The `#[reflect(..)]` helper attributes of the `Reflect` derive.
use vstd::prelude::*;
use syn::punctuated::Punctuated;
use syn::token::Comma;
use syn::WherePredicate;
use crate::macros::syntax::{Attribute, AttrInput, Field, Token, ident_tok, is_ident_token, path_is_ident};

verus! {

/// Options a field gives through `#[reflect(..)]`.
#[derive(Clone, Copy, Debug, Default, PartialEq, Eq)]
pub struct FieldAttrs {
    pub ignore: bool,
}

/// `a` is a `#[reflect(..)]` attribute.
pub open spec fn is_reflect_attr(a: Attribute) -> bool {
    a.path_ident matches Some(s) && s@ == "reflect"@
}

/// A `#[reflect(..)]` attribute that a field accepts: one group holding
/// nothing or the single keyword `ignore`. Any other `reflect` attribute
/// makes the derive panic.
pub open spec fn field_attr_accepted(a: Attribute) -> bool {
    is_reflect_attr(a) ==> match a.input {
        AttrInput::Delimited(t) => t.len() == 0 || (t.len() == 1 && ident_tok(t[0], "ignore"@)),
        _ => false,
    }
}

/// `a` is `#[reflect(ignore)]`.
pub open spec fn sets_ignore(a: Attribute) -> bool {
    &&& is_reflect_attr(a)
    &&& a.input matches AttrInput::Delimited(t)
    &&& t.len() == 1
    &&& ident_tok(t[0], "ignore"@)
}

/// Every attribute of the list is accepted.
pub open spec fn field_attrs_accepted(attrs: Seq<Attribute>) -> bool {
    forall|i: int| 0 <= i < attrs.len() ==> field_attr_accepted(#[trigger] attrs[i])
}

/// The list holds `#[reflect(ignore)]`.
pub open spec fn attrs_ignore(attrs: Seq<Attribute>) -> bool {
    exists|i: int| 0 <= i < attrs.len() && sets_ignore(#[trigger] attrs[i])
}

/// The field's attributes are accepted.
pub open spec fn field_accepted(f: Field) -> bool {
    field_attrs_accepted(f.attrs@)
}

/// The field takes part in reflection: it is not marked `#[reflect(ignore)]`.
pub open spec fn field_kept(f: Field) -> bool {
    !attrs_ignore(f.attrs@)
}

impl FieldAttrs {
    /// Reads the options of a field's attributes, or `None` where a
    /// `#[reflect(..)]` attribute is malformed.
    pub fn parse(attrs: &Vec<Attribute>) -> (r: Option<FieldAttrs>)
        ensures
            r is Some <==> field_attrs_accepted(attrs@),
            r matches Some(fa) ==> fa.ignore == attrs_ignore(attrs@),
    {
        let mut ignore = false;
        let mut i: usize = 0;
        while i < attrs.len()
            invariant
                i <= attrs@.len(),
                forall|j: int| 0 <= j < i ==> field_attr_accepted(#[trigger] attrs@[j]),
                ignore == exists|j: int| 0 <= j < i && sets_ignore(#[trigger] attrs@[j]),
            decreases attrs@.len() - i,
        {
            let a = &attrs[i];
            if path_is_ident(a, "reflect") {
                match &a.input {
                    AttrInput::Delimited(t) => {
                        if t.len() == 0 {
                        } else if t.len() == 1 && is_ident_token(&t[0], "ignore") {
                            ignore = true;
                        } else {
                            assert(!field_attr_accepted(attrs@[i as int]));
                            return None;
                        }
                    },
                    _ => {
                        assert(!field_attr_accepted(attrs@[i as int]));
                        return None;
                    },
                }
            }
            i = i + 1;
        }
        Some(FieldAttrs { ignore })
    }

    /// Reads the options of a field's attributes: `ignore` is set when one of
    /// them is `#[reflect(ignore)]`.
    pub fn new(attrs: &Vec<Attribute>) -> (r: FieldAttrs)
        requires
            field_attrs_accepted(attrs@),
        ensures
            r.ignore == attrs_ignore(attrs@),
    {
        match Self::parse(attrs) {
            Some(fa) => fa,
            None => FieldAttrs { ignore: false },
        }
    }
}

/// Whether the field takes part in reflection, that is, carries no
/// `#[reflect(ignore)]`.
pub fn ignore_field(field: &Field) -> (kept: bool)
    requires
        field_accepted(*field),
    ensures
        kept == field_kept(*field),
{
    let attrs = FieldAttrs::new(&field.attrs);
    !attrs.ignore
}

#[verifier::external_type_specification]
#[verifier::external_body]
#[verifier::reject_recursive_types(T)]
#[verifier::reject_recursive_types(P)]
pub struct ExPunctuated<T, P>(Punctuated<T, P>);

#[verifier::external_type_specification]
#[verifier::external_body]
pub struct ExWherePredicate(WherePredicate);

#[verifier::external_type_specification]
#[verifier::external_body]
pub struct ExComma(Comma);

/// Whether `text` reads, in full, as a comma separated list of where-clause
/// predicates (a trailing comma allowed).
pub uninterp spec fn where_predicates_parse(text: Seq<char>) -> bool;

/// Parses `text` as comma separated where-clause predicates with syn's
/// `Punctuated::<WherePredicate, Token![,]>::parse_terminated` through
/// `Parser::parse_str`. Trusted: the result is `Some` exactly when syn accepts
/// the whole text; which predicates it holds is not stated.
#[verifier::external_body]
fn parse_where_predicates(text: &str) -> (r: Option<Punctuated<WherePredicate, Comma>>)
    ensures
        r is Some <==> where_predicates_parse(text@),
{
    syn::parse::Parser::parse_str(Punctuated::<WherePredicate, Comma>::parse_terminated, text).ok()
}

/// Options a type gives through `#[reflect(..)]`: extra where-clause bounds
/// and whether it is a component.
pub struct ContainerAttrs {
    pub bound: Option<Punctuated<WherePredicate, Comma>>,
    pub component: bool,
}

/// How far the arguments of a container's `#[reflect(..)]` are read: a
/// `bound = "<predicates>"` part, read token by token for as long as it
/// matches, then an optional `Component` keyword. Gives the number of tokens
/// read, the text of a complete bound, and whether `Component` was read.
pub open spec fn container_scan(t: Seq<Token>) -> (int, Option<Seq<char>>, bool) {
    let (n, bound) = if t.len() >= 1 && ident_tok(t[0], "bound"@) {
        let is_eq = t.len() >= 2 && match &t[1] {
            Token::Punct(c) => *c == '=',
            _ => false,
        };
        if is_eq {
            if t.len() >= 3 && t[2] matches Token::LitStr(v) {
                (3int, Some(t[2]->LitStr_0@))
            } else {
                (2int, None)
            }
        } else {
            (1int, None)
        }
    } else {
        (0int, None)
    };
    if n < t.len() && ident_tok(t[n], "Component"@) {
        (n + 1, bound, true)
    } else {
        (n, bound, false)
    }
}

/// A container attribute that the derive accepts: a `reflect` attribute must
/// be one group whose tokens are read in full, and whose bound text parses.
pub open spec fn container_attr_accepted(a: Attribute) -> bool {
    is_reflect_attr(a) ==> match a.input {
        AttrInput::Delimited(t) => {
            let (n, bound, _) = container_scan(t@);
            &&& n == t.len()
            &&& bound matches Some(text) ==> where_predicates_parse(text)
        },
        _ => false,
    }
}

/// The bound text that `a` gives, if any.
pub open spec fn attr_bound(a: Attribute) -> Option<Seq<char>> {
    match a.input {
        AttrInput::Delimited(t) => if is_reflect_attr(a) {
            container_scan(t@).1
        } else {
            None
        },
        _ => None,
    }
}

/// `a` marks the type as a component.
pub open spec fn attr_component(a: Attribute) -> bool {
    match a.input {
        AttrInput::Delimited(t) => is_reflect_attr(a) && container_scan(t@).2,
        _ => false,
    }
}

pub open spec fn container_attrs_accepted(attrs: Seq<Attribute>) -> bool {
    forall|i: int| 0 <= i < attrs.len() ==> container_attr_accepted(#[trigger] attrs[i])
}

/// Reads the tokens of one container attribute's group.
fn scan_container_tokens(t: &Vec<Token>) -> (r: (usize, Option<String>, bool))
    ensures
        r.0 == container_scan(t@).0,
        r.1 is Some <==> container_scan(t@).1 is Some,
        r.1 matches Some(b) ==> container_scan(t@).1 == Some(b@),
        r.2 == container_scan(t@).2,
{
    let mut n: usize = 0;
    let mut bound: Option<String> = None;
    if t.len() >= 1 && is_ident_token(&t[0], "bound") {
        n = 1;
        let is_eq = t.len() >= 2 && match &t[1] {
            Token::Punct(c) => *c == '=',
            _ => false,
        };
        if is_eq {
            n = 2;
            if t.len() >= 3 {
                match &t[2] {
                    Token::LitStr(v) => {
                        n = 3;
                        bound = Some(v.clone());
                    },
                    _ => {},
                }
            }
        }
    }
    if n < t.len() && is_ident_token(&t[n], "Component") {
        (n + 1, bound, true)
    } else {
        (n, bound, false)
    }
}

impl ContainerAttrs {
    /// Reads a type's `#[reflect(..)]` attributes in order: each complete
    /// `bound = ".."` replaces the bounds read so far, and `Component` marks
    /// the type as a component. `None` where an attribute is malformed or its
    /// bound does not parse.
    pub fn parse(attrs: &Vec<Attribute>) -> (r: Option<ContainerAttrs>)
        ensures
            r is Some <==> container_attrs_accepted(attrs@),
            r matches Some(ca) ==> {
                &&& (ca.bound is Some <==> exists|j: int|
                    0 <= j < attrs@.len() && #[trigger] attr_bound(attrs@[j]) is Some)
                &&& ca.component == exists|j: int|
                    0 <= j < attrs@.len() && #[trigger] attr_component(attrs@[j])
            },
    {
        let mut bound: Option<Punctuated<WherePredicate, Comma>> = None;
        let mut component = false;
        let mut i: usize = 0;
        while i < attrs.len()
            invariant
                i <= attrs@.len(),
                forall|j: int| 0 <= j < i ==> container_attr_accepted(#[trigger] attrs@[j]),
                bound is Some == exists|j: int| 0 <= j < i && #[trigger] attr_bound(attrs@[j]) is Some,
                component == exists|j: int| 0 <= j < i && #[trigger] attr_component(attrs@[j]),
            decreases attrs@.len() - i,
        {
            let a = &attrs[i];
            if path_is_ident(a, "reflect") {
                match &a.input {
                    AttrInput::Delimited(t) => {
                        let (n, text, comp) = scan_container_tokens(t);
                        if n != t.len() {
                            assert(!container_attr_accepted(attrs@[i as int]));
                            return None;
                        }
                        match text {
                            Some(text) => {
                                let parsed = parse_where_predicates(text.as_str());
                                match parsed {
                                    Some(p) => {
                                        bound = Some(p);
                                    },
                                    None => {
                                        assert(!container_attr_accepted(attrs@[i as int]));
                                        return None;
                                    },
                                }
                            },
                            None => {},
                        }
                        if comp {
                            assert(attr_component(attrs@[i as int]));
                            component = true;
                        }
                    },
                    _ => {
                        assert(!container_attr_accepted(attrs@[i as int]));
                        return None;
                    },
                }
            }
            assert(attr_bound(attrs@[i as int]) is Some ==> bound is Some);
            assert(attr_component(attrs@[i as int]) ==> component);
            i = i + 1;
        }
        Some(ContainerAttrs { bound, component })
    }

    /// Reads a type's `#[reflect(..)]` attributes; see [`ContainerAttrs::parse`].
    pub fn new(attrs: &Vec<Attribute>) -> (r: ContainerAttrs)
        requires
            container_attrs_accepted(attrs@),
        ensures
            r.bound is Some <==> exists|j: int|
                0 <= j < attrs@.len() && #[trigger] attr_bound(attrs@[j]) is Some,
            r.component == exists|j: int| 0 <= j < attrs@.len() && #[trigger] attr_component(attrs@[j]),
    {
        match Self::parse(attrs) {
            Some(ca) => ca,
            None => ContainerAttrs { bound: None, component: false },
        }
    }
}

} // verus!
