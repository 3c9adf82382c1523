//! The parts of Rust syntax that the macros inspect, as plain values.
use vstd::prelude::*;

verus! {

/// One token inside an attribute's delimited arguments.
#[derive(Clone, Debug, PartialEq, Eq)]
pub enum Token {
    /// An identifier or keyword, as written.
    Ident(String),
    /// A punctuation character.
    Punct(char),
    /// A string literal, by its value.
    LitStr(String),
    /// Any other literal.
    OtherLit,
    /// A delimited group of tokens.
    Group,
}

/// What follows an attribute's path.
#[derive(Clone, Debug, PartialEq, Eq)]
pub enum AttrInput {
    /// Nothing: `#[reflect]`.
    Empty,
    /// Exactly one parenthesized, bracketed or braced group, holding these tokens.
    Delimited(Vec<Token>),
    /// Anything else, such as `#[reflect = "x"]`.
    Other,
}

/// An attribute: its path when that path is a single plain identifier, and
/// its input.
#[derive(Clone, Debug, PartialEq, Eq)]
pub struct Attribute {
    pub path_ident: Option<String>,
    pub input: AttrInput,
}

/// A field of a struct or a variant: its identifier (for named fields) and
/// its attributes.
#[derive(Clone, Debug, PartialEq, Eq)]
pub struct Field {
    pub ident: Option<String>,
    pub attrs: Vec<Attribute>,
}

/// The fields of a struct or a variant.
#[derive(Clone, Debug, PartialEq, Eq)]
pub enum Fields {
    Named(Vec<Field>),
    Unnamed(Vec<Field>),
    Unit,
}

/// A variant of an enum.
#[derive(Clone, Debug, PartialEq, Eq)]
pub struct Variant {
    pub ident: String,
    pub fields: Fields,
}

/// The body of a type a derive is applied to.
#[derive(Clone, Debug, PartialEq, Eq)]
pub enum Data {
    Struct(Fields),
    Enum(Vec<Variant>),
    Union,
}

/// `t` is the identifier `lit`.
pub open spec fn ident_tok(t: Token, lit: Seq<char>) -> bool {
    t matches Token::Ident(s) && s@ == lit
}

/// Whether `s` reads as the text `lit`.
pub fn is_named(s: &String, lit: &str) -> (r: bool)
    ensures
        r == (s@ == lit@),
{
    let owned = lit.to_owned();
    *s == owned
}

/// Whether `t` is the identifier `lit`.
pub fn is_ident_token(t: &Token, lit: &str) -> (r: bool)
    ensures
        r == ident_tok(*t, lit@),
{
    match t {
        Token::Ident(s) => is_named(s, lit),
        _ => false,
    }
}

/// Whether the path of `a` is the single identifier `lit`.
pub fn path_is_ident(a: &Attribute, lit: &str) -> (r: bool)
    ensures
        r == (a.path_ident matches Some(s) && s@ == lit@),
{
    match &a.path_ident {
        Some(s) => is_named(s, lit),
        None => false,
    }
}

} // verus!
