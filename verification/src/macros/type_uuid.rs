//! Planning of the `type_uuid` attribute.
use vstd::prelude::*;
use vstd::string::*;

verus! {

/// The 128-bit value of the UUID that `text` spells, read as big-endian
/// bytes, or `None` when `text` is no UUID in one of the accepted forms.
pub uninterp spec fn uuid_of_text(text: Seq<char>) -> Option<u128>;

/// Parses `text` with `uuid::Uuid::parse_str` and takes the value with
/// `Uuid::as_u128`. Trusted: the result depends on the text alone and is
/// named [`uuid_of_text`]; which texts parse, and to what, is not stated.
#[verifier::external_body]
fn parse_uuid(text: &str) -> (r: Option<u128>)
    ensures
        r == uuid_of_text(text@),
{
    match uuid::Uuid::parse_str(text) {
        Ok(u) => Some(u.as_u128()),
        Err(_) => None,
    }
}

/// What the attribute generates: the `TypeUuid` impl with this value, or a
/// compile error with this message.
#[derive(Clone, Debug, PartialEq, Eq)]
pub enum TypeUuidPlan {
    Valid(u128),
    Invalid(String),
}

/// The message of the compile error for an unreadable `text`.
pub open spec fn invalid_uuid_message(text: Seq<char>) -> Seq<char> {
    "invalid uuid '"@ + text + "'"@
}

/// `p` is the plan for `text` when its parse gave `parsed`.
pub open spec fn spec_type_uuid(text: Seq<char>, parsed: Option<u128>, p: TypeUuidPlan) -> bool {
    match parsed {
        Some(v) => p == TypeUuidPlan::Valid(v),
        None => p matches TypeUuidPlan::Invalid(m) && m@ == invalid_uuid_message(text),
    }
}

/// The plan for the attribute argument `text` whose UUID parse gave `parsed`.
pub fn type_uuid_from(text: &str, parsed: Option<u128>) -> (p: TypeUuidPlan)
    ensures
        spec_type_uuid(text@, parsed, p),
{
    match parsed {
        Some(v) => TypeUuidPlan::Valid(v),
        None => {
            let m = "invalid uuid '".to_owned().concat(text).concat("'");
            TypeUuidPlan::Invalid(m)
        },
    }
}

/// The plan for the attribute argument `text`: the UUID's value when it
/// parses, an error naming `text` otherwise.
pub fn type_uuid(text: &str) -> (p: TypeUuidPlan)
    ensures
        spec_type_uuid(text@, uuid_of_text(text@), p),
{
    let parsed = parse_uuid(text);
    type_uuid_from(text, parsed)
}

} // verus!
