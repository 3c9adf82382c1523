//! Resolution of the paths by which generated code names the engine's crates.
use vstd::prelude::*;
use vstd::string::*;

verus! {

/// What a lookup of a crate in the calling package's manifest found.
#[derive(Clone, Debug, PartialEq, Eq)]
pub enum FoundCrate {
    /// The crate being compiled is the one looked up.
    Itself,
    /// A dependency, under this name.
    Name(String),
}

/// A path in generated code: `::a::b` when `leading_colon`, `a::b` otherwise.
#[derive(Clone, Debug, PartialEq, Eq)]
pub struct CratePath {
    pub leading_colon: bool,
    pub segments: Vec<String>,
}

/// The path of a found crate: `crate` for the crate itself, `::name` for a
/// dependency.
pub open spec fn spec_crate_path(found: FoundCrate) -> (bool, Seq<Seq<char>>) {
    match found {
        FoundCrate::Itself => (false, seq!["crate"@]),
        FoundCrate::Name(n) => (true, seq![n@]),
    }
}

/// `p` is the path (`leading`, `segments`).
pub open spec fn path_is(p: CratePath, leading: bool, segments: Seq<Seq<char>>) -> bool {
    &&& p.leading_colon == leading
    &&& p.segments@.len() == segments.len()
    &&& forall|i: int| 0 <= i < segments.len() ==> (#[trigger] p.segments@[i])@ == segments[i]
}

fn segment(s: &str) -> (r: String)
    ensures
        r@ == s@,
{
    s.to_owned()
}

/// The path of a found crate; see [`spec_crate_path`].
pub fn get_crate(found: &FoundCrate) -> (p: CratePath)
    ensures
        path_is(p, spec_crate_path(*found).0, spec_crate_path(*found).1),
{
    match found {
        FoundCrate::Itself => {
            let mut segments: Vec<String> = Vec::new();
            segments.push(segment("crate"));
            CratePath { leading_colon: false, segments }
        },
        FoundCrate::Name(name) => {
            let mut segments: Vec<String> = Vec::new();
            segments.push(name.clone());
            CratePath { leading_colon: true, segments }
        },
    }
}

/// The package name under which the engine's `sub` crate is looked up: `ike-<sub>`.
pub fn ike_crate_name(sub: &str) -> (name: String)
    ensures
        name@ == "ike-"@ + sub@,
{
    let prefix = "ike-".to_owned();
    prefix.concat(sub)
}

/// The path of the engine's `sub` crate, given what the lookups of
/// `ike-<sub>` and of `ike` found: the `ike-<sub>` crate when the package
/// depends on it, otherwise `sub` inside the `ike` crate. A package that
/// depends on neither is refused (the derive panics).
pub fn get_ike(sub: &str, ike_sub: &Option<FoundCrate>, ike: &Option<FoundCrate>) -> (p: CratePath)
    requires
        ike_sub is Some || ike is Some,
    ensures
        *ike_sub matches Some(f) ==> path_is(p, spec_crate_path(f).0, spec_crate_path(f).1),
        ike_sub is None ==> match *ike {
            Some(f) => path_is(p, spec_crate_path(f).0, spec_crate_path(f).1.push(sub@)),
            None => false,
        },
{
    match ike_sub {
        Some(found) => get_crate(found),
        None => {
            let found = match ike {
                Some(f) => f,
                None => {
                    return CratePath { leading_colon: false, segments: Vec::new() };
                },
            };
            let mut p = get_crate(found);
            p.segments.push(segment(sub));
            p
        },
    }
}

/// Where the ECS that the generated code uses lives, given what the lookups
/// of `shiv`, `ike-ecs` and `ike` found: `::shiv` (under its name) first, then
/// `::ike-ecs`, then `ecs` inside `ike` (written `ike::ecs` when `ike` is the
/// crate itself or cannot be found). A package that is `shiv` or `ike-ecs`
/// itself is refused (the macro panics).
pub fn find_shiv(shiv: &Option<FoundCrate>, ike_ecs: &Option<FoundCrate>, ike: &Option<FoundCrate>) -> (p: CratePath)
    requires
        !(*shiv == Some(FoundCrate::Itself)),
        shiv is None ==> !(*ike_ecs == Some(FoundCrate::Itself)),
    ensures
        *shiv matches Some(FoundCrate::Name(n)) ==> path_is(p, true, seq![n@]),
        shiv is None ==> match *ike_ecs {
            Some(FoundCrate::Name(n)) => path_is(p, true, seq![n@]),
            _ => true,
        },
        shiv is None && ike_ecs is None ==> match *ike {
            Some(FoundCrate::Name(n)) => path_is(p, true, seq![n@, "ecs"@]),
            _ => path_is(p, false, seq!["ike"@, "ecs"@]),
        },
{
    let mut segments: Vec<String> = Vec::new();
    match shiv {
        Some(FoundCrate::Name(name)) => {
            segments.push(name.clone());
            return CratePath { leading_colon: true, segments };
        },
        _ => {},
    }
    match ike_ecs {
        Some(FoundCrate::Name(name)) => {
            segments.push(name.clone());
            return CratePath { leading_colon: true, segments };
        },
        _ => {},
    }
    match ike {
        Some(FoundCrate::Name(name)) => {
            segments.push(name.clone());
            segments.push(segment("ecs"));
            CratePath { leading_colon: true, segments }
        },
        _ => {
            segments.push(segment("ike"));
            segments.push(segment("ecs"));
            CratePath { leading_colon: false, segments }
        },
    }
}

} // verus!
