use vstd::prelude::*;

pub mod and;
pub mod eval;
pub mod json;
pub mod osv;
pub mod severity;

verus! {

/// The version string reported by the engine: a release tag, where the
/// build was given one, wins over the package version.
pub fn version<'a>(tag: Option<&'a str>, package_version: &'a str) -> (v: &'a str)
    ensures
        v@ == (match tag {
            Some(t) => t@,
            None => package_version@,
        }),
{
    match tag {
        Some(t) => t,
        None => package_version,
    }
}

/// The answer of the engine's component to a string passed to it.
pub fn something(s: String) -> (r: String)
    ensures
        r@ == "something was passed: "@ + s@,
{
    let mut r = String::from_str("something was passed: ");
    r.append(s.as_str());
    r
}

/// The full name of a pattern of the policy handed to the engine's
/// evaluation component, which places it in the package `wit`.
pub fn wit_pattern_name(name: &str) -> (r: String)
    ensures
        r@ == "wit::"@ + name@,
{
    let mut r = String::from_str("wit::");
    r.append(name);
    r
}

} // verus!
