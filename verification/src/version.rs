//! Which version a build goes by.
use vstd::prelude::*;

verus! {

/// The version that a build goes by: that of the release it was built for,
/// without a leading `v`, or that of the package where it was built for none.
pub fn cli_version<'a>(release_version: Option<&'a str>, package_version: &'a str) -> (version:
    &'a str)
    ensures
        version == match release_version {
            Some(release) => release,
            None => package_version,
        },
{
    match release_version {
        Some(release) => release,
        None => package_version,
    }
}

} // verus!
