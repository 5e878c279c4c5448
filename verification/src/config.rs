//! The crate configuration read from the app's manifest: its name as a
//! Rust identifier, its version, and whether its data persists.

use vstd::prelude::*;
use vstd::string::*;

verus! {

/// semver's version type, carried through unchanged.
#[verifier::external_type_specification]
#[verifier::external_body]
pub struct ExVersion(semver::Version);

/// semver's error type, carried through unchanged.
#[verifier::external_type_specification]
#[verifier::external_body]
pub struct ExSemverError(semver::Error);

/// The version that semver reads from a text, `None` when it is not a valid
/// version.
pub uninterp spec fn semver_version(text: Seq<char>) -> Option<semver::Version>;

/// Calls semver's `Version::parse`. Claimed: the result depends on the text
/// alone; what it is, is only named.
#[verifier::external_body]
fn parse_version(text: &str) -> (r: Result<semver::Version, semver::Error>)
    ensures
        r is Ok <==> semver_version(text@) is Some,
        r matches Ok(v) ==> semver_version(text@) == Some(v),
{
    semver::Version::parse(text)
}

/// A package name as a crate name: dashes become underscores.
pub open spec fn crate_name_of(package: Seq<char>) -> Seq<char> {
    package.map_values(|c: char| if c == '-' { '_' } else { c })
}

pub fn crate_name(package: &str) -> (r: String)
    ensures
        r@ == crate_name_of(package@),
{
    let n = package.unicode_len();
    let mut r = String::new();
    let mut i: usize = 0;
    while i < n
        invariant
            n == package@.len(),
            i <= n,
            r@ == crate_name_of(package@.take(i as int)),
        decreases n - i,
    {
        let c = package.get_char(i);
        if c == '-' {
            r.append("_");
        } else {
            r.append(package.substring_char(i, i + 1));
        }
        proof {
            reveal_strlit("_");
            assert(package@.take(i + 1) =~= package@.take(i as int).push(c));
            assert(crate_name_of(package@.take(i + 1)) =~= crate_name_of(package@.take(i as int)).push(
                if c == '-' { '_' } else { c },
            ));
        }
        i = i + 1;
    }
    assert(package@.take(n as int) =~= package@);
    r
}

/// The app's version: the manifest's, or `0.0.0` when it gives none; `None`
/// when the text is not a valid version.
pub fn crate_version(declared: Option<&str>) -> (r: Option<semver::Version>)
    ensures
        r == semver_version(match declared {
            Some(v) => v@,
            None => "0.0.0"@,
        }),
{
    let text = match declared {
        Some(v) => v,
        None => "0.0.0",
    };
    match parse_version(text) {
        Ok(v) => Some(v),
        Err(_) => None,
    }
}

/// Whether the app's data persists: the `persistent` setting of its `prest`
/// table when that is a boolean, and yes otherwise.
pub fn persistent_setting(setting: Option<Option<Option<bool>>>) -> (r: bool)
    ensures
        r == (match setting {
            Some(Some(Some(v))) => v,
            _ => true,
        }),
{
    match setting {
        Some(Some(Some(v))) => v,
        _ => true,
    }
}

} // verus!
