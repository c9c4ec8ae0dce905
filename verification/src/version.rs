use vstd::prelude::*;
use vstd::string::StringExecFns;

verus! {

/// A concrete semantic version, held as its three numeric components.
///
/// Pre-release and build metadata play no part in the rules this library
/// verifies (cache keys, resolution results and integrity checks all compare
/// plain numeric versions), so they are not modelled.
#[derive(Clone, Copy, PartialEq, Eq, Structural, Hash, Debug)]
pub struct Version {
    pub major: u64,
    pub minor: u64,
    pub patch: u64,
}

/// The decimal digit character for `d` (meaningful for `d <= 9`).
pub open spec fn dec_digit(d: nat) -> char {
    if d == 0 {
        '0'
    } else if d == 1 {
        '1'
    } else if d == 2 {
        '2'
    } else if d == 3 {
        '3'
    } else if d == 4 {
        '4'
    } else if d == 5 {
        '5'
    } else if d == 6 {
        '6'
    } else if d == 7 {
        '7'
    } else if d == 8 {
        '8'
    } else {
        '9'
    }
}

/// The decimal representation of `n`, most significant digit first, with no
/// sign, padding or separators.
pub open spec fn dec_rep(n: nat) -> Seq<char>
    decreases n,
{
    if n < 10 {
        seq![dec_digit(n)]
    } else {
        dec_rep(n / 10).push(dec_digit(n % 10))
    }
}

/// The rendering `{major}.{minor}.{patch}` of a version, used as the name of
/// its cache directory.
pub open spec fn version_chars(v: Version) -> Seq<char> {
    dec_rep(v.major as nat) + seq!['.'] + dec_rep(v.minor as nat) + seq!['.'] + dec_rep(
        v.patch as nat,
    )
}

/// Relies on std's `Display` implementation for `u64`, documented to render
/// the number in decimal with no sign, padding or separators.
#[verifier::external_body]
fn u64_to_string(n: u64) -> (r: String)
    ensures
        r@ == dec_rep(n as nat),
{
    format!("{}", n)
}

/// What `semver`'s requirement matching says of the version
/// `major.minor.patch` against the requirement text `range`. Parsing and
/// matching are functions of the two arguments alone, so the result can be
/// given a name; a requirement text that does not parse matches no version.
pub uninterp spec fn range_matches_spec(range: Seq<char>, major: u64, minor: u64, patch: u64) -> bool;

/// Relies on `semver::VersionReq::parse` and `semver::VersionReq::matches`:
/// both compute from the requirement text and the version alone. A
/// requirement text that fails to parse is treated as satisfied by no
/// version.
#[verifier::external_body]
pub(crate) fn range_matches(range: &String, v: &Version) -> (r: bool)
    ensures
        r == range_matches_spec(range@, v.major, v.minor, v.patch),
{
    match semver::VersionReq::parse(range.as_str()) {
        Ok(req) => req.matches(&semver::Version::new(v.major, v.minor, v.patch)),
        Err(_) => false,
    }
}

impl Version {
    pub fn new(major: u64, minor: u64, patch: u64) -> (r: Version)
        ensures
            r == (Version { major, minor, patch }),
    {
        Version { major, minor, patch }
    }

    /// Renders this version as `{major}.{minor}.{patch}`.
    pub fn to_version_string(&self) -> (r: String)
        ensures
            r@ == version_chars(*self),
    {
        proof {
            reveal_strlit(".");
            assert("."@ =~= seq!['.']);
        }
        let s = u64_to_string(self.major);
        let s = s.concat(".");
        let minor_s = u64_to_string(self.minor);
        let s = s.concat(minor_s.as_str());
        let s = s.concat(".");
        let patch_s = u64_to_string(self.patch);
        let r = s.concat(patch_s.as_str());
        proof {
            assert(r@ =~= version_chars(*self));
        }
        r
    }
}

} // verus!
