use vstd::prelude::*;

verus! {

/// A semantic version held as three plain numbers.
///
/// Version values arrive from the front end (the Vyper compiler's own
/// version) and from this compiler itself; both flow into the metadata
/// fingerprint.
#[derive(Clone, Copy, Debug, PartialEq, Eq, Structural)]
pub struct Version {
    pub major: u64,
    pub minor: u64,
    pub patch: u64,
}

impl Version {
    pub fn new(major: u64, minor: u64, patch: u64) -> (r: Version)
        ensures
            r == (Version { major, minor, patch }),
    {
        Version { major, minor, patch }
    }
}

/// The version of this target compiler, embedded in every metadata
/// fingerprint beside the front end's own version.
pub fn target_compiler_version() -> (r: Version)
    ensures
        r == (Version { major: 1u64, minor: 3u64, patch: 17u64 }),
{
    Version { major: 1, minor: 3, patch: 17 }
}

} // verus!
