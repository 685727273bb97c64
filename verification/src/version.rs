//! API versions and their ordering.

use vstd::prelude::*;

verus! {

/// A version of the native API, ordered by `major` first and `minor` second.
#[derive(Clone, Copy, Debug, PartialEq, Eq, Structural)]
pub struct Version {
    /// Major component.
    pub major: u8,
    /// Minor component.
    pub minor: u8,
}

impl Version {
    /// The earliest version a connection can speak: 1.0.
    pub open spec fn spec_earliest() -> Version {
        Version { major: 1, minor: 0 }
    }

    /// Whether `self` is the same as or later than `floor` in the lexicographic
    /// order on (major, minor).
    pub open spec fn spec_at_least(self, floor: Version) -> bool {
        self.major > floor.major || (self.major == floor.major && self.minor >= floor.minor)
    }

    /// Whether a pair of reported numbers is a version: the major component is
    /// at least 1 and both fit in a byte.
    pub open spec fn well_formed(major: i32, minor: i32) -> bool {
        1 <= major <= 255 && 0 <= minor <= 255
    }

    /// The version that a reported pair of numbers stands for, or the earliest
    /// one where the pair is no version.
    pub open spec fn spec_from_reported(major: i32, minor: i32) -> Version {
        if Self::well_formed(major, minor) {
            Version { major: major as u8, minor: minor as u8 }
        } else {
            Self::spec_earliest()
        }
    }

    /// Builds a version from its two components.
    pub fn new(major: u8, minor: u8) -> (version: Version)
        ensures
            version == (Version { major, minor }),
    {
        Version { major, minor }
    }

    /// The earliest version a connection can speak.
    #[verifier::when_used_as_spec(spec_earliest)]
    pub fn earliest() -> (version: Version)
        ensures
            version == Self::spec_earliest(),
    {
        Version { major: 1, minor: 0 }
    }

    /// Reads the pair of numbers that the native initialisation reported. A pair
    /// that is no version degrades to the earliest one rather than failing.
    #[verifier::when_used_as_spec(spec_from_reported)]
    pub fn from_reported(major: i32, minor: i32) -> (version: Version)
        ensures
            version == Self::spec_from_reported(major, minor),
    {
        if 1 <= major && major <= 255 && 0 <= minor && minor <= 255 {
            Version { major: major as u8, minor: minor as u8 }
        } else {
            Version::earliest()
        }
    }

    /// Tests `self` against a floor, major component first.
    #[verifier::when_used_as_spec(spec_at_least)]
    pub fn at_least(self, floor: Version) -> (reached: bool)
        ensures
            reached == self.spec_at_least(floor),
    {
        self.major > floor.major || (self.major == floor.major && self.minor >= floor.minor)
    }
}

} // verus!
