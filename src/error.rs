use vstd::prelude::*;

verus! {

/// What went wrong, by the stage of the pipeline where it happened.
#[derive(Clone, Copy, Debug, PartialEq, Eq, Structural)]
pub enum ReleaseError {
    /// The configuration of the release could not be read or is not valid.
    Configuration,
    /// The build tool of a sub-product reported a failure.
    Build,
    /// A copy that the release cannot do without failed.
    Copy,
    /// The checksum manifest could not be written.
    Checksum,
    /// A mandatory signature could not be made.
    Signing,
    /// The archive could not be made.
    Publish,
}

impl ReleaseError {
    /// A short lower-case name of the error kind.
    pub fn name(&self) -> (r: String)
        ensures
            r@ == self.name_spec(),
    {
        match self {
            ReleaseError::Configuration => String::from_str("configuration"),
            ReleaseError::Build => String::from_str("build"),
            ReleaseError::Copy => String::from_str("copy"),
            ReleaseError::Checksum => String::from_str("checksum"),
            ReleaseError::Signing => String::from_str("signing"),
            ReleaseError::Publish => String::from_str("publish"),
        }
    }

    pub open spec fn name_spec(&self) -> Seq<char> {
        match self {
            ReleaseError::Configuration => "configuration"@,
            ReleaseError::Build => "build"@,
            ReleaseError::Copy => "copy"@,
            ReleaseError::Checksum => "checksum"@,
            ReleaseError::Signing => "signing"@,
            ReleaseError::Publish => "publish"@,
        }
    }
}

} // verus!
