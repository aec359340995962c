//! Errors of reading the shared configuration that lists the profiles.

use vstd::prelude::*;

verus! {

/// Why the shared configuration could not be read, in whole or for one
/// profile.
#[derive(Debug, Clone, Copy, PartialEq, Eq, Structural)]
pub enum ConfigurationError {
    InvalidProfileNameError,
    ProfileLoadError,
}

impl ConfigurationError {
    /// The human-readable message of the error.
    pub open spec fn spec_message(self) -> Seq<char> {
        match self {
            ConfigurationError::InvalidProfileNameError => "invalid profile name"@,
            ConfigurationError::ProfileLoadError => "failed to load profile"@,
        }
    }

    pub fn message(&self) -> (r: &'static str)
        ensures
            r@ == self.spec_message(),
    {
        match self {
            ConfigurationError::InvalidProfileNameError => "invalid profile name",
            ConfigurationError::ProfileLoadError => "failed to load profile",
        }
    }
}

} // verus!
