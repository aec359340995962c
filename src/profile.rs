//! Profiles: named bundles of credentials and region/output settings, and the
//! ordered set of them that the profile files hold.

use crate::ordering::{
    is_blank, is_blank_text, lemma_stable_order_unique, stable_sort_by_name, stably_sorted, Named,
};
use crate::secure_string::SecureString;
use vstd::prelude::*;

verus! {

/// Why a profile operation failed.
#[derive(Debug, Clone, Copy, PartialEq, Eq, Structural)]
pub enum ProfileDataError {
    InvalidProfileNameError,
    ProfileDataLoadError,
    ProfileNotFoundError,
    ConfigFileLoadError,
    ConfigFileWriteError,
    CredentialsFileLoadError,
    CredentialsFileWriteError,
}

/// The name the profile errors go by at the command surface.
pub type ProfileError = ProfileDataError;

impl ProfileDataError {
    /// The stable code of the error, as reported to callers.
    pub open spec fn spec_code(self) -> Seq<char> {
        match self {
            ProfileDataError::InvalidProfileNameError => "InvalidProfileNameError"@,
            ProfileDataError::ProfileDataLoadError => "ProfileDataLoadError"@,
            ProfileDataError::ProfileNotFoundError => "ProfileNotFoundError"@,
            ProfileDataError::ConfigFileLoadError => "ConfigFileLoadError"@,
            ProfileDataError::ConfigFileWriteError => "ConfigFileWriteError"@,
            ProfileDataError::CredentialsFileLoadError => "CredentialsFileLoadError"@,
            ProfileDataError::CredentialsFileWriteError => "CredentialsFileWriteError"@,
        }
    }

    /// The human-readable message of the error.
    pub open spec fn spec_message(self) -> Seq<char> {
        match self {
            ProfileDataError::InvalidProfileNameError => "invalid profile name"@,
            ProfileDataError::ProfileDataLoadError => "failed to load profiles"@,
            ProfileDataError::ProfileNotFoundError => "profile not found"@,
            ProfileDataError::ConfigFileLoadError => "failed to load config file"@,
            ProfileDataError::ConfigFileWriteError => "failed to write config file"@,
            ProfileDataError::CredentialsFileLoadError => "failed to load credentials file"@,
            ProfileDataError::CredentialsFileWriteError => "failed to write credentials file"@,
        }
    }

    pub fn code(&self) -> (r: &'static str)
        ensures
            r@ == self.spec_code(),
    {
        match self {
            ProfileDataError::InvalidProfileNameError => "InvalidProfileNameError",
            ProfileDataError::ProfileDataLoadError => "ProfileDataLoadError",
            ProfileDataError::ProfileNotFoundError => "ProfileNotFoundError",
            ProfileDataError::ConfigFileLoadError => "ConfigFileLoadError",
            ProfileDataError::ConfigFileWriteError => "ConfigFileWriteError",
            ProfileDataError::CredentialsFileLoadError => "CredentialsFileLoadError",
            ProfileDataError::CredentialsFileWriteError => "CredentialsFileWriteError",
        }
    }

    pub fn message(&self) -> (r: &'static str)
        ensures
            r@ == self.spec_message(),
    {
        match self {
            ProfileDataError::InvalidProfileNameError => "invalid profile name",
            ProfileDataError::ProfileDataLoadError => "failed to load profiles",
            ProfileDataError::ProfileNotFoundError => "profile not found",
            ProfileDataError::ConfigFileLoadError => "failed to load config file",
            ProfileDataError::ConfigFileWriteError => "failed to write config file",
            ProfileDataError::CredentialsFileLoadError => "failed to load credentials file",
            ProfileDataError::CredentialsFileWriteError => "failed to write credentials file",
        }
    }
}

/// Copies an optional borrowed text into an owned one.
pub fn owned_text(s: Option<&str>) -> (r: Option<String>)
    ensures
        r.is_some() == s.is_some(),
        r.is_some() ==> r.unwrap()@ == s.unwrap()@,
{
    match s {
        Some(text) => Some(text.to_owned()),
        None => None,
    }
}

/// The access key pair of a profile; either part may be absent.
#[derive(Debug, Clone, PartialEq, Eq)]
pub struct Credentials {
    pub access_key_id: Option<String>,
    pub secret_access_key: Option<SecureString>,
}

impl Credentials {
    pub fn new(access_key_id: Option<&str>, secret_access_key: Option<SecureString>) -> (r: Self)
        ensures
            r.access_key_id.is_some() == access_key_id.is_some(),
            r.access_key_id.is_some() ==> r.access_key_id.unwrap()@ == access_key_id.unwrap()@,
            r.secret_access_key == secret_access_key,
    {
        Credentials { access_key_id: owned_text(access_key_id), secret_access_key }
    }
}

impl Default for Credentials {
    fn default() -> (r: Self)
        ensures
            r.access_key_id.is_none(),
            r.secret_access_key.is_none(),
    {
        Credentials { access_key_id: None, secret_access_key: None }
    }
}

/// The region and output format settings of a profile.
#[derive(Debug, Clone, PartialEq, Eq)]
pub struct Config {
    pub region: Option<String>,
    pub output_format: Option<String>,
}

impl Config {
    pub fn new(region: Option<&str>, output_format: Option<&str>) -> (r: Self)
        ensures
            r.region.is_some() == region.is_some(),
            r.region.is_some() ==> r.region.unwrap()@ == region.unwrap()@,
            r.output_format.is_some() == output_format.is_some(),
            r.output_format.is_some() ==> r.output_format.unwrap()@ == output_format.unwrap()@,
    {
        Config { region: owned_text(region), output_format: owned_text(output_format) }
    }
}

impl Default for Config {
    fn default() -> (r: Self)
        ensures
            r.region.is_none(),
            r.output_format.is_none(),
    {
        Config { region: None, output_format: None }
    }
}

/// A named profile.
#[derive(Debug, Clone, PartialEq, Eq)]
pub struct Profile {
    pub name: String,
    pub credentials: Credentials,
    pub config: Config,
}

impl Profile {
    pub fn new(name: String, credentials: Credentials, config: Config) -> (r: Self)
        ensures
            r == (Profile { name, credentials, config }),
    {
        Profile { name, credentials, config }
    }
}

impl Named for Profile {
    open spec fn key(&self) -> Seq<char> {
        self.name@
    }

    fn name_text(&self) -> (r: &str) {
        self.name.as_str()
    }
}

/// An ordered collection of profiles.
#[derive(Debug, Clone, PartialEq, Eq)]
pub struct ProfileSet {
    profiles: Vec<Profile>,
}

impl View for ProfileSet {
    type V = Seq<Profile>;

    closed spec fn view(&self) -> Seq<Profile> {
        self.profiles@
    }
}

impl ProfileSet {
    pub fn new() -> (r: Self)
        ensures
            r@ == Seq::<Profile>::empty(),
    {
        ProfileSet { profiles: Vec::new() }
    }

    /// Appends `profile`, unless its name is empty or white space only, in
    /// which case the set is left as it was.
    pub fn add_profile(&mut self, profile: Profile) -> (r: Result<(), ProfileDataError>)
        ensures
            r is Ok <==> !is_blank(profile.name@),
            r is Ok ==> final(self)@ == old(self)@.push(profile),
            r is Err ==> r == Err::<(), ProfileDataError>(ProfileDataError::InvalidProfileNameError)
                && final(self)@ == old(self)@,
    {
        if is_blank_text(profile.name.as_str()) {
            return Err(ProfileDataError::InvalidProfileNameError);
        }
        self.profiles.push(profile);
        Ok(())
    }

    pub fn profiles(&self) -> (r: &Vec<Profile>)
        ensures
            r@ == self@,
    {
        &self.profiles
    }

    /// Orders the profiles by ascending name; profiles of equal name keep
    /// their relative order.
    pub fn sort_profiles_asc(&mut self)
        ensures
            stably_sorted(old(self)@, final(self)@),
    {
        let mut profiles = Vec::new();
        std::mem::swap(&mut self.profiles, &mut profiles);
        self.profiles = stable_sort_by_name(profiles);
    }
}

impl Default for ProfileSet {
    fn default() -> (r: Self)
        ensures
            r@ == Seq::<Profile>::empty(),
    {
        ProfileSet::new()
    }
}

/// Sorting a profile set a second time leaves it as the first sort left it.
pub proof fn lemma_sorting_profiles_twice(before: ProfileSet, once: ProfileSet, twice: ProfileSet)
    requires
        stably_sorted(before@, once@),
        stably_sorted(once@, twice@),
    ensures
        twice@ == once@,
{
    lemma_stable_order_unique(twice@, once@);
}

} // verus!
