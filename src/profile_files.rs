//! The two profile files: the config file, whose section `profile <name>`
//! holds a profile's region and output format, and the credentials file,
//! whose section `<name>` holds its access key pair. Reading and writing the
//! files is left to the application; this module decides what each profile
//! operation changes in them.

use crate::ordering::is_blank;
use crate::profile::{Config, Credentials, Profile, ProfileDataError, ProfileSet};
use crate::secure_string::SecureString;
use ini::Ini;
use vstd::prelude::*;
use vstd::string::StringExecFns;

verus! {

/// Key of the region setting.
pub const REGION_KEY: &'static str = "region";

/// Key of the output format setting.
pub const OUTPUT_KEY: &'static str = "output";

/// Key of the access key id.
pub const ACCESS_KEY_ID_KEY: &'static str = "aws_access_key_id";

/// Key of the secret access key.
pub const SECRET_ACCESS_KEY_KEY: &'static str = "aws_secret_access_key";

/// `ini::Ini`, an INI document in memory.
#[verifier::external_type_specification]
#[verifier::external_body]
pub struct ExIni(Ini);

/// The named sections of an INI document: for each section name, the
/// properties of the first section of that name, each key mapped to its
/// first value.
pub uninterp spec fn ini_sections(doc: Ini) -> Map<Seq<char>, Map<Seq<char>, Seq<char>>>;

/// Relies on `ini::Ini::section`: whether a section of that name exists.
#[verifier::external_body]
fn has_section(doc: &Ini, section: &str) -> (r: bool)
    ensures
        r == ini_sections(*doc).contains_key(section@),
{
    doc.section(Some(section)).is_some()
}

/// Relies on `ini::Ini::set_to`: in the first section of that name, created
/// empty when there is none, the key is given the value and no other.
#[verifier::external_body]
fn set_property(doc: &mut Ini, section: &str, key: &str, value: &str)
    ensures
        ini_sections(*final(doc)) == with_property(ini_sections(*old(doc)), section@, key@, value@),
{
    doc.set_to(Some(section), key.to_string(), value.to_string());
}

/// Relies on `ini::Ini::delete`: every section of that name is removed.
#[verifier::external_body]
fn delete_section(doc: &mut Ini, section: &str)
    ensures
        ini_sections(*final(doc)) == ini_sections(*old(doc)).remove(section@),
{
    doc.delete(Some(section));
}

/// The properties of a section, none when it is absent.
pub open spec fn properties_of(
    sections: Map<Seq<char>, Map<Seq<char>, Seq<char>>>,
    section: Seq<char>,
) -> Map<Seq<char>, Seq<char>> {
    if sections.contains_key(section) {
        sections[section]
    } else {
        Map::empty()
    }
}

/// The sections after setting `key` to `value` in `section`.
pub open spec fn with_property(
    sections: Map<Seq<char>, Map<Seq<char>, Seq<char>>>,
    section: Seq<char>,
    key: Seq<char>,
    value: Seq<char>,
) -> Map<Seq<char>, Map<Seq<char>, Seq<char>>> {
    sections.insert(section, properties_of(sections, section).insert(key, value))
}

/// The section of the config file that holds a profile's settings.
pub open spec fn config_section(name: Seq<char>) -> Seq<char> {
    "profile "@ + name
}

/// The sections after storing a profile's region and output format, when it
/// has both; unchanged otherwise.
pub open spec fn with_settings(
    sections: Map<Seq<char>, Map<Seq<char>, Seq<char>>>,
    profile: Profile,
) -> Map<Seq<char>, Map<Seq<char>, Seq<char>>> {
    let section = config_section(profile.name@);
    if profile.config.region is Some && profile.config.output_format is Some {
        with_property(
            with_property(sections, section, REGION_KEY@, profile.config.region.unwrap()@),
            section,
            OUTPUT_KEY@,
            profile.config.output_format.unwrap()@,
        )
    } else {
        sections
    }
}

/// The sections after storing a profile's access key pair, when it has both
/// parts; unchanged otherwise.
pub open spec fn with_key_pair(
    sections: Map<Seq<char>, Map<Seq<char>, Seq<char>>>,
    profile: Profile,
) -> Map<Seq<char>, Map<Seq<char>, Seq<char>>> {
    let section = profile.name@;
    if profile.credentials.access_key_id is Some && profile.credentials.secret_access_key is Some {
        with_property(
            with_property(
                sections,
                section,
                ACCESS_KEY_ID_KEY@,
                profile.credentials.access_key_id.unwrap()@,
            ),
            section,
            SECRET_ACCESS_KEY_KEY@,
            profile.credentials.secret_access_key.unwrap()@,
        )
    } else {
        sections
    }
}

/// Whether a profile has a complete region and output format.
pub open spec fn has_settings(profile: Profile) -> bool {
    profile.config.region is Some && profile.config.output_format is Some
}

/// Whether a profile has a complete access key pair.
pub open spec fn has_key_pair(profile: Profile) -> bool {
    profile.credentials.access_key_id is Some && profile.credentials.secret_access_key is Some
}

/// The profiles of `profiles` with a name that is not blank, in order.
pub open spec fn accepted(profiles: Seq<Profile>) -> Seq<Profile>
    decreases profiles.len(),
{
    if profiles.len() == 0 {
        Seq::<Profile>::empty()
    } else if !is_blank(profiles.last().name@) {
        accepted(profiles.drop_last()).push(profiles.last())
    } else {
        accepted(profiles.drop_last())
    }
}

/// The names of the profiles of `profiles` whose name is blank, in order.
pub open spec fn rejected_names(profiles: Seq<Profile>) -> Seq<Seq<char>>
    decreases profiles.len(),
{
    if profiles.len() == 0 {
        Seq::<Seq<char>>::empty()
    } else if is_blank(profiles.last().name@) {
        rejected_names(profiles.drop_last()).push(profiles.last().name@)
    } else {
        rejected_names(profiles.drop_last())
    }
}

/// The config file sections of the named profiles.
pub open spec fn config_sections_of(names: Seq<String>) -> Set<Seq<char>> {
    Set::new(|s: Seq<char>| exists|i: int| 0 <= i < names.len() && s == config_section((#[trigger] names[i])@))
}

/// The credentials file sections of the named profiles.
pub open spec fn credentials_sections_of(names: Seq<String>) -> Set<Seq<char>> {
    Set::new(|s: Seq<char>| exists|i: int| 0 <= i < names.len() && s == (#[trigger] names[i])@)
}

/// Deleting profiles that neither file holds leaves both files as they were;
/// editing such a profile is not found (see the `update_*` functions).
pub proof fn lemma_deleting_absent_profiles_keeps_files(
    config: Map<Seq<char>, Map<Seq<char>, Seq<char>>>,
    credentials: Map<Seq<char>, Map<Seq<char>, Seq<char>>>,
    names: Seq<String>,
)
    requires
        forall|i: int| 0 <= i < names.len() ==> !config.contains_key(config_section((#[trigger] names[i])@)),
        forall|i: int| 0 <= i < names.len() ==> !credentials.contains_key((#[trigger] names[i])@),
    ensures
        config.remove_keys(config_sections_of(names)) == config,
        credentials.remove_keys(credentials_sections_of(names)) == credentials,
{
    assert(config.remove_keys(config_sections_of(names)) =~= config);
    assert(credentials.remove_keys(credentials_sections_of(names)) =~= credentials);
}

/// The profile store backed by the two profile files.
pub struct SdkConfigAdapter;

impl SdkConfigAdapter {
    /// The section name of a profile in the config file.
    pub fn config_section_name(name: &str) -> (r: String)
        ensures
            r@ == config_section(name@),
    {
        proof {
            reveal_strlit("profile ");
        }
        "profile ".to_owned().concat(name)
    }

    /// The profile read from the shared configuration under `name`, with the
    /// values found there for each setting key.
    pub fn profile_from_settings(
        name: &str,
        region: Option<&str>,
        output_format: Option<&str>,
        access_key_id: Option<&str>,
        secret_access_key: Option<&str>,
    ) -> (r: Profile)
        ensures
            r.name@ == name@,
            r.config.region.is_some() == region.is_some(),
            r.config.region.is_some() ==> r.config.region.unwrap()@ == region.unwrap()@,
            r.config.output_format.is_some() == output_format.is_some(),
            r.config.output_format.is_some() ==> r.config.output_format.unwrap()@
                == output_format.unwrap()@,
            r.credentials.access_key_id.is_some() == access_key_id.is_some(),
            r.credentials.access_key_id.is_some() ==> r.credentials.access_key_id.unwrap()@
                == access_key_id.unwrap()@,
            r.credentials.secret_access_key.is_some() == secret_access_key.is_some(),
            r.credentials.secret_access_key.is_some() ==> r.credentials.secret_access_key.unwrap()@
                == secret_access_key.unwrap()@,
    {
        let secret = match secret_access_key {
            Some(text) => Some(SecureString::from_text(text)),
            None => None,
        };
        Profile::new(
            name.to_owned(),
            Credentials::new(access_key_id, secret),
            Config::new(region, output_format),
        )
    }

    /// The profile set of the profiles read: a profile whose name is blank is
    /// left out, and its name reported beside the set with the error.
    pub fn profile_set_from(profiles: Vec<Profile>) -> (r: (ProfileSet, Vec<(String, ProfileDataError)>))
        ensures
            r.0@ == accepted(profiles@),
            r.1@.len() == rejected_names(profiles@).len(),
            forall|i: int|
                0 <= i < r.1@.len() ==> (#[trigger] r.1@[i]).0@ == rejected_names(profiles@)[i]
                    && r.1@[i].1 == ProfileDataError::InvalidProfileNameError,
    {
        let ghost all = profiles@;
        let mut rest = profiles;
        let mut set = ProfileSet::new();
        let mut rejected: Vec<(String, ProfileDataError)> = Vec::new();
        let ghost mut done: int = 0;
        while rest.len() > 0
            invariant
                0 <= done <= all.len(),
                rest@ == all.subrange(done, all.len() as int),
                set@ == accepted(all.subrange(0, done)),
                rejected@.len() == rejected_names(all.subrange(0, done)).len(),
                forall|i: int|
                    0 <= i < rejected@.len() ==> (#[trigger] rejected@[i]).0@ == rejected_names(
                        all.subrange(0, done),
                    )[i] && rejected@[i].1 == ProfileDataError::InvalidProfileNameError,
            decreases rest.len(),
        {
            let profile = rest.remove(0);
            let name = profile.name.clone();
            let ghost prefix = all.subrange(0, done);
            assert(all.subrange(0, done + 1) =~= prefix.push(profile));
            assert(all.subrange(0, done + 1).drop_last() =~= prefix);
            match set.add_profile(profile) {
                Ok(()) => {},
                Err(error) => {
                    rejected.push((name, error));
                },
            }
            proof {
                done = done + 1;
            }
        }
        assert(all.subrange(0, done) =~= all);
        (set, rejected)
    }

    /// Stores a profile's region and output format in the config file, when
    /// it has both. Returns whether the file changed and must be written.
    pub fn create_profile_in_config_file(doc: &mut Ini, profile: &Profile) -> (write: bool)
        ensures
            write == has_settings(*profile),
            ini_sections(*final(doc)) == with_settings(ini_sections(*old(doc)), *profile),
    {
        match (&profile.config.region, &profile.config.output_format) {
            (Some(region), Some(output_format)) => {
                let section = Self::config_section_name(profile.name.as_str());
                set_property(doc, section.as_str(), REGION_KEY, region.as_str());
                set_property(doc, section.as_str(), OUTPUT_KEY, output_format.as_str());
                true
            },
            _ => false,
        }
    }

    /// Stores a profile's access key pair in the credentials file, when it
    /// has both parts. Returns whether the file changed and must be written.
    pub fn create_profile_in_credentials_file(doc: &mut Ini, profile: &Profile) -> (write: bool)
        ensures
            write == has_key_pair(*profile),
            ini_sections(*final(doc)) == with_key_pair(ini_sections(*old(doc)), *profile),
    {
        match (&profile.credentials.access_key_id, &profile.credentials.secret_access_key) {
            (Some(access_key_id), Some(secret_access_key)) => {
                let section = profile.name.as_str();
                set_property(doc, section, ACCESS_KEY_ID_KEY, access_key_id.as_str());
                set_property(doc, section, SECRET_ACCESS_KEY_KEY, secret_access_key.as_str());
                true
            },
            _ => false,
        }
    }

    /// Replaces the region and output format of a profile the config file
    /// already holds, when the profile has both. A profile the file does not
    /// hold is not found. Returns whether the file must be written.
    pub fn update_profile_in_config_file(doc: &mut Ini, profile: &Profile) -> (r: Result<
        bool,
        ProfileDataError,
    >)
        ensures
            !ini_sections(*old(doc)).contains_key(config_section(profile.name@)) ==> r == Err::<
                bool,
                ProfileDataError,
            >(ProfileDataError::ProfileNotFoundError) && ini_sections(*final(doc)) == ini_sections(
                *old(doc),
            ),
            ini_sections(*old(doc)).contains_key(config_section(profile.name@)) ==> r == Ok::<
                bool,
                ProfileDataError,
            >(has_settings(*profile)) && ini_sections(*final(doc)) == with_settings(
                ini_sections(*old(doc)),
                *profile,
            ),
    {
        let section = Self::config_section_name(profile.name.as_str());
        if !has_section(doc, section.as_str()) {
            return Err(ProfileDataError::ProfileNotFoundError);
        }
        Ok(Self::create_profile_in_config_file(doc, profile))
    }

    /// Replaces the access key pair of a profile the credentials file already
    /// holds, when the profile has both parts. A profile the file does not
    /// hold is not found. Returns whether the file must be written.
    pub fn update_profile_in_credentials_file(doc: &mut Ini, profile: &Profile) -> (r: Result<
        bool,
        ProfileDataError,
    >)
        ensures
            !ini_sections(*old(doc)).contains_key(profile.name@) ==> r == Err::<
                bool,
                ProfileDataError,
            >(ProfileDataError::ProfileNotFoundError) && ini_sections(*final(doc)) == ini_sections(
                *old(doc),
            ),
            ini_sections(*old(doc)).contains_key(profile.name@) ==> r == Ok::<bool, ProfileDataError>(
                has_key_pair(*profile),
            ) && ini_sections(*final(doc)) == with_key_pair(ini_sections(*old(doc)), *profile),
    {
        if !has_section(doc, profile.name.as_str()) {
            return Err(ProfileDataError::ProfileNotFoundError);
        }
        Ok(Self::create_profile_in_credentials_file(doc, profile))
    }

    /// Removes the settings of the named profiles from the config file;
    /// names the file does not hold are no error.
    pub fn delete_from_config_file(doc: &mut Ini, names: &[String])
        ensures
            ini_sections(*final(doc)) == ini_sections(*old(doc)).remove_keys(config_sections_of(names@)),
    {
        let mut i: usize = 0;
        assert(config_sections_of(names@.subrange(0, 0)) =~= Set::<Seq<char>>::empty());
        assert(ini_sections(*doc).remove_keys(config_sections_of(names@.subrange(0, 0))) =~= ini_sections(*doc));
        while i < names.len()
            invariant
                i <= names@.len(),
                ini_sections(*doc) == ini_sections(*old(doc)).remove_keys(
                    config_sections_of(names@.subrange(0, i as int)),
                ),
            decreases names@.len() - i,
        {
            let section = Self::config_section_name(names[i].as_str());
            let ghost before = ini_sections(*doc);
            delete_section(doc, section.as_str());
            proof {
                let prev = names@.subrange(0, i as int);
                let next = names@.subrange(0, i + 1);
                assert forall|s: Seq<char>| config_sections_of(next).contains(s) <==> #[trigger] config_sections_of(prev).insert(section@).contains(s) by {
                    if config_sections_of(next).contains(s) {
                        let j = choose|j: int| 0 <= j < next.len() && s == config_section((#[trigger] next[j])@);
                        if j < i {
                            assert(prev[j] == next[j]);
                        }
                    }
                    if config_sections_of(prev).contains(s) {
                        let j = choose|j: int| 0 <= j < prev.len() && s == config_section((#[trigger] prev[j])@);
                        assert(next[j] == prev[j]);
                    }
                    if s == section@ {
                        assert(next[i as int] == names@[i as int]);
                    }
                }
                assert(config_sections_of(next) =~= config_sections_of(prev).insert(section@));
                assert(ini_sections(*doc) =~= ini_sections(*old(doc)).remove_keys(config_sections_of(next)));
            }
            i = i + 1;
        }
        assert(names@.subrange(0, names@.len() as int) =~= names@);
    }

    /// Removes the key pairs of the named profiles from the credentials
    /// file; names the file does not hold are no error.
    pub fn delete_from_credentials_file(doc: &mut Ini, names: &[String])
        ensures
            ini_sections(*final(doc)) == ini_sections(*old(doc)).remove_keys(credentials_sections_of(names@)),
    {
        let mut i: usize = 0;
        assert(credentials_sections_of(names@.subrange(0, 0)) =~= Set::<Seq<char>>::empty());
        assert(ini_sections(*doc).remove_keys(credentials_sections_of(names@.subrange(0, 0))) =~= ini_sections(*doc));
        while i < names.len()
            invariant
                i <= names@.len(),
                ini_sections(*doc) == ini_sections(*old(doc)).remove_keys(
                    credentials_sections_of(names@.subrange(0, i as int)),
                ),
            decreases names@.len() - i,
        {
            delete_section(doc, names[i].as_str());
            proof {
                let prev = names@.subrange(0, i as int);
                let next = names@.subrange(0, i + 1);
                let section = names@[i as int]@;
                assert forall|s: Seq<char>| credentials_sections_of(next).contains(s) <==> #[trigger] credentials_sections_of(prev).insert(section).contains(s) by {
                    if credentials_sections_of(next).contains(s) {
                        let j = choose|j: int| 0 <= j < next.len() && s == (#[trigger] next[j])@;
                        if j < i {
                            assert(prev[j] == next[j]);
                        }
                    }
                    if credentials_sections_of(prev).contains(s) {
                        let j = choose|j: int| 0 <= j < prev.len() && s == (#[trigger] prev[j])@;
                        assert(next[j] == prev[j]);
                    }
                    if s == section {
                        assert(next[i as int] == names@[i as int]);
                    }
                }
                assert(credentials_sections_of(next) =~= credentials_sections_of(prev).insert(section));
                assert(ini_sections(*doc) =~= ini_sections(*old(doc)).remove_keys(credentials_sections_of(next)));
            }
            i = i + 1;
        }
        assert(names@.subrange(0, names@.len() as int) =~= names@);
    }
}

} // verus!
