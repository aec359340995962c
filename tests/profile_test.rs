use backend::profile::{Config, Credentials, Profile, ProfileDataError, ProfileError, ProfileSet};
use backend::secure_string::SecureString;

fn profile_named(name: &str) -> Profile {
    Profile::new(name.to_string(), Credentials::default(), Config::default())
}

fn names(set: &ProfileSet) -> Vec<String> {
    set.profiles().iter().map(|p| p.name.clone()).collect()
}

#[test]
fn domain_should_create_empty_profile_set() {
    let expected = ProfileSet::new();

    let actual = ProfileSet::default();

    assert_eq!(actual, expected)
}

#[test]
fn domain_should_add_profile() {
    let mut cut: ProfileSet = ProfileSet::new();
    let input_profile_name: String = "lorem".to_string();
    let input_profile: Profile = Profile::new(
        input_profile_name.clone(),
        Credentials::default(),
        Config::default(),
    );

    cut.add_profile(input_profile.clone()).expect("should not fail");
    let actual = cut
        .profiles()
        .iter()
        .find(|profile| profile.name == input_profile_name);

    assert_eq!(actual, Some(&input_profile))
}

#[test]
fn domain_should_return_profiles() {
    let mut cut: ProfileSet = ProfileSet::new();
    let input_profile: Profile = profile_named("ipsum");

    cut.add_profile(input_profile).expect("should not fail");
    let actual = cut.profiles();

    assert_eq!(actual.len(), 1);
}

#[test]
fn domain_should_sort_profiles_asc() {
    let mut profile_set = ProfileSet::new();
    profile_set.add_profile(profile_named("c")).unwrap();
    profile_set.add_profile(profile_named("b")).unwrap();
    profile_set.add_profile(profile_named("a")).unwrap();

    profile_set.sort_profiles_asc();

    let sorted_profiles = profile_set.profiles();

    assert_eq!(&sorted_profiles[0].name, "a");
    assert_eq!(&sorted_profiles[1].name, "b");
    assert_eq!(&sorted_profiles[2].name, "c");
}

#[test]
fn profile_service_should_sort_profiles_asc_by_name() {
    let profile_1 = profile_named("b");
    let profile_2 = profile_named("a");
    let expected = vec![profile_2.clone(), profile_1.clone()];
    let mut profile_set = ProfileSet::new();
    profile_set.add_profile(profile_1).unwrap();
    profile_set.add_profile(profile_2).unwrap();

    profile_set.sort_profiles_asc();

    assert_eq!(profile_set.profiles(), &expected);
}

#[test]
fn adding_a_valid_name_to_an_empty_set_gives_one_profile() {
    for name in ["dev", "a", " padded ", "prod-eu"] {
        let mut set = ProfileSet::new();

        let result = set.add_profile(profile_named(name));

        assert_eq!(result, Ok(()));
        assert_eq!(set.profiles().len(), 1);
        assert_eq!(set.profiles()[0].name, name);
    }
}

#[test]
fn adding_a_blank_name_fails_and_leaves_the_set_empty() {
    for name in ["", " ", "\t\n", "\u{a0}\u{3000}"] {
        let mut set = ProfileSet::new();

        let result = set.add_profile(profile_named(name));

        assert_eq!(result, Err(ProfileDataError::InvalidProfileNameError));
        assert_eq!(set.profiles().len(), 0);
    }
}

#[test]
fn sorting_keeps_profiles_of_equal_name_in_order() {
    let mut set = ProfileSet::new();
    let first_b = Profile::new("b".to_string(), Credentials::new(Some("one"), None), Config::default());
    let second_b = Profile::new("b".to_string(), Credentials::new(Some("two"), None), Config::default());
    set.add_profile(first_b.clone()).unwrap();
    set.add_profile(profile_named("a")).unwrap();
    set.add_profile(second_b.clone()).unwrap();

    set.sort_profiles_asc();

    assert_eq!(names(&set), vec!["a", "b", "b"]);
    assert_eq!(set.profiles()[1], first_b);
    assert_eq!(set.profiles()[2], second_b);
}

#[test]
fn sorting_twice_gives_the_same_order() {
    let mut set = ProfileSet::new();
    for name in ["delta", "alpha", "Charlie", "bravo", "alpha", "ä"] {
        set.add_profile(profile_named(name)).unwrap();
    }

    set.sort_profiles_asc();
    let once = set.clone();
    set.sort_profiles_asc();

    assert_eq!(set, once);
    assert_eq!(names(&set), vec!["Charlie", "alpha", "alpha", "bravo", "delta", "ä"]);
}

#[test]
fn sorting_orders_by_prefix_first() {
    let mut set = ProfileSet::new();
    for name in ["abc", "ab", "abd", "b"] {
        set.add_profile(profile_named(name)).unwrap();
    }

    set.sort_profiles_asc();

    assert_eq!(names(&set), vec!["ab", "abc", "abd", "b"]);
}

#[test]
fn credentials_and_config_constructors_copy_their_values() {
    let credentials = Credentials::new(Some("my_access_key_id"), Some(SecureString::from("my_secret")));
    let config = Config::new(Some("eu-west-1"), Some("json"));

    assert_eq!(credentials.access_key_id.as_deref(), Some("my_access_key_id"));
    assert_eq!(credentials.secret_access_key.as_ref().map(|s| s.as_str()), Some("my_secret"));
    assert_eq!(config.region.as_deref(), Some("eu-west-1"));
    assert_eq!(config.output_format.as_deref(), Some("json"));
    assert_eq!(Config::new(None, None), Config::default());
    assert_eq!(Credentials::new(None, None), Credentials::default());
}

#[test]
fn profile_errors_have_codes_and_messages() {
    let cases = [
        (ProfileDataError::InvalidProfileNameError, "InvalidProfileNameError", "invalid profile name"),
        (ProfileDataError::ProfileDataLoadError, "ProfileDataLoadError", "failed to load profiles"),
        (ProfileDataError::ProfileNotFoundError, "ProfileNotFoundError", "profile not found"),
        (ProfileDataError::ConfigFileLoadError, "ConfigFileLoadError", "failed to load config file"),
        (ProfileDataError::ConfigFileWriteError, "ConfigFileWriteError", "failed to write config file"),
        (ProfileDataError::CredentialsFileLoadError, "CredentialsFileLoadError", "failed to load credentials file"),
        (ProfileDataError::CredentialsFileWriteError, "CredentialsFileWriteError", "failed to write credentials file"),
    ];
    for (error, code, message) in cases {
        let named: ProfileError = error;
        assert_eq!(named.code(), code);
        assert_eq!(named.message(), message);
    }
}
