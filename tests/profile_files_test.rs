use backend::profile::{Config, Credentials, Profile, ProfileDataError};
use backend::profile_files::SdkConfigAdapter;
use backend::secure_string::SecureString;
use ini::Ini;

fn config_file() -> Ini {
    let mut config = Ini::new();
    config
        .with_section(Some("profile dev"))
        .set("region", "eu-west-1")
        .set("output", "json");
    config
}

fn credentials_file() -> Ini {
    let mut credentials = Ini::new();
    credentials
        .with_section(Some("dev"))
        .set("aws_access_key_id", "devAccessKeyID")
        .set("aws_secret_access_key", "devSecretAccessKey");
    credentials
}

fn profile(name: &str, region: &str, output: &str) -> Profile {
    Profile::new(
        name.to_string(),
        Credentials::new(Some("newAccessKeyID"), Some(SecureString::from("newSecretAccessKey"))),
        Config::new(Some(region), Some(output)),
    )
}

#[test]
fn should_create_new_profile() {
    let mut config = config_file();

    let write = SdkConfigAdapter::create_profile_in_config_file(&mut config, &profile("new", "eu-west-1", "json"));

    assert!(write);
    let section = config.section(Some("profile new")).expect("section should exist");
    assert_eq!(section.get("region"), Some("eu-west-1"));
    assert_eq!(section.get("output"), Some("json"));
}

#[test]
fn should_create_credentials_for_new_profile() {
    let mut credentials = credentials_file();

    let write = SdkConfigAdapter::create_profile_in_credentials_file(
        &mut credentials,
        &profile("new", "eu-west-1", "json"),
    );

    assert!(write);
    let section = credentials.section(Some("new")).expect("section should exist");
    assert_eq!(section.get("aws_access_key_id"), Some("newAccessKeyID"));
    assert_eq!(section.get("aws_secret_access_key"), Some("newSecretAccessKey"));
}

#[test]
fn should_remove_config_for_given_profile() {
    let mut config = config_file();

    SdkConfigAdapter::delete_from_config_file(&mut config, &["dev".to_string()]);

    assert!(config.section(Some("profile dev")).is_none());
}

#[test]
fn should_remove_credentials_for_given_profile() {
    let mut credentials = credentials_file();

    SdkConfigAdapter::delete_from_credentials_file(&mut credentials, &["dev".to_string()]);

    assert!(credentials.section(Some("dev")).is_none());
}

#[test]
fn should_update_config_for_given_profile() {
    let mut config = config_file();

    let result = SdkConfigAdapter::update_profile_in_config_file(&mut config, &profile("dev", "eu-east-1", "table"));

    assert_eq!(result, Ok(true));
    let section = config.section(Some("profile dev")).unwrap();
    assert_eq!(section.get("region"), Some("eu-east-1"));
    assert_eq!(section.get("output"), Some("table"));
}

#[test]
fn should_update_credentials_for_given_profile() {
    let mut credentials = credentials_file();

    let result = SdkConfigAdapter::update_profile_in_credentials_file(
        &mut credentials,
        &profile("dev", "eu-east-1", "table"),
    );

    assert_eq!(result, Ok(true));
    let section = credentials.section(Some("dev")).unwrap();
    assert_eq!(section.get("aws_access_key_id"), Some("newAccessKeyID"));
    assert_eq!(section.get("aws_secret_access_key"), Some("newSecretAccessKey"));
}

#[test]
fn deleting_an_unknown_profile_changes_nothing() {
    let mut config = config_file();
    let mut credentials = credentials_file();

    SdkConfigAdapter::delete_from_config_file(&mut config, &["ghost".to_string()]);
    SdkConfigAdapter::delete_from_credentials_file(&mut credentials, &["ghost".to_string()]);

    assert_eq!(config.section(Some("profile dev")).unwrap().get("region"), Some("eu-west-1"));
    assert_eq!(credentials.section(Some("dev")).unwrap().get("aws_access_key_id"), Some("devAccessKeyID"));
}

#[test]
fn editing_an_unknown_profile_is_not_found() {
    let mut config = config_file();
    let mut credentials = credentials_file();
    let ghost = profile("ghost", "eu-east-1", "table");

    assert_eq!(
        SdkConfigAdapter::update_profile_in_config_file(&mut config, &ghost),
        Err(ProfileDataError::ProfileNotFoundError)
    );
    assert_eq!(
        SdkConfigAdapter::update_profile_in_credentials_file(&mut credentials, &ghost),
        Err(ProfileDataError::ProfileNotFoundError)
    );
    assert!(config.section(Some("profile ghost")).is_none());
    assert!(credentials.section(Some("ghost")).is_none());
}

#[test]
fn deleting_several_profiles_removes_each() {
    let mut config = config_file();
    config.with_section(Some("profile prod")).set("region", "us-east-1");
    config.with_section(Some("profile keep")).set("region", "us-east-2");

    SdkConfigAdapter::delete_from_config_file(&mut config, &["dev".to_string(), "prod".to_string()]);

    assert!(config.section(Some("profile dev")).is_none());
    assert!(config.section(Some("profile prod")).is_none());
    assert!(config.section(Some("profile keep")).is_some());
}

#[test]
fn incomplete_settings_are_not_written() {
    let mut config = config_file();
    let partial = Profile::new("new".to_string(), Credentials::default(), Config::new(Some("eu-west-1"), None));

    let write = SdkConfigAdapter::create_profile_in_config_file(&mut config, &partial);

    assert!(!write);
    assert!(config.section(Some("profile new")).is_none());
}

#[test]
fn profiles_read_from_settings_keep_their_values() {
    let read = SdkConfigAdapter::profile_from_settings(
        "dev",
        Some("eu-west-1"),
        Some("json"),
        Some("devAccessKeyID"),
        Some("devSecretAccessKey"),
    );

    assert_eq!(read.name, "dev");
    assert_eq!(read.config, Config::new(Some("eu-west-1"), Some("json")));
    assert_eq!(read.credentials.access_key_id.as_deref(), Some("devAccessKeyID"));
    assert_eq!(read.credentials.secret_access_key.unwrap().as_str(), "devSecretAccessKey");
}

#[test]
fn profiles_with_blank_names_are_reported_beside_the_set() {
    let profiles = vec![
        SdkConfigAdapter::profile_from_settings("dev", None, None, None, None),
        SdkConfigAdapter::profile_from_settings(" ", None, None, None, None),
        SdkConfigAdapter::profile_from_settings("prod", None, None, None, None),
    ];

    let (set, rejected) = SdkConfigAdapter::profile_set_from(profiles);

    let names: Vec<_> = set.profiles().iter().map(|p| p.name.clone()).collect();
    assert_eq!(names, vec!["dev".to_string(), "prod".to_string()]);
    assert_eq!(rejected, vec![(" ".to_string(), ProfileDataError::InvalidProfileNameError)]);
}

#[test]
fn config_section_names_carry_the_profile_prefix() {
    assert_eq!(SdkConfigAdapter::config_section_name("dev"), "profile dev");
}
