use backend::configuration::ConfigurationError;

#[test]
fn given_invalid_profile_error_should_output_expected_error_message_when_printed() {
    let expected = "invalid profile name";

    assert_eq!(ConfigurationError::InvalidProfileNameError.message(), expected)
}

#[test]
fn given_profile_load_error_should_output_expected_error_message_when_printed() {
    let expected = "failed to load profile";

    assert_eq!(ConfigurationError::ProfileLoadError.message(), expected)
}
