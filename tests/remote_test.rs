use backend::parameter::{Parameter, ParameterDataError, ParameterValue};
use backend::remote::{
    join_with_commas, split_on_commas, ChunkedLoad, ParameterStoreAdapter, RemoteParameter,
    WireType, MAX_BATCH,
};
use backend::secure_string::SecureString;

fn record(name: Option<&str>, tag: Option<&str>, value: Option<&str>) -> RemoteParameter {
    RemoteParameter {
        name: name.map(str::to_string),
        type_tag: tag.map(str::to_string),
        value: value.map(str::to_string),
        version: 3,
        last_modified_millis: Some(1_700_000_000_123),
        identifier: Some("arn:aws:ssm:eu-west-1:123:parameter/p".to_string()),
    }
}

fn strings(items: &[&str]) -> Vec<String> {
    items.iter().map(|s| s.to_string()).collect()
}

#[test]
fn secure_string_record_decodes_to_a_secure_string() {
    let decoded = ParameterStoreAdapter::parse_ssm_parameter(&record(Some("p"), Some("SecureString"), Some("s3cr3t")))
        .unwrap();

    match decoded.value {
        ParameterValue::SecureString(secret) => assert_eq!(secret.as_str(), "s3cr3t"),
        other => panic!("expected a secure string, got {:?}", other),
    }
    assert_eq!(decoded.name, "p");
    assert_eq!(decoded.version, Some(3));
    assert_eq!(decoded.last_modified_date, Some(1_700_000_000_123));
    assert_eq!(decoded.identifier.as_deref(), Some("arn:aws:ssm:eu-west-1:123:parameter/p"));
}

#[test]
fn string_record_decodes_verbatim() {
    let decoded = ParameterStoreAdapter::parse_ssm_parameter(&record(Some("p"), Some("String"), Some("a,b")))
        .unwrap();

    assert_eq!(decoded.value, ParameterValue::String("a,b".to_string()));
}

#[test]
fn string_list_record_splits_on_commas() {
    let decoded = ParameterStoreAdapter::parse_ssm_parameter(&record(Some("p"), Some("StringList"), Some("a,b,c")))
        .unwrap();

    assert_eq!(decoded.value, ParameterValue::StringList(strings(&["a", "b", "c"])));
}

#[test]
fn empty_string_list_value_gives_one_empty_item() {
    let decoded = ParameterStoreAdapter::parse_ssm_parameter(&record(Some("p"), Some("StringList"), Some("")))
        .unwrap();

    assert_eq!(decoded.value, ParameterValue::StringList(strings(&[""])));
}

#[test]
fn string_list_keeps_empty_segments() {
    assert_eq!(split_on_commas(",a,,b,"), strings(&["", "a", "", "b", ""]));
    assert_eq!(split_on_commas("ä,ö"), strings(&["ä", "ö"]));
}

#[test]
fn missing_fields_are_invalid_parameters() {
    let no_name = ParameterStoreAdapter::parse_ssm_parameter(&record(None, Some("String"), Some("v")));
    let no_type = ParameterStoreAdapter::parse_ssm_parameter(&record(Some("p"), None, Some("v")));
    let no_value = ParameterStoreAdapter::parse_ssm_parameter(&record(Some("p"), Some("String"), None));
    let no_value_unknown_type = ParameterStoreAdapter::parse_ssm_parameter(&record(Some("p"), Some("Blob"), None));

    assert_eq!(no_name, Err(ParameterDataError::InvalidParameter("parameters should have a name".to_string())));
    assert_eq!(no_type, Err(ParameterDataError::InvalidParameter("parameters should have a type".to_string())));
    assert_eq!(no_value, Err(ParameterDataError::InvalidParameter("parameters should have a value".to_string())));
    assert_eq!(
        no_value_unknown_type,
        Err(ParameterDataError::InvalidParameter("parameters should have a value".to_string()))
    );
}

#[test]
fn unsupported_and_unknown_type_tags_are_errors() {
    let unsupported = ParameterStoreAdapter::parse_ssm_parameter(&record(Some("p"), Some("NewFeature"), Some("v")));
    let unknown = ParameterStoreAdapter::parse_ssm_parameter(&record(Some("p"), Some("Blob"), Some("v")));

    assert_eq!(unsupported, Err(ParameterDataError::UnsupportedParameterType("NewFeature".to_string())));
    assert_eq!(unknown, Err(ParameterDataError::UnknownParameterType));
}

#[test]
fn batch_decoding_keeps_good_records_and_reports_bad_ones() {
    let records = vec![
        record(Some("a"), Some("String"), Some("1")),
        record(None, Some("String"), Some("2")),
        record(Some("c"), Some("Blob"), Some("3")),
        record(Some("d"), Some("StringList"), Some("x,y")),
    ];

    let (decoded, rejected) = ParameterStoreAdapter::decode_records(&records);

    let names: Vec<_> = decoded.iter().map(|p| p.name.clone()).collect();
    assert_eq!(names, strings(&["a", "d"]));
    assert_eq!(
        rejected,
        vec![
            ParameterDataError::InvalidParameter("parameters should have a name".to_string()),
            ParameterDataError::UnknownParameterType,
        ]
    );
}

#[test]
fn eleven_names_are_loaded_in_two_chunks() {
    let names: Vec<String> = (1..=11).map(|i| format!("param{}", i)).collect();
    let mut load = ChunkedLoad::new(&names);
    let mut requests: Vec<Vec<String>> = Vec::new();

    while let Some(chunk) = load.next_request() {
        assert!(!chunk.is_empty() && chunk.len() <= MAX_BATCH);
        let records: Vec<RemoteParameter> =
            chunk.iter().map(|n| record(Some(n), Some("String"), Some("v"))).collect();
        load.record_response(&records);
        requests.push(chunk);
    }
    let (set, rejected) = load.finish();

    assert_eq!(requests.len(), 2);
    assert_eq!(requests[0].len(), 10);
    assert_eq!(requests[1].len(), 1);
    assert_eq!(requests.concat(), names);
    let loaded: Vec<String> = set.values().iter().map(|p| p.name.clone()).collect();
    assert_eq!(loaded, names);
    assert!(rejected.is_empty());
}

#[test]
fn chunk_sizes_follow_the_batch_limit() {
    for (count, expected) in [(0usize, 0usize), (1, 1), (10, 1), (20, 2), (21, 3)] {
        let names: Vec<String> = (0..count).map(|i| i.to_string()).collect();
        let mut load = ChunkedLoad::new(&names);
        let mut chunks = 0;
        while load.next_request().is_some() {
            chunks += 1;
        }
        assert_eq!(chunks, expected, "for {} names", count);
    }
}

#[test]
fn a_failed_chunk_fails_the_whole_load() {
    let names = strings(&["a", "b"]);
    let mut load = ChunkedLoad::new(&names);
    assert!(load.next_request().is_some());

    assert_eq!(load.fail(), ParameterDataError::ParameterDataLoadError);
}

#[test]
fn listed_names_are_kept_in_order() {
    let names = vec![Some("a".to_string()), Some("b".to_string())];

    assert_eq!(ParameterStoreAdapter::parameter_names(names), Ok(strings(&["a", "b"])));
}

#[test]
fn a_listed_entry_without_name_is_an_invalid_parameter() {
    let names = vec![Some("a".to_string()), None];

    assert_eq!(
        ParameterStoreAdapter::parameter_names(names),
        Err(ParameterDataError::InvalidParameter("parameters should have a name".to_string()))
    );
}

#[test]
fn values_are_written_with_their_type() {
    let plain = ParameterStoreAdapter::wire_form(&ParameterValue::String("v".to_string()));
    let secret = ParameterStoreAdapter::wire_form(&ParameterValue::SecureString(SecureString::from("s")));
    let list = ParameterStoreAdapter::wire_form(&ParameterValue::StringList(strings(&["a", "b", "c"])));
    let empty = ParameterStoreAdapter::wire_form(&ParameterValue::StringList(vec![]));

    assert_eq!(plain, ("v".to_string(), WireType::String));
    assert_eq!(secret, ("s".to_string(), WireType::SecureString));
    assert_eq!(list, ("a,b,c".to_string(), WireType::StringList));
    assert_eq!(empty, ("".to_string(), WireType::StringList));
}

#[test]
fn joining_then_splitting_gives_back_the_items() {
    let items = strings(&["x", "", "y z"]);

    assert_eq!(join_with_commas(&items), "x,,y z");
    assert_eq!(split_on_commas(&join_with_commas(&items)), items);
}

#[test]
fn write_error_carries_the_remote_message() {
    assert_eq!(
        ParameterStoreAdapter::write_error(Some("ParameterLimitExceeded")),
        ParameterDataError::ParameterDataWriteError("ParameterLimitExceeded".to_string())
    );
    assert_eq!(
        ParameterStoreAdapter::write_error(None),
        ParameterDataError::ParameterDataWriteError("unknown parameter error".to_string())
    );
}

#[test]
fn decoded_parameter_equals_one_built_by_hand() {
    let decoded = ParameterStoreAdapter::parse_ssm_parameter(&record(Some("p"), Some("String"), Some("v"))).unwrap();

    let expected = Parameter::new(
        "p".to_string(),
        ParameterValue::String("v".to_string()),
        Some(3),
        Some(1_700_000_000_123),
        Some("arn:aws:ssm:eu-west-1:123:parameter/p".to_string()),
    );
    assert_eq!(decoded, expected);
}
