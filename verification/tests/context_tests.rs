use pg_pipes::context::{load_context, ContextLoadError};
use pg_pipes::json::JsonValue;

#[test]
fn load_full_context_round_trip() {
    let text = "{\"asset_keys\":[\"sales\",\"orders\"],\"code_version_by_asset_key\":{\"orders\":null,\"sales\":\"v1\"},\"partition_key\":\"2024-01-01\",\"job_name\":\"nightly\",\"retry_number\":3,\"run_id\":\"r1\",\"extras\":{\"note\":\"hi\",\"weight\":1.25}}";
    let data = load_context(text).expect("loads");
    assert_eq!(
        data.asset_keys,
        Some(vec!["sales".to_string(), "orders".to_string()])
    );
    assert_eq!(
        data.code_version_by_asset_key,
        Some(vec![
            ("orders".to_string(), None),
            ("sales".to_string(), Some("v1".to_string())),
        ])
    );
    assert_eq!(data.partition_key, Some("2024-01-01".to_string()));
    assert_eq!(data.job_name, Some("nightly".to_string()));
    assert_eq!(data.retry_number, 3);
    assert_eq!(data.run_id, "r1");
    assert_eq!(
        data.extras,
        Some(vec![
            ("note".to_string(), JsonValue::Str("hi".to_string())),
            ("weight".to_string(), JsonValue::Num("1.25".to_string())),
        ])
    );
}

#[test]
fn load_minimal_context() {
    let data = load_context("{\"retry_number\":0,\"run_id\":\"r2\"}").expect("loads");
    assert_eq!(data.asset_keys, None);
    assert_eq!(data.code_version_by_asset_key, None);
    assert_eq!(data.partition_key, None);
    assert_eq!(data.job_name, None);
    assert_eq!(data.retry_number, 0);
    assert_eq!(data.run_id, "r2");
    assert_eq!(data.extras, None);
}

#[test]
fn null_optionals_mean_absent() {
    let text = "{\"asset_keys\":null,\"code_version_by_asset_key\":null,\"partition_key\":null,\"job_name\":null,\"retry_number\":1,\"run_id\":\"r3\",\"extras\":null}";
    let data = load_context(text).expect("loads");
    assert_eq!(data.asset_keys, None);
    assert_eq!(data.code_version_by_asset_key, None);
    assert_eq!(data.partition_key, None);
    assert_eq!(data.job_name, None);
    assert_eq!(data.extras, None);
}

#[test]
fn missing_run_id_fails() {
    let r = load_context("{\"retry_number\":0}");
    assert_eq!(r, Err(ContextLoadError::MissingRunId));
}

#[test]
fn missing_retry_number_fails() {
    let r = load_context("{\"run_id\":\"r1\"}");
    assert_eq!(r, Err(ContextLoadError::MissingRetryNumber));
}

#[test]
fn invalid_json_fails() {
    assert_eq!(load_context("{oops"), Err(ContextLoadError::InvalidJson));
}

#[test]
fn non_object_fails() {
    assert_eq!(load_context("[1,2]"), Err(ContextLoadError::NotAnObject));
}

#[test]
fn invalid_run_id_fails() {
    let r = load_context("{\"retry_number\":0,\"run_id\":7}");
    assert_eq!(r, Err(ContextLoadError::InvalidRunId));
}

#[test]
fn invalid_retry_number_fails() {
    let r = load_context("{\"retry_number\":\"x\",\"run_id\":\"r\"}");
    assert_eq!(r, Err(ContextLoadError::InvalidRetryNumber));
    let r = load_context("{\"retry_number\":1.5,\"run_id\":\"r\"}");
    assert_eq!(r, Err(ContextLoadError::InvalidRetryNumber));
}

#[test]
fn invalid_asset_keys_fails() {
    let r = load_context("{\"asset_keys\":[\"a\",2],\"retry_number\":0,\"run_id\":\"r\"}");
    assert_eq!(r, Err(ContextLoadError::InvalidAssetKeys));
    let r = load_context("{\"asset_keys\":\"a\",\"retry_number\":0,\"run_id\":\"r\"}");
    assert_eq!(r, Err(ContextLoadError::InvalidAssetKeys));
}

#[test]
fn invalid_code_versions_fails() {
    let r = load_context(
        "{\"code_version_by_asset_key\":{\"a\":2},\"retry_number\":0,\"run_id\":\"r\"}",
    );
    assert_eq!(r, Err(ContextLoadError::InvalidCodeVersions));
}

#[test]
fn invalid_partition_key_fails() {
    let r = load_context("{\"partition_key\":9,\"retry_number\":0,\"run_id\":\"r\"}");
    assert_eq!(r, Err(ContextLoadError::InvalidPartitionKey));
}

#[test]
fn invalid_job_name_fails() {
    let r = load_context("{\"job_name\":[],\"retry_number\":0,\"run_id\":\"r\"}");
    assert_eq!(r, Err(ContextLoadError::InvalidJobName));
}

#[test]
fn invalid_extras_fails() {
    let r = load_context("{\"extras\":[1],\"retry_number\":0,\"run_id\":\"r\"}");
    assert_eq!(r, Err(ContextLoadError::InvalidExtras));
}

#[test]
fn required_field_order_names_run_id_first() {
    // Both required fields are missing: the loader reports `run_id` first.
    assert_eq!(load_context("{}"), Err(ContextLoadError::MissingRunId));
}
