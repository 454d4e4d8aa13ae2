use pg_pipes::json::{parse_json, to_json_text, JsonValue};
use pg_pipes::shaping::{plan_timing_metadata, raw_analysis_metadata};

fn analysis_doc() -> JsonValue {
    parse_json("[{\"Execution Time\":0.05,\"Plan\":{\"Node Type\":\"Seq Scan\"},\"Planning\":{\"Buffers\":1},\"Planning Time\":12.3,\"Triggers\":[]}]")
    .expect("parses")
}

#[test]
fn plan_timing_destructures_sections() {
    let doc = analysis_doc();
    let metadata = plan_timing_metadata(&doc).expect("shapes");
    assert_eq!(
        to_json_text(&metadata),
        "{\"plan\":{\"raw_value\":{\"Node Type\":\"Seq Scan\"},\"type\":\"json\"},\"planning\":{\"raw_value\":{\"Buffers\":1},\"type\":\"json\"},\"planning_time\":{\"raw_value\":12.3,\"type\":\"float\"},\"triggers\":{\"raw_value\":[],\"type\":\"json\"},\"execution_time\":{\"raw_value\":0.05,\"type\":\"float\"}}"
    );
}

#[test]
fn plan_timing_needs_every_section() {
    let doc = parse_json("[{\"Plan\":{}}]").expect("parses");
    assert!(plan_timing_metadata(&doc).is_none());
    let empty = parse_json("[]").expect("parses");
    assert!(plan_timing_metadata(&empty).is_none());
    let not_array = parse_json("{\"Plan\":{}}").expect("parses");
    assert!(plan_timing_metadata(&not_array).is_none());
}

#[test]
fn raw_analysis_wraps_first_record() {
    let doc = parse_json("[{\"a\":1}]").expect("parses");
    let metadata = raw_analysis_metadata(&doc).expect("shapes");
    assert_eq!(
        to_json_text(&metadata),
        "{\"analysis\":{\"raw_value\":{\"a\":1},\"type\":\"json\"}}"
    );
    assert!(raw_analysis_metadata(&JsonValue::Null).is_none());
}
