use pg_pipes::context::ContextLoadError;
use pg_pipes::json::JsonValue;
use pg_pipes::session::{open_dagster_pipes, ProtocolMisuseError};

fn rows_metadata(n: i64) -> JsonValue {
    JsonValue::Obj(vec![("rows".to_string(), JsonValue::Int(n))])
}

#[test]
fn end_to_end_three_lines() {
    let context = "{\"asset_keys\":[\"sales\"],\"retry_number\":0,\"run_id\":\"r1\",\"extras\":{}}";
    let mut lines: Vec<String> = Vec::new();
    let (mut session, opened) = open_dagster_pipes(context).expect("opens");
    lines.push(opened);
    lines.push(
        session
            .report_asset_materialization(rows_metadata(10))
            .expect("reports"),
    );
    lines.push(session.report_close().expect("closes"));
    assert_eq!(lines.len(), 3);
    assert_eq!(
        lines[0],
        "{\"__dagster_pipes_version\":\"0.1\",\"method\":\"opened\",\"params\":{\"extras\":{}}}"
    );
    assert_eq!(
        lines[1],
        "{\"__dagster_pipes_version\":\"0.1\",\"method\":\"report_asset_materialization\",\"params\":{\"asset_key\":\"sales\",\"metadata\":{\"rows\":10},\"data_version\":null}}"
    );
    assert_eq!(
        lines[2],
        "{\"__dagster_pipes_version\":\"0.1\",\"method\":\"closed\",\"params\":null}"
    );
}

#[test]
fn log_envelope_shape() {
    let context = "{\"retry_number\":0,\"run_id\":\"r1\"}";
    let (mut session, _) = open_dagster_pipes(context).expect("opens");
    let line = session.log("hello", "info").expect("logs");
    assert_eq!(
        line,
        "{\"__dagster_pipes_version\":\"0.1\",\"method\":\"log\",\"params\":{\"message\":\"hello\",\"level\":\"info\"}}"
    );
}

#[test]
fn log_escapes_message() {
    let context = "{\"retry_number\":0,\"run_id\":\"r1\"}";
    let (mut session, _) = open_dagster_pipes(context).expect("opens");
    let line = session.log("say \"hi\"\n", "warn").expect("logs");
    assert_eq!(
        line,
        "{\"__dagster_pipes_version\":\"0.1\",\"method\":\"log\",\"params\":{\"message\":\"say \\\"hi\\\"\\n\",\"level\":\"warn\"}}"
    );
}

#[test]
fn materialization_reports_first_key() {
    let context =
        "{\"asset_keys\":[\"sales\",\"orders\"],\"retry_number\":0,\"run_id\":\"r1\"}";
    let (mut session, _) = open_dagster_pipes(context).expect("opens");
    let line = session
        .report_asset_materialization(JsonValue::Null)
        .expect("reports");
    assert!(line.contains("\"asset_key\":\"sales\""));
    assert!(!line.contains("orders"));
}

#[test]
fn missing_run_id_emits_nothing() {
    let r = open_dagster_pipes("{\"retry_number\":0,\"asset_keys\":[\"a\"]}");
    match r {
        Err(e) => assert_eq!(e, ContextLoadError::MissingRunId),
        Ok(_) => panic!("a context without run_id must not open"),
    }
}

#[test]
fn misuse_without_asset_keys() {
    let context = "{\"retry_number\":0,\"run_id\":\"r1\"}";
    let (mut session, _) = open_dagster_pipes(context).expect("opens");
    let r = session.report_asset_materialization(JsonValue::Null);
    assert_eq!(r, Err(ProtocolMisuseError::NoAssetKeys));
    // The failed report changes nothing: the session still closes cleanly.
    assert!(session.report_close().is_ok());
}

#[test]
fn misuse_with_empty_asset_keys() {
    let context = "{\"asset_keys\":[],\"retry_number\":0,\"run_id\":\"r1\"}";
    let (mut session, _) = open_dagster_pipes(context).expect("opens");
    let r = session.report_asset_materialization(JsonValue::Null);
    assert_eq!(r, Err(ProtocolMisuseError::NoAssetKeys));
}

#[test]
fn out_of_order_calls_are_rejected() {
    let context = "{\"asset_keys\":[\"a\"],\"retry_number\":0,\"run_id\":\"r1\"}";
    let (mut session, _) = open_dagster_pipes(context).expect("opens");
    // A second announcement is out of order.
    assert_eq!(session.report_open(), Err(ProtocolMisuseError::OutOfOrder));
    session.report_close().expect("closes");
    // Nothing is accepted after `closed`.
    assert_eq!(
        session.log("late", "info"),
        Err(ProtocolMisuseError::OutOfOrder)
    );
    assert_eq!(
        session.report_asset_materialization(JsonValue::Null),
        Err(ProtocolMisuseError::OutOfOrder)
    );
    assert_eq!(session.report_close(), Err(ProtocolMisuseError::OutOfOrder));
}

#[test]
fn wire_lines_are_valid_json() {
    let context = "{\"asset_keys\":[\"sales\"],\"retry_number\":0,\"run_id\":\"r1\"}";
    let (mut session, opened) = open_dagster_pipes(context).expect("opens");
    let lines = vec![
        opened,
        session.log("a \"quoted\" message\twith\ncontrol chars \u{1}", "info").expect("logs"),
        session
            .report_asset_materialization(rows_metadata(7))
            .expect("reports"),
        session.report_close().expect("closes"),
    ];
    let methods = ["opened", "log", "report_asset_materialization", "closed"];
    for (line, expected_method) in lines.iter().zip(methods.iter()) {
        let value: serde_json::Value = serde_json::from_str(line).expect("line is valid JSON");
        assert_eq!(
            value.get("__dagster_pipes_version").and_then(|v| v.as_str()),
            Some("0.1")
        );
        assert_eq!(
            value.get("method").and_then(|v| v.as_str()),
            Some(*expected_method)
        );
    }
}

#[test]
fn incomplete_session_has_no_closed_line() {
    let context = "{\"asset_keys\":[\"sales\"],\"retry_number\":0,\"run_id\":\"r1\",\"extras\":{}}";
    let mut lines: Vec<String> = Vec::new();
    let (mut session, opened) = open_dagster_pipes(context).expect("opens");
    lines.push(opened);
    lines.push(
        session
            .report_asset_materialization(rows_metadata(10))
            .expect("reports"),
    );
    // The process stops here: no `close` call. The sink holds exactly the
    // two lines written so far and no terminal envelope.
    assert_eq!(lines.len(), 2);
    assert!(lines[0].contains("\"method\":\"opened\""));
    assert!(lines[1].contains("\"method\":\"report_asset_materialization\""));
    assert!(lines.iter().all(|l| !l.contains("\"method\":\"closed\"")));
}
