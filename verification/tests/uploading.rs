use db_ingest::upload::{
    classify_response, process_events, resolve_config, upload_step, UploadError, UploadEvent,
    UploadStep, RETRY_DELAY_SECS,
};

fn vars(pairs: &[(&str, &str)]) -> Vec<(String, String)> {
    pairs
        .iter()
        .map(|(k, v)| (k.to_string(), v.to_string()))
        .collect()
}

#[test]
fn config_falls_back_to_defaults() {
    let cfg = resolve_config(&vars(&[]));
    assert_eq!(cfg.url, "http://localhost:8000/sql");
    assert_eq!(cfg.user, "root");
    assert_eq!(cfg.pass, "root");
    assert_eq!(cfg.ns, "test");
    assert_eq!(cfg.db, "test");
}

#[test]
fn config_takes_settings_from_the_environment_list() {
    let cfg = resolve_config(&vars(&[
        ("DB_URL", "http://db:9000/sql"),
        ("HOME", "/root"),
        ("DB_NS", "prod"),
    ]));
    assert_eq!(cfg.url, "http://db:9000/sql");
    assert_eq!(cfg.ns, "prod");
    assert_eq!(cfg.user, "root");
}

#[test]
fn the_last_setting_of_a_name_wins() {
    let cfg = resolve_config(&vars(&[("DB_USER", "alice"), ("DB_USER", "bob")]));
    assert_eq!(cfg.user, "bob");
}

#[test]
fn a_transport_failure_asks_for_a_fixed_delay_retry() {
    let step = upload_step("q", UploadEvent::TransportFailure);
    match step {
        UploadStep::Retry { delay_secs } => assert_eq!(delay_secs, RETRY_DELAY_SECS),
        UploadStep::Done(_) => panic!("a transport failure must be retried"),
    }
    assert_eq!(RETRY_DELAY_SECS, 10);
}

#[test]
fn a_successful_response_hands_the_body_through_without_logging() {
    let f = classify_response("q", 200, "dump".to_string(), Ok("the rows".to_string()));
    assert_eq!(f.status, 200);
    assert_eq!(f.body, Ok("the rows".to_string()));
    assert!(f.log_lines.is_empty());
}

#[test]
fn a_failed_status_logs_and_still_hands_the_body_back() {
    let f = classify_response(
        "SELECT x",
        500,
        "Response { .. }".to_string(),
        Ok("server said no".to_string()),
    );
    assert_eq!(f.status, 500);
    assert_eq!(f.body, Ok("server said no".to_string()));
    assert_eq!(
        f.log_lines,
        vec![
            "500".to_string(),
            "Error uploading to database: Response { .. }".to_string(),
            "server said no".to_string(),
            "\"SELECT x\"".to_string(),
            "SELECT x".to_string(),
        ]
    );
}

#[test]
fn the_quoted_log_line_escapes_quotes_and_backslashes() {
    let f = classify_response("a\"b\\c", 404, "d".to_string(), Ok("t".to_string()));
    assert_eq!(f.log_lines[3], "\"a\\\"b\\\\c\"");
}

#[test]
fn an_unreadable_body_after_success_is_a_failure() {
    let f = classify_response("q", 204, "d".to_string(), Err("bad utf-8".to_string()));
    assert_eq!(
        f.body,
        Err(UploadError::BodyReadFailure("bad utf-8".to_string()))
    );
    assert!(f.log_lines.is_empty());
}

#[test]
fn retries_end_at_the_first_response() {
    let events = vec![
        UploadEvent::TransportFailure,
        UploadEvent::TransportFailure,
        UploadEvent::TransportFailure,
        UploadEvent::Response {
            status: 200,
            dump: "d".to_string(),
            body: Ok("finally".to_string()),
        },
        UploadEvent::Response {
            status: 500,
            dump: "later".to_string(),
            body: Ok("ignored".to_string()),
        },
    ];
    let f = process_events("q", &events).expect("a response ends the call");
    assert_eq!(f.status, 200);
    assert_eq!(f.body, Ok("finally".to_string()));
    assert!(f.log_lines.is_empty());
}

#[test]
fn only_transport_failures_keep_the_client_retrying() {
    let events = vec![
        UploadEvent::TransportFailure,
        UploadEvent::TransportFailure,
        UploadEvent::TransportFailure,
        UploadEvent::TransportFailure,
        UploadEvent::TransportFailure,
    ];
    assert!(process_events("q", &events).is_none());
}

#[test]
fn an_immediate_failed_status_is_still_the_outcome() {
    let events = vec![UploadEvent::Response {
        status: 403,
        dump: "dump".to_string(),
        body: Ok("denied".to_string()),
    }];
    let f = process_events("q", &events).unwrap();
    assert_eq!(f.status, 403);
    assert_eq!(f.body, Ok("denied".to_string()));
    assert_eq!(f.log_lines.len(), 5);
    assert_eq!(f.log_lines[0], "403");
}
