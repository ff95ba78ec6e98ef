use photo::harness::{extract_request_id, request_envelope, RequestEnvelope};
use photo::control::{
    after_script_response, compose_request, compose_script_request, exit_code, newest_session_under,
    parse_args, read_response_line, resolve_session_path, script_steps, session_from_json, Mode,
    DEFAULT_TIMEOUT_MS,
};

fn args(list: &[&str]) -> Vec<String> {
    list.iter().map(|s| s.to_string()).collect()
}

#[test]
fn parses_single_command_with_params() {
    let invocation =
        parse_args(&args(&["set_slider", r#"{"kind":"exposure","value":1.5}"#])).unwrap();
    assert_eq!(invocation.timeout_ms, DEFAULT_TIMEOUT_MS);
    assert_eq!(
        invocation.mode,
        Mode::Command {
            cmd: "set_slider".to_string(),
            params: Some(r#"{"kind":"exposure","value":1.5}"#.to_string()),
        }
    );
}

#[test]
fn parses_flags_and_script_mode() {
    let invocation = parse_args(&args(&[
        "--run-dir",
        "tmp/harness-runs/x",
        "--timeout-ms=5000",
        "--keep-going",
        "script",
        "steps.jsonl",
    ]))
    .unwrap();
    assert_eq!(invocation.run_dir, Some("tmp/harness-runs/x".to_string()));
    assert_eq!(invocation.timeout_ms, 5000);
    assert!(invocation.keep_going);
    assert_eq!(
        invocation.mode,
        Mode::Script {
            path: "steps.jsonl".to_string()
        }
    );
}

#[test]
fn rejects_bad_usage() {
    assert!(parse_args(&Vec::new()).is_err());
    assert!(parse_args(&args(&["--wat", "observe"])).is_err());
    assert!(parse_args(&args(&["observe", "{}", "extra"])).is_err());
    assert!(parse_args(&args(&["script"])).is_err());
}

#[test]
fn unknown_flag_error_names_the_flag() {
    let error = parse_args(&args(&["--wat", "observe"])).unwrap_err();
    assert!(error.contains("--wat"));
}

#[test]
fn composes_requests() {
    assert_eq!(
        compose_request(7, "ping", None).unwrap(),
        r#"{"cmd":"ping","id":7}"#
    );
    let with_params =
        compose_request(8, "set_slider", Some(r#"{"kind":"exposure","value":2}"#)).unwrap();
    let value: serde_json::Value = serde_json::from_str(&with_params).unwrap();
    assert_eq!(value["id"], 8);
    assert_eq!(value["params"]["kind"], "exposure");
    assert!(compose_request(9, "x", Some("not json")).is_err());
    assert!(compose_request(10, "x", Some("[1,2]")).is_err());
}

#[test]
fn script_lines_get_sequential_ids() {
    let request = compose_script_request(3, r#"{"cmd":"observe"}"#).unwrap();
    let value: serde_json::Value = serde_json::from_str(&request).unwrap();
    assert_eq!(value["id"], 3);
    assert_eq!(value["cmd"], "observe");
    assert!(compose_script_request(1, r#"{"params":{}}"#).is_err());
    assert!(compose_script_request(1, "[]").is_err());
}

#[test]
fn request_errors_name_the_problem() {
    assert_eq!(
        compose_request(1, "x", Some("[1,2]")).unwrap_err(),
        "params must be a JSON object"
    );
    assert!(compose_request(1, "x", Some("not json"))
        .unwrap_err()
        .starts_with("params is not valid JSON: "));
    assert_eq!(
        compose_script_request(1, "[]").unwrap_err(),
        "script line must be a JSON object"
    );
    assert_eq!(
        compose_script_request(1, r#"{"params":{}}"#).unwrap_err(),
        "script line needs a \"cmd\" field"
    );
    assert!(compose_script_request(1, "{").unwrap_err().starts_with("invalid JSON: "));
}

#[test]
fn script_request_keeps_the_line_and_sets_the_id() {
    let request = compose_script_request(12, r#"{"cmd":"set_slider","params":{"kind":"exposure"},"id":99}"#).unwrap();
    let value: serde_json::Value = serde_json::from_str(&request).unwrap();
    assert_eq!(value["id"], 12);
    assert_eq!(value["params"]["kind"], "exposure");
}

#[test]
fn session_file_fields_are_read() {
    assert_eq!(
        session_from_json("s.json", r#"{"port":7878,"token":"abc","pid":1}"#).unwrap(),
        (7878, "abc".to_string())
    );
    assert_eq!(
        session_from_json("s.json", r#"{"token":"abc"}"#).unwrap_err(),
        "session file s.json has no port"
    );
    assert_eq!(
        session_from_json("s.json", r#"{"port":1}"#).unwrap_err(),
        "session file s.json has no token"
    );
    assert!(session_from_json("s.json", "nope")
        .unwrap_err()
        .starts_with("invalid session file s.json: "));
}

#[test]
fn responses_are_matched_by_id() {
    assert_eq!(read_response_line(4, "{\"id\":4,\"ok\":true}\n"), Some(true));
    assert_eq!(read_response_line(4, r#"{"id":4,"ok":false}"#), Some(false));
    assert_eq!(read_response_line(4, r#"{"id":4}"#), Some(false));
    assert_eq!(read_response_line(4, r#"{"id":3,"ok":true}"#), None);
    assert_eq!(read_response_line(4, "event noise"), None);
}

#[test]
fn script_steps_skip_blank_and_comment_lines() {
    let steps = script_steps("# tune\n{\"cmd\":\"observe\"}\r\n\n  {\"cmd\":\"ping\"}  \n");
    assert_eq!(
        steps,
        vec![
            (2, "{\"cmd\":\"observe\"}".to_string()),
            (4, "{\"cmd\":\"ping\"}".to_string()),
        ]
    );
    assert!(script_steps("").is_empty());
}

#[test]
fn exit_codes_follow_the_responses() {
    assert_eq!(after_script_response(false, true, false), (false, None));
    assert_eq!(after_script_response(false, false, false), (true, Some(1)));
    assert_eq!(after_script_response(false, false, true), (true, None));
    assert_eq!(exit_code(true), 1);
    assert_eq!(exit_code(false), 0);
}

#[test]
fn newest_session_is_the_greatest_run_name() {
    let runs = vec!["20260101-000000Z-1".to_string(), "20260102-000000Z-1".to_string()];
    assert_eq!(
        newest_session_under("root", &runs),
        Some("root/20260102-000000Z-1/session.json".to_string())
    );
    assert_eq!(newest_session_under("root", &Vec::new()), None);
    assert_eq!(
        resolve_session_path(Some("d"), true, &Vec::new()).unwrap(),
        "d/session.json"
    );
    assert_eq!(
        resolve_session_path(Some("d"), false, &Vec::new()).unwrap_err(),
        "no session.json under d"
    );
}

#[test]
fn extract_request_id_recovers_when_possible() {
    assert_eq!(extract_request_id(r#"{"id":12,"cmd":"explode"}"#), 12);
    assert_eq!(extract_request_id("garbage"), 0);
    assert_eq!(extract_request_id(r#"{"cmd":"x"}"#), 0);
}

#[test]
fn request_envelope_needs_an_integer_id_and_defaults_params() {
    assert_eq!(
        request_envelope(r#"{"id":3,"cmd":"observe"}"#),
        Ok(RequestEnvelope { id: 3, default_params: true })
    );
    assert_eq!(
        request_envelope(r#"{"id":4,"cmd":"open","params":{"path":"/a.jpg"}}"#),
        Ok(RequestEnvelope { id: 4, default_params: false })
    );
    let missing = "missing or non-integer `id`".to_string();
    assert_eq!(request_envelope(r#"{"cmd":"observe"}"#), Err(missing.clone()));
    assert_eq!(request_envelope(r#"{"id":-1,"cmd":"observe"}"#), Err(missing.clone()));
    assert_eq!(request_envelope(r#"{"id":"7"}"#), Err(missing.clone()));
    assert_eq!(request_envelope("not json"), Err(missing));
}

#[test]
fn newest_session_is_lexicographically_last_run_dir() {
    // The run directories that hold a session file ("not-a-run" holds none).
    let runs = args(&["20260101-000000Z-1", "20260102-000000Z-1"]);
    let newest = newest_session_under("/tmp/runs", &runs).unwrap();
    assert!(std::path::Path::new(&newest)
        .ends_with(std::path::Path::new("20260102-000000Z-1").join("session.json")));
}

#[test]
fn session_file_round_trip() {
    let path = "/tmp/run/session.json";
    assert_eq!(
        session_from_json(path, r#"{"port":7878,"token":"abc","pid":1}"#).unwrap(),
        (7878, "abc".to_string())
    );
    assert!(session_from_json(path, r#"{"token":"abc"}"#).is_err());
}

#[test]
fn deeply_nested_params_are_sent_but_no_longer_parse() {
    // 126 levels inside the params object: the object nests 127 deep, the
    // request 128, one past what serde_json reads back.
    let deep = format!("{{\"a\":{}{}}}", "[".repeat(126), "]".repeat(126));
    assert!(serde_json::from_str::<serde_json::Value>(&deep).is_ok());
    let line = compose_request(1, "observe", Some(&deep)).unwrap();
    assert!(serde_json::from_str::<serde_json::Value>(&line).is_err());
    let shallow = format!("{{\"a\":{}{}}}", "[".repeat(125), "]".repeat(125));
    let line = compose_request(2, "observe", Some(&shallow)).unwrap();
    let value: serde_json::Value = serde_json::from_str(&line).unwrap();
    assert_eq!(value["id"], 2);
}
