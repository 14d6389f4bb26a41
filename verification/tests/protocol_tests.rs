use autogit::protocol::{Command, RepoDetail, Response, ResponseData, ResponseStatus};

#[test]
fn test_command_serialization() {
    let cmd = Command::Trigger;
    let json = cmd.to_json();
    assert_eq!(json, "{\"command\":\"trigger\"}\n");

    let parsed = Command::from_json(&json).unwrap();
    match parsed {
        Command::Trigger => {}
        _ => panic!("Expected Trigger command"),
    }
}

#[test]
fn test_command_trigger() {
    let cmd = Command::Trigger;
    let json = cmd.to_json();
    assert!(json.contains("\"command\":\"trigger\""));
    assert!(json.ends_with('\n'));

    let parsed = Command::from_json(&json).unwrap();
    assert!(matches!(parsed, Command::Trigger));
}

#[test]
fn test_command_status() {
    let cmd = Command::Status;
    let json = cmd.to_json();
    assert!(json.contains("\"command\":\"status\""));

    let parsed = Command::from_json(&json).unwrap();
    assert!(matches!(parsed, Command::Status));
}

#[test]
fn test_command_ping() {
    let cmd = Command::Ping;
    let json = cmd.to_json();
    assert!(json.contains("\"command\":\"ping\""));

    let parsed = Command::from_json(&json).unwrap();
    assert!(matches!(parsed, Command::Ping));
}

#[test]
fn test_command_with_whitespace() {
    let json = "  {\"command\":\"trigger\"}  \n";
    let parsed = Command::from_json(json).unwrap();
    assert!(matches!(parsed, Command::Trigger));
}

#[test]
fn test_command_invalid_json() {
    let result = Command::from_json("not json");
    assert!(result.is_err());
}

#[test]
fn test_command_unknown_command() {
    let json = "{\"command\":\"unknown\"}";
    let result = Command::from_json(json);
    assert!(result.is_err());
}

#[test]
fn test_response_serialization() {
    let resp = Response::ok("Test message");
    let json = resp.to_json();

    let parsed = Response::from_json(&json).unwrap();
    assert_eq!(parsed.status, ResponseStatus::Okay);
    assert_eq!(parsed.message, "Test message");
    assert!(parsed.data.is_none());
}

#[test]
fn test_response_ok() {
    let resp = Response::ok("Success");
    assert_eq!(resp.status, ResponseStatus::Okay);
    assert_eq!(resp.message, "Success");
    assert!(resp.data.is_none());
}

#[test]
fn test_response_error() {
    let resp = Response::error("Something failed");
    assert_eq!(resp.status, ResponseStatus::Error);
    assert_eq!(resp.message, "Something failed");
    assert!(resp.data.is_none());
}

#[test]
fn test_response_status_serialization() {
    let ok_json = Response::ok("").to_json();
    assert!(ok_json.contains("\"ok\""));

    let error_json = Response::error("").to_json();
    assert!(error_json.contains("\"error\""));
}

#[test]
fn test_response_with_data() {
    let resp = Response::ok_with_data(
        "Triggered check cycle",
        ResponseData::Trigger {
            repos_checked: 2,
            repos_committed: 1,
            details: vec![
                RepoDetail {
                    path: "/test/repo1".to_string(),
                    committed: true,
                    files_changed: Some(5),
                    error: None,
                },
                RepoDetail {
                    path: "/test/repo2".to_string(),
                    committed: false,
                    files_changed: None,
                    error: None,
                },
            ],
        },
    );

    let json = resp.to_json();
    let parsed = Response::from_json(&json).unwrap();

    assert_eq!(parsed.status, ResponseStatus::Okay);
    assert!(parsed.data.is_some());
}

#[test]
fn test_response_trigger_data() {
    let data = ResponseData::Trigger {
        repos_checked: 3,
        repos_committed: 2,
        details: vec![
            RepoDetail {
                path: "/repo1".to_string(),
                committed: true,
                files_changed: Some(10),
                error: None,
            },
            RepoDetail {
                path: "/repo2".to_string(),
                committed: true,
                files_changed: Some(5),
                error: None,
            },
            RepoDetail {
                path: "/repo3".to_string(),
                committed: false,
                files_changed: None,
                error: None,
            },
        ],
    };

    let resp = Response::ok_with_data("Done", data);
    let json = resp.to_json();
    let parsed = Response::from_json(&json).unwrap();

    assert_eq!(parsed.status, ResponseStatus::Okay);
    if let Some(ResponseData::Trigger { repos_checked, repos_committed, details }) = parsed.data {
        assert_eq!(repos_checked, 3);
        assert_eq!(repos_committed, 2);
        assert_eq!(details.len(), 3);
        assert_eq!(details[0].committed, true);
        assert_eq!(details[0].files_changed, Some(10));
        assert_eq!(details[2].committed, false);
    } else {
        panic!("Expected Trigger data");
    }
}

#[test]
fn test_response_status_data() {
    let data = ResponseData::Status {
        uptime_seconds: 3600,
        check_interval_seconds: 300,
        repositories_count: 5,
    };

    let resp = Response::ok_with_data("Status", data);
    let json = resp.to_json();
    let parsed = Response::from_json(&json).unwrap();

    if let Some(ResponseData::Status { uptime_seconds, check_interval_seconds, repositories_count }) =
        parsed.data
    {
        assert_eq!(uptime_seconds, 3600);
        assert_eq!(check_interval_seconds, 300);
        assert_eq!(repositories_count, 5);
    } else {
        panic!("Expected Status data");
    }
}

#[test]
fn test_repo_detail_with_error() {
    let detail = RepoDetail {
        path: "/failed/repo".to_string(),
        committed: false,
        files_changed: None,
        error: Some("Authentication failed".to_string()),
    };

    let resp = Response::ok_with_data(
        "",
        ResponseData::Trigger { repos_checked: 1, repos_committed: 0, details: vec![detail] },
    );
    let parsed = Response::from_json(&resp.to_json()).unwrap();

    if let Some(ResponseData::Trigger { details, .. }) = parsed.data {
        assert_eq!(details[0].committed, false);
        assert!(details[0].error.is_some());
        assert_eq!(details[0].error.as_ref().unwrap(), "Authentication failed");
    } else {
        panic!("Expected Trigger data");
    }
}

#[test]
fn test_repo_detail_successful() {
    let detail = RepoDetail {
        path: "/success/repo".to_string(),
        committed: true,
        files_changed: Some(3),
        error: None,
    };

    let resp = Response::ok_with_data(
        "",
        ResponseData::Trigger { repos_checked: 1, repos_committed: 1, details: vec![detail] },
    );
    let parsed = Response::from_json(&resp.to_json()).unwrap();

    if let Some(ResponseData::Trigger { details, .. }) = parsed.data {
        assert_eq!(details[0].committed, true);
        assert_eq!(details[0].files_changed, Some(3));
        assert!(details[0].error.is_none());
    } else {
        panic!("Expected Trigger data");
    }
}

#[test]
fn test_repo_detail_no_changes() {
    let detail = RepoDetail {
        path: "/nochanges/repo".to_string(),
        committed: false,
        files_changed: None,
        error: None,
    };

    let resp = Response::ok_with_data(
        "",
        ResponseData::Trigger { repos_checked: 1, repos_committed: 0, details: vec![detail] },
    );
    let parsed = Response::from_json(&resp.to_json()).unwrap();

    if let Some(ResponseData::Trigger { details, .. }) = parsed.data {
        assert_eq!(details[0].committed, false);
        assert!(details[0].files_changed.is_none());
        assert!(details[0].error.is_none());
    } else {
        panic!("Expected Trigger data");
    }
}

#[test]
fn test_response_roundtrip() {
    let responses = vec![
        Response::ok("Success"),
        Response::error("Failed"),
        Response::ok_with_data(
            "Triggered",
            ResponseData::Trigger { repos_checked: 0, repos_committed: 0, details: vec![] },
        ),
        Response::ok_with_data(
            "Status",
            ResponseData::Status {
                uptime_seconds: 0,
                check_interval_seconds: 60,
                repositories_count: 0,
            },
        ),
    ];

    for original in responses {
        let json = original.to_json();
        let parsed = Response::from_json(&json).unwrap();

        assert_eq!(parsed.status, original.status);
        assert_eq!(parsed.message, original.message);
    }
}

#[test]
fn test_response_with_empty_details() {
    let data = ResponseData::Trigger { repos_checked: 0, repos_committed: 0, details: vec![] };

    let resp = Response::ok_with_data("No repos", data);
    let json = resp.to_json();
    let parsed = Response::from_json(&json).unwrap();

    if let Some(ResponseData::Trigger { details, .. }) = parsed.data {
        assert_eq!(details.len(), 0);
    } else {
        panic!("Expected Trigger data");
    }
}

#[test]
fn test_response_invalid_json() {
    let result = Response::from_json("invalid json");
    assert!(result.is_err());
}

#[test]
fn test_response_with_newline() {
    let resp = Response::ok("Test");
    let json = resp.to_json();
    assert!(json.ends_with('\n'));

    let parsed = Response::from_json(&json).unwrap();
    assert_eq!(parsed.message, "Test");
}

#[test]
fn test_command_all_variants() {
    let commands = vec![Command::Trigger, Command::Status, Command::Ping];

    for cmd in commands {
        let json = cmd.to_json();
        let parsed = Command::from_json(&json).unwrap();

        let json2 = parsed.to_json();
        assert_eq!(json, json2);
    }
}

#[test]
fn test_response_escapes_message() {
    let resp = Response::ok("a \"quoted\" line\nand a \\ backslash\ttab");
    let json = resp.to_json();
    assert!(json.contains("a \\\"quoted\\\" line\\nand a \\\\ backslash\\ttab"));

    let parsed = Response::from_json(&json).unwrap();
    assert_eq!(parsed.message, "a \"quoted\" line\nand a \\ backslash\ttab");
}

#[test]
fn test_response_escapes_control_characters() {
    let resp = Response::ok("bell\u{7} escape\u{1b}!");
    let json = resp.to_json();
    assert!(json.contains("bell\\u0007 escape\\u001b!"));

    let parsed = Response::from_json(&json).unwrap();
    assert_eq!(parsed.message, "bell\u{7} escape\u{1b}!");
}

#[test]
fn test_response_exact_wire_text() {
    let resp = Response::ok_with_data(
        "Checked 1 repositories, committed changes in 1",
        ResponseData::Trigger {
            repos_checked: 1,
            repos_committed: 1,
            details: vec![RepoDetail {
                path: "/r1".to_string(),
                committed: true,
                files_changed: Some(0),
                error: None,
            }],
        },
    );
    assert_eq!(
        resp.to_json(),
        "{\"status\":\"ok\",\"message\":\"Checked 1 repositories, committed changes in 1\",\
         \"data\":{\"type\":\"trigger\",\"repos_checked\":1,\"repos_committed\":1,\
         \"details\":[{\"path\":\"/r1\",\"committed\":true,\"files_changed\":0}]}}\n"
    );
}
