use novel_studio_ai::ai::http_client::{
    curl_arguments, curl_config, escape_config_value, header, max_time_arg, parse_curl_output, post, STATUS_MARKER,
};

#[test]
fn config_values_escape_backslashes_and_quotes() {
    assert_eq!(escape_config_value(r#"a\b"c"#), r#"a\\b\"c"#);
    assert_eq!(escape_config_value("plain"), "plain");
}

#[test]
fn curl_config_lists_headers_then_the_body_file() {
    let headers = vec![header("x-api-key", "k\"1"), header("content-type", "application/json")];
    let config = curl_config(&headers, Some("C:\\tmp\\body.json"));
    assert_eq!(
        config,
        "header = \"x-api-key: k\\\"1\"\nheader = \"content-type: application/json\"\ndata-binary = \"@C:\\\\tmp\\\\body.json\"\n"
    );
    assert_eq!(curl_config(&Vec::new(), None), "");
}

#[test]
fn curl_output_splits_at_the_last_marker() {
    let r = parse_curl_output(&format!("{{\"ok\":true}}\n{}200", STATUS_MARKER));
    assert_eq!(r.status, 200);
    assert_eq!(r.body, "{\"ok\":true}");
    let twice = parse_curl_output(&format!("a{m}b\n{m} 404 \n", m = STATUS_MARKER));
    assert_eq!(twice.status, 404);
    assert_eq!(twice.body, format!("a{}b", STATUS_MARKER));
    let none = parse_curl_output("no marker here\n");
    assert_eq!((none.status, none.body.as_str()), (0, "no marker here\n"));
    let bad = parse_curl_output(&format!("x{}999999", STATUS_MARKER));
    assert_eq!((bad.status, bad.body.as_str()), (0, "x"));
    let plus = parse_curl_output(&format!("x{}+201", STATUS_MARKER));
    assert_eq!(plus.status, 201);
}

#[test]
fn every_status_survives_the_round_trip() {
    for status in [0u16, 7, 200, 404, 65535] {
        let r = parse_curl_output(&format!("body \n{}{}", STATUS_MARKER, status));
        assert_eq!((r.status, r.body.as_str()), (status, "body"));
    }
}

#[test]
fn requests_are_posts_with_a_timeout() {
    let r = post("http://x".to_string(), vec![], "{}".to_string());
    assert_eq!((r.method.as_str(), r.url.as_str(), r.timeout_secs), ("POST", "http://x", 120));
    assert_eq!(max_time_arg(0), "1");
    assert_eq!(max_time_arg(120), "120");
}

#[test]
fn process_arguments_hold_no_header() {
    let req = post("https://api.example/v1".to_string(), vec![header("x-api-key", "secret")], "{}".to_string());
    let args = curl_arguments(&req);
    assert_eq!(
        args,
        vec![
            "-sS".to_string(),
            "-X".to_string(),
            "POST".to_string(),
            "https://api.example/v1".to_string(),
            "--max-time".to_string(),
            "120".to_string(),
            "-w".to_string(),
            format!("\n{}%{{http_code}}", STATUS_MARKER),
            "-K".to_string(),
            "-".to_string(),
        ]
    );
    assert!(args.iter().all(|a| !a.contains("secret")));
}
