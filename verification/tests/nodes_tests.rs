use comfyui_desktop::nodes::{
    format_missing_mooshie_nodes_error, is_missing_mooshie_nodes_error, missing_controlnet_nodes_marker,
    parse_missing_nodes_from_error, parse_netstat_listening_pid, server_error_payload, ServerErrorKind,
};

#[test]
fn parse_missing_mooshie_nodes_from_error() {
    let err = format_missing_mooshie_nodes_error(
        &vec!["MooshieSaveImage".to_string(), "ApplyTiledDiffusion".to_string()],
        None,
    );
    let parsed = parse_missing_nodes_from_error(&err);
    assert_eq!(parsed.len(), 2);
    assert!(parsed.contains(&"MooshieSaveImage".to_string()));
}

#[test]
fn server_error_payload_mooshie_kind() {
    let err = format_missing_mooshie_nodes_error(&vec!["MooshieSaveImage".to_string()], None);
    let payload = server_error_payload(&err, 8188, None);
    assert_eq!(payload.kind.as_str(), "missing_mooshie_nodes");
    assert_eq!(payload.port, 8188);
    assert!(payload.missing_nodes.len() == 1);
}

#[test]
fn server_error_payload_controlnet_kind() {
    let err = format!(
        "{}: CannyEdgePreprocessor. Check the ComfyUI log for custom-node import errors.",
        missing_controlnet_nodes_marker()
    );
    let payload = server_error_payload(&err, 8188, None);
    assert_eq!(payload.kind.as_str(), "missing_controlnet_nodes");
}

#[test]
fn server_error_payload_crashed_kind() {
    let err = "ComfyUI process exited with exit code: 1";
    let payload = server_error_payload(err, 8188, None);
    assert_eq!(payload.kind.as_str(), "crashed");
}

#[test]
fn parse_netstat_listening_pid_exact_port() {
    let line = "  TCP    0.0.0.0:8188           0.0.0.0:0              LISTENING       4242";
    assert_eq!(parse_netstat_listening_pid(line, 8188), Some(4242));
    assert_eq!(parse_netstat_listening_pid(line, 18188), None);
}

#[test]
fn netstat_line_not_listening_gives_none() {
    let line = "  TCP    127.0.0.1:8188         127.0.0.1:50000        ESTABLISHED     4242";
    assert_eq!(parse_netstat_listening_pid(line, 8188), None);
}

#[test]
fn netstat_bad_pid_gives_none() {
    let line = "  TCP    0.0.0.0:8188           0.0.0.0:0              LISTENING       abc";
    assert_eq!(parse_netstat_listening_pid(line, 8188), None);
}

#[test]
fn missing_nodes_error_keeps_log_tail() {
    let err = format_missing_mooshie_nodes_error(&vec!["A".to_string()], Some("line1\nline2"));
    assert!(err.ends_with("\n\nComfyUI log (last lines):\nline1\nline2"));
    assert!(is_missing_mooshie_nodes_error(&err));
    assert_eq!(parse_missing_nodes_from_error(&err), vec!["A".to_string()]);
}

#[test]
fn generic_error_kind() {
    let payload = server_error_payload("something odd", 1, None);
    assert!(payload.kind == ServerErrorKind::Generic);
    assert!(payload.missing_nodes.is_empty());
    assert!(!is_missing_mooshie_nodes_error("something odd"));
}

#[test]
fn missing_nodes_round_trip_with_log() {
    let names = vec!["MooshieSaveImage".to_string(), "NanoSaurLoader".to_string(), "ApplyTiledDiffusion".to_string()];
    let err = format_missing_mooshie_nodes_error(&names, Some("line one.\nline: two, three"));
    assert!(err.ends_with("line one.\nline: two, three"));
    assert_eq!(parse_missing_nodes_from_error(&err), names);
    let none: Vec<String> = Vec::new();
    let empty_err = format_missing_mooshie_nodes_error(&none, None);
    assert!(is_missing_mooshie_nodes_error(&empty_err));
    assert_eq!(parse_missing_nodes_from_error(&empty_err), none);
    assert_eq!(parse_missing_nodes_from_error("no marker here: a, b."), none);
}
