use fckn_gay::server::trace::{generate_random_trace_id, parse_traceparent_trace_id, request_trace_id, trace_id_for};

#[test]
fn valid_traceparent() {
    let tp = "00-4bf92f3577b34da6a3ce929d0e0e4736-00f067aa0ba902b7-01";
    assert_eq!(
        parse_traceparent_trace_id(tp).as_deref(),
        Some("4bf92f3577b34da6a3ce929d0e0e4736")
    );
}

#[test]
fn all_zeros_invalid() {
    let tp = "00-00000000000000000000000000000000-00f067aa0ba902b7-01";
    assert_eq!(parse_traceparent_trace_id(tp), None);
}

#[test]
fn too_short() {
    assert_eq!(parse_traceparent_trace_id("00-abc-def-01"), None);
}

#[test]
fn non_hex_chars() {
    let tp = "00-zzzzzzzzzzzzzzzzzzzzzzzzzzzzzzzz-00f067aa0ba902b7-01";
    assert_eq!(parse_traceparent_trace_id(tp), None);
}

#[test]
fn version_ff_invalid() {
    let tp = "ff-4bf92f3577b34da6a3ce929d0e0e4736-00f067aa0ba902b7-01";
    assert_eq!(parse_traceparent_trace_id(tp), None);
}

#[test]
fn random_trace_id_length() {
    assert_eq!(generate_random_trace_id(8).len(), 8);
    assert_eq!(generate_random_trace_id(16).len(), 16);
    assert_eq!(generate_random_trace_id(32).len(), 32);
    assert_eq!(generate_random_trace_id(64).len(), 32);
}

#[test]
fn random_trace_id_is_lower_hex() {
    let id = generate_random_trace_id(32);
    assert!(id.chars().all(|c| c.is_ascii_digit() || ('a'..='f').contains(&c)));
}

#[test]
fn incoming_trace_id_used_only_when_trusted() {
    let tp = "00-4bf92f3577b34da6a3ce929d0e0e4736-00f067aa0ba902b7-01";
    assert_eq!(request_trace_id(true, Some(tp), 8), "4bf92f35");
    assert_eq!(request_trace_id(true, Some(tp), 40), "4bf92f3577b34da6a3ce929d0e0e4736");
    assert_eq!(request_trace_id(false, Some(tp), 8).len(), 8);
    assert_eq!(request_trace_id(true, None, 12).len(), 12);
}

#[test]
fn untrusted_trace_id_ignores_the_header() {
    let tp = "00-4bf92f3577b34da6a3ce929d0e0e4736-00f067aa0ba902b7-01";
    let random = vec![0xab, 0xcd, 0xef, 0x01];
    assert_eq!(trace_id_for(false, Some(tp), 8, &random), "abcdef01");
    assert_eq!(trace_id_for(false, None, 8, &random), "abcdef01");
    assert_eq!(trace_id_for(true, Some(tp), 8, &random), "4bf92f35");
    assert_eq!(trace_id_for(true, Some("garbage"), 7, &random), "abcdef0");
}
