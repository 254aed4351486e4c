use container_client::error::Error;
use container_client::routes::{ApiErrorPayload, ContainerListFilters, ContainerStats};
use container_client::xpc::{
    check_reply, reply_error_data, Connection, XpcDict, XpcObject, XpcType, XpcValue, ERROR_KEY,
    ROUTE_KEY,
};
use container_client::{
    error_json, get_log_files_request, get_stats_payload, get_stats_request,
    list_containers_payload, list_containers_request, log_descriptor, log_descriptor_count,
    validate_c_str, SERVICE,
};

fn xpc_text(r: Result<impl std::fmt::Debug, Error>) -> String {
    match r {
        Err(Error::Xpc(m)) => m,
        other => panic!("expected an XPC error, got {other:?}"),
    }
}

fn reply_with(kind: XpcType, entries: Vec<(&str, XpcValue)>) -> XpcDict {
    XpcDict::from_owned(XpcObject {
        kind,
        entries: entries.into_iter().map(|(k, v)| (k.to_string(), v)).collect(),
    })
}

#[test]
fn list_request_carries_route_and_filters() {
    let d = list_containers_request(br#"{"ids":[],"labels":{}}"#);
    assert_eq!(d.get_string(ROUTE_KEY), Some("containerList".to_string()));
    assert_eq!(d.get_data("listFilters"), Some(br#"{"ids":[],"labels":{}}"#.to_vec()));
    assert_eq!(ROUTE_KEY, "com.apple.container.xpc.route");
}

#[test]
fn stats_request_carries_route_and_id() {
    let d = get_stats_request("web-1");
    assert_eq!(d.get_string(ROUTE_KEY), Some("containerStats".to_string()));
    assert_eq!(d.get_string("id"), Some("web-1".to_string()));
    assert_eq!(d.as_ptr().entries.len(), 2);
}

#[test]
fn logs_request_carries_route_and_id() {
    let d = get_log_files_request("db");
    assert_eq!(d.get_string(ROUTE_KEY), Some("containerLogs".to_string()));
    assert_eq!(d.get_string("id"), Some("db".to_string()));
}

#[test]
fn list_payload_present_or_absent() {
    let with = reply_with(XpcType::Dictionary, vec![("containers", XpcValue::Data(b"[]".to_vec()))]);
    assert_eq!(list_containers_payload(&with), Some(b"[]".to_vec()));
    let without = reply_with(XpcType::Dictionary, vec![]);
    assert_eq!(list_containers_payload(&without), None);
}

#[test]
fn stats_payload_required() {
    let with = reply_with(XpcType::Dictionary, vec![("statistics", XpcValue::Data(b"{}".to_vec()))]);
    assert_eq!(get_stats_payload(&with).unwrap(), b"{}".to_vec());
    let without = reply_with(XpcType::Dictionary, vec![]);
    assert_eq!(xpc_text(get_stats_payload(&without)), "reply missing 'statistics' key");
    let empty = reply_with(XpcType::Dictionary, vec![("statistics", XpcValue::Data(vec![]))]);
    assert_eq!(xpc_text(get_stats_payload(&empty)), "reply missing 'statistics' key");
}

#[test]
fn log_count_checks() {
    let none = reply_with(XpcType::Dictionary, vec![]);
    assert_eq!(xpc_text(log_descriptor_count(&none)), "reply missing 'logs' key");
    let one = reply_with(XpcType::Dictionary, vec![("logs", XpcValue::Array(1))]);
    assert_eq!(xpc_text(log_descriptor_count(&one)), "expected ≥ 2 log descriptors, got 1");
    let zero = reply_with(XpcType::Dictionary, vec![("logs", XpcValue::Array(0))]);
    assert_eq!(xpc_text(log_descriptor_count(&zero)), "expected ≥ 2 log descriptors, got 0");
    let two = reply_with(XpcType::Dictionary, vec![("logs", XpcValue::Array(2))]);
    assert_eq!(log_descriptor_count(&two).unwrap(), 2);
    let many = reply_with(XpcType::Dictionary, vec![("logs", XpcValue::Array(7))]);
    assert_eq!(log_descriptor_count(&many).unwrap(), 7);
    let other = reply_with(XpcType::Dictionary, vec![("logs", XpcValue::Other)]);
    assert_eq!(xpc_text(log_descriptor_count(&other)), "expected ≥ 2 log descriptors, got 0");
    let text = reply_with(XpcType::Dictionary, vec![("logs", XpcValue::String("x".to_string()))]);
    assert_eq!(xpc_text(log_descriptor_count(&text)), "expected ≥ 2 log descriptors, got 0");
}

#[test]
fn log_descriptor_dup_failure() {
    assert_eq!(log_descriptor(0, 5).unwrap(), 5);
    assert_eq!(log_descriptor(1, 0).unwrap(), 0);
    assert_eq!(
        xpc_text(log_descriptor(1, -1)),
        "xpc_fd_dup failed for log descriptor at index 1"
    );
    assert_eq!(
        xpc_text(log_descriptor(1307, -1)),
        "xpc_fd_dup failed for log descriptor at index 1307"
    );
}

#[test]
fn null_reply_is_an_error() {
    assert_eq!(xpc_text(check_reply(None, None)), "received NULL reply");
}

#[test]
fn error_object_gives_its_description() {
    let r = reply_with(
        XpcType::Error,
        vec![("XPCErrorDescription", XpcValue::String("Connection interrupted".to_string()))],
    );
    let payload = ApiErrorPayload { code: "x".to_string(), message: "y".to_string() };
    assert_eq!(xpc_text(check_reply(Some(r), Some(payload))), "Connection interrupted");
}

#[test]
fn error_object_without_description() {
    let r = reply_with(XpcType::Error, vec![]);
    assert_eq!(xpc_text(check_reply(Some(r), None)), "unknown XPC error");
}

#[test]
fn application_error_from_payload() {
    let r = reply_with(XpcType::Dictionary, vec![(ERROR_KEY, XpcValue::Data(b"{}".to_vec()))]);
    assert_eq!(reply_error_data(&r), Some(b"{}".to_vec()));
    let payload = ApiErrorPayload { code: "notFound".to_string(), message: "no such container".to_string() };
    match check_reply(Some(r), Some(payload)) {
        Err(Error::Api { code, message }) => {
            assert_eq!(code, "notFound");
            assert_eq!(message, "no such container");
        },
        other => panic!("unexpected {other:?}"),
    }
}

#[test]
fn clean_reply_passes_unchanged() {
    let r = reply_with(XpcType::Dictionary, vec![("containers", XpcValue::Data(b"[1]".to_vec()))]);
    assert_eq!(reply_error_data(&r), None);
    let ok = check_reply(Some(r), None).unwrap();
    assert_eq!(ok.get_data("containers"), Some(b"[1]".to_vec()));
    assert_eq!(ok.as_ptr().entries.len(), 1);
}

#[test]
fn connection_open_checks_name() {
    let c = Connection::open(SERVICE).unwrap();
    assert_eq!(c.service(), "com.apple.container.apiserver");
    let c = c.established(true).unwrap();
    assert_eq!(c.service(), SERVICE);
    assert_eq!(
        xpc_text(c.established(false)),
        "xpc_connection_create_mach_service returned NULL"
    );
    assert_eq!(
        xpc_text(Connection::open("a\0b")),
        "service name contains interior NUL: \"a\\0b\""
    );
}

#[test]
fn error_json_wraps_message() {
    assert_eq!(error_json("boom"), r#"{"error":"boom"}"#);
    assert_eq!(error_json(""), r#"{"error":""}"#);
}

#[test]
fn error_json_escapes_message() {
    assert_eq!(error_json("\""), r#"{"error":"\""}"#);
    assert_eq!(error_json("\\"), r#"{"error":"\\"}"#);
    assert_eq!(error_json("say \"hi\"\\"), "{\"error\":\"say \\\"hi\\\"\\\\\"}");
    assert_eq!(
        error_json("a\0\n\t\r\u{8}\u{c}\u{1f}b"),
        "{\"error\":\"a\\u0000\\n\\t\\r\\b\\f\\u001fb\"}"
    );
    assert_eq!(error_json("héllo ≥"), "{\"error\":\"héllo ≥\"}");
}

#[test]
fn error_json_is_json_with_the_message() {
    let mut all_controls = String::new();
    for c in 0u8..0x20 {
        all_controls.push(c as char);
    }
    let messages = [
        "plain",
        "\"",
        "\\",
        "\0",
        "quote \" backslash \\ newline \n",
        "apiserver [notFound]: container \"web\" not found",
        all_controls.as_str(),
        "unicode ≥ é 😀",
    ];
    for msg in messages {
        let text = error_json(msg);
        assert!(!text.contains('\0'));
        let v: serde_json::Value = serde_json::from_str(&text).expect("valid JSON");
        let obj = v.as_object().expect("an object");
        assert_eq!(obj.len(), 1);
        assert_eq!(obj.get("error").and_then(|e| e.as_str()), Some(msg));
    }
}

#[test]
fn validate_c_str_cases() {
    assert_eq!(validate_c_str(None), Err(r#"{"error":"argument is NULL"}"#.to_string()));
    assert_eq!(
        validate_c_str(Some(b"a\"b")),
        Ok("a\"b")
    );
    assert_eq!(
        validate_c_str(Some(&[0xff, 0x41])),
        Err(r#"{"error":"argument is not valid UTF-8"}"#.to_string())
    );
    assert_eq!(validate_c_str(Some("héllo".as_bytes())), Ok("héllo"));
    assert_eq!(validate_c_str(Some(&[])), Ok(""));
}

#[test]
fn error_texts() {
    assert_eq!(Error::Xpc("broken".to_string()).to_string(), "xpc: broken");
    assert_eq!(
        Error::Api { code: "E1".to_string(), message: "bad".to_string() }.to_string(),
        "apiserver [E1]: bad"
    );
}

#[test]
fn default_filters_match_everything() {
    let f = ContainerListFilters::default();
    assert!(f.ids.is_empty());
    assert!(f.labels.is_empty());
}

#[test]
fn stats_model_holds_its_fields() {
    let s = ContainerStats {
        id: "c".to_string(),
        cpu_usage_usec: 1,
        num_processes: 2,
        memory_usage_bytes: 3,
        memory_limit_bytes: 4,
        block_read_bytes: 5,
        block_write_bytes: 6,
        network_rx_bytes: 7,
        network_tx_bytes: 8,
    };
    assert_eq!(s.id, "c");
    assert_eq!(s.network_tx_bytes, 8);
}
