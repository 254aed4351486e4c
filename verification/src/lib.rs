//! Client logic for Apple's `container-apiserver` XPC service
//! (`com.apple.container.apiserver`).
//!
//! Every request is a single XPC dictionary whose route key
//! (`com.apple.container.xpc.route`) selects the operation; parameters and
//! responses are JSON-encoded `xpc_data` blobs. The library builds those
//! dictionaries, reads the replies and decides the errors; the transport
//! moves the dictionaries to and from libxpc.

pub mod error;
pub mod routes;
pub mod text;
pub mod xpc;

use vstd::prelude::*;

use crate::error::Error;
use crate::text::{
    decimal, has_nul, json_string_decode, json_string_escape, law_json_escape_reads_back, lemma_concat_no_nul, lemma_escape_no_nul, push_decimal,
    push_json_escaped, str_from_utf8,
};
use crate::xpc::{XpcDict, XpcDictView, XpcType, XpcValueView, ROUTE_KEY};

verus! {

/// Mach service name registered by `container system start`.
pub const SERVICE: &'static str = "com.apple.container.apiserver";

/// A request dictionary that selects the operation `route`.
pub open spec fn request(route: Seq<char>) -> XpcDictView {
    (XpcDictView { kind: XpcType::Dictionary, entries: Map::empty() }).with_value(
        ROUTE_KEY@,
        XpcValueView::String(route),
    )
}

/// Every request selects its operation: whatever else it carries under
/// other keys, the route key holds the route, and it is an ordinary
/// dictionary.
pub proof fn law_request_selects_route(route: Seq<char>, key: Seq<char>, v: XpcValueView)
    requires
        key != ROUTE_KEY@,
    ensures
        request(route).with_value(key, v).string_at(ROUTE_KEY@) == Some(route),
        request(route).with_value(key, v).value_at(key) == Some(v),
        !request(route).with_value(key, v).is_error(),
{
}

/// A request dictionary for `route`, with the C string `value` under `key`.
fn request_with_string(route: &str, key: &str, value: &str) -> (r: XpcDict)
    requires
        !has_nul(route@),
        !has_nul(key@),
        !has_nul(value@),
    ensures
        r@ == request(route@).with_value(key@, XpcValueView::String(value@)),
{
    let mut msg = XpcDict::new();
    proof {
        reveal_strlit("com.apple.container.xpc.route");
    }
    msg.set_string(ROUTE_KEY, route);
    msg.set_string(key, value);
    msg
}

/// The `containerList` request, carrying the JSON encoding of the filters
/// under `listFilters`.
pub fn list_containers_request(filters_json: &[u8]) -> (r: XpcDict)
    ensures
        r@ == request("containerList"@).with_value("listFilters"@, XpcValueView::Data(filters_json@)),
{
    let mut msg = XpcDict::new();
    proof {
        reveal_strlit("com.apple.container.xpc.route");
        reveal_strlit("containerList");
        reveal_strlit("listFilters");
    }
    msg.set_string(ROUTE_KEY, "containerList");
    msg.set_data("listFilters", filters_json);
    msg
}

/// The keys of a reply that the client reads: the error description, the
/// application error, and the payloads of the three operations. They are
/// distinct C strings.
pub fn reply_keys() -> (r: Vec<&'static str>)
    ensures
        r@.len() == 5,
        r@[0]@ == crate::xpc::ERROR_DESCRIPTION_KEY@,
        r@[1]@ == crate::xpc::ERROR_KEY@,
        r@[2]@ == "containers"@,
        r@[3]@ == "statistics"@,
        r@[4]@ == "logs"@,
        forall|i: int| 0 <= i < r@.len() ==> !has_nul(#[trigger] r@[i]@),
        forall|i: int, j: int|
            0 <= i < r@.len() && 0 <= j < r@.len() && i != j ==> #[trigger] r@[i]@ != #[trigger] r@[j]@,
{
    proof {
        reveal_strlit("XPCErrorDescription");
        reveal_strlit("com.apple.container.xpc.error");
        reveal_strlit("containers");
        reveal_strlit("statistics");
        reveal_strlit("logs");
    }
    let r = vec![
        crate::xpc::ERROR_DESCRIPTION_KEY,
        crate::xpc::ERROR_KEY,
        "containers",
        "statistics",
        "logs",
    ];
    assert(r@[0]@.len() == 19 && r@[1]@.len() == 29 && r@[2]@.len() == 10 && r@[3]@.len() == 10
        && r@[4]@.len() == 4);
    assert(r@[2]@[0] != r@[3]@[0]);
    assert forall|i: int, j: int|
        0 <= i < r@.len() && 0 <= j < r@.len() && i != j implies #[trigger] r@[i]@
        != #[trigger] r@[j]@ by {
        assert(i == 0 || i == 1 || i == 2 || i == 3 || i == 4);
        assert(j == 0 || j == 1 || j == 2 || j == 3 || j == 4);
        if (i == 2 && j == 3) || (i == 3 && j == 2) {
            assert(r@[i]@[0] != r@[j]@[0]);
        }
    }
    r
}

/// The JSON encoding of the container list in a `containerList` reply; a
/// reply without it lists no containers.
pub fn list_containers_payload(reply: &XpcDict) -> (r: Option<Vec<u8>>)
    ensures
        r matches Some(b) ==> reply@.data_at("containers"@) == Some(b@),
        r is None ==> reply@.data_at("containers"@) is None,
{
    reply.get_data("containers")
}

/// The `containerStats` request for one container.
///
/// The id must be a C string: a NUL byte in it is a caller's error.
pub fn get_stats_request(container_id: &str) -> (r: XpcDict)
    requires
        !has_nul(container_id@),
    ensures
        r@ == request("containerStats"@).with_value("id"@, XpcValueView::String(container_id@)),
{
    proof {
        reveal_strlit("containerStats");
        reveal_strlit("id");
    }
    request_with_string("containerStats", "id", container_id)
}

/// The JSON encoding of the statistics in a `containerStats` reply, which
/// must carry them.
pub fn get_stats_payload(reply: &XpcDict) -> (r: Result<Vec<u8>, Error>)
    ensures
        match reply@.data_at("statistics"@) {
            Some(b) => r matches Ok(v) && v@ == b,
            None => r matches Err(e) && e.is_xpc_with("reply missing 'statistics' key"@),
        },
{
    match reply.get_data("statistics") {
        Some(b) => Ok(b),
        None => Err(Error::Xpc(String::from_str("reply missing 'statistics' key"))),
    }
}

/// The `containerLogs` request for one container.
///
/// The id must be a C string: a NUL byte in it is a caller's error.
pub fn get_log_files_request(container_id: &str) -> (r: XpcDict)
    requires
        !has_nul(container_id@),
    ensures
        r@ == request("containerLogs"@).with_value("id"@, XpcValueView::String(container_id@)),
{
    proof {
        reveal_strlit("containerLogs");
        reveal_strlit("id");
    }
    request_with_string("containerLogs", "id", container_id)
}

/// The message for a `logs` array with too few descriptors.
pub open spec fn too_few_logs_text(count: nat) -> Seq<char> {
    "expected ≥ 2 log descriptors, got "@ + decimal(count)
}

/// How many log descriptors the value under `logs` counts as: the items of
/// an array. A value of any other type is taken to hold none; that choice is
/// this library's, the protocol always sends an array.
pub open spec fn logs_count(v: XpcValueView) -> usize {
    match v {
        XpcValueView::Array(n) => n,
        _ => 0,
    }
}

/// The number of log descriptors in a `containerLogs` reply: the value under
/// `logs` must be there and hold at least the stdio and the boot descriptor.
pub fn log_descriptor_count(reply: &XpcDict) -> (r: Result<usize, Error>)
    ensures
        match reply@.value_at("logs"@) {
            Some(v) => if logs_count(v) < 2 {
                r matches Err(e) && e.is_xpc_with(too_few_logs_text(logs_count(v) as nat))
            } else {
                r == Ok::<usize, Error>(logs_count(v))
            },
            None => r matches Err(e) && e.is_xpc_with("reply missing 'logs' key"@),
        },
{
    match reply.get_raw_value("logs") {
        Some(v) => {
            let n = match v {
                crate::xpc::XpcValue::Array(n) => n,
                _ => 0,
            };
            if n < 2 {
                let mut msg = String::from_str("expected ≥ 2 log descriptors, got ");
                push_decimal(&mut msg, n);
                Err(Error::Xpc(msg))
            } else {
                Ok(n)
            }
        },
        None => Err(Error::Xpc(String::from_str("reply missing 'logs' key"))),
    }
}

/// The message for a log descriptor that could not be duplicated.
pub open spec fn dup_failed_text(index: nat) -> Seq<char> {
    "xpc_fd_dup failed for log descriptor at index "@ + decimal(index)
}

/// What duplicating the log descriptor at `index` of the `logs` array came
/// to: `xpc_fd_dup` answers -1 on failure, else a new descriptor.
pub fn log_descriptor(index: usize, fd: i32) -> (r: Result<i32, Error>)
    ensures
        fd == -1 ==> (r matches Err(e) && e.is_xpc_with(dup_failed_text(index as nat))),
        fd != -1 ==> r == Ok::<i32, Error>(fd),
{
    if fd == -1 {
        let mut msg = String::from_str("xpc_fd_dup failed for log descriptor at index ");
        push_decimal(&mut msg, index);
        Err(Error::Xpc(msg))
    } else {
        Ok(fd)
    }
}

/// The JSON object `{"error":"<msg>"}` that the C interface returns on
/// failure, the message written as a JSON string.
pub open spec fn error_json_text(msg: Seq<char>) -> Seq<char> {
    "{\"error\":\""@ + json_string_escape(msg) + "\"}"@
}

/// The JSON error object for `msg`. It never holds NUL, so it can be handed
/// to C as a string.
pub fn error_json(msg: &str) -> (r: String)
    ensures
        r@ == error_json_text(msg@),
        !has_nul(r@),
{
    let mut r = String::from_str("{\"error\":\"");
    push_json_escaped(&mut r, msg);
    let r = r.concat("\"}");
    proof {
        reveal_strlit("{\"error\":\"");
        reveal_strlit("\"}");
        lemma_escape_no_nul(msg@);
        lemma_concat_no_nul("{\"error\":\""@, json_string_escape(msg@));
        lemma_concat_no_nul("{\"error\":\""@ + json_string_escape(msg@), "\"}"@);
    }
    r
}

/// The error object reads back: between its fixed head `{"error":"` and
/// tail `"}`, a JSON parser reads exactly the message, whatever it holds.
pub proof fn law_error_json_reads_back(msg: Seq<char>)
    ensures
        error_json_text(msg).subrange(0, 10) == "{\"error\":\""@,
        error_json_text(msg).subrange(error_json_text(msg).len() - 2, error_json_text(msg).len() as int)
            == "\"}"@,
        json_string_decode(
            error_json_text(msg).subrange(10, error_json_text(msg).len() - 2),
        ) == Some(msg),
{
    reveal_strlit("{\"error\":\"");
    reveal_strlit("\"}");
    let t = json_string_escape(msg);
    let all = error_json_text(msg);
    assert(all.subrange(0, 10) =~= "{\"error\":\""@);
    assert(all.subrange(all.len() - 2, all.len() as int) =~= "\"}"@);
    assert(all.subrange(10, all.len() - 2) =~= t);
    law_json_escape_reads_back(msg);
}

/// Check and borrow a C string argument, given by its bytes up to the
/// terminating NUL (`None` for a NULL pointer): it must be there and be UTF-8. On failure
/// the result is the JSON error text to return to the C caller.
pub fn validate_c_str<'a>(arg: Option<&'a [u8]>) -> (r: Result<&'a str, String>)
    ensures
        match arg {
            None => r matches Err(j) && j@ == error_json_text("argument is NULL"@) && !has_nul(j@),
            Some(b) => if vstd::utf8::valid_utf8(b@) {
                r matches Ok(s) && vstd::utf8::encode_utf8(s@) == b@
            } else {
                r matches Err(j) && j@ == error_json_text("argument is not valid UTF-8"@)
                    && !has_nul(j@)
            },
        },
{
    match arg {
        None => Err(error_json("argument is NULL")),
        Some(b) => match str_from_utf8(b) {
            Some(s) => Ok(s),
            None => Err(error_json("argument is not valid UTF-8")),
        },
    }
}

} // verus!
