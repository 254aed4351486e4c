//! The errors that the client's own decisions produce: transport-level
//! failures and application-level errors reported by the server.

use vstd::prelude::*;

verus! {

/// An error decided by the client logic.
///
/// JSON decoding and OS I/O failures happen around this logic, where the
/// bytes are decoded and the descriptors are read; they are not values of
/// this type.
#[derive(Debug)]
pub enum Error {
    /// Low-level XPC connection or protocol error.
    Xpc(String),
    /// Application-level error returned by container-apiserver, carried as
    /// JSON under the `com.apple.container.xpc.error` dictionary key.
    Api { code: String, message: String },
}

impl Error {
    /// `self` is an XPC error whose message is `text`.
    pub open spec fn is_xpc_with(self, text: Seq<char>) -> bool {
        self matches Error::Xpc(m) && m@ == text
    }

    /// `self` is a server error with the given code and message.
    pub open spec fn is_api_with(self, code: Seq<char>, message: Seq<char>) -> bool {
        self matches Error::Api { code: c, message: m } && c@ == code && m@ == message
    }

    /// The text that the error displays as.
    pub open spec fn text(self) -> Seq<char> {
        match self {
            Error::Xpc(m) => "xpc: "@ + m@,
            Error::Api { code, message } => "apiserver ["@ + code@ + "]: "@ + message@,
        }
    }

    /// The text of a JSON encoding or decoding failure, from the decoder's own
    /// description of it: `json: <detail>`.
    pub fn json_text(detail: &str) -> (r: String)
        ensures
            r@ == "json: "@ + detail@,
    {
        String::from_str("json: ").concat(detail)
    }

    /// The text of an OS I/O failure, from the OS's description of it:
    /// `io: <detail>`.
    pub fn io_text(detail: &str) -> (r: String)
        ensures
            r@ == "io: "@ + detail@,
    {
        String::from_str("io: ").concat(detail)
    }

    /// The human-readable message of the error: `xpc: <message>` or
    /// `apiserver [<code>]: <message>`.
    pub fn to_string(&self) -> (r: String)
        ensures
            r@ == self.text(),
    {
        match self {
            Error::Xpc(m) => String::from_str("xpc: ").concat(m.as_str()),
            Error::Api { code, message } => {
                String::from_str("apiserver [").concat(code.as_str()).concat("]: ").concat(
                    message.as_str(),
                )
            },
        }
    }
}

} // verus!
