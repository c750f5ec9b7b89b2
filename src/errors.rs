//! The errors that end a request with a direct reply.
use vstd::prelude::*;

verus! {

/// Why a request was answered by the gateway itself.
pub enum ServerError {
    BadRequest { why: String },
    Deserialization(String),
    Serialization(String),
    Upstream { host: String, path: String, status: String, body: String },
    ExceededRatelimit(String),
    HttpDispatch(String),
    LogicError(String),
    NoMessagesFound { why: String },
}

/// The reply text of an upstream error.
pub open spec fn upstream_text(host: Seq<char>, path: Seq<char>, status: Seq<char>, body: Seq<char>) -> Seq<char> {
    "upstream error: host: "@ + host + ", path: "@ + path + ", status: "@ + status + ", body: "@ + body
}

/// The reply text of an error.
pub open spec fn error_text(e: ServerError) -> Seq<char> {
    match e {
        ServerError::BadRequest { why } => why@,
        ServerError::Deserialization(m) => "error deserializing: "@ + m@,
        ServerError::Serialization(m) => "error serializing: "@ + m@,
        ServerError::Upstream { host, path, status, body } => upstream_text(host@, path@, status@, body@),
        ServerError::ExceededRatelimit(m) => "exceeded rate limit: "@ + m@,
        ServerError::HttpDispatch(m) => "error dispatching http call: "@ + m@,
        ServerError::LogicError(m) => m@,
        ServerError::NoMessagesFound { why } => why@,
    }
}

impl ServerError {
    /// The reply text of this error.
    pub fn to_text(&self) -> (r: String)
        ensures
            r@ == error_text(*self),
    {
        match self {
            ServerError::BadRequest { why } => why.clone(),
            ServerError::Deserialization(m) => {
                let mut s = String::from_str("error deserializing: ");
                s.append(m.as_str());
                s
            },
            ServerError::Serialization(m) => {
                let mut s = String::from_str("error serializing: ");
                s.append(m.as_str());
                s
            },
            ServerError::Upstream { host, path, status, body } => {
                let mut s = String::from_str("upstream error: host: ");
                s.append(host.as_str());
                s.append(", path: ");
                s.append(path.as_str());
                s.append(", status: ");
                s.append(status.as_str());
                s.append(", body: ");
                s.append(body.as_str());
                assert(s@ =~= upstream_text(host@, path@, status@, body@));
                s
            },
            ServerError::ExceededRatelimit(m) => {
                let mut s = String::from_str("exceeded rate limit: ");
                s.append(m.as_str());
                s
            },
            ServerError::HttpDispatch(m) => {
                let mut s = String::from_str("error dispatching http call: ");
                s.append(m.as_str());
                s
            },
            ServerError::LogicError(m) => m.clone(),
            ServerError::NoMessagesFound { why } => why.clone(),
        }
    }
}

/// The status of an HTTP status line, when it is three ASCII digits not
/// starting with `0`.
pub open spec fn status_code_of(s: Seq<char>) -> Option<u16> {
    if s.len() == 3 && '1' <= s[0] <= '9' && '0' <= s[1] <= '9' && '0' <= s[2] <= '9' {
        Some(((s[0] as u32 - 48) * 100 + (s[1] as u32 - 48) * 10 + (s[2] as u32 - 48)) as u16)
    } else {
        None
    }
}

/// Relies on `http::StatusCode::from_str`: three bytes, each an ASCII digit and
/// the first not `0`, give that number; anything else is refused.
#[verifier::external_body]
pub(crate) fn parse_status(s: &str) -> (r: Option<u16>)
    ensures
        r == status_code_of(s@),
{
    <http::StatusCode as std::str::FromStr>::from_str(s).ok().map(|c| c.as_u16())
}

} // verus!
