//! Error values of the signing client, the websocket client and the high
//! level client. Failures coming from outside libraries are carried as the
//! text they display.
use vstd::prelude::*;
use vstd::string::StringExecFns;

verus! {

/// Errors raised while signing and submitting transactions.
#[derive(Clone, Debug, PartialEq, Eq)]
pub enum SignerClientError {
    Signer(String),
    UnsupportedPlatform(String),
    Nonce(String),
    Http(String),
    Signing(String),
    InvalidInput(String),
    OrderRejected { code: i32, message: String, tx_hash: String },
    InvalidResponse,
    Json(String),
    Reqwest(String),
    Io(String),
    Utf8(String),
    FromUtf8(String),
    Library(String),
    CString(String),
}

/// Text of an HTTP failure: `status code <status>`, then `: <entity>` when an
/// entity is present, else `: <body>` when the body is not empty.
pub open spec fn http_status_text(status: Seq<char>, entity: Option<Seq<char>>, body: Seq<char>) -> Seq<char> {
    let head = "status code "@ + status;
    match entity {
        Some(e) => head + ": "@ + e,
        None => if body.len() > 0 {
            head + ": "@ + body
        } else {
            head
        },
    }
}

impl SignerClientError {
    /// HTTP failure built from the displayed status, an optional decoded
    /// entity and the raw body.
    pub fn with_http_status(status: &str, entity: Option<String>, body: &str) -> (r: Self)
        ensures
            r matches SignerClientError::Http(msg) && msg@ == http_status_text(
                status@,
                match entity {
                    Some(e) => Some(e@),
                    None => None,
                },
                body@,
            ),
    {
        proof {
            reveal_strlit("status code ");
            reveal_strlit(": ");
        }
        let mut msg = String::from_str("status code ");
        msg.append(status);
        let ghost head: Seq<char> = msg@;
        match entity {
            Some(entity) => {
                msg.append(": ");
                msg.append(entity.as_str());
            },
            None => {
                if !body.is_empty() {
                    msg.append(": ");
                    msg.append(body);
                }
            },
        }
        SignerClientError::Http(msg)
    }
}

/// The error of `url::Url::parse`, carried as it is.
#[verifier::external_type_specification]
#[verifier::external_body]
pub struct ExUrlParseError(url::ParseError);

/// Errors raised by the websocket client.
#[derive(Debug, PartialEq, Eq)]
pub enum WsClientError {
    EmptySubscriptions,
    InvalidChannel(String),
    InvalidMessage(String),
    MissingMessageType,
    UnsupportedScheme(String),
    Auth(String),
    Url(url::ParseError),
    WebSocket(String),
    Json(String),
}

/// Errors returned by the high level client API.
#[derive(Debug, PartialEq, Eq)]
pub enum Error {
    Signer(SignerClientError),
    Ws(WsClientError),
    InvalidConfig { field: &'static str, why: &'static str },
    NotAuthenticated,
    RateLimited { retry_after: Option<u64> },
    Server { status: u16, message: String, code: Option<String> },
    Http { status: u16, body: String },
}

/// Structured error body returned by the REST endpoints.
#[derive(Clone, Debug)]
pub struct ServerErr {
    pub message: String,
    pub code: Option<String>,
    pub retry_after: Option<u64>,
}

/// Maps an HTTP error response: a decoded structured body becomes
/// `RateLimited` for status 429 and `Server` otherwise; an undecodable body
/// becomes `Http` carrying the raw content.
pub fn classify_response_error(status: u16, server: Option<ServerErr>, content: String) -> (r: Error)
    ensures
        match server {
            Some(s) => if status == 429 {
                r == (Error::RateLimited { retry_after: s.retry_after })
            } else {
                r == (Error::Server { status, message: s.message, code: s.code })
            },
            None => r == (Error::Http { status, body: content }),
        },
{
    match server {
        Some(server) => {
            if status == 429 {
                Error::RateLimited { retry_after: server.retry_after }
            } else {
                Error::Server { status, message: server.message, code: server.code }
            }
        },
        None => Error::Http { status, body: content },
    }
}

/// Whether an error reports an unauthorized request (HTTP 401), which makes
/// the cached auth token stale.
pub fn is_unauthorized(error: &Error) -> (r: bool)
    ensures
        r == ((error matches Error::Http { status, .. } && status == 401) || (
        error matches Error::Server { status, .. } && status == 401)),
{
    match error {
        Error::Http { status, .. } => *status == 401,
        Error::Server { status, .. } => *status == 401,
        _ => false,
    }
}

} // verus!
