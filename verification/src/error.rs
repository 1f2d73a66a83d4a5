//! Errors that the client reports to its callers and the ones the response
//! parser raises internally.

use vstd::prelude::*;
use std::time::Duration;

verus! {

/// What a caller of the client can observe when a request does not complete.
#[derive(Debug)]
pub enum MyHttpClientError {
    CanNotConnectToRemoteHost(String),
    UpgradedToWebSocket,
    Disconnected,
    Disposed,
    RequestTimeout(Duration),
    CanNotExecuteRequest(String),
    InvalidHttpHandshake(String),
}

impl MyHttpClientError {
    /// True exactly for the error that marks a connection handed over to a
    /// web socket.
    pub fn is_web_socket_upgraded(&self) -> (res: bool)
        ensures
            res == (self is UpgradedToWebSocket),
    {
        match self {
            MyHttpClientError::UpgradedToWebSocket => true,
            _ => false,
        }
    }

    /// True exactly for the error after which the client reconnects and
    /// submits the request again: a lost transport.
    pub fn is_retirable(&self) -> (res: bool)
        ensures
            res == (self is Disconnected),
    {
        match self {
            MyHttpClientError::Disconnected => true,
            _ => false,
        }
    }
}

/// What the response parser reports. `GetMoreData` only steers the read
/// loop and never reaches a caller.
#[derive(Debug)]
pub enum HttpParseError {
    GetMoreData,
    Error(String),
    ReadingTimeout(Duration),
    Disconnected,
    InvalidHttpPayload(String),
}

impl HttpParseError {
    /// True exactly when the parser only asks for more bytes.
    pub fn get_more_data(&self) -> (res: bool)
        ensures
            res == (self is GetMoreData),
    {
        match self {
            HttpParseError::GetMoreData => true,
            _ => false,
        }
    }

    /// The reason carried by `InvalidHttpPayload`, and nothing for any other
    /// error.
    pub fn as_invalid_payload(&self) -> (res: Option<&str>)
        ensures
            res.is_some() == (self is InvalidHttpPayload),
            self matches HttpParseError::InvalidHttpPayload(msg) ==> res.unwrap()@ == msg@,
    {
        match self {
            HttpParseError::InvalidHttpPayload(src) => Some(src.as_str()),
            _ => None,
        }
    }
}

} // verus!
