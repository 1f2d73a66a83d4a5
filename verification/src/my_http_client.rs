//! What a client does with the outcome of one attempt to send a request.

use vstd::prelude::*;
use std::time::Duration;
use crate::error::MyHttpClientError;

verus! {

/// Seconds that one write to the socket may take.
pub const SEND_TO_SOCKET_TIMEOUT_SECS: u64 = 30;

/// Seconds that connecting to the remote host may take.
pub const CONNECT_TIMEOUT_SECS: u64 = 5;

/// Seconds that one read from the socket may take.
pub const READ_FROM_STREAM_TIMEOUT_SECS: u64 = 120;

/// What a caller was waiting for, once it has arrived.
#[derive(Debug, Clone, Copy, PartialEq, Eq, Structural)]
pub enum HttpTask {
    /// A response.
    Response,
    /// A response that hands the connection over to a web socket, with the
    /// read half of the stream.
    WebsocketUpgrade,
}

/// How one attempt to send a request ended.
pub enum SendAttempt {
    /// The request could not be queued.
    Refused(MyHttpClientError),
    /// No response arrived on this connection in the time given.
    TimedOut(Duration, u64),
    /// The caller was told that the request failed.
    Failed(MyHttpClientError),
    /// The caller was given what it waited for, on this connection.
    Completed(HttpTask, u64),
}

/// What the client does next.
pub enum ClientStep {
    /// Connect anew, then send the request again.
    Reconnect,
    /// Give up and report.
    Fail(MyHttpClientError),
    /// End this connection, on which the request is already written, then
    /// give up and report.
    Abort(u64, MyHttpClientError),
    /// Hand the response to the caller.
    Deliver,
    /// Take the write half of this connection, join it with the read half
    /// and hand the stream to the caller.
    Upgrade(u64),
}

/// Decides what follows an attempt to send a request. A lost connection,
/// whether found when queuing or told while waiting, is answered by
/// connecting anew and sending again; every other failure is reported; no
/// response in time ends the connection and is reported as a timeout.
pub fn send_payload(attempt: SendAttempt) -> (res: ClientStep)
    ensures
        match attempt {
            SendAttempt::Refused(e) | SendAttempt::Failed(e) => if e is Disconnected {
                res is Reconnect
            } else {
                res == ClientStep::Fail(e)
            },
            SendAttempt::TimedOut(d, id) => res == ClientStep::Abort(
                id,
                MyHttpClientError::RequestTimeout(d),
            ),
            SendAttempt::Completed(HttpTask::Response, _) => res is Deliver,
            SendAttempt::Completed(HttpTask::WebsocketUpgrade, id) => res == ClientStep::Upgrade(
                id,
            ),
        },
{
    match attempt {
        SendAttempt::Refused(e) => {
            if e.is_retirable() {
                ClientStep::Reconnect
            } else {
                ClientStep::Fail(e)
            }
        },
        SendAttempt::Failed(e) => {
            if e.is_retirable() {
                ClientStep::Reconnect
            } else {
                ClientStep::Fail(e)
            }
        },
        SendAttempt::TimedOut(d, id) => ClientStep::Abort(
            id,
            MyHttpClientError::RequestTimeout(d),
        ),
        SendAttempt::Completed(HttpTask::Response, _) => ClientStep::Deliver,
        SendAttempt::Completed(HttpTask::WebsocketUpgrade, id) => ClientStep::Upgrade(id),
    }
}

/// Hands out the next connection number and moves the counter on. Numbers
/// grow by one; behind the largest the count starts again at zero.
pub fn next_connection_id(counter: &mut u64) -> (res: u64)
    ensures
        res == *old(counter),
        *old(counter) < u64::MAX ==> *final(counter) == *old(counter) + 1,
        *old(counter) == u64::MAX ==> *final(counter) == 0,
{
    let current: u64 = *counter;
    *counter = if current == u64::MAX { 0 } else { current + 1 };
    current
}

} // verus!
