//! The decisions of a connection's sending side: how one send runs, and
//! what closing does.

use vstd::prelude::*;
use crate::error::{ConnectionError, RecvError, SendError, StreamError};
use crate::payload::bytes_contents;
use crate::wire_msg::{WireMsg, WireMsgModel};
use bytes::Bytes;

verus! {

/// The priority of a message sent without one.
pub const DEFAULT_PRIORITY: i32 = 0;

/// The code with which a connection is closed.
pub const CLOSE_CODE: u32 = 0;

/// The reason given where a connection is closed without one.
pub open spec fn default_close_reason() -> Seq<char> {
    "The connection was closed intentionally by qp2p."@
}

/// The reason with which the connection is closed: the caller's, or the
/// default.
pub fn close_reason(reason: Option<String>) -> (text: String)
    ensures
        text@ == (match reason {
            Some(r) => r@,
            None => default_close_reason(),
        }),
{
    match reason {
        Some(r) => r,
        None => "The connection was closed intentionally by qp2p.".to_owned(),
    }
}

/// Whether a connection was closed from this side.
#[derive(Debug, Clone, Copy, PartialEq, Eq)]
pub struct CloseState {
    pub closed: bool,
}

impl CloseState {
    /// A connection that was not closed.
    pub fn new() -> (state: Self)
        ensures
            !state.closed,
    {
        CloseState { closed: false }
    }

    /// Closes the connection.
    ///
    /// The first call gives the reason to close the transport with; every
    /// later call gives `None` and changes nothing.
    pub fn close(&mut self, reason: Option<String>) -> (action: Option<String>)
        ensures
            final(self).closed,
            old(self).closed ==> action.is_none() && *final(self) == *old(self),
            !old(self).closed ==> action.is_some() && action.unwrap()@ == (match reason {
                Some(r) => r@,
                None => default_close_reason(),
            }),
    {
        if self.closed {
            None
        } else {
            self.closed = true;
            Some(close_reason(reason))
        }
    }
}

/// The record that carries a payload to the peer. The payload itself stays
/// with the caller, so that every attempt of a send carries the same bytes.
pub fn user_msg(payload: &Bytes) -> (msg: WireMsg)
    ensures
        msg@ == WireMsgModel::UserMsg(bytes_contents(*payload)),
{
    WireMsg::UserMsg(payload.clone())
}

/// A stream that could not be opened fails the send as a lost connection.
pub fn open_failed(error: ConnectionError) -> (e: SendError)
    ensures
        e == SendError::ConnectionLost(error),
{
    SendError::ConnectionLost(error)
}

/// What a send makes of the result of finishing its stream: where the peer
/// had stopped the stream already, the message counts as delivered; every
/// other result stands.
pub open spec fn spec_finish_outcome(finished: Result<(), SendError>) -> Result<(), SendError> {
    match finished {
        Err(SendError::StreamLost(StreamError::Stopped(_))) => Ok(()),
        _ => finished,
    }
}

/// Judges the result of finishing the stream of a send.
pub fn finish_outcome(finished: Result<(), SendError>) -> (r: Result<(), SendError>)
    ensures
        r == spec_finish_outcome(finished),
{
    match finished {
        Err(SendError::StreamLost(StreamError::Stopped(_))) => Ok(()),
        other => other,
    }
}

/// What an endpoint does with the next item of a connection's inbound
/// queue: a message is forwarded to the application; the end of the queue,
/// or an error on it, ends the forwarding, after which the connection
/// leaves the pool.
pub fn forward_step(next: Result<Option<Bytes>, RecvError>) -> (forward: Option<Bytes>)
    ensures
        forward == (match next {
            Ok(Some(payload)) => Some(payload),
            _ => None,
        }),
{
    match next {
        Ok(Some(payload)) => Some(payload),
        _ => None,
    }
}

} // verus!
