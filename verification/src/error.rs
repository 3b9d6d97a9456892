//! The error taxonomy, and the two classifications that the rest of the
//! library decides by: which connection errors are benign closes, and which
//! send errors are worth another attempt.

use vstd::prelude::*;

verus! {

/// The variants of a wire message, without their payloads.
#[derive(Debug, Clone, Copy, PartialEq, Eq)]
pub enum MessageKind {
    UserMsg,
    EndpointEchoReq,
    EndpointEchoResp,
    EndpointVerificationReq,
    EndpointVerificationResp,
    EndpointPseudoBiStreamReq,
    EndpointPseudoBiStreamResp,
}

/// A failure to read a wire message.
#[derive(Debug, Clone, Copy, PartialEq, Eq)]
pub enum SerializationError {
    /// The stream ended inside a record.
    UnexpectedEof,
    /// The record starts with a tag that names no message.
    UnknownTag,
    /// An address starts with a family byte that is neither 4 nor 6.
    MalformedAddress,
    /// A well-formed message arrived where another was demanded; `None`
    /// stands for the end of the stream.
    UnexpectedMessage(Option<MessageKind>),
}

/// A failure of one stream.
#[derive(Debug, Clone, Copy, PartialEq, Eq)]
pub enum StreamError {
    /// The peer stopped reading, with this code.
    Stopped(u64),
    /// The peer reset the stream, with this code.
    Reset(u64),
    /// The stream was already finished or reset.
    UnknownStream,
    /// The transport failed, with this code.
    TransportError(u64),
}

/// Which side closed a connection.
#[derive(Debug, Clone, Copy, PartialEq, Eq)]
pub enum Close {
    Local,
    Peer,
}

/// A failure of a whole connection.
#[derive(Debug, Clone, PartialEq, Eq)]
pub enum ConnectionError {
    /// The connection was closed by one side, with a code and a reason.
    Closed(Close, u64, Vec<u8>),
    /// The peer stayed silent for longer than the idle timeout.
    TimedOut,
    /// The local application closed the connection.
    LocallyClosed,
    /// A stream of the connection was stopped before a handshake on it ended.
    Stopped,
    /// The transport failed, with this code.
    TransportError(u64),
    /// The peer's application closed the connection.
    ApplicationClosed,
}

/// A failure to send.
#[derive(Debug, Clone, PartialEq, Eq)]
pub enum SendError {
    ConnectionLost(ConnectionError),
    StreamLost(StreamError),
    Serialization(SerializationError),
}

/// A failure to receive.
#[derive(Debug, Clone, PartialEq, Eq)]
pub enum RecvError {
    ConnectionLost(ConnectionError),
    StreamLost(StreamError),
    Serialization(SerializationError),
}

/// A failure of a request and its response.
#[derive(Debug, Clone, PartialEq, Eq)]
pub enum RpcError {
    Send(SendError),
    Recv(RecvError),
    TimedOut,
}

impl ConnectionError {
    /// A benign close is an expected end of the connection: the local or the
    /// peer application closed it.
    pub open spec fn spec_is_benign(&self) -> bool {
        *self == ConnectionError::LocallyClosed || *self == ConnectionError::ApplicationClosed
    }

    /// Whether this error is a benign close.
    pub fn is_benign(&self) -> (b: bool)
        ensures
            b == self.spec_is_benign(),
    {
        match self {
            ConnectionError::LocallyClosed => true,
            ConnectionError::ApplicationClosed => true,
            _ => false,
        }
    }
}

/// What an acceptor hands on for one item of an incoming-stream sequence: an
/// error that is a benign close ends the sequence cleanly, like its end proper;
/// everything else passes unchanged.
pub open spec fn spec_filter_benign_close<T>(next: Option<Result<T, ConnectionError>>) -> Option<
    Result<T, ConnectionError>,
> {
    match next {
        Some(Err(e)) => if e.spec_is_benign() {
            None
        } else {
            next
        },
        _ => next,
    }
}

/// Turns a benign close into the clean end of an incoming-stream sequence.
pub fn filter_benign_close<T>(next: Option<Result<T, ConnectionError>>) -> (out: Option<
    Result<T, ConnectionError>,
>)
    ensures
        out == spec_filter_benign_close(next),
{
    match next {
        Some(Err(e)) => {
            if e.is_benign() {
                None
            } else {
                Some(Err(e))
            }
        },
        Some(Ok(item)) => Some(Ok(item)),
        None => None,
    }
}

} // verus!
