//! The decisions of the per-connection demultiplexer.
//!
//! Every inbound stream gets a handler. The handler reads records and, for
//! each, asks one of the functions here what to do: deliver a payload to the
//! application, report an error to it, answer a control message, complete a
//! pending pseudo-bidirectional handshake, read on, or stop. The caller does
//! the reading and writing; which function to ask next follows from the
//! action that the last one returned.

use vstd::prelude::*;
use crate::address::SocketAddress;
use crate::error::{RecvError, RpcError, SendError, SerializationError};
use crate::wire_msg::WireMsg;
use bytes::Bytes;

verus! {

/// The capacity of the queue of inbound messages of one connection.
pub const INCOMING_MESSAGE_BUFFER_LEN: usize = 10000;

/// The number of seconds that an endpoint verification may take.
pub const ENDPOINT_VERIFICATION_TIMEOUT_SECS: u64 = 30;

impl SerializationError {
    /// The error for a message, or an end of stream, that arrived where
    /// something else was demanded.
    pub fn unexpected(msg: &Option<WireMsg>) -> (e: SerializationError)
        ensures
            e == SerializationError::UnexpectedMessage(
                match *msg {
                    Some(m) => Some(m@.kind()),
                    None => None,
                },
            ),
    {
        match msg {
            Some(m) => SerializationError::UnexpectedMessage(Some(m.kind())),
            None => SerializationError::UnexpectedMessage(None),
        }
    }
}

/// What the handler of an inbound unidirectional stream does after its first
/// read.
pub enum UniAction {
    /// Enqueue the payload for the application, with the stream it came on
    /// and no stream to answer on.
    Deliver(Bytes),
    /// Enqueue the error for the application.
    Report(RecvError),
    /// The peer opens a pseudo-bidirectional stream: open a unidirectional
    /// stream back, write `EndpointPseudoBiStreamResp` with this token on
    /// it, then go on with `pseudo_req_responded`.
    Respond([u8; 32]),
    /// The peer answers a pseudo-bidirectional stream of ours: hand the
    /// stream to whoever waits under this token.
    Fulfil([u8; 32]),
    /// The stream ended before any record: nothing to do.
    Stop,
}

/// The action for the first read on an inbound unidirectional stream.
pub open spec fn spec_uni_first_frame(frame: Result<Option<WireMsg>, RecvError>) -> UniAction {
    match frame {
        Err(e) => UniAction::Report(e),
        Ok(None) => UniAction::Stop,
        Ok(Some(WireMsg::UserMsg(p))) => UniAction::Deliver(p),
        Ok(Some(WireMsg::EndpointPseudoBiStreamReq(t))) => UniAction::Respond(t),
        Ok(Some(WireMsg::EndpointPseudoBiStreamResp(t))) => UniAction::Fulfil(t),
        Ok(Some(m)) => UniAction::Report(
            RecvError::Serialization(SerializationError::UnexpectedMessage(Some(m@.kind()))),
        ),
    }
}

/// Decides what to do with the first read on an inbound unidirectional
/// stream.
pub fn uni_first_frame(frame: Result<Option<WireMsg>, RecvError>) -> (action: UniAction)
    ensures
        action == spec_uni_first_frame(frame),
{
    match frame {
        Err(e) => UniAction::Report(e),
        Ok(None) => UniAction::Stop,
        Ok(Some(WireMsg::UserMsg(p))) => UniAction::Deliver(p),
        Ok(Some(WireMsg::EndpointPseudoBiStreamReq(t))) => UniAction::Respond(t),
        Ok(Some(WireMsg::EndpointPseudoBiStreamResp(t))) => UniAction::Fulfil(t),
        Ok(Some(m)) => UniAction::Report(RecvError::Serialization(SerializationError::unexpected(&Some(m)))),
    }
}

/// What the acceptor of a pseudo-bidirectional stream does next.
pub enum PseudoReqAction {
    /// Enqueue the payload for the application, with the stream it came on
    /// and the stream that was opened back to answer on; then stop.
    Deliver(Bytes),
    /// Read the next record and go on with `pseudo_req_frame`.
    ReadNext,
    /// Give the stream up.
    Stop,
}

/// After the response was written on the stream back: read on where it went
/// out, give up where it did not.
pub fn pseudo_req_responded(sent: &Result<(), SendError>) -> (action: PseudoReqAction)
    ensures
        action == (if sent.is_ok() {
            PseudoReqAction::ReadNext
        } else {
            PseudoReqAction::Stop
        }),
{
    match sent {
        Ok(_) => PseudoReqAction::ReadNext,
        Err(_) => PseudoReqAction::Stop,
    }
}

/// The action for a later read on the inbound half of a pseudo-bidirectional
/// stream: the first user message is delivered, a read error or the end of
/// the stream stops the handler, any other message is dropped.
pub open spec fn spec_pseudo_req_frame(frame: Result<Option<WireMsg>, RecvError>) -> PseudoReqAction {
    match frame {
        Err(_) => PseudoReqAction::Stop,
        Ok(None) => PseudoReqAction::Stop,
        Ok(Some(WireMsg::UserMsg(p))) => PseudoReqAction::Deliver(p),
        Ok(Some(_)) => PseudoReqAction::ReadNext,
    }
}

/// Decides what to do with a later read on the inbound half of a
/// pseudo-bidirectional stream.
pub fn pseudo_req_frame(frame: Result<Option<WireMsg>, RecvError>) -> (action: PseudoReqAction)
    ensures
        action == spec_pseudo_req_frame(frame),
{
    match frame {
        Err(_) => PseudoReqAction::Stop,
        Ok(None) => PseudoReqAction::Stop,
        Ok(Some(WireMsg::UserMsg(p))) => PseudoReqAction::Deliver(p),
        Ok(Some(_)) => PseudoReqAction::ReadNext,
    }
}

/// What the handler of an inbound bidirectional stream does after its first
/// read.
pub enum BiAction {
    /// Enqueue the payload for the application, with both halves of the
    /// stream.
    Deliver(Bytes),
    /// Enqueue the error for the application.
    Report(RecvError),
    /// A control message: go on with `control_action` on it.
    Control(WireMsg),
    /// The stream ended before any record: nothing to do.
    Stop,
}

/// The action for the first read on an inbound bidirectional stream.
pub open spec fn spec_bi_first_frame(frame: Result<Option<WireMsg>, RecvError>) -> BiAction {
    match frame {
        Err(e) => BiAction::Report(e),
        Ok(None) => BiAction::Stop,
        Ok(Some(WireMsg::UserMsg(p))) => BiAction::Deliver(p),
        Ok(Some(m)) => BiAction::Control(m),
    }
}

/// Decides what to do with the first read on an inbound bidirectional stream.
pub fn bi_first_frame(frame: Result<Option<WireMsg>, RecvError>) -> (action: BiAction)
    ensures
        action == spec_bi_first_frame(frame),
{
    match frame {
        Err(e) => BiAction::Report(e),
        Ok(None) => BiAction::Stop,
        Ok(Some(WireMsg::UserMsg(p))) => BiAction::Deliver(p),
        Ok(Some(m)) => BiAction::Control(m),
    }
}

/// How a control message on a bidirectional stream is served.
pub enum ControlAction {
    /// Write this message on the stream's sending half.
    Reply(WireMsg),
    /// Probe this address, then write `verification_reply` of the outcome.
    Verify(SocketAddress),
    /// Not a request: note the error and read on.
    Ignore(SerializationError),
}

/// The service for a control message: an echo request is answered with the
/// peer's address as seen from here, a verification request starts a probe
/// of the address it names, anything else is ignored as unexpected.
pub open spec fn spec_control_action(msg: WireMsg, peer: SocketAddress) -> ControlAction {
    match msg {
        WireMsg::EndpointEchoReq => ControlAction::Reply(WireMsg::EndpointEchoResp(peer)),
        WireMsg::EndpointVerificationReq(addr) => ControlAction::Verify(addr),
        _ => ControlAction::Ignore(SerializationError::UnexpectedMessage(Some(msg@.kind()))),
    }
}

/// Decides how to serve a control message from the peer at `peer`.
pub fn control_action(msg: WireMsg, peer: SocketAddress) -> (action: ControlAction)
    ensures
        action == spec_control_action(msg, peer),
{
    match msg {
        WireMsg::EndpointEchoReq => ControlAction::Reply(WireMsg::EndpointEchoResp(peer)),
        WireMsg::EndpointVerificationReq(addr) => ControlAction::Verify(addr),
        other => ControlAction::Ignore(SerializationError::unexpected(&Some(other))),
    }
}

/// After a control message was served: the next message to serve, or `None`
/// where the stream ended or could not be read and the handler stops.
pub fn control_next(frame: Result<Option<WireMsg>, RecvError>) -> (next: Option<WireMsg>)
    ensures
        next == (match frame {
            Ok(Some(m)) => Some(m),
            _ => None,
        }),
{
    match frame {
        Ok(Some(m)) => Some(m),
        _ => None,
    }
}

/// What a probe makes of the answer to its echo request: an echo response
/// confirms the address, whatever it carries; anything else fails the probe.
pub open spec fn spec_probe_outcome(frame: Result<Option<WireMsg>, RecvError>) -> Result<
    (),
    RpcError,
> {
    match frame {
        Err(e) => Err(RpcError::Recv(e)),
        Ok(Some(WireMsg::EndpointEchoResp(_))) => Ok(()),
        Ok(Some(m)) => Err(
            RpcError::Recv(
                RecvError::Serialization(SerializationError::UnexpectedMessage(Some(m@.kind()))),
            ),
        ),
        Ok(None) => Err(
            RpcError::Recv(RecvError::Serialization(SerializationError::UnexpectedMessage(None))),
        ),
    }
}

/// Judges the answer that a probe read to its echo request.
pub fn probe_outcome(frame: Result<Option<WireMsg>, RecvError>) -> (r: Result<(), RpcError>)
    ensures
        r == spec_probe_outcome(frame),
{
    match frame {
        Err(e) => Err(RpcError::Recv(e)),
        Ok(Some(WireMsg::EndpointEchoResp(_))) => Ok(()),
        Ok(other) => Err(RpcError::Recv(RecvError::Serialization(SerializationError::unexpected(&other)))),
    }
}

/// The outcome of a probe under its time limit: `None` stands for a probe
/// that did not end in time, which fails it.
pub fn probe_within_limit(probe: Option<Result<(), RpcError>>) -> (r: Result<(), RpcError>)
    ensures
        r == (match probe {
            Some(outcome) => outcome,
            None => Err(RpcError::TimedOut),
        }),
{
    match probe {
        Some(outcome) => outcome,
        None => Err(RpcError::TimedOut),
    }
}

/// The reply to a verification request: `true` exactly where the probe
/// succeeded. A reply is owed whatever the probe's outcome.
pub fn verification_reply(verified: &Result<(), RpcError>) -> (reply: WireMsg)
    ensures
        reply == WireMsg::EndpointVerificationResp(verified.is_ok()),
{
    WireMsg::EndpointVerificationResp(verified.is_ok())
}


/// Where the handler of an inbound unidirectional stream stands.
#[derive(Debug, Clone, Copy, PartialEq, Eq)]
pub enum UniState {
    /// Nothing was read yet.
    AwaitingFirst,
    /// The peer opens a pseudo-bidirectional stream and the response is
    /// being written on the stream back.
    Responding,
    /// The response went out; the first user message is awaited.
    AwaitingUserMsg,
    /// The handler is done with the stream.
    Finished,
}

/// What happened on the stream since the handler's last command.
pub enum UniEvent {
    /// A read ended, with a record, the end of the stream, or an error.
    Read(Result<Option<WireMsg>, RecvError>),
    /// The response was written on the stream back, or could not be.
    Responded(Result<(), SendError>),
}

/// What the handler of an inbound unidirectional stream asks for next.
pub enum UniCommand {
    /// Read a record and come back with `UniEvent::Read`.
    Read,
    /// Open a unidirectional stream back, write `EndpointPseudoBiStreamResp`
    /// with this token on it, and come back with `UniEvent::Responded`.
    Respond([u8; 32]),
    /// Enqueue the payload for the application with the stream it came on
    /// and, where the flag is set, the stream back to answer on.
    Deliver(Bytes, bool),
    /// Enqueue the error for the application.
    Report(RecvError),
    /// Hand the stream to whoever waits under this token.
    Fulfil([u8; 32]),
    /// Nothing more to do.
    Stop,
}

/// One step of the handler of an inbound unidirectional stream: the first
/// record decides what the stream is for; on the inbound half of a
/// pseudo-bidirectional stream the handler then reads on to the first user
/// message. An event that does not belong to the state ends the handler.
pub open spec fn spec_uni_step(state: UniState, event: UniEvent) -> (UniState, UniCommand) {
    match (state, event) {
        (UniState::AwaitingFirst, UniEvent::Read(frame)) => match spec_uni_first_frame(frame) {
            UniAction::Deliver(p) => (UniState::Finished, UniCommand::Deliver(p, false)),
            UniAction::Report(e) => (UniState::Finished, UniCommand::Report(e)),
            UniAction::Respond(t) => (UniState::Responding, UniCommand::Respond(t)),
            UniAction::Fulfil(t) => (UniState::Finished, UniCommand::Fulfil(t)),
            UniAction::Stop => (UniState::Finished, UniCommand::Stop),
        },
        (UniState::Responding, UniEvent::Responded(sent)) => if sent.is_ok() {
            (UniState::AwaitingUserMsg, UniCommand::Read)
        } else {
            (UniState::Finished, UniCommand::Stop)
        },
        (UniState::AwaitingUserMsg, UniEvent::Read(frame)) => match spec_pseudo_req_frame(frame) {
            PseudoReqAction::Deliver(p) => (UniState::Finished, UniCommand::Deliver(p, true)),
            PseudoReqAction::ReadNext => (UniState::AwaitingUserMsg, UniCommand::Read),
            PseudoReqAction::Stop => (UniState::Finished, UniCommand::Stop),
        },
        _ => (UniState::Finished, UniCommand::Stop),
    }
}

/// Takes one step of the handler of an inbound unidirectional stream.
pub fn uni_step(state: UniState, event: UniEvent) -> (r: (UniState, UniCommand))
    ensures
        r == spec_uni_step(state, event),
{
    match (state, event) {
        (UniState::AwaitingFirst, UniEvent::Read(frame)) => match uni_first_frame(frame) {
            UniAction::Deliver(p) => (UniState::Finished, UniCommand::Deliver(p, false)),
            UniAction::Report(e) => (UniState::Finished, UniCommand::Report(e)),
            UniAction::Respond(t) => (UniState::Responding, UniCommand::Respond(t)),
            UniAction::Fulfil(t) => (UniState::Finished, UniCommand::Fulfil(t)),
            UniAction::Stop => (UniState::Finished, UniCommand::Stop),
        },
        (UniState::Responding, UniEvent::Responded(sent)) => match pseudo_req_responded(&sent) {
            PseudoReqAction::ReadNext => (UniState::AwaitingUserMsg, UniCommand::Read),
            _ => (UniState::Finished, UniCommand::Stop),
        },
        (UniState::AwaitingUserMsg, UniEvent::Read(frame)) => match pseudo_req_frame(frame) {
            PseudoReqAction::Deliver(p) => (UniState::Finished, UniCommand::Deliver(p, true)),
            PseudoReqAction::ReadNext => (UniState::AwaitingUserMsg, UniCommand::Read),
            PseudoReqAction::Stop => (UniState::Finished, UniCommand::Stop),
        },
        _ => (UniState::Finished, UniCommand::Stop),
    }
}

/// The commands of a handler that starts in `state` and meets `events` in
/// turn.
pub open spec fn spec_uni_run(state: UniState, events: Seq<UniEvent>) -> Seq<UniCommand>
    decreases events.len(),
{
    if events.len() == 0 {
        Seq::empty()
    } else {
        let (next, command) = spec_uni_step(state, events[0]);
        seq![command] + spec_uni_run(next, events.skip(1))
    }
}

/// The number of items that `commands` put on the application's queue.
pub open spec fn uni_enqueued(commands: Seq<UniCommand>) -> nat
    decreases commands.len(),
{
    if commands.len() == 0 {
        0
    } else {
        let first: nat = if commands[0] is Deliver || commands[0] is Report {
            1
        } else {
            0
        };
        first + uni_enqueued(commands.skip(1))
    }
}

/// Whatever happens on an inbound unidirectional stream, its handler puts at
/// most one item on the application's queue, and none once it has finished.
pub proof fn lemma_uni_enqueues_at_most_once(state: UniState, events: Seq<UniEvent>)
    ensures
        uni_enqueued(spec_uni_run(state, events)) <= 1,
        state == UniState::Finished ==> uni_enqueued(spec_uni_run(state, events)) == 0,
    decreases events.len(),
{
    if events.len() > 0 {
        let (next, command) = spec_uni_step(state, events[0]);
        let rest = spec_uni_run(next, events.skip(1));
        lemma_uni_enqueues_at_most_once(next, events.skip(1));
        assert((seq![command] + rest).skip(1) =~= rest);
        assert((seq![command] + rest)[0] == command);
    }
}

/// Where the handler of an inbound bidirectional stream stands.
#[derive(Debug, Clone, Copy, PartialEq, Eq)]
pub enum BiState {
    /// Nothing was read yet.
    AwaitingFirst,
    /// A verification request is being probed.
    Verifying,
    /// A control message is being served.
    Serving,
    /// The next control message is awaited.
    AwaitingControl,
    /// The handler is done with the stream.
    Finished,
}

/// What happened on the stream since the handler's last command.
pub enum BiEvent {
    /// A read ended, with a record, the end of the stream, or an error.
    Read(Result<Option<WireMsg>, RecvError>),
    /// The probe of an address ended; `None` where it ran out of time.
    Probed(Option<Result<(), RpcError>>),
    /// The last command was carried out, whether or not it succeeded.
    Served,
}

/// What the handler of an inbound bidirectional stream asks for next.
pub enum BiCommand {
    /// Read a record and come back with `BiEvent::Read`.
    Read,
    /// Enqueue the payload for the application, with both halves of the
    /// stream.
    Deliver(Bytes),
    /// Enqueue the error for the application.
    Report(RecvError),
    /// Write this message on the sending half and come back with
    /// `BiEvent::Served`.
    Reply(WireMsg),
    /// Probe this address within the time limit and come back with
    /// `BiEvent::Probed`.
    Verify(SocketAddress),
    /// Note that this arrived where no request was, and come back with
    /// `BiEvent::Served`.
    Ignore(SerializationError),
    /// Nothing more to do.
    Stop,
}

/// The step that serves one control message.
pub open spec fn spec_serve(msg: WireMsg, peer: SocketAddress) -> (BiState, BiCommand) {
    match spec_control_action(msg, peer) {
        ControlAction::Reply(reply) => (BiState::Serving, BiCommand::Reply(reply)),
        ControlAction::Verify(addr) => (BiState::Verifying, BiCommand::Verify(addr)),
        ControlAction::Ignore(e) => (BiState::Serving, BiCommand::Ignore(e)),
    }
}

/// One step of the handler of an inbound bidirectional stream from the peer
/// at `peer`: a first user message is delivered with the stream; otherwise
/// the stream carries control messages, which are served one after the
/// other until the stream ends. A probe is always followed by the reply
/// that tells its outcome. An event that does not belong to the state ends
/// the handler.
pub open spec fn spec_bi_step(state: BiState, event: BiEvent, peer: SocketAddress) -> (
    BiState,
    BiCommand,
) {
    match (state, event) {
        (BiState::AwaitingFirst, BiEvent::Read(frame)) => match spec_bi_first_frame(frame) {
            BiAction::Deliver(p) => (BiState::Finished, BiCommand::Deliver(p)),
            BiAction::Report(e) => (BiState::Finished, BiCommand::Report(e)),
            BiAction::Control(msg) => spec_serve(msg, peer),
            BiAction::Stop => (BiState::Finished, BiCommand::Stop),
        },
        (BiState::Verifying, BiEvent::Probed(probe)) => (
            BiState::Serving,
            BiCommand::Reply(
                WireMsg::EndpointVerificationResp(probe matches Some(Ok(_))),
            ),
        ),
        (BiState::Serving, BiEvent::Served) => (BiState::AwaitingControl, BiCommand::Read),
        (BiState::AwaitingControl, BiEvent::Read(frame)) => match frame {
            Ok(Some(msg)) => spec_serve(msg, peer),
            _ => (BiState::Finished, BiCommand::Stop),
        },
        _ => (BiState::Finished, BiCommand::Stop),
    }
}

fn serve(msg: WireMsg, peer: SocketAddress) -> (r: (BiState, BiCommand))
    ensures
        r == spec_serve(msg, peer),
{
    match control_action(msg, peer) {
        ControlAction::Reply(reply) => (BiState::Serving, BiCommand::Reply(reply)),
        ControlAction::Verify(addr) => (BiState::Verifying, BiCommand::Verify(addr)),
        ControlAction::Ignore(e) => (BiState::Serving, BiCommand::Ignore(e)),
    }
}

/// Takes one step of the handler of an inbound bidirectional stream.
pub fn bi_step(state: BiState, event: BiEvent, peer: SocketAddress) -> (r: (BiState, BiCommand))
    ensures
        r == spec_bi_step(state, event, peer),
{
    match (state, event) {
        (BiState::AwaitingFirst, BiEvent::Read(frame)) => match bi_first_frame(frame) {
            BiAction::Deliver(p) => (BiState::Finished, BiCommand::Deliver(p)),
            BiAction::Report(e) => (BiState::Finished, BiCommand::Report(e)),
            BiAction::Control(msg) => serve(msg, peer),
            BiAction::Stop => (BiState::Finished, BiCommand::Stop),
        },
        (BiState::Verifying, BiEvent::Probed(probe)) => {
            let verified = probe_within_limit(probe);
            (BiState::Serving, BiCommand::Reply(verification_reply(&verified)))
        },
        (BiState::Serving, BiEvent::Served) => (BiState::AwaitingControl, BiCommand::Read),
        (BiState::AwaitingControl, BiEvent::Read(frame)) => match control_next(frame) {
            Some(msg) => serve(msg, peer),
            None => (BiState::Finished, BiCommand::Stop),
        },
        _ => (BiState::Finished, BiCommand::Stop),
    }
}

/// The commands of a handler that starts in `state` and meets `events` in
/// turn.
pub open spec fn spec_bi_run(state: BiState, events: Seq<BiEvent>, peer: SocketAddress) -> Seq<
    BiCommand,
>
    decreases events.len(),
{
    if events.len() == 0 {
        Seq::empty()
    } else {
        let (next, command) = spec_bi_step(state, events[0], peer);
        seq![command] + spec_bi_run(next, events.skip(1), peer)
    }
}

/// The number of items that `commands` put on the application's queue.
pub open spec fn bi_enqueued(commands: Seq<BiCommand>) -> nat
    decreases commands.len(),
{
    if commands.len() == 0 {
        0
    } else {
        let first: nat = if commands[0] is Deliver || commands[0] is Report {
            1
        } else {
            0
        };
        first + bi_enqueued(commands.skip(1))
    }
}

/// Whatever happens on an inbound bidirectional stream, its handler puts at
/// most one item on the application's queue, and only for the stream's
/// first record: a stream that began with a control message never reaches
/// the application.
pub proof fn lemma_bi_enqueues_at_most_once(
    state: BiState,
    events: Seq<BiEvent>,
    peer: SocketAddress,
)
    ensures
        bi_enqueued(spec_bi_run(state, events, peer)) <= 1,
        state != BiState::AwaitingFirst ==> bi_enqueued(spec_bi_run(state, events, peer)) == 0,
    decreases events.len(),
{
    if events.len() > 0 {
        let (next, command) = spec_bi_step(state, events[0], peer);
        let rest = spec_bi_run(next, events.skip(1), peer);
        lemma_bi_enqueues_at_most_once(next, events.skip(1), peer);
        assert((seq![command] + rest).skip(1) =~= rest);
        assert((seq![command] + rest)[0] == command);
    }
}

/// A verification request is always answered: whatever the probe's outcome,
/// the handler's next command is the reply, and the reply says `true`
/// exactly where the probe succeeded in time.
pub proof fn lemma_verification_always_answered(
    probe: Option<Result<(), RpcError>>,
    peer: SocketAddress,
)
    ensures
        spec_bi_step(BiState::Verifying, BiEvent::Probed(probe), peer).1 == BiCommand::Reply(
            WireMsg::EndpointVerificationResp(probe matches Some(Ok(_))),
        ),
{
}

} // verus!
