//! What a receiver sees of one stream: the user messages carried by the
//! records on it, in the order in which they were written.

use vstd::prelude::*;
use crate::error::{RecvError, SerializationError};
use crate::payload::bytes_contents;
use crate::varint::MAX_VARINT;
use bytes::Bytes;
use crate::wire_msg::{
    lemma_decode_encode, spec_decode, spec_encode, WireMsg, WireMsgModel, TOKEN_LEN,
};

verus! {

/// What the receiving side of a stream does with the next record on it.
pub enum RecvStep {
    /// A user message: hand its payload to the application.
    Deliver(Bytes),
    /// A repeated pseudo-bidirectional response: read on.
    Skip,
    /// The stream has ended.
    End,
    /// Nothing that belongs here.
    Fail(RecvError),
}

/// The step that belongs to what was read: a user message is delivered, a
/// pseudo-bidirectional response is skipped, the end of the stream ends the
/// reading, a read error is passed on, and any other message fails as
/// unexpected.
pub open spec fn spec_recv_step(frame: Result<Option<WireMsg>, RecvError>) -> RecvStep {
    match frame {
        Err(e) => RecvStep::Fail(e),
        Ok(None) => RecvStep::End,
        Ok(Some(WireMsg::UserMsg(p))) => RecvStep::Deliver(p),
        Ok(Some(WireMsg::EndpointPseudoBiStreamResp(_))) => RecvStep::Skip,
        Ok(Some(m)) => RecvStep::Fail(
            RecvError::Serialization(SerializationError::UnexpectedMessage(Some(m@.kind()))),
        ),
    }
}

/// Decides what to do with the next record of a stream.
pub fn recv_step(frame: Result<Option<WireMsg>, RecvError>) -> (step: RecvStep)
    ensures
        step == spec_recv_step(frame),
{
    match frame {
        Err(e) => RecvStep::Fail(e),
        Ok(None) => RecvStep::End,
        Ok(Some(WireMsg::UserMsg(p))) => RecvStep::Deliver(p),
        Ok(Some(WireMsg::EndpointPseudoBiStreamResp(_))) => RecvStep::Skip,
        Ok(Some(m)) => RecvStep::Fail(
            RecvError::Serialization(SerializationError::UnexpectedMessage(Some(m.kind()))),
        ),
    }
}

/// The same result, with `k` more bytes counted as read.
pub open spec fn advanced(
    r: Result<Option<(Seq<u8>, nat)>, SerializationError>,
    k: nat,
) -> Result<Option<(Seq<u8>, nat)>, SerializationError> {
    match r {
        Ok(Some((p, n))) => Ok(Some((p, n + k))),
        _ => r,
    }
}

/// The next user message among the records at the front of `s`, and the
/// number of bytes up to its end. Pseudo-bidirectional responses before it
/// are passed over; `Ok(None)` where the bytes end cleanly before one is
/// found.
pub open spec fn spec_next_user_msg(s: Seq<u8>) -> Result<
    Option<(Seq<u8>, nat)>,
    SerializationError,
>
    decreases s.len(),
{
    match spec_decode(s) {
        Err(e) => Err(e),
        Ok(None) => Ok(None),
        Ok(Some((WireMsgModel::UserMsg(p), n))) => Ok(Some((p, n))),
        Ok(Some((WireMsgModel::EndpointPseudoBiStreamResp(_), _))) => advanced(
            spec_next_user_msg(s.skip(1 + TOKEN_LEN as int)),
            1 + TOKEN_LEN as nat,
        ),
        Ok(Some((m, _))) => Err(SerializationError::UnexpectedMessage(Some(m.kind()))),
    }
}

/// Reads on from `pos` in `buf` to the end of the next user message.
///
/// Gives the payload and the number of bytes read from `pos`; `Ok(None)`
/// where the buffer ends cleanly first; an error where a record is cut short,
/// malformed, or a message that has no place on the receiving side.
pub fn next_user_msg(buf: &[u8], pos: usize) -> (r: Result<Option<(Bytes, usize)>, RecvError>)
    requires
        pos <= buf@.len(),
    ensures
        match (r, spec_next_user_msg(buf@.skip(pos as int))) {
            (Ok(Some((payload, n))), Ok(Some((expected, expected_n)))) => bytes_contents(payload)
                == expected
                && n == expected_n && 0 < n && pos + n <= buf@.len(),
            (Ok(None), Ok(None)) => true,
            (Err(e), Err(expected)) => e == RecvError::Serialization(expected),
            _ => false,
        },
{
    let len: usize = buf.len();
    let mut cur: usize = pos;
    loop
        invariant
            pos <= cur <= len == buf@.len(),
            spec_next_user_msg(buf@.skip(pos as int)) == advanced(
                spec_next_user_msg(buf@.skip(cur as int)),
                (cur - pos) as nat,
            ),
        decreases len - cur,
    {
        match WireMsg::decode_at(buf, cur) {
            Err(e) => {
                return Err(RecvError::Serialization(e));
            },
            Ok(None) => {
                return Ok(None);
            },
            Ok(Some((WireMsg::UserMsg(payload), n))) => {
                return Ok(Some((payload, cur - pos + n)));
            },
            Ok(Some((WireMsg::EndpointPseudoBiStreamResp(_), n))) => {
                assert(buf@.skip(cur as int).skip(1 + TOKEN_LEN as int) =~= buf@.skip(cur + n));
                cur = cur + n;
            },
            Ok(Some((other, _))) => {
                return Err(
                    RecvError::Serialization(
                        SerializationError::UnexpectedMessage(Some(other.kind())),
                    ),
                );
            },
        }
    }
}

/// A receiver of the record of `UserMsg(m)` sees exactly `m`.
pub proof fn lemma_user_msg_received(m: Seq<u8>, rest: Seq<u8>)
    requires
        m.len() <= MAX_VARINT,
    ensures
        spec_next_user_msg(spec_encode(WireMsgModel::UserMsg(m)) + rest) == Ok::<
            Option<(Seq<u8>, nat)>,
            SerializationError,
        >(Some((m, spec_encode(WireMsgModel::UserMsg(m)).len()))),
{
    lemma_decode_encode(WireMsgModel::UserMsg(m), rest);
}

/// The bytes on a stream on which the user messages `msgs` were sent in turn.
pub open spec fn spec_send_all(msgs: Seq<Seq<u8>>) -> Seq<u8>
    decreases msgs.len(),
{
    if msgs.len() == 0 {
        Seq::empty()
    } else {
        spec_encode(WireMsgModel::UserMsg(msgs[0])) + spec_send_all(msgs.skip(1))
    }
}

/// A user message that was found ends within the bytes, and past their
/// start.
pub proof fn lemma_next_user_msg_bounds(s: Seq<u8>)
    ensures
        spec_next_user_msg(s) matches Ok(Some((_, n))) ==> 0 < n <= s.len(),
    decreases s.len(),
{
    match spec_decode(s) {
        Ok(Some((WireMsgModel::EndpointPseudoBiStreamResp(_), _))) => {
            lemma_next_user_msg_bounds(s.skip(1 + TOKEN_LEN as int));
        },
        _ => {},
    }
}

/// All user messages among the records of `s`, in the order of their records.
pub open spec fn spec_receive_all(s: Seq<u8>) -> Result<Seq<Seq<u8>>, SerializationError>
    decreases s.len(),
    via receive_all_decreases
{
    match spec_next_user_msg(s) {
        Err(e) => Err(e),
        Ok(None) => Ok(Seq::empty()),
        Ok(Some((p, n))) => match spec_receive_all(s.skip(n as int)) {
            Err(e) => Err(e),
            Ok(later) => Ok(seq![p] + later),
        },
    }
}

#[via_fn]
proof fn receive_all_decreases(s: Seq<u8>) {
    lemma_next_user_msg_bounds(s);
}

/// Whatever sequence of messages is sent on one stream, the receiver
/// observes exactly those messages, in that order.
pub proof fn lemma_order_preserved(msgs: Seq<Seq<u8>>)
    requires
        forall|i: int| 0 <= i < msgs.len() ==> (#[trigger] msgs[i]).len() <= MAX_VARINT,
    ensures
        spec_receive_all(spec_send_all(msgs)) == Ok::<Seq<Seq<u8>>, SerializationError>(msgs),
    decreases msgs.len(),
{
    if msgs.len() == 0 {
        assert(msgs =~= Seq::empty());
    } else {
        let first = spec_encode(WireMsgModel::UserMsg(msgs[0]));
        let rest = spec_send_all(msgs.skip(1));
        lemma_user_msg_received(msgs[0], rest);
        lemma_decode_encode(WireMsgModel::UserMsg(msgs[0]), rest);
        assert forall|i: int| 0 <= i < msgs.skip(1).len() implies (#[trigger] msgs.skip(1)[i]).len()
            <= MAX_VARINT by {
            assert(msgs.skip(1)[i] == msgs[i + 1]);
        }
        lemma_order_preserved(msgs.skip(1));
        assert((first + rest).skip(first.len() as int) =~= rest);
        assert(seq![msgs[0]] + msgs.skip(1) =~= msgs);
    }
}

/// The payloads held by `msgs`, as byte sequences.
pub open spec fn payloads(msgs: Seq<Bytes>) -> Seq<Seq<u8>> {
    msgs.map_values(|p: Bytes| bytes_contents(p))
}

/// Reads every user message in `buf`, in order.
pub fn receive_all(buf: &[u8]) -> (r: Result<Vec<Bytes>, RecvError>)
    ensures
        match (r, spec_receive_all(buf@)) {
            (Ok(msgs), Ok(expected)) => payloads(msgs@) == expected,
            (Err(e), Err(expected)) => e == RecvError::Serialization(expected),
            _ => false,
        },
{
    let len: usize = buf.len();
    let mut out: Vec<Bytes> = Vec::new();
    let mut pos: usize = 0;
    assert(buf@.skip(0) =~= buf@);
    assert(payloads(out@) =~= Seq::<Seq<u8>>::empty());
    loop
        invariant
            pos <= len == buf@.len(),
            spec_receive_all(buf@) == (match spec_receive_all(buf@.skip(pos as int)) {
                Err(e) => Err(e),
                Ok(later) => Ok(payloads(out@) + later),
            }),
        decreases len - pos,
    {
        let ghost before = payloads(out@);
        match next_user_msg(buf, pos) {
            Err(e) => {
                return Err(e);
            },
            Ok(None) => {
                assert(payloads(out@) + Seq::<Seq<u8>>::empty() =~= payloads(out@));
                return Ok(out);
            },
            Ok(Some((payload, n))) => {
                let ghost p = bytes_contents(payload);
                out.push(payload);
                proof {
                    assert(buf@.skip(pos as int).skip(n as int) =~= buf@.skip(pos + n));
                    assert(payloads(out@) =~= before + seq![p]);
                    match spec_receive_all(buf@.skip(pos + n)) {
                        Ok(later) => {
                            assert(before + (seq![p] + later) =~= (before + seq![p]) + later);
                        },
                        Err(_) => {},
                    }
                }
                pos = pos + n;
            },
        }
    }
}

} // verus!
