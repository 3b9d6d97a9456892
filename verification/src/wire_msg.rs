//! The framed wire protocol: one record per message, a tag byte and a body.
//!
//! | tag | message                      | body                              |
//! |-----|------------------------------|-----------------------------------|
//! | 0   | `UserMsg`                    | length as a varint, then the bytes|
//! | 1   | `EndpointEchoReq`            | none                              |
//! | 2   | `EndpointEchoResp`           | a socket address                  |
//! | 3   | `EndpointVerificationReq`    | a socket address                  |
//! | 4   | `EndpointVerificationResp`   | one byte, 0 or 1                  |
//! | 5   | `EndpointPseudoBiStreamReq`  | a token of 32 bytes               |
//! | 6   | `EndpointPseudoBiStreamResp` | a token of 32 bytes               |
//!
//! A socket address is a family byte (4 or 6), the 4 or 16 address bytes and
//! the port in network order.

use vstd::prelude::*;
use crate::address::{IpAddress, SocketAddress, SocketAddressModel};
use crate::error::{MessageKind, SerializationError};
use crate::payload::{bytes_contents, payload_from, payload_slice};
use bytes::Bytes;
use vstd::slice::slice_subrange;
use crate::varint::{
    announced_width, be_bytes, decode_varint, encode_varint, lemma_varint_roundtrip,
    spec_decode_varint, spec_encode_varint, varint_len, MAX_VARINT,
};

verus! {

/// The length of a pseudo-bidirectional stream token.
pub const TOKEN_LEN: usize = 32;

/// A message as it travels on a stream.
#[derive(Debug, Clone, PartialEq, Eq)]
pub enum WireMsg {
    UserMsg(Bytes),
    EndpointEchoReq,
    EndpointEchoResp(SocketAddress),
    EndpointVerificationReq(SocketAddress),
    EndpointVerificationResp(bool),
    EndpointPseudoBiStreamReq([u8; 32]),
    EndpointPseudoBiStreamResp([u8; 32]),
}

/// The mathematical value of a wire message.
pub enum WireMsgModel {
    UserMsg(Seq<u8>),
    EndpointEchoReq,
    EndpointEchoResp(SocketAddressModel),
    EndpointVerificationReq(SocketAddressModel),
    EndpointVerificationResp(bool),
    EndpointPseudoBiStreamReq(Seq<u8>),
    EndpointPseudoBiStreamResp(Seq<u8>),
}

impl WireMsgModel {
    /// Addresses are well formed, tokens have 32 bytes, and a payload's
    /// length has an encoding.
    pub open spec fn wf(self) -> bool {
        match self {
            WireMsgModel::UserMsg(p) => p.len() <= MAX_VARINT,
            WireMsgModel::EndpointEchoResp(a) => a.wf(),
            WireMsgModel::EndpointVerificationReq(a) => a.wf(),
            WireMsgModel::EndpointPseudoBiStreamReq(t) => t.len() == TOKEN_LEN,
            WireMsgModel::EndpointPseudoBiStreamResp(t) => t.len() == TOKEN_LEN,
            _ => true,
        }
    }

    pub open spec fn kind(self) -> MessageKind {
        match self {
            WireMsgModel::UserMsg(_) => MessageKind::UserMsg,
            WireMsgModel::EndpointEchoReq => MessageKind::EndpointEchoReq,
            WireMsgModel::EndpointEchoResp(_) => MessageKind::EndpointEchoResp,
            WireMsgModel::EndpointVerificationReq(_) => MessageKind::EndpointVerificationReq,
            WireMsgModel::EndpointVerificationResp(_) => MessageKind::EndpointVerificationResp,
            WireMsgModel::EndpointPseudoBiStreamReq(_) => MessageKind::EndpointPseudoBiStreamReq,
            WireMsgModel::EndpointPseudoBiStreamResp(_) => MessageKind::EndpointPseudoBiStreamResp,
        }
    }
}

impl View for WireMsg {
    type V = WireMsgModel;

    open spec fn view(&self) -> WireMsgModel {
        match *self {
            WireMsg::UserMsg(p) => WireMsgModel::UserMsg(bytes_contents(p)),
            WireMsg::EndpointEchoReq => WireMsgModel::EndpointEchoReq,
            WireMsg::EndpointEchoResp(a) => WireMsgModel::EndpointEchoResp(a@),
            WireMsg::EndpointVerificationReq(a) => WireMsgModel::EndpointVerificationReq(a@),
            WireMsg::EndpointVerificationResp(b) => WireMsgModel::EndpointVerificationResp(b),
            WireMsg::EndpointPseudoBiStreamReq(t) => WireMsgModel::EndpointPseudoBiStreamReq(t@),
            WireMsg::EndpointPseudoBiStreamResp(t) => WireMsgModel::EndpointPseudoBiStreamResp(t@),
        }
    }
}

/// The bytes of a socket address: family, address, port.
pub open spec fn spec_encode_address(a: SocketAddressModel) -> Seq<u8> {
    seq![a.family] + a.octets + be_bytes(a.port as nat, 2)
}

/// Reads a socket address at the front of `s`: the address and the number of
/// bytes it took.
pub open spec fn spec_decode_address(s: Seq<u8>) -> Result<(SocketAddressModel, nat), SerializationError> {
    if s.len() == 0 {
        Err(SerializationError::UnexpectedEof)
    } else if s[0] != 4 && s[0] != 6 {
        Err(SerializationError::MalformedAddress)
    } else {
        let n: int = if s[0] == 4 {
            4
        } else {
            16
        };
        if s.len() < 1 + n + 2 {
            Err(SerializationError::UnexpectedEof)
        } else {
            Ok(
                (
                    SocketAddressModel {
                        family: s[0],
                        octets: s.subrange(1, 1 + n),
                        port: (s[1 + n] * 256 + s[2 + n]) as u16,
                    },
                    (1 + n + 2) as nat,
                ),
            )
        }
    }
}

/// The record of a message: its tag, then its body.
pub open spec fn spec_encode(m: WireMsgModel) -> Seq<u8> {
    match m {
        WireMsgModel::UserMsg(p) => seq![0u8] + spec_encode_varint(p.len()) + p,
        WireMsgModel::EndpointEchoReq => seq![1u8],
        WireMsgModel::EndpointEchoResp(a) => seq![2u8] + spec_encode_address(a),
        WireMsgModel::EndpointVerificationReq(a) => seq![3u8] + spec_encode_address(a),
        WireMsgModel::EndpointVerificationResp(b) => seq![
            4u8,
            if b {
                1u8
            } else {
                0u8
            },
        ],
        WireMsgModel::EndpointPseudoBiStreamReq(t) => seq![5u8] + t,
        WireMsgModel::EndpointPseudoBiStreamResp(t) => seq![6u8] + t,
    }
}

/// Reads the body of a message whose tag was `tag`, at the front of `body`:
/// the message and the number of body bytes it took.
pub open spec fn spec_decode_body(tag: u8, body: Seq<u8>) -> Result<
    (WireMsgModel, nat),
    SerializationError,
> {
    if tag == 0 {
        match spec_decode_varint(body) {
            None => Err(SerializationError::UnexpectedEof),
            Some((len, width)) => if body.len() < width + len {
                Err(SerializationError::UnexpectedEof)
            } else {
                Ok(
                    (
                        WireMsgModel::UserMsg(body.subrange(width as int, (width + len) as int)),
                        width + len,
                    ),
                )
            },
        }
    } else if tag == 1 {
        Ok((WireMsgModel::EndpointEchoReq, 0))
    } else if tag == 2 || tag == 3 {
        match spec_decode_address(body) {
            Err(e) => Err(e),
            Ok((a, n)) => Ok(
                (
                    if tag == 2 {
                        WireMsgModel::EndpointEchoResp(a)
                    } else {
                        WireMsgModel::EndpointVerificationReq(a)
                    },
                    n,
                ),
            ),
        }
    } else if tag == 4 {
        if body.len() == 0 {
            Err(SerializationError::UnexpectedEof)
        } else if body[0] > 1 {
            Err(SerializationError::UnknownTag)
        } else {
            Ok((WireMsgModel::EndpointVerificationResp(body[0] == 1), 1))
        }
    } else if tag == 5 || tag == 6 {
        if body.len() < TOKEN_LEN {
            Err(SerializationError::UnexpectedEof)
        } else {
            let t = body.subrange(0, TOKEN_LEN as int);
            Ok(
                (
                    if tag == 5 {
                        WireMsgModel::EndpointPseudoBiStreamReq(t)
                    } else {
                        WireMsgModel::EndpointPseudoBiStreamResp(t)
                    },
                    TOKEN_LEN as nat,
                ),
            )
        }
    } else {
        Err(SerializationError::UnknownTag)
    }
}

/// Reads one record at the front of `s`.
///
/// `Ok(None)` is the clean end: nothing is left before a tag byte. Otherwise
/// the message and the length of its record, or the reason why no record
/// could be read.
pub open spec fn spec_decode(s: Seq<u8>) -> Result<Option<(WireMsgModel, nat)>, SerializationError> {
    if s.len() == 0 {
        Ok(None)
    } else {
        match spec_decode_body(s[0], s.skip(1)) {
            Err(e) => Err(e),
            Ok((m, n)) => Ok(Some((m, 1 + n))),
        }
    }
}

/// How many more bytes a reader needs before it can go on with the record
/// that starts `s`: 0 where the whole record is there.
///
/// A reader learns the length of a record step by step: the tag tells which
/// body follows, the first byte of a length tells how long the length is,
/// the length tells how long the payload is, the family byte tells how long
/// the address is. At each step this is the number of bytes up to the next
/// point at which more is known.
pub open spec fn spec_missing(s: Seq<u8>) -> Result<nat, SerializationError> {
    if s.len() == 0 {
        Ok(1)
    } else {
        let tag = s[0];
        let body = s.skip(1);
        if tag == 0 {
            if body.len() == 0 {
                Ok(1)
            } else if body.len() < announced_width(body[0]) {
                Ok((announced_width(body[0]) - body.len()) as nat)
            } else {
                let total = announced_width(body[0]) + spec_decode_varint(body).unwrap().0;
                if body.len() < total {
                    Ok((total - body.len()) as nat)
                } else {
                    Ok(0)
                }
            }
        } else if tag == 1 {
            Ok(0)
        } else if tag == 2 || tag == 3 {
            if body.len() == 0 {
                Ok(1)
            } else if body[0] != 4 && body[0] != 6 {
                Err(SerializationError::MalformedAddress)
            } else {
                let total: nat = if body[0] == 4 {
                    7
                } else {
                    19
                };
                if body.len() < total {
                    Ok((total - body.len()) as nat)
                } else {
                    Ok(0)
                }
            }
        } else if tag == 4 {
            if body.len() == 0 {
                Ok(1)
            } else if body[0] > 1 {
                Err(SerializationError::UnknownTag)
            } else {
                Ok(0)
            }
        } else if tag == 5 || tag == 6 {
            if body.len() < TOKEN_LEN {
                Ok((TOKEN_LEN - body.len()) as nat)
            } else {
                Ok(0)
            }
        } else {
            Err(SerializationError::UnknownTag)
        }
    }
}

/// Whether what `decode` returned is what `spec_decode` describes.
pub open spec fn decoded_as(
    r: Result<Option<(WireMsg, usize)>, SerializationError>,
    expected: Result<Option<(WireMsgModel, nat)>, SerializationError>,
) -> bool {
    match (r, expected) {
        (Ok(Some((msg, len))), Ok(Some((model, n)))) => msg@ == model && len == n,
        (Ok(None), Ok(None)) => true,
        (Err(e), Err(expected_error)) => e == expected_error,
        _ => false,
    }
}

fn push_all(out: &mut Vec<u8>, src: &[u8])
    ensures
        final(out)@ == old(out)@ + src@,
{
    let n: usize = src.len();
    let mut i: usize = 0;
    while i < n
        invariant
            i <= n == src@.len(),
            out@ == old(out)@ + src@.subrange(0, i as int),
        decreases n - i,
    {
        out.push(src[i]);
        i = i + 1;
        assert(out@ =~= old(out)@ + src@.subrange(0, i as int));
    }
    assert(src@.subrange(0, n as int) =~= src@);
}

fn read_array<const N: usize>(buf: &[u8], start: usize) -> (out: [u8; N])
    requires
        start + N <= buf@.len(),
    ensures
        out@ == buf@.subrange(start as int, start + N),
{
    let mut out: [u8; N] = [0u8; N];
    let len: usize = buf.len();
    let mut i: usize = 0;
    while i < N
        invariant
            i <= N,
            start + N <= len == buf@.len(),
            out@.len() == N,
            forall|j: int| 0 <= j < i ==> out@[j] == buf@[start + j],
        decreases N - i,
    {
        out[i] = buf[start + i];
        i = i + 1;
    }
    assert(out@ =~= buf@.subrange(start as int, start + N));
    out
}

impl SocketAddress {
    /// Appends the bytes of this address to `out`.
    pub fn encode_into(&self, out: &mut Vec<u8>)
        ensures
            final(out)@ == old(out)@ + spec_encode_address(self@),
    {
        match &self.ip {
            IpAddress::V4(o) => {
                out.push(4u8);
                push_all(out, o.as_slice());
            },
            IpAddress::V6(o) => {
                out.push(6u8);
                push_all(out, o.as_slice());
            },
        }
        out.push((self.port / 256) as u8);
        out.push((self.port % 256) as u8);
        proof {
            reveal_with_fuel(be_bytes, 3);
            assert(out@ =~= old(out)@ + spec_encode_address(self@));
        }
    }

    /// Reads the address that starts at `pos` in `buf`: the address and the
    /// number of bytes it took.
    pub fn decode_at(buf: &[u8], pos: usize) -> (r: Result<(SocketAddress, usize), SerializationError>)
        requires
            pos <= buf@.len(),
        ensures
            match (r, spec_decode_address(buf@.skip(pos as int))) {
                (Ok((a, n)), Ok((model, expected_n))) => a@ == model && n == expected_n && pos + n
                    <= buf@.len(),
                (Err(e), Err(expected_error)) => e == expected_error,
                _ => false,
            },
    {
        let len: usize = buf.len();
        let ghost s = buf@.skip(pos as int);
        if pos >= len {
            return Err(SerializationError::UnexpectedEof);
        }
        let family: u8 = buf[pos];
        if family != 4 && family != 6 {
            return Err(SerializationError::MalformedAddress);
        }
        let n: usize = if family == 4 {
            4
        } else {
            16
        };
        if len - pos < 1 + n + 2 {
            return Err(SerializationError::UnexpectedEof);
        }
        let port: u16 = buf[pos + 1 + n] as u16 * 256 + buf[pos + 2 + n] as u16;
        let ip = if family == 4 {
            IpAddress::V4(read_array::<4>(buf, pos + 1))
        } else {
            IpAddress::V6(read_array::<16>(buf, pos + 1))
        };
        assert(s.subrange(1, 1 + n) =~= buf@.subrange(pos + 1, pos + 1 + n));
        Ok((SocketAddress { ip, port }, 1 + n + 2))
    }
}


impl WireMsg {
    /// The variant of this message.
    pub fn kind(&self) -> (k: MessageKind)
        ensures
            k == self@.kind(),
    {
        match self {
            WireMsg::UserMsg(_) => MessageKind::UserMsg,
            WireMsg::EndpointEchoReq => MessageKind::EndpointEchoReq,
            WireMsg::EndpointEchoResp(_) => MessageKind::EndpointEchoResp,
            WireMsg::EndpointVerificationReq(_) => MessageKind::EndpointVerificationReq,
            WireMsg::EndpointVerificationResp(_) => MessageKind::EndpointVerificationResp,
            WireMsg::EndpointPseudoBiStreamReq(_) => MessageKind::EndpointPseudoBiStreamReq,
            WireMsg::EndpointPseudoBiStreamResp(_) => MessageKind::EndpointPseudoBiStreamResp,
        }
    }

    /// Whether this message has a record: a payload's length must have an
    /// encoding. Every other message has one.
    pub fn is_encodable(&self) -> (b: bool)
        ensures
            b == self@.wf(),
    {
        match self {
            WireMsg::UserMsg(p) => payload_slice(p).len() as u64 <= MAX_VARINT,
            _ => true,
        }
    }

    /// Appends the record of this message to `out`.
    pub fn encode_into(&self, out: &mut Vec<u8>)
        requires
            self@.wf(),
        ensures
            final(out)@ == old(out)@ + spec_encode(self@),
    {
        match self {
            WireMsg::UserMsg(p) => {
                let bytes = payload_slice(p);
                out.push(0u8);
                encode_varint(bytes.len() as u64, out);
                push_all(out, bytes);
            },
            WireMsg::EndpointEchoReq => {
                out.push(1u8);
            },
            WireMsg::EndpointEchoResp(a) => {
                out.push(2u8);
                a.encode_into(out);
            },
            WireMsg::EndpointVerificationReq(a) => {
                out.push(3u8);
                a.encode_into(out);
            },
            WireMsg::EndpointVerificationResp(b) => {
                out.push(4u8);
                out.push(
                    if *b {
                        1u8
                    } else {
                        0u8
                    },
                );
            },
            WireMsg::EndpointPseudoBiStreamReq(t) => {
                out.push(5u8);
                push_all(out, t.as_slice());
            },
            WireMsg::EndpointPseudoBiStreamResp(t) => {
                out.push(6u8);
                push_all(out, t.as_slice());
            },
        }
        assert(out@ =~= old(out)@ + spec_encode(self@));
    }

    /// The record of this message.
    pub fn encode(&self) -> (out: Vec<u8>)
        requires
            self@.wf(),
        ensures
            out@ == spec_encode(self@),
    {
        let mut out: Vec<u8> = Vec::new();
        self.encode_into(&mut out);
        assert(out@ =~= spec_encode(self@));
        out
    }

    /// The record of this message; `None` for a payload so long that its
    /// length has no encoding.
    pub fn try_encode(&self) -> (out: Option<Vec<u8>>)
        ensures
            match out {
                Some(record) => self@.wf() && record@ == spec_encode(self@),
                None => !self@.wf(),
            },
    {
        if self.is_encodable() {
            Some(self.encode())
        } else {
            None
        }
    }

    /// Reads the record that starts at `pos` in `buf`.
    ///
    /// `Ok(None)` where nothing is left at `pos`; the message and the length
    /// of its record where a whole record is there; otherwise the reason why
    /// none could be read.
    pub fn decode_at(buf: &[u8], pos: usize) -> (r: Result<
        Option<(WireMsg, usize)>,
        SerializationError,
    >)
        requires
            pos <= buf@.len(),
        ensures
            decoded_as(r, spec_decode(buf@.skip(pos as int))),
            r matches Ok(Some((_, n))) ==> 0 < n && pos + n <= buf@.len(),
    {
        let len: usize = buf.len();
        let ghost s = buf@.skip(pos as int);
        if pos >= len {
            return Ok(None);
        }
        let tag: u8 = buf[pos];
        let body: usize = pos + 1;
        assert(s.skip(1) =~= buf@.skip(body as int));
        if tag == 0 {
            match decode_varint(buf, body) {
                None => Err(SerializationError::UnexpectedEof),
                Some((payload_len, width)) => {
                    if ((len - body - width) as u64) < payload_len {
                        Err(SerializationError::UnexpectedEof)
                    } else {
                        let start: usize = body + width;
                        let n: usize = payload_len as usize;
                        let payload = payload_from(slice_subrange(buf, start, start + n));
                        assert(bytes_contents(payload) =~= s.skip(1).subrange(
                            width as int,
                            width + n,
                        ));
                        Ok(Some((WireMsg::UserMsg(payload), 1 + width + n)))
                    }
                },
            }
        } else if tag == 1 {
            Ok(Some((WireMsg::EndpointEchoReq, 1)))
        } else if tag == 2 || tag == 3 {
            match SocketAddress::decode_at(buf, body) {
                Err(e) => Err(e),
                Ok((a, n)) => {
                    if tag == 2 {
                        Ok(Some((WireMsg::EndpointEchoResp(a), 1 + n)))
                    } else {
                        Ok(Some((WireMsg::EndpointVerificationReq(a), 1 + n)))
                    }
                },
            }
        } else if tag == 4 {
            if body >= len {
                Err(SerializationError::UnexpectedEof)
            } else if buf[body] > 1 {
                Err(SerializationError::UnknownTag)
            } else {
                Ok(Some((WireMsg::EndpointVerificationResp(buf[body] == 1), 2)))
            }
        } else if tag == 5 || tag == 6 {
            if len - body < TOKEN_LEN {
                Err(SerializationError::UnexpectedEof)
            } else {
                let token = read_array::<32>(buf, body);
                assert(token@ =~= s.skip(1).subrange(0, TOKEN_LEN as int));
                if tag == 5 {
                    Ok(Some((WireMsg::EndpointPseudoBiStreamReq(token), 1 + TOKEN_LEN)))
                } else {
                    Ok(Some((WireMsg::EndpointPseudoBiStreamResp(token), 1 + TOKEN_LEN)))
                }
            }
        } else {
            Err(SerializationError::UnknownTag)
        }
    }

    /// How many more bytes to read before going on with the record that
    /// starts `buf`.
    ///
    /// 0 where the record is complete and `decode` reads it; an error where
    /// what is there already shows that no record will come of it.
    pub fn missing_bytes(buf: &[u8]) -> (r: Result<u64, SerializationError>)
        ensures
            match (r, spec_missing(buf@)) {
                (Ok(k), Ok(expected)) => k == expected,
                (Err(e), Err(expected)) => e == expected,
                _ => false,
            },
    {
        let len: usize = buf.len();
        if len == 0 {
            return Ok(1);
        }
        let tag: u8 = buf[0];
        let have: u64 = (len - 1) as u64;
        assert(buf@.skip(1).len() == have);
        if tag == 0 {
            if have == 0 {
                return Ok(1);
            }
            assert(buf@.skip(1)[0] == buf@[1]);
            match decode_varint(buf, 1) {
                None => {
                    let first: u8 = buf[1];
                    let width: u64 = if first < 64 {
                        1
                    } else if first < 128 {
                        2
                    } else if first < 192 {
                        4
                    } else {
                        8
                    };
                    Ok(width - have)
                },
                Some((payload_len, width)) => {
                    let total: u64 = width as u64 + payload_len;
                    if have < total {
                        Ok(total - have)
                    } else {
                        Ok(0)
                    }
                },
            }
        } else if tag == 1 {
            Ok(0)
        } else if tag == 2 || tag == 3 {
            if have == 0 {
                return Ok(1);
            }
            assert(buf@.skip(1)[0] == buf@[1]);
            let family: u8 = buf[1];
            if family != 4 && family != 6 {
                return Err(SerializationError::MalformedAddress);
            }
            let total: u64 = if family == 4 {
                7
            } else {
                19
            };
            if have < total {
                Ok(total - have)
            } else {
                Ok(0)
            }
        } else if tag == 4 {
            if have == 0 {
                return Ok(1);
            }
            assert(buf@.skip(1)[0] == buf@[1]);
            if buf[1] > 1 {
                Err(SerializationError::UnknownTag)
            } else {
                Ok(0)
            }
        } else if tag == 5 || tag == 6 {
            if have < 32 {
                Ok(32 - have)
            } else {
                Ok(0)
            }
        } else {
            Err(SerializationError::UnknownTag)
        }
    }

    /// Reads the record at the front of `buf`.
    pub fn decode(buf: &[u8]) -> (r: Result<Option<(WireMsg, usize)>, SerializationError>)
        ensures
            decoded_as(r, spec_decode(buf@)),
            r matches Ok(Some((_, n))) ==> 0 < n <= buf@.len(),
    {
        assert(buf@.skip(0) =~= buf@);
        WireMsg::decode_at(buf, 0)
    }
}


/// Reading back the bytes of a well-formed address gives the address,
/// whatever follows them.
pub proof fn lemma_address_roundtrip(a: SocketAddressModel, rest: Seq<u8>)
    requires
        a.wf(),
    ensures
        spec_decode_address(spec_encode_address(a) + rest) == Ok::<
            (SocketAddressModel, nat),
            SerializationError,
        >((a, spec_encode_address(a).len())),
{
    reveal_with_fuel(be_bytes, 3);
    let s = spec_encode_address(a) + rest;
    let n = a.octets.len() as int;
    assert(s[0] == a.family);
    assert(s.subrange(1, 1 + n) =~= a.octets);
    assert(s[1 + n] == (a.port / 256) as u8);
    assert(s[2 + n] == (a.port % 256) as u8);
}

/// Codec round trip: reading the record of a well-formed message gives the
/// message back, and the record's length, whatever follows the record.
pub proof fn lemma_decode_encode(m: WireMsgModel, rest: Seq<u8>)
    requires
        m.wf(),
    ensures
        spec_encode(m).len() > 0,
        spec_decode(spec_encode(m) + rest) == Ok::<Option<(WireMsgModel, nat)>, SerializationError>(
            Some((m, spec_encode(m).len())),
        ),
{
    let s = spec_encode(m) + rest;
    let body = s.skip(1);
    match m {
        WireMsgModel::UserMsg(p) => {
            lemma_varint_roundtrip(p.len(), p + rest);
            let w = varint_len(p.len());
            assert(body =~= spec_encode_varint(p.len()) + (p + rest));
            assert(body.subrange(w as int, (w + p.len()) as int) =~= p);
        },
        WireMsgModel::EndpointEchoReq => {},
        WireMsgModel::EndpointEchoResp(a) => {
            lemma_address_roundtrip(a, rest);
            assert(body =~= spec_encode_address(a) + rest);
        },
        WireMsgModel::EndpointVerificationReq(a) => {
            lemma_address_roundtrip(a, rest);
            assert(body =~= spec_encode_address(a) + rest);
        },
        WireMsgModel::EndpointVerificationResp(b) => {},
        WireMsgModel::EndpointPseudoBiStreamReq(t) => {
            assert(body.subrange(0, TOKEN_LEN as int) =~= t);
        },
        WireMsgModel::EndpointPseudoBiStreamResp(t) => {
            assert(body.subrange(0, TOKEN_LEN as int) =~= t);
        },
    }
}

/// A reader that goes by `spec_missing` reads what `spec_decode` describes:
/// nothing is missing exactly where a record can be read; an error is the
/// error that reading gives; and where bytes are missing, reading what is
/// there would end inside the record.
pub proof fn lemma_missing_agrees(s: Seq<u8>)
    requires
        s.len() > 0,
    ensures
        spec_missing(s) == Ok::<nat, SerializationError>(0) <==> (spec_decode(s) matches Ok(
            Some(_),
        )),
        spec_missing(s) matches Err(e) ==> spec_decode(s) == Err::<
            Option<(WireMsgModel, nat)>,
            SerializationError,
        >(e),
        spec_missing(s) matches Ok(k) && k > 0 ==> spec_decode(s) == Err::<
            Option<(WireMsgModel, nat)>,
            SerializationError,
        >(SerializationError::UnexpectedEof),
{
}

/// Every message that can be sent is read back unchanged from its record.
pub proof fn lemma_roundtrip(v: WireMsg)
    requires
        v@.wf(),
    ensures
        spec_decode(spec_encode(v@)) == Ok::<Option<(WireMsgModel, nat)>, SerializationError>(
            Some((v@, spec_encode(v@).len())),
        ),
{
    lemma_decode_encode(v@, Seq::empty());
    assert(spec_encode(v@) + Seq::<u8>::empty() =~= spec_encode(v@));
}


/// Records are unambiguous: where the record of one message, followed by
/// anything, is the record of another, the two messages are one and nothing
/// follows. So no record is the beginning of a different one, and different
/// messages have different records.
pub proof fn lemma_records_prefix_free(a: WireMsgModel, b: WireMsgModel, rest: Seq<u8>)
    requires
        a.wf(),
        b.wf(),
        spec_encode(a) + rest == spec_encode(b),
    ensures
        a == b,
        rest.len() == 0,
{
    lemma_decode_encode(a, rest);
    lemma_decode_encode(b, Seq::empty());
    assert(spec_encode(b) + Seq::<u8>::empty() =~= spec_encode(b));
}

} // verus!
