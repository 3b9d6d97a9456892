use bytes::Bytes;
use qp2p::address::{IpAddress, SocketAddress};
use qp2p::error::{MessageKind, RecvError, SerializationError};
use qp2p::stream::{next_user_msg, receive_all, recv_step, RecvStep};
use qp2p::varint::{decode_varint, encode_varint, MAX_VARINT};
use qp2p::wire_msg::WireMsg;

fn varint(v: u64) -> Vec<u8> {
    let mut out = Vec::new();
    encode_varint(v, &mut out);
    out
}

fn v4(a: u8, b: u8, c: u8, d: u8, port: u16) -> SocketAddress {
    SocketAddress { ip: IpAddress::V4([a, b, c, d]), port }
}

fn roundtrip(msg: WireMsg) {
    assert!(msg.is_encodable());
    let bytes = msg.encode();
    let len = bytes.len();
    assert_eq!(WireMsg::decode(&bytes), Ok(Some((msg.clone(), len))));
    let mut longer = bytes.clone();
    longer.extend_from_slice(&[9, 9, 9]);
    assert_eq!(WireMsg::decode(&longer), Ok(Some((msg, len))));
}

#[test]
fn varint_exact_encodings() {
    assert_eq!(varint(0), vec![0x00]);
    assert_eq!(varint(37), vec![0x25]);
    assert_eq!(varint(63), vec![0x3f]);
    assert_eq!(varint(64), vec![0x40, 0x40]);
    assert_eq!(varint(15293), vec![0x7b, 0xbd]);
    assert_eq!(varint(16383), vec![0x7f, 0xff]);
    assert_eq!(varint(16384), vec![0x80, 0x00, 0x40, 0x00]);
    assert_eq!(varint(494878333), vec![0x9d, 0x7f, 0x3e, 0x7d]);
    assert_eq!(varint(1073741823), vec![0xbf, 0xff, 0xff, 0xff]);
    assert_eq!(varint(1073741824), vec![0xc0, 0x00, 0x00, 0x00, 0x40, 0x00, 0x00, 0x00]);
    assert_eq!(
        varint(151288809941952652),
        vec![0xc2, 0x19, 0x7c, 0x5e, 0xff, 0x14, 0xe8, 0x8c]
    );
    assert_eq!(varint(MAX_VARINT), vec![0xff; 8]);
}

#[test]
fn varint_appends_to_what_is_there() {
    let mut out = vec![7u8, 8];
    encode_varint(300, &mut out);
    assert_eq!(out, vec![7, 8, 0x41, 0x2c]);
}

#[test]
fn varint_roundtrip_at_the_width_borders() {
    for v in [0u64, 1, 63, 64, 255, 256, 16383, 16384, 65535, 1073741823, 1073741824, MAX_VARINT] {
        let bytes = varint(v);
        assert_eq!(decode_varint(&bytes, 0), Some((v, bytes.len())));
        let mut padded = vec![0xaa];
        padded.extend_from_slice(&bytes);
        padded.push(0xbb);
        assert_eq!(decode_varint(&padded, 1), Some((v, bytes.len())));
    }
}

#[test]
fn varint_reads_wider_encodings_too() {
    assert_eq!(decode_varint(&[0x40, 0x25], 0), Some((37, 2)));
}

#[test]
fn varint_cut_short_is_none() {
    assert_eq!(decode_varint(&[], 0), None);
    assert_eq!(decode_varint(&[0x40], 0), None);
    assert_eq!(decode_varint(&[0x80, 0, 0], 0), None);
    assert_eq!(decode_varint(&[0xc0, 0, 0, 0, 0, 0, 0], 0), None);
    assert_eq!(decode_varint(&[0x25], 1), None);
}

#[test]
fn user_msg_exact_bytes() {
    let msg = WireMsg::UserMsg(Bytes::from(b"hello".to_vec()));
    assert_eq!(msg.encode(), vec![0, 5, b'h', b'e', b'l', b'l', b'o']);
    assert_eq!(WireMsg::UserMsg(Bytes::from(Vec::new())).encode(), vec![0, 0]);
}

#[test]
fn user_msg_with_two_byte_length() {
    let payload = vec![0x5a; 300];
    let bytes = WireMsg::UserMsg(Bytes::from(payload.clone())).encode();
    assert_eq!(&bytes[..3], &[0, 0x41, 0x2c]);
    assert_eq!(&bytes[3..], &payload[..]);
    assert_eq!(WireMsg::decode(&bytes), Ok(Some((WireMsg::UserMsg(Bytes::from(payload)), 303))));
}

#[test]
fn control_messages_exact_bytes() {
    assert_eq!(WireMsg::EndpointEchoReq.encode(), vec![1]);
    assert_eq!(
        WireMsg::EndpointEchoResp(v4(127, 0, 0, 1, 8080)).encode(),
        vec![2, 4, 127, 0, 0, 1, 0x1f, 0x90]
    );
    assert_eq!(
        WireMsg::EndpointVerificationReq(v4(10, 0, 0, 2, 443)).encode(),
        vec![3, 4, 10, 0, 0, 2, 0x01, 0xbb]
    );
    assert_eq!(WireMsg::EndpointVerificationResp(true).encode(), vec![4, 1]);
    assert_eq!(WireMsg::EndpointVerificationResp(false).encode(), vec![4, 0]);
    let token = [0xabu8; 32];
    let mut expected = vec![5u8];
    expected.extend_from_slice(&token);
    assert_eq!(WireMsg::EndpointPseudoBiStreamReq(token).encode(), expected);
    expected[0] = 6;
    assert_eq!(WireMsg::EndpointPseudoBiStreamResp(token).encode(), expected);
}

#[test]
fn ipv6_address_exact_bytes() {
    let mut octets = [0u8; 16];
    octets[15] = 1;
    let addr = SocketAddress { ip: IpAddress::V6(octets), port: 0xfffe };
    let mut expected = vec![2u8, 6];
    expected.extend_from_slice(&octets);
    expected.extend_from_slice(&[0xff, 0xfe]);
    assert_eq!(WireMsg::EndpointEchoResp(addr).encode(), expected);
    let mut out = vec![1u8];
    addr.encode_into(&mut out);
    assert_eq!(out.len(), 1 + 19);
    assert_eq!(SocketAddress::decode_at(&out, 1), Ok((addr, 19)));
}

#[test]
fn every_variant_round_trips() {
    let mut token = [0u8; 32];
    for (i, b) in token.iter_mut().enumerate() {
        *b = i as u8;
    }
    let mut v6 = [0u8; 16];
    for (i, b) in v6.iter_mut().enumerate() {
        *b = 0xf0 + i as u8;
    }
    roundtrip(WireMsg::UserMsg(Bytes::from(Vec::new())));
    roundtrip(WireMsg::UserMsg(Bytes::from(b"hello".to_vec())));
    roundtrip(WireMsg::UserMsg(Bytes::from(vec![0u8; 70000])));
    roundtrip(WireMsg::EndpointEchoReq);
    roundtrip(WireMsg::EndpointEchoResp(v4(192, 168, 1, 20, 0)));
    roundtrip(WireMsg::EndpointEchoResp(SocketAddress { ip: IpAddress::V6(v6), port: 65535 }));
    roundtrip(WireMsg::EndpointVerificationReq(v4(1, 2, 3, 4, 256)));
    roundtrip(WireMsg::EndpointVerificationReq(SocketAddress { ip: IpAddress::V6(v6), port: 255 }));
    roundtrip(WireMsg::EndpointVerificationResp(true));
    roundtrip(WireMsg::EndpointVerificationResp(false));
    roundtrip(WireMsg::EndpointPseudoBiStreamReq(token));
    roundtrip(WireMsg::EndpointPseudoBiStreamResp(token));
}

#[test]
fn encode_into_keeps_what_was_written() {
    let mut out = vec![1u8];
    WireMsg::UserMsg(Bytes::from(b"a".to_vec())).encode_into(&mut out);
    WireMsg::EndpointVerificationResp(true).encode_into(&mut out);
    assert_eq!(out, vec![1, 0, 1, b'a', 4, 1]);
}

#[test]
fn kinds_follow_the_variants() {
    assert_eq!(WireMsg::UserMsg(Bytes::from(vec![1])).kind(), MessageKind::UserMsg);
    assert_eq!(WireMsg::EndpointEchoReq.kind(), MessageKind::EndpointEchoReq);
    assert_eq!(WireMsg::EndpointEchoResp(v4(0, 0, 0, 0, 0)).kind(), MessageKind::EndpointEchoResp);
    assert_eq!(
        WireMsg::EndpointVerificationReq(v4(0, 0, 0, 0, 0)).kind(),
        MessageKind::EndpointVerificationReq
    );
    assert_eq!(
        WireMsg::EndpointVerificationResp(true).kind(),
        MessageKind::EndpointVerificationResp
    );
    assert_eq!(
        WireMsg::EndpointPseudoBiStreamReq([0; 32]).kind(),
        MessageKind::EndpointPseudoBiStreamReq
    );
    assert_eq!(
        WireMsg::EndpointPseudoBiStreamResp([0; 32]).kind(),
        MessageKind::EndpointPseudoBiStreamResp
    );
}

#[test]
fn clean_end_before_the_tag_is_none() {
    assert_eq!(WireMsg::decode(&[]), Ok(None));
    assert_eq!(WireMsg::decode_at(&[1], 1), Ok(None));
}

#[test]
fn end_inside_a_record_is_an_error() {
    let eof = Err(SerializationError::UnexpectedEof);
    assert_eq!(WireMsg::decode(&[0]), eof);
    assert_eq!(WireMsg::decode(&[0, 0x40]), eof);
    assert_eq!(WireMsg::decode(&[0, 5, b'h', b'e', b'l', b'l']), eof);
    assert_eq!(WireMsg::decode(&[2]), eof);
    assert_eq!(WireMsg::decode(&[2, 4, 127, 0, 0, 1, 0x1f]), eof);
    assert_eq!(WireMsg::decode(&[3, 6, 0, 0, 0, 0, 0, 0]), eof);
    assert_eq!(WireMsg::decode(&[4]), eof);
    assert_eq!(WireMsg::decode(&[5, 1, 2, 3]), eof);
    let mut short = vec![6u8];
    short.extend_from_slice(&[0u8; 31]);
    assert_eq!(WireMsg::decode(&short), eof);
}

#[test]
fn unknown_tag_is_an_error() {
    assert_eq!(WireMsg::decode(&[7]), Err(SerializationError::UnknownTag));
    assert_eq!(WireMsg::decode(&[255, 0, 0]), Err(SerializationError::UnknownTag));
    assert_eq!(WireMsg::decode(&[4, 2]), Err(SerializationError::UnknownTag));
}

#[test]
fn unknown_family_is_a_malformed_address() {
    assert_eq!(
        WireMsg::decode(&[2, 5, 0, 0, 0, 0, 0, 0]),
        Err(SerializationError::MalformedAddress)
    );
    assert_eq!(WireMsg::decode(&[3, 0]), Err(SerializationError::MalformedAddress));
    assert_eq!(
        SocketAddress::decode_at(&[9], 0),
        Err(SerializationError::MalformedAddress)
    );
    assert_eq!(SocketAddress::decode_at(&[], 0), Err(SerializationError::UnexpectedEof));
}

#[test]
fn oversized_payload_is_not_encodable_only_beyond_the_limit() {
    assert!(WireMsg::UserMsg(Bytes::from(vec![0; 1000])).is_encodable());
    assert!(WireMsg::EndpointEchoReq.is_encodable());
    assert_eq!(WireMsg::EndpointEchoReq.try_encode(), Some(vec![1]));
    assert_eq!(
        WireMsg::UserMsg(Bytes::from_static(b"hi")).try_encode(),
        Some(vec![0, 2, b'h', b'i'])
    );
}

#[test]
fn receiver_sees_exactly_what_was_sent() {
    for payload in [Vec::new(), b"m".to_vec(), vec![0u8, 255, 0, 1], vec![7u8; 20000]] {
        let bytes = WireMsg::UserMsg(Bytes::from(payload.clone())).encode();
        let len = bytes.len();
        assert_eq!(next_user_msg(&bytes, 0), Ok(Some((Bytes::from(payload), len))));
    }
}

#[test]
fn messages_on_one_stream_arrive_in_order() {
    let msgs: Vec<Vec<u8>> = vec![b"one".to_vec(), Vec::new(), b"three".to_vec(), vec![9u8; 100]];
    let mut stream = Vec::new();
    for m in &msgs {
        WireMsg::UserMsg(Bytes::from(m.clone())).encode_into(&mut stream);
    }
    let expected: Vec<Bytes> = msgs.into_iter().map(Bytes::from).collect();
    assert_eq!(receive_all(&stream), Ok(expected));
    assert_eq!(receive_all(&[]), Ok(Vec::new()));
}

#[test]
fn repeated_responses_are_passed_over() {
    let mut stream = Vec::new();
    WireMsg::EndpointPseudoBiStreamResp([1; 32]).encode_into(&mut stream);
    WireMsg::EndpointPseudoBiStreamResp([1; 32]).encode_into(&mut stream);
    WireMsg::UserMsg(Bytes::from(b"pong".to_vec())).encode_into(&mut stream);
    WireMsg::UserMsg(Bytes::from(b"again".to_vec())).encode_into(&mut stream);
    assert_eq!(next_user_msg(&stream, 0), Ok(Some((Bytes::from_static(b"pong"), 33 + 33 + 6))));
    assert_eq!(next_user_msg(&stream, 33), Ok(Some((Bytes::from_static(b"pong"), 33 + 6))));
    assert_eq!(next_user_msg(&stream, 72), Ok(Some((Bytes::from_static(b"again"), 7))));
    assert_eq!(next_user_msg(&stream, 79), Ok(None));
    assert_eq!(receive_all(&stream), Ok(vec![Bytes::from_static(b"pong"), Bytes::from_static(b"again")]));
    let only_responses = WireMsg::EndpointPseudoBiStreamResp([1; 32]).encode();
    assert_eq!(next_user_msg(&only_responses, 0), Ok(None));
}

#[test]
fn other_messages_fail_the_receiver() {
    let mut stream = Vec::new();
    WireMsg::UserMsg(Bytes::from(b"ok".to_vec())).encode_into(&mut stream);
    WireMsg::EndpointEchoReq.encode_into(&mut stream);
    let unexpected = RecvError::Serialization(SerializationError::UnexpectedMessage(Some(
        MessageKind::EndpointEchoReq,
    )));
    assert_eq!(next_user_msg(&stream, 4), Err(unexpected.clone()));
    assert_eq!(receive_all(&stream), Err(unexpected));
    assert_eq!(
        receive_all(&[0, 3, 1]),
        Err(RecvError::Serialization(SerializationError::UnexpectedEof))
    );
    assert_eq!(
        next_user_msg(&[9], 0),
        Err(RecvError::Serialization(SerializationError::UnknownTag))
    );
}

#[test]
fn recv_step_table() {
    assert!(matches!(
        recv_step(Ok(Some(WireMsg::UserMsg(Bytes::from(b"x".to_vec()))))),
        RecvStep::Deliver(p) if &p[..] == b"x"
    ));
    assert!(matches!(
        recv_step(Ok(Some(WireMsg::EndpointPseudoBiStreamResp([0; 32])))),
        RecvStep::Skip
    ));
    assert!(matches!(recv_step(Ok(None)), RecvStep::End));
    assert!(matches!(
        recv_step(Ok(Some(WireMsg::EndpointPseudoBiStreamReq([0; 32])))),
        RecvStep::Fail(RecvError::Serialization(SerializationError::UnexpectedMessage(Some(
            MessageKind::EndpointPseudoBiStreamReq
        ))))
    ));
    assert!(matches!(
        recv_step(Err(RecvError::Serialization(SerializationError::UnexpectedEof))),
        RecvStep::Fail(RecvError::Serialization(SerializationError::UnexpectedEof))
    ));
}

#[test]
fn missing_bytes_follow_the_record_step_by_step() {
    let unknown = Err(SerializationError::UnknownTag);
    assert_eq!(WireMsg::missing_bytes(&[]), Ok(1));
    assert_eq!(WireMsg::missing_bytes(&[0]), Ok(1));
    assert_eq!(WireMsg::missing_bytes(&[0, 0x41]), Ok(1));
    assert_eq!(WireMsg::missing_bytes(&[0, 0xc0]), Ok(7));
    assert_eq!(WireMsg::missing_bytes(&[0, 0x80, 0]), Ok(2));
    assert_eq!(WireMsg::missing_bytes(&[0, 5]), Ok(5));
    assert_eq!(WireMsg::missing_bytes(&[0, 5, 1, 2]), Ok(3));
    assert_eq!(WireMsg::missing_bytes(&[0, 5, 1, 2, 3, 4, 5]), Ok(0));
    assert_eq!(WireMsg::missing_bytes(&[0, 0x41, 0x2c]), Ok(300));
    assert_eq!(WireMsg::missing_bytes(&[0, 0]), Ok(0));
    assert_eq!(WireMsg::missing_bytes(&[1]), Ok(0));
    assert_eq!(WireMsg::missing_bytes(&[2]), Ok(1));
    assert_eq!(WireMsg::missing_bytes(&[2, 4]), Ok(6));
    assert_eq!(WireMsg::missing_bytes(&[3, 6]), Ok(18));
    assert_eq!(WireMsg::missing_bytes(&[3, 6, 0, 0]), Ok(16));
    assert_eq!(WireMsg::missing_bytes(&[2, 4, 1, 2, 3, 4, 0, 80]), Ok(0));
    assert_eq!(WireMsg::missing_bytes(&[2, 9]), Err(SerializationError::MalformedAddress));
    assert_eq!(WireMsg::missing_bytes(&[4]), Ok(1));
    assert_eq!(WireMsg::missing_bytes(&[4, 0]), Ok(0));
    assert_eq!(WireMsg::missing_bytes(&[4, 7]), unknown);
    assert_eq!(WireMsg::missing_bytes(&[5]), Ok(32));
    assert_eq!(WireMsg::missing_bytes(&[6, 0, 0, 0, 0, 0, 0, 0, 0, 0, 0]), Ok(22));
    assert_eq!(WireMsg::missing_bytes(&[9]), unknown);
    assert_eq!(
        WireMsg::missing_bytes(&[0, 0xff, 0xff, 0xff, 0xff, 0xff, 0xff, 0xff, 0xff]),
        Ok(MAX_VARINT)
    );
}

fn read_incrementally(stream: &[u8]) -> Result<Option<(WireMsg, usize)>, SerializationError> {
    let mut record: Vec<u8> = Vec::new();
    loop {
        let missing = WireMsg::missing_bytes(&record)? as usize;
        if missing == 0 {
            return WireMsg::decode(&record);
        }
        let start = record.len();
        if stream.len() < start + missing {
            return if start == 0 { Ok(None) } else { Err(SerializationError::UnexpectedEof) };
        }
        record.extend_from_slice(&stream[start..start + missing]);
    }
}

#[test]
fn a_reader_that_asks_for_missing_bytes_reads_whole_records() {
    let mut token = [0u8; 32];
    token[31] = 0x99;
    let msgs = vec![
        WireMsg::UserMsg(Bytes::from(vec![3u8; 20000])),
        WireMsg::UserMsg(Bytes::new()),
        WireMsg::EndpointEchoReq,
        WireMsg::EndpointEchoResp(v4(8, 8, 8, 8, 53)),
        WireMsg::EndpointVerificationReq(SocketAddress { ip: IpAddress::V6([7; 16]), port: 9 }),
        WireMsg::EndpointVerificationResp(true),
        WireMsg::EndpointPseudoBiStreamReq(token),
        WireMsg::EndpointPseudoBiStreamResp(token),
    ];
    for msg in msgs {
        let mut stream = msg.encode();
        let len = stream.len();
        stream.extend_from_slice(&[0xee; 4]);
        assert_eq!(read_incrementally(&stream), Ok(Some((msg, len))));
        assert_eq!(
            read_incrementally(&stream[..len - 1]),
            if len == 1 { Ok(None) } else { Err(SerializationError::UnexpectedEof) }
        );
    }
    assert_eq!(read_incrementally(&[]), Ok(None));
    assert_eq!(read_incrementally(&[77, 1, 2]), Err(SerializationError::UnknownTag));
}
