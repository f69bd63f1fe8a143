use actor_router::path::{ActorPath, HostAddr};
use actor_router::router::RoutingMessage;
use actor_router::wire::{
    decode, encode, frame, read_envelope, split_frame, write_envelope, CodecError, FrameStatus,
    FRAME_HEADER_LEN, PATH_LOCAL, PATH_V4, PATH_V6, TAG_ACK, TAG_MESSAGE,
};

fn local_message() -> RoutingMessage<Vec<u8>> {
    RoutingMessage::Message {
        sender: ActorPath::Local { id: 5 },
        recipient: 7,
        message: vec![0xAA, 0xBB],
    }
}

fn local_message_bytes() -> Vec<u8> {
    vec![1, 0, 5, 0, 0, 0, 0, 0, 0, 0, 7, 0, 0, 0, 0, 0, 0, 0, 0xAA, 0xBB]
}

#[test]
fn tags_have_their_values() {
    assert_eq!((TAG_ACK, TAG_MESSAGE), (0, 1));
    assert_eq!((PATH_LOCAL, PATH_V4, PATH_V6), (0, 1, 2));
    assert_eq!(FRAME_HEADER_LEN, 8);
}

#[test]
fn acknowledgment_is_one_byte() {
    assert_eq!(encode(&RoutingMessage::Ack), vec![0]);
    assert_eq!(decode(&[0]), Ok(RoutingMessage::Ack));
}

#[test]
fn message_from_a_local_sender_has_this_form() {
    assert_eq!(encode(&local_message()), local_message_bytes());
    assert_eq!(decode(&local_message_bytes()), Ok(local_message()));
}

#[test]
fn message_from_an_ipv4_sender_has_this_form() {
    let envelope = RoutingMessage::Message {
        sender: ActorPath::Remote { addr: HostAddr::V4 { ip: 0x7F00_0001, port: 8080 }, id: 2 },
        recipient: 0x0102,
        message: vec![9],
    };
    let bytes = vec![
        1, // message
        1, 0x01, 0x00, 0x00, 0x7F, 0x90, 0x1F, 2, 0, 0, 0, 0, 0, 0, 0, // sender
        0x02, 0x01, 0, 0, 0, 0, 0, 0, // recipient
        9, // payload
    ];
    assert_eq!(encode(&envelope), bytes);
    assert_eq!(decode(&bytes), Ok(envelope));
}

#[test]
fn message_from_an_ipv6_sender_has_this_form() {
    let envelope = RoutingMessage::Message {
        sender: ActorPath::Remote {
            addr: HostAddr::V6 { ip: 1, port: 9000, flowinfo: 0x0A0B_0C0D, scope_id: 3 },
            id: 4,
        },
        recipient: 6,
        message: Vec::new(),
    };
    let mut bytes = vec![1, 2, 1];
    bytes.extend_from_slice(&[0; 15]);
    bytes.extend_from_slice(&[0x28, 0x23]);
    bytes.extend_from_slice(&[0x0D, 0x0C, 0x0B, 0x0A]);
    bytes.extend_from_slice(&[3, 0, 0, 0]);
    bytes.extend_from_slice(&[4, 0, 0, 0, 0, 0, 0, 0]);
    bytes.extend_from_slice(&[6, 0, 0, 0, 0, 0, 0, 0]);
    assert_eq!(bytes.len(), 1 + 35 + 8);
    assert_eq!(encode(&envelope), bytes);
    assert_eq!(decode(&bytes), Ok(envelope));
}

#[test]
fn round_trip_keeps_sender_recipient_and_payload() {
    let senders = [
        ActorPath::Local { id: 0 },
        ActorPath::Local { id: usize::MAX },
        ActorPath::Remote { addr: HostAddr::V4 { ip: u32::MAX, port: u16::MAX }, id: 1 },
        ActorPath::Remote {
            addr: HostAddr::V6 { ip: u128::MAX, port: 1, flowinfo: u32::MAX, scope_id: 7 },
            id: usize::MAX,
        },
    ];
    let payloads: [Vec<u8>; 4] = [Vec::new(), vec![0], vec![1, 0, 2, 255], (0..=255).collect()];
    for sender in senders {
        for recipient in [0usize, 7, usize::MAX] {
            for payload in payloads.iter() {
                let envelope =
                    RoutingMessage::Message { sender, recipient, message: payload.clone() };
                let bytes = encode(&envelope);
                assert_eq!(decode(&bytes), Ok(envelope));
            }
        }
    }
}

#[test]
fn payload_that_looks_like_an_envelope_stays_payload() {
    let inner = encode(&local_message());
    let outer = RoutingMessage::Message {
        sender: ActorPath::Local { id: 1 },
        recipient: 2,
        message: inner.clone(),
    };
    match decode(&encode(&outer)) {
        Ok(RoutingMessage::Message { message, recipient, .. }) => {
            assert_eq!(recipient, 2);
            assert_eq!(message, inner);
        }
        other => panic!("not a message: {:?}", other),
    }
}

#[test]
fn decode_rejects_no_bytes() {
    assert_eq!(decode(&[]), Err(CodecError::Truncated));
}

#[test]
fn decode_rejects_bytes_after_an_acknowledgment() {
    assert_eq!(decode(&[0, 0]), Err(CodecError::TrailingBytes));
    assert_eq!(decode(&[0, 1, 2, 3]), Err(CodecError::TrailingBytes));
}

#[test]
fn decode_rejects_an_unknown_envelope_tag() {
    assert_eq!(decode(&[2]), Err(CodecError::UnknownTag { tag: 2 }));
    assert_eq!(decode(&[255, 0, 0]), Err(CodecError::UnknownTag { tag: 255 }));
}

#[test]
fn decode_rejects_an_unknown_path_tag() {
    let mut bytes = local_message_bytes();
    bytes[1] = 3;
    assert_eq!(decode(&bytes), Err(CodecError::UnknownTag { tag: 3 }));
}

#[test]
fn decode_rejects_every_cut_short_message() {
    let bytes = local_message_bytes();
    // Up to the end of the recipient every cut is too short; from there on
    // the rest is payload of whatever length.
    for cut in 1..18 {
        assert_eq!(decode(&bytes[..cut]), Err(CodecError::Truncated), "cut at {}", cut);
    }
    assert_eq!(
        decode(&bytes[..18]),
        Ok(RoutingMessage::Message {
            sender: ActorPath::Local { id: 5 },
            recipient: 7,
            message: Vec::new(),
        })
    );
    assert_eq!(
        decode(&bytes[..19]),
        Ok(RoutingMessage::Message {
            sender: ActorPath::Local { id: 5 },
            recipient: 7,
            message: vec![0xAA],
        })
    );
}

#[test]
fn decode_checks_that_ids_fit_the_machine() {
    let mut bytes = local_message_bytes();
    for b in &mut bytes[2..10] {
        *b = 0xFF;
    }
    let r = decode(&bytes);
    if (usize::MAX as u64) < u64::MAX {
        assert_eq!(r, Err(CodecError::IdOutOfRange));
    } else {
        assert_eq!(
            r,
            Ok(RoutingMessage::Message {
                sender: ActorPath::Local { id: usize::MAX },
                recipient: 7,
                message: vec![0xAA, 0xBB],
            })
        );
    }
}

#[test]
fn frame_puts_the_length_in_front() {
    assert_eq!(frame(&[]), vec![0, 0, 0, 0, 0, 0, 0, 0]);
    assert_eq!(frame(&[7, 8, 9]), vec![3, 0, 0, 0, 0, 0, 0, 0, 7, 8, 9]);
    let long = vec![1u8; 300];
    let framed = frame(&long);
    assert_eq!(&framed[..8], &[0x2C, 0x01, 0, 0, 0, 0, 0, 0]);
    assert_eq!(&framed[8..], &long[..]);
}

#[test]
fn split_frame_waits_for_a_whole_frame() {
    let framed = frame(&[7, 8, 9]);
    for cut in 0..framed.len() {
        assert_eq!(split_frame(&framed[..cut]), FrameStatus::Incomplete, "cut at {}", cut);
    }
    assert_eq!(split_frame(&framed), FrameStatus::Ready { end: 11 });
}

#[test]
fn split_frame_finds_the_first_of_several_frames() {
    let mut buffer = frame(&[7, 8, 9]);
    buffer.extend_from_slice(&frame(&[1]));
    buffer.push(0);
    assert_eq!(split_frame(&buffer), FrameStatus::Ready { end: 11 });
    assert_eq!(split_frame(&buffer[11..]), FrameStatus::Ready { end: 9 });
    assert_eq!(split_frame(&buffer[20..]), FrameStatus::Incomplete);
    assert_eq!(split_frame(&frame(&[])), FrameStatus::Ready { end: 8 });
}

#[test]
fn split_frame_refuses_a_length_beyond_the_machine() {
    assert_eq!(split_frame(&[0xFF; 8]), FrameStatus::Oversized);
    assert_eq!(split_frame(&[0xFF; 20]), FrameStatus::Oversized);
    // The largest announced length that is still too large.
    let mut header = ((usize::MAX - 7) as u64).to_le_bytes().to_vec();
    assert_eq!(split_frame(&header), FrameStatus::Oversized);
    header = ((usize::MAX - 8) as u64).to_le_bytes().to_vec();
    assert_eq!(split_frame(&header), FrameStatus::Incomplete);
}

#[test]
fn write_envelope_frames_the_encoding() {
    assert_eq!(write_envelope(&RoutingMessage::Ack), vec![1, 0, 0, 0, 0, 0, 0, 0, 0]);
    let mut expected = vec![20, 0, 0, 0, 0, 0, 0, 0];
    expected.extend_from_slice(&local_message_bytes());
    assert_eq!(write_envelope(&local_message()), expected);
}

#[test]
fn read_envelope_inverts_write_envelope() {
    let mut stream = write_envelope(&local_message());
    let first = stream.len();
    stream.extend_from_slice(&write_envelope(&RoutingMessage::Ack));
    stream.extend_from_slice(&[9, 9]);
    assert_eq!(read_envelope(&stream), Ok(Some((local_message(), first))));
    assert_eq!(read_envelope(&stream[first..]), Ok(Some((RoutingMessage::Ack, 9))));
    assert_eq!(read_envelope(&stream[first + 9..]), Ok(None));
}

#[test]
fn read_envelope_waits_for_missing_bytes() {
    let stream = write_envelope(&local_message());
    for cut in 0..stream.len() {
        assert_eq!(read_envelope(&stream[..cut]), Ok(None), "cut at {}", cut);
    }
}

#[test]
fn read_envelope_reports_a_broken_stream() {
    assert_eq!(read_envelope(&[0xFF; 8]), Err(CodecError::Oversized));
    assert_eq!(read_envelope(&frame(&[])), Err(CodecError::Truncated));
    assert_eq!(read_envelope(&frame(&[4])), Err(CodecError::UnknownTag { tag: 4 }));
    assert_eq!(read_envelope(&frame(&[0, 0])), Err(CodecError::TrailingBytes));
    assert_eq!(read_envelope(&frame(&[1, 0, 1])), Err(CodecError::Truncated));
}
