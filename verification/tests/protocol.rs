use drawing_tablet::protocol::codec::{
    announced_len, decode_control, decode_framed, decode_input, decode_packet, decode_video,
    encode_control, encode_framed, encode_input, encode_video, CodecError, PayloadError,
};
use drawing_tablet::protocol::packets::{
    ControlPacket, DecodedPacket, InputEvent, InputPacket, PacketType, Single, VideoPacket,
    MAX_FRAGMENT_DATA, MAX_PACKET_SIZE, PROTOCOL_VERSION,
};

fn single(value: f32) -> Single {
    Single { bits: value.to_bits() }
}

fn number(value: Single) -> f32 {
    f32::from_bits(value.bits)
}

fn video(data: Vec<u8>) -> VideoPacket {
    VideoPacket {
        sequence: 7,
        timestamp: 1_000_001,
        is_keyframe: false,
        fragment_index: 0,
        fragment_count: 1,
        data,
    }
}

#[test]
fn test_video_packet_roundtrip() {
    let packet = VideoPacket {
        sequence: 42,
        timestamp: 123456,
        is_keyframe: true,
        fragment_index: 2,
        fragment_count: 5,
        data: vec![0x00, 0x00, 0x01, 0x67],
    };

    let encoded = encode_video(&packet).unwrap();
    let decoded = decode_packet(&encoded).unwrap();

    match decoded {
        DecodedPacket::Video(p) => {
            assert_eq!(p.sequence, 42);
            assert_eq!(p.timestamp, 123456);
            assert!(p.is_keyframe);
            assert_eq!(p.fragment_index, 2);
            assert_eq!(p.fragment_count, 5);
            assert_eq!(p.data, vec![0x00, 0x00, 0x01, 0x67]);
        }
        _ => panic!("expected video packet"),
    }
}

#[test]
fn test_input_packet_roundtrip() {
    let packet = InputPacket {
        timestamp: 999,
        event: InputEvent::StylusDown {
            x: single(0.5),
            y: single(0.75),
            pressure: single(0.8),
            tilt_x: single(15.0),
            tilt_y: single(-10.0),
        },
    };

    let encoded = encode_input(&packet).unwrap();
    let decoded = decode_packet(&encoded).unwrap();

    match decoded {
        DecodedPacket::Input(p) => {
            assert_eq!(p.timestamp, 999);
            match p.event {
                InputEvent::StylusDown { x, y, pressure, tilt_x, tilt_y } => {
                    assert!((number(x) - 0.5).abs() < 0.001);
                    assert!((number(y) - 0.75).abs() < 0.001);
                    assert!((number(pressure) - 0.8).abs() < 0.001);
                    assert!((number(tilt_x) - 15.0).abs() < 0.001);
                    assert!((number(tilt_y) - (-10.0)).abs() < 0.001);
                }
                _ => panic!("expected stylus down"),
            }
        }
        _ => panic!("expected input packet"),
    }
}

#[test]
fn test_control_packet_roundtrip() {
    let packet = ControlPacket::ConnectAck {
        width: 1920,
        height: 1080,
    };

    let encoded = encode_control(&packet).unwrap();
    let decoded = decode_packet(&encoded).unwrap();

    match decoded {
        DecodedPacket::Control(ControlPacket::ConnectAck { width, height }) => {
            assert_eq!(width, 1920);
            assert_eq!(height, 1080);
        }
        _ => panic!("expected connect ack"),
    }
}

#[test]
fn constants_of_the_protocol() {
    assert_eq!(PROTOCOL_VERSION, 1);
    assert_eq!(MAX_PACKET_SIZE, 65535);
    assert_eq!(MAX_FRAGMENT_DATA, 1400);
}

#[test]
fn packet_types_have_codes() {
    assert_eq!(PacketType::Video.code(), 0x01);
    assert_eq!(PacketType::Input.code(), 0x02);
    assert_eq!(PacketType::Control.code(), 0x03);
    assert_eq!(PacketType::try_from(0x01), Ok(PacketType::Video));
    assert_eq!(PacketType::try_from(0x02), Ok(PacketType::Input));
    assert_eq!(PacketType::try_from(0x03), Ok(PacketType::Control));
    assert_eq!(PacketType::try_from(0x00), Err(0x00));
    assert_eq!(PacketType::try_from(0xff), Err(0xff));
}

#[test]
fn video_payload_is_that_of_the_serializer() {
    let packet = VideoPacket {
        sequence: 0x01020304,
        timestamp: 0x05060708090a0b0c,
        is_keyframe: true,
        fragment_index: 0x0d0e,
        fragment_count: 0x0f10,
        data: vec![9, 8, 7],
    };
    let payload = bincode::serialize(&(
        packet.sequence,
        packet.timestamp,
        packet.is_keyframe,
        packet.fragment_index,
        packet.fragment_count,
        packet.data.clone(),
    ))
    .unwrap();
    let wire = encode_video(&packet).unwrap();
    assert_eq!(&wire[3..], &payload[..]);
    assert_eq!(wire[0], 0x01);
    assert_eq!(u16::from_le_bytes([wire[1], wire[2]]) as usize, payload.len());
    assert_eq!(decode_video(&payload), Ok(packet));
}

#[test]
fn input_payloads_are_those_of_the_serializer() {
    let five = (0.25f32, 0.5f32, 1.0f32, -3.5f32, 90.0f32);
    let event = |down: bool| {
        let (x, y, pressure, tilt_x, tilt_y) = (
            single(five.0),
            single(five.1),
            single(five.2),
            single(five.3),
            single(five.4),
        );
        if down {
            InputEvent::StylusDown { x, y, pressure, tilt_x, tilt_y }
        } else {
            InputEvent::StylusMove { x, y, pressure, tilt_x, tilt_y }
        }
    };
    let cases: Vec<(InputEvent, Vec<u8>)> = vec![
        (event(false), bincode::serialize(&(77u64, 0u32, five)).unwrap()),
        (event(true), bincode::serialize(&(77u64, 1u32, five)).unwrap()),
        (InputEvent::StylusUp, bincode::serialize(&(77u64, 2u32)).unwrap()),
        (
            InputEvent::StylusButton { button: 1, pressed: true },
            bincode::serialize(&(77u64, 3u32, 1u8, true)).unwrap(),
        ),
        (
            InputEvent::TouchDown { id: 5, x: single(0.1), y: single(0.9) },
            bincode::serialize(&(77u64, 4u32, 5u32, 0.1f32, 0.9f32)).unwrap(),
        ),
        (
            InputEvent::TouchMove { id: 6, x: single(0.2), y: single(0.8) },
            bincode::serialize(&(77u64, 5u32, 6u32, 0.2f32, 0.8f32)).unwrap(),
        ),
        (
            InputEvent::TouchUp { id: u32::MAX },
            bincode::serialize(&(77u64, 6u32, u32::MAX)).unwrap(),
        ),
    ];
    for (event, payload) in cases {
        let packet = InputPacket { timestamp: 77, event };
        let wire = encode_input(&packet).unwrap();
        assert_eq!(wire[0], 0x02);
        assert_eq!(&wire[3..], &payload[..]);
        assert_eq!(decode_input(&payload), Ok(packet));
        assert_eq!(decode_packet(&wire), Ok(DecodedPacket::Input(packet)));
    }
}

#[test]
fn control_payloads_are_those_of_the_serializer() {
    let cases: Vec<(ControlPacket, Vec<u8>)> = vec![
        (
            ControlPacket::Connect { version: 3 },
            bincode::serialize(&(0u32, 3u32)).unwrap(),
        ),
        (
            ControlPacket::ConnectAck { width: 800, height: 600 },
            bincode::serialize(&(1u32, 800u32, 600u32)).unwrap(),
        ),
        (
            ControlPacket::ConnectNack { reason: "nö €".to_string() },
            bincode::serialize(&(2u32, "nö €")).unwrap(),
        ),
        (ControlPacket::Heartbeat, bincode::serialize(&3u32).unwrap()),
        (ControlPacket::RequestKeyframe, bincode::serialize(&4u32).unwrap()),
        (ControlPacket::Disconnect, bincode::serialize(&5u32).unwrap()),
        (
            ControlPacket::SetUdpPort { port: 5000 },
            bincode::serialize(&(6u32, 5000u16)).unwrap(),
        ),
    ];
    for (packet, payload) in cases {
        let wire = encode_control(&packet).unwrap();
        assert_eq!(wire[0], 0x03);
        assert_eq!(&wire[3..], &payload[..]);
        assert_eq!(decode_control(&payload), Ok(packet.clone()));
        assert_eq!(decode_packet(&wire), Ok(DecodedPacket::Control(packet)));
    }
}

#[test]
fn exact_bytes_of_a_small_packet() {
    assert_eq!(
        encode_control(&ControlPacket::Connect { version: 1 }).unwrap(),
        vec![0x03, 8, 0, 0, 0, 0, 0, 1, 0, 0, 0]
    );
    assert_eq!(
        encode_framed(PacketType::Input, &[1, 2, 3]).unwrap(),
        vec![0x02, 3, 0, 1, 2, 3]
    );
}

#[test]
fn frames_at_the_limit() {
    let largest = vec![5u8; 65532];
    let wire = encode_framed(PacketType::Video, &largest).unwrap();
    assert_eq!(wire.len(), 65535);
    assert_eq!(&wire[..3], &[0x01, 0xfc, 0xff]);
    let framed = decode_framed(&wire).unwrap();
    assert_eq!(framed.packet_type, PacketType::Video);
    assert_eq!(framed.payload, largest);
    assert_eq!(
        encode_framed(PacketType::Video, &vec![5u8; 65533]),
        Err(CodecError::PacketTooLarge { size: 65536, max: 65535 })
    );
}

#[test]
fn video_at_the_limit() {
    let largest = video(vec![1u8; 65507]);
    let wire = encode_video(&largest).unwrap();
    assert_eq!(decode_packet(&wire), Ok(DecodedPacket::Video(largest)));
    assert_eq!(
        encode_video(&video(vec![1u8; 65508])),
        Err(CodecError::PacketTooLarge { size: 65536, max: 65535 })
    );
}

#[test]
fn reasons_at_the_limit() {
    let largest = ControlPacket::ConnectNack { reason: "r".repeat(65520) };
    let wire = encode_control(&largest).unwrap();
    assert_eq!(decode_packet(&wire), Ok(DecodedPacket::Control(largest)));
    assert!(encode_control(&ControlPacket::ConnectNack { reason: "r".repeat(65521) }).is_err());
}

#[test]
fn bytes_behind_a_packet_do_not_matter() {
    let mut wire = encode_control(&ControlPacket::Heartbeat).unwrap();
    wire.push(0xaa);
    wire.push(0xbb);
    assert_eq!(decode_packet(&wire), Ok(DecodedPacket::Control(ControlPacket::Heartbeat)));
}

#[test]
fn beginnings_of_a_packet_are_refused() {
    let wire = encode_control(&ControlPacket::Connect { version: 1 }).unwrap();
    for n in 0..3 {
        assert_eq!(decode_packet(&wire[..n]), Err(CodecError::PacketTooSmall));
    }
    for n in 3..wire.len() {
        assert_eq!(
            decode_packet(&wire[..n]),
            Err(CodecError::IncompletePacket { expected: 11, actual: n })
        );
    }
}

#[test]
fn unknown_types_and_variants() {
    assert_eq!(decode_packet(&[0x09, 0, 0]), Err(CodecError::UnknownPacketType(9)));
    assert_eq!(
        decode_packet(&[0x03, 4, 0, 7, 0, 0, 0]),
        Err(CodecError::SerializationError(PayloadError::UnknownVariant { number: 7, count: 7 }))
    );
    let payload = bincode::serialize(&(1u64, 7u32)).unwrap();
    assert_eq!(decode_input(&payload), Err(PayloadError::UnknownVariant { number: 7, count: 7 }));
}

#[test]
fn damaged_payloads() {
    assert_eq!(decode_control(&[0, 0, 0]), Err(PayloadError::Truncated));
    assert_eq!(decode_control(&[0, 0, 0, 0, 1]), Err(PayloadError::Truncated));
    assert_eq!(decode_input(&[0; 11]), Err(PayloadError::Truncated));
    let mut payload = bincode::serialize(&(1u32, 2u64, true, 0u16, 1u16, vec![1u8, 2])).unwrap();
    payload[12] = 2;
    assert_eq!(decode_video(&payload), Err(PayloadError::InvalidBool(2)));
    payload[12] = 0;
    payload.pop();
    assert_eq!(decode_video(&payload), Err(PayloadError::Truncated));
    let button = bincode::serialize(&(1u64, 3u32, 0u8, 5u8)).unwrap();
    assert_eq!(decode_input(&button), Err(PayloadError::InvalidBool(5)));
    let nack = bincode::serialize(&(2u32, vec![0xffu8, 0xfe])).unwrap();
    assert_eq!(decode_control(&nack), Err(PayloadError::InvalidText { at: 0, len: 1 }));
    let cut = bincode::serialize(&(2u32, vec![b'a', 0xe2, 0x82])).unwrap();
    assert_eq!(decode_control(&cut), Err(PayloadError::IncompleteText { at: 1 }));
    assert_eq!(decode_control(&cut[..14]), Err(PayloadError::TruncatedText));
    assert_eq!(decode_control(&cut[..11]), Err(PayloadError::Truncated));
}

fn text_fault(bytes: &[u8]) -> String {
    bincode::deserialize::<String>(bytes).unwrap_err().to_string()
}

#[test]
fn payload_errors_say_what_the_serializer_says() {
    let number = bincode::deserialize::<u32>(&[1, 2]).unwrap_err().to_string();
    assert_eq!(PayloadError::Truncated.message(), number);
    let bytes = bincode::deserialize::<Vec<u8>>(&[2, 0, 0, 0, 0, 0, 0, 0, 1]).unwrap_err();
    assert_eq!(PayloadError::Truncated.message(), bytes.to_string());
    let flag = bincode::deserialize::<bool>(&[200]).unwrap_err().to_string();
    assert_eq!(PayloadError::InvalidBool(200).message(), flag);
    let texts: [&[u8]; 12] = [
        &[0xff],
        &[b'a', 0x80],
        &[0xc3, 0xa9, 0xc3],
        &[0xe2, 0x82],
        &[0xe2, 0x82, b'x'],
        &[0xe0, 0x80, 0x80],
        &[0xed, 0xa0, 0x80],
        &[0xf0, 0x9f, 0x98],
        &[0xf0, 0x9f, 0x98, b'x'],
        &[b'o', b'k', 0xf0],
        &[0xf5, 0x80, 0x80, 0x80],
        &[b'o', b'k', 0xc0, 0xaf],
    ];
    for text in texts {
        let wire = bincode::serialize(text).unwrap();
        let mut payload = vec![2, 0, 0, 0];
        payload.extend_from_slice(&wire);
        assert_eq!(decode_control(&payload).unwrap_err().message(), text_fault(&wire));
    }
    let wire = bincode::serialize("long").unwrap();
    for len in 0..wire.len() {
        let mut payload = vec![2, 0, 0, 0];
        payload.extend_from_slice(&wire[..len]);
        assert_eq!(decode_control(&payload).unwrap_err().message(), text_fault(&wire[..len]));
    }
    assert_eq!(PayloadError::in_text(3, Some(2)), PayloadError::InvalidText { at: 3, len: 2 });
    assert_eq!(PayloadError::in_text(3, None), PayloadError::IncompleteText { at: 3 });
}

#[test]
fn lengths_are_little_endian() {
    assert_eq!(announced_len(&[0x01, 0x34, 0x12]), 0x1234);
    assert_eq!(announced_len(&[0x01, 0xff, 0xff, 9]), 0xffff);
}

#[test]
fn codec_errors_explain_themselves() {
    assert_eq!(
        CodecError::PacketTooLarge { size: 70000, max: 65535 }.message(),
        "packet too large: 70000 bytes (max 65535)"
    );
    assert_eq!(
        CodecError::PacketTooSmall.message(),
        "packet too small: need at least 3 bytes for header"
    );
    assert_eq!(CodecError::UnknownPacketType(9).message(), "unknown packet type: 9");
    assert_eq!(
        CodecError::IncompletePacket { expected: 10, actual: 4 }.message(),
        "incomplete packet: expected 10 bytes, got 4"
    );
    assert_eq!(
        CodecError::SerializationError(PayloadError::InvalidBool(2)).message(),
        "serialization error: invalid u8 while decoding bool, expected 0 or 1, found 2"
    );
    assert_eq!(PayloadError::Truncated.message(), "io error: unexpected end of file");
    assert_eq!(PayloadError::TruncatedText.message(), "io error: ");
    assert_eq!(
        PayloadError::Oversized(7).message(),
        format!("Invalid size 7: sizes must fit in a usize (0 to {})", usize::MAX)
    );
    assert_eq!(
        PayloadError::InvalidText { at: 3, len: 2 }.message(),
        "string is not valid utf8: invalid utf-8 sequence of 2 bytes from index 3"
    );
    assert_eq!(
        PayloadError::IncompleteText { at: 3 }.message(),
        "string is not valid utf8: incomplete utf-8 byte sequence from index 3"
    );
    assert_eq!(
        PayloadError::UnknownVariant { number: 12, count: 7 }.message(),
        "invalid value: integer `12`, expected variant index 0 <= i < 7"
    );
}
