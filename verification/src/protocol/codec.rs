//! Serialization and framing for network packets.

use vstd::prelude::*;

use vstd::slice::slice_subrange;

use crate::protocol::packets::{
    ControlPacket, ControlView, DecodedPacket, DecodedView, FramedPacket, InputEvent, InputPacket,
    PacketType, Single, VideoPacket, VideoView, HEADER_SIZE, MAX_PACKET_SIZE,
};
use crate::protocol::wire::{
    deserialize_bytes, deserialize_text, deserialize_u16, deserialize_u32, deserialize_u64,
    deserialize_u8, is_longest_text, le, le_value, prefixed, serialize_bytes, serialize_u16,
    serialize_u32, serialize_u64, serialize_u8, text_fault_len, unprefixed,
};
use crate::text::{append_decimal, decimal};

verus! {

/// Number of variants of an input event.
pub const INPUT_VARIANTS: u32 = 7;

/// Number of variants of a control packet.
pub const CONTROL_VARIANTS: u32 = 7;

/// Why a payload does not hold the value that it should.
#[derive(Debug, Clone, Copy, PartialEq, Eq, Structural)]
pub enum PayloadError {
    /// The bytes end within a number, or before the last byte of a byte string.
    Truncated,
    /// The bytes end before the text does.
    TruncatedText,
    /// Nothing in memory can be as long as this.
    Oversized(u64),
    /// A truth value is neither 0 nor 1.
    InvalidBool(u8),
    /// A text is UTF-8 up to a sequence of some bytes.
    InvalidText { at: usize, len: usize },
    /// A text is UTF-8 up to a character that it ends in.
    IncompleteText { at: usize },
    /// None of the variants has this number.
    UnknownVariant { number: u32, count: u32 },
}

/// Errors that can occur during packet encoding/decoding.
#[derive(Debug, Clone, Copy, PartialEq, Eq, Structural)]
pub enum CodecError {
    PacketTooLarge { size: usize, max: usize },
    PacketTooSmall,
    UnknownPacketType(u8),
    SerializationError(PayloadError),
    IncompletePacket { expected: usize, actual: usize },
}

impl PayloadError {
    /// What the error says.
    pub open spec fn text(self) -> Seq<char> {
        match self {
            PayloadError::Truncated => "io error: unexpected end of file"@,
            PayloadError::TruncatedText => "io error: "@,
            PayloadError::Oversized(len) => "Invalid size "@ + decimal(len as nat)
                + ": sizes must fit in a usize (0 to "@ + decimal(usize::MAX as nat) + ")"@,
            PayloadError::InvalidBool(found) =>
                "invalid u8 while decoding bool, expected 0 or 1, found "@ + decimal(found as nat),
            PayloadError::InvalidText { at, len } =>
                "string is not valid utf8: invalid utf-8 sequence of "@ + decimal(len as nat)
                + " bytes from index "@ + decimal(at as nat),
            PayloadError::IncompleteText { at } =>
                "string is not valid utf8: incomplete utf-8 byte sequence from index "@ + decimal(
                at as nat,
            ),
            PayloadError::UnknownVariant { number, count } => "invalid value: integer `"@ + decimal(
                number as nat,
            ) + "`, expected variant index 0 <= i < "@ + decimal(count as nat),
        }
    }

    /// What the error says.
    pub fn message(self) -> (text: String)
        ensures
            text@ == self.text(),
    {
        let mut text: String = String::new();
        match self {
            PayloadError::Truncated => text.append("io error: unexpected end of file"),
            PayloadError::TruncatedText => text.append("io error: "),
            PayloadError::Oversized(len) => {
                text.append("Invalid size ");
                append_decimal(&mut text, len);
                text.append(": sizes must fit in a usize (0 to ");
                append_decimal(&mut text, usize::MAX as u64);
                text.append(")");
            },
            PayloadError::InvalidBool(found) => {
                text.append("invalid u8 while decoding bool, expected 0 or 1, found ");
                append_decimal(&mut text, found as u64);
            },
            PayloadError::InvalidText { at, len } => {
                text.append("string is not valid utf8: invalid utf-8 sequence of ");
                append_decimal(&mut text, len as u64);
                text.append(" bytes from index ");
                append_decimal(&mut text, at as u64);
            },
            PayloadError::IncompleteText { at } => {
                text.append("string is not valid utf8: incomplete utf-8 byte sequence from index ");
                append_decimal(&mut text, at as u64);
            },
            PayloadError::UnknownVariant { number, count } => {
                text.append("invalid value: integer `");
                append_decimal(&mut text, number as u64);
                text.append("`, expected variant index 0 <= i < ");
                append_decimal(&mut text, count as u64);
            },
        }
        assert(text@ =~= self.text());
        text
    }

    /// The error of a text that is UTF-8 up to `at`, where a sequence of `len`
    /// bytes follows that is not, or a character that does not end.
    pub open spec fn of_text(at: usize, len: Option<usize>) -> PayloadError {
        match len {
            Some(len) => PayloadError::InvalidText { at, len },
            None => PayloadError::IncompleteText { at },
        }
    }

    /// The error of a text that is UTF-8 up to `at`, where a sequence of `len`
    /// bytes follows that is not, or a character that does not end.
    pub fn in_text(at: usize, len: Option<usize>) -> (error: PayloadError)
        ensures
            error == PayloadError::of_text(at, len),
    {
        match len {
            Some(len) => PayloadError::InvalidText { at, len },
            None => PayloadError::IncompleteText { at },
        }
    }
}

impl CodecError {
    /// What the error says.
    pub open spec fn text(self) -> Seq<char> {
        match self {
            CodecError::PacketTooLarge { size, max } => "packet too large: "@ + decimal(
                size as nat,
            ) + " bytes (max "@ + decimal(max as nat) + ")"@,
            CodecError::PacketTooSmall => "packet too small: need at least 3 bytes for header"@,
            CodecError::UnknownPacketType(code) => "unknown packet type: "@ + decimal(code as nat),
            CodecError::SerializationError(error) => "serialization error: "@ + error.text(),
            CodecError::IncompletePacket { expected, actual } => "incomplete packet: expected "@
                + decimal(expected as nat) + " bytes, got "@ + decimal(actual as nat),
        }
    }

    /// What the error says.
    pub fn message(self) -> (text: String)
        ensures
            text@ == self.text(),
    {
        let mut text: String = String::new();
        match self {
            CodecError::PacketTooLarge { size, max } => {
                text.append("packet too large: ");
                append_decimal(&mut text, size as u64);
                text.append(" bytes (max ");
                append_decimal(&mut text, max as u64);
                text.append(")");
            },
            CodecError::PacketTooSmall => text.append(
                "packet too small: need at least 3 bytes for header",
            ),
            CodecError::UnknownPacketType(code) => {
                text.append("unknown packet type: ");
                append_decimal(&mut text, code as u64);
            },
            CodecError::SerializationError(error) => {
                text.append("serialization error: ");
                text.append(&error.message());
            },
            CodecError::IncompletePacket { expected, actual } => {
                text.append("incomplete packet: expected ");
                append_decimal(&mut text, expected as u64);
                text.append(" bytes, got ");
                append_decimal(&mut text, actual as u64);
            },
        }
        assert(text@ =~= self.text());
        text
    }
}

// ---------------------------------------------------------------------------
// The bytes of each payload
// ---------------------------------------------------------------------------

pub open spec fn bool_byte(b: bool) -> u8 {
    if b {
        1
    } else {
        0
    }
}

/// The payload of a video packet: its fields in order.
pub open spec fn video_payload(packet: VideoView) -> Seq<u8> {
    le(packet.sequence as nat, 4) + le(packet.timestamp as nat, 8) + seq![
        bool_byte(packet.is_keyframe),
    ] + le(packet.fragment_index as nat, 2) + le(packet.fragment_count as nat, 2) + prefixed(
        packet.data,
    )
}

/// Five numbers of single precision, by their bit patterns.
pub open spec fn five_singles(a: Single, b: Single, c: Single, d: Single, e: Single) -> Seq<u8> {
    le(a.bits as nat, 4) + le(b.bits as nat, 4) + le(c.bits as nat, 4) + le(d.bits as nat, 4) + le(
        e.bits as nat,
        4,
    )
}

/// An input event: the number of its variant, then the variant's fields.
pub open spec fn event_bytes(event: InputEvent) -> Seq<u8> {
    match event {
        InputEvent::StylusMove { x, y, pressure, tilt_x, tilt_y } => le(0, 4) + five_singles(
            x,
            y,
            pressure,
            tilt_x,
            tilt_y,
        ),
        InputEvent::StylusDown { x, y, pressure, tilt_x, tilt_y } => le(1, 4) + five_singles(
            x,
            y,
            pressure,
            tilt_x,
            tilt_y,
        ),
        InputEvent::StylusUp => le(2, 4),
        InputEvent::StylusButton { button, pressed } => le(3, 4) + seq![button] + seq![
            bool_byte(pressed),
        ],
        InputEvent::TouchDown { id, x, y } => le(4, 4) + le(id as nat, 4) + le(x.bits as nat, 4)
            + le(y.bits as nat, 4),
        InputEvent::TouchMove { id, x, y } => le(5, 4) + le(id as nat, 4) + le(x.bits as nat, 4)
            + le(y.bits as nat, 4),
        InputEvent::TouchUp { id } => le(6, 4) + le(id as nat, 4),
    }
}

/// The payload of an input packet: its fields in order.
pub open spec fn input_payload(packet: InputPacket) -> Seq<u8> {
    le(packet.timestamp as nat, 8) + event_bytes(packet.event)
}

/// The payload of a control packet: the number of its variant, then the
/// variant's fields.
pub open spec fn control_payload(packet: ControlView) -> Seq<u8> {
    match packet {
        ControlView::Connect { version } => le(0, 4) + le(version as nat, 4),
        ControlView::ConnectAck { width, height } => le(1, 4) + le(width as nat, 4) + le(
            height as nat,
            4,
        ),
        ControlView::ConnectNack { reason } => le(2, 4) + prefixed(vstd::utf8::encode_utf8(reason)),
        ControlView::Heartbeat => le(3, 4),
        ControlView::RequestKeyframe => le(4, 4),
        ControlView::Disconnect => le(5, 4),
        ControlView::SetUdpPort { port } => le(6, 4) + le(port as nat, 2),
    }
}

/// A packet on the wire: [type: u8][length: u16][payload].
pub open spec fn frame(kind: PacketType, payload: Seq<u8>) -> Seq<u8> {
    seq![kind.code()] + le(payload.len(), 2) + payload
}

/// The wire form of a payload, or the refusal of one that does not fit.
pub open spec fn framed(kind: PacketType, payload: Seq<u8>) -> Result<Seq<u8>, CodecError> {
    if payload.len() > MAX_PACKET_SIZE - HEADER_SIZE {
        Err(
            CodecError::PacketTooLarge {
                size: if payload.len() + HEADER_SIZE <= usize::MAX {
                    (payload.len() + HEADER_SIZE) as usize
                } else {
                    usize::MAX
                },
                max: MAX_PACKET_SIZE,
            },
        )
    } else {
        Ok(frame(kind, payload))
    }
}

/// Whether `result` is `expected`, the bytes compared by their contents.
pub open spec fn same_bytes(
    result: Result<Vec<u8>, CodecError>,
    expected: Result<Seq<u8>, CodecError>,
) -> bool {
    match result {
        Ok(bytes) => expected == Ok::<Seq<u8>, CodecError>(bytes@),
        Err(error) => expected == Err::<Seq<u8>, CodecError>(error),
    }
}

// ---------------------------------------------------------------------------
// Reading payloads
// ---------------------------------------------------------------------------

/// The number in the `width` bytes from `at` on.
pub open spec fn number_at(bytes: Seq<u8>, at: int, width: int) -> nat {
    le_value(bytes.subrange(at, at + width))
}

/// The single-precision number in the four bytes from `at` on.
pub open spec fn single_at(bytes: Seq<u8>, at: int) -> Single {
    Single { bits: number_at(bytes, at, 4) as u32 }
}

/// Why there is no byte string at the beginning of the bytes: its length is not
/// there, or nothing can be as long, or the rest is `short` of it.
pub open spec fn length_error(b: Seq<u8>, short: PayloadError) -> PayloadError {
    if b.len() < 8 {
        PayloadError::Truncated
    } else if le_value(b.take(8)) > usize::MAX {
        PayloadError::Oversized(le_value(b.take(8)) as u64)
    } else {
        short
    }
}

/// How many of the bytes, from the first on, are UTF-8.
pub open spec fn text_len(encoded: Seq<u8>) -> usize {
    choose|at: usize| is_longest_text(encoded, at as int)
}

/// The text that the bytes begin with, behind its length.
pub open spec fn parse_text(b: Seq<u8>) -> Result<Seq<char>, PayloadError> {
    match unprefixed(b) {
        None => Err(length_error(b, PayloadError::TruncatedText)),
        Some(encoded) => if vstd::utf8::valid_utf8(encoded) {
            Ok(vstd::utf8::decode_utf8(encoded))
        } else {
            Err(PayloadError::of_text(text_len(encoded), text_fault_len(b)))
        },
    }
}

/// The video packet that a payload begins with.
pub open spec fn parse_video(b: Seq<u8>) -> Result<VideoView, PayloadError> {
    if b.len() < 13 {
        Err(PayloadError::Truncated)
    } else if b[12] > 1 {
        Err(PayloadError::InvalidBool(b[12]))
    } else if b.len() < 17 {
        Err(PayloadError::Truncated)
    } else {
        match unprefixed(b.skip(17)) {
            None => Err(length_error(b.skip(17), PayloadError::Truncated)),
            Some(data) => Ok(
                VideoView {
                    sequence: number_at(b, 0, 4) as u32,
                    timestamp: number_at(b, 4, 8) as u64,
                    is_keyframe: b[12] == 1,
                    fragment_index: number_at(b, 13, 2) as u16,
                    fragment_count: number_at(b, 15, 2) as u16,
                    data,
                },
            ),
        }
    }
}

/// The input packet that a payload begins with.
pub open spec fn parse_input(b: Seq<u8>) -> Result<InputPacket, PayloadError> {
    if b.len() < 12 {
        Err(PayloadError::Truncated)
    } else {
        let timestamp = number_at(b, 0, 8) as u64;
        let variant = number_at(b, 8, 4);
        if variant <= 1 {
            if b.len() < 32 {
                Err(PayloadError::Truncated)
            } else {
                let x = single_at(b, 12);
                let y = single_at(b, 16);
                let pressure = single_at(b, 20);
                let tilt_x = single_at(b, 24);
                let tilt_y = single_at(b, 28);
                Ok(
                    InputPacket {
                        timestamp,
                        event: if variant == 0 {
                            InputEvent::StylusMove { x, y, pressure, tilt_x, tilt_y }
                        } else {
                            InputEvent::StylusDown { x, y, pressure, tilt_x, tilt_y }
                        },
                    },
                )
            }
        } else if variant == 2 {
            Ok(InputPacket { timestamp, event: InputEvent::StylusUp })
        } else if variant == 3 {
            if b.len() < 14 {
                Err(PayloadError::Truncated)
            } else if b[13] > 1 {
                Err(PayloadError::InvalidBool(b[13]))
            } else {
                Ok(
                    InputPacket {
                        timestamp,
                        event: InputEvent::StylusButton { button: b[12], pressed: b[13] == 1 },
                    },
                )
            }
        } else if variant <= 5 {
            if b.len() < 24 {
                Err(PayloadError::Truncated)
            } else {
                let id = number_at(b, 12, 4) as u32;
                let x = single_at(b, 16);
                let y = single_at(b, 20);
                Ok(
                    InputPacket {
                        timestamp,
                        event: if variant == 4 {
                            InputEvent::TouchDown { id, x, y }
                        } else {
                            InputEvent::TouchMove { id, x, y }
                        },
                    },
                )
            }
        } else if variant == 6 {
            if b.len() < 16 {
                Err(PayloadError::Truncated)
            } else {
                Ok(
                    InputPacket {
                        timestamp,
                        event: InputEvent::TouchUp { id: number_at(b, 12, 4) as u32 },
                    },
                )
            }
        } else {
            Err(PayloadError::UnknownVariant { number: variant as u32, count: INPUT_VARIANTS })
        }
    }
}

/// The control packet that a payload begins with.
pub open spec fn parse_control(b: Seq<u8>) -> Result<ControlView, PayloadError> {
    if b.len() < 4 {
        Err(PayloadError::Truncated)
    } else {
        let variant = number_at(b, 0, 4);
        if variant == 0 {
            if b.len() < 8 {
                Err(PayloadError::Truncated)
            } else {
                Ok(ControlView::Connect { version: number_at(b, 4, 4) as u32 })
            }
        } else if variant == 1 {
            if b.len() < 12 {
                Err(PayloadError::Truncated)
            } else {
                Ok(
                    ControlView::ConnectAck {
                        width: number_at(b, 4, 4) as u32,
                        height: number_at(b, 8, 4) as u32,
                    },
                )
            }
        } else if variant == 2 {
            match parse_text(b.skip(4)) {
                Ok(reason) => Ok(ControlView::ConnectNack { reason }),
                Err(error) => Err(error),
            }
        } else if variant == 3 {
            Ok(ControlView::Heartbeat)
        } else if variant == 4 {
            Ok(ControlView::RequestKeyframe)
        } else if variant == 5 {
            Ok(ControlView::Disconnect)
        } else if variant == 6 {
            if b.len() < 6 {
                Err(PayloadError::Truncated)
            } else {
                Ok(ControlView::SetUdpPort { port: number_at(b, 4, 2) as u16 })
            }
        } else {
            Err(PayloadError::UnknownVariant { number: variant as u32, count: CONTROL_VARIANTS })
        }
    }
}

/// The payload length that a header announces.
pub open spec fn announced(data: Seq<u8>) -> nat {
    number_at(data, 1, 2)
}

/// The type and the payload of the framed packet that `data` begin with.
pub open spec fn unframed(data: Seq<u8>) -> Result<(PacketType, Seq<u8>), CodecError> {
    if data.len() < HEADER_SIZE {
        Err(CodecError::PacketTooSmall)
    } else {
        match PacketType::of_code(data[0]) {
            Err(code) => Err(CodecError::UnknownPacketType(code)),
            Ok(kind) => if data.len() < HEADER_SIZE + announced(data) {
                Err(
                    CodecError::IncompletePacket {
                        expected: (HEADER_SIZE + announced(data)) as usize,
                        actual: data.len() as usize,
                    },
                )
            } else {
                Ok((kind, data.subrange(3, 3 + announced(data) as int)))
            },
        }
    }
}

/// The packet that a payload of the given type holds.
pub open spec fn parse_payload(kind: PacketType, payload: Seq<u8>) -> Result<
    DecodedView,
    PayloadError,
> {
    match kind {
        PacketType::Video => match parse_video(payload) {
            Ok(packet) => Ok(DecodedView::Video(packet)),
            Err(error) => Err(error),
        },
        PacketType::Input => match parse_input(payload) {
            Ok(packet) => Ok(DecodedView::Input(packet)),
            Err(error) => Err(error),
        },
        PacketType::Control => match parse_control(payload) {
            Ok(packet) => Ok(DecodedView::Control(packet)),
            Err(error) => Err(error),
        },
    }
}

/// The packet that `data` begin with.
pub open spec fn decoded(data: Seq<u8>) -> Result<DecodedView, CodecError> {
    match unframed(data) {
        Err(error) => Err(error),
        Ok((kind, payload)) => match parse_payload(kind, payload) {
            Ok(packet) => Ok(packet),
            Err(error) => Err(CodecError::SerializationError(error)),
        },
    }
}

// ---------------------------------------------------------------------------
// Writing
// ---------------------------------------------------------------------------

fn put_u8(out: &mut Vec<u8>, value: u8)
    ensures
        final(out)@ == old(out)@ + seq![value],
{
    match serialize_u8(value) {
        Ok(mut bytes) => out.append(&mut bytes),
        Err(_) => {},
    }
}

fn put_bool(out: &mut Vec<u8>, value: bool)
    ensures
        final(out)@ == old(out)@ + seq![bool_byte(value)],
{
    put_u8(out, if value { 1 } else { 0 })
}

fn put_u16(out: &mut Vec<u8>, value: u16)
    ensures
        final(out)@ == old(out)@ + le(value as nat, 2),
{
    match serialize_u16(value) {
        Ok(mut bytes) => out.append(&mut bytes),
        Err(_) => {},
    }
}

fn put_u32(out: &mut Vec<u8>, value: u32)
    ensures
        final(out)@ == old(out)@ + le(value as nat, 4),
{
    match serialize_u32(value) {
        Ok(mut bytes) => out.append(&mut bytes),
        Err(_) => {},
    }
}

fn put_u64(out: &mut Vec<u8>, value: u64)
    ensures
        final(out)@ == old(out)@ + le(value as nat, 8),
{
    match serialize_u64(value) {
        Ok(mut bytes) => out.append(&mut bytes),
        Err(_) => {},
    }
}

fn put_bytes(out: &mut Vec<u8>, value: &[u8])
    ensures
        final(out)@ == old(out)@ + prefixed(value@),
{
    match serialize_bytes(value) {
        Ok(mut bytes) => out.append(&mut bytes),
        Err(_) => {},
    }
}

fn put_stylus(out: &mut Vec<u8>, x: Single, y: Single, pressure: Single, tilt_x: Single, tilt_y: Single)
    ensures
        final(out)@ == old(out)@ + five_singles(x, y, pressure, tilt_x, tilt_y),
{
    put_u32(out, x.bits);
    put_u32(out, y.bits);
    put_u32(out, pressure.bits);
    put_u32(out, tilt_x.bits);
    put_u32(out, tilt_y.bits);
    assert(out@ =~= old(out)@ + five_singles(x, y, pressure, tilt_x, tilt_y));
}

fn put_touch(out: &mut Vec<u8>, id: u32, x: Single, y: Single)
    ensures
        final(out)@ == old(out)@ + (le(id as nat, 4) + le(x.bits as nat, 4) + le(
            y.bits as nat,
            4,
        )),
{
    put_u32(out, id);
    put_u32(out, x.bits);
    put_u32(out, y.bits);
    assert(out@ =~= old(out)@ + (le(id as nat, 4) + le(x.bits as nat, 4) + le(y.bits as nat, 4)));
}

/// Encode a framed packet with header: [type: u8][length: u16][payload].
pub fn encode_framed(packet_type: PacketType, payload: &[u8]) -> (wire: Result<Vec<u8>, CodecError>)
    ensures
        same_bytes(wire, framed(packet_type, payload@)),
{
    if payload.len() > MAX_PACKET_SIZE - HEADER_SIZE {
        return Err(
            CodecError::PacketTooLarge {
                size: payload.len().saturating_add(HEADER_SIZE),
                max: MAX_PACKET_SIZE,
            },
        );
    }
    let len: u16 = payload.len() as u16;
    let mut buf: Vec<u8> = Vec::with_capacity(HEADER_SIZE + payload.len());
    buf.push(packet_type.code());
    put_u16(&mut buf, len);
    buf.extend_from_slice(payload);
    assert(buf@ =~= frame(packet_type, payload@));
    Ok(buf)
}

/// Encode a video packet into a framed packet.
pub fn encode_video(packet: &VideoPacket) -> (wire: Result<Vec<u8>, CodecError>)
    ensures
        same_bytes(wire, framed(PacketType::Video, video_payload(packet@))),
{
    let mut payload: Vec<u8> = Vec::new();
    put_u32(&mut payload, packet.sequence);
    put_u64(&mut payload, packet.timestamp);
    put_bool(&mut payload, packet.is_keyframe);
    put_u16(&mut payload, packet.fragment_index);
    put_u16(&mut payload, packet.fragment_count);
    put_bytes(&mut payload, packet.data.as_slice());
    assert(payload@ =~= video_payload(packet@));
    encode_framed(PacketType::Video, payload.as_slice())
}

/// Encode an input packet into a framed packet.
pub fn encode_input(packet: &InputPacket) -> (wire: Result<Vec<u8>, CodecError>)
    ensures
        same_bytes(wire, framed(PacketType::Input, input_payload(*packet))),
{
    let mut payload: Vec<u8> = Vec::new();
    put_u64(&mut payload, packet.timestamp);
    match packet.event {
        InputEvent::StylusMove { x, y, pressure, tilt_x, tilt_y } => {
            put_u32(&mut payload, 0);
            put_stylus(&mut payload, x, y, pressure, tilt_x, tilt_y);
        },
        InputEvent::StylusDown { x, y, pressure, tilt_x, tilt_y } => {
            put_u32(&mut payload, 1);
            put_stylus(&mut payload, x, y, pressure, tilt_x, tilt_y);
        },
        InputEvent::StylusUp => {
            put_u32(&mut payload, 2);
        },
        InputEvent::StylusButton { button, pressed } => {
            put_u32(&mut payload, 3);
            put_u8(&mut payload, button);
            put_bool(&mut payload, pressed);
        },
        InputEvent::TouchDown { id, x, y } => {
            put_u32(&mut payload, 4);
            put_touch(&mut payload, id, x, y);
        },
        InputEvent::TouchMove { id, x, y } => {
            put_u32(&mut payload, 5);
            put_touch(&mut payload, id, x, y);
        },
        InputEvent::TouchUp { id } => {
            put_u32(&mut payload, 6);
            put_u32(&mut payload, id);
        },
    }
    assert(payload@ =~= input_payload(*packet));
    encode_framed(PacketType::Input, payload.as_slice())
}

/// Encode a control packet into a framed packet.
pub fn encode_control(packet: &ControlPacket) -> (wire: Result<Vec<u8>, CodecError>)
    ensures
        same_bytes(wire, framed(PacketType::Control, control_payload(packet@))),
{
    let mut payload: Vec<u8> = Vec::new();
    match packet {
        ControlPacket::Connect { version } => {
            put_u32(&mut payload, 0);
            put_u32(&mut payload, *version);
        },
        ControlPacket::ConnectAck { width, height } => {
            put_u32(&mut payload, 1);
            put_u32(&mut payload, *width);
            put_u32(&mut payload, *height);
        },
        ControlPacket::ConnectNack { reason } => {
            put_u32(&mut payload, 2);
            put_bytes(&mut payload, reason.as_str().as_bytes());
        },
        ControlPacket::Heartbeat => put_u32(&mut payload, 3),
        ControlPacket::RequestKeyframe => put_u32(&mut payload, 4),
        ControlPacket::Disconnect => put_u32(&mut payload, 5),
        ControlPacket::SetUdpPort { port } => {
            put_u32(&mut payload, 6);
            put_u16(&mut payload, *port);
        },
    }
    assert(payload@ =~= control_payload(packet@));
    encode_framed(PacketType::Control, payload.as_slice())
}

// ---------------------------------------------------------------------------
// Reading
// ---------------------------------------------------------------------------

fn get_u8(data: &[u8], at: usize) -> (value: Result<u8, PayloadError>)
    requires
        at <= data@.len(),
    ensures
        match value {
            Ok(v) => at + 1 <= data@.len() && v == data@[at as int],
            Err(e) => data@.len() < at + 1 && e == PayloadError::Truncated,
        },
{
    match deserialize_u8(slice_subrange(data, at, data.len())) {
        Ok(value) => Ok(value),
        Err(_) => Err(PayloadError::Truncated),
    }
}

fn get_bool(data: &[u8], at: usize) -> (value: Result<bool, PayloadError>)
    requires
        at <= data@.len(),
    ensures
        match value {
            Ok(v) => at + 1 <= data@.len() && data@[at as int] <= 1 && v == (data@[at as int] == 1),
            Err(e) => if data@.len() < at + 1 {
                e == PayloadError::Truncated
            } else {
                data@[at as int] > 1 && e == PayloadError::InvalidBool(data@[at as int])
            },
        },
{
    match get_u8(data, at) {
        Ok(0) => Ok(false),
        Ok(1) => Ok(true),
        Ok(byte) => Err(PayloadError::InvalidBool(byte)),
        Err(error) => Err(error),
    }
}

fn get_u16(data: &[u8], at: usize) -> (value: Result<u16, PayloadError>)
    requires
        at <= data@.len(),
    ensures
        match value {
            Ok(v) => at + 2 <= data@.len() && v as nat == number_at(data@, at as int, 2),
            Err(e) => data@.len() < at + 2 && e == PayloadError::Truncated,
        },
{
    let rest: &[u8] = slice_subrange(data, at, data.len());
    match deserialize_u16(rest) {
        Ok(value) => {
            assert(rest@.take(2) =~= data@.subrange(at as int, at + 2));
            Ok(value)
        },
        Err(_) => Err(PayloadError::Truncated),
    }
}

fn get_u32(data: &[u8], at: usize) -> (value: Result<u32, PayloadError>)
    requires
        at <= data@.len(),
    ensures
        match value {
            Ok(v) => at + 4 <= data@.len() && v as nat == number_at(data@, at as int, 4),
            Err(e) => data@.len() < at + 4 && e == PayloadError::Truncated,
        },
{
    let rest: &[u8] = slice_subrange(data, at, data.len());
    match deserialize_u32(rest) {
        Ok(value) => {
            assert(rest@.take(4) =~= data@.subrange(at as int, at + 4));
            Ok(value)
        },
        Err(_) => Err(PayloadError::Truncated),
    }
}

fn get_u64(data: &[u8], at: usize) -> (value: Result<u64, PayloadError>)
    requires
        at <= data@.len(),
    ensures
        match value {
            Ok(v) => at + 8 <= data@.len() && v as nat == number_at(data@, at as int, 8),
            Err(e) => data@.len() < at + 8 && e == PayloadError::Truncated,
        },
{
    let rest: &[u8] = slice_subrange(data, at, data.len());
    match deserialize_u64(rest) {
        Ok(value) => {
            assert(rest@.take(8) =~= data@.subrange(at as int, at + 8));
            Ok(value)
        },
        Err(_) => Err(PayloadError::Truncated),
    }
}

fn get_bytes(data: &[u8], at: usize) -> (value: Result<Vec<u8>, PayloadError>)
    requires
        at <= data@.len(),
    ensures
        match value {
            Ok(v) => unprefixed(data@.skip(at as int)) == Some(v@),
            Err(e) => unprefixed(data@.skip(at as int)) is None && e == length_error(
                data@.skip(at as int),
                PayloadError::Truncated,
            ),
        },
{
    let rest: &[u8] = slice_subrange(data, at, data.len());
    assert(rest@ =~= data@.skip(at as int));
    match deserialize_bytes(rest) {
        Ok(value) => Ok(value),
        Err(_) => Err(missing(rest, PayloadError::Truncated)),
    }
}

fn get_text(data: &[u8], at: usize) -> (value: Result<String, PayloadError>)
    requires
        at <= data@.len(),
    ensures
        match value {
            Ok(v) => parse_text(data@.skip(at as int)) == Ok::<Seq<char>, PayloadError>(v@),
            Err(e) => parse_text(data@.skip(at as int)) == Err::<Seq<char>, PayloadError>(e),
        },
{
    let rest: &[u8] = slice_subrange(data, at, data.len());
    assert(rest@ =~= data@.skip(at as int));
    match deserialize_text(rest) {
        Ok(value) => Ok(value),
        Err(None) => Err(missing(rest, PayloadError::TruncatedText)),
        Err(Some((up_to, len))) => {
            proof {
                lemma_text_len(unprefixed(rest@)->Some_0, up_to);
            }
            Err(PayloadError::in_text(up_to, len))
        },
    }
}

/// Why there is no byte string at the beginning of the bytes.
fn missing(rest: &[u8], short: PayloadError) -> (error: PayloadError)
    ensures
        error == length_error(rest@, short),
{
    match deserialize_u64(rest) {
        Ok(len) => if len > usize::MAX as u64 {
            PayloadError::Oversized(len)
        } else {
            short
        },
        Err(_) => PayloadError::Truncated,
    }
}

proof fn lemma_text_len(encoded: Seq<u8>, at: usize)
    requires
        is_longest_text(encoded, at as int),
    ensures
        text_len(encoded) == at,
{
    let found = text_len(encoded);
    assert(is_longest_text(encoded, found as int));
    if found < at {
        assert(vstd::utf8::valid_utf8(encoded.take(at as int)));
    }
    if at < found {
        assert(vstd::utf8::valid_utf8(encoded.take(found as int)));
    }
}

/// Reads a video packet from the front of a payload.
pub fn decode_video(data: &[u8]) -> (packet: Result<VideoPacket, PayloadError>)
    ensures
        match packet {
            Ok(p) => parse_video(data@) == Ok::<VideoView, PayloadError>(p@),
            Err(e) => parse_video(data@) == Err::<VideoView, PayloadError>(e),
        },
{
    let sequence: u32 = get_u32(data, 0)?;
    let timestamp: u64 = get_u64(data, 4)?;
    let is_keyframe: bool = get_bool(data, 12)?;
    let fragment_index: u16 = get_u16(data, 13)?;
    let fragment_count: u16 = get_u16(data, 15)?;
    let bytes: Vec<u8> = get_bytes(data, 17)?;
    Ok(
        VideoPacket {
            sequence,
            timestamp,
            is_keyframe,
            fragment_index,
            fragment_count,
            data: bytes,
        },
    )
}

/// Reads an input packet from the front of a payload.
pub fn decode_input(data: &[u8]) -> (packet: Result<InputPacket, PayloadError>)
    ensures
        packet == parse_input(data@),
{
    let timestamp: u64 = get_u64(data, 0)?;
    let variant: u32 = get_u32(data, 8)?;
    let event: InputEvent = match variant {
        0 | 1 => {
            let x: Single = Single { bits: get_u32(data, 12)? };
            let y: Single = Single { bits: get_u32(data, 16)? };
            let pressure: Single = Single { bits: get_u32(data, 20)? };
            let tilt_x: Single = Single { bits: get_u32(data, 24)? };
            let tilt_y: Single = Single { bits: get_u32(data, 28)? };
            if variant == 0 {
                InputEvent::StylusMove { x, y, pressure, tilt_x, tilt_y }
            } else {
                InputEvent::StylusDown { x, y, pressure, tilt_x, tilt_y }
            }
        },
        2 => InputEvent::StylusUp,
        3 => {
            let button: u8 = get_u8(data, 12)?;
            let pressed: bool = get_bool(data, 13)?;
            InputEvent::StylusButton { button, pressed }
        },
        4 | 5 => {
            let id: u32 = get_u32(data, 12)?;
            let x: Single = Single { bits: get_u32(data, 16)? };
            let y: Single = Single { bits: get_u32(data, 20)? };
            if variant == 4 {
                InputEvent::TouchDown { id, x, y }
            } else {
                InputEvent::TouchMove { id, x, y }
            }
        },
        6 => InputEvent::TouchUp { id: get_u32(data, 12)? },
        _ => return Err(PayloadError::UnknownVariant { number: variant, count: INPUT_VARIANTS }),
    };
    Ok(InputPacket { timestamp, event })
}

/// Reads a control packet from the front of a payload.
pub fn decode_control(data: &[u8]) -> (packet: Result<ControlPacket, PayloadError>)
    ensures
        match packet {
            Ok(p) => parse_control(data@) == Ok::<ControlView, PayloadError>(p@),
            Err(e) => parse_control(data@) == Err::<ControlView, PayloadError>(e),
        },
{
    let variant: u32 = get_u32(data, 0)?;
    match variant {
        0 => Ok(ControlPacket::Connect { version: get_u32(data, 4)? }),
        1 => {
            let width: u32 = get_u32(data, 4)?;
            let height: u32 = get_u32(data, 8)?;
            Ok(ControlPacket::ConnectAck { width, height })
        },
        2 => Ok(ControlPacket::ConnectNack { reason: get_text(data, 4)? }),
        3 => Ok(ControlPacket::Heartbeat),
        4 => Ok(ControlPacket::RequestKeyframe),
        5 => Ok(ControlPacket::Disconnect),
        6 => Ok(ControlPacket::SetUdpPort { port: get_u16(data, 4)? }),
        _ => Err(PayloadError::UnknownVariant { number: variant, count: CONTROL_VARIANTS }),
    }
}

/// The payload length that a packet header announces.
pub fn announced_len(header: &[u8]) -> (len: usize)
    requires
        header@.len() >= HEADER_SIZE,
    ensures
        len as nat == announced(header@),
        len <= 0xffff,
{
    match get_u16(header, 1) {
        Ok(len) => len as usize,
        Err(_) => 0,
    }
}

/// Reads the header of a framed packet and takes out the payload.
pub fn decode_framed(data: &[u8]) -> (packet: Result<FramedPacket, CodecError>)
    ensures
        match packet {
            Ok(p) => unframed(data@) == Ok::<(PacketType, Seq<u8>), CodecError>(
                (p.packet_type, p.payload@),
            ),
            Err(e) => unframed(data@) == Err::<(PacketType, Seq<u8>), CodecError>(e),
        },
{
    if data.len() < HEADER_SIZE {
        return Err(CodecError::PacketTooSmall);
    }
    let packet_type: PacketType = match PacketType::try_from(data[0]) {
        Ok(packet_type) => packet_type,
        Err(code) => return Err(CodecError::UnknownPacketType(code)),
    };
    let len: usize = announced_len(data);
    if data.len() < HEADER_SIZE + len {
        return Err(
            CodecError::IncompletePacket { expected: HEADER_SIZE + len, actual: data.len() },
        );
    }
    let payload: &[u8] = slice_subrange(data, HEADER_SIZE, HEADER_SIZE + len);
    Ok(FramedPacket { packet_type, payload: vstd::slice::slice_to_vec(payload) })
}

/// Decode a framed packet from raw bytes.
pub fn decode_packet(data: &[u8]) -> (packet: Result<DecodedPacket, CodecError>)
    ensures
        match packet {
            Ok(p) => decoded(data@) == Ok::<DecodedView, CodecError>(p@),
            Err(e) => decoded(data@) == Err::<DecodedView, CodecError>(e),
        },
{
    let framed: FramedPacket = decode_framed(data)?;
    let payload: &[u8] = framed.payload.as_slice();
    match framed.packet_type {
        PacketType::Video => match decode_video(payload) {
            Ok(packet) => Ok(DecodedPacket::Video(packet)),
            Err(error) => Err(CodecError::SerializationError(error)),
        },
        PacketType::Input => match decode_input(payload) {
            Ok(packet) => Ok(DecodedPacket::Input(packet)),
            Err(error) => Err(CodecError::SerializationError(error)),
        },
        PacketType::Control => match decode_control(payload) {
            Ok(packet) => Ok(DecodedPacket::Control(packet)),
            Err(error) => Err(CodecError::SerializationError(error)),
        },
    }
}

} // verus!
