//! Where everything stands on the wire, and which bytes are packets.

use vstd::prelude::*;

use crate::protocol::codec::{
    announced, control_payload, decoded, frame, framed, input_payload, number_at, parse_control,
    parse_input, parse_text, parse_video, text_len, unframed, video_payload, CodecError,
    PayloadError,
};
use crate::protocol::packets::{
    ControlView, DecodedView, InputEvent, InputPacket, PacketType, Single, VideoView,
};
use crate::protocol::wire::{
    capacity, is_longest_text, le, le_round_trip, le_value, le_value_round_trip, lemma_capacities,
    prefixed, text_fault_len, unprefixed,
};
use crate::text::decimal;

verus! {

/// The number that the bytes from `from` to `to` denote.
pub open spec fn number(bytes: Seq<u8>, from: int, to: int) -> nat {
    le_value(bytes.subrange(from, to))
}

/// A number has its least significant byte first: every byte counts 256 times as
/// much as the one before it.
pub proof fn bytes_count_by_place(bytes: Seq<u8>, first: u8)
    ensures
        le_value(Seq::<u8>::empty()) == 0,
        le_value(seq![first] + bytes) == first + 256 * le_value(bytes),
{
    assert((seq![first] + bytes).drop_first() =~= bytes);
}

// ---------------------------------------------------------------------------
// Where the fields of a packet stand
// ---------------------------------------------------------------------------

/// A video packet has its number in four bytes, its time in eight, whether it is
/// a keyframe in one, the index and the count of its fragments in two each, the
/// length of its data in eight, and then its data.
pub proof fn video_fields_stand_in_order(packet: VideoView)
    requires
        packet.data.len() <= u64::MAX,
    ensures
        ({
            let b = video_payload(packet);
            &&& b.len() == 25 + packet.data.len()
            &&& number(b, 0, 4) == packet.sequence
            &&& number(b, 4, 12) == packet.timestamp
            &&& b[12] == if packet.is_keyframe {
                1u8
            } else {
                0u8
            }
            &&& number(b, 13, 15) == packet.fragment_index
            &&& number(b, 15, 17) == packet.fragment_count
            &&& number(b, 17, 25) == packet.data.len()
            &&& b.skip(25) == packet.data
        }),
{
    let b = video_payload(packet);
    lemma_capacities();
    le_round_trip(packet.sequence as nat, 4);
    le_round_trip(packet.timestamp as nat, 8);
    le_round_trip(packet.fragment_index as nat, 2);
    le_round_trip(packet.fragment_count as nat, 2);
    le_round_trip(packet.data.len(), 8);
    assert(b.subrange(0, 4) =~= le(packet.sequence as nat, 4));
    assert(b.subrange(4, 12) =~= le(packet.timestamp as nat, 8));
    assert(b.subrange(13, 15) =~= le(packet.fragment_index as nat, 2));
    assert(b.subrange(15, 17) =~= le(packet.fragment_count as nat, 2));
    assert(b.subrange(17, 25) =~= le(packet.data.len(), 8));
    assert(b.skip(25) =~= packet.data);
}

/// Where the five numbers of a stylus stand.
pub open spec fn has_stylus(
    b: Seq<u8>,
    x: Single,
    y: Single,
    pressure: Single,
    tilt_x: Single,
    tilt_y: Single,
) -> bool {
    &&& b.len() == 32
    &&& number(b, 12, 16) == x.bits
    &&& number(b, 16, 20) == y.bits
    &&& number(b, 20, 24) == pressure.bits
    &&& number(b, 24, 28) == tilt_x.bits
    &&& number(b, 28, 32) == tilt_y.bits
}

/// Where the finger of a touch and its place stand.
pub open spec fn has_finger(b: Seq<u8>, id: u32, x: Single, y: Single) -> bool {
    &&& b.len() == 24
    &&& number(b, 12, 16) == id
    &&& number(b, 16, 20) == x.bits
    &&& number(b, 20, 24) == y.bits
}

/// An input packet has its time in eight bytes, what has happened in four, and
/// then what belongs to it: four bytes for every number, one for a button and one
/// for whether it is pressed.
pub proof fn input_fields_stand_in_order(packet: InputPacket)
    ensures
        ({
            let b = input_payload(packet);
            &&& number(b, 0, 8) == packet.timestamp
            &&& match packet.event {
                InputEvent::StylusMove { x, y, pressure, tilt_x, tilt_y } => number(b, 8, 12) == 0
                    && has_stylus(b, x, y, pressure, tilt_x, tilt_y),
                InputEvent::StylusDown { x, y, pressure, tilt_x, tilt_y } => number(b, 8, 12) == 1
                    && has_stylus(b, x, y, pressure, tilt_x, tilt_y),
                InputEvent::StylusUp => number(b, 8, 12) == 2 && b.len() == 12,
                InputEvent::StylusButton { button, pressed } => number(b, 8, 12) == 3 && b.len()
                    == 14 && b[12] == button && b[13] == if pressed {
                    1u8
                } else {
                    0u8
                },
                InputEvent::TouchDown { id, x, y } => number(b, 8, 12) == 4 && has_finger(
                    b,
                    id,
                    x,
                    y,
                ),
                InputEvent::TouchMove { id, x, y } => number(b, 8, 12) == 5 && has_finger(
                    b,
                    id,
                    x,
                    y,
                ),
                InputEvent::TouchUp { id } => number(b, 8, 12) == 6 && b.len() == 16 && number(
                    b,
                    12,
                    16,
                ) == id,
            }
        }),
{
    let b = input_payload(packet);
    lemma_capacities();
    le_round_trip(packet.timestamp as nat, 8);
    assert forall|n: nat| #![trigger le(n, 4)] le(n, 4).len() == 4 && (n < 0x1_0000_0000
        ==> le_value(le(n, 4)) == n) by {
        le_round_trip(n, 4);
    }
    assert(b.subrange(0, 8) =~= le(packet.timestamp as nat, 8));
    match packet.event {
        InputEvent::StylusMove { x, y, pressure, tilt_x, tilt_y } => {
            assert(b.subrange(8, 12) =~= le(0, 4));
            assert(b.subrange(12, 16) =~= le(x.bits as nat, 4));
            assert(b.subrange(16, 20) =~= le(y.bits as nat, 4));
            assert(b.subrange(20, 24) =~= le(pressure.bits as nat, 4));
            assert(b.subrange(24, 28) =~= le(tilt_x.bits as nat, 4));
            assert(b.subrange(28, 32) =~= le(tilt_y.bits as nat, 4));
        },
        InputEvent::StylusDown { x, y, pressure, tilt_x, tilt_y } => {
            assert(b.subrange(8, 12) =~= le(1, 4));
            assert(b.subrange(12, 16) =~= le(x.bits as nat, 4));
            assert(b.subrange(16, 20) =~= le(y.bits as nat, 4));
            assert(b.subrange(20, 24) =~= le(pressure.bits as nat, 4));
            assert(b.subrange(24, 28) =~= le(tilt_x.bits as nat, 4));
            assert(b.subrange(28, 32) =~= le(tilt_y.bits as nat, 4));
        },
        InputEvent::StylusUp => {
            assert(b.subrange(8, 12) =~= le(2, 4));
        },
        InputEvent::StylusButton { button, pressed } => {
            assert(b.subrange(8, 12) =~= le(3, 4));
        },
        InputEvent::TouchDown { id, x, y } => {
            assert(b.subrange(8, 12) =~= le(4, 4));
            assert(b.subrange(12, 16) =~= le(id as nat, 4));
            assert(b.subrange(16, 20) =~= le(x.bits as nat, 4));
            assert(b.subrange(20, 24) =~= le(y.bits as nat, 4));
        },
        InputEvent::TouchMove { id, x, y } => {
            assert(b.subrange(8, 12) =~= le(5, 4));
            assert(b.subrange(12, 16) =~= le(id as nat, 4));
            assert(b.subrange(16, 20) =~= le(x.bits as nat, 4));
            assert(b.subrange(20, 24) =~= le(y.bits as nat, 4));
        },
        InputEvent::TouchUp { id } => {
            assert(b.subrange(8, 12) =~= le(6, 4));
            assert(b.subrange(12, 16) =~= le(id as nat, 4));
        },
    }
}

/// A control packet has what it is about in four bytes, and then what belongs to
/// it: four bytes for a version or a length, two for a port, and a reason as its
/// UTF-8 bytes behind their number in eight.
pub proof fn control_fields_stand_in_order(packet: ControlView)
    requires
        packet matches ControlView::ConnectNack { reason } ==> vstd::utf8::encode_utf8(reason).len()
            <= u64::MAX,
    ensures
        ({
            let b = control_payload(packet);
            match packet {
                ControlView::Connect { version } => number(b, 0, 4) == 0 && b.len() == 8 && number(
                    b,
                    4,
                    8,
                ) == version,
                ControlView::ConnectAck { width, height } => number(b, 0, 4) == 1 && b.len() == 12
                    && number(b, 4, 8) == width && number(b, 8, 12) == height,
                ControlView::ConnectNack { reason } => number(b, 0, 4) == 2 && number(b, 4, 12)
                    == vstd::utf8::encode_utf8(reason).len() && b.skip(12)
                    == vstd::utf8::encode_utf8(reason),
                ControlView::Heartbeat => number(b, 0, 4) == 3 && b.len() == 4,
                ControlView::RequestKeyframe => number(b, 0, 4) == 4 && b.len() == 4,
                ControlView::Disconnect => number(b, 0, 4) == 5 && b.len() == 4,
                ControlView::SetUdpPort { port } => number(b, 0, 4) == 6 && b.len() == 6 && number(
                    b,
                    4,
                    6,
                ) == port,
            }
        }),
{
    let b = control_payload(packet);
    lemma_capacities();
    assert forall|n: nat| #![trigger le(n, 4)] le(n, 4).len() == 4 && (n < 0x1_0000_0000
        ==> le_value(le(n, 4)) == n) by {
        le_round_trip(n, 4);
    }
    match packet {
        ControlView::Connect { version } => {
            assert(b.subrange(0, 4) =~= le(0, 4));
            assert(b.subrange(4, 8) =~= le(version as nat, 4));
        },
        ControlView::ConnectAck { width, height } => {
            assert(b.subrange(0, 4) =~= le(1, 4));
            assert(b.subrange(4, 8) =~= le(width as nat, 4));
            assert(b.subrange(8, 12) =~= le(height as nat, 4));
        },
        ControlView::ConnectNack { reason } => {
            let text = vstd::utf8::encode_utf8(reason);
            le_round_trip(text.len(), 8);
            assert(b.subrange(0, 4) =~= le(2, 4));
            assert(b.subrange(4, 12) =~= le(text.len(), 8));
            assert(b.skip(12) =~= text);
        },
        ControlView::Heartbeat => {
            assert(b.subrange(0, 4) =~= le(3, 4));
        },
        ControlView::RequestKeyframe => {
            assert(b.subrange(0, 4) =~= le(4, 4));
        },
        ControlView::Disconnect => {
            assert(b.subrange(0, 4) =~= le(5, 4));
        },
        ControlView::SetUdpPort { port } => {
            le_round_trip(port as nat, 2);
            assert(b.subrange(0, 4) =~= le(6, 4));
            assert(b.subrange(4, 6) =~= le(port as nat, 2));
        },
    }
}

/// A packet has its type in one byte, 1 for video, 2 for input and 3 for control,
/// the length of its payload in two, and then its payload. A payload that two
/// bytes cannot count together with its header is refused.
pub proof fn header_stands_in_front(kind: PacketType, payload: Seq<u8>)
    ensures
        ({
            let wire = frame(kind, payload);
            &&& wire.len() == 3 + payload.len()
            &&& kind == PacketType::Video ==> wire[0] == 1
            &&& kind == PacketType::Input ==> wire[0] == 2
            &&& kind == PacketType::Control ==> wire[0] == 3
            &&& payload.len() <= 65535 ==> number(wire, 1, 3) == payload.len()
            &&& wire.skip(3) == payload
            &&& payload.len() <= 65532 ==> framed(kind, payload) == Ok::<Seq<u8>, CodecError>(wire)
            &&& payload.len() > 65532 && payload.len() + 3 <= usize::MAX ==> framed(kind, payload)
                == Err::<Seq<u8>, CodecError>(
                CodecError::PacketTooLarge { size: (payload.len() + 3) as usize, max: 65535 },
            )
        }),
{
    let wire = frame(kind, payload);
    lemma_capacities();
    le_round_trip(payload.len(), 2);
    assert(wire.subrange(1, 3) =~= le(payload.len(), 2));
    assert(wire.skip(3) =~= payload);
}

// ---------------------------------------------------------------------------
// Only encodings are decoded
// ---------------------------------------------------------------------------

proof fn lemma_read(b: Seq<u8>, at: int, width: int)
    requires
        0 <= at,
        0 <= width,
        at + width <= b.len(),
    ensures
        le(number_at(b, at, width), width as nat) == b.subrange(at, at + width),
        number_at(b, at, width) < capacity(width as nat),
{
    le_value_round_trip(b.subrange(at, at + width));
}

proof fn lemma_read_bytes(b: Seq<u8>)
    requires
        unprefixed(b) is Some,
    ensures
        ({
            let data = unprefixed(b)->Some_0;
            &&& 8 + data.len() <= b.len()
            &&& prefixed(data) == b.take((8 + data.len()) as int)
        }),
{
    let data = unprefixed(b)->Some_0;
    le_value_round_trip(b.take(8));
    assert(prefixed(data) =~= b.take((8 + data.len()) as int));
}

/// A payload that is decoded as a video packet begins with the encoding of that
/// packet: there is no other way to write it.
pub proof fn only_video_is_decoded(b: Seq<u8>)
    requires
        parse_video(b) is Ok,
    ensures
        ({
            let wire = video_payload(parse_video(b)->Ok_0);
            wire.len() <= b.len() && b.take(wire.len() as int) == wire
        }),
{
    let packet = parse_video(b)->Ok_0;
    lemma_capacities();
    lemma_read(b, 0, 4);
    lemma_read(b, 4, 8);
    lemma_read(b, 13, 2);
    lemma_read(b, 15, 2);
    lemma_read_bytes(b.skip(17));
    let rest = prefixed(packet.data);
    assert(rest =~= b.subrange(17, 17 + rest.len() as int));
    assert(b.take(17 + rest.len() as int) =~= video_payload(packet));
}

/// A payload that is decoded as an input packet begins with the encoding of that
/// packet.
pub proof fn only_input_is_decoded(b: Seq<u8>)
    requires
        parse_input(b) is Ok,
    ensures
        ({
            let wire = input_payload(parse_input(b)->Ok_0);
            wire.len() <= b.len() && b.take(wire.len() as int) == wire
        }),
{
    let packet = parse_input(b)->Ok_0;
    lemma_capacities();
    lemma_read(b, 0, 8);
    lemma_read(b, 8, 4);
    match packet.event {
        InputEvent::StylusMove { .. } | InputEvent::StylusDown { .. } => {
            lemma_read(b, 12, 4);
            lemma_read(b, 16, 4);
            lemma_read(b, 20, 4);
            lemma_read(b, 24, 4);
            lemma_read(b, 28, 4);
            assert(b.take(32) =~= input_payload(packet));
        },
        InputEvent::StylusUp => {
            assert(b.take(12) =~= input_payload(packet));
        },
        InputEvent::StylusButton { .. } => {
            assert(b.take(14) =~= input_payload(packet));
        },
        InputEvent::TouchDown { .. } | InputEvent::TouchMove { .. } => {
            lemma_read(b, 12, 4);
            lemma_read(b, 16, 4);
            lemma_read(b, 20, 4);
            assert(b.take(24) =~= input_payload(packet));
        },
        InputEvent::TouchUp { .. } => {
            lemma_read(b, 12, 4);
            assert(b.take(16) =~= input_payload(packet));
        },
    }
}

/// A payload that is decoded as a control packet begins with the encoding of that
/// packet.
pub proof fn only_control_is_decoded(b: Seq<u8>)
    requires
        parse_control(b) is Ok,
    ensures
        ({
            let wire = control_payload(parse_control(b)->Ok_0);
            wire.len() <= b.len() && b.take(wire.len() as int) == wire
        }),
{
    let packet = parse_control(b)->Ok_0;
    lemma_capacities();
    lemma_read(b, 0, 4);
    match packet {
        ControlView::Connect { .. } => {
            lemma_read(b, 4, 4);
            assert(b.take(8) =~= control_payload(packet));
        },
        ControlView::ConnectAck { .. } => {
            lemma_read(b, 4, 4);
            lemma_read(b, 8, 4);
            assert(b.take(12) =~= control_payload(packet));
        },
        ControlView::ConnectNack { reason } => {
            assert(parse_text(b.skip(4)) == Ok::<Seq<char>, PayloadError>(reason));
            let text = unprefixed(b.skip(4))->Some_0;
            lemma_read_bytes(b.skip(4));
            vstd::utf8::decode_utf8_encode_utf8(text);
            let rest = prefixed(text);
            assert(rest =~= b.subrange(4, 4 + rest.len() as int));
            assert(b.take(4 + rest.len() as int) =~= control_payload(packet));
        },
        ControlView::SetUdpPort { .. } => {
            lemma_read(b, 4, 2);
            assert(b.take(6) =~= control_payload(packet));
        },
        _ => {
            assert(b.take(4) =~= control_payload(packet));
        },
    }
}

/// Bytes that are decoded begin with a header and as many bytes as it announces,
/// and these begin with the encoding of the packet, which is of the type that the
/// header says.
pub proof fn only_packets_are_decoded(data: Seq<u8>)
    requires
        decoded(data) is Ok,
    ensures
        ({
            let payload = data.subrange(3, 3 + number(data, 1, 3) as int);
            &&& data.len() >= 3 + number(data, 1, 3)
            &&& match decoded(data)->Ok_0 {
                DecodedView::Video(packet) => data[0] == 1 && payload.len() >= video_payload(
                    packet,
                ).len() && payload.take(video_payload(packet).len() as int) == video_payload(packet),
                DecodedView::Input(packet) => data[0] == 2 && payload.len() >= input_payload(
                    packet,
                ).len() && payload.take(input_payload(packet).len() as int) == input_payload(packet),
                DecodedView::Control(packet) => data[0] == 3 && payload.len() >= control_payload(
                    packet,
                ).len() && payload.take(control_payload(packet).len() as int) == control_payload(
                    packet,
                ),
            }
        }),
{
    let payload = unframed(data)->Ok_0.1;
    match decoded(data)->Ok_0 {
        DecodedView::Video(_) => only_video_is_decoded(payload),
        DecodedView::Input(_) => only_input_is_decoded(payload),
        DecodedView::Control(_) => only_control_is_decoded(payload),
    }
}

// ---------------------------------------------------------------------------
// Why bytes are refused
// ---------------------------------------------------------------------------

/// Fewer than three bytes are too few for a header; a type other than 1, 2 and 3
/// is unknown; and fewer bytes than the header announces are incomplete. Anything
/// else is handed on, and refused only for what the payload holds.
pub proof fn headers_are_checked_first(data: Seq<u8>)
    requires
        data.len() <= usize::MAX,
    ensures
        ({
            let whole = 3 + data[1] + 256 * data[2];
            &&& data.len() >= 3 ==> 3 + announced(data) == whole
            &&& data.len() < 3 ==> decoded(data) == Err::<DecodedView, CodecError>(
                CodecError::PacketTooSmall,
            )
            &&& data.len() >= 3 && data[0] != 1 && data[0] != 2 && data[0] != 3 ==> decoded(data)
                == Err::<DecodedView, CodecError>(CodecError::UnknownPacketType(data[0]))
            &&& data.len() >= 3 && 1 <= data[0] <= 3 && data.len() < whole ==> decoded(data)
                == Err::<DecodedView, CodecError>(
                CodecError::IncompletePacket {
                    expected: whole as usize,
                    actual: data.len() as usize,
                },
            )
            &&& data.len() >= 3 && 1 <= data[0] <= 3 && data.len() >= whole ==> decoded(data) is Ok
                || (decoded(data) is Err && decoded(data)->Err_0 is SerializationError)
        }),
{
    if data.len() >= 3 {
        let two = data.subrange(1, 3);
        assert(two =~= seq![data[1]] + seq![data[2]]);
        bytes_count_by_place(seq![data[2]], data[1]);
        assert(seq![data[2]] =~= seq![data[2]] + Seq::<u8>::empty());
        bytes_count_by_place(Seq::empty(), data[2]);
    }
}

/// A video payload is refused if it ends before its data does, and if the byte
/// that says whether it is a keyframe is neither 0 nor 1. It is taken otherwise.
pub proof fn video_is_refused_for_cause(b: Seq<u8>)
    requires
        b.len() <= usize::MAX,
    ensures
        ({
            let cut = b.len() < 13 || (b[12] <= 1 && b.len() < 25);
            let odd = b.len() >= 13 && b[12] > 1;
            let len = number(b, 17, 25);
            &&& cut ==> parse_video(b) == Err::<VideoView, PayloadError>(PayloadError::Truncated)
            &&& odd ==> parse_video(b) == Err::<VideoView, PayloadError>(
                PayloadError::InvalidBool(b[12]),
            )
            &&& !cut && !odd && len + 25 <= b.len() ==> parse_video(b) is Ok
            &&& !cut && !odd && len + 25 > b.len() && len <= usize::MAX ==> parse_video(b) == Err::<
                VideoView,
                PayloadError,
            >(PayloadError::Truncated)
            &&& !cut && !odd && len > usize::MAX ==> parse_video(b) == Err::<
                VideoView,
                PayloadError,
            >(PayloadError::Oversized(len as u64))
        }),
{
    if b.len() >= 25 {
        assert(b.skip(17).take(8) =~= b.subrange(17, 25));
    }
}

/// How many bytes an input payload has at least, by what has happened.
pub open spec fn input_size(variant: nat) -> nat {
    if variant <= 1 {
        32
    } else if variant == 2 {
        12
    } else if variant == 3 {
        14
    } else if variant <= 5 {
        24
    } else {
        16
    }
}

/// An input payload is refused if it says that something unknown has happened, if
/// it ends too early, and if the byte that says whether a button is pressed is
/// neither 0 nor 1. It is taken otherwise.
pub proof fn input_is_refused_for_cause(b: Seq<u8>)
    ensures
        ({
            let variant = number(b, 8, 12);
            let odd = variant == 3 && b.len() >= 14 && b[13] > 1;
            &&& b.len() < 12 ==> parse_input(b) == Err::<InputPacket, PayloadError>(
                PayloadError::Truncated,
            )
            &&& b.len() >= 12 && variant > 6 ==> parse_input(b) == Err::<InputPacket, PayloadError>(
                PayloadError::UnknownVariant { number: variant as u32, count: 7 },
            )
            &&& b.len() >= 12 && variant <= 6 && b.len() < input_size(variant) ==> parse_input(b)
                == Err::<InputPacket, PayloadError>(PayloadError::Truncated)
            &&& odd ==> parse_input(b) == Err::<InputPacket, PayloadError>(
                PayloadError::InvalidBool(b[13]),
            )
            &&& b.len() >= 12 && variant <= 6 && b.len() >= input_size(variant) && !odd
                ==> parse_input(b) is Ok
        }),
{
}

/// How many bytes a control payload has at least, by what it is about.
pub open spec fn control_size(variant: nat) -> nat {
    if variant == 0 {
        8
    } else if variant == 1 || variant == 2 {
        12
    } else if variant == 6 {
        6
    } else {
        4
    }
}

/// A control payload is refused if it is about something unknown, and if it ends
/// too early; a reason also if it is longer than the payload, or no UTF-8. It is
/// taken otherwise.
pub proof fn control_is_refused_for_cause(b: Seq<u8>)
    requires
        b.len() <= usize::MAX,
    ensures
        ({
            let variant = number(b, 0, 4);
            let len = number(b, 4, 12);
            &&& b.len() < 4 ==> parse_control(b) == Err::<ControlView, PayloadError>(
                PayloadError::Truncated,
            )
            &&& b.len() >= 4 && variant > 6 ==> parse_control(b) == Err::<
                ControlView,
                PayloadError,
            >(PayloadError::UnknownVariant { number: variant as u32, count: 7 })
            &&& b.len() >= 4 && variant <= 6 && b.len() < control_size(variant) ==> parse_control(b)
                == Err::<ControlView, PayloadError>(PayloadError::Truncated)
            &&& b.len() >= 4 && variant <= 6 && variant != 2 && b.len() >= control_size(variant)
                ==> parse_control(b) is Ok
            &&& b.len() >= 12 && variant == 2 && len + 12 > b.len() && len <= usize::MAX
                ==> parse_control(b) == Err::<ControlView, PayloadError>(
                PayloadError::TruncatedText,
            )
            &&& b.len() >= 12 && variant == 2 && len > usize::MAX ==> parse_control(b) == Err::<
                ControlView,
                PayloadError,
            >(PayloadError::Oversized(len as u64))
            &&& b.len() >= 12 && variant == 2 && len + 12 <= b.len() ==> (parse_control(b) is Ok
                <==> vstd::utf8::valid_utf8(b.subrange(12, 12 + len as int)))
        }),
{
    if b.len() >= 12 {
        assert(b.skip(4).take(8) =~= b.subrange(4, 12));
        let len = number(b, 4, 12);
        if len + 12 <= b.len() {
            assert(b.skip(4).subrange(8, 8 + len as int) =~= b.subrange(12, 12 + len as int));
        }
    }
}

/// A reason that is no UTF-8 is refused with where it stops being so: the error
/// says how many of its bytes are UTF-8, which no more of them are, and tells a
/// sequence that is none from a character that does not end.
pub proof fn odd_reasons_are_located(b: Seq<u8>, at: usize)
    requires
        b.len() >= 12,
        number(b, 0, 4) == 2,
        number(b, 4, 12) + 12 <= b.len(),
        !vstd::utf8::valid_utf8(b.subrange(12, 12 + number(b, 4, 12) as int)),
        is_longest_text(b.subrange(12, 12 + number(b, 4, 12) as int), at as int),
    ensures
        parse_control(b) is Err,
        ({
            let error = parse_control(b)->Err_0;
            let fault = text_fault_len(b.skip(4));
            &&& fault is Some ==> error == (PayloadError::InvalidText { at, len: fault->Some_0 })
            &&& fault is None ==> error == (PayloadError::IncompleteText { at })
        }),
{
    let len = number(b, 4, 12);
    let text = b.subrange(12, 12 + len as int);
    assert(b.skip(4).take(8) =~= b.subrange(4, 12));
    assert(b.skip(4).subrange(8, 8 + len as int) =~= text);
    let found = text_len(text);
    assert(is_longest_text(text, found as int));
    if found < at {
        assert(vstd::utf8::valid_utf8(text.take(at as int)));
    }
    if at < found {
        assert(vstd::utf8::valid_utf8(text.take(found as int)));
    }
}

/// Every refusal of a packet says why, with the numbers that tell.
pub proof fn refusals_say_why(
    size: usize,
    max: usize,
    code: u8,
    error: PayloadError,
    expected: usize,
    actual: usize,
)
    ensures
        (CodecError::PacketTooLarge { size, max }).text() == "packet too large: "@ + decimal(
            size as nat,
        ) + " bytes (max "@ + decimal(max as nat) + ")"@,
        CodecError::PacketTooSmall.text() == "packet too small: need at least 3 bytes for header"@,
        CodecError::UnknownPacketType(code).text() == "unknown packet type: "@ + decimal(
            code as nat,
        ),
        CodecError::SerializationError(error).text() == "serialization error: "@ + error.text(),
        (CodecError::IncompletePacket { expected, actual }).text()
            == "incomplete packet: expected "@ + decimal(expected as nat) + " bytes, got "@
            + decimal(actual as nat),
{
}

/// Every refusal of a payload says why, with the numbers that tell.
pub proof fn odd_payloads_say_why(
    len: u64,
    found: u8,
    at: usize,
    bytes: usize,
    variant: u32,
    count: u32,
)
    ensures
        PayloadError::Truncated.text() == "io error: unexpected end of file"@,
        PayloadError::TruncatedText.text() == "io error: "@,
        PayloadError::Oversized(len).text() == "Invalid size "@ + decimal(len as nat)
            + ": sizes must fit in a usize (0 to "@ + decimal(usize::MAX as nat) + ")"@,
        PayloadError::InvalidBool(found).text()
            == "invalid u8 while decoding bool, expected 0 or 1, found "@ + decimal(found as nat),
        (PayloadError::InvalidText { at, len: bytes }).text()
            == "string is not valid utf8: invalid utf-8 sequence of "@ + decimal(bytes as nat)
            + " bytes from index "@ + decimal(at as nat),
        (PayloadError::IncompleteText { at }).text()
            == "string is not valid utf8: incomplete utf-8 byte sequence from index "@ + decimal(
            at as nat,
        ),
        (PayloadError::UnknownVariant { number: variant, count }).text()
            == "invalid value: integer `"@ + decimal(variant as nat)
            + "`, expected variant index 0 <= i < "@ + decimal(count as nat),
        PayloadError::of_text(at, Some(bytes)) == (PayloadError::InvalidText { at, len: bytes }),
        PayloadError::of_text(at, None) == (PayloadError::IncompleteText { at }),
{
}

} // verus!
