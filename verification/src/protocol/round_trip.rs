//! What reading gives back of what was written.

use vstd::prelude::*;

use crate::protocol::codec::{
    control_payload, decoded, frame, framed, input_payload, number_at, parse_control, parse_input,
    parse_video, unframed, video_payload, CodecError, PayloadError,
};
use crate::protocol::packets::{
    ControlView, DecodedView, InputEvent, InputPacket, PacketType, VideoView, HEADER_SIZE,
    MAX_PACKET_SIZE,
};
use crate::protocol::wire::{le, le_round_trip, lemma_capacities, prefixed, prefixed_round_trip};

verus! {

/// A number is read back from where it stands.
proof fn lemma_number_at(bytes: Seq<u8>, at: int, width: nat, n: nat)
    requires
        0 <= at,
        at + width <= bytes.len(),
        bytes.subrange(at, at + width) == le(n, width),
        n < crate::protocol::wire::capacity(width),
    ensures
        number_at(bytes, at, width as int) == n,
{
    le_round_trip(n, width);
}

/// Every framed payload is taken out of the bytes again, whatever follows.
pub proof fn frame_round_trip(kind: PacketType, payload: Seq<u8>, rest: Seq<u8>)
    requires
        payload.len() <= MAX_PACKET_SIZE - HEADER_SIZE,
    ensures
        frame(kind, payload).len() == HEADER_SIZE + payload.len(),
        unframed(frame(kind, payload) + rest) == Ok::<(PacketType, Seq<u8>), CodecError>(
            (kind, payload),
        ),
{
    lemma_capacities();
    le_round_trip(payload.len(), 2);
    let all = frame(kind, payload) + rest;
    assert(all.subrange(1, 3) =~= le(payload.len(), 2));
    lemma_number_at(all, 1, 2, payload.len());
    assert(all.subrange(3, 3 + payload.len() as int) =~= payload);
}

/// The beginning of a framed packet is never taken for a packet: without the
/// whole header it is too small, without the whole payload incomplete.
pub proof fn frame_prefix_refused(kind: PacketType, payload: Seq<u8>, n: int)
    requires
        payload.len() <= MAX_PACKET_SIZE - HEADER_SIZE,
        0 <= n < frame(kind, payload).len(),
    ensures
        decoded(frame(kind, payload).take(n)) == if n < HEADER_SIZE {
            Err::<DecodedView, CodecError>(CodecError::PacketTooSmall)
        } else {
            Err::<DecodedView, CodecError>(
                CodecError::IncompletePacket {
                    expected: (HEADER_SIZE + payload.len()) as usize,
                    actual: n as usize,
                },
            )
        },
{
    lemma_capacities();
    le_round_trip(payload.len(), 2);
    let part = frame(kind, payload).take(n);
    if n >= HEADER_SIZE {
        assert(part.subrange(1, 3) =~= le(payload.len(), 2));
        lemma_number_at(part, 1, 2, payload.len());
        assert(part[0] == kind.code());
    }
}

/// A video payload says its packet again.
proof fn lemma_video_payload(packet: VideoView)
    requires
        packet.data.len() <= u64::MAX,
    ensures
        video_payload(packet).len() == 25 + packet.data.len(),
        parse_video(video_payload(packet)) == Ok::<VideoView, PayloadError>(packet),
{
    let b = video_payload(packet);
    lemma_capacities();
    le_round_trip(packet.sequence as nat, 4);
    le_round_trip(packet.timestamp as nat, 8);
    le_round_trip(packet.fragment_index as nat, 2);
    le_round_trip(packet.fragment_count as nat, 2);
    le_round_trip(packet.data.len(), 8);
    assert(b.subrange(0, 4) =~= le(packet.sequence as nat, 4));
    assert(b.subrange(4, 12) =~= le(packet.timestamp as nat, 8));
    assert(b.subrange(13, 15) =~= le(packet.fragment_index as nat, 2));
    assert(b.subrange(15, 17) =~= le(packet.fragment_count as nat, 2));
    lemma_number_at(b, 0, 4, packet.sequence as nat);
    lemma_number_at(b, 4, 8, packet.timestamp as nat);
    lemma_number_at(b, 13, 2, packet.fragment_index as nat);
    lemma_number_at(b, 15, 2, packet.fragment_count as nat);
    assert(b.skip(17) =~= prefixed(packet.data) + Seq::<u8>::empty());
    prefixed_round_trip(packet.data, Seq::empty());
}

/// Every video packet with at most 65507 bytes of data is encoded, and
/// decoding the bytes, whatever follows them, gives the same packet back.
pub proof fn video_round_trip(packet: VideoView, rest: Seq<u8>)
    requires
        packet.data.len() <= MAX_PACKET_SIZE - HEADER_SIZE - 25,
    ensures
        framed(PacketType::Video, video_payload(packet)) matches Ok(wire) && wire.len()
            == packet.data.len() + HEADER_SIZE + 25 && decoded(wire + rest) == Ok::<
            DecodedView,
            CodecError,
        >(DecodedView::Video(packet)),
{
    lemma_video_payload(packet);
    frame_round_trip(PacketType::Video, video_payload(packet), rest);
}

/// A video packet with more than 65507 bytes of data is refused.
pub proof fn video_too_large(packet: VideoView)
    requires
        packet.data.len() > MAX_PACKET_SIZE - HEADER_SIZE - 25,
    ensures
        framed(PacketType::Video, video_payload(packet)) is Err,
{
    le_round_trip(packet.sequence as nat, 4);
    le_round_trip(packet.timestamp as nat, 8);
    le_round_trip(packet.fragment_index as nat, 2);
    le_round_trip(packet.fragment_count as nat, 2);
    le_round_trip(packet.data.len(), 8);
}

/// An input payload says its packet again, and is at most 32 bytes long.
proof fn lemma_input_payload(packet: InputPacket)
    ensures
        input_payload(packet).len() <= 32,
        parse_input(input_payload(packet)) == Ok::<InputPacket, PayloadError>(packet),
{
    let b = input_payload(packet);
    lemma_capacities();
    le_round_trip(packet.timestamp as nat, 8);
    assert forall|n: nat| #![trigger le(n, 4)] le(n, 4).len() == 4 by {
        le_round_trip(n, 4);
    }
    assert(b.subrange(0, 8) =~= le(packet.timestamp as nat, 8));
    lemma_number_at(b, 0, 8, packet.timestamp as nat);
    match packet.event {
        InputEvent::StylusMove { x, y, pressure, tilt_x, tilt_y } => {
            assert(b.subrange(8, 12) =~= le(0, 4));
            lemma_number_at(b, 8, 4, 0);
            lemma_stylus_fields(b, packet.event);
        },
        InputEvent::StylusDown { x, y, pressure, tilt_x, tilt_y } => {
            assert(b.subrange(8, 12) =~= le(1, 4));
            lemma_number_at(b, 8, 4, 1);
            lemma_stylus_fields(b, packet.event);
        },
        InputEvent::StylusUp => {
            assert(b.subrange(8, 12) =~= le(2, 4));
            lemma_number_at(b, 8, 4, 2);
        },
        InputEvent::StylusButton { button, pressed } => {
            assert(b.subrange(8, 12) =~= le(3, 4));
            lemma_number_at(b, 8, 4, 3);
        },
        InputEvent::TouchDown { id, x, y } => {
            assert(b.subrange(8, 12) =~= le(4, 4));
            lemma_number_at(b, 8, 4, 4);
            assert(b.subrange(12, 16) =~= le(id as nat, 4));
            assert(b.subrange(16, 20) =~= le(x.bits as nat, 4));
            assert(b.subrange(20, 24) =~= le(y.bits as nat, 4));
            lemma_number_at(b, 12, 4, id as nat);
            lemma_number_at(b, 16, 4, x.bits as nat);
            lemma_number_at(b, 20, 4, y.bits as nat);
        },
        InputEvent::TouchMove { id, x, y } => {
            assert(b.subrange(8, 12) =~= le(5, 4));
            lemma_number_at(b, 8, 4, 5);
            assert(b.subrange(12, 16) =~= le(id as nat, 4));
            assert(b.subrange(16, 20) =~= le(x.bits as nat, 4));
            assert(b.subrange(20, 24) =~= le(y.bits as nat, 4));
            lemma_number_at(b, 12, 4, id as nat);
            lemma_number_at(b, 16, 4, x.bits as nat);
            lemma_number_at(b, 20, 4, y.bits as nat);
        },
        InputEvent::TouchUp { id } => {
            assert(b.subrange(8, 12) =~= le(6, 4));
            lemma_number_at(b, 8, 4, 6);
            assert(b.subrange(12, 16) =~= le(id as nat, 4));
            lemma_number_at(b, 12, 4, id as nat);
        },
    }
}

/// The five numbers of a stylus event are read back from a payload.
proof fn lemma_stylus_fields(b: Seq<u8>, event: InputEvent)
    requires
        exists|timestamp: u64| b == input_payload(InputPacket { timestamp, event }),
        event is StylusMove || event is StylusDown,
    ensures
        b.len() == 32,
        ({
            let (x, y, pressure, tilt_x, tilt_y) = match event {
                InputEvent::StylusMove { x, y, pressure, tilt_x, tilt_y } => (
                    x,
                    y,
                    pressure,
                    tilt_x,
                    tilt_y,
                ),
                InputEvent::StylusDown { x, y, pressure, tilt_x, tilt_y } => (
                    x,
                    y,
                    pressure,
                    tilt_x,
                    tilt_y,
                ),
                _ => arbitrary(),
            };
            &&& number_at(b, 12, 4) == x.bits
            &&& number_at(b, 16, 4) == y.bits
            &&& number_at(b, 20, 4) == pressure.bits
            &&& number_at(b, 24, 4) == tilt_x.bits
            &&& number_at(b, 28, 4) == tilt_y.bits
        }),
{
    let timestamp = choose|timestamp: u64| b == input_payload(InputPacket { timestamp, event });
    lemma_capacities();
    le_round_trip(timestamp as nat, 8);
    assert forall|n: nat| #![trigger le(n, 4)] le(n, 4).len() == 4 by {
        le_round_trip(n, 4);
    }
    match event {
        InputEvent::StylusMove { x, y, pressure, tilt_x, tilt_y } | InputEvent::StylusDown {
            x,
            y,
            pressure,
            tilt_x,
            tilt_y,
        } => {
            assert(b.subrange(12, 16) =~= le(x.bits as nat, 4));
            assert(b.subrange(16, 20) =~= le(y.bits as nat, 4));
            assert(b.subrange(20, 24) =~= le(pressure.bits as nat, 4));
            assert(b.subrange(24, 28) =~= le(tilt_x.bits as nat, 4));
            assert(b.subrange(28, 32) =~= le(tilt_y.bits as nat, 4));
            lemma_number_at(b, 12, 4, x.bits as nat);
            lemma_number_at(b, 16, 4, y.bits as nat);
            lemma_number_at(b, 20, 4, pressure.bits as nat);
            lemma_number_at(b, 24, 4, tilt_x.bits as nat);
            lemma_number_at(b, 28, 4, tilt_y.bits as nat);
        },
        _ => {},
    }
}

/// Every input packet is encoded, and decoding the bytes, whatever follows
/// them, gives the same packet back, bit for bit.
pub proof fn input_round_trip(packet: InputPacket, rest: Seq<u8>)
    ensures
        framed(PacketType::Input, input_payload(packet)) matches Ok(wire) && decoded(wire + rest)
            == Ok::<DecodedView, CodecError>(DecodedView::Input(packet)),
{
    lemma_input_payload(packet);
    frame_round_trip(PacketType::Input, input_payload(packet), rest);
}

/// A control payload says its packet again.
proof fn lemma_control_payload(packet: ControlView)
    requires
        packet matches ControlView::ConnectNack { reason } ==> vstd::utf8::encode_utf8(reason).len()
            <= u64::MAX,
    ensures
        packet matches ControlView::ConnectNack { reason } ==> control_payload(packet).len() == 12
            + vstd::utf8::encode_utf8(reason).len(),
        packet !is ConnectNack ==> control_payload(packet).len() <= 12,
        parse_control(control_payload(packet)) == Ok::<ControlView, PayloadError>(packet),
{
    let b = control_payload(packet);
    lemma_capacities();
    assert forall|n: nat| #![trigger le(n, 4)] le(n, 4).len() == 4 by {
        le_round_trip(n, 4);
    }
    match packet {
        ControlView::Connect { version } => {
            assert(b.subrange(0, 4) =~= le(0, 4));
            lemma_number_at(b, 0, 4, 0);
            assert(b.subrange(4, 8) =~= le(version as nat, 4));
            lemma_number_at(b, 4, 4, version as nat);
        },
        ControlView::ConnectAck { width, height } => {
            assert(b.subrange(0, 4) =~= le(1, 4));
            lemma_number_at(b, 0, 4, 1);
            assert(b.subrange(4, 8) =~= le(width as nat, 4));
            assert(b.subrange(8, 12) =~= le(height as nat, 4));
            lemma_number_at(b, 4, 4, width as nat);
            lemma_number_at(b, 8, 4, height as nat);
        },
        ControlView::ConnectNack { reason } => {
            let text = vstd::utf8::encode_utf8(reason);
            assert(b.subrange(0, 4) =~= le(2, 4));
            lemma_number_at(b, 0, 4, 2);
            le_round_trip(text.len(), 8);
            assert(b.skip(4) =~= prefixed(text) + Seq::<u8>::empty());
            prefixed_round_trip(text, Seq::empty());
            vstd::utf8::encode_utf8_valid_utf8(reason);
            vstd::utf8::encode_utf8_decode_utf8(reason);
        },
        ControlView::Heartbeat => {
            assert(b.subrange(0, 4) =~= le(3, 4));
            lemma_number_at(b, 0, 4, 3);
        },
        ControlView::RequestKeyframe => {
            assert(b.subrange(0, 4) =~= le(4, 4));
            lemma_number_at(b, 0, 4, 4);
        },
        ControlView::Disconnect => {
            assert(b.subrange(0, 4) =~= le(5, 4));
            lemma_number_at(b, 0, 4, 5);
        },
        ControlView::SetUdpPort { port } => {
            le_round_trip(port as nat, 2);
            assert(b.subrange(0, 4) =~= le(6, 4));
            lemma_number_at(b, 0, 4, 6);
            assert(b.subrange(4, 6) =~= le(port as nat, 2));
            lemma_number_at(b, 4, 2, port as nat);
        },
    }
}

/// Every control packet, but for a refusal whose reason takes more than 65520
/// bytes, is encoded, and decoding the bytes, whatever follows them, gives
/// the same packet back.
pub proof fn control_round_trip(packet: ControlView, rest: Seq<u8>)
    requires
        packet matches ControlView::ConnectNack { reason } ==> vstd::utf8::encode_utf8(reason).len()
            <= MAX_PACKET_SIZE - HEADER_SIZE - 12,
    ensures
        framed(PacketType::Control, control_payload(packet)) matches Ok(wire) && decoded(
            wire + rest,
        ) == Ok::<DecodedView, CodecError>(DecodedView::Control(packet)),
{
    lemma_control_payload(packet);
    frame_round_trip(PacketType::Control, control_payload(packet), rest);
}

} // verus!
