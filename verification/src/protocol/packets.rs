//! Network packet definitions for the drawing tablet protocol.

use vstd::prelude::*;

verus! {

/// Protocol version for compatibility checking.
pub const PROTOCOL_VERSION: u32 = 1;

/// Maximum framed packet size (constrained by the u16 length field).
pub const MAX_PACKET_SIZE: usize = 65535;

/// Bytes in front of a framed packet's payload: type and length.
pub const HEADER_SIZE: usize = 3;

/// Maximum H.264 payload bytes per UDP fragment. Keeps each datagram small
/// enough to avoid IP-level fragmentation on typical LAN MTUs.
pub const MAX_FRAGMENT_DATA: usize = 1400;

/// Packet type identifiers.
#[derive(Debug, Clone, Copy, PartialEq, Eq, Structural)]
pub enum PacketType {
    Video,
    Input,
    Control,
}

impl PacketType {
    /// The byte that stands for this type on the wire.
    pub open spec fn spec_code(self) -> u8 {
        match self {
            PacketType::Video => 0x01,
            PacketType::Input => 0x02,
            PacketType::Control => 0x03,
        }
    }

    /// The type that a byte on the wire stands for.
    pub open spec fn of_code(code: u8) -> Result<PacketType, u8> {
        match code {
            0x01 => Ok(PacketType::Video),
            0x02 => Ok(PacketType::Input),
            0x03 => Ok(PacketType::Control),
            other => Err(other),
        }
    }

    /// The byte that stands for this type on the wire.
    #[verifier::when_used_as_spec(spec_code)]
    pub fn code(self) -> (code: u8)
        ensures
            code == self.spec_code(),
    {
        match self {
            PacketType::Video => 0x01,
            PacketType::Input => 0x02,
            PacketType::Control => 0x03,
        }
    }
}

impl TryFrom<u8> for PacketType {
    type Error = u8;

    fn try_from(value: u8) -> (kind: Result<Self, u8>) {
        match value {
            0x01 => Ok(PacketType::Video),
            0x02 => Ok(PacketType::Input),
            0x03 => Ok(PacketType::Control),
            other => Err(other),
        }
    }
}

impl vstd::std_specs::convert::TryFromSpecImpl<u8> for PacketType {
    open spec fn obeys_try_from_spec() -> bool {
        true
    }

    open spec fn try_from_spec(value: u8) -> Result<Self, u8> {
        PacketType::of_code(value)
    }
}

/// Every packet type is read back from its code.
pub proof fn packet_type_round_trip(kind: PacketType)
    ensures
        PacketType::of_code(kind.code()) == Ok::<PacketType, u8>(kind),
{
}

/// Video packet sent from server to client.
///
/// Large encoded frames are split into multiple packets that share the same
/// `sequence` number. The receiver reassembles them by concatenating
/// `fragment_index` 0 .. `fragment_count-1` in order.
#[derive(Debug, Clone, PartialEq, Eq)]
pub struct VideoPacket {
    /// Sequence number for ordering and loss detection.
    pub sequence: u32,
    /// Timestamp in microseconds.
    pub timestamp: u64,
    /// Whether this frame is a keyframe (I-frame).
    pub is_keyframe: bool,
    /// Zero-based index of this fragment within the frame.
    pub fragment_index: u16,
    /// Total number of fragments for this frame (1 = unfragmented).
    pub fragment_count: u16,
    /// H.264 NAL unit data (a slice of the full frame when fragmented).
    pub data: Vec<u8>,
}

/// What a [`VideoPacket`] says.
pub struct VideoView {
    pub sequence: u32,
    pub timestamp: u64,
    pub is_keyframe: bool,
    pub fragment_index: u16,
    pub fragment_count: u16,
    pub data: Seq<u8>,
}

impl View for VideoPacket {
    type V = VideoView;

    open spec fn view(&self) -> VideoView {
        VideoView {
            sequence: self.sequence,
            timestamp: self.timestamp,
            is_keyframe: self.is_keyframe,
            fragment_index: self.fragment_index,
            fragment_count: self.fragment_count,
            data: self.data@,
        }
    }
}

/// A number as IEEE 754 single precision, held by its bit pattern.
#[derive(Debug, Clone, Copy, PartialEq, Eq, Structural)]
pub struct Single {
    pub bits: u32,
}

/// Input packet sent from client to server.
#[derive(Debug, Clone, Copy, PartialEq, Eq, Structural)]
pub struct InputPacket {
    /// Timestamp in microseconds.
    pub timestamp: u64,
    /// The input event.
    pub event: InputEvent,
}

/// Input events from the tablet.
#[derive(Debug, Clone, Copy, PartialEq, Eq, Structural)]
pub enum InputEvent {
    /// Stylus moved (while hovering or touching).
    StylusMove {
        /// X position normalized to 0-1.
        x: Single,
        /// Y position normalized to 0-1.
        y: Single,
        /// Pressure normalized to 0-1.
        pressure: Single,
        /// X tilt in degrees (-90 to 90).
        tilt_x: Single,
        /// Y tilt in degrees (-90 to 90).
        tilt_y: Single,
    },
    /// Stylus touched the screen.
    StylusDown { x: Single, y: Single, pressure: Single, tilt_x: Single, tilt_y: Single },
    /// Stylus lifted from the screen.
    StylusUp,
    /// Stylus button pressed or released.
    StylusButton {
        /// Button index (0 = primary, 1 = secondary).
        button: u8,
        /// Whether the button is pressed.
        pressed: bool,
    },
    /// Touch finger down.
    TouchDown {
        /// Touch tracking ID.
        id: u32,
        /// X position normalized to 0-1.
        x: Single,
        /// Y position normalized to 0-1.
        y: Single,
    },
    /// Touch finger moved.
    TouchMove { id: u32, x: Single, y: Single },
    /// Touch finger lifted.
    TouchUp { id: u32 },
}

/// Control packets for connection management.
#[derive(Debug, Clone, PartialEq, Eq)]
pub enum ControlPacket {
    /// Client requests connection.
    Connect {
        /// Protocol version.
        version: u32,
    },
    /// Server acknowledges connection.
    ConnectAck {
        /// Stream width in pixels.
        width: u32,
        /// Stream height in pixels.
        height: u32,
    },
    /// Connection refused with reason.
    ConnectNack { reason: String },
    /// Keep-alive heartbeat.
    Heartbeat,
    /// Client requests a keyframe.
    RequestKeyframe,
    /// Graceful disconnect.
    Disconnect,
    /// Client names the UDP port that it expects video on.
    SetUdpPort { port: u16 },
}

/// What a [`ControlPacket`] says.
pub enum ControlView {
    Connect { version: u32 },
    ConnectAck { width: u32, height: u32 },
    ConnectNack { reason: Seq<char> },
    Heartbeat,
    RequestKeyframe,
    Disconnect,
    SetUdpPort { port: u16 },
}

impl View for ControlPacket {
    type V = ControlView;

    open spec fn view(&self) -> ControlView {
        match *self {
            ControlPacket::Connect { version } => ControlView::Connect { version },
            ControlPacket::ConnectAck { width, height } => ControlView::ConnectAck { width, height },
            ControlPacket::ConnectNack { reason } => ControlView::ConnectNack { reason: reason@ },
            ControlPacket::Heartbeat => ControlView::Heartbeat,
            ControlPacket::RequestKeyframe => ControlView::RequestKeyframe,
            ControlPacket::Disconnect => ControlView::Disconnect,
            ControlPacket::SetUdpPort { port } => ControlView::SetUdpPort { port },
        }
    }
}

/// A framed packet: its type and the bytes of its payload.
#[derive(Debug, Clone, PartialEq, Eq)]
pub struct FramedPacket {
    pub packet_type: PacketType,
    pub payload: Vec<u8>,
}

/// Decoded packet variants.
#[derive(Debug, Clone, PartialEq, Eq)]
pub enum DecodedPacket {
    Video(VideoPacket),
    Input(InputPacket),
    Control(ControlPacket),
}

/// What a [`DecodedPacket`] says.
pub enum DecodedView {
    Video(VideoView),
    Input(InputPacket),
    Control(ControlView),
}

impl View for DecodedPacket {
    type V = DecodedView;

    open spec fn view(&self) -> DecodedView {
        match *self {
            DecodedPacket::Video(packet) => DecodedView::Video(packet@),
            DecodedPacket::Input(packet) => DecodedView::Input(packet),
            DecodedPacket::Control(packet) => DecodedView::Control(packet@),
        }
    }
}

} // verus!
