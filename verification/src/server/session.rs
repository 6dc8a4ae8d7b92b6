//! What the server does while it runs: for the client that is connected, for
//! the packets that it sends, and for the frames that are sent to it.

use vstd::prelude::*;

use crate::clock::{Clock, LATEST};
use crate::encoder::video::EncodedFrame;
use crate::input::retimer::{all_shown, EventRetimer, RetimerModel};
use crate::protocol::codec::{
    control_payload, decode_packet, decoded, encode_control, frame, CodecError,
};
use crate::protocol::packets::{
    ControlPacket, ControlView, DecodedPacket, DecodedView, InputEvent, InputPacket, PacketType,
    PROTOCOL_VERSION,
};
use crate::protocol::round_trip::control_round_trip;
use crate::server::fragments::{contents, datagrams, fragment_frame};
use crate::server::network::TcpMessage;
use crate::server::stats::{ServerStats, StatsView};
use crate::text::{append_decimal, decimal};

verus! {

/// How often a heartbeat is sent and the counters are published, in
/// nanoseconds.
pub const SECOND: u128 = 1_000_000_000;

/// After how many frames the connected client is published again.
pub const PUBLISH_INTERVAL: u32 = 60;

/// Where a client can be reached.
#[derive(Debug, Clone, PartialEq, Eq)]
pub struct PeerAddr {
    /// The host, as it is written in front of a port.
    pub host: String,
    pub port: u16,
}

/// What a [`PeerAddr`] says.
pub struct PeerView {
    pub host: Seq<char>,
    pub port: u16,
}

impl View for PeerAddr {
    type V = PeerView;

    open spec fn view(&self) -> PeerView {
        PeerView { host: self.host@, port: self.port }
    }
}

/// An address as it is shown.
pub open spec fn peer_text(peer: PeerView) -> Seq<char> {
    peer.host + ":"@ + decimal(peer.port as nat)
}

fn show_peer(peer: &PeerAddr) -> (text: String)
    ensures
        text@ == peer_text(peer@),
{
    let mut text: String = peer.host.clone();
    text.append(":");
    append_decimal(&mut text, peer.port as u64);
    text
}

/// The client that is connected.
#[derive(Debug, Clone)]
pub struct ClientState {
    pub tcp_client_id: u64,
    /// Where video is sent to.
    pub udp_addr: PeerAddr,
}

/// What a [`ClientState`] says.
pub struct ClientView {
    pub tcp_client_id: u64,
    pub udp_addr: PeerView,
}

impl View for ClientState {
    type V = ClientView;

    open spec fn view(&self) -> ClientView {
        ClientView { tcp_client_id: self.tcp_client_id, udp_addr: self.udp_addr@ }
    }
}

/// What was done since the counters were last published.
#[derive(Debug, Clone, Copy, PartialEq, Eq, Structural)]
pub struct Counters {
    pub captured: u64,
    pub encoded: u64,
    pub sent: u64,
    pub keyframes: u64,
    pub fragments: u64,
    pub dropped: u64,
    pub errors: u64,
}

/// Nothing was done.
pub open spec fn no_counts() -> Counters {
    Counters { captured: 0, encoded: 0, sent: 0, keyframes: 0, fragments: 0, dropped: 0, errors: 0 }
}

fn zero_counters() -> (counters: Counters)
    ensures
        counters == no_counts(),
{
    Counters { captured: 0, encoded: 0, sent: 0, keyframes: 0, fragments: 0, dropped: 0, errors: 0 }
}

/// A counter after `n` more. It starts again behind its largest value.
pub open spec fn counted(counter: u64, n: u64) -> u64 {
    counter.wrapping_add(n)
}

/// What a [`Session`] knows.
pub struct SessionView {
    /// The size of the screen.
    pub width: u32,
    pub height: u32,
    pub client: Option<ClientView>,
    /// The number of the next frame.
    pub sequence: u32,
    /// Whether the client has asked for a keyframe.
    pub keyframe_requested: bool,
    /// The input that waits for its time.
    pub retimer: RetimerModel,
    pub counters: Counters,
    /// When a heartbeat was last sent.
    pub last_heartbeat: u128,
    /// When the counters were last published.
    pub last_stats: u128,
}

/// What the packet of a client asks of the server.
#[derive(Debug, Clone, PartialEq, Eq)]
pub enum MessageAction {
    /// Nothing.
    Nothing,
    /// Send an answer to the client.
    Send { client_id: u64, data: Vec<u8> },
    /// Send an answer to the client and disconnect it; this turn of the server
    /// is over.
    Refuse { client_id: u64, data: Vec<u8> },
    /// Disconnect the client.
    Disconnect { client_id: u64 },
    /// Hand the input on at once.
    Deliver { packet: InputPacket },
}

/// What a [`MessageAction`] says.
pub enum ActionView {
    Nothing,
    Deliver { packet: InputPacket },
    Send { client_id: u64, data: Seq<u8> },
    Refuse { client_id: u64, data: Seq<u8> },
    Disconnect { client_id: u64 },
}

impl View for MessageAction {
    type V = ActionView;

    open spec fn view(&self) -> ActionView {
        match *self {
            MessageAction::Nothing => ActionView::Nothing,
            MessageAction::Send { client_id, data } => ActionView::Send { client_id, data: data@ },
            MessageAction::Refuse { client_id, data } => ActionView::Refuse {
                client_id,
                data: data@,
            },
            MessageAction::Disconnect { client_id } => ActionView::Disconnect { client_id },
            MessageAction::Deliver { packet } => ActionView::Deliver { packet },
        }
    }
}

/// Why a client of another version is refused.
pub open spec fn mismatch_text(version: u32) -> Seq<char> {
    "Protocol version mismatch: expected "@ + decimal(PROTOCOL_VERSION as nat) + ", got "@
        + decimal(version as nat)
}

/// The bytes that a control packet is sent as.
pub open spec fn control_wire(packet: ControlView) -> Seq<u8> {
    frame(PacketType::Control, control_payload(packet))
}

/// What is told of the stylus buttons after an event.
pub open spec fn with_buttons(stats: StatsView, event: InputEvent) -> StatsView {
    match event {
        InputEvent::StylusButton { button, pressed } => if button < 2 {
            StatsView {
                stylus_buttons: stats.stylus_buttons.update(button as int, pressed),
                ..stats
            }
        } else {
            stats
        },
        _ => stats,
    }
}

impl SessionView {
    /// A session that nobody has connected to yet.
    pub open spec fn started(width: u32, height: u32, now: u128) -> SessionView {
        SessionView {
            width,
            height,
            client: None,
            sequence: 0,
            keyframe_requested: false,
            retimer: RetimerModel::empty(),
            counters: no_counts(),
            last_heartbeat: now,
            last_stats: now,
        }
    }

    /// Whether a message comes from the client that is connected.
    pub open spec fn is_from_client(self, client_id: u64) -> bool {
        self.client matches Some(client) && client.tcp_client_id == client_id
    }

    /// What a control packet of the client does to the session.
    pub open spec fn after_control(self, packet: ControlView) -> SessionView {
        match packet {
            ControlView::RequestKeyframe => SessionView { keyframe_requested: true, ..self },
            ControlView::Connect { version } => if version == PROTOCOL_VERSION {
                self
            } else {
                SessionView { client: None, ..self }
            },
            ControlView::Disconnect => SessionView {
                client: None,
                retimer: RetimerModel::empty(),
                ..self
            },
            ControlView::SetUdpPort { port } => SessionView {
                client: match self.client {
                    Some(client) => Some(
                        ClientView { udp_addr: PeerView { port, ..client.udp_addr }, ..client },
                    ),
                    None => None,
                },
                ..self
            },
            _ => self,
        }
    }

    /// What a control packet of the client is answered with.
    pub open spec fn answer(self, client_id: u64, packet: ControlView) -> ActionView {
        match packet {
            ControlView::Connect { version } => if version == PROTOCOL_VERSION {
                ActionView::Send {
                    client_id,
                    data: control_wire(
                        ControlView::ConnectAck { width: self.width, height: self.height },
                    ),
                }
            } else {
                ActionView::Refuse {
                    client_id,
                    data: control_wire(
                        ControlView::ConnectNack { reason: mismatch_text(version) },
                    ),
                }
            },
            ControlView::Disconnect => ActionView::Disconnect { client_id },
            _ => ActionView::Nothing,
        }
    }

    /// What a message, received at `now`, does to the session, to what is told
    /// of it, and what it is answered with. Messages of anybody but the client
    /// that is connected, video packets and what is no packet are ignored.
    pub open spec fn received(
        self,
        stats: StatsView,
        client_id: u64,
        data: Seq<u8>,
        now: u128,
    ) -> (SessionView, StatsView, ActionView) {
        if !self.is_from_client(client_id) {
            (self, stats, ActionView::Nothing)
        } else {
            match decoded(data) {
                Ok(DecodedView::Control(packet)) => (
                    self.after_control(packet),
                    stats,
                    self.answer(client_id, packet),
                ),
                Ok(DecodedView::Input(packet)) => (
                    SessionView { retimer: self.retimer.arrived(packet, now).1, ..self },
                    with_buttons(stats, packet.event),
                    match self.retimer.arrived(packet, now).0 {
                        Some(packet) => ActionView::Deliver { packet },
                        None => ActionView::Nothing,
                    },
                ),
                _ => (self, stats, ActionView::Nothing),
            }
        }
    }

    /// What a frame that was encoded does to the counters.
    pub open spec fn counters_with(self, is_keyframe: bool) -> Counters {
        Counters {
            encoded: counted(self.counters.encoded, 1),
            keyframes: if is_keyframe {
                counted(self.counters.keyframes, 1)
            } else {
                self.counters.keyframes
            },
            ..self.counters
        }
    }

    /// Whether a heartbeat is due: somebody is connected, and more than a
    /// second has passed.
    pub open spec fn heartbeat_due(self, seen: u128) -> bool {
        self.client is Some && seen - self.last_heartbeat > SECOND
    }

    /// Whether the counters are to be published: more than a second has passed.
    pub open spec fn stats_due(self, seen: u128) -> bool {
        seen - self.last_stats > SECOND
    }
}

/// What became of a captured frame that was handed to the encoder.
#[derive(Debug, Clone, Copy, PartialEq, Eq, Structural)]
pub enum HandOver {
    /// The encoder has it.
    Taken,
    /// The encoder is busy.
    Busy,
    /// There is no encoder any more.
    Gone,
}

/// A running server, as its client sees it.
#[derive(Debug, Clone)]
pub struct Session {
    width: u32,
    height: u32,
    client: Option<ClientState>,
    sequence: u32,
    keyframe_requested: bool,
    retimer: EventRetimer,
    counters: Counters,
    last_heartbeat: u128,
    last_stats: u128,
    clock: Clock,
}

impl View for Session {
    type V = SessionView;

    closed spec fn view(&self) -> SessionView {
        SessionView {
            width: self.width,
            height: self.height,
            client: match self.client {
                Some(client) => Some(client@),
                None => None,
            },
            sequence: self.sequence,
            keyframe_requested: self.keyframe_requested,
            retimer: self.retimer@,
            counters: self.counters,
            last_heartbeat: self.last_heartbeat,
            last_stats: self.last_stats,
        }
    }
}

proof fn lemma_utf8_len(text: Seq<char>)
    ensures
        vstd::utf8::encode_utf8(text).len() <= 4 * text.len(),
    decreases text.len(),
{
    if text.len() > 0 {
        lemma_utf8_len(text.drop_first());
    }
}

proof fn lemma_decimal_len(n: nat)
    requires
        n <= 0xffff_ffff,
    ensures
        decimal(n).len() <= 10,
{
    reveal_with_fuel(decimal, 11);
}

proof fn lemma_mismatch_len(version: u32)
    ensures
        vstd::utf8::encode_utf8(mismatch_text(version)).len() <= 1000,
{
    lemma_decimal_len(PROTOCOL_VERSION as nat);
    lemma_decimal_len(version as nat);
    reveal_strlit("Protocol version mismatch: expected ");
    reveal_strlit(", got ");
    lemma_utf8_len(mismatch_text(version));
}

/// The bytes of a control packet that is small enough.
fn control_bytes(packet: &ControlPacket) -> (data: Vec<u8>)
    requires
        packet@ matches ControlView::ConnectNack { reason } ==> vstd::utf8::encode_utf8(
            reason,
        ).len() <= 1000,
    ensures
        data@ == control_wire(packet@),
{
    proof {
        control_round_trip(packet@, Seq::empty());
    }
    match encode_control(packet) {
        Ok(data) => data,
        Err(_) => {
            assert(false);
            Vec::new()
        },
    }
}

fn mismatch_reason(version: u32) -> (reason: String)
    ensures
        reason@ == mismatch_text(version),
{
    let mut reason: String = "Protocol version mismatch: expected ".to_string();
    append_decimal(&mut reason, PROTOCOL_VERSION as u64);
    reason.append(", got ");
    append_decimal(&mut reason, version as u64);
    reason
}

impl Session {
    /// Whether the session can be in this state.
    pub open spec fn wf(&self) -> bool {
        self@.retimer.well_formed()
    }

    /// The clocks that the session and its input go by.
    pub closed spec fn clocks(&self) -> (Clock, Clock) {
        (self.clock, self.retimer.clock())
    }

    /// Starts a session for a screen of the given size.
    pub fn new(width: u32, height: u32) -> (session: Session)
        ensures
            session.wf(),
            exists|now: u128|
                now <= LATEST && session.clocks().0.shows(now) && session@
                    == #[trigger] SessionView::started(width, height, now),
    {
        let clock: Clock = Clock::start();
        let now: u128 = clock.now();
        let session = Session {
            width,
            height,
            client: None,
            sequence: 0,
            keyframe_requested: false,
            retimer: EventRetimer::new(),
            counters: zero_counters(),
            last_heartbeat: now,
            last_stats: now,
            clock,
        };
        assert(session@ == SessionView::started(width, height, now));
        session
    }

    /// Takes a client that has just connected. There is only one client: the
    /// one before it is to be disconnected, and its input is dropped.
    pub fn accepted(&mut self, client_id: u64, addr: PeerAddr) -> (previous: Option<u64>)
        ensures
            final(self).wf(),
            final(self).clocks() == old(self).clocks(),
            final(self)@ == (SessionView {
                client: Some(ClientView { tcp_client_id: client_id, udp_addr: addr@ }),
                retimer: RetimerModel::empty(),
                ..old(self)@
            }),
            previous == match old(self)@.client {
                Some(client) => Some(client.tcp_client_id),
                None => None,
            },
    {
        let previous: Option<u64> = self.client_id();
        self.retimer.reset();
        self.client = Some(ClientState { tcp_client_id: client_id, udp_addr: addr });
        previous
    }

    /// The client that is connected.
    pub fn client_id(&self) -> (client_id: Option<u64>)
        ensures
            client_id == match self@.client {
                Some(client) => Some(client.tcp_client_id),
                None => None,
            },
    {
        match &self.client {
            Some(client) => Some(client.tcp_client_id),
            None => None,
        }
    }

    /// The port that video is sent to.
    pub fn udp_port(&self) -> (port: Option<u16>)
        ensures
            port == match self@.client {
                Some(client) => Some(client.udp_addr.port),
                None => None,
            },
    {
        match &self.client {
            Some(client) => Some(client.udp_addr.port),
            None => None,
        }
    }

    /// Takes a message that has just come in.
    pub fn message(&mut self, message: &TcpMessage, stats: &mut ServerStats) -> (action:
        MessageAction)
        requires
            old(self).wf(),
        ensures
            final(self).wf(),
            final(self).clocks() == old(self).clocks(),
            exists|now: u128|
                now <= LATEST && old(self).clocks().1.shows(now) && (
                    final(self)@,
                    final(stats)@,
                    action@,
                ) == #[trigger] old(self)@.received(
                    old(stats)@,
                    message.client_id,
                    message.data@,
                    now,
                ),
    {
        let now: u128 = self.retimer.now();
        let action: MessageAction = self.message_at(message, stats, now);
        assert((self@, stats@, action@) == old(self)@.received(
            old(stats)@,
            message.client_id,
            message.data@,
            now,
        ));
        action
    }

    /// Takes a message that came in at `now`, on the clock of the input.
    pub fn message_at(&mut self, message: &TcpMessage, stats: &mut ServerStats, now: u128) -> (action:
        MessageAction)
        requires
            old(self).wf(),
            now <= LATEST,
        ensures
            final(self).wf(),
            final(self).clocks() == old(self).clocks(),
            (final(self)@, final(stats)@, action@) == old(self)@.received(
                old(stats)@,
                message.client_id,
                message.data@,
                now,
            ),
    {
        let client_id: u64 = message.client_id;
        let from_client: bool = match &self.client {
            Some(client) => client.tcp_client_id == client_id,
            None => false,
        };
        if !from_client {
            return MessageAction::Nothing;
        }
        match decode_packet(&message.data) {
            Ok(DecodedPacket::Control(packet)) => self.control(client_id, &packet),
            Ok(DecodedPacket::Input(packet)) => {
                if let InputEvent::StylusButton { button, pressed } = packet.event {
                    if button < 2 {
                        stats.stylus_buttons[button as usize] = pressed;
                        assert(stats@ == with_buttons(old(stats)@, packet.event));
                    }
                }
                match self.retimer.push_at(packet, now) {
                    Some(packet) => MessageAction::Deliver { packet },
                    None => MessageAction::Nothing,
                }
            },
            Ok(DecodedPacket::Video(_)) => MessageAction::Nothing,
            Err(_) => MessageAction::Nothing,
        }
    }

    fn control(&mut self, client_id: u64, packet: &ControlPacket) -> (action: MessageAction)
        requires
            old(self).wf(),
            old(self)@.is_from_client(client_id),
        ensures
            final(self).wf(),
            final(self).clocks() == old(self).clocks(),
            final(self)@ == old(self)@.after_control(packet@),
            action@ == old(self)@.answer(client_id, packet@),
    {
        match packet {
            ControlPacket::RequestKeyframe => {
                self.keyframe_requested = true;
                MessageAction::Nothing
            },
            ControlPacket::Connect { version } => {
                if *version != PROTOCOL_VERSION {
                    proof {
                        lemma_mismatch_len(*version);
                    }
                    let nack = ControlPacket::ConnectNack { reason: mismatch_reason(*version) };
                    let data: Vec<u8> = control_bytes(&nack);
                    self.client = None;
                    MessageAction::Refuse { client_id, data }
                } else {
                    let ack = ControlPacket::ConnectAck {
                        width: self.width,
                        height: self.height,
                    };
                    MessageAction::Send { client_id, data: control_bytes(&ack) }
                }
            },
            ControlPacket::Disconnect => {
                self.retimer.reset();
                self.client = None;
                MessageAction::Disconnect { client_id }
            },
            ControlPacket::SetUdpPort { port } => {
                if let Some(client) = &mut self.client {
                    client.udp_addr.port = *port;
                }
                MessageAction::Nothing
            },
            _ => MessageAction::Nothing,
        }
    }

    /// The input whose time has come.
    pub fn due_input(&mut self) -> (packets: Vec<InputPacket>)
        requires
            old(self).wf(),
        ensures
            final(self).wf(),
            final(self).clocks() == old(self).clocks(),
            final(self)@ == (SessionView { retimer: final(self)@.retimer, ..old(self)@ }),
            exists|times: Seq<u128>, last: u128|
                #![trigger old(self)@.retimer.drained(times), final(self)@.retimer.popped(last)]
                last <= LATEST && old(self).clocks().1.shows(last) && times.len() == packets@.len()
                    && all_shown(old(self).clocks().1, times) && old(self)@.retimer.drained(times)
                    == (packets@, final(self)@.retimer) && final(self)@.retimer.popped(last).0
                    is None,
    {
        let packets: Vec<InputPacket> = self.retimer.drain_ready();
        assert(self@ == (SessionView { retimer: self@.retimer, ..old(self)@ }));
        packets
    }

    /// Takes note whether the client is still connected. The input of one that
    /// is not is dropped.
    pub fn connection_checked(&mut self, connected: bool)
        requires
            old(self).wf(),
        ensures
            final(self).wf(),
            final(self).clocks() == old(self).clocks(),
            final(self)@ == if old(self)@.client is Some && !connected {
                SessionView { client: None, retimer: RetimerModel::empty(), ..old(self)@ }
            } else {
                old(self)@
            },
    {
        if self.client.is_some() && !connected {
            self.retimer.reset();
            self.client = None;
        }
    }

    /// Publishes the client that is connected, every so many frames.
    pub fn publish_client(&self, stats: &mut ServerStats)
        ensures
            final(stats)@ == if self@.sequence % PUBLISH_INTERVAL == 0 {
                StatsView {
                    connected_client: match self@.client {
                        Some(client) => Some(peer_text(client.udp_addr)),
                        None => None,
                    },
                    ..old(stats)@
                }
            } else {
                old(stats)@
            },
    {
        if self.sequence % PUBLISH_INTERVAL == 0 {
            stats.connected_client = match &self.client {
                Some(client) => Some(show_peer(&client.udp_addr)),
                None => None,
            };
        }
    }

    /// Whether the client has asked for a keyframe. It is thereby answered.
    pub fn take_keyframe_request(&mut self) -> (requested: bool)
        ensures
            requested == old(self)@.keyframe_requested,
            final(self)@ == (SessionView { keyframe_requested: false, ..old(self)@ }),
            old(self).wf() ==> final(self).wf(),
            final(self).clocks() == old(self).clocks(),
    {
        let requested: bool = self.keyframe_requested;
        self.keyframe_requested = false;
        requested
    }

    /// Whether captured frames are handed to the encoder: only for a client.
    pub fn wants_frames(&self) -> (wants: bool)
        ensures
            wants == self@.client is Some,
    {
        self.client.is_some()
    }

    /// Takes note of a captured frame, and of what became of it. Without an
    /// encoder the server has to stop.
    pub fn frame_captured(&mut self, hand_over: HandOver) -> (stop: bool)
        ensures
            stop == (hand_over == HandOver::Gone),
            final(self)@ == (SessionView {
                counters: Counters {
                    captured: counted(old(self)@.counters.captured, 1),
                    dropped: if hand_over == HandOver::Busy {
                        counted(old(self)@.counters.dropped, 1)
                    } else {
                        old(self)@.counters.dropped
                    },
                    ..old(self)@.counters
                },
                ..old(self)@
            }),
            old(self).wf() ==> final(self).wf(),
            final(self).clocks() == old(self).clocks(),
    {
        self.counters.captured = self.counters.captured.wrapping_add(1);
        if hand_over == HandOver::Busy {
            self.counters.dropped = self.counters.dropped.wrapping_add(1);
        }
        hand_over == HandOver::Gone
    }

    /// Takes an encoded frame: the datagrams to send, if there is a client to
    /// send them to. Without one, the frame is done with.
    pub fn frame_encoded(&mut self, encoded: &EncodedFrame) -> (packets: Option<Vec<Vec<u8>>>)
        ensures
            match packets {
                Some(packets) => {
                    &&& old(self)@.client is Some
                    &&& contents(packets@) == datagrams(old(self)@.sequence, encoded@)
                    &&& final(self)@ == (SessionView {
                        counters: old(self)@.counters_with(encoded.is_keyframe),
                        ..old(self)@
                    })
                },
                None => {
                    &&& old(self)@.client is None
                    &&& final(self)@ == (SessionView {
                        counters: old(self)@.counters_with(encoded.is_keyframe),
                        sequence: old(self)@.sequence.wrapping_add(1),
                        ..old(self)@
                    })
                },
            },
            old(self).wf() ==> final(self).wf(),
            final(self).clocks() == old(self).clocks(),
    {
        self.counters.encoded = self.counters.encoded.wrapping_add(1);
        if encoded.is_keyframe {
            self.counters.keyframes = self.counters.keyframes.wrapping_add(1);
        }
        if self.client.is_some() {
            Some(fragment_frame(self.sequence, encoded))
        } else {
            self.sequence = self.sequence.wrapping_add(1);
            None
        }
    }

    /// Takes note that a frame is done with: how many datagrams it had, and
    /// whether all of them were sent.
    pub fn frame_sent(&mut self, fragments: u64, all_sent: bool)
        ensures
            final(self)@ == (SessionView {
                counters: if all_sent {
                    Counters {
                        sent: counted(old(self)@.counters.sent, 1),
                        fragments: counted(old(self)@.counters.fragments, fragments),
                        ..old(self)@.counters
                    }
                } else {
                    old(self)@.counters
                },
                sequence: old(self)@.sequence.wrapping_add(1),
                ..old(self)@
            }),
            old(self).wf() ==> final(self).wf(),
            final(self).clocks() == old(self).clocks(),
    {
        if all_sent {
            self.counters.sent = self.counters.sent.wrapping_add(1);
            self.counters.fragments = self.counters.fragments.wrapping_add(fragments);
        }
        self.sequence = self.sequence.wrapping_add(1);
    }

    /// The heartbeat to send, if one is due.
    pub fn heartbeat(&mut self) -> (heartbeat: Option<(u64, Vec<u8>)>)
        ensures
            exists|seen: u128, now: u128|
                old(self).clocks().0.shows(seen) && old(self).clocks().0.shows(now)
                    && #[trigger] beats(old(self)@, seen, now, heartbeat, final(self)@),
            old(self).wf() ==> final(self).wf(),
            final(self).clocks() == old(self).clocks(),
    {
        let seen: u128 = self.clock.now();
        let now: u128 = self.clock.now();
        self.heartbeat_at(seen, now)
    }

    /// The heartbeat to send, if one is due at `seen`; it is then sent at
    /// `now`.
    pub fn heartbeat_at(&mut self, seen: u128, now: u128) -> (heartbeat: Option<(u64, Vec<u8>)>)
        ensures
            beats(old(self)@, seen, now, heartbeat, final(self)@),
            old(self).wf() ==> final(self).wf(),
            final(self).clocks() == old(self).clocks(),
    {
        let client_id: u64 = match &self.client {
            Some(client) => client.tcp_client_id,
            None => return None,
        };
        if seen <= self.last_heartbeat || seen - self.last_heartbeat <= SECOND {
            return None;
        }
        self.last_heartbeat = now;
        Some((client_id, control_bytes(&ControlPacket::Heartbeat)))
    }

    /// Publishes the counters, if they are due, and starts counting anew.
    pub fn publish_stats(&mut self, stats: &mut ServerStats)
        ensures
            exists|seen: u128, now: u128|
                old(self).clocks().0.shows(seen) && old(self).clocks().0.shows(now)
                    && #[trigger] publishes(
                    old(self)@,
                    old(stats)@,
                    seen,
                    now,
                    final(self)@,
                    final(stats)@,
                ),
            old(self).wf() ==> final(self).wf(),
            final(self).clocks() == old(self).clocks(),
    {
        let seen: u128 = self.clock.now();
        let now: u128 = self.clock.now();
        self.publish_stats_at(stats, seen, now);
        assert(publishes(old(self)@, old(stats)@, seen, now, self@, stats@));
    }

    /// Publishes the counters, if they are due at `seen`, and starts counting
    /// anew at `now`.
    pub fn publish_stats_at(&mut self, stats: &mut ServerStats, seen: u128, now: u128)
        ensures
            publishes(old(self)@, old(stats)@, seen, now, final(self)@, final(stats)@),
            old(self).wf() ==> final(self).wf(),
            final(self).clocks() == old(self).clocks(),
    {
        if seen > self.last_stats && seen - self.last_stats > SECOND {
            stats.captured = self.counters.captured;
            stats.encoded = self.counters.encoded;
            stats.dropped = self.counters.dropped;
            stats.sent = self.counters.sent;
            stats.keyframes = self.counters.keyframes;
            stats.fragments = self.counters.fragments;
            stats.errors = self.counters.errors;
            self.counters = zero_counters();
            self.last_stats = now;
        }
    }
}

/// What a heartbeat is: sent to the client if one is due, and then noted.
pub open spec fn beats(
    before: SessionView,
    seen: u128,
    now: u128,
    heartbeat: Option<(u64, Vec<u8>)>,
    after: SessionView,
) -> bool {
    if before.heartbeat_due(seen) {
        &&& heartbeat matches Some((client_id, data))
        &&& before.is_from_client(client_id)
        &&& data@ == control_wire(ControlView::Heartbeat)
        &&& after == (SessionView { last_heartbeat: now, ..before })
    } else {
        heartbeat is None && after == before
    }
}

/// How counters are published: all of them, and then counting starts anew.
pub open spec fn publishes(
    before: SessionView,
    told: StatsView,
    seen: u128,
    now: u128,
    after: SessionView,
    tells: StatsView,
) -> bool {
    if before.stats_due(seen) {
        &&& tells == (StatsView {
            captured: before.counters.captured,
            encoded: before.counters.encoded,
            dropped: before.counters.dropped,
            sent: before.counters.sent,
            keyframes: before.counters.keyframes,
            fragments: before.counters.fragments,
            errors: before.counters.errors,
            ..told
        })
        &&& after == (SessionView { counters: no_counts(), last_stats: now, ..before })
    } else {
        tells == told && after == before
    }
}

// ---------------------------------------------------------------------------
// Laws
// ---------------------------------------------------------------------------

/// A client of another version is refused: it gets an answer that is decoded
/// as a refusal with the two versions in it, and is a client no more.
pub proof fn other_version_is_refused(
    session: SessionView,
    stats: StatsView,
    client_id: u64,
    version: u32,
    now: u128,
)
    requires
        session.is_from_client(client_id),
        version != PROTOCOL_VERSION,
    ensures
        ({
            let data = control_wire(ControlView::Connect { version });
            let (after, tells, action) = session.received(stats, client_id, data, now);
            &&& action matches ActionView::Refuse { client_id: refused, data: answer }
            &&& refused == client_id
            &&& decoded(answer) == Ok::<DecodedView, CodecError>(
                DecodedView::Control(ControlView::ConnectNack { reason: mismatch_text(version) }),
            )
            &&& after == (SessionView { client: None, ..session })
            &&& tells == stats
        }),
{
    let connect = ControlView::Connect { version };
    control_round_trip(connect, Seq::empty());
    assert(control_wire(connect) + Seq::<u8>::empty() =~= control_wire(connect));
    let nack = ControlView::ConnectNack { reason: mismatch_text(version) };
    lemma_mismatch_len(version);
    control_round_trip(nack, Seq::empty());
    assert(control_wire(nack) + Seq::<u8>::empty() =~= control_wire(nack));
}

/// A client of this version is taken: it gets an answer that is decoded as an
/// acknowledgement with the size of the screen, and nothing else changes.
pub proof fn same_version_is_taken(
    session: SessionView,
    stats: StatsView,
    client_id: u64,
    now: u128,
)
    requires
        session.is_from_client(client_id),
    ensures
        ({
            let data = control_wire(ControlView::Connect { version: PROTOCOL_VERSION });
            let (after, tells, action) = session.received(stats, client_id, data, now);
            &&& action matches ActionView::Send { client_id: taken, data: answer }
            &&& taken == client_id
            &&& decoded(answer) == Ok::<DecodedView, CodecError>(
                DecodedView::Control(
                    ControlView::ConnectAck { width: session.width, height: session.height },
                ),
            )
            &&& after == session
            &&& tells == stats
        }),
{
    let connect = ControlView::Connect { version: PROTOCOL_VERSION };
    control_round_trip(connect, Seq::empty());
    assert(control_wire(connect) + Seq::<u8>::empty() =~= control_wire(connect));
    let ack = ControlView::ConnectAck { width: session.width, height: session.height };
    control_round_trip(ack, Seq::empty());
    assert(control_wire(ack) + Seq::<u8>::empty() =~= control_wire(ack));
}

/// Only the client that is connected is listened to.
pub proof fn strangers_are_ignored(
    session: SessionView,
    stats: StatsView,
    client_id: u64,
    data: Seq<u8>,
    now: u128,
)
    requires
        !session.is_from_client(client_id),
    ensures
        session.received(stats, client_id, data, now) == (session, stats, ActionView::Nothing),
{
}

/// Input of the client reaches the retimer as it was sent, and is handed on
/// where retiming is not beneficial.
pub proof fn input_reaches_retimer(
    session: SessionView,
    stats: StatsView,
    client_id: u64,
    packet: InputPacket,
    now: u128,
)
    requires
        session.is_from_client(client_id),
    ensures
        ({
            let data = frame(
                PacketType::Input,
                crate::protocol::codec::input_payload(packet),
            );
            let (after, tells, action) = session.received(stats, client_id, data, now);
            &&& after.retimer == session.retimer.arrived(packet, now).1
            &&& after == (SessionView { retimer: after.retimer, ..session })
            &&& tells == with_buttons(stats, packet.event)
            &&& action == if session.retimer.needs_no_retiming(packet.timestamp, now) {
                ActionView::Deliver { packet }
            } else {
                ActionView::Nothing
            }
        }),
{
    crate::protocol::round_trip::input_round_trip(packet, Seq::empty());
    let data = frame(PacketType::Input, crate::protocol::codec::input_payload(packet));
    assert(data + Seq::<u8>::empty() =~= data);
}

/// A client that sends its port gets video there, and one that disconnects is
/// a client no more, without any input left to deliver.
pub proof fn port_and_disconnect(
    session: SessionView,
    stats: StatsView,
    client: ClientView,
    port: u16,
    now: u128,
)
    requires
        session.client == Some(client),
    ensures
        ({
            let data = control_wire(ControlView::SetUdpPort { port });
            let (after, tells, action) = session.received(
                stats,
                client.tcp_client_id,
                data,
                now,
            );
            &&& after.client == Some(
                ClientView { udp_addr: PeerView { port, ..client.udp_addr }, ..client },
            )
            &&& after == (SessionView { client: after.client, ..session })
            &&& action == ActionView::Nothing
        }),
        ({
            let data = control_wire(ControlView::Disconnect);
            let (after, tells, action) = session.received(
                stats,
                client.tcp_client_id,
                data,
                now,
            );
            &&& after == (SessionView {
                client: None,
                retimer: RetimerModel::empty(),
                ..session
            })
            &&& action == (ActionView::Disconnect { client_id: client.tcp_client_id })
        }),
{
    let set_port = ControlView::SetUdpPort { port };
    control_round_trip(set_port, Seq::empty());
    assert(control_wire(set_port) + Seq::<u8>::empty() =~= control_wire(set_port));
    control_round_trip(ControlView::Disconnect, Seq::empty());
    assert(control_wire(ControlView::Disconnect) + Seq::<u8>::empty() =~= control_wire(
        ControlView::Disconnect,
    ));
}

/// A keyframe that the client asks for is noted, and nothing else changes; a
/// heartbeat of the client changes nothing.
pub proof fn keyframe_request_is_noted(
    session: SessionView,
    stats: StatsView,
    client_id: u64,
    now: u128,
)
    requires
        session.is_from_client(client_id),
    ensures
        session.received(stats, client_id, control_wire(ControlView::RequestKeyframe), now) == (
            SessionView { keyframe_requested: true, ..session },
            stats,
            ActionView::Nothing,
        ),
        session.received(stats, client_id, control_wire(ControlView::Heartbeat), now) == (
            session,
            stats,
            ActionView::Nothing,
        ),
{
    control_round_trip(ControlView::RequestKeyframe, Seq::empty());
    assert(control_wire(ControlView::RequestKeyframe) + Seq::<u8>::empty() =~= control_wire(
        ControlView::RequestKeyframe,
    ));
    control_round_trip(ControlView::Heartbeat, Seq::empty());
    assert(control_wire(ControlView::Heartbeat) + Seq::<u8>::empty() =~= control_wire(
        ControlView::Heartbeat,
    ));
}

/// More than a second lies between two heartbeats, and between two times that
/// the counters are published.
pub proof fn seconds_lie_between(session: SessionView, now: u128, later: u128)
    ensures
        (SessionView { last_heartbeat: now, ..session }).heartbeat_due(later) ==> later - now
            > SECOND,
        (SessionView { last_stats: now, ..session }).stats_due(later) ==> later - now > SECOND,
{
}

/// What is told of the stylus buttons is which of the two are pressed: a button
/// event sets its own and leaves the other, and nothing else changes either.
pub proof fn buttons_are_told(stats: StatsView, event: InputEvent)
    requires
        stats.stylus_buttons.len() == 2,
    ensures
        ({
            let after = with_buttons(stats, event);
            &&& after.stylus_buttons.len() == 2
            &&& after == (StatsView { stylus_buttons: after.stylus_buttons, ..stats })
            &&& match event {
                InputEvent::StylusButton { button, pressed } => {
                    &&& after.stylus_buttons[0] == if button == 0 {
                        pressed
                    } else {
                        stats.stylus_buttons[0]
                    }
                    &&& after.stylus_buttons[1] == if button == 1 {
                        pressed
                    } else {
                        stats.stylus_buttons[1]
                    }
                },
                _ => after == stats,
            }
        }),
{
}

/// A heartbeat is sent exactly if somebody is connected and more than a second has
/// passed since the last one. It goes to whoever is connected, is decoded as a
/// heartbeat, and changes nothing but when it was sent.
pub proof fn heartbeats_are_sent_in_time(
    before: SessionView,
    seen: u128,
    now: u128,
    heartbeat: Option<(u64, Vec<u8>)>,
    after: SessionView,
)
    requires
        beats(before, seen, now, heartbeat, after),
    ensures
        heartbeat is Some <==> before.client is Some && seen - before.last_heartbeat
            > 1_000_000_000,
        heartbeat is Some ==> {
            &&& heartbeat->Some_0.0 == before.client->Some_0.tcp_client_id
            &&& decoded(heartbeat->Some_0.1@) == Ok::<DecodedView, CodecError>(
                DecodedView::Control(ControlView::Heartbeat),
            )
            &&& after == (SessionView { last_heartbeat: now, ..before })
        },
        heartbeat is None ==> after == before,
{
    control_round_trip(ControlView::Heartbeat, Seq::empty());
    let wire = control_wire(ControlView::Heartbeat);
    assert(wire + Seq::<u8>::empty() =~= wire);
}

/// The counters are published exactly if more than a second has passed since they
/// were last, each as what it counts; counting then starts at nothing, and nothing
/// else changes.
pub proof fn counters_are_published_in_time(
    before: SessionView,
    told: StatsView,
    seen: u128,
    now: u128,
    after: SessionView,
    tells: StatsView,
)
    requires
        publishes(before, told, seen, now, after, tells),
    ensures
        ({
            let due = seen - before.last_stats > 1_000_000_000;
            &&& !due ==> after == before && tells == told
            &&& due ==> {
                &&& tells.captured == before.counters.captured
                &&& tells.encoded == before.counters.encoded
                &&& tells.sent == before.counters.sent
                &&& tells.dropped == before.counters.dropped
                &&& tells.keyframes == before.counters.keyframes
                &&& tells.fragments == before.counters.fragments
                &&& tells.errors == before.counters.errors
                &&& tells.connected_client == told.connected_client
                &&& tells.resolution == told.resolution && tells.status == told.status
                &&& tells.stylus_buttons == told.stylus_buttons && tells.logs == told.logs
                &&& after.counters.captured == 0 && after.counters.encoded == 0
                &&& after.counters.sent == 0 && after.counters.dropped == 0
                &&& after.counters.keyframes == 0 && after.counters.fragments == 0
                &&& after.counters.errors == 0
                &&& after.last_stats == now
                &&& after == (SessionView {
                    counters: after.counters,
                    last_stats: after.last_stats,
                    ..before
                })
            }
        }),
{
}

/// Every encoded frame counts as one, a keyframe also as a keyframe, and nothing
/// else is counted by it; counters go on at nothing behind their largest value.
pub proof fn frames_are_counted(session: SessionView, is_keyframe: bool, counter: u64, n: u64)
    ensures
        ({
            let counters = session.counters_with(is_keyframe);
            &&& counters.encoded == (session.counters.encoded + 1) % 0x1_0000_0000_0000_0000
            &&& counters.keyframes == if is_keyframe {
                (session.counters.keyframes + 1) % 0x1_0000_0000_0000_0000
            } else {
                session.counters.keyframes as int
            }
            &&& counters.captured == session.counters.captured
            &&& counters.sent == session.counters.sent
            &&& counters.dropped == session.counters.dropped
            &&& counters.fragments == session.counters.fragments
            &&& counters.errors == session.counters.errors
        }),
        counted(counter, n) == (counter + n) % 0x1_0000_0000_0000_0000,
{
}

/// What a client sends that asks for nothing changes nothing: answers that only
/// the server gives, video, and whatever is no packet.
pub proof fn idle_messages_change_nothing(
    session: SessionView,
    stats: StatsView,
    client_id: u64,
    data: Seq<u8>,
    now: u128,
)
    requires
        match decoded(data) {
            Ok(DecodedView::Control(packet)) => packet is ConnectAck || packet is ConnectNack
                || packet is Heartbeat,
            Ok(DecodedView::Video(_)) => true,
            Ok(DecodedView::Input(_)) => false,
            Err(_) => true,
        },
    ensures
        session.received(stats, client_id, data, now) == (session, stats, ActionView::Nothing),
{
}

/// Control packets are taken as they are decoded, however they came to be written:
/// what any message does depends only on the packet that it is decoded as.
pub proof fn messages_are_taken_as_decoded(
    session: SessionView,
    stats: StatsView,
    client_id: u64,
    data: Seq<u8>,
    other: Seq<u8>,
    now: u128,
)
    requires
        decoded(data) == decoded(other),
    ensures
        session.received(stats, client_id, data, now) == session.received(
            stats,
            client_id,
            other,
            now,
        ),
{
}

/// A message is from the client exactly if somebody is connected and it comes from
/// there.
pub proof fn clients_are_known_by_id(session: SessionView, client_id: u64)
    ensures
        session.is_from_client(client_id) <==> session.client is Some
            && session.client->Some_0.tcp_client_id == client_id,
{
}

/// A refusal says which version was expected and which one came.
pub proof fn refusals_name_versions(version: u32)
    ensures
        mismatch_text(version) == "Protocol version mismatch: expected "@ + decimal(1) + ", got "@
            + decimal(version as nat),
{
}

/// An address is shown as its host and its port with a colon between them.
pub proof fn addresses_show_host_and_port(peer: PeerView)
    ensures
        ({
            let text = peer_text(peer);
            let n = peer.host.len() as int;
            &&& text.take(n) == peer.host
            &&& text[n] == ':'
            &&& text.skip(n + 1) == decimal(peer.port as nat)
        }),
{
    reveal_strlit(":");
    let text = peer_text(peer);
    let n = peer.host.len() as int;
    assert(text.take(n) =~= peer.host);
    assert(text.skip(n + 1) =~= decimal(peer.port as nat));
}

/// A session starts with nobody connected, nothing asked for, no input and no
/// counts, and with the first frame still to come.
pub proof fn sessions_start_empty(width: u32, height: u32, now: u128)
    ensures
        ({
            let session = SessionView::started(width, height, now);
            &&& session.width == width && session.height == height
            &&& session.client is None
            &&& session.sequence == 0
            &&& !session.keyframe_requested
            &&& session.retimer.buffer.len() == 0
            &&& session.retimer.clock_offset is None && session.retimer.last_emit is None
            &&& session.counters.captured == 0 && session.counters.encoded == 0
            &&& session.counters.sent == 0 && session.counters.keyframes == 0
            &&& session.counters.fragments == 0 && session.counters.dropped == 0
            &&& session.counters.errors == 0
            &&& session.last_heartbeat == now && session.last_stats == now
        }),
{
}

/// A control packet is sent as its encoding behind the header of control packets,
/// and as nothing more.
pub proof fn answers_are_framed(packet: ControlView)
    ensures
        control_wire(packet).len() == 3 + control_payload(packet).len(),
        control_wire(packet)[0] == 3,
        control_wire(packet).skip(3) == control_payload(packet),
{
    crate::protocol::wire_laws::header_stands_in_front(
        PacketType::Control,
        control_payload(packet),
    );
}

} // verus!
