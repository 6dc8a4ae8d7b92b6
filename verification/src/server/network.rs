//! Clients of the server: who they are, and the packets that arrive from them
//! as a stream of bytes.

use vstd::prelude::*;

use std::collections::HashMap;

use crate::protocol::codec::{announced, announced_len, frame};
use crate::protocol::packets::{PacketType, HEADER_SIZE};
use crate::text::{append_decimal, decimal};

verus! {

broadcast use vstd::std_specs::hash::group_hash_axioms;

/// Network errors.
#[derive(Debug, Clone, PartialEq, Eq)]
pub enum NetworkError {
    Io(String),
    PacketTooLarge { size: usize },
    ConnectionClosed,
    ChannelClosed,
}

impl NetworkError {
    /// What the error says.
    pub open spec fn text(&self) -> Seq<char> {
        match self {
            NetworkError::Io(cause) => "IO error: "@ + cause@,
            NetworkError::PacketTooLarge { size } => "packet too large: "@ + decimal(*size as nat)
                + " bytes"@,
            NetworkError::ConnectionClosed => "connection closed"@,
            NetworkError::ChannelClosed => "channel closed"@,
        }
    }

    /// What the error says.
    pub fn message(&self) -> (text: String)
        ensures
            text@ == self.text(),
    {
        let mut text: String = String::new();
        match self {
            NetworkError::Io(cause) => {
                text.append("IO error: ");
                text.append(cause);
            },
            NetworkError::PacketTooLarge { size } => {
                text.append("packet too large: ");
                append_decimal(&mut text, *size as u64);
                text.append(" bytes");
            },
            NetworkError::ConnectionClosed => text.append("connection closed"),
            NetworkError::ChannelClosed => text.append("channel closed"),
        }
        assert(text@ =~= self.text());
        text
    }
}

/// A message received from a TCP client.
#[derive(Debug, Clone, PartialEq, Eq)]
pub struct TcpMessage {
    pub data: Vec<u8>,
    pub client_id: u64,
}

/// TCP server for input and control packets (client -> server): the clients
/// that are connected, each with what messages to it are sent through.
#[derive(Debug)]
pub struct TcpServer<S> {
    client_senders: HashMap<u64, S>,
    next_client_id: u64,
}

impl<S> View for TcpServer<S> {
    type V = Map<u64, S>;

    closed spec fn view(&self) -> Map<u64, S> {
        self.client_senders@
    }
}

impl<S> TcpServer<S> {
    /// The ID that the next client gets.
    pub closed spec fn next_id(&self) -> u64 {
        self.next_client_id
    }

    /// Whether every client that is connected has an ID that was given out
    /// before.
    pub open spec fn numbered(&self) -> bool {
        forall|id: u64| #[trigger] self@.dom().contains(id) ==> 1 <= id < self.next_id()
    }

    /// Creates a server without clients.
    pub fn new() -> (server: TcpServer<S>)
        ensures
            server@ == Map::<u64, S>::empty(),
            server.next_id() == 1,
            server.numbered(),
    {
        TcpServer { client_senders: HashMap::new(), next_client_id: 1 }
    }

    /// Accept a new client connection: the client gets an ID of its own, and
    /// messages to it are sent through the sender.
    pub fn accept(&mut self, sender: S) -> (client_id: u64)
        ensures
            client_id == old(self).next_id(),
            final(self)@ == old(self)@.insert(client_id, sender),
            final(self).next_id() == if client_id == u64::MAX {
                0
            } else {
                (client_id + 1) as u64
            },
            old(self).numbered() ==> !old(self)@.dom().contains(client_id),
            old(self).numbered() && 1 <= client_id < u64::MAX ==> final(self).numbered(),
    {
        let client_id: u64 = self.next_client_id;
        self.next_client_id = client_id.wrapping_add(1);
        self.client_senders.insert(client_id, sender);
        assert forall|id: u64| #[trigger]
            self@.dom().contains(id) && old(self).numbered() && 1 <= client_id
                < u64::MAX implies 1 <= id < self.next_id() by {
            if id != client_id {
                assert(old(self)@.dom().contains(id));
            }
        }
        client_id
    }

    /// What a message to a specific client is sent through, if it is
    /// connected.
    pub fn send_to_client(&self, client_id: u64) -> (sender: Result<&S, NetworkError>)
        ensures
            match sender {
                Ok(sender) => self@.dom().contains(client_id) && *sender == self@[client_id],
                Err(error) => !self@.dom().contains(client_id) && error
                    == NetworkError::ConnectionClosed,
            },
    {
        match self.client_senders.get(&client_id) {
            Some(sender) => Ok(sender),
            None => Err(NetworkError::ConnectionClosed),
        }
    }

    /// Check if a client is still connected.
    pub fn is_client_connected(&self, client_id: u64) -> (connected: bool)
        ensures
            connected == self@.dom().contains(client_id),
    {
        self.client_senders.contains_key(&client_id)
    }

    /// Disconnect a client.
    pub fn disconnect_client(&mut self, client_id: u64)
        ensures
            final(self)@ == old(self)@.remove(client_id),
            final(self).next_id() == old(self).next_id(),
            old(self).numbered() ==> final(self).numbered(),
    {
        self.client_senders.remove(&client_id);
        assert forall|id: u64| #[trigger]
            self@.dom().contains(id) && old(self).numbered() implies 1 <= id
            < self.next_id() by {
            assert(old(self)@.dom().contains(id));
        }
    }
}

// ---------------------------------------------------------------------------
// One client
// ---------------------------------------------------------------------------

/// What is awaited of a client connection.
#[derive(Debug, Clone, PartialEq, Eq)]
pub enum ConnectionStage {
    /// A packet header, or a message to the client.
    Idle,
    /// The payload behind a header.
    Payload(Vec<u8>),
    /// That a message is taken.
    Delivery,
    /// That a message to the client is written.
    Writing,
    /// Nothing any more.
    Closed,
}

/// What happens to a client connection.
#[derive(Debug, Clone, PartialEq, Eq)]
pub enum ConnectionEvent {
    /// A whole packet header came in.
    Header { bytes: Vec<u8> },
    /// The stream ended before a whole header.
    EndOfStream,
    /// As many bytes as were asked for came in.
    Payload { bytes: Vec<u8> },
    /// Reading or writing failed.
    Failed { cause: String },
    /// A message was taken.
    Delivered,
    /// Nobody takes messages any more.
    Undeliverable,
    /// There is a message to the client.
    Outgoing { bytes: Vec<u8> },
    /// The message to the client was written.
    Written,
    /// The client was disconnected: there will be no message to it any more.
    Disconnected,
}

/// What to do with a client connection.
#[derive(Debug, PartialEq, Eq)]
pub enum ConnectionAction {
    /// Wait for a header or for a message to the client.
    Wait,
    /// Read this many bytes.
    ReadPayload { len: usize },
    /// Hand the message over.
    Deliver(TcpMessage),
    /// Write the bytes to the client.
    Write { bytes: Vec<u8> },
    /// Close the connection.
    Close(Result<(), NetworkError>),
}

/// Whether the event can happen at the stage: what was awaited came, or it
/// failed.
pub open spec fn can_happen(stage: ConnectionStage, event: ConnectionEvent) -> bool {
    match (stage, event) {
        (ConnectionStage::Idle, ConnectionEvent::Header { bytes }) => bytes@.len() == HEADER_SIZE,
        (ConnectionStage::Idle, ConnectionEvent::EndOfStream) => true,
        (ConnectionStage::Idle, ConnectionEvent::Failed { .. }) => true,
        (ConnectionStage::Idle, ConnectionEvent::Outgoing { .. }) => true,
        (ConnectionStage::Idle, ConnectionEvent::Disconnected) => true,
        (ConnectionStage::Payload(header), ConnectionEvent::Payload { bytes }) => header@.len()
            == HEADER_SIZE && bytes@.len() == announced(header@),
        (ConnectionStage::Payload(_), ConnectionEvent::Failed { .. }) => true,
        (ConnectionStage::Payload(_), ConnectionEvent::Disconnected) => true,
        (ConnectionStage::Delivery, ConnectionEvent::Delivered) => true,
        (ConnectionStage::Delivery, ConnectionEvent::Undeliverable) => true,
        (ConnectionStage::Writing, ConnectionEvent::Written) => true,
        (ConnectionStage::Writing, ConnectionEvent::Failed { .. }) => true,
        _ => false,
    }
}

/// Whether a step is the one that the event calls for.
pub open spec fn follows(
    stage: ConnectionStage,
    client_id: u64,
    event: ConnectionEvent,
    next: ConnectionStage,
    action: ConnectionAction,
) -> bool {
    match event {
        ConnectionEvent::Header { bytes } => {
            &&& next == ConnectionStage::Payload(bytes)
            &&& action matches ConnectionAction::ReadPayload { len } && len as nat == announced(
                bytes@,
            )
        },
        ConnectionEvent::EndOfStream => {
            &&& next == ConnectionStage::Closed
            &&& action == ConnectionAction::Close(Err(NetworkError::ConnectionClosed))
        },
        ConnectionEvent::Payload { bytes } => {
            &&& next == ConnectionStage::Delivery
            &&& action matches ConnectionAction::Deliver(message) && message.client_id == client_id
                && message.data@ == stage->Payload_0@ + bytes@
        },
        ConnectionEvent::Failed { cause } => {
            &&& next == ConnectionStage::Closed
            &&& action == ConnectionAction::Close(Err(NetworkError::Io(cause)))
        },
        ConnectionEvent::Delivered => next == ConnectionStage::Idle && action
            == ConnectionAction::Wait,
        ConnectionEvent::Undeliverable => {
            &&& next == ConnectionStage::Closed
            &&& action == ConnectionAction::Close(Err(NetworkError::ChannelClosed))
        },
        ConnectionEvent::Outgoing { bytes } => {
            &&& next == ConnectionStage::Writing
            &&& action == (ConnectionAction::Write { bytes })
        },
        ConnectionEvent::Written => next == ConnectionStage::Idle && action
            == ConnectionAction::Wait,
        ConnectionEvent::Disconnected => {
            &&& next == ConnectionStage::Closed
            &&& action == ConnectionAction::Close(Ok(()))
        },
    }
}

/// Handle a single TCP client connection: one step of it.
///
/// A header is followed by as many bytes as it announces; both together are a
/// message. A stream that ends between packets is a closed connection; one
/// that ends within a payload is an error of reading. The connection of a
/// client that was disconnected is closed.
pub fn handle_tcp_client(stage: ConnectionStage, client_id: u64, event: ConnectionEvent) -> (step: (
    ConnectionStage,
    ConnectionAction,
))
    requires
        can_happen(stage, event),
    ensures
        follows(stage, client_id, event, step.0, step.1),
{
    match event {
        ConnectionEvent::Header { bytes } => {
            let len: usize = announced_len(&bytes);
            (ConnectionStage::Payload(bytes), ConnectionAction::ReadPayload { len })
        },
        ConnectionEvent::EndOfStream => (
            ConnectionStage::Closed,
            ConnectionAction::Close(Err(NetworkError::ConnectionClosed)),
        ),
        ConnectionEvent::Payload { bytes } => match stage {
            ConnectionStage::Payload(header) => {
                let mut data: Vec<u8> = header;
                let mut payload: Vec<u8> = bytes;
                data.append(&mut payload);
                (
                    ConnectionStage::Delivery,
                    ConnectionAction::Deliver(TcpMessage { data, client_id }),
                )
            },
            other => (other, ConnectionAction::Wait),
        },
        ConnectionEvent::Failed { cause } => (
            ConnectionStage::Closed,
            ConnectionAction::Close(Err(NetworkError::Io(cause))),
        ),
        ConnectionEvent::Delivered => (ConnectionStage::Idle, ConnectionAction::Wait),
        ConnectionEvent::Undeliverable => (
            ConnectionStage::Closed,
            ConnectionAction::Close(Err(NetworkError::ChannelClosed)),
        ),
        ConnectionEvent::Outgoing { bytes } => (
            ConnectionStage::Writing,
            ConnectionAction::Write { bytes },
        ),
        ConnectionEvent::Written => (ConnectionStage::Idle, ConnectionAction::Wait),
        ConnectionEvent::Disconnected => (ConnectionStage::Closed, ConnectionAction::Close(Ok(()))),
    }
}

/// The messages that a stream of bytes is taken apart into: a header, and as
/// many bytes behind it as it announces, again and again. What is left at the
/// end is no message.
pub open spec fn messages(stream: Seq<u8>) -> Seq<Seq<u8>>
    decreases stream.len(),
{
    if stream.len() < HEADER_SIZE || stream.len() < HEADER_SIZE + announced(stream) {
        Seq::empty()
    } else {
        let len = HEADER_SIZE + announced(stream) as int;
        seq![stream.take(len)] + messages(stream.skip(len))
    }
}

/// Packets that are sent one after the other.
pub open spec fn sent(packets: Seq<(PacketType, Seq<u8>)>) -> Seq<u8>
    decreases packets.len(),
{
    if packets.len() == 0 {
        Seq::empty()
    } else {
        frame(packets[0].0, packets[0].1) + sent(packets.skip(1))
    }
}

/// Packets that are sent one after the other come out of the stream as they
/// went in, each one a message.
pub proof fn stream_gives_packets_back(packets: Seq<(PacketType, Seq<u8>)>)
    requires
        forall|i: int| 0 <= i < packets.len() ==> (#[trigger] packets[i]).1.len() <= 0xffff,
    ensures
        messages(sent(packets)) == packets.map_values(
            |packet: (PacketType, Seq<u8>)| frame(packet.0, packet.1),
        ),
    decreases packets.len(),
{
    let framing = |packet: (PacketType, Seq<u8>)| frame(packet.0, packet.1);
    if packets.len() > 0 {
        let (kind, payload) = packets[0];
        assert(packets[0].1.len() <= 0xffff);
        let rest = packets.skip(1);
        assert forall|i: int| 0 <= i < rest.len() implies (#[trigger] rest[i]).1.len()
            <= 0xffff by {
            assert(packets[i + 1].1.len() <= 0xffff);
        }
        stream_gives_packets_back(rest);
        let stream = sent(packets);
        let first = frame(kind, payload);
        crate::protocol::wire::lemma_capacities();
        crate::protocol::wire::le_round_trip(payload.len(), 2);
        assert(first.len() == 3 + payload.len());
        assert(stream.subrange(1, 3) =~= crate::protocol::wire::le(payload.len(), 2));
        assert(announced(stream) == payload.len());
        assert(stream.take(first.len() as int) =~= first);
        assert(stream.skip(first.len() as int) =~= sent(rest));
        assert(packets.map_values(framing) =~= seq![first] + rest.map_values(framing));
    } else {
        assert(packets.map_values(framing) =~= Seq::<Seq<u8>>::empty());
    }
}

/// A message that a connection delivers is what it was made of: the header, and
/// as many bytes as the header announces. So it begins a stream as the stream's
/// first message.
pub proof fn delivered_is_first_message(header: Seq<u8>, payload: Seq<u8>, rest: Seq<u8>)
    requires
        header.len() == HEADER_SIZE,
        payload.len() == announced(header),
    ensures
        messages(header + payload + rest) == seq![header + payload] + messages(rest),
{
    let stream = header + payload + rest;
    assert(stream.subrange(1, 3) =~= header.subrange(1, 3));
    let len = HEADER_SIZE + announced(stream) as int;
    assert(stream.take(len) =~= header + payload);
    assert(stream.skip(len) =~= rest);
}

/// Whether a connection runs like this from its beginning on: `events` happen to
/// it one after the other, `stages` are those before, between and after them,
/// and `actions` are what each calls for.
pub open spec fn is_run(
    client_id: u64,
    events: Seq<ConnectionEvent>,
    stages: Seq<ConnectionStage>,
    actions: Seq<ConnectionAction>,
) -> bool {
    &&& stages.len() == events.len() + 1
    &&& actions.len() == events.len()
    &&& stages[0] == ConnectionStage::Idle
    &&& forall|i: int|
        #![trigger events[i]]
        0 <= i < events.len() ==> can_happen(stages[i], events[i]) && follows(
            stages[i],
            client_id,
            events[i],
            stages[i + 1],
            actions[i],
        )
}

/// The bytes that were read from the client.
pub open spec fn bytes_read(events: Seq<ConnectionEvent>) -> Seq<u8>
    decreases events.len(),
{
    if events.len() == 0 {
        Seq::empty()
    } else {
        bytes_read(events.drop_last()) + match events.last() {
            ConnectionEvent::Header { bytes } => bytes@,
            ConnectionEvent::Payload { bytes } => bytes@,
            _ => Seq::empty(),
        }
    }
}

/// The header that was read last, if its payload has not come.
pub open spec fn open_header(events: Seq<ConnectionEvent>) -> Seq<u8>
    decreases events.len(),
{
    if events.len() == 0 {
        Seq::empty()
    } else {
        match events.last() {
            ConnectionEvent::Header { bytes } => bytes@,
            ConnectionEvent::Payload { .. } => Seq::empty(),
            _ => open_header(events.drop_last()),
        }
    }
}

/// The messages that were handed over: from whom, and their bytes.
pub open spec fn handed_over(actions: Seq<ConnectionAction>) -> Seq<(u64, Seq<u8>)>
    decreases actions.len(),
{
    if actions.len() == 0 {
        Seq::empty()
    } else {
        match actions.last() {
            ConnectionAction::Deliver(message) => handed_over(actions.drop_last()).push(
                (message.client_id, message.data@),
            ),
            _ => handed_over(actions.drop_last()),
        }
    }
}

/// The same bytes, all of one client.
pub open spec fn from_client(client_id: u64, list: Seq<Seq<u8>>) -> Seq<(u64, Seq<u8>)> {
    list.map_values(|data: Seq<u8>| (client_id, data))
}

/// Byte strings one after the other.
pub open spec fn joined(list: Seq<Seq<u8>>) -> Seq<u8>
    decreases list.len(),
{
    if list.len() == 0 {
        Seq::empty()
    } else {
        joined(list.drop_last()) + list.last()
    }
}

/// Whether the bytes are a header with as many bytes behind it as it announces.
pub open spec fn is_message(data: Seq<u8>) -> bool {
    data.len() >= HEADER_SIZE && data.len() == HEADER_SIZE + announced(data)
}

proof fn lemma_joined_messages(list: Seq<Seq<u8>>, rest: Seq<u8>)
    requires
        forall|i: int| 0 <= i < list.len() ==> is_message(#[trigger] list[i]),
    ensures
        messages(joined(list) + rest) == list + messages(rest),
    decreases list.len(),
{
    if list.len() == 0 {
        assert(joined(list) + rest =~= rest);
        assert(list + messages(rest) =~= messages(rest));
    } else {
        let before = list.drop_last();
        let data = list.last();
        assert(is_message(list[list.len() - 1]));
        assert forall|i: int| 0 <= i < before.len() implies is_message(#[trigger] before[i]) by {
            assert(is_message(list[i]));
        }
        lemma_joined_messages(before, data + rest);
        let header = data.take(HEADER_SIZE as int);
        let payload = data.skip(HEADER_SIZE as int);
        assert(header.subrange(1, 3) =~= data.subrange(1, 3));
        delivered_is_first_message(header, payload, rest);
        assert(header + payload =~= data);
        assert(joined(list) + rest =~= joined(before) + (data + rest));
        assert(before + (seq![data] + messages(rest)) =~= list + messages(rest));
    }
}

/// What holds at every point of a connection: the bytes that were read are those
/// of the messages that were handed over, all of the client, and of the open
/// header, which the connection knows while it waits for the payload.
proof fn lemma_run(
    client_id: u64,
    events: Seq<ConnectionEvent>,
    stages: Seq<ConnectionStage>,
    actions: Seq<ConnectionAction>,
) -> (list: Seq<Seq<u8>>)
    requires
        is_run(client_id, events, stages, actions),
    ensures
        handed_over(actions) == from_client(client_id, list),
        bytes_read(events) == joined(list) + open_header(events),
        forall|i: int| 0 <= i < list.len() ==> is_message(#[trigger] list[i]),
        match stages.last() {
            ConnectionStage::Payload(header) => open_header(events) == header@ && header@.len()
                == HEADER_SIZE,
            ConnectionStage::Closed => open_header(events).len() == 0 || open_header(events).len()
                == HEADER_SIZE,
            _ => open_header(events).len() == 0,
        },
    decreases events.len(),
{
    if events.len() == 0 {
        let list = Seq::<Seq<u8>>::empty();
        assert(handed_over(actions) =~= from_client(client_id, list));
        assert(bytes_read(events) =~= joined(list) + open_header(events));
        list
    } else {
        let n = events.len() - 1;
        let earlier = events.drop_last();
        assert forall|i: int| #![trigger earlier[i]] 0 <= i < earlier.len() implies can_happen(
            stages.drop_last()[i],
            earlier[i],
        ) && follows(
            stages.drop_last()[i],
            client_id,
            earlier[i],
            stages.drop_last()[i + 1],
            actions.drop_last()[i],
        ) by {
            assert(earlier[i] == events[i]);
        }
        let before = lemma_run(client_id, earlier, stages.drop_last(), actions.drop_last());
        assert(events[n] == events.last());
        assert(stages.drop_last().last() == stages[n]);
        assert(stages.last() == stages[n + 1]);
        assert(actions.last() == actions[n]);
        match events.last() {
            ConnectionEvent::Payload { bytes } => {
                let header = stages[n]->Payload_0@;
                let data = header + bytes@;
                let list = before.push(data);
                assert(data.subrange(1, 3) =~= header.subrange(1, 3));
                assert(is_message(data));
                assert(list.drop_last() =~= before);
                assert(bytes_read(events) =~= joined(list) + open_header(events));
                assert(handed_over(actions) =~= from_client(client_id, list));
                list
            },
            _ => {
                assert(bytes_read(events) =~= joined(before) + open_header(events));
                before
            },
        }
    }
}

/// A connection hands over exactly the messages that the bytes read from the
/// client are taken apart into, in order, each with the ID of the client. Only
/// if the last header announces no payload at all, and the connection has not
/// got to that payload, its message is still to come.
pub proof fn connection_delivers_messages(
    client_id: u64,
    events: Seq<ConnectionEvent>,
    stages: Seq<ConnectionStage>,
    actions: Seq<ConnectionAction>,
)
    requires
        is_run(client_id, events, stages, actions),
    ensures
        ({
            let left = open_header(events);
            let all = from_client(client_id, messages(bytes_read(events)));
            &&& left.len() > 0 && announced(left) == 0 ==> all == handed_over(actions).push(
                (client_id, left),
            )
            &&& left.len() == 0 || announced(left) > 0 ==> all == handed_over(actions)
            &&& left.len() > 0 ==> left.len() == HEADER_SIZE && (stages.last() is Payload
                || stages.last() is Closed)
        }),
{
    let list = lemma_run(client_id, events, stages, actions);
    let left = open_header(events);
    lemma_joined_messages(list, left);
    if left.len() > 0 && announced(left) == 0 {
        assert(left.take(3) =~= left);
        assert(left.skip(3).len() == 0);
        assert(messages(left.skip(3)) =~= Seq::<Seq<u8>>::empty());
        assert(messages(left) =~= seq![left]);
        assert(from_client(client_id, list + seq![left]) =~= handed_over(actions).push(
            (client_id, left),
        ));
    } else {
        assert(messages(left) =~= Seq::<Seq<u8>>::empty());
        assert(list + messages(left) =~= list);
    }
}

/// What a client has sent, packet after packet, is handed over packet after
/// packet, once all of it was read and the connection waits for more.
pub proof fn connection_delivers_packets(
    client_id: u64,
    packets: Seq<(PacketType, Seq<u8>)>,
    events: Seq<ConnectionEvent>,
    stages: Seq<ConnectionStage>,
    actions: Seq<ConnectionAction>,
)
    requires
        is_run(client_id, events, stages, actions),
        forall|i: int| 0 <= i < packets.len() ==> (#[trigger] packets[i]).1.len() <= 0xffff,
        bytes_read(events) == sent(packets),
        stages.last() == ConnectionStage::Idle,
    ensures
        handed_over(actions) == packets.map_values(
            |packet: (PacketType, Seq<u8>)| (client_id, frame(packet.0, packet.1)),
        ),
{
    connection_delivers_messages(client_id, events, stages, actions);
    stream_gives_packets_back(packets);
    assert(handed_over(actions) =~= packets.map_values(
        |packet: (PacketType, Seq<u8>)| (client_id, frame(packet.0, packet.1)),
    ));
}

/// A connection that is closed stays so: nothing happens to it any more, so it
/// hands no message over.
pub proof fn closed_is_the_end(
    client_id: u64,
    events: Seq<ConnectionEvent>,
    stages: Seq<ConnectionStage>,
    actions: Seq<ConnectionAction>,
    at: int,
)
    requires
        is_run(client_id, events, stages, actions),
        0 <= at < stages.len(),
        stages[at] == ConnectionStage::Closed,
    ensures
        at == events.len(),
{
    if at < events.len() {
        assert(can_happen(stages[at], events[at]));
    }
}

/// The connection of a client that was disconnected is closed, also in the
/// middle of a packet: no message of it is handed over, and nothing happens to
/// it any more.
pub proof fn disconnected_is_closed(
    stage: ConnectionStage,
    client_id: u64,
    next: ConnectionStage,
    action: ConnectionAction,
    event: ConnectionEvent,
)
    requires
        follows(stage, client_id, ConnectionEvent::Disconnected, next, action),
    ensures
        next == ConnectionStage::Closed,
        action == ConnectionAction::Close(Ok(())),
        !can_happen(next, event),
{
}

/// A client that was disconnected is not connected, the others still are, and
/// disconnecting it again changes nothing.
pub proof fn disconnected_is_gone<S>(clients: Map<u64, S>, client_id: u64, other: u64)
    ensures
        !clients.remove(client_id).dom().contains(client_id),
        other != client_id ==> clients.remove(client_id).dom().contains(other)
            == clients.dom().contains(other),
        other != client_id && clients.dom().contains(other) ==> clients.remove(client_id)[other]
            == clients[other],
        clients.remove(client_id).remove(client_id) == clients.remove(client_id),
{
    assert(clients.remove(client_id).remove(client_id) =~= clients.remove(client_id));
}

/// The bytes that were to be sent to the client.
pub open spec fn bytes_to_send(events: Seq<ConnectionEvent>) -> Seq<Seq<u8>>
    decreases events.len(),
{
    if events.len() == 0 {
        Seq::empty()
    } else {
        match events.last() {
            ConnectionEvent::Outgoing { bytes } => bytes_to_send(events.drop_last()).push(bytes@),
            _ => bytes_to_send(events.drop_last()),
        }
    }
}

/// The bytes that are written to the client.
pub open spec fn bytes_written(actions: Seq<ConnectionAction>) -> Seq<Seq<u8>>
    decreases actions.len(),
{
    if actions.len() == 0 {
        Seq::empty()
    } else {
        match actions.last() {
            ConnectionAction::Write { bytes } => bytes_written(actions.drop_last()).push(bytes@),
            _ => bytes_written(actions.drop_last()),
        }
    }
}

/// What is to be sent to the client is written to it, as it is and in its order,
/// and nothing else is.
pub proof fn messages_are_written(
    client_id: u64,
    events: Seq<ConnectionEvent>,
    stages: Seq<ConnectionStage>,
    actions: Seq<ConnectionAction>,
)
    requires
        is_run(client_id, events, stages, actions),
    ensures
        bytes_written(actions) == bytes_to_send(events),
    decreases events.len(),
{
    if events.len() > 0 {
        let n = events.len() - 1;
        let earlier = events.drop_last();
        assert forall|i: int| #![trigger earlier[i]] 0 <= i < earlier.len() implies can_happen(
            stages.drop_last()[i],
            earlier[i],
        ) && follows(
            stages.drop_last()[i],
            client_id,
            earlier[i],
            stages.drop_last()[i + 1],
            actions.drop_last()[i],
        ) by {
            assert(earlier[i] == events[i]);
        }
        messages_are_written(client_id, earlier, stages.drop_last(), actions.drop_last());
        assert(events[n] == events.last());
        assert(actions.last() == actions[n]);
    }
}

/// A connection goes on after every packet and every message, and closes exactly
/// when it ends, fails, nobody takes its messages any more, or the client was
/// disconnected; it says which of these it was.
pub proof fn connections_close_for_cause(
    stage: ConnectionStage,
    client_id: u64,
    event: ConnectionEvent,
    next: ConnectionStage,
    action: ConnectionAction,
)
    requires
        can_happen(stage, event),
        follows(stage, client_id, event, next, action),
    ensures
        ({
            let ends = event is EndOfStream || event is Failed || event is Undeliverable || event
                is Disconnected;
            &&& next == ConnectionStage::Closed <==> ends
            &&& action is Close <==> ends
            &&& event is EndOfStream ==> action->Close_0 == Err::<(), NetworkError>(
                NetworkError::ConnectionClosed,
            )
            &&& event is Failed ==> action->Close_0 == Err::<(), NetworkError>(
                NetworkError::Io(event->cause),
            )
            &&& event is Undeliverable ==> action->Close_0 == Err::<(), NetworkError>(
                NetworkError::ChannelClosed,
            )
            &&& event is Disconnected ==> action->Close_0 == Ok::<(), NetworkError>(())
            &&& event is Delivered || event is Written ==> next == ConnectionStage::Idle && action
                == ConnectionAction::Wait
            &&& event is Header ==> next is Payload && action is ReadPayload
            &&& event is Payload ==> next == ConnectionStage::Delivery && action is Deliver
            &&& event is Outgoing ==> next == ConnectionStage::Writing && action is Write
        }),
{
}

/// An error of reading or writing says its cause, and a packet that is too large
/// its size.
pub proof fn network_errors_say_why(cause: String, size: usize)
    ensures
        NetworkError::Io(cause).text() == "IO error: "@ + cause@,
        (NetworkError::PacketTooLarge { size }).text() == "packet too large: "@ + decimal(
            size as nat,
        ) + " bytes"@,
        NetworkError::ConnectionClosed.text() == "connection closed"@,
        NetworkError::ChannelClosed.text() == "channel closed"@,
{
}

} // verus!
