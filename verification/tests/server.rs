use drawing_tablet::capture::monitor::MonitorInfo;
use drawing_tablet::encoder::pipeline::EncoderConfig;
use drawing_tablet::encoder::video::EncodedFrame;
use drawing_tablet::protocol::codec::{
    decode_packet, encode_control, encode_input, encode_video,
};
use drawing_tablet::protocol::packets::{
    ControlPacket, DecodedPacket, InputEvent, InputPacket, VideoPacket,
};
use drawing_tablet::server::config::{Overrides, ServerConfig};
use drawing_tablet::server::encoding::PtsCounter;
use drawing_tablet::server::fragments::{batch_end, fragment_frame};
use drawing_tablet::server::icon::{icon_of, window_icon, Icon};
use drawing_tablet::server::network::{
    handle_tcp_client, ConnectionAction, ConnectionEvent, ConnectionStage, NetworkError,
    TcpMessage, TcpServer,
};
use drawing_tablet::server::panel::{
    after_frame, client_label, count_label, source_label, Activity, Click, DtServerApp, Rgb,
};
use drawing_tablet::server::session::{HandOver, MessageAction, PeerAddr, Session};
use drawing_tablet::server::startup::{
    advertise_args, bind_address, encoder_config, host_name, resolution_text, service_name,
};
use drawing_tablet::server::stats::{describe_error, ServerStats};
use drawing_tablet::text::{parse_number, same_text, trim};

fn texts(list: &[&str]) -> Vec<String> {
    list.iter().map(|s| s.to_string()).collect()
}

fn nothing() -> Overrides {
    Overrides { port: None, fps: None, bitrate: None }
}

fn numbers(config: &ServerConfig) -> (u16, u32, u32, u32) {
    (config.port, config.fps, config.bitrate, config.keyframe_interval)
}

#[test]
fn default_configuration() {
    let config = ServerConfig::default();
    assert_eq!(numbers(&config), (9999, 100, 8000, 10));
    assert_eq!(config.output_name, None);
    assert_eq!(config.tablet.name, "Drawing Tablet Pen");
    assert_eq!(ServerConfig::from_args(&texts(&["dt-server"]), &nothing()), Some(config.clone()));
    assert_eq!(ServerConfig::from_args(&vec![], &nothing()), Some(config));
}

#[test]
fn arguments_of_the_server() {
    let args = texts(&["x", "-p", "1234", "--fps", "30", "--what", "-b", "500", "-k", "7"]);
    let config = ServerConfig::from_args(&args, &nothing()).unwrap();
    assert_eq!(numbers(&config), (1234, 30, 500, 7));
    let args = texts(&["x", "--port", "70000", "--bitrate", "many", "--keyframe-interval", "+3"]);
    let config = ServerConfig::from_args(&args, &nothing()).unwrap();
    assert_eq!(numbers(&config), (9999, 100, 8000, 3));
    let args = texts(&["x", "-f", "24", "-f", "25", "-p"]);
    let config = ServerConfig::from_args(&args, &nothing()).unwrap();
    assert_eq!(numbers(&config), (9999, 25, 8000, 10));
    let args = texts(&["x", "-p", "-h", "1"]);
    let config = ServerConfig::from_args(&args, &nothing()).unwrap();
    assert_eq!(config.port, 9999);
}

#[test]
fn help_is_asked_for() {
    assert_eq!(ServerConfig::from_args(&texts(&["x", "-p", "1", "-h"]), &nothing()), None);
    assert_eq!(ServerConfig::from_args(&texts(&["x", "--help"]), &nothing()), None);
}

#[test]
fn environment_overrides_arguments() {
    let overrides = Overrides {
        port: Some("7".to_string()),
        fps: Some(" 8".to_string()),
        bitrate: Some("9".to_string()),
    };
    let args = texts(&["x", "-p", "1", "-f", "2", "-b", "3"]);
    let config = ServerConfig::from_args(&args, &overrides).unwrap();
    assert_eq!(numbers(&config), (7, 2, 9, 10));
}

#[test]
fn configuration_that_is_typed_in() {
    let config = ServerConfig::from_inputs(" 80\t", "0", "999", "\u{3000}5 ");
    assert_eq!(numbers(&config), (80, 1, 1000, 5));
    let config = ServerConfig::from_inputs("", "x", "-1", "99999999999");
    assert_eq!(numbers(&config), (9999, 100, 50000, 2));
}

#[test]
fn numbers_are_read_as_the_standard_library_does() {
    for text in [
        "", "0", "00", "7", "65535", "65536", "+", "+1", "++1", "-0", "-1", " 1", "1 ", "1_0",
        "4294967295", "4294967296", "99999999999999999999", "0x1", "१",
    ] {
        assert_eq!(parse_number(text, 65535), text.parse::<u16>().ok().map(u32::from), "{text}");
        assert_eq!(parse_number(text, u32::MAX), text.parse::<u32>().ok(), "{text}");
    }
}

#[test]
fn white_space_is_that_of_the_standard_library() {
    for n in 0..0x3100u32 {
        if let Some(c) = char::from_u32(n) {
            let text = format!("{c}{c}a{c}b{c}");
            assert_eq!(trim(&text), text.trim(), "{n}");
        }
    }
    assert_eq!(trim("  \n"), "");
    assert!(same_text("äb", "äb"));
    assert!(!same_text("äb", "äc"));
    assert!(!same_text("a", "ab"));
}

#[test]
fn startup_texts() {
    assert_eq!(bind_address(9999), "0.0.0.0:9999");
    assert_eq!(bind_address(0), "0.0.0.0:0");
    assert_eq!(resolution_text(1920, 1080), "1920x1080");
    assert_eq!(service_name("desk"), "Drawing Tablet (desk)");
    assert_eq!(
        advertise_args("Drawing Tablet (desk)", 9999),
        texts(&["-s", "Drawing Tablet (desk)", "_drawingtablet._udp", "9999"])
    );
    assert_eq!(describe_error("no"), "Error: no");
}

#[test]
fn names_of_hosts() {
    assert_eq!(host_name(Some(b"desk\n".to_vec())), "desk");
    assert_eq!(host_name(Some("büro \n".as_bytes().to_vec())), "büro");
    assert_eq!(host_name(Some(vec![0xff])), "Unknown");
    assert_eq!(host_name(None), "Unknown");
    assert_eq!(host_name(Some(vec![])), "");
}

#[test]
fn encoder_of_a_server() {
    let monitor = MonitorInfo { node_id: 1, width: 2, height: 3, restore_token: None };
    let config = ServerConfig::from_inputs("1", "4", "5000", "6");
    assert_eq!(
        encoder_config(&config, &monitor),
        EncoderConfig { width: 2, height: 3, fps: 4, bitrate: 5000, keyframe_interval: 6 }
    );
}

#[test]
fn log_keeps_fifty_lines() {
    let mut stats = ServerStats::default();
    for i in 0..60 {
        stats.log_at("12:34:56", format!("line {i}"));
    }
    assert_eq!(stats.logs.len(), 50);
    assert_eq!(stats.logs[0], "[12:34:56] line 10");
    assert_eq!(stats.logs[49], "[12:34:56] line 59");
}

#[test]
fn log_tells_the_time() {
    let mut stats = ServerStats::default();
    stats.log("hello".to_string());
    let line = stats.logs[0].clone();
    assert_eq!(line.len(), 16);
    assert!(line.starts_with('['));
    assert!(line.ends_with("] hello"));
    let parts: Vec<u32> = line[1..9].split(':').map(|p| p.parse().unwrap()).collect();
    assert_eq!(parts.len(), 3);
    assert!(parts[0] < 24 && parts[1] < 60 && parts[2] <= 60);
}

#[test]
fn restart_keeps_the_log() {
    let mut stats = ServerStats::default();
    stats.log_at("00:00:00", "old".to_string());
    stats.captured = 5;
    stats.connected_client = Some("x".to_string());
    stats.resolution = "1x1".to_string();
    stats.stylus_buttons = [true, true];
    stats.restart_at("00:00:01");
    assert_eq!(stats.captured, 0);
    assert_eq!(stats.connected_client, None);
    assert_eq!(stats.resolution, "");
    assert_eq!(stats.status, "Starting...");
    assert_eq!(stats.stylus_buttons, [false, false]);
    assert_eq!(stats.logs.len(), 2);
    assert_eq!(stats.logs[1], "[00:00:01] Starting server thread...");
    stats.restart();
    assert_eq!(stats.logs.len(), 3);
    stats.failed("no luck");
    assert_eq!(stats.status, "Error: no luck");
    assert!(stats.logs[3].ends_with("] Error: no luck"));
    stats.stopped();
    assert_eq!(stats.status, "Stopped");
    assert!(stats.logs[4].ends_with("] Server stopped."));
}

#[test]
fn clients_get_their_own_ids() {
    let mut server: TcpServer<&str> = TcpServer::new();
    assert_eq!(server.accept("a"), 1);
    assert_eq!(server.accept("b"), 2);
    assert!(server.is_client_connected(1));
    assert_eq!(server.send_to_client(2), Ok(&"b"));
    server.disconnect_client(1);
    assert!(!server.is_client_connected(1));
    assert_eq!(server.send_to_client(1), Err(NetworkError::ConnectionClosed));
    assert_eq!(server.accept("c"), 3);
}

#[test]
fn connection_delivers_packets() {
    let wire = encode_control(&ControlPacket::Connect { version: 1 }).unwrap();
    let (stage, action) = handle_tcp_client(
        ConnectionStage::Idle,
        4,
        ConnectionEvent::Header { bytes: wire[..3].to_vec() },
    );
    assert_eq!(action, ConnectionAction::ReadPayload { len: 8 });
    let (stage, action) =
        handle_tcp_client(stage, 4, ConnectionEvent::Payload { bytes: wire[3..].to_vec() });
    assert_eq!(action, ConnectionAction::Deliver(TcpMessage { data: wire, client_id: 4 }));
    assert_eq!(stage, ConnectionStage::Delivery);
    assert_eq!(
        handle_tcp_client(stage.clone(), 4, ConnectionEvent::Delivered),
        (ConnectionStage::Idle, ConnectionAction::Wait)
    );
    assert_eq!(
        handle_tcp_client(stage, 4, ConnectionEvent::Undeliverable),
        (ConnectionStage::Closed, ConnectionAction::Close(Err(NetworkError::ChannelClosed)))
    );
}

#[test]
fn connection_ends() {
    assert_eq!(
        handle_tcp_client(ConnectionStage::Idle, 4, ConnectionEvent::EndOfStream).1,
        ConnectionAction::Close(Err(NetworkError::ConnectionClosed))
    );
    assert_eq!(
        handle_tcp_client(ConnectionStage::Idle, 4, ConnectionEvent::Disconnected),
        (ConnectionStage::Closed, ConnectionAction::Close(Ok(())))
    );
    let reading = ConnectionStage::Payload(vec![1, 2, 0]);
    assert_eq!(
        handle_tcp_client(reading, 4, ConnectionEvent::Disconnected),
        (ConnectionStage::Closed, ConnectionAction::Close(Ok(())))
    );
    let failure = || ConnectionEvent::Failed { cause: "x".to_string() };
    for stage in [
        ConnectionStage::Idle,
        ConnectionStage::Payload(vec![1, 2, 0]),
        ConnectionStage::Writing,
    ] {
        assert_eq!(
            handle_tcp_client(stage, 4, failure()).1,
            ConnectionAction::Close(Err(NetworkError::Io("x".to_string())))
        );
    }
    let (stage, action) =
        handle_tcp_client(ConnectionStage::Idle, 4, ConnectionEvent::Outgoing { bytes: vec![9] });
    assert_eq!(action, ConnectionAction::Write { bytes: vec![9] });
    assert_eq!(
        handle_tcp_client(stage, 4, ConnectionEvent::Written),
        (ConnectionStage::Idle, ConnectionAction::Wait)
    );
}

#[test]
fn stream_of_packets_is_taken_apart() {
    let packets = [
        encode_control(&ControlPacket::Connect { version: 1 }).unwrap(),
        encode_control(&ControlPacket::Heartbeat).unwrap(),
        encode_input(&InputPacket { timestamp: 5, event: InputEvent::StylusUp }).unwrap(),
    ];
    let stream: Vec<u8> = packets.iter().flatten().copied().collect();
    let mut at = 0;
    let mut out = Vec::new();
    let mut stage = ConnectionStage::Idle;
    while at < stream.len() {
        let header = stream[at..at + 3].to_vec();
        at += 3;
        let (next, action) =
            handle_tcp_client(stage, 1, ConnectionEvent::Header { bytes: header });
        let len = match action {
            ConnectionAction::ReadPayload { len } => len,
            _ => unreachable!(),
        };
        let bytes = stream[at..at + len].to_vec();
        at += len;
        let (next, action) = handle_tcp_client(next, 1, ConnectionEvent::Payload { bytes });
        match action {
            ConnectionAction::Deliver(message) => {
                assert_eq!(message.client_id, 1);
                out.push(message.data);
            }
            _ => unreachable!(),
        }
        stage = handle_tcp_client(next, 1, ConnectionEvent::Delivered).0;
        assert_eq!(stage, ConnectionStage::Idle);
        stage = handle_tcp_client(stage, 1, ConnectionEvent::Outgoing { bytes: vec![7] }).0;
        stage = handle_tcp_client(stage, 1, ConnectionEvent::Written).0;
    }
    assert_eq!(out, packets.to_vec());
}

#[test]
fn network_errors_explain_themselves() {
    assert_eq!(NetworkError::Io("x".to_string()).message(), "IO error: x");
    assert_eq!(
        NetworkError::PacketTooLarge { size: 12 }.message(),
        "packet too large: 12 bytes"
    );
    assert_eq!(NetworkError::ConnectionClosed.message(), "connection closed");
    assert_eq!(NetworkError::ChannelClosed.message(), "channel closed");
}

fn encoded(len: usize) -> EncodedFrame {
    EncodedFrame {
        is_keyframe: true,
        pts: 77,
        data: (0..len).map(|i| (i % 251) as u8).collect(),
    }
}

fn video(wire: &[u8]) -> VideoPacket {
    match decode_packet(wire) {
        Ok(DecodedPacket::Video(packet)) => packet,
        _ => panic!("expected video packet"),
    }
}

#[test]
fn fragments_make_up_the_frame() {
    for (len, count) in [(0, 0), (1, 1), (1400, 1), (1401, 2), (2800, 2), (10_000, 8)] {
        let frame = encoded(len);
        let packets = fragment_frame(5, &frame);
        assert_eq!(packets.len(), count);
        let mut data = Vec::new();
        for (i, wire) in packets.iter().enumerate() {
            assert!(wire.len() <= 1428);
            let packet = video(wire);
            assert_eq!(packet.sequence, 5);
            assert_eq!(packet.timestamp, 77);
            assert!(packet.is_keyframe);
            assert_eq!(packet.fragment_index as usize, i);
            assert_eq!(packet.fragment_count as usize, count);
            assert_eq!(encode_video(&packet).unwrap(), *wire);
            data.extend_from_slice(&packet.data);
        }
        assert_eq!(data, frame.data);
    }
}

#[test]
fn datagrams_are_sent_in_batches() {
    for total in 0..40 {
        let all: Vec<usize> = (0..total).collect();
        let mut batches: Vec<Vec<usize>> = Vec::new();
        let mut sent = 0;
        while sent < total {
            let end = batch_end(sent, total);
            batches.push(all[sent..end].to_vec());
            sent = end;
        }
        let expected: Vec<Vec<usize>> = all.chunks(8).map(|batch| batch.to_vec()).collect();
        assert_eq!(batches, expected);
    }
    assert_eq!(batch_end(usize::MAX, usize::MAX), usize::MAX);
    assert_eq!(batch_end(usize::MAX - 9, usize::MAX), usize::MAX - 1);
}

#[test]
fn times_of_encoded_frames() {
    let mut counter = PtsCounter::new(60);
    let times: Vec<u64> = (0..3).map(|_| counter.stamp(encoded(1)).pts).collect();
    assert_eq!(times, vec![0, 16666, 33332]);
    assert_eq!(counter.stamp(encoded(3)).data, encoded(3).data);
}

fn peer(port: u16) -> PeerAddr {
    PeerAddr { host: "10.0.0.2".to_string(), port }
}

fn control(client_id: u64, packet: ControlPacket) -> TcpMessage {
    TcpMessage { data: encode_control(&packet).unwrap(), client_id }
}

#[test]
fn client_of_this_version_is_taken() {
    let mut session = Session::new(800, 600);
    let mut stats = ServerStats::default();
    assert_eq!(session.accepted(1, peer(4000)), None);
    let action = session.message(&control(1, ControlPacket::Connect { version: 1 }), &mut stats);
    let ack = encode_control(&ControlPacket::ConnectAck { width: 800, height: 600 }).unwrap();
    assert_eq!(action, MessageAction::Send { client_id: 1, data: ack });
    assert_eq!(session.client_id(), Some(1));
}

#[test]
fn client_of_another_version_is_refused() {
    let mut session = Session::new(800, 600);
    let mut stats = ServerStats::default();
    session.accepted(1, peer(4000));
    let action = session.message(&control(1, ControlPacket::Connect { version: 2 }), &mut stats);
    match action {
        MessageAction::Refuse { client_id, data } => {
            assert_eq!(client_id, 1);
            assert_eq!(
                decode_packet(&data),
                Ok(DecodedPacket::Control(ControlPacket::ConnectNack {
                    reason: "Protocol version mismatch: expected 1, got 2".to_string(),
                }))
            );
        }
        _ => panic!("expected a refusal"),
    }
    assert_eq!(session.client_id(), None);
}

#[test]
fn newer_client_replaces_the_older() {
    let mut session = Session::new(1, 1);
    assert_eq!(session.accepted(1, peer(1)), None);
    assert_eq!(session.accepted(2, peer(2)), Some(1));
    assert_eq!(session.client_id(), Some(2));
    let mut stats = ServerStats::default();
    let stranger = control(1, ControlPacket::Disconnect);
    assert_eq!(session.message(&stranger, &mut stats), MessageAction::Nothing);
    assert_eq!(session.client_id(), Some(2));
}

#[test]
fn client_sets_its_port_and_leaves() {
    let mut session = Session::new(1, 1);
    let mut stats = ServerStats::default();
    session.accepted(3, peer(1));
    let action = session.message(&control(3, ControlPacket::SetUdpPort { port: 99 }), &mut stats);
    assert_eq!(action, MessageAction::Nothing);
    assert_eq!(session.udp_port(), Some(99));
    session.publish_client(&mut stats);
    assert_eq!(stats.connected_client, Some("10.0.0.2:99".to_string()));
    assert_eq!(
        session.message(&control(3, ControlPacket::Heartbeat), &mut stats),
        MessageAction::Nothing
    );
    assert_eq!(
        session.message(&control(3, ControlPacket::Disconnect), &mut stats),
        MessageAction::Disconnect { client_id: 3 }
    );
    assert_eq!(session.client_id(), None);
    assert_eq!(session.udp_port(), None);
    session.publish_client(&mut stats);
    assert_eq!(stats.connected_client, None);
}

#[test]
fn client_asks_for_a_keyframe() {
    let mut session = Session::new(1, 1);
    let mut stats = ServerStats::default();
    session.accepted(3, peer(1));
    assert!(!session.take_keyframe_request());
    session.message(&control(3, ControlPacket::RequestKeyframe), &mut stats);
    assert!(session.take_keyframe_request());
    assert!(!session.take_keyframe_request());
}

#[test]
fn input_of_the_client_is_retimed() {
    let mut session = Session::new(1, 1);
    let mut stats = ServerStats::default();
    session.accepted(3, peer(1));
    let press = InputPacket {
        timestamp: 10,
        event: InputEvent::StylusButton { button: 1, pressed: true },
    };
    let message = TcpMessage { data: encode_input(&press).unwrap(), client_id: 3 };
    assert_eq!(session.message(&message, &mut stats), MessageAction::Deliver { packet: press });
    assert_eq!(stats.stylus_buttons, [false, true]);
    assert_eq!(session.due_input(), vec![]);
    let later = InputPacket { timestamp: 20_010, event: InputEvent::StylusUp };
    let message = TcpMessage { data: encode_input(&later).unwrap(), client_id: 3 };
    assert_eq!(session.message(&message, &mut stats), MessageAction::Nothing);
    let mut due = Vec::new();
    while due.is_empty() {
        due = session.due_input();
    }
    assert_eq!(due, vec![later]);
    let last = InputPacket { timestamp: 90_000_000, event: InputEvent::StylusUp };
    let message = TcpMessage { data: encode_input(&last).unwrap(), client_id: 3 };
    assert_eq!(session.message(&message, &mut stats), MessageAction::Nothing);
    session.connection_checked(false);
    assert_eq!(session.client_id(), None);
    assert_eq!(session.due_input(), vec![]);
}

#[test]
fn what_is_no_packet_is_ignored() {
    let mut session = Session::new(1, 1);
    let mut stats = ServerStats::default();
    session.accepted(3, peer(1));
    for data in [vec![], vec![9, 0, 0], fragment_frame(1, &encoded(10))[0].clone()] {
        let message = TcpMessage { data, client_id: 3 };
        assert_eq!(session.message(&message, &mut stats), MessageAction::Nothing);
    }
    let odd = InputPacket {
        timestamp: 10,
        event: InputEvent::StylusButton { button: 2, pressed: true },
    };
    let message = TcpMessage { data: encode_input(&odd).unwrap(), client_id: 3 };
    session.message(&message, &mut stats);
    assert_eq!(stats.stylus_buttons, [false, false]);
    session.connection_checked(true);
    assert_eq!(session.client_id(), Some(3));
}

#[test]
fn frames_are_counted_and_published() {
    let mut session = Session::new(1, 1);
    let mut stats = ServerStats::default();
    assert!(!session.wants_frames());
    assert_eq!(session.frame_encoded(&encoded(10)), None);
    session.accepted(3, peer(1));
    assert!(session.wants_frames());
    assert!(!session.frame_captured(HandOver::Taken));
    assert!(!session.frame_captured(HandOver::Busy));
    assert!(session.frame_captured(HandOver::Gone));
    let packets = session.frame_encoded(&encoded(3000)).unwrap();
    assert_eq!(video(&packets[0]).sequence, 1);
    session.frame_sent(packets.len() as u64, true);
    let packets = session.frame_encoded(&encoded(1)).unwrap();
    assert_eq!(video(&packets[0]).sequence, 2);
    session.frame_sent(packets.len() as u64, false);
    let late: u128 = 3_000_000_000_000;
    session.publish_stats_at(&mut stats, 0, 0);
    assert_eq!(stats.captured, 0);
    session.publish_stats_at(&mut stats, late, late);
    assert_eq!(stats.captured, 3);
    assert_eq!(stats.dropped, 1);
    assert_eq!(stats.encoded, 3);
    assert_eq!(stats.keyframes, 3);
    assert_eq!(stats.sent, 1);
    assert_eq!(stats.fragments, 3);
    assert_eq!(stats.errors, 0);
    session.publish_stats_at(&mut stats, late + 1_000_000_000, late);
    assert_eq!(stats.captured, 3);
    session.publish_stats_at(&mut stats, late + 1_000_000_001, late);
    assert_eq!(stats.captured, 0);
    session.publish_stats(&mut stats);
}

#[test]
fn heartbeats_come_every_second() {
    let mut session = Session::new(1, 1);
    let late: u128 = 3_000_000_000_000;
    assert_eq!(session.heartbeat_at(late, late), None);
    session.accepted(3, peer(1));
    let beat = encode_control(&ControlPacket::Heartbeat).unwrap();
    assert_eq!(session.heartbeat_at(late, late), Some((3, beat.clone())));
    assert_eq!(session.heartbeat_at(late + 1_000_000_000, late), None);
    assert_eq!(session.heartbeat_at(late + 1_000_000_001, late), Some((3, beat)));
    assert_eq!(session.heartbeat(), None);
}

#[test]
fn panel_shows_the_server() {
    let rgb = |red: u8, green: u8, blue: u8| Rgb { red, green, blue };
    let active = Activity::new(true, true);
    assert_eq!(active, Activity::Active);
    assert_eq!(active.indicator().text, "ACTIVE");
    assert_eq!(active.indicator().color, rgb(100, 255, 100));
    assert_eq!(active.button().text, "STOP SERVER");
    assert_eq!(active.button().color, rgb(180, 40, 40));
    assert_eq!(active.click(), Click::Stop);
    let stopping = Activity::new(false, true);
    assert_eq!(stopping, Activity::Stopping);
    assert_eq!(stopping.indicator().text, "STOPPING");
    assert_eq!(stopping.indicator().color, rgb(255, 200, 100));
    assert_eq!(stopping.button().text, "STOPPING...");
    assert_eq!(stopping.button().color, rgb(80, 80, 80));
    assert_eq!(stopping.click(), Click::Nothing);
    let offline = Activity::new(false, false);
    assert_eq!(offline, Activity::Offline);
    assert_eq!(offline.indicator().text, "OFFLINE");
    assert_eq!(offline.indicator().color, rgb(255, 100, 100));
    assert_eq!(offline.button().text, "START SERVER");
    assert_eq!(offline.button().color, rgb(58, 118, 240));
    assert_eq!(offline.click(), Click::Start);
    assert_eq!(Activity::new(true, false), Activity::Active);
}

#[test]
fn finished_task_is_dropped() {
    assert_eq!(after_frame(true, Some(true)), (false, false));
    assert_eq!(after_frame(false, Some(true)), (false, false));
    assert_eq!(after_frame(true, Some(false)), (true, true));
    assert_eq!(after_frame(false, Some(false)), (false, true));
    assert_eq!(after_frame(true, None), (true, false));
    assert_eq!(after_frame(false, None), (false, false));
}

#[test]
fn panel_starts_the_server() {
    let mut app = DtServerApp::new();
    assert_eq!(app.port_input, "9999");
    assert!(!app.show_help_dialog);
    assert_eq!(
        numbers(&app.start_server(false, false).unwrap()),
        (9999, 60, 8000, 10)
    );
    app.fps_input = "nothing".to_string();
    assert_eq!(app.start_server(false, false).unwrap().fps, 100);
    assert_eq!(app.start_server(true, false), None);
    assert_eq!(app.start_server(false, true), None);
}

#[test]
fn panel_labels() {
    assert_eq!(client_label(&Some("10.0.0.2:99".to_string())), "Connected: 10.0.0.2:99");
    assert_eq!(client_label(&None), "Waiting for client...");
    assert_eq!(source_label("1x2"), "Source: 1x2");
    assert_eq!(count_label(u64::MAX), u64::MAX.to_string());
    assert_eq!(count_label(0), "0");
}

#[test]
fn icon_of_the_window() {
    let picture = image::RgbaImage::from_fn(2, 1, |x, _| image::Rgba([x as u8, 20, 30, 40]));
    let mut file = std::io::Cursor::new(Vec::new());
    picture.write_to(&mut file, image::ImageFormat::Png).unwrap();
    assert_eq!(
        window_icon(&file.into_inner()),
        Some(Icon { rgba: vec![0, 20, 30, 40, 1, 20, 30, 40], width: 2, height: 1 })
    );
    assert_eq!(window_icon(&[1, 2, 3]), None);
}

#[test]
fn icon_of_what_was_decoded() {
    let icon = || Icon { rgba: vec![1, 2, 3, 4], width: 1, height: 1 };
    assert_eq!(icon_of(Ok(icon())), Some(icon()));
    let error = image::load_from_memory(&[1, 2, 3]).unwrap_err();
    assert_eq!(icon_of(Err(error)), None);
}
