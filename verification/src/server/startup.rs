//! What a server is started with.

use vstd::prelude::*;

use crate::capture::monitor::MonitorInfo;
use crate::encoder::pipeline::EncoderConfig;
use crate::protocol::wire::string_from_utf8;
use crate::server::config::ServerConfig;
use crate::text::{append_decimal, decimal, trim, trimmed};

verus! {

/// What the status says while a screen is being selected.
pub const STATUS_SELECTING: &'static str = "Selecting Screen...";

/// What the status says while the server is being set up.
pub const STATUS_INITIALIZING: &'static str = "Initializing...";

/// What the status says while the server runs.
pub const STATUS_RUNNING: &'static str = "Running";

/// What the status says while there is no server.
pub const STATUS_STOPPED: &'static str = "Stopped";

/// The type of the advertised service.
pub const SERVICE_TYPE: &'static str = "_drawingtablet._udp";

/// The address to listen on: every interface, at the given port.
pub fn bind_address(port: u16) -> (text: String)
    ensures
        text@ == "0.0.0.0:"@ + decimal(port as nat),
{
    let mut text: String = "0.0.0.0:".to_string();
    append_decimal(&mut text, port as u64);
    text
}

/// A size as it is shown.
pub fn resolution_text(width: u32, height: u32) -> (text: String)
    ensures
        text@ == decimal(width as nat) + "x"@ + decimal(height as nat),
{
    let mut text: String = String::new();
    append_decimal(&mut text, width as u64);
    text.append("x");
    append_decimal(&mut text, height as u64);
    assert(text@ =~= decimal(width as nat) + "x"@ + decimal(height as nat));
    text
}

/// The name that the server is advertised under.
pub fn service_name(host: &str) -> (text: String)
    ensures
        text@ == "Drawing Tablet ("@ + host@ + ")"@,
{
    let mut text: String = "Drawing Tablet (".to_string();
    text.append(host);
    text.append(")");
    text
}

/// The arguments that the server is advertised with: a service of the given
/// name and its type, at the given port.
pub fn advertise_args(name: &str, port: u16) -> (args: Vec<String>)
    ensures
        args@.map_values(|arg: String| arg@) == seq![
            "-s"@,
            name@,
            "_drawingtablet._udp"@,
            decimal(port as nat),
        ],
{
    let mut number: String = String::new();
    append_decimal(&mut number, port as u64);
    assert(number@ =~= decimal(port as nat));
    let args: Vec<String> = vec![
        "-s".to_string(),
        name.to_string(),
        SERVICE_TYPE.to_string(),
        number,
    ];
    assert(args@.map_values(|arg: String| arg@) =~= seq![
        "-s"@,
        name@,
        "_drawingtablet._udp"@,
        decimal(port as nat),
    ]);
    args
}

/// The text that bytes are, if they are text.
pub open spec fn text_of(bytes: Seq<u8>) -> Option<Seq<char>> {
    if vstd::utf8::valid_utf8(bytes) {
        Some(vstd::utf8::decode_utf8(bytes))
    } else {
        None
    }
}

/// The name of the host, from what the system says of it: the text without
/// white space around it, or a stand-in if it says nothing or no text.
pub fn host_name(output: Option<Vec<u8>>) -> (name: String)
    ensures
        name@ == match output {
            Some(bytes) => match text_of(bytes@) {
                Some(text) => trimmed(text),
                None => "Unknown"@,
            },
            None => "Unknown"@,
        },
{
    proof {
        lemma_stand_in_trimmed();
    }
    let text: String = match output {
        Some(bytes) => match string_from_utf8(bytes) {
            Ok(text) => text,
            Err(_) => "Unknown".to_string(),
        },
        None => "Unknown".to_string(),
    };
    trim(&text).to_string()
}

proof fn lemma_stand_in_trimmed()
    ensures
        trimmed("Unknown"@) == "Unknown"@,
{
    reveal_strlit("Unknown");
}

/// The encoder of a server: it encodes the whole screen.
pub fn encoder_config(config: &ServerConfig, monitor: &MonitorInfo) -> (encoder: EncoderConfig)
    ensures
        encoder == (EncoderConfig {
            width: monitor.width,
            height: monitor.height,
            fps: config.fps,
            bitrate: config.bitrate,
            keyframe_interval: config.keyframe_interval,
        }),
{
    EncoderConfig {
        width: monitor.width,
        height: monitor.height,
        fps: config.fps,
        bitrate: config.bitrate,
        keyframe_interval: config.keyframe_interval,
    }
}

/// Bytes are text exactly if they are UTF-8, and are then the text that they
/// encode.
pub proof fn text_is_utf8(bytes: Seq<u8>, text: Seq<char>)
    ensures
        text_of(bytes) is Some <==> vstd::utf8::valid_utf8(bytes),
        text_of(vstd::utf8::encode_utf8(text)) == Some(text),
{
    vstd::utf8::encode_utf8_valid_utf8(text);
    vstd::utf8::encode_utf8_decode_utf8(text);
}

} // verus!
