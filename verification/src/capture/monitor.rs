//! The monitor that a capture takes its frames from.

use vstd::prelude::*;

use crate::capture::frame::{same_bits_u32, to_unsigned};

verus! {

/// Errors that can occur during portal operations.
#[derive(Debug, Clone, PartialEq, Eq)]
pub enum PortalError {
    Portal(String),
    NoStreams,
    Cancelled,
}

impl PortalError {
    /// What the error says.
    pub open spec fn text(&self) -> Seq<char> {
        match self {
            PortalError::Portal(cause) => "portal error: "@ + cause@,
            PortalError::NoStreams => "no streams available"@,
            PortalError::Cancelled => "portal cancelled by user"@,
        }
    }

    /// What the error says.
    pub fn message(&self) -> (text: String)
        ensures
            text@ == self.text(),
    {
        let mut text: String = String::new();
        match self {
            PortalError::Portal(cause) => {
                text.append("portal error: ");
                text.append(cause);
            },
            PortalError::NoStreams => text.append("no streams available"),
            PortalError::Cancelled => text.append("portal cancelled by user"),
        }
        assert(text@ =~= self.text());
        text
    }
}

/// Information about a selected monitor/screen.
#[derive(Debug, Clone, PartialEq, Eq)]
pub struct MonitorInfo {
    /// PipeWire node ID for the stream.
    pub node_id: u32,
    /// Width of the captured area.
    pub width: u32,
    /// Height of the captured area.
    pub height: u32,
    /// Restore token for persistent selection.
    pub restore_token: Option<String>,
}

/// A stream that the portal offers.
#[derive(Debug, Clone, Copy, PartialEq, Eq)]
pub struct StreamInfo {
    pub node_id: u32,
    pub size: Option<(i32, i32)>,
}

/// Size that is taken for a stream that does not tell its own.
pub const DEFAULT_SIZE: (i32, i32) = (1920, 1080);

/// The size of a stream.
pub open spec fn stream_size(stream: StreamInfo) -> (i32, i32) {
    match stream.size {
        Some(size) => size,
        None => (1920, 1080),
    }
}

/// Selects the monitor of the first stream that the portal offers.
pub fn select_monitor(streams: &Vec<StreamInfo>, restore_token: Option<String>) -> (monitor: Result<
    MonitorInfo,
    PortalError,
>)
    ensures
        match monitor {
            Ok(monitor) => {
                &&& streams@.len() > 0
                &&& monitor.node_id == streams@[0].node_id
                &&& monitor.width == same_bits_u32(stream_size(streams@[0]).0)
                &&& monitor.height == same_bits_u32(stream_size(streams@[0]).1)
                &&& monitor.restore_token == restore_token
            },
            Err(error) => streams@.len() == 0 && error == PortalError::NoStreams,
        },
{
    if streams.len() == 0 {
        return Err(PortalError::NoStreams);
    }
    let stream: StreamInfo = streams[0];
    let (width, height): (i32, i32) = match stream.size {
        Some(size) => size,
        None => DEFAULT_SIZE,
    };
    Ok(
        MonitorInfo {
            node_id: stream.node_id,
            width: to_unsigned(width),
            height: to_unsigned(height),
            restore_token,
        },
    )
}

/// A stream that tells its size has that size, and one that does not is taken to
/// be 1920 by 1080.
pub proof fn streams_have_a_size(stream: StreamInfo)
    ensures
        stream.size is Some ==> stream_size(stream) == stream.size->Some_0,
        stream.size is None ==> stream_size(stream) == (1920i32, 1080i32),
{
}

/// An error of the portal says its cause.
pub proof fn portal_errors_say_why(cause: String)
    ensures
        PortalError::Portal(cause).text() == "portal error: "@ + cause@,
        PortalError::NoStreams.text() == "no streams available"@,
        PortalError::Cancelled.text() == "portal cancelled by user"@,
{
}

} // verus!
