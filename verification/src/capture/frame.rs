//! Captured frames.

use vstd::prelude::*;

verus! {

/// Errors that can occur during screen capture.
#[derive(Debug, Clone, PartialEq, Eq)]
pub enum CaptureError {
    InitFailed(String),
    StreamFailed(String),
    Stopped,
    NoFrameData,
}

impl CaptureError {
    /// What the error says.
    pub open spec fn text(&self) -> Seq<char> {
        match self {
            CaptureError::InitFailed(cause) => "PipeWire initialization failed: "@ + cause@,
            CaptureError::StreamFailed(cause) => "stream connection failed: "@ + cause@,
            CaptureError::Stopped => "capture stopped"@,
            CaptureError::NoFrameData => "no frame data available"@,
        }
    }

    /// What the error says.
    pub fn message(&self) -> (text: String)
        ensures
            text@ == self.text(),
    {
        let mut text: String = String::new();
        match self {
            CaptureError::InitFailed(cause) => {
                text.append("PipeWire initialization failed: ");
                text.append(cause);
            },
            CaptureError::StreamFailed(cause) => {
                text.append("stream connection failed: ");
                text.append(cause);
            },
            CaptureError::Stopped => text.append("capture stopped"),
            CaptureError::NoFrameData => text.append("no frame data available"),
        }
        assert(text@ =~= self.text());
        text
    }
}

/// Pixel format of captured frames.
#[derive(Debug, Clone, Copy, PartialEq, Eq, Structural)]
pub enum PixelFormat {
    Bgra,
    Rgba,
    Bgrx,
    Rgbx,
    Unknown,
}

/// Frame data types.
#[derive(Debug, Clone, PartialEq, Eq)]
pub enum FrameData {
    /// DMA-BUF file descriptor with modifier.
    DmaBuf { fd: i32, offset: u32, stride: u32, modifier: u64 },
    /// Memory-mapped data (copy).
    MemPtr(Vec<u8>),
}

/// A captured frame.
#[derive(Debug, Clone, PartialEq, Eq)]
pub struct Frame {
    /// Width in pixels.
    pub width: u32,
    /// Height in pixels.
    pub height: u32,
    /// Pixel format.
    pub format: PixelFormat,
    /// Stride (bytes per row).
    pub stride: u32,
    /// Frame data.
    pub data: FrameData,
}

/// Where a buffer of the stream holds its data.
#[derive(Debug, Clone, Copy, PartialEq, Eq, Structural)]
pub struct Chunk {
    pub offset: u32,
    pub size: u32,
    pub stride: i32,
}

/// A signed number as the unsigned one with the same bits.
pub open spec fn same_bits_u32(n: i32) -> u32 {
    if n >= 0 {
        n as u32
    } else {
        (n + 0x1_0000_0000) as u32
    }
}

/// A signed number as the unsigned one with the same bits.
pub fn to_unsigned(n: i32) -> (bits: u32)
    ensures
        bits == same_bits_u32(n),
{
    if n >= 0 {
        n as u32
    } else {
        (n as i64 + 0x1_0000_0000) as u32
    }
}

/// Whether a frame can be taken from a buffer: it is mapped, and its chunk
/// lies within it.
pub open spec fn chunk_fits(chunk: Chunk, mapped: Option<&[u8]>) -> bool {
    mapped matches Some(bytes) && chunk.offset + chunk.size <= bytes@.len()
}

/// Whether a frame is the one in a buffer: of the given size, with the bytes of
/// the chunk, taken for BGRA.
pub open spec fn is_frame_of(
    frame: Frame,
    width: u32,
    height: u32,
    chunk: Chunk,
    mapped: Option<&[u8]>,
) -> bool {
    &&& frame.width == width
    &&& frame.height == height
    &&& frame.format == PixelFormat::Bgra
    &&& frame.stride == same_bits_u32(chunk.stride)
    &&& frame.data matches FrameData::MemPtr(data)
    &&& data@ == mapped->Some_0@.subrange(chunk.offset as int, chunk.offset + chunk.size)
}

/// Takes the frame that a buffer of the stream holds, if it holds one. The
/// pixels are taken for BGRA.
pub fn take_frame(width: u32, height: u32, chunk: Chunk, mapped: Option<&[u8]>) -> (frame: Option<
    Frame,
>)
    ensures
        frame is Some <==> chunk_fits(chunk, mapped),
        frame matches Some(frame) ==> is_frame_of(frame, width, height, chunk, mapped),
{
    match mapped {
        None => None,
        Some(bytes) => {
            let end: u64 = chunk.offset as u64 + chunk.size as u64;
            if end > bytes.len() as u64 {
                return None;
            }
            let mut data: Vec<u8> = Vec::new();
            let mut i: usize = chunk.offset as usize;
            while i < end as usize
                invariant
                    chunk.offset <= i <= end <= bytes@.len(),
                    data@ == bytes@.subrange(chunk.offset as int, i as int),
                decreases end - i,
            {
                data.push(bytes[i]);
                i = i + 1;
                assert(data@ =~= bytes@.subrange(chunk.offset as int, i as int));
            }
            Some(
                Frame {
                    width,
                    height,
                    format: PixelFormat::Bgra,
                    stride: to_unsigned(chunk.stride),
                    data: FrameData::MemPtr(data),
                },
            )
        },
    }
}

/// Whether a frame, or none, is what comes of a buffer of the stream: there is a
/// frame if the capture is not paused and the buffer holds one, and it is that
/// one.
pub open spec fn is_captured(
    frame: Option<Frame>,
    paused: bool,
    width: u32,
    height: u32,
    chunk: Option<Chunk>,
    mapped: Option<&[u8]>,
) -> bool {
    &&& frame is Some <==> !paused && chunk is Some && chunk_fits(chunk->Some_0, mapped)
    &&& frame matches Some(frame) ==> is_frame_of(frame, width, height, chunk->Some_0, mapped)
}

/// Takes the frame that the stream has delivered, if there is one. A paused
/// capture takes none, and there is none without a buffer or in a buffer
/// without data.
pub fn captured_frame(
    paused: bool,
    width: u32,
    height: u32,
    chunk: Option<Chunk>,
    mapped: Option<&[u8]>,
) -> (frame: Option<Frame>)
    ensures
        is_captured(frame, paused, width, height, chunk, mapped),
{
    if paused {
        return None;
    }
    match chunk {
        Some(chunk) => take_frame(width, height, chunk, mapped),
        None => None,
    }
}

/// What the channel of captured frames has to say.
#[derive(Debug, Clone, PartialEq, Eq)]
pub enum ChannelReply {
    /// The receiving end has been handed over.
    Taken,
    /// There is a frame.
    Ready(Frame),
    /// There is no frame yet.
    Empty,
    /// There will be no frame any more.
    Disconnected,
}

/// The next captured frame, if one is available and the receiver was not
/// taken.
pub fn try_recv_frame(reply: ChannelReply) -> (frame: Option<Frame>)
    ensures
        frame == match reply {
            ChannelReply::Ready(frame) => Some(frame),
            _ => None,
        },
{
    match reply {
        ChannelReply::Ready(frame) => Some(frame),
        _ => None,
    }
}

/// The next captured frame that was waited for. Waiting ends with a frame, or
/// because the capture has stopped or the receiver was taken.
pub fn recv_frame(reply: ChannelReply) -> (frame: Result<Frame, CaptureError>)
    ensures
        frame == match reply {
            ChannelReply::Ready(frame) => Ok(frame),
            _ => Err(CaptureError::Stopped),
        },
{
    match reply {
        ChannelReply::Ready(frame) => Ok(frame),
        _ => Err(CaptureError::Stopped),
    }
}

/// A frame of a buffer has the bytes of the chunk and no others, in their order,
/// the size of the screen, and the stride of the chunk; there is one exactly if
/// all of the chunk is there and the capture is not paused.
pub proof fn frames_have_their_chunk(
    frame: Option<Frame>,
    paused: bool,
    width: u32,
    height: u32,
    chunk: Option<Chunk>,
    mapped: Option<&[u8]>,
)
    requires
        is_captured(frame, paused, width, height, chunk, mapped),
    ensures
        frame is Some <==> !paused && chunk is Some && mapped is Some && chunk->Some_0.offset
            + chunk->Some_0.size <= mapped->Some_0@.len(),
        frame is Some ==> {
            let taken = frame->Some_0;
            let place = chunk->Some_0;
            let bytes = mapped->Some_0@;
            &&& taken.width == width && taken.height == height
            &&& taken.format == PixelFormat::Bgra
            &&& taken.stride == place.stride || taken.stride == place.stride + 0x1_0000_0000
            &&& taken.data is MemPtr
            &&& taken.data->MemPtr_0@.len() == place.size
            &&& forall|i: int|
                0 <= i < place.size ==> #[trigger] taken.data->MemPtr_0@[i] == bytes[place.offset
                    + i]
        },
{
}

/// The same bits stand for the same number, up to a multiple of 2^32.
pub proof fn bits_stay_the_same(n: i32)
    ensures
        n >= 0 ==> same_bits_u32(n) == n,
        n < 0 ==> same_bits_u32(n) == n + 0x1_0000_0000,
{
}

/// An error of the capture says its cause.
pub proof fn capture_errors_say_why(cause: String)
    ensures
        CaptureError::InitFailed(cause).text() == "PipeWire initialization failed: "@ + cause@,
        CaptureError::StreamFailed(cause).text() == "stream connection failed: "@ + cause@,
        CaptureError::Stopped.text() == "capture stopped"@,
        CaptureError::NoFrameData.text() == "no frame data available"@,
{
}

} // verus!
