//! The video encoder: what is handed to the pipeline for a captured frame, and
//! what is made of what the pipeline gives back.

use vstd::prelude::*;

use crate::capture::frame::{Frame, FrameData, PixelFormat};
use crate::encoder::error::EncoderError;
use crate::encoder::h264::{contains_keyframe, is_h264_keyframe};
use crate::encoder::pipeline::EncoderConfig;
use crate::encoder::pixels::{
    as_bgra, enough_data, normalize_frame_data, row_bytes, row_stride, rows, rows_fit, sizes_fit,
    too_small_text,
};

verus! {

/// An encoded video frame.
#[derive(Debug, Clone, PartialEq, Eq)]
pub struct EncodedFrame {
    /// Whether this is a keyframe (I-frame).
    pub is_keyframe: bool,
    /// Presentation timestamp in microseconds.
    pub pts: u64,
    /// H.264 NAL unit data.
    pub data: Vec<u8>,
}

/// What an [`EncodedFrame`] says.
pub struct EncodedView {
    pub is_keyframe: bool,
    pub pts: u64,
    pub data: Seq<u8>,
}

impl View for EncodedFrame {
    type V = EncodedView;

    open spec fn view(&self) -> EncodedView {
        EncodedView { is_keyframe: self.is_keyframe, pts: self.pts, data: self.data@ }
    }
}

/// How the rows of a shared buffer lie in it.
#[derive(Debug, Clone, Copy, PartialEq, Eq, Structural)]
pub struct BufferLayout {
    pub format: PixelFormat,
    pub width: u32,
    pub height: u32,
    pub offset: u32,
    pub stride: i32,
}

/// The buffer that a frame is handed to the pipeline in.
#[derive(Debug, Clone, PartialEq, Eq)]
pub enum BufferSource {
    /// Memory with these bytes.
    Copy(Vec<u8>),
    /// The shared buffer behind a duplicate of the file descriptor, with its
    /// layout where the format is known.
    Import { fd: i32, size: u32, layout: Option<BufferLayout> },
}

/// Why there is no buffer.
#[derive(Debug, Clone, PartialEq, Eq)]
pub enum BufferFailure {
    /// No memory was allocated.
    Allocation(String),
    /// The memory cannot be written to.
    Mapping(String),
    /// The file descriptor cannot be duplicated.
    Duplication,
    /// The shared buffer cannot be imported.
    Import(String),
}

/// How a buffer is pushed into the pipeline.
#[derive(Debug, Clone, Copy, PartialEq, Eq, Structural)]
pub struct PushOrder {
    /// Presentation and decoding time, in microseconds.
    pub pts: u64,
    /// Duration, in microseconds.
    pub duration: u64,
    /// Whether a keyframe is asked for before it.
    pub force_keyframe: bool,
}

/// What the pipeline gives out when it is asked for an encoded frame.
#[derive(Debug, Clone, PartialEq, Eq)]
pub enum PullReply {
    /// There is none.
    Empty,
    /// There is one without a buffer.
    NoBuffer,
    /// Its buffer cannot be read.
    Unreadable(String),
    /// Its time in microseconds, if it has one, and its bytes.
    Sample { pts: Option<u64>, data: Vec<u8> },
}

/// The encoded frame that the pipeline has given out.
pub open spec fn frame_of(pts: Option<u64>, data: Seq<u8>) -> EncodedView {
    EncodedView {
        is_keyframe: contains_keyframe(data),
        pts: match pts {
            Some(pts) => pts,
            None => 0,
        },
        data,
    }
}

/// A number as the signed one with the same bits.
pub open spec fn same_bits_i32(n: u32) -> i32 {
    if n < 0x8000_0000 {
        n as i32
    } else {
        (n - 0x1_0000_0000) as i32
    }
}

fn to_signed(n: u32) -> (bits: i32)
    ensures
        bits == same_bits_i32(n),
{
    if n < 0x8000_0000 {
        n as i32
    } else {
        (n as i64 - 0x1_0000_0000) as i32
    }
}

fn failed(cause: &str) -> (error: EncoderError)
    ensures
        error matches EncoderError::EncodingFailed(text) && text@ == cause@,
{
    EncoderError::EncodingFailed(cause.to_string())
}

fn failed_with(what: &str, cause: &str) -> (error: EncoderError)
    ensures
        error matches EncoderError::EncodingFailed(text) && text@ == what@ + cause@,
{
    let mut text: String = what.to_string();
    text.append(cause);
    EncoderError::EncodingFailed(text)
}

/// Most frames that can be stamped: their times are microseconds in 64 bits.
pub const MAX_FRAMES: u64 = 18_446_744_073_709;

/// Video encoder around a pipeline.
#[derive(Debug, Clone)]
pub struct VideoEncoder {
    config: EncoderConfig,
    frame_count: u64,
    force_keyframe: bool,
}

/// What a [`VideoEncoder`] knows.
pub struct EncoderView {
    pub config: EncoderConfig,
    /// Frames that were pushed into the pipeline.
    pub frame_count: u64,
    /// Whether a keyframe has been requested.
    pub force_keyframe: bool,
}

impl EncoderView {
    /// With a request for a keyframe.
    pub open spec fn requested(self) -> EncoderView {
        EncoderView { force_keyframe: true, ..self }
    }

    /// How the next buffer is pushed.
    pub open spec fn next_order(self) -> PushOrder {
        PushOrder {
            pts: frame_time(self.frame_count as nat, self.config.fps as nat) as u64,
            duration: (1_000_000nat / self.config.fps as nat) as u64,
            force_keyframe: self.force_keyframe,
        }
    }

    /// With the request for a keyframe served.
    pub open spec fn served(self) -> EncoderView {
        EncoderView { force_keyframe: false, ..self }
    }

    /// With a buffer more in the pipeline.
    pub open spec fn advanced(self) -> EncoderView {
        EncoderView { frame_count: (self.frame_count + 1) as u64, ..self }
    }
}

impl View for VideoEncoder {
    type V = EncoderView;

    closed spec fn view(&self) -> EncoderView {
        EncoderView {
            config: self.config,
            frame_count: self.frame_count,
            force_keyframe: self.force_keyframe,
        }
    }
}

/// Whether a frame can be handed to the pipeline without leaving the limits of
/// memory and of 32-bit sizes.
pub open spec fn frame_fits(frame: Frame) -> bool {
    match frame.data {
        FrameData::MemPtr(data) => {
            &&& frame.format != PixelFormat::Unknown ==> sizes_fit(frame)
            &&& frame.format != PixelFormat::Unknown && enough_data(frame, data@.len())
                ==> rows_fit(frame, data@.len())
        },
        FrameData::DmaBuf { stride, .. } => stride * frame.height <= u32::MAX,
    }
}

/// When a frame is shown, in microseconds: frames are spread evenly.
pub open spec fn frame_time(n: nat, fps: nat) -> nat {
    n * 1_000_000 / fps
}

impl VideoEncoder {
    /// Creates an encoder with the given configuration, around a pipeline that
    /// has just been started.
    pub fn new(config: EncoderConfig) -> (encoder: VideoEncoder)
        ensures
            encoder@ == (EncoderView { config, frame_count: 0, force_keyframe: false }),
    {
        VideoEncoder { config, frame_count: 0, force_keyframe: false }
    }

    /// Get the encoder configuration.
    pub fn config(&self) -> (config: &EncoderConfig)
        ensures
            *config == self@.config,
    {
        &self.config
    }

    /// Frames that were pushed into the pipeline.
    pub fn frame_count(&self) -> (count: u64)
        ensures
            count == self@.frame_count,
    {
        self.frame_count
    }

    /// Request that the next frame be encoded as a keyframe.
    pub fn request_keyframe(&mut self)
        ensures
            final(self)@ == old(self)@.requested(),
    {
        self.force_keyframe = true;
    }

    /// Encode a captured frame: says which buffer to hand to the pipeline.
    pub fn encode(&self, frame: &Frame) -> (source: Result<BufferSource, EncoderError>)
        requires
            frame_fits(*frame),
        ensures
            match frame.data {
                FrameData::MemPtr(data) => match source {
                    Ok(BufferSource::Copy(pixels)) => {
                        &&& frame.format != PixelFormat::Unknown
                        &&& enough_data(*frame, data@.len())
                        &&& pixels@ == as_bgra(
                            frame.format,
                            rows(
                                data@,
                                row_bytes(*frame),
                                frame.height as nat,
                                row_stride(*frame, data@.len()),
                            ),
                        )
                    },
                    Ok(_) => false,
                    Err(EncoderError::UnsupportedFormat(format)) => frame.format
                        == PixelFormat::Unknown && format == PixelFormat::Unknown,
                    Err(EncoderError::EncodingFailed(text)) => {
                        &&& frame.format != PixelFormat::Unknown
                        &&& !enough_data(*frame, data@.len())
                        &&& text@ == too_small_text(*frame, data@.len())
                    },
                    Err(_) => false,
                },
                FrameData::DmaBuf { fd, offset, stride, modifier: _ } => source == Ok::<
                    _,
                    EncoderError,
                >(
                    BufferSource::Import {
                        fd,
                        size: (stride * frame.height) as u32,
                        layout: if frame.format == PixelFormat::Unknown {
                            None
                        } else {
                            Some(
                                BufferLayout {
                                    format: frame.format,
                                    width: frame.width,
                                    height: frame.height,
                                    offset,
                                    stride: same_bits_i32(stride),
                                },
                            )
                        },
                    },
                ),
            },
    {
        match &frame.data {
            FrameData::MemPtr(data) => match normalize_frame_data(frame, data) {
                Ok(pixels) => Ok(BufferSource::Copy(pixels)),
                Err(error) => Err(error),
            },
            FrameData::DmaBuf { fd, offset, stride, modifier: _ } => {
                let layout: Option<BufferLayout> = if frame.format == PixelFormat::Unknown {
                    None
                } else {
                    Some(
                        BufferLayout {
                            format: frame.format,
                            width: frame.width,
                            height: frame.height,
                            offset: *offset,
                            stride: to_signed(*stride),
                        },
                    )
                };
                Ok(BufferSource::Import { fd: *fd, size: *stride * frame.height, layout })
            },
        }
    }

    /// The error that a missing buffer is.
    pub fn buffer_failed(failure: &BufferFailure) -> (error: EncoderError)
        ensures
            error matches EncoderError::EncodingFailed(text) && text@ == match failure {
                BufferFailure::Allocation(cause) => cause@,
                BufferFailure::Mapping(cause) => cause@,
                BufferFailure::Duplication => "dup failed"@,
                BufferFailure::Import(cause) => "alloc failed: "@ + cause@,
            },
    {
        match failure {
            BufferFailure::Allocation(cause) => failed(cause),
            BufferFailure::Mapping(cause) => failed(cause),
            BufferFailure::Duplication => failed("dup failed"),
            BufferFailure::Import(cause) => failed_with("alloc failed: ", cause),
        }
    }

    /// Says how the buffer of a frame is pushed: when it is shown, and whether
    /// a keyframe is asked for. A request for a keyframe is thereby served.
    pub fn buffer_ready(&mut self) -> (order: PushOrder)
        requires
            old(self)@.config.fps > 0,
            old(self)@.frame_count <= MAX_FRAMES,
        ensures
            final(self)@ == old(self)@.served(),
            order == old(self)@.next_order(),
            order.pts == frame_time(old(self)@.frame_count as nat, old(self)@.config.fps as nat),
    {
        let force_keyframe: bool = self.force_keyframe;
        self.force_keyframe = false;
        PushOrder {
            pts: self.frame_count * 1_000_000 / self.config.fps as u64,
            duration: 1_000_000 / self.config.fps as u64,
            force_keyframe,
        }
    }

    /// Takes note that a buffer was pushed into the pipeline, or was not, for
    /// the given reason.
    pub fn buffer_pushed(&mut self, failure: Option<String>) -> (result: Result<(), EncoderError>)
        requires
            old(self)@.frame_count < u64::MAX,
        ensures
            match failure {
                None => result is Ok && final(self)@ == old(self)@.advanced(),
                Some(cause) => final(self)@ == old(self)@ && (result matches Err(
                    EncoderError::EncodingFailed(text),
                ) && text@ == "push failed: "@ + cause@),
            },
    {
        match failure {
            None => {
                self.frame_count = self.frame_count + 1;
                Ok(())
            },
            Some(cause) => Err(failed_with("push failed: ", &cause)),
        }
    }

    /// Makes an encoded frame of what the pipeline has given out.
    pub fn pull_encoded_frame(reply: PullReply) -> (frame: Result<
        Option<EncodedFrame>,
        EncoderError,
    >)
        ensures
            match reply {
                PullReply::Empty => frame matches Ok(None),
                PullReply::NoBuffer => frame matches Err(EncoderError::EncodingFailed(text))
                    && text@ == "no buffer"@,
                PullReply::Unreadable(cause) => frame matches Err(
                    EncoderError::EncodingFailed(text),
                ) && text@ == cause@,
                PullReply::Sample { pts, data } => frame matches Ok(Some(encoded)) && encoded@
                    == frame_of(pts, data@),
            },
    {
        match reply {
            PullReply::Empty => Ok(None),
            PullReply::NoBuffer => Err(failed("no buffer")),
            PullReply::Unreadable(cause) => Err(failed(&cause)),
            PullReply::Sample { pts, data } => {
                let is_keyframe: bool = is_h264_keyframe(&data);
                let pts: u64 = match pts {
                    Some(pts) => pts,
                    None => 0,
                };
                Ok(Some(EncodedFrame { is_keyframe, pts, data }))
            },
        }
    }

    /// Flush the encoder: makes encoded frames of what the pipeline still gives
    /// out, until it gives out nothing. What cannot be read is passed over.
    pub fn flush(replies: Vec<PullReply>) -> (frames: Vec<EncodedFrame>)
        ensures
            frames@.map_values(|frame: EncodedFrame| frame@) == flushed(replies@),
    {
        let mut frames: Vec<EncodedFrame> = Vec::new();
        let ghost view = |frame: EncodedFrame| frame@;
        let mut i: usize = 0;
        assert(frames@.map_values(view) + flushed(replies@.skip(0)) =~= flushed(replies@)) by {
            assert(replies@.skip(0) =~= replies@);
        }
        while i < replies.len()
            invariant
                i <= replies@.len(),
                view == |frame: EncodedFrame| frame@,
                frames@.map_values(view) + flushed(replies@.skip(i as int)) == flushed(replies@),
            decreases replies@.len() - i,
        {
            let ghost before = frames@;
            let ghost rest = replies@.skip(i as int);
            assert(rest.first() == replies@[i as int]);
            assert(rest.drop_first() =~= replies@.skip(i + 1));
            match &replies[i] {
                PullReply::Empty => {
                    assert(flushed(rest) =~= Seq::<EncodedView>::empty());
                    assert(frames@.map_values(view) =~= flushed(replies@));
                    return frames;
                },
                PullReply::NoBuffer => {},
                PullReply::Unreadable(_) => {},
                PullReply::Sample { pts, data } => {
                    let is_keyframe: bool = is_h264_keyframe(data);
                    let pts: u64 = match pts {
                        Some(pts) => *pts,
                        None => 0,
                    };
                    let bytes: Vec<u8> = copy_bytes(data);
                    frames.push(EncodedFrame { is_keyframe, pts, data: bytes });
                    assert(frames@.map_values(view) + flushed(rest.drop_first())
                        =~= before.map_values(view) + flushed(rest));
                },
            }
            i = i + 1;
        }
        assert(replies@.skip(i as int).len() == 0);
        assert(frames@.map_values(view) =~= flushed(replies@));
        frames
    }
}

fn copy_bytes(data: &[u8]) -> (copy: Vec<u8>)
    ensures
        copy@ == data@,
{
    let mut copy: Vec<u8> = Vec::new();
    let mut i: usize = 0;
    while i < data.len()
        invariant
            i <= data@.len(),
            copy@ == data@.take(i as int),
        decreases data@.len() - i,
    {
        copy.push(data[i]);
        i = i + 1;
        assert(copy@ =~= data@.take(i as int));
    }
    assert(data@.take(i as int) =~= data@);
    copy
}

/// The encoded frames in what a flushed pipeline gives out.
pub open spec fn flushed(replies: Seq<PullReply>) -> Seq<EncodedView>
    decreases replies.len(),
{
    if replies.len() == 0 {
        Seq::empty()
    } else {
        match replies.first() {
            PullReply::Empty => Seq::empty(),
            PullReply::Sample { pts, data } => seq![frame_of(pts, data@)] + flushed(
                replies.drop_first(),
            ),
            _ => flushed(replies.drop_first()),
        }
    }
}

/// A requested keyframe is asked for with the next buffer, and with no buffer
/// after it, whether or not it can be pushed.
pub proof fn request_is_served_once(encoder: EncoderView)
    ensures
        encoder.requested().next_order().force_keyframe,
        !encoder.requested().served().next_order().force_keyframe,
        !encoder.requested().served().advanced().next_order().force_keyframe,
        encoder.requested().served().config == encoder.config,
        encoder.requested().served().frame_count == encoder.frame_count,
{
}

/// A later frame is not shown earlier, and as many frames as there are in a
/// second take a second.
pub proof fn frame_times_ascend(n: nat, m: nat, fps: nat)
    requires
        n <= m,
        fps > 0,
    ensures
        frame_time(n, fps) <= frame_time(m, fps),
        frame_time(n * fps, fps) == n * 1_000_000,
{
    vstd::arithmetic::div_mod::lemma_div_is_ordered(
        (n * 1_000_000) as int,
        (m * 1_000_000) as int,
        fps as int,
    );
    assert((n * fps) * 1_000_000 == fps * (n * 1_000_000)) by (nonlinear_arith);
    vstd::arithmetic::div_mod::lemma_div_multiples_vanish((n * 1_000_000) as int, fps as int);
}

/// Frames are shown as many to the second as there are to be, each as long as the
/// next one takes to come, up to parts of a microsecond: the `n`th frame of `fps`
/// in a second comes `n / fps` seconds after the first.
pub proof fn frames_are_evenly_timed(encoder: EncoderView)
    requires
        encoder.config.fps > 0,
        encoder.frame_count <= MAX_FRAMES,
    ensures
        ({
            let order = encoder.next_order();
            let fps = encoder.config.fps;
            &&& order.pts * fps <= encoder.frame_count * 1_000_000 < (order.pts + 1) * fps
            &&& order.duration * fps <= 1_000_000 < (order.duration + 1) * fps
            &&& order.force_keyframe == encoder.force_keyframe
        }),
{
    let fps = encoder.config.fps as nat;
    let total = encoder.frame_count as nat * 1_000_000;
    let pts = total / fps;
    let duration = 1_000_000nat / fps;
    assert(pts * fps <= total < (pts + 1) * fps) by (nonlinear_arith)
        requires
            fps > 0,
            pts == total / fps,
    ;
    assert(duration * fps <= 1_000_000 < (duration + 1) * fps) by (nonlinear_arith)
        requires
            fps > 0,
            duration == 1_000_000nat / fps,
    ;
    assert(pts <= total) by (nonlinear_arith)
        requires
            fps > 0,
            pts == total / fps,
    ;
    assert(duration <= 1_000_000) by (nonlinear_arith)
        requires
            fps > 0,
            duration == 1_000_000nat / fps,
    ;
}

/// A request for a keyframe, and its being served, change nothing else; a buffer
/// that is pushed counts as one frame more and changes nothing else.
pub proof fn requests_and_frames_are_apart(encoder: EncoderView)
    ensures
        encoder.requested().force_keyframe && !encoder.served().force_keyframe,
        encoder.requested().config == encoder.config && encoder.served().config == encoder.config,
        encoder.requested().frame_count == encoder.frame_count,
        encoder.served().frame_count == encoder.frame_count,
        encoder.frame_count < u64::MAX ==> encoder.advanced().frame_count == encoder.frame_count
            + 1,
        encoder.advanced().config == encoder.config,
        encoder.advanced().force_keyframe == encoder.force_keyframe,
{
}

/// What the pipeline gives out becomes a frame with the same bytes and the same
/// time, which is a keyframe if the bytes are.
pub proof fn frames_keep_their_bytes(pts: Option<u64>, data: Seq<u8>)
    ensures
        frame_of(pts, data).data == data,
        frame_of(pts, data).is_keyframe == contains_keyframe(data),
        pts is Some ==> frame_of(pts, data).pts == pts->Some_0,
        pts is None ==> frame_of(pts, data).pts == 0,
{
}

/// Flushing gives all frames that come before the pipeline has nothing more, in
/// their order, and passes over what is none: what comes first comes first.
pub proof fn flush_gives_all(replies: Seq<PullReply>, rest: Seq<PullReply>)
    requires
        forall|i: int| 0 <= i < replies.len() ==> (#[trigger] replies[i]) !is Empty,
    ensures
        flushed(replies + rest) == flushed(replies) + flushed(rest),
        flushed(seq![PullReply::Empty] + rest) == Seq::<EncodedView>::empty(),
        forall|cause: String| flushed(seq![PullReply::Unreadable(cause)]) == Seq::<
            EncodedView,
        >::empty(),
        flushed(seq![PullReply::NoBuffer]) == Seq::<EncodedView>::empty(),
        forall|pts: Option<u64>, data: Vec<u8>| #[trigger]
            flushed(seq![PullReply::Sample { pts, data }]) == seq![frame_of(pts, data@)],
        flushed(Seq::<PullReply>::empty()) == Seq::<EncodedView>::empty(),
    decreases replies.len(),
{
    reveal_with_fuel(flushed, 2);
    let stop = seq![PullReply::Empty] + rest;
    assert(stop.first() == PullReply::Empty);
    assert forall|pts: Option<u64>, data: Vec<u8>| #[trigger]
        flushed(seq![PullReply::Sample { pts, data }]) == seq![frame_of(pts, data@)] by {
        let one = seq![PullReply::Sample { pts, data }];
        assert(one.drop_first() =~= Seq::<PullReply>::empty());
        assert(flushed(one) =~= seq![frame_of(pts, data@)]);
    }
    assert forall|cause: String| flushed(seq![PullReply::Unreadable(cause)]) == Seq::<
        EncodedView,
    >::empty() by {
        assert(seq![PullReply::Unreadable(cause)].drop_first() =~= Seq::<PullReply>::empty());
    }
    assert(seq![PullReply::NoBuffer].drop_first() =~= Seq::<PullReply>::empty());
    if replies.len() == 0 {
        assert(replies + rest =~= rest);
        assert(flushed(replies) + flushed(rest) =~= flushed(rest));
    } else {
        let tail = replies.drop_first();
        assert forall|i: int| 0 <= i < tail.len() implies (#[trigger] tail[i]) !is Empty by {
            assert(replies[i + 1] !is Empty);
        }
        flush_gives_all(tail, rest);
        assert((replies + rest).drop_first() =~= tail + rest);
        assert(replies[0] !is Empty);
        assert(flushed(replies + rest) =~= flushed(replies) + flushed(rest));
    }
}

/// A stride keeps its bits as a signed number.
pub proof fn strides_keep_their_bits(n: u32)
    ensures
        n <= i32::MAX ==> same_bits_i32(n) == n,
        n > i32::MAX ==> same_bits_i32(n) == n - 0x1_0000_0000,
{
}

} // verus!
