//! The encoding pipelines, and which of them is used.

use vstd::prelude::*;

use crate::encoder::error::EncoderError;
use crate::text::{append_decimal, decimal};

verus! {

/// Configuration for the video encoder.
#[derive(Debug, Clone, Copy, PartialEq, Eq, Structural)]
pub struct EncoderConfig {
    /// Video width.
    pub width: u32,
    /// Video height.
    pub height: u32,
    /// Target frame rate.
    pub fps: u32,
    /// Target bitrate in kbps.
    pub bitrate: u32,
    /// Keyframe interval (in frames).
    pub keyframe_interval: u32,
}

impl Default for EncoderConfig {
    fn default() -> (config: Self)
        ensures
            config == (EncoderConfig {
                width: 1920,
                height: 1080,
                fps: 100,
                bitrate: 25000,
                keyframe_interval: 2,
            }),
    {
        EncoderConfig {
            width: 1920,
            height: 1080,
            fps: 100,
            bitrate: 25000,
            keyframe_interval: 2,
        }
    }
}

/// What does the encoding.
#[derive(Debug, Clone, Copy, PartialEq, Eq, Structural)]
pub enum Backend {
    /// Graphics hardware of one vendor, which takes BGRA directly.
    Nvenc,
    /// Graphics hardware behind the common interface.
    Vaapi,
    /// The processor.
    X264,
}

/// The part of a pipeline that takes the frames in.
pub open spec fn source_text(config: EncoderConfig) -> Seq<char> {
    "appsrc name=src format=time is-live=true do-timestamp=true caps=video/x-raw,format=BGRA,width="@
        + decimal(config.width as nat) + ",height="@ + decimal(config.height as nat)
        + ",framerate="@ + decimal(config.fps as nat) + "/1 ! "@
}

/// The part of a pipeline that encodes.
pub open spec fn encoder_text(config: EncoderConfig, backend: Backend) -> Seq<char> {
    let bitrate = decimal(config.bitrate as nat);
    let keyframe = decimal(config.keyframe_interval as nat);
    match backend {
        Backend::Nvenc => "cudaupload ! nvh264enc bitrate="@ + bitrate + " gop-size="@ + keyframe
            + " rc-mode=cbr preset=p4 zerolatency=true tune=low-latency aud=true repeat-sequence-header=true ! "@,
        Backend::Vaapi =>
            "vaapipostproc ! video/x-raw,format=NV12 ! vaapih264enc rate-control=cbr bitrate="@
            + bitrate + " keyframe-period="@ + keyframe
            + " tune=low-latency refs=1 num-slices=1 ! "@,
        Backend::X264 =>
            "videoconvert ! x264enc tune=zerolatency speed-preset=superfast bitrate="@ + bitrate
            + " key-int-max="@ + keyframe + " b-adapt=0 cabac=true aud=true ! "@,
    }
}

/// The description of a pipeline, as it is launched.
pub open spec fn pipeline_text(config: EncoderConfig, backend: Backend) -> Seq<char> {
    source_text(config) + encoder_text(config, backend)
        + "video/x-h264,stream-format=byte-stream,alignment=au ! appsink name=sink emit-signals=true sync=false"@
}

/// The description of a pipeline, as it is launched.
pub fn describe_pipeline(config: &EncoderConfig, backend: Backend) -> (text: String)
    ensures
        text@ == pipeline_text(*config, backend),
{
    let mut text: String =
        "appsrc name=src format=time is-live=true do-timestamp=true caps=video/x-raw,format=BGRA,width=".to_string();
    append_decimal(&mut text, config.width as u64);
    text.append(",height=");
    append_decimal(&mut text, config.height as u64);
    text.append(",framerate=");
    append_decimal(&mut text, config.fps as u64);
    text.append("/1 ! ");
    assert(text@ == source_text(*config));
    let mut middle: String = String::new();
    match backend {
        Backend::Nvenc => {
            middle.append("cudaupload ! nvh264enc bitrate=");
            append_decimal(&mut middle, config.bitrate as u64);
            middle.append(" gop-size=");
            append_decimal(&mut middle, config.keyframe_interval as u64);
            middle.append(
                " rc-mode=cbr preset=p4 zerolatency=true tune=low-latency aud=true repeat-sequence-header=true ! ",
            );
        },
        Backend::Vaapi => {
            middle.append(
                "vaapipostproc ! video/x-raw,format=NV12 ! vaapih264enc rate-control=cbr bitrate=",
            );
            append_decimal(&mut middle, config.bitrate as u64);
            middle.append(" keyframe-period=");
            append_decimal(&mut middle, config.keyframe_interval as u64);
            middle.append(" tune=low-latency refs=1 num-slices=1 ! ");
        },
        Backend::X264 => {
            middle.append(
                "videoconvert ! x264enc tune=zerolatency speed-preset=superfast bitrate=",
            );
            append_decimal(&mut middle, config.bitrate as u64);
            middle.append(" key-int-max=");
            append_decimal(&mut middle, config.keyframe_interval as u64);
            middle.append(" b-adapt=0 cabac=true aud=true ! ");
        },
    }
    assert(middle@ =~= encoder_text(*config, backend));
    text.append(&middle);
    text.append(
        "video/x-h264,stream-format=byte-stream,alignment=au ! appsink name=sink emit-signals=true sync=false",
    );
    text
}

/// What follows from an attempt to launch a pipeline.
#[derive(Debug, Clone, PartialEq, Eq)]
pub enum Launch {
    /// The pipeline is used.
    Use,
    /// Another one is tried.
    Try(Backend),
    /// There is none.
    Fail(EncoderError),
}

/// The backend that is tried first.
pub const FIRST_BACKEND: Backend = Backend::Nvenc;

/// What follows from an attempt to launch the pipeline of a backend, which
/// failed for the given reason or succeeded: a pipeline that can be launched
/// is used; NVENC falls back to VA-API, and VA-API to x264.
pub fn after_launch(backend: Backend, failure: Option<String>) -> (launch: Launch)
    ensures
        launch == match failure {
            None => Launch::Use,
            Some(cause) => match backend {
                Backend::Nvenc => Launch::Try(Backend::Vaapi),
                Backend::Vaapi => Launch::Try(Backend::X264),
                Backend::X264 => Launch::Fail(EncoderError::PipelineCreation(cause)),
            },
        },
{
    match failure {
        None => Launch::Use,
        Some(cause) => match backend {
            Backend::Nvenc => Launch::Try(Backend::Vaapi),
            Backend::Vaapi => Launch::Try(Backend::X264),
            Backend::X264 => Launch::Fail(EncoderError::PipelineCreation(cause)),
        },
    }
}

/// What stands in the way of a launched pipeline.
#[derive(Debug, Clone, Copy, PartialEq, Eq, Structural)]
pub enum PipelineFault {
    /// What was launched is not a pipeline.
    NotAPipeline,
    /// It has no element that takes frames in, or it is another kind of one.
    NoSource,
    SourceMismatch,
    /// It has no element that gives frames out, or it is another kind of one.
    NoSink,
    SinkMismatch,
    /// It cannot be started.
    NotStarted,
}

/// The error that a fault of the pipeline is.
pub fn pipeline_error(fault: PipelineFault) -> (error: EncoderError)
    ensures
        match fault {
            PipelineFault::NotAPipeline => error matches EncoderError::PipelineCreation(text)
                && text@ == "not a pipeline"@,
            PipelineFault::NoSource => error matches EncoderError::ElementNotFound(text) && text@
                == "appsrc"@,
            PipelineFault::SourceMismatch => error matches EncoderError::ElementNotFound(text)
                && text@ == "appsrc cast failed"@,
            PipelineFault::NoSink => error matches EncoderError::ElementNotFound(text) && text@
                == "appsink"@,
            PipelineFault::SinkMismatch => error matches EncoderError::ElementNotFound(text)
                && text@ == "appsink cast failed"@,
            PipelineFault::NotStarted => error == EncoderError::StateChange,
        },
{
    match fault {
        PipelineFault::NotAPipeline => EncoderError::PipelineCreation(
            "not a pipeline".to_string(),
        ),
        PipelineFault::NoSource => EncoderError::ElementNotFound("appsrc".to_string()),
        PipelineFault::SourceMismatch => EncoderError::ElementNotFound(
            "appsrc cast failed".to_string(),
        ),
        PipelineFault::NoSink => EncoderError::ElementNotFound("appsink".to_string()),
        PipelineFault::SinkMismatch => EncoderError::ElementNotFound(
            "appsink cast failed".to_string(),
        ),
        PipelineFault::NotStarted => EncoderError::StateChange,
    }
}

/// A pipeline takes BGRA frames of the configured size and rate in, encodes them
/// with the configured bitrate and keyframe interval, by the parts of its backend,
/// and gives H.264 out as a stream of bytes, one picture at a time.
pub proof fn pipeline_follows_configuration(config: EncoderConfig, backend: Backend)
    ensures
        ({
            let source =
                "appsrc name=src format=time is-live=true do-timestamp=true caps=video/x-raw,format=BGRA,width="@
                + decimal(config.width as nat) + ",height="@ + decimal(config.height as nat)
                + ",framerate="@ + decimal(config.fps as nat) + "/1 ! "@;
            let sink =
                "video/x-h264,stream-format=byte-stream,alignment=au ! appsink name=sink emit-signals=true sync=false"@;
            let bitrate = decimal(config.bitrate as nat);
            let interval = decimal(config.keyframe_interval as nat);
            &&& backend == Backend::Nvenc ==> pipeline_text(config, backend) == source + (
            "cudaupload ! nvh264enc bitrate="@ + bitrate + " gop-size="@ + interval
                + " rc-mode=cbr preset=p4 zerolatency=true tune=low-latency aud=true repeat-sequence-header=true ! "@)
                + sink
            &&& backend == Backend::Vaapi ==> pipeline_text(config, backend) == source + (
            "vaapipostproc ! video/x-raw,format=NV12 ! vaapih264enc rate-control=cbr bitrate="@
                + bitrate + " keyframe-period="@ + interval
                + " tune=low-latency refs=1 num-slices=1 ! "@) + sink
            &&& backend == Backend::X264 ==> pipeline_text(config, backend) == source + (
            "videoconvert ! x264enc tune=zerolatency speed-preset=superfast bitrate="@ + bitrate
                + " key-int-max="@ + interval + " b-adapt=0 cabac=true aud=true ! "@) + sink
        }),
{
}

} // verus!
