use drawing_tablet::capture::frame::{Frame, FrameData, PixelFormat};
use drawing_tablet::encoder::error::EncoderError;
use drawing_tablet::encoder::h264::is_h264_keyframe;
use drawing_tablet::encoder::pipeline::{
    after_launch, describe_pipeline, pipeline_error, Backend, EncoderConfig, Launch, PipelineFault,
    FIRST_BACKEND,
};
use drawing_tablet::encoder::pixels::{convert_pixel_format, normalize_frame_data};
use drawing_tablet::encoder::video::{
    BufferFailure, BufferLayout, BufferSource, EncodedFrame, PullReply, PushOrder, VideoEncoder,
};

#[test]
fn test_keyframe_detection() {
    // IDR NAL unit
    let idr = &[0x00, 0x00, 0x00, 0x01, 0x65, 0x88];
    assert!(is_h264_keyframe(idr));

    // SPS NAL unit
    let sps = &[0x00, 0x00, 0x01, 0x67, 0x42];
    assert!(is_h264_keyframe(sps));

    // Non-IDR slice
    let non_idr = &[0x00, 0x00, 0x00, 0x01, 0x41, 0x9A];
    assert!(!is_h264_keyframe(non_idr));
}

#[test]
fn keyframes_among_other_units() {
    let pps = [9, 9, 0, 0, 1, 0x68, 1, 2, 3];
    assert!(is_h264_keyframe(&pps));
    let later = [0, 0, 0, 1, 0x41, 7, 7, 7, 0, 0, 0, 1, 0x25, 7, 7];
    assert!(is_h264_keyframe(&later));
    assert!(!is_h264_keyframe(&[]));
    assert!(is_h264_keyframe(&[0, 0, 1, 0x67]));
    assert!(is_h264_keyframe(&[0, 0, 1, 0x65]));
    assert!(is_h264_keyframe(&[0, 0, 0, 1, 0x68]));
    assert!(is_h264_keyframe(&[9, 9, 9, 9, 0, 0, 1, 0x65]));
    assert!(!is_h264_keyframe(&[0, 0, 1]));
    assert!(!is_h264_keyframe(&[0, 0, 0, 1]));
    assert!(!is_h264_keyframe(&[0, 0, 1, 0x41]));
    assert!(!is_h264_keyframe(&[0, 0, 2, 0x67, 0x67, 0x67]));
    let audio_delimiter = [0, 0, 0, 1, 0x09, 0xf0];
    assert!(!is_h264_keyframe(&audio_delimiter));
}

fn frame(format: PixelFormat, width: u32, height: u32, stride: u32, data: Vec<u8>) -> Frame {
    Frame { width, height, format, stride, data: FrameData::MemPtr(data) }
}

fn normalized(frame: &Frame) -> Result<Vec<u8>, EncoderError> {
    match &frame.data {
        FrameData::MemPtr(data) => normalize_frame_data(frame, data),
        FrameData::DmaBuf { .. } => unreachable!(),
    }
}

#[test]
fn packed_frames_are_kept() {
    let data: Vec<u8> = (0..16).collect();
    assert_eq!(
        normalized(&frame(PixelFormat::Bgra, 2, 2, 8, data.clone())),
        Ok(data.clone())
    );
    let mut longer = data.clone();
    longer.push(99);
    assert_eq!(normalized(&frame(PixelFormat::Bgrx, 2, 2, 8, longer)), Ok(data));
}

#[test]
fn padding_is_taken_out() {
    let data: Vec<u8> = (0..24).collect();
    let expected: Vec<u8> = (0..8).chain(12..20).collect();
    assert_eq!(
        normalized(&frame(PixelFormat::Bgra, 2, 2, 12, data.clone())),
        Ok(expected.clone())
    );
    assert_eq!(normalized(&frame(PixelFormat::Bgra, 2, 2, 8, data)), Ok(expected));
}

#[test]
fn red_and_blue_are_exchanged() {
    assert_eq!(
        convert_pixel_format(PixelFormat::Rgba, &[1, 2, 3, 4, 5, 6, 7, 8, 9, 10, 11]),
        vec![3, 2, 1, 4, 7, 6, 5, 8, 9, 10, 11]
    );
    assert_eq!(convert_pixel_format(PixelFormat::Rgbx, &[1, 2, 3, 4]), vec![3, 2, 1, 4]);
    assert_eq!(convert_pixel_format(PixelFormat::Bgra, &[1, 2, 3, 4]), vec![1, 2, 3, 4]);
    assert_eq!(convert_pixel_format(PixelFormat::Unknown, &[1, 2, 3, 4]), vec![1, 2, 3, 4]);
    let twice = convert_pixel_format(
        PixelFormat::Rgba,
        &convert_pixel_format(PixelFormat::Rgba, &[1, 2, 3, 4]),
    );
    assert_eq!(twice, vec![1, 2, 3, 4]);
}

#[test]
fn frames_that_cannot_be_normalized() {
    assert_eq!(
        normalized(&frame(PixelFormat::Unknown, 2, 2, 8, vec![0; 16])),
        Err(EncoderError::UnsupportedFormat(PixelFormat::Unknown))
    );
    assert_eq!(
        normalized(&frame(PixelFormat::Bgra, 2, 2, 8, vec![0; 15])),
        Err(EncoderError::EncodingFailed(
            "frame data too small: got 15 bytes, expected at least 16".to_string()
        ))
    );
    assert_eq!(normalized(&frame(PixelFormat::Bgra, 2, 0, 8, vec![0; 3])), Ok(vec![]));
}

#[test]
fn overlapping_rows() {
    let data: Vec<u8> = (0..12).collect();
    let expected: Vec<u8> = (0..8).chain(4..12).collect();
    assert_eq!(normalized(&frame(PixelFormat::Bgra, 2, 2, 4, data)), Ok(expected));
}

#[test]
fn default_encoder() {
    assert_eq!(
        EncoderConfig::default(),
        EncoderConfig {
            width: 1920,
            height: 1080,
            fps: 100,
            bitrate: 25000,
            keyframe_interval: 2
        }
    );
}

#[test]
fn pipelines() {
    let config = EncoderConfig {
        width: 1280,
        height: 720,
        fps: 60,
        bitrate: 8000,
        keyframe_interval: 10,
    };
    assert_eq!(
        describe_pipeline(&config, Backend::Nvenc),
        "appsrc name=src format=time is-live=true do-timestamp=true \
         caps=video/x-raw,format=BGRA,width=1280,height=720,framerate=60/1 ! \
         cudaupload ! \
         nvh264enc bitrate=8000 gop-size=10 rc-mode=cbr preset=p4 \
         zerolatency=true tune=low-latency \
         aud=true repeat-sequence-header=true ! \
         video/x-h264,stream-format=byte-stream,alignment=au ! \
         appsink name=sink emit-signals=true sync=false"
    );
    assert_eq!(
        describe_pipeline(&config, Backend::Vaapi),
        "appsrc name=src format=time is-live=true do-timestamp=true \
         caps=video/x-raw,format=BGRA,width=1280,height=720,framerate=60/1 ! \
         vaapipostproc ! \
         video/x-raw,format=NV12 ! \
         vaapih264enc rate-control=cbr bitrate=8000 keyframe-period=10 \
         tune=low-latency refs=1 num-slices=1 ! \
         video/x-h264,stream-format=byte-stream,alignment=au ! \
         appsink name=sink emit-signals=true sync=false"
    );
    assert_eq!(
        describe_pipeline(&config, Backend::X264),
        "appsrc name=src format=time is-live=true do-timestamp=true \
         caps=video/x-raw,format=BGRA,width=1280,height=720,framerate=60/1 ! \
         videoconvert ! \
         x264enc tune=zerolatency speed-preset=superfast bitrate=8000 \
         key-int-max=10 b-adapt=0 cabac=true aud=true ! \
         video/x-h264,stream-format=byte-stream,alignment=au ! \
         appsink name=sink emit-signals=true sync=false"
    );
}

#[test]
fn backends_are_tried_in_order() {
    let no = || Some("no".to_string());
    assert_eq!(FIRST_BACKEND, Backend::Nvenc);
    assert_eq!(after_launch(Backend::Nvenc, no()), Launch::Try(Backend::Vaapi));
    assert_eq!(after_launch(Backend::Vaapi, no()), Launch::Try(Backend::X264));
    assert_eq!(
        after_launch(Backend::X264, no()),
        Launch::Fail(EncoderError::PipelineCreation("no".to_string()))
    );
    assert_eq!(after_launch(Backend::X264, None), Launch::Use);
    assert_eq!(after_launch(Backend::Nvenc, None), Launch::Use);
}

#[test]
fn faults_of_pipelines() {
    let not_found = |text: &str| EncoderError::ElementNotFound(text.to_string());
    assert_eq!(
        pipeline_error(PipelineFault::NotAPipeline),
        EncoderError::PipelineCreation("not a pipeline".to_string())
    );
    assert_eq!(pipeline_error(PipelineFault::NoSource), not_found("appsrc"));
    assert_eq!(pipeline_error(PipelineFault::SourceMismatch), not_found("appsrc cast failed"));
    assert_eq!(pipeline_error(PipelineFault::NoSink), not_found("appsink"));
    assert_eq!(pipeline_error(PipelineFault::SinkMismatch), not_found("appsink cast failed"));
    assert_eq!(pipeline_error(PipelineFault::NotStarted), EncoderError::StateChange);
}

fn small_encoder(fps: u32) -> VideoEncoder {
    VideoEncoder::new(EncoderConfig {
        width: 1,
        height: 1,
        fps,
        bitrate: 1,
        keyframe_interval: 1,
    })
}

#[test]
fn frames_are_stamped_evenly() {
    let mut encoder = small_encoder(60);
    assert_eq!(encoder.config().fps, 60);
    let mut times = Vec::new();
    for _ in 0..4 {
        let order = encoder.buffer_ready();
        assert_eq!(order.duration, 16666);
        times.push(order.pts);
        assert_eq!(encoder.buffer_pushed(None), Ok(()));
    }
    assert_eq!(times, vec![0, 16666, 33333, 50000]);
    assert_eq!(encoder.frame_count(), 4);
}

#[test]
fn keyframe_request_is_served_once() {
    let mut encoder = small_encoder(10);
    let order = |pts: u64, force_keyframe: bool| PushOrder {
        pts,
        duration: 100_000,
        force_keyframe,
    };
    encoder.request_keyframe();
    let bad = frame(PixelFormat::Unknown, 1, 1, 4, vec![0; 4]);
    assert!(encoder.encode(&bad).is_err());
    assert_eq!(encoder.buffer_ready(), order(0, true));
    assert_eq!(
        encoder.buffer_pushed(Some("Flushing".to_string())),
        Err(EncoderError::EncodingFailed("push failed: Flushing".to_string()))
    );
    assert_eq!(encoder.buffer_ready(), order(0, false));
    assert_eq!(encoder.buffer_pushed(None), Ok(()));
    assert_eq!(encoder.buffer_ready(), order(100_000, false));
}

#[test]
fn buffers_of_frames() {
    let encoder = small_encoder(10);
    let copied = frame(PixelFormat::Rgba, 1, 1, 4, vec![1, 2, 3, 4]);
    assert_eq!(encoder.encode(&copied), Ok(BufferSource::Copy(vec![3, 2, 1, 4])));
    let shared = |format: PixelFormat| Frame {
        width: 10,
        height: 20,
        format,
        stride: 0,
        data: FrameData::DmaBuf { fd: 3, offset: 5, stride: 40, modifier: 9 },
    };
    assert_eq!(
        encoder.encode(&shared(PixelFormat::Bgrx)),
        Ok(BufferSource::Import {
            fd: 3,
            size: 800,
            layout: Some(BufferLayout {
                format: PixelFormat::Bgrx,
                width: 10,
                height: 20,
                offset: 5,
                stride: 40,
            }),
        })
    );
    assert_eq!(
        encoder.encode(&shared(PixelFormat::Unknown)),
        Ok(BufferSource::Import { fd: 3, size: 800, layout: None })
    );
}

#[test]
fn missing_buffers() {
    let failed = |text: &str| EncoderError::EncodingFailed(text.to_string());
    let cause = || "x".to_string();
    assert_eq!(
        VideoEncoder::buffer_failed(&BufferFailure::Allocation(cause())),
        failed("x")
    );
    assert_eq!(VideoEncoder::buffer_failed(&BufferFailure::Mapping(cause())), failed("x"));
    assert_eq!(VideoEncoder::buffer_failed(&BufferFailure::Duplication), failed("dup failed"));
    assert_eq!(
        VideoEncoder::buffer_failed(&BufferFailure::Import(cause())),
        failed("alloc failed: x")
    );
}

#[test]
fn encoded_frames_are_pulled() {
    let idr = vec![0u8, 0, 0, 1, 0x65, 1];
    assert_eq!(
        VideoEncoder::pull_encoded_frame(PullReply::Sample { pts: Some(7), data: idr.clone() }),
        Ok(Some(EncodedFrame { is_keyframe: true, pts: 7, data: idr }))
    );
    assert_eq!(
        VideoEncoder::pull_encoded_frame(PullReply::Sample { pts: None, data: vec![1] }),
        Ok(Some(EncodedFrame { is_keyframe: false, pts: 0, data: vec![1] }))
    );
    assert_eq!(VideoEncoder::pull_encoded_frame(PullReply::Empty), Ok(None));
    assert_eq!(
        VideoEncoder::pull_encoded_frame(PullReply::NoBuffer),
        Err(EncoderError::EncodingFailed("no buffer".to_string()))
    );
    assert_eq!(
        VideoEncoder::pull_encoded_frame(PullReply::Unreadable("x".to_string())),
        Err(EncoderError::EncodingFailed("x".to_string()))
    );
}

#[test]
fn flush_takes_what_is_left() {
    let sample = |byte: u8| PullReply::Sample { pts: None, data: vec![byte] };
    let frames = VideoEncoder::flush(vec![
        sample(1),
        PullReply::NoBuffer,
        PullReply::Unreadable("x".to_string()),
        sample(2),
        PullReply::Empty,
        sample(3),
    ]);
    let bytes: Vec<Vec<u8>> = frames.into_iter().map(|f| f.data).collect();
    assert_eq!(bytes, vec![vec![1], vec![2]]);
}

#[test]
fn encoder_errors_explain_themselves() {
    let text = || "x".to_string();
    assert_eq!(EncoderError::GstInit(text()).message(), "GStreamer initialization failed: x");
    assert_eq!(EncoderError::PipelineCreation(text()).message(), "pipeline creation failed: x");
    assert_eq!(EncoderError::ElementNotFound(text()).message(), "element not found: x");
    assert_eq!(EncoderError::StateChange.message(), "pipeline state change failed");
    assert_eq!(EncoderError::EncodingFailed(text()).message(), "encoding failed: x");
    assert_eq!(EncoderError::Stopped.message(), "encoder stopped");
    for format in [
        PixelFormat::Bgra,
        PixelFormat::Rgba,
        PixelFormat::Bgrx,
        PixelFormat::Rgbx,
        PixelFormat::Unknown,
    ] {
        assert_eq!(
            EncoderError::UnsupportedFormat(format).message(),
            format!("unsupported pixel format: {:?}", format)
        );
    }
}
