use drawing_tablet::capture::format::{
    fourcc_to_spa, get_format_params, MediaSubtype, MediaType, ModifierChoice, VideoFormat,
    FOURCC_ABGR2101010, FOURCC_ABGR8888, FOURCC_ARGB8888, FOURCC_XBGR2101010, FOURCC_XBGR8888,
    FOURCC_XRGB8888,
};
use drawing_tablet::capture::frame::{
    captured_frame, recv_frame, take_frame, try_recv_frame, CaptureError, ChannelReply, Chunk, Frame,
    FrameData, PixelFormat,
};
use drawing_tablet::capture::monitor::{select_monitor, MonitorInfo, PortalError, StreamInfo};
use drawing_tablet::capture::queue::{FrameQueue, QUEUE_CAPACITY};
use drawing_tablet::capture::session::{
    ask, run_capture_loop, CaptureAction, CaptureReply, CaptureStage, ITERATION_MS, STREAM_NAME,
};

#[test]
fn fourcc_codes_are_those_of_the_kernel() {
    use_codes(drm_fourcc::DrmFourcc::Argb8888, FOURCC_ARGB8888, VideoFormat::Bgra);
    use_codes(drm_fourcc::DrmFourcc::Abgr8888, FOURCC_ABGR8888, VideoFormat::Rgba);
    use_codes(drm_fourcc::DrmFourcc::Xrgb8888, FOURCC_XRGB8888, VideoFormat::Bgrx);
    use_codes(drm_fourcc::DrmFourcc::Xbgr8888, FOURCC_XBGR8888, VideoFormat::Rgbx);
    use_codes(drm_fourcc::DrmFourcc::Abgr2101010, FOURCC_ABGR2101010, VideoFormat::Abgr210Le);
    use_codes(drm_fourcc::DrmFourcc::Xbgr2101010, FOURCC_XBGR2101010, VideoFormat::Xbgr210Le);
}

fn use_codes(code: drm_fourcc::DrmFourcc, number: u32, format: VideoFormat) {
    assert_eq!(code as u32, number);
    assert_eq!(fourcc_to_spa(code as u32), format);
}

#[test]
fn pixel_formats_of_streams() {
    assert_eq!(PixelFormat::from(VideoFormat::Bgra), PixelFormat::Bgra);
    assert_eq!(PixelFormat::from(VideoFormat::Rgba), PixelFormat::Rgba);
    assert_eq!(PixelFormat::from(VideoFormat::Bgrx), PixelFormat::Bgrx);
    assert_eq!(PixelFormat::from(VideoFormat::Rgbx), PixelFormat::Rgbx);
    assert_eq!(PixelFormat::from(VideoFormat::Abgr210Le), PixelFormat::Unknown);
    assert_eq!(PixelFormat::from(VideoFormat::Other), PixelFormat::Unknown);
}

#[test]
fn offered_formats() {
    let params = get_format_params(None);
    assert_eq!(params.preferred, VideoFormat::Bgra);
    assert_eq!(
        params.formats,
        vec![VideoFormat::Bgra, VideoFormat::Rgba, VideoFormat::Bgrx, VideoFormat::Rgbx]
    );
    assert_eq!(params.modifiers, None);
    assert_eq!((params.media_type, params.media_subtype), (MediaType::Video, MediaSubtype::Raw));
    let invalid = u64::from(drm_fourcc::DrmModifier::Invalid);
    let linear = u64::from(drm_fourcc::DrmModifier::Linear);
    let modifiers = vec![invalid, linear, u64::MAX];
    let params = get_format_params(Some((FOURCC_XRGB8888, &modifiers)));
    assert_eq!(params.preferred, VideoFormat::Bgrx);
    assert_eq!(params.formats, vec![VideoFormat::Bgrx]);
    assert_eq!((params.media_type, params.media_subtype), (MediaType::Video, MediaSubtype::Raw));
    assert_eq!(
        params.modifiers,
        Some(ModifierChoice {
            preferred: invalid as i64,
            alternatives: vec![invalid as i64, linear as i64, -1],
        })
    );
}

#[test]
fn frames_are_taken_from_buffers() {
    let bytes = [1u8, 2, 3, 4, 5];
    let chunk = Chunk { offset: 1, size: 3, stride: 16 };
    assert_eq!(
        take_frame(4, 2, chunk, Some(&bytes)),
        Some(Frame {
            width: 4,
            height: 2,
            format: PixelFormat::Bgra,
            stride: 16,
            data: FrameData::MemPtr(vec![2, 3, 4]),
        })
    );
    assert_eq!(take_frame(4, 2, Chunk { size: 5, ..chunk }, Some(&bytes)), None);
    assert!(take_frame(4, 2, Chunk { size: 4, ..chunk }, Some(&bytes)).is_some());
    assert_eq!(take_frame(4, 2, chunk, None), None);
    let odd = Chunk { offset: u32::MAX, size: u32::MAX, stride: -1 };
    assert_eq!(take_frame(4, 2, odd, Some(&bytes)), None);
    let negative = Chunk { offset: 0, size: 0, stride: -1 };
    assert_eq!(take_frame(4, 2, negative, Some(&bytes)).unwrap().stride, u32::MAX);
}

#[test]
fn paused_capture_takes_no_frame() {
    let bytes = [1u8, 2, 3, 4];
    let chunk = Chunk { offset: 0, size: 4, stride: 4 };
    assert_eq!(captured_frame(true, 1, 1, Some(chunk), Some(&bytes)), None);
    assert_eq!(
        captured_frame(false, 1, 1, Some(chunk), Some(&bytes)),
        take_frame(1, 1, chunk, Some(&bytes))
    );
    assert!(captured_frame(false, 1, 1, Some(chunk), Some(&bytes)).is_some());
    assert_eq!(captured_frame(false, 1, 1, None, Some(&bytes)), None);
    assert_eq!(captured_frame(false, 1, 1, Some(chunk), None), None);
    let mut queue = FrameQueue::new();
    queue.deliver(captured_frame(true, 1, 1, Some(chunk), Some(&bytes)));
    assert_eq!(queue.receive(), ChannelReply::Empty);
    queue.deliver(captured_frame(false, 1, 1, Some(chunk), Some(&bytes)));
    assert_eq!(
        queue.receive(),
        ChannelReply::Ready(take_frame(1, 1, chunk, Some(&bytes)).unwrap())
    );
}

fn numbered(number: u32) -> Frame {
    Frame {
        width: number,
        height: 1,
        format: PixelFormat::Bgra,
        stride: 0,
        data: FrameData::MemPtr(vec![]),
    }
}

#[test]
fn full_queue_drops_the_new_frame() {
    assert_eq!(QUEUE_CAPACITY, 10);
    let mut queue = FrameQueue::new();
    assert_eq!(queue.receive(), ChannelReply::Empty);
    for number in 0..10 {
        assert!(queue.offer(numbered(number)));
    }
    assert!(!queue.offer(numbered(10)));
    assert_eq!(queue.receive(), ChannelReply::Ready(numbered(0)));
    assert!(queue.offer(numbered(11)));
    assert!(!queue.offer(numbered(12)));
    queue.end();
    for number in [1, 2, 3, 4, 5, 6, 7, 8, 9, 11] {
        assert_eq!(queue.receive(), ChannelReply::Ready(numbered(number)));
    }
    assert_eq!(queue.receive(), ChannelReply::Disconnected);
}

#[test]
fn frames_are_received() {
    let frame = || take_frame(1, 1, Chunk { offset: 0, size: 0, stride: 0 }, Some(&[])).unwrap();
    assert_eq!(try_recv_frame(ChannelReply::Ready(frame())), Some(frame()));
    assert_eq!(try_recv_frame(ChannelReply::Empty), None);
    assert_eq!(try_recv_frame(ChannelReply::Disconnected), None);
    assert_eq!(try_recv_frame(ChannelReply::Taken), None);
    assert_eq!(recv_frame(ChannelReply::Ready(frame())), Ok(frame()));
    assert_eq!(recv_frame(ChannelReply::Disconnected), Err(CaptureError::Stopped));
    assert_eq!(recv_frame(ChannelReply::Taken), Err(CaptureError::Stopped));
}

#[test]
fn monitor_of_the_first_stream() {
    let streams = vec![
        StreamInfo { node_id: 42, size: Some((2560, 1440)) },
        StreamInfo { node_id: 43, size: None },
    ];
    assert_eq!(
        select_monitor(&streams, Some("token".to_string())),
        Ok(MonitorInfo {
            node_id: 42,
            width: 2560,
            height: 1440,
            restore_token: Some("token".to_string()),
        })
    );
    let unsized_stream = vec![StreamInfo { node_id: 1, size: None }];
    let monitor = select_monitor(&unsized_stream, None).unwrap();
    assert_eq!((monitor.width, monitor.height), (1920, 1080));
    let odd = vec![StreamInfo { node_id: 1, size: Some((-1, i32::MIN)) }];
    let monitor = select_monitor(&odd, None).unwrap();
    assert_eq!((monitor.width, monitor.height), (u32::MAX, 0x8000_0000));
    assert_eq!(select_monitor(&vec![], None), Err(PortalError::NoStreams));
}

#[test]
fn capture_runs_until_it_is_stopped() {
    let go = || CaptureReply::Done { stop: false };
    let expected = [
        (CaptureStage::Context, CaptureAction::CreateContext),
        (CaptureStage::Core, CaptureAction::ConnectCore),
        (CaptureStage::Stream, CaptureAction::CreateStream),
        (CaptureStage::Params, CaptureAction::WriteParams(get_format_params(None))),
        (CaptureStage::Pod, CaptureAction::ReadParams),
        (CaptureStage::Connect, CaptureAction::ConnectStream { node_id: 5 }),
        (CaptureStage::Running, CaptureAction::Iterate),
        (CaptureStage::Running, CaptureAction::Iterate),
    ];
    let mut stage = CaptureStage::Loop;
    assert_eq!(ask(stage, 5), CaptureAction::CreateLoop);
    for step in expected {
        let next = run_capture_loop(stage, 5, go());
        assert_eq!(next, step);
        stage = next.0;
    }
    assert_eq!(
        run_capture_loop(stage, 5, CaptureReply::Done { stop: true }),
        (CaptureStage::Over, CaptureAction::Finish(Ok(())))
    );
    assert_eq!(
        run_capture_loop(CaptureStage::Connect, 5, CaptureReply::Done { stop: true }),
        (CaptureStage::Over, CaptureAction::Finish(Ok(())))
    );
    assert_eq!(
        run_capture_loop(CaptureStage::Loop, 5, CaptureReply::Done { stop: true }),
        (CaptureStage::Context, CaptureAction::CreateContext)
    );
    assert_eq!(STREAM_NAME, "drawing-tablet-capture");
    assert_eq!(ITERATION_MS, 100);
}

#[test]
fn capture_fails_at_its_stage() {
    let failure = || CaptureReply::Failed("why".to_string());
    for stage in [
        CaptureStage::Loop,
        CaptureStage::Context,
        CaptureStage::Core,
        CaptureStage::Params,
        CaptureStage::Pod,
    ] {
        assert_eq!(
            run_capture_loop(stage, 5, failure()),
            (
                CaptureStage::Over,
                CaptureAction::Finish(Err(CaptureError::InitFailed("why".to_string())))
            )
        );
    }
    for stage in [CaptureStage::Stream, CaptureStage::Connect] {
        assert_eq!(
            run_capture_loop(stage, 5, failure()),
            (
                CaptureStage::Over,
                CaptureAction::Finish(Err(CaptureError::StreamFailed("why".to_string())))
            )
        );
    }
    assert_eq!(
        run_capture_loop(CaptureStage::Running, 5, failure()),
        (CaptureStage::Running, CaptureAction::Iterate)
    );
}

#[test]
fn capture_errors_explain_themselves() {
    let text = || "x".to_string();
    assert_eq!(
        CaptureError::InitFailed(text()).message(),
        "PipeWire initialization failed: x"
    );
    assert_eq!(CaptureError::StreamFailed(text()).message(), "stream connection failed: x");
    assert_eq!(CaptureError::Stopped.message(), "capture stopped");
    assert_eq!(CaptureError::NoFrameData.message(), "no frame data available");
    assert_eq!(PortalError::Portal(text()).message(), "portal error: x");
    assert_eq!(PortalError::NoStreams.message(), "no streams available");
    assert_eq!(PortalError::Cancelled.message(), "portal cancelled by user");
}
