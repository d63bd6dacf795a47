use spectro_cam_rs::camera::{
    CameraAction, CameraEvent, CameraIndex, CameraInfo, CameraThread, ControlValueSetter,
    FrameStep, IterationPlan, KnownCameraControl, OpenOutcome, RequestedFormatType, StreamState,
};
use spectro_cam_rs::channel::{after_send, offer, LoopControl, SendOutcome, SendStats};
use spectro_cam_rs::config::{
    CameraFormatDef, FrameFormatDef, ImageConfig, ResolutionDef, SpectrumWindow, Vec2,
};
use spectro_cam_rs::frame::{extract_window, mirror, RgbFrame, WindowError};
use spectro_cam_rs::spectrum::{SpectrumCalculator, SpectrumRgb};
use spectro_cam_rs::spectrum_feed_server::{retain_delivered, Error, SpectrumFeedServer};
use spectro_cam_rs::{ThreadId, ThreadResult, Timestamped};

/// A picture whose every byte tells where it stands: column, row, channel.
fn numbered(width: u32, height: u32) -> RgbFrame {
    let mut data = Vec::new();
    for y in 0..height {
        for x in 0..width {
            data.push(x as u8);
            data.push(y as u8);
            data.push((10 * y + x) as u8);
        }
    }
    RgbFrame::new(width, height, data).unwrap()
}

fn window(x: u32, y: u32, w: u32, h: u32, flip: bool) -> ImageConfig {
    ImageConfig {
        window: SpectrumWindow { offset: Vec2::new(x, y), size: Vec2::new(w, h) },
        flip,
    }
}

/// The picture with left and right exchanged, byte by byte.
fn mirrored(frame: &RgbFrame) -> RgbFrame {
    let mut data = Vec::new();
    for y in 0..frame.height {
        for x in (0..frame.width).rev() {
            for c in 0..3 {
                data.push(frame.get(x, y, c));
            }
        }
    }
    RgbFrame::new(frame.width, frame.height, data).unwrap()
}

fn streaming_with(config: ImageConfig) -> CameraThread {
    let mut t = CameraThread::new();
    t.on_event(start_event());
    t.on_open_result(OpenOutcome::Opened);
    t.on_event(CameraEvent::Config(config));
    t.begin_iteration(false);
    t
}

fn start_event() -> CameraEvent {
    CameraEvent::StartStream { id: CameraIndex::Index(0), format: CameraFormatDef::default() }
}

#[test]
fn frame_needs_matching_bytes() {
    assert!(RgbFrame::new(2, 2, vec![0; 12]).is_some());
    assert!(RgbFrame::new(2, 2, vec![0; 11]).is_none());
    assert!(RgbFrame::new(0, 5, vec![]).is_some());
    let f = numbered(3, 2);
    assert_eq!(f.get(2, 1, 0), 2);
    assert_eq!(f.get(2, 1, 1), 1);
    assert_eq!(f.get(2, 1, 2), 12);
}

#[test]
fn window_is_cut_from_the_frame() {
    let frame = numbered(5, 4);
    let w = extract_window(&frame, &window(1, 2, 3, 1, false)).unwrap();
    assert_eq!(w.width, 3);
    assert_eq!(w.height, 1);
    assert_eq!(w.data, vec![1, 2, 21, 2, 2, 22, 3, 2, 23]);
    assert_ne!(w, frame);
}

#[test]
fn window_is_cut_from_the_mirrored_frame() {
    let frame = numbered(5, 4);
    let w = extract_window(&frame, &window(1, 2, 3, 2, true)).unwrap();
    // column i of the window shows column 5 - 1 - (1 + i) of the frame
    assert_eq!(
        w.data,
        vec![
            3, 2, 23, 2, 2, 22, 1, 2, 21, //
            3, 3, 33, 2, 3, 32, 1, 3, 31,
        ]
    );
    let whole = extract_window(&frame, &window(0, 0, 5, 4, true)).unwrap();
    assert_eq!(whole.get(0, 0, 0), 4);
    assert_eq!(whole.get(4, 3, 2), 30);
    assert_ne!(whole, frame);
}

#[test]
fn window_beyond_the_frame_is_refused() {
    let frame = numbered(5, 4);
    assert_eq!(extract_window(&frame, &window(3, 0, 3, 1, false)), Err(WindowError::OutOfBounds));
    assert_eq!(extract_window(&frame, &window(0, 4, 1, 1, true)), Err(WindowError::OutOfBounds));
    assert_eq!(
        extract_window(&frame, &window(u32::MAX, 0, u32::MAX, 1, false)),
        Err(WindowError::OutOfBounds)
    );
    let empty = extract_window(&frame, &window(5, 4, 0, 0, false)).unwrap();
    assert_eq!((empty.width, empty.height, empty.data.len()), (0, 0, 0));
}

#[test]
fn default_format_types() {
    assert_eq!(
        CameraInfo::get_default_camera_format_types(),
        vec![
            RequestedFormatType::Unspecified,
            RequestedFormatType::AbsoluteHighestResolution,
            RequestedFormatType::Exact(CameraFormatDef::new(
                ResolutionDef { width_x: 640, height_y: 480 },
                FrameFormatDef::MJPEG,
                30
            )),
            RequestedFormatType::Exact(CameraFormatDef::new(
                ResolutionDef { width_x: 640, height_y: 480 },
                FrameFormatDef::YUYV,
                30
            )),
        ]
    );
    let f = CameraFormatDef::default();
    assert_eq!((f.width(), f.height(), f.frame_rate), (640, 480, 30));
}

#[test]
fn stream_starts_only_from_idle() {
    let mut t = CameraThread::new();
    assert_eq!(t.state(), StreamState::Idle);
    assert_eq!(
        t.on_event(start_event()),
        CameraAction::OpenStream { id: CameraIndex::Index(0), format: CameraFormatDef::default() }
    );
    assert_eq!(t.state(), StreamState::Starting);
    assert_eq!(t.on_event(start_event()), CameraAction::Nothing);
    assert_eq!(t.state(), StreamState::Starting);
    let report = t.on_open_result(OpenOutcome::Opened).unwrap();
    assert_eq!(report, ThreadResult { id: ThreadId::Camera, result: Ok(()) });
    assert!(!report.ends_stream());
    assert_eq!(t.state(), StreamState::Streaming);
    assert_eq!(t.on_event(start_event()), CameraAction::Nothing);
    assert_eq!(t.state(), StreamState::Streaming);
    assert_eq!(t.on_open_result(OpenOutcome::Opened), None);
}

#[test]
fn failing_to_open_returns_to_idle() {
    let mut t = CameraThread::new();
    t.on_event(start_event());
    let report = t.on_open_result(OpenOutcome::DeviceFailed).unwrap();
    assert_eq!(
        report,
        ThreadResult {
            id: ThreadId::Camera,
            result: Err("Could not initialize camera".to_string())
        }
    );
    assert!(report.ends_stream());
    assert_eq!(t.state(), StreamState::Idle);
    t.on_event(CameraEvent::StartStream {
        id: CameraIndex::String("video0".to_string()),
        format: CameraFormatDef::default(),
    });
    let report = t.on_open_result(OpenOutcome::StreamFailed).unwrap();
    assert_eq!(report.result, Err("Could not open stream".to_string()));
    assert_eq!(t.state(), StreamState::Idle);
    let main = ThreadResult { id: ThreadId::Main, result: Err("x".to_string()) };
    assert!(!main.ends_stream());
}

#[test]
fn pause_resume_and_stop() {
    let mut t = CameraThread::new();
    assert_eq!(t.on_event(CameraEvent::Pause), CameraAction::Nothing);
    assert_eq!(t.on_event(CameraEvent::Resume), CameraAction::Nothing);
    assert_eq!(t.on_event(CameraEvent::StopStream), CameraAction::Nothing);
    assert_eq!(t.state(), StreamState::Idle);
    t.on_event(start_event());
    t.on_open_result(OpenOutcome::Opened);

    assert_eq!(t.on_event(CameraEvent::Resume), CameraAction::Nothing);
    assert_eq!(t.on_event(CameraEvent::Pause), CameraAction::PauseCapture);
    assert_eq!(t.state(), StreamState::Paused);
    assert_eq!(t.on_event(CameraEvent::Pause), CameraAction::Nothing);
    assert_eq!(t.on_event(CameraEvent::Resume), CameraAction::ResumeCapture);
    assert_eq!(t.state(), StreamState::Streaming);

    assert_eq!(t.on_event(CameraEvent::StopStream), CameraAction::StopCapture {
        resume_first: false
    });
    assert_eq!(t.state(), StreamState::Stopped);
    assert_eq!(t.on_event(CameraEvent::StopStream), CameraAction::Nothing);
    assert_eq!(t.on_event(start_event()), CameraAction::Nothing);
    t.on_capture_joined();
    assert_eq!(t.state(), StreamState::Idle);
}

#[test]
fn stopping_a_paused_stream_resumes_it_first() {
    let mut t = CameraThread::new();
    t.on_event(start_event());
    t.on_open_result(OpenOutcome::Opened);
    t.on_event(CameraEvent::Pause);
    assert_eq!(t.on_event(CameraEvent::StopStream), CameraAction::StopCapture {
        resume_first: true
    });
    assert_eq!(t.state(), StreamState::Stopped);
}

#[test]
fn only_the_latest_settings_are_taken_up() {
    let mut t = CameraThread::new();
    let first = window(0, 0, 1, 1, false);
    let second = window(1, 1, 2, 1, true);
    assert_eq!(t.on_event(CameraEvent::Config(first)), CameraAction::Nothing);
    assert_eq!(t.on_event(CameraEvent::Config(second)), CameraAction::Nothing);
    t.on_event(CameraEvent::Controls(vec![(
        KnownCameraControl::Gain,
        ControlValueSetter::Integer(1),
    )]));
    let latest = vec![
        (KnownCameraControl::Exposure, ControlValueSetter::Integer(-3)),
        (KnownCameraControl::Other(9), ControlValueSetter::Boolean(true)),
    ];
    t.on_event(CameraEvent::Controls(latest.clone()));
    assert_eq!(t.state(), StreamState::Idle);

    // a request to end is obeyed first and leaves what waits
    assert_eq!(t.begin_iteration(true), IterationPlan::Exit);
    assert_eq!(t.begin_iteration(false), IterationPlan::Proceed { controls: Some(latest) });
    // nothing waits any more
    assert_eq!(t.begin_iteration(false), IterationPlan::Proceed { controls: None });

    // the second window is the one in use; it asks for the mirror image
    assert_eq!(t.active_window(), Some(second));
    match t.on_frame(Some(numbered(5, 4))) {
        FrameStep::Publish { window, refused, preview } => {
            assert!(!refused);
            assert_eq!(preview, mirrored(&numbered(5, 4)));
            assert_eq!(window.unwrap().data, vec![3, 1, 13, 2, 1, 12]);
        }
        other => panic!("{:?}", other),
    }
}

#[test]
fn frames_without_window_settings_are_only_previewed() {
    let mut t = CameraThread::new();
    match t.on_frame(Some(numbered(2, 2))) {
        FrameStep::Publish { window, refused, preview } => {
            assert_eq!(window, None);
            assert!(!refused);
            assert_eq!(preview, numbered(2, 2));
        }
        other => panic!("{:?}", other),
    }
}

#[test]
fn window_outside_the_frame_is_reported_and_skipped() {
    let mut t = CameraThread::new();
    t.on_event(start_event());
    t.on_open_result(OpenOutcome::Opened);
    t.on_event(CameraEvent::Config(window(4, 0, 2, 1, false)));
    t.begin_iteration(false);
    match t.on_frame(Some(numbered(5, 4))) {
        FrameStep::Publish { window, refused, .. } => {
            assert_eq!(window, None);
            assert!(refused);
        }
        other => panic!("{:?}", other),
    }
    assert_eq!(t.state(), StreamState::Streaming);
}

#[test]
fn a_failed_poll_ends_the_stream() {
    let mut t = CameraThread::new();
    t.on_event(start_event());
    t.on_open_result(OpenOutcome::Opened);
    match t.on_frame(None) {
        FrameStep::Fatal(report) => {
            assert_eq!(report.id, ThreadId::Camera);
            assert_eq!(report.result, Err("Could not poll for frame".to_string()));
            assert!(report.ends_stream());
        }
        other => panic!("{:?}", other),
    }
    assert_eq!(t.state(), StreamState::Idle);
}

#[test]
fn outcomes_are_booked() {
    let mut stats = SendStats::new();
    assert_eq!(after_send(SendOutcome::Sent, &mut stats), LoopControl::Continue);
    assert_eq!(after_send(SendOutcome::Full, &mut stats), LoopControl::Continue);
    assert_eq!(after_send(SendOutcome::Full, &mut stats), LoopControl::Continue);
    assert_eq!(stats, SendStats { delivered: 1, dropped: 2 });
    assert_eq!(after_send(SendOutcome::Disconnected, &mut stats), LoopControl::Exit);
    assert_eq!(stats, SendStats { delivered: 1, dropped: 2 });
    let mut full = SendStats { delivered: u64::MAX, dropped: u64::MAX };
    after_send(SendOutcome::Sent, &mut full);
    after_send(SendOutcome::Full, &mut full);
    assert_eq!(full, SendStats { delivered: u64::MAX, dropped: u64::MAX });
}

#[test]
fn saturated_channel_drops_new_frames_and_keeps_old_ones() {
    let (tx, rx) = flume::bounded::<RgbFrame>(2);
    let mut t = CameraThread::new();
    for n in 1..=5u8 {
        let frame = RgbFrame::new(1, 1, vec![n, n, n]).unwrap();
        // never blocks, whatever the channel holds
        assert_eq!(t.forward_window(&tx, frame), LoopControl::Continue);
    }
    assert_eq!(t.stats(), SendStats { delivered: 2, dropped: 3 });
    // what was queued before the channel filled up arrives, in order
    assert_eq!(rx.try_recv().unwrap().data, vec![1, 1, 1]);
    assert_eq!(rx.try_recv().unwrap().data, vec![2, 2, 2]);
    assert!(rx.try_recv().is_err());
    // with room again, frames go through again
    let frame = RgbFrame::new(1, 1, vec![6, 6, 6]).unwrap();
    assert_eq!(t.forward_window(&tx, frame), LoopControl::Continue);
    assert_eq!(t.stats(), SendStats { delivered: 3, dropped: 3 });
    assert_eq!(rx.try_recv().unwrap().data, vec![6, 6, 6]);
    // once the receiver is gone the loop ends
    drop(rx);
    let frame = RgbFrame::new(1, 1, vec![7, 7, 7]).unwrap();
    assert_eq!(t.forward_window(&tx, frame), LoopControl::Exit);
    assert_eq!(t.stats(), SendStats { delivered: 3, dropped: 3 });
}

#[test]
fn offer_hands_the_value_over() {
    let (tx, rx) = flume::bounded::<u32>(1);
    let mut stats = SendStats::new();
    assert_eq!(offer(&tx, 11, &mut stats), LoopControl::Continue);
    assert_eq!(offer(&tx, 12, &mut stats), LoopControl::Continue);
    assert_eq!(stats, SendStats { delivered: 1, dropped: 1 });
    assert_eq!(rx.try_recv(), Ok(11));
    let (tx, rx) = flume::unbounded::<u32>();
    for n in 0..100 {
        offer(&tx, n, &mut stats);
    }
    assert_eq!(stats, SendStats { delivered: 101, dropped: 1 });
    assert_eq!(rx.len(), 100);
}

#[test]
fn reducer_forwards_raw_spectra() {
    let (tx, rx) = flume::bounded::<Timestamped<SpectrumRgb>>(1);
    let mut stats = SendStats::new();
    let window = Timestamped::new(3, 4, RgbFrame::new(1, 1, vec![255, 0, 51]).unwrap()).unwrap();
    assert_eq!(SpectrumCalculator::forward(&tx, &window, &mut stats), LoopControl::Continue);
    assert_eq!(SpectrumCalculator::forward(&tx, &window, &mut stats), LoopControl::Continue);
    assert_eq!(stats, SendStats { delivered: 1, dropped: 1 });
    let got = rx.try_recv().unwrap();
    assert_eq!((got.start, got.end), (3, 4));
    assert_eq!(got.data, SpectrumRgb { r: vec![333_333], g: vec![0], b: vec![66_666] });
    drop(rx);
    assert_eq!(SpectrumCalculator::forward(&tx, &window, &mut stats), LoopControl::Exit);
}

#[test]
fn clients_with_failed_writes_are_dropped() {
    assert_eq!(
        retain_delivered(vec!["a", "b", "c", "d"], &vec![true, false, true, false]),
        vec!["a", "c"]
    );
    assert_eq!(retain_delivered(vec![1, 2], &vec![false, false]), Vec::<i32>::new());
    assert_eq!(retain_delivered(Vec::<u8>::new(), &vec![]), Vec::<u8>::new());

    let mut server = SpectrumFeedServer::new();
    assert_eq!(server.client_count(), 0);
    server.add_client(10);
    server.add_client(20);
    server.add_client(30);
    let clients = server.take_clients();
    assert_eq!(clients, vec![10, 20, 30]);
    assert_eq!(server.client_count(), 0);
    server.add_client(40);
    server.finish_broadcast(clients, &vec![true, false, true]);
    assert_eq!(server.take_clients(), vec![10, 30, 40]);
}

#[test]
fn bind_error() {
    let e = Error::BindSocketFailed("address in use".to_string());
    assert_eq!(e.message(), "Failed to bind listening socket");
    assert_eq!(e.source(), "address in use");
}

#[test]
fn thread_result_copies() {
    let failed = ThreadResult { id: ThreadId::Camera, result: Err("gone".to_string()) };
    assert_eq!(failed.clone(), failed);
    let fine = ThreadResult { id: ThreadId::Main, result: Ok(()) };
    assert_eq!(fine.clone(), fine);
}

#[test]
fn preview_is_mirrored_where_the_window_is() {
    let picture = numbered(5, 4);
    let mut t = streaming_with(window(1, 2, 3, 1, true));
    match t.on_frame(Some(picture.clone())) {
        FrameStep::Publish { window, refused, preview } => {
            assert!(!refused);
            assert_eq!((preview.width, preview.height), (5, 4));
            // the first pixel of the preview is the last pixel of the picture's row
            assert_eq!(preview.get(0, 0, 0), picture.get(4, 0, 0));
            assert_eq!(preview.get(4, 3, 2), picture.get(0, 3, 2));
            assert_eq!(preview, mirrored(&picture));
            assert_ne!(preview, picture);
            // the window is the strip of the preview at the window's offset
            let window = window.unwrap();
            for i in 0..3 {
                for c in 0..3 {
                    assert_eq!(window.get(i, 0, c), preview.get(1 + i, 2, c));
                }
            }
        }
        other => panic!("{:?}", other),
    }
    assert_eq!(mirror(&picture), mirrored(&picture));
    assert_eq!(mirror(&mirror(&picture)), picture);
}

#[test]
fn preview_is_the_picture_without_flip() {
    let picture = numbered(5, 4);
    let mut t = streaming_with(window(1, 2, 3, 1, false));
    match t.on_frame(Some(picture.clone())) {
        FrameStep::Publish { window, preview, .. } => {
            assert_eq!(preview, picture);
            assert_eq!(window.unwrap().data, vec![1, 2, 21, 2, 2, 22, 3, 2, 23]);
        }
        other => panic!("{:?}", other),
    }
}

#[test]
fn preview_is_mirrored_even_where_the_window_is_refused() {
    let picture = numbered(5, 4);
    let mut t = streaming_with(window(4, 0, 2, 1, true));
    match t.on_frame(Some(picture.clone())) {
        FrameStep::Publish { window, refused, preview } => {
            assert_eq!(window, None);
            assert!(refused);
            assert_eq!(preview, mirrored(&picture));
        }
        other => panic!("{:?}", other),
    }
}

#[test]
fn pause_while_opening_is_kept_for_the_answer() {
    let mut t = CameraThread::new();
    t.on_event(start_event());
    assert_eq!(t.on_event(CameraEvent::Pause), CameraAction::PauseCapture);
    assert_eq!(t.on_event(CameraEvent::Pause), CameraAction::Nothing);
    assert_eq!(t.state(), StreamState::Starting);
    let report = t.on_open_result(OpenOutcome::Opened).unwrap();
    assert_eq!(report.result, Ok(()));
    assert_eq!(t.state(), StreamState::Paused);
    assert_eq!(t.on_event(CameraEvent::Resume), CameraAction::ResumeCapture);
    assert_eq!(t.state(), StreamState::Streaming);

    // a resume while opening takes the pause back
    let mut t = CameraThread::new();
    t.on_event(start_event());
    assert_eq!(t.on_event(CameraEvent::Resume), CameraAction::Nothing);
    t.on_event(CameraEvent::Pause);
    assert_eq!(t.on_event(CameraEvent::Resume), CameraAction::ResumeCapture);
    t.on_open_result(OpenOutcome::Opened);
    assert_eq!(t.state(), StreamState::Streaming);

    // a device that does not open leaves no pause behind
    let mut t = CameraThread::new();
    t.on_event(start_event());
    t.on_event(CameraEvent::Pause);
    t.on_open_result(OpenOutcome::DeviceFailed);
    assert_eq!(t.state(), StreamState::Idle);
    t.on_event(start_event());
    t.on_open_result(OpenOutcome::Opened);
    assert_eq!(t.state(), StreamState::Streaming);
}

#[test]
fn stop_while_opening_ends_the_stream_as_it_begins() {
    let mut t = CameraThread::new();
    t.on_event(start_event());
    assert_eq!(t.on_event(CameraEvent::StopStream), CameraAction::StopCapture {
        resume_first: false
    });
    assert_eq!(t.state(), StreamState::Starting);
    // asked once, nothing more is taken until the device has answered
    assert_eq!(t.on_event(CameraEvent::StopStream), CameraAction::Nothing);
    assert_eq!(t.on_event(CameraEvent::Pause), CameraAction::Nothing);
    let report = t.on_open_result(OpenOutcome::Opened).unwrap();
    assert_eq!(report.result, Ok(()));
    assert_eq!(t.state(), StreamState::Stopped);
    assert_eq!(t.begin_iteration(true), IterationPlan::Exit);
    t.on_capture_joined();
    assert_eq!(t.state(), StreamState::Idle);

    // a pause asked before the stop is lifted first
    let mut t = CameraThread::new();
    t.on_event(start_event());
    t.on_event(CameraEvent::Pause);
    assert_eq!(t.on_event(CameraEvent::StopStream), CameraAction::StopCapture {
        resume_first: true
    });
    t.on_open_result(OpenOutcome::StreamFailed);
    assert_eq!(t.state(), StreamState::Idle);
}

#[test]
fn each_stream_starts_without_window_settings() {
    let config = window(1, 1, 2, 1, false);
    let mut t = streaming_with(config);
    assert_eq!(t.active_window(), Some(config));
    t.on_event(CameraEvent::StopStream);
    t.on_capture_joined();
    assert_eq!(t.active_window(), None);
    // the next stream cuts no window until settings are handed in
    t.on_event(start_event());
    t.on_open_result(OpenOutcome::Opened);
    assert_eq!(t.begin_iteration(false), IterationPlan::Proceed { controls: None });
    match t.on_frame(Some(numbered(5, 4))) {
        FrameStep::Publish { window, refused, preview } => {
            assert_eq!(window, None);
            assert!(!refused);
            assert_eq!(preview, numbered(5, 4));
        }
        other => panic!("{:?}", other),
    }
    // settings handed in between two streams wait for the second
    t.on_event(CameraEvent::StopStream);
    t.on_event(CameraEvent::Config(config));
    t.on_capture_joined();
    t.on_event(start_event());
    t.on_open_result(OpenOutcome::Opened);
    t.begin_iteration(false);
    assert_eq!(t.active_window(), Some(config));

    // a failed poll and a reducer that is gone end the stream as well
    assert!(matches!(t.on_frame(None), FrameStep::Fatal(_)));
    assert_eq!(t.active_window(), None);
    let mut t = streaming_with(config);
    let (tx, rx) = flume::bounded::<u8>(1);
    drop(rx);
    assert_eq!(t.forward_window(&tx, 1), LoopControl::Exit);
    assert_eq!(t.state(), StreamState::Idle);
    assert_eq!(t.active_window(), None);
}
