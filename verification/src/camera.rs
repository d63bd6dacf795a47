//! The life of a camera stream: what the camera thread does on each request
//! and on each turn of its capture loop.
//!
//! The thread that owns the camera performs the actions that are decided
//! here and reports what came of them: whether the device opened, whether a
//! picture arrived, whether the window was taken by the channel.

use crate::channel::{control_after, offer, stats_after, LoopControl, SendOutcome, SendStats};
use crate::config::{CameraFormatDef, FrameFormatDef, ImageConfig, ResolutionDef};
use crate::frame::{extract_window, is_mirror_of, mirror, window_channel_at, RgbFrame};
use crate::{ThreadId, ThreadResult};
use vstd::prelude::*;

verus! {

/// Which camera of the machine is meant.
#[derive(Debug, PartialEq, Eq, Clone)]
pub enum CameraIndex {
    Index(u32),
    String(String),
}

/// How a stream format is asked for when a camera is probed.
#[derive(Debug, PartialEq, Eq, Structural, Clone, Copy)]
pub enum RequestedFormatType {
    /// No wish.
    Unspecified,
    AbsoluteHighestResolution,
    Exact(CameraFormatDef),
}

/// A camera of the machine and the formats in which it streams.
#[derive(Debug, PartialEq, Eq, Clone)]
pub struct CameraInfo {
    pub human_name: String,
    pub index: CameraIndex,
    pub formats: Vec<CameraFormatDef>,
}

impl CameraInfo {
    /// The ways of asking for a format that are tried, in this order, when a
    /// camera is probed.
    pub fn get_default_camera_format_types() -> (types: Vec<RequestedFormatType>)
        ensures
            types@ == seq![
                RequestedFormatType::Unspecified,
                RequestedFormatType::AbsoluteHighestResolution,
                RequestedFormatType::Exact(
                    CameraFormatDef {
                        resolution: ResolutionDef { width_x: 640, height_y: 480 },
                        format: FrameFormatDef::MJPEG,
                        frame_rate: 30,
                    },
                ),
                RequestedFormatType::Exact(
                    CameraFormatDef {
                        resolution: ResolutionDef { width_x: 640, height_y: 480 },
                        format: FrameFormatDef::YUYV,
                        frame_rate: 30,
                    },
                ),
            ],
    {
        let mut types: Vec<RequestedFormatType> = Vec::new();
        types.push(RequestedFormatType::Unspecified);
        types.push(RequestedFormatType::AbsoluteHighestResolution);
        types.push(RequestedFormatType::Exact(CameraFormatDef::default()));
        types.push(
            RequestedFormatType::Exact(
                CameraFormatDef::new(
                    ResolutionDef { width_x: 640, height_y: 480 },
                    FrameFormatDef::YUYV,
                    30,
                ),
            ),
        );
        proof {
            assert(types@ =~= seq![
                RequestedFormatType::Unspecified,
                RequestedFormatType::AbsoluteHighestResolution,
                RequestedFormatType::Exact(
                    CameraFormatDef {
                        resolution: ResolutionDef { width_x: 640, height_y: 480 },
                        format: FrameFormatDef::MJPEG,
                        frame_rate: 30,
                    },
                ),
                RequestedFormatType::Exact(
                    CameraFormatDef {
                        resolution: ResolutionDef { width_x: 640, height_y: 480 },
                        format: FrameFormatDef::YUYV,
                        frame_rate: 30,
                    },
                ),
            ]);
        }
        types
    }
}

/// A setting of the camera that can be written while it streams.
#[derive(Debug, PartialEq, Eq, Structural, Clone, Copy)]
pub enum KnownCameraControl {
    Brightness,
    Contrast,
    Hue,
    Saturation,
    Sharpness,
    Gamma,
    WhiteBalance,
    BacklightComp,
    Gain,
    Pan,
    Tilt,
    Zoom,
    Exposure,
    Iris,
    Focus,
    Other(u128),
}

/// The value that is written to a setting.
#[derive(Debug, PartialEq, Eq, Structural, Clone, Copy)]
pub enum ControlValueSetter {
    Integer(i64),
    Boolean(bool),
}

/// What is asked of the camera thread.
#[derive(Debug, PartialEq, Eq, Clone)]
pub enum CameraEvent {
    StartStream { id: CameraIndex, format: CameraFormatDef },
    StopStream,
    Config(ImageConfig),
    Controls(Vec<(KnownCameraControl, ControlValueSetter)>),
    Pause,
    Resume,
}

/// Where a stream stands in its life.
#[derive(Debug, PartialEq, Eq, Structural, Clone, Copy)]
pub enum StreamState {
    /// No stream; one can be started.
    Idle,
    /// The device is being opened.
    Starting,
    /// Pictures are being captured.
    Streaming,
    /// The capture loop waits to be resumed.
    Paused,
    /// The capture loop has been told to end and is being joined.
    Stopped,
}

/// What the camera thread has to do next.
#[derive(Debug, PartialEq, Eq, Clone)]
pub enum CameraAction {
    /// Nothing is to be done.
    Nothing,
    /// Open the device in exactly this format and report how it went.
    OpenStream { id: CameraIndex, format: CameraFormatDef },
    /// Let the capture loop wait.
    PauseCapture,
    /// Let the capture loop go on.
    ResumeCapture,
    /// Tell the capture loop to end and wait for it. Where `resume_first` is
    /// set the loop waits and has to be let go first, or it never sees the
    /// request.
    StopCapture { resume_first: bool },
}

/// How opening the device went.
#[derive(Debug, PartialEq, Eq, Structural, Clone, Copy)]
pub enum OpenOutcome {
    Opened,
    /// The camera could not be set up.
    DeviceFailed,
    /// The camera is set up but gives no stream.
    StreamFailed,
}

/// What the capture loop does at the top of a turn.
#[derive(Debug, PartialEq, Eq, Clone)]
pub enum IterationPlan {
    /// Leave the loop.
    Exit,
    /// Write these settings to the camera, where there are any, each for
    /// itself, then poll for a picture.
    Proceed { controls: Option<Vec<(KnownCameraControl, ControlValueSetter)>> },
}

/// What the capture loop does with the answer to a poll.
#[derive(Debug, PartialEq)]
pub enum FrameStep {
    /// No picture came: report this and leave the loop.
    Fatal(ThreadResult),
    /// Offer the window, where there is one, to the reducer, then show the
    /// preview: the picture, mirrored where the settings in use say so.
    /// `refused` tells that the configured window does not lie inside the
    /// picture.
    Publish { window: Option<RgbFrame>, refused: bool, preview: RgbFrame },
}

/// What was asked for while the device was being opened, and is owed once
/// the device has answered.
#[derive(Debug, PartialEq, Eq, Structural, Clone, Copy)]
pub struct Waiting {
    /// The capture loop is to wait from its first turn on.
    pub pause: bool,
    /// The stream is to end as soon as it has begun.
    pub stop: bool,
}

/// Nothing waits for the device's answer.
pub open spec fn nothing_waits() -> Waiting {
    Waiting { pause: false, stop: false }
}

/// The device is being opened and has not been told to end the stream.
pub open spec fn opening(state: StreamState, waiting: Waiting) -> bool {
    state == StreamState::Starting && !waiting.stop
}

/// The state after a request, seen from the state before.
pub open spec fn state_after_event(state: StreamState, event: CameraEvent) -> StreamState {
    match event {
        CameraEvent::StartStream { .. } => if state == StreamState::Idle {
            StreamState::Starting
        } else {
            state
        },
        CameraEvent::StopStream => if state == StreamState::Streaming || state
            == StreamState::Paused {
            StreamState::Stopped
        } else {
            state
        },
        CameraEvent::Pause => if state == StreamState::Streaming {
            StreamState::Paused
        } else {
            state
        },
        CameraEvent::Resume => if state == StreamState::Paused {
            StreamState::Streaming
        } else {
            state
        },
        CameraEvent::Config(_) => state,
        CameraEvent::Controls(_) => state,
    }
}

/// What waits for the device's answer after a request. While the device is
/// being opened, a pause, a resume and a stop are remembered; a stop takes
/// the place of a pause, and after a stop nothing more is taken.
pub open spec fn waiting_after_event(state: StreamState, waiting: Waiting, event: CameraEvent)
    -> Waiting {
    match event {
        CameraEvent::StartStream { .. } => if state == StreamState::Idle {
            nothing_waits()
        } else {
            waiting
        },
        CameraEvent::StopStream => if opening(state, waiting) {
            Waiting { pause: false, stop: true }
        } else {
            waiting
        },
        CameraEvent::Pause => if opening(state, waiting) {
            Waiting { pause: true, stop: false }
        } else {
            waiting
        },
        CameraEvent::Resume => if opening(state, waiting) {
            Waiting { pause: false, stop: false }
        } else {
            waiting
        },
        CameraEvent::Config(_) => waiting,
        CameraEvent::Controls(_) => waiting,
    }
}

/// The action that a request calls for in a state.
pub open spec fn action_for_event(state: StreamState, waiting: Waiting, event: CameraEvent)
    -> CameraAction {
    match event {
        CameraEvent::StartStream { id, format } => if state == StreamState::Idle {
            CameraAction::OpenStream { id, format }
        } else {
            CameraAction::Nothing
        },
        CameraEvent::StopStream => if state == StreamState::Streaming {
            CameraAction::StopCapture { resume_first: false }
        } else if state == StreamState::Paused {
            CameraAction::StopCapture { resume_first: true }
        } else if opening(state, waiting) {
            CameraAction::StopCapture { resume_first: waiting.pause }
        } else {
            CameraAction::Nothing
        },
        CameraEvent::Pause => if state == StreamState::Streaming || (opening(state, waiting)
            && !waiting.pause) {
            CameraAction::PauseCapture
        } else {
            CameraAction::Nothing
        },
        CameraEvent::Resume => if state == StreamState::Paused || (opening(state, waiting)
            && waiting.pause) {
            CameraAction::ResumeCapture
        } else {
            CameraAction::Nothing
        },
        CameraEvent::Config(_) => CameraAction::Nothing,
        CameraEvent::Controls(_) => CameraAction::Nothing,
    }
}

/// The state after the device has answered, seen from the state before: a
/// device that opened streams, unless a stop or a pause waited for it.
pub open spec fn state_after_open(state: StreamState, waiting: Waiting, outcome: OpenOutcome)
    -> StreamState {
    if state == StreamState::Starting {
        if outcome != OpenOutcome::Opened {
            StreamState::Idle
        } else if waiting.stop {
            StreamState::Stopped
        } else if waiting.pause {
            StreamState::Paused
        } else {
            StreamState::Streaming
        }
    } else {
        state
    }
}

/// What is said of a failure to open the device.
pub open spec fn open_failure_message(outcome: OpenOutcome) -> Seq<char> {
    if outcome == OpenOutcome::DeviceFailed {
        "Could not initialize camera"@
    } else {
        "Could not open stream"@
    }
}

/// What is said when no picture comes.
pub open spec fn poll_failure_message() -> Seq<char> {
    "Could not poll for frame"@
}

/// `preview` is what is shown of `frame` under the window settings in use:
/// the picture itself, or its mirror image where the settings say so.
pub open spec fn is_preview_of(preview: RgbFrame, frame: RgbFrame, config: Option<ImageConfig>)
    -> bool {
    if config.is_some() && config.unwrap().flip {
        is_mirror_of(preview, frame)
    } else {
        preview == frame
    }
}

/// `window` is the window that `config` cuts from `frame`.
pub open spec fn is_window_of(window: RgbFrame, frame: RgbFrame, config: ImageConfig) -> bool {
    &&& window.wf()
    &&& window.width == config.window.size.x
    &&& window.height == config.window.size.y
    &&& forall|i: int, j: int, c: int|
        0 <= i < window.width && 0 <= j < window.height && 0 <= c < 3
            ==> #[trigger] window.channel_at(i, j, c) == window_channel_at(frame, config, i, j, c)
}

/// The camera thread's view of its stream: the state, what waits for the
/// device's answer, the settings handed in since the capture loop last
/// looked, and the window settings in use.
pub struct CameraThread {
    state: StreamState,
    waiting: Waiting,
    pending_config: Option<ImageConfig>,
    pending_controls: Option<Vec<(KnownCameraControl, ControlValueSetter)>>,
    active_config: Option<ImageConfig>,
    stats: SendStats,
}

impl CameraThread {
    /// Where the stream stands.
    pub closed spec fn stream_state(&self) -> StreamState {
        self.state
    }

    /// What waits for the device's answer.
    pub closed spec fn waiting_requests(&self) -> Waiting {
        self.waiting
    }

    /// The window settings handed in and not yet taken up.
    pub closed spec fn waiting_config(&self) -> Option<ImageConfig> {
        self.pending_config
    }

    /// The camera settings handed in and not yet written.
    pub closed spec fn waiting_controls(&self) -> Option<
        Vec<(KnownCameraControl, ControlValueSetter)>,
    > {
        self.pending_controls
    }

    /// The window settings in use by the stream; none between streams.
    pub closed spec fn window_config(&self) -> Option<ImageConfig> {
        self.active_config
    }

    /// What has become of the windows offered to the reducer.
    pub closed spec fn window_stats(&self) -> SendStats {
        self.stats
    }

    /// A thread without a stream.
    pub fn new() -> (thread: Self)
        ensures
            thread.stream_state() == StreamState::Idle,
            thread.waiting_requests() == nothing_waits(),
            thread.waiting_config().is_none(),
            thread.waiting_controls().is_none(),
            thread.window_config().is_none(),
            thread.window_stats() == (SendStats { delivered: 0, dropped: 0 }),
    {
        Self {
            state: StreamState::Idle,
            waiting: Waiting { pause: false, stop: false },
            pending_config: None,
            pending_controls: None,
            active_config: None,
            stats: SendStats::new(),
        }
    }

    /// Where the stream stands.
    pub fn state(&self) -> (state: StreamState)
        ensures
            state == self.stream_state(),
    {
        self.state
    }

    /// The counts of windows delivered and dropped.
    pub fn stats(&self) -> (stats: SendStats)
        ensures
            stats == self.window_stats(),
    {
        self.stats
    }

    /// The window settings in use by the stream.
    pub fn active_window(&self) -> (config: Option<ImageConfig>)
        ensures
            config == self.window_config(),
    {
        self.active_config
    }

    /// Takes a request. A stream is started only from idle. It is paused
    /// while it streams, resumed while it is paused, and stopped while it
    /// streams or is paused. While the device is still being opened, a pause,
    /// a resume and a stop are acted on at once and remembered for the
    /// device's answer. A request that fits nothing of this changes nothing.
    /// New window or camera settings replace those that still wait, in every
    /// state.
    pub fn on_event(&mut self, event: CameraEvent) -> (action: CameraAction)
        ensures
            final(self).stream_state() == state_after_event(old(self).stream_state(), event),
            final(self).waiting_requests() == waiting_after_event(
                old(self).stream_state(),
                old(self).waiting_requests(),
                event,
            ),
            action == action_for_event(
                old(self).stream_state(),
                old(self).waiting_requests(),
                event,
            ),
            final(self).waiting_config() == (match event {
                CameraEvent::Config(config) => Some(config),
                _ => old(self).waiting_config(),
            }),
            final(self).waiting_controls() == (match event {
                CameraEvent::Controls(controls) => Some(controls),
                _ => old(self).waiting_controls(),
            }),
            final(self).window_config() == old(self).window_config(),
            final(self).window_stats() == old(self).window_stats(),
    {
        let opening = self.state == StreamState::Starting && !self.waiting.stop;
        match event {
            CameraEvent::StartStream { id, format } => {
                if self.state == StreamState::Idle {
                    self.state = StreamState::Starting;
                    self.waiting = Waiting { pause: false, stop: false };
                    CameraAction::OpenStream { id, format }
                } else {
                    CameraAction::Nothing
                }
            },
            CameraEvent::StopStream => {
                if self.state == StreamState::Streaming {
                    self.state = StreamState::Stopped;
                    CameraAction::StopCapture { resume_first: false }
                } else if self.state == StreamState::Paused {
                    self.state = StreamState::Stopped;
                    CameraAction::StopCapture { resume_first: true }
                } else if opening {
                    let resume_first = self.waiting.pause;
                    self.waiting = Waiting { pause: false, stop: true };
                    CameraAction::StopCapture { resume_first }
                } else {
                    CameraAction::Nothing
                }
            },
            CameraEvent::Pause => {
                if self.state == StreamState::Streaming {
                    self.state = StreamState::Paused;
                    CameraAction::PauseCapture
                } else if opening {
                    let asked = self.waiting.pause;
                    self.waiting = Waiting { pause: true, stop: false };
                    if asked {
                        CameraAction::Nothing
                    } else {
                        CameraAction::PauseCapture
                    }
                } else {
                    CameraAction::Nothing
                }
            },
            CameraEvent::Resume => {
                if self.state == StreamState::Paused {
                    self.state = StreamState::Streaming;
                    CameraAction::ResumeCapture
                } else if opening {
                    let asked = self.waiting.pause;
                    self.waiting = Waiting { pause: false, stop: false };
                    if asked {
                        CameraAction::ResumeCapture
                    } else {
                        CameraAction::Nothing
                    }
                } else {
                    CameraAction::Nothing
                }
            },
            CameraEvent::Config(config) => {
                self.pending_config = Some(config);
                CameraAction::Nothing
            },
            CameraEvent::Controls(controls) => {
                self.pending_controls = Some(controls);
                CameraAction::Nothing
            },
        }
    }

    /// Takes the device's answer to being opened and says what is reported
    /// of it: success, after which pictures are captured unless a pause or a
    /// stop waited for the answer, or the failure, after which there is no
    /// stream. Nothing is reported where no device was being opened.
    pub fn on_open_result(&mut self, outcome: OpenOutcome) -> (report: Option<ThreadResult>)
        ensures
            final(self).stream_state() == state_after_open(
                old(self).stream_state(),
                old(self).waiting_requests(),
                outcome,
            ),
            final(self).waiting_requests() == (if old(self).stream_state()
                == StreamState::Starting {
                nothing_waits()
            } else {
                old(self).waiting_requests()
            }),
            final(self).waiting_config() == old(self).waiting_config(),
            final(self).waiting_controls() == old(self).waiting_controls(),
            final(self).window_config() == old(self).window_config(),
            final(self).window_stats() == old(self).window_stats(),
            report.is_some() <==> old(self).stream_state() == StreamState::Starting,
            report.is_some() ==> report.unwrap().id == ThreadId::Camera,
            report.is_some() ==> (report.unwrap().result.is_ok() <==> outcome
                == OpenOutcome::Opened),
            report.is_some() && outcome != OpenOutcome::Opened
                ==> report.unwrap().result.unwrap_err()@ == open_failure_message(outcome),
    {
        if self.state != StreamState::Starting {
            return None;
        }
        let waited = self.waiting;
        self.waiting = Waiting { pause: false, stop: false };
        match outcome {
            OpenOutcome::Opened => {
                self.state = if waited.stop {
                    StreamState::Stopped
                } else if waited.pause {
                    StreamState::Paused
                } else {
                    StreamState::Streaming
                };
                Some(ThreadResult { id: ThreadId::Camera, result: Ok(()) })
            },
            OpenOutcome::DeviceFailed => {
                self.state = StreamState::Idle;
                Some(
                    ThreadResult {
                        id: ThreadId::Camera,
                        result: Err("Could not initialize camera".to_owned()),
                    },
                )
            },
            OpenOutcome::StreamFailed => {
                self.state = StreamState::Idle;
                Some(
                    ThreadResult {
                        id: ThreadId::Camera,
                        result: Err("Could not open stream".to_owned()),
                    },
                )
            },
        }
    }

    /// The capture loop has ended and is joined: there is no stream, and the
    /// window settings that it used are in use no longer. Settings that still
    /// wait go on waiting for the next stream.
    pub fn on_capture_joined(&mut self)
        ensures
            final(self).stream_state() == StreamState::Idle,
            final(self).waiting_requests() == nothing_waits(),
            final(self).window_config().is_none(),
            final(self).waiting_config() == old(self).waiting_config(),
            final(self).waiting_controls() == old(self).waiting_controls(),
            final(self).window_stats() == old(self).window_stats(),
    {
        self.state = StreamState::Idle;
        self.waiting = Waiting { pause: false, stop: false };
        self.active_config = None;
    }

    /// The top of a turn of the capture loop, once the loop is not held by a
    /// pause. A request to end is obeyed before anything else. Otherwise the
    /// window settings that wait become the ones in use, and the camera
    /// settings that wait are handed out to be written; neither waits any
    /// longer.
    pub fn begin_iteration(&mut self, exit_requested: bool) -> (plan: IterationPlan)
        ensures
            final(self).stream_state() == old(self).stream_state(),
            final(self).waiting_requests() == old(self).waiting_requests(),
            final(self).window_stats() == old(self).window_stats(),
            exit_requested ==> plan == IterationPlan::Exit && final(self).waiting_config() == old(self).waiting_config() && final(self).waiting_controls() == old(self).waiting_controls()
                && final(self).window_config() == old(self).window_config(),
            !exit_requested ==> plan == (IterationPlan::Proceed {
                controls: old(self).waiting_controls(),
            }) && final(self).waiting_config().is_none() && final(self).waiting_controls().is_none()
                && final(self).window_config() == (match old(self).waiting_config() {
                Some(config) => Some(config),
                None => old(self).window_config(),
            }),
    {
        if exit_requested {
            return IterationPlan::Exit;
        }
        match self.pending_config.take() {
            Some(config) => {
                self.active_config = Some(config);
            },
            None => {},
        }
        IterationPlan::Proceed { controls: self.pending_controls.take() }
    }

    /// Takes the answer to a poll. Without a picture the stream is over: the
    /// failure is reported and the window settings are in use no longer.
    /// With a picture, the picture is mirrored where the settings in use say
    /// so, the window is cut from it, and both are handed out: the whole
    /// picture, mirrored or not, as the preview. Without window settings, or
    /// with a window that does not lie inside the picture, only the preview
    /// is handed out.
    pub fn on_frame(&mut self, frame: Option<RgbFrame>) -> (step: FrameStep)
        requires
            frame.is_some() ==> frame.unwrap().wf(),
        ensures
            final(self).waiting_config() == old(self).waiting_config(),
            final(self).waiting_controls() == old(self).waiting_controls(),
            final(self).window_stats() == old(self).window_stats(),
            frame.is_none() ==> final(self).stream_state() == StreamState::Idle && final(self).waiting_requests() == nothing_waits() && final(self).window_config().is_none() && (
            match step {
                FrameStep::Fatal(report) => report.id == ThreadId::Camera && report.result.is_err()
                    && report.result.unwrap_err()@ == poll_failure_message(),
                _ => false,
            }),
            frame.is_some() ==> final(self).stream_state() == old(self).stream_state() && final(self).waiting_requests() == old(self).waiting_requests() && final(self).window_config()
                == old(self).window_config() && (match step {
                FrameStep::Publish { window, refused, preview } => {
                    let picture = frame.unwrap();
                    let config = old(self).window_config();
                    &&& is_preview_of(preview, picture, config)
                    &&& refused == (config.is_some() && !config.unwrap().fits(
                        picture.width,
                        picture.height,
                    ))
                    &&& window.is_some() == (config.is_some() && config.unwrap().fits(
                        picture.width,
                        picture.height,
                    ))
                    &&& window.is_some() ==> is_window_of(window.unwrap(), picture, config.unwrap())
                },
                _ => false,
            }),
    {
        match frame {
            None => {
                self.state = StreamState::Idle;
                self.waiting = Waiting { pause: false, stop: false };
                self.active_config = None;
                FrameStep::Fatal(
                    ThreadResult {
                        id: ThreadId::Camera,
                        result: Err("Could not poll for frame".to_owned()),
                    },
                )
            },
            Some(picture) => {
                match self.active_config {
                    None => FrameStep::Publish { window: None, refused: false, preview: picture },
                    Some(config) => {
                        let ghost seen = picture;
                        let preview = if config.flip {
                            mirror(&picture)
                        } else {
                            picture
                        };
                        // The picture is mirrored already: the window is cut as it lies.
                        let plain = ImageConfig { window: config.window, flip: false };
                        match extract_window(&preview, &plain) {
                            Ok(window) => {
                                proof {
                                    assert forall|i: int, j: int, c: int|
                                        0 <= i < window.width && 0 <= j < window.height && 0 <= c
                                            < 3 implies #[trigger] window.channel_at(i, j, c)
                                        == window_channel_at(seen, config, i, j, c) by {
                                        assert(window.channel_at(i, j, c) == window_channel_at(
                                            preview,
                                            plain,
                                            i,
                                            j,
                                            c,
                                        ));
                                        if config.flip {
                                            assert(preview.channel_at(
                                                config.window.offset.x + i,
                                                config.window.offset.y + j,
                                                c,
                                            ) == seen.channel_at(
                                                seen.width - 1 - (config.window.offset.x + i),
                                                config.window.offset.y + j,
                                                c,
                                            ));
                                        }
                                    }
                                }
                                FrameStep::Publish { window: Some(window), refused: false, preview }
                            },
                            Err(_) => FrameStep::Publish { window: None, refused: true, preview },
                        }
                    },
                }
            },
        }
    }

    /// Offers a window to the reducer without waiting. A window that meets a
    /// full channel is dropped and counted, and the loop goes on: the camera
    /// never waits for the reducer. Once the reducer is gone the loop ends,
    /// and with it the stream: the window settings are in use no longer.
    pub fn forward_window<T>(&mut self, sender: &flume::Sender<T>, window: T) -> (control:
        LoopControl)
        ensures
            final(self).waiting_config() == old(self).waiting_config(),
            final(self).waiting_controls() == old(self).waiting_controls(),
            exists|outcome: SendOutcome|
                final(self).window_stats() == #[trigger] stats_after(
                    old(self).window_stats(),
                    outcome,
                ) && control == control_after(outcome),
            control == LoopControl::Continue ==> final(self).stream_state() == old(self).stream_state() && final(self).waiting_requests() == old(self).waiting_requests()
                && final(self).window_config() == old(self).window_config(),
            control == LoopControl::Exit ==> final(self).stream_state() == StreamState::Idle
                && final(self).waiting_requests() == nothing_waits() && final(self).window_config().is_none(),
    {
        let mut stats = self.stats;
        let ghost before = stats;
        let control = offer(sender, window, &mut stats);
        self.stats = stats;
        if control == LoopControl::Exit {
            self.state = StreamState::Idle;
            self.waiting = Waiting { pause: false, stop: false };
            self.active_config = None;
        }
        proof {
            let outcome = choose|outcome: SendOutcome|
                stats == #[trigger] stats_after(before, outcome) && control == control_after(
                    outcome,
                );
            assert(self.window_stats() == stats_after(old(self).window_stats(), outcome));
        }
        control
    }
}

} // verus!
