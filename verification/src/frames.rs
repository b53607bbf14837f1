//! The loop that submits frames to the headset's compositor.

use vstd::prelude::*;

use crate::headset::HeadsetState;
use crate::pattern::PIMAX_EYE_BUFFER_PAIR_COUNT;

verus! {

// ---------------------------------------------------------------------------
// Turns of the loop
// ---------------------------------------------------------------------------

/// How a turn of the loop begins.
#[derive(Clone, Copy, Debug, PartialEq, Eq, Structural)]
pub enum FrameStart {
    /// The loop ends.
    Exit,
    /// A frame follows.
    Continue,
    /// The display is set up anew, then a frame follows.
    Refresh,
    /// The display was to be set up anew, but nobody wears the headset. A frame follows.
    SkipRefresh,
}

/// Begins a turn of the loop. A request to set the display up anew is used up, even where nobody
/// wears the headset.
pub fn begin_frame(headset: &mut HeadsetState) -> (start: FrameStart)
    ensures
        start == if old(headset).shutdown_requested {
            FrameStart::Exit
        } else if !old(headset).presentation_refresh_requested {
            FrameStart::Continue
        } else if old(headset).headset_near {
            FrameStart::Refresh
        } else {
            FrameStart::SkipRefresh
        },
        *final(headset) == if old(headset).shutdown_requested {
            *old(headset)
        } else {
            HeadsetState { presentation_refresh_requested: false, ..*old(headset) }
        },
{
    if headset.is_shutdown_requested() {
        return FrameStart::Exit;
    }
    if !headset.take_presentation_refresh_requested() {
        FrameStart::Continue
    } else if headset.is_headset_near() {
        FrameStart::Refresh
    } else {
        FrameStart::SkipRefresh
    }
}

/// What the eyes are shown.
#[derive(Clone, Copy, Debug, PartialEq, Eq, Structural)]
pub enum Picture {
    /// A frame of the video that this pair of textures does not hold yet.
    Upload { timestamp_ns: u64 },
    /// The frame of the video that this pair of textures holds.
    Keep,
    /// The test picture.
    Pattern,
}

/// What follows the submission of a frame.
#[derive(Clone, Copy, Debug, PartialEq, Eq, Structural)]
pub enum FirstFrame {
    /// The first frame was reported already.
    Done,
    /// The runtime does not know its timing yet.
    Deferred { logs: bool },
    /// The first frame is reported. Before that the tracking mode is set, where one is given.
    Report { tracking_mode: Option<i32> },
}

/// What is done about the display's power.
#[derive(Clone, Copy, Debug, PartialEq, Eq, Structural)]
pub enum PowerStep {
    Nothing,
    /// Nobody wears the headset: the display may sleep.
    Release { logs: bool },
    /// The headset is worn: the display is asked whether it is awake, and woken where it is not.
    Query { logs: bool },
}

/// State of the loop.
#[derive(Clone, Copy, Debug, PartialEq, Eq)]
pub struct RenderLoop {
    pub frame_index: i32,
    /// The video frame that each pair of textures holds.
    pub slot_timestamps: [Option<u64>; PIMAX_EYE_BUFFER_PAIR_COUNT],
    pub live_video_frames: u64,
    pub pose_updates: u64,
    pub pose_failures: u64,
    pub signalled_first_frame: bool,
    /// The tracking mode to change to once the runtime knows its timing.
    pub pending_tracking_mode: Option<i32>,
}

/// A count that is worth a line in the log: each of the first five, then one in 120.
pub open spec fn worth_logging(count: u64) -> bool {
    count <= 5 || count % 120 == 0
}

/// The number of a frame's pair of textures.
pub open spec fn slot_of(frame_index: i32) -> int {
    frame_index as int % PIMAX_EYE_BUFFER_PAIR_COUNT as int
}

/// The number of the frame after a frame.
pub open spec fn next_index(frame_index: i32) -> i32 {
    if frame_index == i32::MAX {
        i32::MIN
    } else {
        (frame_index + 1) as i32
    }
}

/// What the eyes are shown, given the newest frame of the video.
pub open spec fn picture_for(held: Option<u64>, newest: Option<u64>) -> Picture {
    match newest {
        Some(timestamp_ns) => if held == Some(timestamp_ns) {
            Picture::Keep
        } else {
            Picture::Upload { timestamp_ns }
        },
        None => Picture::Pattern,
    }
}

impl RenderLoop {
    /// The loop before its first frame.
    pub fn new(promotion_tracking_mode: Option<i32>) -> (state: Self)
        ensures
            state.frame_index == 0,
            forall|slot: int|
                0 <= slot < PIMAX_EYE_BUFFER_PAIR_COUNT
                    ==> (#[trigger] state.slot_timestamps@[slot]) is None,
            state.live_video_frames == 0,
            state.pose_updates == 0,
            state.pose_failures == 0,
            !state.signalled_first_frame,
            state.pending_tracking_mode == promotion_tracking_mode,
    {
        RenderLoop {
            frame_index: 0,
            slot_timestamps: [None, None, None, None],
            live_video_frames: 0,
            pose_updates: 0,
            pose_failures: 0,
            signalled_first_frame: false,
            pending_tracking_mode: promotion_tracking_mode,
        }
    }

    /// The pair of textures of this frame. The pairs take turns.
    pub fn slot(&self) -> (slot: usize)
        ensures
            slot == slot_of(self.frame_index),
            slot < PIMAX_EYE_BUFFER_PAIR_COUNT,
    {
        let shifted: u64 = (self.frame_index as i64 + 0x8000_0000) as u64;
        (shifted % 4) as usize
    }

    /// Counts a pose of the head that was read, or that could not be. Tells whether it is worth a
    /// line in the log.
    pub fn pose_read(&mut self, success: bool) -> (logs: bool)
        ensures
            *final(self) == if success {
                RenderLoop { pose_updates: old(self).pose_updates.wrapping_add(1), ..*old(self) }
            } else {
                RenderLoop { pose_failures: old(self).pose_failures.wrapping_add(1), ..*old(self) }
            },
            logs == worth_logging(
                if success {
                    final(self).pose_updates
                } else {
                    final(self).pose_failures
                },
            ),
    {
        if success {
            self.pose_updates = self.pose_updates.wrapping_add(1);
            self.pose_updates <= 5 || self.pose_updates % 120 == 0
        } else {
            self.pose_failures = self.pose_failures.wrapping_add(1);
            self.pose_failures <= 5 || self.pose_failures % 120 == 0
        }
    }

    /// Decides what the eyes are shown, given the newest frame of the video.
    pub fn choose_picture(&self, newest: Option<u64>) -> (picture: Picture)
        ensures
            picture == picture_for(self.slot_timestamps@[slot_of(self.frame_index)], newest),
    {
        match newest {
            Some(timestamp_ns) => {
                let held: Option<u64> = self.slot_timestamps[self.slot()];
                match held {
                    Some(old_timestamp) if old_timestamp == timestamp_ns => Picture::Keep,
                    _ => Picture::Upload { timestamp_ns },
                }
            },
            None => Picture::Pattern,
        }
    }

    /// Notes that a frame of the video was uploaded to both eyes. Tells whether it is worth a
    /// line in the log.
    pub fn video_uploaded(&mut self, timestamp_ns: u64) -> (logs: bool)
        ensures
            final(self).slot_timestamps@ == old(self).slot_timestamps@.update(
                slot_of(old(self).frame_index),
                Some(timestamp_ns),
            ),
            final(self).live_video_frames == old(self).live_video_frames.wrapping_add(1),
            *final(self) == (RenderLoop {
                slot_timestamps: final(self).slot_timestamps,
                live_video_frames: final(self).live_video_frames,
                ..*old(self)
            }),
            logs == worth_logging(final(self).live_video_frames),
    {
        let slot: usize = self.slot();
        self.slot_timestamps[slot] = Some(timestamp_ns);
        self.live_video_frames = self.live_video_frames.wrapping_add(1);
        self.live_video_frames <= 5 || self.live_video_frames % 120 == 0
    }

    /// Decides whether the first frame is reported, once a frame was submitted. That waits until
    /// the runtime predicts a time for it.
    pub fn submitted(&mut self, time_predicted: bool) -> (step: FirstFrame)
        ensures
            step == if old(self).signalled_first_frame {
                FirstFrame::Done
            } else if time_predicted {
                FirstFrame::Report { tracking_mode: old(self).pending_tracking_mode }
            } else {
                FirstFrame::Deferred {
                    logs: old(self).frame_index < 5 || old(self).frame_index % 120 == 0,
                }
            },
            *final(self) == if step is Report {
                RenderLoop {
                    signalled_first_frame: true,
                    pending_tracking_mode: None,
                    ..*old(self)
                }
            } else {
                *old(self)
            },
    {
        if self.signalled_first_frame {
            FirstFrame::Done
        } else if time_predicted {
            let tracking_mode: Option<i32> = self.pending_tracking_mode;
            self.pending_tracking_mode = None;
            self.signalled_first_frame = true;
            FirstFrame::Report { tracking_mode }
        } else {
            FirstFrame::Deferred { logs: crate::pattern::logs_frame(self.frame_index) }
        }
    }

    /// Decides what is done about the display's power: something in one of 30 frames, with a line
    /// in the log in one of 720.
    pub fn power_step(&self, headset_near: bool) -> (step: PowerStep)
        ensures
            step == if self.frame_index < 0 || self.frame_index % 30 != 0 {
                PowerStep::Nothing
            } else if headset_near {
                PowerStep::Query { logs: self.frame_index % 720 == 0 }
            } else {
                PowerStep::Release { logs: self.frame_index % 720 == 0 }
            },
    {
        if self.frame_index < 0 {
            return PowerStep::Nothing;
        }
        let index: u32 = self.frame_index as u32;
        if index % 30 != 0 {
            PowerStep::Nothing
        } else if headset_near {
            PowerStep::Query { logs: index % 720 == 0 }
        } else {
            PowerStep::Release { logs: index % 720 == 0 }
        }
    }

    /// Whether the system's own pictures are hidden again: in one of 120 frames, but not in the
    /// first.
    pub fn hides_system_ui(&self) -> (hides: bool)
        ensures
            hides == (self.frame_index > 0 && self.frame_index % 120 == 0),
    {
        self.frame_index > 0 && (self.frame_index as u32) % 120 == 0
    }

    /// Whether the frame's timings are worth a line in the log: the first ten, those that took
    /// longer than fifty milliseconds, and one in 120. Frames count from the lowest number again
    /// after the highest, so that numbers below ten come back.
    pub fn logs_timings(&self, elapsed_ns: u64) -> (logs: bool)
        ensures
            logs == (self.frame_index < 10 || elapsed_ns > 50_000_000 || self.frame_index % 120
                == 0),
    {
        self.frame_index < 10 || elapsed_ns > 50_000_000 || (self.frame_index as u32) % 120 == 0
    }

    /// Ends a frame.
    pub fn end_frame(&mut self)
        ensures
            *final(self) == (RenderLoop {
                frame_index: next_index(old(self).frame_index),
                ..*old(self)
            }),
    {
        if self.frame_index == i32::MAX {
            self.frame_index = i32::MIN;
        } else {
            self.frame_index = self.frame_index + 1;
        }
    }
}

/// The pairs of textures take turns: each frame uses the pair after the one before it, also where
/// the frames are counted from the start again.
pub proof fn law_textures_take_turns(frame_index: i32)
    ensures
        slot_of(next_index(frame_index)) == (slot_of(frame_index) + 1)
            % PIMAX_EYE_BUFFER_PAIR_COUNT as int,
        0 <= slot_of(frame_index) < PIMAX_EYE_BUFFER_PAIR_COUNT,
{
}

/// A pair of textures takes a frame of the video once: after the upload it keeps it, until
/// another frame is the newest.
pub proof fn law_frames_are_uploaded_once(held: Option<u64>, timestamp_ns: u64, newest: u64)
    ensures
        picture_for(Some(timestamp_ns), Some(timestamp_ns)) is Keep,
        newest != timestamp_ns ==> picture_for(Some(timestamp_ns), Some(newest)) == (
        Picture::Upload { timestamp_ns: newest }),
        picture_for(held, None) is Pattern,
{
}

// ---------------------------------------------------------------------------
// The calls of a session
// ---------------------------------------------------------------------------

/// A picture of the system's own.
#[derive(Clone, Copy, Debug, PartialEq, Eq, Structural)]
pub enum SystemUi {
    /// The one that is shown until the first frame is there.
    FirstFrameReady,
    /// The warning that the headset's place is known badly.
    LowQualityWarning,
}

impl SystemUi {
    /// The name by which the service knows the picture.
    pub fn name(&self) -> (name: &'static str)
        ensures
            name@ == match *self {
                SystemUi::FirstFrameReady => "vr_first_frame_ready"@,
                SystemUi::LowQualityWarning => "6dofWarning_low_quality"@,
            },
    {
        match self {
            SystemUi::FirstFrameReady => "vr_first_frame_ready",
            SystemUi::LowQualityWarning => "6dofWarning_low_quality",
        }
    }
}

/// A call to the runtime, or to the system.
#[derive(Clone, Copy, Debug, PartialEq, Eq, Structural)]
pub enum RuntimeCall {
    /// The headset is told that it is used for virtual reality.
    VrWorkMode,
    /// The window is kept on and in front.
    ConfigureWindow,
    AcquireWakeLock,
    ReleaseWakeLock,
    TrackingMode { mode: i32 },
    /// The program waits until the client's service is there, but no longer than this.
    WaitForService { millis: u64 },
    /// The client enters the mode for virtual reality: it starts it, or resumes it where that
    /// fails.
    EnterVrMode,
    StopVrMode,
    HideSystemUi { ui: SystemUi },
    Pause { millis: u64 },
    /// The client's signals of the display are switched on or off.
    ClientVsyncCapture { on: bool },
    /// The service's signals of the display are switched on or off.
    ServiceVsyncCapture { on: bool },
    StartVsync,
    StopVsync,
    /// The picture is switched on or off.
    Presentation { on: bool },
    /// The runtime is told that the first frame is there.
    FirstFrameComplete,
    EndXr,
    Shutdown,
    DisconnectClient,
}

/// The calls that hide the system's own pictures.
pub open spec fn hide_calls() -> Seq<RuntimeCall> {
    seq![
        RuntimeCall::HideSystemUi { ui: SystemUi::FirstFrameReady },
        RuntimeCall::HideSystemUi { ui: SystemUi::LowQualityWarning },
    ]
}

/// The call that switches the signals of the display on or off: through the client where there
/// is one, else through the service.
pub open spec fn capture_call(has_client: bool, on: bool) -> RuntimeCall {
    if has_client {
        RuntimeCall::ClientVsyncCapture { on }
    } else {
        RuntimeCall::ServiceVsyncCapture { on }
    }
}

/// Adds the calls that hide the system's own pictures.
pub fn hide_system_ui(calls: &mut Vec<RuntimeCall>)
    ensures
        final(calls)@ == old(calls)@ + hide_calls(),
{
    calls.push(RuntimeCall::HideSystemUi { ui: SystemUi::FirstFrameReady });
    calls.push(RuntimeCall::HideSystemUi { ui: SystemUi::LowQualityWarning });
    assert(calls@ =~= old(calls)@ + hide_calls());
}

/// The calls before a session begins, in their order.
pub open spec fn prepare_calls(
    has_client: bool,
    wakes_display: bool,
    tracking_mode: i32,
) -> Seq<RuntimeCall> {
    let woken = if wakes_display {
        seq![RuntimeCall::AcquireWakeLock]
    } else {
        Seq::<RuntimeCall>::empty()
    };
    let entered = if has_client {
        seq![RuntimeCall::WaitForService { millis: 3_000 }, RuntimeCall::EnterVrMode]
            + hide_calls()
    } else {
        Seq::<RuntimeCall>::empty()
    };
    seq![RuntimeCall::VrWorkMode, RuntimeCall::ConfigureWindow] + woken + seq![
        RuntimeCall::TrackingMode { mode: tracking_mode },
    ] + entered + seq![RuntimeCall::Pause { millis: 250 }]
}

/// Lists the calls before a session begins. The display is woken where the headset is worn, if
/// there is a lock to keep it awake. One that fails does not keep the others from being made.
pub fn prepare_pimax_render_session(
    has_client: bool,
    has_wake_lock: bool,
    headset_near: bool,
    tracking_mode: i32,
) -> (calls: Vec<RuntimeCall>)
    ensures
        calls@ == prepare_calls(has_client, has_wake_lock && headset_near, tracking_mode),
{
    let mut calls: Vec<RuntimeCall> = Vec::new();
    calls.push(RuntimeCall::VrWorkMode);
    calls.push(RuntimeCall::ConfigureWindow);
    if has_wake_lock && headset_near {
        calls.push(RuntimeCall::AcquireWakeLock);
    }
    calls.push(RuntimeCall::TrackingMode { mode: tracking_mode });
    if has_client {
        calls.push(RuntimeCall::WaitForService { millis: 3_000 });
        calls.push(RuntimeCall::EnterVrMode);
        hide_system_ui(&mut calls);
    }
    calls.push(RuntimeCall::Pause { millis: 250 });
    assert(calls@ =~= prepare_calls(has_client, has_wake_lock && headset_near, tracking_mode));
    calls
}

/// The calls right after a session began, in their order.
pub open spec fn start_calls(has_client: bool) -> Seq<RuntimeCall> {
    seq![RuntimeCall::StartVsync, capture_call(has_client, true)]
}

/// Lists the calls right after a session began. The session switches the picture on by itself.
pub fn start_pimax_render_session(has_client: bool) -> (calls: Vec<RuntimeCall>)
    ensures
        calls@ == start_calls(has_client),
{
    let mut calls: Vec<RuntimeCall> = Vec::new();
    calls.push(RuntimeCall::StartVsync);
    if has_client {
        calls.push(RuntimeCall::ClientVsyncCapture { on: true });
    } else {
        calls.push(RuntimeCall::ServiceVsyncCapture { on: true });
    }
    assert(calls@ =~= start_calls(has_client));
    calls
}

/// The calls that report the first frame, in their order.
pub open spec fn first_frame_calls(tracking_mode: Option<i32>, has_client: bool) -> Seq<
    RuntimeCall,
> {
    let promoted = match tracking_mode {
        Some(mode) => seq![RuntimeCall::TrackingMode { mode }],
        None => Seq::<RuntimeCall>::empty(),
    };
    let reported = promoted.push(RuntimeCall::FirstFrameComplete);
    if has_client {
        reported + hide_calls()
    } else {
        reported
    }
}

/// Lists the calls that report the first frame.
pub fn report_first_frame(tracking_mode: Option<i32>, has_client: bool) -> (calls: Vec<
    RuntimeCall,
>)
    ensures
        calls@ == first_frame_calls(tracking_mode, has_client),
{
    let mut calls: Vec<RuntimeCall> = Vec::new();
    if let Some(mode) = tracking_mode {
        calls.push(RuntimeCall::TrackingMode { mode });
    }
    calls.push(RuntimeCall::FirstFrameComplete);
    assert(calls@ =~= first_frame_calls(tracking_mode, false));
    if has_client {
        hide_system_ui(&mut calls);
    }
    calls
}

/// The calls that end a session, in their order.
pub open spec fn cleanup_calls(has_client: bool, has_wake_lock: bool) -> Seq<RuntimeCall> {
    let stopped = seq![
        capture_call(has_client, false),
        RuntimeCall::StopVsync,
        RuntimeCall::Presentation { on: false },
        RuntimeCall::EndXr,
        RuntimeCall::Shutdown,
    ];
    let left = if has_client {
        stopped.push(RuntimeCall::StopVrMode)
    } else {
        stopped
    };
    if has_wake_lock {
        left.push(RuntimeCall::ReleaseWakeLock)
    } else {
        left
    }
}

/// Lists the calls that end a session. One that fails does not keep the others from being made.
pub fn cleanup_pimax_render_session(has_client: bool, has_wake_lock: bool) -> (calls: Vec<
    RuntimeCall,
>)
    ensures
        calls@ == cleanup_calls(has_client, has_wake_lock),
{
    let mut calls: Vec<RuntimeCall> = Vec::new();
    if has_client {
        calls.push(RuntimeCall::ClientVsyncCapture { on: false });
    } else {
        calls.push(RuntimeCall::ServiceVsyncCapture { on: false });
    }
    calls.push(RuntimeCall::StopVsync);
    calls.push(RuntimeCall::Presentation { on: false });
    calls.push(RuntimeCall::EndXr);
    calls.push(RuntimeCall::Shutdown);
    if has_client {
        calls.push(RuntimeCall::StopVrMode);
    }
    if has_wake_lock {
        calls.push(RuntimeCall::ReleaseWakeLock);
    }
    assert(calls@ =~= cleanup_calls(has_client, has_wake_lock));
    calls
}

/// The client through which the display is set up anew.
#[derive(Clone, Copy, Debug, PartialEq, Eq, Structural)]
pub enum RefreshClient {
    /// The session has one.
    Own,
    /// One was connected for this purpose.
    Temporary,
    /// None could be connected.
    Missing,
}

/// The calls by which a client leaves the mode for virtual reality and enters it again.
pub open spec fn cycle_calls() -> Seq<RuntimeCall> {
    seq![
        RuntimeCall::ClientVsyncCapture { on: true },
        RuntimeCall::StopVrMode,
        RuntimeCall::Pause { millis: 50 },
        RuntimeCall::EnterVrMode,
    ] + hide_calls()
}

/// Adds the calls by which a client leaves the mode for virtual reality and enters it again.
pub fn cycle_pimax_vr_mode_refresh(calls: &mut Vec<RuntimeCall>)
    ensures
        final(calls)@ == old(calls)@ + cycle_calls(),
{
    calls.push(RuntimeCall::ClientVsyncCapture { on: true });
    calls.push(RuntimeCall::StopVrMode);
    calls.push(RuntimeCall::Pause { millis: 50 });
    calls.push(RuntimeCall::EnterVrMode);
    hide_system_ui(calls);
    assert(calls@ =~= old(calls)@ + cycle_calls());
}

/// The calls that set the display up anew, in their order.
pub open spec fn refresh_calls(client: RefreshClient) -> Seq<RuntimeCall> {
    let first = match client {
        RefreshClient::Own => cycle_calls(),
        RefreshClient::Temporary => seq![RuntimeCall::WaitForService { millis: 1_000 }]
            + cycle_calls() + seq![
            RuntimeCall::ServiceVsyncCapture { on: true },
            RuntimeCall::DisconnectClient,
        ],
        RefreshClient::Missing => seq![RuntimeCall::ServiceVsyncCapture { on: true }],
    };
    first + seq![RuntimeCall::Presentation { on: true }, RuntimeCall::StartVsync]
}

/// Lists the calls that set the display up anew. One that fails does not keep the others from
/// being made.
pub fn refresh_pimax_presentation(client: RefreshClient) -> (calls: Vec<RuntimeCall>)
    ensures
        calls@ == refresh_calls(client),
{
    let mut calls: Vec<RuntimeCall> = Vec::new();
    match client {
        RefreshClient::Own => {
            cycle_pimax_vr_mode_refresh(&mut calls);
        },
        RefreshClient::Temporary => {
            calls.push(RuntimeCall::WaitForService { millis: 1_000 });
            cycle_pimax_vr_mode_refresh(&mut calls);
            calls.push(RuntimeCall::ServiceVsyncCapture { on: true });
            calls.push(RuntimeCall::DisconnectClient);
        },
        RefreshClient::Missing => {
            calls.push(RuntimeCall::ServiceVsyncCapture { on: true });
        },
    }
    calls.push(RuntimeCall::Presentation { on: true });
    calls.push(RuntimeCall::StartVsync);
    assert(calls@ =~= refresh_calls(client));
    calls
}

/// A session ends in the order of its life: the signals of the display stop first, then the
/// picture, then the session, and the runtime goes last. Only then is the display left to sleep.
pub proof fn law_sessions_end_in_order(has_client: bool, has_wake_lock: bool)
    ensures
        ({
            let calls = cleanup_calls(has_client, has_wake_lock);
            &&& calls[1] is StopVsync
            &&& calls[2] == (RuntimeCall::Presentation { on: false })
            &&& calls[3] is EndXr
            &&& calls[4] is Shutdown
            &&& has_wake_lock ==> calls.last() is ReleaseWakeLock && calls.len() > 5
        }),
{
}

/// What a session switched on it switches off again, through the same party: its signals of the
/// display, their pulse, and the lock that keeps the display awake.
pub proof fn law_sessions_undo_what_they_did(
    has_client: bool,
    has_wake_lock: bool,
    headset_near: bool,
    tracking_mode: i32,
)
    ensures
        ({
            let began = prepare_calls(has_client, has_wake_lock && headset_near, tracking_mode)
                + start_calls(has_client);
            let ended = cleanup_calls(has_client, has_wake_lock);
            &&& forall|on: bool|
                began.contains(RuntimeCall::ClientVsyncCapture { on }) ==> on && ended.contains(
                    RuntimeCall::ClientVsyncCapture { on: false },
                )
            &&& forall|on: bool|
                began.contains(RuntimeCall::ServiceVsyncCapture { on }) ==> on && ended.contains(
                    RuntimeCall::ServiceVsyncCapture { on: false },
                )
            &&& began.contains(RuntimeCall::StartVsync) && ended.contains(RuntimeCall::StopVsync)
            &&& began.contains(RuntimeCall::AcquireWakeLock) ==> ended.contains(
                RuntimeCall::ReleaseWakeLock,
            )
            &&& began.contains(RuntimeCall::EnterVrMode) ==> ended.contains(
                RuntimeCall::StopVrMode,
            )
        }),
{
    let began = prepare_calls(has_client, has_wake_lock && headset_near, tracking_mode)
        + start_calls(has_client);
    let ended = cleanup_calls(has_client, has_wake_lock);
    assert(ended[0] == capture_call(has_client, false));
    assert(ended[1] == RuntimeCall::StopVsync);
    assert(has_client ==> ended[5] == RuntimeCall::StopVrMode);
    assert(has_wake_lock ==> ended[ended.len() - 1] == RuntimeCall::ReleaseWakeLock);
    assert(began[began.len() - 2] == RuntimeCall::StartVsync);
}

/// However the display is set up anew, its signals are switched on again last. A client leaves
/// the mode for virtual reality before it enters it, and one that was connected for this purpose
/// is disconnected.
pub proof fn law_refresh_restarts_the_display(client: RefreshClient)
    ensures
        ({
            let calls = refresh_calls(client);
            let first: int = if client is Temporary {
                1
            } else {
                0
            };
            &&& calls.len() >= 3
            &&& calls.last() is StartVsync
            &&& calls[calls.len() - 2] == (RuntimeCall::Presentation { on: true })
            &&& client !is Missing ==> calls[first + 1] is StopVrMode
                && calls[first + 3] is EnterVrMode
            &&& client is Temporary ==> calls.contains(RuntimeCall::DisconnectClient)
        }),
{
    if client is Temporary {
        assert(refresh_calls(client)[8] == RuntimeCall::DisconnectClient);
    }
}

/// There are four pairs of textures, counted from zero: a frame uses the pair that its number
/// leaves over when it is divided by four.
pub proof fn law_four_pairs_take_turns(frame_index: i32)
    requires
        0 <= frame_index < i32::MAX,
    ensures
        slot_of(frame_index) == frame_index % 4,
        next_index(frame_index) == frame_index + 1,
        next_index(i32::MAX) == i32::MIN,
{
}

/// The newest frame of the video is shown wherever there is one: a pair of textures that holds
/// nothing, or another frame, takes it.
pub proof fn law_newest_frame_is_shown(held: Option<u64>, newest: u64)
    ensures
        held != Some(newest) ==> picture_for(held, Some(newest)) == (Picture::Upload {
            timestamp_ns: newest,
        }),
        held == Some(newest) ==> picture_for(held, Some(newest)) == Picture::Keep,
        picture_for(held, None) == Picture::Pattern,
{
}

/// The first five times are logged, and then one in 120.
pub proof fn law_logs_thin_out(count: u64)
    ensures
        count <= 5 ==> worth_logging(count),
        count > 5 ==> (worth_logging(count) <==> count % 120 == 0),
{
}

/// The display's power is looked at in one of thirty frames: a headset that is worn is kept awake,
/// and one that is not may sleep.
pub proof fn law_power_follows_the_wearer(
    state: RenderLoop,
    headset_near: bool,
    step: PowerStep,
)
    requires
        call_ensures(RenderLoop::power_step, (&state, headset_near), step),
        state.frame_index >= 0,
    ensures
        step == PowerStep::Nothing <==> state.frame_index % 30 != 0,
        step is Query <==> state.frame_index % 30 == 0 && headset_near,
        step is Release <==> state.frame_index % 30 == 0 && !headset_near,
        step matches PowerStep::Query { logs } ==> logs == (state.frame_index % 720 == 0),
        step matches PowerStep::Release { logs } ==> logs == (state.frame_index % 720 == 0),
{
}

/// The system's own pictures are hidden again in one of 120 frames but the first, and timings are
/// logged of the first ten frames, of slow ones and of one in 120.
pub proof fn law_upkeep_keeps_its_intervals(
    state: RenderLoop,
    elapsed_ns: u64,
    hides: bool,
    logs: bool,
)
    requires
        call_ensures(RenderLoop::hides_system_ui, (&state,), hides),
        call_ensures(RenderLoop::logs_timings, (&state, elapsed_ns), logs),
        state.frame_index >= 0,
    ensures
        hides <==> state.frame_index != 0 && state.frame_index % 120 == 0,
        state.frame_index >= 10 ==> (logs <==> elapsed_ns > 50_000_000 || state.frame_index % 120
            == 0),
        state.frame_index < 10 ==> logs,
{
}

/// Before a session the headset is made ready in order: the work mode, the window, the display
/// where it is to be woken, the tracking mode, the client where there is one, and a pause.
pub proof fn law_sessions_are_prepared_in_order(
    has_client: bool,
    wakes_display: bool,
    tracking_mode: i32,
)
    ensures
        ({
            let calls = prepare_calls(has_client, wakes_display, tracking_mode);
            let woken: int = if wakes_display {
                1
            } else {
                0
            };
            &&& calls[0] == RuntimeCall::VrWorkMode
            &&& calls[1] == RuntimeCall::ConfigureWindow
            &&& wakes_display ==> calls[2] == RuntimeCall::AcquireWakeLock
            &&& calls[2 + woken] == (RuntimeCall::TrackingMode { mode: tracking_mode })
            &&& has_client ==> {
                &&& calls.len() == 8 + woken
                &&& calls[3 + woken] == (RuntimeCall::WaitForService { millis: 3_000 })
                &&& calls[4 + woken] == RuntimeCall::EnterVrMode
                &&& calls[5 + woken] == (RuntimeCall::HideSystemUi {
                    ui: SystemUi::FirstFrameReady,
                })
                &&& calls[6 + woken] == (RuntimeCall::HideSystemUi {
                    ui: SystemUi::LowQualityWarning,
                })
            }
            &&& !has_client ==> calls.len() == 4 + woken
            &&& calls.last() == (RuntimeCall::Pause { millis: 250 })
        }),
{
}

/// A session starts the pulse of the display and then its signals, and switches the signals off
/// first when it ends: through the client where there is one, else through the service.
pub proof fn law_signals_go_through_the_client(has_client: bool, has_wake_lock: bool)
    ensures
        start_calls(has_client).len() == 2,
        start_calls(has_client)[0] == RuntimeCall::StartVsync,
        has_client ==> start_calls(has_client)[1] == (RuntimeCall::ClientVsyncCapture {
            on: true,
        }) && cleanup_calls(has_client, has_wake_lock)[0] == (RuntimeCall::ClientVsyncCapture {
            on: false,
        }),
        !has_client ==> start_calls(has_client)[1] == (RuntimeCall::ServiceVsyncCapture {
            on: true,
        }) && cleanup_calls(has_client, has_wake_lock)[0] == (RuntimeCall::ServiceVsyncCapture {
            on: false,
        }),
        has_client ==> cleanup_calls(has_client, has_wake_lock)[5] == RuntimeCall::StopVrMode,
        !has_client && !has_wake_lock ==> cleanup_calls(has_client, has_wake_lock).len() == 5,
{
}

/// The first frame is reported once the tracking mode is set, where one is to be set, and the
/// system's own pictures are hidden after it.
pub proof fn law_first_frames_are_reported(mode: i32, has_client: bool)
    ensures
        ({
            let calls = first_frame_calls(Some(mode), has_client);
            &&& calls[0] == (RuntimeCall::TrackingMode { mode })
            &&& calls[1] == RuntimeCall::FirstFrameComplete
            &&& has_client ==> calls.len() == 4 && calls[2] is HideSystemUi && calls[3]
                is HideSystemUi
            &&& !has_client ==> calls.len() == 2
        }),
        first_frame_calls(None, has_client)[0] == RuntimeCall::FirstFrameComplete,
{
}

/// The pictures of the system have the names by which the service knows them.
pub proof fn law_system_pictures_are_named(ui: SystemUi, name: &'static str)
    requires
        call_ensures(SystemUi::name, (&ui,), name),
    ensures
        ui == SystemUi::FirstFrameReady ==> name@ == "vr_first_frame_ready"@,
        ui == SystemUi::LowQualityWarning ==> name@ == "6dofWarning_low_quality"@,
{
}

/// The loop ends when it is told to. A refresh that was asked for takes place at the next frame,
/// once, and only while the headset is worn.
pub proof fn law_refresh_comes_with_the_next_frame(start: FrameStart, next: FrameStart)
    ensures
        forall|headset: &mut HeadsetState, later: &mut HeadsetState|
            #[trigger] call_ensures(begin_frame, (headset,), start) && *later == *final(headset)
                && #[trigger] call_ensures(begin_frame, (later,), next) ==> {
                &&& start is Exit <==> (*headset).shutdown_requested
                &&& start is Refresh <==> !(*headset).shutdown_requested
                    && (*headset).presentation_refresh_requested && (*headset).headset_near
                &&& start is SkipRefresh <==> !(*headset).shutdown_requested
                    && (*headset).presentation_refresh_requested && !(*headset).headset_near
                &&& !(start is Exit) ==> next is Continue
                &&& start is Exit ==> next is Exit
                &&& final(headset).headset_near == (*headset).headset_near
                &&& final(headset).shutdown_requested == (*headset).shutdown_requested
            },
{
}

/// Poses that were read and poses that were not are counted apart.
pub proof fn law_poses_are_counted_apart(success: bool, logs: bool)
    ensures
        forall|state: &mut RenderLoop| #[trigger]
            call_ensures(RenderLoop::pose_read, (state, success), logs) ==> {
                let (counted, left) = if success {
                    (
                        (final(state).pose_updates, (*state).pose_updates),
                        (final(state).pose_failures, (*state).pose_failures),
                    )
                } else {
                    (
                        (final(state).pose_failures, (*state).pose_failures),
                        (final(state).pose_updates, (*state).pose_updates),
                    )
                };
                &&& counted.1 < u64::MAX ==> counted.0 == counted.1 + 1
                &&& left.0 == left.1
                &&& logs <==> counted.0 <= 5 || counted.0 % 120 == 0
                &&& final(state).frame_index == (*state).frame_index
            },
{
}

/// A frame that was uploaded is kept by the pair of textures whose turn it is, and by no other.
pub proof fn law_uploads_are_kept_by_their_pair(timestamp_ns: u64, logs: bool, slot: int)
    requires
        0 <= slot < 4,
    ensures
        forall|state: &mut RenderLoop| #[trigger]
            call_ensures(RenderLoop::video_uploaded, (state, timestamp_ns), logs) ==> {
                &&& (*state).frame_index as int % 4 == slot ==> final(
                    state).slot_timestamps@[slot] == Some(timestamp_ns)
                &&& (*state).frame_index as int % 4 != slot ==> final(state).slot_timestamps@[slot]
                    == (*state).slot_timestamps@[slot]
                &&& (*state).live_video_frames < u64::MAX ==> final(state).live_video_frames
                    == (*state).live_video_frames + 1
                &&& logs <==> final(state).live_video_frames <= 5 || final(state).live_video_frames
                    % 120 == 0
            },
{
}

/// The first frame is reported once the runtime knows its timing, and never again. The tracking
/// mode that waits for it is handed over with it.
pub proof fn law_first_frame_is_reported_once(
    mode: Option<i32>,
    time_predicted: bool,
    step: FirstFrame,
    next: FirstFrame,
)
    ensures
        forall|state: &mut RenderLoop, later: &mut RenderLoop|
            !(*state).signalled_first_frame && (*state).pending_tracking_mode == mode && #[trigger]
                call_ensures(RenderLoop::submitted, (state, time_predicted), step) && *later
                == *final(state) && #[trigger] call_ensures(
                RenderLoop::submitted,
                (later, true),
                next,
            ) ==> {
                &&& time_predicted ==> step == (FirstFrame::Report { tracking_mode: mode }) && next
                    == FirstFrame::Done
                &&& !time_predicted ==> step is Deferred && next == (FirstFrame::Report {
                    tracking_mode: mode,
                })
                &&& !time_predicted ==> step->logs == ((*state).frame_index < 5
                    || (*state).frame_index % 120 == 0)
                &&& final(later).signalled_first_frame && final(later).pending_tracking_mode is None
            },
{
}

/// A loop starts at frame zero with nothing shown, and each frame is followed by the next.
pub proof fn law_loops_start_empty(mode: Option<i32>, state: RenderLoop, slot: int)
    requires
        call_ensures(RenderLoop::new, (mode,), state),
        0 <= slot < 4,
    ensures
        state.frame_index == 0 && state.live_video_frames == 0,
        state.pose_updates == 0 && state.pose_failures == 0,
        !state.signalled_first_frame && state.pending_tracking_mode == mode,
        state.slot_timestamps@[slot] is None,
        forall|state: &mut RenderLoop| #[trigger]
            call_ensures(RenderLoop::end_frame, (state,), ()) ==> {
                &&& (*state).frame_index < i32::MAX ==> final(state).frame_index
                    == (*state).frame_index + 1
                &&& final(state).slot_timestamps == (*state).slot_timestamps
                &&& final(state).signalled_first_frame == (*state).signalled_first_frame
            },
{
}

/// A session is ended by stopping, in this order, the capture, the clock, the picture, the session
/// and the runtime. What was started for a client or a wake lock is undone last.
pub proof fn law_sessions_are_ended_in_order(
    has_client: bool,
    has_wake_lock: bool,
    calls: Vec<RuntimeCall>,
    begun: Vec<RuntimeCall>,
)
    requires
        call_ensures(cleanup_pimax_render_session, (has_client, has_wake_lock), calls),
        call_ensures(start_pimax_render_session, (has_client,), begun),
    ensures
        begun@ == seq![
            RuntimeCall::StartVsync,
            if has_client {
                RuntimeCall::ClientVsyncCapture { on: true }
            } else {
                RuntimeCall::ServiceVsyncCapture { on: true }
            },
        ],
        has_client ==> calls@[0] == (RuntimeCall::ClientVsyncCapture { on: false }),
        !has_client ==> calls@[0] == (RuntimeCall::ServiceVsyncCapture { on: false }),
        calls@[1] == RuntimeCall::StopVsync,
        calls@[2] == (RuntimeCall::Presentation { on: false }),
        calls@[3] == RuntimeCall::EndXr,
        calls@[4] == RuntimeCall::Shutdown,
        has_client ==> calls@[5] == RuntimeCall::StopVrMode,
        has_wake_lock ==> calls@.last() == RuntimeCall::ReleaseWakeLock,
        calls@.len() == 5 + (if has_client {
            1int
        } else {
            0int
        }) + (if has_wake_lock {
            1int
        } else {
            0int
        }),
{
}

/// A client leaves the mode for virtual reality, waits a moment and enters it again when the
/// display is set up anew; the picture and the clock start last.
pub proof fn law_display_is_set_up_anew(client: RefreshClient, calls: Vec<RuntimeCall>)
    requires
        call_ensures(refresh_pimax_presentation, (client,), calls),
    ensures
        calls@.last() == RuntimeCall::StartVsync,
        calls@[calls@.len() - 2] == (RuntimeCall::Presentation { on: true }),
        forall|list: &mut Vec<RuntimeCall>|
            (*list)@.len() == 0 && #[trigger] call_ensures(
                cycle_pimax_vr_mode_refresh,
                (list,),
                (),
            ) ==> {
                &&& final(list)@.len() == 6
                &&& final(list)@[0] == (RuntimeCall::ClientVsyncCapture { on: true })
                &&& final(list)@[1] == RuntimeCall::StopVrMode
                &&& final(list)@[2] == (RuntimeCall::Pause { millis: 50 })
                &&& final(list)@[3] == RuntimeCall::EnterVrMode
                &&& final(list)@[4] == (RuntimeCall::HideSystemUi { ui: SystemUi::FirstFrameReady })
                &&& final(list)@[5] == (RuntimeCall::HideSystemUi {
                    ui: SystemUi::LowQualityWarning,
                })
            },
{
    law_refresh_restarts_the_display(client);
}

/// A session is prepared for the tracking mode that it was given, and the display is woken only
/// for a headset that is worn.
pub proof fn law_sessions_are_prepared_for_the_wearer(
    has_client: bool,
    has_wake_lock: bool,
    headset_near: bool,
    tracking_mode: i32,
    calls: Vec<RuntimeCall>,
)
    requires
        call_ensures(
            prepare_pimax_render_session,
            (has_client, has_wake_lock, headset_near, tracking_mode),
            calls,
        ),
    ensures
        calls@[0] == RuntimeCall::VrWorkMode && calls@[1] == RuntimeCall::ConfigureWindow,
        has_wake_lock && headset_near ==> calls@[2] == RuntimeCall::AcquireWakeLock && calls@[3]
            == (RuntimeCall::TrackingMode { mode: tracking_mode }),
        !(has_wake_lock && headset_near) ==> calls@[2] == (RuntimeCall::TrackingMode {
            mode: tracking_mode,
        }),
        calls@.last() == (RuntimeCall::Pause { millis: 250 }),
{
    law_sessions_are_prepared_in_order(has_client, has_wake_lock && headset_near, tracking_mode);
}

/// The first frame is reported behind the change of the tracking mode that waits for it.
pub proof fn law_first_frames_follow_the_tracking_mode(
    mode: Option<i32>,
    has_client: bool,
    calls: Vec<RuntimeCall>,
)
    requires
        call_ensures(report_first_frame, (mode, has_client), calls),
    ensures
        mode is Some ==> calls@[0] == (RuntimeCall::TrackingMode { mode: mode->0 }) && calls@[1]
            == RuntimeCall::FirstFrameComplete,
        mode is None ==> calls@[0] == RuntimeCall::FirstFrameComplete,
        has_client ==> calls@.last() == (RuntimeCall::HideSystemUi {
            ui: SystemUi::LowQualityWarning,
        }),
        !has_client ==> calls@.last() == RuntimeCall::FirstFrameComplete,
{
}

/// The pair of textures whose turn it is shows the newest frame, uploads it where it holds another,
/// and shows the test picture where there is none.
pub proof fn law_pairs_show_the_newest_frame(
    state: RenderLoop,
    newest: Option<u64>,
    picture: Picture,
    slot: usize,
)
    requires
        state.frame_index >= 0,
        call_ensures(RenderLoop::choose_picture, (&state, newest), picture),
        call_ensures(RenderLoop::slot, (&state,), slot),
    ensures
        slot == state.frame_index % 4,
        newest is None ==> picture == Picture::Pattern,
        newest is Some && state.slot_timestamps@[slot as int] == newest ==> picture
            == Picture::Keep,
        newest is Some && state.slot_timestamps@[slot as int] != newest ==> picture
            == (Picture::Upload { timestamp_ns: newest->0 }),
{
}

} // verus!
