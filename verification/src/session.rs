//! A session with the server: what is said on the control connection, and what the client does
//! about it.

use std::collections::HashSet;
use vstd::prelude::*;

use crate::controller::ButtonEntry;
use crate::decoder::{
    reset_upstream_decoder_diagnostics, same_decoder_config, CodecType,
    DecoderInitializationConfig, UpstreamDecoder,
};
use crate::diagnostics::UpstreamDecoderDiagnosticsSnapshot;
use crate::recovery::{
    after_completion, complete_runtime_video_stream_recovery, RuntimeVideoRecovery,
    RuntimeVideoRecoveryState,
};
use crate::settings::{
    AudioBufferingConfig, AudioStreamSettings, StreamProtocol, StreamSocketSettings,
};
use crate::statistics::{
    clear_alvr_statistics_sender, clear_alvr_statistics_state, install_alvr_statistics_sender,
    reset_alvr_statistics_state, AlvrStatistics, AlvrStreamHeaderSender,
};
use crate::stream::ALVR_STATISTICS_STREAM_ID;

verus! {

// ---------------------------------------------------------------------------
// Packets
// ---------------------------------------------------------------------------

/// Severity of a message in the log.
#[derive(Clone, Copy, Debug, PartialEq, Eq, Structural)]
pub enum LogSeverity {
    Error,
    Warning,
    Info,
    Debug,
}

/// Charge of a device. The gauge is the bits of its 32-bit float.
#[derive(Clone, Copy, Debug, PartialEq, Eq, Structural)]
pub struct BatteryInfo {
    pub device_id: u64,
    pub gauge_value: u32,
    pub is_plugged: bool,
}

/// What the client says. Floats are carried as the bits of their 32-bit form.
#[derive(Debug, PartialEq, Eq)]
pub enum ClientControlPacket {
    PlayspaceSync(Option<[u32; 2]>),
    RequestIdr,
    KeepAlive,
    StreamReady,
    LocalViewParams([[u32; 11]; 2]),
    Battery(BatteryInfo),
    Buttons(Vec<ButtonEntry>),
    ActiveInteractionProfile { device_id: u64, profile_id: u64, input_ids: HashSet<u64> },
    Log { level: LogSeverity, message: String },
    ProximityState(bool),
    Reserved(String),
    ReservedBuffer(Vec<u8>),
}

impl ClientControlPacket {
    /// The number by which the server tells the packets apart.
    pub open spec fn index(self) -> u32 {
        match self {
            ClientControlPacket::PlayspaceSync(_) => 0,
            ClientControlPacket::RequestIdr => 1,
            ClientControlPacket::KeepAlive => 2,
            ClientControlPacket::StreamReady => 3,
            ClientControlPacket::LocalViewParams(_) => 4,
            ClientControlPacket::Battery(_) => 5,
            ClientControlPacket::Buttons(_) => 6,
            ClientControlPacket::ActiveInteractionProfile { .. } => 7,
            ClientControlPacket::Log { .. } => 8,
            ClientControlPacket::ProximityState(_) => 9,
            ClientControlPacket::Reserved(_) => 10,
            ClientControlPacket::ReservedBuffer(_) => 11,
        }
    }

    /// The number by which the server tells the packets apart.
    pub fn variant_index(&self) -> (index: u32)
        ensures
            index == self.index(),
    {
        match self {
            ClientControlPacket::PlayspaceSync(_) => 0,
            ClientControlPacket::RequestIdr => 1,
            ClientControlPacket::KeepAlive => 2,
            ClientControlPacket::StreamReady => 3,
            ClientControlPacket::LocalViewParams(_) => 4,
            ClientControlPacket::Battery(_) => 5,
            ClientControlPacket::Buttons(_) => 6,
            ClientControlPacket::ActiveInteractionProfile { .. } => 7,
            ClientControlPacket::Log { .. } => 8,
            ClientControlPacket::ProximityState(_) => 9,
            ClientControlPacket::Reserved(_) => 10,
            ClientControlPacket::ReservedBuffer(_) => 11,
        }
    }
}

/// What the server says. Settings that change while the stream runs are not applied, so nothing
/// of them is kept.
#[derive(Clone, Debug)]
pub enum ServerControlPacket {
    StartStream,
    DecoderConfig(DecoderInitializationConfig),
    Restarting,
    KeepAlive,
    RealTimeConfig,
    Reserved(String),
    ReservedBuffer(Vec<u8>),
}

// ---------------------------------------------------------------------------
// Handshake
// ---------------------------------------------------------------------------

/// Width and height of an eye that the client asks for.
pub const ALVR_BUFFER_MODE_VIEW_RESOLUTION: u32 = 2880;

/// Sample rate of the microphone.
pub const MICROPHONE_SAMPLE_RATE: u32 = 48_000;

/// What the client can show. Floats are carried as the bits of their 32-bit form.
#[derive(Clone, Debug, PartialEq, Eq)]
pub struct VideoStreamingCapabilities {
    pub default_view_resolution: [u32; 2],
    pub max_view_resolution: [u32; 2],
    pub refresh_rates: Vec<u32>,
    pub microphone_sample_rate: u32,
    pub foveated_encoding: bool,
    pub encoder_high_profile: bool,
    pub encoder_10_bits: bool,
    pub encoder_av1: bool,
    pub prefer_10bit: bool,
    pub preferred_encoding_gamma: u32,
    pub prefer_hdr: bool,
    pub ext_str: String,
}

/// Bits of the float 72.
pub const REFRESH_RATE_72_BITS: u32 = 0x4290_0000;

/// Bits of the float 90.
pub const REFRESH_RATE_90_BITS: u32 = 0x42b4_0000;

/// Bits of the float 1.
pub const GAMMA_ONE_BITS: u32 = 0x3f80_0000;

/// What the client tells the server of itself: the resolution of the panels, both refresh rates,
/// HDR with ten bits, and no AV1.
pub fn streaming_capabilities() -> (capabilities: VideoStreamingCapabilities)
    ensures
        capabilities.default_view_resolution@ == seq![
            ALVR_BUFFER_MODE_VIEW_RESOLUTION,
            ALVR_BUFFER_MODE_VIEW_RESOLUTION,
        ],
        capabilities.max_view_resolution@ == capabilities.default_view_resolution@,
        capabilities.refresh_rates@ == seq![REFRESH_RATE_72_BITS, REFRESH_RATE_90_BITS],
        capabilities.microphone_sample_rate == MICROPHONE_SAMPLE_RATE,
        capabilities.foveated_encoding,
        capabilities.encoder_high_profile,
        capabilities.encoder_10_bits,
        !capabilities.encoder_av1,
        !capabilities.prefer_10bit,
        capabilities.preferred_encoding_gamma == GAMMA_ONE_BITS,
        capabilities.prefer_hdr,
        capabilities.ext_str@.len() == 0,
{
    let mut refresh_rates: Vec<u32> = Vec::new();
    refresh_rates.push(REFRESH_RATE_72_BITS);
    refresh_rates.push(REFRESH_RATE_90_BITS);
    let resolution = [ALVR_BUFFER_MODE_VIEW_RESOLUTION, ALVR_BUFFER_MODE_VIEW_RESOLUTION];
    assert(resolution@ =~= seq![
        ALVR_BUFFER_MODE_VIEW_RESOLUTION,
        ALVR_BUFFER_MODE_VIEW_RESOLUTION,
    ]);
    assert(refresh_rates@ =~= seq![REFRESH_RATE_72_BITS, REFRESH_RATE_90_BITS]);
    VideoStreamingCapabilities {
        default_view_resolution: resolution,
        max_view_resolution: resolution,
        refresh_rates,
        microphone_sample_rate: MICROPHONE_SAMPLE_RATE,
        foveated_encoding: true,
        encoder_high_profile: true,
        encoder_10_bits: true,
        encoder_av1: false,
        prefer_10bit: false,
        preferred_encoding_gamma: GAMMA_ONE_BITS,
        prefer_hdr: true,
        ext_str: String::new(),
    }
}

/// What follows the first control packet after the configuration.
#[derive(Clone, Copy, Debug, PartialEq, Eq, Structural)]
pub enum HandshakeOutcome {
    /// Open the stream.
    RunStream,
    /// The server restarts; the connection ends.
    ServerRestarts,
    /// Something else was said; the connection ends.
    NotReady,
}

/// Decides what follows the first control packet: the stream runs only where it was started.
pub fn handle_alvr_server_control(packet: &ServerControlPacket) -> (outcome: HandshakeOutcome)
    ensures
        outcome == match *packet {
            ServerControlPacket::StartStream => HandshakeOutcome::RunStream,
            ServerControlPacket::Restarting => HandshakeOutcome::ServerRestarts,
            _ => HandshakeOutcome::NotReady,
        },
{
    match packet {
        ServerControlPacket::StartStream => HandshakeOutcome::RunStream,
        ServerControlPacket::Restarting => HandshakeOutcome::ServerRestarts,
        _ => HandshakeOutcome::NotReady,
    }
}

/// Claims the control listener. It is started once: only the first caller starts it.
pub fn claim_control_listener(started: &mut bool) -> (claimed: bool)
    ensures
        claimed == !*old(started),
        *final(started),
{
    let claimed: bool = !*started;
    *started = true;
    claimed
}

// ---------------------------------------------------------------------------
// Starting a stream
// ---------------------------------------------------------------------------

/// What a stream is run with.
#[derive(Clone, Copy, Debug, PartialEq, Eq)]
pub struct StreamPlan {
    pub port: u16,
    pub packet_size: usize,
    /// Sample rate and buffering of the game's sound, where it is played.
    pub game_audio: Option<(u32, AudioBufferingConfig)>,
    /// Sample rate of the microphone, where it is sent.
    pub microphone: Option<u32>,
}

/// The stream cannot be run over this protocol.
#[derive(Clone, Copy, Debug, PartialEq, Eq, Structural)]
pub struct UnsupportedProtocol(pub StreamProtocol);

/// Decides what the stream is run with. Only UDP is supported. The game's sound is played where it
/// is enabled and a sample rate was negotiated.
pub fn plan_stream(
    settings: &StreamSocketSettings,
    audio: &AudioStreamSettings,
    game_audio_sample_rate: u32,
) -> (plan: Result<StreamPlan, UnsupportedProtocol>)
    ensures
        match plan {
            Ok(plan) => {
                &&& settings.protocol == StreamProtocol::Udp
                &&& plan == (StreamPlan {
                    port: settings.port,
                    packet_size: settings.packet_size,
                    game_audio: if audio.game_audio_enabled && game_audio_sample_rate != 0 {
                        Some((game_audio_sample_rate, audio.game_audio_buffering))
                    } else {
                        None
                    },
                    microphone: if audio.microphone_enabled {
                        Some(MICROPHONE_SAMPLE_RATE)
                    } else {
                        None
                    },
                })
            },
            Err(UnsupportedProtocol(protocol)) => {
                &&& settings.protocol != StreamProtocol::Udp
                &&& protocol == settings.protocol
            },
        },
{
    match settings.protocol {
        StreamProtocol::Udp => {},
        StreamProtocol::Tcp => {
            return Err(UnsupportedProtocol(settings.protocol));
        },
    }
    Ok(
        StreamPlan {
            port: settings.port,
            packet_size: settings.packet_size,
            game_audio: if audio.game_audio_enabled && game_audio_sample_rate != 0 {
                Some((game_audio_sample_rate, audio.game_audio_buffering))
            } else {
                None
            },
            microphone: if audio.microphone_enabled {
                Some(MICROPHONE_SAMPLE_RATE)
            } else {
                None
            },
        },
    )
}

// ---------------------------------------------------------------------------
// The stream's session
// ---------------------------------------------------------------------------

/// What ends with a session, in the order in which it ends.
#[derive(Clone, Copy, Debug, PartialEq, Eq, Structural)]
pub enum CleanupStep {
    StopMicrophone,
    StopGameAudio,
    JoinControlMaintenance,
    JoinTrackingSender,
    JoinUdpReceiver,
    ReleaseDecoder,
    DisconnectVideoReceiver,
}

/// A running stream: which of its parts are there, and why it ends.
#[derive(Clone, Debug, PartialEq, Eq)]
pub struct AlvrStreamSession {
    pub session_id: u32,
    pub shutdown_requested: bool,
    pub cleanup_reason: String,
    pub control_maintenance: bool,
    pub tracking_sender: bool,
    pub udp_receiver: bool,
    pub microphone_capture: bool,
    pub game_audio_output: bool,
    pub statistics_sender: bool,
}

/// The step, where the part is there.
pub open spec fn step_if(present: bool, step: CleanupStep) -> Seq<CleanupStep> {
    if present {
        seq![step]
    } else {
        Seq::empty()
    }
}

impl AlvrStreamSession {
    /// What is left to end: the sound first, then the threads, then the decoder and the picture.
    pub open spec fn cleanup_steps(&self) -> Seq<CleanupStep> {
        step_if(self.microphone_capture, CleanupStep::StopMicrophone) + step_if(
            self.game_audio_output,
            CleanupStep::StopGameAudio,
        ) + step_if(self.control_maintenance, CleanupStep::JoinControlMaintenance) + step_if(
            self.tracking_sender,
            CleanupStep::JoinTrackingSender,
        ) + step_if(self.udp_receiver, CleanupStep::JoinUdpReceiver) + seq![
            CleanupStep::ReleaseDecoder,
            CleanupStep::DisconnectVideoReceiver,
        ]
    }

    /// A session whose threads are not started.
    pub fn new(session_id: u32, microphone_capture: bool, game_audio_output: bool) -> (session:
        Self)
        ensures
            session.session_id == session_id,
            !session.shutdown_requested,
            session.cleanup_reason@ == "ALVR stream session ended"@,
            !session.control_maintenance,
            !session.tracking_sender,
            !session.udp_receiver,
            session.microphone_capture == microphone_capture,
            session.game_audio_output == game_audio_output,
            !session.statistics_sender,
    {
        AlvrStreamSession {
            session_id,
            shutdown_requested: false,
            cleanup_reason: "ALVR stream session ended".to_owned(),
            control_maintenance: false,
            tracking_sender: false,
            udp_receiver: false,
            microphone_capture,
            game_audio_output,
            statistics_sender: false,
        }
    }

    /// Whether the session is to end.
    pub fn shutdown_signal(&self) -> (requested: bool)
        ensures
            requested == self.shutdown_requested,
    {
        self.shutdown_requested
    }

    /// Notes why the session ends.
    pub fn set_cleanup_reason(&mut self, reason: String)
        ensures
            *final(self) == (AlvrStreamSession { cleanup_reason: reason, ..*old(self) }),
    {
        self.cleanup_reason = reason;
    }

    /// Asks for the session to end. Tells whether it was asked for the first time.
    pub fn request_shutdown(&mut self) -> (first: bool)
        ensures
            first == !old(self).shutdown_requested,
            *final(self) == (AlvrStreamSession { shutdown_requested: true, ..*old(self) }),
    {
        let first: bool = !self.shutdown_requested;
        self.shutdown_requested = true;
        first
    }

    /// Ends the session: every part is told to stop, its statistics are dropped, and what is left
    /// to end is returned in order.
    pub fn close(&mut self, statistics: &mut AlvrStatistics) -> (steps: Vec<CleanupStep>)
        ensures
            final(self).shutdown_requested,
            !final(self).control_maintenance,
            !final(self).tracking_sender,
            !final(self).udp_receiver,
            !final(self).microphone_capture,
            !final(self).game_audio_output,
            !final(self).statistics_sender,
            final(self).session_id == old(self).session_id,
            final(self).cleanup_reason == old(self).cleanup_reason,
            steps@ == old(self).cleanup_steps(),
            final(statistics).well_formed(),
            final(statistics).state is None,
            final(statistics).sender == if old(self).statistics_sender {
                None
            } else {
                old(statistics).sender
            },
    {
        let _ = self.request_shutdown();
        let mut steps: Vec<CleanupStep> = Vec::new();
        if self.microphone_capture {
            steps.push(CleanupStep::StopMicrophone);
        }
        if self.game_audio_output {
            steps.push(CleanupStep::StopGameAudio);
        }
        if self.statistics_sender {
            clear_alvr_statistics_sender(statistics);
        }
        clear_alvr_statistics_state(statistics);
        if self.control_maintenance {
            steps.push(CleanupStep::JoinControlMaintenance);
        }
        if self.tracking_sender {
            steps.push(CleanupStep::JoinTrackingSender);
        }
        if self.udp_receiver {
            steps.push(CleanupStep::JoinUdpReceiver);
        }
        steps.push(CleanupStep::ReleaseDecoder);
        steps.push(CleanupStep::DisconnectVideoReceiver);
        self.microphone_capture = false;
        self.game_audio_output = false;
        self.statistics_sender = false;
        self.control_maintenance = false;
        self.tracking_sender = false;
        self.udp_receiver = false;
        assert(steps@ =~= old(self).cleanup_steps());
        steps
    }
}

/// Takes the next number. Every attempt to start a session takes one, before anything that can
/// end the attempt.
pub fn take_session_number(counter: &mut u32) -> (session_id: u32)
    ensures
        session_id == *old(counter),
        *final(counter) == old(counter).wrapping_add(1),
{
    let session_id: u32 = *counter;
    *counter = counter.wrapping_add(1);
    session_id
}

/// Starts a session under the number that its attempt took. The counters, the recovery and the
/// statistics of the stream before it are dropped.
pub fn start_stream_session(
    session_id: u32,
    plan: &StreamPlan,
    microphone_started: bool,
    game_audio_started: bool,
    decoder: &mut UpstreamDecoder,
    recovery: &mut RuntimeVideoRecovery,
    statistics: &mut AlvrStatistics,
) -> (session: AlvrStreamSession)
    ensures
        session.session_id == session_id,
        !session.shutdown_requested,
        session.cleanup_reason@ == "ALVR stream session ended"@,
        !session.control_maintenance && !session.tracking_sender && !session.udp_receiver,
        session.microphone_capture == microphone_started,
        session.game_audio_output == game_audio_started,
        session.statistics_sender,
        final(decoder).diagnostics == (UpstreamDecoderDiagnosticsSnapshot {
            restart_count: 0,
            backpressure_count: 0,
            fatal_error_count: 0,
        }),
        final(decoder).config == old(decoder).config,
        final(decoder).sink_installed == old(decoder).sink_installed,
        final(decoder).source_installed == old(decoder).source_installed,
        final(decoder).dimensions == old(decoder).dimensions,
        *final(recovery) == (RuntimeVideoRecovery {
            requested: false,
            state: RuntimeVideoRecoveryState::idle(),
        }),
        final(statistics).well_formed(),
        final(statistics).state is Some,
        final(statistics).frames().len() == 0,
        final(statistics).prev_vsync_ns() is None,
        final(statistics).sender == Some(
            (AlvrStreamHeaderSender {
                stream_id: ALVR_STATISTICS_STREAM_ID,
                max_packet_size: plan.packet_size,
                packet_index: 0,
                sent_packets: 0,
            }),
        ),
{
    reset_upstream_decoder_diagnostics(decoder);
    *recovery = RuntimeVideoRecovery::default();
    let mut session = AlvrStreamSession::new(session_id, microphone_started, game_audio_started);
    reset_alvr_statistics_state(statistics);
    install_alvr_statistics_sender(statistics, plan.packet_size);
    session.statistics_sender = true;
    session
}

/// What to do about a thread that is to end.
#[derive(Clone, Copy, Debug, PartialEq, Eq, Structural)]
pub enum DrainStep {
    /// It ended: take its result.
    Join,
    /// It did not end in time: leave it behind.
    Detach,
    /// Look again a little later.
    Wait,
}

/// How long a thread is given to end, in nanoseconds.
pub const ALVR_STREAM_THREAD_JOIN_GRACE_NS: u64 = 500_000_000;

/// Decides about a thread that is to end until `deadline_ns`.
pub fn drain_alvr_stream_thread(finished: bool, now_ns: u64, deadline_ns: u64) -> (step: DrainStep)
    ensures
        step == if finished {
            DrainStep::Join
        } else if now_ns < deadline_ns {
            DrainStep::Wait
        } else {
            DrainStep::Detach
        },
{
    if finished {
        DrainStep::Join
    } else if now_ns < deadline_ns {
        DrainStep::Wait
    } else {
        DrainStep::Detach
    }
}

// ---------------------------------------------------------------------------
// The control loop
// ---------------------------------------------------------------------------

/// What the control loop does about a packet.
#[derive(Clone, Copy, Debug, PartialEq, Eq, Structural)]
pub enum ControlAction {
    /// Nothing.
    Continue,
    /// Set the decoder up for frames of this size.
    ConfigureDecoder { frame_width: i32, frame_height: i32 },
    /// End the session.
    EndSession,
}

/// The control loop of a running stream.
#[derive(Clone, Debug)]
pub struct ControlLoop {
    /// Size of an eye.
    pub view_width: u32,
    pub view_height: u32,
    /// The configuration that the decoder was set up with.
    pub last_decoder_config: Option<(CodecType, Vec<u8>)>,
}

impl ControlLoop {
    /// The decoder is set up with exactly this configuration.
    pub open spec fn repeats(&self, config: DecoderInitializationConfig) -> bool {
        match self.last_decoder_config {
            Some((codec, buffer)) => codec == config.codec && buffer@ == config.config_buffer@,
            None => false,
        }
    }

    /// A loop whose decoder is not set up.
    pub fn new(view_width: u32, view_height: u32) -> (control: Self)
        ensures
            control.view_width == view_width,
            control.view_height == view_height,
            control.last_decoder_config is None,
    {
        ControlLoop { view_width, view_height, last_decoder_config: None }
    }

    /// Decides what to do about a packet. Both eyes stand side by side in a frame. A configuration
    /// that repeats the one in use is ignored, and a server that restarts ends the session.
    pub fn received(&self, packet: &ServerControlPacket) -> (action: ControlAction)
        requires
            2 * self.view_width <= u32::MAX,
        ensures
            action == match *packet {
                ServerControlPacket::DecoderConfig(config) => if self.repeats(config) {
                    ControlAction::Continue
                } else {
                    ControlAction::ConfigureDecoder {
                        frame_width: (2 * self.view_width) as i32,
                        frame_height: self.view_height as i32,
                    }
                },
                ServerControlPacket::Restarting => ControlAction::EndSession,
                _ => ControlAction::Continue,
            },
    {
        match packet {
            ServerControlPacket::DecoderConfig(config) => {
                let duplicate: bool = match &self.last_decoder_config {
                    Some(previous) => same_decoder_config(previous, config),
                    None => false,
                };
                if duplicate {
                    ControlAction::Continue
                } else {
                    ControlAction::ConfigureDecoder {
                        frame_width: (self.view_width * 2) as i32,
                        frame_height: self.view_height as i32,
                    }
                }
            },
            ServerControlPacket::Restarting => ControlAction::EndSession,
            _ => ControlAction::Continue,
        }
    }

    /// Notes that the decoder was set up, and that a recovery which waited for it is complete.
    pub fn decoder_configured(
        &mut self,
        config: DecoderInitializationConfig,
        recovery: &mut RuntimeVideoRecovery,
        now_ns: u64,
    )
        ensures
            final(self).view_width == old(self).view_width,
            final(self).view_height == old(self).view_height,
            final(self).last_decoder_config == Some((config.codec, config.config_buffer)),
            final(self).repeats(config),
            *final(recovery) == after_completion(*old(recovery), now_ns),
    {
        self.last_decoder_config = Some((config.codec, config.config_buffer));
        let _ = complete_runtime_video_stream_recovery(recovery, now_ns);
    }
}

/// Why a session ended whose server restarts.
pub fn restart_cleanup_reason() -> (reason: String)
    ensures
        reason@ == "ALVR server requested SteamVR restart during stream"@,
{
    "ALVR server requested SteamVR restart during stream".to_owned()
}

/// Why a session ended whose control connection gave no more packets.
pub fn receive_cleanup_reason(error: &str) -> (reason: String)
    ensures
        reason@ == "ALVR control receive loop ended: "@ + error@,
{
    let mut reason: String = "ALVR control receive loop ended: ".to_owned();
    reason.append(error);
    reason
}

// ---------------------------------------------------------------------------
// Laws
// ---------------------------------------------------------------------------

/// A session that ended has nothing left to end but the decoder and the picture: each part is
/// stopped once.
pub proof fn law_sessions_end_once(session: AlvrStreamSession)
    requires
        !session.microphone_capture,
        !session.game_audio_output,
        !session.control_maintenance,
        !session.tracking_sender,
        !session.udp_receiver,
    ensures
        session.cleanup_steps() == seq![
            CleanupStep::ReleaseDecoder,
            CleanupStep::DisconnectVideoReceiver,
        ],
{
    assert(session.cleanup_steps() =~= seq![
        CleanupStep::ReleaseDecoder,
        CleanupStep::DisconnectVideoReceiver,
    ]);
}

/// The decoder is let go of only after every thread that feeds it was waited for.
pub proof fn law_decoder_outlives_the_threads(session: AlvrStreamSession, i: int)
    requires
        0 <= i < session.cleanup_steps().len(),
    ensures
        session.cleanup_steps()[i] == CleanupStep::ReleaseDecoder ==> i
            == session.cleanup_steps().len() - 2,
        session.cleanup_steps().last() == CleanupStep::DisconnectVideoReceiver,
        session.cleanup_steps()[session.cleanup_steps().len() - 2] == CleanupStep::ReleaseDecoder,
{
}

/// Two packets have the same number only where they are of the same kind, so the server never
/// takes a packet for one of another kind.
pub proof fn law_packet_numbers_tell_kinds_apart(
    first: ClientControlPacket,
    second: ClientControlPacket,
)
    requires
        first.index() == second.index(),
    ensures
        first is KeepAlive == second is KeepAlive,
        first is RequestIdr == second is RequestIdr,
        first is StreamReady == second is StreamReady,
        first is LocalViewParams == second is LocalViewParams,
        first is Battery == second is Battery,
        first is Buttons == second is Buttons,
        first is ActiveInteractionProfile == second is ActiveInteractionProfile,
        first is PlayspaceSync == second is PlayspaceSync,
        first is Log == second is Log,
        first is ProximityState == second is ProximityState,
        first is Reserved == second is Reserved,
        first is ReservedBuffer == second is ReservedBuffer,
{
}

/// The packets have the numbers that the server knows them by.
pub proof fn law_packets_have_the_servers_numbers(packet: ClientControlPacket)
    ensures
        packet is PlayspaceSync <==> packet.index() == 0,
        packet is RequestIdr <==> packet.index() == 1,
        packet is KeepAlive <==> packet.index() == 2,
        packet is StreamReady <==> packet.index() == 3,
        packet is LocalViewParams <==> packet.index() == 4,
        packet is Battery <==> packet.index() == 5,
        packet is Buttons <==> packet.index() == 6,
        packet is ActiveInteractionProfile <==> packet.index() == 7,
        packet is Log <==> packet.index() == 8,
        packet is ProximityState <==> packet.index() == 9,
        packet is Reserved <==> packet.index() == 10,
        packet is ReservedBuffer <==> packet.index() == 11,
{
}

/// The client offers the resolution of its panels, 72 and 90 pictures a second, a microphone of
/// 48000 samples a second, and every encoding but AV1.
pub proof fn law_client_offers_what_it_can(capabilities: VideoStreamingCapabilities)
    requires
        call_ensures(streaming_capabilities, (), capabilities),
    ensures
        capabilities.default_view_resolution@ == seq![2880u32, 2880],
        capabilities.max_view_resolution@ == seq![2880u32, 2880],
        capabilities.refresh_rates@ == seq![0x4290_0000u32, 0x42b4_0000],
        capabilities.microphone_sample_rate == 48_000,
        capabilities.foveated_encoding && capabilities.encoder_high_profile
            && capabilities.encoder_10_bits && capabilities.prefer_hdr,
        !capabilities.encoder_av1 && !capabilities.prefer_10bit,
        capabilities.preferred_encoding_gamma == 0x3f80_0000,
{
}

/// The stream is opened only by a server that starts it. One that restarts, or says anything else,
/// ends the connection.
pub proof fn law_streams_wait_for_the_start(
    packet: ServerControlPacket,
    outcome: HandshakeOutcome,
)
    requires
        call_ensures(handle_alvr_server_control, (&packet,), outcome),
    ensures
        outcome == HandshakeOutcome::RunStream <==> packet is StartStream,
        outcome == HandshakeOutcome::ServerRestarts <==> packet is Restarting,
        outcome == HandshakeOutcome::NotReady <==> !(packet is StartStream) && !(packet
            is Restarting),
{
}

/// A stream over UDP is run on the port and with the datagrams that were negotiated. The game is
/// heard where it is enabled and a rate was negotiated, with the store of the game's sound; the
/// microphone is sent where the microphone is enabled. A stream over TCP is not run.
pub proof fn law_plans_follow_the_settings(
    settings: StreamSocketSettings,
    audio: AudioStreamSettings,
    rate: u32,
    plan: Result<StreamPlan, UnsupportedProtocol>,
)
    requires
        call_ensures(plan_stream, (&settings, &audio, rate), plan),
    ensures
        plan is Ok <==> settings.protocol == StreamProtocol::Udp,
        plan matches Ok(made) ==> {
            &&& made.port == settings.port
            &&& made.packet_size == settings.packet_size
            &&& made.game_audio is Some <==> audio.game_audio_enabled && rate != 0
            &&& made.game_audio is Some ==> made.game_audio == Some(
                (rate, audio.game_audio_buffering),
            )
            &&& made.microphone is Some <==> audio.microphone_enabled
            &&& made.microphone is Some ==> made.microphone == Some(48_000u32)
        },
        plan matches Err(UnsupportedProtocol(protocol)) ==> protocol == StreamProtocol::Tcp,
{
}

/// Every part that is there is ended once, and no part that is not there.
pub proof fn law_every_part_is_ended(session: AlvrStreamSession)
    ensures
        ({
            let steps = session.cleanup_steps();
            &&& steps.contains(CleanupStep::StopMicrophone) <==> session.microphone_capture
            &&& steps.contains(CleanupStep::StopGameAudio) <==> session.game_audio_output
            &&& steps.contains(CleanupStep::JoinControlMaintenance) <==> session.control_maintenance
            &&& steps.contains(CleanupStep::JoinTrackingSender) <==> session.tracking_sender
            &&& steps.contains(CleanupStep::JoinUdpReceiver) <==> session.udp_receiver
            &&& steps.contains(CleanupStep::ReleaseDecoder)
            &&& steps.contains(CleanupStep::DisconnectVideoReceiver)
            &&& steps.no_duplicates()
        }),
{
    let steps = session.cleanup_steps();
    let n = |present: bool|
        if present {
            1int
        } else {
            0int
        };
    let a = n(session.microphone_capture);
    let b = a + n(session.game_audio_output);
    let c = b + n(session.control_maintenance);
    let d = c + n(session.tracking_sender);
    let e = d + n(session.udp_receiver);
    assert(steps.len() == e + 2);
    assert(session.microphone_capture ==> steps[0] == CleanupStep::StopMicrophone);
    assert(session.game_audio_output ==> steps[a] == CleanupStep::StopGameAudio);
    assert(session.control_maintenance ==> steps[b] == CleanupStep::JoinControlMaintenance);
    assert(session.tracking_sender ==> steps[c] == CleanupStep::JoinTrackingSender);
    assert(session.udp_receiver ==> steps[d] == CleanupStep::JoinUdpReceiver);
    assert(steps[e] == CleanupStep::ReleaseDecoder);
    assert(steps[e + 1] == CleanupStep::DisconnectVideoReceiver);
}

/// A thread that ended is joined, whatever the time. One that did not is waited for until its
/// deadline and left behind after.
pub proof fn law_threads_are_waited_for(
    finished: bool,
    now_ns: u64,
    deadline_ns: u64,
    step: DrainStep,
)
    requires
        call_ensures(drain_alvr_stream_thread, (finished, now_ns, deadline_ns), step),
    ensures
        step == DrainStep::Join <==> finished,
        step == DrainStep::Wait <==> !finished && now_ns < deadline_ns,
        step == DrainStep::Detach <==> !finished && now_ns >= deadline_ns,
        ALVR_STREAM_THREAD_JOIN_GRACE_NS == 500_000_000,
{
}

/// A configuration sets the decoder up for both eyes side by side, unless it is the one in use. A
/// server that restarts ends the session, and everything else changes nothing.
pub proof fn law_configurations_set_the_decoder_up(
    control: ControlLoop,
    packet: ServerControlPacket,
    action: ControlAction,
)
    requires
        call_ensures(ControlLoop::received, (&control, &packet), action),
        control.view_width <= 0x3fff_ffff,
        control.view_height <= 0x7fff_ffff,
    ensures
        action is EndSession <==> packet is Restarting,
        action matches ControlAction::ConfigureDecoder { frame_width, frame_height } ==> {
            &&& packet is DecoderConfig
            &&& frame_width == 2 * control.view_width
            &&& frame_height == control.view_height
        },
        packet matches ServerControlPacket::DecoderConfig(config) ==> (action is Continue <==> (
        control.last_decoder_config is Some && (control.last_decoder_config->0).0 == config.codec
            && (control.last_decoder_config->0).1@ == config.config_buffer@)),
{
}

/// Sessions are numbered one after the other, and one listener at a time waits for them.
pub proof fn law_sessions_are_numbered(session_id: u32, next_id: u32, claimed: bool, again: bool)
    ensures
        forall|first: &mut u32, second: &mut u32|
            #[trigger] call_ensures(take_session_number, (first,), session_id) && *second == *final(
                first) && #[trigger] call_ensures(take_session_number, (second,), next_id) ==> {
                &&& session_id == *first
                &&& *first < u32::MAX ==> next_id == session_id + 1
                &&& *first == u32::MAX ==> next_id == 0
            },
        forall|first: &mut bool, second: &mut bool|
            #[trigger] call_ensures(claim_control_listener, (first,), claimed) && *second == *final(
                first) && #[trigger] call_ensures(claim_control_listener, (second,), again) ==> {
                &&& claimed <==> !*first
                &&& !again
            },
{
}

/// A session that is told to end ends once, and keeps the reason that it was given.
pub proof fn law_ends_are_asked_for_once(reason: String, first: bool, again: bool)
    ensures
        forall|session: &mut AlvrStreamSession, later: &mut AlvrStreamSession|
            #[trigger] call_ensures(AlvrStreamSession::request_shutdown, (session,), first)
                && *later == *final(session) && #[trigger] call_ensures(
                AlvrStreamSession::request_shutdown,
                (later,),
                again,
            ) ==> {
                &&& first <==> !(*session).shutdown_requested
                &&& !again && final(later).shutdown_requested
                &&& final(later).session_id == (*session).session_id
                &&& final(later).cleanup_reason == (*session).cleanup_reason
                &&& final(later).udp_receiver == (*session).udp_receiver
            },
        forall|session: &mut AlvrStreamSession| #[trigger]
            call_ensures(AlvrStreamSession::set_cleanup_reason, (session, reason), ()) ==> {
                &&& final(session).cleanup_reason == reason
                &&& final(session).shutdown_requested == (*session).shutdown_requested
                &&& final(session).session_id == (*session).session_id
            },
{
}

/// Closing a session ends every part of it, and closing it again ends nothing more than the
/// decoder and the receiver.
pub proof fn law_closed_sessions_have_no_parts(
    steps: Vec<CleanupStep>,
    again: Vec<CleanupStep>,
)
    ensures
        forall|
            session: &mut AlvrStreamSession,
            statistics: &mut AlvrStatistics,
            closed: &mut AlvrStreamSession,
            later: &mut AlvrStatistics,
        |
            #[trigger] call_ensures(AlvrStreamSession::close, (session, statistics), steps)
                && *closed == *final(session) && *later == *final(statistics) && #[trigger]
                call_ensures(AlvrStreamSession::close, (closed, later), again) ==> {
                &&& final(session).shutdown_requested
                &&& final(session).session_id == (*session).session_id
                &&& final(session).cleanup_reason == (*session).cleanup_reason
                &&& (*session).udp_receiver ==> steps@.contains(CleanupStep::JoinUdpReceiver)
                &&& (*session).tracking_sender ==> steps@.contains(CleanupStep::JoinTrackingSender)
                &&& (*session).control_maintenance ==> steps@.contains(
                    CleanupStep::JoinControlMaintenance,
                )
                &&& (*session).microphone_capture ==> steps@.contains(CleanupStep::StopMicrophone)
                &&& (*session).game_audio_output ==> steps@.contains(CleanupStep::StopGameAudio)
                &&& final(statistics).state is None
                &&& (*session).statistics_sender ==> final(statistics).sender is None
                &&& !(*session).statistics_sender ==> final(statistics).sender
                    == (*statistics).sender
                &&& again@.len() == 2
            },
{
    assert forall|
        session: &mut AlvrStreamSession,
        statistics: &mut AlvrStatistics,
        closed: &mut AlvrStreamSession,
        later: &mut AlvrStatistics,
    |
        #[trigger] call_ensures(AlvrStreamSession::close, (session, statistics), steps) && *closed
            == *final(session) && *later == *final(statistics) && #[trigger] call_ensures(
            AlvrStreamSession::close,
            (closed, later),
            again,
        ) implies {
        &&& (*session).udp_receiver ==> steps@.contains(CleanupStep::JoinUdpReceiver)
        &&& (*session).tracking_sender ==> steps@.contains(CleanupStep::JoinTrackingSender)
        &&& (*session).control_maintenance ==> steps@.contains(CleanupStep::JoinControlMaintenance)
        &&& (*session).microphone_capture ==> steps@.contains(CleanupStep::StopMicrophone)
        &&& (*session).game_audio_output ==> steps@.contains(CleanupStep::StopGameAudio)
        &&& again@.len() == 2
    } by {
        law_every_part_is_ended(*session);
        law_sessions_end_once(*closed);
    }
}

/// A session starts with its number, the devices that were opened, fresh counters and its own
/// statistics sender.
pub proof fn law_sessions_start_fresh(
    session_id: u32,
    plan: StreamPlan,
    microphone: bool,
    game_audio: bool,
    session: AlvrStreamSession,
)
    ensures
        forall|
            decoder: &mut UpstreamDecoder,
            recovery: &mut RuntimeVideoRecovery,
            statistics: &mut AlvrStatistics,
        |
            #[trigger] call_ensures(
                start_stream_session,
                (session_id, &plan, microphone, game_audio, decoder, recovery, statistics),
                session,
            ) ==> {
                &&& session.session_id == session_id && !session.shutdown_requested
                &&& session.microphone_capture == microphone
                &&& session.game_audio_output == game_audio
                &&& session.statistics_sender && !session.udp_receiver && !session.tracking_sender
                &&& session.cleanup_reason@ == "ALVR stream session ended"@
                &&& final(decoder).diagnostics.restart_count == 0
                &&& final(decoder).diagnostics.backpressure_count == 0
                &&& final(decoder).diagnostics.fatal_error_count == 0
                &&& final(decoder).config == (*decoder).config
                &&& final(decoder).sink_installed == (*decoder).sink_installed
                &&& !final(recovery).requested && !final(recovery).state.in_flight && !final(
                    recovery).state.queued
                &&& final(statistics).frames().len() == 0
                &&& final(statistics).sender is Some
                &&& final(statistics).sender->0.stream_id == 4
                &&& final(statistics).sender->0.max_packet_size == plan.packet_size
                &&& final(statistics).sender->0.packet_index == 0
            },
{
}

/// A decoder that was set up is not set up again in the same way.
pub proof fn law_same_configuration_is_not_repeated(
    config: DecoderInitializationConfig,
    now_ns: u64,
    view_width: u32,
    view_height: u32,
    fresh: ControlLoop,
)
    requires
        call_ensures(ControlLoop::new, (view_width, view_height), fresh),
    ensures
        fresh.view_width == view_width && fresh.view_height == view_height,
        !fresh.repeats(config),
        forall|control: &mut ControlLoop, recovery: &mut RuntimeVideoRecovery| #[trigger]
            call_ensures(
                ControlLoop::decoder_configured,
                (control, config, recovery, now_ns),
                (),
            ) ==> {
                &&& final(control).repeats(config)
                &&& final(control).view_width == (*control).view_width
                &&& final(control).view_height == (*control).view_height
                &&& !final(recovery).state.in_flight
            },
{
}

/// Packets go out under the numbers by which the server knows them.
pub proof fn law_packets_go_out_under_their_numbers(packet: ClientControlPacket, index: u32)
    requires
        call_ensures(ClientControlPacket::variant_index, (&packet,), index),
    ensures
        packet is PlayspaceSync <==> index == 0,
        packet is RequestIdr <==> index == 1,
        packet is KeepAlive <==> index == 2,
        packet is StreamReady <==> index == 3,
        packet is LocalViewParams <==> index == 4,
        packet is Battery <==> index == 5,
        packet is Buttons <==> index == 6,
        packet is ActiveInteractionProfile <==> index == 7,
        packet is Log <==> index == 8,
        packet is ProximityState <==> index == 9,
{
    law_packets_have_the_servers_numbers(packet);
}

} // verus!
