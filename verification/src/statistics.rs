//! Timing of the frames on their way through the client, as it is reported to the server.

use std::collections::VecDeque;
use vstd::prelude::*;

use crate::packets::{
    build_header_packet, shard_datagram, PacketError, ShardPrefix, ALVR_STREAM_SHARD_PREFIX_SIZE,
};
use crate::recovery::{elapsed, elapsed_ns};
use crate::stream::ALVR_STATISTICS_STREAM_ID;

verus! {

/// Number of frames whose timing is kept.
pub const ALVR_STATISTICS_HISTORY_SIZE: usize = 512;

/// Frame interval that is assumed before one was measured, in nanoseconds.
pub const ALVR_DEFAULT_FRAME_INTERVAL_NS: u64 = 13_889_000;

/// After the first packets, one packet in this number is logged.
pub const ALVR_STREAM_LOG_EVERY: u64 = 3_600;

/// Timing of one frame, in nanoseconds. `target_timestamp_ns` names the frame.
#[derive(Clone, Copy, Debug, PartialEq, Eq, Structural)]
pub struct ClientStatistics {
    pub target_timestamp_ns: u128,
    pub frame_interval_ns: u64,
    pub video_decode_ns: u64,
    pub video_decoder_queue_ns: u64,
    pub rendering_ns: u64,
    pub vsync_queue_ns: u64,
    pub total_pipeline_latency_ns: u64,
}

/// A frame and the times at which it passed each stage.
#[derive(Clone, Copy, Debug, PartialEq, Eq, Structural)]
pub struct TrackedClientFrame {
    pub target_timestamp_ns: u128,
    pub input_acquired_ns: u64,
    pub video_packet_received_ns: Option<u64>,
    pub frame_decoded_ns: Option<u64>,
    pub compositor_start_ns: Option<u64>,
    pub submitted: bool,
    pub client_stats: ClientStatistics,
}

/// The frames that are on their way, the newest in front.
#[derive(Debug)]
pub struct AlvrClientStatisticsState {
    pub frames: VecDeque<TrackedClientFrame>,
    pub prev_vsync_ns: Option<u64>,
}

// ---------------------------------------------------------------------------
// Stages of a frame
// ---------------------------------------------------------------------------

/// A frame whose input was just read.
pub open spec fn new_frame(timestamp_ns: u128, now_ns: u64) -> TrackedClientFrame {
    TrackedClientFrame {
        target_timestamp_ns: timestamp_ns,
        input_acquired_ns: now_ns,
        video_packet_received_ns: None,
        frame_decoded_ns: None,
        compositor_start_ns: None,
        submitted: false,
        client_stats: ClientStatistics {
            target_timestamp_ns: timestamp_ns,
            frame_interval_ns: ALVR_DEFAULT_FRAME_INTERVAL_NS,
            video_decode_ns: 0,
            video_decoder_queue_ns: 0,
            rendering_ns: 0,
            vsync_queue_ns: 0,
            total_pipeline_latency_ns: 0,
        },
    }
}

/// The frame after its video packet was received.
pub open spec fn received(frame: TrackedClientFrame, now_ns: u64) -> TrackedClientFrame {
    TrackedClientFrame { video_packet_received_ns: Some(now_ns), ..frame }
}

/// The frame after it was decoded.
pub open spec fn decoded(frame: TrackedClientFrame, now_ns: u64) -> TrackedClientFrame {
    TrackedClientFrame {
        frame_decoded_ns: Some(now_ns),
        client_stats: ClientStatistics {
            video_decode_ns: match frame.video_packet_received_ns {
                Some(received_ns) => elapsed(now_ns, received_ns) as u64,
                None => frame.client_stats.video_decode_ns,
            },
            ..frame.client_stats
        },
        ..frame
    }
}

/// The frame after the compositor took it up. The time in the queue runs from the decoded frame,
/// or from the received packet and the time that decoding took.
pub open spec fn composited(frame: TrackedClientFrame, now_ns: u64) -> TrackedClientFrame {
    TrackedClientFrame {
        compositor_start_ns: Some(now_ns),
        client_stats: ClientStatistics {
            video_decoder_queue_ns: match (frame.frame_decoded_ns, frame.video_packet_received_ns) {
                (Some(decoded_ns), _) => elapsed(now_ns, decoded_ns) as u64,
                (None, Some(received_ns)) => {
                    let ready_ns = received_ns + frame.client_stats.video_decode_ns;
                    if ready_ns <= now_ns {
                        (now_ns - ready_ns) as u64
                    } else {
                        0
                    }
                },
                (None, None) => frame.client_stats.video_decoder_queue_ns,
            },
            ..frame.client_stats
        },
        ..frame
    }
}

/// The frame after it was submitted, to be shown `vsync_queue_ns` later.
pub open spec fn submitted(
    frame: TrackedClientFrame,
    now_ns: u64,
    vsync_queue_ns: u64,
    prev_vsync_ns: Option<u64>,
) -> TrackedClientFrame {
    TrackedClientFrame {
        submitted: true,
        client_stats: ClientStatistics {
            rendering_ns: match (frame.compositor_start_ns, frame.frame_decoded_ns) {
                (Some(start_ns), _) => elapsed(now_ns, start_ns) as u64,
                (None, Some(decoded_ns)) => elapsed(now_ns, decoded_ns) as u64,
                (None, None) => frame.client_stats.rendering_ns,
            },
            frame_interval_ns: match prev_vsync_ns {
                Some(prev_ns) => elapsed((now_ns + vsync_queue_ns) as u64, prev_ns) as u64,
                None => ALVR_DEFAULT_FRAME_INTERVAL_NS,
            },
            vsync_queue_ns,
            total_pipeline_latency_ns: (elapsed(now_ns, frame.input_acquired_ns)
                + vsync_queue_ns) as u64,
            ..frame.client_stats
        },
        ..frame
    }
}

/// A frame with the timestamp is on its way.
pub open spec fn tracks(frames: Seq<TrackedClientFrame>, timestamp_ns: u128) -> bool {
    exists|i: int|
        0 <= i < frames.len() && (#[trigger] frames[i]).target_timestamp_ns == timestamp_ns
}

/// Frames of which the one with the timestamp was changed and no other.
pub open spec fn with_frame(
    frames: Seq<TrackedClientFrame>,
    timestamp_ns: u128,
    change: spec_fn(TrackedClientFrame) -> TrackedClientFrame,
) -> Seq<TrackedClientFrame> {
    frames.map_values(
        |frame: TrackedClientFrame|
            if frame.target_timestamp_ns == timestamp_ns {
                change(frame)
            } else {
                frame
            },
    )
}

/// The frame with the timestamp.
pub open spec fn frame_of(
    frames: Seq<TrackedClientFrame>,
    timestamp_ns: u128,
) -> TrackedClientFrame {
    frames[choose|i: int|
        0 <= i < frames.len() && (#[trigger] frames[i]).target_timestamp_ns == timestamp_ns]
}

/// Frames after a new one was put in front and the oldest were dropped.
pub open spec fn after_input(
    frames: Seq<TrackedClientFrame>,
    timestamp_ns: u128,
    now_ns: u64,
) -> Seq<TrackedClientFrame> {
    if tracks(frames, timestamp_ns) {
        frames
    } else {
        let all = seq![new_frame(timestamp_ns, now_ns)] + frames;
        if all.len() > ALVR_STATISTICS_HISTORY_SIZE {
            all.take(ALVR_STATISTICS_HISTORY_SIZE as int)
        } else {
            all
        }
    }
}

/// The timing of every frame names that frame.
pub open spec fn named(frames: Seq<TrackedClientFrame>) -> bool {
    forall|i: int|
        0 <= i < frames.len() ==> (#[trigger] frames[i]).client_stats.target_timestamp_ns
            == frames[i].target_timestamp_ns
}

/// No two frames have the same timestamp.
pub open spec fn distinct(frames: Seq<TrackedClientFrame>) -> bool {
    forall|i: int, j: int|
        0 <= i < j < frames.len() ==> (#[trigger] frames[i]).target_timestamp_ns != (
        #[trigger] frames[j]).target_timestamp_ns
}

// ---------------------------------------------------------------------------
// Histories
// ---------------------------------------------------------------------------

/// What is noted of frames.
pub struct TimingView {
    pub frames: Seq<TrackedClientFrame>,
    pub prev_vsync_ns: Option<u64>,
}

/// What happens to a frame.
pub enum TimingEvent {
    /// Its input was read.
    Input { timestamp_ns: u128, now_ns: u64 },
    /// Its video packet was received.
    Received { timestamp_ns: u128, now_ns: u64 },
    /// It was decoded.
    Decoded { timestamp_ns: u128, now_ns: u64 },
    /// The compositor took it up.
    Composited { timestamp_ns: u128, now_ns: u64 },
    /// It was submitted.
    Submitted { timestamp_ns: u128, vsync_queue_ns: u64, now_ns: u64 },
}

/// Whether a report of the frame goes out: it is submitted, tracked, and was not submitted before.
pub open spec fn reports(at: TimingView, event: TimingEvent) -> bool {
    event matches TimingEvent::Submitted { timestamp_ns, .. } && tracks(at.frames, timestamp_ns)
        && !frame_of(at.frames, timestamp_ns).submitted
}

/// What is noted after something happened to a frame.
pub open spec fn after_timing(at: TimingView, event: TimingEvent) -> TimingView {
    match event {
        TimingEvent::Input { timestamp_ns, now_ns } => TimingView {
            frames: after_input(at.frames, timestamp_ns, now_ns),
            ..at
        },
        TimingEvent::Received { timestamp_ns, now_ns } => TimingView {
            frames: with_frame(at.frames, timestamp_ns, |frame| received(frame, now_ns)),
            ..at
        },
        TimingEvent::Decoded { timestamp_ns, now_ns } => TimingView {
            frames: with_frame(at.frames, timestamp_ns, |frame| decoded(frame, now_ns)),
            ..at
        },
        TimingEvent::Composited { timestamp_ns, now_ns } => TimingView {
            frames: with_frame(at.frames, timestamp_ns, |frame| composited(frame, now_ns)),
            ..at
        },
        TimingEvent::Submitted { timestamp_ns, vsync_queue_ns, now_ns } => if reports(at, event) {
            TimingView {
                frames: with_frame(
                    at.frames,
                    timestamp_ns,
                    |frame| submitted(frame, now_ns, vsync_queue_ns, at.prev_vsync_ns),
                ),
                prev_vsync_ns: Some((now_ns + vsync_queue_ns) as u64),
            }
        } else {
            at
        },
    }
}

/// What is noted after a number of things happened, from the start on.
pub open spec fn after_timings(events: Seq<TimingEvent>) -> TimingView
    decreases events.len(),
{
    if events.len() == 0 {
        TimingView { frames: Seq::empty(), prev_vsync_ns: None }
    } else {
        after_timing(after_timings(events.drop_last()), events.last())
    }
}

/// Whether a report of the frame went out at `events[i]`.
pub open spec fn reported_at(events: Seq<TimingEvent>, timestamp_ns: u128, i: int) -> bool {
    &&& reports(after_timings(events.take(i)), events[i])
    &&& events[i]->Submitted_timestamp_ns == timestamp_ns
}

/// Whether the frame was tracked after the first `count` events.
pub open spec fn tracked_after(events: Seq<TimingEvent>, timestamp_ns: u128, count: int) -> bool {
    tracks(after_timings(events.take(count)).frames, timestamp_ns)
}

/// Whether a report of the frame went out since it is tracked.
pub open spec fn reported_since_tracked(events: Seq<TimingEvent>, timestamp_ns: u128) -> bool {
    exists|i: int|
        0 <= i < events.len() && #[trigger] reported_at(events, timestamp_ns, i) && forall|j: int|
            i < j <= events.len() ==> #[trigger] tracked_after(events, timestamp_ns, j)
}

impl AlvrClientStatisticsState {
    /// What is noted of frames.
    pub open spec fn timing(&self) -> TimingView {
        TimingView { frames: self.frames@, prev_vsync_ns: self.prev_vsync_ns }
    }

    /// The history is bounded, holds every frame once, and each frame's timing names it.
    pub open spec fn well_formed(&self) -> bool {
        &&& self.frames@.len() <= ALVR_STATISTICS_HISTORY_SIZE
        &&& distinct(self.frames@)
        &&& named(self.frames@)
    }

    /// A history without frames.
    pub fn new() -> (state: Self)
        ensures
            state.well_formed(),
            state.timing() == after_timings(Seq::empty()),
            state.frames@.len() == 0,
            state.prev_vsync_ns is None,
    {
        AlvrClientStatisticsState { frames: VecDeque::new(), prev_vsync_ns: None }
    }

    fn find(&self, timestamp_ns: u128) -> (found: Option<usize>)
        ensures
            match found {
                Some(index) => {
                    &&& index < self.frames@.len()
                    &&& self.frames@[index as int].target_timestamp_ns == timestamp_ns
                    &&& tracks(self.frames@, timestamp_ns)
                },
                None => !tracks(self.frames@, timestamp_ns),
            },
    {
        let mut index: usize = 0;
        while index < self.frames.len()
            invariant
                index <= self.frames@.len(),
                forall|i: int|
                    0 <= i < index ==> (#[trigger] self.frames@[i]).target_timestamp_ns
                        != timestamp_ns,
            decreases self.frames@.len() - index,
        {
            if self.frames[index].target_timestamp_ns == timestamp_ns {
                assert(self.frames@[index as int].target_timestamp_ns == timestamp_ns);
                return Some(index);
            }
            index = index + 1;
        }
        None
    }

    fn replace(&mut self, index: usize, frame: TrackedClientFrame)
        requires
            index < old(self).frames@.len(),
        ensures
            final(self).frames@ == old(self).frames@.update(index as int, frame),
            final(self).prev_vsync_ns == old(self).prev_vsync_ns,
    {
        let _ = self.frames.remove(index);
        self.frames.insert(index, frame);
        assert(self.frames@ =~= old(self).frames@.update(index as int, frame));
    }

    /// Starts to track a frame, unless it is tracked already.
    pub fn report_input_acquired(&mut self, timestamp_ns: u128, now_ns: u64)
        requires
            old(self).well_formed(),
        ensures
            final(self).well_formed(),
            final(self).timing() == after_timing(
                old(self).timing(),
                TimingEvent::Input { timestamp_ns, now_ns },
            ),
            final(self).frames@ == after_input(old(self).frames@, timestamp_ns, now_ns),
            final(self).prev_vsync_ns == old(self).prev_vsync_ns,
    {
        match self.find(timestamp_ns) {
            Some(_) => {
                return;
            },
            None => {},
        }
        let frame = TrackedClientFrame {
            target_timestamp_ns: timestamp_ns,
            input_acquired_ns: now_ns,
            video_packet_received_ns: None,
            frame_decoded_ns: None,
            compositor_start_ns: None,
            submitted: false,
            client_stats: ClientStatistics {
                target_timestamp_ns: timestamp_ns,
                frame_interval_ns: ALVR_DEFAULT_FRAME_INTERVAL_NS,
                video_decode_ns: 0,
                video_decoder_queue_ns: 0,
                rendering_ns: 0,
                vsync_queue_ns: 0,
                total_pipeline_latency_ns: 0,
            },
        };
        self.frames.push_front(frame);
        let ghost all = seq![new_frame(timestamp_ns, now_ns)] + old(self).frames@;
        assert(self.frames@ =~= all);
        self.frames.truncate(ALVR_STATISTICS_HISTORY_SIZE);
        assert(self.frames@ =~= after_input(old(self).frames@, timestamp_ns, now_ns));
    }

    /// Notes that the frame's video packet was received.
    pub fn report_video_packet_received(&mut self, timestamp_ns: u128, now_ns: u64)
        requires
            old(self).well_formed(),
        ensures
            final(self).well_formed(),
            final(self).timing() == after_timing(
                old(self).timing(),
                TimingEvent::Received { timestamp_ns, now_ns },
            ),
            final(self).frames@ == with_frame(
                old(self).frames@,
                timestamp_ns,
                |frame| received(frame, now_ns),
            ),
            final(self).prev_vsync_ns == old(self).prev_vsync_ns,
    {
        match self.find(timestamp_ns) {
            Some(index) => {
                let mut frame = self.frames[index];
                frame.video_packet_received_ns = Some(now_ns);
                self.replace(index, frame);
            },
            None => {},
        }
        assert(self.frames@ =~= with_frame(
            old(self).frames@,
            timestamp_ns,
            |frame| received(frame, now_ns),
        ));
    }

    /// Notes that the frame was decoded.
    pub fn report_frame_decoded(&mut self, timestamp_ns: u128, now_ns: u64)
        requires
            old(self).well_formed(),
        ensures
            final(self).well_formed(),
            final(self).timing() == after_timing(
                old(self).timing(),
                TimingEvent::Decoded { timestamp_ns, now_ns },
            ),
            final(self).frames@ == with_frame(
                old(self).frames@,
                timestamp_ns,
                |frame| decoded(frame, now_ns),
            ),
            final(self).prev_vsync_ns == old(self).prev_vsync_ns,
    {
        match self.find(timestamp_ns) {
            Some(index) => {
                let mut frame = self.frames[index];
                match frame.video_packet_received_ns {
                    Some(received_ns) => {
                        frame.client_stats.video_decode_ns = elapsed_ns(now_ns, received_ns);
                    },
                    None => {},
                }
                frame.frame_decoded_ns = Some(now_ns);
                self.replace(index, frame);
            },
            None => {},
        }
        assert(self.frames@ =~= with_frame(
            old(self).frames@,
            timestamp_ns,
            |frame| decoded(frame, now_ns),
        ));
    }

    /// Notes that the compositor took the frame up.
    pub fn report_compositor_start(&mut self, timestamp_ns: u128, now_ns: u64)
        requires
            old(self).well_formed(),
        ensures
            final(self).well_formed(),
            final(self).timing() == after_timing(
                old(self).timing(),
                TimingEvent::Composited { timestamp_ns, now_ns },
            ),
            final(self).frames@ == with_frame(
                old(self).frames@,
                timestamp_ns,
                |frame| composited(frame, now_ns),
            ),
            final(self).prev_vsync_ns == old(self).prev_vsync_ns,
    {
        match self.find(timestamp_ns) {
            Some(index) => {
                let mut frame = self.frames[index];
                match frame.frame_decoded_ns {
                    Some(decoded_ns) => {
                        frame.client_stats.video_decoder_queue_ns = elapsed_ns(now_ns, decoded_ns);
                    },
                    None => match frame.video_packet_received_ns {
                        Some(received_ns) => {
                            let ready_ns: u64 = received_ns.saturating_add(
                                frame.client_stats.video_decode_ns,
                            );
                            frame.client_stats.video_decoder_queue_ns = elapsed_ns(now_ns, ready_ns);
                        },
                        None => {},
                    },
                }
                frame.compositor_start_ns = Some(now_ns);
                self.replace(index, frame);
            },
            None => {},
        }
        assert(self.frames@ =~= with_frame(
            old(self).frames@,
            timestamp_ns,
            |frame| composited(frame, now_ns),
        ));
    }

    /// Notes that the frame was submitted, and returns its timing. A frame is reported once: it
    /// returns nothing for a frame that is not tracked or was submitted before. The report names
    /// the frame, and its latency covers the time until it is shown.
    pub fn report_submit(
        &mut self,
        timestamp_ns: u128,
        vsync_queue_ns: u64,
        now_ns: u64,
    ) -> (stats: Option<ClientStatistics>)
        requires
            old(self).well_formed(),
            now_ns + vsync_queue_ns <= u64::MAX,
        ensures
            final(self).well_formed(),
            ({
                let event = TimingEvent::Submitted { timestamp_ns, vsync_queue_ns, now_ns };
                &&& stats is Some == reports(old(self).timing(), event)
                &&& final(self).timing() == after_timing(old(self).timing(), event)
            }),
            match stats {
                Some(stats) => {
                    let before = frame_of(old(self).frames@, timestamp_ns);
                    let after = submitted(before, now_ns, vsync_queue_ns, old(self).prev_vsync_ns);
                    &&& tracks(old(self).frames@, timestamp_ns)
                    &&& !before.submitted
                    &&& stats == after.client_stats
                    &&& stats.target_timestamp_ns == timestamp_ns
                    &&& stats.vsync_queue_ns == vsync_queue_ns
                    &&& stats.total_pipeline_latency_ns >= vsync_queue_ns
                    &&& old(self).prev_vsync_ns is None ==> stats.frame_interval_ns
                        == ALVR_DEFAULT_FRAME_INTERVAL_NS
                    &&& final(self).frames@ == with_frame(
                        old(self).frames@,
                        timestamp_ns,
                        |frame|
                            submitted(frame, now_ns, vsync_queue_ns, old(self).prev_vsync_ns),
                    )
                    &&& final(self).prev_vsync_ns == Some((now_ns + vsync_queue_ns) as u64)
                },
                None => {
                    &&& tracks(old(self).frames@, timestamp_ns) ==> frame_of(
                        old(self).frames@,
                        timestamp_ns,
                    ).submitted
                    &&& final(self).frames@ == old(self).frames@
                    &&& final(self).prev_vsync_ns == old(self).prev_vsync_ns
                },
            },
    {
        let index: usize = match self.find(timestamp_ns) {
            Some(index) => index,
            None => {
                return None;
            },
        };
        let mut frame = self.frames[index];
        proof {
            let chosen = choose|i: int|
                0 <= i < self.frames@.len() && (#[trigger] self.frames@[i]).target_timestamp_ns
                    == timestamp_ns;
            assert(self.frames@[chosen].target_timestamp_ns == timestamp_ns);
            assert(chosen == index);
            assert(frame == frame_of(self.frames@, timestamp_ns));
        }
        if frame.submitted {
            return None;
        }
        match frame.compositor_start_ns {
            Some(start_ns) => {
                frame.client_stats.rendering_ns = elapsed_ns(now_ns, start_ns);
            },
            None => match frame.frame_decoded_ns {
                Some(decoded_ns) => {
                    frame.client_stats.rendering_ns = elapsed_ns(now_ns, decoded_ns);
                },
                None => {},
            },
        }
        let vsync_ns: u64 = now_ns + vsync_queue_ns;
        frame.client_stats.frame_interval_ns =
        match self.prev_vsync_ns {
            Some(prev_ns) => elapsed_ns(vsync_ns, prev_ns),
            None => ALVR_DEFAULT_FRAME_INTERVAL_NS,
        };
        frame.client_stats.vsync_queue_ns = vsync_queue_ns;
        frame.client_stats.total_pipeline_latency_ns =
        elapsed_ns(now_ns, frame.input_acquired_ns) + vsync_queue_ns;
        frame.submitted = true;
        let stats = frame.client_stats;
        self.replace(index, frame);
        assert(self.frames@ =~= with_frame(
            old(self).frames@,
            timestamp_ns,
            |frame| submitted(frame, now_ns, vsync_queue_ns, old(self).prev_vsync_ns),
        ));
        self.prev_vsync_ns = Some(vsync_ns);
        Some(stats)
    }
}

// ---------------------------------------------------------------------------
// The statistics of a session
// ---------------------------------------------------------------------------

/// Numbers the packets of a stream, each of which is sent in one datagram.
#[derive(Clone, Copy, Debug, PartialEq, Eq, Structural)]
pub struct AlvrStreamHeaderSender {
    pub stream_id: u16,
    pub max_packet_size: usize,
    pub packet_index: u32,
    pub sent_packets: u64,
}

impl AlvrStreamHeaderSender {
    /// A stream of which nothing was sent.
    pub fn new(stream_id: u16, max_packet_size: usize) -> (sender: Self)
        ensures
            sender == (AlvrStreamHeaderSender {
                stream_id,
                max_packet_size,
                packet_index: 0,
                sent_packets: 0,
            }),
    {
        AlvrStreamHeaderSender { stream_id, max_packet_size, packet_index: 0, sent_packets: 0 }
    }

    /// Builds the next datagram of the stream. Fails where it would be too long.
    pub fn next_datagram(&self, header: &[u8]) -> (datagram: Result<Vec<u8>, PacketError>)
        ensures
            match datagram {
                Ok(bytes) => {
                    &&& ALVR_STREAM_SHARD_PREFIX_SIZE + header@.len() <= self.max_packet_size
                    &&& bytes@ == shard_datagram(
                        (ShardPrefix {
                            stream_id: self.stream_id,
                            packet_index: self.packet_index,
                            shards_count: 1,
                            shard_index: 0,
                        }),
                        header@,
                    )
                },
                Err(PacketError::TooLarge { datagram_len, max_packet_size: limit }) => {
                    &&& datagram_len == ALVR_STREAM_SHARD_PREFIX_SIZE + header@.len()
                    &&& limit == self.max_packet_size
                    &&& datagram_len > self.max_packet_size
                },
                Err(PacketError::LengthOverflow) => ALVR_STREAM_SHARD_PREFIX_SIZE + header@.len()
                    > usize::MAX,
                Err(_) => false,
            },
    {
        build_header_packet(self.stream_id, self.packet_index, header, self.max_packet_size)
    }

    /// Notes that the datagram was sent. Returns its index and how many were sent.
    pub fn header_sent(&mut self) -> (sent: (u32, u64))
        ensures
            *final(self) == (AlvrStreamHeaderSender {
                packet_index: old(self).packet_index.wrapping_add(1),
                sent_packets: old(self).sent_packets.wrapping_add(1),
                ..*old(self)
            }),
            sent == (old(self).packet_index, final(self).sent_packets),
    {
        let packet_index: u32 = self.packet_index;
        self.packet_index = self.packet_index.wrapping_add(1);
        self.sent_packets = self.sent_packets.wrapping_add(1);
        (packet_index, self.sent_packets)
    }
}

/// Whether a packet is worth a line in the log: each of the first five, then one in
/// `ALVR_STREAM_LOG_EVERY`.
pub fn logs_stream_packet(count: u64) -> (logs: bool)
    ensures
        logs == (count <= 5 || count % ALVR_STREAM_LOG_EVERY == 0),
{
    count <= 5 || count % ALVR_STREAM_LOG_EVERY == 0
}

/// The statistics of the session that is running, where one is, and the stream they are sent on.
#[derive(Debug)]
pub struct AlvrStatistics {
    pub state: Option<AlvrClientStatisticsState>,
    pub sender: Option<AlvrStreamHeaderSender>,
}

impl AlvrStatistics {
    /// The history holds what it should.
    pub open spec fn well_formed(&self) -> bool {
        self.state is Some ==> self.state->0.well_formed()
    }

    /// The frames that are tracked.
    pub open spec fn frames(&self) -> Seq<TrackedClientFrame> {
        match self.state {
            Some(state) => state.frames@,
            None => Seq::empty(),
        }
    }

    /// When the last submitted frame was to be shown.
    pub open spec fn prev_vsync_ns(&self) -> Option<u64> {
        match self.state {
            Some(state) => state.prev_vsync_ns,
            None => None,
        }
    }

    /// No session.
    pub fn new() -> (statistics: Self)
        ensures
            statistics.well_formed(),
            statistics.state is None,
            statistics.sender is None,
    {
        AlvrStatistics { state: None, sender: None }
    }

    fn take_state(&mut self) -> (state: AlvrClientStatisticsState)
        requires
            old(self).well_formed(),
        ensures
            state.well_formed(),
            state.frames@ == old(self).frames(),
            state.prev_vsync_ns == old(self).prev_vsync_ns(),
            final(self).state is None,
            final(self).sender == old(self).sender,
    {
        let mut taken: Option<AlvrClientStatisticsState> = None;
        std::mem::swap(&mut taken, &mut self.state);
        match taken {
            Some(state) => state,
            None => {
                let state = AlvrClientStatisticsState::new();
                assert(state.frames@ =~= Seq::empty());
                state
            },
        }
    }
}

/// Starts the statistics of a new session.
pub fn reset_alvr_statistics_state(statistics: &mut AlvrStatistics)
    ensures
        final(statistics).well_formed(),
        final(statistics).state is Some,
        final(statistics).frames().len() == 0,
        final(statistics).prev_vsync_ns() is None,
        final(statistics).sender == old(statistics).sender,
{
    statistics.state = Some(AlvrClientStatisticsState::new());
}

/// Drops the statistics of the session that ended.
pub fn clear_alvr_statistics_state(statistics: &mut AlvrStatistics)
    ensures
        final(statistics).well_formed(),
        final(statistics).state is None,
        final(statistics).sender == old(statistics).sender,
{
    statistics.state = None;
}

/// Sets up the stream on which statistics are sent.
pub fn install_alvr_statistics_sender(statistics: &mut AlvrStatistics, max_packet_size: usize)
    ensures
        final(statistics).state == old(statistics).state,
        final(statistics).sender == Some(
            (AlvrStreamHeaderSender {
                stream_id: ALVR_STATISTICS_STREAM_ID,
                max_packet_size,
                packet_index: 0,
                sent_packets: 0,
            }),
        ),
{
    statistics.sender =
    Some(AlvrStreamHeaderSender::new(ALVR_STATISTICS_STREAM_ID, max_packet_size));
}

/// Ends the stream on which statistics are sent.
pub fn clear_alvr_statistics_sender(statistics: &mut AlvrStatistics)
    ensures
        final(statistics).state == old(statistics).state,
        final(statistics).sender is None,
{
    statistics.sender = None;
}

/// Notes that the input for a frame was read.
pub fn report_alvr_tracking_input_acquired(
    statistics: &mut AlvrStatistics,
    timestamp_ns: u128,
    now_ns: u64,
)
    requires
        old(statistics).well_formed(),
    ensures
        final(statistics).well_formed(),
        final(statistics).state is Some,
        final(statistics).frames() == after_input(old(statistics).frames(), timestamp_ns, now_ns),
        final(statistics).prev_vsync_ns() == old(statistics).prev_vsync_ns(),
        final(statistics).sender == old(statistics).sender,
{
    let mut state = statistics.take_state();
    state.report_input_acquired(timestamp_ns, now_ns);
    statistics.state = Some(state);
}

/// Notes that a video packet was received.
pub fn report_alvr_video_packet_received(
    statistics: &mut AlvrStatistics,
    timestamp_ns: u128,
    now_ns: u64,
)
    requires
        old(statistics).well_formed(),
    ensures
        final(statistics).well_formed(),
        final(statistics).state is Some,
        final(statistics).frames() == with_frame(
            old(statistics).frames(),
            timestamp_ns,
            |frame| received(frame, now_ns),
        ),
        final(statistics).prev_vsync_ns() == old(statistics).prev_vsync_ns(),
        final(statistics).sender == old(statistics).sender,
{
    let mut state = statistics.take_state();
    state.report_video_packet_received(timestamp_ns, now_ns);
    statistics.state = Some(state);
}

/// Notes that a frame was decoded.
pub fn report_alvr_frame_decoded(statistics: &mut AlvrStatistics, timestamp_ns: u128, now_ns: u64)
    requires
        old(statistics).well_formed(),
    ensures
        final(statistics).well_formed(),
        final(statistics).state is Some,
        final(statistics).frames() == with_frame(
            old(statistics).frames(),
            timestamp_ns,
            |frame| decoded(frame, now_ns),
        ),
        final(statistics).prev_vsync_ns() == old(statistics).prev_vsync_ns(),
        final(statistics).sender == old(statistics).sender,
{
    let mut state = statistics.take_state();
    state.report_frame_decoded(timestamp_ns, now_ns);
    statistics.state = Some(state);
}

/// Notes that the compositor took a frame up.
pub fn report_alvr_compositor_start(
    statistics: &mut AlvrStatistics,
    timestamp_ns: u128,
    now_ns: u64,
)
    requires
        old(statistics).well_formed(),
    ensures
        final(statistics).well_formed(),
        final(statistics).state is Some,
        final(statistics).frames() == with_frame(
            old(statistics).frames(),
            timestamp_ns,
            |frame| composited(frame, now_ns),
        ),
        final(statistics).prev_vsync_ns() == old(statistics).prev_vsync_ns(),
        final(statistics).sender == old(statistics).sender,
{
    let mut state = statistics.take_state();
    state.report_compositor_start(timestamp_ns, now_ns);
    statistics.state = Some(state);
}

/// Notes that a frame was submitted. Returns the timing to send, where the frame is reported now
/// and a stream for it is set up.
pub fn report_alvr_frame_submitted(
    statistics: &mut AlvrStatistics,
    timestamp_ns: u128,
    vsync_queue_ns: u64,
    now_ns: u64,
) -> (stats: Option<ClientStatistics>)
    requires
        old(statistics).well_formed(),
        now_ns + vsync_queue_ns <= u64::MAX,
    ensures
        final(statistics).well_formed(),
        final(statistics).state is Some,
        final(statistics).sender == old(statistics).sender,
        stats matches Some(stats) ==> stats.target_timestamp_ns == timestamp_ns,
        ({
            let frames = old(statistics).frames();
            let before = frame_of(frames, timestamp_ns);
            let prev_vsync_ns = old(statistics).prev_vsync_ns();
            if tracks(frames, timestamp_ns) && !before.submitted {
                &&& stats == if old(statistics).sender is Some {
                    Some(submitted(before, now_ns, vsync_queue_ns, prev_vsync_ns).client_stats)
                } else {
                    None
                }
                &&& final(statistics).frames() == with_frame(
                    frames,
                    timestamp_ns,
                    |frame| submitted(frame, now_ns, vsync_queue_ns, prev_vsync_ns),
                )
                &&& final(statistics).prev_vsync_ns() == Some((now_ns + vsync_queue_ns) as u64)
            } else {
                &&& stats is None
                &&& final(statistics).frames() == frames
                &&& final(statistics).prev_vsync_ns() == prev_vsync_ns
            }
        }),
{
    let mut state = statistics.take_state();
    let stats = state.report_submit(timestamp_ns, vsync_queue_ns, now_ns);
    statistics.state = Some(state);
    match statistics.sender {
        Some(_) => stats,
        None => None,
    }
}

// ---------------------------------------------------------------------------
// Laws
// ---------------------------------------------------------------------------

/// A report changes no frame's timestamp.
proof fn lemma_with_frame_keeps_names(
    frames: Seq<TrackedClientFrame>,
    timestamp_ns: u128,
    change: spec_fn(TrackedClientFrame) -> TrackedClientFrame,
    i: int,
)
    requires
        0 <= i < frames.len(),
        forall|frame: TrackedClientFrame|
            (#[trigger] change(frame)).target_timestamp_ns == frame.target_timestamp_ns,
    ensures
        with_frame(frames, timestamp_ns, change)[i].target_timestamp_ns
            == frames[i].target_timestamp_ns,
{
}

/// A frame that was submitted is not submitted again, so the server gets one report of it.
pub proof fn law_frames_are_reported_once(
    frames: Seq<TrackedClientFrame>,
    timestamp_ns: u128,
    now_ns: u64,
    vsync_queue_ns: u64,
    prev_vsync_ns: Option<u64>,
)
    requires
        tracks(frames, timestamp_ns),
    ensures
        ({
            let after = with_frame(
                frames,
                timestamp_ns,
                |frame| submitted(frame, now_ns, vsync_queue_ns, prev_vsync_ns),
            );
            tracks(after, timestamp_ns) && frame_of(after, timestamp_ns).submitted
        }),
{
    let change = |frame: TrackedClientFrame|
        submitted(frame, now_ns, vsync_queue_ns, prev_vsync_ns);
    let after = with_frame(frames, timestamp_ns, change);
    let i = choose|i: int|
        0 <= i < frames.len() && (#[trigger] frames[i]).target_timestamp_ns == timestamp_ns;
    assert(after[i].target_timestamp_ns == timestamp_ns);
    let j = choose|i: int|
        0 <= i < after.len() && (#[trigger] after[i]).target_timestamp_ns == timestamp_ns;
    assert(after[j].target_timestamp_ns == timestamp_ns);
    lemma_with_frame_keeps_names(frames, timestamp_ns, change, j);
}

/// A frame that was reported stays reported: whatever is noted of it or of other frames later, it
/// is submitted as long as it is tracked.
pub proof fn law_reported_frames_stay_reported(
    frames: Seq<TrackedClientFrame>,
    reported_ns: u128,
    timestamp_ns: u128,
    now_ns: u64,
    vsync_queue_ns: u64,
    prev_vsync_ns: Option<u64>,
)
    requires
        distinct(frames),
        tracks(frames, reported_ns),
        frame_of(frames, reported_ns).submitted,
    ensures
        ({
            let next = seq![
                after_input(frames, timestamp_ns, now_ns),
                with_frame(frames, timestamp_ns, |frame| received(frame, now_ns)),
                with_frame(frames, timestamp_ns, |frame| decoded(frame, now_ns)),
                with_frame(frames, timestamp_ns, |frame| composited(frame, now_ns)),
                with_frame(
                    frames,
                    timestamp_ns,
                    |frame| submitted(frame, now_ns, vsync_queue_ns, prev_vsync_ns),
                ),
            ];
            forall|i: int|
                0 <= i < next.len() && tracks(#[trigger] next[i], reported_ns) ==> frame_of(
                    next[i],
                    reported_ns,
                ).submitted
        }),
{
    let next = seq![
        after_input(frames, timestamp_ns, now_ns),
        with_frame(frames, timestamp_ns, |frame| received(frame, now_ns)),
        with_frame(frames, timestamp_ns, |frame| decoded(frame, now_ns)),
        with_frame(frames, timestamp_ns, |frame| composited(frame, now_ns)),
        with_frame(
            frames,
            timestamp_ns,
            |frame| submitted(frame, now_ns, vsync_queue_ns, prev_vsync_ns),
        ),
    ];
    let at = choose|i: int|
        0 <= i < frames.len() && (#[trigger] frames[i]).target_timestamp_ns == reported_ns;
    assert(frames[at].submitted);
    assert forall|i: int| 0 <= i < next.len() && tracks(#[trigger] next[i], reported_ns) implies
        frame_of(next[i], reported_ns).submitted by {
        let after = next[i];
        let j = choose|j: int|
            0 <= j < after.len() && (#[trigger] after[j]).target_timestamp_ns == reported_ns;
        assert(after[j].target_timestamp_ns == reported_ns);
        if i == 0 {
            if !tracks(frames, timestamp_ns) {
                assert(j > 0) by {
                    if j == 0 {
                        assert(frames[at].target_timestamp_ns == timestamp_ns);
                    }
                }
                assert(after[j] == frames[j - 1]);
                assert(j - 1 == at);
            } else {
                assert(j == at);
            }
        } else {
            assert(frames[j].target_timestamp_ns == reported_ns);
            assert(j == at);
        }
    }
}

/// With distinct frames, the frame with a timestamp is the one at whose place it stands.
proof fn lemma_frame_at(frames: Seq<TrackedClientFrame>, at: int)
    requires
        distinct(frames),
        0 <= at < frames.len(),
    ensures
        tracks(frames, frames[at].target_timestamp_ns),
        frame_of(frames, frames[at].target_timestamp_ns) == frames[at],
{
    let timestamp_ns = frames[at].target_timestamp_ns;
    let chosen = choose|i: int|
        0 <= i < frames.len() && (#[trigger] frames[i]).target_timestamp_ns == timestamp_ns;
    assert(frames[at].target_timestamp_ns == timestamp_ns);
    assert(chosen == at);
}

/// What one event does to the frame with a timestamp: it is tracked on, and reported on, unless
/// it makes room; it is newly tracked when its input is read; and only a report marks it.
proof fn lemma_event_on_frame(at: TimingView, event: TimingEvent, timestamp_ns: u128)
    requires
        distinct(at.frames),
    ensures
        distinct(after_timing(at, event).frames),
        ({
            let after = after_timing(at, event).frames;
            let marks = reports(at, event) && event->Submitted_timestamp_ns == timestamp_ns;
            tracks(after, timestamp_ns) ==> frame_of(after, timestamp_ns).submitted == (tracks(
                at.frames,
                timestamp_ns,
            ) && (frame_of(at.frames, timestamp_ns).submitted || marks))
        }),
        reports(at, event) ==> tracks(
            after_timing(at, event).frames,
            event->Submitted_timestamp_ns,
        ),
{
    let after = after_timing(at, event).frames;
    assert(distinct(after)) by {
        if let TimingEvent::Input { timestamp_ns: input_ns, now_ns } = event {
            if !tracks(at.frames, input_ns) {
                assert forall|i: int, j: int| 0 <= i < j < after.len() implies (
                #[trigger] after[i]).target_timestamp_ns != (
                #[trigger] after[j]).target_timestamp_ns by {
                    assert(after[j] == at.frames[j - 1]);
                    if i > 0 {
                        assert(after[i] == at.frames[i - 1]);
                    }
                }
            }
        }
    }
    if tracks(after, timestamp_ns) {
        let j = choose|j: int|
            0 <= j < after.len() && (#[trigger] after[j]).target_timestamp_ns == timestamp_ns;
        lemma_frame_at(after, j);
        let input = event matches TimingEvent::Input { timestamp_ns: input_ns, .. } && !tracks(
            at.frames,
            input_ns,
        );
        if input {
            if j > 0 {
                assert(after[j] == at.frames[j - 1]);
                lemma_frame_at(at.frames, j - 1);
            }
        } else {
            assert(at.frames[j].target_timestamp_ns == timestamp_ns);
            lemma_frame_at(at.frames, j);
        }
    }
    if reports(at, event) {
        let reported_ns = event->Submitted_timestamp_ns;
        let i = choose|i: int|
            0 <= i < at.frames.len() && (#[trigger] at.frames[i]).target_timestamp_ns
                == reported_ns;
        assert(after[i].target_timestamp_ns == reported_ns);
    }
}

proof fn lemma_marked_when_reported(events: Seq<TimingEvent>, timestamp_ns: u128)
    ensures
        distinct(after_timings(events).frames),
        tracks(after_timings(events).frames, timestamp_ns) ==> frame_of(
            after_timings(events).frames,
            timestamp_ns,
        ).submitted == reported_since_tracked(events, timestamp_ns),
    decreases events.len(),
{
    if events.len() > 0 {
        let rest = events.drop_last();
        let last = events.len() - 1;
        let at = after_timings(rest);
        lemma_marked_when_reported(rest, timestamp_ns);
        lemma_event_on_frame(at, events.last(), timestamp_ns);
        assert(events.take(last) =~= rest);
        assert(rest.take(last) =~= rest);
        assert(events.take(events.len() as int) =~= events);
        assert forall|j: int| 0 <= j <= last implies #[trigger] events.take(j) == rest.take(j) by {
            assert(events.take(j) =~= rest.take(j));
        }
        assert forall|j: int| 0 <= j <= last implies #[trigger] tracked_after(
            events,
            timestamp_ns,
            j,
        ) == tracked_after(rest, timestamp_ns, j) by {
            assert(events.take(j) == rest.take(j));
        }
        assert forall|i: int| 0 <= i < last implies #[trigger] reported_at(
            events,
            timestamp_ns,
            i,
        ) == reported_at(rest, timestamp_ns, i) by {
            assert(events.take(i) == rest.take(i));
        }
        if tracks(after_timings(events).frames, timestamp_ns) {
            assert(tracked_after(events, timestamp_ns, events.len() as int));
            if frame_of(after_timings(events).frames, timestamp_ns).submitted {
                if frame_of(at.frames, timestamp_ns).submitted {
                    let i = choose|i: int|
                        0 <= i < rest.len() && #[trigger] reported_at(rest, timestamp_ns, i)
                            && forall|j: int|
                            i < j <= rest.len() ==> #[trigger] tracked_after(rest, timestamp_ns, j);
                    assert(reported_at(events, timestamp_ns, i));
                    assert forall|j: int| i < j <= events.len() implies #[trigger] tracked_after(
                        events,
                        timestamp_ns,
                        j,
                    ) by {
                        if j <= last {
                            assert(tracked_after(rest, timestamp_ns, j));
                        }
                    }
                } else {
                    assert(reported_at(events, timestamp_ns, last));
                }
            }
            if reported_since_tracked(events, timestamp_ns) {
                let i = choose|i: int|
                    0 <= i < events.len() && #[trigger] reported_at(events, timestamp_ns, i)
                        && forall|j: int|
                        i < j <= events.len() ==> #[trigger] tracked_after(events, timestamp_ns, j);
                if i < last {
                    assert(reported_at(rest, timestamp_ns, i));
                    assert forall|j: int| i < j <= rest.len() implies #[trigger] tracked_after(
                        rest,
                        timestamp_ns,
                        j,
                    ) by {
                        assert(tracked_after(events, timestamp_ns, j));
                    }
                    assert(tracked_after(events, timestamp_ns, last));
                }
            }
        }
    }
}

/// The time of the last report is known exactly when one went out.
proof fn lemma_vsync_known(events: Seq<TimingEvent>)
    ensures
        after_timings(events).prev_vsync_ns is Some == exists|i: int|
            0 <= i < events.len() && #[trigger] reports(after_timings(events.take(i)), events[i]),
    decreases events.len(),
{
    if events.len() > 0 {
        let rest = events.drop_last();
        let last = events.len() - 1;
        lemma_vsync_known(rest);
        assert(events.take(last) =~= rest);
        assert forall|i: int| 0 <= i < last implies #[trigger] events.take(i) == rest.take(i) by {
            assert(events.take(i) =~= rest.take(i));
        }
        if exists|i: int|
            0 <= i < rest.len() && #[trigger] reports(after_timings(rest.take(i)), rest[i]) {
            let i = choose|i: int|
                0 <= i < rest.len() && #[trigger] reports(after_timings(rest.take(i)), rest[i]);
            assert(reports(after_timings(events.take(i)), events[i]));
        }
        if exists|i: int|
            0 <= i < events.len() && #[trigger] reports(after_timings(events.take(i)), events[i]) {
            let i = choose|i: int|
                0 <= i < events.len() && #[trigger] reports(
                    after_timings(events.take(i)),
                    events[i],
                );
            if i < last {
                assert(reports(after_timings(rest.take(i)), rest[i]));
            }
        }
        if reports(after_timings(rest), events.last()) {
            assert(reports(after_timings(events.take(last)), events[last]));
        }
    }
}

/// Whatever happened before, the submission of a frame is reported exactly where the frame is
/// tracked and no report of it went out since it is. Before the first report the assumed interval
/// is reported.
pub proof fn law_submissions_are_reported_once(
    events: Seq<TimingEvent>,
    timestamp_ns: u128,
    vsync_queue_ns: u64,
    now_ns: u64,
)
    ensures
        ({
            let at = after_timings(events);
            let event = TimingEvent::Submitted { timestamp_ns, vsync_queue_ns, now_ns };
            let stats = submitted(
                frame_of(at.frames, timestamp_ns),
                now_ns,
                vsync_queue_ns,
                at.prev_vsync_ns,
            ).client_stats;
            &&& reports(at, event) == (tracks(at.frames, timestamp_ns) && !reported_since_tracked(
                events,
                timestamp_ns,
            ))
            &&& !reports(at, event) ==> after_timing(at, event) == at
            &&& (forall|i: int|
                0 <= i < events.len() ==> !#[trigger] reports(
                    after_timings(events.take(i)),
                    events[i],
                )) ==> stats.frame_interval_ns == ALVR_DEFAULT_FRAME_INTERVAL_NS
        }),
{
    lemma_marked_when_reported(events, timestamp_ns);
    lemma_vsync_known(events);
}

/// The newest frame is always tracked, and a frame leaves the history only to make room for newer
/// ones.
pub proof fn law_history_keeps_the_newest(
    frames: Seq<TrackedClientFrame>,
    timestamp_ns: u128,
    now_ns: u64,
    kept: int,
)
    requires
        0 <= kept < frames.len() <= ALVR_STATISTICS_HISTORY_SIZE,
    ensures
        tracks(after_input(frames, timestamp_ns, now_ns), timestamp_ns),
        kept < ALVR_STATISTICS_HISTORY_SIZE - 1 ==> tracks(
            after_input(frames, timestamp_ns, now_ns),
            frames[kept].target_timestamp_ns,
        ),
{
    let after = after_input(frames, timestamp_ns, now_ns);
    if tracks(frames, timestamp_ns) {
        assert(frames[kept].target_timestamp_ns == frames[kept].target_timestamp_ns);
    } else {
        assert(after[0].target_timestamp_ns == timestamp_ns);
        assert(kept < ALVR_STATISTICS_HISTORY_SIZE - 1 ==> after[kept + 1] == frames[kept]);
    }
}

/// The latency of a frame is at least the time from its last noted stage to its submission, where
/// the clock does not run backwards.
pub proof fn law_latency_covers_rendering(
    frame: TrackedClientFrame,
    now_ns: u64,
    vsync_queue_ns: u64,
    prev_vsync_ns: Option<u64>,
)
    requires
        now_ns + vsync_queue_ns <= u64::MAX,
        frame.compositor_start_ns is Some,
        frame.input_acquired_ns <= frame.compositor_start_ns->0 <= now_ns,
    ensures
        ({
            let stats = submitted(frame, now_ns, vsync_queue_ns, prev_vsync_ns).client_stats;
            stats.total_pipeline_latency_ns >= stats.rendering_ns + stats.vsync_queue_ns
        }),
{
}

/// The times of a frame add up: where it passes every stage in order, the reported times are those
/// between neighbouring stages, and together with the wait for its packet they make up the whole
/// latency until it is shown.
pub proof fn law_times_add_up(
    timestamp_ns: u128,
    input_ns: u64,
    received_ns: u64,
    decoded_ns: u64,
    compositor_ns: u64,
    submit_ns: u64,
    vsync_queue_ns: u64,
    prev_vsync_ns: Option<u64>,
)
    requires
        input_ns <= received_ns <= decoded_ns <= compositor_ns <= submit_ns,
        submit_ns + vsync_queue_ns <= u64::MAX,
    ensures
        ({
            let frames = after_timings(
                seq![
                    TimingEvent::Input { timestamp_ns, now_ns: input_ns },
                    TimingEvent::Received { timestamp_ns, now_ns: received_ns },
                    TimingEvent::Decoded { timestamp_ns, now_ns: decoded_ns },
                    TimingEvent::Composited { timestamp_ns, now_ns: compositor_ns },
                ],
            ).frames;
            let stats = submitted(
                frame_of(frames, timestamp_ns),
                submit_ns,
                vsync_queue_ns,
                prev_vsync_ns,
            ).client_stats;
            &&& tracks(frames, timestamp_ns)
            &&& stats.target_timestamp_ns == timestamp_ns
            &&& stats.video_decode_ns == decoded_ns - received_ns
            &&& stats.video_decoder_queue_ns == compositor_ns - decoded_ns
            &&& stats.rendering_ns == submit_ns - compositor_ns
            &&& stats.vsync_queue_ns == vsync_queue_ns
            &&& stats.total_pipeline_latency_ns == submit_ns - input_ns + vsync_queue_ns
            &&& stats.total_pipeline_latency_ns == (received_ns - input_ns) + stats.video_decode_ns
                + stats.video_decoder_queue_ns + stats.rendering_ns + stats.vsync_queue_ns
            &&& prev_vsync_ns is None ==> stats.frame_interval_ns == 13_889_000
        }),
{
    let input = TimingEvent::Input { timestamp_ns, now_ns: input_ns };
    let arrival = TimingEvent::Received { timestamp_ns, now_ns: received_ns };
    let decoding = TimingEvent::Decoded { timestamp_ns, now_ns: decoded_ns };
    let composing = TimingEvent::Composited { timestamp_ns, now_ns: compositor_ns };
    let events = seq![input, arrival, decoding, composing];
    assert(events.drop_last() =~= seq![input, arrival, decoding]);
    assert(seq![input, arrival, decoding].drop_last() =~= seq![input, arrival]);
    assert(seq![input, arrival].drop_last() =~= seq![input]);
    assert(seq![input].drop_last() =~= Seq::empty());
    let start = after_timings(Seq::empty());
    let one = after_timings(seq![input]);
    assert(one.frames =~= seq![new_frame(timestamp_ns, input_ns)]) by {
        assert(one == after_timing(start, input));
        assert(!tracks(start.frames, timestamp_ns));
    }
    let two = after_timings(seq![input, arrival]);
    assert(two == after_timing(one, arrival));
    let three = after_timings(seq![input, arrival, decoding]);
    assert(three == after_timing(two, decoding));
    let four = after_timings(events);
    assert(four == after_timing(three, composing));
    let frame = four.frames[0];
    assert(four.frames.len() == 1);
    assert(frame.target_timestamp_ns == timestamp_ns);
    assert(distinct(four.frames));
    lemma_frame_at(four.frames, 0);
}

/// A frame that no picture was decoded for still reports how long its packet waited, and a frame
/// that the compositor did not take up reports its rendering from the decoded picture on.
pub proof fn law_missing_stages_are_bridged(
    frame: TrackedClientFrame,
    received_ns: u64,
    now_ns: u64,
    vsync_queue_ns: u64,
    prev_vsync_ns: Option<u64>,
)
    requires
        now_ns + vsync_queue_ns <= u64::MAX,
        frame.compositor_start_ns is None,
        frame.client_stats.video_decode_ns == 0,
        received_ns <= now_ns,
    ensures
        frame.frame_decoded_ns is None ==> composited(
            received(frame, received_ns),
            now_ns,
        ).client_stats.video_decoder_queue_ns == now_ns - received_ns,
        frame.frame_decoded_ns is Some && frame.frame_decoded_ns->0 <= now_ns ==> submitted(
            frame,
            now_ns,
            vsync_queue_ns,
            prev_vsync_ns,
        ).client_stats.rendering_ns == now_ns - frame.frame_decoded_ns->0,
{
}

/// The reported interval is the time between two frames being shown: from the time at which the
/// last reported frame was to be shown until the time at which this one is.
pub proof fn law_intervals_lie_between_frames(
    at: TimingView,
    first_ns: u128,
    first_queue_ns: u64,
    first_submit_ns: u64,
    second_ns: u128,
    queue_ns: u64,
    submit_ns: u64,
)
    requires
        first_submit_ns + first_queue_ns <= submit_ns + queue_ns <= u64::MAX,
        reports(
            at,
            TimingEvent::Submitted {
                timestamp_ns: first_ns,
                vsync_queue_ns: first_queue_ns,
                now_ns: first_submit_ns,
            },
        ),
    ensures
        ({
            let next = after_timing(
                at,
                TimingEvent::Submitted {
                    timestamp_ns: first_ns,
                    vsync_queue_ns: first_queue_ns,
                    now_ns: first_submit_ns,
                },
            );
            submitted(
                frame_of(next.frames, second_ns),
                submit_ns,
                queue_ns,
                next.prev_vsync_ns,
            ).client_stats.frame_interval_ns == (submit_ns + queue_ns) - (first_submit_ns
                + first_queue_ns)
        }),
{
}

/// What happens to one frame leaves every other frame as it is, in its place among those that
/// stay.
pub proof fn law_other_frames_are_left_alone(at: TimingView, event: TimingEvent, index: int)
    requires
        0 <= index < at.frames.len(),
        match event {
            TimingEvent::Input { timestamp_ns, .. } => tracks(at.frames, timestamp_ns) || index
                < 511,
            TimingEvent::Received { timestamp_ns, .. }
            | TimingEvent::Decoded { timestamp_ns, .. }
            | TimingEvent::Composited { timestamp_ns, .. }
            | TimingEvent::Submitted { timestamp_ns, .. } => timestamp_ns
                != at.frames[index].target_timestamp_ns,
        },
    ensures
        ({
            let after = after_timing(at, event).frames;
            let moved = event matches TimingEvent::Input { timestamp_ns, .. } && !tracks(
                at.frames,
                timestamp_ns,
            );
            after[if moved { index + 1 } else { index }] == at.frames[index]
        }),
{
}

/// At most 512 frames are tracked, however many inputs are read.
pub proof fn law_history_is_bounded(
    frames: Seq<TrackedClientFrame>,
    timestamp_ns: u128,
    now_ns: u64,
)
    requires
        frames.len() <= 512,
    ensures
        after_input(frames, timestamp_ns, now_ns).len() <= 512,
        frames.len() < 512 && !tracks(frames, timestamp_ns) ==> after_input(
            frames,
            timestamp_ns,
            now_ns,
        ).len() == frames.len() + 1,
        tracks(frames, timestamp_ns) ==> after_input(frames, timestamp_ns, now_ns) == frames,
{
}

/// What is noted of a frame that goes through all its stages.
proof fn lemma_four_stages(
    timestamp_ns: u128,
    input_ns: u64,
    received_ns: u64,
    decoded_ns: u64,
    compositor_ns: u64,
)
    ensures
        ({
            let one = after_input(Seq::empty(), timestamp_ns, input_ns);
            let two = with_frame(one, timestamp_ns, |frame| received(frame, received_ns));
            let three = with_frame(two, timestamp_ns, |frame| decoded(frame, decoded_ns));
            let four = with_frame(three, timestamp_ns, |frame| composited(frame, compositor_ns));
            four == after_timings(
                seq![
                    TimingEvent::Input { timestamp_ns, now_ns: input_ns },
                    TimingEvent::Received { timestamp_ns, now_ns: received_ns },
                    TimingEvent::Decoded { timestamp_ns, now_ns: decoded_ns },
                    TimingEvent::Composited { timestamp_ns, now_ns: compositor_ns },
                ],
            ).frames
        }),
{
    let input = TimingEvent::Input { timestamp_ns, now_ns: input_ns };
    let arrival = TimingEvent::Received { timestamp_ns, now_ns: received_ns };
    let decoding = TimingEvent::Decoded { timestamp_ns, now_ns: decoded_ns };
    let composing = TimingEvent::Composited { timestamp_ns, now_ns: compositor_ns };
    let events = seq![input, arrival, decoding, composing];
    assert(events.drop_last() =~= seq![input, arrival, decoding]);
    assert(seq![input, arrival, decoding].drop_last() =~= seq![input, arrival]);
    assert(seq![input, arrival].drop_last() =~= seq![input]);
    assert(seq![input].drop_last() =~= Seq::empty());
    let start = after_timings(Seq::empty());
    assert(after_timings(seq![input]) == after_timing(start, input));
    assert(after_timings(seq![input, arrival]) == after_timing(
        after_timings(seq![input]),
        arrival,
    ));
    assert(after_timings(seq![input, arrival, decoding]) == after_timing(
        after_timings(seq![input, arrival]),
        decoding,
    ));
    assert(after_timings(events) == after_timing(
        after_timings(seq![input, arrival, decoding]),
        composing,
    ));
}

/// The client that notes a frame's input, its packet, its picture, its composition and its
/// submission, one after the other, reports how long each of these took.
pub proof fn law_noted_times_are_reported(
    timestamp_ns: u128,
    input_ns: u64,
    received_ns: u64,
    decoded_ns: u64,
    compositor_ns: u64,
    submit_ns: u64,
    vsync_queue_ns: u64,
    stats: Option<ClientStatistics>,
)
    requires
        input_ns <= received_ns <= decoded_ns <= compositor_ns <= submit_ns,
        submit_ns + vsync_queue_ns <= u64::MAX,
    ensures
        forall|
            a: &mut AlvrStatistics,
            b: &mut AlvrStatistics,
            c: &mut AlvrStatistics,
            d: &mut AlvrStatistics,
            e: &mut AlvrStatistics,
        |
            (*a).well_formed() && (*a).frames().len() == 0 && (*a).sender is Some && #[trigger]
                call_ensures(
                report_alvr_tracking_input_acquired,
                (a, timestamp_ns, input_ns),
                (),
            ) && *b == *final(a) && #[trigger] call_ensures(
                report_alvr_video_packet_received,
                (b, timestamp_ns, received_ns),
                (),
            ) && *c == *final(b) && #[trigger] call_ensures(
                report_alvr_frame_decoded,
                (c, timestamp_ns, decoded_ns),
                (),
            ) && *d == *final(c) && #[trigger] call_ensures(
                report_alvr_compositor_start,
                (d, timestamp_ns, compositor_ns),
                (),
            ) && *e == *final(d) && #[trigger] call_ensures(
                report_alvr_frame_submitted,
                (e, timestamp_ns, vsync_queue_ns, submit_ns),
                stats,
            ) ==> {
                &&& stats is Some
                &&& stats->0.target_timestamp_ns == timestamp_ns
                &&& stats->0.video_decode_ns == decoded_ns - received_ns
                &&& stats->0.video_decoder_queue_ns == compositor_ns - decoded_ns
                &&& stats->0.rendering_ns == submit_ns - compositor_ns
                &&& stats->0.vsync_queue_ns == vsync_queue_ns
                &&& stats->0.total_pipeline_latency_ns == submit_ns - input_ns + vsync_queue_ns
                &&& final(e).prev_vsync_ns() == Some((submit_ns + vsync_queue_ns) as u64)
                &&& final(e).sender == (*a).sender
            },
{
    assert forall|
        a: &mut AlvrStatistics,
        b: &mut AlvrStatistics,
        c: &mut AlvrStatistics,
        d: &mut AlvrStatistics,
        e: &mut AlvrStatistics,
    |
        (*a).well_formed() && (*a).frames().len() == 0 && (*a).sender is Some && #[trigger]
            call_ensures(report_alvr_tracking_input_acquired, (a, timestamp_ns, input_ns), ())
            && *b == *final(a) && #[trigger] call_ensures(
            report_alvr_video_packet_received,
            (b, timestamp_ns, received_ns),
            (),
        ) && *c == *final(b) && #[trigger] call_ensures(
            report_alvr_frame_decoded,
            (c, timestamp_ns, decoded_ns),
            (),
        ) && *d == *final(c) && #[trigger] call_ensures(
            report_alvr_compositor_start,
            (d, timestamp_ns, compositor_ns),
            (),
        ) && *e == *final(d) && #[trigger] call_ensures(
            report_alvr_frame_submitted,
            (e, timestamp_ns, vsync_queue_ns, submit_ns),
            stats,
        ) implies {
        &&& stats is Some
        &&& stats->0.target_timestamp_ns == timestamp_ns
        &&& stats->0.video_decode_ns == decoded_ns - received_ns
        &&& stats->0.video_decoder_queue_ns == compositor_ns - decoded_ns
        &&& stats->0.rendering_ns == submit_ns - compositor_ns
        &&& stats->0.vsync_queue_ns == vsync_queue_ns
        &&& stats->0.total_pipeline_latency_ns == submit_ns - input_ns + vsync_queue_ns
        &&& final(e).prev_vsync_ns() == Some((submit_ns + vsync_queue_ns) as u64)
        &&& final(e).sender == (*a).sender
    } by {
        assert((*a).frames() =~= Seq::empty());
        lemma_four_stages(timestamp_ns, input_ns, received_ns, decoded_ns, compositor_ns);
        law_times_add_up(
            timestamp_ns,
            input_ns,
            received_ns,
            decoded_ns,
            compositor_ns,
            submit_ns,
            vsync_queue_ns,
            (*a).prev_vsync_ns(),
        );
        let one = after_input(Seq::empty(), timestamp_ns, input_ns);
        assert(final(a).frames() == one);
        assert(one =~= seq![new_frame(timestamp_ns, input_ns)]) by {
            assert(!tracks(Seq::<TrackedClientFrame>::empty(), timestamp_ns));
        }
        let frames = (*e).frames();
        assert(frames.len() == 1);
        assert(frames[0].target_timestamp_ns == timestamp_ns);
        assert(distinct(frames));
        lemma_frame_at(frames, 0);
        assert(!frame_of(frames, timestamp_ns).submitted);
    }
}

/// Statistics go out on their own stream, numbered from zero, as soon as there is a server, and no
/// longer than there is one.
pub proof fn law_statistics_are_numbered(max_packet_size: usize, sent: (u32, u64))
    ensures
        forall|statistics: &mut AlvrStatistics| #[trigger]
            call_ensures(install_alvr_statistics_sender, (statistics, max_packet_size), ()) ==> {
                &&& final(statistics).sender is Some
                &&& final(statistics).sender->0.stream_id == 4
                &&& final(statistics).sender->0.max_packet_size == max_packet_size
                &&& final(statistics).sender->0.packet_index == 0
                &&& final(statistics).sender->0.sent_packets == 0
                &&& final(statistics).state == (*statistics).state
            },
        forall|statistics: &mut AlvrStatistics| #[trigger]
            call_ensures(clear_alvr_statistics_sender, (statistics,), ()) ==> {
                &&& final(statistics).sender is None
                &&& final(statistics).state == (*statistics).state
            },
        forall|statistics: &mut AlvrStatistics| #[trigger]
            call_ensures(reset_alvr_statistics_state, (statistics,), ()) ==> {
                &&& final(statistics).frames().len() == 0
                &&& final(statistics).prev_vsync_ns() is None
                &&& final(statistics).sender == (*statistics).sender
            },
        forall|statistics: &mut AlvrStatistics| #[trigger]
            call_ensures(clear_alvr_statistics_state, (statistics,), ()) ==> {
                &&& final(statistics).state is None
                &&& final(statistics).sender == (*statistics).sender
            },
        forall|sender: &mut AlvrStreamHeaderSender| #[trigger]
            call_ensures(AlvrStreamHeaderSender::header_sent, (sender,), sent) ==> {
                &&& sent.0 == (*sender).packet_index
                &&& (*sender).packet_index < u32::MAX ==> final(sender).packet_index
                    == (*sender).packet_index + 1
                &&& (*sender).packet_index == u32::MAX ==> final(sender).packet_index == 0
                &&& (*sender).sent_packets < u64::MAX ==> sent.1 == (*sender).sent_packets + 1
                    && final(sender).sent_packets == sent.1
                &&& final(sender).stream_id == (*sender).stream_id
                &&& final(sender).max_packet_size == (*sender).max_packet_size
            },
{
}

/// A report fits into one datagram behind the 14 bytes that name its stream and its number, or is
/// refused.
pub proof fn law_reports_fit_into_a_datagram(
    sender: AlvrStreamHeaderSender,
    header: &[u8],
    datagram: Result<Vec<u8>, PacketError>,
)
    requires
        call_ensures(AlvrStreamHeaderSender::next_datagram, (&sender, header), datagram),
        header@.len() < 0x1_0000,
    ensures
        datagram is Ok <==> 14 + header@.len() <= sender.max_packet_size,
        datagram is Ok ==> datagram->Ok_0@ == shard_datagram(
            (ShardPrefix {
                stream_id: sender.stream_id,
                packet_index: sender.packet_index,
                shards_count: 1,
                shard_index: 0,
            }),
            header@,
        ),
        datagram is Err ==> datagram->Err_0 == (PacketError::TooLarge {
            datagram_len: (14 + header@.len()) as usize,
            max_packet_size: sender.max_packet_size,
        }),
{
}

/// A sender starts with its first packet, and a client without statistics has noted nothing.
pub proof fn law_senders_start_at_the_first_packet(
    stream_id: u16,
    max_packet_size: usize,
    sender: AlvrStreamHeaderSender,
    state: AlvrClientStatisticsState,
    statistics: AlvrStatistics,
)
    requires
        call_ensures(AlvrStreamHeaderSender::new, (stream_id, max_packet_size), sender),
        call_ensures(AlvrClientStatisticsState::new, (), state),
        call_ensures(AlvrStatistics::new, (), statistics),
    ensures
        sender.stream_id == stream_id && sender.max_packet_size == max_packet_size,
        sender.packet_index == 0 && sender.sent_packets == 0,
        state.frames@.len() == 0 && state.prev_vsync_ns is None,
        statistics.state is None && statistics.sender is None,
{
}

} // verus!
