//! The receiving end of the UDP stream: what happens to each datagram, and to each completed
//! video packet.
//!
//! The decoder can only pick up the stream at a key frame (an IDR packet). After a lost packet,
//! or when the decoder refuses one, the receiver drops video until the next key frame and asks
//! the server for one.

use vstd::prelude::*;
use vstd::slice::slice_subrange;

use crate::diagnostics::{bump, bumped, AlvrUdpStreamDiagnostics};
use crate::packets::{
    after_shard, completed_video, pending_of, prefix_of, read_shard_prefix, CompletedVideoPacket,
    PartialPacket, RawPacketAssembler, ShardView, VideoPacketAssembler, VideoPacketHeader,
    ALVR_STREAM_SHARD_PREFIX_SIZE,
};
use crate::recovery::{after_idr_request, idr_request_due, request_alvr_idr_if_due};

verus! {

/// Stream of tracking packets.
pub const ALVR_TRACKING_STREAM_ID: u16 = 0;

/// Stream of game audio and microphone packets.
pub const ALVR_AUDIO_STREAM_ID: u16 = 2;

/// Stream of video packets.
pub const ALVR_VIDEO_STREAM_ID: u16 = 3;

/// Stream of client statistics.
pub const ALVR_STATISTICS_STREAM_ID: u16 = 4;

/// Why a key frame is asked for.
#[derive(Clone, Copy, Debug, PartialEq, Eq, Structural)]
pub enum IdrReason {
    VideoPacketGap,
    WaitingForIdr,
    DecoderConfigMissing,
    DecoderUnavailableForIdr,
    DecoderSaturation,
}

impl IdrReason {
    /// The reason in words.
    pub open spec fn words(self) -> Seq<char> {
        match self {
            IdrReason::VideoPacketGap => "video packet gap"@,
            IdrReason::WaitingForIdr => "corrupted video stream while waiting for IDR"@,
            IdrReason::DecoderConfigMissing => "decoder configuration not yet received"@,
            IdrReason::DecoderUnavailableForIdr => "decoder unavailable for IDR packet"@,
            IdrReason::DecoderSaturation => "decoder saturation"@,
        }
    }

    /// Names the reason.
    pub fn text(self) -> (text: &'static str)
        ensures
            text@ == self.words(),
    {
        match self {
            IdrReason::VideoPacketGap => "video packet gap",
            IdrReason::WaitingForIdr => "corrupted video stream while waiting for IDR",
            IdrReason::DecoderConfigMissing => "decoder configuration not yet received",
            IdrReason::DecoderUnavailableForIdr => "decoder unavailable for IDR packet",
            IdrReason::DecoderSaturation => "decoder saturation",
        }
    }
}

/// What a datagram brought.
#[derive(Debug)]
pub enum Reception {
    /// Too short for a shard prefix.
    Short,
    /// A shard of a video packet, with the packet that it completed.
    Video { packet_index: u32, packet: Option<CompletedVideoPacket> },
    /// A shard of an audio packet, with the payload that it completed.
    Audio { packet_index: u32, payload: Option<Vec<u8>> },
    /// A shard of a stream that is not received here.
    Other,
    /// The session ends: the shard is left alone, and nothing more is received.
    Ended,
}

/// What to do with a completed video packet.
#[derive(Clone, Copy, Debug, PartialEq, Eq, Structural)]
pub struct VideoDecision {
    /// The session ends: the packet is left alone, and nothing more is received.
    pub ended: bool,
    /// Hand the packet to the decoder.
    pub submit: bool,
    /// Ask the server for a key frame.
    pub idr_request: Option<IdrReason>,
}

/// What to do after the decoder took or refused a packet.
#[derive(Clone, Copy, Debug, PartialEq, Eq, Structural)]
pub struct DecoderFollowUp {
    /// The stream has recovered.
    pub recovery_completed: bool,
    /// Ask the server for a key frame.
    pub idr_request: Option<IdrReason>,
}

/// What to do when receiving failed.
#[derive(Clone, Copy, Debug, PartialEq, Eq, Structural)]
pub enum ReceiveFailure {
    /// Nothing there yet: pause, then try again.
    Pause,
    /// Stop receiving.
    Exit,
}

/// The packet index that follows `previous`; indices wrap.
pub open spec fn index_after(previous: u32) -> u32 {
    if previous == u32::MAX {
        0
    } else {
        (previous + 1) as u32
    }
}

/// Where the video stream stands.
pub struct Continuity {
    /// Video is dropped until the next key frame.
    pub waiting: bool,
    /// Index of the last completed packet.
    pub last: Option<u32>,
}

/// A completed video packet as continuity sees it.
pub struct Arrival {
    pub packet_index: u32,
    pub is_idr: bool,
    /// The decoder was configured when the packet completed.
    pub decoder_ready: bool,
}

/// The packet shows that another one was lost, and is no key frame to continue from.
pub open spec fn gap_before(at: Continuity, packet: Arrival) -> bool {
    &&& !at.waiting
    &&& !packet.is_idr
    &&& at.last matches Some(previous) && packet.packet_index != index_after(previous)
}

/// Where the stream stands after the packet: a gap starts the wait, and a key frame that the
/// decoder can take ends it.
pub open spec fn after_arrival(at: Continuity, packet: Arrival) -> Continuity {
    Continuity {
        waiting: (at.waiting || gap_before(at, packet)) && !(packet.is_idr && packet.decoder_ready),
        last: Some(packet.packet_index),
    }
}

/// Whether the packet goes to the decoder.
pub open spec fn submitted(at: Continuity, packet: Arrival) -> bool {
    packet.decoder_ready && !after_arrival(at, packet).waiting
}

/// Where the stream stands after a number of packets.
pub open spec fn after_arrivals(at: Continuity, packets: Seq<Arrival>) -> Continuity
    decreases packets.len(),
{
    if packets.len() == 0 {
        at
    } else {
        after_arrival(after_arrivals(at, packets.drop_last()), packets.last())
    }
}

/// While the receiver waits for a key frame nothing reaches the decoder: as long as no key frame
/// arrives that the decoder can take, no packet is submitted and the wait goes on.
pub proof fn law_waiting_submits_nothing(at: Continuity, packets: Seq<Arrival>)
    requires
        at.waiting,
        forall|i: int|
            0 <= i < packets.len() ==> !(#[trigger] packets[i].is_idr && packets[i].decoder_ready),
    ensures
        after_arrivals(at, packets).waiting,
        forall|i: int|
            0 <= i < packets.len() ==> !submitted(
                after_arrivals(at, packets.take(i)),
                #[trigger] packets[i],
            ),
    decreases packets.len(),
{
    if packets.len() > 0 {
        let earlier = packets.drop_last();
        assert(forall|i: int| 0 <= i < earlier.len() ==> earlier[i] == #[trigger] packets[i]);
        law_waiting_submits_nothing(at, earlier);
        assert forall|i: int| 0 <= i < packets.len() implies !submitted(
            after_arrivals(at, packets.take(i)),
            #[trigger] packets[i],
        ) by {
            if i < earlier.len() {
                assert(packets.take(i) =~= earlier.take(i));
                assert(earlier[i] == packets[i]);
            } else {
                assert(packets.take(i) =~= earlier);
            }
        }
    }
}

/// A key frame that the decoder can take always reaches it, and ends any wait.
pub proof fn law_key_frame_restarts_the_stream(at: Continuity, packet: Arrival)
    requires
        packet.is_idr,
        packet.decoder_ready,
    ensures
        submitted(at, packet),
        !after_arrival(at, packet).waiting,
{
}

/// Nothing is submitted before the decoder is configured.
pub proof fn law_unconfigured_decoder_gets_nothing(at: Continuity, packet: Arrival)
    requires
        !packet.decoder_ready,
    ensures
        !submitted(at, packet),
{
}

/// A stream without loss goes to the decoder whole: from a packet that was not waited for, each
/// packet that follows its predecessor is submitted.
pub proof fn law_unbroken_stream_is_submitted(at: Continuity, packets: Seq<Arrival>)
    requires
        !at.waiting,
        forall|i: int| 0 <= i < packets.len() ==> #[trigger] packets[i].decoder_ready,
        packets.len() > 0 ==> (at.last matches Some(previous) ==> packets[0].packet_index
            == index_after(previous)),
        forall|i: int, j: int|
            0 <= i && j == i + 1 && j < packets.len() ==> #[trigger] packets[j].packet_index
                == index_after(#[trigger] packets[i].packet_index),
    ensures
        !after_arrivals(at, packets).waiting,
        forall|i: int|
            0 <= i < packets.len() ==> submitted(
                after_arrivals(at, packets.take(i)),
                #[trigger] packets[i],
            ),
        packets.len() > 0 ==> after_arrivals(at, packets).last == Some(
            packets.last().packet_index,
        ),
    decreases packets.len(),
{
    if packets.len() > 0 {
        let earlier = packets.drop_last();
        assert(forall|i: int| 0 <= i < earlier.len() ==> earlier[i] == #[trigger] packets[i]);
        law_unbroken_stream_is_submitted(at, earlier);
        if earlier.len() > 0 {
            assert(packets[earlier.len() as int].packet_index == index_after(
                packets[earlier.len() - 1].packet_index,
            ));
        }
        assert forall|i: int| 0 <= i < packets.len() implies submitted(
            after_arrivals(at, packets.take(i)),
            #[trigger] packets[i],
        ) by {
            if i < earlier.len() {
                assert(packets.take(i) =~= earlier.take(i));
                assert(earlier[i] == packets[i]);
            } else {
                assert(packets.take(i) =~= earlier);
            }
        }
    }
}

/// Why a key frame is wanted after a packet, where one is: a packet was lost, one is waited for, or
/// the decoder is not configured.
pub open spec fn wanted_after_packet(at: Continuity, packet: Arrival) -> Option<IdrReason> {
    if gap_before(at, packet) {
        Some(IdrReason::VideoPacketGap)
    } else if after_arrival(at, packet).waiting {
        Some(IdrReason::WaitingForIdr)
    } else if !packet.decoder_ready {
        Some(IdrReason::DecoderConfigMissing)
    } else {
        None
    }
}

/// Why a key frame is wanted after the decoder answered, where one is: it refused a packet.
pub open spec fn wanted_after_answer(is_idr: bool, accepted: bool) -> Option<IdrReason> {
    if accepted {
        None
    } else if is_idr {
        Some(IdrReason::DecoderUnavailableForIdr)
    } else {
        Some(IdrReason::DecoderSaturation)
    }
}

/// What the server is asked for: a key frame that is wanted, unless one was asked for a moment ago.
pub open spec fn asked_for(
    wanted: Option<IdrReason>,
    last_request_at: Option<u64>,
    now_ns: u64,
) -> Option<IdrReason> {
    if idr_request_due(last_request_at, now_ns) {
        wanted
    } else {
        None
    }
}

/// What happens to the video stream.
pub enum StreamEvent {
    /// A packet was completed, and the session was asked to end or not.
    Packet { arrival: Arrival, shutdown: bool },
    /// The decoder took a packet, or refused it.
    Answer { accepted: bool },
    /// The decoder is restarted.
    Recovery,
}

/// Where the stream stands after something happened to it.
pub open spec fn after_event(at: Continuity, event: StreamEvent) -> Continuity {
    match event {
        StreamEvent::Packet { arrival, shutdown } => if shutdown {
            at
        } else {
            after_arrival(at, arrival)
        },
        StreamEvent::Answer { accepted } => if accepted {
            at
        } else {
            Continuity { waiting: true, last: None }
        },
        StreamEvent::Recovery => Continuity { waiting: true, last: None },
    }
}

/// Whether a packet goes to the decoder.
pub open spec fn pushes(at: Continuity, event: StreamEvent) -> bool {
    event matches StreamEvent::Packet { arrival, shutdown } && !shutdown && submitted(at, arrival)
}

/// Whether the stream can go on at a key frame only: a packet is missing before one that is none,
/// the decoder refused a packet, or it is restarted.
pub open spec fn disturbs(at: Continuity, event: StreamEvent) -> bool {
    match event {
        StreamEvent::Packet { arrival, shutdown } => !shutdown && !arrival.is_idr && (
        at.last matches Some(previous) && arrival.packet_index != index_after(previous)),
        StreamEvent::Answer { accepted } => !accepted,
        StreamEvent::Recovery => true,
    }
}

/// Where the stream stands after a number of things happened to it, from its start on.
pub open spec fn after_events(events: Seq<StreamEvent>) -> Continuity
    decreases events.len(),
{
    if events.len() == 0 {
        Continuity { waiting: true, last: None }
    } else {
        after_event(after_events(events.drop_last()), events.last())
    }
}

/// Whether the packet that `events[i]` completes goes to the decoder.
pub open spec fn pushed(events: Seq<StreamEvent>, i: int) -> bool {
    pushes(after_events(events.take(i)), events[i])
}

/// Whether the stream can go on at a key frame only from `events[i]` on.
pub open spec fn disturbed(events: Seq<StreamEvent>, i: int) -> bool {
    disturbs(after_events(events.take(i)), events[i])
}

/// From a wait on, the receiver waits until a packet goes to the decoder.
proof fn lemma_waits(events: Seq<StreamEvent>, from: int, to: int)
    requires
        0 <= from <= to <= events.len(),
        after_events(events.take(from)).waiting,
        forall|i: int| from <= i < to ==> !#[trigger] pushed(events, i),
    ensures
        after_events(events.take(to)).waiting,
    decreases to - from,
{
    if from < to {
        lemma_waits(events, from, to - 1);
        assert(events.take(to).drop_last() =~= events.take(to - 1));
        assert(!pushed(events, to - 1));
    }
}

/// The decoder is handed the stream at key frames only: the first packet that it gets is a key
/// frame, and so is the first after a packet was lost, after it refused a packet, and after it
/// was restarted. It gets none that was completed while it was not configured, or once the
/// session was asked to end.
pub proof fn law_decoding_starts_at_key_frames(events: Seq<StreamEvent>, at: int)
    requires
        0 <= at < events.len(),
        pushed(events, at),
    ensures
        events[at] matches StreamEvent::Packet { arrival, shutdown } && {
            &&& arrival.decoder_ready
            &&& !shutdown
            &&& (forall|i: int| 0 <= i < at ==> !#[trigger] pushed(events, i)) ==> arrival.is_idr
            &&& forall|from: int|
                0 <= from < at && #[trigger] disturbed(events, from) && (forall|i: int|
                    from < i < at ==> !#[trigger] pushed(events, i)) ==> arrival.is_idr
        },
{
    assert(events.take(0) =~= Seq::empty());
    if forall|i: int| 0 <= i < at ==> !#[trigger] pushed(events, i) {
        lemma_waits(events, 0, at);
    }
    assert forall|from: int|
        0 <= from < at && #[trigger] disturbed(events, from) && (forall|i: int|
            from < i < at ==> !#[trigger] pushed(events, i)) implies events[at]->arrival.is_idr by {
        assert(events.take(from + 1).drop_last() =~= events.take(from));
        assert(after_events(events.take(from + 1)).waiting);
        lemma_waits(events, from + 1, at);
    }
}

/// Once the session was asked to end, and stays so, the decoder gets nothing more.
pub proof fn law_nothing_is_decoded_after_the_end(events: Seq<StreamEvent>, end: int, at: int)
    requires
        0 <= end <= at < events.len(),
        events[end] matches StreamEvent::Packet { shutdown, .. } && shutdown,
        forall|i: int, j: int|
            0 <= i <= j < events.len() && (#[trigger] events[i] matches StreamEvent::Packet {
                shutdown: first,
                ..
            } && first) ==> (#[trigger] events[j] matches StreamEvent::Packet {
                shutdown: second,
                ..
            } ==> second),
    ensures
        !pushed(events, at),
{
}

/// Drops what is pending, and waits for the next key frame.
pub fn enter_waiting_for_idr(
    waiting_for_idr: &mut bool,
    video_assembler: &mut VideoPacketAssembler,
    last_completed_video_packet_index: &mut Option<u32>,
)
    ensures
        *final(waiting_for_idr),
        final(video_assembler).well_formed(),
        final(video_assembler).packets@ == Map::<u32, PartialPacket>::empty(),
        final(video_assembler).max_shard_data_size == old(video_assembler).max_shard_data_size,
        final(video_assembler).completed_count == old(video_assembler).completed_count,
        *final(last_completed_video_packet_index) is None,
{
    *waiting_for_idr = true;
    video_assembler.clear();
    *last_completed_video_packet_index = None;
}

/// Length of the buffer to receive datagrams into.
pub fn receive_buffer_len(packet_size: usize) -> (length: usize)
    ensures
        length == if packet_size < ALVR_STREAM_SHARD_PREFIX_SIZE {
            ALVR_STREAM_SHARD_PREFIX_SIZE
        } else {
            packet_size
        },
{
    if packet_size < ALVR_STREAM_SHARD_PREFIX_SIZE {
        ALVR_STREAM_SHARD_PREFIX_SIZE
    } else {
        packet_size
    }
}

/// The timestamp under which a packet goes to the decoder: the header's, capped at the end of
/// the decoder's range.
pub fn nal_timestamp_ns(header: &VideoPacketHeader) -> (timestamp_ns: u64)
    ensures
        timestamp_ns == if header.timestamp_ns > u64::MAX {
            u64::MAX as int
        } else {
            header.timestamp_ns as int
        },
{
    if header.timestamp_ns > u64::MAX as u128 {
        u64::MAX
    } else {
        header.timestamp_ns as u64
    }
}

/// Why the receiver stopped, in words.
pub fn exit_reason(shutdown_requested: bool) -> (reason: &'static str)
    ensures
        reason@ == if shutdown_requested {
            "session shutdown"@
        } else {
            "udp receiver exit"@
        },
{
    if shutdown_requested {
        "session shutdown"
    } else {
        "udp receiver exit"
    }
}

/// State of the receiver of one UDP stream.
#[derive(Debug)]
pub struct UdpStreamReceiver {
    pub video_assembler: VideoPacketAssembler,
    pub audio_assembler: RawPacketAssembler,
    pub waiting_for_idr: bool,
    pub last_completed_video_packet_index: Option<u32>,
    pub last_idr_request_at: Option<u64>,
    pub decoder_backpressure_drops: u64,
    pub diagnostics: AlvrUdpStreamDiagnostics,
}

impl UdpStreamReceiver {
    /// The assemblers are well formed, and packets and shards of each stream are counted within
    /// the total.
    pub open spec fn well_formed(self) -> bool {
        &&& self.video_assembler.well_formed()
        &&& self.audio_assembler.well_formed()
        &&& self.video_assembler.completed_count <= self.diagnostics.video_shards
        &&& self.audio_assembler.completed_count <= self.diagnostics.audio_shards
        &&& self.diagnostics.video_shards + self.diagnostics.audio_shards
            <= self.diagnostics.total_shards
    }

    /// Where the video stream stands.
    pub open spec fn continuity(self) -> Continuity {
        Continuity { waiting: self.waiting_for_idr, last: self.last_completed_video_packet_index }
    }

    /// A receiver of datagrams of up to `packet_size` bytes. It starts out waiting for a key
    /// frame.
    pub fn new(packet_size: usize) -> (receiver: Self)
        requires
            packet_size >= ALVR_STREAM_SHARD_PREFIX_SIZE,
        ensures
            receiver.well_formed(),
            receiver.video_assembler.packets@ == Map::<u32, PartialPacket>::empty(),
            receiver.audio_assembler.packets@ == Map::<u32, PartialPacket>::empty(),
            receiver.video_assembler.max_shard_data_size == packet_size
                - ALVR_STREAM_SHARD_PREFIX_SIZE,
            receiver.audio_assembler.max_shard_data_size == packet_size
                - ALVR_STREAM_SHARD_PREFIX_SIZE,
            receiver.video_assembler.completed_count == 0,
            receiver.audio_assembler.completed_count == 0,
            receiver.continuity() == after_events(Seq::empty()),
            receiver.last_idr_request_at is None,
            receiver.decoder_backpressure_drops == 0,
            receiver.diagnostics == AlvrUdpStreamDiagnostics::zero(),
    {
        UdpStreamReceiver {
            video_assembler: VideoPacketAssembler::new(packet_size - ALVR_STREAM_SHARD_PREFIX_SIZE),
            audio_assembler: RawPacketAssembler::new(packet_size - ALVR_STREAM_SHARD_PREFIX_SIZE),
            waiting_for_idr: true,
            last_completed_video_packet_index: None,
            last_idr_request_at: None,
            decoder_backpressure_drops: 0,
            diagnostics: AlvrUdpStreamDiagnostics::default(),
        }
    }

    /// Starts over at the next key frame because the decoder is being restarted.
    pub fn restart_for_recovery(&mut self)
        requires
            old(self).well_formed(),
        ensures
            final(self).well_formed(),
            final(self).continuity() == after_event(old(self).continuity(), StreamEvent::Recovery),
            final(self).video_assembler.packets@ == Map::<u32, PartialPacket>::empty(),
            final(self).video_assembler.completed_count
                == old(self).video_assembler.completed_count,
            final(self).video_assembler.max_shard_data_size
                == old(self).video_assembler.max_shard_data_size,
            final(self).audio_assembler == old(self).audio_assembler,
            final(self).last_idr_request_at == old(self).last_idr_request_at,
            final(self).decoder_backpressure_drops == old(self).decoder_backpressure_drops,
            final(self).diagnostics == (AlvrUdpStreamDiagnostics {
                decoder_idr_unavailable_resets: bumped(
                    old(self).diagnostics.decoder_idr_unavailable_resets,
                ),
                ..old(self).diagnostics
            }),
    {
        enter_waiting_for_idr(
            &mut self.waiting_for_idr,
            &mut self.video_assembler,
            &mut self.last_completed_video_packet_index,
        );
        self.diagnostics.decoder_idr_unavailable_resets = bump(
            self.diagnostics.decoder_idr_unavailable_resets,
        );
    }

    /// Counts a datagram, and files its shard under the stream it belongs to. Once the session is
    /// to end, shards are left alone.
    pub fn receive(&mut self, datagram: &[u8], shutdown_requested: bool, now_ns: u64) -> (reception:
        Reception)
        requires
            old(self).well_formed(),
            old(self).diagnostics.total_shards < u64::MAX,
        ensures
            final(self).well_formed(),
            final(self).continuity() == old(self).continuity(),
            final(self).last_idr_request_at == old(self).last_idr_request_at,
            final(self).decoder_backpressure_drops == old(self).decoder_backpressure_drops,
            final(self).video_assembler.max_shard_data_size
                == old(self).video_assembler.max_shard_data_size,
            final(self).audio_assembler.max_shard_data_size
                == old(self).audio_assembler.max_shard_data_size,
            datagram@.len() < ALVR_STREAM_SHARD_PREFIX_SIZE ==> {
                &&& reception is Short
                &&& final(self).video_assembler == old(self).video_assembler
                &&& final(self).audio_assembler == old(self).audio_assembler
                &&& final(self).diagnostics == (AlvrUdpStreamDiagnostics {
                    short_datagrams: bumped(old(self).diagnostics.short_datagrams),
                    ..old(self).diagnostics
                })
            },
            datagram@.len() >= ALVR_STREAM_SHARD_PREFIX_SIZE && shutdown_requested ==> {
                &&& reception is Ended
                &&& *final(self) == *old(self)
            },
            datagram@.len() >= ALVR_STREAM_SHARD_PREFIX_SIZE && !shutdown_requested ==> {
                let prefix = prefix_of(datagram@);
                let shard = ShardView {
                    packet_index: prefix.packet_index,
                    shards_count: prefix.shards_count,
                    shard_index: prefix.shard_index,
                    share: datagram@.skip(ALVR_STREAM_SHARD_PREFIX_SIZE as int),
                };
                let total_shards = (old(self).diagnostics.total_shards + 1) as u64;
                if prefix.stream_id == ALVR_VIDEO_STREAM_ID {
                    let pending = pending_of(old(self).video_assembler.packets@);
                    let size = old(self).video_assembler.max_shard_data_size as nat;
                    &&& final(self).audio_assembler == old(self).audio_assembler
                    &&& final(self).diagnostics == (AlvrUdpStreamDiagnostics {
                        total_shards,
                        video_shards: (old(self).diagnostics.video_shards + 1) as u64,
                        ..old(self).diagnostics
                    })
                    &&& pending_of(final(self).video_assembler.packets@) == after_shard(
                        pending,
                        size,
                        shard,
                        now_ns,
                    ).0
                    &&& reception matches Reception::Video { packet_index, packet: completed }
                        && packet_index == prefix.packet_index && match (
                        completed,
                        completed_video(pending, size, shard, now_ns),
                    ) {
                        (Some(packet), Some((header, payload))) => {
                            &&& packet.header == header
                            &&& packet.payload@ == payload
                            &&& packet.payload_len == payload.len()
                            &&& packet.completed_count
                                == old(self).video_assembler.completed_count + 1
                            &&& final(self).video_assembler.completed_count
                                == packet.completed_count
                        },
                        (None, None) => final(self).video_assembler.completed_count
                            == old(self).video_assembler.completed_count,
                        _ => false,
                    }
                } else if prefix.stream_id == ALVR_AUDIO_STREAM_ID {
                    let after = after_shard(
                        pending_of(old(self).audio_assembler.packets@),
                        old(self).audio_assembler.max_shard_data_size as nat,
                        shard,
                        now_ns,
                    );
                    &&& final(self).video_assembler == old(self).video_assembler
                    &&& final(self).diagnostics == (AlvrUdpStreamDiagnostics {
                        total_shards,
                        audio_shards: (old(self).diagnostics.audio_shards + 1) as u64,
                        ..old(self).diagnostics
                    })
                    &&& pending_of(final(self).audio_assembler.packets@) == after.0
                    &&& reception matches Reception::Audio { packet_index, payload: completed }
                        && packet_index == prefix.packet_index && match (completed, after.1) {
                        (Some(bytes), Some(expected)) => {
                            &&& bytes@ == expected
                            &&& final(self).audio_assembler.completed_count
                                == old(self).audio_assembler.completed_count + 1
                        },
                        (None, None) => final(self).audio_assembler.completed_count
                            == old(self).audio_assembler.completed_count,
                        _ => false,
                    }
                } else {
                    &&& reception is Other
                    &&& final(self).video_assembler == old(self).video_assembler
                    &&& final(self).audio_assembler == old(self).audio_assembler
                    &&& final(self).diagnostics == (AlvrUdpStreamDiagnostics {
                        total_shards,
                        ..old(self).diagnostics
                    })
                }
            },
    {
        let length: usize = datagram.len();
        if length < ALVR_STREAM_SHARD_PREFIX_SIZE {
            self.diagnostics.short_datagrams = bump(self.diagnostics.short_datagrams);
            return Reception::Short;
        }
        if shutdown_requested {
            return Reception::Ended;
        }
        let prefix = read_shard_prefix(datagram);
        let share = slice_subrange(datagram, ALVR_STREAM_SHARD_PREFIX_SIZE, length);
        assert(share@ =~= datagram@.skip(ALVR_STREAM_SHARD_PREFIX_SIZE as int));
        self.diagnostics.total_shards = self.diagnostics.total_shards + 1;
        if prefix.stream_id == ALVR_VIDEO_STREAM_ID {
            self.diagnostics.video_shards = self.diagnostics.video_shards + 1;
            let completed = self.video_assembler.push(
                prefix.packet_index,
                prefix.shards_count,
                prefix.shard_index,
                share,
                now_ns,
            );
            Reception::Video { packet_index: prefix.packet_index, packet: completed }
        } else if prefix.stream_id == ALVR_AUDIO_STREAM_ID {
            self.diagnostics.audio_shards = self.diagnostics.audio_shards + 1;
            let completed = self.audio_assembler.push(
                prefix.packet_index,
                prefix.shards_count,
                prefix.shard_index,
                share,
                now_ns,
            );
            Reception::Audio { packet_index: prefix.packet_index, payload: completed }
        } else {
            Reception::Other
        }
    }

    /// Decides whether a completed audio packet is played, and counts it: it is, unless the
    /// session is to end.
    pub fn audio_packet_accepted(&mut self, shutdown_requested: bool) -> (plays: bool)
        requires
            old(self).well_formed(),
        ensures
            final(self).well_formed(),
            final(self).continuity() == old(self).continuity(),
            final(self).video_assembler == old(self).video_assembler,
            final(self).audio_assembler == old(self).audio_assembler,
            final(self).last_idr_request_at == old(self).last_idr_request_at,
            final(self).decoder_backpressure_drops == old(self).decoder_backpressure_drops,
            plays == !shutdown_requested,
            final(self).diagnostics == if shutdown_requested {
                old(self).diagnostics
            } else {
                (AlvrUdpStreamDiagnostics {
                    completed_audio_packets: old(self).audio_assembler.completed_count,
                    ..old(self).diagnostics
                })
            },
    {
        if shutdown_requested {
            return false;
        }
        self.diagnostics.completed_audio_packets = self.audio_assembler.completed_count();
        true
    }

    /// Decides about a completed video packet: whether it goes to the decoder, and whether a key
    /// frame is asked for. Once the session is to end, it is left alone.
    pub fn video_packet_completed(
        &mut self,
        packet_index: u32,
        packet: &CompletedVideoPacket,
        shutdown_requested: bool,
        decoder_ready: bool,
        now_ns: u64,
    ) -> (decision: VideoDecision)
        requires
            old(self).well_formed(),
        ensures
            final(self).well_formed(),
            ({
                let at = old(self).continuity();
                let arrival = Arrival {
                    packet_index,
                    is_idr: packet.header.is_idr,
                    decoder_ready,
                };
                let event = StreamEvent::Packet { arrival, shutdown: shutdown_requested };
                &&& decision.ended == shutdown_requested
                &&& decision.submit == pushes(at, event)
                &&& final(self).continuity() == after_event(at, event)
                &&& decision.idr_request == if shutdown_requested {
                    None
                } else {
                    asked_for(
                        wanted_after_packet(at, arrival),
                        old(self).last_idr_request_at,
                        now_ns,
                    )
                }
            }),
            shutdown_requested ==> decision.idr_request is None && *final(self) == *old(self),
            !shutdown_requested ==> ({
                let at = old(self).continuity();
                let arrival = Arrival {
                    packet_index,
                    is_idr: packet.header.is_idr,
                    decoder_ready,
                };
                let gap = gap_before(at, arrival);
                let waiting = after_arrival(at, arrival).waiting;
                let wanted = waiting || !decoder_ready;
                let before = old(self).diagnostics;
                &&& decision.idr_request == if wanted && idr_request_due(
                    old(self).last_idr_request_at,
                    now_ns,
                ) {
                    Some(
                        if gap {
                            IdrReason::VideoPacketGap
                        } else if waiting {
                            IdrReason::WaitingForIdr
                        } else {
                            IdrReason::DecoderConfigMissing
                        },
                    )
                } else {
                    None
                }
                &&& final(self).last_idr_request_at == if wanted {
                    after_idr_request(old(self).last_idr_request_at, now_ns)
                } else {
                    old(self).last_idr_request_at
                }
                &&& final(self).decoder_backpressure_drops == if packet.header.is_idr
                    && decoder_ready {
                    0
                } else {
                    old(self).decoder_backpressure_drops
                }
                &&& final(self).diagnostics == (AlvrUdpStreamDiagnostics {
                    completed_video_packets: packet.completed_count,
                    packet_gap_resets: if gap {
                        bumped(before.packet_gap_resets)
                    } else {
                        before.packet_gap_resets
                    },
                    idr_requests: if wanted {
                        bumped(before.idr_requests)
                    } else {
                        before.idr_requests
                    },
                    waiting_for_idr_drops: if waiting {
                        bumped(before.waiting_for_idr_drops)
                    } else {
                        before.waiting_for_idr_drops
                    },
                    pre_decoder_config_drops: if !waiting && !decoder_ready {
                        bumped(before.pre_decoder_config_drops)
                    } else {
                        before.pre_decoder_config_drops
                    },
                    ..before
                })
                &&& gap ==> final(self).video_assembler.packets@ == Map::<
                    u32,
                    PartialPacket,
                >::empty()
                &&& !gap ==> final(self).video_assembler == old(self).video_assembler
            }),
            final(self).audio_assembler == old(self).audio_assembler,
            final(self).video_assembler.completed_count
                == old(self).video_assembler.completed_count,
            final(self).video_assembler.max_shard_data_size
                == old(self).video_assembler.max_shard_data_size,
    {
        if shutdown_requested {
            return VideoDecision { ended: true, submit: false, idr_request: None };
        }
        let is_idr: bool = packet.header.is_idr;
        let mut idr_request: Option<IdrReason> = None;
        let lost_one: bool = match self.last_completed_video_packet_index {
            Some(previous) => packet_index != previous.wrapping_add(1),
            None => false,
        };
        if !self.waiting_for_idr && lost_one && !is_idr {
            self.diagnostics.packet_gap_resets = bump(self.diagnostics.packet_gap_resets);
            enter_waiting_for_idr(
                &mut self.waiting_for_idr,
                &mut self.video_assembler,
                &mut self.last_completed_video_packet_index,
            );
            if request_alvr_idr_if_due(&mut self.last_idr_request_at, now_ns) {
                idr_request = Some(IdrReason::VideoPacketGap);
            }
        }
        self.last_completed_video_packet_index = Some(packet_index);
        self.diagnostics.completed_video_packets = packet.completed_count;
        if is_idr && decoder_ready {
            self.waiting_for_idr = false;
            self.decoder_backpressure_drops = 0;
        }
        if self.waiting_for_idr {
            self.diagnostics.note_idr_request();
            if request_alvr_idr_if_due(&mut self.last_idr_request_at, now_ns) {
                idr_request = Some(IdrReason::WaitingForIdr);
            }
            self.diagnostics.waiting_for_idr_drops = bump(self.diagnostics.waiting_for_idr_drops);
            return VideoDecision { ended: false, submit: false, idr_request };
        }
        if !decoder_ready {
            self.diagnostics.note_idr_request();
            if request_alvr_idr_if_due(&mut self.last_idr_request_at, now_ns) {
                idr_request = Some(IdrReason::DecoderConfigMissing);
            }
            self.diagnostics.pre_decoder_config_drops = bump(
                self.diagnostics.pre_decoder_config_drops,
            );
            return VideoDecision { ended: false, submit: false, idr_request };
        }
        VideoDecision { ended: false, submit: true, idr_request }
    }

    /// Follows up on a packet that was handed to the decoder: a key frame that it took completes
    /// a recovery, and a packet that it refused starts the wait for the next key frame.
    pub fn decoder_answered(&mut self, is_idr: bool, accepted: bool, now_ns: u64) -> (follow_up:
        DecoderFollowUp)
        requires
            old(self).well_formed(),
        ensures
            final(self).well_formed(),
            final(self).continuity() == after_event(
                old(self).continuity(),
                StreamEvent::Answer { accepted },
            ),
            follow_up.idr_request == asked_for(
                wanted_after_answer(is_idr, accepted),
                old(self).last_idr_request_at,
                now_ns,
            ),
            final(self).audio_assembler == old(self).audio_assembler,
            final(self).video_assembler.completed_count
                == old(self).video_assembler.completed_count,
            final(self).video_assembler.max_shard_data_size
                == old(self).video_assembler.max_shard_data_size,
            accepted ==> {
                &&& follow_up == (DecoderFollowUp {
                    recovery_completed: is_idr,
                    idr_request: None,
                })
                &&& final(self).video_assembler == old(self).video_assembler
                &&& final(self).last_idr_request_at == old(self).last_idr_request_at
                &&& final(self).decoder_backpressure_drops == 0
                &&& final(self).diagnostics == old(self).diagnostics
            },
            !accepted ==> {
                let before = old(self).diagnostics;
                &&& !follow_up.recovery_completed
                &&& follow_up.idr_request == if idr_request_due(
                    old(self).last_idr_request_at,
                    now_ns,
                ) {
                    Some(
                        if is_idr {
                            IdrReason::DecoderUnavailableForIdr
                        } else {
                            IdrReason::DecoderSaturation
                        },
                    )
                } else {
                    None
                }
                &&& final(self).video_assembler.packets@ == Map::<u32, PartialPacket>::empty()
                &&& final(self).last_idr_request_at == after_idr_request(
                    old(self).last_idr_request_at,
                    now_ns,
                )
                &&& final(self).decoder_backpressure_drops == bumped(
                    old(self).decoder_backpressure_drops,
                )
                &&& final(self).diagnostics == (AlvrUdpStreamDiagnostics {
                    decoder_idr_unavailable_resets: if is_idr {
                        bumped(before.decoder_idr_unavailable_resets)
                    } else {
                        before.decoder_idr_unavailable_resets
                    },
                    decoder_backpressure_resets: if is_idr {
                        before.decoder_backpressure_resets
                    } else {
                        bumped(before.decoder_backpressure_resets)
                    },
                    idr_requests: bumped(before.idr_requests),
                    ..before
                })
            },
    {
        if accepted {
            self.decoder_backpressure_drops = 0;
            return DecoderFollowUp { recovery_completed: is_idr, idr_request: None };
        }
        let reason = if is_idr {
            self.diagnostics.decoder_idr_unavailable_resets = bump(
                self.diagnostics.decoder_idr_unavailable_resets,
            );
            IdrReason::DecoderUnavailableForIdr
        } else {
            self.diagnostics.decoder_backpressure_resets = bump(
                self.diagnostics.decoder_backpressure_resets,
            );
            IdrReason::DecoderSaturation
        };
        enter_waiting_for_idr(
            &mut self.waiting_for_idr,
            &mut self.video_assembler,
            &mut self.last_completed_video_packet_index,
        );
        let idr_request: Option<IdrReason> = if request_alvr_idr_if_due(
            &mut self.last_idr_request_at,
            now_ns,
        ) {
            Some(reason)
        } else {
            None
        };
        self.diagnostics.note_idr_request();
        self.decoder_backpressure_drops = bump(self.decoder_backpressure_drops);
        DecoderFollowUp { recovery_completed: false, idr_request }
    }

    /// Decides what a failure to receive means. `transient` says that there was merely nothing to
    /// receive.
    pub fn receive_failed(&mut self, transient: bool, shutdown_requested: bool) -> (next:
        ReceiveFailure)
        requires
            old(self).well_formed(),
        ensures
            final(self).well_formed(),
            next == if transient && !shutdown_requested {
                ReceiveFailure::Pause
            } else {
                ReceiveFailure::Exit
            },
            final(self).continuity() == old(self).continuity(),
            final(self).video_assembler == old(self).video_assembler,
            final(self).audio_assembler == old(self).audio_assembler,
            final(self).last_idr_request_at == old(self).last_idr_request_at,
            final(self).decoder_backpressure_drops == old(self).decoder_backpressure_drops,
            final(self).diagnostics == if transient {
                old(self).diagnostics
            } else {
                (AlvrUdpStreamDiagnostics {
                    udp_terminal_errors: bumped(old(self).diagnostics.udp_terminal_errors),
                    ..old(self).diagnostics
                })
            },
    {
        if transient {
            if shutdown_requested {
                ReceiveFailure::Exit
            } else {
                ReceiveFailure::Pause
            }
        } else {
            self.diagnostics.udp_terminal_errors = bump(self.diagnostics.udp_terminal_errors);
            ReceiveFailure::Exit
        }
    }
}

// ---------------------------------------------------------------------------
// Laws
// ---------------------------------------------------------------------------

/// Packets are numbered one by one, and start over behind the last number: a packet follows
/// another exactly where its number is the next.
pub proof fn law_packets_are_numbered_one_by_one(previous: u32)
    ensures
        previous < u32::MAX ==> index_after(previous) == previous + 1,
        index_after(u32::MAX) == 0,
{
}

/// A lost packet stops the stream: where the decoder gets packets and one is missing before a
/// packet that is no key frame, nothing is decoded, a key frame is waited for, and the server is
/// asked for one unless it was asked within half a second. A packet that follows its predecessor,
/// and a key frame after any number of lost packets, stop nothing.
pub proof fn law_lost_packets_are_asked_for(
    previous: u32,
    packet: Arrival,
    last_request_at: Option<u64>,
    now_ns: u64,
)
    requires
        packet.decoder_ready,
        last_request_at matches Some(at_ns) ==> at_ns <= now_ns,
    ensures
        ({
            let at = Continuity { waiting: false, last: Some(previous) };
            let follows = packet.packet_index == if previous == u32::MAX {
                0
            } else {
                previous + 1
            };
            let asked = asked_for(wanted_after_packet(at, packet), last_request_at, now_ns);
            let recent = last_request_at matches Some(at_ns) && now_ns - at_ns < 500_000_000;
            &&& !follows && !packet.is_idr ==> {
                &&& !submitted(at, packet)
                &&& after_arrival(at, packet).waiting
                &&& !recent ==> asked == Some(IdrReason::VideoPacketGap)
                &&& recent ==> asked is None
            }
            &&& follows || packet.is_idr ==> {
                &&& submitted(at, packet)
                &&& !after_arrival(at, packet).waiting
                &&& asked is None
            }
            &&& after_arrival(at, packet).last == Some(packet.packet_index)
        }),
{
}

/// While a key frame is waited for, every packet that is none asks for one anew, as often as the
/// server may be asked. A decoder that is not configured asks for one too.
pub proof fn law_waiting_asks_for_key_frames(
    last: Option<u32>,
    packet: Arrival,
    now_ns: u64,
)
    ensures
        !packet.is_idr || !packet.decoder_ready ==> asked_for(
            wanted_after_packet(Continuity { waiting: true, last }, packet),
            None,
            now_ns,
        ) == Some(IdrReason::WaitingForIdr),
        packet.is_idr && packet.decoder_ready ==> wanted_after_packet(
            Continuity { waiting: true, last },
            packet,
        ) is None,
        packet.is_idr && !packet.decoder_ready ==> wanted_after_packet(
            Continuity { waiting: false, last },
            packet,
        ) == Some(IdrReason::DecoderConfigMissing),
{
}

/// A decoder that refuses a packet loses the stream until the next key frame, and the server is
/// asked for one; a decoder that takes a packet changes nothing.
pub proof fn law_refused_packets_stop_the_stream(at: Continuity, is_idr: bool, now_ns: u64)
    ensures
        after_event(at, StreamEvent::Answer { accepted: false }).waiting,
        after_event(at, StreamEvent::Answer { accepted: false }).last is None,
        after_event(at, StreamEvent::Answer { accepted: true }) == at,
        asked_for(wanted_after_answer(is_idr, false), None, now_ns) == Some(
            if is_idr {
                IdrReason::DecoderUnavailableForIdr
            } else {
                IdrReason::DecoderSaturation
            },
        ),
        asked_for(wanted_after_answer(is_idr, true), None, now_ns) is None,
{
}

/// Every reason has words of its own.
pub proof fn law_reasons_are_worded(reason: IdrReason)
    ensures
        reason.words() == match reason {
            IdrReason::VideoPacketGap => "video packet gap"@,
            IdrReason::WaitingForIdr => "corrupted video stream while waiting for IDR"@,
            IdrReason::DecoderConfigMissing => "decoder configuration not yet received"@,
            IdrReason::DecoderUnavailableForIdr => "decoder unavailable for IDR packet"@,
            IdrReason::DecoderSaturation => "decoder saturation"@,
        },
{
}

/// A packet goes to the decoder under its own timestamp, as far as the decoder counts.
pub proof fn law_packets_keep_their_timestamp(header: VideoPacketHeader, timestamp_ns: u64)
    requires
        call_ensures(nal_timestamp_ns, (&header,), timestamp_ns),
    ensures
        header.timestamp_ns <= u64::MAX ==> timestamp_ns == header.timestamp_ns,
        header.timestamp_ns > u64::MAX ==> timestamp_ns == u64::MAX,
{
}

/// The streams have numbers of their own: tracking, sound, video and statistics.
pub proof fn law_streams_have_their_own_numbers()
    ensures
        ALVR_TRACKING_STREAM_ID == 0,
        ALVR_AUDIO_STREAM_ID == 2,
        ALVR_VIDEO_STREAM_ID == 3,
        ALVR_STATISTICS_STREAM_ID == 4,
        crate::audio::AUDIO_STREAM_ID == ALVR_AUDIO_STREAM_ID,
{
}

/// A buffer has room for a whole datagram, and at least for a prefix.
pub proof fn law_buffers_hold_a_datagram(packet_size: usize, length: usize)
    requires
        call_ensures(receive_buffer_len, (packet_size,), length),
    ensures
        length >= packet_size,
        length >= ALVR_STREAM_SHARD_PREFIX_SIZE,
        length == packet_size || length == ALVR_STREAM_SHARD_PREFIX_SIZE,
{
}

/// Datagrams are sorted by the stream that they name: the third is video, the second is sound, and
/// what is neither is passed over. Each is counted once, for its stream, and leaves the other
/// stream as it is.
pub proof fn law_datagrams_are_sorted_by_stream(
    datagram: &[u8],
    shutdown: bool,
    now_ns: u64,
    reception: Reception,
)
    ensures
        forall|receiver: &mut UdpStreamReceiver|
            (*receiver).well_formed() && (*receiver).diagnostics.total_shards < u64::MAX
                && (*receiver).diagnostics.video_shards <= (*receiver).diagnostics.total_shards
                && (*receiver).diagnostics.audio_shards <= (*receiver).diagnostics.total_shards
                && #[trigger] call_ensures(
                UdpStreamReceiver::receive,
                (receiver, datagram, shutdown, now_ns),
                reception,
            ) ==> {
                let stream_id = prefix_of(datagram@).stream_id;
                let before = (*receiver).diagnostics;
                let after = final(receiver).diagnostics;
                &&& reception is Short <==> datagram@.len() < 14
                &&& reception is Ended <==> datagram@.len() >= 14 && shutdown
                &&& reception is Video <==> datagram@.len() >= 14 && !shutdown && stream_id == 3
                &&& reception is Audio <==> datagram@.len() >= 14 && !shutdown && stream_id == 2
                &&& reception is Video ==> after.video_shards == before.video_shards + 1
                    && after.audio_shards == before.audio_shards && after.total_shards
                    == before.total_shards + 1
                &&& reception is Audio ==> after.audio_shards == before.audio_shards + 1
                    && after.video_shards == before.video_shards && after.total_shards
                    == before.total_shards + 1
                &&& reception is Other ==> after.total_shards == before.total_shards + 1
                    && after.video_shards == before.video_shards && after.audio_shards
                    == before.audio_shards
                &&& reception is Short ==> after.total_shards == before.total_shards && (
                before.short_datagrams < u64::MAX ==> after.short_datagrams
                    == before.short_datagrams + 1)
                &&& reception is Ended ==> after == before
                &&& !(reception is Video) ==> final(receiver).video_assembler
                    == (*receiver).video_assembler
                &&& !(reception is Audio) ==> final(receiver).audio_assembler
                    == (*receiver).audio_assembler
                &&& reception is Video ==> reception->Video_packet_index == prefix_of(
                    datagram@,
                ).packet_index
                &&& reception is Audio ==> reception->Audio_packet_index == prefix_of(
                    datagram@,
                ).packet_index
                &&& final(receiver).waiting_for_idr == (*receiver).waiting_for_idr
            },
{
}

/// A socket that fails for a moment is tried again while the session runs. One that fails for good
/// ends the stream and is counted.
pub proof fn law_lasting_failures_end_the_stream(
    transient: bool,
    shutdown: bool,
    next: ReceiveFailure,
)
    ensures
        forall|receiver: &mut UdpStreamReceiver|
            (*receiver).well_formed() && #[trigger] call_ensures(
                UdpStreamReceiver::receive_failed,
                (receiver, transient, shutdown),
                next,
            ) ==> {
                &&& next == ReceiveFailure::Pause <==> transient && !shutdown
                &&& transient ==> final(receiver).diagnostics == (*receiver).diagnostics
                &&& !transient && (*receiver).diagnostics.udp_terminal_errors < u64::MAX ==> final(
                    receiver).diagnostics.udp_terminal_errors
                    == (*receiver).diagnostics.udp_terminal_errors + 1
                &&& final(receiver).waiting_for_idr == (*receiver).waiting_for_idr
                &&& final(receiver).video_assembler == (*receiver).video_assembler
            },
{
}

/// Sound is played as long as the session runs.
pub proof fn law_sound_is_played_until_the_end(shutdown: bool, plays: bool)
    ensures
        forall|receiver: &mut UdpStreamReceiver|
            (*receiver).well_formed() && #[trigger] call_ensures(
                UdpStreamReceiver::audio_packet_accepted,
                (receiver, shutdown),
                plays,
            ) ==> {
                &&& plays <==> !shutdown
                &&& plays ==> final(receiver).diagnostics.completed_audio_packets
                    == (*receiver).audio_assembler.completed_count
                &&& final(receiver).diagnostics.completed_video_packets
                    == (*receiver).diagnostics.completed_video_packets
                &&& !plays ==> final(receiver).diagnostics == (*receiver).diagnostics
            },
{
}

/// A stream starts with nothing received and waits for a key frame. Each shard brings what a
/// datagram holds behind its first 14 bytes.
pub proof fn law_streams_start_waiting(packet_size: usize, receiver: UdpStreamReceiver)
    requires
        packet_size >= 14,
        call_ensures(UdpStreamReceiver::new, (packet_size,), receiver),
    ensures
        receiver.waiting_for_idr,
        receiver.last_completed_video_packet_index is None,
        receiver.last_idr_request_at is None,
        receiver.video_assembler.max_shard_data_size == packet_size - 14,
        receiver.audio_assembler.max_shard_data_size == packet_size - 14,
        receiver.video_assembler.completed_count == 0 && receiver.audio_assembler.completed_count
            == 0,
        receiver.diagnostics.total_shards == 0 && receiver.diagnostics.idr_requests == 0,
        receiver.decoder_backpressure_drops == 0,
{
}

/// A stream that is restarted waits for a key frame again, forgets the video that it held, and
/// goes on with the sound.
pub proof fn law_restarted_streams_wait_again()
    ensures
        forall|receiver: &mut UdpStreamReceiver|
            (*receiver).well_formed() && #[trigger] call_ensures(
                UdpStreamReceiver::restart_for_recovery,
                (receiver,),
                (),
            ) ==> {
                &&& final(receiver).waiting_for_idr
                &&& final(receiver).last_completed_video_packet_index is None
                &&& final(receiver).video_assembler.packets@.dom() == Set::<u32>::empty()
                &&& final(receiver).audio_assembler == (*receiver).audio_assembler
                &&& (*receiver).diagnostics.decoder_idr_unavailable_resets < u64::MAX ==> final(
                    receiver).diagnostics.decoder_idr_unavailable_resets
                    == (*receiver).diagnostics.decoder_idr_unavailable_resets + 1
                &&& final(receiver).diagnostics.idr_requests
                    == (*receiver).diagnostics.idr_requests
            },
        forall|waiting: &mut bool, assembler: &mut VideoPacketAssembler, last: &mut Option<u32>|
            #[trigger] call_ensures(enter_waiting_for_idr, (waiting, assembler, last), ()) ==> {
                &&& *final(waiting)
                &&& *final(last) is None
                &&& final(assembler).packets@.dom() == Set::<u32>::empty()
                &&& final(assembler).completed_count == (*assembler).completed_count
            },
{
}

/// A key frame that the decoder took completes a recovery. A packet that it refused makes the
/// stream wait, and is counted by what it was.
pub proof fn law_answers_of_the_decoder_count(
    is_idr: bool,
    accepted: bool,
    now_ns: u64,
    follow_up: DecoderFollowUp,
)
    ensures
        forall|receiver: &mut UdpStreamReceiver|
            (*receiver).well_formed() && #[trigger] call_ensures(
                UdpStreamReceiver::decoder_answered,
                (receiver, is_idr, accepted, now_ns),
                follow_up,
            ) ==> {
                let before = (*receiver).diagnostics;
                let after = final(receiver).diagnostics;
                &&& follow_up.recovery_completed <==> accepted && is_idr
                &&& accepted ==> after == before && final(receiver).decoder_backpressure_drops == 0
                    && follow_up.idr_request is None
                &&& accepted ==> final(receiver).waiting_for_idr == (*receiver).waiting_for_idr
                &&& !accepted ==> final(receiver).waiting_for_idr
                &&& !accepted && before.idr_requests < u64::MAX ==> after.idr_requests
                    == before.idr_requests + 1
                &&& !accepted && is_idr ==> after.decoder_backpressure_resets
                    == before.decoder_backpressure_resets && (before.decoder_idr_unavailable_resets
                    < u64::MAX ==> after.decoder_idr_unavailable_resets
                    == before.decoder_idr_unavailable_resets + 1)
                &&& !accepted && !is_idr ==> after.decoder_idr_unavailable_resets
                    == before.decoder_idr_unavailable_resets && (before.decoder_backpressure_resets
                    < u64::MAX ==> after.decoder_backpressure_resets
                    == before.decoder_backpressure_resets + 1)
                &&& after.total_shards == before.total_shards && after.completed_video_packets
                    == before.completed_video_packets
            },
{
}

/// A packet is handed to the decoder unless it is dropped, and a packet that is dropped is counted
/// by the reason: the stream waits for a key frame, or the decoder is not set up.
pub proof fn law_dropped_packets_are_counted(
    packet_index: u32,
    packet: CompletedVideoPacket,
    shutdown: bool,
    decoder_ready: bool,
    now_ns: u64,
    decision: VideoDecision,
)
    ensures
        forall|receiver: &mut UdpStreamReceiver|
            (*receiver).well_formed() && #[trigger] call_ensures(
                UdpStreamReceiver::video_packet_completed,
                (receiver, packet_index, &packet, shutdown, decoder_ready, now_ns),
                decision,
            ) ==> {
                let before = (*receiver).diagnostics;
                let after = final(receiver).diagnostics;
                let waits = final(receiver).waiting_for_idr;
                &&& decision.ended == shutdown
                &&& shutdown ==> !decision.submit && after == before
                &&& !shutdown ==> {
                    &&& decision.submit <==> !waits && decoder_ready
                    &&& after.completed_video_packets == packet.completed_count
                    &&& waits && before.waiting_for_idr_drops < u64::MAX
                        ==> after.waiting_for_idr_drops == before.waiting_for_idr_drops + 1
                    &&& !waits ==> after.waiting_for_idr_drops == before.waiting_for_idr_drops
                    &&& !waits && !decoder_ready && before.pre_decoder_config_drops < u64::MAX
                        ==> after.pre_decoder_config_drops == before.pre_decoder_config_drops + 1
                    &&& waits || decoder_ready ==> after.pre_decoder_config_drops
                        == before.pre_decoder_config_drops
                    &&& decision.submit ==> after.idr_requests == before.idr_requests
                        && decision.idr_request is None
                    &&& !decision.submit && before.idr_requests < u64::MAX ==> after.idr_requests
                        == before.idr_requests + 1
                    &&& after.total_shards == before.total_shards && after.udp_terminal_errors
                        == before.udp_terminal_errors
                }
            },
{
}

/// A stream that ends says why: the session was shut down, or the receiver gave up.
pub proof fn law_ends_are_explained(shutdown: bool, reason: &'static str)
    requires
        call_ensures(exit_reason, (shutdown,), reason),
    ensures
        shutdown ==> reason@ == "session shutdown"@,
        !shutdown ==> reason@ == "udp receiver exit"@,
{
}

} // verus!
