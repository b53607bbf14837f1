//! Sound in both directions: the game's, which is played, and the microphone's, which is sent.

use std::collections::VecDeque;
use vstd::prelude::*;

use crate::packets::{
    byte_views, shard_count, shards_of, split_stream_payload, PacketError,
    ALVR_STREAM_SHARD_PREFIX_SIZE,
};
use crate::settings::AudioBufferingConfig;
use crate::text::{decimal, format_decimal};
use crate::wire::le16_at;

verus! {

/// Stream on which sound is sent.
pub const AUDIO_STREAM_ID: u16 = 2;

/// Lowest sample rate that is accepted.
pub const MIN_SAMPLE_RATE: u32 = 8_000;

/// Number of channels of the game's sound.
pub const GAME_AUDIO_CHANNELS: usize = 2;

/// Number of channels of the microphone.
pub const MICROPHONE_CHANNELS: i32 = 1;

/// What was negotiated and allowed.
#[derive(Clone, Copy, Debug, PartialEq, Eq, Structural)]
pub struct AudioState {
    pub negotiated_game_audio_sample_rate: u32,
    pub microphone_permission_granted: bool,
}

/// Nothing was negotiated, and nothing was allowed.
pub fn init() -> (state: AudioState)
    ensures
        state == (AudioState {
            negotiated_game_audio_sample_rate: 0,
            microphone_permission_granted: false,
        }),
{
    AudioState { negotiated_game_audio_sample_rate: 0, microphone_permission_granted: false }
}

/// Takes over the sample rate that was negotiated.
pub fn set_negotiated_game_audio_sample_rate(state: &mut AudioState, sample_rate: u32)
    ensures
        *final(state) == (AudioState {
            negotiated_game_audio_sample_rate: sample_rate,
            ..*old(state)
        }),
{
    state.negotiated_game_audio_sample_rate = sample_rate;
}

/// The sample rate that was negotiated.
pub fn negotiated_game_audio_sample_rate(state: &AudioState) -> (sample_rate: u32)
    ensures
        sample_rate == state.negotiated_game_audio_sample_rate,
{
    state.negotiated_game_audio_sample_rate
}

/// Takes over whether the microphone may be used.
pub fn set_microphone_permission_granted(state: &mut AudioState, granted: bool)
    ensures
        *final(state) == (AudioState { microphone_permission_granted: granted, ..*old(state) }),
{
    state.microphone_permission_granted = granted;
}

/// Why sound is not started.
#[derive(Clone, Copy, Debug, PartialEq, Eq, Structural)]
pub enum AudioError {
    InvalidGameAudioRate(u32),
    InvalidMicrophoneRate(u32),
}

impl AudioError {
    /// The error in words.
    pub open spec fn spec_text(self) -> Seq<char> {
        match self {
            AudioError::InvalidGameAudioRate(rate) => "invalid game audio sample rate: "@
                + decimal(rate as nat),
            AudioError::InvalidMicrophoneRate(rate) => "invalid microphone sample rate: "@
                + decimal(rate as nat),
        }
    }

    /// The error in words.
    pub fn text(self) -> (text: String)
        ensures
            text@ == self.spec_text(),
    {
        match self {
            AudioError::InvalidGameAudioRate(rate) => {
                let mut text: String = "invalid game audio sample rate: ".to_owned();
                let number: String = format_decimal(rate as u128);
                text.append(number.as_str());
                text
            },
            AudioError::InvalidMicrophoneRate(rate) => {
                let mut text: String = "invalid microphone sample rate: ".to_owned();
                let number: String = format_decimal(rate as u128);
                text.append(number.as_str());
                text
            },
        }
    }
}

// ---------------------------------------------------------------------------
// Samples
// ---------------------------------------------------------------------------

/// The sample at a position: two bytes, the low one first, as the machines that the client runs
/// on order them.
pub open spec fn sample_at(payload: Seq<u8>, index: int) -> i16 {
    let bits = le16_at(payload, 2 * index);
    if bits < 0x8000 {
        bits as i16
    } else {
        (bits - 0x10000) as i16
    }
}

/// The samples of a payload. A byte that is left over is no sample.
pub open spec fn samples_of(payload: Seq<u8>) -> Seq<i16> {
    Seq::new(payload.len() / 2, |i: int| sample_at(payload, i))
}

/// Reads the samples of a payload. A byte that is left over is ignored.
pub fn frames_to_samples(payload: &[u8]) -> (samples: Vec<i16>)
    ensures
        samples@ == samples_of(payload@),
{
    let count: usize = payload.len() / 2;
    let mut samples: Vec<i16> = Vec::with_capacity(count);
    let mut index: usize = 0;
    while index < count
        invariant
            count == payload@.len() / 2,
            payload.len() == payload@.len(),
            index <= count,
            samples@ =~= samples_of(payload@).take(index as int),
        decreases count - index,
    {
        let bits: u16 = crate::wire::read_u16_le(payload, 2 * index);
        let sample: i16 = if bits < 0x8000 {
            bits as i16
        } else {
            (bits as i32 - 0x10000) as i16
        };
        assert(sample == samples_of(payload@)[index as int]);
        samples.push(sample);
        index = index + 1;
    }
    assert(samples@ =~= samples_of(payload@));
    samples
}

/// The newest samples, at most `limit` of them.
pub open spec fn newest(samples: Seq<i16>, limit: int) -> Seq<i16> {
    if samples.len() > limit {
        samples.skip(samples.len() - limit)
    } else {
        samples
    }
}

/// Number of samples that may wait: twice the average store and one batch, for two channels.
pub open spec fn queue_limit(average_buffer_frames: int, batch_frames: int) -> int {
    (2 * average_buffer_frames + batch_frames) * 2
}

/// Appends the samples of a payload to those that wait to be played. Where too many wait, the
/// oldest are dropped.
pub fn push_game_audio_payload(
    queue: &mut VecDeque<i16>,
    payload: &[u8],
    average_buffer_frames_count: usize,
    batch_frames_count: usize,
)
    requires
        queue_limit(average_buffer_frames_count as int, batch_frames_count as int) <= usize::MAX,
    ensures
        final(queue)@ == newest(
            old(queue)@ + samples_of(payload@),
            queue_limit(average_buffer_frames_count as int, batch_frames_count as int),
        ),
{
    let samples: Vec<i16> = frames_to_samples(payload);
    let mut index: usize = 0;
    while index < samples.len()
        invariant
            index <= samples@.len(),
            queue@ =~= old(queue)@ + samples@.take(index as int),
        decreases samples@.len() - index,
    {
        queue.push_back(samples[index]);
        index = index + 1;
    }
    assert(samples@.take(samples@.len() as int) =~= samples@);
    let ghost all = old(queue)@ + samples@;
    assert(queue@ =~= all);
    let max_samples: usize = (2 * average_buffer_frames_count + batch_frames_count) * 2;
    assert(all.skip(0) =~= all);
    let ghost mut dropped: int = 0;
    while queue.len() > max_samples
        invariant
            0 <= dropped,
            dropped == 0 || all.len() - dropped >= max_samples,
            dropped <= all.len(),
            queue@ == all.skip(dropped),
        decreases queue@.len(),
    {
        let _ = queue.pop_front();
        proof {
            assert(queue@ =~= all.skip(dropped + 1));
            dropped = dropped + 1;
        }
    }
    assert(queue@ =~= newest(all, max_samples as int));
}

/// A batch of the wanted number of samples, and what waits after it.
pub open spec fn batch_of(queue: Seq<i16>, wanted: nat) -> (Seq<i16>, Seq<i16>) {
    if queue.len() >= wanted {
        (queue.take(wanted as int), queue.skip(wanted as int))
    } else {
        (Seq::new(wanted, |i: int| 0i16), queue)
    }
}

/// Takes the next batch of samples to play. Where too few wait, silence is played and they go on
/// waiting.
pub fn get_next_frame_batch(
    queue: &mut VecDeque<i16>,
    channels_count: usize,
    batch_frames_count: usize,
) -> (batch: Vec<i16>)
    requires
        channels_count > 0,
        batch_frames_count * channels_count <= usize::MAX,
    ensures
        ({
            let wanted = batch_frames_count * channels_count;
            if old(queue)@.len() >= wanted {
                &&& batch@ == old(queue)@.take(wanted)
                &&& final(queue)@ == old(queue)@.skip(wanted)
            } else {
                &&& batch@ == Seq::new(wanted as nat, |i: int| 0i16)
                &&& final(queue)@ == old(queue)@
            }
        }),
        (batch@, final(queue)@) == batch_of(
            old(queue)@,
            (batch_frames_count * channels_count) as nat,
        ),
{
    let wanted: usize = batch_frames_count * channels_count;
    assert((queue@.len() as int / channels_count as int >= batch_frames_count) == (queue@.len()
        >= wanted)) by {
        let length = queue@.len() as int;
        let channels = channels_count as int;
        let frames = batch_frames_count as int;
        assert((length / channels >= frames) == (length >= frames * channels)) by (nonlinear_arith)
            requires
                channels > 0,
                length >= 0,
                frames >= 0,
        ;
    }
    if queue.len() / channels_count >= batch_frames_count {
        let mut batch: Vec<i16> = Vec::with_capacity(wanted);
        let ghost all = queue@;
        assert(all.skip(0) =~= all);
        while batch.len() < wanted
            invariant
                batch@.len() <= wanted <= all.len(),
                batch@ =~= all.take(batch@.len() as int),
                queue@ == all.skip(batch@.len() as int),
            decreases wanted - batch@.len(),
        {
            let ghost taken = batch@.len() as int;
            match queue.pop_front() {
                Some(sample) => {
                    batch.push(sample);
                },
                None => {},
            }
            assert(queue@ =~= all.skip(taken + 1));
        }
        batch
    } else {
        let batch: Vec<i16> = vec![0i16; wanted];
        assert(batch@ =~= Seq::new(wanted as nat, |i: int| 0i16));
        batch
    }
}

// ---------------------------------------------------------------------------
// The game's sound
// ---------------------------------------------------------------------------

/// Number of frames in a time: at least one.
pub open spec fn frames_in(sample_rate: u32, time_ms: u64) -> int {
    let frames = sample_rate * time_ms / 1000;
    if frames < 1 {
        1
    } else {
        frames
    }
}

/// Both times can be counted in frames.
pub open spec fn countable(sample_rate: u32, buffering: AudioBufferingConfig) -> bool {
    &&& sample_rate * buffering.batch_ms <= usize::MAX
    &&& sample_rate * buffering.average_buffering_ms <= usize::MAX
}

/// The game's sound on its way to the ears.
#[derive(Debug)]
pub struct GameAudioOutput {
    pub sample_queue: VecDeque<i16>,
    pub sample_rate: u32,
    pub batch_frames_count: usize,
    pub average_buffer_frames_count: usize,
    pub stop_requested: bool,
}

fn frame_count(sample_rate: u32, time_ms: u64) -> (frames: usize)
    requires
        sample_rate * time_ms <= usize::MAX,
    ensures
        frames == frames_in(sample_rate, time_ms),
        frames <= usize::MAX / 1000 + 1,
{
    let product: u128 = sample_rate as u128 * time_ms as u128;
    let frames: usize = (product / 1000) as usize;
    if frames < 1 {
        1
    } else {
        frames
    }
}

impl GameAudioOutput {
    /// The limit of the queue can be counted.
    pub open spec fn well_formed(&self) -> bool {
        queue_limit(self.average_buffer_frames_count as int, self.batch_frames_count as int)
            <= usize::MAX
    }

    /// The samples that wait to be played.
    pub fn sample_queue(&self) -> (samples: &VecDeque<i16>)
        ensures
            *samples == self.sample_queue,
    {
        &self.sample_queue
    }

    /// Takes in a payload.
    pub fn push_payload(&mut self, payload: &[u8])
        requires
            old(self).well_formed(),
        ensures
            final(self).well_formed(),
            final(self).sample_queue@ == newest(
                old(self).sample_queue@ + samples_of(payload@),
                queue_limit(
                    old(self).average_buffer_frames_count as int,
                    old(self).batch_frames_count as int,
                ),
            ),
            final(self).sample_rate == old(self).sample_rate,
            final(self).batch_frames_count == old(self).batch_frames_count,
            final(self).average_buffer_frames_count == old(self).average_buffer_frames_count,
            final(self).stop_requested == old(self).stop_requested,
    {
        push_game_audio_payload(
            &mut self.sample_queue,
            payload,
            self.average_buffer_frames_count,
            self.batch_frames_count,
        );
    }

    /// Asks for the sound to end.
    pub fn shutdown(&mut self)
        ensures
            *final(self) == (GameAudioOutput { stop_requested: true, ..*old(self) }),
    {
        self.stop_requested = true;
    }
}

/// Sets up the game's sound. Fails where the sample rate is too low.
pub fn start_game_audio_output(
    sample_rate: u32,
    buffering: AudioBufferingConfig,
) -> (output: Result<GameAudioOutput, AudioError>)
    requires
        sample_rate >= MIN_SAMPLE_RATE ==> countable(sample_rate, buffering),
    ensures
        match output {
            Ok(output) => {
                &&& sample_rate >= MIN_SAMPLE_RATE
                &&& output.well_formed()
                &&& output.sample_queue@.len() == 0
                &&& output.sample_rate == sample_rate
                &&& output.batch_frames_count == frames_in(sample_rate, buffering.batch_ms)
                &&& output.average_buffer_frames_count == frames_in(
                    sample_rate,
                    buffering.average_buffering_ms,
                )
                &&& !output.stop_requested
            },
            Err(error) => {
                &&& sample_rate < MIN_SAMPLE_RATE
                &&& error == AudioError::InvalidGameAudioRate(sample_rate)
            },
        },
{
    if sample_rate < MIN_SAMPLE_RATE {
        return Err(AudioError::InvalidGameAudioRate(sample_rate));
    }
    let batch_frames_count: usize = frame_count(sample_rate, buffering.batch_ms);
    let average_buffer_frames_count: usize = frame_count(
        sample_rate,
        buffering.average_buffering_ms,
    );
    Ok(
        GameAudioOutput {
            sample_queue: VecDeque::new(),
            sample_rate,
            batch_frames_count,
            average_buffer_frames_count,
            stop_requested: false,
        },
    )
}

/// What the thread that plays the sound does before it opens the device.
#[derive(Clone, Copy, Debug, PartialEq, Eq, Structural)]
pub enum OutputGate {
    /// Wait.
    Wait,
    /// End.
    End,
    /// Open the device.
    Open,
}

/// The device is opened once permissions are settled, unless the sound is to end.
pub fn game_audio_gate(permission_granted: bool, stop_requested: bool) -> (gate: OutputGate)
    ensures
        gate == if stop_requested {
            OutputGate::End
        } else if permission_granted {
            OutputGate::Open
        } else {
            OutputGate::Wait
        },
{
    if stop_requested {
        OutputGate::End
    } else if permission_granted {
        OutputGate::Open
    } else {
        OutputGate::Wait
    }
}

/// What a device was opened with.
#[derive(Clone, Copy, Debug, PartialEq, Eq, Structural)]
pub struct OpenedStream {
    pub channel_count: i32,
    pub sample_rate: i32,
    pub expected_format: bool,
    pub frames_per_callback: Option<i32>,
}

/// Whether the device plays what it is given: two channels of floats at the negotiated rate, a
/// batch at a time. The device counts in 32-bit numbers with a sign, and is asked in them.
pub fn accepts_output_stream(
    stream: &OpenedStream,
    sample_rate: u32,
    batch_frames_count: usize,
) -> (accepted: bool)
    ensures
        accepted == {
            &&& stream.channel_count == GAME_AUDIO_CHANNELS
            &&& stream.sample_rate == sample_rate as i32
            &&& stream.expected_format
            &&& stream.frames_per_callback == Some(batch_frames_count as i32)
        },
{
    let batch: bool = match stream.frames_per_callback {
        Some(frames) => frames == batch_frames_count as i32,
        None => false,
    };
    stream.channel_count == 2 && stream.sample_rate == sample_rate as i32 && stream.expected_format
        && batch
}

// ---------------------------------------------------------------------------
// The microphone
// ---------------------------------------------------------------------------

/// How the microphone's sound is prepared.
#[derive(Clone, Copy, Debug, PartialEq, Eq, Structural)]
pub enum InputPreset {
    Unprocessed,
    Generic,
    VoiceCommunication,
}

/// The preset to try after one that is not available: first the sound as it is, then the generic
/// one, then the one for speech.
pub fn next_input_preset(unavailable: Option<InputPreset>) -> (preset: Option<InputPreset>)
    ensures
        preset == match unavailable {
            None => Some(InputPreset::Unprocessed),
            Some(InputPreset::Unprocessed) => Some(InputPreset::Generic),
            Some(InputPreset::Generic) => Some(InputPreset::VoiceCommunication),
            Some(InputPreset::VoiceCommunication) => None,
        },
{
    match unavailable {
        None => Some(InputPreset::Unprocessed),
        Some(InputPreset::Unprocessed) => Some(InputPreset::Generic),
        Some(InputPreset::Generic) => Some(InputPreset::VoiceCommunication),
        Some(InputPreset::VoiceCommunication) => None,
    }
}

/// Whether the device gives what is sent: one channel of 16-bit samples at the microphone's rate.
pub fn accepts_input_stream(stream: &OpenedStream, sample_rate: u32) -> (accepted: bool)
    ensures
        accepted == {
            &&& stream.channel_count == MICROPHONE_CHANNELS
            &&& stream.sample_rate == sample_rate as i32
            &&& stream.expected_format
        },
{
    stream.channel_count == MICROPHONE_CHANNELS && stream.sample_rate == sample_rate as i32
        && stream.expected_format
}

/// The microphone's sound on its way to the server.
#[derive(Clone, Copy, Debug, PartialEq, Eq, Structural)]
pub struct MicrophoneCapture {
    pub sample_rate: u32,
    pub max_packet_size: usize,
    pub packet_index: u32,
    pub captured_packets: u64,
    pub stop_requested: bool,
}

/// What came from the device.
#[derive(Clone, Copy, Debug, PartialEq, Eq, Structural)]
pub enum CaptureEvent {
    /// Samples.
    Samples,
    /// Nothing yet.
    Nothing,
    /// The device is gone.
    Gone,
}

/// What the thread that sends the sound does.
#[derive(Clone, Copy, Debug, PartialEq, Eq, Structural)]
pub enum CaptureStep {
    /// Send the samples.
    Send,
    /// Wait for samples.
    Wait,
    /// Stop the device and end.
    End,
}

/// Sets up the microphone. Fails where the sample rate is too low.
pub fn start_microphone_capture(sample_rate: u32, max_packet_size: usize) -> (capture: Result<
    MicrophoneCapture,
    AudioError,
>)
    ensures
        match capture {
            Ok(capture) => {
                &&& sample_rate >= MIN_SAMPLE_RATE
                &&& capture == (MicrophoneCapture {
                    sample_rate,
                    max_packet_size,
                    packet_index: 0,
                    captured_packets: 0,
                    stop_requested: false,
                })
            },
            Err(error) => {
                &&& sample_rate < MIN_SAMPLE_RATE
                &&& error == AudioError::InvalidMicrophoneRate(sample_rate)
            },
        },
{
    if sample_rate < MIN_SAMPLE_RATE {
        return Err(AudioError::InvalidMicrophoneRate(sample_rate));
    }
    Ok(
        MicrophoneCapture {
            sample_rate,
            max_packet_size,
            packet_index: 0,
            captured_packets: 0,
            stop_requested: false,
        },
    )
}

impl MicrophoneCapture {
    /// Asks for the sound to end.
    pub fn shutdown(&mut self)
        ensures
            *final(self) == (MicrophoneCapture { stop_requested: true, ..*old(self) }),
    {
        self.stop_requested = true;
    }

    /// Whether to wait for the device once more.
    pub fn listens(&self) -> (listens: bool)
        ensures
            listens == !self.stop_requested,
    {
        !self.stop_requested
    }

    /// Decides what to do about what came from the device. Samples that came are sent, even where
    /// the sound was asked to end meanwhile.
    pub fn step(&self, event: CaptureEvent) -> (step: CaptureStep)
        ensures
            step == match event {
                CaptureEvent::Samples => CaptureStep::Send,
                CaptureEvent::Nothing => if self.stop_requested {
                    CaptureStep::End
                } else {
                    CaptureStep::Wait
                },
                CaptureEvent::Gone => CaptureStep::End,
            },
    {
        match event {
            CaptureEvent::Samples => CaptureStep::Send,
            CaptureEvent::Nothing => if self.stop_requested {
                CaptureStep::End
            } else {
                CaptureStep::Wait
            },
            CaptureEvent::Gone => CaptureStep::End,
        }
    }

    /// The datagrams of the next packet.
    pub fn next_packet(&self, samples: &[u8]) -> (datagrams: Result<Vec<Vec<u8>>, PacketError>)
        ensures
            match datagrams {
                Ok(datagrams) => {
                    &&& self.max_packet_size > ALVR_STREAM_SHARD_PREFIX_SIZE
                    &&& byte_views(datagrams@) == shards_of(
                        AUDIO_STREAM_ID,
                        self.packet_index,
                        samples@,
                        (self.max_packet_size - ALVR_STREAM_SHARD_PREFIX_SIZE) as nat,
                    )
                },
                Err(PacketError::NoRoomForData) => self.max_packet_size
                    <= ALVR_STREAM_SHARD_PREFIX_SIZE,
                Err(PacketError::TooManyShards) => {
                    &&& self.max_packet_size > ALVR_STREAM_SHARD_PREFIX_SIZE
                    &&& shard_count(
                        samples@.len(),
                        (self.max_packet_size - ALVR_STREAM_SHARD_PREFIX_SIZE) as nat,
                    ) > u32::MAX
                },
                Err(_) => false,
            },
    {
        split_stream_payload(AUDIO_STREAM_ID, self.packet_index, samples, self.max_packet_size)
    }

    /// Notes that a packet was sent. Tells whether it is worth a line in the log: each of the
    /// first five, then one in fifty, and every loud one.
    pub fn packet_sent(&mut self, loud: bool) -> (logs: bool)
        ensures
            *final(self) == (MicrophoneCapture {
                packet_index: old(self).packet_index.wrapping_add(1),
                captured_packets: old(self).captured_packets.wrapping_add(1),
                ..*old(self)
            }),
            logs == (final(self).captured_packets <= 5 || final(self).captured_packets % 50 == 0
                || loud),
    {
        self.captured_packets = self.captured_packets.wrapping_add(1);
        self.packet_index = self.packet_index.wrapping_add(1);
        self.captured_packets <= 5 || self.captured_packets % 50 == 0 || loud
    }
}

// ---------------------------------------------------------------------------
// Laws
// ---------------------------------------------------------------------------

/// However much arrives, no more than the limit waits, and what waits is the newest that arrived.
pub proof fn law_waiting_sound_is_bounded(queue: Seq<i16>, payload: Seq<u8>, limit: int)
    requires
        0 <= limit,
    ensures
        newest(queue + samples_of(payload), limit).len() <= limit,
        samples_of(payload).len() <= limit ==> {
            let after = newest(queue + samples_of(payload), limit);
            &&& after.len() >= samples_of(payload).len()
            &&& after.skip(after.len() - samples_of(payload).len()) == samples_of(payload)
        },
{
    let all = queue + samples_of(payload);
    let after = newest(all, limit);
    if samples_of(payload).len() <= limit {
        assert(after.skip(after.len() - samples_of(payload).len()) =~= samples_of(payload));
    }
}

/// Sound is played in the order in which it arrived: two batches in a row are the first samples
/// that wait, without a gap.
pub proof fn law_batches_follow_each_other(queue: Seq<i16>, first: int, second: int)
    requires
        0 <= first,
        0 <= second,
        first + second <= queue.len(),
    ensures
        queue.take(first) + queue.skip(first).take(second) == queue.take(first + second),
{
    assert(queue.take(first) + queue.skip(first).take(second) =~= queue.take(first + second));
}

/// A batch has the wanted length, whatever waits. No sample is lost or played twice: where enough
/// wait, the batch and what is left make up what waited; where too few do, silence is played and
/// all of them go on waiting.
pub proof fn law_batches_lose_nothing(queue: Seq<i16>, wanted: nat)
    ensures
        ({
            let (batch, rest) = batch_of(queue, wanted);
            &&& batch.len() == wanted
            &&& queue.len() >= wanted ==> batch + rest == queue
            &&& queue.len() < wanted ==> rest == queue && forall|i: int|
                0 <= i < wanted ==> #[trigger] batch[i] == 0
        }),
{
    let (batch, rest) = batch_of(queue, wanted);
    if queue.len() >= wanted {
        assert(batch + rest =~= queue);
    }
}

/// Samples keep their order and are signed: sample `i` is the pair of bytes `2 * i` and
/// `2 * i + 1`, the low byte first, less 65536 where that is beyond the positive numbers.
pub proof fn law_samples_are_signed_pairs(payload: Seq<u8>, index: int)
    requires
        0 <= index < payload.len() / 2,
    ensures
        samples_of(payload).len() == payload.len() / 2,
        ({
            let bits = payload[2 * index] + 256 * payload[2 * index + 1];
            samples_of(payload)[index] == if bits < 32768 {
                bits
            } else {
                bits - 65536
            }
        }),
{
}

/// What arrives in two payloads is what arrives in one, where the first holds whole samples.
pub proof fn law_payloads_follow_each_other(first: Seq<u8>, second: Seq<u8>)
    requires
        first.len() % 2 == 0,
    ensures
        samples_of(first + second) == samples_of(first) + samples_of(second),
{
    let all = samples_of(first + second);
    let parts = samples_of(first) + samples_of(second);
    let count = (first.len() / 2) as int;
    assert(all.len() == parts.len());
    assert forall|i: int| 0 <= i < all.len() implies #[trigger] all[i] == parts[i] by {
        if i < count {
            assert((first + second)[2 * i] == first[2 * i]);
            assert((first + second)[2 * i + 1] == first[2 * i + 1]);
        } else {
            assert((first + second)[2 * i] == second[2 * (i - count)]);
            assert((first + second)[2 * i + 1] == second[2 * (i - count) + 1]);
        }
    }
    assert(all =~= parts);
}

/// The oldest samples make room: what waits after a payload is the end of what would wait without
/// a limit, and all of it below the limit.
pub proof fn law_oldest_samples_make_room(samples: Seq<i16>, limit: int)
    requires
        0 <= limit,
    ensures
        samples.len() <= limit ==> newest(samples, limit) == samples,
        samples.len() > limit ==> newest(samples, limit).len() == limit && samples.take(
            samples.len() - limit,
        ) + newest(samples, limit) == samples,
{
    if samples.len() > limit {
        assert(samples.take(samples.len() - limit) + newest(samples, limit) =~= samples);
    }
}

/// The number of frames in a time is the whole number of frames that fit into it, and never none.
/// Twice the average store and one batch may wait, in two channels.
pub proof fn law_frames_fit_into_their_time(sample_rate: u32, time_ms: u64, average: int, batch: int)
    ensures
        frames_in(sample_rate, time_ms) >= 1,
        sample_rate * time_ms >= 1000 ==> {
            &&& frames_in(sample_rate, time_ms) * 1000 <= sample_rate * time_ms
            &&& (frames_in(sample_rate, time_ms) + 1) * 1000 > sample_rate * time_ms
        },
        sample_rate * time_ms < 1000 ==> frames_in(sample_rate, time_ms) == 1,
        queue_limit(average, batch) == 4 * average + 2 * batch,
{
    assert(0 <= sample_rate * time_ms) by (nonlinear_arith);
}

/// The sound of the game is set up exactly at rates of eight thousand and more, with the store and
/// the batch that its settings say, each in frames of its own time.
pub proof fn law_game_audio_follows_its_settings(
    sample_rate: u32,
    buffering: AudioBufferingConfig,
    output: Result<GameAudioOutput, AudioError>,
)
    requires
        call_ensures(start_game_audio_output, (sample_rate, buffering), output),
    ensures
        output is Ok <==> sample_rate >= 8000,
        output matches Ok(started) ==> {
            &&& started.sample_rate == sample_rate
            &&& started.sample_queue@.len() == 0
            &&& started.batch_frames_count == frames_in(sample_rate, buffering.batch_ms)
            &&& started.average_buffer_frames_count == frames_in(
                sample_rate,
                buffering.average_buffering_ms,
            )
            &&& !started.stop_requested
        },
        output matches Err(error) ==> error.spec_text() == "invalid game audio sample rate: "@
            + decimal(sample_rate as nat),
{
}

/// The microphone is set up exactly at rates of eight thousand and more, and starts with the first
/// packet.
pub proof fn law_microphone_starts_at_the_first_packet(
    sample_rate: u32,
    max_packet_size: usize,
    capture: Result<MicrophoneCapture, AudioError>,
)
    requires
        call_ensures(start_microphone_capture, (sample_rate, max_packet_size), capture),
    ensures
        capture is Ok <==> sample_rate >= 8000,
        capture matches Ok(started) ==> {
            &&& started.sample_rate == sample_rate
            &&& started.max_packet_size == max_packet_size
            &&& started.packet_index == 0 && started.captured_packets == 0
            &&& !started.stop_requested
        },
        capture matches Err(error) ==> error.spec_text() == "invalid microphone sample rate: "@
            + decimal(sample_rate as nat),
{
}

/// Nothing is played without permission, and nothing after the sound was asked to end.
pub proof fn law_devices_are_opened_with_permission(
    permission_granted: bool,
    stop_requested: bool,
    gate: OutputGate,
)
    requires
        call_ensures(game_audio_gate, (permission_granted, stop_requested), gate),
    ensures
        gate == OutputGate::Open <==> permission_granted && !stop_requested,
        gate == OutputGate::End <==> stop_requested,
        gate == OutputGate::Wait <==> !permission_granted && !stop_requested,
{
}

/// Samples that came from the microphone are always sent. It ends once it is gone, or once nothing
/// more comes after it was asked to.
pub proof fn law_captured_samples_are_sent(
    capture: MicrophoneCapture,
    event: CaptureEvent,
    step: CaptureStep,
)
    requires
        call_ensures(MicrophoneCapture::step, (&capture, event), step),
    ensures
        step == CaptureStep::Send <==> event == CaptureEvent::Samples,
        step == CaptureStep::End <==> event == CaptureEvent::Gone || (event
            == CaptureEvent::Nothing && capture.stop_requested),
{
}

/// The sound as it is comes first, then the generic one, then the one for speech, and then there
/// is nothing left to try.
pub proof fn law_presets_are_tried_in_order(
    unavailable: Option<InputPreset>,
    preset: Option<InputPreset>,
)
    requires
        call_ensures(next_input_preset, (unavailable,), preset),
    ensures
        unavailable is None <==> preset == Some(InputPreset::Unprocessed),
        unavailable == Some(InputPreset::Unprocessed) <==> preset == Some(InputPreset::Generic),
        unavailable == Some(InputPreset::Generic) <==> preset == Some(
            InputPreset::VoiceCommunication,
        ),
        unavailable == Some(InputPreset::VoiceCommunication) <==> preset is None,
{
}

/// The game is played on two channels and the microphone is one channel, each at its own rate and
/// in the format that was asked for; the game is played a batch at a time.
pub proof fn law_devices_open_as_asked(
    stream: OpenedStream,
    sample_rate: u32,
    batch: usize,
    plays: bool,
    listens: bool,
)
    requires
        call_ensures(accepts_output_stream, (&stream, sample_rate, batch), plays),
        call_ensures(accepts_input_stream, (&stream, sample_rate), listens),
        sample_rate < 0x8000_0000,
        batch < 0x8000_0000,
    ensures
        plays <==> stream.channel_count == 2 && stream.sample_rate == sample_rate
            && stream.expected_format && stream.frames_per_callback is Some
            && stream.frames_per_callback->0 == batch,
        listens <==> stream.channel_count == 1 && stream.sample_rate == sample_rate
            && stream.expected_format,
{
}

/// What was negotiated and what was permitted are kept apart, and nothing is at the start.
pub proof fn law_sound_settings_are_kept_apart(sample_rate: u32, granted: bool, fresh: AudioState)
    requires
        call_ensures(init, (), fresh),
    ensures
        fresh.negotiated_game_audio_sample_rate == 0 && !fresh.microphone_permission_granted,
        forall|state: &mut AudioState| #[trigger]
            call_ensures(set_negotiated_game_audio_sample_rate, (state, sample_rate), ()) ==> {
                &&& final(state).negotiated_game_audio_sample_rate == sample_rate
                &&& final(state).microphone_permission_granted
                    == (*state).microphone_permission_granted
            },
        forall|state: &mut AudioState| #[trigger]
            call_ensures(set_microphone_permission_granted, (state, granted), ()) ==> {
                &&& final(state).microphone_permission_granted == granted
                &&& final(state).negotiated_game_audio_sample_rate
                    == (*state).negotiated_game_audio_sample_rate
            },
{
}

/// Sound comes out as it went in: a payload that fits into the store is played sample by sample,
/// the low byte first.
pub proof fn law_sound_is_played_as_it_came(
    payload: &[u8],
    average: usize,
    batch: usize,
    channels: usize,
    played: Vec<i16>,
)
    requires
        channels > 0,
        batch * channels <= usize::MAX,
        queue_limit(average as int, batch as int) <= usize::MAX,
        samples_of(payload@).len() == batch * channels,
        batch * channels <= queue_limit(average as int, batch as int),
    ensures
        forall|queue: &mut VecDeque<i16>, later: &mut VecDeque<i16>|
            (*queue)@.len() == 0 && #[trigger] call_ensures(
                push_game_audio_payload,
                (queue, payload, average, batch),
                (),
            ) && (*later)@ == final(queue)@ && #[trigger] call_ensures(
                get_next_frame_batch,
                (later, channels, batch),
                played,
            ) ==> played@ == samples_of(payload@) && final(later)@.len() == 0,
{
    assert forall|queue: &mut VecDeque<i16>, later: &mut VecDeque<i16>|
        (*queue)@.len() == 0 && #[trigger] call_ensures(
            push_game_audio_payload,
            (queue, payload, average, batch),
            (),
        ) && (*later)@ == final(queue)@ && #[trigger] call_ensures(
            get_next_frame_batch,
            (later, channels, batch),
            played,
        ) implies played@ == samples_of(payload@) && final(later)@.len() == 0 by {
        assert((*queue)@ + samples_of(payload@) =~= samples_of(payload@));
        assert(final(queue)@ =~= samples_of(payload@));
        assert(played@ =~= samples_of(payload@));
    }
}

/// Devices are told to stop, and nothing else of them changes.
pub proof fn law_devices_are_told_to_stop()
    ensures
        forall|output: &mut GameAudioOutput| #[trigger]
            call_ensures(GameAudioOutput::shutdown, (output,), ()) ==> {
                &&& final(output).stop_requested
                &&& final(output).sample_rate == (*output).sample_rate
                &&& final(output).sample_queue == (*output).sample_queue
            },
        forall|capture: &mut MicrophoneCapture| #[trigger]
            call_ensures(MicrophoneCapture::shutdown, (capture,), ()) ==> {
                &&& final(capture).stop_requested
                &&& final(capture).sample_rate == (*capture).sample_rate
                &&& final(capture).packet_index == (*capture).packet_index
            },
{
}

/// Packets of the microphone are numbered one after the other. The log is told of the first five,
/// of one in fifty, and of every loud one.
pub proof fn law_captured_packets_are_numbered(loud: bool, logs: bool)
    ensures
        forall|capture: &mut MicrophoneCapture| #[trigger]
            call_ensures(MicrophoneCapture::packet_sent, (capture, loud), logs) ==> {
                &&& (*capture).packet_index < u32::MAX ==> final(capture).packet_index
                    == (*capture).packet_index + 1
                &&& (*capture).packet_index == u32::MAX ==> final(capture).packet_index == 0
                &&& (*capture).captured_packets < u64::MAX ==> final(capture).captured_packets
                    == (*capture).captured_packets + 1
                &&& loud ==> logs
                &&& final(capture).captured_packets <= 5 ==> logs
                &&& !loud && final(capture).captured_packets > 5 ==> (logs <==> final(
                    capture).captured_packets % 50 == 0)
                &&& final(capture).stop_requested == (*capture).stop_requested
            },
{
}

/// What the microphone captured goes out on the second stream under the next number, split so that
/// each datagram has room for its 14 bytes.
pub proof fn law_captured_sound_goes_out_as_sound(
    capture: MicrophoneCapture,
    samples: &[u8],
    datagrams: Result<Vec<Vec<u8>>, PacketError>,
)
    requires
        call_ensures(MicrophoneCapture::next_packet, (&capture, samples), datagrams),
    ensures
        datagrams is Ok ==> capture.max_packet_size > 14 && byte_views(datagrams->Ok_0@)
            == shards_of(
            2,
            capture.packet_index,
            samples@,
            (capture.max_packet_size - 14) as nat,
        ),
        capture.max_packet_size <= 14 <==> datagrams == Err::<Vec<Vec<u8>>, PacketError>(
            PacketError::NoRoomForData,
        ),
{
}

/// Samples are read in pairs of bytes, the low one first, and count below zero from the middle of
/// their range on.
pub proof fn law_samples_are_read_in_pairs(payload: &[u8], samples: Vec<i16>, index: int)
    requires
        call_ensures(frames_to_samples, (payload,), samples),
        0 <= index < payload@.len() / 2,
    ensures
        samples@.len() == payload@.len() / 2,
        ({
            let bits = payload@[2 * index] + 256 * payload@[2 * index + 1];
            samples@[index] == if bits < 32768 {
                bits
            } else {
                bits - 65536
            }
        }),
{
    law_samples_are_signed_pairs(payload@, index);
}

} // verus!
