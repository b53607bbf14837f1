use std::collections::VecDeque;

use pimax_alvr::audio::{
    accepts_input_stream, accepts_output_stream, frames_to_samples, game_audio_gate,
    get_next_frame_batch, init, negotiated_game_audio_sample_rate, next_input_preset,
    push_game_audio_payload, set_microphone_permission_granted,
    set_negotiated_game_audio_sample_rate, start_game_audio_output, start_microphone_capture,
    AudioError, CaptureEvent, CaptureStep, InputPreset, OpenedStream, OutputGate,
};
use pimax_alvr::packets::{split_stream_payload, PacketError};
use pimax_alvr::settings::AudioBufferingConfig;

fn level(sample: i16) -> f32 {
    sample as f32 / i16::MAX as f32
}

#[test]
fn frames_to_f32_ignores_incomplete_sample() {
    let mut payload = Vec::new();
    payload.extend_from_slice(&i16::MAX.to_ne_bytes());
    payload.extend_from_slice(&i16::MIN.to_ne_bytes());
    payload.push(0xff);

    let samples: Vec<f32> = frames_to_samples(&payload).into_iter().map(level).collect();

    assert_eq!(samples.len(), 2);
    assert!((samples[0] - 1.0).abs() < f32::EPSILON);
    assert!(samples[1] < -0.99);
}

#[test]
fn push_game_audio_payload_trims_oldest_samples() {
    let mut queue = VecDeque::new();
    let payload = (0_i16..12)
        .flat_map(|sample| sample.to_ne_bytes())
        .collect::<Vec<_>>();

    push_game_audio_payload(&mut queue, &payload, 2, 1);

    assert_eq!(queue.len(), 10);
    assert_eq!(queue.front().copied().map(level), Some(2.0 / i16::MAX as f32));
}

#[test]
fn get_next_frame_batch_returns_silence_when_underfilled() {
    let mut queue = VecDeque::from([16384_i16, -16384]);

    let batch: Vec<f32> = get_next_frame_batch(&mut queue, 2, 2).into_iter().map(level).collect();

    assert_eq!(batch, vec![0.0, 0.0, 0.0, 0.0]);
    assert_eq!(queue.len(), 2);
}

#[test]
fn batches_leave_the_queue_in_order() {
    let mut queue: VecDeque<i16> = (1..=5).collect();
    assert_eq!(get_next_frame_batch(&mut queue, 2, 1), vec![1, 2]);
    assert_eq!(get_next_frame_batch(&mut queue, 2, 1), vec![3, 4]);
    assert_eq!(get_next_frame_batch(&mut queue, 2, 1), vec![0, 0]);
    assert_eq!(queue.len(), 1);
}

#[test]
fn send_stream_payload_shards_with_expected_headers() {
    let datagrams = split_stream_payload(2, 42, &[0, 1, 2, 3, 4], 17).unwrap();

    assert_eq!(datagrams.len(), 2);
    for expected_shard in 0..2_u32 {
        let packet = &datagrams[expected_shard as usize];
        let len = packet.len();
        assert_eq!(u16::from_le_bytes([packet[0], packet[1]]), 2);
        assert_eq!(
            u32::from_le_bytes([packet[2], packet[3], packet[4], packet[5]]),
            42
        );
        assert_eq!(
            u32::from_le_bytes([packet[6], packet[7], packet[8], packet[9]]),
            2
        );
        assert_eq!(
            u32::from_le_bytes([packet[10], packet[11], packet[12], packet[13]]),
            expected_shard
        );
        assert!(len <= 17);
    }
    assert_eq!(datagrams[0][14..], [0, 1, 2]);
    assert_eq!(datagrams[1][14..], [3, 4]);
}

#[test]
fn payloads_without_room_are_refused() {
    assert!(matches!(
        split_stream_payload(2, 0, &[1], 14),
        Err(PacketError::NoRoomForData)
    ));
}

#[test]
fn host_game_audio_output_starts_without_microphone_permission() {
    let mut state = init();
    set_microphone_permission_granted(&mut state, false);
    assert!(!state.microphone_permission_granted);

    let output = start_game_audio_output(
        48_000,
        AudioBufferingConfig {
            average_buffering_ms: 10,
            batch_ms: 10,
        },
    );

    assert!(output.is_ok());
}

#[test]
fn host_game_audio_output_buffers_payloads_like_android_path() {
    let mut output = start_game_audio_output(
        48_000,
        AudioBufferingConfig {
            average_buffering_ms: 1,
            batch_ms: 1,
        },
    )
    .unwrap();
    let mut payload = Vec::new();
    payload.extend_from_slice(&i16::MAX.to_ne_bytes());
    payload.extend_from_slice(&0_i16.to_ne_bytes());

    output.push_payload(&payload);

    let queue: Vec<f32> = output.sample_queue().iter().copied().map(level).collect();
    assert_eq!(queue.len(), 2);
    assert!((queue[0] - 1.0).abs() < f32::EPSILON);
    assert_eq!(queue[1], 0.0);
}

#[test]
fn host_audio_rejects_invalid_sample_rates() {
    let buffering = AudioBufferingConfig {
        average_buffering_ms: 10,
        batch_ms: 10,
    };
    assert!(start_game_audio_output(7_999, buffering).is_err());
    let endless = AudioBufferingConfig { average_buffering_ms: u64::MAX, batch_ms: u64::MAX };
    assert!(start_game_audio_output(7_999, endless).is_err());

    assert!(start_microphone_capture(7_999, 1200).is_err());
}

#[test]
fn refused_rates_are_named() {
    assert_eq!(
        AudioError::InvalidGameAudioRate(7_999).text(),
        "invalid game audio sample rate: 7999"
    );
    assert_eq!(
        AudioError::InvalidMicrophoneRate(1).text(),
        "invalid microphone sample rate: 1"
    );
}

#[test]
fn buffers_hold_what_their_times_say() {
    let output = start_game_audio_output(
        48_000,
        AudioBufferingConfig {
            average_buffering_ms: 50,
            batch_ms: 5,
        },
    )
    .unwrap();
    assert_eq!(output.average_buffer_frames_count, 2400);
    assert_eq!(output.batch_frames_count, 240);
}

#[test]
fn waiting_sound_never_exceeds_its_limit() {
    let mut output = start_game_audio_output(
        8_000,
        AudioBufferingConfig {
            average_buffering_ms: 1,
            batch_ms: 1,
        },
    )
    .unwrap();
    for _ in 0..100 {
        output.push_payload(&[1, 0, 2, 0, 3, 0, 4, 0]);
    }
    assert_eq!(output.sample_queue().len(), (2 * 8 + 8) * 2);
    output.shutdown();
    assert!(output.stop_requested);
}

#[test]
fn negotiated_rates_are_kept() {
    let mut state = init();
    set_negotiated_game_audio_sample_rate(&mut state, 44_100);
    assert_eq!(negotiated_game_audio_sample_rate(&state), 44_100);
}

#[test]
fn sound_waits_for_the_permission() {
    assert!(matches!(game_audio_gate(false, false), OutputGate::Wait));
    assert!(matches!(game_audio_gate(false, true), OutputGate::End));
    assert!(matches!(game_audio_gate(true, false), OutputGate::Open));
}

#[test]
fn streams_must_match_what_was_asked_for() {
    let stream = OpenedStream {
        channel_count: 2,
        sample_rate: 48_000,
        expected_format: true,
        frames_per_callback: Some(240),
    };
    assert!(accepts_output_stream(&stream, 48_000, 240));
    assert!(!accepts_output_stream(&stream, 44_100, 240));
    let wrong_format = OpenedStream {
        expected_format: false,
        ..stream
    };
    assert!(!accepts_output_stream(&wrong_format, 48_000, 240));
    let mut wrapped = stream;
    wrapped.sample_rate = -1;
    assert!(accepts_output_stream(&wrapped, u32::MAX, 240));
    assert!(!accepts_output_stream(&wrapped, 48_000, 240));
    let microphone = OpenedStream {
        channel_count: 1,
        sample_rate: 48_000,
        expected_format: true,
        frames_per_callback: None,
    };
    assert!(accepts_input_stream(&microphone, 48_000));
    assert!(!accepts_input_stream(&microphone, 16_000));
    assert!(!accepts_input_stream(&microphone, u32::MAX));
}

#[test]
fn presets_are_tried_in_turn() {
    let first = next_input_preset(None);
    assert!(matches!(first, Some(InputPreset::Unprocessed)));
    let mut preset = first;
    let mut tried = 0;
    while preset.is_some() {
        preset = next_input_preset(preset);
        tried += 1;
    }
    assert_eq!(tried, 3);
}

#[test]
fn microphone_packets_carry_their_number() {
    let mut capture = start_microphone_capture(48_000, 1_400).unwrap();
    assert!(matches!(capture.step(CaptureEvent::Samples), CaptureStep::Send));
    assert!(matches!(capture.step(CaptureEvent::Nothing), CaptureStep::Wait));
    assert!(matches!(capture.step(CaptureEvent::Gone), CaptureStep::End));
    let first = capture.next_packet(&[1, 2, 3, 4]).unwrap();
    assert_eq!(first.len(), 1);
    assert_eq!(first[0][..6], [2, 0, 0, 0, 0, 0]);
    capture.packet_sent(false);
    let second = capture.next_packet(&[1, 2]).unwrap();
    assert_eq!(second[0][..6], [2, 0, 1, 0, 0, 0]);
    assert!(capture.listens());
    capture.shutdown();
    assert!(matches!(capture.step(CaptureEvent::Samples), CaptureStep::Send));
    assert!(matches!(capture.step(CaptureEvent::Nothing), CaptureStep::End));
    assert!(!capture.listens());
}
