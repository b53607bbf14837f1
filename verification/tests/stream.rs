use pimax_alvr::decoder::{CodecType, DecoderInitializationConfig, UpstreamDecoder};
use pimax_alvr::framing::{
    build_frame, frame_length, poll_outcome, ControlRead, FrameError, FrameReader, FrameStage,
    FrameStep, PollOutcome,
};
use pimax_alvr::packets::{
    build_header_packet, decode_video_packet_details, split_stream_payload, PacketError,
    PartialPacket, RawPacketAssembler, VideoPacketAssembler,
};
use pimax_alvr::recovery::RuntimeVideoRecovery;
use pimax_alvr::session::{
    claim_control_listener, drain_alvr_stream_thread, handle_alvr_server_control, plan_stream,
    receive_cleanup_reason, restart_cleanup_reason, start_stream_session, streaming_capabilities,
    take_session_number, AlvrStreamSession, BatteryInfo, CleanupStep, ClientControlPacket,
    ControlAction, ControlLoop, DrainStep, HandshakeOutcome, LogSeverity, ServerControlPacket,
};
use pimax_alvr::settings::{
    AudioBufferingConfig, AudioStreamSettings, StreamProtocol, StreamSocketSettings,
};
use pimax_alvr::statistics::{reset_alvr_statistics_state, AlvrStatistics};
use pimax_alvr::stream::{
    enter_waiting_for_idr, exit_reason, nal_timestamp_ns, receive_buffer_len, IdrReason,
    ReceiveFailure, Reception, UdpStreamReceiver,
};

const SEC: u64 = 1_000_000_000;

type Pose = ([f32; 4], [f32; 3]);

type View = (Pose, [f32; 4]);

fn video_payload(seconds: u64, nanos: u32, is_idr: bool, nal: &[u8]) -> Vec<u8> {
    let view: View = (([0.0, 0.0, 0.0, 1.0], [0.25, 0.5, 0.75]), [-1.0, 1.0, 1.0, -1.0]);
    let header = ((seconds, nanos), [view; 2], is_idr);
    let mut bytes = bincode::serde::encode_to_vec(&header, bincode::config::standard())
        .expect("serialize video packet header");
    bytes.extend_from_slice(nal);
    bytes
}

fn video_datagram(packet_index: u32, is_idr: bool) -> Vec<u8> {
    let payload = video_payload(1, 5, is_idr, &[9, 9]);
    split_stream_payload(3, packet_index, &payload, 1400)
        .unwrap()
        .remove(0)
}

#[test]
fn video_packet_header_roundtrip_preserves_fields() {
    let bytes = video_payload(1, 234_567_890, true, &[7, 8]);
    let mut assembler = VideoPacketAssembler::new(1386);

    let packet = assembler.push(0, 1, 0, &bytes, 0).expect("deserialize video packet header");

    assert_eq!(packet.header.timestamp_ns, 1_234_567_890);
    assert!(packet.header.is_idr);
    let position: Vec<f32> = packet.header.global_view_params[0][4..7]
        .iter()
        .map(|word| f32::from_le_bytes(*word))
        .collect();
    assert_eq!(position, vec![0.25, 0.5, 0.75]);
    assert_eq!(packet.payload, vec![7, 8]);
    assert_eq!(packet.payload_len, 2);
    assert_eq!(nal_timestamp_ns(&packet.header), 1_234_567_890);
}

#[test]
fn video_headers_are_described() {
    let text = decode_video_packet_details(&video_payload(0, 7, false, &[1])).unwrap();
    assert!(text.contains("7"), "{text}");
    assert_eq!(decode_video_packet_details(&[1, 2, 3]), None);
}

#[test]
fn packets_without_a_header_are_dropped() {
    let mut assembler = VideoPacketAssembler::new(1386);
    assert!(assembler.push(0, 1, 0, &[1, 2, 3], 0).is_none());
    assert_eq!(assembler.completed_count(), 0);
}

#[test]
fn shards_are_put_together_in_any_order() {
    let payload: Vec<u8> = (0..50).collect();
    let shards = split_stream_payload(2, 6, &payload, 14 + 16).unwrap();
    assert_eq!(shards.len(), 4);
    let mut assembler = RawPacketAssembler::new(16);
    for shard in [3_usize, 1, 0] {
        assert!(assembler.push(6, 4, shard as u32, &shards[shard][14..], 0).is_none());
    }
    assert!(assembler.push(6, 4, 1, &shards[1][14..], 0).is_none());
    assert_eq!(assembler.push(6, 4, 2, &shards[2][14..], 0), Some(payload));
    assert_eq!(assembler.completed_count(), 1);
}

#[test]
fn old_fragments_are_forgotten() {
    let mut assembler = RawPacketAssembler::new(16);
    for index in 0..65 {
        assert!(assembler.push(index, 2, 0, &[1; 16], 0).is_none());
    }
    assert_eq!(assembler.packets.len(), 65);
    assert!(assembler.push(100, 2, 0, &[1; 16], 3 * SEC).is_none());
    assert_eq!(assembler.packets.len(), 1);
    assert!(assembler.packets.contains_key(&100));
}

#[test]
fn header_packets_fit_into_one_datagram() {
    let datagram = build_header_packet(4, 9, &[5, 6], 1400).unwrap();
    assert_eq!(datagram.len(), 16);
    assert_eq!(datagram[..6], [4, 0, 9, 0, 0, 0]);
    assert_eq!(datagram[14..], [5, 6]);
    assert!(matches!(
        build_header_packet(4, 9, &[0; 20], 30),
        Err(PacketError::TooLarge {
            datagram_len: 34,
            max_packet_size: 30
        })
    ));
}

#[test]
fn enter_waiting_for_idr_clears_video_continuity_state() {
    let mut waiting_for_idr = false;
    let mut video_assembler = VideoPacketAssembler::new(16);
    video_assembler.packets.insert(
        7,
        PartialPacket {
            shards_count: 2,
            received: vec![true, false],
            received_count: 1,
            data: vec![1, 2, 3],
            first_seen_ns: 0,
        },
    );
    let mut last_completed_video_packet_index = Some(42);

    enter_waiting_for_idr(
        &mut waiting_for_idr,
        &mut video_assembler,
        &mut last_completed_video_packet_index,
    );

    assert!(waiting_for_idr);
    assert!(video_assembler.packets.is_empty());
    assert_eq!(last_completed_video_packet_index, None);
}

#[test]
fn a_gap_waits_for_the_next_key_frame() {
    let mut receiver = UdpStreamReceiver::new(1400);
    let mut now = 10 * SEC;
    let mut submitted = Vec::new();
    let mut requests = Vec::new();
    for (index, is_idr) in [(0, true), (1, false), (3, false), (4, false), (5, true), (6, false)] {
        now += SEC;
        match receiver.receive(&video_datagram(index, is_idr), false, now) {
            Reception::Video {
                packet_index,
                packet: Some(packet),
            } => {
                let decision =
                    receiver.video_packet_completed(packet_index, &packet, false, true, now);
                requests.push(decision.idr_request.is_some());
                if decision.submit {
                    submitted.push(packet_index);
                    let answer = receiver.decoder_answered(is_idr, true, now);
                    assert_eq!(answer.recovery_completed, is_idr);
                }
            }
            _ => panic!("expected a video packet"),
        }
    }
    assert_eq!(submitted, vec![0, 1, 5, 6]);
    assert_eq!(requests, vec![false, false, true, true, false, false]);
    assert_eq!(receiver.diagnostics.packet_gap_resets, 1);
    assert_eq!(receiver.diagnostics.waiting_for_idr_drops, 2);
}

#[test]
fn a_saturated_decoder_restarts_the_wait() {
    let mut receiver = UdpStreamReceiver::new(1400);
    let reception = receiver.receive(&video_datagram(0, true), false, SEC);
    assert!(matches!(reception, Reception::Video { .. }));
    let answer = receiver.decoder_answered(false, false, SEC);
    assert!(matches!(answer.idr_request, Some(IdrReason::DecoderSaturation)));
    assert!(receiver.waiting_for_idr);
    assert_eq!(receiver.diagnostics.decoder_backpressure_resets, 1);
}

#[test]
fn other_datagrams_are_told_apart() {
    let mut receiver = UdpStreamReceiver::new(1400);
    assert!(matches!(receiver.receive(&[0; 13], true, 0), Reception::Short));
    let audio = split_stream_payload(2, 3, &[1, 2], 1400).unwrap().remove(0);
    match receiver.receive(&audio, false, 0) {
        Reception::Audio {
            packet_index,
            payload,
        } => {
            assert_eq!(packet_index, 3);
            assert_eq!(payload, Some(vec![1, 2]));
        }
        _ => panic!("expected audio"),
    }
    let other = split_stream_payload(9, 3, &[1, 2], 1400).unwrap().remove(0);
    assert!(matches!(receiver.receive(&other, false, 0), Reception::Other));
    assert!(matches!(receiver.receive_failed(true, false), ReceiveFailure::Pause));
    assert!(matches!(receiver.receive_failed(true, true), ReceiveFailure::Exit));
    assert!(matches!(receiver.receive_failed(false, false), ReceiveFailure::Exit));
    assert_eq!(receiver.diagnostics.udp_terminal_errors, 1);
    assert_eq!(receive_buffer_len(3), 14);
    assert_eq!(receive_buffer_len(1400), 1400);
    assert_eq!(exit_reason(true), "session shutdown");
    assert_eq!(exit_reason(false), "udp receiver exit");
}

#[test]
fn client_control_packet_variant_indices_match_alvr_master() {
    assert_eq!(ClientControlPacket::PlayspaceSync(None).variant_index(), 0);
    assert_eq!(ClientControlPacket::RequestIdr.variant_index(), 1);
    assert_eq!(ClientControlPacket::KeepAlive.variant_index(), 2);
    assert_eq!(ClientControlPacket::StreamReady.variant_index(), 3);
    assert_eq!(
        ClientControlPacket::LocalViewParams([[0; 11]; 2]).variant_index(),
        4,
    );
    assert_eq!(ClientControlPacket::Buttons(vec![]).variant_index(), 6);
}

#[test]
fn later_control_packets_keep_their_places() {
    let battery = BatteryInfo {
        device_id: 1,
        gauge_value: 0,
        is_plugged: false,
    };
    assert_eq!(ClientControlPacket::Battery(battery).variant_index(), 5);
    let log = ClientControlPacket::Log {
        level: LogSeverity::Info,
        message: String::new(),
    };
    assert_eq!(log.variant_index(), 8);
    assert_eq!(ClientControlPacket::ProximityState(true).variant_index(), 9);
}

#[test]
fn stream_session_drop_requests_shutdown_and_clears_statistics_state() {
    let mut statistics = AlvrStatistics::new();
    reset_alvr_statistics_state(&mut statistics);
    assert!(statistics.state.is_some());

    let mut session = AlvrStreamSession::new(99, false, false);
    assert!(!session.shutdown_signal());

    session.close(&mut statistics);

    assert!(session.shutdown_signal());
    assert!(statistics.state.is_none());
}

#[test]
fn sessions_stop_everything_they_started() {
    let mut statistics = AlvrStatistics::new();
    let mut session = AlvrStreamSession::new(1, true, true);
    session.control_maintenance = true;
    session.tracking_sender = true;
    session.udp_receiver = true;
    assert!(session.request_shutdown());
    assert!(!session.request_shutdown());
    session.set_cleanup_reason("test".to_string());
    let steps = session.close(&mut statistics);
    assert_eq!(
        steps,
        vec![
            CleanupStep::StopMicrophone,
            CleanupStep::StopGameAudio,
            CleanupStep::JoinControlMaintenance,
            CleanupStep::JoinTrackingSender,
            CleanupStep::JoinUdpReceiver,
            CleanupStep::ReleaseDecoder,
            CleanupStep::DisconnectVideoReceiver,
        ]
    );
    assert_eq!(session.cleanup_reason, "test");
}

#[test]
fn streams_are_planned_from_the_settings() {
    let settings = StreamSocketSettings {
        protocol: StreamProtocol::Udp,
        port: 9944,
        packet_size: 1400,
        foveated_encoding: None,
    };
    let buffering = AudioBufferingConfig {
        average_buffering_ms: 50,
        batch_ms: 5,
    };
    let audio = AudioStreamSettings {
        game_audio_enabled: true,
        game_audio_buffering: buffering,
        microphone_enabled: false,
        microphone_buffering: buffering,
    };
    let plan = plan_stream(&settings, &audio, 44_100).ok().unwrap();
    assert_eq!(plan.game_audio.unwrap().0, 44_100);
    assert_eq!(plan.microphone, None);
    assert!(plan_stream(&settings, &audio, 0).ok().unwrap().game_audio.is_none());
    let tcp = StreamSocketSettings {
        protocol: StreamProtocol::Tcp,
        ..settings
    };
    assert!(plan_stream(&tcp, &audio, 44_100).is_err());

    let mut counter = 7;
    let ended_early = take_session_number(&mut counter);
    assert_eq!(ended_early, 7);
    let session_id = take_session_number(&mut counter);
    assert_eq!(counter, 9);
    let mut decoder = UpstreamDecoder::new();
    let mut recovery = RuntimeVideoRecovery::default();
    let mut statistics = AlvrStatistics::new();
    let session = start_stream_session(
        session_id,
        &plan,
        false,
        true,
        &mut decoder,
        &mut recovery,
        &mut statistics,
    );
    assert_eq!(session.session_id, 8);
    let mut last = u32::MAX;
    assert_eq!(take_session_number(&mut last), u32::MAX);
    assert_eq!(last, 0);
    assert!(session.game_audio_output);
    assert!(statistics.sender.is_some());
}

#[test]
fn control_packets_lead_to_actions() {
    assert!(matches!(
        handle_alvr_server_control(&ServerControlPacket::StartStream),
        HandshakeOutcome::RunStream
    ));
    assert!(matches!(
        handle_alvr_server_control(&ServerControlPacket::Restarting),
        HandshakeOutcome::ServerRestarts
    ));
    assert!(matches!(
        handle_alvr_server_control(&ServerControlPacket::KeepAlive),
        HandshakeOutcome::NotReady
    ));

    let config = DecoderInitializationConfig {
        codec: CodecType::Hevc,
        config_buffer: vec![1, 2],
        ext_str: String::new(),
    };
    let mut control = ControlLoop::new(1000, 900);
    let packet = ServerControlPacket::DecoderConfig(config.clone());
    assert!(matches!(
        control.received(&packet),
        ControlAction::ConfigureDecoder {
            frame_width: 2000,
            frame_height: 900
        }
    ));
    let mut recovery = RuntimeVideoRecovery::default();
    control.decoder_configured(config, &mut recovery, 0);
    assert!(matches!(control.received(&packet), ControlAction::Continue));
    assert!(matches!(
        control.received(&ServerControlPacket::Restarting),
        ControlAction::EndSession
    ));
}

#[test]
fn one_listener_is_claimed() {
    let mut started = false;
    assert!(claim_control_listener(&mut started));
    assert!(!claim_control_listener(&mut started));
}

#[test]
fn threads_get_a_grace_period() {
    assert!(matches!(drain_alvr_stream_thread(true, 9, 5), DrainStep::Join));
    assert!(matches!(drain_alvr_stream_thread(false, 4, 5), DrainStep::Wait));
    assert!(matches!(drain_alvr_stream_thread(false, 5, 5), DrainStep::Detach));
}

#[test]
fn capabilities_describe_the_headset() {
    let capabilities = streaming_capabilities();
    assert_eq!(capabilities.microphone_sample_rate, 48_000);
    assert!(!capabilities.refresh_rates.is_empty());
}

#[test]
fn cleanup_reasons_are_told() {
    assert!(!restart_cleanup_reason().is_empty());
    assert!(receive_cleanup_reason("broken pipe").contains("broken pipe"));
}

#[test]
fn recv_framed_until_shutdown_exits_when_session_shutdown_is_requested() {
    let mut reader = FrameReader::new();
    assert!(matches!(reader.advance(ControlRead::Nothing), FrameStep::Read(4)));
    match reader.advance(ControlRead::Shutdown) {
        FrameStep::Stop(err) => {
            let text = err.text();
            assert!(
                text.contains("ALVR control session shutdown requested"),
                "unexpected error: {text}"
            );
        }
        _ => panic!("shutdown should interrupt framed recv"),
    }
}

#[test]
fn frames_come_back_whole() {
    let frame = build_frame(&[1, 2, 3]).unwrap();
    assert_eq!(frame, vec![3, 0, 0, 0, 1, 2, 3]);
    let mut reader = FrameReader::new();
    assert!(matches!(reader.stage(), FrameStage::Length));
    assert!(matches!(
        reader.advance(ControlRead::Bytes(frame[..2].to_vec())),
        FrameStep::Read(2)
    ));
    assert!(matches!(
        reader.advance(ControlRead::Bytes(frame[2..4].to_vec())),
        FrameStep::Read(3)
    ));
    assert!(matches!(reader.stage(), FrameStage::Payload));
    match reader.advance(ControlRead::Bytes(frame[4..].to_vec())) {
        FrameStep::Complete(payload) => assert_eq!(payload, vec![1, 2, 3]),
        _ => panic!("expected a frame"),
    }
}

#[test]
fn broken_frames_are_reported() {
    let mut reader = FrameReader::new();
    match reader.advance(ControlRead::Bytes(vec![1, 0, 0, 4])) {
        FrameStep::Stop(FrameError::TooLarge { length }) => assert_eq!(length, 67_108_865),
        _ => panic!("expected an error"),
    }
    assert_eq!(
        FrameError::TooLarge { length: 67_108_865 }.text(),
        "ALVR frame too large: 67108865 bytes"
    );
    assert!(frame_length(&[0, 0, 0, 4]).is_ok());
    assert!(frame_length(&[1, 0, 0, 4]).is_err());
    let mut reader = FrameReader::new();
    match reader.advance(ControlRead::Closed) {
        FrameStep::Stop(err) => assert!(err.text().starts_with("ALVR control socket closed")),
        _ => panic!("expected an error"),
    }
    assert!(matches!(
        FrameReader::new().advance(ControlRead::Failed),
        FrameStep::Stop(FrameError::ReadFailed { .. })
    ));
}

#[test]
fn polls_are_repeated_where_nothing_came() {
    assert!(matches!(poll_outcome(1, false, false), PollOutcome::Ready));
    assert!(matches!(poll_outcome(1, true, false), PollOutcome::Invalid));
    assert!(matches!(poll_outcome(0, false, false), PollOutcome::Again));
    assert!(matches!(poll_outcome(-1, false, true), PollOutcome::Again));
    assert!(matches!(poll_outcome(-1, false, false), PollOutcome::Failed));
}

#[test]
fn shards_may_be_repeated_and_mixed_with_others() {
    let first: Vec<u8> = (0..40).collect();
    let second: Vec<u8> = (100..140).collect();
    let mut assembler = RawPacketAssembler::new(16);
    for (packet_index, shard_index) in [(7_u32, 2_usize), (8, 0), (7, 2), (7, 0), (8, 2), (7, 0)] {
        let payload = if packet_index == 7 { &first } else { &second };
        let end = payload.len().min(16 * shard_index + 16);
        let share = &payload[16 * shard_index..end];
        let completed = assembler.push(packet_index, 3, shard_index as u32, share, 0);
        assert_eq!(completed, None);
        assert_eq!(assembler.completed_count(), 0);
    }
    assert_eq!(assembler.push(7, 3, 1, &first[16..32], 0), Some(first));
    assert_eq!(assembler.completed_count(), 1);
    assert_eq!(assembler.push(8, 3, 1, &second[16..32], 0), Some(second));
    assert_eq!(assembler.completed_count(), 2);
}

#[test]
fn nothing_is_submitted_once_the_session_ends() {
    let mut receiver = UdpStreamReceiver::new(1400);
    let Reception::Video { packet: Some(packet), .. } =
        receiver.receive(&video_datagram(0, true), false, SEC)
    else {
        panic!("expected a video packet");
    };
    let decision = receiver.video_packet_completed(0, &packet, true, true, SEC);
    assert!(decision.ended);
    assert!(!decision.submit);
    assert!(decision.idr_request.is_none());
    assert!(receiver.waiting_for_idr);
    let ended = receiver.receive(&video_datagram(1, true), true, SEC);
    assert!(matches!(ended, Reception::Ended));
    assert_eq!(receiver.diagnostics.total_shards, 1);
    assert!(!receiver.audio_packet_accepted(true));
    assert!(receiver.audio_packet_accepted(false));
    let decision = receiver.video_packet_completed(0, &packet, false, true, SEC);
    assert!(!decision.ended);
    assert!(decision.submit);
}
