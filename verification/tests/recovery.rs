use pimax_alvr::decoder::{same_decoder_config, CodecType, DecoderInitializationConfig};
use pimax_alvr::recovery::{
    complete_runtime_video_stream_recovery, discovery_recovery_attempt,
    is_current_alvr_discovery_recovery, next_alvr_discovery_recovery_token,
    release_alvr_discovery_recovery, request_alvr_idr_if_due,
    request_runtime_video_stream_recovery, stop_alvr_discovery_recovery,
    take_runtime_video_stream_recovery_request, try_claim_alvr_discovery_recovery,
    DiscoveryAttempt, DiscoveryRecovery, RuntimeVideoRecovery, RuntimeVideoRecoveryState,
    ALVR_RUNTIME_VIDEO_RECOVERY_COOLDOWN_NS, ALVR_RUNTIME_VIDEO_RECOVERY_TIMEOUT_NS,
};

const MS: u64 = 1_000_000;
const SEC: u64 = 1_000_000_000;

#[test]
fn same_decoder_config_detects_exact_duplicates_only() {
    let previous = (CodecType::Hevc, vec![1, 2, 3, 4]);
    let same = DecoderInitializationConfig {
        codec: CodecType::Hevc,
        config_buffer: vec![1, 2, 3, 4],
        ext_str: String::new(),
    };
    let different_codec = DecoderInitializationConfig {
        codec: CodecType::H264,
        config_buffer: vec![1, 2, 3, 4],
        ext_str: String::new(),
    };
    let different_bytes = DecoderInitializationConfig {
        codec: CodecType::Hevc,
        config_buffer: vec![1, 2, 3, 5],
        ext_str: String::new(),
    };

    assert!(same_decoder_config(&previous, &same));
    assert!(!same_decoder_config(&previous, &different_codec));
    assert!(!same_decoder_config(&previous, &different_bytes));
}

#[test]
fn runtime_video_stream_recovery_request_is_one_shot() {
    let mut recovery = RuntimeVideoRecovery::default();

    request_runtime_video_stream_recovery(&mut recovery, 10 * SEC);

    assert!(take_runtime_video_stream_recovery_request(&mut recovery, 10 * SEC));
    assert!(!take_runtime_video_stream_recovery_request(&mut recovery, 10 * SEC));
}

#[test]
fn runtime_video_recovery_state_suppresses_duplicates_while_in_flight() {
    let now = 100 * SEC;
    let mut state = RuntimeVideoRecoveryState::default();

    assert!(state.queue_if_due(now));
    assert!(state.take_queued(now));
    assert!(!state.queue_if_due(now + 500 * MS));
    assert!(state.mark_completed(now + SEC));
    assert!(!state.queue_if_due(now + 2 * SEC));
    assert!(state.queue_if_due(now + SEC + ALVR_RUNTIME_VIDEO_RECOVERY_COOLDOWN_NS));
}

#[test]
fn runtime_video_recovery_state_expires_stale_in_flight_request() {
    let now = 100 * SEC;
    let mut state =
        RuntimeVideoRecoveryState::with_times(false, true, Some(now), Some(now), None);

    assert!(state.queue_if_due(now + ALVR_RUNTIME_VIDEO_RECOVERY_TIMEOUT_NS + MS));
    assert!(state.take_queued(now + ALVR_RUNTIME_VIDEO_RECOVERY_TIMEOUT_NS + MS));
}

#[test]
fn completing_without_a_recovery_changes_nothing() {
    let mut recovery = RuntimeVideoRecovery::default();
    assert!(!complete_runtime_video_stream_recovery(&mut recovery, SEC));
    assert!(request_runtime_video_stream_recovery(&mut recovery, SEC));
    assert!(take_runtime_video_stream_recovery_request(&mut recovery, 2 * SEC));
    assert!(complete_runtime_video_stream_recovery(&mut recovery, 3 * SEC));
    assert_eq!(recovery.state.last_completed_at, Some(3 * SEC));
}

#[test]
fn key_frame_requests_are_spaced() {
    let mut last = None;
    assert!(request_alvr_idr_if_due(&mut last, SEC));
    assert!(!request_alvr_idr_if_due(&mut last, SEC + 499 * MS));
    assert_eq!(last, Some(SEC));
    assert!(request_alvr_idr_if_due(&mut last, SEC + 500 * MS));
    assert_eq!(last, Some(SEC + 500 * MS));
}

#[test]
fn discovery_recovery_owner_can_only_be_released_by_current_token() {
    let mut recovery = DiscoveryRecovery { owner: 0, generation: 1 };

    let first = next_alvr_discovery_recovery_token(&mut recovery);
    let second = next_alvr_discovery_recovery_token(&mut recovery);

    assert!(try_claim_alvr_discovery_recovery(&mut recovery, first));
    assert!(!try_claim_alvr_discovery_recovery(&mut recovery, second));

    release_alvr_discovery_recovery(&mut recovery, second);
    assert!(is_current_alvr_discovery_recovery(&recovery, first));

    stop_alvr_discovery_recovery(&mut recovery);
    assert!(!is_current_alvr_discovery_recovery(&recovery, first));

    assert!(try_claim_alvr_discovery_recovery(&mut recovery, second));
    release_alvr_discovery_recovery(&mut recovery, first);
    assert!(is_current_alvr_discovery_recovery(&recovery, second));

    release_alvr_discovery_recovery(&mut recovery, second);
    assert_eq!(recovery.owner, 0);
}

#[test]
fn discovery_recovery_tokens_never_use_zero() {
    let mut recovery = DiscoveryRecovery { owner: 0, generation: u32::MAX };

    let token = next_alvr_discovery_recovery_token(&mut recovery);

    assert_ne!(token, 0);
}

#[test]
fn discovery_attempts_end_with_the_last_one() {
    let mut recovery = DiscoveryRecovery::default();
    let token = next_alvr_discovery_recovery_token(&mut recovery);
    assert_eq!(token, 2);
    assert!(try_claim_alvr_discovery_recovery(&mut recovery, token));
    assert_eq!(
        discovery_recovery_attempt(&recovery, token, 0),
        DiscoveryAttempt::AnnounceAndPause
    );
    assert_eq!(
        discovery_recovery_attempt(&recovery, token, 29),
        DiscoveryAttempt::AnnounceLast
    );
    assert_eq!(discovery_recovery_attempt(&recovery, token, 30), DiscoveryAttempt::Stop);
    stop_alvr_discovery_recovery(&mut recovery);
    assert_eq!(discovery_recovery_attempt(&recovery, token, 1), DiscoveryAttempt::Stop);
}
