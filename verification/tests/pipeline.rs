use pimax_alvr::controller::{ControllerSnapshot, DeviceMotion, SingleControllerState};
use pimax_alvr::maintenance::{
    ControlMaintenance, MaintenanceAction, MaintenanceEvent, MaintenanceFailure,
};
use pimax_alvr::protocol::hash_string;
use pimax_alvr::recovery::RuntimeVideoRecovery;
use pimax_alvr::statistics::{
    clear_alvr_statistics_sender, install_alvr_statistics_sender, logs_stream_packet,
    report_alvr_compositor_start, report_alvr_frame_decoded, report_alvr_frame_submitted,
    report_alvr_tracking_input_acquired, report_alvr_video_packet_received,
    reset_alvr_statistics_state, AlvrClientStatisticsState, AlvrStatistics,
};
use pimax_alvr::tracking::{
    build_tracking_report, update_head_tracking_pose, AlvrHeadTrackingPose, TrackingSchedule,
    TrackingStep,
};
use pimax_alvr::views::{
    accepts_field_of_view, clamp_ipd, current_alvr_views_config, default_views_config, latest_alvr_views_config, normalize_pimax_ipd_m, notify_ipd_scale_changed, publish_field_of_view, publish_ipd, publish_views_config, update_alvr_ipd_from_pimax, views_config_to_local_view_params, IpdReading,
};

const MS: u64 = 1_000_000;

fn hands(left: bool) -> ControllerSnapshot {
    let state = SingleControllerState {
        connected: true,
        handle: 1,
        motion: Some(DeviceMotion::default()),
        buttons_pressed: 0,
        buttons_touched: 0,
        trigger: 0,
        grip: 0,
        thumbstick_x: 0,
        thumbstick_y: 0,
        battery_percent: 100,
        last_updated_ns: 0,
    };
    ControllerSnapshot {
        left: if left { Some(state) } else { None },
        right: None,
    }
}

#[test]
fn frames_are_timed_from_input_to_light() {
    let mut statistics = AlvrStatistics::new();
    reset_alvr_statistics_state(&mut statistics);
    install_alvr_statistics_sender(&mut statistics, 1400);
    report_alvr_tracking_input_acquired(&mut statistics, 7, 100 * MS);
    report_alvr_video_packet_received(&mut statistics, 7, 110 * MS);
    report_alvr_frame_decoded(&mut statistics, 7, 113 * MS);
    report_alvr_compositor_start(&mut statistics, 7, 118 * MS);
    let stats = report_alvr_frame_submitted(&mut statistics, 7, 4 * MS, 120 * MS).unwrap();
    assert_eq!(stats.target_timestamp_ns, 7);
    assert_eq!(stats.video_decode_ns, 3 * MS);
    assert_eq!(stats.video_decoder_queue_ns, 5 * MS);
    assert_eq!(stats.rendering_ns, 2 * MS);
    assert_eq!(stats.vsync_queue_ns, 4 * MS);
    assert_eq!(stats.total_pipeline_latency_ns, 24 * MS);
    assert_eq!(stats.frame_interval_ns, 13_889_000);
    assert!(report_alvr_frame_submitted(&mut statistics, 7, 4 * MS, 121 * MS).is_none());
    report_alvr_tracking_input_acquired(&mut statistics, 8, 125 * MS);
    let next = report_alvr_frame_submitted(&mut statistics, 8, 4 * MS, 130 * MS).unwrap();
    assert_eq!(next.frame_interval_ns, 10 * MS);
}

#[test]
fn unknown_frames_are_not_reported() {
    let mut state = AlvrClientStatisticsState::new();
    assert!(state.report_submit(9, 0, 5).is_none());
    let mut nowhere = AlvrStatistics::new();
    assert!(report_alvr_frame_submitted(&mut nowhere, 9, 0, 5).is_none());
}

#[test]
fn history_keeps_the_newest_frames() {
    let mut state = AlvrClientStatisticsState::new();
    for timestamp in 0..600_u128 {
        state.report_input_acquired(timestamp, timestamp as u64);
    }
    assert_eq!(state.frames.len(), 512);
    assert!(state.report_submit(10, 0, 1000).is_none());
    let report = state.report_submit(599, 5, 1000).unwrap();
    assert_eq!(report.target_timestamp_ns, 599);
    assert_eq!(report.vsync_queue_ns, 5);
    assert!(report.total_pipeline_latency_ns >= 5);
    assert_eq!(report.frame_interval_ns, 13_889_000);
    state.report_frame_decoded(599, 1001);
    assert!(state.report_submit(599, 5, 1002).is_none());
}

#[test]
fn statistics_are_sent_in_numbered_datagrams() {
    let mut statistics = AlvrStatistics::new();
    install_alvr_statistics_sender(&mut statistics, 1400);
    let sender = statistics.sender.as_mut().unwrap();
    let first = sender.next_datagram(&[1]).unwrap();
    assert_eq!(first[..6], [4, 0, 0, 0, 0, 0]);
    assert_eq!(sender.header_sent(), (0, 1));
    let second = sender.next_datagram(&[1]).unwrap();
    assert_eq!(second[..6], [4, 0, 1, 0, 0, 0]);
    clear_alvr_statistics_sender(&mut statistics);
    assert!(statistics.sender.is_none());
    assert!(logs_stream_packet(1));
    assert!(logs_stream_packet(3_600));
    assert!(!logs_stream_packet(3_601));
}

#[test]
fn maintenance_goes_through_its_rounds() {
    let mut recovery = RuntimeVideoRecovery::default();
    let mut control = ControlMaintenance::new(0, None);
    let begin = || MaintenanceEvent::Begin {
        shutdown_requested: false,
    };
    let action = control.advance(begin(), 0, &mut recovery);
    assert!(matches!(action, MaintenanceAction::SendKeepAlive));
    let action = control.advance(MaintenanceEvent::Sent(true), 0, &mut recovery);
    assert!(matches!(action, MaintenanceAction::TakeLifecycleRequest));
    let action = control.advance(MaintenanceEvent::Lifecycle(false), 0, &mut recovery);
    assert!(matches!(action, MaintenanceAction::ReadViews));
    let action = control.advance(MaintenanceEvent::Views(Some(1)), 0, &mut recovery);
    assert!(matches!(action, MaintenanceAction::SendViews));
    let action = control.advance(MaintenanceEvent::Sent(true), 0, &mut recovery);
    assert!(matches!(action, MaintenanceAction::ReadControllers));
    let action = control.advance(MaintenanceEvent::Controllers(hands(true)), 0, &mut recovery);
    assert!(matches!(action, MaintenanceAction::SendProfile));
    let action = control.advance(MaintenanceEvent::Sent(true), 0, &mut recovery);
    assert!(matches!(action, MaintenanceAction::SendButtons(_)));
    let action = control.advance(MaintenanceEvent::Sent(true), 0, &mut recovery);
    assert!(matches!(action, MaintenanceAction::Pause));
    assert_eq!(control.keepalives_sent, 1);
    assert_eq!(control.profiles_sent, 1);
    assert_eq!(control.buttons_sent, 1);

    let action = control.advance(begin(), 100 * MS, &mut recovery);
    assert!(matches!(action, MaintenanceAction::TakeLifecycleRequest));
    let action = control.advance(MaintenanceEvent::Lifecycle(false), 100 * MS, &mut recovery);
    assert!(matches!(action, MaintenanceAction::ReadViews));
    let action = control.advance(MaintenanceEvent::Views(Some(1)), 100 * MS, &mut recovery);
    assert!(matches!(action, MaintenanceAction::ReadControllers));
    let action =
        control.advance(MaintenanceEvent::Controllers(hands(true)), 100 * MS, &mut recovery);
    assert!(matches!(action, MaintenanceAction::SendButtons(_)));
    let action = control.advance(MaintenanceEvent::Sent(false), 100 * MS, &mut recovery);
    match action {
        MaintenanceAction::GiveUp(failure) => {
            assert!(matches!(failure, MaintenanceFailure::Buttons));
            assert!(!failure.text().is_empty());
        }
        _ => panic!("expected the end"),
    }
}

#[test]
fn maintenance_wakes_the_video_up() {
    let mut recovery = RuntimeVideoRecovery::default();
    let mut control = ControlMaintenance::new(0, None);
    control.advance(
        MaintenanceEvent::Begin {
            shutdown_requested: false,
        },
        0,
        &mut recovery,
    );
    control.advance(MaintenanceEvent::Sent(true), 0, &mut recovery);
    let action = control.advance(MaintenanceEvent::Lifecycle(true), 0, &mut recovery);
    assert!(matches!(action, MaintenanceAction::SendCurrentViews));
    let action = control.advance(MaintenanceEvent::Sent(true), 0, &mut recovery);
    assert!(matches!(action, MaintenanceAction::RequestIdr));
    let action = control.advance(MaintenanceEvent::Sent(true), 0, &mut recovery);
    assert!(matches!(action, MaintenanceAction::ReadViews));
}

#[test]
fn maintenance_stops_on_request() {
    let mut recovery = RuntimeVideoRecovery::default();
    let mut control = ControlMaintenance::new(0, None);
    let action = control.advance(
        MaintenanceEvent::Begin {
            shutdown_requested: true,
        },
        0,
        &mut recovery,
    );
    assert!(matches!(action, MaintenanceAction::Stop));
}

#[test]
fn tracking_reports_hold_the_head_and_the_hands() {
    let mut latest = None;
    let pose = AlvrHeadTrackingPose {
        orientation: [0, 0, 0, 1.0_f32.to_bits()],
        position: [0, 1.5_f32.to_bits(), 0],
        timestamp_ns: 42,
    };
    update_head_tracking_pose(&mut latest, pose);
    let report = build_tracking_report(latest, 7, &hands(true), 0);
    assert_eq!(report.poll_timestamp_ns, 42);
    assert_eq!(report.device_motions.len(), 2);
    assert_eq!(report.device_motions[0].0, hash_string("/user/head"));
    assert_eq!(report.device_motions[0].1.pose.position[1], 1.5_f32.to_bits());
    assert_eq!(report.device_motions[1].0, hash_string("/user/hand/left"));
    let without = build_tracking_report(None, 7, &hands(false), 0);
    assert_eq!(without.poll_timestamp_ns, 7);
    assert_eq!(without.device_motions.len(), 1);
}

#[test]
fn tracking_keeps_its_rate() {
    let mut schedule = TrackingSchedule::new(0);
    assert!(matches!(schedule.step(0), TrackingStep::Send));
    schedule.sent(MS);
    match schedule.step(MS) {
        TrackingStep::Wait(ns) => assert_eq!(ns, 5 * MS),
        _ => panic!("expected a pause"),
    }
    assert!(matches!(schedule.step(11_111_000), TrackingStep::Send));
    schedule.sent(10_000 * MS);
    assert!(schedule.next_send_ns >= 10_000 * MS);
    assert_eq!(schedule.packet_index, 2);
}

#[test]
fn views_are_versioned() {
    let mut state = None;
    assert!(latest_alvr_views_config(&state).is_none());
    assert_eq!(current_alvr_views_config(&state), default_views_config());
    let first = publish_views_config(&mut state, default_views_config());
    let second = publish_ipd(&mut state, 0.07_f32.to_bits());
    assert_ne!(first, second);
    let current = current_alvr_views_config(&state);
    assert_eq!(f32::from_bits(current.ipd_m), 0.07);
    assert_eq!(current.left_fov, default_views_config().left_fov);
}

#[test]
fn eyes_are_half_the_distance_apart() {
    let params = views_config_to_local_view_params(&default_views_config(), 0.032_f32.to_bits());
    assert_eq!(f32::from_bits(params[0][4]), -0.032);
    assert_eq!(f32::from_bits(params[1][4]), 0.032);
    assert_eq!(f32::from_bits(params[0][3]), 1.0);
}

#[test]
fn eye_distances_come_in_metres_or_millimetres() {
    assert_eq!(
        normalize_pimax_ipd_m(0.063_f32.to_bits()),
        Some(IpdReading::Metres(0.063_f32.to_bits()))
    );
    assert_eq!(
        normalize_pimax_ipd_m(0.5_f32.to_bits()),
        Some(IpdReading::Metres(0.08_f32.to_bits()))
    );
    assert_eq!(
        normalize_pimax_ipd_m(63.0_f32.to_bits()),
        Some(IpdReading::Millimetres(63.0_f32.to_bits()))
    );
    assert_eq!(normalize_pimax_ipd_m(0.0_f32.to_bits()), None);
    assert_eq!(normalize_pimax_ipd_m((-0.06_f32).to_bits()), None);
    assert_eq!(normalize_pimax_ipd_m(f32::NAN.to_bits()), None);
    assert_eq!(normalize_pimax_ipd_m(f32::INFINITY.to_bits()), None);
    assert_eq!(f32::from_bits(clamp_ipd(0.01_f32.to_bits())), 0.05);
    assert_eq!(f32::from_bits(clamp_ipd(0.07_f32.to_bits())), 0.07);
}

#[test]
fn fields_of_view_are_symmetric() {
    assert!(accepts_field_of_view(1.7_f32.to_bits(), 1.6_f32.to_bits()));
    assert!(!accepts_field_of_view(0.0_f32.to_bits(), 1.6_f32.to_bits()));
    assert!(!accepts_field_of_view(1.7_f32.to_bits(), f32::NAN.to_bits()));

    let mut state = None;
    let ipd_m = 0.064_f32.to_bits();
    let version = publish_field_of_view(&mut state, ipd_m, 1.5_f32.to_bits(), 20.0_f32.to_bits());
    assert_eq!(version, 1);
    let config = state.unwrap().config;
    assert_eq!(config.ipd_m, ipd_m);
    assert_eq!(f32::from_bits(config.left_fov.left), -1.5);
    assert_eq!(f32::from_bits(config.left_fov.right), 1.5);
    assert_eq!(f32::from_bits(config.left_fov.up), 8.0);
    assert_eq!(f32::from_bits(config.left_fov.down), -8.0);
    assert_eq!(config.right_fov.right, config.left_fov.right);

    let version = publish_field_of_view(&mut state, 0, 1.0_f32.to_bits(), 1.0_f32.to_bits());
    assert_eq!(version, 2);
    assert_eq!(state.unwrap().config.ipd_m, ipd_m);
}

#[test]
fn the_scale_is_applied_once() {
    let metres = |bits: u32| (f32::from_bits(bits) / 1000.0).to_bits();
    let halved = |bits: u32| (f32::from_bits(bits) * 0.5).to_bits();
    let mut state = None;
    let mut physical = 0;
    assert_eq!(notify_ipd_scale_changed(&mut state, physical, &halved), None);
    assert_eq!(state, None);
    let invalid = f32::NAN.to_bits();
    let refused =
        update_alvr_ipd_from_pimax(&mut state, &mut physical, invalid, &metres, &halved);
    assert_eq!(refused, None);
    let reported = 64.0_f32.to_bits();
    let version =
        update_alvr_ipd_from_pimax(&mut state, &mut physical, reported, &metres, &halved);
    assert_eq!(version, Some(1));
    assert_eq!(f32::from_bits(physical), 0.064);
    assert_eq!(f32::from_bits(state.unwrap().config.ipd_m), 0.032);
    assert_eq!(notify_ipd_scale_changed(&mut state, physical, &halved), Some(2));
    assert_eq!(notify_ipd_scale_changed(&mut state, physical, &halved), Some(3));
    assert_eq!(f32::from_bits(state.unwrap().config.ipd_m), 0.032);
    assert_eq!(state.unwrap().config.left_fov, default_views_config().left_fov);
}

#[test]
fn a_frame_is_reported_again_once_it_is_tracked_anew() {
    let mut state = AlvrClientStatisticsState::new();
    state.report_input_acquired(1, 0);
    assert!(state.report_submit(1, 0, 10).is_some());
    state.report_input_acquired(1, 20);
    assert!(state.report_submit(1, 0, 30).is_none());
    for timestamp in 2..514_u128 {
        state.report_input_acquired(timestamp, 40);
    }
    assert!(state.report_submit(1, 0, 50).is_none());
    state.report_input_acquired(1, 60);
    assert_eq!(state.report_submit(1, 0, 70).unwrap().target_timestamp_ns, 1);
}
