use pimax_alvr::controller::{ControllerSnapshot, ControllerStore, DeviceMotion, Hand};
use pimax_alvr::frames::{
    begin_frame, cleanup_pimax_render_session, prepare_pimax_render_session,
    refresh_pimax_presentation, report_first_frame, start_pimax_render_session, FirstFrame,
    FrameStart, Picture, PowerStep, RefreshClient, RenderLoop, RuntimeCall, SystemUi,
};
use pimax_alvr::headset::{
    clamp_battery_percent, convert_head_pose, format_tracking_modes, jhand_to_controller_hand,
    reported_controller_state, select_bootstrap_tracking_mode, select_promotion_tracking_mode,
    HeadsetState, PimaxProbeReport,
};
use pimax_alvr::native::{
    battery_path, format_pimax_native_state_changes, map_pimax_native_buttons,
    normalize_pimax_native_axis, normalize_pimax_native_trigger, parse_battery, parse_i32,
    parse_pimax_native_controller_state, read_u32_at, read_u64_at, start_native_controller,
    AxisReading, NativeLog, PimaxNativeControllerParsed, PimaxNativeControllerRuntime,
    PIMAX_NATIVE_CONTROLLER_STATE_SIZE,
};
use pimax_alvr::pattern::{
    diagnostic_marker_rect, logs_frame, make_diagnostic_eye_pattern, make_texture_rect_from_base,
    sample_position, MarkerPositions, RectError, TextureRect,
};
use pimax_alvr::service::{
    checksum_bytes, derive_stick_axis, disconnect_controllers, format_hex_bytes, has_flag,
    push_pimax_controller_states, ring_buffer_available, sample_pimax_controller_ring_buffer,
    start_handle_field, ControllerQueries, PimaxControllerRuntime, RingChange,
};
use pimax_alvr::surface::{
    choose_presentation_display, context_attempts, egl_config_attributes, egl_context_attributes,
    egl_pbuffer_attributes, egl_window_attributes, is_presentation_display,
    submitted_image_handle, texture_memory_size, truncate_native_handle,
    use_hardware_buffer_eye_targets, DisplayCandidate, HandleError, ImageHandles,
    SubmittedImageHandleKind,
};

const SEC: u64 = 1_000_000_000;

fn store() -> ControllerStore {
    ControllerStore {
        snapshot: ControllerSnapshot {
            left: None,
            right: None,
        },
        left_updates: 0,
        right_updates: 0,
    }
}

#[test]
fn the_headset_refreshes_when_worn() {
    let mut headset = HeadsetState::default();
    headset.notify_screen(true);
    assert!(!headset.take_presentation_refresh_requested());
    headset.notify_proximity(true);
    assert!(headset.is_headset_near());
    assert!(headset.take_presentation_refresh_requested());
    assert!(!headset.take_presentation_refresh_requested());
    headset.notify_screen(true);
    assert!(headset.take_presentation_refresh_requested());
    headset.request_shutdown();
    assert!(headset.is_shutdown_requested());
    headset.reset_shutdown_requested();
    assert!(!headset.is_shutdown_requested());
}

#[test]
fn hands_and_batteries_are_translated() {
    assert!(matches!(jhand_to_controller_hand(0), Some(Hand::Left)));
    assert!(matches!(jhand_to_controller_hand(1), Some(Hand::Right)));
    assert!(jhand_to_controller_hand(2).is_none());
    assert_eq!(clamp_battery_percent(-5), 0);
    assert_eq!(clamp_battery_percent(42), 42);
    assert_eq!(clamp_battery_percent(500), 100);
    let state = reported_controller_state(3, -1, 2, 0, 0, 0, 0, 150, 9);
    assert_eq!(state.buttons_pressed, u32::MAX);
    assert_eq!(state.battery_percent, 100);
    assert_eq!(state.last_updated_ns, 9);
}

#[test]
fn tracking_modes_are_chosen() {
    assert_eq!(select_bootstrap_tracking_mode(Some(3)), 1);
    assert_eq!(select_promotion_tracking_mode(Some(3), 1), None);
    let text = format_tracking_modes(3);
    assert!(text.contains("rotation|position"), "{text}");
}

#[test]
fn probes_are_summed_up() {
    let report = PimaxProbeReport {
        pxr_version: Some("1.0 \"beta\"".to_string()),
        vr_mode: Some(-1),
        ..PimaxProbeReport::default()
    };
    let text = report.summary();
    assert!(
        text.starts_with("pxr_version=Some(\"1.0 \\\"beta\\\"\"), client_version=None,"),
        "{text}"
    );
    assert!(text.contains("vr_mode=Some(-1), start_vr_mode_result=None"), "{text}");
}

#[test]
fn head_poses_change_their_handedness() {
    let bits = |value: f32| value.to_bits();
    let pose = convert_head_pose(
        [bits(1.0), bits(2.0), bits(3.0)],
        [bits(0.1), bits(0.2), bits(0.3), bits(0.9)],
        -5,
        6,
        7,
    )
    .unwrap();
    assert_eq!(pose.position.map(f32::from_bits), [1.0, -2.0, 3.0]);
    assert_eq!(pose.orientation.map(f32::from_bits), [-0.1, -0.2, -0.3, 0.9]);
    assert_eq!(pose.pose_timestamp_ns, 0);
    assert_eq!(pose.expected_display_timestamp_ns, 6);
    assert_eq!(pose.fetch_timestamp_ns, 7);
    assert!(convert_head_pose([bits(f32::NAN), 0, 0], [0; 4], 0, 0, 0).is_none());
}

#[test]
fn the_service_reports_both_hands() {
    let mut runtime = PimaxControllerRuntime::new(7, 10 * SEC);
    let plan = runtime.poll(10 * SEC);
    assert!(plan.sample_ring && plan.query);
    let plan = runtime.poll(10 * SEC + 50_000_000);
    assert!(plan.sample_ring && !plan.query);
    let mut store = store();
    let queries = ControllerQueries {
        buttons: 8192 | 65536 | 32768 | 256,
        touches: 4,
        active_1d: 8,
        active_2d: 0,
        battery: 120,
    };
    assert!(push_pimax_controller_states(&mut runtime, &mut store, &queries, 11 * SEC));
    let left = store.snapshot.left.unwrap();
    assert_eq!(left.buttons_pressed, 0b000011);
    assert_eq!(left.buttons_touched, 0b010000);
    assert_eq!(f32::from_bits(left.trigger), 1.0);
    assert_eq!(f32::from_bits(left.grip), 0.0);
    assert_eq!(f32::from_bits(left.thumbstick_x), 0.0);
    assert_eq!(f32::from_bits(left.thumbstick_y), 1.0);
    assert_eq!(left.battery_percent, 100);
    let right = store.snapshot.right.unwrap();
    assert_eq!(right.buttons_pressed, 0b000100);
    assert_eq!(f32::from_bits(right.grip), 1.0);
    for _ in 0..4 {
        assert!(push_pimax_controller_states(&mut runtime, &mut store, &queries, 12 * SEC));
    }
    assert!(!push_pimax_controller_states(&mut runtime, &mut store, &queries, 12 * SEC));
    disconnect_controllers(&mut store);
    assert!(store.snapshot.left.is_none() && store.snapshot.right.is_none());
}

#[test]
fn small_helpers_of_the_service() {
    assert!(has_flag(6, 2) && !has_flag(4, 2));
    assert_eq!(f32::from_bits(derive_stick_axis(true, false)), -1.0);
    assert_eq!(f32::from_bits(derive_stick_axis(true, true)), 0.0);
    assert!(ring_buffer_available(0, 1));
    assert!(!ring_buffer_available(-1, 1) && !ring_buffer_available(3, 0));
    assert_eq!(start_handle_field(0), Some("handle"));
    assert_eq!(start_handle_field(7), Some("mFd"));
    assert_eq!(start_handle_field(8), None);
    assert_eq!(checksum_bytes(b""), 0xcbf2_9ce4_8422_2325);
    assert_eq!(checksum_bytes(b"a"), 0xaf63_dc4c_8601_ec8c);
    assert_eq!(format_hex_bytes(&[1, 0xab]), "01 ab");
}

#[test]
fn ring_changes_are_listed() {
    let mut runtime = PimaxControllerRuntime::new(7, 10 * SEC);
    let look = |runtime: &mut PimaxControllerRuntime, bytes: &[u8], now: u64| {
        sample_pimax_controller_ring_buffer(runtime, bytes, now)
    };
    assert_eq!(look(&mut runtime, &[], 0), RingChange::Nothing);
    assert_eq!(look(&mut runtime, &[0; 6], 0), RingChange::First);
    assert_eq!(look(&mut runtime, &[0; 6], 0), RingChange::Nothing);
    match look(&mut runtime, &[1, 0, 0, 0, 0, 2], 11 * SEC) {
        RingChange::Changed { count, logged } => {
            assert_eq!(count, 2);
            assert_eq!(
                logged.as_deref(),
                Some("0x0000:0x00000000->0x00000001, 0x0004:0x00000000->0x00000200")
            );
        }
        _ => panic!("expected a change"),
    }
    runtime.poll_count = 11;
    match look(&mut runtime, &[3, 0, 0, 0, 0, 2], 11 * SEC) {
        RingChange::Changed { count, logged } => {
            assert_eq!(count, 1);
            assert_eq!(logged, None);
        }
        _ => panic!("expected a change"),
    }
}

fn parsed(buttons: u32, touches: u32, trigger: f32, grip: f32) -> PimaxNativeControllerParsed {
    PimaxNativeControllerParsed {
        motion: DeviceMotion::default(),
        timestamp_ns: 0,
        buttons,
        touches,
        thumbstick_x: 0,
        thumbstick_y: 0,
        trigger: trigger.to_bits(),
        grip: grip.to_bits(),
    }
}

#[test]
fn native_states_are_read_from_their_bytes() {
    let mut bytes = [0_u8; PIMAX_NATIVE_CONTROLLER_STATE_SIZE];
    let mut put = |offset: usize, value: u32| {
        bytes[offset..offset + 4].copy_from_slice(&value.to_le_bytes());
    };
    put(0x0c, 1.0_f32.to_bits());
    put(0x10, 2.0_f32.to_bits());
    put(0x1c, f32::INFINITY.to_bits());
    put(0x28, 3.0_f32.to_bits());
    put(0x38, 77);
    put(0x40, 5);
    put(0x44, 255.0_f32.to_bits());
    put(0x48, 1.5_f32.to_bits());
    put(0x64, 0.5_f32.to_bits());
    put(0x6c, 200.0_f32.to_bits());
    put(0x84, 9);
    let reading = parse_pimax_native_controller_state(&bytes);
    assert_eq!(reading.orientation, Some([0, 0, 0, 1.0_f32.to_bits()]));
    assert_eq!(f32::from_bits(reading.position[0]), 2.0);
    assert_eq!(reading.angular_velocity, [0, 0, 0]);
    assert_eq!(f32::from_bits(reading.linear_velocity[0]), 3.0);
    assert_eq!(reading.timestamp_ns, 77);
    assert_eq!(reading.buttons, 5);
    assert_eq!(reading.touches, 9);
    assert_eq!(reading.thumbstick_x, AxisReading::Byte(255.0_f32.to_bits()));
    assert_eq!(reading.thumbstick_y, AxisReading::Fraction(1.0_f32.to_bits()));
    assert_eq!(reading.trigger, AxisReading::Fraction(0.5_f32.to_bits()));
    assert_eq!(reading.grip, AxisReading::Byte(200.0_f32.to_bits()));
    let mut changed = bytes;
    changed[0x40] = 6;
    assert_eq!(
        format_pimax_native_state_changes(&bytes, &changed),
        "0x40:0x00000005->0x00000006"
    );
    assert_eq!(read_u32_at(&[1, 2, 3], 0), 0);
    assert_eq!(read_u64_at(&[1, 0, 0, 0, 0, 0, 0, 0], 0), 1);
    assert_eq!(
        normalize_pimax_native_axis(f32::NAN.to_bits()),
        AxisReading::Fraction(0)
    );
    assert_eq!(
        normalize_pimax_native_axis((-3.0_f32).to_bits()),
        AxisReading::Byte((-3.0_f32).to_bits())
    );
    assert_eq!(
        normalize_pimax_native_trigger((-3.0_f32).to_bits()),
        AxisReading::Fraction(0)
    );
}

#[test]
fn native_buttons_are_mapped() {
    assert_eq!(map_pimax_native_buttons(&parsed(0, 0, 0.2, 0.01)), (0, 1));
    assert_eq!(map_pimax_native_buttons(&parsed(0, 0, 0.21, 0.5)), (0b001001, 0b001001));
    assert_eq!(
        map_pimax_native_buttons(&parsed(1 | 8 | 512 | 8388608, 0x2000 | 32, 0.0, 0.0)),
        (0b110110, 0b000011)
    );
}

#[test]
fn batteries_are_read_as_numbers() {
    assert_eq!(parse_battery(" 87\n"), Some(87));
    assert_eq!(parse_battery("250"), Some(100));
    assert_eq!(parse_battery("-3"), Some(0));
    assert_eq!(parse_battery("8x"), None);
    assert_eq!(parse_battery(""), None);
    for text in ["0", "+7", "-0", "2147483647", "2147483648", "-2147483648", "-2147483649", "-", "+"] {
        assert_eq!(parse_i32(text), text.parse::<i32>().ok(), "{text}");
    }
    assert!(battery_path(Hand::Left).ends_with("controller_left/battery"));
}

#[test]
fn native_controllers_are_polled() {
    let mut store = store();
    assert!(start_native_controller(&mut store, Hand::Left, -1, None, 0).is_none());
    let left = start_native_controller(&mut store, Hand::Left, 4, None, 10 * SEC).unwrap();
    assert_eq!(left.last_battery, 100);
    assert!(PimaxNativeControllerRuntime::new(vec![], 0).is_none());
    let mut runtime = PimaxNativeControllerRuntime::new(vec![left], 10 * SEC).unwrap();
    let poll = runtime.begin_poll(10 * SEC).unwrap();
    assert!(runtime.begin_poll(10 * SEC + 19_000_000).is_none());
    let mut controller = runtime.controllers.remove(0);
    assert!(controller.battery_due(10 * SEC));
    controller.take_battery(Some(55), 10 * SEC);
    assert!(!controller.battery_due(10 * SEC + 5));
    let mut state = [0_u8; PIMAX_NATIVE_CONTROLLER_STATE_SIZE];
    state[0x40] = 1;
    let log = controller.take_state(
        &mut store,
        &state,
        &parsed(1, 0, 0.0, 0.0),
        false,
        false,
        &poll,
        10 * SEC,
    );
    assert_eq!(
        log,
        NativeLog::Change("0x40:0x00000000->0x00000001".to_string())
    );
    runtime.end_poll(true, 10 * SEC);
    assert_eq!(runtime.last_change_log_ns, 10 * SEC);
    let pushed = store.snapshot.left.unwrap();
    assert_eq!(pushed.handle, 4);
    assert_eq!(pushed.battery_percent, 55);
    assert_eq!(pushed.buttons_pressed, 0b010000);
    assert!(pushed.motion.is_some());
}

#[test]
fn test_pictures_are_drawn() {
    let left = make_diagnostic_eye_pattern(300, 200, true);
    let right = make_diagnostic_eye_pattern(300, 200, false);
    assert_eq!(left.len(), 300 * 200 * 4);
    let pixel = |picture: &[u8], x: usize, y: usize| picture[(y * 300 + x) * 4..][..4].to_vec();
    assert_eq!(pixel(&left, 150, 100), vec![255; 4]);
    assert_eq!(pixel(&left, 250, 30), vec![233, 77, 28, 255]);
    assert_ne!(pixel(&left, 250, 30), pixel(&right, 250, 30));
    let cell = pixel(&left, 30, 20 + 12);
    assert_eq!(cell, vec![255; 4]);
    assert_eq!(make_diagnostic_eye_pattern(0, -4, true).len(), 4);
}

#[test]
fn markers_move_over_the_picture() {
    let rect = diagnostic_marker_rect(0, 1000, 900);
    assert_eq!((rect.x, rect.y, rect.width, rect.height), (0, 0, 112, 112));
    let rect = diagnostic_marker_rect(90, 1000, 900);
    assert_eq!((rect.x, rect.y), (888, 394));
    let rect = diagnostic_marker_rect(-1, 1000, 900);
    assert_eq!((rect.x, rect.y), (9, 0));
    let mut positions = MarkerPositions::new();
    assert_eq!(positions.update_diagnostic_pattern_marker(1, 0, 1000, 900).len(), 2);
    positions.marker_drawn(1, 0, 1000, 900);
    let uploads = positions.update_diagnostic_pattern_marker(1, 4, 1000, 900);
    assert_eq!(uploads.len(), 4);
    assert!(uploads[0].left_eye && uploads[0].color.is_none());
    assert_eq!(uploads[2].color, Some([32, 255, 96, 255]));
    assert_eq!(uploads[3].color, Some([255, 64, 220, 255]));
    assert!(logs_frame(4) && !logs_frame(5) && logs_frame(240));
    assert_eq!(sample_position(101, 5), 50);
}

#[test]
fn rectangles_are_cut_out() {
    let base: Vec<u8> = (0..4 * 3 * 2).collect();
    let rect = TextureRect {
        x: 1,
        y: 1,
        width: 2,
        height: 1,
    };
    let cut = make_texture_rect_from_base(&base, 3, 2, rect, None).ok().unwrap();
    assert_eq!(cut, vec![16, 17, 18, 19, 20, 21, 22, 23]);
    let framed = make_texture_rect_from_base(&base, 3, 2, rect, Some([9, 9, 9, 9])).ok().unwrap();
    assert_eq!(framed, vec![0, 0, 0, 255, 0, 0, 0, 255]);
    let outside = TextureRect { x: 2, ..rect };
    let error = make_texture_rect_from_base(&base, 3, 2, outside, None).err().unwrap();
    assert_eq!(
        error.text(),
        "diagnostic texture rect out of bounds: rect=2x1+2,1 texture=3x2"
    );
    let error = make_texture_rect_from_base(&base[1..], 3, 2, rect, None).err().unwrap();
    assert!(matches!(error, RectError::BaseTooSmall { .. }));
    assert_eq!(
        error.text(),
        "diagnostic base texture too small: got 23 bytes, expected at least 24"
    );
}

#[test]
fn displays_are_chosen_by_name() {
    assert!(is_presentation_display(8, "PxrScreenCast"));
    assert!(!is_presentation_display(7, "PxrScreenCast"));
    assert!(!is_presentation_display(8, "Screen"));
    let display = |name: &str, flags: i32| DisplayCandidate {
        id: 0,
        name: name.to_string(),
        flags,
    };
    let displays = vec![
        display("Built-in", 15),
        display("PxrScreenShot", 0),
        display("PxrScreenRecord", 12),
        display("PxrScreenShot", 8),
    ];
    assert_eq!(choose_presentation_display(&displays), Some(2));
    assert_eq!(choose_presentation_display(&vec![]), None);
}

#[test]
fn contexts_are_tried_in_turn() {
    let attempts = context_attempts(&[true, false], &[3, 2]);
    let flat: Vec<(bool, i32)> = attempts.iter().map(|a| (a.protected, a.version)).collect();
    assert_eq!(flat, vec![(true, 3), (true, 2), (false, 3), (false, 2)]);
    assert_eq!(egl_context_attributes(3, false), vec![0x3098, 3, 0x3038]);
    assert_eq!(
        egl_context_attributes(2, true),
        vec![0x3098, 2, 0x32c0, 1, 0x3038]
    );
    assert_eq!(egl_window_attributes(false), vec![0x3038]);
    assert_eq!(egl_pbuffer_attributes(false), vec![0x3057, 2, 0x3056, 2, 0x3038]);
    assert_eq!(egl_config_attributes(4, 0x40).len(), 13);
}

#[test]
fn pictures_are_submitted_by_handle() {
    let handles = ImageHandles {
        texture: 5,
        egl_image: Some(0x1_8000_0000),
        egl_client_buffer: Some(0),
        hardware_buffer: None,
    };
    let submit = |kind| submitted_image_handle(kind, &handles);
    assert_eq!(submit(SubmittedImageHandleKind::TextureId).ok(), Some(5));
    assert_eq!(submit(SubmittedImageHandleKind::EglImage).ok(), Some(i32::MIN));
    let null = submit(SubmittedImageHandleKind::EglClientBuffer).err().unwrap();
    assert_eq!(null.text(), "EGLClientBuffer handle is null");
    let missing = submit(SubmittedImageHandleKind::HardwareBufferPtr).err().unwrap();
    assert!(matches!(missing, HandleError::Missing(_)));
    assert_eq!(missing.text(), "missing AHardwareBuffer for kTypeImage submission");
    assert_eq!(truncate_native_handle(0), None);
    assert!(!use_hardware_buffer_eye_targets(
        "kTypeTexture",
        SubmittedImageHandleKind::TextureId
    ));
    assert!(use_hardware_buffer_eye_targets(
        "kTypeImage",
        SubmittedImageHandleKind::TextureId
    ));
    assert_eq!(texture_memory_size(10, 0), 40);
    assert_eq!(texture_memory_size(i32::MAX, i32::MAX), i32::MAX);
}

#[test]
fn frames_follow_their_turns() {
    let mut state = RenderLoop::new(Some(3));
    let mut slots = Vec::new();
    for _ in 0..5 {
        slots.push(state.slot());
        state.end_frame();
    }
    assert_eq!(slots, vec![0, 1, 2, 3, 0]);
    state.frame_index = i32::MAX;
    assert_eq!(state.slot(), 3);
    state.end_frame();
    assert_eq!(state.frame_index, i32::MIN);
    assert_eq!(state.slot(), 0);

    let mut state = RenderLoop::new(Some(3));
    assert!(matches!(state.choose_picture(None), Picture::Pattern));
    assert!(matches!(
        state.choose_picture(Some(9)),
        Picture::Upload { timestamp_ns: 9 }
    ));
    assert!(state.video_uploaded(9));
    assert!(matches!(state.choose_picture(Some(9)), Picture::Keep));
    assert!(matches!(state.submitted(false), FirstFrame::Deferred { logs: true }));
    assert!(matches!(
        state.submitted(true),
        FirstFrame::Report {
            tracking_mode: Some(3)
        }
    ));
    assert!(matches!(state.submitted(true), FirstFrame::Done));
    assert!(matches!(state.power_step(true), PowerStep::Query { logs: true }));
    assert!(matches!(state.power_step(false), PowerStep::Release { logs: true }));
    assert!(!state.hides_system_ui());
    assert!(state.pose_read(true) && state.pose_read(false));
    state.end_frame();
    assert!(matches!(state.power_step(true), PowerStep::Nothing));
    assert!(matches!(
        state.choose_picture(Some(9)),
        Picture::Upload { timestamp_ns: 9 }
    ));
    state.frame_index = 120;
    assert!(state.hides_system_ui());
    assert!(state.logs_timings(0));
    state.frame_index = 121;
    assert!(!state.logs_timings(50_000_000) && state.logs_timings(50_000_001));
}

#[test]
fn the_loop_listens_to_the_headset() {
    let mut headset = HeadsetState::default();
    assert!(matches!(begin_frame(&mut headset), FrameStart::Continue));
    headset.request_presentation_refresh();
    assert!(matches!(begin_frame(&mut headset), FrameStart::SkipRefresh));
    headset.notify_proximity(true);
    assert!(matches!(begin_frame(&mut headset), FrameStart::Refresh));
    assert!(matches!(begin_frame(&mut headset), FrameStart::Continue));
    headset.request_shutdown();
    assert!(matches!(begin_frame(&mut headset), FrameStart::Exit));
}

#[test]
fn sessions_end_in_order() {
    assert_eq!(
        cleanup_pimax_render_session(false, true),
        vec![
            RuntimeCall::ServiceVsyncCapture { on: false },
            RuntimeCall::StopVsync,
            RuntimeCall::Presentation { on: false },
            RuntimeCall::EndXr,
            RuntimeCall::Shutdown,
            RuntimeCall::ReleaseWakeLock,
        ]
    );
    let cycle = vec![
        RuntimeCall::ClientVsyncCapture { on: true },
        RuntimeCall::StopVrMode,
        RuntimeCall::Pause { millis: 50 },
        RuntimeCall::EnterVrMode,
        RuntimeCall::HideSystemUi { ui: SystemUi::FirstFrameReady },
        RuntimeCall::HideSystemUi { ui: SystemUi::LowQualityWarning },
    ];
    let mut own = cycle.clone();
    own.extend([RuntimeCall::Presentation { on: true }, RuntimeCall::StartVsync]);
    assert_eq!(refresh_pimax_presentation(RefreshClient::Own), own);
    let mut temporary = vec![RuntimeCall::WaitForService { millis: 1_000 }];
    temporary.extend(cycle);
    temporary.extend([
        RuntimeCall::ServiceVsyncCapture { on: true },
        RuntimeCall::DisconnectClient,
        RuntimeCall::Presentation { on: true },
        RuntimeCall::StartVsync,
    ]);
    assert_eq!(refresh_pimax_presentation(RefreshClient::Temporary), temporary);
    assert_eq!(refresh_pimax_presentation(RefreshClient::Missing).len(), 3);
}

#[test]
fn sessions_start_in_order() {
    assert_eq!(
        prepare_pimax_render_session(false, true, true, 3),
        vec![
            RuntimeCall::VrWorkMode,
            RuntimeCall::ConfigureWindow,
            RuntimeCall::AcquireWakeLock,
            RuntimeCall::TrackingMode { mode: 3 },
            RuntimeCall::Pause { millis: 250 },
        ]
    );
    assert_eq!(
        prepare_pimax_render_session(true, true, false, 1),
        vec![
            RuntimeCall::VrWorkMode,
            RuntimeCall::ConfigureWindow,
            RuntimeCall::TrackingMode { mode: 1 },
            RuntimeCall::WaitForService { millis: 3_000 },
            RuntimeCall::EnterVrMode,
            RuntimeCall::HideSystemUi { ui: SystemUi::FirstFrameReady },
            RuntimeCall::HideSystemUi { ui: SystemUi::LowQualityWarning },
            RuntimeCall::Pause { millis: 250 },
        ]
    );
    assert_eq!(
        start_pimax_render_session(false),
        vec![RuntimeCall::StartVsync, RuntimeCall::ServiceVsyncCapture { on: true }]
    );
    assert_eq!(
        start_pimax_render_session(true),
        vec![RuntimeCall::StartVsync, RuntimeCall::ClientVsyncCapture { on: true }]
    );
    assert_eq!(
        report_first_frame(Some(3), false),
        vec![RuntimeCall::TrackingMode { mode: 3 }, RuntimeCall::FirstFrameComplete]
    );
    assert_eq!(report_first_frame(None, true).len(), 3);
    assert_eq!(SystemUi::FirstFrameReady.name(), "vr_first_frame_ready");
    assert_eq!(SystemUi::LowQualityWarning.name(), "6dofWarning_low_quality");
}
