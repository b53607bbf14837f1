use pimax_alvr::controller::{
    build_active_interaction_profiles, build_button_entries, build_controller_device_motions,
    button_path_id, format_button_entries_for_hand, is_fresh, latest_controller_state,
    logs_controller_update, merge_controller_update, same_profile, update_controller_connection,
    update_controller_state, ButtonEntry, ButtonValue, ControllerSnapshot, ControllerStore,
    DeviceMotion, Hand, SingleControllerState, LEFT_HAND_PATH, OCULUS_TOUCH_PROFILE_PATH,
    RIGHT_HAND_PATH,
};
use pimax_alvr::protocol::hash_string;

const NOW: u64 = 10_000_000_000;

fn neutral() -> SingleControllerState {
    SingleControllerState {
        connected: true,
        handle: 1,
        motion: None,
        buttons_pressed: 0,
        buttons_touched: 0,
        trigger: 0.0_f32.to_bits(),
        grip: 0.0_f32.to_bits(),
        thumbstick_x: 0.0_f32.to_bits(),
        thumbstick_y: 0.0_f32.to_bits(),
        battery_percent: 100,
        last_updated_ns: NOW,
    }
}

fn nothing() -> ControllerSnapshot {
    ControllerSnapshot {
        left: None,
        right: None,
    }
}

fn store() -> ControllerStore {
    ControllerStore {
        snapshot: nothing(),
        left_updates: 0,
        right_updates: 0,
    }
}

fn entry<'a>(entries: &'a [ButtonEntry], hand: &str, suffix: &str) -> Option<&'a ButtonEntry> {
    let id = button_path_id(hand, suffix);
    entries.iter().find(|entry| entry.path_id == id)
}

#[test]
fn build_button_entries_empty_when_no_controllers() {
    let snapshot = nothing();
    assert!(build_button_entries(&snapshot, NOW).is_empty());
}

#[test]
fn build_button_entries_populates_for_connected_controller() {
    let snapshot = ControllerSnapshot {
        left: Some(SingleControllerState {
            buttons_pressed: 0x01,
            trigger: 0.8_f32.to_bits(),
            thumbstick_x: 0.5_f32.to_bits(),
            thumbstick_y: (-0.3_f32).to_bits(),
            battery_percent: 75,
            ..neutral()
        }),
        right: None,
    };
    let entries = build_button_entries(&snapshot, NOW);
    assert!(!entries.is_empty());

    let trigger_entry = entry(&entries, LEFT_HAND_PATH, "input/trigger/value");
    assert!(trigger_entry.is_some());
    match &trigger_entry.unwrap().value {
        ButtonValue::Scalar(v) => assert!((f32::from_bits(*v) - 0.8).abs() < f32::EPSILON),
        _ => panic!("expected Scalar for trigger"),
    }
}

#[test]
fn build_button_entries_maps_left_x_y_and_right_a_b() {
    let snapshot = ControllerSnapshot {
        left: Some(SingleControllerState {
            buttons_pressed: 0x30,
            ..neutral()
        }),
        right: Some(SingleControllerState {
            handle: 2,
            buttons_pressed: 0x30,
            ..neutral()
        }),
    };

    let entries = build_button_entries(&snapshot, NOW);

    let left_x = entry(&entries, LEFT_HAND_PATH, "input/x/click").expect("left x entry");
    let left_y = entry(&entries, LEFT_HAND_PATH, "input/y/click").expect("left y entry");
    let right_a = entry(&entries, RIGHT_HAND_PATH, "input/a/click").expect("right a entry");
    let right_b = entry(&entries, RIGHT_HAND_PATH, "input/b/click").expect("right b entry");

    assert!(matches!(left_x.value, ButtonValue::Binary(true)));
    assert!(matches!(left_y.value, ButtonValue::Binary(true)));
    assert!(matches!(right_a.value, ButtonValue::Binary(true)));
    assert!(matches!(right_b.value, ButtonValue::Binary(true)));
}

#[test]
fn build_button_entries_clears_missing_hand() {
    let snapshot = ControllerSnapshot {
        left: Some(SingleControllerState {
            buttons_pressed: 0x01,
            buttons_touched: 0x01,
            trigger: 0.8_f32.to_bits(),
            grip: 0.5_f32.to_bits(),
            thumbstick_x: 0.25_f32.to_bits(),
            thumbstick_y: (-0.25_f32).to_bits(),
            battery_percent: 75,
            ..neutral()
        }),
        right: None,
    };

    let entries = build_button_entries(&snapshot, NOW);
    let right_trigger_entry = entry(&entries, RIGHT_HAND_PATH, "input/trigger/value");
    assert!(right_trigger_entry.is_some());
    match &right_trigger_entry.unwrap().value {
        ButtonValue::Scalar(v) => assert_eq!(f32::from_bits(*v), 0.0),
        _ => panic!("expected Scalar for missing hand trigger"),
    }
}

#[test]
fn build_button_entries_preserves_right_thumbstick_x() {
    let snapshot = ControllerSnapshot {
        left: None,
        right: Some(SingleControllerState {
            handle: 2,
            thumbstick_x: 0.5_f32.to_bits(),
            ..neutral()
        }),
    };

    let entries = build_button_entries(&snapshot, NOW);
    let found =
        entry(&entries, RIGHT_HAND_PATH, "input/thumbstick/x").expect("right thumbstick X entry");
    match &found.value {
        ButtonValue::Scalar(v) => assert_eq!(f32::from_bits(*v), 0.5),
        _ => panic!("expected Scalar for right thumbstick X"),
    }
}

#[test]
fn update_controller_state_overwrites_buttons_and_touches() {
    let mut store = store();
    let initial = SingleControllerState {
        handle: 9,
        motion: Some(DeviceMotion::default()),
        buttons_pressed: 0x03,
        buttons_touched: 0x03,
        ..neutral()
    };
    update_controller_state(&mut store, Hand::Left, initial, false);

    update_controller_state(
        &mut store,
        Hand::Left,
        SingleControllerState {
            handle: 9,
            ..neutral()
        },
        false,
    );

    let snapshot = latest_controller_state(&store);
    let left = snapshot.left.expect("left controller state");
    assert_eq!(left.buttons_pressed, 0x00);
    assert_eq!(left.buttons_touched, 0x00);
    assert!(left.motion.is_some());
    assert_eq!(store.left_updates, 2);
    assert_eq!(store.right_updates, 0);
}

#[test]
fn build_device_motions_empty_when_no_controllers() {
    let snapshot = nothing();
    assert!(build_controller_device_motions(&snapshot, NOW).is_empty());
}

#[test]
fn build_device_motions_skips_controller_without_motion() {
    let snapshot = ControllerSnapshot {
        left: Some(neutral()),
        right: None,
    };
    let motions = build_controller_device_motions(&snapshot, NOW);
    assert!(motions.is_empty());
}

#[test]
fn build_device_motions_includes_connected_controller_with_motion() {
    let snapshot = ControllerSnapshot {
        left: Some(SingleControllerState {
            motion: Some(DeviceMotion::default()),
            ..neutral()
        }),
        right: None,
    };
    let motions = build_controller_device_motions(&snapshot, NOW);
    assert_eq!(motions.len(), 1);
    assert_eq!(motions[0].0, hash_string(LEFT_HAND_PATH));
}

#[test]
fn path_id_is_deterministic() {
    let a = button_path_id(LEFT_HAND_PATH, "input/x/click");
    let b = button_path_id(LEFT_HAND_PATH, "input/x/click");
    assert_eq!(a, b);
    let c = button_path_id(RIGHT_HAND_PATH, "input/a/click");
    assert_ne!(a, c);
    assert_eq!(a, hash_string("/user/hand/left/input/x/click"));
}

#[test]
fn build_active_interaction_profiles_includes_supported_inputs() {
    let snapshot = ControllerSnapshot {
        left: Some(SingleControllerState {
            handle: 7,
            ..neutral()
        }),
        right: None,
    };

    let profiles = build_active_interaction_profiles(&snapshot, NOW);
    assert_eq!(profiles.len(), 1);
    let profile = &profiles[0];
    assert_eq!(profile.device_id, hash_string(LEFT_HAND_PATH));
    assert_eq!(profile.profile_id, hash_string(OCULUS_TOUCH_PROFILE_PATH));
    assert!(profile
        .input_ids
        .contains(&button_path_id(LEFT_HAND_PATH, "input/x/click")));
    assert!(profile
        .input_ids
        .contains(&button_path_id(LEFT_HAND_PATH, "input/trigger/value")));
    assert!(profile
        .input_ids
        .contains(&button_path_id(LEFT_HAND_PATH, "input/thumbstick/y")));
}

#[test]
fn build_active_interaction_profiles_combines_both_hands() {
    let snapshot = ControllerSnapshot {
        left: Some(neutral()),
        right: Some(SingleControllerState {
            handle: 2,
            ..neutral()
        }),
    };

    let profiles = build_active_interaction_profiles(&snapshot, NOW);
    assert_eq!(profiles.len(), 1);
    let profile = &profiles[0];
    assert!(profile
        .input_ids
        .contains(&button_path_id(LEFT_HAND_PATH, "input/x/click")));
    assert!(profile
        .input_ids
        .contains(&button_path_id(LEFT_HAND_PATH, "input/thumbstick/x")));
    assert!(profile
        .input_ids
        .contains(&button_path_id(RIGHT_HAND_PATH, "input/a/click")));
    assert!(profile
        .input_ids
        .contains(&button_path_id(RIGHT_HAND_PATH, "input/thumbstick/x")));
}

#[test]
fn merge_controller_update_preserves_thumbstick_sign_changes() {
    let previous = SingleControllerState {
        thumbstick_x: (-1.0_f32).to_bits(),
        thumbstick_y: 1.0_f32.to_bits(),
        ..neutral()
    };
    let incoming = SingleControllerState {
        thumbstick_x: 1.0_f32.to_bits(),
        thumbstick_y: (-1.0_f32).to_bits(),
        ..previous.clone()
    };

    let merged = merge_controller_update(Some(previous), incoming, false);

    assert_eq!(f32::from_bits(merged.thumbstick_x), 1.0);
    assert_eq!(f32::from_bits(merged.thumbstick_y), -1.0);
}

#[test]
fn small_movements_keep_the_position() {
    let at = |x: f32| {
        let mut motion = DeviceMotion::default();
        motion.pose.position = [x.to_bits(), 0, 0];
        SingleControllerState {
            motion: Some(motion),
            ..neutral()
        }
    };
    let kept = merge_controller_update(Some(at(1.0)), at(1.001), true);
    assert_eq!(f32::from_bits(kept.motion.unwrap().pose.position[0]), 1.0);
    let moved = merge_controller_update(Some(at(1.0)), at(2.0), false);
    assert_eq!(f32::from_bits(moved.motion.unwrap().pose.position[0]), 2.0);
}

#[test]
fn states_go_stale_after_half_a_second() {
    let state = neutral();
    assert!(is_fresh(&state, NOW + 499_999_999));
    assert!(!is_fresh(&state, NOW + 500_000_000));
    let snapshot = ControllerSnapshot {
        left: Some(state),
        right: None,
    };
    assert!(build_button_entries(&snapshot, NOW + 600_000_000).is_empty());
    assert!(build_active_interaction_profiles(&snapshot, NOW + 600_000_000).is_empty());
}

#[test]
fn lost_controllers_leave_the_store() {
    let mut store = store();
    update_controller_state(&mut store, Hand::Right, neutral(), false);
    update_controller_connection(&mut store, Hand::Right, true);
    assert!(store.snapshot.right.is_some());
    update_controller_connection(&mut store, Hand::Right, false);
    assert!(store.snapshot.right.is_none());
}

#[test]
fn profiles_are_compared_by_what_they_hold() {
    let snapshot = ControllerSnapshot {
        left: Some(neutral()),
        right: None,
    };
    let both = ControllerSnapshot {
        left: Some(neutral()),
        right: Some(neutral()),
    };
    let a = build_active_interaction_profiles(&snapshot, NOW);
    let b = build_active_interaction_profiles(&snapshot, NOW);
    let c = build_active_interaction_profiles(&both, NOW);
    assert!(same_profile(&a[0], &b[0]));
    assert!(!same_profile(&a[0], &c[0]));
}

#[test]
fn entries_are_described_for_the_log() {
    let snapshot = ControllerSnapshot {
        left: Some(SingleControllerState {
            trigger: 0.5_f32.to_bits(),
            ..neutral()
        }),
        right: None,
    };
    let entries = build_button_entries(&snapshot, NOW);
    let write = |bits: u32| format!("{:.3}", f32::from_bits(bits));
    let text = format_button_entries_for_hand(&entries, LEFT_HAND_PATH, &write);
    assert!(text.contains("0.500"), "{text}");
}

#[test]
fn updates_are_logged_sparingly() {
    assert!(logs_controller_update(5));
    assert!(!logs_controller_update(6));
    assert!(logs_controller_update(7_200));
}
