//! State of the two hand controllers, and what the server is told of it.

use std::collections::HashSet;
use vstd::prelude::*;
use vstd::std_specs::iter::IteratorSpec;

use crate::decoder::same_text;
use crate::protocol::{hash_of, hash_string};
use crate::recovery::{elapsed, elapsed_ns};
use crate::text::{bool_text, format_bool, join_text, joined, views};

verus! {

broadcast use vstd::std_specs::hash::group_hash_axioms;

// ---------------------------------------------------------------------------
// Types
// ---------------------------------------------------------------------------

/// The value of one input. An axis is carried as the bits of its 32-bit float.
#[derive(Clone, Copy, Debug, PartialEq, Eq, Structural)]
pub enum ButtonValue {
    Binary(bool),
    Scalar(u32),
}

/// One input and its value. The id is the hash of the input's path.
#[derive(Clone, Copy, Debug, PartialEq, Eq, Structural)]
pub struct ButtonEntry {
    pub path_id: u64,
    pub value: ButtonValue,
}

/// A hand.
#[derive(Clone, Copy, Debug, PartialEq, Eq, Structural)]
pub enum Hand {
    Left,
    Right,
}

/// The interaction profile that the controllers are announced with.
pub const OCULUS_TOUCH_PROFILE_PATH: &'static str = "/interaction_profiles/oculus/touch_controller";

/// Device path of the left controller.
pub const LEFT_HAND_PATH: &'static str = "/user/hand/left";

/// Device path of the right controller.
pub const RIGHT_HAND_PATH: &'static str = "/user/hand/right";

/// The inputs of the devices that are active.
#[derive(Debug, PartialEq, Eq)]
pub struct ActiveInteractionProfile {
    pub device_id: u64,
    pub profile_id: u64,
    pub input_ids: HashSet<u64>,
}

/// Orientation and position, as the bits of their 32-bit floats.
#[derive(Clone, Copy, Debug, PartialEq, Eq)]
pub struct Pose {
    pub orientation: [u32; 4],
    pub position: [u32; 3],
}

/// Pose and velocities of a device, as the bits of their 32-bit floats.
#[derive(Clone, Copy, Debug, PartialEq, Eq)]
pub struct DeviceMotion {
    pub pose: Pose,
    pub linear_velocity: [u32; 3],
    pub angular_velocity: [u32; 3],
}

/// Bits of the float one.
pub const ONE_BITS: u32 = 0x3f80_0000;

impl Default for Pose {
    fn default() -> (pose: Self)
        ensures
            pose.orientation@ == seq![0u32, 0, 0, ONE_BITS],
            pose.position@ == seq![0u32, 0, 0],
    {
        let pose = Pose { orientation: [0, 0, 0, ONE_BITS], position: [0, 0, 0] };
        assert(pose.orientation@ =~= seq![0u32, 0, 0, ONE_BITS]);
        assert(pose.position@ =~= seq![0u32, 0, 0]);
        pose
    }
}

impl Default for DeviceMotion {
    fn default() -> (motion: Self)
        ensures
            motion.pose.orientation@ == seq![0u32, 0, 0, ONE_BITS],
            motion.pose.position@ == seq![0u32, 0, 0],
            motion.linear_velocity@ == seq![0u32, 0, 0],
            motion.angular_velocity@ == seq![0u32, 0, 0],
    {
        let motion = DeviceMotion {
            pose: Pose::default(),
            linear_velocity: [0, 0, 0],
            angular_velocity: [0, 0, 0],
        };
        assert(motion.linear_velocity@ =~= seq![0u32, 0, 0]);
        assert(motion.angular_velocity@ =~= seq![0u32, 0, 0]);
        motion
    }
}

/// State of one controller. The axes are the bits of their 32-bit floats.
#[derive(Clone, Copy, Debug, PartialEq, Eq)]
pub struct SingleControllerState {
    pub connected: bool,
    pub handle: i32,
    /// Pose and velocities, where the runtime gave them.
    pub motion: Option<DeviceMotion>,
    /// One bit for each button that is pressed.
    pub buttons_pressed: u32,
    /// One bit for each button that is touched.
    pub buttons_touched: u32,
    pub trigger: u32,
    pub grip: u32,
    pub thumbstick_x: u32,
    pub thumbstick_y: u32,
    pub battery_percent: u8,
    /// When the state was read, in nanoseconds of a clock that does not run backwards.
    pub last_updated_ns: u64,
}

/// State of both controllers.
#[derive(Clone, Copy, Debug, PartialEq, Eq)]
pub struct ControllerSnapshot {
    pub left: Option<SingleControllerState>,
    pub right: Option<SingleControllerState>,
}

impl Default for ControllerSnapshot {
    fn default() -> (snapshot: Self)
        ensures
            snapshot.left is None,
            snapshot.right is None,
    {
        ControllerSnapshot { left: None, right: None }
    }
}

/// The latest state of both controllers, and how many updates made it.
#[derive(Clone, Copy, Debug, PartialEq, Eq)]
pub struct ControllerStore {
    pub snapshot: ControllerSnapshot,
    pub left_updates: u64,
    pub right_updates: u64,
}

impl Default for ControllerStore {
    fn default() -> (store: Self)
        ensures
            store.snapshot.left is None,
            store.snapshot.right is None,
            store.left_updates == 0,
            store.right_updates == 0,
    {
        ControllerStore {
            snapshot: ControllerSnapshot::default(),
            left_updates: 0,
            right_updates: 0,
        }
    }
}

impl ControllerStore {
    /// Number of updates of a hand.
    pub open spec fn updates(self, hand: Hand) -> u64 {
        match hand {
            Hand::Left => self.left_updates,
            Hand::Right => self.right_updates,
        }
    }
}

impl ControllerSnapshot {
    /// State of a hand.
    pub open spec fn of(self, hand: Hand) -> Option<SingleControllerState> {
        match hand {
            Hand::Left => self.left,
            Hand::Right => self.right,
        }
    }
}

/// A state that is older counts as disconnected.
pub const STALE_THRESHOLD_MS: u64 = 500;

// ---------------------------------------------------------------------------
// Updates
// ---------------------------------------------------------------------------

/// The motion that follows `previous` when `incoming` arrives. Within the dead zone the position
/// stays where it was.
pub open spec fn motion_after(
    previous: Option<DeviceMotion>,
    incoming: DeviceMotion,
    within_deadzone: bool,
) -> DeviceMotion {
    match previous {
        Some(previous) if within_deadzone => DeviceMotion {
            pose: Pose { position: previous.pose.position, ..incoming.pose },
            ..incoming
        },
        _ => incoming,
    }
}

/// The state that follows `previous` when `incoming` arrives. A state without a motion keeps the
/// motion that was known.
pub open spec fn merged(
    previous: Option<SingleControllerState>,
    incoming: SingleControllerState,
    within_deadzone: bool,
) -> SingleControllerState {
    SingleControllerState {
        motion: match (previous, incoming.motion) {
            (Some(previous), Some(motion)) => Some(
                motion_after(previous.motion, motion, within_deadzone),
            ),
            (Some(previous), None) => previous.motion,
            (None, motion) => motion,
        },
        ..incoming
    }
}

/// Keeps the position of the controller while it moves within the dead zone. Whether it does
/// is for the caller to measure.
pub fn apply_controller_position_deadzone(
    previous: Option<DeviceMotion>,
    incoming: DeviceMotion,
    within_deadzone: bool,
) -> (motion: DeviceMotion)
    ensures
        motion == motion_after(previous, incoming, within_deadzone),
{
    match previous {
        Some(previous) => if within_deadzone {
            DeviceMotion {
                pose: Pose {
                    orientation: incoming.pose.orientation,
                    position: previous.pose.position,
                },
                linear_velocity: incoming.linear_velocity,
                angular_velocity: incoming.angular_velocity,
            }
        } else {
            incoming
        },
        None => incoming,
    }
}

/// Combines an update with what was known before.
pub fn merge_controller_update(
    previous: Option<SingleControllerState>,
    incoming: SingleControllerState,
    within_deadzone: bool,
) -> (state: SingleControllerState)
    ensures
        state == merged(previous, incoming, within_deadzone),
{
    let mut state = incoming;
    match previous {
        Some(previous) => {
            match incoming.motion {
                Some(motion) => {
                    state.motion =
                    Some(
                        apply_controller_position_deadzone(
                            previous.motion,
                            motion,
                            within_deadzone,
                        ),
                    );
                },
                None => {
                    state.motion = previous.motion;
                },
            }
        },
        None => {},
    }
    state
}

/// Takes over an update of one hand. The other hand keeps its state.
pub fn update_controller_state(
    store: &mut ControllerStore,
    hand: Hand,
    state: SingleControllerState,
    within_deadzone: bool,
)
    ensures
        final(store).snapshot.of(hand) == Some(
            merged(old(store).snapshot.of(hand), state, within_deadzone),
        ),
        final(store).updates(hand) == old(store).updates(hand).wrapping_add(1),
        forall|other: Hand|
            other != hand ==> {
                &&& #[trigger] final(store).snapshot.of(other) == old(store).snapshot.of(other)
                &&& final(store).updates(other) == old(store).updates(other)
            },
{
    match hand {
        Hand::Left => {
            let merged_state = merge_controller_update(store.snapshot.left, state, within_deadzone);
            store.snapshot.left = Some(merged_state);
            store.left_updates = store.left_updates.wrapping_add(1);
        },
        Hand::Right => {
            let merged_state = merge_controller_update(
                store.snapshot.right,
                state,
                within_deadzone,
            );
            store.snapshot.right = Some(merged_state);
            store.right_updates = store.right_updates.wrapping_add(1);
        },
    }
}

/// Whether the update that made `count` is worth a line in the log.
pub fn logs_controller_update(count: u64) -> (logs: bool)
    ensures
        logs == (count <= 5 || count % 3600 == 0),
{
    count <= 5 || count % 3600 == 0
}

/// Notes that a controller was connected or disconnected. A controller that is gone has no state.
pub fn update_controller_connection(store: &mut ControllerStore, hand: Hand, connected: bool)
    ensures
        final(store).snapshot.of(hand) == if connected {
            old(store).snapshot.of(hand)
        } else {
            None
        },
        final(store).left_updates == old(store).left_updates,
        final(store).right_updates == old(store).right_updates,
        forall|other: Hand|
            other != hand ==> #[trigger] final(store).snapshot.of(other) == old(
                store,
            ).snapshot.of(other),
{
    if !connected {
        match hand {
            Hand::Left => {
                store.snapshot.left = None;
            },
            Hand::Right => {
                store.snapshot.right = None;
            },
        }
    }
}

/// The latest state of both controllers.
pub fn latest_controller_state(store: &ControllerStore) -> (snapshot: ControllerSnapshot)
    ensures
        snapshot == store.snapshot,
{
    store.snapshot
}

// ---------------------------------------------------------------------------
// Inputs and their paths
// ---------------------------------------------------------------------------

/// A bit of a button mask, and the path of its input on either hand.
#[derive(Clone, Copy, Debug)]
pub struct ButtonBitMap {
    pub bit: u32,
    pub left_suffix: &'static str,
    pub right_suffix: &'static str,
}

/// Number of buttons that can be pressed.
pub const PRESS_COUNT: usize = 6;

/// Number of buttons that can be touched.
pub const TOUCH_COUNT: usize = 5;

/// Number of axes.
pub const ANALOG_COUNT: usize = 4;

/// Number of inputs of a controller.
pub const INPUT_COUNT: usize = 15;

/// Path of a button that can be pressed. The bits of the mask follow the same order.
pub open spec fn press_suffix(index: int, left: bool) -> Seq<char> {
    if index == 0 {
        "input/trigger/click"@
    } else if index == 1 {
        "input/thumbstick/click"@
    } else if index == 2 {
        "input/menu/click"@
    } else if index == 3 {
        "input/squeeze/click"@
    } else if index == 4 {
        if left {
            "input/x/click"@
        } else {
            "input/a/click"@
        }
    } else {
        if left {
            "input/y/click"@
        } else {
            "input/b/click"@
        }
    }
}

/// Path of a button that can be touched.
pub open spec fn touch_suffix(index: int, left: bool) -> Seq<char> {
    if index == 0 {
        "input/trigger/touch"@
    } else if index == 1 {
        "input/thumbstick/touch"@
    } else if index == 2 {
        "input/squeeze/touch"@
    } else if index == 3 {
        if left {
            "input/x/touch"@
        } else {
            "input/a/touch"@
        }
    } else {
        if left {
            "input/y/touch"@
        } else {
            "input/b/touch"@
        }
    }
}

/// Bit of a button that can be touched. The menu button cannot.
pub open spec fn touch_bit(index: int) -> u32 {
    if index < 2 {
        index as u32
    } else {
        (index + 1) as u32
    }
}

/// Path of an axis.
pub open spec fn analog_suffix(index: int) -> Seq<char> {
    if index == 0 {
        "input/trigger/value"@
    } else if index == 1 {
        "input/squeeze/value"@
    } else if index == 2 {
        "input/thumbstick/x"@
    } else {
        "input/thumbstick/y"@
    }
}

/// A button that can be pressed.
fn press_mapping(index: usize) -> (mapping: ButtonBitMap)
    requires
        index < PRESS_COUNT,
    ensures
        mapping.bit == index,
        mapping.left_suffix@ == press_suffix(index as int, true),
        mapping.right_suffix@ == press_suffix(index as int, false),
{
    match index {
        0 => ButtonBitMap {
            bit: 0,
            left_suffix: "input/trigger/click",
            right_suffix: "input/trigger/click",
        },
        1 => ButtonBitMap {
            bit: 1,
            left_suffix: "input/thumbstick/click",
            right_suffix: "input/thumbstick/click",
        },
        2 => ButtonBitMap {
            bit: 2,
            left_suffix: "input/menu/click",
            right_suffix: "input/menu/click",
        },
        3 => ButtonBitMap {
            bit: 3,
            left_suffix: "input/squeeze/click",
            right_suffix: "input/squeeze/click",
        },
        4 => ButtonBitMap { bit: 4, left_suffix: "input/x/click", right_suffix: "input/a/click" },
        _ => ButtonBitMap { bit: 5, left_suffix: "input/y/click", right_suffix: "input/b/click" },
    }
}

/// A button that can be touched.
fn touch_mapping(index: usize) -> (mapping: ButtonBitMap)
    requires
        index < TOUCH_COUNT,
    ensures
        mapping.bit == touch_bit(index as int),
        mapping.bit < 6,
        mapping.left_suffix@ == touch_suffix(index as int, true),
        mapping.right_suffix@ == touch_suffix(index as int, false),
{
    match index {
        0 => ButtonBitMap {
            bit: 0,
            left_suffix: "input/trigger/touch",
            right_suffix: "input/trigger/touch",
        },
        1 => ButtonBitMap {
            bit: 1,
            left_suffix: "input/thumbstick/touch",
            right_suffix: "input/thumbstick/touch",
        },
        2 => ButtonBitMap {
            bit: 3,
            left_suffix: "input/squeeze/touch",
            right_suffix: "input/squeeze/touch",
        },
        3 => ButtonBitMap { bit: 4, left_suffix: "input/x/touch", right_suffix: "input/a/touch" },
        _ => ButtonBitMap { bit: 5, left_suffix: "input/y/touch", right_suffix: "input/b/touch" },
    }
}

/// Path of an axis.
fn analog_path(index: usize) -> (suffix: &'static str)
    requires
        index < ANALOG_COUNT,
    ensures
        suffix@ == analog_suffix(index as int),
{
    match index {
        0 => "input/trigger/value",
        1 => "input/squeeze/value",
        2 => "input/thumbstick/x",
        _ => "input/thumbstick/y",
    }
}

/// Full path of an input.
pub open spec fn full_path(hand_path: Seq<char>, suffix: Seq<char>) -> Seq<char> {
    hand_path + "/"@ + suffix
}

/// Id of an input: the hash of its full path.
pub open spec fn path_id(hand_path: Seq<char>, suffix: Seq<char>) -> u64 {
    hash_of(full_path(hand_path, suffix))
}

fn input_path(hand_path: &str, suffix: &str) -> (path: String)
    ensures
        path@ == full_path(hand_path@, suffix@),
{
    let mut path: String = hand_path.to_owned();
    path.append("/");
    path.append(suffix);
    path
}

/// Id of the input `suffix` of the hand.
pub fn button_path_id(hand_path: &str, suffix: &str) -> (id: u64)
    ensures
        id == path_id(hand_path@, suffix@),
{
    let path: String = input_path(hand_path, suffix);
    hash_string(path.as_str())
}

/// The path is that of the left hand. Every other path has the inputs of the right hand.
pub open spec fn is_left(hand_path: Seq<char>) -> bool {
    hand_path == LEFT_HAND_PATH@
}

/// The input's path on the given hand.
pub fn suffix_for_hand(mapping: &ButtonBitMap, hand_path: &str) -> (suffix: &'static str)
    ensures
        suffix@ == if is_left(hand_path@) {
            mapping.left_suffix@
        } else {
            mapping.right_suffix@
        },
{
    if same_text(hand_path, LEFT_HAND_PATH) {
        mapping.left_suffix
    } else {
        mapping.right_suffix
    }
}

/// Path of an input: first the buttons that can be pressed, then those that can be touched, then
/// the axes.
pub open spec fn input_suffix(index: int, left: bool) -> Seq<char> {
    if index < PRESS_COUNT {
        press_suffix(index, left)
    } else if index < PRESS_COUNT + TOUCH_COUNT {
        touch_suffix(index - PRESS_COUNT, left)
    } else {
        analog_suffix(index - PRESS_COUNT - TOUCH_COUNT)
    }
}

/// A bit of a mask is set.
pub open spec fn bit_set(mask: u32, bit: u32) -> bool {
    (mask >> bit) & 1 != 0
}

/// Value of an input, in the order of `input_suffix`. Without a state every input is neutral.
pub open spec fn input_value(index: int, state: Option<SingleControllerState>) -> ButtonValue {
    if index < PRESS_COUNT {
        ButtonValue::Binary(
            match state {
                Some(state) => bit_set(state.buttons_pressed, index as u32),
                None => false,
            },
        )
    } else if index < PRESS_COUNT + TOUCH_COUNT {
        ButtonValue::Binary(
            match state {
                Some(state) => bit_set(state.buttons_touched, touch_bit(index - PRESS_COUNT)),
                None => false,
            },
        )
    } else {
        ButtonValue::Scalar(
            match state {
                Some(state) => if index == PRESS_COUNT + TOUCH_COUNT {
                    state.trigger
                } else if index == PRESS_COUNT + TOUCH_COUNT + 1 {
                    state.grip
                } else if index == PRESS_COUNT + TOUCH_COUNT + 2 {
                    state.thumbstick_x
                } else {
                    state.thumbstick_y
                },
                None => 0,
            },
        )
    }
}

/// One input of a hand.
pub open spec fn hand_entry(
    hand_path: Seq<char>,
    state: Option<SingleControllerState>,
    index: int,
) -> ButtonEntry {
    ButtonEntry {
        path_id: path_id(hand_path, input_suffix(index, is_left(hand_path))),
        value: input_value(index, state),
    }
}

/// All inputs of a hand.
pub open spec fn hand_entries(
    hand_path: Seq<char>,
    state: Option<SingleControllerState>,
) -> Seq<ButtonEntry> {
    Seq::new(INPUT_COUNT as nat, |i: int| hand_entry(hand_path, state, i))
}

/// Appends all inputs of a hand.
pub fn push_hand_button_entries(
    entries: &mut Vec<ButtonEntry>,
    hand_path: &str,
    state: Option<&SingleControllerState>,
)
    ensures
        final(entries)@ == old(entries)@ + hand_entries(
            hand_path@,
            match state {
                Some(state) => Some(*state),
                None => None,
            },
        ),
{
    let ghost known = match state {
        Some(state) => Some(*state),
        None => None,
    };
    let ghost all = hand_entries(hand_path@, known);
    let mut index: usize = 0;
    while index < PRESS_COUNT
        invariant
            index <= PRESS_COUNT,
            all == hand_entries(hand_path@, known),
            known == match state {
                Some(state) => Some(*state),
                None => None::<SingleControllerState>,
            },
            entries@ =~= old(entries)@ + all.take(index as int),
        decreases PRESS_COUNT - index,
    {
        let mapping = press_mapping(index);
        let suffix = suffix_for_hand(&mapping, hand_path);
        let pressed: bool = match state {
            Some(state) => (state.buttons_pressed >> mapping.bit) & 1 != 0,
            None => false,
        };
        let entry = ButtonEntry {
            path_id: button_path_id(hand_path, suffix),
            value: ButtonValue::Binary(pressed),
        };
        assert(entry == all[index as int]);
        entries.push(entry);
        index = index + 1;
    }
    let mut touch: usize = 0;
    while touch < TOUCH_COUNT
        invariant
            touch <= TOUCH_COUNT,
            all == hand_entries(hand_path@, known),
            known == match state {
                Some(state) => Some(*state),
                None => None::<SingleControllerState>,
            },
            entries@ =~= old(entries)@ + all.take(PRESS_COUNT + touch),
        decreases TOUCH_COUNT - touch,
    {
        let mapping = touch_mapping(touch);
        let suffix = suffix_for_hand(&mapping, hand_path);
        let touched: bool = match state {
            Some(state) => (state.buttons_touched >> mapping.bit) & 1 != 0,
            None => false,
        };
        let entry = ButtonEntry {
            path_id: button_path_id(hand_path, suffix),
            value: ButtonValue::Binary(touched),
        };
        assert(entry == all[PRESS_COUNT + touch]);
        entries.push(entry);
        touch = touch + 1;
    }
    let (trigger, grip, thumbstick_x, thumbstick_y): (u32, u32, u32, u32) = match state {
        Some(state) => (state.trigger, state.grip, state.thumbstick_x, state.thumbstick_y),
        None => (0, 0, 0, 0),
    };
    entries.push(
        ButtonEntry {
            path_id: button_path_id(hand_path, "input/trigger/value"),
            value: ButtonValue::Scalar(trigger),
        },
    );
    entries.push(
        ButtonEntry {
            path_id: button_path_id(hand_path, "input/squeeze/value"),
            value: ButtonValue::Scalar(grip),
        },
    );
    entries.push(
        ButtonEntry {
            path_id: button_path_id(hand_path, "input/thumbstick/x"),
            value: ButtonValue::Scalar(thumbstick_x),
        },
    );
    entries.push(
        ButtonEntry {
            path_id: button_path_id(hand_path, "input/thumbstick/y"),
            value: ButtonValue::Scalar(thumbstick_y),
        },
    );
    assert(entries@ =~= old(entries)@ + all);
}

// ---------------------------------------------------------------------------
// What the server is told
// ---------------------------------------------------------------------------

/// A state counts: the controller is connected, and its state is younger than the threshold.
pub open spec fn fresh(state: SingleControllerState, now_ns: u64) -> bool {
    state.connected && elapsed(now_ns, state.last_updated_ns) / 1_000_000 < STALE_THRESHOLD_MS
}

/// The state of a hand, where it counts.
pub open spec fn fresh_state(
    state: Option<SingleControllerState>,
    now_ns: u64,
) -> Option<SingleControllerState> {
    match state {
        Some(state) if fresh(state, now_ns) => Some(state),
        _ => None,
    }
}

/// At least one hand counts.
pub open spec fn any_fresh(snapshot: ControllerSnapshot, now_ns: u64) -> bool {
    fresh_state(snapshot.left, now_ns) is Some || fresh_state(snapshot.right, now_ns) is Some
}

/// Whether a controller's state still counts.
pub fn is_fresh(state: &SingleControllerState, now_ns: u64) -> (result: bool)
    ensures
        result == fresh(*state, now_ns),
{
    state.connected && elapsed_ns(now_ns, state.last_updated_ns) / 1_000_000 < STALE_THRESHOLD_MS
}

fn is_fresh_hand(state: &Option<SingleControllerState>, now_ns: u64) -> (result: bool)
    ensures
        result == (fresh_state(*state, now_ns) is Some),
{
    match state {
        Some(state) => is_fresh(state, now_ns),
        None => false,
    }
}

/// The inputs of both hands: of a hand that does not count the neutral values, and nothing where
/// neither hand counts.
pub open spec fn button_entries(snapshot: ControllerSnapshot, now_ns: u64) -> Seq<ButtonEntry> {
    if any_fresh(snapshot, now_ns) {
        hand_entries(LEFT_HAND_PATH@, fresh_state(snapshot.left, now_ns)) + hand_entries(
            RIGHT_HAND_PATH@,
            fresh_state(snapshot.right, now_ns),
        )
    } else {
        Seq::empty()
    }
}

fn push_hand(
    entries: &mut Vec<ButtonEntry>,
    hand_path: &str,
    state: &Option<SingleControllerState>,
    now_ns: u64,
)
    ensures
        final(entries)@ == old(entries)@ + hand_entries(hand_path@, fresh_state(*state, now_ns)),
{
    match state {
        Some(state) => {
            if is_fresh(state, now_ns) {
                push_hand_button_entries(entries, hand_path, Some(state));
            } else {
                push_hand_button_entries(entries, hand_path, None);
            }
        },
        None => {
            push_hand_button_entries(entries, hand_path, None);
        },
    }
}

/// The inputs of both hands, for the server. While one hand counts the other is sent as neutral,
/// so that the server drops what was pressed on it.
pub fn build_button_entries(snapshot: &ControllerSnapshot, now_ns: u64) -> (entries: Vec<
    ButtonEntry,
>)
    ensures
        entries@ == button_entries(*snapshot, now_ns),
{
    let mut entries: Vec<ButtonEntry> = Vec::with_capacity(32);
    if is_fresh_hand(&snapshot.left, now_ns) || is_fresh_hand(&snapshot.right, now_ns) {
        push_hand(&mut entries, LEFT_HAND_PATH, &snapshot.left, now_ns);
        push_hand(&mut entries, RIGHT_HAND_PATH, &snapshot.right, now_ns);
    }
    assert(entries@ =~= button_entries(*snapshot, now_ns));
    entries
}

/// The ids of all inputs of a hand.
pub open spec fn supported_ids(hand_path: Seq<char>) -> Set<u64> {
    Set::new(
        |id: u64|
            exists|i: int|
                0 <= i < INPUT_COUNT && id == #[trigger] input_id(hand_path, i),
    )
}

/// The id of an input of a hand.
pub open spec fn input_id(hand_path: Seq<char>, index: int) -> u64 {
    path_id(hand_path, input_suffix(index, is_left(hand_path)))
}

spec fn first_ids(hand_path: Seq<char>, count: int) -> Set<u64> {
    Set::new(|id: u64| exists|i: int| 0 <= i < count && id == #[trigger] input_id(hand_path, i))
}

proof fn lemma_first_ids_step(hand_path: Seq<char>, count: int)
    requires
        0 <= count,
    ensures
        first_ids(hand_path, count + 1) == first_ids(hand_path, count).insert(
            input_id(hand_path, count),
        ),
{
    let next = first_ids(hand_path, count).insert(input_id(hand_path, count));
    assert forall|id: u64| first_ids(hand_path, count + 1).contains(id) == next.contains(id) by {
        if first_ids(hand_path, count + 1).contains(id) {
            let i = choose|i: int|
                0 <= i < count + 1 && id == #[trigger] input_id(hand_path, i);
            assert(id == input_id(hand_path, i));
            assert(i == count || first_ids(hand_path, count).contains(id));
        }
        if id == input_id(hand_path, count) {
            assert(first_ids(hand_path, count + 1).contains(id));
        }
    }
    assert(first_ids(hand_path, count + 1) =~= next);
}

fn insert_supported_input_ids(ids: &mut HashSet<u64>, hand_path: &str)
    ensures
        final(ids)@ == old(ids)@.union(supported_ids(hand_path@)),
{
    let mut index: usize = 0;
    assert(ids@ =~= old(ids)@.union(first_ids(hand_path@, 0)));
    while index < PRESS_COUNT
        invariant
            index <= PRESS_COUNT,
            ids@ == old(ids)@.union(first_ids(hand_path@, index as int)),
        decreases PRESS_COUNT - index,
    {
        let mapping = press_mapping(index);
        ids.insert(button_path_id(hand_path, suffix_for_hand(&mapping, hand_path)));
        proof {
            lemma_first_ids_step(hand_path@, index as int);
            assert(ids@ =~= old(ids)@.union(first_ids(hand_path@, index + 1)));
        }
        index = index + 1;
    }
    let mut touch: usize = 0;
    while touch < TOUCH_COUNT
        invariant
            touch <= TOUCH_COUNT,
            ids@ == old(ids)@.union(first_ids(hand_path@, PRESS_COUNT + touch)),
        decreases TOUCH_COUNT - touch,
    {
        let mapping = touch_mapping(touch);
        ids.insert(button_path_id(hand_path, suffix_for_hand(&mapping, hand_path)));
        proof {
            lemma_first_ids_step(hand_path@, PRESS_COUNT + touch);
            assert(ids@ =~= old(ids)@.union(first_ids(hand_path@, PRESS_COUNT + touch + 1)));
        }
        touch = touch + 1;
    }
    let mut axis: usize = 0;
    while axis < ANALOG_COUNT
        invariant
            axis <= ANALOG_COUNT,
            ids@ == old(ids)@.union(first_ids(hand_path@, PRESS_COUNT + TOUCH_COUNT + axis)),
        decreases ANALOG_COUNT - axis,
    {
        ids.insert(button_path_id(hand_path, analog_path(axis)));
        proof {
            lemma_first_ids_step(hand_path@, PRESS_COUNT + TOUCH_COUNT + axis);
            assert(ids@ =~= old(ids)@.union(
                first_ids(hand_path@, PRESS_COUNT + TOUCH_COUNT + axis + 1),
            ));
        }
        axis = axis + 1;
    }
    assert(first_ids(hand_path@, INPUT_COUNT as int) =~= supported_ids(hand_path@));
}

/// The ids of all inputs of a hand.
pub fn supported_input_ids_for_hand(hand_path: &str) -> (ids: HashSet<u64>)
    ensures
        ids@ == supported_ids(hand_path@),
{
    let mut ids: HashSet<u64> = HashSet::new();
    insert_supported_input_ids(&mut ids, hand_path);
    assert(ids@ =~= supported_ids(hand_path@));
    ids
}

/// The inputs of the hands that count.
pub open spec fn active_ids(snapshot: ControllerSnapshot, now_ns: u64) -> Set<u64> {
    let left = if fresh_state(snapshot.left, now_ns) is Some {
        supported_ids(LEFT_HAND_PATH@)
    } else {
        Set::empty()
    };
    let right = if fresh_state(snapshot.right, now_ns) is Some {
        supported_ids(RIGHT_HAND_PATH@)
    } else {
        Set::empty()
    };
    left.union(right)
}

/// The device in whose name the inputs are announced: the first hand that counts.
pub open spec fn first_hand_path(snapshot: ControllerSnapshot, now_ns: u64) -> Seq<char> {
    if fresh_state(snapshot.left, now_ns) is Some {
        LEFT_HAND_PATH@
    } else {
        RIGHT_HAND_PATH@
    }
}

/// One profile with the inputs of both hands, because the server keeps only the last profile
/// that it was sent. None where neither hand counts.
pub fn build_active_interaction_profiles(
    snapshot: &ControllerSnapshot,
    now_ns: u64,
) -> (profiles: Vec<ActiveInteractionProfile>)
    ensures
        !any_fresh(*snapshot, now_ns) ==> profiles@.len() == 0,
        any_fresh(*snapshot, now_ns) ==> {
            &&& profiles@.len() == 1
            &&& profiles@[0].device_id == hash_of(first_hand_path(*snapshot, now_ns))
            &&& profiles@[0].profile_id == hash_of(OCULUS_TOUCH_PROFILE_PATH@)
            &&& profiles@[0].input_ids@ == active_ids(*snapshot, now_ns)
        },
{
    let mut profiles: Vec<ActiveInteractionProfile> = Vec::new();
    let left: bool = is_fresh_hand(&snapshot.left, now_ns);
    let right: bool = is_fresh_hand(&snapshot.right, now_ns);
    if left || right {
        let mut input_ids: HashSet<u64> = HashSet::new();
        if left {
            insert_supported_input_ids(&mut input_ids, LEFT_HAND_PATH);
        }
        if right {
            insert_supported_input_ids(&mut input_ids, RIGHT_HAND_PATH);
        }
        assert(input_ids@ =~= active_ids(*snapshot, now_ns));
        let device_id: u64 = if left {
            hash_string(LEFT_HAND_PATH)
        } else {
            hash_string(RIGHT_HAND_PATH)
        };
        profiles.push(
            ActiveInteractionProfile {
                device_id,
                profile_id: hash_string(OCULUS_TOUCH_PROFILE_PATH),
                input_ids,
            },
        );
    }
    profiles
}

/// Motion of a hand that counts, under the hand's device id.
pub open spec fn hand_motion(
    hand_path: Seq<char>,
    state: Option<SingleControllerState>,
    now_ns: u64,
) -> Seq<(u64, DeviceMotion)> {
    match fresh_state(state, now_ns) {
        Some(state) => match state.motion {
            Some(motion) => seq![(hash_of(hand_path), motion)],
            None => Seq::empty(),
        },
        None => Seq::empty(),
    }
}

fn push_hand_motion(
    motions: &mut Vec<(u64, DeviceMotion)>,
    hand_path: &str,
    state: &Option<SingleControllerState>,
    now_ns: u64,
)
    ensures
        final(motions)@ == old(motions)@ + hand_motion(hand_path@, *state, now_ns),
{
    match state {
        Some(state) => {
            if is_fresh(state, now_ns) {
                match state.motion {
                    Some(motion) => {
                        motions.push((hash_string(hand_path), motion));
                    },
                    None => {},
                }
            }
        },
        None => {},
    }
    assert(motions@ =~= old(motions)@ + hand_motion(hand_path@, *state, now_ns));
}

/// The motions of the hands that count and have one, left before right.
pub fn build_controller_device_motions(
    snapshot: &ControllerSnapshot,
    now_ns: u64,
) -> (motions: Vec<(u64, DeviceMotion)>)
    ensures
        motions@ == hand_motion(LEFT_HAND_PATH@, snapshot.left, now_ns) + hand_motion(
            RIGHT_HAND_PATH@,
            snapshot.right,
            now_ns,
        ),
{
    let mut motions: Vec<(u64, DeviceMotion)> = Vec::with_capacity(2);
    push_hand_motion(&mut motions, LEFT_HAND_PATH, &snapshot.left, now_ns);
    push_hand_motion(&mut motions, RIGHT_HAND_PATH, &snapshot.right, now_ns);
    assert(motions@ =~= hand_motion(LEFT_HAND_PATH@, snapshot.left, now_ns) + hand_motion(
        RIGHT_HAND_PATH@,
        snapshot.right,
        now_ns,
    ));
    motions
}

// ---------------------------------------------------------------------------
// Text for the log
// ---------------------------------------------------------------------------

/// The value of the first entry with the given id.
pub open spec fn value_of(entries: Seq<ButtonEntry>, id: u64) -> Option<ButtonValue>
    decreases entries.len(),
{
    if entries.len() == 0 {
        None
    } else if entries[0].path_id == id {
        Some(entries[0].value)
    } else {
        value_of(entries.skip(1), id)
    }
}

/// `text` is how a value is written: a button as `true` or `false`, an axis as `format_scalar`
/// writes it, and `missing` where there is none.
pub open spec fn is_value_text<F: Fn(u32) -> String>(
    format_scalar: F,
    value: Option<ButtonValue>,
    text: Seq<char>,
) -> bool {
    match value {
        Some(ButtonValue::Binary(value)) => text == bool_text(value),
        Some(ButtonValue::Scalar(bits)) => exists|written: String| #[trigger]
            call_ensures(format_scalar, (bits,), written) && text == written@,
        None => text == "missing"@,
    }
}

/// The inputs that the log shows: the buttons that can be pressed, then the axes.
pub open spec fn logged_suffix(index: int, left: bool) -> Seq<char> {
    if index < PRESS_COUNT {
        press_suffix(index, left)
    } else {
        analog_suffix(index - PRESS_COUNT)
    }
}

/// `part` names an input and its value.
pub open spec fn is_logged_part<F: Fn(u32) -> String>(
    format_scalar: F,
    entries: Seq<ButtonEntry>,
    hand_path: Seq<char>,
    suffix: Seq<char>,
    part: Seq<char>,
) -> bool {
    exists|value: Seq<char>|
        {
            &&& #[trigger] is_value_text(
                format_scalar,
                value_of(entries, path_id(hand_path, suffix)),
                value,
            )
            &&& part == full_path(hand_path, suffix) + "="@ + value
        }
}

fn find_value(entries: &[ButtonEntry], id: u64) -> (value: Option<ButtonValue>)
    ensures
        value == value_of(entries@, id),
{
    let mut index: usize = 0;
    assert(entries@.skip(0) =~= entries@);
    while index < entries.len()
        invariant
            index <= entries@.len(),
            value_of(entries@, id) == value_of(entries@.skip(index as int), id),
        decreases entries@.len() - index,
    {
        if entries[index].path_id == id {
            return Some(entries[index].value);
        }
        assert(entries@.skip(index as int).skip(1) =~= entries@.skip(index + 1));
        index = index + 1;
    }
    None
}

/// Writes the value of an input.
pub fn format_button_entry_value<F: Fn(u32) -> String>(
    entries: &[ButtonEntry],
    id: u64,
    format_scalar: &F,
) -> (text: String)
    requires
        forall|bits: u32| call_requires(format_scalar, (bits,)),
    ensures
        is_value_text(*format_scalar, value_of(entries@, id), text@),
{
    match find_value(entries, id) {
        Some(ButtonValue::Binary(value)) => format_bool(value),
        Some(ButtonValue::Scalar(bits)) => {
            let written: String = format_scalar(bits);
            assert(call_ensures(*format_scalar, (bits,), written));
            written
        },
        None => "missing".to_owned(),
    }
}

fn logged_part<F: Fn(u32) -> String>(
    entries: &[ButtonEntry],
    hand_path: &str,
    suffix: &str,
    format_scalar: &F,
) -> (part: String)
    requires
        forall|bits: u32| call_requires(format_scalar, (bits,)),
    ensures
        is_logged_part(*format_scalar, entries@, hand_path@, suffix@, part@),
{
    let value: String = format_button_entry_value(
        entries,
        button_path_id(hand_path, suffix),
        format_scalar,
    );
    let mut part: String = input_path(hand_path, suffix);
    part.append("=");
    part.append(value.as_str());
    assert(is_value_text(
        *format_scalar,
        value_of(entries@, path_id(hand_path@, suffix@)),
        value@,
    ));
    part
}

/// Writes the inputs of a hand and their values, with a space between two of them. Axes are
/// written by `format_scalar`, which takes the bits of a 32-bit float.
pub fn format_button_entries_for_hand<F: Fn(u32) -> String>(
    entries: &[ButtonEntry],
    hand_path: &str,
    format_scalar: &F,
) -> (text: String)
    requires
        forall|bits: u32| call_requires(format_scalar, (bits,)),
    ensures
        exists|parts: Seq<Seq<char>>|
            {
                &&& parts.len() == PRESS_COUNT + ANALOG_COUNT
                &&& forall|i: int|
                    0 <= i < parts.len() ==> is_logged_part(
                        *format_scalar,
                        entries@,
                        hand_path@,
                        logged_suffix(i, is_left(hand_path@)),
                        #[trigger] parts[i],
                    )
                &&& text@ == #[trigger] joined(parts, " "@)
            },
{
    let mut parts: Vec<String> = Vec::new();
    let mut index: usize = 0;
    while index < PRESS_COUNT
        invariant
            index <= PRESS_COUNT,
            parts@.len() == index,
            forall|bits: u32| call_requires(format_scalar, (bits,)),
            forall|i: int|
                0 <= i < parts@.len() ==> is_logged_part(
                    *format_scalar,
                    entries@,
                    hand_path@,
                    logged_suffix(i, is_left(hand_path@)),
                    (#[trigger] parts@[i])@,
                ),
        decreases PRESS_COUNT - index,
    {
        let mapping = press_mapping(index);
        let suffix = suffix_for_hand(&mapping, hand_path);
        parts.push(logged_part(entries, hand_path, suffix, format_scalar));
        index = index + 1;
    }
    let mut axis: usize = 0;
    while axis < ANALOG_COUNT
        invariant
            axis <= ANALOG_COUNT,
            parts@.len() == PRESS_COUNT + axis,
            forall|bits: u32| call_requires(format_scalar, (bits,)),
            forall|i: int|
                0 <= i < parts@.len() ==> is_logged_part(
                    *format_scalar,
                    entries@,
                    hand_path@,
                    logged_suffix(i, is_left(hand_path@)),
                    (#[trigger] parts@[i])@,
                ),
        decreases ANALOG_COUNT - axis,
    {
        parts.push(logged_part(entries, hand_path, analog_path(axis), format_scalar));
        axis = axis + 1;
    }
    let text: String = join_text(&parts, " ");
    proof {
        let all = views(parts@);
        assert forall|i: int| 0 <= i < all.len() implies is_logged_part(
            *format_scalar,
            entries@,
            hand_path@,
            logged_suffix(i, is_left(hand_path@)),
            #[trigger] all[i],
        ) by {
            assert(all[i] == parts@[i]@);
        }
        assert(text@ == joined(all, " "@));
    }
    text
}

// ---------------------------------------------------------------------------
// Comparing profiles
// ---------------------------------------------------------------------------

/// The same device, the same profile and the same inputs.
pub open spec fn equal_profiles(
    left: ActiveInteractionProfile,
    right: ActiveInteractionProfile,
) -> bool {
    &&& left.device_id == right.device_id
    &&& left.profile_id == right.profile_id
    &&& left.input_ids@ == right.input_ids@
}

fn contains_all(outer: &HashSet<u64>, inner: &HashSet<u64>) -> (all: bool)
    ensures
        all == inner@.subset_of(outer@),
{
    let mut all: bool = true;
    let ghost visited = vstd::std_specs::hash::spec_hash_keys_iter(inner).remaining();
    for id in iter: inner.iter()
        invariant
            iter.seq() == visited,
            visited.unref().to_set() == inner@,
            all == forall|i: int|
                0 <= i < iter.index() ==> outer@.contains(*#[trigger] iter.seq()[i]),
    {
        if !outer.contains(id) {
            all = false;
        }
    }
    proof {
        let ids = visited;
        assert forall|id: u64| inner@.contains(id) implies exists|i: int|
            0 <= i < ids.len() && *#[trigger] ids[i] == id by {
            assert(ids.unref().contains(id));
            let i = choose|i: int| 0 <= i < ids.unref().len() && ids.unref()[i] == id;
            assert(*ids[i] == id);
        }
        assert forall|i: int| 0 <= i < ids.len() implies inner@.contains(*#[trigger] ids[i]) by {
            assert(ids.unref()[i] == *ids[i]);
            assert(ids.unref().to_set().contains(*ids[i]));
        }
    }
    all
}

/// Whether two profiles announce the same.
pub fn same_profile(
    left: &ActiveInteractionProfile,
    right: &ActiveInteractionProfile,
) -> (same: bool)
    ensures
        same == equal_profiles(*left, *right),
{
    let same: bool = left.device_id == right.device_id && left.profile_id == right.profile_id
        && contains_all(&left.input_ids, &right.input_ids) && contains_all(
        &right.input_ids,
        &left.input_ids,
    );
    assert(left.input_ids@.subset_of(right.input_ids@) && right.input_ids@.subset_of(
        left.input_ids@,
    ) ==> left.input_ids@ =~= right.input_ids@);
    same
}

// ---------------------------------------------------------------------------
// Laws
// ---------------------------------------------------------------------------

/// While one hand counts every input of both hands is sent, and of a hand that does not count
/// every input is sent as neutral. While neither counts nothing is sent.
pub proof fn law_missing_hand_is_neutral(snapshot: ControllerSnapshot, now_ns: u64, index: int)
    requires
        0 <= index < INPUT_COUNT,
    ensures
        ({
            let entries = button_entries(snapshot, now_ns);
            let neutral = |value: ButtonValue|
                value == ButtonValue::Binary(false) || value == ButtonValue::Scalar(0);
            &&& !any_fresh(snapshot, now_ns) ==> entries.len() == 0
            &&& any_fresh(snapshot, now_ns) ==> {
                &&& entries.len() == 2 * INPUT_COUNT
                &&& entries[index].path_id == input_id(LEFT_HAND_PATH@, index)
                &&& entries[INPUT_COUNT + index].path_id == input_id(RIGHT_HAND_PATH@, index)
                &&& fresh_state(snapshot.left, now_ns) is None ==> neutral(entries[index].value)
                &&& fresh_state(snapshot.right, now_ns) is None ==> neutral(
                    entries[INPUT_COUNT + index].value,
                )
            }
        }),
{
}

/// Every input that is sent of a hand that counts is announced in the active profile.
pub proof fn law_profile_covers_the_inputs(snapshot: ControllerSnapshot, now_ns: u64, index: int)
    requires
        0 <= index < INPUT_COUNT,
    ensures
        fresh_state(snapshot.left, now_ns) is Some ==> active_ids(snapshot, now_ns).contains(
            button_entries(snapshot, now_ns)[index].path_id,
        ),
        fresh_state(snapshot.right, now_ns) is Some ==> active_ids(snapshot, now_ns).contains(
            button_entries(snapshot, now_ns)[INPUT_COUNT + index].path_id,
        ),
{
    let left = input_id(LEFT_HAND_PATH@, index);
    let right = input_id(RIGHT_HAND_PATH@, index);
    assert(supported_ids(LEFT_HAND_PATH@).contains(left));
    assert(supported_ids(RIGHT_HAND_PATH@).contains(right));
}

/// The ids that are sent depend on neither hand's state, so the server sees the same inputs with
/// every update.
pub proof fn law_inputs_keep_their_ids(
    first: ControllerSnapshot,
    second: ControllerSnapshot,
    now_ns: u64,
    later_ns: u64,
    index: int,
)
    requires
        any_fresh(first, now_ns),
        any_fresh(second, later_ns),
        0 <= index < 2 * INPUT_COUNT,
    ensures
        button_entries(first, now_ns)[index].path_id == button_entries(
            second,
            later_ns,
        )[index].path_id,
{
}

/// A state that is not renewed stops counting once the threshold has passed, and stays so.
pub proof fn law_old_states_go_stale(state: SingleControllerState, now_ns: u64)
    ensures
        now_ns >= state.last_updated_ns + STALE_THRESHOLD_MS * 1_000_000 ==> !fresh(state, now_ns),
        state.connected && now_ns < state.last_updated_ns + STALE_THRESHOLD_MS * 1_000_000
            ==> fresh(state, now_ns),
{
    let age = elapsed(now_ns, state.last_updated_ns);
    assert(age < 500_000_000 <==> age / 1_000_000 < 500);
}

/// An update changes nothing of what it brings but the motion: buttons and axes are the new ones,
/// and a known motion is never lost.
pub proof fn law_update_keeps_only_the_motion(
    previous: Option<SingleControllerState>,
    incoming: SingleControllerState,
    within_deadzone: bool,
)
    ensures
        ({
            let state = merged(previous, incoming, within_deadzone);
            &&& state == (SingleControllerState { motion: state.motion, ..incoming })
            &&& incoming.motion is Some ==> state.motion is Some
            &&& previous is Some && previous->0.motion is Some ==> state.motion is Some
            &&& !within_deadzone && incoming.motion is Some ==> state == incoming
        }),
{
}

/// `entries` hold this value under the id of this path.
pub open spec fn reports(entries: Seq<ButtonEntry>, path: Seq<char>, value: ButtonValue) -> bool {
    exists|i: int|
        0 <= i < entries.len() && #[trigger] entries[i] == (ButtonEntry {
            path_id: hash_of(path),
            value,
        })
}

/// The fifteen inputs of a controller by name, on either hand.
pub open spec fn input_names(left: bool) -> Seq<Seq<char>> {
    seq![
        "input/trigger/click"@,
        "input/thumbstick/click"@,
        "input/menu/click"@,
        "input/squeeze/click"@,
        if left { "input/x/click"@ } else { "input/a/click"@ },
        if left { "input/y/click"@ } else { "input/b/click"@ },
        "input/trigger/touch"@,
        "input/thumbstick/touch"@,
        "input/squeeze/touch"@,
        if left { "input/x/touch"@ } else { "input/a/touch"@ },
        if left { "input/y/touch"@ } else { "input/b/touch"@ },
        "input/trigger/value"@,
        "input/squeeze/value"@,
        "input/thumbstick/x"@,
        "input/thumbstick/y"@,
    ]
}

proof fn lemma_bits(mask: u32)
    ensures
        bit_set(mask, 0) == (mask & 1 != 0),
        bit_set(mask, 1) == (mask & 2 != 0),
        bit_set(mask, 2) == (mask & 4 != 0),
        bit_set(mask, 3) == (mask & 8 != 0),
        bit_set(mask, 4) == (mask & 16 != 0),
        bit_set(mask, 5) == (mask & 32 != 0),
{
    assert(((mask >> 0u32) & 1 != 0) == (mask & 1 != 0) && ((mask >> 1u32) & 1 != 0) == (mask & 2
        != 0) && ((mask >> 2u32) & 1 != 0) == (mask & 4 != 0) && ((mask >> 3u32) & 1 != 0) == (mask
        & 8 != 0) && ((mask >> 4u32) & 1 != 0) == (mask & 16 != 0) && ((mask >> 5u32) & 1 != 0)
        == (mask & 32 != 0)) by (bit_vector);
}

proof fn lemma_first_value(entries: Seq<ButtonEntry>, index: int)
    requires
        0 <= index < entries.len(),
        forall|i: int| 0 <= i < index ==> (#[trigger] entries[i]).path_id != entries[index].path_id,
    ensures
        value_of(entries, entries[index].path_id) == Some(entries[index].value),
    decreases index,
{
    if index > 0 {
        let rest = entries.skip(1);
        assert(entries[0].path_id != entries[index].path_id);
        assert(rest[index - 1] == entries[index]);
        assert forall|i: int| 0 <= i < index - 1 implies (#[trigger] rest[i]).path_id != rest[index
            - 1].path_id by {
            assert(rest[i] == entries[i + 1]);
        }
        lemma_first_value(rest, index - 1);
    }
}

/// Every input of a hand is sent under the hash of its own path: the axes with the value of the
/// axis that the path names, the clicks with the bit of the pressed button that it names, and the
/// touches with the bit of the touched one. Nothing else is sent.
pub proof fn law_inputs_stand_under_their_paths(hand_path: Seq<char>, state: SingleControllerState)
    ensures
        ({
            let entries = hand_entries(hand_path, Some(state));
            let pressed = state.buttons_pressed;
            let touched = state.buttons_touched;
            let left = hand_path == "/user/hand/left"@;
            let sent = |name: Seq<char>, value: ButtonValue|
                reports(entries, hand_path + "/"@ + name, value);
            &&& entries.len() == 15
            &&& sent("input/trigger/value"@, ButtonValue::Scalar(state.trigger))
            &&& sent("input/squeeze/value"@, ButtonValue::Scalar(state.grip))
            &&& sent("input/thumbstick/x"@, ButtonValue::Scalar(state.thumbstick_x))
            &&& sent("input/thumbstick/y"@, ButtonValue::Scalar(state.thumbstick_y))
            &&& sent("input/trigger/click"@, ButtonValue::Binary(pressed & 1 != 0))
            &&& sent("input/thumbstick/click"@, ButtonValue::Binary(pressed & 2 != 0))
            &&& sent("input/menu/click"@, ButtonValue::Binary(pressed & 4 != 0))
            &&& sent("input/squeeze/click"@, ButtonValue::Binary(pressed & 8 != 0))
            &&& left ==> sent("input/x/click"@, ButtonValue::Binary(pressed & 16 != 0))
            &&& left ==> sent("input/y/click"@, ButtonValue::Binary(pressed & 32 != 0))
            &&& !left ==> sent("input/a/click"@, ButtonValue::Binary(pressed & 16 != 0))
            &&& !left ==> sent("input/b/click"@, ButtonValue::Binary(pressed & 32 != 0))
            &&& sent("input/trigger/touch"@, ButtonValue::Binary(touched & 1 != 0))
            &&& sent("input/thumbstick/touch"@, ButtonValue::Binary(touched & 2 != 0))
            &&& sent("input/squeeze/touch"@, ButtonValue::Binary(touched & 8 != 0))
            &&& left ==> sent("input/x/touch"@, ButtonValue::Binary(touched & 16 != 0))
            &&& left ==> sent("input/y/touch"@, ButtonValue::Binary(touched & 32 != 0))
            &&& !left ==> sent("input/a/touch"@, ButtonValue::Binary(touched & 16 != 0))
            &&& !left ==> sent("input/b/touch"@, ButtonValue::Binary(touched & 32 != 0))
        }),
{
    lemma_bits(state.buttons_pressed);
    lemma_bits(state.buttons_touched);
    let left = is_left(hand_path);
    let (x, y) = if left {
        ("input/x/click"@, "input/y/click"@)
    } else {
        ("input/a/click"@, "input/b/click"@)
    };
    let (x_touch, y_touch) = if left {
        ("input/x/touch"@, "input/y/touch"@)
    } else {
        ("input/a/touch"@, "input/b/touch"@)
    };
    lemma_input_is_reported(hand_path, state, 0, "input/trigger/click"@);
    lemma_input_is_reported(hand_path, state, 1, "input/thumbstick/click"@);
    lemma_input_is_reported(hand_path, state, 2, "input/menu/click"@);
    lemma_input_is_reported(hand_path, state, 3, "input/squeeze/click"@);
    lemma_input_is_reported(hand_path, state, 4, x);
    lemma_input_is_reported(hand_path, state, 5, y);
    lemma_input_is_reported(hand_path, state, 6, "input/trigger/touch"@);
    lemma_input_is_reported(hand_path, state, 7, "input/thumbstick/touch"@);
    lemma_input_is_reported(hand_path, state, 8, "input/squeeze/touch"@);
    lemma_input_is_reported(hand_path, state, 9, x_touch);
    lemma_input_is_reported(hand_path, state, 10, y_touch);
    lemma_input_is_reported(hand_path, state, 11, "input/trigger/value"@);
    lemma_input_is_reported(hand_path, state, 12, "input/squeeze/value"@);
    lemma_input_is_reported(hand_path, state, 13, "input/thumbstick/x"@);
    lemma_input_is_reported(hand_path, state, 14, "input/thumbstick/y"@);
}

proof fn lemma_input_is_reported(
    hand_path: Seq<char>,
    state: SingleControllerState,
    index: int,
    name: Seq<char>,
)
    requires
        0 <= index < 15,
        name == input_suffix(index, is_left(hand_path)),
    ensures
        reports(
            hand_entries(hand_path, Some(state)),
            hand_path + "/"@ + name,
            input_value(index, Some(state)),
        ),
{
    assert(hand_entries(hand_path, Some(state))[index] == hand_entry(
        hand_path,
        Some(state),
        index,
    ));
}

/// Who looks an input up by the hash of its path finds the value that the path names, as long as
/// the paths of the hand hash apart.
pub proof fn law_inputs_are_found_by_their_paths(
    hand_path: Seq<char>,
    left: bool,
    state: SingleControllerState,
)
    requires
        left == (hand_path == "/user/hand/left"@),
        forall|i: int, j: int|
            0 <= i < j < 15 ==> hash_of(hand_path + "/"@ + #[trigger] input_names(left)[i])
                != hash_of(hand_path + "/"@ + #[trigger] input_names(left)[j]),
    ensures
        ({
            let entries = hand_entries(hand_path, Some(state));
            let pressed = state.buttons_pressed;
            let touched = state.buttons_touched;
            let found = |name: Seq<char>| value_of(entries, hash_of(hand_path + "/"@ + name));
            &&& found("input/trigger/value"@) == Some(ButtonValue::Scalar(state.trigger))
            &&& found("input/squeeze/value"@) == Some(ButtonValue::Scalar(state.grip))
            &&& found("input/thumbstick/x"@) == Some(ButtonValue::Scalar(state.thumbstick_x))
            &&& found("input/thumbstick/y"@) == Some(ButtonValue::Scalar(state.thumbstick_y))
            &&& found("input/trigger/click"@) == Some(ButtonValue::Binary(pressed & 1 != 0))
            &&& found("input/thumbstick/click"@) == Some(ButtonValue::Binary(pressed & 2 != 0))
            &&& found("input/menu/click"@) == Some(ButtonValue::Binary(pressed & 4 != 0))
            &&& found("input/squeeze/click"@) == Some(ButtonValue::Binary(pressed & 8 != 0))
            &&& left ==> found("input/x/click"@) == Some(ButtonValue::Binary(pressed & 16 != 0))
            &&& left ==> found("input/y/click"@) == Some(ButtonValue::Binary(pressed & 32 != 0))
            &&& !left ==> found("input/a/click"@) == Some(ButtonValue::Binary(pressed & 16 != 0))
            &&& !left ==> found("input/b/click"@) == Some(ButtonValue::Binary(pressed & 32 != 0))
            &&& found("input/trigger/touch"@) == Some(ButtonValue::Binary(touched & 1 != 0))
            &&& found("input/thumbstick/touch"@) == Some(ButtonValue::Binary(touched & 2 != 0))
            &&& found("input/squeeze/touch"@) == Some(ButtonValue::Binary(touched & 8 != 0))
            &&& left ==> found("input/x/touch"@) == Some(ButtonValue::Binary(touched & 16 != 0))
            &&& left ==> found("input/y/touch"@) == Some(ButtonValue::Binary(touched & 32 != 0))
            &&& !left ==> found("input/a/touch"@) == Some(ButtonValue::Binary(touched & 16 != 0))
            &&& !left ==> found("input/b/touch"@) == Some(ButtonValue::Binary(touched & 32 != 0))
        }),
{
    lemma_bits(state.buttons_pressed);
    lemma_bits(state.buttons_touched);
    let names = input_names(left);
    let entries = hand_entries(hand_path, Some(state));
    lemma_input_names(left);
    assert forall|i: int| 0 <= i < 15 implies #[trigger] entries[i] == (ButtonEntry {
        path_id: hash_of(hand_path + "/"@ + names[i]),
        value: input_value(i, Some(state)),
    }) by {
        assert(names[i] == input_suffix(i, left));
        assert(entries[i] == hand_entry(hand_path, Some(state), i));
    }
    assert forall|i: int| 0 <= i < 15 implies value_of(
        entries,
        hash_of(hand_path + "/"@ + #[trigger] names[i]),
    ) == Some(input_value(i, Some(state))) by {
        assert forall|j: int| 0 <= j < i implies (#[trigger] entries[j]).path_id
            != entries[i].path_id by {
            assert(names[j] == input_names(left)[j]);
            assert(names[i] == input_names(left)[i]);
        }
        lemma_first_value(entries, i);
    }
    assert(names[0] == "input/trigger/click"@);
    assert(names[1] == "input/thumbstick/click"@);
    assert(names[2] == "input/menu/click"@);
    assert(names[3] == "input/squeeze/click"@);
    assert(names[4] == if left { "input/x/click"@ } else { "input/a/click"@ });
    assert(names[5] == if left { "input/y/click"@ } else { "input/b/click"@ });
    assert(names[6] == "input/trigger/touch"@);
    assert(names[7] == "input/thumbstick/touch"@);
    assert(names[8] == "input/squeeze/touch"@);
    assert(names[9] == if left { "input/x/touch"@ } else { "input/a/touch"@ });
    assert(names[10] == if left { "input/y/touch"@ } else { "input/b/touch"@ });
    assert(names[11] == "input/trigger/value"@);
    assert(names[12] == "input/squeeze/value"@);
    assert(names[13] == "input/thumbstick/x"@);
    assert(names[14] == "input/thumbstick/y"@);
}

proof fn lemma_input_names(left: bool)
    ensures
        input_names(left).len() == 15,
        forall|i: int| 0 <= i < 15 ==> #[trigger] input_names(left)[i] == input_suffix(i, left),
{
}

/// The two hands are told apart: while either counts, first the inputs of the left hand are sent
/// with the left hand's state, then those of the right hand with the right hand's. A hand counts
/// while it is connected and its state is younger than half a second; otherwise it is sent
/// without a state.
pub proof fn law_each_hand_sends_its_own_state(snapshot: ControllerSnapshot, now_ns: u64)
    ensures
        ({
            let counted = |state: Option<SingleControllerState>|
                match state {
                    Some(state) => if state.connected && now_ns < state.last_updated_ns
                        + 500_000_000 {
                        Some(state)
                    } else {
                        None
                    },
                    None => None,
                };
            let left = counted(snapshot.left);
            let right = counted(snapshot.right);
            &&& left is None && right is None ==> button_entries(snapshot, now_ns).len() == 0
            &&& left is Some || right is Some ==> button_entries(snapshot, now_ns)
                == hand_entries("/user/hand/left"@, left) + hand_entries(
                "/user/hand/right"@,
                right,
            )
        }),
{
    if snapshot.left is Some {
        law_old_states_go_stale(snapshot.left->0, now_ns);
    }
    if snapshot.right is Some {
        law_old_states_go_stale(snapshot.right->0, now_ns);
    }
}

/// The profile announces exactly the named inputs of the hands that count, in the name of the
/// left hand where it counts and of the right hand otherwise.
pub proof fn law_profile_names_the_inputs(snapshot: ControllerSnapshot, now_ns: u64, id: u64)
    ensures
        active_ids(snapshot, now_ns).contains(id) <==> {
            ||| fresh_state(snapshot.left, now_ns) is Some && exists|i: int|
                0 <= i < 15 && id == hash_of(
                    "/user/hand/left"@ + "/"@ + #[trigger] input_names(true)[i],
                )
            ||| fresh_state(snapshot.right, now_ns) is Some && exists|i: int|
                0 <= i < 15 && id == hash_of(
                    "/user/hand/right"@ + "/"@ + #[trigger] input_names(false)[i],
                )
        },
        fresh_state(snapshot.left, now_ns) is Some ==> first_hand_path(snapshot, now_ns)
            == "/user/hand/left"@,
        fresh_state(snapshot.left, now_ns) is None ==> first_hand_path(snapshot, now_ns)
            == "/user/hand/right"@,
        OCULUS_TOUCH_PROFILE_PATH@ == "/interaction_profiles/oculus/touch_controller"@,
{
    lemma_input_names(true);
    lemma_input_names(false);
    assert(!is_left("/user/hand/right"@)) by {
        reveal_strlit("/user/hand/left");
        reveal_strlit("/user/hand/right");
    }
    assert forall|i: int| 0 <= i < 15 implies hash_of(
        "/user/hand/left"@ + "/"@ + #[trigger] input_names(true)[i],
    ) == input_id("/user/hand/left"@, i) by {}
    assert forall|i: int| 0 <= i < 15 implies hash_of(
        "/user/hand/right"@ + "/"@ + #[trigger] input_names(false)[i],
    ) == input_id("/user/hand/right"@, i) by {}
    if supported_ids("/user/hand/left"@).contains(id) {
        let i = choose|i: int| 0 <= i < 15 && id == #[trigger] input_id("/user/hand/left"@, i);
        assert(id == hash_of("/user/hand/left"@ + "/"@ + input_names(true)[i]));
    }
    if supported_ids("/user/hand/right"@).contains(id) {
        let i = choose|i: int| 0 <= i < 15 && id == #[trigger] input_id("/user/hand/right"@, i);
        assert(id == hash_of("/user/hand/right"@ + "/"@ + input_names(false)[i]));
    }
}

/// A controller that rests within the dead zone stays where it was while it turns and moves on:
/// only its position is kept. Outside the dead zone nothing is kept.
pub proof fn law_resting_controllers_stay_in_place(
    previous: SingleControllerState,
    incoming: SingleControllerState,
    within_deadzone: bool,
)
    requires
        previous.motion is Some,
        incoming.motion is Some,
    ensures
        ({
            let before = previous.motion->0;
            let brought = incoming.motion->0;
            let after = merged(Some(previous), incoming, within_deadzone).motion->0;
            &&& after.pose.position == if within_deadzone {
                before.pose.position
            } else {
                brought.pose.position
            }
            &&& after.pose.orientation == brought.pose.orientation
            &&& after.linear_velocity == brought.linear_velocity
            &&& after.angular_velocity == brought.angular_velocity
        }),
{
}

/// A state that brings no motion keeps the last one that was known, and the first state of a hand
/// is taken as it comes.
pub proof fn law_motion_is_remembered(
    previous: SingleControllerState,
    incoming: SingleControllerState,
    within_deadzone: bool,
)
    ensures
        incoming.motion is None ==> merged(Some(previous), incoming, within_deadzone).motion
            == previous.motion,
        previous.motion is None ==> merged(Some(previous), incoming, within_deadzone).motion
            == incoming.motion,
        merged(None, incoming, within_deadzone) == incoming,
{
}

/// The motion of a hand that counts is sent under the hash of its device path, and a hand that
/// does not count or has no motion sends none.
pub proof fn law_motions_name_their_hand(state: SingleControllerState, now_ns: u64)
    ensures
        ({
            let left = hand_motion(LEFT_HAND_PATH@, Some(state), now_ns);
            let right = hand_motion(RIGHT_HAND_PATH@, Some(state), now_ns);
            let counts = state.connected && now_ns < state.last_updated_ns + 500_000_000;
            &&& counts && state.motion is Some ==> left == seq![
                (hash_of("/user/hand/left"@), state.motion->0),
            ] && right == seq![(hash_of("/user/hand/right"@), state.motion->0)]
            &&& !counts || state.motion is None ==> left.len() == 0 && right.len() == 0
        }),
        hand_motion(LEFT_HAND_PATH@, None, now_ns).len() == 0,
        hand_motion(RIGHT_HAND_PATH@, None, now_ns).len() == 0,
{
    law_old_states_go_stale(state, now_ns);
}

/// The log shows the clicks and the axes of a hand by name, in this order.
pub proof fn law_log_shows_clicks_and_axes(left: bool, index: int)
    requires
        0 <= index < 10,
    ensures
        logged_suffix(index, left) == seq![
            "input/trigger/click"@,
            "input/thumbstick/click"@,
            "input/menu/click"@,
            "input/squeeze/click"@,
            if left { "input/x/click"@ } else { "input/a/click"@ },
            if left { "input/y/click"@ } else { "input/b/click"@ },
            "input/trigger/value"@,
            "input/squeeze/value"@,
            "input/thumbstick/x"@,
            "input/thumbstick/y"@,
        ][index],
{
}

/// A report on one hand replaces what is known of that hand, keeps what is known of the other, and
/// is counted for its hand.
pub proof fn law_hands_are_reported_apart(
    state: SingleControllerState,
    within_deadzone: bool,
    fresh: ControllerStore,
)
    requires
        call_ensures(ControllerStore::default, (), fresh),
    ensures
        fresh.snapshot.left is None && fresh.snapshot.right is None,
        fresh.left_updates == 0 && fresh.right_updates == 0,
        forall|store: &mut ControllerStore| #[trigger]
            call_ensures(
                update_controller_state,
                (store, Hand::Left, state, within_deadzone),
                (),
            ) ==> {
                &&& final(store).snapshot.left is Some
                &&& final(store).snapshot.left->0.buttons_pressed == state.buttons_pressed
                &&& final(store).snapshot.left->0.thumbstick_x == state.thumbstick_x
                &&& final(store).snapshot.right == (*store).snapshot.right
                &&& (*store).left_updates < u64::MAX ==> final(store).left_updates
                    == (*store).left_updates + 1
                &&& final(store).right_updates == (*store).right_updates
            },
        forall|store: &mut ControllerStore| #[trigger]
            call_ensures(
                update_controller_state,
                (store, Hand::Right, state, within_deadzone),
                (),
            ) ==> {
                &&& final(store).snapshot.right is Some
                &&& final(store).snapshot.right->0.buttons_pressed == state.buttons_pressed
                &&& final(store).snapshot.right->0.thumbstick_x == state.thumbstick_x
                &&& final(store).snapshot.left == (*store).snapshot.left
                &&& (*store).right_updates < u64::MAX ==> final(store).right_updates
                    == (*store).right_updates + 1
                &&& final(store).left_updates == (*store).left_updates
            },
{
    assert forall|store: &mut ControllerStore| #[trigger]
        call_ensures(update_controller_state, (store, Hand::Left, state, within_deadzone), ()) implies {
        &&& final(store).snapshot.right == (*store).snapshot.right
        &&& final(store).right_updates == (*store).right_updates
    } by {
        assert(final(store).snapshot.of(Hand::Right) == (*store).snapshot.of(Hand::Right));
    }
    assert forall|store: &mut ControllerStore| #[trigger]
        call_ensures(update_controller_state, (store, Hand::Right, state, within_deadzone), ()) implies {
        &&& final(store).snapshot.left == (*store).snapshot.left
        &&& final(store).left_updates == (*store).left_updates
    } by {
        assert(final(store).snapshot.of(Hand::Left) == (*store).snapshot.of(Hand::Left));
    }
}

/// A controller that is lost is forgotten, and one that is found again is known once it reports.
/// The other hand stays as it is.
pub proof fn law_lost_controllers_are_forgotten(connected: bool, shown: ControllerSnapshot)
    ensures
        forall|store: &mut ControllerStore| #[trigger]
            call_ensures(update_controller_connection, (store, Hand::Left, connected), ())
                && call_ensures(latest_controller_state, (final(store),), shown) ==> {
                &&& !connected ==> shown.left is None
                &&& connected ==> shown.left == (*store).snapshot.left
                &&& shown.right == (*store).snapshot.right
            },
        forall|store: &mut ControllerStore| #[trigger]
            call_ensures(update_controller_connection, (store, Hand::Right, connected), ())
                && call_ensures(latest_controller_state, (final(store),), shown) ==> {
                &&& !connected ==> shown.right is None
                &&& connected ==> shown.right == (*store).snapshot.right
                &&& shown.left == (*store).snapshot.left
            },
{
    assert forall|store: &mut ControllerStore| #[trigger]
        call_ensures(update_controller_connection, (store, Hand::Left, connected), ()) implies final(
        store).snapshot.right == (*store).snapshot.right by {
        assert(final(store).snapshot.of(Hand::Right) == (*store).snapshot.of(Hand::Right));
    }
    assert forall|store: &mut ControllerStore| #[trigger]
        call_ensures(update_controller_connection, (store, Hand::Right, connected), ()) implies final(
        store).snapshot.left == (*store).snapshot.left by {
        assert(final(store).snapshot.of(Hand::Left) == (*store).snapshot.of(Hand::Left));
    }
}

/// A controller of which nothing is known rests at the origin, unturned.
pub proof fn law_unknown_motion_is_rest(motion: DeviceMotion, pose: Pose, i: int)
    requires
        call_ensures(DeviceMotion::default, (), motion),
        call_ensures(Pose::default, (), pose),
        0 <= i < 3,
    ensures
        pose.orientation@[i] == 0 && pose.orientation@[3] == 0x3f80_0000,
        pose.position@[i] == 0,
        motion.pose.orientation@[i] == 0 && motion.pose.orientation@[3] == 0x3f80_0000,
        motion.pose.position@[i] == 0,
        motion.linear_velocity@[i] == 0 && motion.angular_velocity@[i] == 0,
{
}

/// The inputs are announced under the touch profile and for the hand that reports, the left one
/// first. Where no hand does, nothing is announced.
pub proof fn law_profiles_are_announced_for_a_hand(
    snapshot: ControllerSnapshot,
    now_ns: u64,
    profiles: Vec<ActiveInteractionProfile>,
)
    requires
        call_ensures(build_active_interaction_profiles, (&snapshot, now_ns), profiles),
    ensures
        snapshot.left is None && snapshot.right is None ==> profiles@.len() == 0,
        profiles@.len() <= 1,
        profiles@.len() == 1 ==> profiles@[0].profile_id == hash_of(
            "/interaction_profiles/oculus/touch_controller"@,
        ),
        profiles@.len() == 1 && snapshot.left is None ==> profiles@[0].device_id == hash_of(
            "/user/hand/right"@,
        ),
        profiles@.len() == 1 && snapshot.right is None ==> profiles@[0].device_id == hash_of(
            "/user/hand/left"@,
        ),
{
}

/// The inputs of a hand are appended to the list under their own paths: where the paths are told
/// apart by their ids, each is found with what the hand reported for it.
pub proof fn law_reported_inputs_are_listed(
    hand_path: &str,
    left: bool,
    state: SingleControllerState,
)
    requires
        left == (hand_path@ == "/user/hand/left"@),
        forall|i: int, j: int|
            0 <= i < j < 15 ==> hash_of(hand_path@ + "/"@ + #[trigger] input_names(left)[i])
                != hash_of(hand_path@ + "/"@ + #[trigger] input_names(left)[j]),
    ensures
        forall|entries: &mut Vec<ButtonEntry>|
            (*entries)@.len() == 0 && #[trigger] call_ensures(
                push_hand_button_entries,
                (entries, hand_path, Some(&state)),
                (),
            ) ==> {
                let pressed = state.buttons_pressed;
                let touched = state.buttons_touched;
                let found = |name: Seq<char>|
                    value_of(final(entries)@, hash_of(hand_path@ + "/"@ + name));
                &&& found("input/trigger/value"@) == Some(ButtonValue::Scalar(state.trigger))
                &&& found("input/squeeze/value"@) == Some(ButtonValue::Scalar(state.grip))
                &&& found("input/thumbstick/x"@) == Some(ButtonValue::Scalar(state.thumbstick_x))
                &&& found("input/thumbstick/y"@) == Some(ButtonValue::Scalar(state.thumbstick_y))
                &&& found("input/trigger/click"@) == Some(ButtonValue::Binary(pressed & 1 != 0))
                &&& found("input/thumbstick/click"@) == Some(ButtonValue::Binary(pressed & 2 != 0))
                &&& found("input/menu/click"@) == Some(ButtonValue::Binary(pressed & 4 != 0))
                &&& found("input/squeeze/click"@) == Some(ButtonValue::Binary(pressed & 8 != 0))
                &&& found("input/trigger/touch"@) == Some(ButtonValue::Binary(touched & 1 != 0))
            },
{
    assert forall|entries: &mut Vec<ButtonEntry>|
        (*entries)@.len() == 0 && #[trigger] call_ensures(
            push_hand_button_entries,
            (entries, hand_path, Some(&state)),
            (),
        ) implies final(entries)@ == hand_entries(hand_path@, Some(state)) by {
        assert((*entries)@ + hand_entries(hand_path@, Some(state)) =~= hand_entries(
            hand_path@,
            Some(state),
        ));
    }
    law_inputs_are_found_by_their_paths(hand_path@, left, state);
}

/// What is sent of the inputs is what either hand reports, the left one first, and what is sent of
/// the motion stands under the path of its hand.
pub proof fn law_messages_hold_both_hands(
    snapshot: ControllerSnapshot,
    now_ns: u64,
    entries: Vec<ButtonEntry>,
    motions: Vec<(u64, DeviceMotion)>,
)
    requires
        call_ensures(build_button_entries, (&snapshot, now_ns), entries),
        call_ensures(build_controller_device_motions, (&snapshot, now_ns), motions),
    ensures
        snapshot.left is None && snapshot.right is None ==> entries@.len() == 0 && motions@.len()
            == 0,
        snapshot.left is None && snapshot.right is Some && fresh_state(snapshot.right, now_ns)
            is Some ==> entries@ == hand_entries("/user/hand/left"@, None) + hand_entries(
            "/user/hand/right"@,
            snapshot.right,
        ) && motions@ == hand_motion("/user/hand/right"@, snapshot.right, now_ns),
        snapshot.right is None && snapshot.left is Some && fresh_state(snapshot.left, now_ns)
            is Some ==> entries@ == hand_entries("/user/hand/left"@, snapshot.left) + hand_entries(
            "/user/hand/right"@,
            None,
        ) && motions@ == hand_motion("/user/hand/left"@, snapshot.left, now_ns),
{
    law_each_hand_sends_its_own_state(snapshot, now_ns);
}

/// A controller that rests within the dead zone stays where it was, and everything else of it is
/// as it reports. One that was not known is as it reports altogether.
pub proof fn law_resting_hands_do_not_drift(
    previous: SingleControllerState,
    incoming: SingleControllerState,
    within_deadzone: bool,
    state: SingleControllerState,
    first: SingleControllerState,
)
    requires
        previous.motion is Some,
        incoming.motion is Some,
        call_ensures(
            merge_controller_update,
            (Some(previous), incoming, within_deadzone),
            state,
        ),
        call_ensures(
            merge_controller_update,
            (None::<SingleControllerState>, incoming, within_deadzone),
            first,
        ),
    ensures
        first == incoming,
        state.motion is Some,
        state.motion->0.pose.position == if within_deadzone {
            previous.motion->0.pose.position
        } else {
            incoming.motion->0.pose.position
        },
        state.motion->0.pose.orientation == incoming.motion->0.pose.orientation,
        state.buttons_pressed == incoming.buttons_pressed,
        state.thumbstick_x == incoming.thumbstick_x && state.thumbstick_y == incoming.thumbstick_y,
        state.trigger == incoming.trigger && state.grip == incoming.grip,
        state.last_updated_ns == incoming.last_updated_ns,
{
    law_resting_controllers_stay_in_place(previous, incoming, within_deadzone);
    law_motion_is_remembered(previous, incoming, within_deadzone);
}

/// A controller counts while it is connected and no older than half a second.
pub proof fn law_controllers_count_for_half_a_second(
    state: SingleControllerState,
    now_ns: u64,
    counts: bool,
)
    requires
        call_ensures(is_fresh, (&state, now_ns), counts),
    ensures
        counts <==> state.connected && now_ns < state.last_updated_ns + 500_000_000,
{
    law_old_states_go_stale(state, now_ns);
}

} // verus!
