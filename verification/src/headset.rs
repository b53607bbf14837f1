//! The headset's own state: whether it is worn, and what its runtime can do.

use vstd::prelude::*;

use crate::controller::{Hand, SingleControllerState};
use crate::float::{is_finite, is_finite_float, negate, negated};
use crate::text::{
    debug_option_number, debug_option_text, format_debug_option, format_debug_option_number,
    format_signed_decimal, joined, lemma_mentions_itself, lemma_mentions_within, mentions,
    option_view, signed_decimal,
};

verus! {

// ---------------------------------------------------------------------------
// Lifecycle
// ---------------------------------------------------------------------------

/// What the system tells the client about the headset.
#[derive(Clone, Copy, Debug, PartialEq, Eq, Structural)]
pub struct HeadsetState {
    /// The client is to end.
    pub shutdown_requested: bool,
    /// The display is to be set up anew.
    pub presentation_refresh_requested: bool,
    /// The headset is worn.
    pub headset_near: bool,
}

impl Default for HeadsetState {
    fn default() -> (state: Self)
        ensures
            state == (HeadsetState {
                shutdown_requested: false,
                presentation_refresh_requested: false,
                headset_near: false,
            }),
    {
        HeadsetState {
            shutdown_requested: false,
            presentation_refresh_requested: false,
            headset_near: false,
        }
    }
}

impl HeadsetState {
    /// Whether the client is to end.
    pub fn is_shutdown_requested(&self) -> (requested: bool)
        ensures
            requested == self.shutdown_requested,
    {
        self.shutdown_requested
    }

    /// Takes a request to end back.
    pub fn reset_shutdown_requested(&mut self)
        ensures
            *final(self) == (HeadsetState { shutdown_requested: false, ..*old(self) }),
    {
        self.shutdown_requested = false;
    }

    /// Asks for the client to end.
    pub fn request_shutdown(&mut self)
        ensures
            *final(self) == (HeadsetState { shutdown_requested: true, ..*old(self) }),
    {
        self.shutdown_requested = true;
    }

    /// Asks for the display to be set up anew.
    pub fn request_presentation_refresh(&mut self)
        ensures
            *final(self) == (HeadsetState { presentation_refresh_requested: true, ..*old(self) }),
    {
        self.presentation_refresh_requested = true;
    }

    /// Whether the display is to be set up anew; the request is handed out once.
    pub fn take_presentation_refresh_requested(&mut self) -> (requested: bool)
        ensures
            requested == old(self).presentation_refresh_requested,
            *final(self) == (HeadsetState { presentation_refresh_requested: false, ..*old(self) }),
    {
        let requested: bool = self.presentation_refresh_requested;
        self.presentation_refresh_requested = false;
        requested
    }

    /// Whether the headset is worn.
    pub fn is_headset_near(&self) -> (near: bool)
        ensures
            near == self.headset_near,
    {
        self.headset_near
    }

    /// Notes that the headset was put on or taken off. Once it is put on the display is set up
    /// anew.
    pub fn notify_proximity(&mut self, is_near: bool)
        ensures
            *final(self) == (HeadsetState {
                headset_near: is_near,
                presentation_refresh_requested: old(self).presentation_refresh_requested || is_near,
                ..*old(self)
            }),
    {
        self.headset_near = is_near;
        if is_near {
            self.request_presentation_refresh();
        }
    }

    /// Notes that the screen went on or off. While the headset is worn the display is set up
    /// anew once the screen is on; off the head it is left asleep.
    pub fn notify_screen(&mut self, is_screen_on: bool)
        ensures
            *final(self) == (HeadsetState {
                presentation_refresh_requested: old(self).presentation_refresh_requested || (
                is_screen_on && old(self).headset_near),
                ..*old(self)
            }),
    {
        if is_screen_on && self.is_headset_near() {
            self.request_presentation_refresh();
        }
    }
}

/// The hand that the system means by a number.
pub fn jhand_to_controller_hand(hand: i32) -> (result: Option<Hand>)
    ensures
        result == if hand == 0 {
            Some(Hand::Left)
        } else if hand == 1 {
            Some(Hand::Right)
        } else {
            None
        },
{
    match hand {
        0 => Some(Hand::Left),
        1 => Some(Hand::Right),
        _ => None,
    }
}

/// The charge of a controller in percent: none below zero, full above a hundred.
pub open spec fn percent(battery: i32) -> u8 {
    if battery < 0 {
        0
    } else if battery > 100 {
        100
    } else {
        battery as u8
    }
}

/// The charge of a controller in percent.
pub fn clamp_battery_percent(battery: i32) -> (result: u8)
    ensures
        result == percent(battery),
{
    if battery < 0 {
        0
    } else if battery > 100 {
        100
    } else {
        battery as u8
    }
}

/// The bits of a number with a sign, read as a number without one.
pub open spec fn mask_of(bits: i32) -> u32 {
    bits as u32
}

/// The state of a controller as the system reports it: connected, without a motion.
pub fn reported_controller_state(
    handle: i32,
    buttons_pressed: i32,
    buttons_touched: i32,
    trigger: u32,
    grip: u32,
    thumbstick_x: u32,
    thumbstick_y: u32,
    battery: i32,
    now_ns: u64,
) -> (state: SingleControllerState)
    ensures
        state == (SingleControllerState {
            connected: true,
            handle,
            motion: None,
            buttons_pressed: mask_of(buttons_pressed),
            buttons_touched: mask_of(buttons_touched),
            trigger,
            grip,
            thumbstick_x,
            thumbstick_y,
            battery_percent: percent(battery),
            last_updated_ns: now_ns,
        }),
{
    SingleControllerState {
        connected: true,
        handle,
        motion: None,
        buttons_pressed: buttons_pressed as u32,
        buttons_touched: buttons_touched as u32,
        trigger,
        grip,
        thumbstick_x,
        thumbstick_y,
        battery_percent: clamp_battery_percent(battery),
        last_updated_ns: now_ns,
    }
}

// ---------------------------------------------------------------------------
// Tracking modes
// ---------------------------------------------------------------------------

/// The bit of a mode that follows rotations.
pub const TRACKING_MODE_ROTATION: i32 = 1;

/// The bit of a mode that follows positions.
pub const TRACKING_MODE_POSITION: i32 = 2;

/// The mode that follows both.
pub const TRACKING_MODE_ROTATION_POSITION: i32 = 3;

/// The modes in words, with their bits.
pub open spec fn tracking_modes_text(bits: i32) -> Seq<char> {
    (if bits & TRACKING_MODE_ROTATION != 0 {
        if bits & TRACKING_MODE_POSITION != 0 {
            "rotation|position"@
        } else {
            "rotation"@
        }
    } else if bits & TRACKING_MODE_POSITION != 0 {
        "position"@
    } else {
        "none"@
    }) + " ("@ + signed_decimal(bits as int) + ")"@
}

/// Writes the modes in words, with their bits.
pub fn format_tracking_modes(bits: i32) -> (text: String)
    ensures
        text@ == tracking_modes_text(bits),
{
    let names: &str = if bits & TRACKING_MODE_ROTATION != 0 {
        if bits & TRACKING_MODE_POSITION != 0 {
            "rotation|position"
        } else {
            "rotation"
        }
    } else if bits & TRACKING_MODE_POSITION != 0 {
        "position"
    } else {
        "none"
    };
    let mut text: String = names.to_owned();
    text.append(" (");
    let number: String = format_signed_decimal(bits);
    text.append(number.as_str());
    text.append(")");
    text
}

/// The mode to start with: rotations alone where they can be followed, because the server follows
/// the head; else whatever is supported, and both where nothing is known.
pub open spec fn bootstrap_mode(supported: Option<i32>) -> i32 {
    let modes = match supported {
        Some(modes) => modes,
        None => TRACKING_MODE_ROTATION_POSITION,
    };
    if modes & TRACKING_MODE_ROTATION != 0 {
        TRACKING_MODE_ROTATION
    } else if modes != 0 {
        modes
    } else {
        TRACKING_MODE_ROTATION_POSITION
    }
}

/// Selects the mode to start with.
pub fn select_bootstrap_tracking_mode(supported_modes: Option<i32>) -> (mode: i32)
    ensures
        mode == bootstrap_mode(supported_modes),
{
    let modes: i32 = match supported_modes {
        Some(modes) => modes,
        None => TRACKING_MODE_ROTATION_POSITION,
    };
    if modes & TRACKING_MODE_ROTATION != 0 {
        TRACKING_MODE_ROTATION
    } else if modes != 0 {
        modes
    } else {
        TRACKING_MODE_ROTATION_POSITION
    }
}

/// The mode to change to once frames are shown, where positions are to be followed too: both,
/// where both are supported and were not followed from the start.
pub open spec fn promotion_mode(promote: bool, supported: Option<i32>, bootstrap: i32) -> Option<
    i32,
> {
    match supported {
        Some(modes) if promote && modes & TRACKING_MODE_ROTATION_POSITION
            == TRACKING_MODE_ROTATION_POSITION && bootstrap != TRACKING_MODE_ROTATION_POSITION => {
            Some(TRACKING_MODE_ROTATION_POSITION)
        },
        _ => None,
    }
}

/// Positions are not followed: the server follows the head.
pub const PIMAX_PROMOTE_TO_POSITIONAL_TRACKING: bool = false;

/// Selects the mode to change to once frames are shown.
pub fn select_promotion_tracking_mode(supported_modes: Option<i32>, bootstrap_mode: i32) -> (mode:
    Option<i32>)
    ensures
        mode == promotion_mode(
            PIMAX_PROMOTE_TO_POSITIONAL_TRACKING,
            supported_modes,
            bootstrap_mode,
        ),
{
    if !PIMAX_PROMOTE_TO_POSITIONAL_TRACKING {
        return None;
    }
    match supported_modes {
        Some(modes) => if modes & TRACKING_MODE_ROTATION_POSITION
            == TRACKING_MODE_ROTATION_POSITION && bootstrap_mode
            != TRACKING_MODE_ROTATION_POSITION {
            Some(TRACKING_MODE_ROTATION_POSITION)
        } else {
            None
        },
        None => None,
    }
}

// ---------------------------------------------------------------------------
// What the runtime says of itself
// ---------------------------------------------------------------------------

/// What the headset's runtime says of itself.
#[derive(Clone, Debug, PartialEq, Eq)]
pub struct PimaxProbeReport {
    pub pxr_version: Option<String>,
    pub pxr_client_version: Option<String>,
    pub pxr_service_version: Option<String>,
    pub supported_tracking_modes: Option<i32>,
    pub current_tracking_mode: Option<i32>,
    pub current_tracking_mode_after_set: Option<i32>,
    pub service_supported_tracking_modes: Option<i32>,
    pub service_current_tracking_mode: Option<i32>,
    pub set_tracking_mode_result: Option<i32>,
    pub vr_mode: Option<i32>,
    pub start_vr_mode_result: Option<i32>,
}

impl Default for PimaxProbeReport {
    fn default() -> (report: Self)
        ensures
            report == (PimaxProbeReport {
                pxr_version: None,
                pxr_client_version: None,
                pxr_service_version: None,
                supported_tracking_modes: None,
                current_tracking_mode: None,
                current_tracking_mode_after_set: None,
                service_supported_tracking_modes: None,
                service_current_tracking_mode: None,
                set_tracking_mode_result: None,
                vr_mode: None,
                start_vr_mode_result: None,
            }),
    {
        PimaxProbeReport {
            pxr_version: None,
            pxr_client_version: None,
            pxr_service_version: None,
            supported_tracking_modes: None,
            current_tracking_mode: None,
            current_tracking_mode_after_set: None,
            service_supported_tracking_modes: None,
            service_current_tracking_mode: None,
            set_tracking_mode_result: None,
            vr_mode: None,
            start_vr_mode_result: None,
        }
    }
}

fn push_text(text: &mut String, label: &str, value: &Option<String>)
    ensures
        final(text)@ == old(text)@ + label@ + debug_option_text(option_view(*value)),
{
    text.append(label);
    let written: String = format_debug_option(value);
    text.append(written.as_str());
}

fn push_number(text: &mut String, label: &str, value: Option<i32>)
    ensures
        final(text)@ == old(text)@ + label@ + debug_option_number(value),
{
    text.append(label);
    let written: String = format_debug_option_number(value);
    text.append(written.as_str());
}

impl PimaxProbeReport {
    /// The report on one line.
    pub open spec fn spec_summary(&self) -> Seq<char> {
        "pxr_version="@ + debug_option_text(option_view(self.pxr_version)) + ", client_version="@
            + debug_option_text(option_view(self.pxr_client_version)) + ", service_version="@
            + debug_option_text(option_view(self.pxr_service_version))
            + ", supported_tracking_modes="@ + debug_option_number(self.supported_tracking_modes)
            + ", current_tracking_mode="@ + debug_option_number(self.current_tracking_mode)
            + ", current_tracking_mode_after_set="@ + debug_option_number(
            self.current_tracking_mode_after_set,
        ) + ", service_supported_tracking_modes="@ + debug_option_number(
            self.service_supported_tracking_modes,
        ) + ", service_current_tracking_mode="@ + debug_option_number(
            self.service_current_tracking_mode,
        ) + ", set_tracking_mode_result="@ + debug_option_number(self.set_tracking_mode_result)
            + ", vr_mode="@ + debug_option_number(self.vr_mode) + ", start_vr_mode_result="@
            + debug_option_number(self.start_vr_mode_result)
    }

    /// Writes the report on one line.
    pub fn summary(&self) -> (text: String)
        ensures
            text@ == self.spec_summary(),
    {
        let mut text: String = "pxr_version=".to_owned();
        let version: String = format_debug_option(&self.pxr_version);
        text.append(version.as_str());
        push_text(&mut text, ", client_version=", &self.pxr_client_version);
        push_text(&mut text, ", service_version=", &self.pxr_service_version);
        push_number(&mut text, ", supported_tracking_modes=", self.supported_tracking_modes);
        push_number(&mut text, ", current_tracking_mode=", self.current_tracking_mode);
        push_number(
            &mut text,
            ", current_tracking_mode_after_set=",
            self.current_tracking_mode_after_set,
        );
        push_number(
            &mut text,
            ", service_supported_tracking_modes=",
            self.service_supported_tracking_modes,
        );
        push_number(
            &mut text,
            ", service_current_tracking_mode=",
            self.service_current_tracking_mode,
        );
        push_number(&mut text, ", set_tracking_mode_result=", self.set_tracking_mode_result);
        push_number(&mut text, ", vr_mode=", self.vr_mode);
        push_number(&mut text, ", start_vr_mode_result=", self.start_vr_mode_result);
        text
    }
}

// ---------------------------------------------------------------------------
// Laws
// ---------------------------------------------------------------------------

/// The headset starts with a mode that it supports, where it supports any.
pub proof fn law_bootstrap_mode_is_supported(supported: i32)
    requires
        supported != 0,
    ensures
        bootstrap_mode(Some(supported)) & supported == bootstrap_mode(Some(supported)),
        bootstrap_mode(Some(supported)) != 0,
{
    assert(supported & 1 != 0 ==> 1i32 & supported == 1) by (bit_vector);
    assert(supported & supported == supported) by (bit_vector);
}

// ---------------------------------------------------------------------------
// Pose of the head
// ---------------------------------------------------------------------------

/// The pose of the head in the server's coordinates. The floats are their bits.
#[derive(Clone, Copy, Debug, PartialEq, Eq)]
pub struct HeadPoseReading {
    /// Not brought to length one yet.
    pub orientation: [u32; 4],
    pub position: [u32; 3],
    pub pose_timestamp_ns: u64,
    pub expected_display_timestamp_ns: u64,
    pub fetch_timestamp_ns: u64,
}

/// A time that is not negative.
pub open spec fn time_of(ns: i64) -> u64 {
    if ns < 0 {
        0
    } else {
        ns as u64
    }
}

fn time_ns(ns: i64) -> (time: u64)
    ensures
        time == time_of(ns),
{
    if ns < 0 {
        0
    } else {
        ns as u64
    }
}

/// Brings a pose of the runtime into the server's coordinates: heights have the other sign, and
/// the head turns the other way. A position that is not finite is none.
pub fn convert_head_pose(
    position: [u32; 3],
    rotation: [u32; 4],
    pose_timestamp_ns: i64,
    expected_display_timestamp_ns: i64,
    fetch_timestamp_ns: i64,
) -> (pose: Option<HeadPoseReading>)
    ensures
        pose is Some == (is_finite_float(position@[0]) && is_finite_float(position@[1])
            && is_finite_float(position@[2])),
        pose matches Some(reading) ==> {
            &&& reading.position@ == seq![position@[0], negated(position@[1]), position@[2]]
            &&& reading.orientation@ == seq![
                negated(rotation@[0]),
                negated(rotation@[1]),
                negated(rotation@[2]),
                rotation@[3],
            ]
            &&& reading.pose_timestamp_ns == time_of(pose_timestamp_ns)
            &&& reading.expected_display_timestamp_ns == time_of(expected_display_timestamp_ns)
            &&& reading.fetch_timestamp_ns == time_of(fetch_timestamp_ns)
        },
{
    if !is_finite(position[0]) || !is_finite(position[1]) || !is_finite(position[2]) {
        return None;
    }
    let turned: [u32; 4] = [
        negate(rotation[0]),
        negate(rotation[1]),
        negate(rotation[2]),
        rotation[3],
    ];
    let raised: [u32; 3] = [position[0], negate(position[1]), position[2]];
    assert(raised@ =~= seq![position@[0], negated(position@[1]), position@[2]]);
    assert(turned@ =~= seq![
        negated(rotation@[0]),
        negated(rotation@[1]),
        negated(rotation@[2]),
        rotation@[3],
    ]);
    Some(
        HeadPoseReading {
            orientation: turned,
            position: raised,
            pose_timestamp_ns: time_ns(pose_timestamp_ns),
            expected_display_timestamp_ns: time_ns(expected_display_timestamp_ns),
            fetch_timestamp_ns: time_ns(fetch_timestamp_ns),
        },
    )
}

// ---------------------------------------------------------------------------
// Laws of what is reported
// ---------------------------------------------------------------------------

/// A pose in the server's coordinates is upside down to the runtime: the height changes its sign
/// and the other coordinates stay, the head turns the other way, and the times stay as they are
/// unless they are negative.
pub proof fn law_poses_are_turned_upright(
    position: [u32; 3],
    rotation: [u32; 4],
    pose_ns: i64,
    display_ns: i64,
    fetch_ns: i64,
    pose: HeadPoseReading,
)
    requires
        call_ensures(
            convert_head_pose,
            (position, rotation, pose_ns, display_ns, fetch_ns),
            Some(pose),
        ),
    ensures
        pose.position@[0] == position@[0],
        negated(pose.position@[1]) == position@[1],
        pose.position@[2] == position@[2],
        negated(pose.orientation@[0]) == rotation@[0],
        negated(pose.orientation@[1]) == rotation@[1],
        negated(pose.orientation@[2]) == rotation@[2],
        pose.orientation@[3] == rotation@[3],
        pose_ns >= 0 ==> pose.pose_timestamp_ns == pose_ns,
        display_ns >= 0 ==> pose.expected_display_timestamp_ns == display_ns,
        fetch_ns >= 0 ==> pose.fetch_timestamp_ns == fetch_ns,
        pose_ns < 0 ==> pose.pose_timestamp_ns == 0,
        display_ns < 0 ==> pose.expected_display_timestamp_ns == 0,
        fetch_ns < 0 ==> pose.fetch_timestamp_ns == 0,
{
    crate::float::law_negation_turns_the_order(position@[1], 0);
    crate::float::law_negation_turns_the_order(rotation@[0], 0);
    crate::float::law_negation_turns_the_order(rotation@[1], 0);
    crate::float::law_negation_turns_the_order(rotation@[2], 0);
}

/// Only a position that is finite makes a pose.
pub proof fn law_poses_are_finite(
    position: [u32; 3],
    rotation: [u32; 4],
    pose_ns: i64,
    display_ns: i64,
    fetch_ns: i64,
    pose: Option<HeadPoseReading>,
)
    requires
        call_ensures(
            convert_head_pose,
            (position, rotation, pose_ns, display_ns, fetch_ns),
            pose,
        ),
    ensures
        pose is None <==> exists|i: int|
            0 <= i < 3 && !is_finite_float(#[trigger] position@[i]),
{
    if pose is None {
        assert(!is_finite_float(position@[0]) || !is_finite_float(position@[1])
            || !is_finite_float(position@[2]));
    }
}

/// The charge stays between zero and a hundred, grows with what is reported, and is what is
/// reported wherever that is a percentage.
pub proof fn law_charge_is_a_percentage(battery: i32, other: i32)
    ensures
        percent(battery) <= 100,
        0 <= battery <= 100 ==> percent(battery) == battery,
        battery <= other ==> percent(battery) <= percent(other),
{
}

/// What the system reports of a controller is taken over value by value.
pub proof fn law_reports_are_taken_over(
    handle: i32,
    pressed: i32,
    touched: i32,
    trigger: u32,
    grip: u32,
    thumbstick_x: u32,
    thumbstick_y: u32,
    battery: i32,
    now_ns: u64,
    state: SingleControllerState,
)
    requires
        call_ensures(
            reported_controller_state,
            (
                handle,
                pressed,
                touched,
                trigger,
                grip,
                thumbstick_x,
                thumbstick_y,
                battery,
                now_ns,
            ),
            state,
        ),
    ensures
        state.connected && state.motion is None,
        state.handle == handle,
        pressed >= 0 ==> state.buttons_pressed == pressed,
        touched >= 0 ==> state.buttons_touched == touched,
        state.trigger == trigger,
        state.grip == grip,
        state.thumbstick_x == thumbstick_x,
        state.thumbstick_y == thumbstick_y,
        0 <= battery <= 100 ==> state.battery_percent == battery,
        state.last_updated_ns == now_ns,
{
}

/// The system counts the hands from the left.
pub proof fn law_hands_are_counted_from_the_left(number: i32, hand: Option<Hand>)
    requires
        call_ensures(jhand_to_controller_hand, (number,), hand),
    ensures
        hand == Some(Hand::Left) <==> number == 0,
        hand == Some(Hand::Right) <==> number == 1,
        hand is None <==> number < 0 || number > 1,
{
}

/// The headset starts with rotations alone wherever it can follow them. Where nothing is known of
/// it, or it supports nothing, it starts with everything.
pub proof fn law_rotations_come_first(supported: i32)
    ensures
        supported & 1 != 0 ==> bootstrap_mode(Some(supported)) == 1,
        supported & 1 == 0 && supported != 0 ==> bootstrap_mode(Some(supported)) == supported,
        bootstrap_mode(Some(0)) == 3,
        bootstrap_mode(None) == 1,
{
    assert(3i32 & 1 != 0) by (bit_vector);
    assert(0i32 & 1 == 0) by (bit_vector);
}

/// Positions are never followed once frames are shown. If they were to be, it would be by a
/// headset that supports both and started with less.
pub proof fn law_positions_are_left_to_the_server(
    supported: Option<i32>,
    bootstrap: i32,
    mode: Option<i32>,
)
    requires
        call_ensures(select_promotion_tracking_mode, (supported, bootstrap), mode),
    ensures
        mode is None,
        promotion_mode(true, supported, bootstrap) == Some(3i32) <==> supported is Some
            && supported->0 & 3 == 3 && bootstrap != 3,
        promotion_mode(true, supported, bootstrap) is Some ==> promotion_mode(
            true,
            supported,
            bootstrap,
        ) == Some(3i32),
{
}

/// The modes are named by their bits: the first bit follows rotations and the second positions.
pub proof fn law_modes_are_named_by_their_bits(bits: i32)
    ensures
        bits & 1 != 0 && bits & 2 != 0 ==> tracking_modes_text(bits) == "rotation|position"@ + " ("@
            + signed_decimal(bits as int) + ")"@,
        bits & 1 != 0 && bits & 2 == 0 ==> tracking_modes_text(bits) == "rotation"@ + " ("@
            + signed_decimal(bits as int) + ")"@,
        bits & 1 == 0 && bits & 2 != 0 ==> tracking_modes_text(bits) == "position"@ + " ("@
            + signed_decimal(bits as int) + ")"@,
        bits & 1 == 0 && bits & 2 == 0 ==> tracking_modes_text(bits) == "none"@ + " ("@
            + signed_decimal(bits as int) + ")"@,
{
}

/// The client is told to stop until it starts anew, and at the start nothing is asked of it.
pub proof fn law_shutdown_holds_until_a_new_start(fresh: HeadsetState)
    requires
        call_ensures(HeadsetState::default, (), fresh),
    ensures
        !fresh.shutdown_requested && !fresh.presentation_refresh_requested && !fresh.headset_near,
        forall|state: &mut HeadsetState| #[trigger]
            call_ensures(HeadsetState::request_shutdown, (state,), ()) ==> {
                &&& final(state).shutdown_requested
                &&& final(state).headset_near == (*state).headset_near
                &&& final(state).presentation_refresh_requested
                    == (*state).presentation_refresh_requested
            },
        forall|state: &mut HeadsetState| #[trigger]
            call_ensures(HeadsetState::reset_shutdown_requested, (state,), ()) ==> {
                &&& !final(state).shutdown_requested
                &&& final(state).headset_near == (*state).headset_near
                &&& final(state).presentation_refresh_requested
                    == (*state).presentation_refresh_requested
            },
{
}

/// A refresh that is asked for is taken once.
pub proof fn law_refresh_is_taken_once(taken: bool, again: bool)
    ensures
        forall|first: &mut HeadsetState, second: &mut HeadsetState, third: &mut HeadsetState|
            #[trigger] call_ensures(HeadsetState::request_presentation_refresh, (first,), ())
                && *second == *final(first) && #[trigger] call_ensures(
                HeadsetState::take_presentation_refresh_requested,
                (second,),
                taken,
            ) && *third == *final(second) && #[trigger] call_ensures(
                HeadsetState::take_presentation_refresh_requested,
                (third,),
                again,
            ) ==> taken && !again && final(third).headset_near == (*first).headset_near
                && final(third).shutdown_requested == (*first).shutdown_requested,
{
}

/// Putting the headset on asks for a refresh, taking it off does not. A screen that is switched on
/// asks for one only while the headset is worn.
pub proof fn law_wearers_get_a_fresh_picture(is_near: bool, is_screen_on: bool)
    ensures
        forall|state: &mut HeadsetState| #[trigger]
            call_ensures(HeadsetState::notify_proximity, (state, is_near), ()) ==> {
                &&& final(state).headset_near == is_near
                &&& is_near ==> final(state).presentation_refresh_requested
                &&& !is_near ==> final(state).presentation_refresh_requested
                    == (*state).presentation_refresh_requested
                &&& final(state).shutdown_requested == (*state).shutdown_requested
            },
        forall|state: &mut HeadsetState| #[trigger]
            call_ensures(HeadsetState::notify_screen, (state, is_screen_on), ()) ==> {
                &&& is_screen_on && (*state).headset_near ==> final(
                    state).presentation_refresh_requested
                &&& !is_screen_on || !(*state).headset_near ==> *final(state) == *state
                &&& final(state).headset_near == (*state).headset_near
                &&& final(state).shutdown_requested == (*state).shutdown_requested
            },
{
}

/// A report that was not filled in holds nothing.
pub proof fn law_empty_reports_hold_nothing(report: PimaxProbeReport)
    requires
        call_ensures(PimaxProbeReport::default, (), report),
    ensures
        report.pxr_version is None && report.pxr_client_version is None
            && report.pxr_service_version is None,
        report.supported_tracking_modes is None && report.current_tracking_mode is None,
        report.current_tracking_mode_after_set is None && report.set_tracking_mode_result is None,
        report.service_supported_tracking_modes is None && report.service_current_tracking_mode
            is None,
        report.vr_mode is None && report.start_vr_mode_result is None,
{
}

/// A headset starts with rotations alone wherever it knows them, and with what it knows otherwise.
pub proof fn law_headsets_start_with_rotations(supported: Option<i32>, mode: i32)
    requires
        call_ensures(select_bootstrap_tracking_mode, (supported,), mode),
    ensures
        supported is None ==> mode == 1,
        supported is Some && supported->0 & 1 != 0 ==> mode == 1,
        supported is Some && supported->0 & 1 == 0 && supported->0 != 0 ==> mode == supported->0,
        supported == Some(0i32) ==> mode == 3,
{
    match supported {
        Some(modes) => law_rotations_come_first(modes),
        None => law_rotations_come_first(0),
    }
}

/// A charge is shown as a percentage, and the modes by their names with their number.
pub proof fn law_reports_are_shown_readably(battery: i32, shown: u8, bits: i32, text: String)
    requires
        call_ensures(clamp_battery_percent, (battery,), shown),
        call_ensures(format_tracking_modes, (bits,), text),
    ensures
        0 <= battery <= 100 ==> shown == battery,
        battery < 0 ==> shown == 0,
        battery > 100 ==> shown == 100,
        bits & 1 != 0 && bits & 2 != 0 ==> text@ == "rotation|position"@ + " ("@ + signed_decimal(
            bits as int,
        ) + ")"@,
        bits & 1 != 0 && bits & 2 == 0 ==> text@ == "rotation"@ + " ("@ + signed_decimal(
            bits as int,
        ) + ")"@,
        bits & 1 == 0 && bits & 2 != 0 ==> text@ == "position"@ + " ("@ + signed_decimal(
            bits as int,
        ) + ")"@,
{
    law_charge_is_a_percentage(battery, 100);
    law_charge_is_a_percentage(battery, 0);
    law_modes_are_named_by_their_bits(bits);
}

/// What is asked of the headset's state is what was last told of it.
pub proof fn law_headset_answers_as_it_was_told(state: HeadsetState, ends: bool, near: bool)
    requires
        call_ensures(HeadsetState::is_shutdown_requested, (&state,), ends),
        call_ensures(HeadsetState::is_headset_near, (&state,), near),
    ensures
        ends == state.shutdown_requested,
        near == state.headset_near,
{
}

/// A text that is put together from parts holds each of them.
proof fn lemma_parts_are_mentioned(parts: Seq<Seq<char>>, i: int)
    requires
        0 <= i < parts.len(),
    ensures
        mentions(joined(parts, Seq::empty()), parts[i]),
    decreases parts.len(),
{
    let none = Seq::<char>::empty();
    let last = parts.last();
    let earlier = joined(parts.drop_last(), none);
    if parts.len() == 1 {
        lemma_mentions_itself(last);
        assert(joined(parts, none) =~= last);
    } else {
        assert(joined(parts, none) =~= earlier + last);
        if i == parts.len() - 1 {
            lemma_mentions_itself(last);
            lemma_mentions_within(earlier, last, none, last);
            assert(earlier + last + none =~= joined(parts, none));
        } else {
            lemma_parts_are_mentioned(parts.drop_last(), i);
            lemma_mentions_within(none, earlier, last, parts[i]);
            assert(none + earlier + last =~= joined(parts, none));
        }
    }
}

/// One more part stands at the end.
proof fn lemma_one_more_part(parts: Seq<Seq<char>>, part: Seq<char>)
    requires
        parts.len() > 0,
    ensures
        joined(parts.push(part), Seq::empty()) == joined(parts, Seq::empty()) + part,
{
    assert(parts.push(part).drop_last() =~= parts);
    assert(joined(parts.push(part), Seq::empty()) =~= joined(parts, Seq::empty()) + part);
}

/// The report shows each answer of the headset behind its own label.
pub proof fn law_answers_are_labelled(report: PimaxProbeReport, text: String)
    requires
        call_ensures(PimaxProbeReport::summary, (&report,), text),
    ensures
        mentions(text@, "pxr_version="@ + debug_option_text(option_view(report.pxr_version))),
        mentions(
            text@,
            ", client_version="@ + debug_option_text(option_view(report.pxr_client_version)),
        ),
        mentions(
            text@,
            ", service_version="@ + debug_option_text(option_view(report.pxr_service_version)),
        ),
        mentions(
            text@,
            ", supported_tracking_modes="@ + debug_option_number(report.supported_tracking_modes),
        ),
        mentions(
            text@,
            ", current_tracking_mode="@ + debug_option_number(report.current_tracking_mode),
        ),
        mentions(
            text@,
            ", current_tracking_mode_after_set="@ + debug_option_number(
                report.current_tracking_mode_after_set,
            ),
        ),
        mentions(
            text@,
            ", service_supported_tracking_modes="@ + debug_option_number(
                report.service_supported_tracking_modes,
            ),
        ),
        mentions(
            text@,
            ", service_current_tracking_mode="@ + debug_option_number(
                report.service_current_tracking_mode,
            ),
        ),
        mentions(
            text@,
            ", set_tracking_mode_result="@ + debug_option_number(report.set_tracking_mode_result),
        ),
        mentions(text@, ", vr_mode="@ + debug_option_number(report.vr_mode)),
        mentions(
            text@,
            ", start_vr_mode_result="@ + debug_option_number(report.start_vr_mode_result),
        ),
{
    let none = Seq::<char>::empty();
    let p0 = "pxr_version="@ + debug_option_text(option_view(report.pxr_version));
    let p1 = ", client_version="@ + debug_option_text(option_view(report.pxr_client_version));
    let p2 = ", service_version="@ + debug_option_text(option_view(report.pxr_service_version));
    let p3 = ", supported_tracking_modes="@ + debug_option_number(report.supported_tracking_modes);
    let p4 = ", current_tracking_mode="@ + debug_option_number(report.current_tracking_mode);
    let p5 = ", current_tracking_mode_after_set="@ + debug_option_number(
        report.current_tracking_mode_after_set,
    );
    let p6 = ", service_supported_tracking_modes="@ + debug_option_number(
        report.service_supported_tracking_modes,
    );
    let p7 = ", service_current_tracking_mode="@ + debug_option_number(
        report.service_current_tracking_mode,
    );
    let p8 = ", set_tracking_mode_result="@ + debug_option_number(report.set_tracking_mode_result);
    let p9 = ", vr_mode="@ + debug_option_number(report.vr_mode);
    let p10 = ", start_vr_mode_result="@ + debug_option_number(report.start_vr_mode_result);
    let parts = seq![p0].push(p1).push(p2).push(p3).push(p4).push(p5).push(p6).push(p7).push(
        p8,
    ).push(p9).push(p10);
    assert(joined(parts, none) == p0 + p1 + p2 + p3 + p4 + p5 + p6 + p7 + p8 + p9 + p10) by {
        let q1 = seq![p0].push(p1);
        let q2 = q1.push(p2);
        let q3 = q2.push(p3);
        let q4 = q3.push(p4);
        let q5 = q4.push(p5);
        let q6 = q5.push(p6);
        let q7 = q6.push(p7);
        let q8 = q7.push(p8);
        let q9 = q8.push(p9);
        assert(joined(seq![p0], none) =~= p0);
        lemma_one_more_part(seq![p0], p1);
        lemma_one_more_part(q1, p2);
        lemma_one_more_part(q2, p3);
        lemma_one_more_part(q3, p4);
        lemma_one_more_part(q4, p5);
        lemma_one_more_part(q5, p6);
        lemma_one_more_part(q6, p7);
        lemma_one_more_part(q7, p8);
        lemma_one_more_part(q8, p9);
        lemma_one_more_part(q9, p10);
    }
    assert(text@ =~= p0 + p1 + p2 + p3 + p4 + p5 + p6 + p7 + p8 + p9 + p10);
    lemma_parts_are_mentioned(parts, 0);
    lemma_parts_are_mentioned(parts, 1);
    lemma_parts_are_mentioned(parts, 2);
    lemma_parts_are_mentioned(parts, 3);
    lemma_parts_are_mentioned(parts, 4);
    lemma_parts_are_mentioned(parts, 5);
    lemma_parts_are_mentioned(parts, 6);
    lemma_parts_are_mentioned(parts, 7);
    lemma_parts_are_mentioned(parts, 8);
    lemma_parts_are_mentioned(parts, 9);
    lemma_parts_are_mentioned(parts, 10);
}

} // verus!
