//! The controllers as the headset's native library reports them.

use vstd::prelude::*;

use crate::controller::{
    bit_set, merged, update_controller_connection, update_controller_state, ControllerStore,
    DeviceMotion, Hand, SingleControllerState, ONE_BITS,
};
use crate::float::{
    clamp_float, clamped, float_greater, is_finite, is_finite_float, is_greater, magnitude,
};
use crate::headset::{clamp_battery_percent, percent};
use crate::recovery::{elapsed, elapsed_ns};
use crate::scan::{trim, trimmed};
use crate::service::{
    button_mask, changed_words, changes_text, earlier, find_changed_words, first_of, flagged,
    format_changes, has_flag, law_changes_are_the_words_that_differ, law_masks_keep_every_button,
    mask_of_buttons, time_before, word_count, WordChange,
    CHANGE_LOG_INTERVAL_NS, PIMAX_BUTTON_BACK, PIMAX_BUTTON_FOUR, PIMAX_BUTTON_ONE,
    PIMAX_BUTTON_PRIMARY_HAND_TRIGGER, PIMAX_BUTTON_PRIMARY_INDEX_TRIGGER,
    PIMAX_BUTTON_PRIMARY_THUMBSTICK, PIMAX_BUTTON_SECONDARY_HAND_TRIGGER,
    PIMAX_BUTTON_SECONDARY_INDEX_TRIGGER, PIMAX_BUTTON_SECONDARY_THUMBSTICK, PIMAX_BUTTON_START,
    PIMAX_BUTTON_THREE, PIMAX_BUTTON_TWO, PIMAX_NATIVE_TOUCH_GRIP, PIMAX_NATIVE_TOUCH_TRIGGER,
    PIMAX_TOUCH_FOUR, PIMAX_TOUCH_ONE, PIMAX_TOUCH_PRIMARY_THUMBSTICK,
    PIMAX_TOUCH_SECONDARY_THUMBSTICK, PIMAX_TOUCH_THREE, PIMAX_TOUCH_TWO,
};
use crate::text::{decimal, law_digits_are_read_back, signed_decimal, value_in};
use crate::views::MINUS_ONE_BITS;
use crate::wire::{le32_at, le64_at, read_u32_le, read_u64_le, same_bytes};

verus! {

// ---------------------------------------------------------------------------
// Reading a state
// ---------------------------------------------------------------------------

/// Size of the state of a controller, in bytes.
pub const PIMAX_NATIVE_CONTROLLER_STATE_SIZE: usize = 208;

/// Number of changed words that a line of the log holds.
pub const PIMAX_NATIVE_CONTROLLER_MAX_CHANGE_LOG_WORDS: usize = 24;

/// The 32-bit number at an offset; zero where the bytes end before it does.
pub open spec fn u32_at(bytes: Seq<u8>, offset: int) -> u32 {
    if offset + 4 <= bytes.len() {
        le32_at(bytes, offset) as u32
    } else {
        0
    }
}

/// The 64-bit number at an offset; zero where the bytes end before it does.
pub open spec fn u64_at(bytes: Seq<u8>, offset: int) -> u64 {
    if offset + 8 <= bytes.len() {
        le64_at(bytes, offset) as u64
    } else {
        0
    }
}

/// Reads the 32-bit number at an offset; zero where the bytes end before it does.
pub fn read_u32_at(bytes: &[u8], offset: usize) -> (value: u32)
    ensures
        value == u32_at(bytes@, offset as int),
{
    if bytes.len() < 4 || offset > bytes.len() - 4 {
        0
    } else {
        read_u32_le(bytes, offset)
    }
}

/// Reads the 64-bit number at an offset; zero where the bytes end before it does.
pub fn read_u64_at(bytes: &[u8], offset: usize) -> (value: u64)
    ensures
        value == u64_at(bytes@, offset as int),
{
    if bytes.len() < 8 || offset > bytes.len() - 8 {
        0
    } else {
        read_u64_le(bytes, offset)
    }
}

/// Three floats in a row, as their bits. Where one of them is not finite, all are zero.
pub open spec fn vector_at(bytes: Seq<u8>, offset: int) -> Seq<u32> {
    let x = u32_at(bytes, offset);
    let y = u32_at(bytes, offset + 4);
    let z = u32_at(bytes, offset + 8);
    if is_finite_float(x) && is_finite_float(y) && is_finite_float(z) {
        seq![x, y, z]
    } else {
        seq![0, 0, 0]
    }
}

/// Reads three floats in a row, as their bits. Where one of them is not finite, all are zero.
pub fn read_vec3_at(bytes: &[u8], offset: usize) -> (vector: [u32; 3])
    requires
        offset + 8 <= usize::MAX,
    ensures
        vector@ == vector_at(bytes@, offset as int),
{
    let x: u32 = read_u32_at(bytes, offset);
    let y: u32 = read_u32_at(bytes, offset + 4);
    let z: u32 = read_u32_at(bytes, offset + 8);
    let vector: [u32; 3] = if is_finite(x) && is_finite(y) && is_finite(z) {
        [x, y, z]
    } else {
        [0, 0, 0]
    };
    assert(vector@ =~= vector_at(bytes@, offset as int));
    vector
}

/// A stick or a trigger as the library gives it, as the bits of a float.
#[derive(Clone, Copy, Debug, PartialEq, Eq, Structural)]
pub enum AxisReading {
    /// A position in its final range.
    Fraction(u32),
    /// A position on the scale of a byte, which is still to be brought into range.
    Byte(u32),
}

/// The bits of the number two.
pub const TWO_BITS: u32 = 0x4000_0000;

/// The bits of the number one and a half.
pub const ONE_AND_A_HALF_BITS: u32 = 0x3fc0_0000;

/// What a float says of a stick: beyond two in either direction it is on the scale of a byte.
pub open spec fn axis_reading(bits: u32) -> AxisReading {
    if !is_finite_float(bits) {
        AxisReading::Fraction(0)
    } else if float_greater(magnitude(bits), TWO_BITS) {
        AxisReading::Byte(bits)
    } else {
        AxisReading::Fraction(clamped(bits, MINUS_ONE_BITS, ONE_BITS))
    }
}

/// What a float says of a trigger: above one and a half it is on the scale of a byte.
pub open spec fn trigger_reading(bits: u32) -> AxisReading {
    if !is_finite_float(bits) {
        AxisReading::Fraction(0)
    } else if float_greater(bits, ONE_AND_A_HALF_BITS) {
        AxisReading::Byte(bits)
    } else {
        AxisReading::Fraction(clamped(bits, 0, ONE_BITS))
    }
}

/// Decides what a float says of a stick.
pub fn normalize_pimax_native_axis(bits: u32) -> (reading: AxisReading)
    ensures
        reading == axis_reading(bits),
{
    if !is_finite(bits) {
        AxisReading::Fraction(0)
    } else {
        let size: u32 = if bits < 0x8000_0000 {
            bits
        } else {
            bits - 0x8000_0000
        };
        if is_greater(size, TWO_BITS) {
            AxisReading::Byte(bits)
        } else {
            AxisReading::Fraction(clamp_float(bits, MINUS_ONE_BITS, ONE_BITS))
        }
    }
}

/// Decides what a float says of a trigger.
pub fn normalize_pimax_native_trigger(bits: u32) -> (reading: AxisReading)
    ensures
        reading == trigger_reading(bits),
{
    if !is_finite(bits) {
        AxisReading::Fraction(0)
    } else if is_greater(bits, ONE_AND_A_HALF_BITS) {
        AxisReading::Byte(bits)
    } else {
        AxisReading::Fraction(clamp_float(bits, 0, ONE_BITS))
    }
}

/// What the bytes of a state hold.
#[derive(Clone, Copy, Debug, PartialEq, Eq)]
pub struct NativeReading {
    /// The orientation as it stands, where all of it is finite.
    pub orientation: Option<[u32; 4]>,
    pub position: [u32; 3],
    pub linear_velocity: [u32; 3],
    pub angular_velocity: [u32; 3],
    pub timestamp_ns: u64,
    pub buttons: u32,
    pub touches: u32,
    pub thumbstick_x: AxisReading,
    pub thumbstick_y: AxisReading,
    pub trigger: AxisReading,
    pub grip: AxisReading,
}

/// Four floats at the start, as their bits.
pub open spec fn quaternion_at(bytes: Seq<u8>) -> Seq<u32> {
    seq![u32_at(bytes, 0), u32_at(bytes, 4), u32_at(bytes, 8), u32_at(bytes, 12)]
}

/// Every float of a list is finite.
pub open spec fn all_finite(floats: Seq<u32>) -> bool {
    forall|i: int| 0 <= i < floats.len() ==> is_finite_float(#[trigger] floats[i])
}

/// Reads what the bytes of a state hold.
pub fn parse_pimax_native_controller_state(
    bytes: &[u8; PIMAX_NATIVE_CONTROLLER_STATE_SIZE],
) -> (reading: NativeReading)
    ensures
        reading.orientation is Some == all_finite(quaternion_at(bytes@)),
        reading.orientation matches Some(orientation) ==> orientation@ == quaternion_at(bytes@),
        reading.position@ == vector_at(bytes@, 16),
        reading.angular_velocity@ == vector_at(bytes@, 28),
        reading.linear_velocity@ == vector_at(bytes@, 40),
        reading.timestamp_ns == le64_at(bytes@, 56),
        reading.buttons == le32_at(bytes@, 64),
        reading.thumbstick_x == axis_reading(u32_at(bytes@, 68)),
        reading.thumbstick_y == axis_reading(u32_at(bytes@, 72)),
        reading.trigger == trigger_reading(u32_at(bytes@, 100)),
        reading.grip == trigger_reading(u32_at(bytes@, 108)),
        reading.touches == le32_at(bytes@, 132),
{
    let slice: &[u8] = bytes.as_slice();
    let x: u32 = read_u32_at(slice, 0);
    let y: u32 = read_u32_at(slice, 4);
    let z: u32 = read_u32_at(slice, 8);
    let w: u32 = read_u32_at(slice, 12);
    let ghost floats = quaternion_at(bytes@);
    assert(floats[0] == x && floats[1] == y && floats[2] == z && floats[3] == w);
    let orientation: Option<[u32; 4]> = if is_finite(x) && is_finite(y) && is_finite(z)
        && is_finite(w) {
        let raw: [u32; 4] = [x, y, z, w];
        assert(raw@ =~= floats);
        Some(raw)
    } else {
        None
    };
    NativeReading {
        orientation,
        position: read_vec3_at(slice, 16),
        linear_velocity: read_vec3_at(slice, 40),
        angular_velocity: read_vec3_at(slice, 28),
        timestamp_ns: read_u64_at(slice, 56),
        buttons: read_u32_at(slice, 64),
        touches: read_u32_at(slice, 132),
        thumbstick_x: normalize_pimax_native_axis(read_u32_at(slice, 68)),
        thumbstick_y: normalize_pimax_native_axis(read_u32_at(slice, 72)),
        trigger: normalize_pimax_native_trigger(read_u32_at(slice, 100)),
        grip: normalize_pimax_native_trigger(read_u32_at(slice, 108)),
    }
}

/// What changed between two states, in words.
pub open spec fn state_changes(before: Seq<u8>, after: Seq<u8>) -> Seq<char> {
    changes_text(
        first_of(
            changed_words(before, after, word_count(after.len())),
            PIMAX_NATIVE_CONTROLLER_MAX_CHANGE_LOG_WORDS as int,
        ),
        2,
    )
}

/// Writes what changed between two states.
pub fn format_pimax_native_state_changes(
    before: &[u8; PIMAX_NATIVE_CONTROLLER_STATE_SIZE],
    after: &[u8; PIMAX_NATIVE_CONTROLLER_STATE_SIZE],
) -> (text: String)
    ensures
        text@ == state_changes(before@, after@),
{
    let (changes, _count): (Vec<WordChange>, usize) = find_changed_words(
        before.as_slice(),
        after.as_slice(),
        PIMAX_NATIVE_CONTROLLER_MAX_CHANGE_LOG_WORDS,
    );
    format_changes(&changes, 2)
}

// ---------------------------------------------------------------------------
// Battery
// ---------------------------------------------------------------------------

/// Where the system tells the charge of a controller.
pub fn battery_path(hand: Hand) -> (path: &'static str)
    ensures
        path@ == match hand {
            Hand::Left => "/sys/class/pimax_controller/controller_left/battery"@,
            Hand::Right => "/sys/class/pimax_controller/controller_right/battery"@,
        },
{
    match hand {
        Hand::Left => "/sys/class/pimax_controller/controller_left/battery",
        Hand::Right => "/sys/class/pimax_controller/controller_right/battery",
    }
}

/// A decimal digit.
pub open spec fn is_digit(c: char) -> bool {
    '0' <= c <= '9'
}

/// Text that holds at least one decimal digit and nothing else.
pub open spec fn all_digits(text: Seq<char>) -> bool {
    text.len() > 0 && forall|i: int| 0 <= i < text.len() ==> is_digit(#[trigger] text[i])
}

/// The number that decimal digits stand for.
pub open spec fn number_of(digits: Seq<char>) -> int
    decreases digits.len(),
{
    if digits.len() == 0 {
        0
    } else {
        10 * number_of(digits.drop_last()) + (digits.last() as int - '0' as int)
    }
}

/// The 32-bit number that text stands for: digits, with at most one sign before them.
pub open spec fn integer_of(text: Seq<char>) -> Option<i32> {
    let signed = text.len() > 0 && (text[0] == '-' || text[0] == '+');
    let digits = if signed {
        text.skip(1)
    } else {
        text
    };
    let value = if signed && text[0] == '-' {
        -number_of(digits)
    } else {
        number_of(digits)
    };
    if all_digits(digits) && i32::MIN <= value <= i32::MAX {
        Some(value as i32)
    } else {
        None
    }
}

fn digit_value(c: char) -> (value: Option<i64>)
    ensures
        value is Some == is_digit(c),
        value matches Some(digit) ==> digit == c as int - '0' as int,
{
    match c {
        '0' => Some(0),
        '1' => Some(1),
        '2' => Some(2),
        '3' => Some(3),
        '4' => Some(4),
        '5' => Some(5),
        '6' => Some(6),
        '7' => Some(7),
        '8' => Some(8),
        '9' => Some(9),
        _ => None,
    }
}

/// Reads a 32-bit number.
pub fn parse_i32(text: &str) -> (result: Option<i32>)
    ensures
        result == integer_of(text@),
{
    let length: usize = text.unicode_len();
    if length == 0 {
        return None;
    }
    let first: char = text.get_char(0);
    let negative: bool = first == '-';
    let start: usize = if negative || first == '+' {
        1
    } else {
        0
    };
    let ghost digits = text@.skip(start as int);
    assert(start == 0 ==> digits =~= text@);
    if start == length {
        return None;
    }
    let mut value: i64 = 0;
    let mut large: bool = false;
    let mut index: usize = start;
    assert(digits.take(0) =~= Seq::empty());
    while index < length
        invariant
            start <= index <= length,
            length == text@.len(),
            length > 0,
            start == if text@[0] == '-' || text@[0] == '+' {
                1int
            } else {
                0int
            },
            digits == text@.skip(start as int),
            forall|i: int| 0 <= i < index - start ==> is_digit(#[trigger] digits[i]),
            !large ==> 0 <= value <= 0x8000_0000,
            !large ==> value == number_of(digits.take(index - start)),
            large ==> number_of(digits.take(index - start)) > 0x8000_0000,
        decreases length - index,
    {
        let c: char = text.get_char(index);
        assert(c == digits[index - start]);
        assert(digits.take(index - start + 1).drop_last() =~= digits.take(index - start));
        match digit_value(c) {
            Some(digit) => {
                if !large {
                    value = 10 * value + digit;
                    if value > 0x8000_0000 {
                        large = true;
                    }
                }
            },
            None => {
                assert(!all_digits(digits)) by {
                    assert(!is_digit(digits[index - start]));
                }
                assert(start == 0 ==> digits =~= text@);
                return None;
            },
        }
        index = index + 1;
    }
    assert(digits.take(length - start) =~= digits);
    assert(all_digits(digits));
    if large {
        None
    } else if negative {
        Some((-value) as i32)
    } else if value == 0x8000_0000 {
        None
    } else {
        Some(value as i32)
    }
}

/// Reads the charge of a controller, in percent, out of what the system tells.
pub fn parse_battery(text: &str) -> (battery: Option<u8>)
    ensures
        battery == match integer_of(trimmed(text@)) {
            Some(value) => Some(percent(value)),
            None => None,
        },
{
    match parse_i32(trim(text)) {
        Some(value) => Some(clamp_battery_percent(value)),
        None => None,
    }
}

// ---------------------------------------------------------------------------
// Buttons
// ---------------------------------------------------------------------------

/// The state of a controller in its final ranges.
#[derive(Clone, Copy, Debug, PartialEq, Eq)]
pub struct PimaxNativeControllerParsed {
    pub motion: DeviceMotion,
    pub timestamp_ns: u64,
    pub buttons: u32,
    pub touches: u32,
    pub thumbstick_x: u32,
    pub thumbstick_y: u32,
    pub trigger: u32,
    pub grip: u32,
}

/// A trigger that is pulled further counts as pressed: a fifth of the way, as the bits of a float.
pub const PRESSED_BITS: u32 = 0x3e4c_cccd;

/// A trigger that is pulled further counts as touched: a hundredth of the way, as the bits of a
/// float.
pub const TOUCHED_BITS: u32 = 0x3c23_d70a;

/// One of two flags is set.
pub open spec fn either(value: u32, left: u32, right: u32) -> bool {
    flagged(value, left) || flagged(value, right)
}

/// The buttons that are pressed. Both hands use the same bits for the buttons under the thumb.
pub open spec fn native_pressed(parsed: PimaxNativeControllerParsed) -> u32 {
    let buttons = parsed.buttons;
    mask_of_buttons(
        either(buttons, PIMAX_BUTTON_PRIMARY_INDEX_TRIGGER, PIMAX_BUTTON_SECONDARY_INDEX_TRIGGER)
            || float_greater(parsed.trigger, PRESSED_BITS),
        either(buttons, PIMAX_BUTTON_PRIMARY_THUMBSTICK, PIMAX_BUTTON_SECONDARY_THUMBSTICK),
        either(buttons, PIMAX_BUTTON_BACK, PIMAX_BUTTON_START),
        either(buttons, PIMAX_BUTTON_PRIMARY_HAND_TRIGGER, PIMAX_BUTTON_SECONDARY_HAND_TRIGGER)
            || float_greater(parsed.grip, PRESSED_BITS),
        either(buttons, PIMAX_BUTTON_ONE, PIMAX_BUTTON_THREE),
        either(buttons, PIMAX_BUTTON_TWO, PIMAX_BUTTON_FOUR),
    )
}

/// The buttons that are touched. The menu button does not feel a touch.
pub open spec fn native_touched(parsed: PimaxNativeControllerParsed) -> u32 {
    let touches = parsed.touches;
    mask_of_buttons(
        flagged(touches, PIMAX_NATIVE_TOUCH_TRIGGER) || float_greater(parsed.trigger, TOUCHED_BITS),
        either(touches, PIMAX_TOUCH_PRIMARY_THUMBSTICK, PIMAX_TOUCH_SECONDARY_THUMBSTICK),
        false,
        flagged(touches, PIMAX_NATIVE_TOUCH_GRIP) || float_greater(parsed.grip, TOUCHED_BITS),
        either(touches, PIMAX_TOUCH_ONE, PIMAX_TOUCH_THREE),
        either(touches, PIMAX_TOUCH_TWO, PIMAX_TOUCH_FOUR),
    )
}

/// The buttons that are pressed, and those that are touched.
pub fn map_pimax_native_buttons(parsed: &PimaxNativeControllerParsed) -> (masks: (u32, u32))
    ensures
        masks == (native_pressed(*parsed), native_touched(*parsed)),
{
    let buttons: u32 = parsed.buttons;
    let touches: u32 = parsed.touches;
    let pressed: u32 = button_mask(
        has_flag(buttons, PIMAX_BUTTON_PRIMARY_INDEX_TRIGGER) || has_flag(
            buttons,
            PIMAX_BUTTON_SECONDARY_INDEX_TRIGGER,
        ) || is_greater(parsed.trigger, PRESSED_BITS),
        has_flag(buttons, PIMAX_BUTTON_PRIMARY_THUMBSTICK) || has_flag(
            buttons,
            PIMAX_BUTTON_SECONDARY_THUMBSTICK,
        ),
        has_flag(buttons, PIMAX_BUTTON_BACK) || has_flag(buttons, PIMAX_BUTTON_START),
        has_flag(buttons, PIMAX_BUTTON_PRIMARY_HAND_TRIGGER) || has_flag(
            buttons,
            PIMAX_BUTTON_SECONDARY_HAND_TRIGGER,
        ) || is_greater(parsed.grip, PRESSED_BITS),
        has_flag(buttons, PIMAX_BUTTON_ONE) || has_flag(buttons, PIMAX_BUTTON_THREE),
        has_flag(buttons, PIMAX_BUTTON_TWO) || has_flag(buttons, PIMAX_BUTTON_FOUR),
    );
    let touched: u32 = button_mask(
        has_flag(touches, PIMAX_NATIVE_TOUCH_TRIGGER) || is_greater(parsed.trigger, TOUCHED_BITS),
        has_flag(touches, PIMAX_TOUCH_PRIMARY_THUMBSTICK) || has_flag(
            touches,
            PIMAX_TOUCH_SECONDARY_THUMBSTICK,
        ),
        false,
        has_flag(touches, PIMAX_NATIVE_TOUCH_GRIP) || is_greater(parsed.grip, TOUCHED_BITS),
        has_flag(touches, PIMAX_TOUCH_ONE) || has_flag(touches, PIMAX_TOUCH_THREE),
        has_flag(touches, PIMAX_TOUCH_TWO) || has_flag(touches, PIMAX_TOUCH_FOUR),
    );
    (pressed, touched)
}

// ---------------------------------------------------------------------------
// Polling
// ---------------------------------------------------------------------------

/// Time between two polls, in nanoseconds.
pub const PIMAX_NATIVE_CONTROLLER_POLL_INTERVAL_NS: u64 = 20_000_000;

/// Time between two looks at a battery, in nanoseconds.
pub const PIMAX_NATIVE_CONTROLLER_BATTERY_INTERVAL_NS: u64 = 1_000_000_000;

/// A controller that was started.
#[derive(Clone, Debug, PartialEq, Eq)]
pub struct PimaxNativeControllerHandle {
    pub hand: Hand,
    pub handle: i32,
    pub last_state: [u8; PIMAX_NATIVE_CONTROLLER_STATE_SIZE],
    /// What the last state held; nothing before the first.
    pub last_parsed: Option<PimaxNativeControllerParsed>,
    pub last_battery: u8,
    pub last_battery_poll_ns: u64,
}

/// Takes over a controller that the library was asked to start. A negative handle says that it
/// was not.
pub fn start_native_controller(
    store: &mut ControllerStore,
    hand: Hand,
    handle: i32,
    battery: Option<u8>,
    now_ns: u64,
) -> (controller: Option<PimaxNativeControllerHandle>)
    ensures
        controller is Some == (handle >= 0),
        controller matches Some(started) ==> {
            &&& started.hand == hand
            &&& started.handle == handle
            &&& started.last_state@ == Seq::new(
                PIMAX_NATIVE_CONTROLLER_STATE_SIZE as nat,
                |i: int| 0u8,
            )
            &&& started.last_parsed is None
            &&& started.last_battery == match battery {
                Some(percent) => percent,
                None => 100,
            }
            &&& started.last_battery_poll_ns == earlier(
                now_ns,
                PIMAX_NATIVE_CONTROLLER_BATTERY_INTERVAL_NS,
            )
        },
        *final(store) == *old(store),
{
    if handle < 0 {
        return None;
    }
    let last_battery: u8 = match battery {
        Some(percent) => percent,
        None => 100,
    };
    let last_state: [u8; PIMAX_NATIVE_CONTROLLER_STATE_SIZE] = [0;
        PIMAX_NATIVE_CONTROLLER_STATE_SIZE];
    assert(last_state@ =~= Seq::new(PIMAX_NATIVE_CONTROLLER_STATE_SIZE as nat, |i: int| 0u8));
    let ghost before = *store;
    update_controller_connection(store, hand, true);
    assert(store.snapshot.of(Hand::Left) == before.snapshot.of(Hand::Left));
    assert(store.snapshot.of(Hand::Right) == before.snapshot.of(Hand::Right));
    Some(
        PimaxNativeControllerHandle {
            hand,
            handle,
            last_state,
            last_parsed: None,
            last_battery,
            last_battery_poll_ns: time_before(now_ns, PIMAX_NATIVE_CONTROLLER_BATTERY_INTERVAL_NS),
        },
    )
}

/// The controllers that were started, and when they were polled.
#[derive(Clone, Debug, PartialEq, Eq)]
pub struct PimaxNativeControllerRuntime {
    pub controllers: Vec<PimaxNativeControllerHandle>,
    pub last_poll_ns: u64,
    pub last_change_log_ns: u64,
    pub poll_count: u64,
}

/// What the log is told of a state.
#[derive(Clone, Debug, PartialEq, Eq)]
pub enum NativeLog {
    Nothing,
    /// How the controller stands.
    Poll,
    /// How the controller stands, and what changed.
    Change(String),
}

/// The state that the server is told.
pub open spec fn native_state(
    controller: PimaxNativeControllerHandle,
    parsed: PimaxNativeControllerParsed,
    now_ns: u64,
) -> SingleControllerState {
    SingleControllerState {
        connected: true,
        handle: controller.handle,
        motion: Some(parsed.motion),
        buttons_pressed: native_pressed(parsed),
        buttons_touched: native_touched(parsed),
        trigger: parsed.trigger,
        grip: parsed.grip,
        thumbstick_x: parsed.thumbstick_x,
        thumbstick_y: parsed.thumbstick_y,
        battery_percent: controller.last_battery,
        last_updated_ns: now_ns,
    }
}

/// Hands a state to the store.
pub fn push_pimax_native_controller_state(
    store: &mut ControllerStore,
    controller: &PimaxNativeControllerHandle,
    parsed: &PimaxNativeControllerParsed,
    within_deadzone: bool,
    now_ns: u64,
)
    ensures
        final(store).snapshot.of(controller.hand) == Some(
            merged(
                old(store).snapshot.of(controller.hand),
                native_state(*controller, *parsed, now_ns),
                within_deadzone,
            ),
        ),
        final(store).updates(controller.hand) == old(store).updates(
            controller.hand,
        ).wrapping_add(1),
        forall|other: Hand|
            other != controller.hand ==> {
                &&& #[trigger] final(store).snapshot.of(other) == old(store).snapshot.of(other)
                &&& final(store).updates(other) == old(store).updates(other)
            },
{
    let (buttons_pressed, buttons_touched): (u32, u32) = map_pimax_native_buttons(parsed);
    update_controller_state(
        store,
        controller.hand,
        SingleControllerState {
            connected: true,
            handle: controller.handle,
            motion: Some(parsed.motion),
            buttons_pressed,
            buttons_touched,
            trigger: parsed.trigger,
            grip: parsed.grip,
            thumbstick_x: parsed.thumbstick_x,
            thumbstick_y: parsed.thumbstick_y,
            battery_percent: controller.last_battery,
            last_updated_ns: now_ns,
        },
        within_deadzone,
    );
}

impl PimaxNativeControllerHandle {
    /// Whether the battery is to be looked at.
    pub fn battery_due(&self, now_ns: u64) -> (due: bool)
        ensures
            due == (elapsed(now_ns, self.last_battery_poll_ns)
                >= PIMAX_NATIVE_CONTROLLER_BATTERY_INTERVAL_NS),
    {
        elapsed_ns(now_ns, self.last_battery_poll_ns) >= PIMAX_NATIVE_CONTROLLER_BATTERY_INTERVAL_NS
    }

    /// Takes over what the battery showed. One that could not be read stays as it was.
    pub fn take_battery(&mut self, battery: Option<u8>, now_ns: u64)
        ensures
            *final(self) == (PimaxNativeControllerHandle {
                last_battery: match battery {
                    Some(percent) => percent,
                    None => old(self).last_battery,
                },
                last_battery_poll_ns: now_ns,
                ..*old(self)
            }),
    {
        if let Some(percent) = battery {
            self.last_battery = percent;
        }
        self.last_battery_poll_ns = now_ns;
    }

    /// The buttons differ from those of the last state.
    pub open spec fn buttons_differ(&self, parsed: PimaxNativeControllerParsed) -> bool {
        match self.last_parsed {
            Some(last) => parsed.buttons != last.buttons || parsed.touches != last.touches,
            None => parsed.buttons != 0 || parsed.touches != 0,
        }
    }

    /// Takes over a state, hands it to the store, and says what the log is told of it.
    /// `axes_moved` says whether a stick or a trigger moved since the last state.
    pub fn take_state(
        &mut self,
        store: &mut ControllerStore,
        state: &[u8; PIMAX_NATIVE_CONTROLLER_STATE_SIZE],
        parsed: &PimaxNativeControllerParsed,
        axes_moved: bool,
        within_deadzone: bool,
        poll: &NativePoll,
        now_ns: u64,
    ) -> (log: NativeLog)
        ensures
            *final(self) == (PimaxNativeControllerHandle {
                last_state: *state,
                last_parsed: Some(*parsed),
                ..*old(self)
            }),
            final(store).snapshot.of(old(self).hand) == Some(
                merged(
                    old(store).snapshot.of(old(self).hand),
                    native_state(*old(self), *parsed, now_ns),
                    within_deadzone,
                ),
            ),
            final(store).updates(old(self).hand) == old(store).updates(old(self).hand).wrapping_add(1),
            forall|other: Hand|
                other != old(self).hand ==> {
                    &&& #[trigger] final(store).snapshot.of(other) == old(store).snapshot.of(other)
                    &&& final(store).updates(other) == old(store).updates(other)
                },
            ({
                let moved = axes_moved || old(self).buttons_differ(*parsed);
                let tells = (moved && (poll.can_log_change || poll.count <= 5)) || (
                old(self).last_state@ != state@ && poll.count <= 5);
                if tells {
                    log matches NativeLog::Change(text) && text@ == state_changes(
                        old(self).last_state@,
                        state@,
                    )
                } else if poll.count <= 5 || poll.count % 180 == 0 {
                    log == NativeLog::Poll
                } else {
                    log == NativeLog::Nothing
                }
            }),
    {
        let moved: bool = axes_moved || match self.last_parsed {
            Some(last) => parsed.buttons != last.buttons || parsed.touches != last.touches,
            None => parsed.buttons != 0 || parsed.touches != 0,
        };
        let state_changed: bool = !same_bytes(self.last_state.as_slice(), state.as_slice());
        let log = if (moved && (poll.can_log_change || poll.count <= 5)) || (state_changed
            && poll.count <= 5) {
            NativeLog::Change(format_pimax_native_state_changes(&self.last_state, state))
        } else if poll.count <= 5 || poll.count % 180 == 0 {
            NativeLog::Poll
        } else {
            NativeLog::Nothing
        };
        push_pimax_native_controller_state(store, self, parsed, within_deadzone, now_ns);
        self.last_state = *state;
        self.last_parsed = Some(*parsed);
        log
    }
}

/// A poll that is due.
#[derive(Clone, Copy, Debug, PartialEq, Eq, Structural)]
pub struct NativePoll {
    pub count: u64,
    /// Whether the log may be told of changes.
    pub can_log_change: bool,
}

impl PimaxNativeControllerRuntime {
    /// The controllers that were started; nothing where none was.
    pub fn new(controllers: Vec<PimaxNativeControllerHandle>, now_ns: u64) -> (runtime: Option<
        Self,
    >)
        ensures
            runtime is Some == (controllers@.len() > 0),
            runtime matches Some(started) ==> {
                &&& started.controllers == controllers
                &&& started.last_poll_ns == earlier(
                    now_ns,
                    PIMAX_NATIVE_CONTROLLER_POLL_INTERVAL_NS,
                )
                &&& started.last_change_log_ns == earlier(now_ns, CHANGE_LOG_INTERVAL_NS)
                &&& started.poll_count == 0
            },
    {
        if controllers.len() == 0 {
            return None;
        }
        Some(
            PimaxNativeControllerRuntime {
                controllers,
                last_poll_ns: time_before(now_ns, PIMAX_NATIVE_CONTROLLER_POLL_INTERVAL_NS),
                last_change_log_ns: time_before(now_ns, CHANGE_LOG_INTERVAL_NS),
                poll_count: 0,
            },
        )
    }

    /// Begins a poll, where one is due.
    pub fn begin_poll(&mut self, now_ns: u64) -> (poll: Option<NativePoll>)
        ensures
            ({
                let due = elapsed(now_ns, old(self).last_poll_ns)
                    >= PIMAX_NATIVE_CONTROLLER_POLL_INTERVAL_NS;
                let count = old(self).poll_count.wrapping_add(1);
                &&& poll == if due {
                    Some(
                        NativePoll {
                            count,
                            can_log_change: elapsed(now_ns, old(self).last_change_log_ns)
                                >= CHANGE_LOG_INTERVAL_NS,
                        },
                    )
                } else {
                    None
                }
                &&& *final(self) == if due {
                    PimaxNativeControllerRuntime {
                        last_poll_ns: now_ns,
                        poll_count: count,
                        ..*old(self)
                    }
                } else {
                    *old(self)
                }
            }),
    {
        if elapsed_ns(now_ns, self.last_poll_ns) < PIMAX_NATIVE_CONTROLLER_POLL_INTERVAL_NS {
            return None;
        }
        self.last_poll_ns = now_ns;
        self.poll_count = self.poll_count.wrapping_add(1);
        Some(
            NativePoll {
                count: self.poll_count,
                can_log_change: elapsed_ns(now_ns, self.last_change_log_ns)
                    >= CHANGE_LOG_INTERVAL_NS,
            },
        )
    }

    /// Ends a poll: where the log was told of a change, it is not told of another for a while.
    pub fn end_poll(&mut self, logged_change: bool, now_ns: u64)
        ensures
            *final(self) == (PimaxNativeControllerRuntime {
                last_change_log_ns: if logged_change {
                    now_ns
                } else {
                    old(self).last_change_log_ns
                },
                ..*old(self)
            }),
    {
        if logged_change {
            self.last_change_log_ns = now_ns;
        }
    }
}

// ---------------------------------------------------------------------------
// Laws
// ---------------------------------------------------------------------------

/// Every value of a state is read from its own place among the bytes: the orientation, the
/// position, both velocities, the time and the buttons at the start, the sticks and the triggers
/// behind them, and the touches last.
pub proof fn law_states_are_read_place_by_place(
    bytes: [u8; PIMAX_NATIVE_CONTROLLER_STATE_SIZE],
    reading: NativeReading,
)
    requires
        call_ensures(parse_pimax_native_controller_state, (&bytes,), reading),
    ensures
        ({
            let b = bytes@;
            let word = |at: int|
                b[at] + 256 * b[at + 1] + 65536 * b[at + 2] + 16777216 * b[at + 3];
            let vector = |read: [u32; 3], at: int|
                {
                    let finite = is_finite_float(word(at) as u32) && is_finite_float(
                        word(at + 4) as u32,
                    ) && is_finite_float(word(at + 8) as u32);
                    &&& finite ==> read@[0] == word(at) && read@[1] == word(at + 4) && read@[2]
                        == word(at + 8)
                    &&& !finite ==> read@[0] == 0 && read@[1] == 0 && read@[2] == 0
                };
            &&& vector(reading.position, 16)
            &&& vector(reading.angular_velocity, 28)
            &&& vector(reading.linear_velocity, 40)
            &&& reading.timestamp_ns == word(56) + 4294967296 * word(60)
            &&& reading.buttons == word(64)
            &&& reading.thumbstick_x == axis_reading(word(68) as u32)
            &&& reading.thumbstick_y == axis_reading(word(72) as u32)
            &&& reading.trigger == trigger_reading(word(100) as u32)
            &&& reading.grip == trigger_reading(word(108) as u32)
            &&& reading.touches == word(132)
            &&& reading.orientation matches Some(orientation) ==> {
                &&& orientation@[0] == word(0) && orientation@[1] == word(4)
                &&& orientation@[2] == word(8) && orientation@[3] == word(12)
            }
            &&& reading.orientation is None <==> !(is_finite_float(word(0) as u32)
                && is_finite_float(word(4) as u32) && is_finite_float(word(8) as u32)
                && is_finite_float(word(12) as u32))
        }),
{
    let b = bytes@;
    assert(b.len() == 208);
    let q = quaternion_at(b);
    assert(q[0] == u32_at(b, 0) && q[1] == u32_at(b, 4) && q[2] == u32_at(b, 8) && q[3] == u32_at(
        b,
        12,
    ));
}

/// A stick between minus one and one is taken as it is. A little beyond it is brought back to the
/// end; beyond two, in either direction, it is on another scale. What is not finite is the middle.
pub proof fn law_sticks_stay_in_range(bits: u32)
    ensures
        bits <= 0x3f80_0000 || 0x8000_0000 < bits <= 0xbf80_0000 ==> axis_reading(bits)
            == AxisReading::Fraction(bits),
        0x3f80_0000 < bits <= 0x4000_0000 ==> axis_reading(bits) == AxisReading::Fraction(
            0x3f80_0000,
        ),
        0xbf80_0000 < bits <= 0xc000_0000 ==> axis_reading(bits) == AxisReading::Fraction(
            0xbf80_0000,
        ),
        0x4000_0000 < bits < 0x7f80_0000 || 0xc000_0000 < bits < 0xff80_0000 ==> axis_reading(bits)
            == AxisReading::Byte(bits),
        0x7f80_0000 <= bits < 0x8000_0000 || 0xff80_0000 <= bits ==> axis_reading(bits)
            == AxisReading::Fraction(0),
{
}

/// A trigger between zero and one is taken as it is. Below zero it is released, a little above
/// one it is pulled fully, and above one and a half it is on another scale.
pub proof fn law_triggers_stay_in_range(bits: u32)
    ensures
        bits <= 0x3f80_0000 ==> trigger_reading(bits) == AxisReading::Fraction(bits),
        0x3f80_0000 < bits <= 0x3fc0_0000 ==> trigger_reading(bits) == AxisReading::Fraction(
            0x3f80_0000,
        ),
        0x3fc0_0000 < bits < 0x7f80_0000 ==> trigger_reading(bits) == AxisReading::Byte(bits),
        0x8000_0000 < bits < 0xff80_0000 ==> trigger_reading(bits) == AxisReading::Fraction(0),
        0x7f80_0000 <= bits < 0x8000_0000 || 0xff80_0000 <= bits ==> trigger_reading(bits)
            == AxisReading::Fraction(0),
{
}

/// A button counts as pressed by the bit of either hand. The trigger and the grip count as pressed
/// too once they are pulled by more than a fifth.
pub proof fn law_pulled_triggers_are_pressed(parsed: PimaxNativeControllerParsed)
    ensures
        ({
            let mask = native_pressed(parsed);
            let b = parsed.buttons;
            &&& bit_set(mask, 0) == (b & 0x2000 != 0 || b & 0x20_0000 != 0 || float_greater(
                parsed.trigger,
                0x3e4c_cccd,
            ))
            &&& bit_set(mask, 1) == (b & 0x8000 != 0 || b & 0x80_0000 != 0)
            &&& bit_set(mask, 2) == (b & 0x200 != 0 || b & 0x100 != 0)
            &&& bit_set(mask, 3) == (b & 0x4000 != 0 || b & 0x40_0000 != 0 || float_greater(
                parsed.grip,
                0x3e4c_cccd,
            ))
            &&& bit_set(mask, 4) == (b & 1 != 0 || b & 4 != 0)
            &&& bit_set(mask, 5) == (b & 2 != 0 || b & 8 != 0)
            &&& mask < 64
        }),
{
    let b = parsed.buttons;
    law_masks_keep_every_button(
        b & 0x2000 != 0 || b & 0x20_0000 != 0 || float_greater(parsed.trigger, 0x3e4c_cccd),
        b & 0x8000 != 0 || b & 0x80_0000 != 0,
        b & 0x200 != 0 || b & 0x100 != 0,
        b & 0x4000 != 0 || b & 0x40_0000 != 0 || float_greater(parsed.grip, 0x3e4c_cccd),
        b & 1 != 0 || b & 4 != 0,
        b & 2 != 0 || b & 8 != 0,
    );
}

/// A button counts as touched by the bit of either hand. The trigger and the grip count as touched
/// too once they are pulled by more than a hundredth, so that what is pressed by pulling is also
/// touched. The menu button never counts as touched.
pub proof fn law_pulled_triggers_are_touched(parsed: PimaxNativeControllerParsed)
    ensures
        ({
            let mask = native_touched(parsed);
            let t = parsed.touches;
            &&& bit_set(mask, 0) == (t & 0x2000 != 0 || float_greater(parsed.trigger, 0x3c23_d70a))
            &&& bit_set(mask, 1) == (t & 16 != 0 || t & 32 != 0)
            &&& !bit_set(mask, 2)
            &&& bit_set(mask, 3) == (t & 0x4000 != 0 || float_greater(parsed.grip, 0x3c23_d70a))
            &&& bit_set(mask, 4) == (t & 1 != 0 || t & 4 != 0)
            &&& bit_set(mask, 5) == (t & 2 != 0 || t & 8 != 0)
            &&& mask < 64
        }),
        float_greater(parsed.trigger, 0x3e4c_cccd) ==> bit_set(native_touched(parsed), 0),
        float_greater(parsed.grip, 0x3e4c_cccd) ==> bit_set(native_touched(parsed), 3),
{
    let t = parsed.touches;
    law_masks_keep_every_button(
        t & 0x2000 != 0 || float_greater(parsed.trigger, 0x3c23_d70a),
        t & 16 != 0 || t & 32 != 0,
        false,
        t & 0x4000 != 0 || float_greater(parsed.grip, 0x3c23_d70a),
        t & 1 != 0 || t & 4 != 0,
        t & 2 != 0 || t & 8 != 0,
    );
}

/// The server is told what the state holds, value by value, of a controller that is connected now.
pub proof fn law_server_is_told_the_state(
    controller: PimaxNativeControllerHandle,
    parsed: PimaxNativeControllerParsed,
    now_ns: u64,
)
    ensures
        ({
            let state = native_state(controller, parsed, now_ns);
            &&& state.connected
            &&& state.handle == controller.handle
            &&& state.motion == Some(parsed.motion)
            &&& state.trigger == parsed.trigger
            &&& state.grip == parsed.grip
            &&& state.thumbstick_x == parsed.thumbstick_x
            &&& state.thumbstick_y == parsed.thumbstick_y
            &&& state.battery_percent == controller.last_battery
            &&& state.last_updated_ns == now_ns
            &&& state.buttons_pressed == native_pressed(parsed)
            &&& state.buttons_touched == native_touched(parsed)
        }),
{
}

/// A number that was written is read back, with its sign.
pub proof fn law_numbers_are_read_back(n: i32)
    ensures
        integer_of(signed_decimal(n as int)) == Some(n),
        n >= 0 ==> integer_of(seq!['+'] + signed_decimal(n as int)) == Some(n),
{
    let magnitude: nat = if n < 0 {
        (-n) as nat
    } else {
        n as nat
    };
    let digits = decimal(magnitude);
    law_digits_are_read_back(magnitude, 10);
    lemma_number_is_value(digits);
    assert(all_digits(digits)) by {
        assert forall|i: int| 0 <= i < digits.len() implies is_digit(#[trigger] digits[i]) by {
            assert(digit_value_below_ten(digits[i]));
        }
    }
    assert(is_digit(digits[0]));
    if n < 0 {
        assert(signed_decimal(n as int).skip(1) =~= digits);
    } else {
        assert((seq!['+'] + signed_decimal(n as int)).skip(1) =~= digits);
    }
}

spec fn digit_value_below_ten(c: char) -> bool {
    crate::text::digit_value(c) < 10
}

proof fn lemma_number_is_value(digits: Seq<char>)
    requires
        forall|i: int|
            0 <= i < digits.len() ==> {
                let c = #[trigger] digits[i];
                ('0' <= c <= '9' || 'a' <= c <= 'f') && crate::text::digit_value(c) < 10
            },
    ensures
        number_of(digits) == value_in(digits, 10),
    decreases digits.len(),
{
    if digits.len() > 0 {
        assert(digits.drop_last() == digits.take(digits.len() - 1));
        lemma_number_is_value(digits.drop_last());
        assert(digits.last() == digits[digits.len() - 1]);
    }
}

/// Text that holds anything but digits and one sign before them is no number, nor is an empty
/// text or a sign alone.
pub proof fn law_only_digits_make_a_number(text: Seq<char>, index: int)
    requires
        0 <= index < text.len(),
        !('0' <= text[index] <= '9'),
        index > 0 || (text[0] != '-' && text[0] != '+') || text.len() == 1,
    ensures
        integer_of(text) is None,
        integer_of(Seq::empty()) is None,
{
    let signed = text[0] == '-' || text[0] == '+';
    if signed {
        if text.len() > 1 {
            assert(text.skip(1)[index - 1] == text[index]);
        }
    } else {
        assert(!is_digit(text[index]));
    }
}

/// The charge of a controller is read from the place of its hand.
pub proof fn law_each_hand_has_its_own_battery(hand: Hand, path: &'static str)
    requires
        call_ensures(battery_path, (hand,), path),
    ensures
        hand == Hand::Left ==> path@ == "/sys/class/pimax_controller/controller_left/battery"@,
        hand == Hand::Right ==> path@ == "/sys/class/pimax_controller/controller_right/battery"@,
{
}

/// A charge that was written as a number is read as a percentage, whatever white space is around
/// it.
pub proof fn law_charge_is_read_as_a_percentage(text: &str, charge: i32, battery: Option<u8>)
    requires
        call_ensures(parse_battery, (text,), battery),
        trimmed(text@) == signed_decimal(charge as int),
    ensures
        0 <= charge <= 100 ==> battery == Some(charge as u8),
        charge < 0 ==> battery == Some(0u8),
        charge > 100 ==> battery == Some(100u8),
{
    law_numbers_are_read_back(charge);
}

/// A controller whose buttons and touches are the same did not change, and one where either
/// differs did. Before the first state, anything that is pressed or touched is a change.
pub proof fn law_pressing_is_a_change(
    controller: PimaxNativeControllerHandle,
    parsed: PimaxNativeControllerParsed,
)
    ensures
        controller.last_parsed matches Some(last) ==> (controller.buttons_differ(parsed) <==> (
            parsed.buttons,
            parsed.touches,
        ) != (last.buttons, last.touches)),
        controller.last_parsed is None ==> (controller.buttons_differ(parsed) <==> (
            parsed.buttons,
            parsed.touches,
        ) != (0u32, 0u32)),
{
}

/// Two states that are the same are written as no change.
pub proof fn law_same_states_show_no_change(state: Seq<u8>)
    ensures
        state_changes(state, state) == Seq::<char>::empty(),
{
    if word_count(state.len()) > 0 {
        law_changes_are_the_words_that_differ(state, state, word_count(state.len()), 0);
    }
    let none = first_of(
        changed_words(state, state, word_count(state.len())),
        PIMAX_NATIVE_CONTROLLER_MAX_CHANGE_LOG_WORDS as int,
    );
    assert(none.map_values(
        |change: (int, u32, u32)| crate::service::change_text(change, 2),
    ).len() == 0);
}

/// A charge that could be read replaces the last one, and one that could not leaves it. Either way
/// it is not read again before a second has passed.
pub proof fn law_last_charge_is_kept(battery: Option<u8>, now_ns: u64)
    ensures
        forall|controller: &mut PimaxNativeControllerHandle| #[trigger]
            call_ensures(
                PimaxNativeControllerHandle::take_battery,
                (controller, battery, now_ns),
                (),
            ) ==> {
                &&& battery is Some ==> final(controller).last_battery == battery->0
                &&& battery is None ==> final(controller).last_battery == (*controller).last_battery
                &&& final(controller).last_battery_poll_ns == now_ns
                &&& final(controller).hand == (*controller).hand
                &&& final(controller).handle == (*controller).handle
                &&& final(controller).last_parsed == (*controller).last_parsed
            },
{
}

/// A controller that was started belongs to the hand it was started for. Its charge is full until
/// one was read, and is due to be read.
pub proof fn law_started_controllers_know_their_hand(
    hand: Hand,
    handle: i32,
    battery: Option<u8>,
    now_ns: u64,
    started: Option<PimaxNativeControllerHandle>,
)
    requires
        now_ns >= 1_000_000_000,
    ensures
        forall|store: &mut ControllerStore| #[trigger]
            call_ensures(start_native_controller, (store, hand, handle, battery, now_ns), started)
                ==> {
                &&& started is Some <==> handle >= 0
                &&& started is Some ==> {
                    &&& started->0.hand == hand && started->0.handle == handle
                    &&& started->0.last_parsed is None
                    &&& battery is None ==> started->0.last_battery == 100
                    &&& battery is Some ==> started->0.last_battery == battery->0
                    &&& now_ns - started->0.last_battery_poll_ns == 1_000_000_000
                }
                &&& *final(store) == *store
            },
{
}

/// The controllers are read fifty times a second, and the log is told of changes at most four
/// times a second.
pub proof fn law_controllers_are_read_fifty_times_a_second(
    now_ns: u64,
    poll: Option<NativePoll>,
    logged: bool,
)
    ensures
        forall|runtime: &mut PimaxNativeControllerRuntime| #[trigger]
            call_ensures(PimaxNativeControllerRuntime::begin_poll, (runtime, now_ns), poll)
                && now_ns >= (*runtime).last_poll_ns && now_ns >= (*runtime).last_change_log_ns
                ==> {
                &&& poll is Some <==> now_ns - (*runtime).last_poll_ns >= 20_000_000
                &&& poll is None ==> *final(runtime) == *runtime
                &&& poll is Some ==> {
                    &&& final(runtime).last_poll_ns == now_ns
                    &&& poll->0.count == final(runtime).poll_count
                    &&& (*runtime).poll_count < u64::MAX ==> poll->0.count
                        == (*runtime).poll_count + 1
                    &&& poll->0.can_log_change <==> now_ns - (*runtime).last_change_log_ns
                        >= 250_000_000
                    &&& final(runtime).controllers == (*runtime).controllers
                }
            },
        forall|runtime: &mut PimaxNativeControllerRuntime| #[trigger]
            call_ensures(PimaxNativeControllerRuntime::end_poll, (runtime, logged, now_ns), ())
                ==> {
                &&& logged ==> final(runtime).last_change_log_ns == now_ns
                &&& !logged ==> *final(runtime) == *runtime
                &&& final(runtime).last_poll_ns == (*runtime).last_poll_ns
            },
{
}

/// Controllers that were started are read at once.
pub proof fn law_started_controllers_are_read_at_once(
    controllers: Vec<PimaxNativeControllerHandle>,
    now_ns: u64,
    started: Option<PimaxNativeControllerRuntime>,
)
    requires
        call_ensures(PimaxNativeControllerRuntime::new, (controllers, now_ns), started),
        now_ns >= 1_000_000_000,
    ensures
        started is Some <==> controllers@.len() > 0,
        started is Some ==> started->0.controllers == controllers && started->0.poll_count == 0,
        started is Some ==> now_ns - started->0.last_poll_ns >= 20_000_000,
        started is Some ==> now_ns - started->0.last_change_log_ns >= 250_000_000,
{
}

/// A state that was read is told to the server for its own hand, and the other hand is left as it
/// is.
pub proof fn law_states_are_told_for_their_hand(
    controller: PimaxNativeControllerHandle,
    parsed: PimaxNativeControllerParsed,
    within_deadzone: bool,
    now_ns: u64,
)
    ensures
        forall|store: &mut ControllerStore| #[trigger]
            call_ensures(
                push_pimax_native_controller_state,
                (store, &controller, &parsed, within_deadzone, now_ns),
                (),
            ) ==> {
                &&& controller.hand == Hand::Left ==> final(store).snapshot.left is Some && final(
                    store).snapshot.right == (*store).snapshot.right
                &&& controller.hand == Hand::Right ==> final(store).snapshot.right is Some && final(
                    store).snapshot.left == (*store).snapshot.left
            },
{
    assert forall|store: &mut ControllerStore| #[trigger]
        call_ensures(
            push_pimax_native_controller_state,
            (store, &controller, &parsed, within_deadzone, now_ns),
            (),
        ) implies {
        &&& controller.hand == Hand::Left ==> final(store).snapshot.right
            == (*store).snapshot.right
        &&& controller.hand == Hand::Right ==> final(store).snapshot.left == (*store).snapshot.left
    } by {
        assert(final(store).snapshot.of(Hand::Left) == final(store).snapshot.left);
        assert(final(store).snapshot.of(Hand::Right) == final(store).snapshot.right);
    }
}

/// A state that was taken over is the last one from then on. The log is told of a change where
/// something moved or was pressed and the log may be told, and of how the controller stands in
/// each of the first five rounds and in one of 180.
pub proof fn law_changes_are_told_to_the_log(
    state: [u8; PIMAX_NATIVE_CONTROLLER_STATE_SIZE],
    parsed: PimaxNativeControllerParsed,
    axes_moved: bool,
    within_deadzone: bool,
    poll: NativePoll,
    now_ns: u64,
    log: NativeLog,
)
    ensures
        forall|controller: &mut PimaxNativeControllerHandle, store: &mut ControllerStore| #[trigger]
            call_ensures(
                PimaxNativeControllerHandle::take_state,
                (
                    controller,
                    store,
                    &state,
                    &parsed,
                    axes_moved,
                    within_deadzone,
                    &poll,
                    now_ns,
                ),
                log,
            ) ==> {
                &&& final(controller).last_state == state
                &&& final(controller).last_parsed == Some(parsed)
                &&& final(controller).hand == (*controller).hand
                &&& axes_moved && poll.can_log_change ==> log is Change
                &&& !axes_moved && (*controller).last_parsed == Some(parsed) && poll.count > 5
                    ==> !(log is Change)
                &&& !poll.can_log_change && poll.count > 5 ==> !(log is Change)
                &&& log is Nothing ==> poll.count > 5 && poll.count % 180 != 0
                &&& log is Poll ==> poll.count <= 5 || poll.count % 180 == 0
            },
{
}

/// Numbers are read wherever all their bytes are there, up to the last byte, and are zero
/// elsewhere. Vectors are read only where they are finite throughout.
pub proof fn law_numbers_are_read_up_to_the_end(bytes: Seq<u8>, offset: int)
    requires
        0 <= offset,
    ensures
        offset + 4 <= bytes.len() ==> u32_at(bytes, offset) == bytes[offset] + 256 * bytes[offset
            + 1] + 65536 * bytes[offset + 2] + 16777216 * bytes[offset + 3],
        offset + 4 > bytes.len() ==> u32_at(bytes, offset) == 0,
        offset + 8 <= bytes.len() ==> u64_at(bytes, offset) == u32_at(bytes, offset)
            + 0x1_0000_0000 * u32_at(bytes, offset + 4),
        offset + 8 > bytes.len() ==> u64_at(bytes, offset) == 0,
        vector_at(bytes, offset) == seq![0u32, 0, 0] || vector_at(bytes, offset) == seq![
            u32_at(bytes, offset),
            u32_at(bytes, offset + 4),
            u32_at(bytes, offset + 8),
        ],
        0x7f80_0000 <= u32_at(bytes, offset) < 0x8000_0000 ==> vector_at(bytes, offset) == seq![
            0u32,
            0,
            0,
        ],
{
}

/// Sticks, triggers and buttons are read from what the library gives: positions in range are kept,
/// those on the scale of a byte are still to be converted, and a trigger that is pulled far enough
/// counts as pressed.
pub proof fn law_inputs_are_read_as_given(
    bits: u32,
    stick: AxisReading,
    trigger: AxisReading,
    parsed: PimaxNativeControllerParsed,
    masks: (u32, u32),
)
    requires
        call_ensures(normalize_pimax_native_axis, (bits,), stick),
        call_ensures(normalize_pimax_native_trigger, (bits,), trigger),
        call_ensures(map_pimax_native_buttons, (&parsed,), masks),
    ensures
        bits <= 0x3f80_0000 ==> stick == AxisReading::Fraction(bits) && trigger
            == AxisReading::Fraction(bits),
        0x4000_0000 < bits < 0x7f80_0000 ==> stick == AxisReading::Byte(bits) && trigger
            == AxisReading::Byte(bits),
        0x8000_0000 < bits <= 0xbf80_0000 ==> stick == AxisReading::Fraction(bits) && trigger
            == AxisReading::Fraction(0),
        float_greater(parsed.trigger, 0x3e4c_cccd) ==> bit_set(masks.0, 0) && bit_set(masks.1, 0),
        float_greater(parsed.grip, 0x3e4c_cccd) ==> bit_set(masks.0, 3) && bit_set(masks.1, 3),
        bit_set(masks.0, 1) == (parsed.buttons & 0x8000 != 0 || parsed.buttons & 0x80_0000 != 0),
        bit_set(masks.1, 1) == (parsed.touches & 16 != 0 || parsed.touches & 32 != 0),
        !bit_set(masks.1, 2),
{
    law_sticks_stay_in_range(bits);
    law_triggers_stay_in_range(bits);
    law_pulled_triggers_are_pressed(parsed);
    law_pulled_triggers_are_touched(parsed);
}

/// The charge is read once a second.
pub proof fn law_charge_is_read_once_a_second(
    controller: PimaxNativeControllerHandle,
    now_ns: u64,
    due: bool,
)
    requires
        call_ensures(PimaxNativeControllerHandle::battery_due, (&controller, now_ns), due),
        now_ns >= controller.last_battery_poll_ns,
    ensures
        due <==> now_ns - controller.last_battery_poll_ns >= 1_000_000_000,
{
}

} // verus!
