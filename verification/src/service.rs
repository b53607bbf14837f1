//! The controllers as the headset's runtime reports them.

use vstd::prelude::*;

use crate::controller::{
    bit_set, merged, update_controller_connection, update_controller_state, ControllerSnapshot,
    ControllerStore, Hand, SingleControllerState, ONE_BITS,
};
use crate::headset::{clamp_battery_percent, percent};
use crate::recovery::{elapsed, elapsed_ns};
use crate::text::{format_hex_padded, hex_padded, join_text, joined, views};
use crate::views::MINUS_ONE_BITS;

verus! {

// ---------------------------------------------------------------------------
// Masks
// ---------------------------------------------------------------------------

/// Whether a mask has a flag.
pub fn has_flag(value: u32, flag: u32) -> (has: bool)
    ensures
        has == (value & flag != 0),
{
    value & flag != 0
}

/// A bit of a mask, where it is set.
pub open spec fn bit_if(set: bool, bit: u32) -> int {
    if set {
        bit as int
    } else {
        0
    }
}

/// The mask of buttons that the server is told: trigger, thumbstick, menu and grip, then the two
/// buttons under the thumb.
pub open spec fn mask_of_buttons(
    trigger: bool,
    thumbstick: bool,
    menu: bool,
    grip: bool,
    lower: bool,
    upper: bool,
) -> u32 {
    (bit_if(trigger, 1) + bit_if(thumbstick, 2) + bit_if(menu, 4) + bit_if(grip, 8) + bit_if(
        lower,
        16,
    ) + bit_if(upper, 32)) as u32
}

pub fn button_mask(
    trigger: bool,
    thumbstick: bool,
    menu: bool,
    grip: bool,
    lower: bool,
    upper: bool,
) -> (mask: u32)
    ensures
        mask == mask_of_buttons(trigger, thumbstick, menu, grip, lower, upper),
{
    let mut mask: u32 = 0;
    if trigger {
        mask = mask + 1;
    }
    if thumbstick {
        mask = mask + 2;
    }
    if menu {
        mask = mask + 4;
    }
    if grip {
        mask = mask + 8;
    }
    if lower {
        mask = mask + 16;
    }
    if upper {
        mask = mask + 32;
    }
    mask
}

/// A mask tells of each button whether it is pressed, and of nothing else.
pub proof fn law_masks_keep_every_button(
    trigger: bool,
    thumbstick: bool,
    menu: bool,
    grip: bool,
    lower: bool,
    upper: bool,
)
    ensures
        ({
            let mask = mask_of_buttons(trigger, thumbstick, menu, grip, lower, upper);
            &&& bit_set(mask, 0) == trigger
            &&& bit_set(mask, 1) == thumbstick
            &&& bit_set(mask, 2) == menu
            &&& bit_set(mask, 3) == grip
            &&& bit_set(mask, 4) == lower
            &&& bit_set(mask, 5) == upper
            &&& mask < 64
        }),
{
    let mask = mask_of_buttons(trigger, thumbstick, menu, grip, lower, upper);
    let a: u32 = bit_if(trigger, 1) as u32;
    let b: u32 = bit_if(thumbstick, 2) as u32;
    let c: u32 = bit_if(menu, 4) as u32;
    let d: u32 = bit_if(grip, 8) as u32;
    let e: u32 = bit_if(lower, 16) as u32;
    let f: u32 = bit_if(upper, 32) as u32;
    assert(((mask >> 0) & 1 != 0) == (a == 1) && ((mask >> 1) & 1 != 0) == (b == 2) && ((mask >> 2)
        & 1 != 0) == (c == 4) && ((mask >> 3) & 1 != 0) == (d == 8) && ((mask >> 4) & 1 != 0) == (e
        == 16) && ((mask >> 5) & 1 != 0) == (f == 32)) by (bit_vector)
        requires
            a == 0 || a == 1,
            b == 0 || b == 2,
            c == 0 || c == 4,
            d == 0 || d == 8,
            e == 0 || e == 16,
            f == 0 || f == 32,
            mask == a + b + c + d + e + f,
    ;
}

pub const PIMAX_BUTTON_ONE: u32 = 1;

pub const PIMAX_BUTTON_TWO: u32 = 2;

pub const PIMAX_BUTTON_THREE: u32 = 4;

pub const PIMAX_BUTTON_FOUR: u32 = 8;

pub const PIMAX_BUTTON_START: u32 = 256;

pub const PIMAX_BUTTON_BACK: u32 = 512;

pub const PIMAX_BUTTON_PRIMARY_INDEX_TRIGGER: u32 = 8192;

pub const PIMAX_BUTTON_PRIMARY_HAND_TRIGGER: u32 = 16384;

pub const PIMAX_BUTTON_PRIMARY_THUMBSTICK: u32 = 32768;

pub const PIMAX_BUTTON_PRIMARY_THUMBSTICK_UP: u32 = 65536;

pub const PIMAX_BUTTON_PRIMARY_THUMBSTICK_DOWN: u32 = 131072;

pub const PIMAX_BUTTON_PRIMARY_THUMBSTICK_LEFT: u32 = 262144;

pub const PIMAX_BUTTON_PRIMARY_THUMBSTICK_RIGHT: u32 = 524288;

pub const PIMAX_BUTTON_SECONDARY_INDEX_TRIGGER: u32 = 2097152;

pub const PIMAX_BUTTON_SECONDARY_HAND_TRIGGER: u32 = 4194304;

pub const PIMAX_BUTTON_SECONDARY_THUMBSTICK: u32 = 8388608;

pub const PIMAX_BUTTON_SECONDARY_THUMBSTICK_UP: u32 = 16777216;

pub const PIMAX_BUTTON_SECONDARY_THUMBSTICK_DOWN: u32 = 33554432;

pub const PIMAX_BUTTON_SECONDARY_THUMBSTICK_LEFT: u32 = 67108864;

pub const PIMAX_BUTTON_SECONDARY_THUMBSTICK_RIGHT: u32 = 134217728;

pub const PIMAX_TOUCH_ONE: u32 = 1;

pub const PIMAX_TOUCH_TWO: u32 = 2;

pub const PIMAX_TOUCH_THREE: u32 = 4;

pub const PIMAX_TOUCH_FOUR: u32 = 8;

pub const PIMAX_TOUCH_PRIMARY_THUMBSTICK: u32 = 16;

pub const PIMAX_TOUCH_SECONDARY_THUMBSTICK: u32 = 32;

pub const PIMAX_NATIVE_TOUCH_TRIGGER: u32 = 0x2000;

pub const PIMAX_NATIVE_TOUCH_GRIP: u32 = 0x4000;

pub const PIMAX_AXIS_1D_PRIMARY_INDEX_TRIGGER: u32 = 1;

pub const PIMAX_AXIS_1D_SECONDARY_INDEX_TRIGGER: u32 = 2;

pub const PIMAX_AXIS_1D_PRIMARY_HAND_TRIGGER: u32 = 4;

pub const PIMAX_AXIS_1D_SECONDARY_HAND_TRIGGER: u32 = 8;

pub const PIMAX_AXIS_2D_PRIMARY_THUMBSTICK: u32 = 1;

pub const PIMAX_AXIS_2D_SECONDARY_THUMBSTICK: u32 = 2;

/// The bits by which the service names the inputs of one hand.
#[derive(Clone, Copy, Debug, PartialEq, Eq, Structural)]
pub struct HandBits {
    pub index_trigger: u32,
    pub hand_trigger: u32,
    pub thumbstick: u32,
    pub up: u32,
    pub down: u32,
    pub left: u32,
    pub right: u32,
    pub menu: u32,
    pub lower: u32,
    pub upper: u32,
    pub thumbstick_touch: u32,
    pub lower_touch: u32,
    pub upper_touch: u32,
    pub index_axis: u32,
    pub hand_axis: u32,
    pub stick_axis: u32,
}

/// The bits of a hand: the left hand is the primary one.
pub open spec fn bits_of(hand: Hand) -> HandBits {
    match hand {
        Hand::Left => HandBits {
            index_trigger: PIMAX_BUTTON_PRIMARY_INDEX_TRIGGER,
            hand_trigger: PIMAX_BUTTON_PRIMARY_HAND_TRIGGER,
            thumbstick: PIMAX_BUTTON_PRIMARY_THUMBSTICK,
            up: PIMAX_BUTTON_PRIMARY_THUMBSTICK_UP,
            down: PIMAX_BUTTON_PRIMARY_THUMBSTICK_DOWN,
            left: PIMAX_BUTTON_PRIMARY_THUMBSTICK_LEFT,
            right: PIMAX_BUTTON_PRIMARY_THUMBSTICK_RIGHT,
            menu: PIMAX_BUTTON_BACK,
            lower: PIMAX_BUTTON_THREE,
            upper: PIMAX_BUTTON_FOUR,
            thumbstick_touch: PIMAX_TOUCH_PRIMARY_THUMBSTICK,
            lower_touch: PIMAX_TOUCH_THREE,
            upper_touch: PIMAX_TOUCH_FOUR,
            index_axis: PIMAX_AXIS_1D_PRIMARY_INDEX_TRIGGER,
            hand_axis: PIMAX_AXIS_1D_PRIMARY_HAND_TRIGGER,
            stick_axis: PIMAX_AXIS_2D_PRIMARY_THUMBSTICK,
        },
        Hand::Right => HandBits {
            index_trigger: PIMAX_BUTTON_SECONDARY_INDEX_TRIGGER,
            hand_trigger: PIMAX_BUTTON_SECONDARY_HAND_TRIGGER,
            thumbstick: PIMAX_BUTTON_SECONDARY_THUMBSTICK,
            up: PIMAX_BUTTON_SECONDARY_THUMBSTICK_UP,
            down: PIMAX_BUTTON_SECONDARY_THUMBSTICK_DOWN,
            left: PIMAX_BUTTON_SECONDARY_THUMBSTICK_LEFT,
            right: PIMAX_BUTTON_SECONDARY_THUMBSTICK_RIGHT,
            menu: PIMAX_BUTTON_START,
            lower: PIMAX_BUTTON_ONE,
            upper: PIMAX_BUTTON_TWO,
            thumbstick_touch: PIMAX_TOUCH_SECONDARY_THUMBSTICK,
            lower_touch: PIMAX_TOUCH_ONE,
            upper_touch: PIMAX_TOUCH_TWO,
            index_axis: PIMAX_AXIS_1D_SECONDARY_INDEX_TRIGGER,
            hand_axis: PIMAX_AXIS_1D_SECONDARY_HAND_TRIGGER,
            stick_axis: PIMAX_AXIS_2D_SECONDARY_THUMBSTICK,
        },
    }
}

fn hand_bits(hand: Hand) -> (bits: HandBits)
    ensures
        bits == bits_of(hand),
{
    match hand {
        Hand::Left => HandBits {
            index_trigger: PIMAX_BUTTON_PRIMARY_INDEX_TRIGGER,
            hand_trigger: PIMAX_BUTTON_PRIMARY_HAND_TRIGGER,
            thumbstick: PIMAX_BUTTON_PRIMARY_THUMBSTICK,
            up: PIMAX_BUTTON_PRIMARY_THUMBSTICK_UP,
            down: PIMAX_BUTTON_PRIMARY_THUMBSTICK_DOWN,
            left: PIMAX_BUTTON_PRIMARY_THUMBSTICK_LEFT,
            right: PIMAX_BUTTON_PRIMARY_THUMBSTICK_RIGHT,
            menu: PIMAX_BUTTON_BACK,
            lower: PIMAX_BUTTON_THREE,
            upper: PIMAX_BUTTON_FOUR,
            thumbstick_touch: PIMAX_TOUCH_PRIMARY_THUMBSTICK,
            lower_touch: PIMAX_TOUCH_THREE,
            upper_touch: PIMAX_TOUCH_FOUR,
            index_axis: PIMAX_AXIS_1D_PRIMARY_INDEX_TRIGGER,
            hand_axis: PIMAX_AXIS_1D_PRIMARY_HAND_TRIGGER,
            stick_axis: PIMAX_AXIS_2D_PRIMARY_THUMBSTICK,
        },
        Hand::Right => HandBits {
            index_trigger: PIMAX_BUTTON_SECONDARY_INDEX_TRIGGER,
            hand_trigger: PIMAX_BUTTON_SECONDARY_HAND_TRIGGER,
            thumbstick: PIMAX_BUTTON_SECONDARY_THUMBSTICK,
            up: PIMAX_BUTTON_SECONDARY_THUMBSTICK_UP,
            down: PIMAX_BUTTON_SECONDARY_THUMBSTICK_DOWN,
            left: PIMAX_BUTTON_SECONDARY_THUMBSTICK_LEFT,
            right: PIMAX_BUTTON_SECONDARY_THUMBSTICK_RIGHT,
            menu: PIMAX_BUTTON_START,
            lower: PIMAX_BUTTON_ONE,
            upper: PIMAX_BUTTON_TWO,
            thumbstick_touch: PIMAX_TOUCH_SECONDARY_THUMBSTICK,
            lower_touch: PIMAX_TOUCH_ONE,
            upper_touch: PIMAX_TOUCH_TWO,
            index_axis: PIMAX_AXIS_1D_SECONDARY_INDEX_TRIGGER,
            hand_axis: PIMAX_AXIS_1D_SECONDARY_HAND_TRIGGER,
            stick_axis: PIMAX_AXIS_2D_SECONDARY_THUMBSTICK,
        },
    }
}

// ---------------------------------------------------------------------------
// Controllers of the service
// ---------------------------------------------------------------------------

/// An axis that is only known by its ends, as the bits of a float: one or minus one towards the
/// end that is pressed, else zero.
pub open spec fn axis_of(negative: bool, positive: bool) -> u32 {
    if negative && !positive {
        MINUS_ONE_BITS
    } else if positive && !negative {
        ONE_BITS
    } else {
        0
    }
}

/// An axis that is only known by its ends.
pub fn derive_stick_axis(negative: bool, positive: bool) -> (axis: u32)
    ensures
        axis == axis_of(negative, positive),
{
    if negative && !positive {
        MINUS_ONE_BITS
    } else if positive && !negative {
        ONE_BITS
    } else {
        0
    }
}

/// What the service says of both controllers.
#[derive(Clone, Copy, Debug, PartialEq, Eq, Structural)]
pub struct ControllerQueries {
    pub buttons: u32,
    pub touches: u32,
    pub active_1d: u32,
    pub active_2d: u32,
    pub battery: i32,
}

/// A mask has a flag.
pub open spec fn flagged(value: u32, flag: u32) -> bool {
    value & flag != 0
}

/// One or zero, as the bits of a float.
pub open spec fn full_if(active: bool) -> u32 {
    if active {
        ONE_BITS
    } else {
        0
    }
}

/// The state of one hand as the service reports it. Triggers are all or nothing, and a stick
/// counts only while it is active.
pub open spec fn service_state(
    hand: Hand,
    queries: ControllerQueries,
    handle: i32,
    now_ns: u64,
) -> SingleControllerState {
    let bits = bits_of(hand);
    let buttons = queries.buttons;
    let stick = flagged(queries.active_2d, bits.stick_axis) || flagged(buttons, bits.thumbstick);
    SingleControllerState {
        connected: true,
        handle,
        motion: None,
        buttons_pressed: mask_of_buttons(
            flagged(buttons, bits.index_trigger),
            flagged(buttons, bits.thumbstick),
            flagged(buttons, bits.menu),
            flagged(buttons, bits.hand_trigger),
            flagged(buttons, bits.lower),
            flagged(buttons, bits.upper),
        ),
        buttons_touched: mask_of_buttons(
            false,
            flagged(queries.touches, bits.thumbstick_touch),
            false,
            false,
            flagged(queries.touches, bits.lower_touch),
            flagged(queries.touches, bits.upper_touch),
        ),
        trigger: full_if(
            flagged(queries.active_1d, bits.index_axis) || flagged(buttons, bits.index_trigger),
        ),
        grip: full_if(
            flagged(queries.active_1d, bits.hand_axis) || flagged(buttons, bits.hand_trigger),
        ),
        thumbstick_x: if stick {
            axis_of(flagged(buttons, bits.left), flagged(buttons, bits.right))
        } else {
            0
        },
        thumbstick_y: if stick {
            axis_of(flagged(buttons, bits.down), flagged(buttons, bits.up))
        } else {
            0
        },
        battery_percent: percent(queries.battery),
        last_updated_ns: now_ns,
    }
}

/// The state of one hand as the service reports it.
pub fn service_controller_state(
    hand: Hand,
    queries: &ControllerQueries,
    handle: i32,
    now_ns: u64,
) -> (state: SingleControllerState)
    ensures
        state == service_state(hand, *queries, handle, now_ns),
{
    let bits = hand_bits(hand);
    let buttons: u32 = queries.buttons;
    let index_pressed: bool = has_flag(buttons, bits.index_trigger);
    let hand_pressed: bool = has_flag(buttons, bits.hand_trigger);
    let stick_pressed: bool = has_flag(buttons, bits.thumbstick);
    let stick: bool = has_flag(queries.active_2d, bits.stick_axis) || stick_pressed;
    let trigger: u32 = if has_flag(queries.active_1d, bits.index_axis) || index_pressed {
        ONE_BITS
    } else {
        0
    };
    let grip: u32 = if has_flag(queries.active_1d, bits.hand_axis) || hand_pressed {
        ONE_BITS
    } else {
        0
    };
    let thumbstick_x: u32 = if stick {
        derive_stick_axis(has_flag(buttons, bits.left), has_flag(buttons, bits.right))
    } else {
        0
    };
    let thumbstick_y: u32 = if stick {
        derive_stick_axis(has_flag(buttons, bits.down), has_flag(buttons, bits.up))
    } else {
        0
    };
    SingleControllerState {
        connected: true,
        handle,
        motion: None,
        buttons_pressed: button_mask(
            index_pressed,
            stick_pressed,
            has_flag(buttons, bits.menu),
            hand_pressed,
            has_flag(buttons, bits.lower),
            has_flag(buttons, bits.upper),
        ),
        buttons_touched: button_mask(
            false,
            has_flag(queries.touches, bits.thumbstick_touch),
            false,
            false,
            has_flag(queries.touches, bits.lower_touch),
            has_flag(queries.touches, bits.upper_touch),
        ),
        trigger,
        grip,
        thumbstick_x,
        thumbstick_y,
        battery_percent: clamp_battery_percent(queries.battery),
        last_updated_ns: now_ns,
    }
}

/// Time between two looks at the ring buffer, in nanoseconds.
pub const PIMAX_CONTROLLER_RING_SAMPLE_INTERVAL_NS: u64 = 50_000_000;

/// Time between two rounds of queries, in nanoseconds.
pub const PIMAX_CONTROLLER_QUERY_INTERVAL_NS: u64 = 1_000_000_000;

/// Time between two lines of the log about changes, in nanoseconds.
pub const CHANGE_LOG_INTERVAL_NS: u64 = 250_000_000;

/// Number of changes of the ring buffer that a line of the log holds.
pub const PIMAX_CONTROLLER_RING_MAX_CHANGE_LOG_WORDS: usize = 32;

/// The controllers as the service reports them.
#[derive(Clone, Debug, PartialEq, Eq)]
pub struct PimaxControllerRuntime {
    pub handle: i32,
    pub last_ring_sample: Vec<u8>,
    pub last_ring_change_log_ns: u64,
    pub last_poll_ns: u64,
    pub last_query_poll_ns: u64,
    /// What the service said last; nothing before the first round.
    pub last_queries: Option<ControllerQueries>,
    pub poll_count: u64,
}

/// A time earlier by `interval_ns`, where the clock reaches back so far.
pub open spec fn earlier(now_ns: u64, interval_ns: u64) -> u64 {
    if now_ns < interval_ns {
        now_ns
    } else {
        (now_ns - interval_ns) as u64
    }
}

pub fn time_before(now_ns: u64, interval_ns: u64) -> (time_ns: u64)
    ensures
        time_ns == earlier(now_ns, interval_ns),
{
    if now_ns < interval_ns {
        now_ns
    } else {
        now_ns - interval_ns
    }
}

/// Whether the ring buffer that the service offers can be mapped.
pub fn ring_buffer_available(native_fd: i32, size: usize) -> (available: bool)
    ensures
        available == (native_fd >= 0 && size > 0),
{
    native_fd >= 0 && size > 0
}

/// The fields in which the service may hold the handle of the controllers, in the order in which
/// they are tried.
pub open spec fn handle_fields() -> Seq<Seq<char>> {
    seq![
        "handle"@,
        "mHandle"@,
        "m_handle"@,
        "controllerHandle"@,
        "mControllerHandle"@,
        "controller_handle"@,
        "fd"@,
        "mFd"@,
    ]
}

/// The field to try at a step, where one is left.
pub fn start_handle_field(step: usize) -> (field: Option<&'static str>)
    ensures
        field is Some == (step < handle_fields().len()),
        field matches Some(name) ==> name@ == handle_fields()[step as int],
{
    match step {
        0 => Some("handle"),
        1 => Some("mHandle"),
        2 => Some("m_handle"),
        3 => Some("controllerHandle"),
        4 => Some("mControllerHandle"),
        5 => Some("controller_handle"),
        6 => Some("fd"),
        7 => Some("mFd"),
        _ => None,
    }
}

/// Forgets both controllers, once the service was told to stop.
pub fn disconnect_controllers(store: &mut ControllerStore)
    ensures
        *final(store) == (ControllerStore {
            snapshot: ControllerSnapshot { left: None, right: None },
            ..*old(store)
        }),
{
    update_controller_connection(store, Hand::Left, false);
    assert(store.snapshot.of(Hand::Left) is None);
    let ghost between = *store;
    update_controller_connection(store, Hand::Right, false);
    assert(store.snapshot.of(Hand::Left) == between.snapshot.of(Hand::Left));
    assert(store.snapshot.of(Hand::Right) is None);
}

/// What a poll is to do.
#[derive(Clone, Copy, Debug, PartialEq, Eq, Structural)]
pub struct PollPlan {
    pub sample_ring: bool,
    pub query: bool,
}

impl PimaxControllerRuntime {
    /// Controllers that were just started: everything is due.
    pub fn new(handle: i32, now_ns: u64) -> (runtime: Self)
        ensures
            runtime.handle == handle,
            runtime.last_ring_sample@.len() == 0,
            runtime.last_ring_change_log_ns == earlier(now_ns, 1_000_000_000),
            runtime.last_poll_ns == earlier(now_ns, PIMAX_CONTROLLER_RING_SAMPLE_INTERVAL_NS),
            runtime.last_query_poll_ns == earlier(now_ns, PIMAX_CONTROLLER_QUERY_INTERVAL_NS),
            runtime.last_queries is None,
            runtime.poll_count == 0,
    {
        PimaxControllerRuntime {
            handle,
            last_ring_sample: Vec::new(),
            last_ring_change_log_ns: time_before(now_ns, 1_000_000_000),
            last_poll_ns: time_before(now_ns, PIMAX_CONTROLLER_RING_SAMPLE_INTERVAL_NS),
            last_query_poll_ns: time_before(now_ns, PIMAX_CONTROLLER_QUERY_INTERVAL_NS),
            last_queries: None,
            poll_count: 0,
        }
    }

    /// Decides what a poll does: the ring buffer and the queries have intervals of their own.
    pub fn poll(&mut self, now_ns: u64) -> (plan: PollPlan)
        ensures
            plan.sample_ring == (elapsed(now_ns, old(self).last_poll_ns)
                >= PIMAX_CONTROLLER_RING_SAMPLE_INTERVAL_NS),
            plan.query == (elapsed(now_ns, old(self).last_query_poll_ns)
                >= PIMAX_CONTROLLER_QUERY_INTERVAL_NS),
            *final(self) == (PimaxControllerRuntime {
                last_poll_ns: if plan.sample_ring {
                    now_ns
                } else {
                    old(self).last_poll_ns
                },
                last_query_poll_ns: if plan.query {
                    now_ns
                } else {
                    old(self).last_query_poll_ns
                },
                ..*old(self)
            }),
    {
        let sample_ring: bool = elapsed_ns(now_ns, self.last_poll_ns)
            >= PIMAX_CONTROLLER_RING_SAMPLE_INTERVAL_NS;
        if sample_ring {
            self.last_poll_ns = now_ns;
        }
        let query: bool = elapsed_ns(now_ns, self.last_query_poll_ns)
            >= PIMAX_CONTROLLER_QUERY_INTERVAL_NS;
        if query {
            self.last_query_poll_ns = now_ns;
        }
        PollPlan { sample_ring, query }
    }

    /// Something differs from what the service said last. The battery is held in percent.
    pub open spec fn differs(&self, queries: ControllerQueries) -> bool {
        match self.last_queries {
            Some(last) => {
                ||| queries.buttons != last.buttons
                ||| queries.touches != last.touches
                ||| queries.active_1d != last.active_1d
                ||| queries.active_2d != last.active_2d
                ||| percent(queries.battery) != last.battery
            },
            None => true,
        }
    }
}

/// Takes over what the service says of both controllers. Tells whether it is worth a line in the
/// log: where something changed, each of the first five times, then one in 120.
pub fn push_pimax_controller_states(
    runtime: &mut PimaxControllerRuntime,
    store: &mut ControllerStore,
    queries: &ControllerQueries,
    now_ns: u64,
) -> (logs: bool)
    ensures
        forall|hand: Hand|
            (#[trigger] final(store).snapshot.of(hand)) == Some(
                merged(
                    old(store).snapshot.of(hand),
                    service_state(hand, *queries, old(runtime).handle, now_ns),
                    false,
                ),
            ),
        final(store).left_updates == old(store).left_updates.wrapping_add(1),
        final(store).right_updates == old(store).right_updates.wrapping_add(1),
        *final(runtime) == (PimaxControllerRuntime {
            last_queries: Some(
                ControllerQueries { battery: percent(queries.battery) as i32, ..*queries },
            ),
            poll_count: old(runtime).poll_count.wrapping_add(1),
            ..*old(runtime)
        }),
        ({
            let count = final(runtime).poll_count;
            logs == (old(runtime).differs(*queries) || count <= 5 || count % 120 == 0)
        }),
{
    let left = service_controller_state(Hand::Left, queries, runtime.handle, now_ns);
    let right = service_controller_state(Hand::Right, queries, runtime.handle, now_ns);
    let ghost before = store.snapshot;
    update_controller_state(store, Hand::Left, left, false);
    assert(store.snapshot.of(Hand::Right) == before.of(Hand::Right));
    assert(store.updates(Hand::Right) == old(store).updates(Hand::Right));
    let ghost between = *store;
    update_controller_state(store, Hand::Right, right, false);
    assert(store.snapshot.of(Hand::Left) == between.snapshot.of(Hand::Left));
    assert(store.updates(Hand::Left) == between.updates(Hand::Left));
    runtime.poll_count = runtime.poll_count.wrapping_add(1);
    let battery: u8 = clamp_battery_percent(queries.battery);
    let changed: bool = match runtime.last_queries {
        Some(last) => queries.buttons != last.buttons || queries.touches != last.touches
            || queries.active_1d != last.active_1d || queries.active_2d != last.active_2d
            || battery as i32 != last.battery,
        None => true,
    };
    runtime.last_queries =
    Some(
        ControllerQueries {
            buttons: queries.buttons,
            touches: queries.touches,
            active_1d: queries.active_1d,
            active_2d: queries.active_2d,
            battery: battery as i32,
        },
    );
    changed || runtime.poll_count <= 5 || runtime.poll_count % 120 == 0
}

// ---------------------------------------------------------------------------
// The ring buffer
// ---------------------------------------------------------------------------

/// The FNV-1a hash of bytes, in 64 bits.
pub open spec fn checksum(bytes: Seq<u8>) -> u64
    decreases bytes.len(),
{
    if bytes.len() == 0 {
        0xcbf2_9ce4_8422_2325
    } else {
        (checksum(bytes.drop_last()) ^ bytes.last() as u64).wrapping_mul(0x0000_0100_0000_01b3)
    }
}

/// The FNV-1a hash of bytes, in 64 bits.
pub fn checksum_bytes(bytes: &[u8]) -> (hash: u64)
    ensures
        hash == checksum(bytes@),
{
    let mut hash: u64 = 0xcbf2_9ce4_8422_2325;
    let mut index: usize = 0;
    while index < bytes.len()
        invariant
            index <= bytes@.len(),
            hash == checksum(bytes@.take(index as int)),
        decreases bytes@.len() - index,
    {
        hash = (hash ^ bytes[index] as u64).wrapping_mul(0x0000_0100_0000_01b3);
        proof {
            assert(bytes@.take(index + 1).drop_last() =~= bytes@.take(index as int));
        }
        index = index + 1;
    }
    assert(bytes@.take(bytes@.len() as int) =~= bytes@);
    hash
}

/// Bytes in hexadecimal, with a space between two of them.
pub open spec fn spaced_hex(bytes: Seq<u8>) -> Seq<char> {
    joined(bytes.map_values(|byte: u8| hex_padded(byte as nat, 2)), " "@)
}

/// Writes bytes in hexadecimal, with a space between two of them.
pub fn format_hex_bytes(bytes: &[u8]) -> (text: String)
    ensures
        text@ == spaced_hex(bytes@),
{
    let ghost all = bytes@.map_values(|byte: u8| hex_padded(byte as nat, 2));
    let mut parts: Vec<String> = Vec::new();
    let mut index: usize = 0;
    while index < bytes.len()
        invariant
            index <= bytes@.len(),
            all == bytes@.map_values(|byte: u8| hex_padded(byte as nat, 2)),
            views(parts@) =~= all.take(index as int),
        decreases bytes@.len() - index,
    {
        let part: String = format_hex_padded(bytes[index] as u64, 2);
        let ghost before = parts@;
        let ghost written = part@;
        parts.push(part);
        assert(views(parts@) =~= views(before).push(written));
        index = index + 1;
    }
    assert(views(parts@) =~= all);
    join_text(&parts, " ")
}

/// A word of four bytes, the low one first. Bytes behind the end count as zero.
pub open spec fn word_at(bytes: Seq<u8>, offset: int) -> u32 {
    let byte = |i: int|
        if i < bytes.len() {
            bytes[i] as int
        } else {
            0
        };
    (byte(offset) + 256 * byte(offset + 1) + 65536 * byte(offset + 2) + 16777216 * byte(
        offset + 3,
    )) as u32
}

fn read_word(bytes: &[u8], offset: usize) -> (word: u32)
    requires
        offset < bytes@.len(),
        bytes@.len() <= usize::MAX,
    ensures
        word == word_at(bytes@, offset as int),
{
    let first: u32 = bytes[offset] as u32;
    let second: u32 = if bytes.len() - offset > 1 {
        bytes[offset + 1] as u32
    } else {
        0
    };
    let third: u32 = if bytes.len() - offset > 2 {
        bytes[offset + 2] as u32
    } else {
        0
    };
    let fourth: u32 = if bytes.len() - offset > 3 {
        bytes[offset + 3] as u32
    } else {
        0
    };
    first + 256 * second + 65536 * third + 16777216 * fourth
}

/// The words that differ among the first `count`: offset, before and after.
pub open spec fn changed_words(before: Seq<u8>, after: Seq<u8>, count: nat) -> Seq<(int, u32, u32)>
    decreases count,
{
    if count == 0 {
        Seq::empty()
    } else {
        let earlier = changed_words(before, after, (count - 1) as nat);
        let offset = 4 * (count - 1);
        if word_at(before, offset) == word_at(after, offset) {
            earlier
        } else {
            earlier.push((offset, word_at(before, offset), word_at(after, offset)))
        }
    }
}

/// Number of words that bytes take up.
pub open spec fn word_count(length: nat) -> nat {
    (length + 3) / 4
}

/// At most the first `limit` of a list.
pub open spec fn first_of<T>(list: Seq<T>, limit: int) -> Seq<T> {
    if list.len() > limit {
        list.take(limit)
    } else {
        list
    }
}

/// A change of a word.
#[derive(Clone, Copy, Debug, PartialEq, Eq, Structural)]
pub struct WordChange {
    pub offset: usize,
    pub before: u32,
    pub after: u32,
}

/// Changes as triples.
pub open spec fn change_views(changes: Seq<WordChange>) -> Seq<(int, u32, u32)> {
    changes.map_values(|change: WordChange| (change.offset as int, change.before, change.after))
}

/// Finds the words that differ. Returns the first of them, up to a limit, and how many there are.
pub fn find_changed_words(before: &[u8], after: &[u8], limit: usize) -> (result: (
    Vec<WordChange>,
    usize,
))
    requires
        before@.len() == after@.len(),
    ensures
        result.1 == changed_words(before@, after@, word_count(after@.len())).len(),
        change_views(result.0@) == first_of(
            changed_words(before@, after@, word_count(after@.len())),
            limit as int,
        ),
{
    let mut changes: Vec<WordChange> = Vec::new();
    let mut count: usize = 0;
    let mut offset: usize = 0;
    let ghost mut words: nat = 0;
    assert(change_views(changes@) =~= first_of(changed_words(before@, after@, 0), limit as int));
    loop
        invariant
            before@.len() == after@.len(),
            before.len() == before@.len(),
            after.len() == after@.len(),
            words <= word_count(after@.len()),
            offset == 4 * words || (offset == after@.len() && words == word_count(after@.len())),
            offset <= after@.len(),
            count == changed_words(before@, after@, words).len(),
            count <= words,
            change_views(changes@) == first_of(
                changed_words(before@, after@, words),
                limit as int,
            ),
        ensures
            words == word_count(after@.len()),
        decreases after@.len() - offset,
    {
        if offset >= after.len() {
            break;
        }
        let old_word: u32 = read_word(before, offset);
        let new_word: u32 = read_word(after, offset);
        let ghost known = changed_words(before@, after@, words);
        let ghost listed = changes@;
        if old_word != new_word {
            count = count + 1;
            if changes.len() < limit {
                let change = WordChange { offset, before: old_word, after: new_word };
                changes.push(change);
                assert(change_views(changes@) =~= change_views(listed).push(
                    (offset as int, old_word, new_word),
                ));
            }
        }
        proof {
            let next = changed_words(before@, after@, words + 1);
            if old_word != new_word {
                assert(next =~= known.push((offset as int, old_word, new_word)));
            } else {
                assert(next =~= known);
            }
            assert(change_views(changes@) =~= first_of(next, limit as int));
            words = words + 1;
        }
        if after.len() - offset >= 4 {
            offset = offset + 4;
        } else {
            offset = after.len();
        }
    }
    (changes, count)
}

/// One change in words: the offset with at least `digits` digits, then both values.
pub open spec fn change_text(change: (int, u32, u32), digits: nat) -> Seq<char> {
    "0x"@ + hex_padded(change.0 as nat, digits) + ":0x"@ + hex_padded(change.1 as nat, 8) + "->0x"@
        + hex_padded(change.2 as nat, 8)
}

/// Changes in words, with a comma between two of them.
pub open spec fn changes_text(changes: Seq<(int, u32, u32)>, digits: nat) -> Seq<char> {
    joined(changes.map_values(|change: (int, u32, u32)| change_text(change, digits)), ", "@)
}

/// Writes changes in words.
pub fn format_changes(changes: &Vec<WordChange>, digits: usize) -> (text: String)
    ensures
        text@ == changes_text(change_views(changes@), digits as nat),
{
    let ghost triples = change_views(changes@);
    let ghost all = triples.map_values(
        |change: (int, u32, u32)| change_text(change, digits as nat),
    );
    let mut parts: Vec<String> = Vec::new();
    let mut index: usize = 0;
    while index < changes.len()
        invariant
            index <= changes@.len(),
            triples == change_views(changes@),
            all == triples.map_values(
                |change: (int, u32, u32)| change_text(change, digits as nat),
            ),
            views(parts@) =~= all.take(index as int),
        decreases changes@.len() - index,
    {
        let change = changes[index];
        let mut part: String = "0x".to_owned();
        let offset: String = format_hex_padded(change.offset as u64, digits);
        part.append(offset.as_str());
        part.append(":0x");
        let old_word: String = format_hex_padded(change.before as u64, 8);
        part.append(old_word.as_str());
        part.append("->0x");
        let new_word: String = format_hex_padded(change.after as u64, 8);
        part.append(new_word.as_str());
        let ghost before = parts@;
        let ghost written = part@;
        assert(triples[index as int] == (change.offset as int, change.before, change.after));
        assert(part@ == all[index as int]);
        parts.push(part);
        assert(views(parts@) =~= views(before).push(written));
        index = index + 1;
    }
    assert(views(parts@) =~= all);
    join_text(&parts, ", ")
}

/// What a look at the ring buffer showed.
#[derive(Clone, Debug, PartialEq, Eq)]
pub enum RingChange {
    /// Nothing changed, or there is nothing.
    Nothing,
    /// The buffer was not looked at before.
    First,
    /// So many words changed. Where a line of the log is due, it names these.
    Changed { count: usize, logged: Option<String> },
}

/// Looks at the ring buffer and compares it with the last look. The log is told of changes once
/// in a while, and of each of the first ten rounds.
pub fn sample_pimax_controller_ring_buffer(
    runtime: &mut PimaxControllerRuntime,
    sample: &[u8],
    now_ns: u64,
) -> (change: RingChange)
    ensures
        final(runtime).last_ring_sample@ == if sample@.len() == 0 {
            old(runtime).last_ring_sample@
        } else {
            sample@
        },
        ({
            let last = old(runtime).last_ring_sample@;
            let words = changed_words(last, sample@, word_count(sample@.len()));
            let due = elapsed(now_ns, old(runtime).last_ring_change_log_ns)
                >= CHANGE_LOG_INTERVAL_NS || old(runtime).poll_count <= 10;
            let logs = sample@.len() != 0 && last.len() == sample@.len() && words.len() != 0 && due;
            &&& if sample@.len() == 0 {
                change == RingChange::Nothing
            } else if last.len() != sample@.len() {
                change == RingChange::First
            } else if words.len() == 0 {
                change == RingChange::Nothing
            } else {
                change matches RingChange::Changed { count, logged } && {
                    &&& count == words.len()
                    &&& logged is Some == due
                    &&& due ==> logged->0@ == changes_text(
                        first_of(words, PIMAX_CONTROLLER_RING_MAX_CHANGE_LOG_WORDS as int),
                        4,
                    )
                }
            }
            &&& *final(runtime) == (PimaxControllerRuntime {
                last_ring_sample: final(runtime).last_ring_sample,
                last_ring_change_log_ns: if logs {
                    now_ns
                } else {
                    old(runtime).last_ring_change_log_ns
                },
                ..*old(runtime)
            })
        }),
{
    if sample.len() == 0 {
        return RingChange::Nothing;
    }
    let mut copy: Vec<u8> = Vec::new();
    crate::wire::push_bytes(&mut copy, sample);
    assert(copy@ =~= sample@);
    if runtime.last_ring_sample.len() != sample.len() {
        runtime.last_ring_sample = copy;
        return RingChange::First;
    }
    let (changes, count): (Vec<WordChange>, usize) = find_changed_words(
        runtime.last_ring_sample.as_slice(),
        sample,
        PIMAX_CONTROLLER_RING_MAX_CHANGE_LOG_WORDS,
    );
    if count == 0 {
        proof {
            lemma_unchanged(
                runtime.last_ring_sample@,
                sample@,
                word_count(sample@.len()),
            );
            assert(runtime.last_ring_sample@ =~= sample@) by {
                assert forall|i: int| 0 <= i < sample@.len() implies runtime.last_ring_sample@[i]
                    == sample@[i] by {
                    assert(i < 4 * word_count(sample@.len()));
                }
            }
        }
        return RingChange::Nothing;
    }
    let due: bool = elapsed_ns(now_ns, runtime.last_ring_change_log_ns) >= CHANGE_LOG_INTERVAL_NS
        || runtime.poll_count <= 10;
    let logged: Option<String> = if due {
        runtime.last_ring_change_log_ns = now_ns;
        Some(format_changes(&changes, 4))
    } else {
        None
    };
    runtime.last_ring_sample = copy;
    RingChange::Changed { count, logged }
}

/// The low byte of a number is told from the rest.
proof fn lemma_low_byte(a: int, above_a: int, b: int, above_b: int)
    requires
        0 <= a < 256,
        0 <= b < 256,
        a + 256 * above_a == b + 256 * above_b,
    ensures
        a == b,
        above_a == above_b,
{
}

/// A number below two to the 32nd is made of four bytes in one way only.
proof fn lemma_bytes_of_word(a: (int, int, int, int), b: (int, int, int, int))
    requires
        0 <= a.0 < 256 && 0 <= a.1 < 256 && 0 <= a.2 < 256 && 0 <= a.3 < 256,
        0 <= b.0 < 256 && 0 <= b.1 < 256 && 0 <= b.2 < 256 && 0 <= b.3 < 256,
        a.0 + 256 * a.1 + 65536 * a.2 + 16777216 * a.3 == b.0 + 256 * b.1 + 65536 * b.2 + 16777216
            * b.3,
    ensures
        a == b,
{
    lemma_low_byte(
        a.0,
        a.1 + 256 * a.2 + 65536 * a.3,
        b.0,
        b.1 + 256 * b.2 + 65536 * b.3,
    );
    lemma_low_byte(a.1, a.2 + 256 * a.3, b.1, b.2 + 256 * b.3);
    lemma_low_byte(a.2, a.3, b.2, b.3);
}

/// Where two words are equal, their bytes are.
proof fn lemma_same_word(before: Seq<u8>, after: Seq<u8>, offset: int)
    requires
        before.len() == after.len(),
        0 <= offset,
        word_at(before, offset) == word_at(after, offset),
    ensures
        forall|i: int| offset <= i < offset + 4 && i < before.len() ==> before[i] == after[i],
{
    let byte = |bytes: Seq<u8>, i: int|
        if i < bytes.len() {
            bytes[i] as int
        } else {
            0
        };
    let a = (
        byte(before, offset),
        byte(before, offset + 1),
        byte(before, offset + 2),
        byte(before, offset + 3),
    );
    let b = (
        byte(after, offset),
        byte(after, offset + 1),
        byte(after, offset + 2),
        byte(after, offset + 3),
    );
    lemma_bytes_of_word(a, b);
    assert forall|i: int| offset <= i < offset + 4 && i < before.len() implies before[i]
        == after[i] by {
        assert(i == offset || i == offset + 1 || i == offset + 2 || i == offset + 3);
    }
}

/// Where no word differs, no byte does.
proof fn lemma_unchanged(before: Seq<u8>, after: Seq<u8>, count: nat)
    requires
        before.len() == after.len(),
        changed_words(before, after, count).len() == 0,
    ensures
        forall|i: int| 0 <= i < before.len() && i < 4 * count ==> before[i] == after[i],
    decreases count,
{
    if count > 0 {
        let offset = 4 * (count - 1);
        lemma_unchanged(before, after, (count - 1) as nat);
        lemma_same_word(before, after, offset);
    }
}

// ---------------------------------------------------------------------------
// Laws
// ---------------------------------------------------------------------------

/// The buttons of a hand are those that the service names by that hand's bits: the left hand has
/// the primary triggers and stick, the back button and buttons three and four, the right hand the
/// secondary ones, the start button and buttons one and two.
pub proof fn law_hands_have_their_own_buttons(
    queries: ControllerQueries,
    handle: i32,
    now_ns: u64,
)
    ensures
        ({
            let left = service_state(Hand::Left, queries, handle, now_ns).buttons_pressed;
            let buttons = queries.buttons;
            &&& bit_set(left, 0) == (buttons & 0x2000 != 0)
            &&& bit_set(left, 1) == (buttons & 0x8000 != 0)
            &&& bit_set(left, 2) == (buttons & 0x200 != 0)
            &&& bit_set(left, 3) == (buttons & 0x4000 != 0)
            &&& bit_set(left, 4) == (buttons & 4 != 0)
            &&& bit_set(left, 5) == (buttons & 8 != 0)
            &&& left < 64
        }),
        ({
            let right = service_state(Hand::Right, queries, handle, now_ns).buttons_pressed;
            let buttons = queries.buttons;
            &&& bit_set(right, 0) == (buttons & 0x20_0000 != 0)
            &&& bit_set(right, 1) == (buttons & 0x80_0000 != 0)
            &&& bit_set(right, 2) == (buttons & 0x100 != 0)
            &&& bit_set(right, 3) == (buttons & 0x40_0000 != 0)
            &&& bit_set(right, 4) == (buttons & 1 != 0)
            &&& bit_set(right, 5) == (buttons & 2 != 0)
            &&& right < 64
        }),
{
    let b = queries.buttons;
    law_masks_keep_every_button(
        b & 0x2000 != 0,
        b & 0x8000 != 0,
        b & 0x200 != 0,
        b & 0x4000 != 0,
        b & 4 != 0,
        b & 8 != 0,
    );
    law_masks_keep_every_button(
        b & 0x20_0000 != 0,
        b & 0x80_0000 != 0,
        b & 0x100 != 0,
        b & 0x40_0000 != 0,
        b & 1 != 0,
        b & 2 != 0,
    );
}

/// Only the stick and the two buttons under the thumb feel a touch, each by the bit of its hand.
pub proof fn law_hands_feel_their_own_touches(
    queries: ControllerQueries,
    handle: i32,
    now_ns: u64,
)
    ensures
        ({
            let left = service_state(Hand::Left, queries, handle, now_ns).buttons_touched;
            let touches = queries.touches;
            &&& bit_set(left, 1) == (touches & 16 != 0)
            &&& bit_set(left, 4) == (touches & 4 != 0)
            &&& bit_set(left, 5) == (touches & 8 != 0)
            &&& !bit_set(left, 0) && !bit_set(left, 2) && !bit_set(left, 3)
        }),
        ({
            let right = service_state(Hand::Right, queries, handle, now_ns).buttons_touched;
            let touches = queries.touches;
            &&& bit_set(right, 1) == (touches & 32 != 0)
            &&& bit_set(right, 4) == (touches & 1 != 0)
            &&& bit_set(right, 5) == (touches & 2 != 0)
            &&& !bit_set(right, 0) && !bit_set(right, 2) && !bit_set(right, 3)
        }),
{
    let t = queries.touches;
    law_masks_keep_every_button(false, t & 16 != 0, false, false, t & 4 != 0, t & 8 != 0);
    law_masks_keep_every_button(false, t & 32 != 0, false, false, t & 1 != 0, t & 2 != 0);
}

/// A trigger is pulled fully where its axis is active or its button is pressed, and not at all
/// otherwise. The index trigger is the trigger and the hand trigger the grip.
pub proof fn law_triggers_are_all_or_nothing(
    queries: ControllerQueries,
    handle: i32,
    now_ns: u64,
)
    ensures
        ({
            let full: u32 = 0x3f80_0000;
            let left = service_state(Hand::Left, queries, handle, now_ns);
            let right = service_state(Hand::Right, queries, handle, now_ns);
            &&& left.trigger == if queries.active_1d & 1 != 0 || queries.buttons & 0x2000 != 0 {
                full
            } else {
                0
            }
            &&& right.trigger == if queries.active_1d & 2 != 0 || queries.buttons & 0x20_0000
                != 0 {
                full
            } else {
                0
            }
            &&& left.grip == if queries.active_1d & 4 != 0 || queries.buttons & 0x4000 != 0 {
                full
            } else {
                0
            }
            &&& right.grip == if queries.active_1d & 8 != 0 || queries.buttons & 0x40_0000 != 0 {
                full
            } else {
                0
            }
        }),
{
}

/// A stick that is active points where its ends are pressed: right and up are one, left and down
/// minus one, and opposite ends cancel each other. A stick at rest points nowhere.
pub proof fn law_sticks_point_where_they_are_pressed(
    queries: ControllerQueries,
    handle: i32,
    now_ns: u64,
)
    ensures
        ({
            let pressed = |flag: u32| queries.buttons & flag != 0;
            let towards = |active: bool, minus: bool, plus: bool|
                if !active || minus == plus {
                    0u32
                } else if plus {
                    0x3f80_0000
                } else {
                    0xbf80_0000
                };
            let left = service_state(Hand::Left, queries, handle, now_ns);
            let right = service_state(Hand::Right, queries, handle, now_ns);
            let left_active = queries.active_2d & 1 != 0 || pressed(0x8000);
            let right_active = queries.active_2d & 2 != 0 || pressed(0x80_0000);
            &&& left.thumbstick_x == towards(left_active, pressed(0x4_0000), pressed(0x8_0000))
            &&& left.thumbstick_y == towards(left_active, pressed(0x2_0000), pressed(0x1_0000))
            &&& right.thumbstick_x == towards(
                right_active,
                pressed(0x400_0000),
                pressed(0x800_0000),
            )
            &&& right.thumbstick_y == towards(
                right_active,
                pressed(0x200_0000),
                pressed(0x100_0000),
            )
        }),
{
}

/// A state that the service reports is connected, of the time of the query, without a motion of
/// its own, and holds its handle and the charge between zero and a hundred.
pub proof fn law_service_states_are_current(
    hand: Hand,
    queries: ControllerQueries,
    handle: i32,
    now_ns: u64,
)
    ensures
        ({
            let state = service_state(hand, queries, handle, now_ns);
            &&& state.connected
            &&& state.handle == handle
            &&& state.motion is None
            &&& state.last_updated_ns == now_ns
            &&& state.battery_percent <= 100
            &&& 0 <= queries.battery <= 100 ==> state.battery_percent == queries.battery
        }),
{
}

/// The hash starts at the offset basis of FNV-1a, and takes a byte in by mixing it in first and
/// multiplying after.
pub proof fn law_checksum_is_fnv1a(bytes: Seq<u8>, byte: u8)
    ensures
        checksum(Seq::empty()) == 14695981039346656037,
        checksum(bytes.push(byte)) == (checksum(bytes) ^ byte as u64).wrapping_mul(1099511628211),
{
    assert(bytes.push(byte).drop_last() =~= bytes);
}

/// A word is the little-endian number at its offset, and bytes behind the end count as zero.
pub proof fn law_words_are_little_endian(bytes: Seq<u8>, offset: int)
    requires
        0 <= offset < bytes.len(),
    ensures
        offset + 4 <= bytes.len() ==> word_at(bytes, offset) == crate::wire::le32_at(
            bytes,
            offset,
        ),
        offset + 1 == bytes.len() ==> word_at(bytes, offset) == bytes[offset],
        word_at(bytes, offset) == word_at(bytes + seq![0u8, 0, 0], offset),
{
    let padded = bytes + seq![0u8, 0, 0];
    assert(forall|i: int| 0 <= i < bytes.len() ==> padded[i] == bytes[i]);
    assert(forall|i: int| bytes.len() <= i < padded.len() ==> padded[i] == 0);
}

/// A change is listed if and only if the word at its offset differs, with the word as it was and
/// the word as it is.
pub proof fn law_changes_are_the_words_that_differ(
    before: Seq<u8>,
    after: Seq<u8>,
    count: nat,
    word: int,
)
    requires
        0 <= word < count,
    ensures
        word_at(before, 4 * word) != word_at(after, 4 * word) <==> exists|i: int|
            0 <= i < changed_words(before, after, count).len() && (#[trigger] changed_words(
                before,
                after,
                count,
            )[i]).0 == 4 * word,
        forall|i: int|
            0 <= i < changed_words(before, after, count).len() ==> {
                let change = #[trigger] changed_words(before, after, count)[i];
                &&& 0 <= change.0 < 4 * count && change.0 % 4 == 0
                &&& change.1 == word_at(before, change.0)
                &&& change.2 == word_at(after, change.0)
                &&& change.1 != change.2
            },
        changed_words(before, before, count).len() == 0,
    decreases count,
{
    lemma_nothing_changed(before, count);
    lemma_listed_changes(before, after, count);
    let list = changed_words(before, after, count);
    let shorter = changed_words(before, after, (count - 1) as nat);
    if word < count - 1 {
        law_changes_are_the_words_that_differ(before, after, (count - 1) as nat, word);
        if word_at(before, 4 * word) != word_at(after, 4 * word) {
            let i = choose|i: int|
                0 <= i < shorter.len() && (#[trigger] shorter[i]).0 == 4 * word;
            assert(list[i] == shorter[i]);
        }
        if exists|i: int| 0 <= i < list.len() && (#[trigger] list[i]).0 == 4 * word {
            let i = choose|i: int| 0 <= i < list.len() && (#[trigger] list[i]).0 == 4 * word;
            assert(list[i].1 != list[i].2);
        }
    } else if word_at(before, 4 * word) != word_at(after, 4 * word) {
        assert(list.last().0 == 4 * word);
    }
}

proof fn lemma_nothing_changed(bytes: Seq<u8>, count: nat)
    ensures
        changed_words(bytes, bytes, count).len() == 0,
    decreases count,
{
    if count > 0 {
        lemma_nothing_changed(bytes, (count - 1) as nat);
    }
}

proof fn lemma_listed_changes(before: Seq<u8>, after: Seq<u8>, count: nat)
    ensures
        forall|i: int|
            0 <= i < changed_words(before, after, count).len() ==> {
                let change = #[trigger] changed_words(before, after, count)[i];
                &&& 0 <= change.0 < 4 * count && change.0 % 4 == 0
                &&& change.1 == word_at(before, change.0)
                &&& change.2 == word_at(after, change.0)
                &&& change.1 != change.2
            },
    decreases count,
{
    if count > 0 {
        lemma_listed_changes(before, after, (count - 1) as nat);
        let shorter = changed_words(before, after, (count - 1) as nat);
        let list = changed_words(before, after, count);
        assert forall|i: int| 0 <= i < list.len() implies {
            let change = #[trigger] list[i];
            &&& 0 <= change.0 < 4 * count && change.0 % 4 == 0
            &&& change.1 == word_at(before, change.0)
            &&& change.2 == word_at(after, change.0)
            &&& change.1 != change.2
        } by {
            if i < shorter.len() {
                assert(list[i] == shorter[i]);
            }
        }
    }
}

/// A change is written as its offset, the word as it was, and the word as it is, all in
/// hexadecimal, the words with eight digits.
pub proof fn law_changes_read_from_old_to_new(offset: nat, before: u32, after: u32, digits: nat)
    ensures
        change_text((offset as int, before, after), digits) == "0x"@ + hex_padded(offset, digits)
            + ":0x"@ + hex_padded(before as nat, 8) + "->0x"@ + hex_padded(after as nat, 8),
        changes_text(seq![(offset as int, before, after)], digits) == change_text(
            (offset as int, before, after),
            digits,
        ),
{
    let one = seq![(offset as int, before, after)];
    let texts = one.map_values(|change: (int, u32, u32)| change_text(change, digits));
    assert(texts.len() == 1);
    assert(texts[0] == change_text((offset as int, before, after), digits));
}

/// A controller that was just started is polled at once: whatever has an interval of its own
/// counts as last done that interval ago.
pub proof fn law_first_poll_is_due(now_ns: u64, interval_ns: u64)
    requires
        now_ns >= interval_ns,
    ensures
        elapsed(now_ns, earlier(now_ns, interval_ns)) == interval_ns,
        earlier(now_ns, interval_ns) <= now_ns,
{
}

/// What the service said last is compared input by input: the same answer differs from nothing,
/// and an answer that changed in any input differs.
pub proof fn law_every_input_counts_as_a_change(
    runtime: PimaxControllerRuntime,
    last: ControllerQueries,
    queries: ControllerQueries,
)
    requires
        runtime.last_queries == Some(last),
        0 <= last.battery <= 100,
        0 <= queries.battery <= 100,
    ensures
        runtime.differs(queries) <==> queries != last,
{
}

/// The shared memory is read twenty times a second, and the service is asked once a second. What
/// is due is noted as done, and what is not stays due when it was.
pub proof fn law_service_is_asked_in_time(now_ns: u64, plan: PollPlan)
    ensures
        forall|runtime: &mut PimaxControllerRuntime| #[trigger]
            call_ensures(PimaxControllerRuntime::poll, (runtime, now_ns), plan) && now_ns
                >= (*runtime).last_poll_ns && now_ns >= (*runtime).last_query_poll_ns ==> {
                &&& plan.sample_ring <==> now_ns - (*runtime).last_poll_ns >= 50_000_000
                &&& plan.query <==> now_ns - (*runtime).last_query_poll_ns >= 1_000_000_000
                &&& plan.sample_ring ==> final(runtime).last_poll_ns == now_ns
                &&& !plan.sample_ring ==> final(runtime).last_poll_ns == (*runtime).last_poll_ns
                &&& plan.query ==> final(runtime).last_query_poll_ns == now_ns
                &&& !plan.query ==> final(runtime).last_query_poll_ns
                    == (*runtime).last_query_poll_ns
                &&& final(runtime).handle == (*runtime).handle
            },
{
}

/// A service that was started is asked at once, and nothing is known of it yet.
pub proof fn law_started_service_is_asked_at_once(
    handle: i32,
    now_ns: u64,
    runtime: PimaxControllerRuntime,
)
    requires
        call_ensures(PimaxControllerRuntime::new, (handle, now_ns), runtime),
        now_ns >= 1_000_000_000,
    ensures
        runtime.handle == handle && runtime.poll_count == 0,
        runtime.last_queries is None && runtime.last_ring_sample@.len() == 0,
        now_ns - runtime.last_poll_ns >= 50_000_000,
        now_ns - runtime.last_query_poll_ns >= 1_000_000_000,
        now_ns - runtime.last_ring_change_log_ns >= 250_000_000,
{
}

/// What the service says is taken over for both hands and remembered. The log is told of the first
/// five rounds, of one in 120, and of every change.
pub proof fn law_both_hands_follow_the_service(
    queries: ControllerQueries,
    now_ns: u64,
    logs: bool,
)
    requires
        0 <= queries.battery <= 100,
    ensures
        forall|runtime: &mut PimaxControllerRuntime, store: &mut ControllerStore| #[trigger]
            call_ensures(
                push_pimax_controller_states,
                (runtime, store, &queries, now_ns),
                logs,
            ) ==> {
                &&& final(store).snapshot.left is Some
                &&& final(store).snapshot.right is Some
                &&& final(store).snapshot.left->0.buttons_pressed == service_state(
                    Hand::Left,
                    queries,
                    (*runtime).handle,
                    now_ns,
                ).buttons_pressed
                &&& final(store).snapshot.right->0.buttons_pressed == service_state(
                    Hand::Right,
                    queries,
                    (*runtime).handle,
                    now_ns,
                ).buttons_pressed
                &&& final(runtime).last_queries == Some(queries)
                &&& (*runtime).poll_count < u64::MAX ==> final(runtime).poll_count
                    == (*runtime).poll_count + 1
                &&& (*runtime).last_queries == Some(queries) && final(runtime).poll_count > 5
                    ==> (logs <==> final(runtime).poll_count % 120 == 0)
                &&& (*runtime).last_queries is None ==> logs
                &&& final(runtime).poll_count <= 5 ==> logs
            },
{
    assert forall|runtime: &mut PimaxControllerRuntime, store: &mut ControllerStore| #[trigger]
        call_ensures(push_pimax_controller_states, (runtime, store, &queries, now_ns), logs) implies {
        &&& final(store).snapshot.left == Some(
            merged(
                (*store).snapshot.of(Hand::Left),
                service_state(Hand::Left, queries, (*runtime).handle, now_ns),
                false,
            ),
        )
        &&& final(store).snapshot.right == Some(
            merged(
                (*store).snapshot.of(Hand::Right),
                service_state(Hand::Right, queries, (*runtime).handle, now_ns),
                false,
            ),
        )
    } by {
        assert(final(store).snapshot.of(Hand::Left) == final(store).snapshot.left);
        assert(final(store).snapshot.of(Hand::Right) == final(store).snapshot.right);
    }
}

/// Without the service no hand is known.
pub proof fn law_lost_service_loses_both_hands()
    ensures
        forall|store: &mut ControllerStore| #[trigger]
            call_ensures(disconnect_controllers, (store,), ()) ==> {
                &&& final(store).snapshot.left is None && final(store).snapshot.right is None
                &&& final(store).left_updates == (*store).left_updates
                &&& final(store).right_updates == (*store).right_updates
            },
{
}

/// A sample of the shared memory is kept for the next comparison. The first one is no change, nor
/// is one that is the same, and none at all says nothing.
pub proof fn law_samples_are_compared_with_the_last(
    sample: &[u8],
    now_ns: u64,
    change: RingChange,
)
    ensures
        forall|runtime: &mut PimaxControllerRuntime| #[trigger]
            call_ensures(
                sample_pimax_controller_ring_buffer,
                (runtime, sample, now_ns),
                change,
            ) ==> {
                &&& sample@.len() == 0 ==> change is Nothing && final(runtime).last_ring_sample@
                    == (*runtime).last_ring_sample@
                &&& sample@.len() != 0 ==> final(runtime).last_ring_sample@ == sample@
                &&& sample@.len() != 0 && (*runtime).last_ring_sample@.len() != sample@.len()
                    ==> change is First
                &&& change is First ==> (*runtime).last_ring_sample@.len() != sample@.len()
                &&& change is Changed ==> (*runtime).last_ring_sample@ != sample@
                &&& change is Changed && change->logged is Some ==> final(
                    runtime).last_ring_change_log_ns == now_ns
                &&& !(change is Changed) ==> final(runtime).last_ring_change_log_ns
                    == (*runtime).last_ring_change_log_ns
                &&& change is Changed && now_ns >= (*runtime).last_ring_change_log_ns
                    && (*runtime).poll_count > 10 ==> (change->logged is Some <==> now_ns
                    - (*runtime).last_ring_change_log_ns >= 250_000_000)
                &&& final(runtime).poll_count == (*runtime).poll_count
            },
{
    assert forall|runtime: &mut PimaxControllerRuntime| #[trigger]
        call_ensures(
            sample_pimax_controller_ring_buffer,
            (runtime, sample, now_ns),
            change,
        ) && change is Changed implies (*runtime).last_ring_sample@ != sample@ by {
        if (*runtime).last_ring_sample@ == sample@ {
            lemma_same_samples(sample@, word_count(sample@.len()));
        }
    }
}

proof fn lemma_same_samples(sample: Seq<u8>, count: nat)
    ensures
        changed_words(sample, sample, count).len() == 0,
    decreases count,
{
    if count > 0 {
        lemma_same_samples(sample, (count - 1) as nat);
    }
}

/// Words cover all bytes, and no word lies behind them.
pub proof fn law_words_cover_the_bytes(length: nat)
    ensures
        4 * word_count(length) >= length,
        length > 0 ==> 4 * (word_count(length) - 1) < length,
        word_count(0) == 0,
{
}

/// What a hand is told to press is what the service says of that hand: each state names its hand's
/// own buttons and is as old as the question.
pub proof fn law_states_follow_the_service(
    hand: Hand,
    queries: ControllerQueries,
    handle: i32,
    now_ns: u64,
    state: SingleControllerState,
)
    requires
        call_ensures(service_controller_state, (hand, &queries, handle, now_ns), state),
    ensures
        hand == Hand::Left ==> {
            &&& bit_set(state.buttons_pressed, 0) == (queries.buttons & 0x2000 != 0)
            &&& bit_set(state.buttons_pressed, 1) == (queries.buttons & 0x8000 != 0)
            &&& bit_set(state.buttons_pressed, 2) == (queries.buttons & 0x200 != 0)
            &&& bit_set(state.buttons_pressed, 3) == (queries.buttons & 0x4000 != 0)
            &&& bit_set(state.buttons_pressed, 4) == (queries.buttons & 4 != 0)
            &&& bit_set(state.buttons_pressed, 5) == (queries.buttons & 8 != 0)
        },
        hand == Hand::Right ==> {
            &&& bit_set(state.buttons_pressed, 0) == (queries.buttons & 0x20_0000 != 0)
            &&& bit_set(state.buttons_pressed, 1) == (queries.buttons & 0x80_0000 != 0)
            &&& bit_set(state.buttons_pressed, 2) == (queries.buttons & 0x100 != 0)
            &&& bit_set(state.buttons_pressed, 3) == (queries.buttons & 0x40_0000 != 0)
            &&& bit_set(state.buttons_pressed, 4) == (queries.buttons & 1 != 0)
            &&& bit_set(state.buttons_pressed, 5) == (queries.buttons & 2 != 0)
        },
        state.last_updated_ns == now_ns,
{
    law_hands_have_their_own_buttons(queries, handle, now_ns);
}

} // verus!
