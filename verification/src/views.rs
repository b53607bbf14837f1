//! What the server renders: the lenses' field of view and the distance between the eyes.

use vstd::prelude::*;

use crate::controller::ONE_BITS;
use crate::float::{
    clamp_float, clamped, float_greater, is_finite, is_finite_float, is_greater, negate, negated,
};

verus! {

/// Bits of the float 0.064, the distance between the eyes that is assumed, in metres.
pub const ALVR_DEFAULT_IPD_BITS: u32 = 0x3d83_126f;

/// Bits of the float -1.
pub const MINUS_ONE_BITS: u32 = 0xbf80_0000;

/// The bit of a float that holds its sign.
pub const SIGN_BIT: u32 = 0x8000_0000;

/// Field of view of an eye: the tangents towards each side, as the bits of 32-bit floats.
#[derive(Clone, Copy, Debug, PartialEq, Eq, Structural)]
pub struct Fov {
    pub left: u32,
    pub right: u32,
    pub up: u32,
    pub down: u32,
}

impl Fov {
    /// One in every direction.
    pub open spec fn unit() -> Self {
        Fov { left: MINUS_ONE_BITS, right: ONE_BITS, up: ONE_BITS, down: MINUS_ONE_BITS }
    }
}

impl Default for Fov {
    fn default() -> (fov: Self)
        ensures
            fov == Fov::unit(),
    {
        Fov { left: MINUS_ONE_BITS, right: ONE_BITS, up: ONE_BITS, down: MINUS_ONE_BITS }
    }
}

/// The view of both eyes. The distance between them is the bits of a 32-bit float.
#[derive(Clone, Copy, Debug, PartialEq, Eq, Structural)]
pub struct ViewsConfig {
    pub ipd_m: u32,
    pub left_fov: Fov,
    pub right_fov: Fov,
}

/// A view and the number by which a change of it is noticed.
#[derive(Clone, Copy, Debug, PartialEq, Eq, Structural)]
pub struct VersionedViewsConfig {
    pub version: u64,
    pub config: ViewsConfig,
}

/// The view before the headset reports its own.
pub open spec fn assumed_views() -> ViewsConfig {
    ViewsConfig { ipd_m: ALVR_DEFAULT_IPD_BITS, left_fov: Fov::unit(), right_fov: Fov::unit() }
}

/// The view before the headset reports its own.
pub fn default_views_config() -> (config: ViewsConfig)
    ensures
        config == assumed_views(),
{
    ViewsConfig {
        ipd_m: ALVR_DEFAULT_IPD_BITS,
        left_fov: Fov::default(),
        right_fov: Fov::default(),
    }
}

/// The number of the next view. Zero is never used.
pub open spec fn next_version(state: Option<VersionedViewsConfig>) -> u64 {
    match state {
        Some(state) => if state.version == u64::MAX {
            1
        } else {
            (state.version + 1) as u64
        },
        None => 1,
    }
}

/// The view that holds.
pub open spec fn current_views(state: Option<VersionedViewsConfig>) -> ViewsConfig {
    match state {
        Some(state) => state.config,
        None => assumed_views(),
    }
}

/// The view that was reported last, where one was.
pub fn latest_alvr_views_config(state: &Option<VersionedViewsConfig>) -> (latest: Option<
    VersionedViewsConfig,
>)
    ensures
        latest == *state,
{
    *state
}

/// The view that holds.
pub fn current_alvr_views_config(state: &Option<VersionedViewsConfig>) -> (config: ViewsConfig)
    ensures
        config == current_views(*state),
{
    match state {
        Some(state) => state.config,
        None => default_views_config(),
    }
}

/// Takes over a view, under the next number.
pub fn publish_views_config(state: &mut Option<VersionedViewsConfig>, config: ViewsConfig) -> (
version: u64)
    ensures
        version == next_version(*old(state)),
        *final(state) == Some((VersionedViewsConfig { version, config })),
{
    let version: u64 = match state {
        Some(state) => {
            let next: u64 = state.version.wrapping_add(1);
            if next < 1 {
                1
            } else {
                next
            }
        },
        None => 1,
    };
    *state = Some(VersionedViewsConfig { version, config });
    version
}

/// Takes over a distance between the eyes, under the next number. The field of view stays.
pub fn publish_ipd(state: &mut Option<VersionedViewsConfig>, ipd_m: u32) -> (version: u64)
    ensures
        version == next_version(*old(state)),
        *final(state) == Some(
            (VersionedViewsConfig {
                version,
                config: ViewsConfig { ipd_m, ..current_views(*old(state)) },
            }),
        ),
{
    let mut config = current_alvr_views_config(state);
    config.ipd_m = ipd_m;
    publish_views_config(state, config)
}

/// The view of one eye: no rotation, an offset to the side, and its field of view.
pub open spec fn eye_params(offset: u32, fov: Fov) -> Seq<u32> {
    seq![0u32, 0, 0, ONE_BITS, offset, 0, 0, fov.left, fov.right, fov.up, fov.down]
}

fn eye_view_params(offset: u32, fov: Fov) -> (params: [u32; 11])
    ensures
        params@ == eye_params(offset, fov),
{
    let params = [0u32, 0, 0, ONE_BITS, offset, 0, 0, fov.left, fov.right, fov.up, fov.down];
    assert(params@ =~= eye_params(offset, fov));
    params
}

/// The views that the server is sent: each eye half the distance from the middle, the left one
/// on the negative side. `half_ipd_m` is the bits of that half.
pub fn views_config_to_local_view_params(config: &ViewsConfig, half_ipd_m: u32) -> (params: [[u32;
    11]; 2])
    ensures
        params@.len() == 2,
        params@[0]@ == eye_params(half_ipd_m ^ SIGN_BIT, config.left_fov),
        params@[1]@ == eye_params(half_ipd_m, config.right_fov),
{
    [
        eye_view_params(half_ipd_m ^ SIGN_BIT, config.left_fov),
        eye_view_params(half_ipd_m, config.right_fov),
    ]
}

/// Every publication changes the number of the view, so none goes unnoticed, and the number is
/// never zero.
pub proof fn law_versions_change(state: Option<VersionedViewsConfig>)
    ensures
        next_version(state) != 0,
        state is Some ==> next_version(state) != state->0.version,
{
}

// ---------------------------------------------------------------------------
// What the headset reports
// ---------------------------------------------------------------------------

/// Bits of the float 0.05, the smallest distance between the eyes, in metres.
pub const SMALLEST_IPD_BITS: u32 = 0x3d4c_cccd;

/// Bits of the float 0.08, the largest distance between the eyes, in metres.
pub const LARGEST_IPD_BITS: u32 = 0x3da3_d70a;

/// Bits of the float 0.01, the smallest tangent of half a field of view.
pub const SMALLEST_TANGENT_BITS: u32 = 0x3c23_d70a;

/// Bits of the float 8, the largest tangent of half a field of view.
pub const LARGEST_TANGENT_BITS: u32 = 0x4100_0000;

/// A distance between the eyes as the headset reports it, as the bits of a float.
#[derive(Clone, Copy, Debug, PartialEq, Eq, Structural)]
pub enum IpdReading {
    /// In metres, in the range of eyes.
    Metres(u32),
    /// In millimetres, still to be converted.
    Millimetres(u32),
}

/// What a reported number says of the distance between the eyes: above one it is in millimetres.
pub open spec fn ipd_reading(raw_ipd: u32) -> Option<IpdReading> {
    if !is_finite_float(raw_ipd) || !float_greater(raw_ipd, 0) {
        None
    } else if float_greater(raw_ipd, ONE_BITS) {
        Some(IpdReading::Millimetres(raw_ipd))
    } else {
        Some(IpdReading::Metres(clamped(raw_ipd, SMALLEST_IPD_BITS, LARGEST_IPD_BITS)))
    }
}

/// Decides what a reported number says of the distance between the eyes.
pub fn normalize_pimax_ipd_m(raw_ipd: u32) -> (reading: Option<IpdReading>)
    ensures
        reading == ipd_reading(raw_ipd),
{
    if !is_finite(raw_ipd) || !is_greater(raw_ipd, 0) {
        None
    } else if is_greater(raw_ipd, ONE_BITS) {
        Some(IpdReading::Millimetres(raw_ipd))
    } else {
        Some(IpdReading::Metres(clamp_ipd(raw_ipd)))
    }
}

/// Brings a distance in metres into the range of eyes.
pub fn clamp_ipd(ipd_m: u32) -> (result: u32)
    ensures
        result == clamped(ipd_m, SMALLEST_IPD_BITS, LARGEST_IPD_BITS),
{
    clamp_float(ipd_m, SMALLEST_IPD_BITS, LARGEST_IPD_BITS)
}

/// Whether a distance between the eyes was reported yet.
pub open spec fn is_known_ipd(physical_m: u32) -> bool {
    is_finite_float(physical_m) && float_greater(physical_m, 0)
}

/// What `physical_m` becomes when a distance is reported: a distance in millimetres is converted
/// by `to_metres` first. Whatever cannot be one leaves it as it was.
pub open spec fn is_physical_after<M: Fn(u32) -> u32>(
    to_metres: M,
    before: u32,
    raw_ipd: u32,
    after: u32,
) -> bool {
    match ipd_reading(raw_ipd) {
        None => after == before,
        Some(IpdReading::Metres(bits)) => after == bits,
        Some(IpdReading::Millimetres(bits)) => exists|metres: u32| #[trigger]
            call_ensures(to_metres, (bits,), metres) && after == clamped(
                metres,
                SMALLEST_IPD_BITS,
                LARGEST_IPD_BITS,
            ),
    }
}

/// The view after a distance was published: `scale` was applied to the physical distance, once.
pub open spec fn is_scaled_view<S: Fn(u32) -> u32>(
    scale: S,
    physical_m: u32,
    before: Option<VersionedViewsConfig>,
    after: Option<VersionedViewsConfig>,
) -> bool {
    &&& after is Some
    &&& call_ensures(scale, (physical_m,), after->0.config.ipd_m)
    &&& after->0.version == next_version(before)
    &&& after->0.config == (ViewsConfig {
        ipd_m: after->0.config.ipd_m,
        ..current_views(before)
    })
}

/// Takes over the distance between the eyes that the headset reports, and publishes it scaled.
/// The physical distance is kept as it was reported. Returns the number of the new view, or
/// nothing where the report makes no sense.
pub fn update_alvr_ipd_from_pimax<M: Fn(u32) -> u32, S: Fn(u32) -> u32>(
    state: &mut Option<VersionedViewsConfig>,
    physical_m: &mut u32,
    raw_ipd: u32,
    to_metres: &M,
    scale: &S,
) -> (version: Option<u64>)
    requires
        forall|bits: u32| call_requires(to_metres, (bits,)),
        forall|bits: u32| call_requires(scale, (bits,)),
    ensures
        is_physical_after(*to_metres, *old(physical_m), raw_ipd, *final(physical_m)),
        match version {
            None => ipd_reading(raw_ipd) is None && *final(state) == *old(state),
            Some(version) => {
                &&& ipd_reading(raw_ipd) is Some
                &&& is_scaled_view(*scale, *final(physical_m), *old(state), *final(state))
                &&& version == next_version(*old(state))
            },
        },
{
    let ipd_m: u32 = match normalize_pimax_ipd_m(raw_ipd) {
        None => {
            return None;
        },
        Some(IpdReading::Metres(bits)) => bits,
        Some(IpdReading::Millimetres(bits)) => clamp_ipd(to_metres(bits)),
    };
    *physical_m = ipd_m;
    Some(publish_ipd(state, scale(ipd_m)))
}

/// Publishes the distance between the eyes with a new scale. Where none was reported yet, nothing
/// changes.
pub fn notify_ipd_scale_changed<S: Fn(u32) -> u32>(
    state: &mut Option<VersionedViewsConfig>,
    physical_m: u32,
    scale: &S,
) -> (version: Option<u64>)
    requires
        forall|bits: u32| call_requires(scale, (bits,)),
    ensures
        match version {
            None => !is_known_ipd(physical_m) && *final(state) == *old(state),
            Some(version) => {
                &&& is_known_ipd(physical_m)
                &&& is_scaled_view(*scale, physical_m, *old(state), *final(state))
                &&& version == next_version(*old(state))
            },
        },
{
    if !is_greater(physical_m, 0) || !is_finite(physical_m) {
        return None;
    }
    Some(publish_ipd(state, scale(physical_m)))
}

/// The scale is applied once: publishing the same distance with the same scale again gives the
/// same distance, under a new number, and leaves the fields of view alone.
pub proof fn law_ipd_is_scaled_once<S: Fn(u32) -> u32>(
    scale: S,
    physical_m: u32,
    first: Option<VersionedViewsConfig>,
    second: Option<VersionedViewsConfig>,
    third: Option<VersionedViewsConfig>,
)
    requires
        is_scaled_view(scale, physical_m, first, second),
        is_scaled_view(scale, physical_m, second, third),
        forall|one: u32, other: u32|
            call_ensures(scale, (physical_m,), one) && call_ensures(scale, (physical_m,), other)
                ==> one == other,
    ensures
        third->0.config == second->0.config,
        second->0.config.left_fov == current_views(first).left_fov,
        second->0.config.right_fov == current_views(first).right_fov,
        third->0.version != second->0.version,
{
}

/// Whether a field of view makes sense: both angles are finite and greater than zero.
pub fn accepts_field_of_view(fov_x_rad: u32, fov_y_rad: u32) -> (accepted: bool)
    ensures
        accepted == (is_finite_float(fov_x_rad) && is_finite_float(fov_y_rad) && float_greater(
            fov_x_rad,
            0,
        ) && float_greater(fov_y_rad, 0)),
{
    is_finite(fov_x_rad) && is_finite(fov_y_rad) && is_greater(fov_x_rad, 0) && is_greater(
        fov_y_rad,
        0,
    )
}

/// A field of view that reaches equally far to either side.
pub open spec fn symmetric_fov(horizontal_tan: u32, vertical_tan: u32) -> Fov {
    let horizontal = clamped(horizontal_tan, SMALLEST_TANGENT_BITS, LARGEST_TANGENT_BITS);
    let vertical = clamped(vertical_tan, SMALLEST_TANGENT_BITS, LARGEST_TANGENT_BITS);
    Fov {
        left: negated(horizontal),
        right: horizontal,
        up: vertical,
        down: negated(vertical),
    }
}

/// Takes over the field of view that the headset reports, the same for both eyes. The distance
/// between the eyes stays. Returns the number of the new view.
pub fn publish_field_of_view(
    state: &mut Option<VersionedViewsConfig>,
    ipd_m: u32,
    horizontal_tan: u32,
    vertical_tan: u32,
) -> (version: u64)
    ensures
        version == next_version(*old(state)),
        *final(state) == Some(
            (VersionedViewsConfig {
                version,
                config: ViewsConfig {
                    ipd_m: match *old(state) {
                        Some(latest) => latest.config.ipd_m,
                        None => ipd_m,
                    },
                    left_fov: symmetric_fov(horizontal_tan, vertical_tan),
                    right_fov: symmetric_fov(horizontal_tan, vertical_tan),
                },
            }),
        ),
{
    let horizontal: u32 = clamp_float(horizontal_tan, SMALLEST_TANGENT_BITS, LARGEST_TANGENT_BITS);
    let vertical: u32 = clamp_float(vertical_tan, SMALLEST_TANGENT_BITS, LARGEST_TANGENT_BITS);
    let fov = Fov {
        left: negate(horizontal),
        right: horizontal,
        up: vertical,
        down: negate(vertical),
    };
    let kept: u32 = match *state {
        Some(latest) => latest.config.ipd_m,
        None => ipd_m,
    };
    publish_views_config(state, ViewsConfig { ipd_m: kept, left_fov: fov, right_fov: fov })
}

// ---------------------------------------------------------------------------
// Laws
// ---------------------------------------------------------------------------

/// A field of view reaches equally far to either side and equally far up and down: the horizontal
/// tangent gives the sides, the vertical one the heights. Tangents between 0.01 and 8 are taken as
/// they are, others are brought into that range.
pub proof fn law_fields_of_view_are_symmetric(horizontal_tan: u32, vertical_tan: u32)
    ensures
        ({
            let fov = symmetric_fov(horizontal_tan, vertical_tan);
            &&& fov.left == negated(fov.right)
            &&& fov.down == negated(fov.up)
            &&& 0x3c23_d70a <= fov.right <= 0x4100_0000
            &&& 0x3c23_d70a <= fov.up <= 0x4100_0000
            &&& 0x3c23_d70a <= horizontal_tan <= 0x4100_0000 ==> fov.right == horizontal_tan
            &&& 0x3c23_d70a <= vertical_tan <= 0x4100_0000 ==> fov.up == vertical_tan
        }),
{
}

/// The server is sent the left eye first. Each eye looks straight ahead with its own field of
/// view, half the distance from the middle: the left eye to the negative side, the right eye to
/// the positive one.
pub proof fn law_eyes_stand_on_their_own_side(
    config: ViewsConfig,
    half_ipd_m: u32,
    params: [[u32; 11]; 2],
)
    requires
        call_ensures(views_config_to_local_view_params, (&config, half_ipd_m), params),
        half_ipd_m < 0x8000_0000,
    ensures
        ({
            let left = params@[0]@;
            let right = params@[1]@;
            &&& left[4] == 0x8000_0000 + half_ipd_m
            &&& right[4] == half_ipd_m
            &&& left[7] == config.left_fov.left && left[8] == config.left_fov.right
            &&& left[9] == config.left_fov.up && left[10] == config.left_fov.down
            &&& right[7] == config.right_fov.left && right[8] == config.right_fov.right
            &&& right[9] == config.right_fov.up && right[10] == config.right_fov.down
            &&& forall|eye: Seq<u32>|
                #![trigger eye.len()]
                eye == left || eye == right ==> eye.len() == 11 && eye[0] == 0 && eye[1] == 0
                    && eye[2] == 0 && eye[3] == 0x3f80_0000 && eye[5] == 0 && eye[6] == 0
        }),
{
    assert(half_ipd_m ^ 0x8000_0000 == 0x8000_0000 + half_ipd_m) by (bit_vector)
        requires
            half_ipd_m < 0x8000_0000,
    ;
}

/// A distance between the eyes up to one is in metres, and brought between five and eight
/// centimetres. A larger one is in millimetres. Nothing, less than nothing and what is no number
/// are no distance.
pub proof fn law_distances_are_told_by_their_size(raw_ipd: u32)
    ensures
        0x3d4c_cccd <= raw_ipd <= 0x3da3_d70a ==> ipd_reading(raw_ipd) == Some(
            IpdReading::Metres(raw_ipd),
        ),
        0 < raw_ipd < 0x3d4c_cccd ==> ipd_reading(raw_ipd) == Some(
            IpdReading::Metres(0x3d4c_cccd),
        ),
        0x3da3_d70a < raw_ipd <= 0x3f80_0000 ==> ipd_reading(raw_ipd) == Some(
            IpdReading::Metres(0x3da3_d70a),
        ),
        0x3f80_0000 < raw_ipd < 0x7f80_0000 ==> ipd_reading(raw_ipd) == Some(
            IpdReading::Millimetres(raw_ipd),
        ),
        raw_ipd == 0 || raw_ipd >= 0x7f80_0000 ==> ipd_reading(raw_ipd) is None,
{
}

/// The distance that is kept stays in the range of eyes, whatever is reported and however it is
/// converted, once it was in that range. A report that makes no sense leaves it alone.
pub proof fn law_physical_distance_stays_in_range<M: Fn(u32) -> u32>(
    to_metres: M,
    before: u32,
    raw_ipd: u32,
    after: u32,
)
    requires
        is_physical_after(to_metres, before, raw_ipd, after),
    ensures
        raw_ipd == 0 || raw_ipd >= 0x7f80_0000 ==> after == before,
        0 < raw_ipd < 0x7f80_0000 || 0x3d4c_cccd <= before <= 0x3da3_d70a ==> 0x3d4c_cccd <= after
            <= 0x3da3_d70a,
        0x3d4c_cccd <= raw_ipd <= 0x3da3_d70a ==> after == raw_ipd,
{
}

/// Every publication counts on: the first view has number one, and each view the number after the
/// last.
pub proof fn law_versions_count_on(version: u64, config: ViewsConfig)
    ensures
        next_version(None) == 1,
        version < u64::MAX ==> next_version(Some(VersionedViewsConfig { version, config }))
            == version + 1,
        next_version(Some(VersionedViewsConfig { version: u64::MAX, config })) == 1,
{
}

/// Before the headset reports anything, the eyes are 64 millimetres apart and see one in every
/// direction. Once there is a view, it holds.
pub proof fn law_reported_views_hold(state: VersionedViewsConfig)
    ensures
        current_views(Some(state)) == state.config,
        current_views(None).ipd_m == 0x3d83_126f,
        current_views(None).left_fov == current_views(None).right_fov,
        current_views(None).left_fov == (Fov {
            left: 0xbf80_0000,
            right: 0x3f80_0000,
            up: 0x3f80_0000,
            down: 0xbf80_0000,
        }),
{
}

/// Both angles of a field of view have to be positive and finite.
pub proof fn law_empty_fields_of_view_are_refused(fov_x_rad: u32, fov_y_rad: u32, accepted: bool)
    requires
        call_ensures(accepts_field_of_view, (fov_x_rad, fov_y_rad), accepted),
    ensures
        accepted <==> 0 < fov_x_rad < 0x7f80_0000 && 0 < fov_y_rad < 0x7f80_0000,
{
}

/// Each view that is published gets the next number and holds from then on.
pub proof fn law_published_views_hold(config: ViewsConfig, version: u64)
    ensures
        forall|state: &mut Option<VersionedViewsConfig>| #[trigger]
            call_ensures(publish_views_config, (state, config), version) ==> {
                &&& *final(state) == Some((VersionedViewsConfig { version, config }))
                &&& *state is None ==> version == 1
                &&& *state is Some && (*state)->0.version < u64::MAX ==> version
                    == (*state)->0.version + 1
            },
{
}

/// A new distance between the eyes leaves what they see as it was.
pub proof fn law_new_distance_keeps_the_fields_of_view(ipd_m: u32, version: u64)
    ensures
        forall|state: &mut Option<VersionedViewsConfig>| #[trigger]
            call_ensures(publish_ipd, (state, ipd_m), version) ==> {
                &&& *final(state) is Some
                &&& (*final(state))->0.version == version
                &&& (*final(state))->0.config.ipd_m == ipd_m
                &&& *state is Some ==> {
                    &&& (*final(state))->0.config.left_fov == (*state)->0.config.left_fov
                    &&& (*final(state))->0.config.right_fov == (*state)->0.config.right_fov
                    &&& (*state)->0.version < u64::MAX ==> version == (*state)->0.version + 1
                }
            },
{
}

/// A new field of view leaves the distance between the eyes as it was. Both eyes see the same:
/// as much to the left as to the right, and as much up as down.
pub proof fn law_new_field_of_view_keeps_the_distance(
    ipd_m: u32,
    horizontal_tan: u32,
    vertical_tan: u32,
    version: u64,
)
    ensures
        forall|state: &mut Option<VersionedViewsConfig>| #[trigger]
            call_ensures(
                publish_field_of_view,
                (state, ipd_m, horizontal_tan, vertical_tan),
                version,
            ) ==> {
                &&& *final(state) is Some
                &&& (*final(state))->0.version == version
                &&& *state is None ==> (*final(state))->0.config.ipd_m == ipd_m
                &&& *state is Some ==> (*final(state))->0.config.ipd_m == (*state)->0.config.ipd_m
                &&& (*final(state))->0.config.left_fov == (*final(state))->0.config.right_fov
                &&& (*final(state))->0.config.left_fov.right == clamped(
                    horizontal_tan,
                    0x3c23_d70a,
                    0x4100_0000,
                )
                &&& (*final(state))->0.config.left_fov.up == clamped(
                    vertical_tan,
                    0x3c23_d70a,
                    0x4100_0000,
                )
            },
{
}

/// A new scale changes the distance that is published, as soon as a physical one is known, and
/// nothing else.
pub proof fn law_new_scale_is_published<S: Fn(u32) -> u32>(
    scale: S,
    physical_m: u32,
    version: Option<u64>,
)
    ensures
        forall|state: &mut Option<VersionedViewsConfig>| #[trigger]
            call_ensures(notify_ipd_scale_changed::<S>, (state, physical_m, &scale), version) ==> {
                &&& version is Some <==> 0 < physical_m < 0x7f80_0000
                &&& version is None ==> *final(state) == *state
                &&& version is Some ==> {
                    &&& *final(state) is Some
                    &&& (*final(state))->0.version == version->0
                    &&& call_ensures(scale, (physical_m,), (*final(state))->0.config.ipd_m)
                    &&& *state is Some ==> (*final(state))->0.config.left_fov
                        == (*state)->0.config.left_fov && (*final(state))->0.config.right_fov
                        == (*state)->0.config.right_fov
                }
            },
{
}

/// A distance that the headset reports in metres is kept as it is and published scaled.
pub proof fn law_reported_distance_is_published<M: Fn(u32) -> u32, S: Fn(u32) -> u32>(
    to_metres: M,
    scale: S,
    raw_ipd: u32,
    version: Option<u64>,
)
    ensures
        forall|state: &mut Option<VersionedViewsConfig>, physical: &mut u32| #[trigger]
            call_ensures(
                update_alvr_ipd_from_pimax::<M, S>,
                (state, physical, raw_ipd, &to_metres, &scale),
                version,
            ) ==> {
                &&& version is None ==> *final(state) == *state && *final(physical) == *physical
                &&& version is Some ==> {
                    &&& *final(state) is Some
                    &&& (*final(state))->0.version == version->0
                    &&& call_ensures(scale, (*final(physical),), (*final(state))->0.config.ipd_m)
                    &&& *state is Some ==> (*final(state))->0.config.left_fov
                        == (*state)->0.config.left_fov
                }
                &&& ipd_reading(raw_ipd) == Some(IpdReading::Metres(raw_ipd)) ==> version is Some
                    && *final(physical) == raw_ipd
            },
{
}

/// A distance in metres is kept within its range, one in millimetres is still to be converted, and
/// what is no distance is none. Before any is known, 64 millimetres are assumed.
pub proof fn law_distances_are_read_by_their_size(
    raw_ipd: u32,
    reading: Option<IpdReading>,
    assumed: ViewsConfig,
)
    requires
        call_ensures(normalize_pimax_ipd_m, (raw_ipd,), reading),
        call_ensures(default_views_config, (), assumed),
    ensures
        0x3d4c_cccd <= raw_ipd <= 0x3da3_d70a ==> reading == Some(IpdReading::Metres(raw_ipd)),
        0x3f80_0000 < raw_ipd < 0x7f80_0000 ==> reading == Some(IpdReading::Millimetres(raw_ipd)),
        raw_ipd == 0 || raw_ipd >= 0x7f80_0000 ==> reading is None,
        assumed.ipd_m == 0x3d83_126f,
{
    law_distances_are_told_by_their_size(raw_ipd);
}

/// What holds is what was published last.
pub proof fn law_last_views_are_given_out(
    state: Option<VersionedViewsConfig>,
    latest: Option<VersionedViewsConfig>,
    current: ViewsConfig,
)
    requires
        call_ensures(latest_alvr_views_config, (&state,), latest),
        call_ensures(current_alvr_views_config, (&state,), current),
    ensures
        latest == state,
        state is Some ==> current == state->0.config,
        state is None ==> current.ipd_m == 0x3d83_126f,
{
}

} // verus!
