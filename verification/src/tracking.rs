//! Head and hands, as they are sent to the server.

use vstd::prelude::*;

use crate::controller::{
    build_controller_device_motions, hand_motion, law_motions_name_their_hand, ControllerSnapshot,
    DeviceMotion, Pose, SingleControllerState, LEFT_HAND_PATH, ONE_BITS, RIGHT_HAND_PATH,
};
use crate::protocol::{hash_of, hash_string};

verus! {

/// Device path of the head.
pub const ALVR_HEAD_PATH: &'static str = "/user/head";

/// Time between two reports, in nanoseconds: more than ninety reports go out each second.
pub const ALVR_TRACKING_SEND_INTERVAL_NS: u64 = 11_111_000;

/// Longest time without looking whether the session ends, in nanoseconds.
pub const TRACKING_PAUSE_LIMIT_NS: u64 = 5_000_000;

/// Pose of the head and the time it was measured for. Floats are carried as their bits.
#[derive(Clone, Copy, Debug, PartialEq, Eq)]
pub struct AlvrHeadTrackingPose {
    pub orientation: [u32; 4],
    pub position: [u32; 3],
    pub timestamp_ns: u128,
}

/// Takes over a pose of the head.
pub fn update_head_tracking_pose(
    latest: &mut Option<AlvrHeadTrackingPose>,
    pose: AlvrHeadTrackingPose,
)
    ensures
        *final(latest) == Some(pose),
{
    *latest = Some(pose);
}

/// A report of all devices for one frame.
#[derive(Clone, Debug, PartialEq, Eq)]
pub struct TrackingReport {
    pub poll_timestamp_ns: u128,
    pub device_motions: Vec<(u64, DeviceMotion)>,
}

/// The motion of a head that is only known by its pose.
pub open spec fn is_head_motion(
    motion: DeviceMotion,
    pose: Option<AlvrHeadTrackingPose>,
) -> bool {
    &&& match pose {
        Some(pose) => motion.pose.orientation == pose.orientation && motion.pose.position
            == pose.position,
        None => motion.pose.orientation@ == seq![0u32, 0, 0, ONE_BITS]
            && motion.pose.position@ == seq![0u32, 0, 0],
    }
    &&& motion.linear_velocity@ == seq![0u32, 0, 0]
    &&& motion.angular_velocity@ == seq![0u32, 0, 0]
}

/// Builds a report: the head, then the hands that count. A head that was not measured looks ahead,
/// at the time `fallback_ns`.
pub fn build_tracking_report(
    pose: Option<AlvrHeadTrackingPose>,
    fallback_ns: u128,
    snapshot: &ControllerSnapshot,
    now_ns: u64,
) -> (report: TrackingReport)
    ensures
        report.poll_timestamp_ns == match pose {
            Some(pose) => pose.timestamp_ns,
            None => fallback_ns,
        },
        report.device_motions@.len() >= 1,
        report.device_motions@[0].0 == hash_of(ALVR_HEAD_PATH@),
        is_head_motion(report.device_motions@[0].1, pose),
        report.device_motions@.skip(1) == hand_motion(LEFT_HAND_PATH@, snapshot.left, now_ns)
            + hand_motion(RIGHT_HAND_PATH@, snapshot.right, now_ns),
{
    let (head_pose, poll_timestamp_ns): (Pose, u128) = match pose {
        Some(pose) => (
            Pose { orientation: pose.orientation, position: pose.position },
            pose.timestamp_ns,
        ),
        None => (Pose::default(), fallback_ns),
    };
    let mut motion = DeviceMotion::default();
    motion.pose = head_pose;
    let mut device_motions: Vec<(u64, DeviceMotion)> = Vec::with_capacity(3);
    device_motions.push((hash_string(ALVR_HEAD_PATH), motion));
    let mut hands: Vec<(u64, DeviceMotion)> = build_controller_device_motions(snapshot, now_ns);
    let ghost hand_motions = hands@;
    device_motions.append(&mut hands);
    assert(device_motions@.skip(1) =~= hand_motions);
    TrackingReport { poll_timestamp_ns, device_motions }
}

/// When the next report is due, and how many were sent.
#[derive(Clone, Copy, Debug, PartialEq, Eq, Structural)]
pub struct TrackingSchedule {
    pub next_send_ns: u64,
    pub packet_index: u32,
    pub sent_packets: u64,
}

/// What to do now.
#[derive(Clone, Copy, Debug, PartialEq, Eq, Structural)]
pub enum TrackingStep {
    /// Wait so long, in nanoseconds.
    Wait(u64),
    /// Send a report.
    Send,
}

/// A time later by one interval, as far as the clock reaches.
pub open spec fn interval_after(time_ns: u64) -> u64 {
    if time_ns + ALVR_TRACKING_SEND_INTERVAL_NS > u64::MAX {
        u64::MAX
    } else {
        (time_ns + ALVR_TRACKING_SEND_INTERVAL_NS) as u64
    }
}

/// When a report is due after one that was due at `due_ns` and sent until `sent_ns`: an interval
/// later, or an interval from now where that time has passed.
pub open spec fn next_due(due_ns: u64, sent_ns: u64) -> u64 {
    if interval_after(due_ns) <= sent_ns {
        interval_after(sent_ns)
    } else {
        interval_after(due_ns)
    }
}

impl TrackingSchedule {
    /// The first report is due at once.
    pub fn new(now_ns: u64) -> (schedule: Self)
        ensures
            schedule == (TrackingSchedule {
                next_send_ns: now_ns,
                packet_index: 0,
                sent_packets: 0,
            }),
    {
        TrackingSchedule { next_send_ns: now_ns, packet_index: 0, sent_packets: 0 }
    }

    /// Decides whether to send or to wait. It waits only so long that the end of the session is
    /// noticed in time.
    pub fn step(&self, now_ns: u64) -> (step: TrackingStep)
        ensures
            step == if now_ns < self.next_send_ns {
                if self.next_send_ns - now_ns < TRACKING_PAUSE_LIMIT_NS {
                    TrackingStep::Wait((self.next_send_ns - now_ns) as u64)
                } else {
                    TrackingStep::Wait(TRACKING_PAUSE_LIMIT_NS)
                }
            } else {
                TrackingStep::Send
            },
    {
        if now_ns < self.next_send_ns {
            let left_ns: u64 = self.next_send_ns - now_ns;
            if left_ns < TRACKING_PAUSE_LIMIT_NS {
                TrackingStep::Wait(left_ns)
            } else {
                TrackingStep::Wait(TRACKING_PAUSE_LIMIT_NS)
            }
        } else {
            TrackingStep::Send
        }
    }

    /// Notes that a report was sent.
    pub fn sent(&mut self, after_send_ns: u64)
        ensures
            *final(self) == (TrackingSchedule {
                next_send_ns: next_due(old(self).next_send_ns, after_send_ns),
                packet_index: old(self).packet_index.wrapping_add(1),
                sent_packets: old(self).sent_packets.wrapping_add(1),
            }),
    {
        self.packet_index = self.packet_index.wrapping_add(1);
        self.sent_packets = self.sent_packets.wrapping_add(1);
        self.next_send_ns = self.next_send_ns.saturating_add(ALVR_TRACKING_SEND_INTERVAL_NS);
        if self.next_send_ns <= after_send_ns {
            self.next_send_ns = after_send_ns.saturating_add(ALVR_TRACKING_SEND_INTERVAL_NS);
        }
    }
}

/// After a report the next one lies ahead, so reports that were missed are not made up for. A
/// sender that keeps up sends at even intervals.
pub proof fn law_reports_do_not_pile_up(due_ns: u64, sent_ns: u64)
    requires
        due_ns <= sent_ns,
        sent_ns + ALVR_TRACKING_SEND_INTERVAL_NS <= u64::MAX,
    ensures
        next_due(due_ns, sent_ns) > sent_ns,
        next_due(due_ns, sent_ns) <= sent_ns + ALVR_TRACKING_SEND_INTERVAL_NS,
        sent_ns < due_ns + ALVR_TRACKING_SEND_INTERVAL_NS ==> next_due(due_ns, sent_ns) == due_ns
            + ALVR_TRACKING_SEND_INTERVAL_NS,
{
}

/// When a report is due, where each of `count` reports before it was sent when it was due.
pub open spec fn due_after(start_ns: u64, count: nat) -> u64
    decreases count,
{
    if count == 0 {
        start_ns
    } else {
        let due_ns = due_after(start_ns, (count - 1) as nat);
        next_due(due_ns, due_ns)
    }
}

/// A sender that keeps up sends at least ninety reports each second.
pub proof fn law_head_is_reported_ninety_times_a_second(start_ns: u64, count: nat)
    ensures
        90 * (due_after(start_ns, count) - start_ns) <= 1_000_000_000 * count,
    decreases count,
{
    if count > 0 {
        law_head_is_reported_ninety_times_a_second(start_ns, (count - 1) as nat);
    }
}

/// A report starts with the head, under the hash of its path: with its measured pose at the time
/// it was measured for, or looking straight ahead at the given time. The head reports no velocity.
pub proof fn law_reports_start_with_the_head(
    pose: Option<AlvrHeadTrackingPose>,
    fallback_ns: u128,
    snapshot: ControllerSnapshot,
    now_ns: u64,
    report: TrackingReport,
)
    requires
        call_ensures(build_tracking_report, (pose, fallback_ns, &snapshot, now_ns), report),
    ensures
        ({
            let (id, motion) = report.device_motions@[0];
            &&& id == hash_of("/user/head"@)
            &&& pose matches Some(measured) ==> {
                &&& report.poll_timestamp_ns == measured.timestamp_ns
                &&& motion.pose.orientation == measured.orientation
                &&& motion.pose.position == measured.position
            }
            &&& pose is None ==> {
                &&& report.poll_timestamp_ns == fallback_ns
                &&& motion.pose.orientation@ == seq![0u32, 0, 0, 0x3f80_0000]
                &&& motion.pose.position@ == seq![0u32, 0, 0]
            }
            &&& forall|i: int|
                0 <= i < 3 ==> #[trigger] motion.linear_velocity@[i] == 0
            &&& forall|i: int|
                0 <= i < 3 ==> #[trigger] motion.angular_velocity@[i] == 0
        }),
{
}

/// Behind the head a report holds the motion of each hand that counts and has one, the left hand
/// before the right, and nothing else.
pub proof fn law_reports_hold_the_hands_that_count(
    pose: Option<AlvrHeadTrackingPose>,
    fallback_ns: u128,
    left: SingleControllerState,
    right: SingleControllerState,
    now_ns: u64,
    report: TrackingReport,
)
    requires
        call_ensures(
            build_tracking_report,
            (
                pose,
                fallback_ns,
                &(ControllerSnapshot { left: Some(left), right: Some(right) }),
                now_ns,
            ),
            report,
        ),
    ensures
        ({
            let counts = |state: SingleControllerState|
                state.connected && now_ns < state.last_updated_ns + 500_000_000
                    && state.motion is Some;
            let motions = report.device_motions@;
            &&& counts(left) && counts(right) ==> motions.skip(1) == seq![
                (hash_of("/user/hand/left"@), left.motion->0),
                (hash_of("/user/hand/right"@), right.motion->0),
            ]
            &&& counts(left) && !counts(right) ==> motions.skip(1) == seq![
                (hash_of("/user/hand/left"@), left.motion->0),
            ]
            &&& !counts(left) && counts(right) ==> motions.skip(1) == seq![
                (hash_of("/user/hand/right"@), right.motion->0),
            ]
            &&& !counts(left) && !counts(right) ==> motions.len() == 1
        }),
{
    law_motions_name_their_hand(left, now_ns);
    law_motions_name_their_hand(right, now_ns);
    assert(report.device_motions@.skip(1).len() == report.device_motions@.len() - 1);
}

/// A report goes out as soon as it is due and not before. Until then the sender waits, never past
/// the time that it is due and never more than five milliseconds at once.
pub proof fn law_reports_go_out_when_due(
    schedule: TrackingSchedule,
    now_ns: u64,
    step: TrackingStep,
)
    requires
        call_ensures(TrackingSchedule::step, (&schedule, now_ns), step),
    ensures
        step == TrackingStep::Send <==> now_ns >= schedule.next_send_ns,
        step matches TrackingStep::Wait(wait_ns) ==> {
            &&& 0 < wait_ns <= 5_000_000
            &&& now_ns + wait_ns <= schedule.next_send_ns
            &&& wait_ns == 5_000_000 || now_ns + wait_ns == schedule.next_send_ns
        },
{
}

/// The interval between two reports is a ninetieth of a second, down to the microsecond.
pub proof fn law_interval_is_a_ninetieth(due_ns: u64, sent_ns: u64)
    requires
        due_ns <= sent_ns,
        sent_ns + 11_111_000 <= u64::MAX,
    ensures
        sent_ns < due_ns + 11_111_000 ==> next_due(due_ns, sent_ns) == due_ns + 11_111_000,
        sent_ns >= due_ns + 11_111_000 ==> next_due(due_ns, sent_ns) == sent_ns + 11_111_000,
{
}

/// The newest pose of the head is the one that is kept.
pub proof fn law_newest_pose_is_kept(pose: AlvrHeadTrackingPose)
    ensures
        forall|latest: &mut Option<AlvrHeadTrackingPose>| #[trigger]
            call_ensures(update_head_tracking_pose, (latest, pose), ()) ==> *final(latest) == Some(
                pose,
            ),
{
}

/// Reports start at once, and each that was sent is counted and followed by the next a ninetieth
/// of a second later, unless that time has passed.
pub proof fn law_reports_are_counted(now_ns: u64, after_send_ns: u64, schedule: TrackingSchedule)
    requires
        call_ensures(TrackingSchedule::new, (now_ns,), schedule),
    ensures
        schedule.next_send_ns == now_ns && schedule.packet_index == 0 && schedule.sent_packets == 0,
        forall|schedule: &mut TrackingSchedule| #[trigger]
            call_ensures(TrackingSchedule::sent, (schedule, after_send_ns), ()) ==> {
                &&& (*schedule).packet_index < u32::MAX ==> final(schedule).packet_index
                    == (*schedule).packet_index + 1
                &&& (*schedule).packet_index == u32::MAX ==> final(schedule).packet_index == 0
                &&& (*schedule).sent_packets < u64::MAX ==> final(schedule).sent_packets
                    == (*schedule).sent_packets + 1
                &&& (*schedule).next_send_ns + 11_111_000 <= u64::MAX && after_send_ns
                    < (*schedule).next_send_ns + 11_111_000 ==> final(schedule).next_send_ns
                    == (*schedule).next_send_ns + 11_111_000
            },
{
}

} // verus!
