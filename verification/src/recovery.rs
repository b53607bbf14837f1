//! Recovery of the video stream and of discovery after a disturbance.
//!
//! Times are nanoseconds on one monotonic clock.

use vstd::prelude::*;

verus! {

/// Least time between two requests for a key frame.
pub const ALVR_RUNTIME_IDR_REQUEST_MIN_INTERVAL_NS: u64 = 500_000_000;

/// Least time between a recovery and the next request for one.
pub const ALVR_RUNTIME_VIDEO_RECOVERY_COOLDOWN_NS: u64 = 3_000_000_000;

/// Time after which a started recovery no longer counts as under way.
pub const ALVR_RUNTIME_VIDEO_RECOVERY_TIMEOUT_NS: u64 = 5_000_000_000;

/// Number of announcements that one discovery recovery makes.
pub const ALVR_DISCOVERY_RECOVERY_ATTEMPTS: usize = 30;

/// Pause between two announcements of a discovery recovery.
pub const ALVR_DISCOVERY_RECOVERY_INTERVAL_NS: u64 = 2_000_000_000;

/// Time from `earlier` to `now`; zero where `earlier` lies ahead.
pub open spec fn elapsed(now_ns: u64, earlier_ns: u64) -> int {
    if now_ns < earlier_ns {
        0
    } else {
        now_ns - earlier_ns
    }
}

/// Computes the time from `earlier` to `now`; zero where `earlier` lies ahead.
pub fn elapsed_ns(now_ns: u64, earlier_ns: u64) -> (time_ns: u64)
    ensures
        time_ns == elapsed(now_ns, earlier_ns),
{
    now_ns.saturating_sub(earlier_ns)
}

// ---------------------------------------------------------------------------
// Video stream recovery
// ---------------------------------------------------------------------------

/// Progress of the recovery of a running video stream.
#[derive(Clone, Copy, Debug)]
pub struct RuntimeVideoRecoveryState {
    pub queued: bool,
    pub in_flight: bool,
    pub last_requested_at: Option<u64>,
    pub last_started_at: Option<u64>,
    pub last_completed_at: Option<u64>,
}

impl Default for RuntimeVideoRecoveryState {
    fn default() -> (state: Self)
        ensures
            state == RuntimeVideoRecoveryState::idle(),
    {
        RuntimeVideoRecoveryState {
            queued: false,
            in_flight: false,
            last_requested_at: None,
            last_started_at: None,
            last_completed_at: None,
        }
    }
}

impl RuntimeVideoRecoveryState {
    /// No recovery was ever asked for.
    pub open spec fn idle() -> Self {
        RuntimeVideoRecoveryState {
            queued: false,
            in_flight: false,
            last_requested_at: None,
            last_started_at: None,
            last_completed_at: None,
        }
    }

    /// A started recovery has run longer than the timeout.
    pub open spec fn timed_out(self, now_ns: u64) -> bool {
        self.last_started_at matches Some(started) && elapsed(now_ns, started)
            >= ALVR_RUNTIME_VIDEO_RECOVERY_TIMEOUT_NS
    }

    /// The state once a recovery that timed out is given up.
    pub open spec fn expired(self, now_ns: u64) -> Self {
        if self.timed_out(now_ns) {
            RuntimeVideoRecoveryState {
                queued: false,
                in_flight: false,
                last_started_at: None,
                ..self
            }
        } else {
            self
        }
    }

    /// The time that the cooldown counts from: completion, else request, else start.
    pub open spec fn cooldown_start(self) -> Option<u64> {
        if self.last_completed_at is Some {
            self.last_completed_at
        } else if self.last_requested_at is Some {
            self.last_requested_at
        } else {
            self.last_started_at
        }
    }

    /// The cooldown is still running.
    pub open spec fn cooling_down(self, now_ns: u64) -> bool {
        self.cooldown_start() matches Some(previous) && elapsed(now_ns, previous)
            < ALVR_RUNTIME_VIDEO_RECOVERY_COOLDOWN_NS
    }

    /// Whether a request made now is taken.
    pub open spec fn accepts(self, now_ns: u64) -> bool {
        !self.expired(now_ns).in_flight && !self.expired(now_ns).cooling_down(now_ns)
    }

    /// Whether a queued recovery can start now.
    pub open spec fn startable(self, now_ns: u64) -> bool {
        self.expired(now_ns).queued && !self.expired(now_ns).in_flight
    }

    /// Queues a recovery, unless one is under way or the cooldown is running.
    pub fn queue_if_due(&mut self, now_ns: u64) -> (queued: bool)
        ensures
            queued == old(self).accepts(now_ns),
            *final(self) == if queued {
                (RuntimeVideoRecoveryState {
                    queued: true,
                    last_requested_at: Some(now_ns),
                    ..old(self).expired(now_ns)
                })
            } else {
                old(self).expired(now_ns)
            },
    {
        self.expire_if_timed_out(now_ns);
        if self.in_flight {
            return false;
        }
        let previous: Option<u64> = match (self.last_completed_at, self.last_requested_at) {
            (Some(completed), _) => Some(completed),
            (None, Some(requested)) => Some(requested),
            (None, None) => self.last_started_at,
        };
        if let Some(previous) = previous {
            if elapsed_ns(now_ns, previous) < ALVR_RUNTIME_VIDEO_RECOVERY_COOLDOWN_NS {
                return false;
            }
        }
        self.queued = true;
        self.last_requested_at = Some(now_ns);
        true
    }

    /// Starts the queued recovery, unless one is under way.
    pub fn take_queued(&mut self, now_ns: u64) -> (taken: bool)
        ensures
            taken == old(self).startable(now_ns),
            *final(self) == if taken {
                (RuntimeVideoRecoveryState {
                    queued: false,
                    in_flight: true,
                    last_started_at: Some(now_ns),
                    ..old(self).expired(now_ns)
                })
            } else {
                old(self).expired(now_ns)
            },
    {
        self.expire_if_timed_out(now_ns);
        if !self.queued || self.in_flight {
            return false;
        }
        self.queued = false;
        self.in_flight = true;
        self.last_started_at = Some(now_ns);
        true
    }

    /// Ends the recovery that is under way.
    pub fn mark_completed(&mut self, now_ns: u64) -> (completed: bool)
        ensures
            completed == old(self).expired(now_ns).in_flight,
            *final(self) == if completed {
                (RuntimeVideoRecoveryState {
                    queued: false,
                    in_flight: false,
                    last_completed_at: Some(now_ns),
                    ..old(self).expired(now_ns)
                })
            } else {
                old(self).expired(now_ns)
            },
    {
        self.expire_if_timed_out(now_ns);
        if !self.in_flight {
            return false;
        }
        self.in_flight = false;
        self.queued = false;
        self.last_completed_at = Some(now_ns);
        true
    }

    /// Gives up a recovery that has run longer than the timeout.
    pub fn expire_if_timed_out(&mut self, now_ns: u64)
        ensures
            *final(self) == old(self).expired(now_ns),
    {
        if let Some(started) = self.last_started_at {
            if elapsed_ns(now_ns, started) >= ALVR_RUNTIME_VIDEO_RECOVERY_TIMEOUT_NS {
                self.in_flight = false;
                self.queued = false;
                self.last_started_at = None;
            }
        }
    }

    /// A state with the given flags and times.
    pub fn with_times(
        queued: bool,
        in_flight: bool,
        last_requested_at: Option<u64>,
        last_started_at: Option<u64>,
        last_completed_at: Option<u64>,
    ) -> (state: Self)
        ensures
            state == (RuntimeVideoRecoveryState {
                queued,
                in_flight,
                last_requested_at,
                last_started_at,
                last_completed_at,
            }),
    {
        RuntimeVideoRecoveryState {
            queued,
            in_flight,
            last_requested_at,
            last_started_at,
            last_completed_at,
        }
    }
}

/// The recovery state that the threads of a session share: the raised flag, which the
/// receiver polls, and the progress behind it.
#[derive(Clone, Copy, Debug)]
pub struct RuntimeVideoRecovery {
    pub requested: bool,
    pub state: RuntimeVideoRecoveryState,
}

impl Default for RuntimeVideoRecovery {
    fn default() -> (recovery: Self)
        ensures
            recovery == (RuntimeVideoRecovery {
                requested: false,
                state: RuntimeVideoRecoveryState::idle(),
            }),
    {
        RuntimeVideoRecovery { requested: false, state: RuntimeVideoRecoveryState::default() }
    }
}

/// The shared state after a request.
pub open spec fn after_request(recovery: RuntimeVideoRecovery, now_ns: u64) -> RuntimeVideoRecovery {
    let expired = recovery.state.expired(now_ns);
    if recovery.state.accepts(now_ns) {
        RuntimeVideoRecovery {
            requested: true,
            state: RuntimeVideoRecoveryState {
                queued: true,
                last_requested_at: Some(now_ns),
                ..expired
            },
        }
    } else {
        RuntimeVideoRecovery { requested: recovery.requested, state: expired }
    }
}

/// Whether the receiver is told to recover when it polls.
pub open spec fn delivers(recovery: RuntimeVideoRecovery, now_ns: u64) -> bool {
    recovery.requested && recovery.state.startable(now_ns)
}

/// The shared state after the receiver polled it.
pub open spec fn after_poll(recovery: RuntimeVideoRecovery, now_ns: u64) -> RuntimeVideoRecovery {
    if !recovery.requested {
        recovery
    } else {
        let expired = recovery.state.expired(now_ns);
        RuntimeVideoRecovery {
            requested: false,
            state: if recovery.state.startable(now_ns) {
                RuntimeVideoRecoveryState {
                    queued: false,
                    in_flight: true,
                    last_started_at: Some(now_ns),
                    ..expired
                }
            } else {
                expired
            },
        }
    }
}

/// The shared state after a recovery completed.
pub open spec fn after_completion(recovery: RuntimeVideoRecovery, now_ns: u64) -> RuntimeVideoRecovery {
    let expired = recovery.state.expired(now_ns);
    RuntimeVideoRecovery {
        requested: recovery.requested,
        state: if expired.in_flight {
            RuntimeVideoRecoveryState {
                queued: false,
                in_flight: false,
                last_completed_at: Some(now_ns),
                ..expired
            }
        } else {
            expired
        },
    }
}

/// Asks for a recovery of the running stream. Tells whether the request was taken.
pub fn request_runtime_video_stream_recovery(
    recovery: &mut RuntimeVideoRecovery,
    now_ns: u64,
) -> (queued: bool)
    ensures
        queued == old(recovery).state.accepts(now_ns),
        *final(recovery) == after_request(*old(recovery), now_ns),
{
    let queued = recovery.state.queue_if_due(now_ns);
    if queued {
        recovery.requested = true;
    }
    queued
}

/// Polls for a recovery to start; a request is handed out once.
pub fn take_runtime_video_stream_recovery_request(
    recovery: &mut RuntimeVideoRecovery,
    now_ns: u64,
) -> (taken: bool)
    ensures
        taken == delivers(*old(recovery), now_ns),
        *final(recovery) == after_poll(*old(recovery), now_ns),
{
    if !recovery.requested {
        return false;
    }
    recovery.requested = false;
    recovery.state.take_queued(now_ns)
}

/// Notes that the stream recovered. Tells whether a recovery was under way.
pub fn complete_runtime_video_stream_recovery(
    recovery: &mut RuntimeVideoRecovery,
    now_ns: u64,
) -> (completed: bool)
    ensures
        completed == old(recovery).state.expired(now_ns).in_flight,
        *final(recovery) == after_completion(*old(recovery), now_ns),
{
    recovery.state.mark_completed(now_ns)
}

/// A request is delivered once: after a poll, polling again delivers nothing, whatever the time,
/// until another request is taken.
pub proof fn law_recovery_request_is_one_shot(
    recovery: RuntimeVideoRecovery,
    first_ns: u64,
    second_ns: u64,
)
    ensures
        !delivers(after_poll(recovery, first_ns), second_ns),
{
}

/// A request that was taken is delivered by the next poll within the timeout.
pub proof fn law_taken_recovery_request_is_delivered(
    recovery: RuntimeVideoRecovery,
    requested_ns: u64,
    polled_ns: u64,
)
    requires
        recovery.state.accepts(requested_ns),
        !after_request(recovery, requested_ns).state.timed_out(polled_ns),
    ensures
        delivers(after_request(recovery, requested_ns), polled_ns),
{
}

/// While a recovery is under way every further request is refused, and refusing changes nothing.
pub proof fn law_recovery_in_flight_refuses_requests(
    recovery: RuntimeVideoRecovery,
    started_ns: u64,
    now_ns: u64,
)
    requires
        recovery.state.in_flight,
        recovery.state.last_started_at == Some(started_ns),
        elapsed(now_ns, started_ns) < ALVR_RUNTIME_VIDEO_RECOVERY_TIMEOUT_NS,
    ensures
        !recovery.state.accepts(now_ns),
        after_request(recovery, now_ns) == recovery,
{
}

/// For the length of the cooldown after a recovery completed every request is refused.
pub proof fn law_completed_recovery_cools_down(
    recovery: RuntimeVideoRecovery,
    completed_ns: u64,
    now_ns: u64,
)
    requires
        recovery.state.expired(completed_ns).in_flight,
        completed_ns <= now_ns,
    ensures
        now_ns - completed_ns < ALVR_RUNTIME_VIDEO_RECOVERY_COOLDOWN_NS ==> !after_completion(
            recovery,
            completed_ns,
        ).state.accepts(now_ns),
        now_ns - completed_ns >= ALVR_RUNTIME_VIDEO_RECOVERY_COOLDOWN_NS ==> after_completion(
            recovery,
            completed_ns,
        ).state.accepts(now_ns),
{
}

/// A recovery never blocks requests for good: once every recorded time lies at least the timeout
/// back, a request is taken.
pub proof fn law_stale_recovery_expires(state: RuntimeVideoRecoveryState, now_ns: u64)
    requires
        state.in_flight ==> state.last_started_at is Some,
        state.last_started_at matches Some(t) ==> elapsed(now_ns, t)
            >= ALVR_RUNTIME_VIDEO_RECOVERY_TIMEOUT_NS,
        state.last_requested_at matches Some(t) ==> elapsed(now_ns, t)
            >= ALVR_RUNTIME_VIDEO_RECOVERY_TIMEOUT_NS,
        state.last_completed_at matches Some(t) ==> elapsed(now_ns, t)
            >= ALVR_RUNTIME_VIDEO_RECOVERY_TIMEOUT_NS,
    ensures
        state.accepts(now_ns),
{
}

// ---------------------------------------------------------------------------
// Key frame requests
// ---------------------------------------------------------------------------

/// Whether a key frame may be asked for now.
pub open spec fn idr_request_due(last_request_at: Option<u64>, now_ns: u64) -> bool {
    last_request_at matches Some(previous) ==> elapsed(now_ns, previous)
        >= ALVR_RUNTIME_IDR_REQUEST_MIN_INTERVAL_NS
}

/// The time of the last request, after a request at `now_ns` where one is due.
pub open spec fn after_idr_request(last_request_at: Option<u64>, now_ns: u64) -> Option<u64> {
    if idr_request_due(last_request_at, now_ns) {
        Some(now_ns)
    } else {
        last_request_at
    }
}

/// Decides whether to ask for a key frame, and notes the time where it is asked for.
pub fn request_alvr_idr_if_due(last_request_at: &mut Option<u64>, now_ns: u64) -> (send: bool)
    ensures
        send == idr_request_due(*old(last_request_at), now_ns),
        *final(last_request_at) == after_idr_request(*old(last_request_at), now_ns),
{
    if let Some(previous) = *last_request_at {
        if elapsed_ns(now_ns, previous) < ALVR_RUNTIME_IDR_REQUEST_MIN_INTERVAL_NS {
            return false;
        }
    }
    *last_request_at = Some(now_ns);
    true
}

/// Two key frame requests lie at least the minimum interval apart.
pub proof fn law_idr_requests_are_spaced(last_request_at: Option<u64>, first_ns: u64, second_ns: u64)
    requires
        idr_request_due(last_request_at, first_ns),
        first_ns <= second_ns,
        idr_request_due(after_idr_request(last_request_at, first_ns), second_ns),
    ensures
        second_ns - first_ns >= ALVR_RUNTIME_IDR_REQUEST_MIN_INTERVAL_NS,
{
}

// ---------------------------------------------------------------------------
// Discovery recovery
// ---------------------------------------------------------------------------

/// Who re-announces the client after a lost connection. Tokens are never zero; zero as the
/// owner means that nobody does.
#[derive(Clone, Copy, Debug)]
pub struct DiscoveryRecovery {
    pub owner: u32,
    pub generation: u32,
}

impl Default for DiscoveryRecovery {
    fn default() -> (recovery: Self)
        ensures
            recovery == (DiscoveryRecovery { owner: 0, generation: 1 }),
    {
        DiscoveryRecovery { owner: 0, generation: 1 }
    }
}

/// The token after `current`: the next number, skipping zero.
pub open spec fn token_after(current: u32) -> u32 {
    if current == u32::MAX {
        1
    } else {
        (current + 1) as u32
    }
}

/// The owner after a claim by `token`.
pub open spec fn after_claim(owner: u32, token: u32) -> u32 {
    if owner == 0 {
        token
    } else {
        owner
    }
}

/// The owner after a release by `token`.
pub open spec fn after_release(owner: u32, token: u32) -> u32 {
    if owner == token {
        0
    } else {
        owner
    }
}

/// Draws the next token.
pub fn next_alvr_discovery_recovery_token(recovery: &mut DiscoveryRecovery) -> (token: u32)
    ensures
        token == token_after(old(recovery).generation),
        token != 0,
        final(recovery).generation == token,
        final(recovery).owner == old(recovery).owner,
{
    let next: u32 = recovery.generation.wrapping_add(1);
    let token: u32 = if next == 0 {
        1
    } else {
        next
    };
    recovery.generation = token;
    token
}

/// Makes the holder of `token` the owner, where there is none.
pub fn try_claim_alvr_discovery_recovery(recovery: &mut DiscoveryRecovery, token: u32) -> (claimed:
    bool)
    ensures
        claimed == (old(recovery).owner == 0),
        final(recovery).owner == after_claim(old(recovery).owner, token),
        final(recovery).generation == old(recovery).generation,
{
    if recovery.owner == 0 {
        recovery.owner = token;
        true
    } else {
        false
    }
}

/// Whether the holder of `token` is the owner.
pub fn is_current_alvr_discovery_recovery(recovery: &DiscoveryRecovery, token: u32) -> (current: bool)
    ensures
        current == (recovery.owner == token),
{
    recovery.owner == token
}

/// Ends the ownership of the holder of `token`; does nothing where another one is the owner.
pub fn release_alvr_discovery_recovery(recovery: &mut DiscoveryRecovery, token: u32)
    ensures
        final(recovery).owner == after_release(old(recovery).owner, token),
        final(recovery).generation == old(recovery).generation,
{
    if recovery.owner == token {
        recovery.owner = 0;
    }
}

/// Ends every ownership.
pub fn stop_alvr_discovery_recovery(recovery: &mut DiscoveryRecovery)
    ensures
        final(recovery).owner == 0,
        final(recovery).generation == old(recovery).generation,
{
    recovery.owner = 0;
}

/// What the announcing thread does next.
#[derive(Clone, Copy, Debug, PartialEq, Eq, Structural)]
pub enum DiscoveryAttempt {
    /// Announce, then pause.
    AnnounceAndPause,
    /// Announce a last time.
    AnnounceLast,
    /// Stop without another announcement.
    Stop,
}

/// Decides about announcement `attempt` (counted from zero) by the holder of `token`.
pub fn discovery_recovery_attempt(
    recovery: &DiscoveryRecovery,
    token: u32,
    attempt: usize,
) -> (next: DiscoveryAttempt)
    ensures
        next == if recovery.owner != token || attempt >= ALVR_DISCOVERY_RECOVERY_ATTEMPTS {
            DiscoveryAttempt::Stop
        } else if attempt + 1 == ALVR_DISCOVERY_RECOVERY_ATTEMPTS {
            DiscoveryAttempt::AnnounceLast
        } else {
            DiscoveryAttempt::AnnounceAndPause
        },
{
    if attempt >= ALVR_DISCOVERY_RECOVERY_ATTEMPTS || !is_current_alvr_discovery_recovery(
        recovery,
        token,
    ) {
        DiscoveryAttempt::Stop
    } else if attempt + 1 < ALVR_DISCOVERY_RECOVERY_ATTEMPTS {
        DiscoveryAttempt::AnnounceAndPause
    } else {
        DiscoveryAttempt::AnnounceLast
    }
}

/// Only the token that claimed the ownership ends it: while it is held, another token can
/// neither claim nor release it.
pub proof fn law_only_the_owner_releases(holder: u32, other: u32)
    requires
        holder != 0,
        other != holder,
    ensures
        after_claim(holder, other) == holder,
        after_release(holder, other) == holder,
        after_release(holder, holder) == 0,
        after_claim(after_release(holder, holder), other) == other,
{
}

/// Tokens are never zero, and two drawn in a row differ.
pub proof fn law_tokens_are_never_zero(generation: u32)
    ensures
        token_after(generation) != 0,
        token_after(generation) != generation,
{
}

/// Time that has passed is the difference of the clock, and nothing where the clock ran backwards.
pub proof fn law_time_does_not_run_backwards(now_ns: u64, earlier_ns: u64)
    ensures
        earlier_ns <= now_ns ==> elapsed(now_ns, earlier_ns) == now_ns - earlier_ns,
        earlier_ns > now_ns ==> elapsed(now_ns, earlier_ns) == 0,
{
}

/// The whole course of a recovery: a request that is taken is handed out once, makes the recovery
/// run, and a completed recovery runs no more. The next request is taken three seconds after the
/// completion and not before.
pub proof fn law_recoveries_run_their_course(
    recovery: RuntimeVideoRecovery,
    requested_ns: u64,
    polled_ns: u64,
    completed_ns: u64,
    again_ns: u64,
)
    requires
        recovery.state.accepts(requested_ns),
        recovery.state.last_started_at is None,
        requested_ns <= polled_ns <= completed_ns <= again_ns,
        completed_ns - polled_ns < 5_000_000_000,
    ensures
        ({
            let requested = after_request(recovery, requested_ns);
            let polled = after_poll(requested, polled_ns);
            let completed = after_completion(polled, completed_ns);
            &&& requested.requested && requested.state.queued
            &&& requested.state.last_requested_at == Some(requested_ns)
            &&& delivers(requested, polled_ns)
            &&& polled.state.in_flight && !polled.state.queued && !polled.requested
            &&& polled.state.last_started_at == Some(polled_ns)
            &&& !completed.state.in_flight && !completed.state.queued
            &&& completed.state.last_completed_at == Some(completed_ns)
            &&& again_ns - completed_ns >= 3_000_000_000 <==> completed.state.accepts(again_ns)
        }),
{
}

/// A recovery that was started counts as under way for five seconds, and is then given up: nothing
/// is queued or under way, and completing it does nothing.
pub proof fn law_recoveries_are_given_up(
    state: RuntimeVideoRecoveryState,
    started_ns: u64,
    now_ns: u64,
)
    requires
        state.in_flight,
        state.last_started_at == Some(started_ns),
        started_ns <= now_ns,
    ensures
        now_ns - started_ns < 5_000_000_000 ==> state.expired(now_ns) == state && !state.accepts(
            now_ns,
        ),
        now_ns - started_ns >= 5_000_000_000 ==> {
            let expired = state.expired(now_ns);
            &&& !expired.in_flight && !expired.queued
            &&& expired.last_started_at is None
            &&& expired.last_requested_at == state.last_requested_at
            &&& expired.last_completed_at == state.last_completed_at
        },
{
}

/// Two requests that are taken lie three seconds apart, even where nothing was recovered between
/// them. A recovery that was never asked for is taken at any time.
pub proof fn law_requests_are_spaced(
    recovery: RuntimeVideoRecovery,
    first_ns: u64,
    second_ns: u64,
    any_ns: u64,
)
    requires
        recovery.state.last_completed_at is None,
        recovery.state.accepts(first_ns),
        first_ns <= second_ns,
    ensures
        second_ns - first_ns < 3_000_000_000 ==> !after_request(
            recovery,
            first_ns,
        ).state.accepts(second_ns),
        RuntimeVideoRecoveryState::idle().accepts(any_ns),
{
}

/// The receiver is told to recover only after a request, and polling without one changes nothing.
pub proof fn law_nothing_is_recovered_unasked(recovery: RuntimeVideoRecovery, now_ns: u64)
    requires
        !recovery.requested,
    ensures
        !delivers(recovery, now_ns),
        after_poll(recovery, now_ns) == recovery,
        after_completion(recovery, now_ns).requested == recovery.requested,
{
}

/// A key frame may be asked for at once, and then once in half a second: exactly where so much
/// time has passed since the last request. The time of a request that is refused does not count.
pub proof fn law_key_frames_are_asked_for_twice_a_second(first_ns: u64, second_ns: u64)
    requires
        first_ns <= second_ns,
    ensures
        idr_request_due(None, first_ns),
        after_idr_request(None, first_ns) == Some(first_ns),
        idr_request_due(Some(first_ns), second_ns) <==> second_ns - first_ns >= 500_000_000,
        second_ns - first_ns < 500_000_000 ==> after_idr_request(Some(first_ns), second_ns)
            == Some(first_ns),
        second_ns - first_ns >= 500_000_000 ==> after_idr_request(Some(first_ns), second_ns)
            == Some(second_ns),
{
}

/// The owner announces thirty times, with a pause after each time but the last. Nobody else
/// announces.
pub proof fn law_the_owner_announces_thirty_times(
    recovery: DiscoveryRecovery,
    token: u32,
    attempt: usize,
    next: DiscoveryAttempt,
)
    requires
        call_ensures(discovery_recovery_attempt, (&recovery, token, attempt), next),
    ensures
        next == DiscoveryAttempt::AnnounceAndPause <==> recovery.owner == token && attempt < 29,
        next == DiscoveryAttempt::AnnounceLast <==> recovery.owner == token && attempt == 29,
        next == DiscoveryAttempt::Stop <==> recovery.owner != token || attempt > 29,
{
}

/// Tokens count on, and a token that is claimed where nobody is the owner makes its holder the
/// owner until it is released.
pub proof fn law_tokens_count_on(generation: u32, token: u32)
    requires
        token != 0,
    ensures
        generation < u32::MAX ==> token_after(generation) == generation + 1,
        token_after(u32::MAX) == 1,
        after_claim(0, token) == token,
        after_release(after_claim(0, token), token) == 0,
{
}

/// A recovery goes from the request to the start to the end: a request that is accepted can be
/// taken once, what was taken can be completed once, and each step is noted with its time.
pub proof fn law_recovery_steps_follow_each_other(
    asked_ns: u64,
    taken_ns: u64,
    done_ns: u64,
    queued: bool,
    taken: bool,
    completed: bool,
)
    requires
        asked_ns <= taken_ns <= done_ns,
        done_ns - taken_ns < 5_000_000_000,
    ensures
        forall|
            first: &mut RuntimeVideoRecoveryState,
            second: &mut RuntimeVideoRecoveryState,
            third: &mut RuntimeVideoRecoveryState,
        |
            *first == RuntimeVideoRecoveryState::idle() && #[trigger] call_ensures(
                RuntimeVideoRecoveryState::queue_if_due,
                (first, asked_ns),
                queued,
            ) && *second == *final(first) && #[trigger] call_ensures(
                RuntimeVideoRecoveryState::take_queued,
                (second, taken_ns),
                taken,
            ) && *third == *final(second) && #[trigger] call_ensures(
                RuntimeVideoRecoveryState::mark_completed,
                (third, done_ns),
                completed,
            ) ==> {
                &&& queued && taken && completed
                &&& final(first).queued && !final(first).in_flight
                &&& final(first).last_requested_at == Some(asked_ns)
                &&& !final(second).queued && final(second).in_flight
                &&& final(second).last_started_at == Some(taken_ns)
                &&& !final(third).queued && !final(third).in_flight
                &&& final(third).last_completed_at == Some(done_ns)
            },
{
}

/// What was asked of the client is handed on and completed in the same order.
pub proof fn law_requests_are_handed_on(
    asked_ns: u64,
    taken_ns: u64,
    done_ns: u64,
    queued: bool,
    taken: bool,
    completed: bool,
    fresh: RuntimeVideoRecovery,
)
    requires
        asked_ns <= taken_ns <= done_ns,
        done_ns - taken_ns < 5_000_000_000,
        call_ensures(RuntimeVideoRecovery::default, (), fresh),
    ensures
        forall|
            first: &mut RuntimeVideoRecovery,
            second: &mut RuntimeVideoRecovery,
            third: &mut RuntimeVideoRecovery,
        |
            *first == fresh && #[trigger] call_ensures(
                request_runtime_video_stream_recovery,
                (first, asked_ns),
                queued,
            ) && *second == *final(first) && #[trigger] call_ensures(
                take_runtime_video_stream_recovery_request,
                (second, taken_ns),
                taken,
            ) && *third == *final(second) && #[trigger] call_ensures(
                complete_runtime_video_stream_recovery,
                (third, done_ns),
                completed,
            ) ==> queued && taken && completed && !final(third).state.in_flight,
{
}

/// Of two that announce the client, only the first to claim the place has it, and only the one
/// that has it gives it up. Stopping frees the place whoever has it.
pub proof fn law_one_announces_at_a_time(
    first_token: u32,
    second_token: u32,
    first_claimed: bool,
    second_claimed: bool,
    fresh: DiscoveryRecovery,
)
    requires
        first_token != 0,
        second_token != 0,
        first_token != second_token,
        call_ensures(DiscoveryRecovery::default, (), fresh),
    ensures
        forall|
            first: &mut DiscoveryRecovery,
            second: &mut DiscoveryRecovery,
            third: &mut DiscoveryRecovery,
        |
            *first == fresh && #[trigger] call_ensures(
                try_claim_alvr_discovery_recovery,
                (first, first_token),
                first_claimed,
            ) && *second == *final(first) && #[trigger] call_ensures(
                try_claim_alvr_discovery_recovery,
                (second, second_token),
                second_claimed,
            ) && *third == *final(second) && #[trigger] call_ensures(
                release_alvr_discovery_recovery,
                (third, second_token),
                (),
            ) ==> first_claimed && !second_claimed && final(third).owner == first_token,
        forall|recovery: &mut DiscoveryRecovery| #[trigger]
            call_ensures(release_alvr_discovery_recovery, (recovery, first_token), ())
                && (*recovery).owner == first_token ==> final(recovery).owner == 0,
        forall|recovery: &mut DiscoveryRecovery| #[trigger]
            call_ensures(stop_alvr_discovery_recovery, (recovery,), ()) ==> final(recovery).owner
                == 0 && final(recovery).generation == (*recovery).generation,
{
}

/// Tokens that are handed out one after the other differ, and handing them out leaves the place
/// to whoever has it.
pub proof fn law_tokens_differ(first_token: u32, second_token: u32)
    ensures
        forall|first: &mut DiscoveryRecovery, second: &mut DiscoveryRecovery|
            #[trigger] call_ensures(next_alvr_discovery_recovery_token, (first,), first_token)
                && *second == *final(first) && #[trigger] call_ensures(
                next_alvr_discovery_recovery_token,
                (second,),
                second_token,
            ) ==> {
                &&& first_token != second_token && first_token != 0 && second_token != 0
                &&& final(second).owner == (*first).owner
                &&& (*first).generation < u32::MAX ==> first_token == (*first).generation + 1
            },
{
}

/// Key frames are asked for at once, and then not again before half a second has passed.
pub proof fn law_key_frames_are_not_asked_for_too_often(
    first_ns: u64,
    second_ns: u64,
    first_sent: bool,
    second_sent: bool,
)
    requires
        first_ns <= second_ns,
    ensures
        forall|last: &mut Option<u64>, later: &mut Option<u64>|
            *last is None && #[trigger] call_ensures(
                request_alvr_idr_if_due,
                (last, first_ns),
                first_sent,
            ) && *later == *final(last) && #[trigger] call_ensures(
                request_alvr_idr_if_due,
                (later, second_ns),
                second_sent,
            ) ==> {
                &&& first_sent
                &&& second_sent <==> second_ns - first_ns >= 500_000_000
                &&& second_sent ==> *final(later) == Some(second_ns)
                &&& !second_sent ==> *final(later) == Some(first_ns)
            },
{
    law_key_frames_are_asked_for_twice_a_second(first_ns, second_ns);
}

/// Whoever has the place announces, and nobody else.
pub proof fn law_owner_is_current(recovery: DiscoveryRecovery, token: u32, current: bool)
    requires
        call_ensures(is_current_alvr_discovery_recovery, (&recovery, token), current),
    ensures
        current <==> recovery.owner == token,
{
}

/// At the start nothing is recovered, asked for or remembered.
pub proof fn law_recoveries_start_idle(
    state: RuntimeVideoRecoveryState,
    recovery: RuntimeVideoRecovery,
    discovery: DiscoveryRecovery,
)
    requires
        call_ensures(RuntimeVideoRecoveryState::default, (), state),
        call_ensures(RuntimeVideoRecovery::default, (), recovery),
        call_ensures(DiscoveryRecovery::default, (), discovery),
    ensures
        !state.queued && !state.in_flight,
        state.last_requested_at is None && state.last_started_at is None,
        state.last_completed_at is None,
        !recovery.requested && recovery.state == state,
        discovery.owner == 0,
{
}

} // verus!
