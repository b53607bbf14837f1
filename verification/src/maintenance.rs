//! Upkeep of the control connection: signs of life, changes of the view, and the controllers.
//!
//! The upkeep runs in rounds. [`ControlMaintenance::advance`] says what to do next, and is told
//! what came of it.

use vstd::prelude::*;

use crate::controller::{
    active_ids, any_fresh, build_active_interaction_profiles, build_button_entries, button_entries,
    first_hand_path, same_profile, ActiveInteractionProfile, ButtonEntry, ControllerSnapshot,
    OCULUS_TOUCH_PROFILE_PATH,
};
use crate::protocol::hash_of;
use crate::recovery::{
    after_request, idr_request_due, request_alvr_idr_if_due, request_runtime_video_stream_recovery,
    RuntimeVideoRecovery,
};

verus! {

/// Time between two signs of life, in nanoseconds.
pub const ALVR_KEEPALIVE_INTERVAL_NS: u64 = 500_000_000;

/// Time between two reports of the controllers, in nanoseconds.
pub const ALVR_BUTTONS_SEND_INTERVAL_NS: u64 = 33_000_000;

/// Time between two rounds, in nanoseconds.
pub const MAINTENANCE_PAUSE_NS: u64 = 25_000_000;

/// Why the connection is given up.
#[derive(Clone, Copy, Debug, PartialEq, Eq, Structural)]
pub enum MaintenanceFailure {
    Keepalive,
    LifecycleViewParams,
    ViewParams,
    InteractionProfile,
    Buttons,
}

impl MaintenanceFailure {
    /// The reason in words.
    pub open spec fn spec_text(self) -> Seq<char> {
        match self {
            MaintenanceFailure::Keepalive => "keepalive send failure"@,
            MaintenanceFailure::LifecycleViewParams =>
                "lifecycle LocalViewParams refresh failure"@,
            MaintenanceFailure::ViewParams => "LocalViewParams update failure"@,
            MaintenanceFailure::InteractionProfile => "ActiveInteractionProfile send failure"@,
            MaintenanceFailure::Buttons => "Buttons send failure"@,
        }
    }

    /// The reason in words.
    pub fn text(self) -> (text: &'static str)
        ensures
            text@ == self.spec_text(),
    {
        match self {
            MaintenanceFailure::Keepalive => "keepalive send failure",
            MaintenanceFailure::LifecycleViewParams => "lifecycle LocalViewParams refresh failure",
            MaintenanceFailure::ViewParams => "LocalViewParams update failure",
            MaintenanceFailure::InteractionProfile => "ActiveInteractionProfile send failure",
            MaintenanceFailure::Buttons => "Buttons send failure",
        }
    }
}

/// What the upkeep waits for.
#[derive(Clone, Copy, Debug, PartialEq, Eq)]
pub enum MaintenanceStage {
    /// The next round.
    Round,
    /// The sign of life to be sent.
    Keepalive,
    /// Whether the headset woke up.
    Lifecycle,
    /// The view to be sent after the headset woke up.
    LifecycleViews,
    /// A key frame to be asked for after the headset woke up.
    LifecycleIdr,
    /// The version of the view.
    Views,
    /// The view of this version to be sent.
    ViewsSend(u64),
    /// The state of the controllers.
    Controllers,
    /// The inputs of the controllers to be announced.
    Profile(ControllerSnapshot),
    /// The state of the controllers to be sent.
    Buttons,
    /// Nothing: the connection is given up.
    Stopped,
}

/// What the upkeep is told.
#[derive(Clone, Copy, Debug, PartialEq, Eq)]
pub enum MaintenanceEvent {
    /// A round begins. The session may be about to end.
    Begin { shutdown_requested: bool },
    /// What was to be sent was sent, or was not.
    Sent(bool),
    /// The headset woke up since it was last asked, or did not.
    Lifecycle(bool),
    /// The version of the view, where there is one.
    Views(Option<u64>),
    /// The state of the controllers.
    Controllers(ControllerSnapshot),
}

/// What is to be done.
#[derive(Clone, Debug, PartialEq, Eq)]
pub enum MaintenanceAction {
    /// End: the session is about to end.
    Stop,
    /// Close the connection and end.
    GiveUp(MaintenanceFailure),
    SendKeepAlive,
    /// Ask whether the headset woke up.
    TakeLifecycleRequest,
    /// Send the current view.
    SendCurrentViews,
    /// Ask the server for a key frame.
    RequestIdr,
    /// Read the version of the view.
    ReadViews,
    /// Send the view of the version that was read.
    SendViews,
    /// Read the state of the controllers.
    ReadControllers,
    /// Send the profile that waits to be sent.
    SendProfile,
    SendButtons(Vec<ButtonEntry>),
    /// Wait for the next round.
    Pause,
}

/// State of the upkeep.
#[derive(Debug)]
pub struct ControlMaintenance {
    pub stage: MaintenanceStage,
    /// When the round began.
    pub round_ns: u64,
    pub next_keepalive_ns: u64,
    pub next_buttons_ns: u64,
    pub last_views_version: Option<u64>,
    /// The profile that the server knows.
    pub last_profile: Option<ActiveInteractionProfile>,
    /// The profile that is being sent.
    pub pending_profile: Option<ActiveInteractionProfile>,
    pub last_idr_request_at: Option<u64>,
    pub keepalives_sent: u64,
    pub profiles_sent: u64,
    pub buttons_sent: u64,
}

/// A time later by `interval_ns`, as far as the clock reaches.
pub open spec fn later(time_ns: u64, interval_ns: u64) -> u64 {
    if time_ns + interval_ns > u64::MAX {
        u64::MAX
    } else {
        (time_ns + interval_ns) as u64
    }
}

/// `profile` announces the hands that count.
pub open spec fn announces(
    profile: ActiveInteractionProfile,
    snapshot: ControllerSnapshot,
    now_ns: u64,
) -> bool {
    &&& profile.device_id == hash_of(first_hand_path(snapshot, now_ns))
    &&& profile.profile_id == hash_of(OCULUS_TOUCH_PROFILE_PATH@)
    &&& profile.input_ids@ == active_ids(snapshot, now_ns)
}

impl ControlMaintenance {
    /// The stage waits for such an event.
    pub open spec fn expects(&self, event: MaintenanceEvent) -> bool {
        match self.stage {
            MaintenanceStage::Round => event is Begin,
            MaintenanceStage::Keepalive | MaintenanceStage::LifecycleViews
            | MaintenanceStage::LifecycleIdr | MaintenanceStage::ViewsSend(_)
            | MaintenanceStage::Buttons => event is Sent,
            MaintenanceStage::Profile(_) => event is Sent && self.pending_profile is Some,
            MaintenanceStage::Lifecycle => event is Lifecycle,
            MaintenanceStage::Views => event is Views,
            MaintenanceStage::Controllers => event is Controllers,
            MaintenanceStage::Stopped => false,
        }
    }

    /// The server knows the profile.
    pub open spec fn knows(
        &self,
        snapshot: ControllerSnapshot,
        now_ns: u64,
    ) -> bool {
        match self.last_profile {
            Some(profile) => announces(profile, snapshot, now_ns),
            None => false,
        }
    }

    /// Giving up.
    pub open spec fn stopped(self) -> Self {
        ControlMaintenance { stage: MaintenanceStage::Stopped, ..self }
    }

    /// The end of the round.
    pub open spec fn round_ended(self) -> Self {
        ControlMaintenance {
            stage: MaintenanceStage::Round,
            next_buttons_ns: later(self.round_ns, ALVR_BUTTONS_SEND_INTERVAL_NS),
            ..self
        }
    }

    /// After the view was dealt with: the controllers where they are due.
    pub open spec fn after_views(self) -> (Self, MaintenanceAction) {
        if self.round_ns >= self.next_buttons_ns {
            (
                ControlMaintenance { stage: MaintenanceStage::Controllers, ..self },
                MaintenanceAction::ReadControllers,
            )
        } else {
            (
                ControlMaintenance { stage: MaintenanceStage::Round, ..self },
                MaintenanceAction::Pause,
            )
        }
    }

    /// After the profile was dealt with: the state of the controllers is sent where there is any.
    pub open spec fn buttons_follow(
        self,
        snapshot: ControllerSnapshot,
        now_ns: u64,
        after: Self,
        action: MaintenanceAction,
    ) -> bool {
        let entries = button_entries(snapshot, now_ns);
        if entries.len() == 0 {
            after == self.round_ended() && action == MaintenanceAction::Pause
        } else {
            &&& after == (ControlMaintenance { stage: MaintenanceStage::Buttons, ..self })
            &&& action matches MaintenanceAction::SendButtons(sent) && sent@ == entries
        }
    }

    /// The first round is due at once.
    pub fn new(now_ns: u64, views_version: Option<u64>) -> (maintenance: Self)
        ensures
            maintenance == (ControlMaintenance {
                stage: MaintenanceStage::Round,
                round_ns: now_ns,
                next_keepalive_ns: now_ns,
                next_buttons_ns: now_ns,
                last_views_version: views_version,
                last_profile: None,
                pending_profile: None,
                last_idr_request_at: None,
                keepalives_sent: 0,
                profiles_sent: 0,
                buttons_sent: 0,
            }),
    {
        ControlMaintenance {
            stage: MaintenanceStage::Round,
            round_ns: now_ns,
            next_keepalive_ns: now_ns,
            next_buttons_ns: now_ns,
            last_views_version: views_version,
            last_profile: None,
            pending_profile: None,
            last_idr_request_at: None,
            keepalives_sent: 0,
            profiles_sent: 0,
            buttons_sent: 0,
        }
    }

    fn give_up(&mut self, failure: MaintenanceFailure) -> (action: MaintenanceAction)
        ensures
            *final(self) == old(self).stopped(),
            action == MaintenanceAction::GiveUp(failure),
    {
        self.stage = MaintenanceStage::Stopped;
        MaintenanceAction::GiveUp(failure)
    }

    fn proceed_after_views(&mut self) -> (action: MaintenanceAction)
        ensures
            (*final(self), action) == old(self).after_views(),
    {
        if self.round_ns >= self.next_buttons_ns {
            self.stage = MaintenanceStage::Controllers;
            MaintenanceAction::ReadControllers
        } else {
            self.stage = MaintenanceStage::Round;
            MaintenanceAction::Pause
        }
    }

    fn end_round(&mut self)
        ensures
            *final(self) == old(self).round_ended(),
    {
        self.next_buttons_ns = self.round_ns.saturating_add(ALVR_BUTTONS_SEND_INTERVAL_NS);
        self.stage = MaintenanceStage::Round;
    }

    fn proceed_with_buttons(
        &mut self,
        snapshot: &ControllerSnapshot,
        now_ns: u64,
    ) -> (action: MaintenanceAction)
        ensures
            old(self).buttons_follow(*snapshot, now_ns, *final(self), action),
    {
        let entries: Vec<ButtonEntry> = build_button_entries(snapshot, now_ns);
        if entries.len() == 0 {
            self.end_round();
            MaintenanceAction::Pause
        } else {
            self.stage = MaintenanceStage::Buttons;
            MaintenanceAction::SendButtons(entries)
        }
    }

    /// Decides about the controllers: where the hands that count are announced otherwise than
    /// the server knows, the announcement goes first.
    fn proceed_with_controllers(
        &mut self,
        snapshot: &ControllerSnapshot,
        now_ns: u64,
    ) -> (action: MaintenanceAction)
        ensures
            if any_fresh(*snapshot, now_ns) {
                if old(self).knows(*snapshot, now_ns) {
                    old(self).buttons_follow(*snapshot, now_ns, *final(self), action)
                } else {
                    &&& action == MaintenanceAction::SendProfile
                    &&& *final(self) == (ControlMaintenance {
                        stage: MaintenanceStage::Profile(*snapshot),
                        pending_profile: final(self).pending_profile,
                        ..*old(self)
                    })
                    &&& final(self).pending_profile matches Some(profile) && announces(
                        profile,
                        *snapshot,
                        now_ns,
                    )
                }
            } else {
                (ControlMaintenance { last_profile: None, ..*old(self) }).buttons_follow(
                    *snapshot,
                    now_ns,
                    *final(self),
                    action,
                )
            },
    {
        let mut profiles: Vec<ActiveInteractionProfile> = build_active_interaction_profiles(
            snapshot,
            now_ns,
        );
        match profiles.pop() {
            Some(profile) => {
                let known: bool = match &self.last_profile {
                    Some(last) => same_profile(last, &profile),
                    None => false,
                };
                if known {
                    self.proceed_with_buttons(snapshot, now_ns)
                } else {
                    self.pending_profile = Some(profile);
                    self.stage = MaintenanceStage::Profile(*snapshot);
                    MaintenanceAction::SendProfile
                }
            },
            None => {
                self.last_profile = None;
                self.proceed_with_buttons(snapshot, now_ns)
            },
        }
    }

    /// What follows an event, and what is to be done about it.
    pub open spec fn follows(
        self,
        event: MaintenanceEvent,
        now_ns: u64,
        recovery: RuntimeVideoRecovery,
        after: Self,
        action: MaintenanceAction,
    ) -> bool {
        match (self.stage, event) {
            (MaintenanceStage::Round, MaintenanceEvent::Begin { shutdown_requested }) => {
                if shutdown_requested {
                    after == self.stopped() && action == MaintenanceAction::Stop
                } else if now_ns >= self.next_keepalive_ns {
                    &&& after == (ControlMaintenance {
                        stage: MaintenanceStage::Keepalive,
                        round_ns: now_ns,
                        ..self
                    })
                    &&& action == MaintenanceAction::SendKeepAlive
                } else {
                    &&& after == (ControlMaintenance {
                        stage: MaintenanceStage::Lifecycle,
                        round_ns: now_ns,
                        ..self
                    })
                    &&& action == MaintenanceAction::TakeLifecycleRequest
                }
            },
            (MaintenanceStage::Keepalive, MaintenanceEvent::Sent(sent)) => {
                if sent {
                    &&& after == (ControlMaintenance {
                        stage: MaintenanceStage::Lifecycle,
                        next_keepalive_ns: later(self.round_ns, ALVR_KEEPALIVE_INTERVAL_NS),
                        keepalives_sent: self.keepalives_sent.wrapping_add(1),
                        ..self
                    })
                    &&& action == MaintenanceAction::TakeLifecycleRequest
                } else {
                    &&& after == self.stopped()
                    &&& action == MaintenanceAction::GiveUp(MaintenanceFailure::Keepalive)
                }
            },
            (MaintenanceStage::Lifecycle, MaintenanceEvent::Lifecycle(woke_up)) => {
                if woke_up {
                    &&& after == (ControlMaintenance {
                        stage: MaintenanceStage::LifecycleViews,
                        ..self
                    })
                    &&& action == MaintenanceAction::SendCurrentViews
                } else {
                    &&& after == (ControlMaintenance { stage: MaintenanceStage::Views, ..self })
                    &&& action == MaintenanceAction::ReadViews
                }
            },
            (MaintenanceStage::LifecycleViews, MaintenanceEvent::Sent(sent)) => {
                if !sent {
                    &&& after == self.stopped()
                    &&& action == MaintenanceAction::GiveUp(MaintenanceFailure::LifecycleViewParams)
                } else if recovery.state.accepts(now_ns) && idr_request_due(
                    self.last_idr_request_at,
                    now_ns,
                ) {
                    &&& after == (ControlMaintenance {
                        stage: MaintenanceStage::LifecycleIdr,
                        last_idr_request_at: Some(now_ns),
                        ..self
                    })
                    &&& action == MaintenanceAction::RequestIdr
                } else {
                    &&& after == (ControlMaintenance { stage: MaintenanceStage::Views, ..self })
                    &&& action == MaintenanceAction::ReadViews
                }
            },
            (MaintenanceStage::LifecycleIdr, MaintenanceEvent::Sent(_)) => {
                &&& after == (ControlMaintenance { stage: MaintenanceStage::Views, ..self })
                &&& action == MaintenanceAction::ReadViews
            },
            (MaintenanceStage::Views, MaintenanceEvent::Views(version)) => {
                if version is Some && version != self.last_views_version {
                    &&& after == (ControlMaintenance {
                        stage: MaintenanceStage::ViewsSend(version->0),
                        ..self
                    })
                    &&& action == MaintenanceAction::SendViews
                } else {
                    (after, action) == self.after_views()
                }
            },
            (MaintenanceStage::ViewsSend(version), MaintenanceEvent::Sent(sent)) => {
                if sent {
                    (after, action) == (ControlMaintenance {
                        last_views_version: Some(version),
                        ..self
                    }).after_views()
                } else {
                    &&& after == self.stopped()
                    &&& action == MaintenanceAction::GiveUp(MaintenanceFailure::ViewParams)
                }
            },
            (MaintenanceStage::Controllers, MaintenanceEvent::Controllers(snapshot)) => {
                if any_fresh(snapshot, now_ns) {
                    if self.knows(snapshot, now_ns) {
                        self.buttons_follow(snapshot, now_ns, after, action)
                    } else {
                        &&& action == MaintenanceAction::SendProfile
                        &&& after == (ControlMaintenance {
                            stage: MaintenanceStage::Profile(snapshot),
                            pending_profile: after.pending_profile,
                            ..self
                        })
                        &&& after.pending_profile matches Some(profile) && announces(
                            profile,
                            snapshot,
                            now_ns,
                        )
                    }
                } else {
                    (ControlMaintenance { last_profile: None, ..self }).buttons_follow(
                        snapshot,
                        now_ns,
                        after,
                        action,
                    )
                }
            },
            (MaintenanceStage::Profile(snapshot), MaintenanceEvent::Sent(sent)) => {
                if sent {
                    (ControlMaintenance {
                        last_profile: self.pending_profile,
                        pending_profile: None,
                        profiles_sent: self.profiles_sent.wrapping_add(1),
                        ..self
                    }).buttons_follow(snapshot, now_ns, after, action)
                } else {
                    &&& after == self.stopped()
                    &&& action == MaintenanceAction::GiveUp(MaintenanceFailure::InteractionProfile)
                }
            },
            (MaintenanceStage::Buttons, MaintenanceEvent::Sent(sent)) => {
                if sent {
                    &&& after == (ControlMaintenance {
                        buttons_sent: self.buttons_sent.wrapping_add(1),
                        ..self
                    }).round_ended()
                    &&& action == MaintenanceAction::Pause
                } else {
                    &&& after == self.stopped()
                    &&& action == MaintenanceAction::GiveUp(MaintenanceFailure::Buttons)
                }
            },
            _ => true,
        }
    }

    /// Takes in what came of the last action, and says what to do next. A round sends a sign of
    /// life where one is due, then the view where the headset woke up or the view changed, then
    /// the controllers where they are due. What cannot be sent ends the connection.
    pub fn advance(
        &mut self,
        event: MaintenanceEvent,
        now_ns: u64,
        recovery: &mut RuntimeVideoRecovery,
    ) -> (action: MaintenanceAction)
        requires
            old(self).expects(event),
        ensures
            old(self).follows(event, now_ns, *old(recovery), *final(self), action),
            *final(recovery) == if old(self).stage == MaintenanceStage::LifecycleViews && event
                == MaintenanceEvent::Sent(true) {
                after_request(*old(recovery), now_ns)
            } else {
                *old(recovery)
            },
    {
        match (self.stage, event) {
            (MaintenanceStage::Round, MaintenanceEvent::Begin { shutdown_requested }) => {
                if shutdown_requested {
                    self.stage = MaintenanceStage::Stopped;
                    MaintenanceAction::Stop
                } else {
                    self.round_ns = now_ns;
                    if now_ns >= self.next_keepalive_ns {
                        self.stage = MaintenanceStage::Keepalive;
                        MaintenanceAction::SendKeepAlive
                    } else {
                        self.stage = MaintenanceStage::Lifecycle;
                        MaintenanceAction::TakeLifecycleRequest
                    }
                }
            },
            (MaintenanceStage::Keepalive, MaintenanceEvent::Sent(sent)) => {
                if !sent {
                    return self.give_up(MaintenanceFailure::Keepalive);
                }
                self.keepalives_sent = self.keepalives_sent.wrapping_add(1);
                self.next_keepalive_ns = self.round_ns.saturating_add(ALVR_KEEPALIVE_INTERVAL_NS);
                self.stage = MaintenanceStage::Lifecycle;
                MaintenanceAction::TakeLifecycleRequest
            },
            (MaintenanceStage::Lifecycle, MaintenanceEvent::Lifecycle(woke_up)) => {
                if woke_up {
                    self.stage = MaintenanceStage::LifecycleViews;
                    MaintenanceAction::SendCurrentViews
                } else {
                    self.stage = MaintenanceStage::Views;
                    MaintenanceAction::ReadViews
                }
            },
            (MaintenanceStage::LifecycleViews, MaintenanceEvent::Sent(sent)) => {
                if !sent {
                    return self.give_up(MaintenanceFailure::LifecycleViewParams);
                }
                if request_runtime_video_stream_recovery(recovery, now_ns) {
                    if request_alvr_idr_if_due(&mut self.last_idr_request_at, now_ns) {
                        self.stage = MaintenanceStage::LifecycleIdr;
                        return MaintenanceAction::RequestIdr;
                    }
                }
                self.stage = MaintenanceStage::Views;
                MaintenanceAction::ReadViews
            },
            (MaintenanceStage::LifecycleIdr, MaintenanceEvent::Sent(_)) => {
                self.stage = MaintenanceStage::Views;
                MaintenanceAction::ReadViews
            },
            (MaintenanceStage::Views, MaintenanceEvent::Views(version)) => {
                match version {
                    Some(version) => {
                        let known: bool = match self.last_views_version {
                            Some(last) => last == version,
                            None => false,
                        };
                        if known {
                            self.proceed_after_views()
                        } else {
                            self.stage = MaintenanceStage::ViewsSend(version);
                            MaintenanceAction::SendViews
                        }
                    },
                    None => self.proceed_after_views(),
                }
            },
            (MaintenanceStage::ViewsSend(version), MaintenanceEvent::Sent(sent)) => {
                if !sent {
                    return self.give_up(MaintenanceFailure::ViewParams);
                }
                self.last_views_version = Some(version);
                self.proceed_after_views()
            },
            (MaintenanceStage::Controllers, MaintenanceEvent::Controllers(snapshot)) => {
                self.proceed_with_controllers(&snapshot, now_ns)
            },
            (MaintenanceStage::Profile(snapshot), MaintenanceEvent::Sent(sent)) => {
                if !sent {
                    return self.give_up(MaintenanceFailure::InteractionProfile);
                }
                let mut profile: Option<ActiveInteractionProfile> = None;
                std::mem::swap(&mut profile, &mut self.pending_profile);
                self.last_profile = profile;
                self.profiles_sent = self.profiles_sent.wrapping_add(1);
                self.proceed_with_buttons(&snapshot, now_ns)
            },
            (MaintenanceStage::Buttons, MaintenanceEvent::Sent(sent)) => {
                if !sent {
                    return self.give_up(MaintenanceFailure::Buttons);
                }
                self.buttons_sent = self.buttons_sent.wrapping_add(1);
                self.end_round();
                MaintenanceAction::Pause
            },
            _ => MaintenanceAction::Stop,
        }
    }
}

// ---------------------------------------------------------------------------
// Laws
// ---------------------------------------------------------------------------

/// Two signs of life are an interval apart: after one was sent, a round that begins before the
/// interval has passed sends none.
pub proof fn law_keepalives_are_spaced(
    before: ControlMaintenance,
    sent_at_ns: u64,
    recovery: RuntimeVideoRecovery,
    sent: ControlMaintenance,
    sent_action: MaintenanceAction,
    later_round: ControlMaintenance,
    begin_ns: u64,
    after: ControlMaintenance,
    action: MaintenanceAction,
)
    requires
        before.stage == MaintenanceStage::Keepalive,
        before.follows(MaintenanceEvent::Sent(true), sent_at_ns, recovery, sent, sent_action),
        later_round.stage == MaintenanceStage::Round,
        later_round.next_keepalive_ns == sent.next_keepalive_ns,
        later_round.follows(
            MaintenanceEvent::Begin { shutdown_requested: false },
            begin_ns,
            recovery,
            after,
            action,
        ),
        begin_ns < before.round_ns + ALVR_KEEPALIVE_INTERVAL_NS <= u64::MAX,
    ensures
        action == MaintenanceAction::TakeLifecycleRequest,
{
}

/// Whatever cannot be sent ends the upkeep, except a request for a key frame.
pub proof fn law_failed_sends_end_the_connection(
    before: ControlMaintenance,
    now_ns: u64,
    recovery: RuntimeVideoRecovery,
    after: ControlMaintenance,
    action: MaintenanceAction,
)
    requires
        before.expects(MaintenanceEvent::Sent(false)),
        before.stage != MaintenanceStage::LifecycleIdr,
        before.follows(MaintenanceEvent::Sent(false), now_ns, recovery, after, action),
    ensures
        after.stage == MaintenanceStage::Stopped,
        action is GiveUp,
{
}

/// The state of the controllers is never sent before the server knows which inputs it speaks of.
pub proof fn law_profile_precedes_the_buttons(
    before: ControlMaintenance,
    snapshot: ControllerSnapshot,
    now_ns: u64,
    recovery: RuntimeVideoRecovery,
    after: ControlMaintenance,
    action: MaintenanceAction,
)
    requires
        before.stage == MaintenanceStage::Controllers,
        before.follows(
            MaintenanceEvent::Controllers(snapshot),
            now_ns,
            recovery,
            after,
            action,
        ),
        action is SendButtons,
    ensures
        after.last_profile matches Some(profile) && announces(profile, snapshot, now_ns),
{
}

/// A version of the view is sent once: while it stays the same, it is not sent again.
pub proof fn law_views_are_sent_once(
    before: ControlMaintenance,
    version: u64,
    now_ns: u64,
    recovery: RuntimeVideoRecovery,
    after: ControlMaintenance,
    action: MaintenanceAction,
)
    requires
        before.stage == MaintenanceStage::ViewsSend(version),
        before.follows(MaintenanceEvent::Sent(true), now_ns, recovery, after, action),
    ensures
        after.last_views_version == Some(version),
        forall|round: ControlMaintenance, time_ns: u64, next: ControlMaintenance, next_action:
            MaintenanceAction|
            {
                &&& round.stage == MaintenanceStage::Views
                &&& round.last_views_version == after.last_views_version
                &&& #[trigger] round.follows(
                    MaintenanceEvent::Views(Some(version)),
                    time_ns,
                    recovery,
                    next,
                    next_action,
                )
            } ==> next_action != MaintenanceAction::SendViews,
{
}

/// A view that the server was not sent is sent: whatever version was sent last, a version that
/// differs from it is sent next, and counts as sent once the sending succeeded.
pub proof fn law_new_views_are_sent(
    before: ControlMaintenance,
    version: u64,
    now_ns: u64,
    recovery: RuntimeVideoRecovery,
    after: ControlMaintenance,
    action: MaintenanceAction,
)
    requires
        before.stage == MaintenanceStage::Views,
        before.last_views_version != Some(version),
        before.follows(
            MaintenanceEvent::Views(Some(version)),
            now_ns,
            recovery,
            after,
            action,
        ),
    ensures
        action == MaintenanceAction::SendViews,
        after.stage == MaintenanceStage::ViewsSend(version),
        after.last_views_version == before.last_views_version,
        forall|sent_ns: u64, next: ControlMaintenance, next_action: MaintenanceAction|
            #[trigger] after.follows(
                MaintenanceEvent::Sent(true),
                sent_ns,
                recovery,
                next,
                next_action,
            ) ==> next.last_views_version == Some(version),
{
}

/// A headset without a view sends none: the controllers are next where they are due.
pub proof fn law_no_view_is_no_message(
    before: ControlMaintenance,
    now_ns: u64,
    recovery: RuntimeVideoRecovery,
    after: ControlMaintenance,
    action: MaintenanceAction,
)
    requires
        before.stage == MaintenanceStage::Views,
        before.follows(MaintenanceEvent::Views(None), now_ns, recovery, after, action),
    ensures
        after.last_views_version == before.last_views_version,
        before.round_ns >= before.next_buttons_ns ==> action
            == MaintenanceAction::ReadControllers && after.stage == MaintenanceStage::Controllers,
        before.round_ns < before.next_buttons_ns ==> action == MaintenanceAction::Pause
            && after.stage == MaintenanceStage::Round,
{
}

/// Signs of life are sent twice a second: a round sends one if and only if half a second has
/// passed since the round that sent the last one. The first round sends one.
pub proof fn law_keepalives_are_due_twice_a_second(
    before: ControlMaintenance,
    sent_at_ns: u64,
    recovery: RuntimeVideoRecovery,
    sent: ControlMaintenance,
    sent_action: MaintenanceAction,
    later_round: ControlMaintenance,
    begin_ns: u64,
    after: ControlMaintenance,
    action: MaintenanceAction,
)
    requires
        before.stage == MaintenanceStage::Keepalive,
        before.follows(MaintenanceEvent::Sent(true), sent_at_ns, recovery, sent, sent_action),
        before.round_ns + 500_000_000 <= u64::MAX,
        later_round.stage == MaintenanceStage::Round,
        later_round.next_keepalive_ns == sent.next_keepalive_ns,
        later_round.follows(
            MaintenanceEvent::Begin { shutdown_requested: false },
            begin_ns,
            recovery,
            after,
            action,
        ),
    ensures
        sent_action == MaintenanceAction::TakeLifecycleRequest,
        sent.keepalives_sent == before.keepalives_sent.wrapping_add(1),
        begin_ns >= before.round_ns + 500_000_000 <==> action == MaintenanceAction::SendKeepAlive,
        action == MaintenanceAction::SendKeepAlive <==> after.stage == MaintenanceStage::Keepalive,
        action != MaintenanceAction::SendKeepAlive ==> action
            == MaintenanceAction::TakeLifecycleRequest,
        after.round_ns == begin_ns,
{
}

/// The controllers are read thirty times a second: after a round that dealt with them, a round
/// that begins less than 33 milliseconds later leaves them out, and a later one reads them.
pub proof fn law_controllers_are_read_in_time(
    before: ControlMaintenance,
    sent_at_ns: u64,
    recovery: RuntimeVideoRecovery,
    sent: ControlMaintenance,
    sent_action: MaintenanceAction,
    later_round: ControlMaintenance,
    now_ns: u64,
    after: ControlMaintenance,
    action: MaintenanceAction,
)
    requires
        before.stage == MaintenanceStage::Buttons,
        before.follows(MaintenanceEvent::Sent(true), sent_at_ns, recovery, sent, sent_action),
        before.round_ns + 33_000_000 <= u64::MAX,
        later_round.stage == MaintenanceStage::Views,
        later_round.next_buttons_ns == sent.next_buttons_ns,
        later_round.follows(MaintenanceEvent::Views(None), now_ns, recovery, after, action),
    ensures
        sent.stage == MaintenanceStage::Round,
        sent_action == MaintenanceAction::Pause,
        sent.buttons_sent == before.buttons_sent.wrapping_add(1),
        later_round.round_ns < before.round_ns + 33_000_000 ==> action
            == MaintenanceAction::Pause,
        later_round.round_ns >= before.round_ns + 33_000_000 ==> action
            == MaintenanceAction::ReadControllers,
{
}

/// A headset that woke up sends its view, known or not, and then asks for a key frame unless
/// one was asked for a moment ago. One that did not goes on to the versions of the view.
pub proof fn law_waking_up_refreshes_the_stream(
    before: ControlMaintenance,
    woke_up: bool,
    now_ns: u64,
    recovery: RuntimeVideoRecovery,
    after: ControlMaintenance,
    action: MaintenanceAction,
    sent_ns: u64,
    next: ControlMaintenance,
    next_action: MaintenanceAction,
)
    requires
        before.stage == MaintenanceStage::Lifecycle,
        before.follows(MaintenanceEvent::Lifecycle(woke_up), now_ns, recovery, after, action),
        after.stage == MaintenanceStage::LifecycleViews ==> after.follows(
            MaintenanceEvent::Sent(true),
            sent_ns,
            recovery,
            next,
            next_action,
        ),
    ensures
        action == if woke_up {
            MaintenanceAction::SendCurrentViews
        } else {
            MaintenanceAction::ReadViews
        },
        !woke_up ==> after.stage == MaintenanceStage::Views,
        woke_up && recovery.state.accepts(sent_ns) && before.last_idr_request_at is None ==> {
            &&& next_action == MaintenanceAction::RequestIdr
            &&& next.last_idr_request_at == Some(sent_ns)
        },
        woke_up && !recovery.state.accepts(sent_ns) ==> {
            &&& next_action == MaintenanceAction::ReadViews
            &&& next.last_idr_request_at == before.last_idr_request_at
        },
{
}

/// Inputs that the server does not know are announced, and once the announcement was sent the
/// server knows them: the same hands are not announced again while they count.
pub proof fn law_new_inputs_are_announced_once(
    before: ControlMaintenance,
    snapshot: ControllerSnapshot,
    now_ns: u64,
    recovery: RuntimeVideoRecovery,
    after: ControlMaintenance,
    action: MaintenanceAction,
    next: ControlMaintenance,
    next_action: MaintenanceAction,
)
    requires
        before.stage == MaintenanceStage::Controllers,
        any_fresh(snapshot, now_ns),
        before.last_profile is None || !announces(before.last_profile->0, snapshot, now_ns),
        before.follows(
            MaintenanceEvent::Controllers(snapshot),
            now_ns,
            recovery,
            after,
            action,
        ),
        after.follows(MaintenanceEvent::Sent(true), now_ns, recovery, next, next_action),
    ensures
        action == MaintenanceAction::SendProfile,
        after.stage == MaintenanceStage::Profile(snapshot),
        after.pending_profile is Some,
        next.last_profile == after.pending_profile,
        next.pending_profile is None,
        next.profiles_sent == before.profiles_sent.wrapping_add(1),
        next_action matches MaintenanceAction::SendButtons(entries) && entries@ == button_entries(
            snapshot,
            now_ns,
        ),
        forall|
            round: ControlMaintenance,
            last: ControlMaintenance,
            last_action: MaintenanceAction,
        |
            {
                &&& round.stage == MaintenanceStage::Controllers
                &&& round.last_profile == next.last_profile
                &&& #[trigger] round.follows(
                    MaintenanceEvent::Controllers(snapshot),
                    now_ns,
                    recovery,
                    last,
                    last_action,
                )
            } ==> last_action is SendButtons,
{
    assert(button_entries(snapshot, now_ns).len() > 0);
}

/// While neither hand counts nothing is sent, and what was announced is forgotten: it is
/// announced again once a hand is back.
pub proof fn law_lost_hands_are_announced_again(
    before: ControlMaintenance,
    snapshot: ControllerSnapshot,
    now_ns: u64,
    recovery: RuntimeVideoRecovery,
    after: ControlMaintenance,
    action: MaintenanceAction,
)
    requires
        before.stage == MaintenanceStage::Controllers,
        !any_fresh(snapshot, now_ns),
        before.follows(
            MaintenanceEvent::Controllers(snapshot),
            now_ns,
            recovery,
            after,
            action,
        ),
    ensures
        action == MaintenanceAction::Pause,
        after.stage == MaintenanceStage::Round,
        after.last_profile is None,
        forall|
            round: ControlMaintenance,
            back: ControllerSnapshot,
            time_ns: u64,
            next: ControlMaintenance,
            next_action: MaintenanceAction,
        |
            {
                &&& round.stage == MaintenanceStage::Controllers
                &&& round.last_profile == after.last_profile
                &&& any_fresh(back, time_ns)
                &&& #[trigger] round.follows(
                    MaintenanceEvent::Controllers(back),
                    time_ns,
                    recovery,
                    next,
                    next_action,
                )
            } ==> next_action == MaintenanceAction::SendProfile,
{
}

/// A failure is named after what could not be sent.
pub proof fn law_failures_name_what_failed(
    before: ControlMaintenance,
    now_ns: u64,
    recovery: RuntimeVideoRecovery,
    after: ControlMaintenance,
    action: MaintenanceAction,
)
    requires
        before.expects(MaintenanceEvent::Sent(false)),
        before.stage != MaintenanceStage::LifecycleIdr,
        before.follows(MaintenanceEvent::Sent(false), now_ns, recovery, after, action),
    ensures
        action matches MaintenanceAction::GiveUp(failure) && failure.spec_text()
            == match before.stage {
            MaintenanceStage::Keepalive => "keepalive send failure"@,
            MaintenanceStage::LifecycleViews => "lifecycle LocalViewParams refresh failure"@,
            MaintenanceStage::ViewsSend(_) => "LocalViewParams update failure"@,
            MaintenanceStage::Profile(_) => "ActiveInteractionProfile send failure"@,
            _ => "Buttons send failure"@,
        },
{
}

/// A session that is about to end stops the upkeep at the next round, whatever is due.
pub proof fn law_shutdown_stops_the_upkeep(
    before: ControlMaintenance,
    now_ns: u64,
    recovery: RuntimeVideoRecovery,
    after: ControlMaintenance,
    action: MaintenanceAction,
)
    requires
        before.stage == MaintenanceStage::Round,
        before.follows(
            MaintenanceEvent::Begin { shutdown_requested: true },
            now_ns,
            recovery,
            after,
            action,
        ),
    ensures
        action == MaintenanceAction::Stop,
        after.stage == MaintenanceStage::Stopped,
        forall|event: MaintenanceEvent| !after.expects(event),
{
}

/// Whenever the view's version differs from the one that was sent last, the upkeep sends it; the
/// recovery is left alone.
pub proof fn law_upkeep_sends_new_views(version: u64, now_ns: u64, action: MaintenanceAction)
    ensures
        forall|maintenance: &mut ControlMaintenance, recovery: &mut RuntimeVideoRecovery|
            (*maintenance).stage == MaintenanceStage::Views && #[trigger] call_ensures(
                ControlMaintenance::advance,
                (maintenance, MaintenanceEvent::Views(Some(version)), now_ns, recovery),
                action,
            ) ==> {
                &&& (*maintenance).last_views_version != Some(version) ==> action
                    == MaintenanceAction::SendViews && final(maintenance).stage
                    == MaintenanceStage::ViewsSend(version)
                &&& (*maintenance).last_views_version == Some(version) ==> action
                    != MaintenanceAction::SendViews
                &&& *final(recovery) == *recovery
            },
{
}

/// A view that was sent to a headset that woke up starts a recovery of the stream. Nothing else
/// that the upkeep does touches the recovery.
pub proof fn law_only_waking_up_starts_a_recovery(
    event: MaintenanceEvent,
    now_ns: u64,
    action: MaintenanceAction,
)
    ensures
        forall|maintenance: &mut ControlMaintenance, recovery: &mut RuntimeVideoRecovery|
            (*maintenance).expects(event) && #[trigger] call_ensures(
                ControlMaintenance::advance,
                (maintenance, event, now_ns, recovery),
                action,
            ) ==> {
                let woken = (*maintenance).stage == MaintenanceStage::LifecycleViews && event
                    == MaintenanceEvent::Sent(true);
                &&& !woken ==> *final(recovery) == *recovery
                &&& woken && (*recovery).state.accepts(now_ns) ==> final(recovery).requested
                    && final(recovery).state.queued
            },
{
}

/// The upkeep starts with a round that is due at once, having sent nothing but the view that the
/// server knows.
pub proof fn law_upkeep_starts_at_once(
    now_ns: u64,
    views_version: Option<u64>,
    maintenance: ControlMaintenance,
)
    requires
        call_ensures(ControlMaintenance::new, (now_ns, views_version), maintenance),
    ensures
        maintenance.stage == MaintenanceStage::Round,
        maintenance.next_keepalive_ns == now_ns && maintenance.next_buttons_ns == now_ns,
        maintenance.last_views_version == views_version,
        maintenance.last_profile is None && maintenance.pending_profile is None,
        maintenance.last_idr_request_at is None,
        maintenance.keepalives_sent == 0 && maintenance.profiles_sent == 0
            && maintenance.buttons_sent == 0,
{
}

/// Between two rounds the upkeep waits for a fortieth of a second.
pub proof fn law_rounds_are_a_fortieth_apart()
    ensures
        40 * MAINTENANCE_PAUSE_NS == 1_000_000_000,
{
}

} // verus!
