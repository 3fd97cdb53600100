//! One poll of the detection loop: whether to look for a call at all, and what
//! to do with what was found.

use crate::config;
use crate::config::{CallDetectionConfig, ConfigModel};
use crate::countdown;
use crate::countdown::{
    arm_call_end_countdown, decide_no_call_action, CallEndAutoStopHandles, CallEndedPayload,
    NoCallDecision,
};
use crate::detector;
use crate::detector::{
    CallDetector, DetectActiveCallResult, Detection, DetectionTransition, DetectorModel,
    SessionModel,
};
use crate::text::joined;
use vstd::prelude::*;

verus! {

/// How long the first poll waits, so that the application can finish launching.
pub const FIRST_POLL_DELAY_SECS: u64 = 5;

/// How long a poll waits while detection is disabled.
pub const DISABLED_POLL_SECS: u64 = 1;

/// Emitted to the frontend when a call is detected.
#[derive(Debug, Clone, PartialEq, Eq)]
pub struct CallDetectedPayload {
    pub app_name: String,
    pub process_name: String,
    /// `true` for follow-up reminders about the same ongoing call.
    /// The frontend should NOT steal focus on reminders.
    pub is_reminder: bool,
}

/// Whether a poll looks for a call.
#[derive(Debug, Clone, Copy, PartialEq, Eq, Structural)]
pub enum PollGate {
    /// Something else is recording: leave it alone.
    Skip,
    Detect,
}

/// When something else is recording (manually, by hotkey, dictation, live
/// transcript), detection is skipped entirely. Calls are observed during a
/// recording only where the detector's own banner launched it and the user
/// opted into auto-stop.
pub open spec fn poll_gate(
    config: ConfigModel,
    is_recording: bool,
    minutes_audio_active: bool,
    started_by_call_detect: bool,
) -> PollGate {
    if (is_recording || minutes_audio_active) && !(started_by_call_detect
        && config.stop_when_call_ends) {
        PollGate::Skip
    } else {
        PollGate::Detect
    }
}

/// What the loop is to do after a poll.
#[derive(Debug)]
pub enum PollAction {
    Nothing,
    /// Tell the user of the call.
    Announce(CallDetectedPayload),
    /// Ask the user for permission to control a browser.
    WarnPermission { title: String, body: String },
    /// Tell the frontend that the call is over, and start ticking.
    StartCountdown(CallEndedPayload),
}

/// What the loop is to do, with its texts as sequences of characters.
pub enum ActionModel {
    Nothing,
    Announce { app_name: Seq<char>, process_name: Seq<char>, is_reminder: bool },
    WarnPermission { title: Seq<char>, body: Seq<char> },
    StartCountdown { app_name: Seq<char>, process_name: Seq<char>, countdown_secs: u64 },
}

impl View for PollAction {
    type V = ActionModel;

    open spec fn view(&self) -> ActionModel {
        match *self {
            PollAction::Nothing => ActionModel::Nothing,
            PollAction::Announce(payload) => ActionModel::Announce {
                app_name: payload.app_name@,
                process_name: payload.process_name@,
                is_reminder: payload.is_reminder,
            },
            PollAction::WarnPermission { title, body } => ActionModel::WarnPermission {
                title: title@,
                body: body@,
            },
            PollAction::StartCountdown(payload) => ActionModel::StartCountdown {
                app_name: payload.app_name@,
                process_name: payload.process_name@,
                countdown_secs: payload.countdown_secs,
            },
        }
    }
}

pub open spec fn permission_body(browser_app: Seq<char>) -> Seq<char> {
    "Allow Minutes to control "@ + browser_app
        + " in System Settings > Privacy & Security > Automation so Meet and Teams detection can see browser tabs."@
}

/// The state of the loop: the session that is going on and the flags of the
/// countdown.
pub struct LoopState {
    pub session: Option<SessionModel>,
    pub handles: CallEndAutoStopHandles,
}

/// What a poll knows besides what it found.
pub struct PollFacts {
    pub is_recording: bool,
    pub started_by_call_detect: bool,
    pub now: u64,
}

pub open spec fn start_countdown(s: SessionModel, config: ConfigModel) -> ActionModel {
    ActionModel::StartCountdown {
        app_name: s.display_name,
        process_name: s.process_name,
        countdown_secs: countdown::countdown_length(config.call_end_stop_countdown_secs),
    }
}

/// What to do with what a poll found, and the state after it.
///
/// A call that came back while its recording goes on lets its end be
/// announced anew, and calls off a countdown that a passing lull had armed.
pub open spec fn poll_outcome(
    state: LoopState,
    config: ConfigModel,
    facts: PollFacts,
    found: Detection,
) -> (LoopState, ActionModel) {
    match found {
        Detection::Call { display_name, process_name } => {
            let own = facts.is_recording && facts.started_by_call_detect;
            let session = if own {
                detector::latched(state.session, false)
            } else {
                state.session
            };
            let handles = if own && state.handles.countdown_active {
                CallEndAutoStopHandles { countdown_cancel: true, ..state.handles }
            } else {
                state.handles
            };
            let change = detector::transition(session, process_name, facts.now);
            (
                LoopState {
                    session: detector::noted_session(
                        session,
                        process_name,
                        display_name,
                        facts.now,
                    ),
                    handles,
                },
                if change == DetectionTransition::Noop {
                    ActionModel::Nothing
                } else {
                    ActionModel::Announce {
                        app_name: display_name,
                        process_name,
                        is_reminder: change == DetectionTransition::Reminder,
                    }
                },
            )
        },
        Detection::PermissionWarning { browser_app } => (
            LoopState { session: None, ..state },
            ActionModel::WarnPermission {
                title: "Browser meeting detection needs access"@,
                body: permission_body(browser_app),
            },
        ),
        Detection::NoCall => {
            let fired = match state.session {
                Some(s) => s.call_end_fired,
                None => false,
            };
            match (
                countdown::no_call_action(
                    facts.is_recording,
                    facts.started_by_call_detect,
                    config.stop_when_call_ends,
                    state.handles.countdown_active,
                    fired,
                    state.handles.countdown_terminal_state,
                ),
                state.session,
            ) {
                (NoCallDecision::ArmCountdown, Some(s)) => (
                    LoopState {
                        session: detector::latched(state.session, true),
                        handles: countdown::armed(state.handles),
                    },
                    start_countdown(s, config),
                ),
                (NoCallDecision::RearmCountdown, Some(s)) => (
                    LoopState { handles: countdown::armed(state.handles), ..state },
                    start_countdown(s, config),
                ),
                (NoCallDecision::ClearIfStale, _) => (
                    LoopState { session: None, ..state },
                    ActionModel::Nothing,
                ),
                _ => (state, ActionModel::Nothing),
            }
        },
    }
}

impl CallDetector {
    /// What the loop does while detection is switched off: forget the session.
    pub fn poll_disabled(&mut self) -> (previous: Option<String>)
        ensures
            match (previous, old(self)@.active_call) {
                (Some(process_name), Some(s)) => process_name@ == s.process_name,
                (None, None) => true,
                _ => false,
            },
            final(self)@ == (DetectorModel { active_call: None, ..old(self)@ }),
    {
        self.clear_active_call()
    }

    /// Whether this poll looks for a call. A session of this application's
    /// own audio ends the call session that was remembered.
    pub fn gate_poll(
        &mut self,
        config: &CallDetectionConfig,
        is_recording: bool,
        minutes_audio_active: bool,
        started_by_call_detect: bool,
    ) -> (gate: PollGate)
        ensures
            gate == poll_gate(config@, is_recording, minutes_audio_active, started_by_call_detect),
            final(self)@ == (if gate == PollGate::Skip && minutes_audio_active {
                DetectorModel { active_call: None, ..old(self)@ }
            } else {
                old(self)@
            }),
    {
        if (is_recording || minutes_audio_active) && !(started_by_call_detect
            && config.stop_when_call_ends) {
            if minutes_audio_active {
                let _ = self.clear_active_call();
            }
            return PollGate::Skip;
        }
        PollGate::Detect
    }

    /// Takes what a poll found.
    pub fn on_poll_result(
        &mut self,
        auto_stop: &mut CallEndAutoStopHandles,
        config: &CallDetectionConfig,
        is_recording: bool,
        started_by_call_detect: bool,
        found: DetectActiveCallResult,
        now: u64,
    ) -> (action: PollAction)
        ensures
            ({
                let (after, todo) = poll_outcome(
                    LoopState { session: old(self)@.active_call, handles: *old(auto_stop) },
                    config@,
                    PollFacts { is_recording, started_by_call_detect, now },
                    found@,
                );
                &&& action@ == todo
                &&& *final(auto_stop) == after.handles
                &&& final(self)@ == (DetectorModel { active_call: after.session, ..old(self)@ })
            }),
    {
        match found {
            DetectActiveCallResult::Detected { display_name, process_name } => {
                if is_recording && started_by_call_detect {
                    if auto_stop.countdown_active {
                        auto_stop.countdown_cancel = true;
                    }
                    self.reset_call_end_latch();
                }
                match self.note_active_call(process_name.as_str(), display_name.as_str(), now) {
                    DetectionTransition::Noop => PollAction::Nothing,
                    change => PollAction::Announce(
                        CallDetectedPayload {
                            app_name: display_name,
                            process_name,
                            is_reminder: change == DetectionTransition::Reminder,
                        },
                    ),
                }
            },
            DetectActiveCallResult::PermissionWarning { browser_app } => {
                let _ = self.clear_active_call();
                PollAction::WarnPermission {
                    title: "Browser meeting detection needs access".to_owned(),
                    body: joined("Allow Minutes to control ", browser_app.as_str()).concat(
                        " in System Settings > Privacy & Security > Automation so Meet and Teams detection can see browser tabs.",
                    ),
                }
            },
            DetectActiveCallResult::NoCall => {
                let snapshot = self.active_call_snapshot();
                let call_end_fired = match &snapshot {
                    Some((_, _, already_fired)) => *already_fired,
                    None => false,
                };
                match decide_no_call_action(
                    is_recording,
                    started_by_call_detect,
                    config.stop_when_call_ends,
                    auto_stop.countdown_active,
                    call_end_fired,
                    auto_stop.countdown_terminal_state,
                ) {
                    NoCallDecision::DeferToCountdown => PollAction::Nothing,
                    NoCallDecision::ArmCountdown => {
                        if let Some((process_name, display_name, _)) = snapshot {
                            self.mark_call_end_fired();
                            match arm_call_end_countdown(
                                auto_stop,
                                display_name.as_str(),
                                process_name.as_str(),
                                config.call_end_stop_countdown_secs,
                            ) {
                                Some(payload) => PollAction::StartCountdown(payload),
                                None => PollAction::Nothing,
                            }
                        } else {
                            PollAction::Nothing
                        }
                    },
                    NoCallDecision::RearmCountdown => {
                        if let Some((process_name, display_name, _)) = snapshot {
                            match arm_call_end_countdown(
                                auto_stop,
                                display_name.as_str(),
                                process_name.as_str(),
                                config.call_end_stop_countdown_secs,
                            ) {
                                Some(payload) => PollAction::StartCountdown(payload),
                                None => PollAction::Nothing,
                            }
                        } else {
                            PollAction::Nothing
                        }
                    },
                    NoCallDecision::ClearIfStale => {
                        let _ = self.clear_active_call();
                        PollAction::Nothing
                    },
                }
            },
        }
    }
}

/// While a countdown ticks, a poll that sees no call leaves the session and
/// the flags alone and starts nothing.
pub proof fn lemma_ticking_countdown_is_left_alone(
    state: LoopState,
    config: ConfigModel,
    facts: PollFacts,
)
    requires
        state.handles.countdown_active,
    ensures
        poll_outcome(state, config, facts, Detection::NoCall) == (state, ActionModel::Nothing),
{
}

/// The end of a session is announced once: after that a poll that sees no
/// call starts a countdown again only where the last one was orphaned.
pub proof fn lemma_call_end_is_announced_once(
    state: LoopState,
    config: ConfigModel,
    facts: PollFacts,
    later: PollFacts,
)
    requires
        poll_outcome(
            state,
            config,
            facts,
            Detection::NoCall,
        ).1 is StartCountdown,
    ensures
        ({
            let after = poll_outcome(state, config, facts, Detection::NoCall).0;
            &&& after.session matches Some(s) && s.call_end_fired
            &&& after.handles.countdown_active
            &&& forall|handles: CallEndAutoStopHandles|
                #![trigger poll_outcome(
                    LoopState { session: after.session, handles },
                    config,
                    later,
                    Detection::NoCall,
                )]
                handles.countdown_active || handles.countdown_terminal_state
                    != countdown::CallEndCountdownTerminalState::NotEnded ==> !(poll_outcome(
                    LoopState { session: after.session, handles },
                    config,
                    later,
                    Detection::NoCall,
                ).1 is StartCountdown)
        }),
{
}

/// A call of another application is a new session, announced at once, whose
/// end has not been announced.
pub proof fn lemma_another_call_is_a_new_session(
    state: LoopState,
    config: ConfigModel,
    facts: PollFacts,
    display_name: Seq<char>,
    process_name: Seq<char>,
)
    requires
        state.session matches Some(s) ==> s.process_name != process_name,
    ensures
        ({
            let (after, action) = poll_outcome(
                state,
                config,
                facts,
                Detection::Call { display_name, process_name },
            );
            &&& action == (ActionModel::Announce {
                app_name: display_name,
                process_name,
                is_reminder: false,
            })
            &&& after.session == Some(
                SessionModel {
                    process_name,
                    display_name,
                    last_notified_at: facts.now,
                    call_end_fired: false,
                },
            )
        }),
{
}

/// The same call is announced again only as a reminder, and not within the
/// reminder interval.
pub proof fn lemma_same_call_is_only_reminded(
    state: LoopState,
    config: ConfigModel,
    facts: PollFacts,
    display_name: Seq<char>,
    process_name: Seq<char>,
)
    requires
        state.session matches Some(s) && s.process_name == process_name,
    ensures
        ({
            let action = poll_outcome(
                state,
                config,
                facts,
                Detection::Call { display_name, process_name },
            ).1;
            if facts.now >= state.session->0.last_notified_at + detector::SAME_APP_REMINDER_SECS
                * crate::deadlines::NANOS_PER_SEC {
                action == (ActionModel::Announce {
                    app_name: display_name,
                    process_name,
                    is_reminder: true,
                })
            } else {
                action == ActionModel::Nothing
            }
        }),
{
}

/// A call that comes back while the countdown for it ticks calls the
/// countdown off: the next tick ends it without stopping the recording, and
/// when the call is over again a new one is armed.
pub proof fn lemma_returning_call_is_not_stopped(
    state: LoopState,
    config: ConfigModel,
    facts: PollFacts,
    display_name: Seq<char>,
    process_name: Seq<char>,
    elapsed_millis: u64,
    countdown_secs: u64,
    later: PollFacts,
)
    requires
        facts.is_recording && facts.started_by_call_detect,
        state.handles.countdown_active,
        state.handles.countdown_terminal_state
            == countdown::CallEndCountdownTerminalState::NotEnded,
        !state.handles.stop_flag,
        config.stop_when_call_ends,
        later.is_recording && later.started_by_call_detect,
    ensures
        ({
            let back = poll_outcome(
                state,
                config,
                facts,
                Detection::Call { display_name, process_name },
            ).0;
            let tick = countdown::tick_outcome(
                back.handles,
                true,
                elapsed_millis,
                countdown_secs,
            );
            let quiet = countdown::after_tick(back.handles, tick);
            &&& tick is Cancelled
            &&& !quiet.stop_flag
            &&& poll_outcome(
                LoopState { session: back.session, handles: quiet },
                config,
                later,
                Detection::NoCall,
            ).1 is StartCountdown
        }),
{
}

/// A call that is over is acted on: where call detection started the
/// recording and the user asked for it, the frontend is told and a countdown
/// starts, and when its time is up the recording is told to stop.
pub proof fn lemma_ended_call_stops_its_recording(
    state: LoopState,
    config: ConfigModel,
    facts: PollFacts,
    elapsed_millis: u64,
)
    requires
        state.session is Some,
        !(state.session->0).call_end_fired,
        !state.handles.countdown_active,
        facts.is_recording && facts.started_by_call_detect,
        config.stop_when_call_ends,
    ensures
        ({
            let (after, action) = poll_outcome(state, config, facts, Detection::NoCall);
            &&& action matches ActionModel::StartCountdown {
                app_name,
                process_name,
                countdown_secs,
            } && app_name == (state.session->0).display_name && process_name == (
            state.session->0).process_name && (elapsed_millis >= countdown_secs * 1000
                ==> countdown::after_tick(
                after.handles,
                countdown::tick_outcome(after.handles, true, elapsed_millis, countdown_secs),
            ).stop_flag)
        }),
{
}

/// A call that is over is forgotten: where no countdown ticks and no recording
/// that call detection started is to be stopped, a poll that sees no call ends
/// the session and does nothing else. The next call is then announced as a new
/// one, be it of the same application.
pub proof fn lemma_next_call_is_announced(
    state: LoopState,
    config: ConfigModel,
    facts: PollFacts,
    later: PollFacts,
    display_name: Seq<char>,
    process_name: Seq<char>,
)
    requires
        !state.handles.countdown_active,
        !(facts.is_recording && facts.started_by_call_detect && config.stop_when_call_ends),
    ensures
        ({
            let (over, action) = poll_outcome(state, config, facts, Detection::NoCall);
            let (next, announced) = poll_outcome(
                over,
                config,
                later,
                Detection::Call { display_name, process_name },
            );
            &&& over.session is None
            &&& over.handles == state.handles
            &&& action == ActionModel::Nothing
            &&& announced == (ActionModel::Announce {
                app_name: display_name,
                process_name,
                is_reminder: false,
            })
            &&& next.session matches Some(s) && s.process_name == process_name && s.display_name
                == display_name && s.last_notified_at == later.now && !s.call_end_fired
        }),
{
}

/// Two announcements of one call are at least twenty seconds apart: after one
/// at any moment the same call is passed over until then, and then it is a
/// reminder, after which the twenty seconds begin again.
pub proof fn lemma_reminders_are_twenty_seconds_apart(
    state: LoopState,
    config: ConfigModel,
    facts: PollFacts,
    later: PollFacts,
    display_name: Seq<char>,
    process_name: Seq<char>,
)
    requires
        poll_outcome(
            state,
            config,
            facts,
            Detection::Call { display_name, process_name },
        ).1 is Announce,
    ensures
        ({
            let call = Detection::Call { display_name, process_name };
            let told = poll_outcome(state, config, facts, call).0;
            let (after, action) = poll_outcome(told, config, later, call);
            &&& action == (if later.now >= facts.now + 20_000_000_000 {
                ActionModel::Announce { app_name: display_name, process_name, is_reminder: true }
            } else {
                ActionModel::Nothing
            })
            &&& after.session matches Some(s) && s.last_notified_at == (if later.now >= facts.now
                + 20_000_000_000 {
                later.now
            } else {
                facts.now
            })
        }),
{
}

/// A poll that finds a call keeps the flags as they are, but for calling off a
/// countdown that ticks for the recording that call detection started; in
/// that recording the end of the call can be announced anew.
pub proof fn lemma_found_call_only_calls_off_the_countdown(
    state: LoopState,
    config: ConfigModel,
    facts: PollFacts,
    display_name: Seq<char>,
    process_name: Seq<char>,
)
    ensures
        ({
            let after = poll_outcome(
                state,
                config,
                facts,
                Detection::Call { display_name, process_name },
            ).0;
            let own = facts.is_recording && facts.started_by_call_detect;
            &&& after.handles.countdown_cancel == (state.handles.countdown_cancel || (own
                && state.handles.countdown_active))
            &&& after.handles.countdown_active == state.handles.countdown_active
            &&& after.handles.countdown_terminal_state == state.handles.countdown_terminal_state
            &&& after.handles.stop_flag == state.handles.stop_flag
            &&& after.handles.recording_started_by_call_detect
                == state.handles.recording_started_by_call_detect
            &&& after.session matches Some(s) && s.process_name == process_name && (own
                ==> !s.call_end_fired)
            &&& !own && state.session is Some && (state.session->0).process_name == process_name
                ==> (after.session->0).call_end_fired == (state.session->0).call_end_fired
            &&& state.session is Some && (state.session->0).process_name == process_name ==> (
            after.session->0).display_name == (state.session->0).display_name
        }),
{
}

/// The countdown for a call that is over lasts as long as the settings say,
/// and a second at least; the session stays, with its end announced, and
/// nothing has been stopped yet.
pub proof fn lemma_countdown_lasts_as_configured(
    state: LoopState,
    config: ConfigModel,
    facts: PollFacts,
)
    requires
        poll_outcome(state, config, facts, Detection::NoCall).1 is StartCountdown,
    ensures
        ({
            let (after, action) = poll_outcome(state, config, facts, Detection::NoCall);
            &&& action->countdown_secs >= 1
            &&& config.call_end_stop_countdown_secs >= 1 ==> action->countdown_secs
                == config.call_end_stop_countdown_secs
            &&& config.call_end_stop_countdown_secs == 0 ==> action->countdown_secs == 1
            &&& after.session matches Some(s) && s.call_end_fired && Some(
                SessionModel { call_end_fired: (state.session->0).call_end_fired, ..s },
            ) == state.session
            &&& after.handles.countdown_active && !after.handles.countdown_cancel
            &&& after.handles.stop_flag == state.handles.stop_flag
            &&& after.handles.recording_started_by_call_detect
                == state.handles.recording_started_by_call_detect
        }),
{
}

/// A countdown that vanished without an end is started again, so that the
/// recording does not run on for ever.
pub proof fn lemma_orphaned_countdown_is_started_again(
    state: LoopState,
    config: ConfigModel,
    facts: PollFacts,
)
    requires
        state.session is Some,
        !state.handles.countdown_active,
        state.handles.countdown_terminal_state
            == countdown::CallEndCountdownTerminalState::NotEnded,
        facts.is_recording && facts.started_by_call_detect,
        config.stop_when_call_ends,
    ensures
        poll_outcome(state, config, facts, Detection::NoCall).1
            matches ActionModel::StartCountdown { app_name, process_name, .. } && app_name == (
        state.session->0).display_name && process_name == (state.session->0).process_name,
{
}

/// A user who keeps recording is not asked again: once a countdown that was
/// announced has come to an end of its own, a poll that sees no call forgets
/// the session and starts nothing.
pub proof fn lemma_kept_recording_is_left_alone(
    state: LoopState,
    config: ConfigModel,
    facts: PollFacts,
)
    requires
        state.session is Some,
        (state.session->0).call_end_fired,
        !state.handles.countdown_active,
        state.handles.countdown_terminal_state
            != countdown::CallEndCountdownTerminalState::NotEnded,
    ensures
        ({
            let (after, action) = poll_outcome(state, config, facts, Detection::NoCall);
            &&& after.session is None
            &&& after.handles == state.handles
            &&& action == ActionModel::Nothing
        }),
{
}

/// A poll without a call or a session to end starts nothing and invents no
/// session.
pub proof fn lemma_nothing_comes_of_nothing(
    state: LoopState,
    config: ConfigModel,
    facts: PollFacts,
)
    requires
        state.session is None,
    ensures
        poll_outcome(state, config, facts, Detection::NoCall) == (state, ActionModel::Nothing),
{
}

/// A browser that may not be controlled ends the session, and the user is told
/// of that browser by its name; the flags stay.
pub proof fn lemma_user_is_told_of_the_browser(
    state: LoopState,
    config: ConfigModel,
    facts: PollFacts,
    browser_app: Seq<char>,
)
    ensures
        ({
            let (after, action) = poll_outcome(
                state,
                config,
                facts,
                Detection::PermissionWarning { browser_app },
            );
            &&& after.session is None
            &&& after.handles == state.handles
            &&& action matches ActionModel::WarnPermission { title, body } && title
                == "Browser meeting detection needs access"@ && body
                == "Allow Minutes to control "@ + browser_app
                + " in System Settings > Privacy & Security > Automation so Meet and Teams detection can see browser tabs."@
        }),
{
}

/// A call is looked for unless something of this application's own listens:
/// then only where that is the recording that call detection started, by a
/// user who wants it stopped with the call.
pub proof fn lemma_when_a_call_is_looked_for(
    config: ConfigModel,
    is_recording: bool,
    minutes_audio_active: bool,
    started_by_call_detect: bool,
)
    ensures
        ({
            let gate = poll_gate(
                config,
                is_recording,
                minutes_audio_active,
                started_by_call_detect,
            );
            &&& !is_recording && !minutes_audio_active ==> gate == PollGate::Detect
            &&& started_by_call_detect && config.stop_when_call_ends ==> gate == PollGate::Detect
            &&& (is_recording || minutes_audio_active) && !started_by_call_detect ==> gate
                == PollGate::Skip
            &&& (is_recording || minutes_audio_active) && !config.stop_when_call_ends ==> gate
                == PollGate::Skip
        }),
{
}

/// The first poll waits five seconds, and polls that are switched off look at
/// the settings every second.
pub proof fn lemma_when_polls_begin()
    ensures
        FIRST_POLL_DELAY_SECS == 5,
        DISABLED_POLL_SECS == 1,
{
}

} // verus!
