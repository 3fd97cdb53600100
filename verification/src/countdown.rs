//! The countdown that stops a recording when the call it was started for is
//! over, and the flags through which it is watched and called off.

use vstd::prelude::*;

verus! {

/// How a countdown came to its end.
#[derive(Debug, Clone, Copy, PartialEq, Eq, Structural)]
pub enum CallEndCountdownTerminalState {
    /// It has not, or it was orphaned.
    NotEnded,
    UserCancelled,
    AutoStopFired,
    RecordingStopped,
}

/// Decision the detector's polling loop makes when no call is detected.
#[derive(Debug, Clone, Copy, PartialEq, Eq, Structural)]
pub enum NoCallDecision {
    /// A countdown is already ticking — let its thread own the lifecycle.
    /// Skip all state mutation and logging for this poll.
    DeferToCountdown,
    /// Active call ended and nothing is armed yet — fire the countdown if
    /// an active session exists that hasn't already fired.
    ArmCountdown,
    /// We already emitted `call:ended`, but the active flag is no longer
    /// set and no explicit cancellation was observed. Re-arm instead of
    /// clearing so an orphaned countdown cannot leave recording running.
    RearmCountdown,
    /// No recording is in scope for auto-stop — safe to clear any stale
    /// `active_call` state and emit the "cleared" log.
    ClearIfStale,
}

pub open spec fn no_call_action(
    is_recording: bool,
    started_by_call_detect: bool,
    stop_when_call_ends: bool,
    countdown_active: bool,
    call_end_fired: bool,
    terminal_state: CallEndCountdownTerminalState,
) -> NoCallDecision {
    if countdown_active {
        NoCallDecision::DeferToCountdown
    } else if !(is_recording && started_by_call_detect && stop_when_call_ends) {
        NoCallDecision::ClearIfStale
    } else if !call_end_fired {
        NoCallDecision::ArmCountdown
    } else if terminal_state == CallEndCountdownTerminalState::NotEnded {
        NoCallDecision::RearmCountdown
    } else {
        NoCallDecision::ClearIfStale
    }
}

pub fn decide_no_call_action(
    is_recording: bool,
    started_by_call_detect: bool,
    stop_when_call_ends: bool,
    countdown_active: bool,
    call_end_fired: bool,
    terminal_state: CallEndCountdownTerminalState,
) -> (decision: NoCallDecision)
    ensures
        decision == no_call_action(
            is_recording,
            started_by_call_detect,
            stop_when_call_ends,
            countdown_active,
            call_end_fired,
            terminal_state,
        ),
{
    if countdown_active {
        return NoCallDecision::DeferToCountdown;
    }
    if is_recording && started_by_call_detect && stop_when_call_ends {
        if call_end_fired {
            if terminal_state != CallEndCountdownTerminalState::NotEnded {
                NoCallDecision::ClearIfStale
            } else {
                NoCallDecision::RearmCountdown
            }
        } else {
            NoCallDecision::ArmCountdown
        }
    } else {
        NoCallDecision::ClearIfStale
    }
}

/// A countdown in flight owns what happens: whatever else flips meanwhile,
/// a poll that sees no call changes nothing.
pub proof fn lemma_running_countdown_defers(
    is_recording: bool,
    started_by_call_detect: bool,
    stop_when_call_ends: bool,
    call_end_fired: bool,
    terminal_state: CallEndCountdownTerminalState,
)
    ensures
        no_call_action(
            is_recording,
            started_by_call_detect,
            stop_when_call_ends,
            true,
            call_end_fired,
            terminal_state,
        ) == NoCallDecision::DeferToCountdown,
{
}

/// A countdown is armed only for a recording that call detection started, by
/// a user who asked for it; and never again for a session whose countdown
/// came to its end.
pub proof fn lemma_when_a_countdown_is_armed(
    is_recording: bool,
    started_by_call_detect: bool,
    stop_when_call_ends: bool,
    countdown_active: bool,
    call_end_fired: bool,
    terminal_state: CallEndCountdownTerminalState,
)
    ensures
        ({
            let decision = no_call_action(
                is_recording,
                started_by_call_detect,
                stop_when_call_ends,
                countdown_active,
                call_end_fired,
                terminal_state,
            );
            (decision == NoCallDecision::ArmCountdown || decision
                == NoCallDecision::RearmCountdown) <==> (is_recording && started_by_call_detect
                && stop_when_call_ends && !countdown_active && (call_end_fired ==> terminal_state
                == CallEndCountdownTerminalState::NotEnded))
        }),
{
}

/// Emitted when the call app that triggered the current recording is no
/// longer detected. The frontend shows a countdown banner with Stop now /
/// Keep recording, and the backend arms a cancellable auto-stop timer.
#[derive(Debug, Clone, PartialEq, Eq)]
pub struct CallEndedPayload {
    pub app_name: String,
    pub process_name: String,
    pub countdown_secs: u64,
}

/// The flags of the auto-stop countdown, shared between the detector, the
/// countdown and whoever calls it off.
#[derive(Debug, Clone, Copy, PartialEq, Eq, Structural)]
pub struct CallEndAutoStopHandles {
    pub recording_started_by_call_detect: bool,
    pub countdown_cancel: bool,
    pub countdown_active: bool,
    pub countdown_terminal_state: CallEndCountdownTerminalState,
    pub stop_flag: bool,
}

impl CallEndAutoStopHandles {
    pub fn new() -> (handles: CallEndAutoStopHandles)
        ensures
            handles == (CallEndAutoStopHandles {
                recording_started_by_call_detect: false,
                countdown_cancel: false,
                countdown_active: false,
                countdown_terminal_state: CallEndCountdownTerminalState::NotEnded,
                stop_flag: false,
            }),
    {
        CallEndAutoStopHandles {
            recording_started_by_call_detect: false,
            countdown_cancel: false,
            countdown_active: false,
            countdown_terminal_state: CallEndCountdownTerminalState::NotEnded,
            stop_flag: false,
        }
    }
}

pub open spec fn armed(handles: CallEndAutoStopHandles) -> CallEndAutoStopHandles {
    CallEndAutoStopHandles {
        countdown_active: true,
        countdown_cancel: false,
        countdown_terminal_state: CallEndCountdownTerminalState::NotEnded,
        ..handles
    }
}

/// A countdown lasts at least a second.
pub open spec fn countdown_length(countdown_secs: u64) -> u64 {
    if countdown_secs == 0 {
        1
    } else {
        countdown_secs
    }
}

/// Arms a countdown, unless one is in flight: there is only ever one banner
/// per call-end. Gives what the frontend is told.
pub fn arm_call_end_countdown(
    auto_stop: &mut CallEndAutoStopHandles,
    display_name: &str,
    process_name: &str,
    countdown_secs: u64,
) -> (payload: Option<CallEndedPayload>)
    ensures
        old(auto_stop).countdown_active ==> payload is None && *final(auto_stop) == *old(auto_stop),
        !old(auto_stop).countdown_active ==> {
            &&& *final(auto_stop) == armed(*old(auto_stop))
            &&& payload matches Some(p) && p.app_name@ == display_name@ && p.process_name@
                == process_name@ && p.countdown_secs == countdown_length(countdown_secs)
        },
{
    if auto_stop.countdown_active {
        return None;
    }
    auto_stop.countdown_active = true;
    auto_stop.countdown_terminal_state = CallEndCountdownTerminalState::NotEnded;
    auto_stop.countdown_cancel = false;
    let secs: u64 = if countdown_secs == 0 {
        1
    } else {
        countdown_secs
    };
    Some(
        CallEndedPayload {
            app_name: display_name.to_owned(),
            process_name: process_name.to_owned(),
            countdown_secs: secs,
        },
    )
}

/// Milliseconds between two ticks of a countdown.
pub const COUNTDOWN_TICK_MILLIS: u64 = 250;

/// What a tick of the countdown comes to.
#[derive(Debug, Clone, Copy, PartialEq, Eq, Structural)]
pub enum CountdownTick {
    /// Tick on.
    Waiting,
    /// It was called off, for the reason given.
    Cancelled { reason: CallEndCountdownTerminalState },
    /// The recording has stopped by itself.
    RecordingStopped,
    /// Time is up: the recording is told to stop.
    Fired,
}

/// What a tick comes to: being called off goes before a recording that has
/// stopped, and that before time being up.
pub open spec fn tick_outcome(
    handles: CallEndAutoStopHandles,
    recording: bool,
    elapsed_millis: u64,
    countdown_secs: u64,
) -> CountdownTick {
    if handles.countdown_cancel {
        CountdownTick::Cancelled { reason: handles.countdown_terminal_state }
    } else if !recording {
        CountdownTick::RecordingStopped
    } else if elapsed_millis >= countdown_secs * 1000 {
        CountdownTick::Fired
    } else {
        CountdownTick::Waiting
    }
}

pub open spec fn after_tick(
    handles: CallEndAutoStopHandles,
    outcome: CountdownTick,
) -> CallEndAutoStopHandles {
    match outcome {
        CountdownTick::Waiting => handles,
        CountdownTick::Cancelled { .. } => CallEndAutoStopHandles {
            countdown_active: false,
            ..handles
        },
        CountdownTick::RecordingStopped => CallEndAutoStopHandles {
            countdown_terminal_state: CallEndCountdownTerminalState::RecordingStopped,
            countdown_cancel: true,
            countdown_active: false,
            ..handles
        },
        CountdownTick::Fired => CallEndAutoStopHandles {
            stop_flag: true,
            recording_started_by_call_detect: false,
            countdown_terminal_state: CallEndCountdownTerminalState::AutoStopFired,
            countdown_cancel: true,
            countdown_active: false,
        },
    }
}

/// One tick of a countdown of `countdown_secs` that was armed `elapsed_millis`
/// ago. The recording is stopped by the same flag as by the "Stop" button.
pub fn tick_call_end_countdown(
    auto_stop: &mut CallEndAutoStopHandles,
    recording: bool,
    elapsed_millis: u64,
    countdown_secs: u64,
) -> (outcome: CountdownTick)
    ensures
        outcome == tick_outcome(*old(auto_stop), recording, elapsed_millis, countdown_secs),
        *final(auto_stop) == after_tick(*old(auto_stop), outcome),
{
    if auto_stop.countdown_cancel {
        auto_stop.countdown_active = false;
        return CountdownTick::Cancelled { reason: auto_stop.countdown_terminal_state };
    }
    if !recording {
        auto_stop.countdown_terminal_state = CallEndCountdownTerminalState::RecordingStopped;
        auto_stop.countdown_cancel = true;
        auto_stop.countdown_active = false;
        return CountdownTick::RecordingStopped;
    }
    if elapsed_millis as u128 >= countdown_secs as u128 * 1000 {
        auto_stop.stop_flag = true;
        auto_stop.recording_started_by_call_detect = false;
        auto_stop.countdown_terminal_state = CallEndCountdownTerminalState::AutoStopFired;
        auto_stop.countdown_cancel = true;
        auto_stop.countdown_active = false;
        return CountdownTick::Fired;
    }
    CountdownTick::Waiting
}

/// A countdown stops a recording only when its time is up, nobody called it
/// off and the recording is still on; and once it is over it is not active.
pub proof fn lemma_countdown_stops_only_in_time(
    handles: CallEndAutoStopHandles,
    recording: bool,
    elapsed_millis: u64,
    countdown_secs: u64,
)
    requires
        !handles.stop_flag,
    ensures
        ({
            let outcome = tick_outcome(handles, recording, elapsed_millis, countdown_secs);
            let after = after_tick(handles, outcome);
            &&& after.stop_flag <==> !handles.countdown_cancel && recording && elapsed_millis
                >= countdown_secs * 1000
            &&& outcome != CountdownTick::Waiting ==> !after.countdown_active
            &&& outcome == CountdownTick::Waiting ==> after == handles
        }),
{
}

/// A countdown that fired or found its recording stopped is not armed again
/// for the same session.
pub proof fn lemma_ended_countdown_is_not_rearmed(
    handles: CallEndAutoStopHandles,
    recording: bool,
    elapsed_millis: u64,
    countdown_secs: u64,
    stop_when_call_ends: bool,
)
    ensures
        ({
            let outcome = tick_outcome(handles, recording, elapsed_millis, countdown_secs);
            let after = after_tick(handles, outcome);
            outcome == CountdownTick::Fired || outcome == CountdownTick::RecordingStopped
                ==> no_call_action(
                recording,
                after.recording_started_by_call_detect,
                stop_when_call_ends,
                after.countdown_active,
                true,
                after.countdown_terminal_state,
            ) == NoCallDecision::ClearIfStale
        }),
{
}

/// What a poll that sees no call decides, by what is the case: a recording to
/// be stopped has its countdown armed the first time and armed again where it
/// vanished; everything else lets a stale session go.
pub proof fn lemma_first_end_arms_and_orphan_rearms(
    call_end_fired: bool,
    terminal_state: CallEndCountdownTerminalState,
    is_recording: bool,
    started_by_call_detect: bool,
    stop_when_call_ends: bool,
)
    ensures
        no_call_action(true, true, true, false, false, terminal_state)
            == NoCallDecision::ArmCountdown,
        no_call_action(true, true, true, false, true, CallEndCountdownTerminalState::NotEnded)
            == NoCallDecision::RearmCountdown,
        terminal_state != CallEndCountdownTerminalState::NotEnded ==> no_call_action(
            is_recording,
            started_by_call_detect,
            stop_when_call_ends,
            false,
            true,
            terminal_state,
        ) == NoCallDecision::ClearIfStale,
        !(is_recording && started_by_call_detect && stop_when_call_ends) ==> no_call_action(
            is_recording,
            started_by_call_detect,
            stop_when_call_ends,
            false,
            call_end_fired,
            terminal_state,
        ) == NoCallDecision::ClearIfStale,
{
}

/// Arming starts afresh: the countdown runs, is not called off and has no end
/// yet; whether the recording is to stop and who started it stay as they were.
pub proof fn lemma_arming_starts_afresh(
    handles: CallEndAutoStopHandles,
    recording: bool,
    elapsed_millis: u64,
    countdown_secs: u64,
)
    requires
        elapsed_millis < countdown_secs * 1000,
    ensures
        armed(handles).countdown_active,
        armed(handles).countdown_terminal_state == CallEndCountdownTerminalState::NotEnded,
        armed(handles).stop_flag == handles.stop_flag,
        armed(handles).recording_started_by_call_detect
            == handles.recording_started_by_call_detect,
        tick_outcome(armed(handles), recording, elapsed_millis, countdown_secs) == (if recording {
            CountdownTick::Waiting
        } else {
            CountdownTick::RecordingStopped
        }),
{
}

/// Each way to end leaves its mark, and only time being up stops the
/// recording and takes it from call detection.
pub proof fn lemma_each_end_leaves_its_mark(
    handles: CallEndAutoStopHandles,
    recording: bool,
    elapsed_millis: u64,
    countdown_secs: u64,
)
    ensures
        ({
            let outcome = tick_outcome(handles, recording, elapsed_millis, countdown_secs);
            let after = after_tick(handles, outcome);
            &&& handles.countdown_cancel ==> after == (CallEndAutoStopHandles {
                countdown_active: false,
                ..handles
            }) && outcome == (CountdownTick::Cancelled {
                reason: handles.countdown_terminal_state,
            })
            &&& !handles.countdown_cancel && !recording ==> after.countdown_terminal_state
                == CallEndCountdownTerminalState::RecordingStopped && after.stop_flag
                == handles.stop_flag && after.recording_started_by_call_detect
                == handles.recording_started_by_call_detect && outcome
                == CountdownTick::RecordingStopped
            &&& !handles.countdown_cancel && recording && elapsed_millis >= countdown_secs * 1000
                ==> after.countdown_terminal_state == CallEndCountdownTerminalState::AutoStopFired
                && after.stop_flag && !after.recording_started_by_call_detect && outcome
                == CountdownTick::Fired
            &&& outcome != CountdownTick::Waiting ==> after.countdown_cancel
                && !after.countdown_active
        }),
{
}

/// A countdown lasts as many seconds as it was set to, and one at least.
pub proof fn lemma_countdown_length(countdown_secs: u64)
    ensures
        countdown_length(countdown_secs) >= 1,
        countdown_secs >= 1 ==> countdown_length(countdown_secs) == countdown_secs,
        countdown_secs == 0 ==> countdown_length(countdown_secs) == 1,
{
}

/// A countdown looks four times a second.
pub proof fn lemma_four_looks_a_second()
    ensures
        4 * COUNTDOWN_TICK_MILLIS == 1000,
{
}

} // verus!
