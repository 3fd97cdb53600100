//! Starting, watching and stopping a native call capture: the decisions, with
//! what the helper process and the system said as arguments.

use crate::deadlines::NANOS_PER_SEC;
use crate::helper_messages;
use crate::helper_messages::{
    CallSourceHealth, CaptureModel, NativeCallCaptureSession, StemPaths,
};
use crate::microphone;
use crate::microphone::{
    finish_microphone_startup_handshake, microphone_status_expected, missing_microphone_warning,
    native_call_helper_args, select_microphone, HelperArg, MicrophoneStartupStatus, SelectionModel,
};
use crate::text;
use crate::text::{chars_of, decimal_text, joined, same_text};
use vstd::prelude::*;

verus! {

/// The first number of a version such as `15.0.1`.
pub open spec fn major_version(version: Seq<char>) -> Option<u32> {
    text::parse_u32(text::before(text::trim(version), '.'))
}

pub fn parse_macos_major_version(version: &str) -> (major: Option<u32>)
    ensures
        major == major_version(version@),
{
    let chars = chars_of(version);
    text::parse_u32_chars(text::before_chars(text::trim_chars(chars.as_slice()), '.'))
}

/// The first macOS whose system captures a call natively.
pub const MIN_MACOS_MAJOR: u32 = 15;

/// Whether calls can be captured natively, and why not.
#[derive(Debug, Clone, PartialEq, Eq)]
pub enum CallCaptureAvailability {
    Available { backend: String },
    PermissionRequired { detail: String },
    Unavailable { detail: String },
    Unsupported { detail: String },
}

pub enum AvailabilityModel {
    Available { backend: Seq<char> },
    PermissionRequired { detail: Seq<char> },
    Unavailable { detail: Seq<char> },
    Unsupported { detail: Seq<char> },
}

impl View for CallCaptureAvailability {
    type V = AvailabilityModel;

    open spec fn view(&self) -> AvailabilityModel {
        match *self {
            CallCaptureAvailability::Available { backend } => AvailabilityModel::Available {
                backend: backend@,
            },
            CallCaptureAvailability::PermissionRequired { detail } => {
                AvailabilityModel::PermissionRequired { detail: detail@ }
            },
            CallCaptureAvailability::Unavailable { detail } => AvailabilityModel::Unavailable {
                detail: detail@,
            },
            CallCaptureAvailability::Unsupported { detail } => AvailabilityModel::Unsupported {
                detail: detail@,
            },
        }
    }
}

pub open spec fn capture_availability(
    macos: bool,
    major: Option<u32>,
    helper_found: bool,
) -> AvailabilityModel {
    if !macos {
        AvailabilityModel::Unsupported {
            detail: "Native call capture is currently implemented on macOS only."@,
        }
    } else {
        match major {
            None => AvailabilityModel::Unavailable {
                detail: "Could not determine the macOS version for native call capture."@,
            },
            Some(found) => if found < MIN_MACOS_MAJOR {
                AvailabilityModel::Unsupported {
                    detail:
                        "Native call capture requires macOS 15 or newer. This Mac reports macOS "@
                        + text::decimal(found as nat) + "."@,
                }
            } else if helper_found {
                AvailabilityModel::Available { backend: "screencapturekit-helper"@ }
            } else {
                AvailabilityModel::Unavailable {
                    detail: "Bundled native call helper is missing from the app bundle."@,
                }
            },
        }
    }
}

/// Whether calls can be captured on this system: on macOS, of this major
/// version if it is known, with or without the helper.
pub fn availability(macos: bool, major: Option<u32>, helper_found: bool) -> (
    answer: CallCaptureAvailability)
    ensures
        answer@ == capture_availability(macos, major, helper_found),
{
    if !macos {
        return CallCaptureAvailability::Unsupported {
            detail: "Native call capture is currently implemented on macOS only.".to_owned(),
        };
    }
    match major {
        None => CallCaptureAvailability::Unavailable {
            detail: "Could not determine the macOS version for native call capture.".to_owned(),
        },
        Some(found) => {
            if found < MIN_MACOS_MAJOR {
                CallCaptureAvailability::Unsupported {
                    detail: joined(
                        "Native call capture requires macOS 15 or newer. This Mac reports macOS ",
                        decimal_text(found as u64).as_str(),
                    ).concat("."),
                }
            } else if helper_found {
                CallCaptureAvailability::Available {
                    backend: "screencapturekit-helper".to_owned(),
                }
            } else {
                CallCaptureAvailability::Unavailable {
                    detail: "Bundled native call helper is missing from the app bundle.".to_owned(),
                }
            }
        },
    }
}

pub open spec fn unsupported_platform() -> Seq<char> {
    "native call capture is unsupported on this platform"@
}

/// Why a capture is refused before its helper is started. A version that
/// could not be determined does not stand in the way.
pub open spec fn start_refusal(macos: bool, major: Option<u32>, helper_found: bool) -> Option<
    Seq<char>,
> {
    if !macos {
        Some(unsupported_platform())
    } else if major is Some && major->0 < MIN_MACOS_MAJOR {
        Some(
            "native call capture requires macOS 15 or newer (found macOS "@ + text::decimal(
                major->0 as nat,
            ) + ")"@,
        )
    } else if !helper_found {
        Some("native call helper binary is unavailable"@)
    } else {
        None
    }
}

pub fn refuse_start(macos: bool, major: Option<u32>, helper_found: bool) -> (refusal: Option<
    String,
>)
    ensures
        match refusal {
            Some(reason) => start_refusal(macos, major, helper_found) == Some(reason@),
            None => start_refusal(macos, major, helper_found) is None,
        },
{
    if !macos {
        return Some("native call capture is unsupported on this platform".to_owned());
    }
    if let Some(found) = major {
        if found < MIN_MACOS_MAJOR {
            return Some(
                joined(
                    "native call capture requires macOS 15 or newer (found macOS ",
                    decimal_text(found as u64).as_str(),
                ).concat(")"),
            );
        }
    }
    if !helper_found {
        return Some("native call helper binary is unavailable".to_owned());
    }
    None
}

/// A capture that is called available is not refused.
pub proof fn lemma_available_is_not_refused(macos: bool, major: Option<u32>, helper_found: bool)
    ensures
        capture_availability(macos, major, helper_found) is Available ==> start_refusal(
            macos,
            major,
            helper_found,
        ) is None,
{
}

/// Where a bundled helper program is found.
#[derive(Debug, Clone, Copy, PartialEq, Eq, Structural)]
pub enum HelperLocation {
    /// Beside the application's own binary.
    BesideExecutable,
    /// In the source tree, during development.
    SourceTree,
    Missing,
}

/// Looks beside the application's binary first, where that is known.
pub fn helper_location(exists_beside_executable: Option<bool>, exists_in_source_tree: bool) -> (
    location: HelperLocation)
    ensures
        location == (if exists_beside_executable == Some(true) {
            HelperLocation::BesideExecutable
        } else if exists_in_source_tree {
            HelperLocation::SourceTree
        } else {
            HelperLocation::Missing
        }),
{
    if let Some(true) = exists_beside_executable {
        return HelperLocation::BesideExecutable;
    }
    if exists_in_source_tree {
        HelperLocation::SourceTree
    } else {
        HelperLocation::Missing
    }
}

/// How a helper is started: its arguments, what there is to warn of before
/// it runs, and whether it will acknowledge its microphone.
#[derive(Debug)]
pub struct CaptureStart {
    pub args: Vec<HelperArg>,
    pub warnings: Vec<String>,
    pub status_expected: bool,
}

/// The warnings that a selection gives before the capture starts.
pub open spec fn start_warnings(chosen: SelectionModel) -> Seq<Seq<char>> {
    match chosen {
        SelectionModel::ConfiguredMissing(name) => seq![microphone::fallback_warning(name)],
        _ => Seq::empty(),
    }
}

/// Prepares the start of a helper for the configured microphone, given what
/// the helper lists; where it could not list anything the configured one
/// counts as missing.
pub fn prepare_capture(configured: Option<&str>, inventory: Option<&[String]>) -> (
    start: CaptureStart)
    ensures
        ({
            let chosen = microphone::selection(
                microphone::text_model(configured),
                match inventory {
                    Some(names) => text::texts(names@),
                    None => Seq::empty(),
                },
            );
            &&& microphone::arg_models(start.args@) == microphone::helper_args(chosen)
            &&& text::texts(start.warnings@) == start_warnings(chosen)
            &&& start.status_expected == chosen is Configured
        }),
{
    let chosen = select_microphone(configured, inventory);
    let mut warnings: Vec<String> = Vec::new();
    if let Some(warning) = missing_microphone_warning(&chosen) {
        warnings.push(warning);
    }
    proof {
        assert(text::texts(warnings@) =~= start_warnings(chosen@));
    }
    CaptureStart {
        args: native_call_helper_args(&chosen),
        warnings,
        status_expected: microphone_status_expected(&chosen),
    }
}

/// A configured microphone is either handed to the helper or warned of, and
/// only one that was handed over is waited for.
pub proof fn lemma_configured_microphone_is_used_or_warned_of(
    configured: Seq<char>,
    available: Seq<Seq<char>>,
)
    requires
        text::trim(configured).len() > 0,
    ensures
        ({
            let chosen = microphone::selection(Some(configured), available);
            &&& chosen is Configured <==> microphone::helper_args(chosen).len() == 3
            &&& chosen is Configured <==> start_warnings(chosen).len() == 0
        }),
{
}

/// The file that a capture that starts at `stamp` is written to.
pub fn native_call_file_name(stamp: &str) -> (name: String)
    ensures
        name@ == stamp@ + "-call.mov"@,
{
    joined(stamp, "-call.mov")
}

/// How long the helper is given to say that it is ready.
pub const READY_TIMEOUT_SECS: u64 = 10;

/// What came of waiting for the helper to say that it is ready.
#[derive(Debug)]
pub enum Readiness {
    /// It printed this line.
    Line(String),
    /// Its output could not be read.
    ReadFailed { error: String },
    /// Its output ended first.
    Closed,
    TimedOut,
}

pub enum ReadinessModel {
    Line(Seq<char>),
    ReadFailed { error: Seq<char> },
    Closed,
    TimedOut,
}

impl View for Readiness {
    type V = ReadinessModel;

    open spec fn view(&self) -> ReadinessModel {
        match *self {
            Readiness::Line(line) => ReadinessModel::Line(line@),
            Readiness::ReadFailed { error } => ReadinessModel::ReadFailed { error: error@ },
            Readiness::Closed => ReadinessModel::Closed,
            Readiness::TimedOut => ReadinessModel::TimedOut,
        }
    }
}

/// Why the helper is taken not to be ready; it is ready when it says so.
pub open spec fn not_ready(readiness: ReadinessModel) -> Option<Seq<char>> {
    match readiness {
        ReadinessModel::Line(line) => if line == "ready"@ {
            None
        } else {
            Some("native call helper returned unexpected readiness output: "@ + line)
        },
        ReadinessModel::ReadFailed { error } => Some(
            "failed to read native call helper output: "@ + error,
        ),
        ReadinessModel::Closed => Some("native call helper exited before signaling readiness"@),
        ReadinessModel::TimedOut => Some(
            "native call helper timed out waiting for ScreenCaptureKit readiness"@,
        ),
    }
}

pub open spec fn reason_model(result: Result<(), String>) -> Option<Seq<char>> {
    match result {
        Ok(_) => None,
        Err(reason) => Some(reason@),
    }
}

pub fn check_readiness(readiness: Readiness) -> (result: Result<(), String>)
    ensures
        reason_model(result) == not_ready(readiness@),
{
    match readiness {
        Readiness::Line(line) => {
            if same_text(line.as_str(), "ready") {
                Ok(())
            } else {
                Err(
                    joined(
                        "native call helper returned unexpected readiness output: ",
                        line.as_str(),
                    ),
                )
            }
        },
        Readiness::ReadFailed { error } => Err(
            joined("failed to read native call helper output: ", error.as_str()),
        ),
        Readiness::Closed => Err(
            "native call helper exited before signaling readiness".to_owned(),
        ),
        Readiness::TimedOut => Err(
            "native call helper timed out waiting for ScreenCaptureKit readiness".to_owned(),
        ),
    }
}

/// Completes a start: the helper has to be ready, and a microphone that it was
/// told to use has to be acknowledged, before the capture counts as started.
/// `status` is what came of waiting for that; it is looked at only where it
/// was expected.
pub fn finish_start(
    readiness: Readiness,
    status_expected: bool,
    status: Result<MicrophoneStartupStatus, String>,
    capture_warnings: &mut Vec<String>,
) -> (result: Result<(), String>)
    ensures
        reason_model(result) == not_ready(readiness@),
        text::texts(final(capture_warnings)@) == (if not_ready(readiness@) is None {
            microphone::after_handshake(
                text::texts(old(capture_warnings)@),
                status_expected,
                microphone::status_model(status),
            )
        } else {
            text::texts(old(capture_warnings)@)
        }),
{
    match check_readiness(readiness) {
        Ok(_) => {
            finish_microphone_startup_handshake(status_expected, status, capture_warnings);
            Ok(())
        },
        Err(reason) => Err(reason),
    }
}

/// The process id of the running helper; zero when none is running.
#[derive(Debug)]
pub struct HelperPid {
    pid: u32,
}

impl View for HelperPid {
    type V = u32;

    closed spec fn view(&self) -> u32 {
        self.pid
    }
}

impl HelperPid {
    pub fn new() -> (slot: HelperPid)
        ensures
            slot@ == 0,
    {
        HelperPid { pid: 0 }
    }

    /// Notes the helper that was started.
    pub fn spawned(&mut self, pid: u32)
        ensures
            final(self)@ == pid,
    {
        self.pid = pid;
    }

    /// Notes that the helper is being stopped: from here on it is not
    /// signalled any more.
    pub fn stopping(&mut self)
        ensures
            final(self)@ == 0,
    {
        self.pid = 0;
    }
}

/// The process id that is remembered once a start has come to its end.
pub open spec fn pid_after_start(pid: u32, failure: Option<Seq<char>>) -> u32 {
    if failure is Some {
        0
    } else {
        pid
    }
}

/// Ends a start whose helper was spawned. After a start that failed the helper
/// is to be killed and is no longer remembered.
pub fn abandon_start(slot: &mut HelperPid, started: &Result<(), String>) -> (kill: bool)
    ensures
        kill == (started is Err),
        final(slot)@ == pid_after_start(old(slot)@, reason_model(*started)),
{
    match started {
        Ok(_) => false,
        Err(_) => {
            slot.stopping();
            true
        },
    }
}

/// The signal that a running helper is sent.
#[derive(Debug, Clone, Copy, PartialEq, Eq, Structural)]
pub enum PauseSignal {
    Pause,
    Resume,
}

/// Who is sent which signal; nobody when no helper is running.
pub open spec fn pause_signal(pid: u32, paused: bool) -> Option<(u32, PauseSignal)> {
    if pid == 0 {
        None
    } else if paused {
        Some((pid, PauseSignal::Pause))
    } else {
        Some((pid, PauseSignal::Resume))
    }
}

/// Tell a running native call helper to pause or resume writing its stems.
/// Gives the process that is sent the signal, and the signal.
pub fn signal_native_call_helper_pause(slot: &HelperPid, paused: bool) -> (signal: Option<
    (u32, PauseSignal),
>)
    ensures
        signal == pause_signal(slot@, paused),
{
    if slot.pid == 0 {
        return None;
    }
    if paused {
        Some((slot.pid, PauseSignal::Pause))
    } else {
        Some((slot.pid, PauseSignal::Resume))
    }
}

/// A helper whose start failed is never signalled; one that got ready is, by
/// the process id that it was spawned with.
pub proof fn lemma_only_a_ready_helper_is_signalled(
    pid: u32,
    readiness: ReadinessModel,
    paused: bool,
)
    requires
        pid != 0,
    ensures
        ({
            let signal = pause_signal(pid_after_start(pid, not_ready(readiness)), paused);
            &&& signal is Some <==> readiness == ReadinessModel::Line("ready"@)
            &&& signal is Some ==> (signal->0).0 == pid
        }),
{
}

/// What is known of the helper process.
#[derive(Debug)]
pub enum HelperProcess {
    Running,
    Exited { success: bool, status: String },
    /// The system could not say.
    Unknown { error: String },
}

pub enum HelperProcessModel {
    Running,
    Exited { success: bool, status: Seq<char> },
    Unknown { error: Seq<char> },
}

impl View for HelperProcess {
    type V = HelperProcessModel;

    open spec fn view(&self) -> HelperProcessModel {
        match *self {
            HelperProcess::Running => HelperProcessModel::Running,
            HelperProcess::Exited { success, status } => HelperProcessModel::Exited {
                success,
                status: status@,
            },
            HelperProcess::Unknown { error } => HelperProcessModel::Unknown { error: error@ },
        }
    }
}

/// Why an exit is a failure.
pub open spec fn exit_failure(success: bool, status: Seq<char>) -> Option<Seq<char>> {
    if success {
        None
    } else {
        Some("native call helper exited with status "@ + status)
    }
}

fn exit_result(success: bool, status: &str) -> (result: Result<(), String>)
    ensures
        reason_model(result) == exit_failure(success, status@),
{
    if success {
        Ok(())
    } else {
        Err(joined("native call helper exited with status ", status))
    }
}

/// Absolute ceiling on a stop after the helper was told to. The helper has to
/// be genuinely making progress within this window or it gets killed. Sized
/// for very long captures: a multi-hour recording can take tens of seconds to
/// write the moov atom, but a 10-minute hang is indistinguishable from
/// "wedged" and we'd rather surface a recoverable failure than wait forever.
pub const STOP_MAX_FINALIZE_SECS: u64 = 600;

/// Maximum time without any output from the helper before it is treated as
/// hung and killed. Health events arrive every ~150ms while capturing and
/// finalizing heartbeats every ~1s during the stop, so 30s of silence is
/// unambiguous.
pub const STOP_PROGRESS_TIMEOUT_SECS: u64 = 30;

/// Milliseconds between two looks at a helper that was asked to finish.
pub const STOP_POLL_MILLIS: u64 = 200;

/// The first thing a stop does.
#[derive(Debug)]
pub enum StopStart {
    /// The capture is over already, or cannot be stopped here.
    Finished(Result<(), String>),
    /// Ask the helper to finish.
    Terminate,
}

pub enum StopModel {
    /// The stop is over; with a reason, it failed.
    Finished(Option<Seq<char>>),
    /// The helper is to be asked to finish.
    Terminate,
    /// Look again in a while.
    Wait,
    /// Give the helper up, for this reason.
    GiveUp(Seq<char>),
}

impl View for StopStart {
    type V = StopModel;

    open spec fn view(&self) -> StopModel {
        match *self {
            StopStart::Finished(result) => StopModel::Finished(reason_model(result)),
            StopStart::Terminate => StopModel::Terminate,
        }
    }
}

pub open spec fn stop_start(macos: bool, helper: HelperProcessModel) -> StopModel {
    if !macos {
        StopModel::Finished(Some(unsupported_platform()))
    } else {
        match helper {
            HelperProcessModel::Unknown { error } => StopModel::Finished(Some(error)),
            HelperProcessModel::Exited { success, status } => StopModel::Finished(
                exit_failure(success, status),
            ),
            HelperProcessModel::Running => StopModel::Terminate,
        }
    }
}

/// Begins a stop. Whatever comes of it, the helper is no longer remembered as
/// one that is running.
pub fn begin_stop(slot: &mut HelperPid, macos: bool, helper: HelperProcess) -> (step: StopStart)
    ensures
        step@ == stop_start(macos, helper@),
        final(slot)@ == 0,
{
    slot.stopping();
    if !macos {
        return StopStart::Finished(
            Err("native call capture is unsupported on this platform".to_owned()),
        );
    }
    match helper {
        HelperProcess::Unknown { error } => StopStart::Finished(Err(error)),
        HelperProcess::Exited { success, status } => StopStart::Finished(
            exit_result(success, status.as_str()),
        ),
        HelperProcess::Running => StopStart::Terminate,
    }
}

/// The failure of a stop whose helper could not be asked to finish.
pub fn terminate_failed(pid: u32, error: &str) -> (reason: String)
    ensures
        reason@ == "failed to stop native call helper (PID "@ + text::decimal(pid as nat) + "): "@
            + error@,
{
    joined("failed to stop native call helper (PID ", decimal_text(pid as u64).as_str()).concat(
        "): ",
    ).concat(error)
}

/// One look at a helper that was asked to finish.
#[derive(Debug)]
pub enum StopStep {
    Finished(Result<(), String>),
    Wait,
    GiveUp { reason: String },
}

impl View for StopStep {
    type V = StopModel;

    open spec fn view(&self) -> StopModel {
        match *self {
            StopStep::Finished(result) => StopModel::Finished(reason_model(result)),
            StopStep::Wait => StopModel::Wait,
            StopStep::GiveUp { reason } => StopModel::GiveUp(reason@),
        }
    }
}

pub open spec fn ceiling_reason() -> Seq<char> {
    "native call helper did not finalize within 600s (absolute ceiling); SIGKILLed. Per-source stems may still be recoverable in ~/.minutes/native-captures/."@
}

pub open spec fn silence_reason() -> Seq<char> {
    "native call helper went silent for 30s during finalize; SIGKILLed. Per-source stems may still be recoverable in ~/.minutes/native-captures/."@
}

/// What a look comes to, this many nanoseconds after the helper was asked and
/// after its last line. Where the latter is not known, nobody reads its lines
/// any more and no progress is possible.
pub open spec fn stop_look(
    helper: HelperProcessModel,
    since_stop: u64,
    since_progress: Option<u64>,
) -> StopModel {
    match helper {
        HelperProcessModel::Unknown { error } => StopModel::Finished(Some(error)),
        HelperProcessModel::Exited { success, status } => StopModel::Finished(
            exit_failure(success, status),
        ),
        HelperProcessModel::Running => if since_stop >= STOP_MAX_FINALIZE_SECS * NANOS_PER_SEC {
            StopModel::GiveUp(ceiling_reason())
        } else if since_progress is None || since_progress->0 >= STOP_PROGRESS_TIMEOUT_SECS
            * NANOS_PER_SEC {
            StopModel::GiveUp(silence_reason())
        } else {
            StopModel::Wait
        },
    }
}

/// Looks at a helper that was asked to finish.
pub fn look_at_stopping_helper(
    helper: HelperProcess,
    since_stop: u64,
    since_progress: Option<u64>,
) -> (step: StopStep)
    ensures
        step@ == stop_look(helper@, since_stop, since_progress),
{
    match helper {
        HelperProcess::Unknown { error } => StopStep::Finished(Err(error)),
        HelperProcess::Exited { success, status } => StopStep::Finished(
            exit_result(success, status.as_str()),
        ),
        HelperProcess::Running => {
            if since_stop >= STOP_MAX_FINALIZE_SECS * NANOS_PER_SEC {
                return StopStep::GiveUp {
                    reason:
                        "native call helper did not finalize within 600s (absolute ceiling); SIGKILLed. Per-source stems may still be recoverable in ~/.minutes/native-captures/.".to_owned(),
                };
            }
            let silent = match since_progress {
                Some(since) => since >= STOP_PROGRESS_TIMEOUT_SECS * NANOS_PER_SEC,
                None => true,
            };
            if silent {
                StopStep::GiveUp {
                    reason:
                        "native call helper went silent for 30s during finalize; SIGKILLed. Per-source stems may still be recoverable in ~/.minutes/native-captures/.".to_owned(),
                }
            } else {
                StopStep::Wait
            }
        },
    }
}

/// A helper that works through its finalize is left to it: while it prints
/// something at least every half minute it is not given up before the
/// ceiling, and then it is.
pub proof fn lemma_progressing_helper_is_not_killed(
    since_stop: u64,
    since_progress: u64,
)
    requires
        since_progress < STOP_PROGRESS_TIMEOUT_SECS * NANOS_PER_SEC,
    ensures
        stop_look(HelperProcessModel::Running, since_stop, Some(since_progress)) == (if since_stop
            < STOP_MAX_FINALIZE_SECS * NANOS_PER_SEC {
            StopModel::Wait
        } else {
            StopModel::GiveUp(ceiling_reason())
        }),
{
}

/// Any line counts as progress: a helper whose last line came within the half
/// minute before a look is not given up for silence.
pub proof fn lemma_heartbeat_keeps_the_helper(
    capture: CaptureModel,
    line: Seq<char>,
    message: Option<Map<Seq<char>, helper_messages::ValueModel>>,
    heard: u64,
    now: u64,
    timestamp: Seq<char>,
    since_stop: u64,
)
    requires
        heard <= now,
        now - heard < STOP_PROGRESS_TIMEOUT_SECS * NANOS_PER_SEC,
        since_stop < STOP_MAX_FINALIZE_SECS * NANOS_PER_SEC,
    ensures
        stop_look(
            HelperProcessModel::Running,
            since_stop,
            Some(
                (now - helper_messages::after_line(
                    capture,
                    line,
                    message,
                    heard,
                    timestamp,
                ).last_progress) as u64,
            ),
        ) == StopModel::Wait,
{
}

/// What giving a helper up comes to.
#[derive(Debug)]
pub enum GiveUp {
    /// It had just exited after all.
    Exited(Result<(), String>),
    /// Kill it, and fail for this reason.
    Kill { reason: String },
}

/// Looks once more before the helper is killed, so that one that exited
/// between the last look and now is reported as it ended and its file is not
/// taken for lost.
pub fn giveup_with_kill(helper: HelperProcess, kill_reason: String) -> (outcome: GiveUp)
    ensures
        match (helper@, outcome) {
            (HelperProcessModel::Exited { success, status }, GiveUp::Exited(result)) => {
                reason_model(result) == exit_failure(success, status)
            },
            (HelperProcessModel::Exited { .. }, GiveUp::Kill { .. }) => false,
            (_, GiveUp::Kill { reason }) => reason@ == kill_reason@,
            (_, GiveUp::Exited(_)) => false,
        },
{
    match helper {
        HelperProcess::Exited { success, status } => GiveUp::Exited(
            exit_result(success, status.as_str()),
        ),
        _ => GiveUp::Kill { reason: kill_reason },
    }
}

/// The texts with a space between each two.
pub open spec fn spaced(texts: Seq<Seq<char>>) -> Seq<char>
    decreases texts.len(),
{
    if texts.len() == 0 {
        Seq::empty()
    } else if texts.len() == 1 {
        texts[0]
    } else {
        spaced(texts.drop_last()) + " "@ + texts.last()
    }
}

fn joined_warnings(warnings: &[String]) -> (warning: Option<String>)
    ensures
        match warning {
            Some(w) => warnings@.len() > 0 && w@ == spaced(text::texts(warnings@)),
            None => warnings@.len() == 0,
        },
{
    if warnings.len() == 0 {
        return None;
    }
    let ghost all = text::texts(warnings@);
    let mut all_in_one = warnings[0].clone();
    let mut i: usize = 1;
    proof {
        assert(all.take(1)[0] == all[0]);
    }
    while i < warnings.len()
        invariant
            1 <= i <= warnings.len(),
            all == text::texts(warnings@),
            all_in_one@ == spaced(all.take(i as int)),
        decreases warnings.len() - i,
    {
        proof {
            assert(all.take(i + 1).drop_last() =~= all.take(i as int));
            assert(all.take(i + 1).last() == warnings@[i as int]@);
        }
        all_in_one = all_in_one.concat(" ").concat(warnings[i].as_str());
        i += 1;
    }
    proof {
        assert(all.take(i as int) =~= all);
    }
    Some(all_in_one)
}

/// How long ago `then` was.
pub open spec fn since(then: u64, now: u64) -> u64 {
    if now >= then {
        (now - then) as u64
    } else {
        0
    }
}

fn time_since(then: u64, now: u64) -> (passed: u64)
    ensures
        passed == since(then, now),
{
    if now >= then {
        now - then
    } else {
        0
    }
}

impl NativeCallCaptureSession {
    /// What each source was last heard to do.
    pub fn source_health(&self) -> (health: CallSourceHealth)
        ensures
            health@ == self@.health,
    {
        self.health.copy()
    }

    /// Return per-source stem paths if the helper reported them and the files
    /// exist.
    pub fn stem_paths(&self, voice_exists: bool, system_exists: bool) -> (found: Option<StemPaths>)
        ensures
            helper_messages::stems_model(found) == (if voice_exists && system_exists {
                self@.stems
            } else {
                None
            }),
    {
        if !(voice_exists && system_exists) {
            return None;
        }
        match &self.stem_paths {
            Some(stems) => Some(
                StemPaths { voice: stems.voice.clone(), system: stems.system.clone() },
            ),
            None => None,
        }
    }

    /// The warnings of the capture in one text, if there are any.
    pub fn capture_warning(&self) -> (warning: Option<String>)
        ensures
            match warning {
                Some(w) => self@.warnings.len() > 0 && w@ == spaced(self@.warnings),
                None => self@.warnings.len() == 0,
            },
    {
        joined_warnings(self.capture_warnings.as_slice())
    }

    /// Notes that the helper was asked to finish: the patience with its
    /// silence starts anew, whenever it was last heard.
    pub fn stop_requested(&mut self, now: u64)
        ensures
            final(self)@ == (CaptureModel { last_progress: now, ..old(self)@ }),
    {
        self.last_progress = now;
    }

    /// One look at the helper during a stop that was asked for at `asked_at`.
    pub fn stop_step(&self, helper: HelperProcess, asked_at: u64, now: u64) -> (step: StopStep)
        ensures
            step@ == stop_look(
                helper@,
                since(asked_at, now),
                Some(since(self@.last_progress, now)),
            ),
    {
        look_at_stopping_helper(
            helper,
            time_since(asked_at, now),
            Some(time_since(self.last_progress, now)),
        )
    }
}

/// A helper is not given up for silence from before it was asked to finish.
pub proof fn lemma_stop_starts_with_patience(
    capture: CaptureModel,
    asked_at: u64,
    now: u64,
)
    requires
        asked_at <= now,
        now - asked_at < STOP_PROGRESS_TIMEOUT_SECS * NANOS_PER_SEC,
    ensures
        ({
            let asked = CaptureModel { last_progress: asked_at, ..capture };
            stop_look(
                HelperProcessModel::Running,
                since(asked_at, now),
                Some(since(asked.last_progress, now)),
            ) == StopModel::Wait
        }),
{
}

/// The major version is the number before the first dot, or the whole of a
/// version without one.
pub proof fn lemma_major_version_is_read(
    before: Seq<char>,
    n: u32,
    minor: Seq<char>,
    after: Seq<char>,
)
    requires
        text::all_white_space(before),
        text::all_white_space(after),
        minor.len() > 0 ==> !text::white_space(minor.last()),
    ensures
        major_version(before + (text::decimal(n as nat).push('.') + minor) + after) == Some(n),
        major_version(before + text::decimal(n as nat) + after) == Some(n),
        major_version(before) is None,
{
    let d = text::decimal(n as nat);
    text::lemma_decimal_is_read_back(n);
    text::lemma_decimal_is_digits(n as nat);
    assert(!text::white_space(d[0]));
    assert(!text::white_space(d[d.len() - 1]));
    assert(!d.contains('.')) by {
        if d.contains('.') {
            let i = choose|i: int| 0 <= i < d.len() && d[i] == '.';
            assert('0' <= d[i]);
        }
    }
    let version = d.push('.') + minor;
    assert(version[0] == d[0]);
    assert(minor.len() > 0 ==> version.last() == minor.last());
    assert(minor.len() == 0 ==> version.last() == '.');
    text::lemma_trim_takes_what_is_around(before, version, after);
    text::lemma_trim_takes_what_is_around(before, d, after);
    text::lemma_cut_at(d, minor, '.');
    let nothing = Seq::<char>::empty();
    text::lemma_cut_at(nothing, nothing, '.');
    text::lemma_what_is_a_number(n, 0x1_0000_0000, seq!['.'], 0);
}

/// A call can be captured on a Mac from version 15 on, with the helper in
/// place; in every other case it cannot, and a start is refused wherever the
/// version is known to be older, the helper is missing or this is no Mac.
pub proof fn lemma_when_a_call_can_be_captured(macos: bool, major: u32, helper_found: bool)
    ensures
        capture_availability(macos, Some(major), helper_found) is Available <==> macos && major >= 15
            && helper_found,
        capture_availability(macos, None, helper_found) !is Available,
        capture_availability(macos, Some(major), helper_found) is Unsupported <==> !macos || major
            < 15,
        capture_availability(macos, Some(major), helper_found) !is PermissionRequired,
        start_refusal(macos, Some(major), helper_found) is None <==> macos && major >= 15
            && helper_found,
        start_refusal(macos, None, helper_found) is None <==> macos && helper_found,
{
}

/// The version that is too old is told.
pub proof fn lemma_old_version_is_told(major: u32, helper_found: bool)
    requires
        major < 15,
    ensures
        capture_availability(true, Some(major), helper_found) matches AvailabilityModel::Unsupported {
            detail,
        } && text::occurs_in(text::decimal(major as nat), detail),
        start_refusal(true, Some(major), helper_found) matches Some(reason) && text::occurs_in(
            text::decimal(major as nat),
            reason,
        ),
{
    text::lemma_occurs(
        "Native call capture requires macOS 15 or newer. This Mac reports macOS "@,
        text::decimal(major as nat),
        "."@,
    );
    text::lemma_occurs(
        "native call capture requires macOS 15 or newer (found macOS "@,
        text::decimal(major as nat),
        ")"@,
    );
}

/// A start warns of a microphone that is missing, by its name, and of nothing
/// else.
pub proof fn lemma_start_warns_of_a_missing_microphone(name: Seq<char>)
    ensures
        start_warnings(SelectionModel::ConfiguredMissing(name)).len() == 1,
        text::occurs_in(name, start_warnings(SelectionModel::ConfiguredMissing(name))[0]),
        start_warnings(SelectionModel::Configured(name)).len() == 0,
        start_warnings(SelectionModel::Default).len() == 0,
{
    microphone::lemma_warnings_name_the_microphone(name, name);
}

/// Only the word `ready` is readiness. What came instead is told.
pub proof fn lemma_only_ready_is_ready(line: Seq<char>, error: Seq<char>)
    ensures
        not_ready(ReadinessModel::Line(line)) is None <==> line == "ready"@,
        not_ready(ReadinessModel::Line(line)) matches Some(reason) ==> text::occurs_in(line, reason),
        not_ready(ReadinessModel::ReadFailed { error }) matches Some(reason) && text::occurs_in(
            error,
            reason,
        ),
        not_ready(ReadinessModel::Closed) is Some,
        not_ready(ReadinessModel::TimedOut) is Some,
        not_ready(ReadinessModel::Closed) != not_ready(ReadinessModel::TimedOut),
{
    let unexpected = "native call helper returned unexpected readiness output: "@;
    let failed = "failed to read native call helper output: "@;
    let nothing = Seq::<char>::empty();
    text::lemma_occurs(unexpected, line, nothing);
    text::lemma_occurs(failed, error, nothing);
    assert(unexpected + line + nothing =~= unexpected + line);
    assert(failed + error + nothing =~= failed + error);
    reveal_strlit("native call helper exited before signaling readiness");
    reveal_strlit("native call helper timed out waiting for ScreenCaptureKit readiness");
    assert("native call helper exited before signaling readiness"@.len()
        != "native call helper timed out waiting for ScreenCaptureKit readiness"@.len());
}

/// A helper that runs is waited for while it was heard of in the last thirty
/// seconds and was not asked to stop ten minutes ago; then it is given up. One
/// that has exited, or cannot be asked about, ends the stop at once.
pub proof fn lemma_how_long_a_stop_waits(
    since_stop: u64,
    since_progress: u64,
    success: bool,
    status: Seq<char>,
    error: Seq<char>,
)
    ensures
        stop_look(HelperProcessModel::Running, since_stop, Some(since_progress)) is Wait
            <==> since_stop < 600_000_000_000 && since_progress < 30_000_000_000,
        stop_look(HelperProcessModel::Running, since_stop, Some(since_progress)) is Wait
            || stop_look(HelperProcessModel::Running, since_stop, Some(since_progress)) is GiveUp,
        stop_look(HelperProcessModel::Running, since_stop, None) is GiveUp,
        stop_look(HelperProcessModel::Exited { success: true, status }, since_stop, None)
            == StopModel::Finished(None),
        stop_look(HelperProcessModel::Exited { success, status }, since_stop, Some(since_progress))
            matches StopModel::Finished(failure) && (failure is None <==> success),
        stop_look(HelperProcessModel::Unknown { error }, since_stop, None) == StopModel::Finished(
            Some(error),
        ),
{
}

/// A stop begins by asking a helper that runs to finish; one that has exited
/// ends it with how it exited, which is told where it failed.
pub proof fn lemma_how_a_stop_begins(success: bool, status: Seq<char>, helper: HelperProcessModel)
    ensures
        stop_start(true, HelperProcessModel::Running) == StopModel::Terminate,
        stop_start(true, HelperProcessModel::Exited { success: true, status })
            == StopModel::Finished(None),
        stop_start(true, HelperProcessModel::Exited { success: false, status }) matches
            StopModel::Finished(Some(reason)) && text::occurs_in(status, reason),
        stop_start(false, helper) matches StopModel::Finished(failure) && failure is Some,
{
    let exited = "native call helper exited with status "@;
    let nothing = Seq::<char>::empty();
    text::lemma_occurs(exited, status, nothing);
    assert(exited + status + nothing =~= exited + status);
}

/// A capture that is paused and one that goes on are told apart, and nothing
/// is sent where no helper runs.
pub proof fn lemma_what_is_signalled(pid: u32)
    requires
        pid != 0,
    ensures
        pause_signal(pid, true) == Some((pid, PauseSignal::Pause)),
        pause_signal(pid, false) == Some((pid, PauseSignal::Resume)),
        pause_signal(0, true) is None,
        pause_signal(0, false) is None,
{
}

/// Warnings are told in order, with a space between two of them.
pub proof fn lemma_warnings_are_spaced(texts: Seq<Seq<char>>, more: Seq<char>)
    ensures
        texts.len() > 0 ==> spaced(texts.push(more)) == spaced(texts) + " "@ + more,
        spaced(seq![more]) == more,
        spaced(Seq::empty()) == Seq::<char>::empty(),
{
    assert(texts.push(more).drop_last() =~= texts);
}

/// How long ago something was; a moment that is still to come was just now.
pub proof fn lemma_how_long_ago(then: u64, now: u64)
    ensures
        now >= then ==> then + since(then, now) == now,
        now < then ==> since(then, now) == 0,
{
}

/// Why a start is refused, and why a call cannot be captured, in words.
pub proof fn lemma_reasons_are_told(major: Option<u32>, helper_found: bool)
    requires
        major is Some ==> major->0 >= 15,
    ensures
        start_refusal(false, major, helper_found) == Some(
            "native call capture is unsupported on this platform"@,
        ),
        start_refusal(true, major, false) == Some("native call helper binary is unavailable"@),
        capture_availability(false, major, helper_found) == (AvailabilityModel::Unsupported {
            detail: "Native call capture is currently implemented on macOS only."@,
        }),
        capture_availability(true, None, helper_found) == (AvailabilityModel::Unavailable {
            detail: "Could not determine the macOS version for native call capture."@,
        }),
        major is Some ==> capture_availability(true, major, false) == (
        AvailabilityModel::Unavailable {
            detail: "Bundled native call helper is missing from the app bundle."@,
        }),
        major is Some ==> capture_availability(true, major, true) == (
        AvailabilityModel::Available { backend: "screencapturekit-helper"@ }),
{
}

/// Why a helper is given up: silence is told from the ceiling, which goes
/// first.
pub proof fn lemma_why_a_helper_is_given_up(since_stop: u64, since_progress: u64)
    ensures
        since_stop >= 600_000_000_000 ==> stop_look(
            HelperProcessModel::Running,
            since_stop,
            Some(since_progress),
        ) == StopModel::GiveUp(
            "native call helper did not finalize within 600s (absolute ceiling); SIGKILLed. Per-source stems may still be recoverable in ~/.minutes/native-captures/."@,
        ),
        since_stop < 600_000_000_000 && since_progress >= 30_000_000_000 ==> stop_look(
            HelperProcessModel::Running,
            since_stop,
            Some(since_progress),
        ) == StopModel::GiveUp(
            "native call helper went silent for 30s during finalize; SIGKILLed. Per-source stems may still be recoverable in ~/.minutes/native-captures/."@,
        ),
{
}

/// What a helper that was not ready is said to have done.
pub proof fn lemma_why_a_helper_is_not_ready(line: Seq<char>, error: Seq<char>)
    requires
        line != "ready"@,
    ensures
        not_ready(ReadinessModel::Line(line)) == Some(
            "native call helper returned unexpected readiness output: "@ + line,
        ),
        not_ready(ReadinessModel::ReadFailed { error }) == Some(
            "failed to read native call helper output: "@ + error,
        ),
        not_ready(ReadinessModel::Closed) == Some(
            "native call helper exited before signaling readiness"@,
        ),
        not_ready(ReadinessModel::TimedOut) == Some(
            "native call helper timed out waiting for ScreenCaptureKit readiness"@,
        ),
        exit_failure(false, error) == Some("native call helper exited with status "@ + error),
{
}

/// Readiness is waited for ten seconds, and a stop is looked at five times a
/// second.
pub proof fn lemma_how_long_a_helper_is_waited_for()
    ensures
        READY_TIMEOUT_SECS == 10,
        5 * STOP_POLL_MILLIS == 1000,
{
}

} // verus!
