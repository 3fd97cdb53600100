//! The call detector: what it remembers between two polls and how it tells
//! whether a call is on.
//!
//! Two signals together, a process running and the microphone live, give
//! high confidence with few false positives. Where the capture can be
//! attributed to a process, the microphone signal is narrowed to the process
//! family of the application or browser being checked, so that a dictation
//! tool holding the microphone does not validate an idle call application or
//! a stale meeting tab.
//!
//! Moments are arguments. Asking a browser for its tabs is outside work, so a
//! detection that needs it comes in two steps, with the answer handed to the
//! second.

use crate::any_mic_app;
use crate::any_mic_app::detect_any_mic_app;
use crate::browsers;
use crate::browsers::{browser_hit_has_active_input, BrowserSpec};
use crate::config;
use crate::config::{CallDetectionConfig, ConfigModel};
use crate::deadlines;
use crate::deadlines::{deadline_after, elapsed, DeadlineMap};
use crate::mic_check::mic_live_from_pids;
use crate::native_apps;
use crate::native_apps::{
    display_name_for, is_low_confidence_native_call_app, native_app_has_active_input,
};
use crate::processes::{process_names_from_snapshot, RunningProcess};
use crate::text;
use crate::text::same_text;
use std::collections::HashSet;
use vstd::prelude::*;

verus! {

/// After how long the same ongoing call is announced again.
pub const SAME_APP_REMINDER_SECS: u64 = 20;

/// How long browser tabs are left alone after a probe.
pub const BROWSER_PROBE_INTERVAL_SECS: u64 = 15;

/// How long one browser is left alone after a probe of it failed.
pub const BROWSER_PROBE_BACKOFF_SECS: u64 = 300;

pub const GOOGLE_MEET_STICKY_SECS: u64 = 20;

pub const TEAMS_WEB_STICKY_SECS: u64 = 20;

#[derive(Debug, Clone, Copy, PartialEq, Eq, Structural)]
pub enum MeetingProvider {
    GoogleMeet,
    TeamsWeb,
}

pub open spec fn provider_names(provider: MeetingProvider) -> (Seq<char>, Seq<char>) {
    match provider {
        MeetingProvider::GoogleMeet => ("Google Meet"@, "google-meet"@),
        MeetingProvider::TeamsWeb => ("Teams"@, "teams-web"@),
    }
}

pub open spec fn sticky_secs(provider: MeetingProvider) -> u64 {
    match provider {
        MeetingProvider::GoogleMeet => GOOGLE_MEET_STICKY_SECS,
        MeetingProvider::TeamsWeb => TEAMS_WEB_STICKY_SECS,
    }
}

impl MeetingProvider {
    /// Returns (display name, process sentinel) for the provider. The sentinel
    /// is the same opaque string stored in `CallDetectionConfig::apps`.
    pub fn names(self) -> (names: (&'static str, &'static str))
        ensures
            (names.0@, names.1@) == provider_names(self),
    {
        match self {
            MeetingProvider::GoogleMeet => ("Google Meet", "google-meet"),
            MeetingProvider::TeamsWeb => ("Teams", "teams-web"),
        }
    }

    /// How many seconds a hit is trusted between two probes.
    pub fn sticky_duration(self) -> (secs: u64)
        ensures
            secs == sticky_secs(self),
    {
        match self {
            MeetingProvider::GoogleMeet => GOOGLE_MEET_STICKY_SECS,
            MeetingProvider::TeamsWeb => TEAMS_WEB_STICKY_SECS,
        }
    }
}

/// What one poll found.
#[derive(Debug, PartialEq, Eq)]
pub enum DetectActiveCallResult {
    Detected { display_name: String, process_name: String },
    PermissionWarning { browser_app: String },
    NoCall,
}

/// What one poll found, with its texts as sequences of characters.
pub enum Detection {
    Call { display_name: Seq<char>, process_name: Seq<char> },
    PermissionWarning { browser_app: Seq<char> },
    NoCall,
}

impl View for DetectActiveCallResult {
    type V = Detection;

    open spec fn view(&self) -> Detection {
        match *self {
            DetectActiveCallResult::Detected { display_name, process_name } => Detection::Call {
                display_name: display_name@,
                process_name: process_name@,
            },
            DetectActiveCallResult::PermissionWarning { browser_app } => {
                Detection::PermissionWarning { browser_app: browser_app@ }
            },
            DetectActiveCallResult::NoCall => Detection::NoCall,
        }
    }
}

pub open spec fn meeting_with(provider: MeetingProvider) -> Detection {
    Detection::Call {
        display_name: provider_names(provider).0,
        process_name: provider_names(provider).1,
    }
}

pub fn detected_for(provider: MeetingProvider) -> (result: DetectActiveCallResult)
    ensures
        result@ == meeting_with(provider),
{
    let (display_name, process_name) = provider.names();
    DetectActiveCallResult::Detected {
        display_name: display_name.to_owned(),
        process_name: process_name.to_owned(),
    }
}

/// A browser-tab meeting hit that is still trusted between two probes.
#[derive(Debug, Clone, Copy)]
pub struct BrowserSticky {
    pub until: u128,
    /// Browser whose tab produced the hit. The window only counts while this
    /// browser, not any process, holds input.
    pub browser: BrowserSpec,
}

/// The hit while its window is open.
pub open spec fn open_window(sticky: Option<BrowserSticky>, now: u64) -> Option<BrowserSticky> {
    match sticky {
        Some(hit) => if now < hit.until {
            Some(hit)
        } else {
            None
        },
        None => None,
    }
}

/// The hit that a browser's tab gives at `now`.
pub open spec fn fresh_sticky(now: u64, secs: u64, browser: BrowserSpec) -> Option<BrowserSticky> {
    Some(BrowserSticky { until: deadlines::deadline(now, secs), browser })
}

pub fn remember_sticky(
    sticky: &mut Option<BrowserSticky>,
    now: u64,
    ttl_secs: u64,
    browser: BrowserSpec,
)
    ensures
        *final(sticky) == fresh_sticky(now, ttl_secs, browser),
{
    *sticky = Some(BrowserSticky { until: deadline_after(now, ttl_secs), browser });
}

/// The sticky hit while its window is open; clears the slot once expired.
pub fn sticky_alive(sticky: &mut Option<BrowserSticky>, now: u64) -> (hit: Option<BrowserSticky>)
    ensures
        hit == open_window(*old(sticky), now),
        *final(sticky) == open_window(*old(sticky), now),
{
    match *sticky {
        Some(hit) => {
            if (now as u128) < hit.until {
                Some(hit)
            } else {
                *sticky = None;
                None
            }
        },
        None => None,
    }
}

/// What looking through the browsers came to.
#[derive(Debug)]
pub enum BrowserMeetProbe {
    Detected {
        provider: MeetingProvider,
        /// Browser whose tab matched; the hit is gated on its input.
        browser: BrowserSpec,
    },
    PermissionDenied { browser_app: String },
    Error,
    NoBrowserProcesses,
    NoMatch,
}

/// The call session that is going on.
#[derive(Debug, Clone)]
pub struct ActiveCallState {
    pub process_name: String,
    pub display_name: String,
    pub last_notified_at: u64,
    /// Set after `call:ended` has been emitted for the current session.
    /// Keeps repeated "no longer detected" polls from re-arming the
    /// countdown if the user hit "Keep recording".
    pub call_end_fired: bool,
}

/// A session with its texts as sequences of characters.
pub struct SessionModel {
    pub process_name: Seq<char>,
    pub display_name: Seq<char>,
    pub last_notified_at: u64,
    pub call_end_fired: bool,
}

impl View for ActiveCallState {
    type V = SessionModel;

    open spec fn view(&self) -> SessionModel {
        SessionModel {
            process_name: self.process_name@,
            display_name: self.display_name@,
            last_notified_at: self.last_notified_at,
            call_end_fired: self.call_end_fired,
        }
    }
}

pub open spec fn session_model(state: Option<ActiveCallState>) -> Option<SessionModel> {
    match state {
        Some(s) => Some(s@),
        None => None,
    }
}

#[derive(Debug, Clone, Copy, PartialEq, Eq, Structural)]
pub enum DetectionTransition {
    NewSession,
    Reminder,
    Noop,
}

/// State for the call detection loop.
#[derive(Debug)]
pub struct CallDetector {
    pub config: CallDetectionConfig,
    /// Last observed active call session. We still re-arm on call end/start,
    /// but we also re-notify the same active app after a short interval so
    /// back-to-back meetings and sticky Zoom states don't go silent forever.
    pub active_call: Option<ActiveCallState>,
    /// Browser tab probing is slower and lower-confidence than native app
    /// detection, so keep it on its own cadence instead of every call-detect
    /// poll when the mic is hot.
    pub browser_probe_next_allowed_at: Option<u128>,
    /// Back off individual browsers after Apple Events / automation failures so
    /// one denied path does not get retried every poll or suppress other browsers.
    pub browser_probe_backoff_until: DeadlineMap,
    /// Recent successful browser-based Meet detection. Prevents fast native-app
    /// polling from immediately relabeling the same active session as Slack.
    /// Remembers which browser produced the hit so the window only counts
    /// while that browser holds input (see `browser_hit_has_active_input`).
    pub recent_google_meet_until: Option<BrowserSticky>,
    /// Recent successful browser-based Teams detection. Same role as the Meet
    /// sticky field but for Microsoft Teams in a browser tab.
    pub recent_teams_web_until: Option<BrowserSticky>,
    /// Log mic-gate transitions once instead of spamming every poll.
    pub last_mic_live: Option<bool>,
}

/// What the detector remembers.
#[verifier::ext_equal]
pub struct DetectorModel {
    pub config: ConfigModel,
    pub active_call: Option<SessionModel>,
    pub browser_probe_next_allowed_at: Option<u128>,
    pub backoff: Map<Seq<char>, u128>,
    pub recent_google_meet: Option<BrowserSticky>,
    pub recent_teams_web: Option<BrowserSticky>,
    pub last_mic_live: Option<bool>,
}

impl View for CallDetector {
    type V = DetectorModel;

    open spec fn view(&self) -> DetectorModel {
        DetectorModel {
            config: self.config@,
            active_call: session_model(self.active_call),
            browser_probe_next_allowed_at: self.browser_probe_next_allowed_at,
            backoff: self.browser_probe_backoff_until@,
            recent_google_meet: self.recent_google_meet_until,
            recent_teams_web: self.recent_teams_web_until,
            last_mic_live: self.last_mic_live,
        }
    }
}

/// What a poll sees: whether the microphone is live, the process table and
/// the pids that capture, the last two where they are known.
pub struct Scene {
    pub mic_live: bool,
    pub processes: Option<Seq<RunningProcess>>,
    pub active: Option<Set<u32>>,
}

pub open spec fn scene(
    mic_live: bool,
    processes: Option<&[RunningProcess]>,
    active_input_pids: Option<&HashSet<u32>>,
) -> Scene {
    Scene {
        mic_live,
        processes: browsers::table_model(processes),
        active: browsers::pids_model(active_input_pids),
    }
}

pub open spec fn captures_in(scene: Scene, browser: BrowserSpec) -> bool {
    browsers::browser_captures(browser, scene.mic_live, scene.processes, scene.active)
}

/// Whether a remembered hit still stands for a call: its window is open, and
/// the browser that gave it is the one that holds input.
pub open spec fn sticky_counts(sticky: Option<BrowserSticky>, now: u64, scene: Scene) -> bool {
    match open_window(sticky, now) {
        Some(hit) => captures_in(scene, hit.browser),
        None => false,
    }
}

pub open spec fn wants_meet(config: ConfigModel) -> bool {
    config::lists(config, "google-meet"@)
}

pub open spec fn wants_teams(config: ConfigModel) -> bool {
    config::lists(config, "teams-web"@)
}

pub open spec fn sentinel(app: Seq<char>) -> bool {
    app == "google-meet"@ || app == "teams-web"@
}

/// Whether the microphone is live in a poll.
pub open spec fn poll_mic_live(active: Option<Set<u32>>, device_live: bool) -> bool {
    match active {
        Some(pids) => pids != Set::<u32>::empty(),
        None => device_live,
    }
}

/// Whether browser tabs may be looked at again.
pub open spec fn probe_due(next_allowed_at: Option<u128>, now: u64) -> bool {
    match next_allowed_at {
        Some(until) => now >= until,
        None => true,
    }
}

/// The first step of a detection.
#[derive(Debug)]
pub enum DetectionStep {
    /// The poll is decided.
    Decided(DetectActiveCallResult),
    /// Look through the browsers, then finish with the answer.
    ProbeBrowsers { want_meet: bool, want_teams: bool },
    /// Finish without an answer from the browsers.
    SkipBrowsers,
}

pub enum StepModel {
    Decided(Detection),
    ProbeBrowsers { want_meet: bool, want_teams: bool },
    SkipBrowsers,
}

impl View for DetectionStep {
    type V = StepModel;

    open spec fn view(&self) -> StepModel {
        match *self {
            DetectionStep::Decided(result) => StepModel::Decided(result@),
            DetectionStep::ProbeBrowsers { want_meet, want_teams } => StepModel::ProbeBrowsers {
                want_meet,
                want_teams,
            },
            DetectionStep::SkipBrowsers => StepModel::SkipBrowsers,
        }
    }
}

/// The first step: a remembered hit decides, then a silent microphone; then
/// the browsers are looked through if they are due.
pub open spec fn first_step(
    detector: DetectorModel,
    config: ConfigModel,
    scene: Scene,
    force_browser_probe: bool,
    now: u64,
) -> StepModel {
    if wants_meet(config) && sticky_counts(detector.recent_google_meet, now, scene) {
        StepModel::Decided(meeting_with(MeetingProvider::GoogleMeet))
    } else if wants_teams(config) && sticky_counts(detector.recent_teams_web, now, scene) {
        StepModel::Decided(meeting_with(MeetingProvider::TeamsWeb))
    } else if !scene.mic_live {
        StepModel::Decided(Detection::NoCall)
    } else if (wants_meet(config) || wants_teams(config)) && (force_browser_probe || probe_due(
        detector.browser_probe_next_allowed_at,
        now,
    )) {
        StepModel::ProbeBrowsers {
            want_meet: wants_meet(config),
            want_teams: wants_teams(config),
        }
    } else {
        StepModel::SkipBrowsers
    }
}

/// What the detector remembers after the first step: windows and waits that
/// were looked at and found expired are forgotten.
pub open spec fn after_first_step(
    detector: DetectorModel,
    config: ConfigModel,
    scene: Scene,
    force_browser_probe: bool,
    now: u64,
) -> DetectorModel {
    let meet = wants_meet(config) && sticky_counts(detector.recent_google_meet, now, scene);
    let teams = wants_teams(config) && sticky_counts(detector.recent_teams_web, now, scene);
    let asks_due = !meet && !teams && scene.mic_live && (wants_meet(config) || wants_teams(config))
        && !force_browser_probe;
    DetectorModel {
        recent_google_meet: if wants_meet(config) {
            open_window(detector.recent_google_meet, now)
        } else {
            detector.recent_google_meet
        },
        recent_teams_web: if !meet && wants_teams(config) {
            open_window(detector.recent_teams_web, now)
        } else {
            detector.recent_teams_web
        },
        browser_probe_next_allowed_at: if asks_due && probe_due(
            detector.browser_probe_next_allowed_at,
            now,
        ) {
            None
        } else {
            detector.browser_probe_next_allowed_at
        },
        ..detector
    }
}

/// Whether the application is a native one of this confidence that captures.
pub open spec fn native_call(
    app: Seq<char>,
    low: bool,
    processes: Seq<RunningProcess>,
    active: Set<u32>,
) -> bool {
    &&& !sentinel(app)
    &&& native_apps::low_confidence(app) == low
    &&& native_apps::app_captures(app, processes, active)
}

/// The first application of the list, of this confidence, that captures.
pub open spec fn first_native_call(
    apps: Seq<Seq<char>>,
    low: bool,
    processes: Seq<RunningProcess>,
    active: Set<u32>,
) -> Option<Seq<char>>
    decreases apps.len(),
{
    if apps.len() == 0 {
        None
    } else if native_call(apps[0], low, processes, active) {
        Some(apps[0])
    } else {
        first_native_call(apps.drop_first(), low, processes, active)
    }
}

pub open spec fn native_result(app: Seq<char>) -> Detection {
    Detection::Call { display_name: native_apps::display_name(app), process_name: app }
}

/// What the native tiers find: applications of high confidence, then those of
/// low confidence, then, where the settings allow it, any application that
/// holds the microphone. Without attribution they find nothing.
pub open spec fn native_tiers(config: ConfigModel, scene: Scene, self_pid: u32) -> Detection {
    match (scene.processes, scene.active) {
        (Some(processes), Some(active)) => {
            match first_native_call(config.apps, false, processes, active) {
                Some(app) => native_result(app),
                None => match first_native_call(config.apps, true, processes, active) {
                    Some(app) => native_result(app),
                    None => if config.any_mic_app {
                        match any_mic_app::any_mic_app(processes, active, self_pid) {
                            Some((display_name, process_name)) => Detection::Call {
                                display_name,
                                process_name,
                            },
                            None => Detection::NoCall,
                        }
                    } else {
                        Detection::NoCall
                    },
                },
            }
        },
        _ => Detection::NoCall,
    }
}

/// What the second step finds. A tab that matches in a browser that is not
/// holding the microphone (stale tab plus a dictation tool, or another
/// browser on the call) is not a call.
pub open spec fn second_step(
    config: ConfigModel,
    scene: Scene,
    probe: Option<BrowserMeetProbe>,
    self_pid: u32,
) -> Detection {
    match probe {
        Some(BrowserMeetProbe::Detected { provider, browser }) => if captures_in(scene, browser) {
            meeting_with(provider)
        } else {
            native_tiers(config, scene, self_pid)
        },
        Some(BrowserMeetProbe::PermissionDenied { browser_app }) => Detection::PermissionWarning {
            browser_app: browser_app@,
        },
        _ => native_tiers(config, scene, self_pid),
    }
}

/// What the detector remembers after the second step: a hit that counted.
pub open spec fn after_second_step(
    detector: DetectorModel,
    scene: Scene,
    probe: Option<BrowserMeetProbe>,
    now: u64,
) -> DetectorModel {
    match probe {
        Some(BrowserMeetProbe::Detected { provider, browser }) => if captures_in(scene, browser) {
            let hit = fresh_sticky(now, sticky_secs(provider), browser);
            match provider {
                MeetingProvider::GoogleMeet => DetectorModel { recent_google_meet: hit, ..detector },
                MeetingProvider::TeamsWeb => DetectorModel { recent_teams_web: hit, ..detector },
            }
        } else {
            detector
        },
        _ => detector,
    }
}

impl CallDetector {
    pub fn new(config: CallDetectionConfig) -> (detector: CallDetector)
        ensures
            detector@ == (DetectorModel {
                config: config@,
                active_call: None,
                browser_probe_next_allowed_at: None,
                backoff: Map::empty(),
                recent_google_meet: None,
                recent_teams_web: None,
                last_mic_live: None,
            }),
    {
        CallDetector {
            config,
            active_call: None,
            browser_probe_next_allowed_at: None,
            browser_probe_backoff_until: DeadlineMap::new(),
            recent_google_meet_until: None,
            recent_teams_web_until: None,
            last_mic_live: None,
        }
    }

    pub fn current_config(&self) -> (config: CallDetectionConfig)
        ensures
            config@ == self@.config,
    {
        self.config.clone()
    }

    /// Takes over newly loaded settings.
    pub fn reload_config(&mut self, latest: CallDetectionConfig)
        ensures
            final(self)@ == (DetectorModel { config: latest@, ..old(self)@ }),
    {
        self.config = latest;
    }

    /// Notes whether the microphone is live; tells whether it has just gone live.
    pub fn note_mic_state(&mut self, mic_live: bool) -> (just_activated: bool)
        ensures
            just_activated == (old(self)@.last_mic_live == Some(false) && mic_live),
            final(self)@ == (DetectorModel { last_mic_live: Some(mic_live), ..old(self)@ }),
    {
        let just_activated = match self.last_mic_live {
            Some(last) => !last && mic_live,
            None => false,
        };
        self.last_mic_live = Some(mic_live);
        just_activated
    }

    /// Whether browser tabs may be looked at; forgets a wait that is over.
    pub fn browser_probe_due(&mut self, now: u64) -> (due: bool)
        ensures
            due == probe_due(old(self)@.browser_probe_next_allowed_at, now),
            final(self)@ == (DetectorModel {
                browser_probe_next_allowed_at: if due {
                    None
                } else {
                    old(self)@.browser_probe_next_allowed_at
                },
                ..old(self)@
            }),
    {
        match self.browser_probe_next_allowed_at {
            Some(until) => {
                if (now as u128) < until {
                    false
                } else {
                    self.browser_probe_next_allowed_at = None;
                    true
                }
            },
            None => true,
        }
    }

    pub fn schedule_next_browser_probe(&mut self, now: u64)
        ensures
            final(self)@ == (DetectorModel {
                browser_probe_next_allowed_at: Some(
                    deadlines::deadline(now, BROWSER_PROBE_INTERVAL_SECS),
                ),
                ..old(self)@
            }),
    {
        self.browser_probe_next_allowed_at = Some(deadline_after(now, BROWSER_PROBE_INTERVAL_SECS));
    }

    /// The first step of a detection: everything that needs no answer from
    /// the browsers.
    pub fn begin_detection(
        &mut self,
        config: &CallDetectionConfig,
        mic_live: bool,
        processes: Option<&[RunningProcess]>,
        active_input_pids: Option<&HashSet<u32>>,
        force_browser_probe: bool,
        now: u64,
    ) -> (step: DetectionStep)
        ensures
            step@ == first_step(
                old(self)@,
                config@,
                scene(mic_live, processes, active_input_pids),
                force_browser_probe,
                now,
            ),
            final(self)@ == after_first_step(
                old(self)@,
                config@,
                scene(mic_live, processes, active_input_pids),
                force_browser_probe,
                now,
            ),
    {
        let want_meet = config.lists_app("google-meet");
        let want_teams = config.lists_app("teams-web");
        // A sticky only bridges probes while the browser that produced it is
        // still the one holding input; a dictation tool grabbing the mic must
        // not re-arm it. A rejected sticky is left to expire on its own.
        if want_meet {
            if let Some(hit) = sticky_alive(&mut self.recent_google_meet_until, now) {
                if browser_hit_has_active_input(
                    &hit.browser,
                    mic_live,
                    processes,
                    active_input_pids,
                ) {
                    return DetectionStep::Decided(detected_for(MeetingProvider::GoogleMeet));
                }
            }
        }
        if want_teams {
            if let Some(hit) = sticky_alive(&mut self.recent_teams_web_until, now) {
                if browser_hit_has_active_input(
                    &hit.browser,
                    mic_live,
                    processes,
                    active_input_pids,
                ) {
                    return DetectionStep::Decided(detected_for(MeetingProvider::TeamsWeb));
                }
            }
        }
        if !mic_live {
            return DetectionStep::Decided(DetectActiveCallResult::NoCall);
        }
        if (want_meet || want_teams) && (force_browser_probe || self.browser_probe_due(now)) {
            DetectionStep::ProbeBrowsers { want_meet, want_teams }
        } else {
            DetectionStep::SkipBrowsers
        }
    }

    /// The first step of a poll. The microphone is live where some process
    /// captures; where that is not known, `device_live` says so. A microphone
    /// that has just gone live has the browsers looked through at once.
    pub fn begin_poll(
        &mut self,
        config: &CallDetectionConfig,
        processes: &[RunningProcess],
        active_input_pids: Option<&HashSet<u32>>,
        device_live: bool,
        now: u64,
    ) -> (begun: (bool, DetectionStep))
        ensures
            ({
                let mic_live = poll_mic_live(browsers::pids_model(active_input_pids), device_live);
                let just_activated = old(self)@.last_mic_live == Some(false) && mic_live;
                let noted = DetectorModel { last_mic_live: Some(mic_live), ..old(self)@ };
                let seen = scene(mic_live, Some(processes), active_input_pids);
                &&& begun.0 == mic_live
                &&& begun.1@ == first_step(noted, config@, seen, just_activated, now)
                &&& final(self)@ == after_first_step(noted, config@, seen, just_activated, now)
            }),
    {
        let mic_live = match mic_live_from_pids(active_input_pids) {
            Some(live) => live,
            None => device_live,
        };
        let just_activated = self.note_mic_state(mic_live);
        let step = self.begin_detection(
            config,
            mic_live,
            Some(processes),
            active_input_pids,
            just_activated,
            now,
        );
        (mic_live, step)
    }

    /// The second step of a detection, with what the browsers answered if
    /// they were asked.
    pub fn finish_detection(
        &mut self,
        config: &CallDetectionConfig,
        mic_live: bool,
        processes: Option<&[RunningProcess]>,
        active_input_pids: Option<&HashSet<u32>>,
        probe: Option<BrowserMeetProbe>,
        now: u64,
        self_pid: u32,
    ) -> (result: DetectActiveCallResult)
        ensures
            result@ == second_step(
                config@,
                scene(mic_live, processes, active_input_pids),
                probe,
                self_pid,
            ),
            final(self)@ == after_second_step(
                old(self)@,
                scene(mic_live, processes, active_input_pids),
                probe,
                now,
            ),
    {
        match probe {
            Some(BrowserMeetProbe::Detected { provider, browser }) => {
                if browser_hit_has_active_input(&browser, mic_live, processes, active_input_pids) {
                    match provider {
                        MeetingProvider::GoogleMeet => remember_sticky(
                            &mut self.recent_google_meet_until,
                            now,
                            provider.sticky_duration(),
                            browser,
                        ),
                        MeetingProvider::TeamsWeb => remember_sticky(
                            &mut self.recent_teams_web_until,
                            now,
                            provider.sticky_duration(),
                            browser,
                        ),
                    }
                    return detected_for(provider);
                }
            },
            Some(BrowserMeetProbe::PermissionDenied { browser_app }) => {
                return DetectActiveCallResult::PermissionWarning { browser_app };
            },
            _ => {},
        }
        detect_native_call(config, mic_live, processes, active_input_pids, self_pid)
    }
}

fn find_native_call(
    config: &CallDetectionConfig,
    low: bool,
    processes: &[RunningProcess],
    active_input_pids: &HashSet<u32>,
) -> (app: Option<String>)
    ensures
        match app {
            Some(a) => first_native_call(config@.apps, low, processes@, active_input_pids@) == Some(
                a@,
            ),
            None => first_native_call(config@.apps, low, processes@, active_input_pids@) is None,
        },
{
    let ghost apps = config@.apps;
    let mut i: usize = 0;
    proof {
        assert(apps.skip(0) =~= apps);
    }
    while i < config.apps.len()
        invariant
            i <= config.apps.len(),
            apps == config@.apps,
            first_native_call(apps, low, processes@, active_input_pids@) == first_native_call(
                apps.skip(i as int),
                low,
                processes@,
                active_input_pids@,
            ),
        decreases config.apps.len() - i,
    {
        let app = config.apps[i].as_str();
        proof {
            assert(apps.skip(i as int)[0] == app@);
            assert(apps.skip(i as int).drop_first() =~= apps.skip(i + 1));
        }
        if !same_text(app, "google-meet") && !same_text(app, "teams-web")
            && is_low_confidence_native_call_app(app) == low && native_app_has_active_input(
            app,
            processes,
            active_input_pids,
        ) {
            return Some(app.to_owned());
        }
        i += 1;
    }
    None
}

/// The native tiers of a detection.
fn detect_native_call(
    config: &CallDetectionConfig,
    mic_live: bool,
    processes: Option<&[RunningProcess]>,
    active_input_pids: Option<&HashSet<u32>>,
    self_pid: u32,
) -> (result: DetectActiveCallResult)
    ensures
        result@ == native_tiers(
            config@,
            scene(mic_live, processes, active_input_pids),
            self_pid,
        ),
{
    if let (Some(processes), Some(active_input_pids)) = (processes, active_input_pids) {
        // Match the actual app binary name, not background daemons.
        // e.g. "FaceTime" should match the "FaceTime" binary, NOT
        // "com.apple.FaceTime.FTConversationService" (a system daemon
        // that runs permanently and caused false positives).
        if let Some(app) = find_native_call(config, false, processes, active_input_pids) {
            return DetectActiveCallResult::Detected {
                display_name: display_name_for(app.as_str()),
                process_name: app,
            };
        }
        if let Some(app) = find_native_call(config, true, processes, active_input_pids) {
            return DetectActiveCallResult::Detected {
                display_name: display_name_for(app.as_str()),
                process_name: app,
            };
        }
        if config.any_mic_app {
            if let Some((display_name, process_name)) = detect_any_mic_app(
                processes,
                active_input_pids,
                self_pid,
            ) {
                return DetectActiveCallResult::Detected { display_name, process_name };
            }
        }
    }
    DetectActiveCallResult::NoCall
}

/// How a detection in one call ends, given what was remembered before it and
/// after it. The browsers are asked only where the first step says so.
pub open spec fn detection_outcome<F: FnOnce(&[String], bool, bool) -> Option<BrowserMeetProbe>>(
    before: DetectorModel,
    config: ConfigModel,
    scene: Scene,
    running: &[String],
    force_browser_probe: bool,
    now: u64,
    self_pid: u32,
    browser_probe: F,
    result: Detection,
    after: DetectorModel,
) -> bool {
    let middle = after_first_step(before, config, scene, force_browser_probe, now);
    match first_step(before, config, scene, force_browser_probe, now) {
        StepModel::Decided(decided) => result == decided && after == middle,
        StepModel::ProbeBrowsers { want_meet, want_teams } => exists|
            probe: Option<BrowserMeetProbe>,
        |
            #![trigger browser_probe.ensures((running, want_meet, want_teams), probe)]
            {
                &&& browser_probe.ensures((running, want_meet, want_teams), probe)
                &&& result == second_step(config, scene, probe, self_pid)
                &&& after == after_second_step(middle, scene, probe, now)
            },
        StepModel::SkipBrowsers => {
            &&& result == native_tiers(config, scene, self_pid)
            &&& after == middle
        },
    }
}

impl CallDetector {
    /// A detection in one call, for a browser probe that is a function call
    /// and takes no time.
    pub fn detect_active_call_from_snapshot_with_processes<F>(
        &mut self,
        config: &CallDetectionConfig,
        mic_live: bool,
        running: &[String],
        processes: Option<&[RunningProcess]>,
        active_input_pids: Option<&HashSet<u32>>,
        force_browser_probe: bool,
        now: u64,
        self_pid: u32,
        browser_probe: F,
    ) -> (result: DetectActiveCallResult) where
        F: FnOnce(&[String], bool, bool) -> Option<BrowserMeetProbe>,

        requires
            first_step(
                old(self)@,
                config@,
                scene(mic_live, processes, active_input_pids),
                force_browser_probe,
                now,
            ) matches StepModel::ProbeBrowsers { want_meet, want_teams }
                ==> browser_probe.requires((running, want_meet, want_teams)),
        ensures
            detection_outcome(
                old(self)@,
                config@,
                scene(mic_live, processes, active_input_pids),
                running,
                force_browser_probe,
                now,
                self_pid,
                browser_probe,
                result@,
                final(self)@,
            ),
    {
        match self.begin_detection(
            config,
            mic_live,
            processes,
            active_input_pids,
            force_browser_probe,
            now,
        ) {
            DetectionStep::Decided(result) => result,
            DetectionStep::ProbeBrowsers { want_meet, want_teams } => {
                let probe = browser_probe(running, want_meet, want_teams);
                self.finish_detection(
                    config,
                    mic_live,
                    processes,
                    active_input_pids,
                    probe,
                    now,
                    self_pid,
                )
            },
            DetectionStep::SkipBrowsers => self.finish_detection(
                config,
                mic_live,
                processes,
                active_input_pids,
                None,
                now,
                self_pid,
            ),
        }
    }

    /// The same where only the names of the running processes are known.
    pub fn detect_active_call_from_snapshot<F>(
        &mut self,
        config: &CallDetectionConfig,
        mic_live: bool,
        running: &[String],
        force_browser_probe: bool,
        now: u64,
        self_pid: u32,
        browser_probe: F,
    ) -> (result: DetectActiveCallResult) where
        F: FnOnce(&[String], bool, bool) -> Option<BrowserMeetProbe>,

        requires
            first_step(
                old(self)@,
                config@,
                Scene { mic_live, processes: None, active: None },
                force_browser_probe,
                now,
            ) matches StepModel::ProbeBrowsers { want_meet, want_teams }
                ==> browser_probe.requires((running, want_meet, want_teams)),
        ensures
            detection_outcome(
                old(self)@,
                config@,
                Scene { mic_live, processes: None, active: None },
                running,
                force_browser_probe,
                now,
                self_pid,
                browser_probe,
                result@,
                final(self)@,
            ),
    {
        self.detect_active_call_from_snapshot_with_processes(
            config,
            mic_live,
            running,
            None,
            None,
            force_browser_probe,
            now,
            self_pid,
            browser_probe,
        )
    }

    /// The same on a process table; the probe is handed the names in it.
    pub fn detect_active_call_from_process_snapshot<F>(
        &mut self,
        config: &CallDetectionConfig,
        mic_live: bool,
        processes: &[RunningProcess],
        active_input_pids: Option<&HashSet<u32>>,
        force_browser_probe: bool,
        now: u64,
        self_pid: u32,
        browser_probe: F,
    ) -> (result: DetectActiveCallResult) where
        F: FnOnce(&[String], bool, bool) -> Option<BrowserMeetProbe>,

        requires
            first_step(
                old(self)@,
                config@,
                scene(mic_live, Some(processes), active_input_pids),
                force_browser_probe,
                now,
            ) matches StepModel::ProbeBrowsers { want_meet, want_teams } ==> forall|
                running: &[String],
            |
                #![trigger browser_probe.requires((running, want_meet, want_teams))]
                running@.len() == processes@.len() && (forall|i: int|
                    0 <= i < running@.len() ==> (#[trigger] running@[i])@ == processes@[i].name@)
                    ==> browser_probe.requires((running, want_meet, want_teams)),
        ensures
            exists|running: &[String]|
                #![trigger running@]
                {
                    &&& running@.len() == processes@.len()
                    &&& forall|i: int|
                        0 <= i < running@.len() ==> (#[trigger] running@[i])@
                            == processes@[i].name@
                    &&& detection_outcome(
                        old(self)@,
                        config@,
                        scene(mic_live, Some(processes), active_input_pids),
                        running,
                        force_browser_probe,
                        now,
                        self_pid,
                        browser_probe,
                        result@,
                        final(self)@,
                    )
                },
    {
        let running = process_names_from_snapshot(processes);
        let names = running.as_slice();
        proof {
            assert(names@ == running@);
        }
        self.detect_active_call_from_snapshot_with_processes(
            config,
            mic_live,
            names,
            Some(processes),
            active_input_pids,
            force_browser_probe,
            now,
            self_pid,
            browser_probe,
        )
    }
}

/// What a detected call is to the session that is going on.
pub open spec fn transition(
    session: Option<SessionModel>,
    process_name: Seq<char>,
    now: u64,
) -> DetectionTransition {
    match session {
        Some(s) => if s.process_name != process_name {
            DetectionTransition::NewSession
        } else if deadlines::has_elapsed(s.last_notified_at, now, SAME_APP_REMINDER_SECS) {
            DetectionTransition::Reminder
        } else {
            DetectionTransition::Noop
        },
        None => DetectionTransition::NewSession,
    }
}

/// The session after a call was detected.
pub open spec fn noted_session(
    session: Option<SessionModel>,
    process_name: Seq<char>,
    display_name: Seq<char>,
    now: u64,
) -> Option<SessionModel> {
    match transition(session, process_name, now) {
        DetectionTransition::NewSession => Some(
            SessionModel { process_name, display_name, last_notified_at: now, call_end_fired: false },
        ),
        DetectionTransition::Reminder => Some(
            SessionModel { last_notified_at: now, ..session->0 },
        ),
        DetectionTransition::Noop => session,
    }
}

/// The session with its latch set to `fired`.
pub open spec fn latched(session: Option<SessionModel>, fired: bool) -> Option<SessionModel> {
    match session {
        Some(s) => Some(SessionModel { call_end_fired: fired, ..s }),
        None => None,
    }
}

impl CallDetector {
    pub fn note_active_call(
        &mut self,
        process_name: &str,
        display_name: &str,
        now: u64,
    ) -> (change: DetectionTransition)
        ensures
            change == transition(old(self)@.active_call, process_name@, now),
            final(self)@ == (DetectorModel {
                active_call: noted_session(
                    old(self)@.active_call,
                    process_name@,
                    display_name@,
                    now,
                ),
                ..old(self)@
            }),
    {
        let known = match &self.active_call {
            Some(state) => if same_text(state.process_name.as_str(), process_name) {
                Some(state.last_notified_at)
            } else {
                None
            },
            None => None,
        };
        match known {
            None => {
                self.active_call = Some(
                    ActiveCallState {
                        process_name: process_name.to_owned(),
                        display_name: display_name.to_owned(),
                        last_notified_at: now,
                        call_end_fired: false,
                    },
                );
                DetectionTransition::NewSession
            },
            Some(last_notified_at) => {
                if elapsed(last_notified_at, now, SAME_APP_REMINDER_SECS) {
                    if let Some(state) = &mut self.active_call {
                        state.last_notified_at = now;
                    }
                    DetectionTransition::Reminder
                } else {
                    DetectionTransition::Noop
                }
            },
        }
    }

    /// Snapshot of the currently-active call session if any: its process, its
    /// display name, and whether its end has been announced.
    pub fn active_call_snapshot(&self) -> (snapshot: Option<(String, String, bool)>)
        ensures
            match (snapshot, self@.active_call) {
                (Some((process_name, display_name, fired)), Some(s)) => process_name@
                    == s.process_name && display_name@ == s.display_name && fired
                    == s.call_end_fired,
                (None, None) => true,
                _ => false,
            },
    {
        match &self.active_call {
            Some(state) => Some(
                (state.process_name.clone(), state.display_name.clone(), state.call_end_fired),
            ),
            None => None,
        }
    }

    pub fn mark_call_end_fired(&mut self)
        ensures
            final(self)@ == (DetectorModel {
                active_call: latched(old(self)@.active_call, true),
                ..old(self)@
            }),
    {
        if let Some(state) = &mut self.active_call {
            state.call_end_fired = true;
        }
    }

    /// Drop the "countdown already fired this session" latch. Used when a
    /// new call session becomes active during an ongoing recording so
    /// subsequent call-ends can re-arm the auto-stop prompt.
    pub fn reset_call_end_latch(&mut self)
        ensures
            final(self)@ == (DetectorModel {
                active_call: latched(old(self)@.active_call, false),
                ..old(self)@
            }),
    {
        if let Some(state) = &mut self.active_call {
            state.call_end_fired = false;
        }
    }

    /// Forgets the session; gives back the process it was about.
    pub fn clear_active_call(&mut self) -> (previous: Option<String>)
        ensures
            match (previous, old(self)@.active_call) {
                (Some(process_name), Some(s)) => process_name@ == s.process_name,
                (None, None) => true,
                _ => false,
            },
            final(self)@ == (DetectorModel { active_call: None, ..old(self)@ }),
    {
        match self.active_call.take() {
            Some(state) => Some(state.process_name),
            None => None,
        }
    }
}

/// Nothing that holds the microphone, no call: whatever the detector
/// remembers and whatever runs.
pub proof fn lemma_silent_microphone_is_no_call(
    detector: DetectorModel,
    config: ConfigModel,
    scene: Scene,
    force_browser_probe: bool,
    now: u64,
)
    requires
        !scene.mic_live,
        scene.active matches Some(active) ==> active == Set::<u32>::empty(),
    ensures
        first_step(detector, config, scene, force_browser_probe, now) == StepModel::Decided(
            Detection::NoCall,
        ),
{
    assert forall|browser: BrowserSpec| !captures_in(scene, browser) by {}
}

/// A meeting tab whose browser holds the microphone outranks every native
/// application.
pub proof fn lemma_meeting_tab_outranks_native_apps(
    config: ConfigModel,
    scene: Scene,
    provider: MeetingProvider,
    browser: BrowserSpec,
    self_pid: u32,
)
    requires
        captures_in(scene, browser),
    ensures
        second_step(
            config,
            scene,
            Some(BrowserMeetProbe::Detected { provider, browser }),
            self_pid,
        ) == meeting_with(provider),
{
}

/// A meeting tab in a browser that does not hold the microphone counts for
/// nothing: it is not reported, and not remembered.
pub proof fn lemma_stale_tab_counts_for_nothing(
    detector: DetectorModel,
    config: ConfigModel,
    scene: Scene,
    provider: MeetingProvider,
    browser: BrowserSpec,
    now: u64,
    self_pid: u32,
)
    requires
        !captures_in(scene, browser),
    ensures
        ({
            let probe = Some(BrowserMeetProbe::Detected { provider, browser });
            &&& second_step(config, scene, probe, self_pid) == second_step(
                config,
                scene,
                Some(BrowserMeetProbe::NoMatch),
                self_pid,
            )
            &&& after_second_step(detector, scene, probe, now) == detector
        }),
{
}

/// What the detector remembers of a provider's last hit.
pub open spec fn remembered(
    detector: DetectorModel,
    provider: MeetingProvider,
) -> Option<BrowserSticky> {
    match provider {
        MeetingProvider::GoogleMeet => detector.recent_google_meet,
        MeetingProvider::TeamsWeb => detector.recent_teams_web,
    }
}

/// A hit is trusted between two probes: until its window closes it counts
/// whenever its browser holds the microphone, and after that never.
pub proof fn lemma_hit_bridges_probes(
    detector: DetectorModel,
    scene: Scene,
    provider: MeetingProvider,
    browser: BrowserSpec,
    then: u64,
    now: u64,
    later: Scene,
)
    requires
        captures_in(scene, browser),
    ensures
        sticky_counts(
            remembered(
                after_second_step(
                    detector,
                    scene,
                    Some(BrowserMeetProbe::Detected { provider, browser }),
                    then,
                ),
                provider,
            ),
            now,
            later,
        ) == (now < then + sticky_secs(provider) * deadlines::NANOS_PER_SEC && captures_in(
            later,
            browser,
        )),
{
}

/// A remembered hit that is turned down because its browser is silent is left
/// to expire by itself.
pub proof fn lemma_rejected_hit_is_kept(
    detector: DetectorModel,
    config: ConfigModel,
    scene: Scene,
    force_browser_probe: bool,
    now: u64,
    provider: MeetingProvider,
)
    requires
        remembered(detector, provider) matches Some(hit) && now < hit.until,
    ensures
        remembered(
            after_first_step(detector, config, scene, force_browser_probe, now),
            provider,
        ) == remembered(detector, provider),
{
}

proof fn lemma_none_captures(
    apps: Seq<Seq<char>>,
    low: bool,
    processes: Seq<RunningProcess>,
    active: Set<u32>,
)
    requires
        forall|i: int|
            0 <= i < apps.len() ==> !native_apps::app_captures(
                #[trigger] apps[i],
                processes,
                active,
            ),
    ensures
        first_native_call(apps, low, processes, active) is None,
    decreases apps.len(),
{
    if apps.len() > 0 {
        assert forall|i: int| 0 <= i < apps.drop_first().len() implies !native_apps::app_captures(
            #[trigger] apps.drop_first()[i],
            processes,
            active,
        ) by {
            assert(apps.drop_first()[i] == apps[i + 1]);
        }
        lemma_none_captures(apps.drop_first(), low, processes, active);
        assert(!native_apps::app_captures(apps[0], processes, active));
    }
}

/// Where no configured application holds the microphone itself, none is on a
/// call, whoever else holds it.
pub proof fn lemma_idle_apps_are_not_on_a_call(
    config: ConfigModel,
    processes: Seq<RunningProcess>,
    active: Set<u32>,
    mic_live: bool,
    self_pid: u32,
)
    requires
        !config.any_mic_app,
        forall|i: int|
            0 <= i < config.apps.len() ==> native_apps::app_family(
                #[trigger] config.apps[i],
                processes,
            ).disjoint(active),
    ensures
        native_tiers(
            config,
            Scene { mic_live, processes: Some(processes), active: Some(active) },
            self_pid,
        ) == Detection::NoCall,
{
    assert forall|i: int| 0 <= i < config.apps.len() implies !native_apps::app_captures(
        #[trigger] config.apps[i],
        processes,
        active,
    ) by {
        native_apps::lemma_dictation_does_not_validate_an_idle_app(
            config.apps[i],
            processes,
            active,
        );
    }
    lemma_none_captures(config.apps, false, processes, active);
    lemma_none_captures(config.apps, true, processes, active);
}

proof fn lemma_some_captures(
    apps: Seq<Seq<char>>,
    low: bool,
    processes: Seq<RunningProcess>,
    active: Set<u32>,
    i: int,
)
    requires
        0 <= i < apps.len(),
        native_call(apps[i], low, processes, active),
    ensures
        first_native_call(apps, low, processes, active) matches Some(app) && native_call(
            app,
            low,
            processes,
            active,
        ),
    decreases apps.len(),
{
    if !native_call(apps[0], low, processes, active) {
        assert(apps.drop_first()[i - 1] == apps[i]);
        lemma_some_captures(apps.drop_first(), low, processes, active, i - 1);
    }
}

/// A configured application that holds the microphone is found, and one of
/// low confidence never hides one of high confidence.
pub proof fn lemma_capturing_app_is_found(
    config: ConfigModel,
    processes: Seq<RunningProcess>,
    active: Set<u32>,
    mic_live: bool,
    self_pid: u32,
    i: int,
)
    requires
        0 <= i < config.apps.len(),
        native_call(
            config.apps[i],
            native_apps::low_confidence(config.apps[i]),
            processes,
            active,
        ),
    ensures
        native_tiers(
            config,
            Scene { mic_live, processes: Some(processes), active: Some(active) },
            self_pid,
        ) matches Detection::Call { process_name, .. } && native_apps::app_captures(
            process_name,
            processes,
            active,
        ) && (native_apps::low_confidence(process_name) ==> native_apps::low_confidence(
            config.apps[i],
        )),
{
    let low = native_apps::low_confidence(config.apps[i]);
    lemma_some_captures(config.apps, low, processes, active, i);
    if low {
        lemma_found_is_native_call(config.apps, false, processes, active);
    }
}

proof fn lemma_found_is_native_call(
    apps: Seq<Seq<char>>,
    low: bool,
    processes: Seq<RunningProcess>,
    active: Set<u32>,
)
    ensures
        first_native_call(apps, low, processes, active) matches Some(app) ==> native_call(
            app,
            low,
            processes,
            active,
        ),
    decreases apps.len(),
{
    if apps.len() > 0 {
        lemma_found_is_native_call(apps.drop_first(), low, processes, active);
    }
}

/// Without attribution of the input no native application is taken to be on a
/// call.
pub proof fn lemma_no_attribution_no_native_call(
    config: ConfigModel,
    scene: Scene,
    self_pid: u32,
)
    requires
        scene.processes is None || scene.active is None,
    ensures
        native_tiers(config, scene, self_pid) == Detection::NoCall,
{
}

/// A microphone that has just gone live has the browsers looked through, even
/// where the last look was a moment ago.
pub proof fn lemma_mic_activation_forces_a_probe(
    detector: DetectorModel,
    config: ConfigModel,
    scene: Scene,
    now: u64,
)
    requires
        scene.mic_live,
        wants_meet(config) || wants_teams(config),
        !sticky_counts(detector.recent_google_meet, now, scene),
        !sticky_counts(detector.recent_teams_web, now, scene),
    ensures
        first_step(detector, config, scene, true, now) == (StepModel::ProbeBrowsers {
            want_meet: wants_meet(config),
            want_teams: wants_teams(config),
        }),
{
}

/// Meetings in a browser are looked for only where the settings list them.
pub proof fn lemma_browser_meetings_are_opt_in(
    detector: DetectorModel,
    config: ConfigModel,
    scene: Scene,
    force_browser_probe: bool,
    now: u64,
)
    requires
        !wants_meet(config),
        !wants_teams(config),
    ensures
        first_step(detector, config, scene, force_browser_probe, now) == (if scene.mic_live {
            StepModel::SkipBrowsers
        } else {
            StepModel::Decided(Detection::NoCall)
        }),
{
}

/// Whether a hit from this browser is remembered under an open window, while
/// the browser holds the microphone.
pub open spec fn bridged(sticky: Option<BrowserSticky>, now: u64, scene: Scene) -> bool {
    sticky is Some && now < (sticky->0).until && captures_in(scene, (sticky->0).browser)
}

/// A remembered hit goes on as a call: where the settings list Google Meet,
/// the window of its hit is open and the browser of the hit holds the
/// microphone, the poll is decided for Google Meet, whatever else is seen.
pub proof fn lemma_remembered_meet_goes_on(
    detector: DetectorModel,
    config: ConfigModel,
    scene: Scene,
    force_browser_probe: bool,
    now: u64,
)
    requires
        config.apps.contains("google-meet"@),
        bridged(detector.recent_google_meet, now, scene),
    ensures
        first_step(detector, config, scene, force_browser_probe, now) == StepModel::Decided(
            Detection::Call { display_name: "Google Meet"@, process_name: "google-meet"@ },
        ),
{
}

/// The same holds of Teams, where no hit of Google Meet goes on.
pub proof fn lemma_remembered_teams_goes_on(
    detector: DetectorModel,
    config: ConfigModel,
    scene: Scene,
    force_browser_probe: bool,
    now: u64,
)
    requires
        config.apps.contains("teams-web"@),
        bridged(detector.recent_teams_web, now, scene),
        config.apps.contains("google-meet"@) ==> !bridged(
            detector.recent_google_meet,
            now,
            scene,
        ),
    ensures
        first_step(detector, config, scene, force_browser_probe, now) == StepModel::Decided(
            Detection::Call { display_name: "Teams"@, process_name: "teams-web"@ },
        ),
{
}

/// Where no remembered hit goes on, a silent microphone decides for no call,
/// and a live one has the browsers looked through exactly where the settings
/// list a browser meeting and a look is due or forced. What is asked for is
/// what the settings list.
pub proof fn lemma_when_browsers_are_looked_through(
    detector: DetectorModel,
    config: ConfigModel,
    scene: Scene,
    force_browser_probe: bool,
    now: u64,
)
    requires
        config.apps.contains("google-meet"@) ==> !bridged(
            detector.recent_google_meet,
            now,
            scene,
        ),
        config.apps.contains("teams-web"@) ==> !bridged(detector.recent_teams_web, now, scene),
    ensures
        ({
            let step = first_step(detector, config, scene, force_browser_probe, now);
            let meet = config.apps.contains("google-meet"@);
            let teams = config.apps.contains("teams-web"@);
            let due = detector.browser_probe_next_allowed_at matches Some(until) ==> until <= now;
            &&& !scene.mic_live ==> step == StepModel::Decided(Detection::NoCall)
            &&& scene.mic_live && (meet || teams) && (force_browser_probe || due) ==> step == (
            StepModel::ProbeBrowsers { want_meet: meet, want_teams: teams })
            &&& scene.mic_live && !((meet || teams) && (force_browser_probe || due)) ==> step
                == StepModel::SkipBrowsers
        }),
{
}

/// The poll that follows a look which found a meeting reports the same call
/// as the look did, for twenty seconds, while the browser holds the
/// microphone; and what the look found is reported under the provider's names.
pub proof fn lemma_found_meeting_is_reported_until_the_next_look(
    detector: DetectorModel,
    config: ConfigModel,
    scene: Scene,
    later: Scene,
    browser: BrowserSpec,
    provider: MeetingProvider,
    force_browser_probe: bool,
    then: u64,
    now: u64,
    self_pid: u32,
)
    requires
        captures_in(scene, browser),
        captures_in(later, browser),
        now < then + 20_000_000_000,
        match provider {
            MeetingProvider::GoogleMeet => config.apps.contains("google-meet"@),
            MeetingProvider::TeamsWeb => config.apps.contains("teams-web"@)
                && !config.apps.contains("google-meet"@),
        },
    ensures
        ({
            let probe = Some(BrowserMeetProbe::Detected { provider, browser });
            let found = second_step(config, scene, probe, self_pid);
            let after = after_second_step(detector, scene, probe, then);
            &&& found == (match provider {
                MeetingProvider::GoogleMeet => Detection::Call {
                    display_name: "Google Meet"@,
                    process_name: "google-meet"@,
                },
                MeetingProvider::TeamsWeb => Detection::Call {
                    display_name: "Teams"@,
                    process_name: "teams-web"@,
                },
            })
            &&& first_step(after, config, later, force_browser_probe, now) == StepModel::Decided(
                found,
            )
        }),
{
}

/// A hit is forgotten after twenty seconds: from then on it decides nothing,
/// and the first step is what it would be without it.
pub proof fn lemma_hit_is_forgotten_in_time(
    detector: DetectorModel,
    config: ConfigModel,
    scene: Scene,
    later: Scene,
    browser: BrowserSpec,
    provider: MeetingProvider,
    force_browser_probe: bool,
    then: u64,
    now: u64,
)
    requires
        now >= then + 20_000_000_000,
        remembered(detector, provider) is None,
    ensures
        first_step(
            after_second_step(
                detector,
                scene,
                Some(BrowserMeetProbe::Detected { provider, browser }),
                then,
            ),
            config,
            later,
            force_browser_probe,
            now,
        ) == first_step(detector, config, later, force_browser_probe, now),
{
}

/// A browser that may not be controlled is reported by its name, whatever
/// else is seen.
pub proof fn lemma_denied_browser_is_reported(
    config: ConfigModel,
    scene: Scene,
    browser_app: String,
    self_pid: u32,
)
    ensures
        second_step(
            config,
            scene,
            Some(BrowserMeetProbe::PermissionDenied { browser_app }),
            self_pid,
        ) == (Detection::PermissionWarning { browser_app: browser_app@ }),
{
}

/// A look that found nothing, failed or did not take place leaves the call to
/// the native tiers, and all of these come to the same.
pub proof fn lemma_fruitless_looks_are_alike(
    detector: DetectorModel,
    config: ConfigModel,
    scene: Scene,
    now: u64,
    self_pid: u32,
)
    ensures
        ({
            let none = second_step(config, scene, None, self_pid);
            &&& none == native_tiers(config, scene, self_pid)
            &&& second_step(config, scene, Some(BrowserMeetProbe::NoMatch), self_pid) == none
            &&& second_step(config, scene, Some(BrowserMeetProbe::Error), self_pid) == none
            &&& second_step(config, scene, Some(BrowserMeetProbe::NoBrowserProcesses), self_pid)
                == none
            &&& after_second_step(detector, scene, None, now) == detector
            &&& after_second_step(detector, scene, Some(BrowserMeetProbe::NoMatch), now) == detector
            &&& after_second_step(detector, scene, Some(BrowserMeetProbe::Error), now) == detector
        }),
{
}

/// Neither step of a detection touches the session, the settings, the waits
/// of the browsers or what is known of the microphone; a second step touches
/// no hit but that of the provider it found.
pub proof fn lemma_detection_leaves_the_rest_alone(
    detector: DetectorModel,
    config: ConfigModel,
    scene: Scene,
    force_browser_probe: bool,
    probe: Option<BrowserMeetProbe>,
    now: u64,
)
    ensures
        ({
            let first = after_first_step(detector, config, scene, force_browser_probe, now);
            let second = after_second_step(detector, scene, probe, now);
            &&& first.config == detector.config && second.config == detector.config
            &&& first.active_call == detector.active_call && second.active_call
                == detector.active_call
            &&& first.backoff == detector.backoff && second.backoff == detector.backoff
            &&& first.last_mic_live == detector.last_mic_live && second.last_mic_live
                == detector.last_mic_live
            &&& second.browser_probe_next_allowed_at == detector.browser_probe_next_allowed_at
            &&& !(probe matches Some(BrowserMeetProbe::Detected {
                provider: MeetingProvider::GoogleMeet,
                ..
            })) ==> second.recent_google_meet == detector.recent_google_meet
            &&& !(probe matches Some(BrowserMeetProbe::Detected {
                provider: MeetingProvider::TeamsWeb,
                ..
            })) ==> second.recent_teams_web == detector.recent_teams_web
        }),
{
}

/// Asking twice is asking once: the first step on what the first step left is
/// the same, and leaves the same.
pub proof fn lemma_first_step_is_repeatable(
    detector: DetectorModel,
    config: ConfigModel,
    scene: Scene,
    force_browser_probe: bool,
    now: u64,
)
    ensures
        ({
            let after = after_first_step(detector, config, scene, force_browser_probe, now);
            &&& first_step(after, config, scene, force_browser_probe, now) == first_step(
                detector,
                config,
                scene,
                force_browser_probe,
                now,
            )
            &&& after_first_step(after, config, scene, force_browser_probe, now) == after
        }),
{
}

/// After a look at `then` the browsers are left alone for fifteen seconds, and
/// no longer.
pub proof fn lemma_looks_are_fifteen_seconds_apart(then: u64, now: u64)
    ensures
        probe_due(Some(deadlines::deadline(then, BROWSER_PROBE_INTERVAL_SECS)), now) <==> now
            >= then + 15_000_000_000,
        probe_due(None, now),
{
}

/// Whether this is a native application of the list, not a browser meeting,
/// that holds the microphone through one of its processes.
pub open spec fn holds_microphone(
    app: Seq<char>,
    processes: Seq<RunningProcess>,
    active: Set<u32>,
) -> bool {
    app != "google-meet"@ && app != "teams-web"@ && exists|pid: u32|
        native_apps::app_family(app, processes).contains(pid) && #[trigger] active.contains(pid)
}

proof fn lemma_first_native_call_at(
    apps: Seq<Seq<char>>,
    low: bool,
    processes: Seq<RunningProcess>,
    active: Set<u32>,
    i: int,
)
    requires
        0 <= i < apps.len(),
        native_call(apps[i], low, processes, active),
        forall|j: int| 0 <= j < i ==> !native_call(#[trigger] apps[j], low, processes, active),
    ensures
        first_native_call(apps, low, processes, active) == Some(apps[i]),
    decreases apps.len(),
{
    if i > 0 {
        assert(!native_call(apps[0], low, processes, active));
        let rest = apps.drop_first();
        assert(rest[i - 1] == apps[i]);
        assert forall|j: int| 0 <= j < i - 1 implies !native_call(
            #[trigger] rest[j],
            low,
            processes,
            active,
        ) by {
            assert(rest[j] == apps[j + 1]);
        }
        lemma_first_native_call_at(rest, low, processes, active, i - 1);
    }
}

proof fn lemma_no_native_call(
    apps: Seq<Seq<char>>,
    low: bool,
    processes: Seq<RunningProcess>,
    active: Set<u32>,
)
    requires
        forall|j: int|
            0 <= j < apps.len() ==> !native_call(#[trigger] apps[j], low, processes, active),
    ensures
        first_native_call(apps, low, processes, active) is None,
    decreases apps.len(),
{
    if apps.len() > 0 {
        let rest = apps.drop_first();
        assert(!native_call(apps[0], low, processes, active));
        assert forall|j: int| 0 <= j < rest.len() implies !native_call(
            #[trigger] rest[j],
            low,
            processes,
            active,
        ) by {
            assert(rest[j] == apps[j + 1]);
        }
        lemma_no_native_call(rest, low, processes, active);
    }
}

/// Of the listed applications that hold the microphone the first is reported,
/// under its own name and its friendly one; Slack only where no other does.
pub proof fn lemma_first_listed_holder_is_reported(
    config: ConfigModel,
    processes: Seq<RunningProcess>,
    active: Set<u32>,
    mic_live: bool,
    self_pid: u32,
    i: int,
)
    requires
        0 <= i < config.apps.len(),
        holds_microphone(config.apps[i], processes, active),
        forall|j: int|
            0 <= j < i && holds_microphone(#[trigger] config.apps[j], processes, active)
                ==> text::ascii_lowercase(config.apps[j]) == "slack"@ && text::ascii_lowercase(
                config.apps[i],
            ) != "slack"@,
        text::ascii_lowercase(config.apps[i]) == "slack"@ ==> forall|j: int|
            0 <= j < config.apps.len() && holds_microphone(
                #[trigger] config.apps[j],
                processes,
                active,
            ) ==> text::ascii_lowercase(config.apps[j]) == "slack"@,
    ensures
        native_tiers(
            config,
            Scene { mic_live, processes: Some(processes), active: Some(active) },
            self_pid,
        ) == (Detection::Call {
            display_name: native_apps::display_name(config.apps[i]),
            process_name: config.apps[i],
        }),
{
    let low = text::ascii_lowercase(config.apps[i]) == "slack"@;
    assert forall|j: int| 0 <= j < i implies !native_call(
        #[trigger] config.apps[j],
        low,
        processes,
        active,
    ) by {
        if native_call(config.apps[j], low, processes, active) {
            assert(holds_microphone(config.apps[j], processes, active));
        }
    }
    lemma_first_native_call_at(config.apps, low, processes, active, i);
    if low {
        assert forall|j: int| 0 <= j < config.apps.len() implies !native_call(
            #[trigger] config.apps[j],
            false,
            processes,
            active,
        ) by {
            if native_call(config.apps[j], false, processes, active) {
                assert(holds_microphone(config.apps[j], processes, active));
            }
        }
        lemma_no_native_call(config.apps, false, processes, active);
    }
}

/// Where no listed application holds the microphone, the user's wish decides:
/// any application that does is reported where the settings allow it, and
/// none otherwise.
pub proof fn lemma_unlisted_holder_is_opt_in(
    config: ConfigModel,
    processes: Seq<RunningProcess>,
    active: Set<u32>,
    mic_live: bool,
    self_pid: u32,
)
    requires
        forall|j: int|
            0 <= j < config.apps.len() ==> !holds_microphone(
                #[trigger] config.apps[j],
                processes,
                active,
            ),
    ensures
        ({
            let found = native_tiers(
                config,
                Scene { mic_live, processes: Some(processes), active: Some(active) },
                self_pid,
            );
            match any_mic_app::any_mic_app(processes, active, self_pid) {
                Some(label) => found == (if config.any_mic_app {
                    Detection::Call { display_name: label.0, process_name: label.1 }
                } else {
                    Detection::NoCall
                }),
                None => found == Detection::NoCall,
            }
        }),
{
    assert forall|j: int| 0 <= j < config.apps.len() implies !native_call(
        #[trigger] config.apps[j],
        false,
        processes,
        active,
    ) && !native_call(config.apps[j], true, processes, active) by {
        assert(!holds_microphone(config.apps[j], processes, active));
    }
    lemma_no_native_call(config.apps, false, processes, active);
    lemma_no_native_call(config.apps, true, processes, active);
}

/// The microphone is live where some process captures, whatever the device
/// says; where that is not known the device is believed.
pub proof fn lemma_capturing_process_makes_the_microphone_live(
    active: Set<u32>,
    pid: u32,
    device_live: bool,
)
    requires
        active.contains(pid),
    ensures
        poll_mic_live(Some(active), device_live),
        !poll_mic_live(Some(Set::empty()), device_live),
        poll_mic_live(None, device_live) == device_live,
{
}

/// A look that is due is taken note of: from then on no time is set for the
/// next, until the look is taken. A forced look, or one that is not taken,
/// leaves the time as it was.
pub proof fn lemma_due_look_is_taken_note_of(
    detector: DetectorModel,
    config: ConfigModel,
    scene: Scene,
    force_browser_probe: bool,
    now: u64,
)
    ensures
        ({
            let step = first_step(detector, config, scene, force_browser_probe, now);
            let after = after_first_step(detector, config, scene, force_browser_probe, now);
            after.browser_probe_next_allowed_at == (if step is ProbeBrowsers
                && !force_browser_probe {
                None
            } else {
                detector.browser_probe_next_allowed_at
            })
        }),
{
}

/// Hits are kept while their window is open, and dropped when a poll that
/// looks at them finds it closed; hits of a provider that is not listed are
/// not looked at.
pub proof fn lemma_which_hits_are_kept(
    detector: DetectorModel,
    config: ConfigModel,
    scene: Scene,
    force_browser_probe: bool,
    now: u64,
)
    ensures
        ({
            let after = after_first_step(detector, config, scene, force_browser_probe, now);
            let meet = detector.recent_google_meet;
            let teams = detector.recent_teams_web;
            &&& meet is Some && now < (meet->0).until ==> after.recent_google_meet == meet
            &&& teams is Some && now < (teams->0).until ==> after.recent_teams_web == teams
            &&& meet is Some && now >= (meet->0).until ==> after.recent_google_meet == (
            if config.apps.contains("google-meet"@) {
                None
            } else {
                meet
            })
            &&& teams is Some && now >= (teams->0).until && !(config.apps.contains("google-meet"@)
                && bridged(meet, now, scene)) ==> after.recent_teams_web == (
            if config.apps.contains("teams-web"@) {
                None
            } else {
                teams
            })
        }),
{
}

/// What a detection that asks the browsers comes to, whatever asks them: a
/// meeting that was found in a browser which holds the microphone is the
/// result, under the names of its provider, and is remembered for twenty
/// seconds.
pub proof fn lemma_found_meeting_is_the_result<
    F: FnOnce(&[String], bool, bool) -> Option<BrowserMeetProbe>,
>(
    before: DetectorModel,
    config: ConfigModel,
    scene: Scene,
    running: &[String],
    force_browser_probe: bool,
    now: u64,
    self_pid: u32,
    browser_probe: F,
    result: Detection,
    after: DetectorModel,
    provider: MeetingProvider,
    browser: BrowserSpec,
)
    requires
        detection_outcome(
            before,
            config,
            scene,
            running,
            force_browser_probe,
            now,
            self_pid,
            browser_probe,
            result,
            after,
        ),
        first_step(before, config, scene, force_browser_probe, now) is ProbeBrowsers,
        captures_in(scene, browser),
        forall|probe: Option<BrowserMeetProbe>|
            #![trigger browser_probe.ensures(
                (running, config.apps.contains("google-meet"@), config.apps.contains("teams-web"@)),
                probe,
            )]
            browser_probe.ensures(
                (running, config.apps.contains("google-meet"@), config.apps.contains("teams-web"@)),
                probe,
            ) ==> probe == Some(BrowserMeetProbe::Detected { provider, browser }),
    ensures
        provider == MeetingProvider::GoogleMeet ==> result == (Detection::Call {
            display_name: "Google Meet"@,
            process_name: "google-meet"@,
        }) && after.recent_google_meet == Some(
            BrowserSticky { until: (now + 20_000_000_000) as u128, browser },
        ),
        provider == MeetingProvider::TeamsWeb ==> result == (Detection::Call {
            display_name: "Teams"@,
            process_name: "teams-web"@,
        }) && after.recent_teams_web == Some(
            BrowserSticky { until: (now + 20_000_000_000) as u128, browser },
        ),
{
    let want_meet = config.apps.contains("google-meet"@);
    let want_teams = config.apps.contains("teams-web"@);
    let middle = after_first_step(before, config, scene, force_browser_probe, now);
    let probe = choose|probe: Option<BrowserMeetProbe>|
        #![trigger browser_probe.ensures((running, want_meet, want_teams), probe)]
        {
            &&& browser_probe.ensures((running, want_meet, want_teams), probe)
            &&& result == second_step(config, scene, probe, self_pid)
            &&& after == after_second_step(middle, scene, probe, now)
        };
    assert(browser_probe.ensures((running, want_meet, want_teams), probe));
    assert(probe == Some(BrowserMeetProbe::Detected { provider, browser }));
}

/// A detection that does not ask the browsers comes to what is known without
/// them: a meeting that goes on, no call in silence, or the native tiers.
pub proof fn lemma_detection_without_the_browsers<
    F: FnOnce(&[String], bool, bool) -> Option<BrowserMeetProbe>,
>(
    before: DetectorModel,
    config: ConfigModel,
    scene: Scene,
    running: &[String],
    force_browser_probe: bool,
    now: u64,
    self_pid: u32,
    browser_probe: F,
    result: Detection,
    after: DetectorModel,
)
    requires
        detection_outcome(
            before,
            config,
            scene,
            running,
            force_browser_probe,
            now,
            self_pid,
            browser_probe,
            result,
            after,
        ),
    ensures
        config.apps.contains("google-meet"@) && bridged(before.recent_google_meet, now, scene)
            ==> result == (Detection::Call {
            display_name: "Google Meet"@,
            process_name: "google-meet"@,
        }),
        !config.apps.contains("google-meet"@) && config.apps.contains("teams-web"@) && bridged(
            before.recent_teams_web,
            now,
            scene,
        ) ==> result == (Detection::Call { display_name: "Teams"@, process_name: "teams-web"@ }),
        !config.apps.contains("google-meet"@) && !config.apps.contains("teams-web"@) ==> result
            == (if scene.mic_live {
            native_tiers(config, scene, self_pid)
        } else {
            Detection::NoCall
        }) && after.recent_google_meet == before.recent_google_meet && after.recent_teams_web
            == before.recent_teams_web,
{
}

/// A session is new, a reminder or neither: by the name of the process and by
/// twenty seconds since the last announcement.
pub proof fn lemma_what_an_observed_call_is(
    session: SessionModel,
    process_name: Seq<char>,
    display_name: Seq<char>,
    now: u64,
)
    ensures
        transition(None, process_name, now) == DetectionTransition::NewSession,
        process_name != session.process_name ==> transition(Some(session), process_name, now)
            == DetectionTransition::NewSession,
        process_name == session.process_name ==> transition(Some(session), process_name, now) == (
        if now >= session.last_notified_at + 20_000_000_000 {
            DetectionTransition::Reminder
        } else {
            DetectionTransition::Noop
        }),
        process_name != session.process_name ==> noted_session(
            Some(session),
            process_name,
            display_name,
            now,
        ) == Some(
            SessionModel { process_name, display_name, last_notified_at: now, call_end_fired: false },
        ),
        process_name == session.process_name && now >= session.last_notified_at + 20_000_000_000
            ==> noted_session(Some(session), process_name, display_name, now) == Some(
            SessionModel { last_notified_at: now, ..session },
        ),
        process_name == session.process_name && now < session.last_notified_at + 20_000_000_000
            ==> noted_session(Some(session), process_name, display_name, now) == Some(session),
{
}

/// A meeting that was found in a browser which does not hold the microphone is
/// no call: it is not reported and not remembered, and the native tiers decide.
pub proof fn lemma_idle_meeting_tab_is_no_call(
    detector: DetectorModel,
    config: ConfigModel,
    scene: Scene,
    provider: MeetingProvider,
    browser: BrowserSpec,
    now: u64,
    self_pid: u32,
)
    requires
        !captures_in(scene, browser),
    ensures
        second_step(
            config,
            scene,
            Some(BrowserMeetProbe::Detected { provider, browser }),
            self_pid,
        ) == second_step(config, scene, None, self_pid),
        after_second_step(
            detector,
            scene,
            Some(BrowserMeetProbe::Detected { provider, browser }),
            now,
        ) == detector,
{
}

/// Without a table of processes, or without knowing which of them capture, no
/// native application is taken for a call, however live the microphone is.
pub proof fn lemma_unattributed_input_is_no_native_call(
    config: ConfigModel,
    mic_live: bool,
    processes: Option<Seq<RunningProcess>>,
    active: Option<Set<u32>>,
    self_pid: u32,
)
    ensures
        native_tiers(config, Scene { mic_live, processes: None, active }, self_pid)
            == Detection::NoCall,
        native_tiers(config, Scene { mic_live, processes, active: None }, self_pid)
            == Detection::NoCall,
{
}

} // verus!
