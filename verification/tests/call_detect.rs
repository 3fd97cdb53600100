use minutes_app::any_mic_app::detect_any_mic_app;
use minutes_app::browsers::{
    browser_family_pids, browsers, browsers_to_probe, AppleScriptProbe, BrowserKind, BrowserSpec,
};
use minutes_app::config::CallDetectionConfig;
use minutes_app::countdown::{
    decide_no_call_action, CallEndCountdownTerminalState, NoCallDecision,
};
use minutes_app::detector::{
    detected_for, remember_sticky, sticky_alive, BrowserMeetProbe, BrowserSticky, CallDetector,
    DetectActiveCallResult, DetectionTransition, MeetingProvider,
};
use minutes_app::meeting_urls::{
    is_teams_v2_root, looks_like_google_meet_meeting_url, looks_like_teams_meeting_tab,
    looks_like_teams_meeting_url,
};
use minutes_app::native_apps::{display_name_for, process_name_matches_config_app};
use minutes_app::processes::{
    app_bundle_from_command, process_names_from_ps_output, process_snapshots_from_ps_output,
    RunningProcess,
};
use std::collections::HashSet;

const SEC: u64 = 1_000_000_000;
const NOW: u64 = 1_000 * SEC;
const SELF_PID: u32 = 4242;

fn never_asked(browser: &BrowserSpec) -> AppleScriptProbe {
    panic!("{} must not be asked for its tabs", browser.app_name)
}


fn test_call_detection_config(apps: Vec<String>) -> CallDetectionConfig {
    CallDetectionConfig {
        enabled: true,
        poll_interval_secs: 1,
        cooldown_minutes: 5,
        apps,
        stop_when_call_ends: false,
        call_end_stop_countdown_secs: 30,
        any_mic_app: false,
        prompt_card: true,
        ignored_apps: vec![],
    }
}

fn browser_spec(app_name: &str) -> BrowserSpec {
    browsers()
        .into_iter()
        .find(|spec| spec.app_name == app_name)
        .unwrap_or_else(|| panic!("no browser spec named {app_name}"))
}

fn probe_names(running: &[String]) -> Vec<(&'static str, BrowserKind)> {
    browsers_to_probe(running)
        .into_iter()
        .map(|spec| (spec.app_name, spec.kind))
        .collect()
}

#[test]
fn safari_background_agents_alone_do_not_select_safari_for_probe() {
    // macOS runs Safari-named agents even when Safari itself is closed;
    // a substring hit on one of them would make the tab probe launch
    // Safari via AppleScript.
    let running: Vec<String> = [
        "safaribookmarkssyncagent",
        "safarilaunchagent",
        "com.apple.safari.history",
        "com.apple.safari.safebrowsing.service",
    ]
    .iter()
    .map(|s| s.to_string())
    .collect();
    assert!(browsers_to_probe(&running).is_empty());
}

#[test]
fn safari_app_process_selects_safari_for_probe() {
    let running = vec!["safari".to_string()];
    assert_eq!(probe_names(&running), vec![("Safari", BrowserKind::Safari)]);
}

#[test]
fn chrome_helper_processes_still_select_chrome() {
    // Chrome helper processes contain the parent name; the substring
    // match is intentional for the ChromeLike entries.
    let running = vec!["google chrome helper (renderer)".to_string()];
    assert_eq!(
        probe_names(&running),
        vec![("Google Chrome", BrowserKind::ChromeLike)]
    );
}

#[test]
fn call_session_rearms_when_process_changes_or_ends() {
    let mut detector = CallDetector::new(test_call_detection_config(vec!["zoom.us".into()]));

    assert!(matches!(
        detector.note_active_call("zoom.us", "Zoom", NOW),
        DetectionTransition::NewSession
    ));
    assert!(matches!(
        detector.note_active_call("zoom.us", "Zoom", NOW),
        DetectionTransition::Noop
    ));
    detector.clear_active_call();
    assert!(matches!(
        detector.note_active_call("zoom.us", "Zoom", NOW),
        DetectionTransition::NewSession
    ));
    assert!(matches!(
        detector.note_active_call("face.time", "FaceTime", NOW),
        DetectionTransition::NewSession
    ));
}

#[test]
fn display_names() {
    assert_eq!(display_name_for("zoom.us"), "Zoom");
    assert_eq!(display_name_for("Microsoft Teams"), "Teams");
    assert_eq!(display_name_for("FaceTime"), "FaceTime");
    assert_eq!(display_name_for("google-meet"), "Google Meet");
    assert_eq!(display_name_for("SomeOtherApp"), "SomeOtherApp");
}

#[test]
fn google_meet_detection_is_opt_in_via_sentinel() {
    let mut detector = CallDetector::new(test_call_detection_config(vec![
        "zoom.us".into(),
        "google-meet".into(),
    ]));

    assert!(detector
        .current_config()
        .apps
        .iter()
        .any(|app| app == "google-meet"));
}

#[test]
fn browser_probe_is_skipped_when_no_browser_processes_exist() {
    let mut detector = CallDetector::new(test_call_detection_config(vec!["google-meet".into()]));
    let running: Vec<String> = vec!["Finder".into(), "launchd".into()];
    assert!(matches!(
        detector.detect_browser_meeting(&running, true, false, NOW, |_| true, never_asked),
        BrowserMeetProbe::NoBrowserProcesses
    ));
}

#[test]
fn meet_url_requires_real_meeting_code() {
    assert!(looks_like_google_meet_meeting_url(
        "https://meet.google.com/abc-defg-hij"
    ));
    assert!(looks_like_google_meet_meeting_url(
        "https://meet.google.com/abc-defg-hij?authuser=1"
    ));
    assert!(!looks_like_google_meet_meeting_url(
        "https://meet.google.com/"
    ));
    assert!(!looks_like_google_meet_meeting_url(
        "https://meet.google.com/new"
    ));
    assert!(!looks_like_google_meet_meeting_url(
        "https://meet.google.com/landing"
    ));
    assert!(!looks_like_google_meet_meeting_url(
        "https://example.com/abc-defg-hij"
    ));
}


#[test]
fn browser_probe_backoff_resets_after_expiry() {
    let mut detector = CallDetector::new(test_call_detection_config(vec!["google-meet".into()]));

    detector.defer_browser_probe_for("Google Chrome", NOW);
    assert!(!detector.browser_probe_allowed_for("Google Chrome", NOW));
    assert!(detector.browser_probe_allowed_for("Safari", NOW));

    detector
        .browser_probe_backoff_until
        .insert("Google Chrome", (NOW - SEC) as u128);

    assert!(detector.browser_probe_allowed_for("Google Chrome", NOW));
}

#[test]
fn browser_probe_global_interval_resets_after_expiry() {
    let mut detector = CallDetector::new(test_call_detection_config(vec!["google-meet".into()]));

    detector.schedule_next_browser_probe(NOW);
    assert!(!detector.browser_probe_due(NOW));

    detector.browser_probe_next_allowed_at = Some((NOW - SEC) as u128);

    assert!(detector.browser_probe_due(NOW));
}

#[test]
fn sticky_google_meet_detection_survives_between_browser_probes() {
    let mut detector = CallDetector::new(test_call_detection_config(vec![
        "Slack".into(),
        "google-meet".into(),
    ]));

    remember_sticky(
        &mut detector.recent_google_meet_until,
        NOW,
        MeetingProvider::GoogleMeet.sticky_duration(),
        browser_spec("Google Chrome"),
    );
    assert!(sticky_alive(&mut detector.recent_google_meet_until, NOW).is_some());

    detector.recent_google_meet_until = Some(BrowserSticky {
        until: (NOW - SEC) as u128,
        browser: browser_spec("Google Chrome"),
    });

    assert!(sticky_alive(&mut detector.recent_google_meet_until, NOW).is_none());
}

#[test]
fn native_app_does_not_fall_back_to_process_match_after_browser_no_match() {
    let mut detector = CallDetector::new(test_call_detection_config(vec![
        "zoom.us".into(),
        "google-meet".into(),
    ]));
    let config = detector.current_config();
    let processes = vec![
        RunningProcess {
            pid: 100,
            ppid: 1,
            name: "zoom.us".into(),
            app: None,
        },
        RunningProcess {
            pid: 200,
            ppid: 1,
            name: "Google Chrome".into(),
            app: None,
        },
    ];

    let result = detector.detect_active_call_from_process_snapshot(
        &config,
        true,
        &processes,
        None,
        false,
        NOW,
        SELF_PID,
        |_running: &[String], want_meet: bool, want_teams: bool| {
            assert!(want_meet);
            assert!(!want_teams);
            Some(BrowserMeetProbe::NoMatch)
        },
    );

    assert_eq!(result, DetectActiveCallResult::NoCall);
}

#[test]
fn first_google_meet_detection_beats_always_running_slack() {
    let mut detector = CallDetector::new(test_call_detection_config(vec![
        "Slack".into(),
        "google-meet".into(),
    ]));
    let config = detector.current_config();
    let running = vec!["Slack".into(), "Google Chrome".into()];

    let result = detector.detect_active_call_from_snapshot(
        &config,
        true,
        &running,
        false,
        NOW,
        SELF_PID,
        |_running: &[String], want_meet: bool, want_teams: bool| {
            assert!(want_meet);
            assert!(!want_teams);
            Some(BrowserMeetProbe::Detected {
                provider: MeetingProvider::GoogleMeet,
                browser: browser_spec("Google Chrome"),
            })
        },
    );

    assert_eq!(result, detected_for(MeetingProvider::GoogleMeet));
}

#[test]
fn browser_meeting_probe_beats_loose_native_process_match() {
    let mut detector = CallDetector::new(test_call_detection_config(vec![
        "zoom.us".into(),
        "google-meet".into(),
    ]));
    let config = detector.current_config();
    let running = vec!["zoom.us".into(), "Google Chrome".into()];

    let result = detector.detect_active_call_from_snapshot(
        &config,
        true,
        &running,
        false,
        NOW,
        SELF_PID,
        |_running: &[String], want_meet: bool, want_teams: bool| {
            assert!(want_meet);
            assert!(!want_teams);
            Some(BrowserMeetProbe::Detected {
                provider: MeetingProvider::GoogleMeet,
                browser: browser_spec("Google Chrome"),
            })
        },
    );

    assert_eq!(result, detected_for(MeetingProvider::GoogleMeet));
}

#[test]
fn high_confidence_native_app_falls_back_after_browser_no_match() {
    let mut detector = CallDetector::new(test_call_detection_config(vec![
        "zoom.us".into(),
        "google-meet".into(),
    ]));
    let config = detector.current_config();
    let processes = vec![
        RunningProcess {
            pid: 100,
            ppid: 1,
            name: "zoom.us".into(),
            app: None,
        },
        RunningProcess {
            pid: 200,
            ppid: 1,
            name: "Google Chrome".into(),
            app: None,
        },
    ];
    let active_input_pids = HashSet::from([100]);

    let result = detector.detect_active_call_from_process_snapshot(
        &config,
        true,
        &processes,
        Some(&active_input_pids),
        false,
        NOW,
        SELF_PID,
        |_running: &[String], _want_meet: bool, _want_teams: bool| Some(BrowserMeetProbe::NoMatch),
    );

    assert_eq!(
        result,
        DetectActiveCallResult::Detected {
            display_name: "Zoom".into(),
            process_name: "zoom.us".into(),
        }
    );
}

#[test]
fn low_confidence_native_app_falls_back_after_browser_no_match() {
    let mut detector = CallDetector::new(test_call_detection_config(vec![
        "Slack".into(),
        "google-meet".into(),
    ]));
    let config = detector.current_config();
    let processes = vec![
        RunningProcess {
            pid: 100,
            ppid: 1,
            name: "Slack".into(),
            app: None,
        },
        RunningProcess {
            pid: 200,
            ppid: 1,
            name: "Google Chrome".into(),
            app: None,
        },
    ];
    let active_input_pids = HashSet::from([100]);

    let result = detector.detect_active_call_from_process_snapshot(
        &config,
        true,
        &processes,
        Some(&active_input_pids),
        false,
        NOW,
        SELF_PID,
        |_running: &[String], _want_meet: bool, _want_teams: bool| Some(BrowserMeetProbe::NoMatch),
    );

    assert_eq!(
        result,
        DetectActiveCallResult::Detected {
            display_name: "Slack".into(),
            process_name: "Slack".into(),
        }
    );
}

#[test]
fn idle_zoom_does_not_detect_when_another_app_has_input() {
    let mut detector = CallDetector::new(test_call_detection_config(vec!["zoom.us".into()]));
    let config = detector.current_config();
    let processes = vec![
        RunningProcess {
            pid: 100,
            ppid: 1,
            name: "zoom.us".into(),
            app: None,
        },
        RunningProcess {
            pid: 200,
            ppid: 1,
            name: "superwhisper".into(),
            app: None,
        },
    ];
    let active_input_pids = HashSet::from([200]);

    let result = detector.detect_active_call_from_process_snapshot(
        &config,
        true,
        &processes,
        Some(&active_input_pids),
        false,
        NOW,
        SELF_PID,
        |_running: &[String], _want_meet: bool, _want_teams: bool| None,
    );

    assert_eq!(result, DetectActiveCallResult::NoCall);
}

#[test]
fn idle_zoom_does_not_detect_when_active_input_attribution_is_unavailable() {
    let mut detector = CallDetector::new(test_call_detection_config(vec!["zoom.us".into()]));
    let config = detector.current_config();
    let processes = vec![
        RunningProcess {
            pid: 100,
            ppid: 1,
            name: "zoom.us".into(),
            app: None,
        },
        RunningProcess {
            pid: 200,
            ppid: 1,
            name: "superwhisper".into(),
            app: None,
        },
    ];

    let result = detector.detect_active_call_from_process_snapshot(
        &config,
        true,
        &processes,
        None,
        false,
        NOW,
        SELF_PID,
        |_running: &[String], _want_meet: bool, _want_teams: bool| None,
    );

    assert_eq!(result, DetectActiveCallResult::NoCall);
}

#[test]
fn zoom_helper_input_detects_zoom_call() {
    let mut detector = CallDetector::new(test_call_detection_config(vec!["zoom.us".into()]));
    let config = detector.current_config();
    let processes = vec![
        RunningProcess {
            pid: 100,
            ppid: 1,
            name: "zoom.us".into(),
            app: None,
        },
        RunningProcess {
            pid: 110,
            ppid: 100,
            name: "ZoomHybridConf".into(),
            app: None,
        },
    ];
    let active_input_pids = HashSet::from([110]);

    let result = detector.detect_active_call_from_process_snapshot(
        &config,
        true,
        &processes,
        Some(&active_input_pids),
        false,
        NOW,
        SELF_PID,
        |_running: &[String], _want_meet: bool, _want_teams: bool| None,
    );

    assert_eq!(
        result,
        DetectActiveCallResult::Detected {
            display_name: "Zoom".into(),
            process_name: "zoom.us".into(),
        }
    );
}

#[test]
fn unrooted_zoom_helper_input_does_not_detect_zoom_call() {
    let mut detector = CallDetector::new(test_call_detection_config(vec!["zoom.us".into()]));
    let config = detector.current_config();
    let processes = vec![RunningProcess {
        pid: 110,
        ppid: 1,
        name: "ZoomHybridConf".into(),
        app: None,
    }];
    let active_input_pids = HashSet::from([110]);

    let result = detector.detect_active_call_from_process_snapshot(
        &config,
        true,
        &processes,
        Some(&active_input_pids),
        false,
        NOW,
        SELF_PID,
        |_running: &[String], _want_meet: bool, _want_teams: bool| None,
    );

    assert_eq!(result, DetectActiveCallResult::NoCall);
}

#[test]
fn child_process_input_detects_native_call_app() {
    let mut detector =
        CallDetector::new(test_call_detection_config(vec!["Microsoft Teams".into()]));
    let config = detector.current_config();
    let processes = vec![
        RunningProcess {
            pid: 300,
            ppid: 1,
            name: "Microsoft Teams".into(),
            app: None,
        },
        RunningProcess {
            pid: 301,
            ppid: 300,
            name: "Microsoft Teams Helper".into(),
            app: None,
        },
    ];
    let active_input_pids = HashSet::from([301]);

    let result = detector.detect_active_call_from_process_snapshot(
        &config,
        true,
        &processes,
        Some(&active_input_pids),
        false,
        NOW,
        SELF_PID,
        |_running: &[String], _want_meet: bool, _want_teams: bool| None,
    );

    assert_eq!(
        result,
        DetectActiveCallResult::Detected {
            display_name: "Teams".into(),
            process_name: "Microsoft Teams".into(),
        }
    );
}

#[test]
fn mic_activation_forces_browser_probe_before_slack_even_when_rate_limited() {
    let mut detector = CallDetector::new(test_call_detection_config(vec![
        "Slack".into(),
        "google-meet".into(),
    ]));
    detector.schedule_next_browser_probe(NOW);
    let config = detector.current_config();
    let running = vec!["Slack".into(), "Google Chrome".into()];

    let result = detector.detect_active_call_from_snapshot(
        &config,
        true,
        &running,
        true,
        NOW,
        SELF_PID,
        |_running: &[String], want_meet: bool, want_teams: bool| {
            assert!(want_meet);
            assert!(!want_teams);
            Some(BrowserMeetProbe::Detected {
                provider: MeetingProvider::GoogleMeet,
                browser: browser_spec("Google Chrome"),
            })
        },
    );

    assert_eq!(result, detected_for(MeetingProvider::GoogleMeet));
}

#[test]
fn arc_exact_match_does_not_fire_on_system_processes() {
    let mut detector = CallDetector::new(test_call_detection_config(vec!["google-meet".into()]));
    // These macOS system processes contain "arc" as a substring but must
    // not be treated as the Arc browser.
    let running: Vec<String> = vec![
        "searchpartyd".into(),
        "searchpartyuseragent".into(),
        "TrialArchivingService".into(),
    ];
    assert!(matches!(
        detector.detect_browser_meeting(&running, true, false, NOW, |_| true, never_asked),
        BrowserMeetProbe::NoBrowserProcesses
    ));
}

#[test]
fn arc_exact_match_fires_on_arc_process() {
    let mut detector = CallDetector::new(test_call_detection_config(vec!["google-meet".into()]));
    // Defer the probe so `detect_browser_meeting` skips the real
    // AppleScript call to Arc but still records `saw_browser`.
    detector.defer_browser_probe_for("Arc", NOW);

    // "Arc" (the browser) must be recognised; "searchpartyd" must not
    // accidentally satisfy the check on its own.
    let running: Vec<String> = vec!["searchpartyd".into(), "Arc".into()];
    assert!(matches!(
        detector.detect_browser_meeting(&running, true, false, NOW, |_| true, never_asked),
        BrowserMeetProbe::NoMatch
    ));
}

#[test]
fn sticky_google_meet_still_wins_when_no_native_app_is_active() {
    let mut detector = CallDetector::new(test_call_detection_config(vec![
        "zoom.us".into(),
        "google-meet".into(),
    ]));

    remember_sticky(
        &mut detector.recent_google_meet_until,
        NOW,
        MeetingProvider::GoogleMeet.sticky_duration(),
        browser_spec("Google Chrome"),
    );
    let running = ["Safari".into()];
    let config = detector.current_config();
    let native_apps: Vec<&String> = config
        .apps
        .iter()
        .filter(|app| app.as_str() != "google-meet")
        .collect();

    let native_detected = native_apps.iter().any(|config_app| {
        let config_lower = config_app.to_lowercase();
        running.iter().any(|p: &String| {
            let p_lower = p.to_lowercase();
            p_lower == config_lower
                || p_lower.starts_with(&format!("{}.", config_lower))
                || p_lower.starts_with(&format!("{} ", config_lower))
        })
    });

    assert!(!native_detected);
    assert!(sticky_alive(&mut detector.recent_google_meet_until, NOW).is_some());
}

#[test]
fn process_list_parser_extracts_binary_names() {
    let procs = process_names_from_ps_output(
        "\n/Applications/zoom.us.app/Contents/MacOS/zoom.us\nSafari\n  \n",
    );

    assert_eq!(procs, vec!["zoom.us", "Safari"]);
}

#[test]
fn process_snapshot_parser_preserves_paths_with_spaces() {
    let procs = process_snapshots_from_ps_output(
        "\n  100     1 /Applications/zoom.us.app/Contents/MacOS/zoom.us\n  200   100 /Applications/Google Chrome.app/Contents/MacOS/Google Chrome\n",
    );

    assert_eq!(
        procs,
        vec![
            RunningProcess {
                pid: 100,
                ppid: 1,
                name: "zoom.us".into(),
                app: Some("zoom.us".into()),
            },
            RunningProcess {
                pid: 200,
                ppid: 100,
                name: "Google Chrome".into(),
                app: Some("Google Chrome".into()),
            },
        ]
    );
}




#[test]
fn call_end_fires_once_per_session() {
    let mut detector = CallDetector::new(test_call_detection_config(vec!["zoom.us".into()]));

    assert!(matches!(
        detector.note_active_call("zoom.us", "Zoom", NOW),
        DetectionTransition::NewSession
    ));

    let snap = detector.active_call_snapshot().unwrap();
    assert_eq!(snap.0, "zoom.us");
    assert_eq!(snap.1, "Zoom");
    assert!(!snap.2, "call_end_fired should start false");

    detector.mark_call_end_fired();
    let snap = detector.active_call_snapshot().unwrap();
    assert!(snap.2, "call_end_fired must flip to true");

    detector.clear_active_call();
    assert!(
        detector.active_call_snapshot().is_none(),
        "clearing the call must reset the snapshot"
    );

    assert!(matches!(
        detector.note_active_call("zoom.us", "Zoom", NOW),
        DetectionTransition::NewSession
    ));
    let snap = detector.active_call_snapshot().unwrap();
    assert!(!snap.2);
}

#[test]
fn active_countdown_defers_state_transitions() {
    // Once the call-end countdown is armed, subsequent "no active call"
    // polls must not clear active_call or re-arm. Only the countdown thread
    // (or a re-detected call) should end the countdown.

    // Happy path: recording + call-detect + stop_when_call_ends, no
    // countdown yet → arm one.
    assert_eq!(
        decide_no_call_action(
            true,
            true,
            true,
            false,
            false,
            CallEndCountdownTerminalState::NotEnded,
        ),
        NoCallDecision::ArmCountdown
    );

    // Countdown now active. Same inputs → defer, don't re-arm.
    assert_eq!(
        decide_no_call_action(
            true,
            true,
            true,
            true,
            true,
            CallEndCountdownTerminalState::NotEnded,
        ),
        NoCallDecision::DeferToCountdown
    );

    // Countdown active AND is_recording flipped false mid-countdown
    // (e.g. native call capture's target disappeared when Zoom quit).
    // It must defer, leaving the countdown thread to observe
    // `!recording_flag` and shut itself down cleanly.
    assert_eq!(
        decide_no_call_action(
            false,
            true,
            true,
            true,
            true,
            CallEndCountdownTerminalState::NotEnded,
        ),
        NoCallDecision::DeferToCountdown
    );

    // Countdown active AND started_by flipped false (e.g. stray
    // cmd_start_recording) — same invariant: defer, don't wipe state.
    assert_eq!(
        decide_no_call_action(
            true,
            false,
            true,
            true,
            true,
            CallEndCountdownTerminalState::NotEnded,
        ),
        NoCallDecision::DeferToCountdown
    );

    // call_ended already fired, but countdown_active was unexpectedly
    // cleared before the timer
    // emitted call_end_auto_stop_fired. Re-arm rather than logging
    // `cleared` and leaving the recording running forever.
    assert_eq!(
        decide_no_call_action(
            true,
            true,
            true,
            false,
            true,
            CallEndCountdownTerminalState::NotEnded,
        ),
        NoCallDecision::RearmCountdown
    );

    // Explicit cancellation ("Keep recording" / "Stop now") and true
    // terminal countdown completion are real terminal transitions. Do not
    // re-arm after the countdown is intentionally done.
    assert_eq!(
        decide_no_call_action(
            true,
            true,
            true,
            false,
            true,
            CallEndCountdownTerminalState::UserCancelled,
        ),
        NoCallDecision::ClearIfStale
    );
    assert_eq!(
        decide_no_call_action(
            true,
            true,
            true,
            false,
            true,
            CallEndCountdownTerminalState::AutoStopFired,
        ),
        NoCallDecision::ClearIfStale
    );

    // If the generic cancel bit flipped but no terminal state was recorded, treat it as an
    // orphaned countdown and re-arm instead of clearing the call session.
    assert_eq!(
        decide_no_call_action(
            true,
            true,
            true,
            false,
            true,
            CallEndCountdownTerminalState::NotEnded,
        ),
        NoCallDecision::RearmCountdown
    );

    // No countdown + no recording in scope → free to clear stale state.
    assert_eq!(
        decide_no_call_action(
            false,
            false,
            true,
            false,
            false,
            CallEndCountdownTerminalState::NotEnded,
        ),
        NoCallDecision::ClearIfStale
    );
    assert_eq!(
        decide_no_call_action(
            true,
            false,
            true,
            false,
            false,
            CallEndCountdownTerminalState::NotEnded,
        ),
        NoCallDecision::ClearIfStale
    );
    assert_eq!(
        decide_no_call_action(
            true,
            true,
            false,
            false,
            false,
            CallEndCountdownTerminalState::NotEnded,
        ),
        NoCallDecision::ClearIfStale
    );
}

#[test]
fn new_session_after_process_change_resets_call_end_fired() {
    // Ending Zoom, auto-stopping, then joining a Teams call must let the
    // Teams session auto-stop too. The "already fired" flag is per-session,
    // not per-detector.
    let mut detector = CallDetector::new(test_call_detection_config(vec![
        "zoom.us".into(),
        "Microsoft Teams".into(),
    ]));

    detector.note_active_call("zoom.us", "Zoom", NOW);
    detector.mark_call_end_fired();

    assert!(matches!(
        detector.note_active_call("Microsoft Teams", "Teams", NOW),
        DetectionTransition::NewSession
    ));
    let snap = detector.active_call_snapshot().unwrap();
    assert_eq!(snap.0, "Microsoft Teams");
    assert!(!snap.2, "new session must reset call_end_fired");
}

#[test]
fn teams_url_requires_real_meeting_path() {
    // Positive cases — these are live meeting URL shapes.
    assert!(looks_like_teams_meeting_url(
        "https://teams.microsoft.com/l/meetup-join/19%3ameeting_abc%40thread.v2/0?context=x"
    ));
    assert!(looks_like_teams_meeting_url(
        "https://teams.microsoft.com/meetup-join/19%3ameeting_abc%40thread.v2/0"
    ));
    assert!(looks_like_teams_meeting_url(
        "https://teams.live.com/meet/9876543210"
    ));
    assert!(looks_like_teams_meeting_url(
        "https://teams.live.com/v2/#/modern-calling/19:meeting_x@thread.v2/0"
    ));
    assert!(looks_like_teams_meeting_url(
        "https://teams.live.com/v2/#/calling-screen/19:meeting_y@thread.v2"
    ));
    // Teams Live v2 chat / home — must NOT match.
    assert!(!looks_like_teams_meeting_url("https://teams.live.com/v2/"));
    assert!(!looks_like_teams_meeting_url(
        "https://teams.live.com/v2/#/conversations/19:abc@thread.v2"
    ));
    assert!(looks_like_teams_meeting_url(
        "https://teams.microsoft.com/_#/pre-join-calling/19:meeting_abc@thread.v2"
    ));
    assert!(looks_like_teams_meeting_url(
        "https://teams.microsoft.com/v2/#/meetup-join/19:meeting_xyz@thread.v2/0"
    ));

    // Negative cases — these are Teams UI pages, not meetings.
    assert!(!looks_like_teams_meeting_url(
        "https://teams.microsoft.com/"
    ));
    assert!(!looks_like_teams_meeting_url(
        "https://teams.microsoft.com/_#/conversations/foo"
    ));
    assert!(!looks_like_teams_meeting_url(
        "https://teams.microsoft.com/_#/calendarv2"
    ));
    assert!(!looks_like_teams_meeting_url("https://teams.live.com/"));
    assert!(!looks_like_teams_meeting_url(
        "https://example.com/l/meetup-join/abc"
    ));
}

#[test]
fn teams_v2_root_with_meeting_title_matches() {
    // Real-world example pulled from the user's Teams Live tab while in a
    // meeting — URL is opaque, title carries the localized "Spotkanie" prefix.
    assert!(looks_like_teams_meeting_tab(
        "https://teams.live.com/v2/",
        "Spotkanie | Meeting with Romuald Członkowski | Microsoft Teams"
    ));
    assert!(looks_like_teams_meeting_tab(
        "https://teams.live.com/v2/",
        "Meeting | Standup | Microsoft Teams"
    ));
    assert!(looks_like_teams_meeting_tab(
        "https://teams.microsoft.com/v2/",
        "Calling Romuald | Microsoft Teams"
    ));
    // Chat tab on the same `/v2/` URL must not match — title prefix differs.
    assert!(!looks_like_teams_meeting_tab(
        "https://teams.live.com/v2/",
        "Czat | 🔒 GitHub Secure | Microsoft Teams"
    ));
    assert!(!looks_like_teams_meeting_tab(
        "https://teams.live.com/v2/",
        "Chat | Project Apollo | Microsoft Teams"
    ));
    // Off-Teams URL with a meeting-y title should still be rejected.
    assert!(!looks_like_teams_meeting_tab(
        "https://example.com/v2/",
        "Meeting notes | Example"
    ));
}

#[test]
fn sticky_teams_web_detection_survives_between_browser_probes() {
    let mut detector = CallDetector::new(test_call_detection_config(vec![
        "Slack".into(),
        "teams-web".into(),
    ]));

    remember_sticky(
        &mut detector.recent_teams_web_until,
        NOW,
        MeetingProvider::TeamsWeb.sticky_duration(),
        browser_spec("Google Chrome"),
    );
    assert!(sticky_alive(&mut detector.recent_teams_web_until, NOW).is_some());

    detector.recent_teams_web_until = Some(BrowserSticky {
        until: (NOW - SEC) as u128,
        browser: browser_spec("Google Chrome"),
    });

    assert!(sticky_alive(&mut detector.recent_teams_web_until, NOW).is_none());
}

// Browser-tab hits count only for the browser that produced them.

fn process(pid: u32, ppid: u32, name: &str) -> RunningProcess {
    RunningProcess {
        pid,
        ppid,
        name: name.into(),
        app: None,
    }
}

/// Chrome with its sandboxed Audio Service child (the pid CoreAudio
/// attributes the capture to) plus a dictation tool.
fn chrome_and_dictation_tool() -> Vec<RunningProcess> {
    vec![
        process(100, 1, "Google Chrome"),
        process(110, 100, "Google Chrome Helper"),
        process(200, 1, "superwhisper"),
    ]
}

fn meet_hit_from(
    browser: BrowserSpec,
) -> impl FnOnce(&[String], bool, bool) -> Option<BrowserMeetProbe> {
    move |_running: &[String], _want_meet: bool, _want_teams: bool| {
        Some(BrowserMeetProbe::Detected {
            provider: MeetingProvider::GoogleMeet,
            browser,
        })
    }
}

fn no_probe(
    _running: &[String],
    _want_meet: bool,
    _want_teams: bool,
) -> Option<BrowserMeetProbe> {
    None
}

#[test]
fn chrome_audio_service_input_with_meet_tab_detects_meet() {
    let mut detector = CallDetector::new(test_call_detection_config(vec!["google-meet".into()]));
    let config = detector.current_config();
    let processes = chrome_and_dictation_tool();
    let active_input_pids = HashSet::from([110]);

    let result = detector.detect_active_call_from_process_snapshot(
        &config,
        true,
        &processes,
        Some(&active_input_pids),
        false,
        NOW,
        SELF_PID,
        meet_hit_from(browser_spec("Google Chrome")),
    );

    assert_eq!(result, detected_for(MeetingProvider::GoogleMeet));
    let sticky = sticky_alive(&mut detector.recent_google_meet_until, NOW).expect("sticky armed");
    assert_eq!(sticky.browser.app_name, "Google Chrome");
}

#[test]
fn stale_meet_tab_with_dictation_tool_input_is_rejected_on_fresh_probe() {
    let mut detector = CallDetector::new(test_call_detection_config(vec!["google-meet".into()]));
    let config = detector.current_config();
    let processes = chrome_and_dictation_tool();
    // superwhisper holds the mic; Chrome only has a leftover Meet tab.
    let active_input_pids = HashSet::from([200]);

    let result = detector.detect_active_call_from_process_snapshot(
        &config,
        true,
        &processes,
        Some(&active_input_pids),
        false,
        NOW,
        SELF_PID,
        meet_hit_from(browser_spec("Google Chrome")),
    );

    assert_eq!(result, DetectActiveCallResult::NoCall);
    assert!(sticky_alive(&mut detector.recent_google_meet_until, NOW).is_none());
}

#[test]
fn stale_meet_tab_with_dictation_tool_input_is_rejected_on_live_sticky() {
    let mut detector = CallDetector::new(test_call_detection_config(vec!["google-meet".into()]));
    let config = detector.current_config();
    remember_sticky(
        &mut detector.recent_google_meet_until,
        NOW,
        MeetingProvider::GoogleMeet.sticky_duration(),
        browser_spec("Google Chrome"),
    );
    let processes = chrome_and_dictation_tool();
    let active_input_pids = HashSet::from([200]);

    let result = detector.detect_active_call_from_process_snapshot(
        &config,
        true,
        &processes,
        Some(&active_input_pids),
        false,
        NOW,
        SELF_PID,
        no_probe,
    );

    assert_eq!(result, DetectActiveCallResult::NoCall);
    // The window is left to expire on its own.
    assert!(sticky_alive(&mut detector.recent_google_meet_until, NOW).is_some());
}

#[test]
fn arc_input_does_not_validate_a_chrome_tab_hit() {
    let mut detector = CallDetector::new(test_call_detection_config(vec!["google-meet".into()]));
    let config = detector.current_config();
    let processes = vec![
        process(100, 1, "Google Chrome"),
        process(300, 1, "Arc"),
        process(310, 300, "Arc Helper"),
    ];
    // Arc is on the call; the tab hit came from Chrome.
    let active_input_pids = HashSet::from([310]);

    let fresh = detector.detect_active_call_from_process_snapshot(
        &config,
        true,
        &processes,
        Some(&active_input_pids),
        false,
        NOW,
        SELF_PID,
        meet_hit_from(browser_spec("Google Chrome")),
    );
    assert_eq!(fresh, DetectActiveCallResult::NoCall);

    remember_sticky(
        &mut detector.recent_google_meet_until,
        NOW,
        MeetingProvider::GoogleMeet.sticky_duration(),
        browser_spec("Google Chrome"),
    );
    let sticky = detector.detect_active_call_from_process_snapshot(
        &config,
        true,
        &processes,
        Some(&active_input_pids),
        false,
        NOW,
        SELF_PID,
        no_probe,
    );
    assert_eq!(sticky, DetectActiveCallResult::NoCall);
}

#[test]
fn meet_tab_hit_falls_back_to_generic_gate_without_attribution() {
    let mut detector = CallDetector::new(test_call_detection_config(vec!["google-meet".into()]));
    let config = detector.current_config();
    let processes = chrome_and_dictation_tool();

    let result = detector.detect_active_call_from_process_snapshot(
        &config,
        true,
        &processes,
        None,
        false,
        NOW,
        SELF_PID,
        meet_hit_from(browser_spec("Google Chrome")),
    );

    assert_eq!(result, detected_for(MeetingProvider::GoogleMeet));
}

#[test]
fn safari_webkit_input_follows_generic_gate() {
    let mut detector = CallDetector::new(test_call_detection_config(vec!["google-meet".into()]));
    let config = detector.current_config();
    // WebKit content processes are reparented to launchd, so pid/ppid
    // cannot tie the capture back to Safari; the generic gate applies.
    let processes = vec![
        process(500, 1, "Safari"),
        process(501, 1, "com.apple.WebKit.WebContent"),
    ];
    let active_input_pids = HashSet::from([501]);

    let live = detector.detect_active_call_from_process_snapshot(
        &config,
        true,
        &processes,
        Some(&active_input_pids),
        false,
        NOW,
        SELF_PID,
        meet_hit_from(browser_spec("Safari")),
    );
    assert_eq!(live, detected_for(MeetingProvider::GoogleMeet));
    assert_eq!(
        sticky_alive(&mut detector.recent_google_meet_until, NOW)
            .expect("sticky armed")
            .browser
            .app_name,
        "Safari"
    );

    // Same sticky, mic released: the generic gate is the only gate.
    let idle = detector.detect_active_call_from_process_snapshot(
        &config,
        false,
        &processes,
        Some(&HashSet::new()),
        false,
        NOW,
        SELF_PID,
        no_probe,
    );
    assert_eq!(idle, DetectActiveCallResult::NoCall);
}

#[test]
fn chrome_family_root_does_not_absorb_canary() {
    let processes = vec![
        process(100, 1, "Google Chrome"),
        process(400, 1, "Google Chrome Canary"),
        process(410, 400, "Google Chrome Canary Helper"),
    ];

    assert_eq!(
        browser_family_pids("Google Chrome", &processes),
        HashSet::from([100])
    );
    assert_eq!(
        browser_family_pids("Google Chrome Canary", &processes),
        HashSet::from([400, 410])
    );

    // Consequence: Canary holding the mic does not validate a Chrome hit.
    let mut detector = CallDetector::new(test_call_detection_config(vec!["google-meet".into()]));
    let config = detector.current_config();
    let result = detector.detect_active_call_from_process_snapshot(
        &config,
        true,
        &processes,
        Some(&HashSet::from([410])),
        false,
        NOW,
        SELF_PID,
        meet_hit_from(browser_spec("Google Chrome")),
    );
    assert_eq!(result, DetectActiveCallResult::NoCall);
}

#[test]
fn browser_probe_consults_the_input_gate_before_querying_tabs() {
    let mut detector = CallDetector::new(test_call_detection_config(vec!["google-meet".into()]));
    let running: Vec<String> = vec!["Google Chrome".into(), "Arc".into()];
    let offered = std::cell::RefCell::new(Vec::new());

    // Rejecting every browser must keep the probe away from AppleScript
    // (which would launch the app) while still reporting that browsers
    // were seen.
    let result = detector.detect_browser_meeting(
        &running,
        true,
        false,
        NOW,
        |spec| {
            offered.borrow_mut().push(spec.app_name);
            false
        },
        never_asked,
    );

    assert!(matches!(result, BrowserMeetProbe::NoMatch));
    assert_eq!(offered.into_inner(), vec!["Google Chrome", "Arc"]);
}

#[test]
fn new_teams_msteams_binary_matches_microsoft_teams_config() {
    assert!(process_name_matches_config_app(
        "Microsoft Teams",
        "MSTeams"
    ));
    assert!(process_name_matches_config_app(
        "Microsoft Teams",
        "Microsoft Teams"
    ));
    assert!(!process_name_matches_config_app(
        "Microsoft Teams",
        "MSTeamsUpdater"
    ));
    assert_eq!(display_name_for("MSTeams"), "Teams");
}

#[test]
fn new_teams_main_process_holding_mic_detects_native_call() {
    let mut detector =
        CallDetector::new(test_call_detection_config(vec!["Microsoft Teams".into()]));
    let config = detector.current_config();
    let processes = vec![
        process(15340, 1, "MSTeams"),
        process(15502, 15340, "Microsoft Teams"),
    ];
    let active_input_pids = HashSet::from([15340]);
    let result = detector.detect_active_call_from_process_snapshot(
        &config,
        true,
        &processes,
        Some(&active_input_pids),
        false,
        NOW,
        SELF_PID,
        |_running: &[String], _want_meet: bool, _want_teams: bool| None,
    );
    assert_eq!(
        result,
        DetectActiveCallResult::Detected {
            display_name: "Teams".into(),
            process_name: "Microsoft Teams".into(),
        }
    );
}

#[test]
fn teams_cloud_microsoft_host_is_recognized() {
    assert!(looks_like_teams_meeting_url(
        "https://teams.cloud.microsoft/v2/#/meetup-join/19:meeting_abc@thread.v2/0"
    ));
    assert!(looks_like_teams_meeting_url(
        "https://teams.cloud.microsoft/l/meetup-join/19%3ameeting_abc%40thread.v2/0"
    ));
    assert!(!looks_like_teams_meeting_url(
        "https://teams.cloud.microsoft/v2/"
    ));
    assert!(is_teams_v2_root("https://teams.cloud.microsoft/v2/"));
    assert!(looks_like_teams_meeting_tab(
        "https://teams.cloud.microsoft/v2/",
        "Meeting | Standup | Microsoft Teams"
    ));
    assert!(!looks_like_teams_meeting_tab(
        "https://teams.cloud.microsoft/v2/",
        "Chat | Project Apollo | Microsoft Teams"
    ));
}

#[test]
fn app_bundle_is_the_outermost_dot_app() {
    assert_eq!(
        app_bundle_from_command(
            "/Applications/Slack.app/Contents/Frameworks/Slack Helper (GPU).app/Contents/MacOS/Slack Helper (GPU)"
        ),
        Some("Slack".into())
    );
    assert_eq!(
        app_bundle_from_command("/Applications/Microsoft Teams.app/Contents/MacOS/MSTeams"),
        Some("Microsoft Teams".into())
    );
    assert_eq!(app_bundle_from_command("/usr/sbin/coreaudiod"), None);
    assert_eq!(app_bundle_from_command("minutes"), None);
}

fn bundled(pid: u32, ppid: u32, name: &str, app: &str) -> RunningProcess {
    RunningProcess {
        pid,
        ppid,
        name: name.into(),
        app: Some(app.into()),
    }
}

#[test]
fn any_mic_app_labels_slack_huddle_by_bundle_and_ignores_daemons_and_self() {
    let self_pid = 4242;
    let processes = vec![
        process(90, 1, "coreaudiod"),
        bundled(500, 1, "Slack", "Slack"),
        bundled(501, 500, "Slack Helper (GPU)", "Slack"),
        bundled(self_pid, 1, "Minutes Dev", "Minutes Dev"),
        process(4300, self_pid, "minutes-apple-speech-worker"),
    ];
    // Only daemons and our own process family hold input: nothing to report.
    assert_eq!(
        detect_any_mic_app(&processes, &HashSet::from([90, self_pid, 4300]), self_pid),
        None
    );
    // A Slack helper grabs the mic: label it by the Slack bundle.
    assert_eq!(
        detect_any_mic_app(&processes, &HashSet::from([90, 501]), self_pid),
        Some(("Slack".into(), "Slack".into()))
    );
}

#[test]
fn any_mic_app_attributes_webkit_audio_to_safari() {
    let processes = vec![
        process(600, 1, "Safari"),
        process(601, 1, "com.apple.WebKit.GPU"),
    ];
    assert_eq!(
        detect_any_mic_app(&processes, &HashSet::from([601]), 4242),
        Some(("Safari".into(), "Safari".into()))
    );
    let without_safari = vec![process(601, 1, "com.apple.WebKit.GPU")];
    assert_eq!(
        detect_any_mic_app(&without_safari, &HashSet::from([601]), 4242),
        None
    );
}

#[test]
fn any_mic_app_is_the_last_tier_and_respects_the_toggle() {
    let mut config = test_call_detection_config(vec!["zoom.us".into()]);
    config.any_mic_app = true;
    let mut detector = CallDetector::new(config);
    let config = detector.current_config();
    let processes = vec![bundled(700, 1, "Discord", "Discord")];
    let active = HashSet::from([700]);
    let result = detector.detect_active_call_from_process_snapshot(
        &config,
        true,
        &processes,
        Some(&active),
        false,
        NOW,
        SELF_PID,
        |_r: &[String], _m: bool, _t: bool| None,
    );
    assert_eq!(
        result,
        DetectActiveCallResult::Detected {
            display_name: "Discord".into(),
            process_name: "Discord".into(),
        }
    );

    let mut config = test_call_detection_config(vec!["zoom.us".into()]);
    config.any_mic_app = false;
    let mut detector = CallDetector::new(config);
    let config = detector.current_config();
    let result = detector.detect_active_call_from_process_snapshot(
        &config,
        true,
        &processes,
        Some(&active),
        false,
        NOW,
        SELF_PID,
        |_r: &[String], _m: bool, _t: bool| None,
    );
    assert_eq!(result, DetectActiveCallResult::NoCall);
}
