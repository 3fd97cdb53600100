use minutes_app::any_mic_app::{detect_any_mic_app, is_system_mic_holder};
use minutes_app::browser_scan::{
    find_meeting, probe_error_reason, BrowserScan, ScanStep,
};
use minutes_app::browsers::{
    applescript_probe, applescript_spawn_failure, browser_hit_has_active_input,
    browser_tabs_script, browsers, lowered_denies_permission, tabs_from_output, AppleScriptProbe,
    BrowserKind, BrowserSpec, BrowserTab,
};
use minutes_app::config::CallDetectionConfig;
use minutes_app::countdown::{
    arm_call_end_countdown, tick_call_end_countdown, CallEndAutoStopHandles,
    CallEndCountdownTerminalState, CountdownTick,
};
use minutes_app::deadlines::{deadline_after, elapsed, DeadlineMap};
use minutes_app::detector::{
    BrowserMeetProbe, CallDetector, DetectActiveCallResult, DetectionStep, DetectionTransition,
    MeetingProvider, BROWSER_PROBE_BACKOFF_SECS, BROWSER_PROBE_INTERVAL_SECS,
    SAME_APP_REMINDER_SECS,
};
use minutes_app::families::expand_process_family;
use minutes_app::meeting_urls::{
    looks_like_google_meet_meeting_code, looks_like_google_meet_meeting_url,
    looks_like_teams_meeting_tab, looks_like_teams_meeting_url, lowered_is_google_meet_url, lowered_is_teams_meeting_url,
    lowered_is_teams_v2_root, lowered_title_indicates_teams_meeting, title_indicates_teams_meeting,
    trimmed_lowercase,
};
use minutes_app::mic_check::{
    active_input_pids_from_output, is_mic_in_use, mic_check_reports_live, mic_live_from_pids,
};
use minutes_app::native_apps::{
    config_app_aliases, is_low_confidence_native_call_app, lowered_process_name_matches,
    native_app_candidate_process_pids, native_app_has_active_input,
    process_name_matches_config_app,
};
use minutes_app::poll::{CallDetectedPayload, PollAction, PollGate};
use minutes_app::processes::{
    app_bundle_from_command, binary_name_from_command, process_names_from_snapshot,
    process_snapshots_from_ps_output, split_first_field, RunningProcess,
};
use minutes_app::text::{chars_of, string_of};
use std::collections::HashSet;

const SEC: u64 = 1_000_000_000;
const NOW: u64 = 5_000 * SEC;
const SELF_PID: u32 = 4242;

fn config(apps: &[&str]) -> CallDetectionConfig {
    CallDetectionConfig {
        enabled: true,
        poll_interval_secs: 1,
        cooldown_minutes: 5,
        apps: apps.iter().map(|a| a.to_string()).collect(),
        stop_when_call_ends: false,
        call_end_stop_countdown_secs: 30,
        any_mic_app: false,
        prompt_card: true,
        ignored_apps: vec![],
    }
}

fn process(pid: u32, ppid: u32, name: &str) -> RunningProcess {
    RunningProcess {
        pid,
        ppid,
        name: name.into(),
        app: None,
    }
}

fn bundled(pid: u32, ppid: u32, name: &str, app: &str) -> RunningProcess {
    RunningProcess {
        pid,
        ppid,
        name: name.into(),
        app: Some(app.into()),
    }
}

fn spec(app_name: &str) -> BrowserSpec {
    browsers()
        .into_iter()
        .find(|spec| spec.app_name == app_name)
        .unwrap()
}

fn tab(url: &str, title: &str) -> BrowserTab {
    BrowserTab {
        url: url.into(),
        title: title.into(),
    }
}

fn call(display: &str, process: &str) -> DetectActiveCallResult {
    DetectActiveCallResult::Detected {
        display_name: display.into(),
        process_name: process.into(),
    }
}

#[test]
fn families_hold_all_descendants_whatever_their_order() {
    let processes = vec![
        process(40, 30, "great-grandchild"),
        process(30, 20, "grandchild"),
        process(20, 10, "child"),
        process(10, 1, "root"),
        process(50, 1, "stranger"),
        process(60, 60, "its own parent"),
    ];
    let mut family = HashSet::from([10]);
    expand_process_family(&mut family, &processes);
    assert_eq!(family, HashSet::from([10, 20, 30, 40]));
    expand_process_family(&mut family, &processes);
    assert_eq!(family, HashSet::from([10, 20, 30, 40]));
    let mut nobody = HashSet::new();
    expand_process_family(&mut nobody, &processes);
    assert!(nobody.is_empty());
}

#[test]
fn families_of_processes_in_a_circle_end() {
    let processes = vec![process(1, 2, "a"), process(2, 3, "b"), process(3, 1, "c")];
    let mut family = HashSet::from([2]);
    expand_process_family(&mut family, &processes);
    assert_eq!(family, HashSet::from([1, 2, 3]));
}

#[test]
fn names_match_by_prefix_with_dot_or_space_only() {
    assert!(process_name_matches_config_app("zoom.us", "ZOOM.US"));
    assert!(process_name_matches_config_app("Zoom", "zoom.us"));
    assert!(process_name_matches_config_app("Slack", "Slack Helper (GPU)"));
    assert!(!process_name_matches_config_app("Slack", "Slackbot"));
    assert!(!process_name_matches_config_app(
        "FaceTime",
        "com.apple.FaceTime.FTConversationService"
    ));
    assert!(process_name_matches_config_app("ÄPP", "äpp"));
    assert!(lowered_process_name_matches("microsoft teams", "msteams"));
    assert!(lowered_process_name_matches(
        "microsoft teams (work or school)",
        "msteams"
    ));
    assert!(!lowered_process_name_matches("teams", "msteams"));
    assert_eq!(config_app_aliases("microsoft teams"), vec!["msteams"]);
    assert!(config_app_aliases("zoom.us").is_empty());
}

#[test]
fn only_slack_is_of_low_confidence() {
    assert!(is_low_confidence_native_call_app("SLACK"));
    assert!(is_low_confidence_native_call_app("slack"));
    assert!(!is_low_confidence_native_call_app("slack "));
    assert!(!is_low_confidence_native_call_app("zoom.us"));
}

#[test]
fn input_counts_for_the_family_that_holds_it() {
    let processes = vec![
        process(100, 1, "zoom.us"),
        process(110, 100, "ZoomHybridConf"),
        process(200, 1, "superwhisper"),
    ];
    assert_eq!(
        native_app_candidate_process_pids("zoom.us", &processes),
        HashSet::from([100, 110])
    );
    assert!(native_app_has_active_input(
        "zoom.us",
        &processes,
        &HashSet::from([110])
    ));
    assert!(!native_app_has_active_input(
        "zoom.us",
        &processes,
        &HashSet::from([200])
    ));
    assert!(!native_app_has_active_input(
        "zoom.us",
        &processes,
        &HashSet::new()
    ));
}

#[test]
fn commands_give_names_and_bundles() {
    assert_eq!(binary_name_from_command("  /usr/sbin/coreaudiod \n"), "coreaudiod");
    assert_eq!(binary_name_from_command("/ends/in/slash/"), "");
    assert_eq!(binary_name_from_command("plain"), "plain");
    assert_eq!(app_bundle_from_command("/x/.app/Real.app/y"), None);
    assert_eq!(app_bundle_from_command("/x/A.app"), Some("A".into()));
    assert_eq!(app_bundle_from_command(""), None);
}

#[test]
fn lines_of_ps_that_do_not_fit_are_passed_over() {
    let text = "  1 0 /sbin/launchd\nPID PPID COMM\n77\n88 99\n-5 1 /bin/x\n4294967296 1 /bin/y\n +7 8  /a b/c d \n";
    assert_eq!(
        process_snapshots_from_ps_output(text),
        vec![process(1, 0, "launchd"), process(7, 8, "c d")]
    );
    assert!(process_snapshots_from_ps_output("").is_empty());
    for a in ["", "1 0 /sbin/launchd", "1 0 launchd\r", "1 0 a\n\n", "x 0 a\n7 1 b\r\n"] {
        for b in ["", "\n", "2 1 c d", "3 one e\n4 1 f"] {
            let mut both = process_snapshots_from_ps_output(a);
            both.extend(process_snapshots_from_ps_output(b));
            assert_eq!(process_snapshots_from_ps_output(&format!("{a}\n{b}")), both);
        }
    }
    for line in ["5", "5 1", "5 1  ", "x 1 y", "5 x y", "4294967296 1 y"] {
        assert!(process_snapshots_from_ps_output(line).is_empty(), "{line}");
    }
}

#[test]
fn first_fields_need_white_space_behind_them() {
    let chars = chars_of("  100 zoom");
    let (field, rest) = split_first_field(&chars).unwrap();
    assert_eq!(string_of(field), "100");
    assert_eq!(string_of(rest), " zoom");
    assert!(split_first_field(&chars_of("  100")).is_none());
    assert!(split_first_field(&chars_of("   ")).is_none());
}

#[test]
fn names_are_taken_from_a_snapshot_in_order() {
    let processes = vec![process(2, 1, "b"), process(1, 0, "a")];
    assert_eq!(process_names_from_snapshot(&processes), vec!["b", "a"]);
}

#[test]
fn any_mic_app_walks_up_to_the_nearest_bundle() {
    let processes = vec![
        bundled(10, 1, "Discord", "Discord"),
        process(11, 10, "helper"),
        process(12, 11, "renderer"),
    ];
    assert_eq!(
        detect_any_mic_app(&processes, &HashSet::from([12]), SELF_PID),
        Some(("Discord".into(), "Discord".into()))
    );
}

#[test]
fn any_mic_app_walks_up_six_parents_and_no_further() {
    let mut processes = vec![bundled(100, 1, "App", "App")];
    for n in 1..=7u32 {
        processes.push(process(100 + n, 99 + n, "helper"));
    }
    assert_eq!(
        detect_any_mic_app(&processes, &HashSet::from([106]), SELF_PID),
        Some(("App".into(), "App".into()))
    );
    assert_eq!(
        detect_any_mic_app(&processes, &HashSet::from([107]), SELF_PID),
        None
    );
}

#[test]
fn any_mic_app_names_the_smallest_pid_and_the_last_row_of_it() {
    let processes = vec![
        bundled(30, 1, "Zoom", "zoom.us"),
        bundled(20, 1, "First", "First"),
        bundled(20, 1, "Second", "Second"),
        bundled(10, 1, "minutes-cli", "Tool"),
    ];
    assert_eq!(
        detect_any_mic_app(&processes, &HashSet::from([10, 20, 30]), SELF_PID),
        Some(("Second".into(), "Second".into()))
    );
    assert_eq!(
        detect_any_mic_app(&processes, &HashSet::from([30]), SELF_PID),
        Some(("Zoom".into(), "zoom.us".into()))
    );
    assert_eq!(
        detect_any_mic_app(&processes, &HashSet::from([10]), SELF_PID),
        None
    );
    assert_eq!(
        detect_any_mic_app(&processes, &HashSet::from([999]), SELF_PID),
        None
    );
}

#[test]
fn any_mic_app_names_facetime_while_it_runs() {
    let mut processes = vec![process(70, 1, "avconferenced")];
    let active = HashSet::from([70]);
    assert_eq!(detect_any_mic_app(&processes, &active, SELF_PID), None);
    processes.push(bundled(71, 1, "FaceTime", "FaceTime"));
    assert_eq!(
        detect_any_mic_app(&processes, &active, SELF_PID),
        Some(("FaceTime".into(), "FaceTime".into()))
    );
}

#[test]
fn any_mic_app_stops_at_a_bundle_of_its_own() {
    let processes = vec![
        bundled(50, 1, "worker", "Minutes"),
        bundled(51, 1, "Other", "Other"),
    ];
    assert_eq!(
        detect_any_mic_app(&processes, &HashSet::from([50]), SELF_PID),
        None
    );
    assert!(is_system_mic_holder("coreaudiod"));
    assert!(is_system_mic_holder(
        "com.apple.speechrecognitioncore.speechrecognitionserver"
    ));
    assert!(!is_system_mic_holder("CoreAudioD"));
}

#[test]
fn meet_codes_have_three_four_and_three_letters() {
    assert!(looks_like_google_meet_meeting_code("abc-defg-hij"));
    for wrong in [
        "",
        "abc-defg-hi",
        "abc-defg-hijk",
        "ab-cdefg-hij",
        "abc-def-ghij",
        "ABC-defg-hij",
        "abc-defg-hi1",
        "abcd-efg-hij",
        "abc-defg-hij-",
        "abc_defg_hij",
    ] {
        assert!(!looks_like_google_meet_meeting_code(wrong), "{wrong}");
    }
}

#[test]
fn meet_links_are_recognized_whatever_follows_the_code() {
    for link in [
        "meet.google.com/abc-defg-hij",
        "http://meet.google.com/abc-defg-hij#x",
        "  HTTPS://MEET.GOOGLE.COM/ABC-DEFG-HIJ/extra?y  ",
        "https://meet.google.com/abc-defg-hij?a/b#c",
    ] {
        assert!(looks_like_google_meet_meeting_url(link), "{link}");
    }
    assert!(!looks_like_google_meet_meeting_url(
        "ftp://meet.google.com/abc-defg-hij"
    ));
    assert!(lowered_is_google_meet_url("https://meet.google.com/abc-defg-hij"));
    assert!(!lowered_is_google_meet_url("https://meet.google.com/ABC-defg-hij"));
}

#[test]
fn teams_links_are_recognized_on_each_host() {
    for host in ["teams.live.com", "teams.microsoft.com", "teams.cloud.microsoft"] {
        for marker in [
            "pre-join-calling/",
            "meetup-join/",
            "modern-calling/",
            "calling-screen/",
        ] {
            let link = format!("https://{host}/v2/#/{marker}19:x");
            assert!(lowered_is_teams_meeting_url(&link), "{link}");
            assert!(looks_like_teams_meeting_url(&link.to_uppercase()), "{link}");
        }
        assert!(lowered_is_teams_v2_root(&format!("http://{host}/v2")));
        assert!(lowered_is_teams_v2_root(&format!("{host}/v2/?x")));
        assert!(!lowered_is_teams_v2_root(&format!("{host}/v2x")));
    }
    assert!(lowered_is_teams_meeting_url("https://teams.live.com/x/meet/1"));
    assert!(!lowered_is_teams_meeting_url(
        "https://teams.microsoft.com/meet/1"
    ));
}

#[test]
fn teams_titles_are_known_in_several_languages() {
    for title in ["Réunion", " ПОЗВОНИТЬ", "会議 | x", "Toplantı", "appel"] {
        let expected = title != " ПОЗВОНИТЬ";
        assert_eq!(title_indicates_teams_meeting(title), expected, "{title}");
    }
    assert!(title_indicates_teams_meeting("ВЫЗОВ"));
    assert!(!title_indicates_teams_meeting("   "));
    assert!(title_indicates_teams_meeting("Call "));
    assert!(!title_indicates_teams_meeting("Call"));
    assert!(!title_indicates_teams_meeting(" Meeting"));
    assert!(looks_like_teams_meeting_tab(" https://teams.microsoft.com/v2/ ", "Call "));
    assert!(lowered_title_indicates_teams_meeting("call with x"));
    assert!(!lowered_title_indicates_teams_meeting("callous"));
    assert_eq!(trimmed_lowercase("  ÀB "), "àb");
}

#[test]
fn tabs_come_in_pairs_of_lines() {
    let tabs = tabs_from_output("https://a\n Title A \n\n\n\nOnly title\nhttps://last\n");
    let pairs: Vec<(String, String)> = tabs.into_iter().map(|t| (t.url, t.title)).collect();
    assert_eq!(
        pairs,
        vec![
            ("https://a".to_string(), "Title A".to_string()),
            ("".to_string(), "Only title".to_string()),
            ("https://last".to_string(), "".to_string()),
        ]
    );
    assert!(tabs_from_output("").is_empty());
}

#[test]
fn osascript_outcomes_are_told_apart() {
    assert!(matches!(
        applescript_probe(true, "u\nt\n", "ignored: Not Authorized"),
        AppleScriptProbe::Tabs(tabs) if tabs.len() == 1
    ));
    for denied in [
        "execution error: NOT AUTHORIZED to send Apple events",
        "Operation not permitted",
        "error (-1743)",
    ] {
        assert!(matches!(
            applescript_probe(false, "", denied),
            AppleScriptProbe::PermissionDenied
        ));
    }
    assert!(matches!(
        applescript_probe(false, "", "  syntax error \n"),
        AppleScriptProbe::Error { stderr } if stderr == "syntax error"
    ));
    assert!(matches!(
        applescript_spawn_failure("no such file"),
        AppleScriptProbe::Error { stderr } if stderr == "osascript spawn failed: no such file"
    ));
    assert!(lowered_denies_permission("not permitted"));
    assert!(!lowered_denies_permission("NOT PERMITTED"));
}

#[test]
fn tab_scripts_name_the_app_and_its_title_property() {
    let expected = "tell application \"Safari\"\nset output to \"\"\nrepeat with w in windows\n  repeat with t in tabs of w\n    set tabUrl to \"\"\n    set tabTitle to \"\"\n    try\n      set tabUrl to (URL of t as text)\n    end try\n    try\n      set tabTitle to (name of t as text)\n    end try\n    set output to output & tabUrl & linefeed & tabTitle & linefeed\n  end repeat\nend repeat\nreturn output\nend tell";
    assert_eq!(browser_tabs_script("Safari", BrowserKind::Safari), expected);
    assert!(browser_tabs_script("Arc", BrowserKind::ChromeLike)
        .contains("set tabTitle to (title of t as text)"));
}

#[test]
fn the_first_meeting_tab_decides() {
    let tabs = [
        tab("https://example.com", "Meeting"),
        tab("https://teams.live.com/v2/", "Meeting | x"),
        tab("https://meet.google.com/abc-defg-hij", ""),
    ];
    assert_eq!(find_meeting(&tabs, true, true), Some(MeetingProvider::TeamsWeb));
    assert_eq!(
        find_meeting(&tabs, true, false),
        Some(MeetingProvider::GoogleMeet)
    );
    assert_eq!(find_meeting(&tabs, false, false), None);
    assert_eq!(find_meeting(&[], true, true), None);
}

#[test]
fn input_of_a_browser_is_that_of_its_family_where_it_is_known() {
    let processes = vec![
        process(100, 1, "google chrome"),
        process(110, 100, "Google Chrome Helper"),
        process(200, 1, "superwhisper"),
    ];
    let chrome = spec("Google Chrome");
    let table = Some(processes.as_slice());
    assert!(browser_hit_has_active_input(
        &chrome,
        false,
        table,
        Some(&HashSet::from([110]))
    ));
    assert!(!browser_hit_has_active_input(
        &chrome,
        true,
        table,
        Some(&HashSet::from([200]))
    ));
    assert!(browser_hit_has_active_input(&chrome, true, table, None));
    assert!(browser_hit_has_active_input(
        &spec("Arc"),
        true,
        table,
        Some(&HashSet::from([200]))
    ));
    assert!(!browser_hit_has_active_input(&spec("Arc"), false, table, None));
}

#[test]
fn a_scan_goes_from_browser_to_browser() {
    let mut detector = CallDetector::new(config(&["google-meet", "teams-web"]));
    let running = vec!["Safari".to_string(), "Google Chrome".to_string(), "Arc".to_string()];
    let mut scan = detector.start_browser_scan(&running, true, true, NOW);
    assert!(!detector.browser_probe_due(NOW + (BROWSER_PROBE_INTERVAL_SECS - 1) * SEC));
    let gate = |browser: &BrowserSpec| browser.app_name != "Arc";
    let ScanStep::Query(first) = detector.next_browser(&mut scan, &gate, NOW) else {
        panic!("a browser has to be asked");
    };
    assert_eq!(first.app_name, "Google Chrome");
    let nothing = AppleScriptProbe::Tabs(vec![tab("https://example.com", "x")]);
    assert!(detector
        .browser_answered(&scan, &first, &nothing, NOW)
        .is_none());
    let ScanStep::Query(second) = detector.next_browser(&mut scan, &gate, NOW) else {
        panic!("another browser has to be asked");
    };
    assert_eq!(second.app_name, "Safari");
    let meeting = AppleScriptProbe::Tabs(vec![tab("https://meet.google.com/abc-defg-hij", "")]);
    assert!(matches!(
        detector.browser_answered(&scan, &second, &meeting, NOW),
        Some(BrowserMeetProbe::Detected { provider: MeetingProvider::GoogleMeet, browser })
            if browser.app_name == "Safari"
    ));
    assert!(matches!(
        detector.next_browser(&mut scan, &gate, NOW),
        ScanStep::Finished(BrowserMeetProbe::NoMatch)
    ));
}

#[test]
fn a_scan_without_browsers_says_so() {
    let mut detector = CallDetector::new(config(&["google-meet"]));
    let mut scan = BrowserScan::new(&["Finder".to_string()], true, false);
    assert!(matches!(
        detector.next_browser(&mut scan, &|_: &BrowserSpec| true, NOW),
        ScanStep::Finished(BrowserMeetProbe::NoBrowserProcesses)
    ));
}

#[test]
fn a_denied_browser_is_left_alone_and_no_other() {
    let mut detector = CallDetector::new(config(&["google-meet"]));
    let running = vec!["Google Chrome".to_string(), "Safari".to_string()];
    let outcome = detector.detect_browser_meeting(
        &running,
        true,
        false,
        NOW,
        |_| true,
        |_: &BrowserSpec| AppleScriptProbe::PermissionDenied,
    );
    assert!(matches!(
        outcome,
        BrowserMeetProbe::PermissionDenied { browser_app } if browser_app == "Google Chrome"
    ));
    let outcome = detector.detect_browser_meeting(
        &running,
        true,
        false,
        NOW + SEC,
        |_| true,
        |browser: &BrowserSpec| {
            assert_eq!(browser.app_name, "Safari");
            AppleScriptProbe::Error { stderr: "x".into() }
        },
    );
    assert!(matches!(outcome, BrowserMeetProbe::Error));
    let over = NOW + BROWSER_PROBE_BACKOFF_SECS * SEC;
    assert!(!detector.browser_probe_allowed_for("Google Chrome", over - 1));
    assert!(detector.browser_probe_allowed_for("Google Chrome", over));
    assert!(!detector.browser_probe_allowed_for("Safari", over));
}

#[test]
fn reasons_hold_the_head_of_a_message() {
    assert_eq!(probe_error_reason(""), "browser_probe_error");
    assert_eq!(probe_error_reason("boom"), "browser_probe_error: boom");
    let long = "é".repeat(300);
    assert_eq!(
        probe_error_reason(&long),
        format!("browser_probe_error: {}", "é".repeat(240))
    );
    assert_eq!(
        probe_error_reason(&"é".repeat(240)),
        format!("browser_probe_error: {}", "é".repeat(240))
    );
}

#[test]
fn a_permission_problem_is_warned_of() {
    let mut detector = CallDetector::new(config(&["google-meet", "zoom.us"]));
    let settings = detector.current_config();
    let result = detector.detect_active_call_from_snapshot(
        &settings,
        true,
        &["Google Chrome".to_string()],
        false,
        NOW,
        SELF_PID,
        |_: &[String], _: bool, _: bool| {
            Some(BrowserMeetProbe::PermissionDenied {
                browser_app: "Google Chrome".into(),
            })
        },
    );
    assert_eq!(
        result,
        DetectActiveCallResult::PermissionWarning {
            browser_app: "Google Chrome".into()
        }
    );
}

#[test]
fn high_confidence_goes_before_low_whatever_the_order() {
    let mut detector = CallDetector::new(config(&["Slack", "zoom.us"]));
    let settings = detector.current_config();
    let processes = vec![process(1, 0, "Slack"), process(2, 0, "zoom.us")];
    let mut detect = |active: HashSet<u32>| {
        detector.detect_active_call_from_process_snapshot(
            &settings,
            true,
            &processes,
            Some(&active),
            false,
            NOW,
            SELF_PID,
            |_: &[String], _: bool, _: bool| panic!("nobody asked for browsers"),
        )
    };
    assert_eq!(detect(HashSet::from([1, 2])), call("Zoom", "zoom.us"));
    assert_eq!(detect(HashSet::from([1])), call("Slack", "Slack"));
    assert_eq!(detect(HashSet::new()), DetectActiveCallResult::NoCall);
}

#[test]
fn a_remembered_meeting_counts_until_its_window_closes() {
    let mut detector = CallDetector::new(config(&["teams-web"]));
    let settings = detector.current_config();
    let running = vec!["Arc".to_string()];
    let hit = detector.detect_active_call_from_snapshot(
        &settings,
        true,
        &running,
        false,
        NOW,
        SELF_PID,
        |_: &[String], meet: bool, teams: bool| {
            assert!(!meet && teams);
            Some(BrowserMeetProbe::Detected {
                provider: MeetingProvider::TeamsWeb,
                browser: spec("Arc"),
            })
        },
    );
    assert_eq!(hit, call("Teams", "teams-web"));
    let mut later = |mic_live: bool, now: u64| {
        detector.detect_active_call_from_snapshot(
            &settings,
            mic_live,
            &running,
            false,
            now,
            SELF_PID,
            |_: &[String], _: bool, _: bool| Some(BrowserMeetProbe::NoMatch),
        )
    };
    assert_eq!(
        later(true, NOW + 20 * SEC - 1),
        call("Teams", "teams-web")
    );
    assert_eq!(
        later(false, NOW + 19 * SEC),
        DetectActiveCallResult::NoCall
    );
    assert_eq!(
        later(true, NOW + 20 * SEC),
        DetectActiveCallResult::NoCall
    );
}

#[test]
fn a_poll_takes_the_microphone_from_the_pids_where_it_can() {
    let mut detector = CallDetector::new(config(&["google-meet"]));
    let settings = detector.current_config();
    let nobody = HashSet::new();
    let (live, step) = detector.begin_poll(&settings, &[], Some(&nobody), true, NOW);
    assert!(!live);
    assert!(matches!(
        step,
        DetectionStep::Decided(DetectActiveCallResult::NoCall)
    ));
    detector.schedule_next_browser_probe(NOW);
    let (live, step) = detector.begin_poll(&settings, &[], None, true, NOW);
    assert!(live);
    assert!(matches!(
        step,
        DetectionStep::ProbeBrowsers {
            want_meet: true,
            want_teams: false
        }
    ));
    let (_, step) = detector.begin_poll(&settings, &[], None, true, NOW);
    assert!(matches!(step, DetectionStep::SkipBrowsers));
}

#[test]
fn the_microphone_activates_once() {
    let mut detector = CallDetector::new(config(&[]));
    assert!(!detector.note_mic_state(true));
    assert!(!detector.note_mic_state(true));
    assert!(!detector.note_mic_state(false));
    assert!(detector.note_mic_state(true));
}

#[test]
fn the_same_call_is_reminded_of_after_the_interval() {
    let mut detector = CallDetector::new(config(&["zoom.us"]));
    assert_eq!(
        detector.note_active_call("zoom.us", "Zoom", NOW),
        DetectionTransition::NewSession
    );
    let due = NOW + SAME_APP_REMINDER_SECS * SEC;
    assert_eq!(
        detector.note_active_call("zoom.us", "Zoom", due - 1),
        DetectionTransition::Noop
    );
    assert_eq!(
        detector.note_active_call("zoom.us", "Zoom", due),
        DetectionTransition::Reminder
    );
    assert_eq!(
        detector.note_active_call("zoom.us", "Zoom", due + 1),
        DetectionTransition::Noop
    );
    assert_eq!(detector.clear_active_call(), Some("zoom.us".to_string()));
    assert_eq!(detector.clear_active_call(), None);
}

#[test]
fn deadlines_do_not_overflow() {
    assert_eq!(deadline_after(u64::MAX, u64::MAX), u64::MAX as u128 * 1_000_000_001);
    assert!(elapsed(NOW, NOW + 3 * SEC, 3));
    assert!(!elapsed(NOW, NOW + 3 * SEC - 1, 3));
    assert!(!elapsed(NOW, NOW - SEC, 3));
}

#[test]
fn deadline_maps_hold_one_deadline_for_each_name() {
    let mut map = DeadlineMap::new();
    assert_eq!(map.get("a"), None);
    map.insert("a", 1);
    map.insert("b", 2);
    map.insert("a", 3);
    assert_eq!(map.get("a"), Some(3));
    assert_eq!(map.get("b"), Some(2));
    map.remove("a");
    map.remove("c");
    assert_eq!(map.get("a"), None);
    assert_eq!(map.get("b"), Some(2));
}

#[test]
fn microphone_reports_are_read() {
    assert!(mic_check_reports_live(" 1\n"));
    assert!(!mic_check_reports_live("0\n"));
    assert!(!mic_check_reports_live("11"));
    assert!(is_mic_in_use(Some("1\n"), Some("0")));
    assert!(!is_mic_in_use(Some("0\n"), Some("1")));
    assert!(is_mic_in_use(None, Some("1")));
    assert!(!is_mic_in_use(None, None));
    assert_eq!(
        active_input_pids_from_output("12\n\n 34 \r\n12\n"),
        Some(HashSet::from([12, 34]))
    );
    assert_eq!(active_input_pids_from_output("\n"), Some(HashSet::new()));
    assert_eq!(active_input_pids_from_output("12\nerror\n34\n"), None);
    assert_eq!(mic_live_from_pids(Some(&HashSet::from([1]))), Some(true));
    assert_eq!(mic_live_from_pids(Some(&HashSet::new())), Some(false));
    assert_eq!(mic_live_from_pids(None), None);
}

#[test]
fn polls_are_skipped_while_something_else_records() {
    let mut settings = config(&["zoom.us"]);
    let mut detector = CallDetector::new(config(&["zoom.us"]));
    detector.note_active_call("zoom.us", "Zoom", NOW);
    assert_eq!(
        detector.gate_poll(&settings, true, false, false),
        PollGate::Skip
    );
    assert!(detector.active_call_snapshot().is_some());
    assert_eq!(
        detector.gate_poll(&settings, true, false, true),
        PollGate::Skip
    );
    assert_eq!(
        detector.gate_poll(&settings, false, false, false),
        PollGate::Detect
    );
    assert_eq!(
        detector.gate_poll(&settings, false, true, false),
        PollGate::Skip
    );
    assert!(detector.active_call_snapshot().is_none());
    settings.stop_when_call_ends = true;
    assert_eq!(
        detector.gate_poll(&settings, true, true, true),
        PollGate::Detect
    );
    detector.note_active_call("zoom.us", "Zoom", NOW);
    assert_eq!(detector.poll_disabled(), Some("zoom.us".to_string()));
    assert!(detector.active_call_snapshot().is_none());
}

#[test]
fn a_poll_announces_a_call_once_and_reminds_of_it() {
    let settings = config(&["zoom.us"]);
    let mut detector = CallDetector::new(config(&["zoom.us"]));
    let mut handles = CallEndAutoStopHandles::new();
    let mut poll = |now: u64| {
        detector.on_poll_result(
            &mut handles,
            &settings,
            false,
            false,
            call("Zoom", "zoom.us"),
            now,
        )
    };
    let announced = CallDetectedPayload {
        app_name: "Zoom".into(),
        process_name: "zoom.us".into(),
        is_reminder: false,
    };
    assert!(matches!(poll(NOW), PollAction::Announce(p) if p == announced));
    assert!(matches!(poll(NOW + SEC), PollAction::Nothing));
    assert!(matches!(poll(NOW + 20 * SEC), PollAction::Announce(p) if p.is_reminder));
}

#[test]
fn a_poll_warns_of_a_browser_that_may_not_be_controlled() {
    let settings = config(&["google-meet"]);
    let mut detector = CallDetector::new(config(&["google-meet"]));
    detector.note_active_call("zoom.us", "Zoom", NOW);
    let mut handles = CallEndAutoStopHandles::new();
    let action = detector.on_poll_result(
        &mut handles,
        &settings,
        false,
        false,
        DetectActiveCallResult::PermissionWarning {
            browser_app: "Arc".into(),
        },
        NOW,
    );
    assert!(matches!(
        action,
        PollAction::WarnPermission { title, body }
            if title == "Browser meeting detection needs access"
            && body == "Allow Minutes to control Arc in System Settings > Privacy & Security > Automation so Meet and Teams detection can see browser tabs."
    ));
    assert!(detector.active_call_snapshot().is_none());
}

fn ended_call() -> (CallDetector, CallDetectionConfig, CallEndAutoStopHandles) {
    let mut settings = config(&["zoom.us"]);
    settings.stop_when_call_ends = true;
    settings.call_end_stop_countdown_secs = 0;
    let mut detector = CallDetector::new(settings.clone());
    detector.note_active_call("zoom.us", "Zoom", NOW);
    let mut handles = CallEndAutoStopHandles::new();
    handles.recording_started_by_call_detect = true;
    let action = detector.on_poll_result(
        &mut handles,
        &settings,
        true,
        true,
        DetectActiveCallResult::NoCall,
        NOW + SEC,
    );
    assert!(matches!(
        action,
        PollAction::StartCountdown(p)
            if p.app_name == "Zoom" && p.process_name == "zoom.us" && p.countdown_secs == 1
    ));
    assert!(handles.countdown_active);
    (detector, settings, handles)
}

#[test]
fn an_ended_call_stops_its_recording_when_time_is_up() {
    let (mut detector, settings, mut handles) = ended_call();
    assert!(matches!(
        detector.on_poll_result(
            &mut handles,
            &settings,
            true,
            true,
            DetectActiveCallResult::NoCall,
            NOW + 2 * SEC
        ),
        PollAction::Nothing
    ));
    assert_eq!(
        tick_call_end_countdown(&mut handles, true, 999, 1),
        CountdownTick::Waiting
    );
    assert!(!handles.stop_flag);
    assert_eq!(
        tick_call_end_countdown(&mut handles, true, 1000, 1),
        CountdownTick::Fired
    );
    assert!(handles.stop_flag && !handles.recording_started_by_call_detect);
    assert!(!handles.countdown_active);
    assert_eq!(
        handles.countdown_terminal_state,
        CallEndCountdownTerminalState::AutoStopFired
    );
    assert!(matches!(
        detector.on_poll_result(
            &mut handles,
            &settings,
            true,
            true,
            DetectActiveCallResult::NoCall,
            NOW + 3 * SEC
        ),
        PollAction::Nothing
    ));
    assert!(detector.active_call_snapshot().is_none());
}

#[test]
fn a_call_that_comes_back_is_not_stopped() {
    let (mut detector, settings, mut handles) = ended_call();
    assert!(matches!(
        detector.on_poll_result(
            &mut handles,
            &settings,
            true,
            true,
            call("Zoom", "zoom.us"),
            NOW + 2 * SEC
        ),
        PollAction::Nothing
    ));
    assert_eq!(
        tick_call_end_countdown(&mut handles, true, 5000, 1),
        CountdownTick::Cancelled {
            reason: CallEndCountdownTerminalState::NotEnded
        }
    );
    assert!(!handles.stop_flag && !handles.countdown_active);
    assert!(matches!(
        detector.on_poll_result(
            &mut handles,
            &settings,
            true,
            true,
            DetectActiveCallResult::NoCall,
            NOW + 4 * SEC
        ),
        PollAction::StartCountdown(_)
    ));
}

#[test]
fn an_orphaned_countdown_is_armed_again() {
    let (mut detector, settings, mut handles) = ended_call();
    handles.countdown_active = false;
    handles.countdown_cancel = true;
    assert!(matches!(
        detector.on_poll_result(
            &mut handles,
            &settings,
            true,
            true,
            DetectActiveCallResult::NoCall,
            NOW + 2 * SEC
        ),
        PollAction::StartCountdown(_)
    ));
    assert!(handles.countdown_active && !handles.countdown_cancel);
}

#[test]
fn a_countdown_whose_recording_ended_stops_nothing() {
    let (_, _, mut handles) = ended_call();
    assert_eq!(
        tick_call_end_countdown(&mut handles, false, 5000, 1),
        CountdownTick::RecordingStopped
    );
    assert!(!handles.stop_flag && !handles.countdown_active && handles.countdown_cancel);
    assert_eq!(
        handles.countdown_terminal_state,
        CallEndCountdownTerminalState::RecordingStopped
    );
}

#[test]
fn arming_during_a_countdown_changes_nothing() {
    let (_, _, mut handles) = ended_call();
    let before = handles;
    assert!(arm_call_end_countdown(&mut handles, "Zoom", "zoom.us", 30).is_none());
    assert_eq!(handles, before);
}

#[test]
fn settings_are_copied_and_replaced() {
    let mut detector = CallDetector::new(config(&["zoom.us"]));
    let mut latest = config(&["Slack"]);
    latest.poll_interval_secs = 0;
    detector.reload_config(latest);
    let copy = detector.current_config();
    assert_eq!(copy.apps, vec!["Slack"]);
    assert_eq!(copy.poll_interval(), 1);
    assert!(copy.lists_app("Slack"));
    assert!(!copy.lists_app("slack"));
}
