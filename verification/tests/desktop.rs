use minutes_app::calendar::{
    calendar_item_id, format_calendar_label, refresh_calendar_items, CalendarBreaker,
    CalendarEvent, NotifiedTitles,
};
use minutes_app::meeting_prompts::{prompt_url, PendingPrompts, MAX_PENDING};
use minutes_app::menu_bar::{
    build_app_menu, menu_action, windows_before_main, AppMenuItem, MenuAction, MenuEntry,
    SubmenuTitle,
};
use minutes_app::notifications::{
    sensitive_label_after, sensitive_notification, task_notification, TrayTask,
};
use minutes_app::startup::{
    acceptance_request, bundle_root, diagnostic_exit_code, dictation_shortcut, hotkey_diagnostic,
    is_queue_worker, route_shortcut, shortcut_or_default, worker_exit_code, AcceptanceRequest,
    HotkeyDiagnostic, ShortcutRoute, APPLE_SPEECH_RUNTIME_ACCEPTANCE_ARG, DEFAULT_LIVE_SHORTCUT,
};
use minutes_app::tray::{
    after_stop, current_tray_appearance, render_tray, sync_tray_appearance, sync_tray_state,
    tray_may_start_recording, AfterStop, StopRoute, Theme, TrayActivity, TrayAppearance,
    TrayAppearanceState, TrayIcon, TrayStateSnapshot,
};
use minutes_app::tray_menu::{
    rebuild_localized_shell, tray_action, tray_menu, ShellState, TrayAction, TrayEntry, TrayItem,
    TrayMenuOptions,
};
use minutes_app::updates::{
    decide_update, deferred_polls, is_development_build, SessionFlags, UpdateCheck,
};
use minutes_app::watcher::{
    event_refreshes_meetings, is_content_change, rebind_watcher, should_refresh_meetings_for_paths,
    file_event, watch_step, FileChange, FileEventKind, Rebind, WatchAction, WatchEvent,
    WatchState, BURST_QUIET_MILLIS, WATCH_WAIT_MILLIS,
};
use minutes_app::windows::{
    on_exit_requested, react_to_window_event, reveal_window, terminal_title_event,
    terminal_window_label, terminal_window_url, AfterStopRequest, CleanExit, CleanExitStep,
    ExitReaction, RevealStep, WindowEventKind, WindowReaction,
};

fn event(title: &str, minutes_until: i64) -> CalendarEvent {
    CalendarEvent {
        title: title.into(),
        minutes_until,
        url: None,
    }
}

fn strings(list: &[&str]) -> Vec<String> {
    list.iter().map(|s| s.to_string()).collect()
}

#[test]
fn calendar_labels_say_how_long_it_is() {
    for (minutes, label) in [
        (i64::MIN, "Standup · now"),
        (-3, "Standup · now"),
        (0, "Standup · now"),
        (1, "Standup · in 1 min"),
        (2, "Standup · in 2 min"),
        (59, "Standup · in 59 min"),
        (60, "Standup · in 1h"),
        (61, "Standup · in 1h 1m"),
        (240, "Standup · in 4h"),
        (i64::MAX, "Standup · in 153722867280912930h 7m"),
    ] {
        assert_eq!(format_calendar_label(&event("Standup", minutes)), label);
    }
}

#[test]
fn meetings_are_prompted_for_once_and_shown() {
    let mut notified = NotifiedTitles::new();
    let events = vec![
        event("Over", -2),
        event("Now", 0),
        event("Soon", 3),
        event("Soon", 2),
        event("Later", 4),
        event("Evening", 200),
    ];
    let plan = refresh_calendar_items(&mut notified, &events, true);
    assert!(!plan.access_warning && plan.separator);
    assert_eq!(plan.prompts, vec![1, 2]);
    assert_eq!(
        plan.labels,
        vec!["Now · now", "Soon · in 3 min", "Soon · in 2 min"]
    );
    assert!(notified.contains("Now") && notified.contains("Soon"));
    assert!(!notified.contains("Later"));

    let events = vec![event("Now", -5), event("Soon", -6), event("Later", 1)];
    let plan = refresh_calendar_items(&mut notified, &events, true);
    assert_eq!(plan.prompts, vec![2]);
    assert!(notified.contains("Now") && !notified.contains("Soon") && notified.contains("Later"));

    let plan = refresh_calendar_items(&mut notified, &[event("Later", 0)], true);
    assert!(plan.prompts.is_empty());
}

#[test]
fn a_calendar_that_may_not_be_read_says_so() {
    let mut notified = NotifiedTitles::new();
    let plan = refresh_calendar_items(&mut notified, &[], false);
    assert!(plan.access_warning && plan.labels.is_empty() && !plan.separator);
    assert!(!refresh_calendar_items(&mut notified, &[], true).access_warning);
    assert!(!refresh_calendar_items(&mut notified, &[event("x", 9)], false).access_warning);
    assert_eq!(calendar_item_id(2), "cal-2");
}

#[test]
fn a_calendar_that_hangs_is_asked_less_often() {
    let mut breaker = CalendarBreaker::new();
    assert_eq!(breaker.wait_before_refresh(), None);
    breaker.refreshed(2000);
    assert_eq!(breaker.wait_before_refresh(), None);
    breaker.refreshed(2500);
    for secs in [300, 600, 1200, 1800, 1800] {
        assert_eq!(breaker.wait_before_refresh(), Some(secs));
        breaker.refreshed(3000);
    }
    breaker.refreshed(1999);
    assert_eq!(breaker, CalendarBreaker::new());
}

#[test]
fn prompts_are_drained_by_their_token() {
    let mut pending = PendingPrompts::new();
    let mut first = event("First", 3);
    first.url = Some("https://x".into());
    let mut second = event("Second", 2);
    second.url = Some("".into());
    let a = pending.stage_for(&first, false).unwrap();
    let b = pending.stage_for(&second, false).unwrap();
    assert_eq!(pending.stage_for(&first, true), None);
    assert_eq!((a, b, pending.len()), (0, 1, 2));
    let shown = pending.take(b).unwrap();
    assert_eq!((shown.title.as_str(), shown.minutes_until), ("Second", 2));
    assert_eq!(shown.url, None);
    assert_eq!(pending.take(b), None);
    assert_eq!(pending.take(a).unwrap().url.as_deref(), Some("https://x"));
    assert_eq!(prompt_url(17), "meeting-prompt.html?t=17");
}

#[test]
fn the_oldest_prompts_go_first() {
    let mut pending = PendingPrompts::new();
    let mut tokens = vec![];
    for n in 0..(MAX_PENDING as i64 + 3) {
        tokens.push(pending.stage_for(&event("m", n), false).unwrap());
        assert!(pending.len() <= MAX_PENDING);
    }
    assert_eq!(pending.len(), MAX_PENDING);
    for token in &tokens[..3] {
        assert_eq!(pending.take(*token), None);
    }
    assert_eq!(pending.take(tokens[3]).unwrap().minutes_until, 3);
    assert_eq!(pending.take(tokens[18]).unwrap().minutes_until, 18);
}

#[test]
fn every_line_of_the_menu_bar_does_something() {
    for macos in [true, false] {
        let menu = build_app_menu(macos);
        for entry in &menu {
            if let MenuEntry::Item(item) = entry {
                assert!(
                    !matches!(menu_action(item.id()), MenuAction::Nothing),
                    "{item:?}"
                );
            }
        }
        assert!(menu.contains(&MenuEntry::Item(AppMenuItem::Quit)));
        assert_eq!(
            menu.contains(&MenuEntry::Submenu(SubmenuTitle::AppName)),
            macos
        );
        assert_eq!(menu.contains(&MenuEntry::Submenu(SubmenuTitle::View)), macos);
    }
    assert_eq!(SubmenuTitle::Help.label(), Some("Help"));
    assert_eq!(SubmenuTitle::AppName.label(), None);
    assert_eq!(build_app_menu(true).len(), 40);
    assert_eq!(build_app_menu(false).len(), 26);
    assert!(matches!(menu_action("unknown"), MenuAction::Nothing));
    assert!(matches!(
        menu_action("app-show-about"),
        MenuAction::ShowAndEmit {
            event: "minutes://show-about"
        }
    ));
    assert!(matches!(
        menu_action("help-open-discussions"),
        MenuAction::OpenUrl {
            url: "https://github.com/silverstein/minutes/discussions",
            title: "Discussions"
        }
    ));
    assert!(matches!(
        menu_action("calendar-access-warning"),
        MenuAction::OpenCalendarPrivacy
    ));
    assert_eq!(AppMenuItem::Quit.accelerator(true), Some("Cmd+Q"));
    assert_eq!(AppMenuItem::Quit.accelerator(false), None);
    assert_eq!(AppMenuItem::ShowWhatsNew.label(), "What’s New…");
}

#[test]
fn windows_come_to_the_front_in_the_order_of_their_labels() {
    assert_eq!(
        windows_before_main(&strings(&["palette", "main", "note", "Zeta", "zażółć", "note-2"])),
        strings(&["Zeta", "note", "note-2", "palette", "zażółć"])
    );
    assert!(windows_before_main(&strings(&["main"])).is_empty());
}

#[test]
fn every_line_of_the_tray_does_something() {
    for flags in 0u8..8 {
        let options = TrayMenuOptions {
            recording: flags & 1 != 0,
            voice: flags & 2 != 0,
            artifact_copy: flags & 4 != 0,
        };
        let menu = tray_menu(options);
        let mut items = 0;
        for entry in &menu {
            if let TrayEntry::Item { item, .. } = entry {
                items += 1;
                assert_ne!(tray_action(item.id()), TrayAction::Nothing, "{item:?}");
            }
        }
        let expected = 16 + options.voice as usize + 2 * options.artifact_copy as usize;
        assert_eq!(items, expected);
        assert_eq!(menu.len(), expected + 3);
        assert!(menu.contains(&TrayEntry::Item {
            item: TrayItem::Stop,
            enabled: options.recording
        }));
        assert!(menu.contains(&TrayEntry::Item {
            item: TrayItem::Record,
            enabled: !options.recording
        }));
    }
    assert_eq!(tray_action("cal-2"), TrayAction::StartRecording);
    assert_eq!(tray_action("cal-3"), TrayAction::Nothing);
    assert_eq!(tray_action("sep1"), TrayAction::Nothing);
    assert_eq!(tray_action("paste-transcript"), TrayAction::CopyLatestTranscript);
}

#[test]
fn labels_follow_the_state_after_a_switch_of_language() {
    let labels = rebuild_localized_shell(ShellState {
        copilot: true,
        voice: false,
        mic_muted: true,
        hidden_from_screen_share: false,
    });
    assert_eq!(labels.len(), 18);
    for (item, label) in [
        (TrayItem::Open, "Open Minutes"),
        (TrayItem::Coach, "Coach ✓"),
        (TrayItem::Voice, "Voice"),
        (TrayItem::MicMute, "Mute My Mic (Recording Only) ✓"),
        (TrayItem::ScreenShare, "Hide from Screen Share"),
        (TrayItem::Assistant, "Recall"),
        (TrayItem::Quit, "Quit Minutes"),
    ] {
        assert!(labels.contains(&(item, label)), "{item:?}");
    }
    assert!(!labels.iter().any(|(item, _)| *item == TrayItem::Stop));
}

#[test]
fn trays_are_rendered_for_their_activity() {
    let mut snapshot = TrayStateSnapshot::idle();
    let idle = render_tray(snapshot, TrayAppearance::Dark, true);
    assert_eq!(idle.icon, TrayIcon::Tray);
    assert!(idle.icon_as_template && idle.record_enabled && !idle.stop_enabled);
    assert_eq!(idle.tooltip, "Minutes");
    let refresh = idle.palette_refresh.unwrap();
    assert_eq!((refresh.source, refresh.active), ("idle", false));

    snapshot.voice = true;
    snapshot.copilot = true;
    let voice = sync_tray_state(snapshot, TrayAppearance::Dark);
    assert_eq!(voice.icon, TrayIcon::LiveDark);
    assert!(!voice.record_enabled && !voice.quick_thought_enabled && voice.stop_enabled);
    assert!(!voice.paste_last_dictation_enabled && !voice.reprocess_last_dictation_enabled);
    assert_eq!(voice.stop_label, "Close Voice");
    assert_eq!((voice.coach_label, voice.voice_label), ("Coach ✓", "Voice ✓"));
    assert_eq!(voice.palette_refresh.unwrap().source, "voice");
    assert_eq!(voice.tooltip, "Minutes — Voice Session...");

    snapshot.voice = false;
    let coach = sync_tray_appearance(snapshot, TrayAppearance::Light);
    assert!(coach.record_enabled && coach.stop_enabled && coach.palette_refresh.is_none());
    assert_eq!(coach.icon.file_name(), "icon-live.png");
}

#[test]
fn appearances_are_read_back() {
    let mut state = TrayAppearanceState::new(TrayAppearance::Dark);
    assert_eq!(state.get(), TrayAppearance::Dark);
    state.set(TrayAppearance::Light);
    assert_eq!(state.get(), TrayAppearance::Light);
    assert_eq!(TrayAppearanceState(9).get(), TrayAppearance::Light);
    assert_eq!(current_tray_appearance(None), TrayAppearance::Light);
    state.set(TrayAppearance::Dark);
    assert_eq!(current_tray_appearance(Some(&state)), TrayAppearance::Dark);
    assert_eq!(
        TrayAppearance::from_theme(Theme::Other),
        TrayAppearance::Light
    );
    assert_eq!(
        TrayAppearance::from_known_theme(None),
        TrayAppearance::Light
    );
}

#[test]
fn voice_stops_and_labels_like_the_rest() {
    assert_eq!(TrayActivity::Voice.stop_label(), "Close Voice");
    assert_eq!(TrayActivity::Voice.palette_source(), "voice");
    assert_eq!(TrayActivity::Dictation.tooltip(), "Minutes — Dictating...");
    assert_eq!(after_stop(StopRoute::Recording, true), AfterStop::WaitForRecording);
    assert_eq!(after_stop(StopRoute::Live, true), AfterStop::ResetTexts);
    assert_eq!(after_stop(StopRoute::Live, false), AfterStop::Nothing);
    assert_eq!(after_stop(StopRoute::Nothing, true), AfterStop::Nothing);
    assert!(tray_may_start_recording(false, false));
    assert!(!tray_may_start_recording(true, false));
    assert!(!tray_may_start_recording(false, true));
}

const QUIET: SessionFlags = SessionFlags {
    recording: false,
    starting: false,
    processing: false,
    live_transcript: false,
    dictation: false,
};

#[test]
fn updates_wait_for_the_session() {
    let found = UpdateCheck::Available {
        version: "2.0".into(),
    };
    let busy = SessionFlags {
        processing: true,
        ..QUIET
    };
    let now = decide_update(&found, true, Some(QUIET));
    assert!(now.announce && now.show_main_window && now.remember && now.notification.is_none());
    let quiet = decide_update(&found, false, Some(QUIET));
    assert!(quiet.announce && !quiet.show_main_window);
    let deferred = decide_update(&found, true, Some(busy));
    assert!(!deferred.announce && !deferred.show_main_window && deferred.remember);
    let note = deferred.notification.unwrap();
    assert_eq!(note.title, "Update available");
    assert_eq!(
        note.body,
        "Minutes 2.0 is ready. Finish the current session and the update banner will appear."
    );
    assert!(decide_update(&found, false, Some(busy)).notification.is_none());
    assert!(!decide_update(&found, false, None).remember);
}

#[test]
fn only_those_who_asked_are_told_of_a_check() {
    for (check, body) in [
        (UpdateCheck::UpToDate, "Minutes is up to date."),
        (
            UpdateCheck::InitFailed { error: "a".into() },
            "Could not initialize the updater: a",
        ),
        (
            UpdateCheck::CheckFailed { error: "b".into() },
            "Could not check for updates: b",
        ),
    ] {
        let asked = decide_update(&check, true, Some(QUIET));
        let note = asked.notification.unwrap();
        assert_eq!((note.title.as_str(), note.body.as_str()), ("Updates", body));
        assert!(!asked.announce && !asked.remember && !asked.show_main_window);
        assert!(decide_update(&check, false, Some(QUIET)).notification.is_none());
    }
    assert_eq!(deferred_polls(), 720);
    assert!(is_development_build("com.useminutes.dev"));
    assert!(!is_development_build("com.useminutes.desktop"));
}

#[test]
fn meetings_refresh_for_content_of_notes_only() {
    let names = |list: &[&str]| -> Vec<Option<String>> {
        list.iter().map(|name| Some(name.to_string())).collect()
    };
    let note = vec![Some("a.txt".to_string()), None, Some("2024.call.Md".to_string())];
    let other = names(&["a.markdown", "md", ".md", "a.md.tmp", "a.", ""]);
    assert!(should_refresh_meetings_for_paths(&note));
    assert!(should_refresh_meetings_for_paths(&names(&["..md"])));
    assert!(!should_refresh_meetings_for_paths(&other));
    assert!(!should_refresh_meetings_for_paths(&[]));
    for kind in [
        FileEventKind::Any,
        FileEventKind::Create,
        FileEventKind::Modify(FileChange::Any),
        FileEventKind::Modify(FileChange::Data),
        FileEventKind::Modify(FileChange::Name),
        FileEventKind::Modify(FileChange::Other),
        FileEventKind::Remove,
        FileEventKind::Other,
    ] {
        assert!(is_content_change(kind));
        assert!(event_refreshes_meetings(kind, &note));
        assert!(!event_refreshes_meetings(kind, &other));
    }
    for kind in [
        FileEventKind::Access,
        FileEventKind::Modify(FileChange::Metadata),
    ] {
        assert!(!is_content_change(kind));
        assert!(!event_refreshes_meetings(kind, &note));
    }
}

#[test]
fn the_watcher_follows_the_configured_folder() {
    let path = |parts: &[&str]| -> Vec<Vec<u8>> {
        parts.iter().map(|part| part.as_bytes().to_vec()).collect()
    };
    let folder = path(&["/", "home", "meetings"]);
    assert_eq!(rebind_watcher(&folder, &folder), Rebind::Keep);
    assert_eq!(
        rebind_watcher(&path(&["/", "home", "notes"]), &folder),
        Rebind::Rebind
    );
    assert_eq!(rebind_watcher(&path(&["/", "home"]), &folder), Rebind::Rebind);
}

const WAIT: WatchAction = WatchAction::Wait { millis: WATCH_WAIT_MILLIS };
const DRAIN: WatchAction = WatchAction::Wait { millis: BURST_QUIET_MILLIS };

fn folder(name: &str) -> Vec<Vec<u8>> {
    vec![b"/".to_vec(), name.as_bytes().to_vec()]
}

/// A watcher of the folder `a` that waits for an event.
fn waiting_watcher() -> WatchState {
    let state = WatchState::new(folder("a"));
    assert_eq!(state.action(), WatchAction::Bind);
    let (state, action) = watch_step(state, WatchEvent::Bound);
    assert_eq!(action, WatchAction::LookAtFolder);
    let (state, action) = watch_step(state, WatchEvent::Configured(folder("a")));
    assert_eq!(action, WAIT);
    state
}

#[test]
fn a_burst_of_events_is_told_of_once() {
    assert_eq!((WATCH_WAIT_MILLIS, BURST_QUIET_MILLIS), (2000, 250));
    for end in [WatchEvent::Quiet, WatchEvent::Error, WatchEvent::Closed] {
        let mut state = waiting_watcher();
        let mut action;
        for event in [WatchEvent::Hit, WatchEvent::Hit, WatchEvent::Miss, WatchEvent::Hit] {
            (state, action) = watch_step(state, event);
            assert_eq!(action, DRAIN);
        }
        (state, action) = watch_step(state, end);
        assert_eq!(action, WatchAction::Notify);
        assert_eq!(watch_step(state, WatchEvent::Told).1, WatchAction::LookAtFolder);
    }
    for nothing in [WatchEvent::Miss, WatchEvent::Quiet, WatchEvent::Error] {
        let (_, action) = watch_step(waiting_watcher(), nothing);
        assert_eq!(action, WatchAction::LookAtFolder);
    }
    assert_eq!(watch_step(waiting_watcher(), WatchEvent::Closed).1, WatchAction::Leave);
    let note = [Some("a.md".to_string())];
    assert!(matches!(file_event(FileEventKind::Create, &note), WatchEvent::Hit));
    assert!(matches!(file_event(FileEventKind::Access, &note), WatchEvent::Miss));
}

#[test]
fn only_a_bound_folder_takes_the_place_of_the_watched_one() {
    let rebinding = || {
        let (state, _) = watch_step(waiting_watcher(), WatchEvent::Quiet);
        let (state, action) = watch_step(state, WatchEvent::Configured(folder("b")));
        assert_eq!(action, WatchAction::Rebind);
        assert_eq!(state.watched, folder("a"));
        state
    };
    let (state, action) = watch_step(rebinding(), WatchEvent::Bound);
    assert_eq!(action, WatchAction::Adopt);
    assert_eq!(state.watched, folder("b"));
    assert_eq!(watch_step(state, WatchEvent::Told).1, WAIT);
    let (state, action) = watch_step(rebinding(), WatchEvent::BindFailed);
    assert_eq!(action, WAIT);
    assert_eq!(state.watched, folder("a"));
    let (state, _) = watch_step(state, WatchEvent::Quiet);
    let (_, action) = watch_step(state, WatchEvent::Configured(folder("b")));
    assert_eq!(action, WatchAction::Rebind);
    let (_, action) = watch_step(WatchState::new(folder("a")), WatchEvent::BindFailed);
    assert_eq!(action, WatchAction::Leave);
}

#[test]
fn show_main_window_restores_minimized_window_before_focus() {
    assert_eq!(
        reveal_window(Some(false), Some(true), Some(false)),
        vec![RevealStep::Show, RevealStep::Unminimize, RevealStep::Focus]
    );
    assert_eq!(
        reveal_window(None, None, None),
        vec![RevealStep::Show, RevealStep::Focus]
    );
    assert!(reveal_window(Some(true), Some(false), Some(true)).is_empty());
}

#[test]
fn terminals_are_labelled_by_their_session() {
    assert_eq!(terminal_window_label("a:b:ü"), "a-b-ü");
    assert_eq!(terminal_window_url("a:b"), "terminal.html#a:b");
    assert_eq!(terminal_title_event("a:b"), "terminal:title:a:b");
}

#[test]
fn windows_react_by_their_label() {
    let react = react_to_window_event;
    assert_eq!(
        react("main", WindowEventKind::CloseRequested, false),
        WindowReaction::HideInsteadOfClosing
    );
    assert_eq!(
        react("note", WindowEventKind::CloseRequested, false),
        WindowReaction::Nothing
    );
    assert_eq!(
        react("palette", WindowEventKind::FocusLost, true),
        WindowReaction::ClosePalette
    );
    assert_eq!(
        react("palette", WindowEventKind::FocusLost, false),
        WindowReaction::Nothing
    );
    assert_eq!(
        react("main", WindowEventKind::ThemeChanged(Theme::Dark), false),
        WindowReaction::Repaint(TrayAppearance::Dark)
    );
    assert_eq!(
        react("note", WindowEventKind::ThemeChanged(Theme::Dark), false),
        WindowReaction::Nothing
    );
    assert_eq!(
        react("main", WindowEventKind::Other, true),
        WindowReaction::Nothing
    );
}

#[test]
fn exits_are_clean_and_happen_once() {
    assert_eq!(on_exit_requested(Some(7), 7), ExitReaction::CleanUp);
    assert_eq!(
        on_exit_requested(Some(3), 7),
        ExitReaction::ExitCleanly { code: 3 }
    );
    assert_eq!(
        on_exit_requested(None, 7),
        ExitReaction::ExitCleanly { code: 0 }
    );
    let mut exit = CleanExit::new();
    assert_eq!(exit.request(true), CleanExitStep::StopRecording);
    assert_eq!(exit.request(true), CleanExitStep::AlreadyStarted);
    assert_eq!(exit.stop_requested(false), AfterStopRequest::Abandoned);
    assert_eq!(exit.request(true), CleanExitStep::StopRecording);
    assert_eq!(exit.stop_requested(true), AfterStopRequest::WaitThenFinish);
    assert_eq!(exit.request(false), CleanExitStep::AlreadyStarted);
    assert_eq!(CleanExit::new().request(false), CleanExitStep::Finish);
}

#[test]
fn acceptance_runs_take_no_further_arguments() {
    let flag = APPLE_SPEECH_RUNTIME_ACCEPTANCE_ARG;
    assert_eq!(
        acceptance_request(&[], flag),
        AcceptanceRequest::NotRequested
    );
    assert_eq!(
        acceptance_request(&strings(&["x", flag]), flag),
        AcceptanceRequest::NotRequested
    );
    assert_eq!(
        acceptance_request(&strings(&[flag, "x"]), flag),
        AcceptanceRequest::Refused { code: 64 }
    );
    assert_eq!(
        acceptance_request(&strings(&[flag]), flag),
        AcceptanceRequest::Run
    );
    assert!(is_queue_worker(&strings(&["a", "--process-queue-worker"])));
    assert!(!is_queue_worker(&strings(&["--process-queue-worker=1"])));
    assert_eq!((worker_exit_code(true), worker_exit_code(false)), (0, 1));
}

#[test]
fn hotkey_diagnostics_are_read_from_the_arguments() {
    let read = |args: &[&str]| hotkey_diagnostic(&strings(args), true, 57, 63);
    assert_eq!(read(&["--diagnose"]), None);
    assert_eq!(
        read(&["--diagnose-hotkey"]),
        Some(HotkeyDiagnostic {
            keycode: 57,
            output_path: None
        })
    );
    assert_eq!(
        hotkey_diagnostic(&strings(&["--diagnose-hotkey"]), false, 57, 63)
            .unwrap()
            .keycode,
        63
    );
    assert_eq!(
        read(&[
            "--diagnose-hotkey-keycode",
            "-12",
            "--diagnose-hotkey",
            "--diagnose-hotkey-output=/tmp/a",
            "--diagnose-hotkey-output",
            "/tmp/b"
        ]),
        Some(HotkeyDiagnostic {
            keycode: -12,
            output_path: Some("/tmp/b".into())
        })
    );
    assert_eq!(
        read(&[
            "--diagnose-hotkey",
            "--diagnose-hotkey-keycode=9",
            "--diagnose-hotkey-keycode",
            "--diagnose-hotkey-output",
            "--diagnose-hotkey-output"
        ]),
        Some(HotkeyDiagnostic {
            keycode: 9,
            output_path: None
        })
    );
}

#[test]
fn bundles_are_found_above_the_binary() {
    assert_eq!(
        bundle_root("/Applications/Minutes.app/Contents/MacOS/minutes-app").as_deref(),
        Some("/Applications/Minutes.app")
    );
    assert_eq!(bundle_root("/usr/bin/minutes-app"), None);
    assert_eq!(diagnostic_exit_code("active"), 0);
    assert_eq!(diagnostic_exit_code("denied"), 2);
}

#[test]
fn shortcuts_are_restored_and_routed() {
    assert_eq!(
        dictation_shortcut(true, true, 63, "X"),
        Some(("fn".into(), 63))
    );
    assert_eq!(
        dictation_shortcut(true, false, 57, "X"),
        Some(("CapsLock".into(), 57))
    );
    assert_eq!(
        dictation_shortcut(true, false, 1, "X"),
        Some(("CapsLock".into(), 1))
    );
    assert_eq!(
        dictation_shortcut(false, true, 63, "X"),
        Some(("X".into(), -1))
    );
    assert_eq!(dictation_shortcut(false, false, 63, "X"), None);
    assert_eq!(
        shortcut_or_default("", DEFAULT_LIVE_SHORTCUT),
        "CmdOrCtrl+Shift+L"
    );
    assert_eq!(shortcut_or_default("A", DEFAULT_LIVE_SHORTCUT), "A");
    assert_eq!(
        route_shortcut(1, Some(1), Some(1), Some(1)),
        ShortcutRoute::Dictation
    );
    assert_eq!(
        route_shortcut(1, None, Some(1), Some(1)),
        ShortcutRoute::LiveTranscript
    );
    assert_eq!(
        route_shortcut(1, Some(2), None, Some(1)),
        ShortcutRoute::Palette
    );
    assert_eq!(
        route_shortcut(1, None, None, None),
        ShortcutRoute::GlobalHotkey
    );
}

#[test]
fn tasks_are_told_of_under_their_titles() {
    let ok = |task: TrayTask| task_notification(task, Ok("done".into())).map(|n| (n.title, n.body));
    let failed = |task: TrayTask| {
        let n = task_notification(task, Err("why".into())).unwrap();
        assert_eq!(n.body, "why");
        n.title
    };
    for (task, success, failure) in [
        (TrayTask::CopyLastDictation, Some("Last dictation"), "Last dictation"),
        (TrayTask::PasteLastDictation, Some("Last dictation"), "Last dictation"),
        (
            TrayTask::ReprocessLastDictation,
            Some("Recovered dictation"),
            "Dictation recovery",
        ),
        (TrayTask::CopyLatestSummary, Some("Latest summary"), "Latest summary"),
        (
            TrayTask::CopyLatestTranscript,
            Some("Latest transcript"),
            "Latest transcript",
        ),
        (TrayTask::ToggleCoach, None, "Coach"),
        (TrayTask::ToggleVoice, None, "Voice"),
        (TrayTask::OpenAssistant, None, "AI Assistant"),
        (TrayTask::OpenMeetingsFolder, None, "Meetings"),
    ] {
        assert_eq!(
            ok(task),
            success.map(|title| (title.to_string(), "done".to_string()))
        );
        assert_eq!(failed(task), failure);
    }
}

#[test]
fn sensitive_meetings_are_told_of() {
    let told = |was_active: bool, result: Result<Option<&str>, &str>| {
        let n = sensitive_notification(
            was_active,
            result.map(|d| d.map(str::to_string)).map_err(str::to_string),
        );
        (n.title, n.body)
    };
    let pair = |title: &str, body: &str| (title.to_string(), body.to_string());
    assert_eq!(
        told(true, Ok(Some("/m.md"))),
        pair("Sensitive meeting saved", "/m.md")
    );
    assert_eq!(told(true, Ok(None)), pair("Sensitive meeting saved", "Saved."));
    assert_eq!(
        told(false, Ok(Some("Board"))),
        pair("Sensitive meeting started", "Board")
    );
    assert_eq!(
        told(false, Ok(None)),
        pair("Sensitive meeting started", "Sensitive meeting")
    );
    assert_eq!(told(true, Err("no")), pair("Sensitive meeting", "no"));
    assert_eq!(sensitive_label_after(true, true), Some("Sensitive Meeting"));
    assert_eq!(
        sensitive_label_after(false, true),
        Some("Stop Sensitive Meeting")
    );
    assert_eq!(sensitive_label_after(true, false), None);
}
