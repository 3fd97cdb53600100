use minutes_app::capture::{
    abandon_start, availability, begin_stop, check_readiness, finish_start, giveup_with_kill, helper_location,
    look_at_stopping_helper, native_call_file_name, parse_macos_major_version, signal_native_call_helper_pause,
    prepare_capture, refuse_start, terminate_failed, CallCaptureAvailability, GiveUp,
    HelperLocation, HelperPid, HelperProcess, PauseSignal, Readiness, StopStart, StopStep,
};
use minutes_app::helper_log::HelperStderrRateLimiter;
use minutes_app::helper_messages::{
    read_helper_message, CallSourceHealth, HelperLine, NativeCallCaptureSession, StemPaths,
};
use minutes_app::microphone::{
    finish_microphone_startup_handshake, microphone_is_configured, resolve_microphone_selection,
    select_microphone, HelperArg, MicrophoneSelection, MicrophoneStartupStatus,
};

const SEC: u64 = 1_000_000_000;

fn session() -> NativeCallCaptureSession {
    let mut session = NativeCallCaptureSession::new(vec![], 5 * SEC, "start");
    assert!(matches!(
        session.on_line(" ready \n", 6 * SEC, "t0"),
        HelperLine::Readiness(line) if line == "ready"
    ));
    session
}

#[test]
fn versions_are_read_up_to_the_first_dot() {
    assert_eq!(parse_macos_major_version(" 26\n"), Some(26));
    assert_eq!(parse_macos_major_version("15.x"), Some(15));
    assert_eq!(parse_macos_major_version(".15"), None);
    assert_eq!(parse_macos_major_version("99999999999.1"), None);
}

#[test]
fn availability_names_what_is_missing() {
    assert_eq!(
        availability(false, Some(26), true),
        CallCaptureAvailability::Unsupported {
            detail: "Native call capture is currently implemented on macOS only.".into()
        }
    );
    assert_eq!(
        availability(true, None, true),
        CallCaptureAvailability::Unavailable {
            detail: "Could not determine the macOS version for native call capture.".into()
        }
    );
    assert_eq!(
        availability(true, Some(14), true),
        CallCaptureAvailability::Unsupported {
            detail:
                "Native call capture requires macOS 15 or newer. This Mac reports macOS 14."
                    .into()
        }
    );
    assert_eq!(
        availability(true, Some(15), false),
        CallCaptureAvailability::Unavailable {
            detail: "Bundled native call helper is missing from the app bundle.".into()
        }
    );
    assert_eq!(
        availability(true, Some(15), true),
        CallCaptureAvailability::Available {
            backend: "screencapturekit-helper".into()
        }
    );
}

#[test]
fn starts_are_refused_for_a_reason() {
    assert_eq!(
        refuse_start(false, Some(15), true).as_deref(),
        Some("native call capture is unsupported on this platform")
    );
    assert_eq!(
        refuse_start(true, Some(14), true).as_deref(),
        Some("native call capture requires macOS 15 or newer (found macOS 14)")
    );
    assert_eq!(
        refuse_start(true, None, false).as_deref(),
        Some("native call helper binary is unavailable")
    );
    assert_eq!(refuse_start(true, None, true), None);
    assert_eq!(refuse_start(true, Some(15), true), None);
}

#[test]
fn helpers_are_looked_for_beside_the_binary_first() {
    assert_eq!(
        helper_location(Some(true), true),
        HelperLocation::BesideExecutable
    );
    assert_eq!(helper_location(Some(false), true), HelperLocation::SourceTree);
    assert_eq!(helper_location(None, true), HelperLocation::SourceTree);
    assert_eq!(helper_location(None, false), HelperLocation::Missing);
}

#[test]
fn microphones_are_selected_by_their_trimmed_name() {
    let names = vec!["A".to_string()];
    assert_eq!(
        resolve_microphone_selection(Some(" A "), &names),
        MicrophoneSelection::Configured("A".into())
    );
    assert_eq!(
        resolve_microphone_selection(Some("a"), &names),
        MicrophoneSelection::ConfiguredMissing("a".into())
    );
    assert_eq!(
        resolve_microphone_selection(Some("  "), &names),
        MicrophoneSelection::Default
    );
    assert_eq!(
        select_microphone(Some(" A"), None),
        MicrophoneSelection::ConfiguredMissing("A".into())
    );
    assert_eq!(select_microphone(None, None), MicrophoneSelection::Default);
    assert!(microphone_is_configured(Some("x")));
    assert!(!microphone_is_configured(Some(" ")));
    assert!(!microphone_is_configured(None));
}

#[test]
fn a_capture_is_prepared_for_its_microphone() {
    let names = vec!["Desk".to_string()];
    let start = prepare_capture(Some("Desk"), Some(&names));
    assert_eq!(
        start.args,
        vec![
            HelperArg::OutputPath,
            HelperArg::Text("--microphone-name".into()),
            HelperArg::Text("Desk".into())
        ]
    );
    assert!(start.status_expected && start.warnings.is_empty());
    let start = prepare_capture(Some("Gone"), Some(&names));
    assert_eq!(start.args, vec![HelperArg::OutputPath]);
    assert_eq!(
        start.warnings,
        vec!["configured mic not found, using default: 'Gone'."]
    );
    assert!(!start.status_expected);
    let start = prepare_capture(None, None);
    assert_eq!(start.args, vec![HelperArg::OutputPath]);
    assert!(start.warnings.is_empty() && !start.status_expected);
}

#[test]
fn a_handshake_warns_once_of_a_fallback_and_of_silence() {
    let mut warnings = vec!["configured mic not found, using default: 'X'.".to_string()];
    finish_microphone_startup_handshake(
        true,
        Ok(MicrophoneStartupStatus::Fallback("X".into())),
        &mut warnings,
    );
    assert_eq!(warnings.len(), 1);
    finish_microphone_startup_handshake(
        true,
        Ok(MicrophoneStartupStatus::Selected("X".into())),
        &mut warnings,
    );
    finish_microphone_startup_handshake(false, Err("late".into()), &mut warnings);
    assert_eq!(warnings.len(), 1);
    finish_microphone_startup_handshake(true, Err("late".into()), &mut warnings);
    assert_eq!(
        warnings[1],
        "Configured microphone selection was not acknowledged before capture start (late); verify the selected input."
    );
}

#[test]
fn a_helper_is_ready_when_it_says_so() {
    assert_eq!(check_readiness(Readiness::Line("ready".into())), Ok(()));
    assert_eq!(
        check_readiness(Readiness::Line("not ready".into())),
        Err("native call helper returned unexpected readiness output: not ready".into())
    );
    assert_eq!(
        check_readiness(Readiness::ReadFailed {
            error: "broken".into()
        }),
        Err("failed to read native call helper output: broken".into())
    );
    assert_eq!(
        check_readiness(Readiness::Closed),
        Err("native call helper exited before signaling readiness".into())
    );
    assert_eq!(
        check_readiness(Readiness::TimedOut),
        Err("native call helper timed out waiting for ScreenCaptureKit readiness".into())
    );
    let mut warnings = vec![];
    assert!(finish_start(
        Readiness::TimedOut,
        true,
        Err("x".into()),
        &mut warnings
    )
    .is_err());
    assert!(warnings.is_empty());
    assert!(finish_start(
        Readiness::Line("ready".into()),
        true,
        Err("x".into()),
        &mut warnings
    )
    .is_ok());
    assert_eq!(warnings.len(), 1);
}

#[test]
fn health_is_taken_from_messages() {
    let mut session = session();
    let line = r#"{"event":"health","mic_live":true,"call_audio_live":"yes","mic_level":4294967299,"call_audio_level":-5,"mic_frames_silenced":18446744073709551615,"system_frames_silenced":1.5}"#;
    assert!(matches!(
        session.on_line(line, 9 * SEC, "t1"),
        HelperLine::Message(None)
    ));
    assert_eq!(
        session.source_health(),
        CallSourceHealth {
            backend: "screencapturekit-helper".into(),
            mic_live: true,
            call_audio_live: false,
            mic_level: 3,
            call_audio_level: 0,
            mic_frames_silenced: u64::MAX,
            system_frames_silenced: 0,
            last_update: "t1".into(),
        }
    );
    assert_eq!(session.last_progress, 9 * SEC);
    session.on_line(r#"{"event":"health"}"#, 10 * SEC, "t2");
    assert_eq!(session.source_health(), CallSourceHealth::silent("t2"));
}

#[test]
fn stems_are_taken_where_both_are_named() {
    let mut session = session();
    session.on_line(r#"{"event":"stems","voice_stem":"/v.wav"}"#, 0, "t");
    assert_eq!(session.stem_paths(true, true), None);
    session.on_line(
        r#"{"event":"stems","voice_stem":"/vé.wav","system_stem":"/s.wav"}"#,
        0,
        "t",
    );
    let stems = StemPaths {
        voice: "/vé.wav".into(),
        system: "/s.wav".into(),
    };
    assert_eq!(session.stem_paths(true, true), Some(stems));
    assert_eq!(session.stem_paths(true, false), None);
    assert_eq!(session.stem_paths(false, true), None);
}

#[test]
fn messages_tell_of_the_microphone() {
    let mut session = session();
    assert!(matches!(
        session.on_line(r#"{"event":"microphone_selected","name":"Desk"}"#, 0, "t"),
        HelperLine::Message(Some(MicrophoneStartupStatus::Selected(name))) if name == "Desk"
    ));
    assert!(matches!(
        session.on_line(r#"{"event":"microphone_selected","name":7}"#, 0, "t"),
        HelperLine::Message(None)
    ));
    assert!(matches!(
        session.on_line(r#"{"event":"microphone_fallback"}"#, 0, "t"),
        HelperLine::Message(Some(MicrophoneStartupStatus::Fallback(name)))
            if name == "configured microphone"
    ));
    assert_eq!(session.capture_warning(), None);
    session.on_line(r#"{"event":"microphone_disconnected","name":"Desk"}"#, 0, "t");
    session.on_line(r#"{"event":"microphone_disconnected"}"#, 0, "t");
    assert_eq!(
        session.capture_warning().as_deref(),
        Some("Configured microphone 'Desk' disconnected during capture; ScreenCaptureKit continued with its default behavior. Configured microphone 'configured microphone' disconnected during capture; ScreenCaptureKit continued with its default behavior.")
    );
}

#[test]
fn an_unsupported_format_is_warned_of_once() {
    let mut session = session();
    let line = r#"{"event":"audio_format_unsupported","source":"system","sample_rate":48000.5,"format_id":"lpcm"}"#;
    session.on_line(line, 0, "t");
    session.on_line(line, 0, "t");
    assert_eq!(
        session.capture_warnings,
        vec!["Native call capture silenced undecodable system audio (ASBD: sample_rate=48000.5, format_id=\"lpcm\", format_flags=unknown, bits_per_channel=unknown, bytes_per_packet=unknown, bytes_per_frame=unknown, frames_per_packet=unknown, channels=unknown)."]
    );
}

#[test]
fn other_lines_are_signs_of_life_and_nothing_more() {
    let mut session = session();
    let health = session.source_health();
    for (n, line) in ["not json", "[1,2]", "{\"event\":5}", "{\"event\":\"audio_format\"}"]
        .iter()
        .enumerate()
    {
        let now = (20 + n as u64) * SEC;
        assert!(matches!(
            session.on_line(line, now, "t9"),
            HelperLine::Message(None)
        ));
        assert_eq!(session.last_progress, now);
    }
    assert!(matches!(session.on_line("  \n", 99 * SEC, "t9"), HelperLine::Blank));
    assert_eq!(session.last_progress, 99 * SEC);
    assert_eq!(session.source_health(), health);
}

#[test]
fn messages_are_read_from_json() {
    assert!(read_helper_message("{").is_none());
    assert!(read_helper_message("3").unwrap().members.is_empty());
    let message = read_helper_message(r#"{"a":"x","a":"y","b":true,"c":[1, 2]}"#).unwrap();
    assert_eq!(message.text("a").as_deref(), Some("y"));
    assert_eq!(message.text("b"), None);
    assert!(message.flag_or_false("b"));
    assert_eq!(message.json_or_unknown("c"), "[1,2]");
    assert_eq!(message.json_or_unknown("d"), "unknown");
    assert_eq!(message.text_or("d", "else"), "else");
    assert_eq!(message.count_or_zero("b"), 0);
}

#[test]
fn helpers_are_signalled_only_while_they_run() {
    let mut slot = HelperPid::new();
    assert_eq!(signal_native_call_helper_pause(&slot, true), None);
    slot.spawned(7);
    assert_eq!(
        signal_native_call_helper_pause(&slot, true),
        Some((7, PauseSignal::Pause))
    );
    assert_eq!(
        signal_native_call_helper_pause(&slot, false),
        Some((7, PauseSignal::Resume))
    );
    slot.stopping();
    assert_eq!(signal_native_call_helper_pause(&slot, false), None);
}

#[test]
fn a_failed_start_kills_and_forgets_its_helper() {
    for readiness in [
        Readiness::Line("starting".into()),
        Readiness::Closed,
        Readiness::TimedOut,
    ] {
        let mut slot = HelperPid::new();
        slot.spawned(42);
        let started = finish_start(readiness, false, Err(String::new()), &mut Vec::new());
        assert!(started.is_err());
        assert!(abandon_start(&mut slot, &started));
        assert_eq!(signal_native_call_helper_pause(&slot, true), None);
    }
    let mut slot = HelperPid::new();
    slot.spawned(42);
    let ready = Readiness::Line("ready".into());
    let started = finish_start(ready, false, Err(String::new()), &mut Vec::new());
    assert!(!abandon_start(&mut slot, &started));
    assert_eq!(
        signal_native_call_helper_pause(&slot, true),
        Some((42, PauseSignal::Pause))
    );
}

#[test]
fn every_stop_forgets_the_helper() {
    for macos in [false, true] {
        for process in [
            HelperProcess::Running,
            HelperProcess::Exited { success: true, status: "0".into() },
            HelperProcess::Unknown { error: "gone".into() },
        ] {
            let mut slot = HelperPid::new();
            slot.spawned(42);
            begin_stop(&mut slot, macos, process);
            assert_eq!(signal_native_call_helper_pause(&slot, true), None);
        }
    }
}

#[test]
fn a_stop_ends_with_the_helper() {
    assert!(matches!(
        begin_stop(&mut HelperPid::new(), false, HelperProcess::Running),
        StopStart::Finished(Err(e)) if e == "native call capture is unsupported on this platform"
    ));
    assert!(matches!(
        begin_stop(&mut HelperPid::new(), true, HelperProcess::Running),
        StopStart::Terminate
    ));
    assert!(matches!(
        begin_stop(&mut HelperPid::new(), true, HelperProcess::Exited { success: true, status: "0".into() }),
        StopStart::Finished(Ok(()))
    ));
    assert!(matches!(
        begin_stop(&mut HelperPid::new(), true, HelperProcess::Unknown { error: "gone".into() }),
        StopStart::Finished(Err(e)) if e == "gone"
    ));
    assert!(matches!(
        look_at_stopping_helper(
            HelperProcess::Exited { success: false, status: "signal 9".into() },
            0,
            None
        ),
        StopStep::Finished(Err(e)) if e == "native call helper exited with status signal 9"
    ));
    assert_eq!(
        terminate_failed(42, "no such process"),
        "failed to stop native call helper (PID 42): no such process"
    );
}

#[test]
fn a_helper_that_works_is_not_killed_before_the_ceiling() {
    let look = |since_stop: u64, since_progress: Option<u64>| {
        look_at_stopping_helper(HelperProcess::Running, since_stop, since_progress)
    };
    assert!(matches!(
        look(599 * SEC, Some(30 * SEC - 1)),
        StopStep::Wait
    ));
    assert!(matches!(
        look(600 * SEC, Some(0)),
        StopStep::GiveUp { reason } if reason == "native call helper did not finalize within 600s (absolute ceiling); SIGKILLed. Per-source stems may still be recoverable in ~/.minutes/native-captures/."
    ));
    assert!(matches!(
        look(0, Some(30 * SEC)),
        StopStep::GiveUp { reason } if reason == "native call helper went silent for 30s during finalize; SIGKILLed. Per-source stems may still be recoverable in ~/.minutes/native-captures/."
    ));
    assert!(matches!(look(0, None), StopStep::GiveUp { .. }));
}

#[test]
fn a_heartbeat_keeps_a_stopping_helper() {
    let mut session = session();
    let asked = 1_000 * SEC;
    session.stop_requested(asked);
    assert!(matches!(
        session.stop_step(HelperProcess::Running, asked, asked + 29 * SEC),
        StopStep::Wait
    ));
    session.on_line("{\"event\":\"finalizing\"}", asked + 29 * SEC, "t");
    assert!(matches!(
        session.stop_step(HelperProcess::Running, asked, asked + 58 * SEC),
        StopStep::Wait
    ));
    assert!(matches!(
        session.stop_step(HelperProcess::Running, asked, asked + 59 * SEC),
        StopStep::GiveUp { .. }
    ));
}

#[test]
fn a_helper_that_exited_after_all_is_not_killed() {
    assert!(matches!(
        giveup_with_kill(
            HelperProcess::Exited { success: true, status: "0".into() },
            "late".into()
        ),
        GiveUp::Exited(Ok(()))
    ));
    assert!(matches!(
        giveup_with_kill(HelperProcess::Running, "late".into()),
        GiveUp::Kill { reason } if reason == "late"
    ));
    assert!(matches!(
        giveup_with_kill(HelperProcess::Unknown { error: "?".into() }, "late".into()),
        GiveUp::Kill { reason } if reason == "late"
    ));
}

#[test]
fn captures_are_written_to_files_named_by_their_start() {
    assert_eq!(
        native_call_file_name("2025-01-02-030405"),
        "2025-01-02-030405-call.mov"
    );
}

#[test]
fn every_line_of_the_helper_is_accounted_for() {
    let mut limiter = HelperStderrRateLimiter::new(0);
    let mut accounted = 0;
    let mut lines = 0;
    for n in 0..200u64 {
        lines += 1;
        if let Some(suppressed) = limiter.observe(n * SEC / 3) {
            accounted += 1 + suppressed;
        }
        assert_eq!(accounted + limiter.suppressed_lines, lines);
    }
    assert!(limiter.suppressed_lines > 0);
}
