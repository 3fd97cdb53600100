use minutes_app::capture::parse_macos_major_version;
use minutes_app::helper_log::{
    HelperStderrRateLimiter, HELPER_STDERR_INITIAL_LOG_LIMIT, HELPER_STDERR_LOG_INTERVAL_SECS,
};
use minutes_app::helper_messages::{
    capture_warning_for_audio_format_unsupported, read_helper_message,
};
use minutes_app::microphone::{
    finish_microphone_startup_handshake, native_call_helper_args, resolve_microphone_selection,
    HelperArg, MicrophoneSelection, MicrophoneStartupStatus,
};

const SEC: u64 = 1_000_000_000;

#[test]
fn helper_stderr_rate_limiter_logs_initial_lines_then_periodically() {
    let start = 77 * SEC;
    let mut limiter = HelperStderrRateLimiter::new(start);

    for _ in 0..HELPER_STDERR_INITIAL_LOG_LIMIT {
        assert_eq!(limiter.observe(start), Some(0));
    }
    assert_eq!(limiter.observe(start), None);
    assert_eq!(limiter.observe(start + 9 * SEC), None);
    assert_eq!(
        limiter.observe(start + HELPER_STDERR_LOG_INTERVAL_SECS * SEC),
        Some(2)
    );
    assert_eq!(
        limiter.observe(start + HELPER_STDERR_LOG_INTERVAL_SECS * SEC),
        None
    );
}

#[test]
fn unsupported_audio_warning_names_source_and_asbd() {
    let message = read_helper_message(
        r#"{
            "source": "microphone",
            "sample_rate": 16000,
            "format_id": "lpcm",
            "format_flags": 4,
            "bits_per_channel": 16,
            "bytes_per_packet": 4,
            "bytes_per_frame": 4,
            "frames_per_packet": 1,
            "channels": 1
        }"#,
    )
    .unwrap();
    let warning = capture_warning_for_audio_format_unsupported(&message);
    assert!(warning.contains("microphone"));
    assert!(warning.contains("ASBD"));
    assert!(warning.contains("sample_rate=16000"));
    assert!(warning.contains("bits_per_channel=16"));
}

#[test]
fn parses_major_version_from_product_version() {
    assert_eq!(parse_macos_major_version("15.0.1"), Some(15));
    assert_eq!(parse_macos_major_version("14.7"), Some(14));
    assert_eq!(parse_macos_major_version(""), None);
    assert_eq!(parse_macos_major_version("not-a-version"), None);
}

#[test]
fn selects_exact_configured_microphone_when_present() {
    let available = vec![
        "MacBook Pro Microphone".to_string(),
        "Studio Display Microphone".to_string(),
    ];
    assert_eq!(
        resolve_microphone_selection(Some("Studio Display Microphone"), &available),
        MicrophoneSelection::Configured("Studio Display Microphone".into())
    );
}

#[test]
fn reports_configured_microphone_missing_before_defaulting() {
    let available = vec!["MacBook Pro Microphone".to_string()];
    assert_eq!(
        resolve_microphone_selection(Some("Studio Display Microphone"), &available),
        MicrophoneSelection::ConfiguredMissing("Studio Display Microphone".into())
    );
}

#[test]
fn uses_default_when_no_microphone_is_configured() {
    let available = vec!["MacBook Pro Microphone".to_string()];
    assert_eq!(
        resolve_microphone_selection(None, &available),
        MicrophoneSelection::Default
    );
}

#[test]
fn configured_microphone_is_passed_to_native_helper() {
    let args = native_call_helper_args(&MicrophoneSelection::Configured(
        "Studio Display Microphone".into(),
    ));
    assert_eq!(
        args,
        vec![
            HelperArg::OutputPath,
            HelperArg::Text("--microphone-name".into()),
            HelperArg::Text("Studio Display Microphone".into()),
        ]
    );

    let default_args = native_call_helper_args(&MicrophoneSelection::Default);
    assert_eq!(default_args, vec![HelperArg::OutputPath]);
}

#[test]
fn actual_start_fallback_is_visible_before_session_return() {
    let mut warnings: Vec<String> = Vec::new();

    finish_microphone_startup_handshake(
        true,
        Ok(MicrophoneStartupStatus::Fallback(
            "Studio Display Microphone".into(),
        )),
        &mut warnings,
    );

    assert_eq!(
        warnings.as_slice(),
        ["configured mic not found, using default: 'Studio Display Microphone'."]
    );
}
