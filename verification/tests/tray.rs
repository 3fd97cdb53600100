use minutes_app::tray::{
    derive_tray_activity, stop_route, StopRoute, Theme, TrayActivity, TrayAppearance,
    TrayStateSnapshot,
};
use minutes_app::windows::{
    content_protection_for_window, MAIN_WINDOW_APPLY_VIBRANCY, MAIN_WINDOW_TRANSPARENT,
};

fn snap(recording: bool, live: bool, dictation: bool) -> TrayStateSnapshot {
    TrayStateSnapshot {
        recording,
        live,
        dictation,
        copilot: false,
        voice: false,
    }
}

fn snap_with_copilot(
    recording: bool,
    live: bool,
    dictation: bool,
    copilot: bool,
) -> TrayStateSnapshot {
    TrayStateSnapshot {
        recording,
        live,
        dictation,
        copilot,
        voice: false,
    }
}

#[test]
fn main_window_uses_opaque_webview_for_hidden_tray_lifecycle() {
    let transparent = MAIN_WINDOW_TRANSPARENT;
    assert!(
        !transparent,
        "the long-lived main WebView is hidden/shown from the tray; keep it opaque"
    );
    let vibrancy = MAIN_WINDOW_APPLY_VIBRANCY;
    assert!(
        !vibrancy,
        "macOS vibrancy on the hidden main WebView can crash WebKit during frame updates"
    );
}

#[test]
fn every_active_tray_activity_has_a_tray_stop_path() {
    for flags in 0u8..32 {
        let snapshot = TrayStateSnapshot {
            recording: flags & 1 != 0,
            live: flags & 2 != 0,
            dictation: flags & 4 != 0,
            copilot: flags & 8 != 0,
            voice: flags & 16 != 0,
        };
        let activity = derive_tray_activity(snapshot);
        let expected = match activity {
            TrayActivity::Idle => StopRoute::Nothing,
            TrayActivity::Recording => StopRoute::Recording,
            TrayActivity::Live => StopRoute::Live,
            TrayActivity::Dictation => StopRoute::Dictation,
            TrayActivity::Copilot => StopRoute::Copilot,
            TrayActivity::Voice => StopRoute::Voice,
        };
        assert_eq!(stop_route(snapshot), expected);
        assert_eq!(expected != StopRoute::Nothing, activity.is_active());
    }
}

#[test]
fn copilot_hud_privacy_is_independent_of_the_global_toggle() {
    assert!(content_protection_for_window(
        "copilot-hud",
        false
    ));
    assert!(content_protection_for_window(
        "copilot-hud",
        true
    ));
    assert!(!content_protection_for_window(
        "main", false
    ));
    assert!(content_protection_for_window("main", true));
}

#[test]
fn idle_when_all_flags_false() {
    assert_eq!(
        derive_tray_activity(snap(false, false, false)),
        TrayActivity::Idle
    );
}

#[test]
fn recording_takes_priority_over_live_and_dictation() {
    // Recording > Live > Dictation. The acquisition gates are
    // check-then-CAS across separate atomics, so concurrent starts
    // can land in a transient double-true state until the loser's
    // session fails at the PID/flock layer in core and its RAII
    // guard re-syncs the tray. `recording_active` can also be true
    // from an external CLI PID independent of the in-app flags. In
    // any drift scenario the tray must render deterministically.
    assert_eq!(
        derive_tray_activity(snap(true, true, true)),
        TrayActivity::Recording
    );
    assert_eq!(
        derive_tray_activity(snap(true, false, true)),
        TrayActivity::Recording
    );
    assert_eq!(
        derive_tray_activity(snap(true, true, false)),
        TrayActivity::Recording
    );
}

#[test]
fn live_beats_dictation_when_recording_is_false() {
    assert_eq!(
        derive_tray_activity(snap(false, true, true)),
        TrayActivity::Live
    );
    assert_eq!(
        derive_tray_activity(snap(false, true, false)),
        TrayActivity::Live
    );
}

#[test]
fn dictation_when_only_dictation_set() {
    assert_eq!(
        derive_tray_activity(snap(false, false, true)),
        TrayActivity::Dictation
    );
}

#[test]
fn copilot_is_the_activity_only_when_no_capture_mode_is_active() {
    assert_eq!(
        derive_tray_activity(snap_with_copilot(false, false, false, true)),
        TrayActivity::Copilot
    );
    assert_eq!(
        derive_tray_activity(snap_with_copilot(true, false, false, true)),
        TrayActivity::Recording
    );
    assert_eq!(
        derive_tray_activity(snap_with_copilot(false, true, false, true)),
        TrayActivity::Live
    );
    assert_eq!(
        derive_tray_activity(snap_with_copilot(false, false, true, true)),
        TrayActivity::Dictation
    );
}

#[test]
fn voice_reports_itself_and_outranks_coach() {
    let snap = |voice: bool, copilot: bool| TrayStateSnapshot {
        recording: false,
        live: false,
        dictation: false,
        copilot,
        voice,
    };
    assert_eq!(derive_tray_activity(snap(true, false)), TrayActivity::Voice);
    // Voice owns the microphone for a live conversation, so it is the more
    // specific thing to report if both are somehow on.
    assert_eq!(derive_tray_activity(snap(true, true)), TrayActivity::Voice);
    assert_eq!(
        derive_tray_activity(snap(false, true)),
        TrayActivity::Copilot
    );
    // Voice grays out the capture controls, unlike Coach. Not because it
    // owns capture, but because starting a recording during a voice session
    // is refused, and an enabled menu item that is going to be refused lies
    // about what clicking it does.
    assert!(TrayActivity::Voice.blocks_capture_controls());
    assert!(!TrayActivity::Copilot.blocks_capture_controls());
    assert!(TrayActivity::Voice.is_active());
}

#[test]
fn is_active_only_for_non_idle() {
    assert!(!TrayActivity::Idle.is_active());
    assert!(TrayActivity::Recording.is_active());
    assert!(TrayActivity::Live.is_active());
    assert!(TrayActivity::Dictation.is_active());
    assert!(TrayActivity::Copilot.is_active());
    assert!(!TrayActivity::Copilot.blocks_capture_controls());
}

#[test]
fn stop_label_per_activity() {
    // Idle keeps the construction-time label so the menu reads "Stop
    // Recording" before any session starts; the active states each
    // disambiguate which flow Stop will target.
    assert_eq!(TrayActivity::Idle.stop_label(), "Stop Recording");
    assert_eq!(TrayActivity::Recording.stop_label(), "Stop Recording");
    assert_eq!(TrayActivity::Live.stop_label(), "Stop Live Transcript");
    assert_eq!(TrayActivity::Dictation.stop_label(), "Stop Dictation");
    assert_eq!(TrayActivity::Copilot.stop_label(), "Stop Coach");
}

#[test]
fn palette_source_per_activity() {
    assert_eq!(TrayActivity::Idle.palette_source(), "idle");
    assert_eq!(TrayActivity::Recording.palette_source(), "recording");
    assert_eq!(TrayActivity::Live.palette_source(), "live-transcript");
    assert_eq!(TrayActivity::Dictation.palette_source(), "dictation");
    assert_eq!(TrayActivity::Copilot.palette_source(), "copilot");
}

#[test]
fn icon_bytes_pick_appearance_variant() {
    // Idle uses the templated tray icon regardless of appearance.
    let idle_light = TrayActivity::Idle.icon(TrayAppearance::Light);
    let idle_dark = TrayActivity::Idle.icon(TrayAppearance::Dark);
    assert_eq!(idle_light, idle_dark);

    // Active states must pick distinct pictures per appearance so the
    // M is legible on both light and dark menu bars.
    let rec_light = TrayActivity::Recording.icon(TrayAppearance::Light);
    let rec_dark = TrayActivity::Recording.icon(TrayAppearance::Dark);
    assert_ne!(rec_light, rec_dark);

    let live_light = TrayActivity::Live.icon(TrayAppearance::Light);
    let live_dark = TrayActivity::Live.icon(TrayAppearance::Dark);
    assert_ne!(live_light, live_dark);

    // Coach reuses the live-listening asset while still participating as
    // its own centrally-derived activity.
    let copilot_light = TrayActivity::Copilot.icon(TrayAppearance::Light);
    let copilot_dark = TrayActivity::Copilot.icon(TrayAppearance::Dark);
    assert_eq!(copilot_light, live_light);
    assert_eq!(copilot_dark, live_dark);

    // Dictation reuses the recording asset: the same picture per appearance
    // as recording, distinct across appearance variants.
    let dict_light = TrayActivity::Dictation.icon(TrayAppearance::Light);
    let dict_dark = TrayActivity::Dictation.icon(TrayAppearance::Dark);
    assert_eq!(dict_light, rec_light);
    assert_eq!(dict_dark, rec_dark);
    assert_ne!(dict_light, dict_dark);

    // Each of these is a file of its own.
    assert_eq!(idle_light.file_name(), "icon-tray.png");
    assert_ne!(rec_light.file_name(), rec_dark.file_name());
    assert_ne!(live_light.file_name(), live_dark.file_name());
    assert_ne!(rec_light.file_name(), live_light.file_name());
    assert_ne!(rec_dark.file_name(), live_dark.file_name());
}

#[test]
fn appearance_from_theme_maps_dark_only_to_dark() {
    // Tauri Theme is non-exhaustive (Light / Dark / future). Anything
    // other than Dark resolves to Light: the active-state assets are
    // made for light menu bars, so that is the lower-risk choice.
    assert_eq!(
        TrayAppearance::from_theme(Theme::Light),
        TrayAppearance::Light
    );
    assert_eq!(
        TrayAppearance::from_theme(Theme::Dark),
        TrayAppearance::Dark
    );
}

