//! The tray: which activity it shows, how each activity is rendered, and what
//! its Stop item stops.

use vstd::prelude::*;

verus! {

/// The active "recording-class" activity that the tray reflects. The paths
/// that start one check each other's flags, but not in one step, so two flags
/// can be set for a moment; `derive_tray_activity` has a fixed order so that
/// the tray is coherent meanwhile.
#[derive(Copy, Clone, Debug, Eq, PartialEq, Structural)]
pub enum TrayActivity {
    Idle,
    Recording,
    Live,
    Dictation,
    Copilot,
    /// A voice session. It does not own the capture pipeline, but it does hold
    /// the microphone, and recording is refused while it runs, so unlike
    /// Copilot it grays out the capture controls.
    Voice,
}

/// Inferred menu-bar appearance.
#[derive(Copy, Clone, Debug, Eq, PartialEq, Structural)]
pub enum TrayAppearance {
    Light,
    Dark,
}

/// The theme of a window, as the system gives it.
#[derive(Copy, Clone, Debug, Eq, PartialEq, Structural)]
pub enum Theme {
    Light,
    Dark,
    Other,
}

pub open spec fn appearance_of(theme: Theme) -> TrayAppearance {
    match theme {
        Theme::Dark => TrayAppearance::Dark,
        _ => TrayAppearance::Light,
    }
}

impl TrayAppearance {
    /// Anything but a dark theme counts as light: that is what the icons were
    /// designed for.
    pub fn from_theme(theme: Theme) -> (appearance: TrayAppearance)
        ensures
            appearance == appearance_of(theme),
    {
        match theme {
            Theme::Dark => TrayAppearance::Dark,
            _ => TrayAppearance::Light,
        }
    }

    /// The appearance that a window's theme gives, light where it is not known.
    pub fn from_known_theme(theme: Option<Theme>) -> (appearance: TrayAppearance)
        ensures
            appearance == (match theme {
                Some(t) => appearance_of(t),
                None => TrayAppearance::Light,
            }),
    {
        match theme {
            Some(t) => TrayAppearance::from_theme(t),
            None => TrayAppearance::Light,
        }
    }
}

/// Last-known menu-bar appearance, as a code: light is 0, dark is 1.
#[derive(Copy, Clone, Debug, Eq, PartialEq, Structural)]
pub struct TrayAppearanceState(pub u8);

pub open spec fn code(appearance: TrayAppearance) -> u8 {
    match appearance {
        TrayAppearance::Light => 0,
        TrayAppearance::Dark => 1,
    }
}

/// What a code stands for; every code but that of dark is light.
pub open spec fn decoded(code: u8) -> TrayAppearance {
    if code == 1 {
        TrayAppearance::Dark
    } else {
        TrayAppearance::Light
    }
}

impl TrayAppearanceState {
    pub fn new(initial: TrayAppearance) -> (state: Self)
        ensures
            state == TrayAppearanceState(code(initial)),
    {
        TrayAppearanceState(
            match initial {
                TrayAppearance::Light => 0,
                TrayAppearance::Dark => 1,
            },
        )
    }

    pub fn get(&self) -> (appearance: TrayAppearance)
        ensures
            appearance == decoded(self.0),
    {
        match self.0 {
            1 => TrayAppearance::Dark,
            _ => TrayAppearance::Light,
        }
    }

    pub fn set(&mut self, appearance: TrayAppearance)
        ensures
            final(self).0 == code(appearance),
    {
        self.0 = match appearance {
            TrayAppearance::Light => 0,
            TrayAppearance::Dark => 1,
        };
    }
}

/// What was stored is what is read.
pub proof fn lemma_appearance_is_read_back(appearance: TrayAppearance)
    ensures
        decoded(code(appearance)) == appearance,
{
}

/// The last-known appearance, light where none was stored yet.
pub fn current_tray_appearance(state: Option<&TrayAppearanceState>) -> (appearance: TrayAppearance)
    ensures
        appearance == (match state {
            Some(s) => decoded(s.0),
            None => TrayAppearance::Light,
        }),
{
    match state {
        Some(s) => s.get(),
        None => TrayAppearance::Light,
    }
}

/// The picture in the tray.
#[derive(Copy, Clone, Debug, Eq, PartialEq, Structural)]
pub enum TrayIcon {
    /// `icon-tray.png`
    Tray,
    /// `icon-recording.png`
    Recording,
    /// `icon-recording-dark.png`
    RecordingDark,
    /// `icon-live.png`
    Live,
    /// `icon-live-dark.png`
    LiveDark,
}

pub open spec fn icon_file(icon: TrayIcon) -> Seq<char> {
    match icon {
        TrayIcon::Tray => "icon-tray.png"@,
        TrayIcon::Recording => "icon-recording.png"@,
        TrayIcon::RecordingDark => "icon-recording-dark.png"@,
        TrayIcon::Live => "icon-live.png"@,
        TrayIcon::LiveDark => "icon-live-dark.png"@,
    }
}

impl TrayIcon {
    /// The file that holds the picture.
    pub fn file_name(self) -> (name: &'static str)
        ensures
            name@ == icon_file(self),
    {
        match self {
            TrayIcon::Tray => "icon-tray.png",
            TrayIcon::Recording => "icon-recording.png",
            TrayIcon::RecordingDark => "icon-recording-dark.png",
            TrayIcon::Live => "icon-live.png",
            TrayIcon::LiveDark => "icon-live-dark.png",
        }
    }
}

pub open spec fn icon_for(activity: TrayActivity, appearance: TrayAppearance) -> TrayIcon {
    let dark = appearance == TrayAppearance::Dark;
    match activity {
        TrayActivity::Idle => TrayIcon::Tray,
        TrayActivity::Recording | TrayActivity::Dictation => if dark {
            TrayIcon::RecordingDark
        } else {
            TrayIcon::Recording
        },
        TrayActivity::Live | TrayActivity::Copilot | TrayActivity::Voice => if dark {
            TrayIcon::LiveDark
        } else {
            TrayIcon::Live
        },
    }
}

/// The file that is drawn in the tray.
pub open spec fn picture(activity: TrayActivity, appearance: TrayAppearance) -> Seq<char> {
    icon_file(icon_for(activity, appearance))
}

/// The idle picture is one for both menu bars, as the system tints it; those
/// of recording and of live listening differ between them, and from each
/// other. Dictation shares the pictures of recording, Coach and Voice those of
/// live listening.
pub proof fn lemma_pictures_fit_the_menu_bar(appearance: TrayAppearance)
    ensures
        picture(TrayActivity::Idle, TrayAppearance::Light) == picture(
            TrayActivity::Idle,
            TrayAppearance::Dark,
        ),
        picture(TrayActivity::Recording, TrayAppearance::Light) != picture(
            TrayActivity::Recording,
            TrayAppearance::Dark,
        ),
        picture(TrayActivity::Live, TrayAppearance::Light) != picture(
            TrayActivity::Live,
            TrayAppearance::Dark,
        ),
        picture(TrayActivity::Recording, appearance) != picture(TrayActivity::Live, appearance),
        picture(TrayActivity::Dictation, appearance) == picture(
            TrayActivity::Recording,
            appearance,
        ),
        picture(TrayActivity::Copilot, appearance) == picture(TrayActivity::Live, appearance),
        picture(TrayActivity::Voice, appearance) == picture(TrayActivity::Live, appearance),
{
    reveal_strlit("icon-recording.png");
    reveal_strlit("icon-recording-dark.png");
    reveal_strlit("icon-live.png");
    reveal_strlit("icon-live-dark.png");
    assert("icon-recording.png"@.len() < "icon-recording-dark.png"@.len());
    assert("icon-live.png"@.len() < "icon-live-dark.png"@.len());
    assert("icon-recording.png"@[5] == 'r' && "icon-recording-dark.png"@[5] == 'r');
    assert("icon-live.png"@[5] == 'l' && "icon-live-dark.png"@[5] == 'l');
}

pub open spec fn active(activity: TrayActivity) -> bool {
    activity != TrayActivity::Idle
}

/// The test is not who owns capture, it is whether starting a recording will
/// work: it can begin during Coach, and is refused during Voice.
pub open spec fn blocks_capture(activity: TrayActivity) -> bool {
    activity != TrayActivity::Idle && activity != TrayActivity::Copilot
}

pub open spec fn tooltip_for(activity: TrayActivity) -> Seq<char> {
    match activity {
        TrayActivity::Idle => "Minutes"@,
        TrayActivity::Recording => "Minutes — Recording..."@,
        TrayActivity::Live => "Minutes — Live Transcribing..."@,
        TrayActivity::Dictation => "Minutes — Dictating..."@,
        TrayActivity::Copilot => "Minutes — Coach Listening..."@,
        TrayActivity::Voice => "Minutes — Voice Session..."@,
    }
}

pub open spec fn stop_label_for(activity: TrayActivity) -> Seq<char> {
    match activity {
        TrayActivity::Idle | TrayActivity::Recording => "Stop Recording"@,
        TrayActivity::Live => "Stop Live Transcript"@,
        TrayActivity::Dictation => "Stop Dictation"@,
        TrayActivity::Copilot => "Stop Coach"@,
        TrayActivity::Voice => "Close Voice"@,
    }
}

pub open spec fn palette_source_for(activity: TrayActivity) -> Seq<char> {
    match activity {
        TrayActivity::Idle => "idle"@,
        TrayActivity::Recording => "recording"@,
        TrayActivity::Live => "live-transcript"@,
        TrayActivity::Dictation => "dictation"@,
        TrayActivity::Copilot => "copilot"@,
        TrayActivity::Voice => "voice"@,
    }
}

impl TrayActivity {
    pub fn is_active(self) -> (yes: bool)
        ensures
            yes == active(self),
    {
        match self {
            TrayActivity::Idle => false,
            _ => true,
        }
    }

    pub fn blocks_capture_controls(self) -> (yes: bool)
        ensures
            yes == blocks_capture(self),
    {
        match self {
            TrayActivity::Recording
            | TrayActivity::Live
            | TrayActivity::Dictation
            | TrayActivity::Voice => true,
            _ => false,
        }
    }

    /// Dictation shares the picture of recording, Coach and Voice that of live
    /// listening; each has one for a light and one for a dark menu bar.
    pub fn icon(self, appearance: TrayAppearance) -> (icon: TrayIcon)
        ensures
            icon == icon_for(self, appearance),
    {
        match (self, appearance) {
            (TrayActivity::Idle, _) => TrayIcon::Tray,
            (TrayActivity::Recording | TrayActivity::Dictation, TrayAppearance::Light) => {
                TrayIcon::Recording
            },
            (TrayActivity::Recording | TrayActivity::Dictation, TrayAppearance::Dark) => {
                TrayIcon::RecordingDark
            },
            (_, TrayAppearance::Light) => TrayIcon::Live,
            (_, TrayAppearance::Dark) => TrayIcon::LiveDark,
        }
    }

    pub fn tooltip(self) -> (text: &'static str)
        ensures
            text@ == tooltip_for(self),
    {
        match self {
            TrayActivity::Idle => "Minutes",
            TrayActivity::Recording => "Minutes — Recording...",
            TrayActivity::Live => "Minutes — Live Transcribing...",
            TrayActivity::Dictation => "Minutes — Dictating...",
            TrayActivity::Copilot => "Minutes — Coach Listening...",
            TrayActivity::Voice => "Minutes — Voice Session...",
        }
    }

    pub fn stop_label(self) -> (text: &'static str)
        ensures
            text@ == stop_label_for(self),
    {
        match self {
            // Idle keeps the label that the menu is built with, so that it
            // reads "Stop Recording" before any session.
            TrayActivity::Idle | TrayActivity::Recording => "Stop Recording",
            TrayActivity::Live => "Stop Live Transcript",
            TrayActivity::Dictation => "Stop Dictation",
            TrayActivity::Copilot => "Stop Coach",
            TrayActivity::Voice => "Close Voice",
        }
    }

    pub fn palette_source(self) -> (text: &'static str)
        ensures
            text@ == palette_source_for(self),
    {
        match self {
            TrayActivity::Idle => "idle",
            TrayActivity::Recording => "recording",
            TrayActivity::Live => "live-transcript",
            TrayActivity::Dictation => "dictation",
            TrayActivity::Copilot => "copilot",
            TrayActivity::Voice => "voice",
        }
    }
}

/// Snapshot of the lifecycle flags used to derive `TrayActivity`. Capturing
/// once per sync keeps derivation deterministic if a flag flips between
/// reads.
#[derive(Copy, Clone, Debug, Eq, PartialEq, Structural)]
pub struct TrayStateSnapshot {
    pub recording: bool,
    pub live: bool,
    pub dictation: bool,
    pub copilot: bool,
    pub voice: bool,
}

/// Recording goes before Live, Live before Dictation, Dictation before Voice,
/// Voice before Copilot, and that before Idle.
pub open spec fn activity_of(snapshot: TrayStateSnapshot) -> TrayActivity {
    if snapshot.recording {
        TrayActivity::Recording
    } else if snapshot.live {
        TrayActivity::Live
    } else if snapshot.dictation {
        TrayActivity::Dictation
    } else if snapshot.voice {
        TrayActivity::Voice
    } else if snapshot.copilot {
        TrayActivity::Copilot
    } else {
        TrayActivity::Idle
    }
}

impl TrayStateSnapshot {
    /// The flags of an application whose state is not there yet.
    pub fn idle() -> (snapshot: TrayStateSnapshot)
        ensures
            activity_of(snapshot) == TrayActivity::Idle,
            !snapshot.recording && !snapshot.live && !snapshot.dictation && !snapshot.copilot
                && !snapshot.voice,
    {
        TrayStateSnapshot {
            recording: false,
            live: false,
            dictation: false,
            copilot: false,
            voice: false,
        }
    }
}

/// Derive the tray activity from a state snapshot. An external recording
/// keeps the tray rendering as recording even if an in-app dictation flag is
/// somehow also set. Copilot comes after every capture mode because it can
/// coexist with them and never owns capture.
pub fn derive_tray_activity(snapshot: TrayStateSnapshot) -> (activity: TrayActivity)
    ensures
        activity == activity_of(snapshot),
{
    if snapshot.recording {
        TrayActivity::Recording
    } else if snapshot.live {
        TrayActivity::Live
    } else if snapshot.dictation {
        TrayActivity::Dictation
    } else if snapshot.voice {
        // Above Copilot: voice owns the microphone for a live conversation,
        // so it is the more specific thing to report when both are somehow on.
        TrayActivity::Voice
    } else if snapshot.copilot {
        TrayActivity::Copilot
    } else {
        TrayActivity::Idle
    }
}

/// The tray shows something going on exactly when some flag is set.
pub proof fn lemma_active_iff_some_flag(snapshot: TrayStateSnapshot)
    ensures
        active(activity_of(snapshot)) <==> snapshot.recording || snapshot.live
            || snapshot.dictation || snapshot.voice || snapshot.copilot,
{
}

/// What the palette is told when something began or ended.
#[derive(Copy, Clone, Debug)]
pub struct PaletteRefresh {
    pub source: &'static str,
    pub active: bool,
}

/// Everything that the tray shows of the activity.
#[derive(Copy, Clone, Debug)]
pub struct TrayRendering {
    pub icon: TrayIcon,
    /// Active-state icons render with template tinting off so their colored
    /// dot is visible; idle uses the template so the M adopts the menu-bar tint.
    pub icon_as_template: bool,
    pub tooltip: &'static str,
    pub record_enabled: bool,
    pub quick_thought_enabled: bool,
    pub paste_last_dictation_enabled: bool,
    pub reprocess_last_dictation_enabled: bool,
    pub stop_enabled: bool,
    pub stop_label: &'static str,
    pub coach_label: &'static str,
    pub voice_label: &'static str,
    pub palette_refresh: Option<PaletteRefresh>,
}

pub open spec fn coach_label_for(copilot: bool) -> Seq<char> {
    if copilot {
        "Coach ✓"@
    } else {
        "Coach"@
    }
}

pub open spec fn voice_label_for(voice: bool) -> Seq<char> {
    if voice {
        "Voice ✓"@
    } else {
        "Voice"@
    }
}

pub fn coach_label(copilot: bool) -> (label: &'static str)
    ensures
        label@ == coach_label_for(copilot),
{
    if copilot {
        "Coach ✓"
    } else {
        "Coach"
    }
}

pub fn voice_label(voice: bool) -> (label: &'static str)
    ensures
        label@ == voice_label_for(voice),
{
    if voice {
        "Voice ✓"
    } else {
        "Voice"
    }
}

/// The rendering of an activity.
pub open spec fn rendering_of(
    rendering: TrayRendering,
    snapshot: TrayStateSnapshot,
    appearance: TrayAppearance,
    emit_palette_refresh: bool,
) -> bool {
    let activity = activity_of(snapshot);
    &&& rendering.icon == icon_for(activity, appearance)
    &&& rendering.icon_as_template == !active(activity)
    &&& rendering.tooltip@ == tooltip_for(activity)
    &&& rendering.record_enabled == !blocks_capture(activity)
    &&& rendering.quick_thought_enabled == !blocks_capture(activity)
    &&& rendering.paste_last_dictation_enabled == !active(activity)
    &&& rendering.reprocess_last_dictation_enabled == !active(activity)
    &&& rendering.stop_enabled == active(activity)
    &&& rendering.stop_label@ == stop_label_for(activity)
    &&& rendering.coach_label@ == coach_label_for(snapshot.copilot)
    &&& rendering.voice_label@ == voice_label_for(snapshot.voice)
    &&& rendering.palette_refresh is Some == emit_palette_refresh
    &&& rendering.palette_refresh matches Some(refresh) ==> refresh.source@ == palette_source_for(
        activity,
    ) && refresh.active == active(activity)
}

/// Renders the tray for a snapshot of the flags. A lifecycle transition wakes
/// the palette so that it re-fetches its commands; a change of appearance
/// alone does not.
pub fn render_tray(
    snapshot: TrayStateSnapshot,
    appearance: TrayAppearance,
    emit_palette_refresh: bool,
) -> (rendering: TrayRendering)
    ensures
        rendering_of(rendering, snapshot, appearance, emit_palette_refresh),
{
    let activity = derive_tray_activity(snapshot);
    TrayRendering {
        icon: activity.icon(appearance),
        icon_as_template: !activity.is_active(),
        tooltip: activity.tooltip(),
        record_enabled: !activity.blocks_capture_controls(),
        quick_thought_enabled: !activity.blocks_capture_controls(),
        paste_last_dictation_enabled: !activity.is_active(),
        reprocess_last_dictation_enabled: !activity.is_active(),
        stop_enabled: activity.is_active(),
        stop_label: activity.stop_label(),
        coach_label: coach_label(snapshot.copilot),
        voice_label: voice_label(snapshot.voice),
        palette_refresh: if emit_palette_refresh {
            Some(PaletteRefresh { source: activity.palette_source(), active: activity.is_active() })
        } else {
            None
        },
    }
}

/// Re-sync of the tray after a lifecycle flag changed.
pub fn sync_tray_state(snapshot: TrayStateSnapshot, appearance: TrayAppearance) -> (
    rendering: TrayRendering)
    ensures
        rendering_of(rendering, snapshot, appearance, true),
{
    render_tray(snapshot, appearance, true)
}

/// Re-paint of the tray after the system's appearance changed.
pub fn sync_tray_appearance(snapshot: TrayStateSnapshot, appearance: TrayAppearance) -> (
    rendering: TrayRendering)
    ensures
        rendering_of(rendering, snapshot, appearance, false),
{
    render_tray(snapshot, appearance, false)
}

/// What the Stop item stops.
#[derive(Copy, Clone, Debug, Eq, PartialEq, Structural)]
pub enum StopRoute {
    Recording,
    Live,
    Dictation,
    Voice,
    Copilot,
    /// There is nothing to stop.
    Nothing,
}

pub open spec fn route_of(activity: TrayActivity) -> StopRoute {
    match activity {
        TrayActivity::Idle => StopRoute::Nothing,
        TrayActivity::Recording => StopRoute::Recording,
        TrayActivity::Live => StopRoute::Live,
        TrayActivity::Dictation => StopRoute::Dictation,
        TrayActivity::Voice => StopRoute::Voice,
        TrayActivity::Copilot => StopRoute::Copilot,
    }
}

/// Routes Stop to the flow that the tray shows. Each has a way of its own to
/// stop; the order is that of `derive_tray_activity`.
pub fn stop_route(snapshot: TrayStateSnapshot) -> (route: StopRoute)
    ensures
        route == route_of(activity_of(snapshot)),
{
    if snapshot.recording {
        StopRoute::Recording
    } else if snapshot.live {
        StopRoute::Live
    } else if snapshot.dictation {
        StopRoute::Dictation
    } else if snapshot.voice {
        StopRoute::Voice
    } else if snapshot.copilot {
        StopRoute::Copilot
    } else {
        StopRoute::Nothing
    }
}

/// The Stop item is enabled exactly when there is something it stops.
pub proof fn lemma_enabled_stop_has_a_route(
    snapshot: TrayStateSnapshot,
    appearance: TrayAppearance,
    emit_palette_refresh: bool,
    rendering: TrayRendering,
)
    requires
        rendering_of(rendering, snapshot, appearance, emit_palette_refresh),
    ensures
        rendering.stop_enabled <==> route_of(activity_of(snapshot)) != StopRoute::Nothing,
{
}

/// Different activities are stopped in different ways.
pub proof fn lemma_routes_are_distinct(a: TrayActivity, b: TrayActivity)
    requires
        a != b,
    ensures
        route_of(a) != route_of(b),
{
}

/// A recording can be started from the tray only where no activity that the
/// start would be refused for is shown.
pub proof fn lemma_enabled_record_is_not_refused(
    snapshot: TrayStateSnapshot,
    appearance: TrayAppearance,
    emit_palette_refresh: bool,
    rendering: TrayRendering,
)
    requires
        rendering_of(rendering, snapshot, appearance, emit_palette_refresh),
        rendering.record_enabled,
    ensures
        !snapshot.recording && !snapshot.live && !snapshot.dictation && !snapshot.voice,
{
}

/// Whether a click on an item that starts a recording starts one: not while
/// one is on, nor while one is starting, so that a fast second click does
/// nothing.
pub fn tray_may_start_recording(recording_active: bool, starting: bool) -> (yes: bool)
    ensures
        yes == (!recording_active && !starting),
{
    !recording_active && !starting
}

/// How the tray goes on after Stop was clicked.
#[derive(Copy, Clone, Debug, Eq, PartialEq, Structural)]
pub enum AfterStop {
    /// Nothing was stopped: leave everything as it is.
    Nothing,
    /// Wait for the recording to end, then re-sync the tray.
    WaitForRecording,
    /// The session re-syncs the tray itself when it ends; only the
    /// transitional texts are reset. A sync now would race with the flag that
    /// is still set and enable Stop again.
    ResetTexts,
}

pub fn after_stop(route: StopRoute, stopped: bool) -> (next: AfterStop)
    ensures
        next == (if !stopped || route == StopRoute::Nothing {
            AfterStop::Nothing
        } else if route == StopRoute::Recording {
            AfterStop::WaitForRecording
        } else {
            AfterStop::ResetTexts
        }),
{
    if !stopped {
        return AfterStop::Nothing;
    }
    match route {
        StopRoute::Nothing => AfterStop::Nothing,
        StopRoute::Recording => AfterStop::WaitForRecording,
        _ => AfterStop::ResetTexts,
    }
}

/// What is shown while several things go on: a recording before a live
/// transcript, that before a dictation, that before a voice session, and all
/// of these before the coach.
pub proof fn lemma_what_is_shown_first(snapshot: TrayStateSnapshot)
    ensures
        snapshot.recording ==> activity_of(snapshot) == TrayActivity::Recording,
        !snapshot.recording && snapshot.live ==> activity_of(snapshot) == TrayActivity::Live,
        !snapshot.recording && !snapshot.live && snapshot.dictation ==> activity_of(snapshot)
            == TrayActivity::Dictation,
        !snapshot.recording && !snapshot.live && !snapshot.dictation && snapshot.voice
            ==> activity_of(snapshot) == TrayActivity::Voice,
        !snapshot.recording && !snapshot.live && !snapshot.dictation && !snapshot.voice
            && snapshot.copilot ==> activity_of(snapshot) == TrayActivity::Copilot,
        !snapshot.recording && !snapshot.live && !snapshot.dictation && !snapshot.voice
            && !snapshot.copilot ==> activity_of(snapshot) == TrayActivity::Idle,
{
}

/// What can be clicked: a capture can be started while nothing holds the
/// microphone for one, the coach aside; what is pasted or reprocessed needs
/// peace; and Stop is there for whatever goes on. Coach and Voice carry their
/// check mark while they are on, whatever else is.
pub proof fn lemma_what_can_be_clicked(
    rendering: TrayRendering,
    snapshot: TrayStateSnapshot,
    appearance: TrayAppearance,
    emit_palette_refresh: bool,
)
    requires
        rendering_of(rendering, snapshot, appearance, emit_palette_refresh),
    ensures
        ({
            let holds = snapshot.recording || snapshot.live || snapshot.dictation || snapshot.voice;
            let busy = holds || snapshot.copilot;
            &&& rendering.record_enabled == !holds
            &&& rendering.quick_thought_enabled == !holds
            &&& rendering.paste_last_dictation_enabled == !busy
            &&& rendering.reprocess_last_dictation_enabled == !busy
            &&& rendering.stop_enabled == busy
            &&& rendering.icon_as_template == !busy
            &&& rendering.coach_label@ == (if snapshot.copilot {
                "Coach ✓"@
            } else {
                "Coach"@
            })
            &&& rendering.voice_label@ == (if snapshot.voice {
                "Voice ✓"@
            } else {
                "Voice"@
            })
            &&& rendering.palette_refresh is Some == emit_palette_refresh
            &&& rendering.palette_refresh matches Some(refresh) ==> refresh.active == busy
        }),
{
}

/// Each thing that goes on is told in its own words: in the tooltip, on Stop,
/// and to the palette.
pub proof fn lemma_each_activity_has_its_words(
    rendering: TrayRendering,
    snapshot: TrayStateSnapshot,
    appearance: TrayAppearance,
    refresh: PaletteRefresh,
)
    requires
        rendering_of(rendering, snapshot, appearance, true),
        rendering.palette_refresh == Some(refresh),
    ensures
        snapshot.recording ==> rendering.tooltip@ == "Minutes — Recording..."@
            && rendering.stop_label@ == "Stop Recording"@ && refresh.source@ == "recording"@,
        !snapshot.recording && snapshot.live ==> rendering.tooltip@
            == "Minutes — Live Transcribing..."@ && rendering.stop_label@
            == "Stop Live Transcript"@ && refresh.source@ == "live-transcript"@,
        !snapshot.recording && !snapshot.live && snapshot.dictation ==> rendering.tooltip@
            == "Minutes — Dictating..."@ && rendering.stop_label@ == "Stop Dictation"@
            && refresh.source@ == "dictation"@,
        !snapshot.recording && !snapshot.live && !snapshot.dictation && snapshot.voice
            ==> rendering.tooltip@ == "Minutes — Voice Session..."@ && rendering.stop_label@
            == "Close Voice"@ && refresh.source@ == "voice"@,
        !snapshot.recording && !snapshot.live && !snapshot.dictation && !snapshot.voice
            && snapshot.copilot ==> rendering.tooltip@ == "Minutes — Coach Listening..."@
            && rendering.stop_label@ == "Stop Coach"@ && refresh.source@ == "copilot"@,
        !snapshot.recording && !snapshot.live && !snapshot.dictation && !snapshot.voice
            && !snapshot.copilot ==> rendering.tooltip@ == "Minutes"@ && rendering.stop_label@
            == "Stop Recording"@ && refresh.source@ == "idle"@,
{
}

/// What Stop stops is what the tray shows.
pub proof fn lemma_stop_stops_what_is_shown(snapshot: TrayStateSnapshot)
    ensures
        snapshot.recording ==> route_of(activity_of(snapshot)) == StopRoute::Recording,
        !snapshot.recording && snapshot.live ==> route_of(activity_of(snapshot)) == StopRoute::Live,
        !snapshot.recording && !snapshot.live && snapshot.dictation ==> route_of(
            activity_of(snapshot),
        ) == StopRoute::Dictation,
        !snapshot.recording && !snapshot.live && !snapshot.dictation && snapshot.voice ==> route_of(
            activity_of(snapshot),
        ) == StopRoute::Voice,
        !snapshot.recording && !snapshot.live && !snapshot.dictation && !snapshot.voice
            && snapshot.copilot ==> route_of(activity_of(snapshot)) == StopRoute::Copilot,
{
}

/// A dark theme makes the tray dark, and any other light; a code that nothing
/// was stored as reads as light.
pub proof fn lemma_appearance_follows_the_theme(code: u8)
    ensures
        appearance_of(Theme::Dark) == TrayAppearance::Dark,
        appearance_of(Theme::Light) == TrayAppearance::Light,
        appearance_of(Theme::Other) == TrayAppearance::Light,
        decoded(code) == TrayAppearance::Dark <==> code == 1,
{
}

/// The picture of each activity, by the file it is in.
pub proof fn lemma_which_picture_is_shown()
    ensures
        picture(TrayActivity::Idle, TrayAppearance::Light) == "icon-tray.png"@,
        picture(TrayActivity::Recording, TrayAppearance::Light) == "icon-recording.png"@,
        picture(TrayActivity::Recording, TrayAppearance::Dark) == "icon-recording-dark.png"@,
        picture(TrayActivity::Live, TrayAppearance::Light) == "icon-live.png"@,
        picture(TrayActivity::Live, TrayAppearance::Dark) == "icon-live-dark.png"@,
{
}

} // verus!
