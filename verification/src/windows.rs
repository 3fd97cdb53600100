//! Decisions about windows and about leaving the application.

use crate::text::{chars_of, joined, same_text};
use crate::tray;
use crate::tray::{Theme, TrayAppearance};
use vstd::prelude::*;

verus! {

/// The main window is hidden, shown and resized while the application lives
/// in the tray. A long-lived view that is transparent can crash when it is
/// framed anew while hidden, so it is opaque; its surfaces are solid anyway.
pub const MAIN_WINDOW_TRANSPARENT: bool = false;

pub const MAIN_WINDOW_APPLY_VIBRANCY: bool = false;

/// Whether a window is kept out of shared screens: Coach always, the others
/// where the user asked for it.
pub fn content_protection_for_window(label: &str, hidden: bool) -> (protected: bool)
    ensures
        protected == (label@ == "copilot-hud"@ || hidden),
{
    same_text(label, "copilot-hud") || hidden
}

/// A step in revealing a window that exists.
#[derive(Debug, Clone, Copy, PartialEq, Eq, Structural)]
pub enum RevealStep {
    Show,
    Unminimize,
    Focus,
}

pub open spec fn step_if(needed: bool, step: RevealStep) -> Seq<RevealStep> {
    if needed {
        seq![step]
    } else {
        Seq::empty()
    }
}

/// The steps that are needed, in order. What the system does not tell counts
/// as hidden, not minimized and not focused.
pub open spec fn reveal_steps(
    visible: Option<bool>,
    minimized: Option<bool>,
    focused: Option<bool>,
) -> Seq<RevealStep> {
    step_if(visible != Some(true), RevealStep::Show) + step_if(
        minimized == Some(true),
        RevealStep::Unminimize,
    ) + step_if(focused != Some(true), RevealStep::Focus)
}

/// Does only what is needed to reveal a window.
pub fn reveal_window(visible: Option<bool>, minimized: Option<bool>, focused: Option<bool>) -> (
    steps: Vec<RevealStep>)
    ensures
        steps@ == reveal_steps(visible, minimized, focused),
{
    let mut steps: Vec<RevealStep> = Vec::new();
    if !visible.unwrap_or(false) {
        steps.push(RevealStep::Show);
    }
    if minimized.unwrap_or(false) {
        steps.push(RevealStep::Unminimize);
    }
    if !focused.unwrap_or(false) {
        steps.push(RevealStep::Focus);
    }
    proof {
        assert(steps@ =~= reveal_steps(visible, minimized, focused));
    }
    steps
}

/// A window that is not focused is, last of all; one that is minimized is
/// restored directly before that.
pub proof fn lemma_restored_before_focused(
    visible: Option<bool>,
    minimized: Option<bool>,
    focused: Option<bool>,
)
    requires
        focused != Some(true),
    ensures
        ({
            let steps = reveal_steps(visible, minimized, focused);
            &&& steps.last() == RevealStep::Focus
            &&& minimized == Some(true) ==> steps[steps.len() - 2] == RevealStep::Unminimize
        }),
{
}

/// The label of a terminal window: its session's id, with hyphens for colons.
pub open spec fn terminal_label(session_id: Seq<char>) -> Seq<char> {
    session_id.map_values(
        |c: char|
            if c == ':' {
                '-'
            } else {
                c
            },
    )
}

pub fn terminal_window_label(session_id: &str) -> (label: String)
    ensures
        label@ == terminal_label(session_id@),
{
    let chars = chars_of(session_id);
    let mut label = String::new();
    let mut i: usize = 0;
    while i < chars.len()
        invariant
            i <= chars.len(),
            chars@ == session_id@,
            label@.len() == i,
            forall|j: int|
                0 <= j < i ==> label@[j] == (if session_id@[j] == ':' {
                    '-'
                } else {
                    session_id@[j]
                }),
        decreases chars.len() - i,
    {
        if chars[i] == ':' {
            label.push('-');
        } else {
            label.push(chars[i]);
        }
        i += 1;
    }
    proof {
        assert(label@ =~= terminal_label(session_id@));
    }
    label
}

/// The address of a terminal window; the page reads its session from it.
pub fn terminal_window_url(session_id: &str) -> (url: String)
    ensures
        url@ == "terminal.html#"@ + session_id@,
{
    joined("terminal.html#", session_id)
}

/// The event that tells a terminal window its title.
pub fn terminal_title_event(session_id: &str) -> (event: String)
    ensures
        event@ == "terminal:title:"@ + session_id@,
{
    joined("terminal:title:", session_id)
}

/// What happened to a window.
#[derive(Debug, Clone, Copy, PartialEq, Eq, Structural)]
pub enum WindowEventKind {
    CloseRequested,
    FocusLost,
    ThemeChanged(Theme),
    Other,
}

/// What is done about it.
#[derive(Debug, Clone, Copy, PartialEq, Eq, Structural)]
pub enum WindowReaction {
    /// The application stays in the tray; the window can be opened again.
    HideInsteadOfClosing,
    ClosePalette,
    /// Remember the appearance and paint the tray anew.
    Repaint(TrayAppearance),
    Nothing,
}

pub open spec fn reaction(
    label: Seq<char>,
    event: WindowEventKind,
    palette_open: bool,
) -> WindowReaction {
    match event {
        WindowEventKind::CloseRequested => if label == "main"@ {
            WindowReaction::HideInsteadOfClosing
        } else {
            WindowReaction::Nothing
        },
        WindowEventKind::FocusLost => if label == "palette"@ && palette_open {
            WindowReaction::ClosePalette
        } else {
            WindowReaction::Nothing
        },
        WindowEventKind::ThemeChanged(theme) => if label == "main"@ {
            WindowReaction::Repaint(tray::appearance_of(theme))
        } else {
            WindowReaction::Nothing
        },
        WindowEventKind::Other => WindowReaction::Nothing,
    }
}

/// The main window alone speaks for the theme, so that one change of it paints
/// the tray once.
pub fn react_to_window_event(label: &str, event: WindowEventKind, palette_open: bool) -> (
    what: WindowReaction)
    ensures
        what == reaction(label@, event, palette_open),
{
    match event {
        WindowEventKind::CloseRequested => {
            if same_text(label, "main") {
                WindowReaction::HideInsteadOfClosing
            } else {
                WindowReaction::Nothing
            }
        },
        WindowEventKind::FocusLost => {
            if same_text(label, "palette") && palette_open {
                WindowReaction::ClosePalette
            } else {
                WindowReaction::Nothing
            }
        },
        WindowEventKind::ThemeChanged(theme) => {
            if same_text(label, "main") {
                WindowReaction::Repaint(TrayAppearance::from_theme(theme))
            } else {
                WindowReaction::Nothing
            }
        },
        WindowEventKind::Other => WindowReaction::Nothing,
    }
}

/// Closing the main window never ends the application.
pub proof fn lemma_closing_main_only_hides(palette_open: bool)
    ensures
        reaction("main"@, WindowEventKind::CloseRequested, palette_open)
            == WindowReaction::HideInsteadOfClosing,
{
}

/// What is done when the application is asked to exit.
#[derive(Debug, Clone, Copy, PartialEq, Eq, Structural)]
pub enum ExitReaction {
    /// A restart: clean up and let it go on.
    CleanUp,
    /// Hold the exit back and leave cleanly with this code.
    ExitCleanly { code: i32 },
}

pub fn on_exit_requested(code: Option<i32>, restart_code: i32) -> (what: ExitReaction)
    ensures
        what == (match code {
            Some(c) => if c == restart_code {
                ExitReaction::CleanUp
            } else {
                ExitReaction::ExitCleanly { code: c }
            },
            None => ExitReaction::ExitCleanly { code: 0 },
        }),
{
    match code {
        Some(c) => {
            if c == restart_code {
                ExitReaction::CleanUp
            } else {
                ExitReaction::ExitCleanly { code: c }
            }
        },
        None => ExitReaction::ExitCleanly { code: 0 },
    }
}

/// Whether a clean exit is under way.
#[derive(Debug, Clone, Copy, PartialEq, Eq, Structural)]
pub struct CleanExit {
    pub started: bool,
}

/// What a request to leave leads to.
#[derive(Debug, Clone, Copy, PartialEq, Eq, Structural)]
pub enum CleanExitStep {
    /// One is under way already.
    AlreadyStarted,
    /// Ask the recording to stop first.
    StopRecording,
    /// Clean up and leave.
    Finish,
}

/// What is done after the recording was asked to stop.
#[derive(Debug, Clone, Copy, PartialEq, Eq, Structural)]
pub enum AfterStopRequest {
    /// It could not be asked: the exit is off, and can be asked for again.
    Abandoned,
    /// Wait for it to end, however long that takes, then leave.
    WaitThenFinish,
}

impl CleanExit {
    pub fn new() -> (exit: CleanExit)
        ensures
            !exit.started,
    {
        CleanExit { started: false }
    }

    pub fn request(&mut self, recording_active: bool) -> (step: CleanExitStep)
        ensures
            final(self).started,
            step == (if old(self).started {
                CleanExitStep::AlreadyStarted
            } else if recording_active {
                CleanExitStep::StopRecording
            } else {
                CleanExitStep::Finish
            }),
    {
        if self.started {
            return CleanExitStep::AlreadyStarted;
        }
        self.started = true;
        if recording_active {
            CleanExitStep::StopRecording
        } else {
            CleanExitStep::Finish
        }
    }

    pub fn stop_requested(&mut self, accepted: bool) -> (next: AfterStopRequest)
        ensures
            accepted ==> next == AfterStopRequest::WaitThenFinish && *final(self) == *old(self),
            !accepted ==> next == AfterStopRequest::Abandoned && !final(self).started,
    {
        if accepted {
            AfterStopRequest::WaitThenFinish
        } else {
            self.started = false;
            AfterStopRequest::Abandoned
        }
    }
}

/// To reveal a window is to show it unless it is seen, to restore it where it
/// is minimized, and to focus it unless it is focused, in this order; a state
/// that is not known is taken for the one in which there is more to do, but
/// for a window that may not be minimized.
pub proof fn lemma_how_a_window_is_revealed(
    visible: Option<bool>,
    minimized: Option<bool>,
    focused: Option<bool>,
)
    ensures
        reveal_steps(Some(true), Some(false), Some(true)) == Seq::<RevealStep>::empty(),
        reveal_steps(Some(false), Some(true), Some(false)) == seq![
            RevealStep::Show,
            RevealStep::Unminimize,
            RevealStep::Focus,
        ],
        reveal_steps(None, None, None) == seq![RevealStep::Show, RevealStep::Focus],
        reveal_steps(visible, minimized, focused).contains(RevealStep::Show) <==> visible != Some(
            true,
        ),
        reveal_steps(visible, minimized, focused).contains(RevealStep::Unminimize) <==> minimized
            == Some(true),
        reveal_steps(visible, minimized, focused).contains(RevealStep::Focus) <==> focused != Some(
            true,
        ),
{
    let steps = reveal_steps(visible, minimized, focused);
    let shows: int = if visible != Some(true) {
        1
    } else {
        0
    };
    let restores: int = if minimized == Some(true) {
        1
    } else {
        0
    };
    if visible != Some(true) {
        assert(steps[0] == RevealStep::Show);
    }
    if minimized == Some(true) {
        assert(steps[shows] == RevealStep::Unminimize);
    }
    if focused != Some(true) {
        assert(steps[shows + restores] == RevealStep::Focus);
    }
    assert(reveal_steps(Some(true), Some(false), Some(true)) =~= Seq::<RevealStep>::empty());
    assert(reveal_steps(Some(false), Some(true), Some(false)) =~= seq![
        RevealStep::Show,
        RevealStep::Unminimize,
        RevealStep::Focus,
    ]);
    assert(reveal_steps(None, None, None) =~= seq![RevealStep::Show, RevealStep::Focus]);
}

/// The label of a terminal holds no colon, and is the session otherwise.
pub proof fn lemma_terminal_label_has_no_colon(session_id: Seq<char>, i: int)
    requires
        0 <= i < session_id.len(),
    ensures
        terminal_label(session_id).len() == session_id.len(),
        !terminal_label(session_id).contains(':'),
        session_id[i] != ':' ==> terminal_label(session_id)[i] == session_id[i],
        session_id[i] == ':' ==> terminal_label(session_id)[i] == '-',
{
    let label = terminal_label(session_id);
    assert forall|j: int| 0 <= j < label.len() implies label[j] != ':' by {
        assert(label[j] == if session_id[j] == ':' {
            '-'
        } else {
            session_id[j]
        });
    }
}

/// Which window reacts to what: only the main one is hidden when it is to be
/// closed and repaints the tray with the theme, only an open palette closes
/// when it loses the focus, and nothing else has an effect.
pub proof fn lemma_which_window_reacts(label: Seq<char>, theme: Theme, palette_open: bool)
    ensures
        reaction(label, WindowEventKind::CloseRequested, palette_open)
            == WindowReaction::HideInsteadOfClosing <==> label == "main"@,
        reaction(label, WindowEventKind::FocusLost, palette_open) == WindowReaction::ClosePalette
            <==> label == "palette"@ && palette_open,
        label != "main"@ ==> reaction(label, WindowEventKind::CloseRequested, palette_open)
            == WindowReaction::Nothing,
        label != "palette"@ || !palette_open ==> reaction(
            label,
            WindowEventKind::FocusLost,
            palette_open,
        ) == WindowReaction::Nothing,
        reaction("main"@, WindowEventKind::ThemeChanged(Theme::Dark), palette_open)
            == WindowReaction::Repaint(TrayAppearance::Dark),
        reaction("main"@, WindowEventKind::ThemeChanged(Theme::Light), palette_open)
            == WindowReaction::Repaint(TrayAppearance::Light),
        reaction("main"@, WindowEventKind::ThemeChanged(Theme::Other), palette_open)
            == WindowReaction::Repaint(TrayAppearance::Light),
        label != "main"@ ==> reaction(label, WindowEventKind::ThemeChanged(theme), palette_open)
            == WindowReaction::Nothing,
        reaction(label, WindowEventKind::Other, palette_open) == WindowReaction::Nothing,
{
}

} // verus!
