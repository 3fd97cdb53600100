//! What a check for updates comes to: what the user is told, and whether the
//! update is announced now or when the session that is on has ended.

use crate::notifications;
use crate::notifications::{Notification, NotificationModel};
use crate::text;
use crate::text::{contains_text, joined};
use vstd::prelude::*;

verus! {

/// Seconds between two checks.
pub const CHECK_INTERVAL_SECS: u64 = 21600;

/// Seconds between two looks whether a deferred update can be announced.
pub const DEFERRED_POLL_SECS: u64 = 30;

/// How many looks there are between two checks.
pub fn deferred_polls() -> (n: u64)
    ensures
        n == 720,
        n * DEFERRED_POLL_SECS == CHECK_INTERVAL_SECS,
{
    CHECK_INTERVAL_SECS / DEFERRED_POLL_SECS
}

/// A build for development does not replace itself with a release: it checks
/// only when asked to.
pub fn is_development_build(identifier: &str) -> (yes: bool)
    ensures
        yes == text::occurs_in(".dev"@, identifier@),
{
    contains_text(text::chars_of(identifier).as_slice(), ".dev")
}

/// What is going on while an update is found.
#[derive(Debug, Clone, Copy, PartialEq, Eq, Structural)]
pub struct SessionFlags {
    pub recording: bool,
    pub starting: bool,
    pub processing: bool,
    pub live_transcript: bool,
    pub dictation: bool,
}

pub open spec fn in_session(flags: SessionFlags) -> bool {
    flags.recording || flags.starting || flags.processing || flags.live_transcript
        || flags.dictation
}

/// What the updater answered.
#[derive(Debug)]
pub enum UpdateCheck {
    /// It could not be started.
    InitFailed { error: String },
    /// It could not ask.
    CheckFailed { error: String },
    UpToDate,
    Available { version: String },
}

pub enum CheckModel {
    InitFailed { error: Seq<char> },
    CheckFailed { error: Seq<char> },
    UpToDate,
    Available { version: Seq<char> },
}

impl View for UpdateCheck {
    type V = CheckModel;

    open spec fn view(&self) -> CheckModel {
        match *self {
            UpdateCheck::InitFailed { error } => CheckModel::InitFailed { error: error@ },
            UpdateCheck::CheckFailed { error } => CheckModel::CheckFailed { error: error@ },
            UpdateCheck::UpToDate => CheckModel::UpToDate,
            UpdateCheck::Available { version } => CheckModel::Available { version: version@ },
        }
    }
}

/// What to do with the answer.
#[derive(Debug)]
pub struct UpdateDecision {
    pub notification: Option<Notification>,
    /// The update is remembered, to be announced at the latest when the
    /// session has ended.
    pub remember: bool,
    pub show_main_window: bool,
    pub announce: bool,
}

/// What the user is told in a notification: only one who asked is told
/// anything.
pub open spec fn update_notification(
    check: CheckModel,
    manual: bool,
    session: bool,
) -> Option<NotificationModel> {
    if !manual {
        None
    } else {
        match check {
            CheckModel::InitFailed { error } => Some(
                NotificationModel {
                    title: "Updates"@,
                    body: "Could not initialize the updater: "@ + error,
                },
            ),
            CheckModel::CheckFailed { error } => Some(
                NotificationModel {
                    title: "Updates"@,
                    body: "Could not check for updates: "@ + error,
                },
            ),
            CheckModel::UpToDate => Some(
                NotificationModel { title: "Updates"@, body: "Minutes is up to date."@ },
            ),
            CheckModel::Available { version } => if session {
                Some(
                    NotificationModel {
                        title: "Update available"@,
                        body: "Minutes "@ + version
                            + " is ready. Finish the current session and the update banner will appear."@,
                    },
                )
            } else {
                None
            },
        }
    }
}

/// A decision, with its texts as sequences of characters.
pub struct DecisionModel {
    pub notification: Option<NotificationModel>,
    pub remember: bool,
    pub show_main_window: bool,
    pub announce: bool,
}

impl View for UpdateDecision {
    type V = DecisionModel;

    open spec fn view(&self) -> DecisionModel {
        DecisionModel {
            notification: notifications::notification_model(self.notification),
            remember: self.remember,
            show_main_window: self.show_main_window,
            announce: self.announce,
        }
    }
}

/// What is done with an answer. `flags` are those of the application's state,
/// where there is one.
pub open spec fn update_decision(
    check: CheckModel,
    manual: bool,
    flags: Option<SessionFlags>,
) -> DecisionModel {
    let session = flags matches Some(f) && in_session(f);
    let available = check is Available;
    DecisionModel {
        notification: update_notification(check, manual, session),
        remember: available && flags is Some,
        show_main_window: available && !session && manual,
        announce: available && !session,
    }
}

/// Decides what to do with what the updater answered.
pub fn decide_update(check: &UpdateCheck, manual: bool, flags: Option<SessionFlags>) -> (
    decision: UpdateDecision)
    ensures
        decision@ == update_decision(check@, manual, flags),
{
    let session = match flags {
        Some(f) => f.recording || f.starting || f.processing || f.live_transcript || f.dictation,
        None => false,
    };
    match check {
        UpdateCheck::Available { version } => {
            let notification = if manual && session {
                Some(
                    Notification {
                        title: "Update available".to_owned(),
                        body: joined("Minutes ", version.as_str()).concat(
                            " is ready. Finish the current session and the update banner will appear.",
                        ),
                    },
                )
            } else {
                None
            };
            UpdateDecision {
                notification,
                remember: flags.is_some(),
                show_main_window: manual && !session,
                announce: !session,
            }
        },
        _ => {
            let notification = if !manual {
                None
            } else {
                let body = match check {
                    UpdateCheck::InitFailed { error } => joined(
                        "Could not initialize the updater: ",
                        error.as_str(),
                    ),
                    UpdateCheck::CheckFailed { error } => joined(
                        "Could not check for updates: ",
                        error.as_str(),
                    ),
                    _ => "Minutes is up to date.".to_owned(),
                };
                Some(Notification { title: "Updates".to_owned(), body })
            };
            UpdateDecision {
                notification,
                remember: false,
                show_main_window: false,
                announce: false,
            }
        },
    }
}

/// A session is never interrupted by an update, and none that was found is
/// lost: it is remembered, and announced at once where no session is on.
pub proof fn lemma_update_waits_for_the_session(
    check: CheckModel,
    manual: bool,
    flags: SessionFlags,
)
    ensures
        ({
            let decision = update_decision(check, manual, Some(flags));
            &&& in_session(flags) ==> !decision.announce && !decision.show_main_window
            &&& check is Available ==> decision.remember && (decision.announce || in_session(flags))
        }),
{
}

/// Nobody who did not ask is told that there is nothing new, or that a check
/// failed.
pub proof fn lemma_background_check_is_quiet(check: CheckModel, flags: Option<SessionFlags>)
    ensures
        ({
            let decision = update_decision(check, false, flags);
            &&& decision.notification is None
            &&& !decision.show_main_window
            &&& !(check is Available) ==> !decision.announce && !decision.remember
        }),
{
}

/// An update is announced at once where nothing is going on: no recording, none
/// that starts or is being processed, no live transcript and no dictation. It
/// waits where any of these is, and is remembered either way.
pub proof fn lemma_when_an_update_is_announced(
    version: Seq<char>,
    manual: bool,
    flags: SessionFlags,
)
    ensures
        ({
            let decision = update_decision(CheckModel::Available { version }, manual, Some(flags));
            let idle = !flags.recording && !flags.starting && !flags.processing
                && !flags.live_transcript && !flags.dictation;
            &&& decision.announce <==> idle
            &&& decision.show_main_window <==> idle && manual
            &&& decision.remember
            &&& decision.notification is Some <==> manual && !idle
        }),
{
}

/// A check that found no update announces none, remembers none and leaves the
/// window where it is.
pub proof fn lemma_no_update_is_not_announced(
    error: Seq<char>,
    manual: bool,
    flags: Option<SessionFlags>,
    check: CheckModel,
)
    requires
        check == CheckModel::UpToDate || check == (CheckModel::InitFailed { error }) || check == (
        CheckModel::CheckFailed { error }),
    ensures
        !update_decision(check, manual, flags).announce,
        !update_decision(check, manual, flags).remember,
        !update_decision(check, manual, flags).show_main_window,
        update_decision(check, manual, flags).notification is Some <==> manual,
{
}

/// Who asks is answered: with the error, with the version that waits, or that
/// there is nothing newer.
pub proof fn lemma_asking_is_answered(
    error: Seq<char>,
    version: Seq<char>,
    flags: Option<SessionFlags>,
)
    ensures
        update_decision(CheckModel::InitFailed { error }, true, flags).notification == Some(
            NotificationModel {
                title: "Updates"@,
                body: "Could not initialize the updater: "@ + error,
            },
        ),
        update_decision(CheckModel::CheckFailed { error }, true, flags).notification == Some(
            NotificationModel {
                title: "Updates"@,
                body: "Could not check for updates: "@ + error,
            },
        ),
        update_decision(CheckModel::UpToDate, true, flags).notification == Some(
            NotificationModel { title: "Updates"@, body: "Minutes is up to date."@ },
        ),
        flags is Some && flags->0.recording ==> update_decision(
            CheckModel::Available { version },
            true,
            flags,
        ).notification == Some(
            NotificationModel {
                title: "Update available"@,
                body: "Minutes "@ + version
                    + " is ready. Finish the current session and the update banner will appear."@,
            },
        ),
{
}

/// Checks are six hours apart, and an update that waits is looked after twice
/// a minute.
pub proof fn lemma_how_often_updates_are_looked_for()
    ensures
        CHECK_INTERVAL_SECS == 6 * 60 * 60,
        2 * DEFERRED_POLL_SECS == 60,
{
}

} // verus!
