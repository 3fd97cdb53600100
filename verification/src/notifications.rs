//! What the user is told after something was done for them, or could not be.

use vstd::prelude::*;

verus! {

/// A notification for the user.
#[derive(Debug, Clone, PartialEq, Eq)]
pub struct Notification {
    pub title: String,
    pub body: String,
}

/// A notification, with its texts as sequences of characters.
pub struct NotificationModel {
    pub title: Seq<char>,
    pub body: Seq<char>,
}

impl View for Notification {
    type V = NotificationModel;

    open spec fn view(&self) -> NotificationModel {
        NotificationModel { title: self.title@, body: self.body@ }
    }
}

pub open spec fn notification_model(n: Option<Notification>) -> Option<NotificationModel> {
    match n {
        Some(n) => Some(n@),
        None => None,
    }
}

/// Builds a notification.
pub fn notification(title: &str, body: String) -> (n: Notification)
    ensures
        n@ == (NotificationModel { title: title@, body: body@ }),
{
    Notification { title: title.to_owned(), body }
}

/// A task that a click in the tray starts.
#[derive(Copy, Clone, Debug, Eq, PartialEq, Structural)]
pub enum TrayTask {
    CopyLastDictation,
    PasteLastDictation,
    ReprocessLastDictation,
    CopyLatestSummary,
    CopyLatestTranscript,
    ToggleCoach,
    ToggleVoice,
    OpenAssistant,
    OpenMeetingsFolder,
}

/// The title under which a task that went well is told of. One whose effect
/// shows anyway is not told of.
pub open spec fn success_title(task: TrayTask) -> Option<Seq<char>> {
    match task {
        TrayTask::CopyLastDictation | TrayTask::PasteLastDictation => Some("Last dictation"@),
        TrayTask::ReprocessLastDictation => Some("Recovered dictation"@),
        TrayTask::CopyLatestSummary => Some("Latest summary"@),
        TrayTask::CopyLatestTranscript => Some("Latest transcript"@),
        _ => None,
    }
}

/// The title under which a task that failed is told of.
pub open spec fn failure_title(task: TrayTask) -> Seq<char> {
    match task {
        TrayTask::CopyLastDictation | TrayTask::PasteLastDictation => "Last dictation"@,
        TrayTask::ReprocessLastDictation => "Dictation recovery"@,
        TrayTask::CopyLatestSummary => "Latest summary"@,
        TrayTask::CopyLatestTranscript => "Latest transcript"@,
        TrayTask::ToggleCoach => "Coach"@,
        TrayTask::ToggleVoice => "Voice"@,
        TrayTask::OpenAssistant => "AI Assistant"@,
        TrayTask::OpenMeetingsFolder => "Meetings"@,
    }
}

/// What is told of a task that ended with this message, or failed for this
/// reason.
pub open spec fn told_of(task: TrayTask, result: Result<Seq<char>, Seq<char>>) -> Option<
    NotificationModel,
> {
    match result {
        Ok(message) => match success_title(task) {
            Some(title) => Some(NotificationModel { title, body: message }),
            None => None,
        },
        Err(reason) => Some(NotificationModel { title: failure_title(task), body: reason }),
    }
}

pub open spec fn result_model(result: Result<String, String>) -> Result<Seq<char>, Seq<char>> {
    match result {
        Ok(message) => Ok(message@),
        Err(reason) => Err(reason@),
    }
}

fn title_of_success(task: TrayTask) -> (title: Option<&'static str>)
    ensures
        match title {
            Some(t) => success_title(task) == Some(t@),
            None => success_title(task) is None,
        },
{
    match task {
        TrayTask::CopyLastDictation | TrayTask::PasteLastDictation => Some("Last dictation"),
        TrayTask::ReprocessLastDictation => Some("Recovered dictation"),
        TrayTask::CopyLatestSummary => Some("Latest summary"),
        TrayTask::CopyLatestTranscript => Some("Latest transcript"),
        _ => None,
    }
}

fn title_of_failure(task: TrayTask) -> (title: &'static str)
    ensures
        title@ == failure_title(task),
{
    match task {
        TrayTask::CopyLastDictation | TrayTask::PasteLastDictation => "Last dictation",
        TrayTask::ReprocessLastDictation => "Dictation recovery",
        TrayTask::CopyLatestSummary => "Latest summary",
        TrayTask::CopyLatestTranscript => "Latest transcript",
        TrayTask::ToggleCoach => "Coach",
        TrayTask::ToggleVoice => "Voice",
        TrayTask::OpenAssistant => "AI Assistant",
        TrayTask::OpenMeetingsFolder => "Meetings",
    }
}

/// What the user is told of a task.
pub fn task_notification(task: TrayTask, result: Result<String, String>) -> (told: Option<
    Notification,
>)
    ensures
        notification_model(told) == told_of(task, result_model(result)),
{
    match result {
        Ok(message) => match title_of_success(task) {
            Some(title) => Some(notification(title, message)),
            None => None,
        },
        Err(reason) => Some(notification(title_of_failure(task), reason)),
    }
}

/// No failure goes untold, and its reason is what is told.
pub proof fn lemma_failures_are_told(task: TrayTask, reason: Seq<char>)
    ensures
        told_of(task, Err(reason)) matches Some(n) && n.body == reason,
{
}

/// What is told of starting or stopping a sensitive meeting. Stopping gives
/// the path of what was saved, starting the title, where they are known.
pub open spec fn sensitive_told(
    was_active: bool,
    result: Result<Option<Seq<char>>, Seq<char>>,
) -> NotificationModel {
    match result {
        Ok(detail) => if was_active {
            NotificationModel {
                title: "Sensitive meeting saved"@,
                body: match detail {
                    Some(path) => path,
                    None => "Saved."@,
                },
            }
        } else {
            NotificationModel {
                title: "Sensitive meeting started"@,
                body: match detail {
                    Some(title) => title,
                    None => "Sensitive meeting"@,
                },
            }
        },
        Err(reason) => NotificationModel { title: "Sensitive meeting"@, body: reason },
    }
}

pub open spec fn detail_model(result: Result<Option<String>, String>) -> Result<
    Option<Seq<char>>,
    Seq<char>,
> {
    match result {
        Ok(Some(detail)) => Ok(Some(detail@)),
        Ok(None) => Ok(None),
        Err(reason) => Err(reason@),
    }
}

/// What the user is told when a sensitive meeting was stopped, where one was
/// active, or else started.
pub fn sensitive_notification(was_active: bool, result: Result<Option<String>, String>) -> (
    told: Notification)
    ensures
        told@ == sensitive_told(was_active, detail_model(result)),
{
    match result {
        Ok(detail) => {
            if was_active {
                let body = match detail {
                    Some(path) => path,
                    None => "Saved.".to_owned(),
                };
                notification("Sensitive meeting saved", body)
            } else {
                let body = match detail {
                    Some(title) => title,
                    None => "Sensitive meeting".to_owned(),
                };
                notification("Sensitive meeting started", body)
            }
        },
        Err(reason) => notification("Sensitive meeting", reason),
    }
}

/// The label that the tray item gets after that; none where it failed.
pub fn sensitive_label_after(was_active: bool, succeeded: bool) -> (label: Option<&'static str>)
    ensures
        match label {
            Some(l) => succeeded && l@ == (if was_active {
                "Sensitive Meeting"@
            } else {
                "Stop Sensitive Meeting"@
            }),
            None => !succeeded,
        },
{
    if !succeeded {
        return None;
    }
    if was_active {
        Some("Sensitive Meeting")
    } else {
        Some("Stop Sensitive Meeting")
    }
}

/// What a task that went well says is told under its own title; the toggles
/// and what opens a window speak for themselves.
pub proof fn lemma_successes_are_told(message: Seq<char>)
    ensures
        told_of(TrayTask::CopyLastDictation, Ok(message)) == Some(
            NotificationModel { title: "Last dictation"@, body: message },
        ),
        told_of(TrayTask::PasteLastDictation, Ok(message)) == Some(
            NotificationModel { title: "Last dictation"@, body: message },
        ),
        told_of(TrayTask::ReprocessLastDictation, Ok(message)) == Some(
            NotificationModel { title: "Recovered dictation"@, body: message },
        ),
        told_of(TrayTask::CopyLatestSummary, Ok(message)) == Some(
            NotificationModel { title: "Latest summary"@, body: message },
        ),
        told_of(TrayTask::CopyLatestTranscript, Ok(message)) == Some(
            NotificationModel { title: "Latest transcript"@, body: message },
        ),
        told_of(TrayTask::ToggleCoach, Ok(message)) is None,
        told_of(TrayTask::ToggleVoice, Ok(message)) is None,
        told_of(TrayTask::OpenAssistant, Ok(message)) is None,
        told_of(TrayTask::OpenMeetingsFolder, Ok(message)) is None,
{
}

/// What went wrong is told under the title of the task, whatever the task.
pub proof fn lemma_failures_have_titles(reason: Seq<char>)
    ensures
        told_of(TrayTask::CopyLastDictation, Err(reason)) == Some(
            NotificationModel { title: "Last dictation"@, body: reason },
        ),
        told_of(TrayTask::PasteLastDictation, Err(reason)) == Some(
            NotificationModel { title: "Last dictation"@, body: reason },
        ),
        told_of(TrayTask::ReprocessLastDictation, Err(reason)) == Some(
            NotificationModel { title: "Dictation recovery"@, body: reason },
        ),
        told_of(TrayTask::CopyLatestSummary, Err(reason)) == Some(
            NotificationModel { title: "Latest summary"@, body: reason },
        ),
        told_of(TrayTask::CopyLatestTranscript, Err(reason)) == Some(
            NotificationModel { title: "Latest transcript"@, body: reason },
        ),
        told_of(TrayTask::ToggleCoach, Err(reason)) == Some(
            NotificationModel { title: "Coach"@, body: reason },
        ),
        told_of(TrayTask::ToggleVoice, Err(reason)) == Some(
            NotificationModel { title: "Voice"@, body: reason },
        ),
        told_of(TrayTask::OpenAssistant, Err(reason)) == Some(
            NotificationModel { title: "AI Assistant"@, body: reason },
        ),
        told_of(TrayTask::OpenMeetingsFolder, Err(reason)) == Some(
            NotificationModel { title: "Meetings"@, body: reason },
        ),
{
}

/// A sensitive meeting is told of when it is started and when it is saved, each
/// with what is known of it; a failure is told as it is, either way.
pub proof fn lemma_sensitive_meeting_is_told_of(detail: Seq<char>, was_active: bool)
    ensures
        sensitive_told(true, Ok(Some(detail))) == (NotificationModel {
            title: "Sensitive meeting saved"@,
            body: detail,
        }),
        sensitive_told(false, Ok(Some(detail))) == (NotificationModel {
            title: "Sensitive meeting started"@,
            body: detail,
        }),
        sensitive_told(true, Ok(None)).body == "Saved."@,
        sensitive_told(false, Ok(None)).body == "Sensitive meeting"@,
        sensitive_told(true, Ok(None)).title == "Sensitive meeting saved"@,
        sensitive_told(false, Ok(None)).title == "Sensitive meeting started"@,
        sensitive_told(was_active, Err(detail)) == (NotificationModel {
            title: "Sensitive meeting"@,
            body: detail,
        }),
{
}

} // verus!
